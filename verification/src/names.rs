use vstd::prelude::*;
use vstd::utf8::encode_utf8;

verus! {

/// A text, as the sequence of its characters.
pub type Text = Seq<char>;

/// The upper-case form that the standard library gives a text.
pub uninterp spec fn uppercase(text: Seq<char>) -> Seq<char>;

/// The lower-case form that the standard library gives a text.
pub uninterp spec fn lowercase(text: Seq<char>) -> Seq<char>;

/// The length of a text in bytes, as UTF-8.
pub open spec fn byte_len(text: Seq<char>) -> nat {
    encode_utf8(text).len()
}

/// The text of an optional name.
pub open spec fn name_of(name: Option<&str>) -> Option<Seq<char>> {
    match name {
        Some(n) => Some(n@),
        None => None,
    }
}

/// The text of an optional owned name.
pub open spec fn owned_name_of(name: Option<String>) -> Option<Seq<char>> {
    match name {
        Some(n) => Some(n@),
        None => None,
    }
}

/// Borrows an optional owned name.
pub fn name_ref(name: &Option<String>) -> (r: Option<&str>)
    ensures
        name_of(r) == owned_name_of(*name),
{
    match name {
        Some(n) => Some(n.as_str()),
        None => None,
    }
}

/// Whether two texts of the given lengths and case foldings stand for one name.
pub open spec fn folds_match(
    len: nat,
    other_len: nat,
    upper: Seq<char>,
    other_upper: Seq<char>,
    lower: Seq<char>,
    other_lower: Seq<char>,
) -> bool {
    len == other_len && (upper == other_upper || lower == other_lower)
}

/// Whether something registered under `name` applies to a request for `other`.
///
/// No name applies to every request. A name applies to a request for a name of
/// the same byte length that is equal to it once both are upper-cased, or once
/// both are lower-cased.
pub open spec fn names_match(name: Option<Seq<char>>, other: Option<Seq<char>>) -> bool {
    match name {
        None => true,
        Some(a) => match other {
            None => false,
            Some(b) => folds_match(
                byte_len(a),
                byte_len(b),
                uppercase(a),
                uppercase(b),
                lowercase(a),
                lowercase(b),
            ),
        },
    }
}

/// `str::to_uppercase`: the result is the standard library's upper-case form
/// of the argument, which depends on the argument alone.
#[verifier::external_body]
fn to_upper(text: &str) -> (r: String)
    ensures
        r@ == uppercase(text@),
{
    text.to_uppercase()
}

/// `str::to_lowercase`: the result is the standard library's lower-case form
/// of the argument, which depends on the argument alone.
#[verifier::external_body]
fn to_lower(text: &str) -> (r: String)
    ensures
        r@ == lowercase(text@),
{
    text.to_lowercase()
}

/// Decides from the byte lengths and the case foldings of two names whether
/// they are the same name.
pub fn folded_names_equal(
    len: usize,
    other_len: usize,
    upper: &String,
    other_upper: &String,
    lower: &String,
    other_lower: &String,
) -> (r: bool)
    ensures
        r == folds_match(
            len as nat,
            other_len as nat,
            upper@,
            other_upper@,
            lower@,
            other_lower@,
        ),
{
    len == other_len && (*upper == *other_upper || *lower == *other_lower)
}

/// Decides whether something registered under `name` applies to a request for
/// `other_name`.
pub fn names_equal(name: Option<&str>, other_name: Option<&str>) -> (r: bool)
    ensures
        r == names_match(name_of(name), name_of(other_name)),
{
    match name {
        None => true,
        Some(name1) => match other_name {
            None => false,
            Some(name2) => {
                let upper1 = to_upper(name1);
                let upper2 = to_upper(name2);
                let lower1 = to_lower(name1);
                let lower2 = to_lower(name2);
                folded_names_equal(
                    name1.as_bytes().len(),
                    name2.as_bytes().len(),
                    &upper1,
                    &upper2,
                    &lower1,
                    &lower2,
                )
            },
        },
    }
}

/// A registration without a name applies to every request.
pub proof fn lemma_unnamed_matches_all(other: Option<Seq<char>>)
    ensures
        names_match(None, other),
{
}

/// A named registration never applies to a request without a name.
pub proof fn lemma_named_misses_unnamed(name: Seq<char>)
    ensures
        !names_match(Some(name), None),
{
}

/// Every name applies to itself.
pub proof fn lemma_names_match_reflexive(name: Option<Seq<char>>)
    ensures
        names_match(name, name),
{
}

/// Between two names that are present, matching does not depend on the order.
pub proof fn lemma_names_match_symmetric(name: Seq<char>, other: Seq<char>)
    ensures
        names_match(Some(name), Some(other)) == names_match(Some(other), Some(name)),
{
}

/// Names of different byte lengths do not match.
pub proof fn lemma_names_of_different_length_differ(name: Seq<char>, other: Seq<char>)
    requires
        byte_len(name) != byte_len(other),
    ensures
        !names_match(Some(name), Some(other)),
{
}

} // verus!
