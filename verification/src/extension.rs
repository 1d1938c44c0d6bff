//! The filter that decides which files are organized at all.

use vstd::prelude::*;

use crate::text::{chars_of, contains, lemma_occurs_in_longer, occurs_in};

verus! {

/// The upper-case form of a text, as the standard library's
/// `str::to_uppercase` gives it: Unicode's mapping, under which one character
/// may become several.
pub uninterp spec fn uppercase_of(text: Seq<char>) -> Seq<char>;

/// Calls `str::to_uppercase`. Nothing is claimed of the result but that it is
/// the upper-case form of the argument, which depends on the argument alone.
#[verifier::external_body]
fn to_uppercase(text: &str) -> (upper: String)
    ensures
        upper@ == uppercase_of(text@),
{
    text.to_uppercase()
}

/// Whether a text in upper case holds one of the extensions that mark a file
/// for organizing. The extension may stand anywhere in the text, not only at
/// its end.
pub open spec fn has_allowed_extension(upper: Seq<char>) -> bool {
    ||| occurs_in(upper, ".JPG"@)
    ||| occurs_in(upper, ".JPEG"@)
    ||| occurs_in(upper, ".PNG"@)
    ||| occurs_in(upper, ".PDF"@)
    ||| occurs_in(upper, ".JS"@)
}

/// Whether `upper`, a name already in upper case, holds an allowed extension.
pub fn contains_allowed_extension(upper: &str) -> (allowed: bool)
    ensures
        allowed == has_allowed_extension(upper@),
{
    let text = chars_of(upper);
    contains(&text, &chars_of(".JPG")) || contains(&text, &chars_of(".JPEG")) || contains(
        &text,
        &chars_of(".PNG"),
    ) || contains(&text, &chars_of(".PDF")) || contains(&text, &chars_of(".JS"))
}

/// Whether a file of this name is organized: its name, whatever the case of
/// its letters, holds `.jpg`, `.jpeg`, `.png`, `.pdf` or `.js` somewhere.
pub fn check_extension(file_name: &str) -> (allowed: bool)
    ensures
        allowed == has_allowed_extension(uppercase_of(file_name@)),
{
    let upper = to_uppercase(file_name);
    contains_allowed_extension(upper.as_str())
}

/// The filter looks for an extension anywhere in the name: a name that holds
/// one keeps holding it whatever is written before or behind it, so a name
/// such as `archive.js.bak` passes.
pub proof fn lemma_extension_anywhere(before: Seq<char>, upper: Seq<char>, after: Seq<char>)
    requires
        has_allowed_extension(upper),
    ensures
        has_allowed_extension(before + upper + after),
{
    if occurs_in(upper, ".JPG"@) {
        lemma_occurs_in_longer(before, upper, after, ".JPG"@);
    } else if occurs_in(upper, ".JPEG"@) {
        lemma_occurs_in_longer(before, upper, after, ".JPEG"@);
    } else if occurs_in(upper, ".PNG"@) {
        lemma_occurs_in_longer(before, upper, after, ".PNG"@);
    } else if occurs_in(upper, ".PDF"@) {
        lemma_occurs_in_longer(before, upper, after, ".PDF"@);
    } else {
        lemma_occurs_in_longer(before, upper, after, ".JS"@);
    }
}

} // verus!
