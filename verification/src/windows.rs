//! The windows of a sign-in.

use vstd::prelude::*;

use crate::{numbers, text};

verus! {

/// The label of a sign-in window.
pub open spec fn popup_label(number: nat) -> Seq<char> {
    "oauthPopup"@ + numbers::decimal(number)
}

/// The label of the sign-in window with the given number.
pub fn oauth_popup_label(number: u64) -> (label: String)
    ensures
        label@ == popup_label(number as nat),
{
    let digits = numbers::to_decimal(number);
    text::chained("oauthPopup", digits.as_str())
}

/// A title that sign-in pages have.
pub open spec fn sign_in_title(title: Seq<char>) -> bool {
    ||| text::occurs_in(title, "Earth Engine sign-in"@)
    ||| text::occurs_in(title, "accounts.google.com"@)
    ||| text::occurs_in(title, "Google"@)
}

/// A window that belongs to a sign-in, by its label or by its title.
pub open spec fn oauth_popup(label: Seq<char>, title: Option<Seq<char>>) -> bool {
    "oauthPopup"@.is_prefix_of(label) || (title matches Some(title) && sign_in_title(title))
}

/// Whether a window belongs to a sign-in. Its title may not be known.
pub fn is_oauth_popup(label: &str, title: Option<&str>) -> (answer: bool)
    ensures
        answer == oauth_popup(label@, text::str_view_of(title)),
{
    if text::has_prefix(label, "oauthPopup") {
        return true;
    }
    match title {
        Some(title) => text::has_text(title, "Earth Engine sign-in") || text::has_text(
            title,
            "accounts.google.com",
        ) || text::has_text(title, "Google"),
        None => false,
    }
}

/// Every sign-in window is recognized by its label, whatever its title, and no two have the same
/// label.
pub proof fn popup_labels_are_recognized_and_distinct(
    number: nat,
    other: nat,
    title: Option<Seq<char>>,
)
    ensures
        oauth_popup(popup_label(number), title),
        number != other ==> popup_label(number) != popup_label(other),
{
    let start = "oauthPopup"@;
    let label = popup_label(number);
    assert(label.subrange(0, start.len() as int) == start);
    numbers::decimal_reads_back(number);
    numbers::decimal_reads_back(other);
    if label == popup_label(other) {
        assert(label.skip(start.len() as int) == numbers::decimal(number));
        assert(popup_label(other).skip(start.len() as int) == numbers::decimal(other));
    }
}

/// A window belongs to a sign-in exactly where its label begins with `oauthPopup`, or its title
/// holds the title of a sign-in page.
pub proof fn sign_in_windows_are_told_by_label_or_title(
    number: nat,
    label: Seq<char>,
    title: Seq<char>,
)
    ensures
        popup_label(number) == "oauthPopup"@ + numbers::decimal(number),
        oauth_popup(label, None) <==> "oauthPopup"@.is_prefix_of(label),
        oauth_popup(label, Some(title)) <==> {
            ||| "oauthPopup"@.is_prefix_of(label)
            ||| text::occurs_in(title, "Earth Engine sign-in"@)
            ||| text::occurs_in(title, "accounts.google.com"@)
            ||| text::occurs_in(title, "Google"@)
        },
{
}

} // verus!
