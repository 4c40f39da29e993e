//! Identifier normalizer: turns a raw user input (numeric ID, vanity name,
//! or ready-made address) into one canonical page address per target page.

use vstd::prelude::*;
use vstd::string::*;

use crate::text::{all_digits, find, find_from, str_to_chars};

verus! {

/// The platform's canonical domain.
pub open spec fn spec_domain() -> Seq<char> {
    "steamcommunity.com"@
}

/// `s` holds the canonical domain as a substring.
pub open spec fn contains_domain(s: Seq<char>) -> bool {
    find_from(s, spec_domain(), 0) >= 0
}

/// `s` is a numeric profile ID: exactly 17 characters, all ASCII digits.
pub open spec fn is_numeric_id(s: Seq<char>) -> bool {
    s.len() == 17 && all_digits(s)
}

/// The address prefix for numeric profile IDs.
pub open spec fn profiles_prefix() -> Seq<char> {
    "https://steamcommunity.com/profiles/"@
}

/// The address prefix for vanity names.
pub open spec fn vanity_prefix() -> Seq<char> {
    "https://steamcommunity.com/id/"@
}

/// The canonical profile page address for a raw input, by the three
/// classification rules in priority order: a string holding the domain is
/// already an address; a 17-digit string is a numeric ID; anything else is
/// a vanity name.
pub open spec fn normalized_url(s: Seq<char>) -> Seq<char> {
    if contains_domain(s) {
        s
    } else if is_numeric_id(s) {
        profiles_prefix() + s
    } else {
        vanity_prefix() + s
    }
}

/// Whether `s` holds the canonical domain as a substring.
pub fn check_link(s: &str) -> (r: bool)
    ensures
        r == contains_domain(s@),
{
    let chars = str_to_chars(s);
    let pat = str_to_chars("steamcommunity.com");
    find(&chars, &pat).is_some()
}

/// Whether `s` is a numeric profile ID: exactly 17 characters, all of them
/// ASCII digits.
pub fn check_id(s: &str) -> (r: bool)
    ensures
        r == is_numeric_id(s@),
{
    let chars = str_to_chars(s);
    if chars.len() != 17 {
        return false;
    }
    let mut i: usize = 0;
    while i < chars.len()
        invariant
            chars@ == s@,
            i <= chars@.len(),
            forall|j: int| 0 <= j < i ==> crate::text::is_digit_char(s@[j]),
        decreases chars@.len() - i,
    {
        let c = chars[i];
        if !('0' <= c && c <= '9') {
            return false;
        }
        i += 1;
    }
    true
}

/// The canonical profile page address for the raw input `inp`, as
/// `normalized_url` gives it. Pure and total: an input holding the domain
/// comes back unchanged, a 17-digit input becomes the numeric-ID address,
/// and any other input becomes the vanity-name address.
pub fn convert_to_url(inp: &str) -> (r: String)
    ensures
        r@ == normalized_url(inp@),
        contains_domain(inp@) ==> r@ == inp@,
        !contains_domain(inp@) && is_numeric_id(inp@) ==> r@ == profiles_prefix() + inp@,
        !contains_domain(inp@) && !is_numeric_id(inp@) ==> r@ == vanity_prefix() + inp@,
{
    if check_link(inp) {
        inp.to_owned()
    } else if check_id(inp) {
        let mut out = String::from_str("https://steamcommunity.com/profiles/");
        out.append(inp);
        out
    } else {
        let mut out = String::from_str("https://steamcommunity.com/id/");
        out.append(inp);
        out
    }
}

/// The address of the inventory page for the raw input `inp`: the
/// normalized profile address followed by the inventory path segment.
pub fn inventory_url(inp: &str) -> (r: String)
    ensures
        r@ == normalized_url(inp@) + "/inventory"@,
{
    let mut out = convert_to_url(inp);
    out.append("/inventory");
    out
}

} // verus!
