use steam_profile::url::{check_id, check_link, convert_to_url, inventory_url};

#[test]
fn numeric_id_yields_profiles_address() {
    assert_eq!(
        convert_to_url("76561197960287930"),
        "https://steamcommunity.com/profiles/76561197960287930"
    );
}

#[test]
fn domain_input_passes_through_unchanged() {
    assert_eq!(
        convert_to_url("https://steamcommunity.com/id/somebody"),
        "https://steamcommunity.com/id/somebody"
    );
    assert_eq!(
        convert_to_url("steamcommunity.com/profiles/76561197960287930"),
        "steamcommunity.com/profiles/76561197960287930"
    );
}

#[test]
fn vanity_name_yields_id_address() {
    assert_eq!(
        convert_to_url("gabelogannewell"),
        "https://steamcommunity.com/id/gabelogannewell"
    );
}

#[test]
fn seventeen_digits_with_letter_is_vanity() {
    // 17 digits plus a letter is not a numeric ID: every character must be a digit.
    assert!(!check_id("76561197960287930x"));
    assert_eq!(
        convert_to_url("76561197960287930x"),
        "https://steamcommunity.com/id/76561197960287930x"
    );
}

#[test]
fn check_id_needs_exactly_seventeen_digits() {
    assert!(check_id("76561197960287930"));
    assert!(!check_id("7656119796028793"));
    assert!(!check_id("765611979602879300"));
    assert!(!check_id(""));
}

#[test]
fn check_link_finds_domain_substring() {
    assert!(check_link("https://steamcommunity.com/id/x"));
    assert!(check_link("steamcommunity.com"));
    assert!(!check_link("https://example.com/id/x"));
}

#[test]
fn inventory_address_appends_segment() {
    assert_eq!(
        inventory_url("76561197960287930"),
        "https://steamcommunity.com/profiles/76561197960287930/inventory"
    );
}
