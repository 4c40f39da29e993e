use steam_profile::counters::{
    activities_from_markup, build_counter_map, extract, inventory_from_markup, CounterMap,
    ScanItem,
};
use steam_profile::error::ProfileError;

fn activities_page(cards: &[(&str, &str)]) -> String {
    let mut body = String::new();
    for (label, count) in cards {
        body.push_str("<div class=\"profile_count_link\">");
        body.push_str("<span class=\"count_link_label\">");
        body.push_str(label);
        body.push_str("</span>");
        body.push_str("<span class=\"profile_count_link_total\">");
        body.push_str(count);
        body.push_str("</span>");
        body.push_str("</div>");
    }
    format!("<html><body>{}</body></html>", body)
}

#[test]
fn digits_are_filtered_and_parsed() {
    let page = activities_page(&[("Games", "1,234 games")]);
    let map = activities_from_markup(&page).unwrap();
    assert_eq!(map.get("Games"), Some(1234));
}

#[test]
fn zero_counts_are_dropped() {
    let page = activities_page(&[("Games", "0"), ("Badges", "no digits here"), ("Friends", "7")]);
    let map = activities_from_markup(&page).unwrap();
    assert_eq!(map.get("Games"), None);
    assert_eq!(map.get("Badges"), None);
    assert_eq!(map.get("Friends"), Some(7));
}

#[test]
fn missing_label_takes_fallback_literal() {
    let page = "<html><body><a class=\"games_list_tab\">\
        <span class=\"games_list_tab_number\">3</span>\
        </a></body></html>";
    let map = inventory_from_markup(page).unwrap();
    assert_eq!(map.get("Game Name Not Found"), Some(3));
}

#[test]
fn activities_missing_label_takes_visible_fallback() {
    let page = "<html><body><div class=\"profile_count_link\">\
        <span class=\"profile_count_link_total\">4</span>\
        </div></body></html>";
    let map = activities_from_markup(page).unwrap();
    assert_eq!(map.get("Unknown"), Some(4));
    assert_eq!(map.get(""), None);
}

#[test]
fn missing_count_element_means_zero_and_is_dropped() {
    let page = activities_page(&[]);
    let page = page.replace(
        "</body>",
        "<div class=\"profile_count_link\">\
         <span class=\"count_link_label\">Lonely</span></div></body>",
    );
    let map = activities_from_markup(&page).unwrap();
    assert_eq!(map.get("Lonely"), None);
}

#[test]
fn rerun_on_same_markup_is_identical() {
    let page = activities_page(&[("Games", "12"), ("Friends", "3,456 total"), ("Zero", "0")]);
    let first = activities_from_markup(&page).unwrap();
    let second = activities_from_markup(&page).unwrap();
    assert_eq!(first, second);
}

#[test]
fn games_counter_scenario() {
    let page = activities_page(&[("Games", "2 games")]);
    let map = activities_from_markup(&page).unwrap();
    assert_eq!(map.get("Games"), Some(2));
    assert_eq!(map.to_pairs().len(), 1);
}

#[test]
fn builder_filters_parses_and_defaults() {
    let items = vec![
        ScanItem { label: Some("Games".to_string()), count: Some("1,234 games".to_string()) },
        ScanItem { label: None, count: Some("5".to_string()) },
        ScanItem { label: Some("Empty".to_string()), count: None },
        ScanItem { label: Some("Zero".to_string()), count: Some("0".to_string()) },
    ];
    let map = build_counter_map(&items, "Unknown");
    assert_eq!(map.get("Games"), Some(1234));
    assert_eq!(map.get("Unknown"), Some(5));
    assert_eq!(map.get("Empty"), None);
    assert_eq!(map.get("Zero"), None);
}

#[test]
fn duplicate_labels_last_seen_wins() {
    let items = vec![
        ScanItem { label: Some("Games".to_string()), count: Some("1".to_string()) },
        ScanItem { label: Some("Games".to_string()), count: Some("2".to_string()) },
    ];
    let map = build_counter_map(&items, "Unknown");
    assert_eq!(map.get("Games"), Some(2));
}

#[test]
fn counter_overflowing_u32_parses_to_zero_and_is_dropped() {
    let items = vec![
        ScanItem { label: Some("Huge".to_string()), count: Some("99999999999999".to_string()) },
    ];
    let map = build_counter_map(&items, "Unknown");
    assert_eq!(map.get("Huge"), None);
}

#[test]
fn invalid_selector_is_a_configuration_error() {
    let r = extract("<html></html>", "div..", "span", "span", "");
    assert!(matches!(r, Err(ProfileError::SelectorError(_))));
}

#[test]
fn counter_map_insert_supersedes() {
    let mut m = CounterMap::new();
    m.insert("Games".to_string(), 1);
    m.insert("Games".to_string(), 9);
    assert_eq!(m.get("Games"), Some(9));
    assert_eq!(m.get("Other"), None);
}
