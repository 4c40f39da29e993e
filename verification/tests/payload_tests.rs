use steam_profile::error::ProfileError;
use steam_profile::payload::{decode_profile, profile_record, repair_payload};

const TAIL: &str = ";const g_bViewingOwnProfile = 0;$J( function() {window.Responsive_ReparentItemsInResponsiveMode && Responsive_ReparentItemsInResponsiveMode( '.responsive_groupfriends_element', $J('#responsive_groupfriends_element_ctn') );SetupAnimateOnHoverImages();});";

fn raw_payload(object: &str) -> String {
    format!("g_rgProfileData = {}{}", object, TAIL)
}

fn profile_page(object: &str) -> String {
    format!(
        "<html><body>\
         <div class=\"playerAvatarAutoSizeInner\"><img src=\"https://avatars.test/full.jpg\"></div>\
         <span class=\"friendPlayerLevelNum\">12</span>\
         <div id=\"responsive_page_template_content\"><div>{}</div></div>\
         </body></html>",
        raw_payload(object)
    )
}

#[test]
fn repair_anchors_on_last_delimiter() {
    let raw = raw_payload(
        "{\"url\":\"https://x/\",\"steamid\":\"7656\",\"personaname\":\"Foo\",\
         \"summary\":\"He said \\\"hi\\\" } and more\"}",
    );
    let repaired = repair_payload(&raw, "AV", "12").unwrap();
    assert_eq!(
        repaired,
        "{\"url\":\"https://x/\",\"steamid\":\"7656\",\"personaname\":\"Foo\",\
         \"summary\":\"He said \\\"hi\\\" } and more\",\"imgurl\":\"AV\",\"lvl\":\"12\"}"
    );
}

#[test]
fn repair_strips_newlines_and_tabs() {
    let raw = format!(
        "g_rgProfileData = {{\"url\":\"u\",\n\t\"steamid\":\"s\",\"personaname\":\"p\",\
         \"summary\":\"plain\"}}{}",
        TAIL
    );
    let repaired = repair_payload(&raw, "A", "1").unwrap();
    assert_eq!(
        repaired,
        "{\"url\":\"u\",\"steamid\":\"s\",\"personaname\":\"p\",\
         \"summary\":\"plain\",\"imgurl\":\"A\",\"lvl\":\"1\"}"
    );
}

#[test]
fn missing_summary_pattern_is_a_repair_error() {
    let raw = raw_payload("{\"url\":\"https://x/\",\"steamid\":\"7656\"}");
    let r = repair_payload(&raw, "AV", "12");
    assert!(matches!(r, Err(ProfileError::RepairError)));
}

#[test]
fn summary_key_without_closing_delimiter_is_a_repair_error() {
    let r = repair_payload("\"summary\":\"never closed", "AV", "12");
    assert!(matches!(r, Err(ProfileError::RepairError)));
}

#[test]
fn decode_profile_yields_record_with_spliced_fields() {
    let page = profile_page(
        "{\"url\":\"https://steamcommunity.com/id/foo/\",\"steamid\":\"76561197960287930\",\
         \"personaname\":\"Foo\",\"summary\":\"He said \\\"hi\\\" } and more\"}",
    );
    let rec = decode_profile(&page, "https://avatars.test/full.jpg", "12").unwrap();
    assert_eq!(rec.url, "https://steamcommunity.com/id/foo/");
    assert_eq!(rec.steamid, "76561197960287930");
    assert_eq!(rec.personaname, "Foo");
    assert_eq!(rec.summary, "He said \"hi\" } and more");
    assert_eq!(rec.imgurl, "https://avatars.test/full.jpg");
    assert_eq!(rec.lvl, "12");
}

#[test]
fn decode_profile_without_container_is_an_extraction_error() {
    let r = decode_profile("<html><body></body></html>", "A", "1");
    assert!(matches!(r, Err(ProfileError::ExtractionError(_))));
}

#[test]
fn decode_profile_missing_pattern_is_a_repair_error() {
    let page = profile_page("{\"url\":\"u\",\"steamid\":\"s\"}");
    let r = decode_profile(&page, "A", "1");
    assert!(matches!(r, Err(ProfileError::RepairError)));
}

#[test]
fn profile_record_scrapes_avatar_and_level() {
    let page = profile_page(
        "{\"url\":\"https://steamcommunity.com/id/foo/\",\"steamid\":\"76561197960287930\",\
         \"personaname\":\"Foo\",\"summary\":\"fine\"}",
    );
    let rec = profile_record(&page).unwrap();
    assert_eq!(rec.imgurl, "https://avatars.test/full.jpg");
    assert_eq!(rec.lvl, "12");
    assert_eq!(rec.personaname, "Foo");
    assert_eq!(rec.summary, "fine");
}

#[test]
fn profile_record_without_avatar_is_an_extraction_error() {
    let page = "<html><body>\
        <span class=\"friendPlayerLevelNum\">12</span>\
        <div id=\"responsive_page_template_content\"><div>x</div></div>\
        </body></html>";
    let r = profile_record(page);
    assert!(matches!(r, Err(ProfileError::ExtractionError(_))));
}

#[test]
fn profile_record_avatar_without_src_falls_back() {
    let page = "<html><body>\
        <div class=\"playerAvatarAutoSizeInner\"><img></div>\
        <span class=\"friendPlayerLevelNum\">3</span>\
        <div id=\"responsive_page_template_content\"><div>g_rgProfileData = \
        {\"url\":\"u\",\"steamid\":\"s\",\"personaname\":\"p\",\"summary\":\"ok\"}</div></div>\
        </body></html>";
    let rec = profile_record(page).unwrap();
    assert_eq!(rec.imgurl, "none");
    assert_eq!(rec.lvl, "3");
}
