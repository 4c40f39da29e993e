use steam_profile::counters::CounterMap;
use steam_profile::error::ProfileError;
use steam_profile::payload::RawEmbeddedRecord;
use steam_profile::profile::Profile;

fn sample_record() -> RawEmbeddedRecord {
    RawEmbeddedRecord {
        url: "https://steamcommunity.com/id/foo/".to_string(),
        steamid: "76561197960287930".to_string(),
        personaname: "Foo".to_string(),
        summary: "hello".to_string(),
        imgurl: "https://avatars.test/full.jpg".to_string(),
        lvl: "42".to_string(),
    }
}

#[test]
fn failed_payload_pipeline_keeps_counter_maps() {
    let mut stats = CounterMap::new();
    stats.insert("Games".to_string(), 2);
    let mut inventory = CounterMap::new();
    inventory.insert("Trading Cards".to_string(), 5);

    let p = Profile::from_outcomes(
        Err(ProfileError::RepairError),
        Ok(stats),
        Ok(inventory),
    );
    assert_eq!(p.url, "");
    assert_eq!(p.name, "");
    assert_eq!(p.steamid, "");
    assert_eq!(p.description, "");
    assert_eq!(p.profilepic, "");
    assert_eq!(p.level, 0);
    assert_eq!(p.stats.get("Games"), Some(2));
    assert_eq!(p.inventory.get("Trading Cards"), Some(5));
}

#[test]
fn successful_pipelines_fill_all_fields() {
    let mut stats = CounterMap::new();
    stats.insert("Games".to_string(), 2);
    let p = Profile::from_outcomes(Ok(sample_record()), Ok(stats), Ok(CounterMap::new()));
    assert_eq!(p.url, "https://steamcommunity.com/id/foo/");
    assert_eq!(p.name, "Foo");
    assert_eq!(p.steamid, "76561197960287930");
    assert_eq!(p.description, "hello");
    assert_eq!(p.profilepic, "https://avatars.test/full.jpg");
    assert_eq!(p.level, 42);
    assert_eq!(p.stats.get("Games"), Some(2));
    assert_eq!(p.inventory.get("Games"), None);
}

#[test]
fn failed_counter_pipelines_fall_back_to_empty_maps() {
    let p = Profile::from_outcomes(
        Ok(sample_record()),
        Err(ProfileError::FetchError("activities".to_string())),
        Err(ProfileError::FetchError("inventory".to_string())),
    );
    assert_eq!(p.name, "Foo");
    assert_eq!(p.stats.get("Games"), None);
    assert_eq!(p.inventory.get("Games"), None);
    assert!(p.stats.to_pairs().is_empty());
    assert!(p.inventory.to_pairs().is_empty());
}

#[test]
fn malformed_level_text_parses_to_zero() {
    let mut rec = sample_record();
    rec.lvl = "not a number".to_string();
    let p = Profile::from_outcomes(Ok(rec), Ok(CounterMap::new()), Ok(CounterMap::new()));
    assert_eq!(p.level, 0);

    let mut rec = sample_record();
    rec.lvl = "007".to_string();
    let p = Profile::from_outcomes(Ok(rec), Ok(CounterMap::new()), Ok(CounterMap::new()));
    assert_eq!(p.level, 7);
}

#[test]
fn level_text_accepts_a_leading_plus() {
    let mut rec = sample_record();
    rec.lvl = "+7".to_string();
    let p = Profile::from_outcomes(Ok(rec), Ok(CounterMap::new()), Ok(CounterMap::new()));
    assert_eq!(p.level, 7);

    let mut rec = sample_record();
    rec.lvl = "+".to_string();
    let p = Profile::from_outcomes(Ok(rec), Ok(CounterMap::new()), Ok(CounterMap::new()));
    assert_eq!(p.level, 0);

    let mut rec = sample_record();
    rec.lvl = "++7".to_string();
    let p = Profile::from_outcomes(Ok(rec), Ok(CounterMap::new()), Ok(CounterMap::new()));
    assert_eq!(p.level, 0);
}
