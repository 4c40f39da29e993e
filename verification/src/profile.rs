//! Profile aggregation: merging the three pipeline outcomes into one
//! record with per-pipeline fallback.
//!
//! The three extraction pipelines run concurrently outside this crate;
//! their outcomes are merged here by a single verified function, so the
//! partial-failure isolation — each field degrades to its zero value
//! independently, and no pipeline failure aborts the others — is enforced
//! in one place.

use vstd::prelude::*;
use vstd::string::*;

use crate::counters::CounterMap;
use crate::error::ProfileError;
use crate::payload::RawEmbeddedRecord;
use crate::text::{parse_u32, parse_u32_spec, str_to_chars};

verus! {

/// The merged output record: the embedded-payload fields, the parsed
/// level, and the two counter maps. Constructed exactly once per
/// aggregation and never mutated afterward.
pub struct Profile {
    /// The address of the profile page.
    pub url: String,
    /// The display name.
    pub name: String,
    /// The numeric platform ID, as text.
    pub steamid: String,
    /// The free-text summary.
    pub description: String,
    /// The avatar image address.
    pub profilepic: String,
    /// The numeric level, 0 where its text does not parse.
    pub level: u32,
    /// The activity counters.
    pub stats: CounterMap,
    /// The inventory counters.
    pub inventory: CounterMap,
}

impl Profile {
    /// Merges the three pipeline outcomes into the final record. Each of
    /// the record fields falls back to its zero or empty value
    /// independently when its source pipeline failed: a failed
    /// embedded-payload pipeline empties the five text fields and zeroes
    /// the level, and each failed counter pipeline empties its own map —
    /// no failure reaches past its own pipeline.
    pub fn from_outcomes(
        record: Result<RawEmbeddedRecord, ProfileError>,
        activities: Result<CounterMap, ProfileError>,
        inventory: Result<CounterMap, ProfileError>,
    ) -> (p: Profile)
        ensures
            record matches Ok(rec) ==> p.url@ == rec.url@ && p.name@ == rec.personaname@
                && p.steamid@ == rec.steamid@ && p.description@ == rec.summary@ && p.profilepic@
                == rec.imgurl@ && p.level == parse_u32_spec(rec.lvl@),
            record is Err ==> p.url@ == Seq::<char>::empty() && p.name@ == Seq::<char>::empty()
                && p.steamid@ == Seq::<char>::empty() && p.description@ == Seq::<char>::empty()
                && p.profilepic@ == Seq::<char>::empty() && p.level == 0,
            activities matches Ok(m) ==> p.stats@ == m@,
            activities is Err ==> p.stats@ == Map::<Seq<char>, u32>::empty(),
            inventory matches Ok(m) ==> p.inventory@ == m@,
            inventory is Err ==> p.inventory@ == Map::<Seq<char>, u32>::empty(),
    {
        let (url, name, steamid, description, profilepic, level) = match record {
            Ok(rec) => {
                let lvl_chars = str_to_chars(rec.lvl.as_str());
                let level = parse_u32(&lvl_chars);
                (rec.url, rec.personaname, rec.steamid, rec.summary, rec.imgurl, level)
            },
            Err(_) => (
                String::new(),
                String::new(),
                String::new(),
                String::new(),
                String::new(),
                0u32,
            ),
        };
        let stats = match activities {
            Ok(m) => m,
            Err(_) => CounterMap::new(),
        };
        let inventory = match inventory {
            Ok(m) => m,
            Err(_) => CounterMap::new(),
        };
        Profile { url, name, steamid, description, profilepic, level, stats, inventory }
    }
}

} // verus!
