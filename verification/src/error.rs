//! Error kinds surfaced by the extraction pipelines.

use vstd::prelude::*;

verus! {

/// The failure modes of the three extraction pipelines.
///
/// `FetchError` stands for any transport failure, uniformly, and carries the
/// requested address. `SelectorError` reports an invalid selector expression,
/// a configuration mistake. `ExtractionError` reports a required structural
/// anchor element that is absent. `RepairError` reports that the embedded
/// payload's summary delimiter pattern could not be located. `DecodeError`
/// reports repaired text that is not decodable as the expected record.
#[derive(Debug)]
pub enum ProfileError {
    FetchError(String),
    SelectorError(String),
    ExtractionError(String),
    RepairError,
    DecodeError,
}

} // verus!
