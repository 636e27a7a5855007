//! Pre-flight check of the dataset snapshot that a run is started on.

use vstd::prelude::*;
use vstd::string::*;

use crate::text::{
    ascii_alphanumeric, chars_of, is_ascii_alphanumeric, quote, quoted, trim, trimmed,
};
use crate::train::TrainParams;

verus! {

/// Samples that a snapshot must have at least.
pub const MIN_SAMPLES: usize = 2;

/// What was found where the snapshot manifest should be.
#[derive(Debug, PartialEq)]
pub enum SnapshotProbe {
    /// There is no such file.
    Missing,
    /// The file at `path` could not be read.
    Unreadable { path: String, error: String },
    /// The file at `path` is no manifest.
    Malformed { path: String, error: String },
    /// A manifest with this many entries.
    Entries(usize),
}

/// A character that a dataset name may have.
pub open spec fn name_char(c: char) -> bool {
    ascii_alphanumeric(c) || c == '-' || c == '_' || c == '.'
}

/// Every character of the name is allowed.
pub open spec fn well_named(name: Seq<char>) -> bool {
    forall|i: int| 0 <= i < name.len() ==> name_char(#[trigger] name[i])
}

/// The message about a name with characters that are not allowed; `shown` is its
/// quoted form.
pub open spec fn invalid_name_text(shown: Seq<char>) -> Seq<char> {
    "invalid dataset name "@ + shown + ": only [A-Za-z0-9._-] allowed"@
}

/// The message about a snapshot that does not exist; `shown` is the quoted name
/// of its dataset.
pub open spec fn missing_snapshot_text(shown: Seq<char>) -> Seq<char> {
    "snapshot "@ + shown + " not found — create one on the Datasets page first"@
}

/// The message about a snapshot with too few samples: one, or none where
/// `empty`; `shown` is the quoted name of its dataset.
pub open spec fn tiny_snapshot_text(shown: Seq<char>, empty: bool) -> Seq<char> {
    "snapshot "@ + shown + " has "@ + (if empty {
        "0"@
    } else {
        "1"@
    }) + " sample(s) — need at least 2 to train"@
}

/// Why a dataset with the trimmed name `name` is refused before the store is
/// looked at (`None` = it is not).
pub open spec fn name_refusal(name: Seq<char>) -> Option<Seq<char>> {
    if name.len() == 0 {
        Some("no dataset snapshot selected — create one on the Datasets page first"@)
    } else if !well_named(name) {
        Some(invalid_name_text(quoted(name)))
    } else {
        None
    }
}

/// Why the snapshot found for `dataset` is refused (`None` = it is not).
pub open spec fn probe_refusal(dataset: Seq<char>, probe: SnapshotProbe) -> Option<Seq<char>> {
    match probe {
        SnapshotProbe::Missing => Some(missing_snapshot_text(quoted(dataset))),
        SnapshotProbe::Unreadable { path, error } => Some("reading "@ + path@ + ": "@ + error@),
        SnapshotProbe::Malformed { path, error } => Some("parsing "@ + path@ + ": "@ + error@),
        SnapshotProbe::Entries(n) => if n < MIN_SAMPLES {
            Some(tiny_snapshot_text(quoted(dataset), n == 0))
        } else {
            None
        },
    }
}

/// Why a start on `dataset` is refused, given what the probe found (`None` = it
/// is not): first for its name without surrounding white space, then for the
/// snapshot.
pub open spec fn dataset_refusal(dataset: Seq<char>, probe: SnapshotProbe) -> Option<Seq<char>> {
    match name_refusal(trimmed(dataset)) {
        Some(why) => Some(why),
        None => probe_refusal(dataset, probe),
    }
}

/// The refusal as a result.
pub open spec fn refused<T>(r: Result<T, String>) -> Option<Seq<char>> {
    match r {
        Ok(_) => None,
        Err(message) => Some(message@),
    }
}

/// What callers are told about a name with characters that are not allowed.
pub fn invalid_name(shown: &str) -> (r: String)
    ensures
        r@ == invalid_name_text(shown@),
{
    "invalid dataset name ".to_string().concat(shown).concat(": only [A-Za-z0-9._-] allowed")
}

/// What callers are told about a snapshot that does not exist.
pub fn missing_snapshot(shown: &str) -> (r: String)
    ensures
        r@ == missing_snapshot_text(shown@),
{
    "snapshot ".to_string().concat(shown).concat(
        " not found — create one on the Datasets page first",
    )
}

/// What callers are told about a snapshot with one sample, or with none.
pub fn tiny_snapshot(shown: &str, empty: bool) -> (r: String)
    ensures
        r@ == tiny_snapshot_text(shown@, empty),
{
    let count = if empty {
        "0"
    } else {
        "1"
    };
    "snapshot ".to_string().concat(shown).concat(" has ").concat(count).concat(
        " sample(s) — need at least 2 to train",
    )
}

/// Checks a dataset name that has no surrounding white space.
pub fn check_name(name: &str) -> (r: Result<(), String>)
    ensures
        refused(r) == name_refusal(name@),
{
    if name.is_empty() {
        return Err(
            "no dataset snapshot selected — create one on the Datasets page first".to_string(),
        );
    }
    let chars = chars_of(name);
    let mut i: usize = 0;
    while i < chars.len()
        invariant
            i <= chars.len(),
            chars@ == name@,
            name@.len() > 0,
            forall|k: int| 0 <= k < i ==> name_char(#[trigger] name@[k]),
        decreases chars.len() - i,
    {
        let c = chars[i];
        if !(is_ascii_alphanumeric(c) || c == '-' || c == '_' || c == '.') {
            assert(!name_char(name@[i as int]));
            return Err(invalid_name(quote(name).as_str()));
        }
        i += 1;
    }
    Ok(())
}

/// Checks what the probe found for `dataset`.
pub fn check_probe(dataset: &str, probe: &SnapshotProbe) -> (r: Result<(), String>)
    ensures
        refused(r) == probe_refusal(dataset@, *probe),
{
    match probe {
        SnapshotProbe::Missing => Err(missing_snapshot(quote(dataset).as_str())),
        SnapshotProbe::Unreadable { path, error } => Err(
            "reading ".to_string().concat(path.as_str()).concat(": ").concat(error.as_str()),
        ),
        SnapshotProbe::Malformed { path, error } => Err(
            "parsing ".to_string().concat(path.as_str()).concat(": ").concat(error.as_str()),
        ),
        SnapshotProbe::Entries(n) => {
            if *n < MIN_SAMPLES {
                Err(tiny_snapshot(quote(dataset).as_str(), *n == 0))
            } else {
                Ok(())
            }
        },
    }
}

/// Snapshot pre-flight check, so that a bad snapshot fails the Start request
/// itself. Checks the name, and that the manifest exists, parses, and has
/// enough samples. `probe` tells what is stored under [`snapshot_file`].
pub fn validate_dataset(params: &TrainParams, probe: &SnapshotProbe) -> (r: Result<(), String>)
    ensures
        refused(r) == dataset_refusal(params.config.dataset@, *probe),
{
    let dataset = params.config.dataset.as_str();
    let name = trim(dataset);
    match check_name(name) {
        Ok(()) => check_probe(dataset, probe),
        Err(message) => Err(message),
    }
}

/// File name of the snapshot manifest of `dataset`, in the store's `datasets`
/// directory.
pub fn snapshot_file(dataset: &str) -> (r: String)
    ensures
        r@ == dataset@ + ".json"@,
{
    dataset.to_string().concat(".json")
}

} // verus!
