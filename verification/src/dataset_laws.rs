//! Which datasets a run may be started on, told character by character and
//! answer by answer.

use vstd::prelude::*;

use crate::dataset::{dataset_refusal, probe_refusal, refused, SnapshotProbe};
use crate::model::ManagerView;
use crate::text::{quoted, trimmed, white_space};
use crate::train::TrainParams;

verus! {

/// Trimming takes white space off both ends, all of it, and nothing else.
pub proof fn law_trim_takes_white_space_off_the_ends(s: Seq<char>)
    ensures
        exists|i: int, j: int|
            #![trigger s.subrange(i, j)]
            0 <= i <= j <= s.len() && trimmed(s) == s.subrange(i, j) && (forall|k: int|
                0 <= k < i || j <= k < s.len() ==> white_space(#[trigger] s[k])),
        trimmed(s).len() > 0 ==> !white_space(trimmed(s).first()) && !white_space(
            trimmed(s).last(),
        ),
{
    let (i, j) = lemma_trim_range(s);
    assert(trimmed(s) == s.subrange(i, j));
}

proof fn lemma_trim_range(s: Seq<char>) -> (r: (int, int))
    ensures
        0 <= r.0 <= r.1 <= s.len(),
        trimmed(s) == s.subrange(r.0, r.1),
        forall|k: int| 0 <= k < r.0 || r.1 <= k < s.len() ==> white_space(#[trigger] s[k]),
        trimmed(s).len() > 0 ==> !white_space(trimmed(s).first()) && !white_space(
            trimmed(s).last(),
        ),
    decreases s.len(),
{
    if s.len() > 0 && white_space(s.first()) {
        let rest = s.drop_first();
        let (i, j) = lemma_trim_range(rest);
        assert(rest.subrange(i, j) =~= s.subrange(i + 1, j + 1));
        assert forall|k: int| 0 <= k < i + 1 || j + 1 <= k < s.len() implies white_space(
            #[trigger] s[k],
        ) by {
            if k > 0 {
                assert(s[k] == rest[k - 1]);
            }
        }
        (i + 1, j + 1)
    } else if s.len() > 0 && white_space(s.last()) {
        let rest = s.drop_last();
        let (i, j) = lemma_trim_range(rest);
        assert(rest.subrange(i, j) =~= s.subrange(i, j));
        assert forall|k: int| 0 <= k < i || j <= k < s.len() implies white_space(
            #[trigger] s[k],
        ) by {
            if k < rest.len() {
                assert(s[k] == rest[k]);
            }
        }
        (i, j)
    } else {
        assert(s.subrange(0, s.len() as int) =~= s);
        (0, s.len() as int)
    }
}

/// A letter or digit of ASCII, a hyphen, an underscore or a full stop.
pub open spec fn is_name_char(c: char) -> bool {
    ||| '0' <= c <= '9'
    ||| 'A' <= c <= 'Z'
    ||| 'a' <= c <= 'z'
    ||| c == '-'
    ||| c == '_'
    ||| c == '.'
}

/// A dataset is refused for its name, without the white space around it, exactly
/// when that is empty or has a character that names may not have, whatever is
/// stored.
pub proof fn law_bad_names_are_refused(dataset: Seq<char>, probe: SnapshotProbe)
    ensures
        trimmed(dataset).len() == 0 ==> dataset_refusal(dataset, probe) == Some(
            "no dataset snapshot selected — create one on the Datasets page first"@,
        ),
        (exists|i: int| 0 <= i < trimmed(dataset).len() && !is_name_char(#[trigger] trimmed(dataset)[i]))
            ==> dataset_refusal(dataset, probe) == Some(
            "invalid dataset name "@ + quoted(trimmed(dataset))
                + ": only [A-Za-z0-9._-] allowed"@,
        ),
{
    let name = trimmed(dataset);
    if exists|i: int| 0 <= i < name.len() && !is_name_char(#[trigger] name[i]) {
        let i = choose|i: int| 0 <= i < name.len() && !is_name_char(#[trigger] name[i]);
        assert(!crate::dataset::name_char(name[i]));
    }
}

/// A well-named dataset is accepted exactly when its manifest has at least two
/// entries; otherwise the answer says what is wrong with the manifest, and shows
/// the name as it was given.
pub proof fn law_snapshots_need_two_entries(dataset: Seq<char>, probe: SnapshotProbe)
    requires
        trimmed(dataset).len() > 0,
        forall|i: int| 0 <= i < trimmed(dataset).len() ==> is_name_char(#[trigger] trimmed(dataset)[i]),
    ensures
        match probe {
            SnapshotProbe::Missing => dataset_refusal(dataset, probe) == Some(
                "snapshot "@ + quoted(dataset)
                    + " not found — create one on the Datasets page first"@,
            ),
            SnapshotProbe::Unreadable { path, error } => dataset_refusal(dataset, probe) == Some(
                "reading "@ + path@ + ": "@ + error@,
            ),
            SnapshotProbe::Malformed { path, error } => dataset_refusal(dataset, probe) == Some(
                "parsing "@ + path@ + ": "@ + error@,
            ),
            SnapshotProbe::Entries(n) => {
                &&& n >= 2 ==> dataset_refusal(dataset, probe) is None
                &&& n == 1 ==> dataset_refusal(dataset, probe) == Some(
                    "snapshot "@ + quoted(dataset) + " has "@ + "1"@
                        + " sample(s) — need at least 2 to train"@,
                )
                &&& n == 0 ==> dataset_refusal(dataset, probe) == Some(
                    "snapshot "@ + quoted(dataset) + " has "@ + "0"@
                        + " sample(s) — need at least 2 to train"@,
                )
            },
        },
        dataset_refusal(dataset, probe) == probe_refusal(dataset, probe),
{
    let name = trimmed(dataset);
    assert forall|i: int| 0 <= i < name.len() implies crate::dataset::name_char(
        #[trigger] name[i],
    ) by {
        assert(is_name_char(name[i]));
    }
}

/// A start that is refused before the store is looked at is refused with the same
/// words whatever is stored; one that is not is accepted where the manifest, the
/// dataset as given with `.json`, has at least two entries.
pub proof fn law_preflight_agrees_with_start(
    m: ManagerView,
    params: TrainParams,
    r: Result<String, String>,
    probe: SnapshotProbe,
)
    requires
        m.shows_preflight(params, r),
    ensures
        r matches Err(message) ==> m.start_refusal(params, probe) == Some(message@),
        r matches Ok(file) ==> {
            &&& file@ == params.config.dataset@ + ".json"@
            &&& m.start_refusal(params, probe) is None <==> (probe matches SnapshotProbe::Entries(n)
                && n >= 2)
        },
{
}

/// A result that refuses says why, and one that does not is no refusal.
pub proof fn law_refusals_are_errors(r: Result<(), String>)
    ensures
        refused(r) is None <==> r is Ok,
        r matches Err(message) ==> refused(r) == Some(message@),
{
}

} // verus!
