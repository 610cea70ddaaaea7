//! Milestone naming.
//!
//! A milestone is a full byte copy of a project's database file, stored
//! under the project's reserved milestones directory as
//! `{label}_{YYYYMMDD_HHMMSS}.db`. The copy itself is plain file I/O and
//! lives with the caller; this module pins the name down exactly. Two
//! milestones of the same label within the same second get the same name,
//! and the copy overwrites: last write wins — a deliberate, deterministic
//! choice.

use vstd::prelude::*;
use vstd::string::StringExecFns;
use crate::clock::{current_date_parts, DateParts};
use crate::numfmt::{pad2, pad4, spec_pad2, spec_pad4};

verus! {

/// `{label}_{YYYYMMDD_HHMMSS}.db`.
pub open spec fn spec_milestone_filename(label: Seq<char>, t: DateParts) -> Seq<char> {
    label + seq!['_'] + spec_pad4(t.year as nat) + spec_pad2(t.month as nat) + spec_pad2(
        t.day as nat,
    ) + seq!['_'] + spec_pad2(t.hour as nat) + spec_pad2(t.minute as nat) + spec_pad2(
        t.second as nat,
    ) + seq!['.', 'd', 'b']
}

/// Renders the milestone file name for this label and instant.
pub fn milestone_filename(label: &str, t: DateParts) -> (r: String)
    requires
        t.wf(),
    ensures
        r@ == spec_milestone_filename(label@, t),
{
    let mut s: String = label.to_owned();
    s.append("_");
    s.append(pad4(t.year as u32).as_str());
    s.append(pad2(t.month).as_str());
    s.append(pad2(t.day).as_str());
    s.append("_");
    s.append(pad2(t.hour).as_str());
    s.append(pad2(t.minute).as_str());
    s.append(pad2(t.second).as_str());
    s.append(".db");
    proof {
        reveal_strlit("_");
        reveal_strlit(".db");
        assert("_"@ =~= seq!['_']);
        assert(".db"@ =~= seq!['.', 'd', 'b']);
        assert(s@ =~= spec_milestone_filename(label@, t));
    }
    s
}

/// The milestone name for this label at this instant: the rendered file
/// name exactly when the instant is well-formed (in particular, the
/// calendar year fits four digits), and nothing otherwise.
pub fn milestone_name_for(label: &str, t: DateParts) -> (r: Option<String>)
    ensures
        r is Some <==> t.wf(),
        r matches Some(f) ==> f@ == spec_milestone_filename(label@, t),
{
    if t.year >= 0 && t.year <= 9999 && t.month >= 1 && t.month <= 12 && t.day >= 1 && t.day
        <= 31 && t.hour <= 23 && t.minute <= 59 && t.second <= 59 {
        Some(milestone_filename(label, t))
    } else {
        None
    }
}

/// The name a milestone of this label captured now receives: the clock is
/// drawn once and handed to `milestone_name_for`, which pins the result
/// for every instant. The clock itself cannot be pinned, so all that is
/// promised of the drawn instant is that it was well-formed.
pub fn create_milestone_name(label: &str) -> (r: Option<String>)
    ensures
        r matches Some(f) ==> exists|t: DateParts| #[trigger] t.wf() && f@
            == spec_milestone_filename(label@, t),
{
    let t = current_date_parts();
    milestone_name_for(label, t)
}

} // verus!
