//! Content-store garbage collection around the inventory
//! (`content::classify_gc_inventory`): the order of a request's refusals,
//! and the run that removes the candidates, each re-checked just before it
//! is removed so that a commit that landed after the inventory wins.
use vstd::prelude::*;
use crate::error::{ApiError, STATUS_BAD_REQUEST, STATUS_CONFLICT};
use crate::json::JsonValue;
use crate::requests::{MediaGcRequest, MAX_GC_MINIMUM_AGE_HOURS};
use crate::text::copy_string;

verus! {

/// The refusals of a collection request, in order: a minimum age outside
/// `1..=8760` hours (400 `invalid_gc_minimum_age`), then a confirmed run
/// while jobs are queued or running (409 `asset_gc_jobs_active`, listing
/// them). A preview runs whatever the jobs.
pub fn check_media_gc(request: &MediaGcRequest, active_job_ids: &Vec<String>) -> (r: Result<(), ApiError>)
    ensures
        !(1 <= request.min_age_hours <= MAX_GC_MINIMUM_AGE_HOURS) ==> (r matches Err(e) && e.status
            == STATUS_BAD_REQUEST && e.code@ == "invalid_gc_minimum_age"@),
        1 <= request.min_age_hours <= MAX_GC_MINIMUM_AGE_HOURS ==> (r is Ok <==> !request.confirm
            || active_job_ids.len() == 0),
        1 <= request.min_age_hours <= MAX_GC_MINIMUM_AGE_HOURS && request.confirm && active_job_ids.len() > 0 ==> (
        r matches Err(e) && e.status == STATUS_CONFLICT && e.code@ == "asset_gc_jobs_active"@ && (e.details matches Some(
            JsonValue::Object(d),
        ) && d@.len() == 1 && d@[0].0@ == "activeJobIds"@ && (d@[0].1 matches JsonValue::Array(a) && a@.len()
            == active_job_ids.len() && forall|k: int|
            0 <= k < a@.len() ==> (#[trigger] a@[k]).str_view() == Some(active_job_ids@[k]@)))),
{
    match request.check_minimum_age() {
        Err(e) => Err(e),
        Ok(()) => request.check_no_active_jobs(active_job_ids),
    }
}

/// Where a collection run stands.
pub struct GcRunView {
    /// The candidate the run is at.
    pub next: nat,
    /// Whether that candidate was found unreferenced and is being removed.
    pub removing: bool,
    pub removed: Seq<Seq<char>>,
    pub removed_bytes: u64,
    pub skipped: Seq<Seq<char>>,
}

/// A collection run over the candidates of an inventory.
#[derive(Debug)]
pub struct GcRun {
    next: usize,
    removing: bool,
    /// The digests removed, in order.
    pub removed: Vec<String>,
    /// Their bytes, held at `u64::MAX` once they reach it.
    pub removed_bytes: u64,
    /// The digests a project referenced again by the time they came up.
    pub skipped_after_rescan: Vec<String>,
}

/// What the caller does next in a collection run.
#[derive(Debug, Clone, Copy, PartialEq, Eq, Structural)]
pub enum GcStep {
    /// Check again whether candidate `i` is referenced.
    Rescan(usize),
    /// Remove candidate `i` if the stored file still matches its digest.
    Remove(usize),
    /// Every candidate has been handled.
    Finished,
}

/// The step that asks about candidate `next` of `count`.
pub open spec fn ask(next: nat, count: nat) -> GcStep {
    if next < count {
        GcStep::Rescan(next as usize)
    } else {
        GcStep::Finished
    }
}

pub open spec fn add_bytes(total: u64, size: u64) -> u64 {
    if total + size > u64::MAX {
        u64::MAX
    } else {
        (total + size) as u64
    }
}

impl GcRun {
    pub closed spec fn view(&self) -> GcRunView {
        GcRunView {
            next: self.next as nat,
            removing: self.removing,
            removed: self.removed@.map_values(|d: String| d@),
            removed_bytes: self.removed_bytes,
            skipped: self.skipped_after_rescan@.map_values(|d: String| d@),
        }
    }

    /// A run over `count` candidates: nothing removed yet, and the first
    /// candidate is checked again, if there is one.
    pub fn start(count: usize) -> (r: (GcRun, GcStep))
        ensures
            r.0.view() == (GcRunView {
                next: 0,
                removing: false,
                removed: Seq::empty(),
                removed_bytes: 0,
                skipped: Seq::empty(),
            }),
            r.1 == ask(0, count as nat),
    {
        let run = GcRun {
            next: 0,
            removing: false,
            removed: Vec::new(),
            removed_bytes: 0,
            skipped_after_rescan: Vec::new(),
        };
        assert(run.view().removed =~= Seq::<Seq<char>>::empty());
        assert(run.view().skipped =~= Seq::<Seq<char>>::empty());
        (run, if count > 0 { GcStep::Rescan(0) } else { GcStep::Finished })
    }

    /// After the check of the current candidate: one a project references
    /// again is skipped and the run moves on; otherwise it is removed next.
    pub fn after_rescan(&mut self, candidates: &Vec<(String, u64)>, still_referenced: bool) -> (r: GcStep)
        requires
            !old(self).view().removing,
            old(self).view().next < candidates.len(),
        ensures
            ({
                let s = old(self).view();
                let c = candidates@[s.next as int];
                if still_referenced {
                    &&& final(self).view() == (GcRunView {
                        next: s.next + 1,
                        skipped: s.skipped.push(c.0@),
                        ..s
                    })
                    &&& r == ask(s.next + 1, candidates.len() as nat)
                } else {
                    &&& final(self).view() == (GcRunView { removing: true, ..s })
                    &&& r == GcStep::Remove(s.next as usize)
                }
            }),
    {
        let ghost before = self.skipped_after_rescan@.map_values(|d: String| d@);
        if still_referenced {
            let d = copy_string(candidates[self.next].0.as_str());
            self.skipped_after_rescan.push(d);
            assert(self.skipped_after_rescan@.map_values(|d: String| d@) =~= before.push(candidates@[self.next as int].0@));
            self.next = self.next + 1;
            if self.next < candidates.len() {
                GcStep::Rescan(self.next)
            } else {
                GcStep::Finished
            }
        } else {
            self.removing = true;
            GcStep::Remove(self.next)
        }
    }

    /// After the removal of the current candidate: a file that was removed
    /// counts with its size; the run moves on to the next candidate.
    pub fn after_removal(&mut self, candidates: &Vec<(String, u64)>, removed: bool) -> (r: GcStep)
        requires
            old(self).view().removing,
            old(self).view().next < candidates.len(),
        ensures
            ({
                let s = old(self).view();
                let c = candidates@[s.next as int];
                &&& final(self).view() == (GcRunView {
                    next: s.next + 1,
                    removing: false,
                    removed: if removed { s.removed.push(c.0@) } else { s.removed },
                    removed_bytes: if removed { add_bytes(s.removed_bytes, c.1) } else { s.removed_bytes },
                    skipped: s.skipped,
                })
                &&& r == ask(s.next + 1, candidates.len() as nat)
            }),
    {
        let ghost before = self.removed@.map_values(|d: String| d@);
        if removed {
            let d = copy_string(candidates[self.next].0.as_str());
            self.removed.push(d);
            assert(self.removed@.map_values(|d: String| d@) =~= before.push(candidates@[self.next as int].0@));
            self.removed_bytes = self.removed_bytes.saturating_add(candidates[self.next].1);
        }
        self.removing = false;
        self.next = self.next + 1;
        if self.next < candidates.len() {
            GcStep::Rescan(self.next)
        } else {
            GcStep::Finished
        }
    }
}

} // verus!
