//! Backups: whole documents kept in files that are named by the time of
//! their making.

use crate::sorting::{is_arrangement, is_stable_order, sorted_order, Ranking};
use vstd::prelude::*;

verus! {

/// What is known of one backup file.
#[derive(Debug, PartialEq, Eq)]
pub struct BackupInfo {
    pub path: String,
    /// When the backup was made, in milliseconds since the epoch.
    pub created_at: i64,
    /// The file's size in bytes.
    pub size: u64,
}

/// A backup file as plain values.
pub struct BackupInfoView {
    pub path: Seq<char>,
    pub created_at: i64,
    pub size: u64,
}

impl View for BackupInfo {
    type V = BackupInfoView;

    open spec fn view(&self) -> BackupInfoView {
        BackupInfoView { path: self.path@, created_at: self.created_at, size: self.size }
    }
}

impl DeepView for BackupInfo {
    type V = BackupInfoView;

    open spec fn deep_view(&self) -> BackupInfoView {
        self.view()
    }
}

impl Clone for BackupInfo {
    fn clone(&self) -> (copy: Self)
        ensures
            copy@ == self@,
    {
        BackupInfo { path: self.path.clone(), created_at: self.created_at, size: self.size }
    }
}

/// Whether `listing` holds the backups `found` with the newest first,
/// `order` naming for each entry its place in `found`: each backup once,
/// and backups of one instant in the order in which `found` has them.
pub open spec fn newest_first(
    listing: Seq<BackupInfoView>,
    found: Seq<BackupInfoView>,
    order: Seq<usize>,
) -> bool {
    &&& is_arrangement(order, found.len())
    &&& listing.len() == found.len()
    &&& forall|k: int| 0 <= k < listing.len() ==> #[trigger] listing[k] == found[order[k] as int]
    &&& forall|a: int, b: int|
        0 <= a < b < listing.len() ==> (#[trigger] listing[a]).created_at >= (
        #[trigger] listing[b]).created_at
    &&& forall|a: int, b: int|
        0 <= a < b < order.len() && listing[a].created_at == listing[b].created_at
            ==> #[trigger] order[a] < #[trigger] order[b]
}

/// The ranking of backups by the time of their making, the newest first.
pub struct BackupRanking<'a> {
    pub backups: &'a Vec<BackupInfo>,
}

impl<'a> Ranking for BackupRanking<'a> {
    open spec fn count(&self) -> nat {
        self.backups@.len()
    }

    open spec fn before(&self, i: int, j: int) -> bool {
        self.backups@[i].created_at >= self.backups@[j].created_at
    }

    proof fn lemma_total(&self, i: int, j: int) {
    }

    proof fn lemma_transitive(&self, i: int, j: int, k: int) {
    }

    fn len(&self) -> (n: usize) {
        self.backups.len()
    }

    fn is_before(&self, i: usize, j: usize) -> (b: bool) {
        self.backups[i].created_at >= self.backups[j].created_at
    }
}

/// The backups that were found, the newest first.
pub fn list_backups(found: Vec<BackupInfo>) -> (listing: Vec<BackupInfo>)
    ensures
        exists|order: Seq<usize>| newest_first(listing.deep_view(), found.deep_view(), order),
{
    let ranking = BackupRanking { backups: &found };
    let order = sorted_order(&ranking);
    let mut listing: Vec<BackupInfo> = Vec::new();
    let mut k: usize = 0;
    while k < order.len()
        invariant
            k <= order.len(),
            listing.len() == k,
            is_stable_order(&ranking, order@),
            ranking.backups == &found,
            forall|p: int| 0 <= p < k ==> (#[trigger] listing@[p])@ == found@[order@[p] as int]@,
        decreases order.len() - k,
    {
        listing.push(found[order[k]].clone());
        k = k + 1;
    }
    proof {
        let out = listing.deep_view();
        let all = found.deep_view();
        assert forall|p: int| 0 <= p < out.len() implies #[trigger] out[p] == all[order@[p] as int] by {
            assert(listing@[p]@ == found@[order@[p] as int]@);
        }
        assert forall|a: int, b: int| 0 <= a < b < out.len() implies (#[trigger] out[a]).created_at
            >= (#[trigger] out[b]).created_at by {
            assert(ranking.before(order@[a] as int, order@[b] as int));
        }
        assert forall|a: int, b: int|
            0 <= a < b < order@.len() && out[a].created_at == out[b].created_at implies #[trigger] order@[a]
            < #[trigger] order@[b] by {
            assert(ranking.before(order@[b] as int, order@[a] as int));
        }
        assert(newest_first(out, all, order@));
    }
    listing
}

} // verus!
