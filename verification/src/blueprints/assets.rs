//! Tracking of the assets that a spawn request waits for.
use vstd::prelude::*;

verus! {

/// Identity of an asset in the loader.
pub type AssetId = u64;

/// What the loader says of an asset.
#[derive(Clone, Copy, Debug, PartialEq, Eq, Structural)]
pub enum LoadStatus {
    Pending,
    Loaded,
    /// The load failed for good. Such an asset is not waited for any longer.
    Failed,
}

impl LoadStatus {
    /// The loader is done with the asset, with or without success.
    pub open spec fn is_done(self) -> bool {
        self != LoadStatus::Pending
    }

    /// Whether the loader is done with the asset.
    pub fn done(self) -> (r: bool)
        ensures
            r == self.is_done(),
    {
        !(self == LoadStatus::Pending)
    }
}

/// One asset that a spawn request waits for.
#[derive(Clone, Debug)]
pub struct AssetLoadTracker {
    pub name: String,
    pub path: String,
    pub id: AssetId,
    pub loaded: bool,
}

/// An asset of a blueprint as the loader knows it when the assets are listed.
#[derive(Clone, Debug)]
pub struct AssetProbe {
    pub name: String,
    pub path: String,
    pub id: AssetId,
    /// The asset and all it depends on are loaded already.
    pub loaded: bool,
}

/// The assets that one spawn request waits for, and how far their loading is.
#[derive(Debug)]
pub struct BlueprintAssetsLoadState {
    pub all_loaded: bool,
    pub asset_infos: Vec<AssetLoadTracker>,
    /// How many of the assets the loader is done with. The progress of the
    /// request is this number over the number of assets.
    pub loaded_amount: usize,
}

/// The status that a poll gives for the asset at `index`: the one listed at
/// that place, or pending where the list is too short.
pub open spec fn status_at(statuses: Seq<LoadStatus>, index: int) -> LoadStatus {
    if 0 <= index < statuses.len() {
        statuses[index]
    } else {
        LoadStatus::Pending
    }
}

/// How many of the first `count` assets the loader is done with.
pub open spec fn done_count(statuses: Seq<LoadStatus>, count: nat) -> nat
    decreases count,
{
    if count == 0 {
        0
    } else {
        done_count(statuses, (count - 1) as nat) + if status_at(statuses, count - 1).is_done() {
            1nat
        } else {
            0nat
        }
    }
}

/// The loader is done with each of the first `count` assets.
pub open spec fn all_done(statuses: Seq<LoadStatus>, count: nat) -> bool {
    forall|i: int| 0 <= i < count ==> (#[trigger] status_at(statuses, i)).is_done()
}

/// The probes that are not loaded yet, in their order.
pub open spec fn not_loaded(probes: Seq<AssetProbe>) -> Seq<AssetProbe> {
    probes.filter(|p: AssetProbe| !p.loaded)
}

/// The tracker that waits for the asset of a probe.
pub open spec fn tracker_of(probe: AssetProbe) -> AssetLoadTracker {
    AssetLoadTracker { name: probe.name, path: probe.path, id: probe.id, loaded: false }
}

/// `trackers` wait for exactly the assets of `probes`, in their order.
pub open spec fn tracks(trackers: Seq<AssetLoadTracker>, probes: Seq<AssetProbe>) -> bool {
    &&& trackers.len() == probes.len()
    &&& forall|i: int|
        0 <= i < trackers.len() ==> {
            &&& (#[trigger] trackers[i]).name@ == probes[i].name@
            &&& trackers[i].path@ == probes[i].path@
            &&& trackers[i].id == probes[i].id
            &&& !trackers[i].loaded
        }
}

/// `after` is what a poll with `statuses` makes of `before`: each asset is
/// loaded exactly where the loader is done with it and is otherwise as it
/// was, the count of those is taken, and the state is all loaded once it has
/// been seen so.
pub open spec fn polled(
    before: BlueprintAssetsLoadState,
    after: BlueprintAssetsLoadState,
    statuses: Seq<LoadStatus>,
) -> bool {
    let count = before.asset_infos@.len();
    &&& after.all_loaded == (before.all_loaded || all_done(statuses, count))
    &&& after.loaded_amount == done_count(statuses, count)
    &&& after.asset_infos@.len() == count
    &&& forall|i: int|
        0 <= i < count ==> {
            &&& (#[trigger] after.asset_infos@[i]).loaded == status_at(statuses, i).is_done()
            &&& after.asset_infos@[i].name == before.asset_infos@[i].name
            &&& after.asset_infos@[i].path == before.asset_infos@[i].path
            &&& after.asset_infos@[i].id == before.asset_infos@[i].id
        }
}

/// The count of done assets is at most the count of assets, and reaches it
/// exactly where the loader is done with all.
pub proof fn lemma_done_count_bounds(statuses: Seq<LoadStatus>, count: nat)
    ensures
        done_count(statuses, count) <= count,
        done_count(statuses, count) == count <==> all_done(statuses, count),
    decreases count,
{
    if count > 0 {
        lemma_done_count_bounds(statuses, (count - 1) as nat);
        if all_done(statuses, count) {
            assert(status_at(statuses, count - 1).is_done());
            assert(all_done(statuses, (count - 1) as nat));
        }
        if done_count(statuses, count) == count {
            assert(forall|i: int|
                0 <= i < count ==> (#[trigger] status_at(statuses, i)).is_done()) by {
                assert(all_done(statuses, (count - 1) as nat));
                assert(status_at(statuses, count - 1).is_done());
            }
        }
    }
}

impl BlueprintAssetsLoadState {
    /// The state that waits for exactly those of `probes` that are not loaded.
    pub fn waiting_for(probes: &Vec<AssetProbe>) -> (r: BlueprintAssetsLoadState)
        ensures
            tracks(r.asset_infos@, not_loaded(probes@)),
            !r.all_loaded,
            r.loaded_amount == 0,
    {
        let mut asset_infos: Vec<AssetLoadTracker> = Vec::new();
        let mut i: usize = 0;
        assert(probes@.subrange(0, 0) =~= Seq::<AssetProbe>::empty());
        while i < probes.len()
            invariant
                i <= probes.len(),
                tracks(asset_infos@, not_loaded(probes@.subrange(0, i as int))),
            decreases probes.len() - i,
        {
            proof {
                let head = probes@.subrange(0, i as int);
                assert(probes@.subrange(0, i + 1) =~= head.push(probes@[i as int]));
                lemma_filter_push(head, probes@[i as int]);
            }
            if !probes[i].loaded {
                asset_infos.push(
                    AssetLoadTracker {
                        name: probes[i].name.clone(),
                        path: probes[i].path.clone(),
                        id: probes[i].id,
                        loaded: false,
                    },
                );
            }
            i += 1;
        }
        assert(probes@.subrange(0, i as int) =~= probes@);
        BlueprintAssetsLoadState { all_loaded: false, asset_infos, loaded_amount: 0 }
    }

    /// Takes over what the loader says of each asset: `statuses[i]` is the
    /// status of the asset at place `i`, and an asset without a status is
    /// pending. A failed load counts as done. Returns whether the loader is
    /// done with every asset.
    pub fn poll(&mut self, statuses: &Vec<LoadStatus>) -> (r: bool)
        ensures
            r == all_done(statuses@, old(self).asset_infos@.len()),
            polled(*old(self), *final(self), statuses@),
    {
        let total = self.asset_infos.len();
        let mut loaded_amount: usize = 0;
        let mut i: usize = 0;
        while i < total
            invariant
                total == self.asset_infos@.len(),
                total == old(self).asset_infos@.len(),
                i <= total,
                loaded_amount == done_count(statuses@, i as nat),
                loaded_amount <= i,
                self.all_loaded == old(self).all_loaded,
                forall|j: int|
                    0 <= j < total ==> {
                        &&& (#[trigger] self.asset_infos@[j]).name == old(self).asset_infos@[j].name
                        &&& self.asset_infos@[j].path == old(self).asset_infos@[j].path
                        &&& self.asset_infos@[j].id == old(self).asset_infos@[j].id
                    },
                forall|j: int|
                    0 <= j < i ==> (#[trigger] self.asset_infos@[j]).loaded == status_at(
                        statuses@,
                        j,
                    ).is_done(),
            decreases total - i,
        {
            let status = if i < statuses.len() {
                statuses[i]
            } else {
                LoadStatus::Pending
            };
            let done = status.done();
            let tracker = AssetLoadTracker {
                name: self.asset_infos[i].name.clone(),
                path: self.asset_infos[i].path.clone(),
                id: self.asset_infos[i].id,
                loaded: done,
            };
            self.asset_infos.set(i, tracker);
            if done {
                loaded_amount += 1;
            }
            i += 1;
        }
        proof {
            lemma_done_count_bounds(statuses@, total as nat);
        }
        self.loaded_amount = loaded_amount;
        let all = loaded_amount == total;
        if all {
            self.all_loaded = true;
        }
        all
    }

    /// The progress of the request: the number of assets that the loader is
    /// done with, and the number of assets.
    pub fn progress(&self) -> (r: (usize, usize))
        ensures
            r.0 == self.loaded_amount,
            r.1 == self.asset_infos@.len(),
    {
        (self.loaded_amount, self.asset_infos.len())
    }
}

/// Filtering a sequence that grew by one item.
proof fn lemma_filter_push(head: Seq<AssetProbe>, last: AssetProbe)
    ensures
        not_loaded(head.push(last)) == if last.loaded {
            not_loaded(head)
        } else {
            not_loaded(head).push(last)
        },
{
    let pred = |p: AssetProbe| !p.loaded;
    let whole = head.push(last);
    assert(whole.drop_last() =~= head);
    reveal(Seq::filter);
}

} // verus!
