//! The asset-loading gate: a two-state machine that moves from `Loading` to
//! `Done` once every watched asset has reported that it finished loading, and
//! never moves back.
use vstd::prelude::*;

verus! {

/// Lifecycle of the watched asset pack.
#[derive(Clone, Copy, Debug, PartialEq, Eq, Hash)]
pub enum AssetLoaderState {
    Loading,
    Done,
}

/// What the engine reports to the loader on one tick.
#[derive(Clone, Copy, Debug, PartialEq, Eq)]
pub enum LoadEvent {
    /// The watched asset with this index (and all its dependencies) finished loading.
    Loaded(usize),
    /// A tick with no new asset; the loader only re-checks its gate.
    Poll,
}

/// Mathematical model of the loader: whether it is done, and which watched
/// assets have reported in.
pub struct LoaderModel {
    pub done: bool,
    pub loaded: Seq<bool>,
}

pub open spec fn all_loaded(loaded: Seq<bool>) -> bool {
    forall|i: int| 0 <= i < loaded.len() ==> #[trigger] loaded[i]
}

pub open spec fn initial_model(count: nat) -> LoaderModel {
    LoaderModel { done: false, loaded: Seq::new(count, |i: int| false) }
}

/// Marks the asset of an event as loaded; an index outside the watched range
/// changes nothing.
pub open spec fn mark(loaded: Seq<bool>, e: LoadEvent) -> Seq<bool> {
    match e {
        LoadEvent::Loaded(i) => if i < loaded.len() {
            loaded.update(i as int, true)
        } else {
            loaded
        },
        LoadEvent::Poll => loaded,
    }
}

/// One tick of the loader.
pub open spec fn step(m: LoaderModel, e: LoadEvent) -> LoaderModel {
    let loaded = mark(m.loaded, e);
    LoaderModel { done: m.done || all_loaded(loaded), loaded }
}

/// The model after a sequence of ticks.
pub open spec fn run(m: LoaderModel, events: Seq<LoadEvent>) -> LoaderModel
    decreases events.len(),
{
    if events.len() == 0 {
        m
    } else {
        step(run(m, events.drop_last()), events.last())
    }
}

/// How many ticks of a sequence moved the loader from `Loading` to `Done`.
pub open spec fn transitions(m: LoaderModel, events: Seq<LoadEvent>) -> nat
    decreases events.len(),
{
    if events.len() == 0 {
        0
    } else {
        let before = run(m, events.drop_last());
        let edge: nat = if !before.done && step(before, events.last()).done {
            1
        } else {
            0
        };
        transitions(m, events.drop_last()) + edge
    }
}

/// Whether an event reports the asset with index `i`.
pub open spec fn reports(e: LoadEvent, i: nat) -> bool {
    match e {
        LoadEvent::Loaded(j) => j as nat == i,
        LoadEvent::Poll => false,
    }
}

/// Whether some event of the sequence reports the asset with index `i`.
pub open spec fn was_reported(events: Seq<LoadEvent>, i: nat) -> bool {
    exists|k: int| 0 <= k < events.len() && reports(#[trigger] events[k], i)
}

/// Ticks never undo a load report, never change how many assets are watched,
/// and never take the loader out of `Done`.
pub proof fn lemma_run_monotone(m: LoaderModel, events: Seq<LoadEvent>)
    ensures
        run(m, events).loaded.len() == m.loaded.len(),
        m.done ==> run(m, events).done,
        forall|i: int|
            0 <= i < m.loaded.len() ==> (#[trigger] run(m, events).loaded[i] <==> (m.loaded[i]
                || was_reported(events, i as nat))),
    decreases events.len(),
{
    if events.len() > 0 {
        let prefix = events.drop_last();
        let e = events.last();
        lemma_run_monotone(m, prefix);
        let before = run(m, prefix);
        let after = run(m, events);
        assert forall|i: int| 0 <= i < m.loaded.len() implies (#[trigger] after.loaded[i] <==> (
        m.loaded[i] || was_reported(events, i as nat))) by {
            assert(after == step(before, e));
            assert(after.loaded[i] == (before.loaded[i] || reports(e, i as nat)));
            assert(reports(events[events.len() - 1], i as nat) == reports(e, i as nat));
            if was_reported(prefix, i as nat) {
                let k = choose|k: int| 0 <= k < prefix.len() && reports(#[trigger] prefix[k], i as nat);
                assert(events[k] == prefix[k]);
            }
            if was_reported(events, i as nat) {
                let k = choose|k: int| 0 <= k < events.len() && reports(#[trigger] events[k], i as nat);
                if k < events.len() - 1 {
                    assert(prefix[k] == events[k]);
                }
            }
        }
    }
}

/// The loader is `Done` after a sequence of ticks exactly when it was already
/// `Done`, or at least one tick happened and every watched asset is loaded.
pub proof fn lemma_run_done(m: LoaderModel, events: Seq<LoadEvent>)
    ensures
        run(m, events).done <==> (m.done || (events.len() > 0 && all_loaded(
            run(m, events).loaded,
        ))),
    decreases events.len(),
{
    if events.len() > 0 {
        let prefix = events.drop_last();
        lemma_run_done(m, prefix);
        let before = run(m, prefix);
        let after = run(m, events);
        if before.done && !m.done {
            // All loaded earlier, so all loaded now: reports are never undone.
            lemma_run_monotone(before, seq![events.last()]);
            assert(seq![events.last()].drop_last() =~= Seq::<LoadEvent>::empty());
            assert forall|i: int| 0 <= i < after.loaded.len() implies #[trigger] after.loaded[i] by {
                assert(before.loaded[i]);
            }
        }
    }
}

/// The loader's gate: starting from a fresh loader, any sequence of load
/// reports moves it from `Loading` to `Done` exactly once if it ends `Done`
/// and never otherwise; once `Done` it stays `Done` for every later tick; and
/// it ends `Done` exactly when at least one tick happened and every watched
/// asset was reported.
pub proof fn lemma_loader_gate(count: nat, events: Seq<LoadEvent>)
    ensures
        transitions(initial_model(count), events) == (if run(initial_model(count), events).done {
            1nat
        } else {
            0nat
        }),
        forall|j: int, k: int|
            0 <= j <= k <= events.len() && #[trigger] run(initial_model(count), events.take(j)).done
                ==> #[trigger] run(initial_model(count), events.take(k)).done,
        run(initial_model(count), events).done <==> (events.len() > 0 && forall|i: nat|
            i < count ==> #[trigger] was_reported(events, i)),
{
    let m = initial_model(count);
    lemma_transitions(m, events);
    assert forall|j: int, k: int|
        0 <= j <= k <= events.len() && #[trigger] run(m, events.take(j)).done
            implies #[trigger] run(m, events.take(k)).done by {
        lemma_run_split(m, events.take(k), j);
        assert(events.take(k).take(j) =~= events.take(j));
        lemma_run_monotone(run(m, events.take(j)), events.take(k).skip(j));
    }
    lemma_run_done(m, events);
    lemma_run_monotone(m, events);
    let end = run(m, events);
    if end.done {
        assert forall|i: nat| i < count implies #[trigger] was_reported(events, i) by {
            assert(end.loaded[i as int]);
        }
    }
    if events.len() > 0 && forall|i: nat| i < count ==> #[trigger] was_reported(events, i) {
        assert forall|i: int| 0 <= i < end.loaded.len() implies #[trigger] end.loaded[i] by {
            assert(was_reported(events, i as nat));
        }
    }
}

/// Counting transitions: a run from `m` moves to `Done` once if it starts in
/// `Loading` and ends in `Done`, and never otherwise.
proof fn lemma_transitions(m: LoaderModel, events: Seq<LoadEvent>)
    ensures
        transitions(m, events) == (if !m.done && run(m, events).done {
            1nat
        } else {
            0nat
        }),
    decreases events.len(),
{
    if events.len() > 0 {
        let prefix = events.drop_last();
        lemma_transitions(m, prefix);
        lemma_run_monotone(m, prefix);
    }
}

/// Running a sequence is running its first `j` events, then the rest.
proof fn lemma_run_split(m: LoaderModel, events: Seq<LoadEvent>, j: int)
    requires
        0 <= j <= events.len(),
    ensures
        run(m, events) == run(run(m, events.take(j)), events.skip(j)),
    decreases events.len(),
{
    if events.len() == j {
        assert(events.take(j) =~= events);
        assert(events.skip(j) =~= Seq::<LoadEvent>::empty());
    } else {
        let prefix = events.drop_last();
        lemma_run_split(m, prefix, j);
        assert(prefix.take(j) =~= events.take(j));
        assert(events.skip(j).drop_last() =~= prefix.skip(j));
        assert(events.skip(j).last() == events.last());
    }
}

/// Tracks the loading of a fixed number of assets and gates the systems that
/// need them.
pub struct AssetLoader {
    state: AssetLoaderState,
    loaded: Vec<bool>,
}

impl AssetLoader {
    pub closed spec fn view(&self) -> LoaderModel {
        LoaderModel { done: self.state == AssetLoaderState::Done, loaded: self.loaded@ }
    }

    /// A loader for `count` assets, none loaded yet.
    pub fn new(count: usize) -> (r: AssetLoader)
        ensures
            r@ == initial_model(count as nat),
    {
        let mut loaded: Vec<bool> = Vec::new();
        let mut i: usize = 0;
        while i < count
            invariant
                i <= count,
                loaded@ == Seq::new(i as nat, |k: int| false),
            decreases count - i,
        {
            loaded.push(false);
            i = i + 1;
            assert(loaded@ =~= Seq::new(i as nat, |k: int| false));
        }
        assert(loaded@ =~= Seq::new(count as nat, |k: int| false));
        AssetLoader { state: AssetLoaderState::Loading, loaded }
    }

    /// The current state.
    pub fn state(&self) -> (r: AssetLoaderState)
        ensures
            (r == AssetLoaderState::Done) == self@.done,
    {
        self.state
    }

    /// Whether the systems that need the loaded assets may run.
    pub fn downstream_enabled(&self) -> (r: bool)
        ensures
            r == self@.done,
    {
        match self.state {
            AssetLoaderState::Done => true,
            AssetLoaderState::Loading => false,
        }
    }

    /// Number of watched assets.
    pub fn asset_count(&self) -> (r: usize)
        ensures
            r == self@.loaded.len(),
    {
        self.loaded.len()
    }

    fn every_asset_loaded(&self) -> (r: bool)
        ensures
            r == all_loaded(self.loaded@),
    {
        let mut i: usize = 0;
        while i < self.loaded.len()
            invariant
                i <= self.loaded@.len(),
                forall|k: int| 0 <= k < i ==> #[trigger] self.loaded@[k],
            decreases self.loaded@.len() - i,
        {
            if !self.loaded[i] {
                return false;
            }
            i = i + 1;
        }
        true
    }

    /// Feeds one tick's event to the loader; returns whether this tick moved it
    /// from `Loading` to `Done`.
    pub fn handle(&mut self, e: LoadEvent) -> (entered_done: bool)
        ensures
            final(self)@ == step(old(self)@, e),
            entered_done == (!old(self)@.done && final(self)@.done),
    {
        match e {
            LoadEvent::Loaded(i) => {
                if i < self.loaded.len() {
                    self.loaded.set(i, true);
                }
            },
            LoadEvent::Poll => {},
        }
        assert(self.loaded@ =~= mark(old(self)@.loaded, e));
        match self.state {
            AssetLoaderState::Done => false,
            AssetLoaderState::Loading => {
                if self.every_asset_loaded() {
                    self.state = AssetLoaderState::Done;
                    true
                } else {
                    false
                }
            },
        }
    }
}

} // verus!
