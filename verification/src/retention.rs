use vstd::prelude::*;
use crate::baseline::BaselineStore;
use crate::fingerprint::{difference, hamming, Raster};

verus! {

/// What came of comparing a new capture with the baseline of its display.
#[derive(Clone, Copy, Debug, PartialEq, Eq, Structural)]
pub enum Comparison {
    /// The distance between the two fingerprints.
    Distance(u32),
    /// One of the two pictures could not be read or hashed.
    Failed,
}

/// What is decided about a new capture.
#[derive(Clone, Copy, Debug, PartialEq, Eq, Structural)]
pub enum Verdict {
    /// The display has no baseline yet: the capture is kept.
    FirstSight,
    /// The capture differs enough from the baseline: it is kept.
    Changed,
    /// The capture is too close to the baseline: it is dropped.
    Unchanged,
    /// The comparison failed: the capture is dropped and nothing changes
    /// for this display.
    Failed,
}

/// What has to happen to the stored files once a capture is processed.
#[derive(Clone, Debug, PartialEq, Eq)]
pub enum Action {
    /// The new file stays and no file is deleted.
    Keep,
    /// The new file stays and the file of the old baseline is deleted.
    Replace { stale: String },
    /// The new file is deleted.
    Discard { path: String },
    /// The comparison failed: the new file is deleted and the baseline
    /// stays as it is.
    Abandon { path: String },
}

/// An [`Action`] with its paths as sequences.
pub enum ActionView {
    Keep,
    Replace { stale: Seq<char> },
    Discard { path: Seq<char> },
    Abandon { path: Seq<char> },
}

impl View for Action {
    type V = ActionView;

    open spec fn view(&self) -> ActionView {
        match self {
            Action::Keep => ActionView::Keep,
            Action::Replace { stale } => ActionView::Replace { stale: stale@ },
            Action::Discard { path } => ActionView::Discard { path: path@ },
            Action::Abandon { path } => ActionView::Abandon { path: path@ },
        }
    }
}

impl ActionView {
    /// The file that the action deletes, if it deletes one.
    pub open spec fn doomed(self) -> Option<Seq<char>> {
        match self {
            ActionView::Keep => None,
            ActionView::Replace { stale } => Some(stale),
            ActionView::Discard { path } => Some(path),
            ActionView::Abandon { path } => Some(path),
        }
    }
}

impl Action {
    /// The file that has to be deleted, if there is one.
    pub fn file_to_delete(&self) -> (file: Option<&String>)
        ensures
            match file {
                Some(path) => self@.doomed() == Some(path@),
                None => self@.doomed() == None::<Seq<char>>,
            },
    {
        match self {
            Action::Keep => None,
            Action::Replace { stale } => Some(stale),
            Action::Discard { path } => Some(path),
            Action::Abandon { path } => Some(path),
        }
    }
}

/// One capture of a tick: the display, the file that the capture was
/// written to, and what the comparison with the baseline gave. The
/// comparison of a display without a baseline is not looked at.
#[derive(Clone, Debug, PartialEq, Eq)]
pub struct Observation {
    pub display: String,
    pub path: String,
    pub comparison: Comparison,
}

/// An [`Observation`] with its texts as sequences.
pub struct ObservationView {
    pub display: Seq<char>,
    pub path: Seq<char>,
    pub comparison: Comparison,
}

impl View for Observation {
    type V = ObservationView;

    open spec fn view(&self) -> ObservationView {
        ObservationView { display: self.display@, path: self.path@, comparison: self.comparison }
    }
}

/// The views of `observations`, in their order.
pub open spec fn observation_views(observations: Seq<Observation>) -> Seq<ObservationView> {
    Seq::new(observations.len(), |i: int| observations[i]@)
}

/// The views of `actions`, in their order.
pub open spec fn action_views(actions: Seq<Action>) -> Seq<ActionView> {
    Seq::new(actions.len(), |i: int| actions[i]@)
}

/// The decision rule. A display without a baseline is kept whatever the
/// comparison says; otherwise a capture is dropped exactly if its distance
/// is below the threshold.
pub open spec fn verdict(seen: bool, comparison: Comparison, sensitivity: u32) -> Verdict {
    if !seen {
        Verdict::FirstSight
    } else {
        match comparison {
            Comparison::Failed => Verdict::Failed,
            Comparison::Distance(score) => if score < sensitivity {
                Verdict::Unchanged
            } else {
                Verdict::Changed
            },
        }
    }
}

/// Whether the rule keeps the capture.
pub open spec fn retains(seen: bool, comparison: Comparison, sensitivity: u32) -> bool {
    verdict(seen, comparison, sensitivity) is FirstSight || verdict(seen, comparison, sensitivity)
        is Changed
}

/// The store after the capture `o` is processed.
pub open spec fn store_after(
    store: Map<Seq<char>, Seq<char>>,
    o: ObservationView,
    sensitivity: u32,
) -> Map<Seq<char>, Seq<char>> {
    match verdict(store.contains_key(o.display), o.comparison, sensitivity) {
        Verdict::FirstSight | Verdict::Changed => store.insert(o.display, o.path),
        Verdict::Unchanged | Verdict::Failed => store,
    }
}

/// What has to happen to the files once the capture `o` is processed.
pub open spec fn action_for(
    store: Map<Seq<char>, Seq<char>>,
    o: ObservationView,
    sensitivity: u32,
) -> ActionView {
    match verdict(store.contains_key(o.display), o.comparison, sensitivity) {
        Verdict::FirstSight => ActionView::Keep,
        Verdict::Changed => ActionView::Replace { stale: store[o.display] },
        Verdict::Unchanged => ActionView::Discard { path: o.path },
        Verdict::Failed => ActionView::Abandon { path: o.path },
    }
}

/// The files on storage once the capture has been written to `new_path`
/// and `action` has been carried out.
pub open spec fn storage_after(
    files: Set<Seq<char>>,
    new_path: Seq<char>,
    action: ActionView,
) -> Set<Seq<char>> {
    let written = files.insert(new_path);
    match action.doomed() {
        Some(path) => written.remove(path),
        None => written,
    }
}

/// The store after the captures of a tick are processed one after the
/// other.
pub open spec fn tick_store(
    store: Map<Seq<char>, Seq<char>>,
    observations: Seq<ObservationView>,
    sensitivity: u32,
) -> Map<Seq<char>, Seq<char>>
    decreases observations.len(),
{
    if observations.len() == 0 {
        store
    } else {
        store_after(
            tick_store(store, observations.drop_last(), sensitivity),
            observations.last(),
            sensitivity,
        )
    }
}

/// The actions of a tick, one for each capture, in their order.
pub open spec fn tick_actions(
    store: Map<Seq<char>, Seq<char>>,
    observations: Seq<ObservationView>,
    sensitivity: u32,
) -> Seq<ActionView>
    decreases observations.len(),
{
    if observations.len() == 0 {
        Seq::empty()
    } else {
        tick_actions(store, observations.drop_last(), sensitivity).push(
            action_for(
                tick_store(store, observations.drop_last(), sensitivity),
                observations.last(),
                sensitivity,
            ),
        )
    }
}

/// Compares a new capture with the baseline picture of its display, where
/// both could be read: the distance of their fingerprints, which is at
/// most 64 and zero exactly if the fingerprints are equal.
pub fn difference_from_baseline(baseline: Option<&Raster>, fresh: Option<&Raster>) -> (comparison:
    Comparison)
    ensures
        match (baseline, fresh) {
            (Some(b), Some(f)) => comparison matches Comparison::Distance(score) && score
                == hamming(b.digest(), f.digest()) && score <= 64 && (score == 0 <==> b.digest()
                == f.digest()),
            _ => comparison == Comparison::Failed,
        },
{
    match (baseline, fresh) {
        (Some(b), Some(f)) => Comparison::Distance(difference(b, f)),
        _ => Comparison::Failed,
    }
}

/// The baseline file that has to be read before a capture of `display`
/// can be processed. There is none where the display has no baseline yet
/// and where the threshold is zero: the capture is then kept whatever
/// distance is reported.
pub fn baseline_to_compare<'a>(store: &'a BaselineStore, display: &String, sensitivity: u32) -> (path:
    Option<&'a String>)
    ensures
        path is Some <==> store@.contains_key(display@) && sensitivity > 0,
        path matches Some(p) ==> p@ == store@[display@],
        path is None ==> forall|score: u32| #[trigger]
            retains(store@.contains_key(display@), Comparison::Distance(score), sensitivity),
{
    if sensitivity == 0 {
        None
    } else {
        store.get(display)
    }
}

/// Applies the decision rule.
pub fn decide(seen: bool, comparison: Comparison, sensitivity: u32) -> (decision: Verdict)
    ensures
        decision == verdict(seen, comparison, sensitivity),
{
    if !seen {
        Verdict::FirstSight
    } else {
        match comparison {
            Comparison::Failed => Verdict::Failed,
            Comparison::Distance(score) => if score < sensitivity {
                Verdict::Unchanged
            } else {
                Verdict::Changed
            },
        }
    }
}

/// Processes one capture that has been written to `observation.path`:
/// decides whether it becomes the baseline of its display, updates the
/// store, and says which file has to be deleted.
pub fn process_capture(store: &mut BaselineStore, observation: Observation, sensitivity: u32) -> (action:
    Action)
    ensures
        final(store)@ == store_after(old(store)@, observation@, sensitivity),
        action@ == action_for(old(store)@, observation@, sensitivity),
{
    let seen = store.contains(&observation.display);
    match decide(seen, observation.comparison, sensitivity) {
        Verdict::FirstSight | Verdict::Changed => {
            match store.install(observation.display, observation.path) {
                Some(stale) => Action::Replace { stale },
                None => Action::Keep,
            }
        },
        Verdict::Unchanged => Action::Discard { path: observation.path },
        Verdict::Failed => Action::Abandon { path: observation.path },
    }
}

/// Processes the captures of one tick in their order, and hands back one
/// action for each.
pub fn process_tick(store: &mut BaselineStore, observations: Vec<Observation>, sensitivity: u32) -> (actions:
    Vec<Action>)
    ensures
        final(store)@ == tick_store(old(store)@, observation_views(observations@), sensitivity),
        action_views(actions@) == tick_actions(
            old(store)@,
            observation_views(observations@),
            sensitivity,
        ),
{
    let ghost start = store@;
    let ghost all = observation_views(observations@);
    let mut actions: Vec<Action> = Vec::new();
    for o in it: observations
        invariant
            it.seq().len() == all.len(),
            forall|j: int| 0 <= j < all.len() ==> (#[trigger] it.seq()[j])@ == all[j],
            store@ == tick_store(start, all.take(it.index() as int), sensitivity),
            action_views(actions@) == tick_actions(
                start,
                all.take(it.index() as int),
                sensitivity,
            ),
            actions@.len() == it.index(),
    {
        let ghost done = it.index() as int;
        let ghost before = actions@;
        proof {
            assert(o@ == all[done]);
            assert(all.take(done + 1).drop_last() =~= all.take(done));
            assert(all.take(done + 1).last() == all[done]);
        }
        let action = process_capture(store, o, sensitivity);
        actions.push(action);
        proof {
            assert(action_views(actions@) =~= action_views(before).push(action@));
        }
    }
    proof {
        assert(all.take(all.len() as int) =~= all);
    }
    actions
}

} // verus!
