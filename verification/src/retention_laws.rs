use vstd::prelude::*;
use crate::fingerprint::{hamming, lemma_same_picture_same_digest, Raster};
use crate::retention::{
    action_for, storage_after, store_after, tick_store, ActionView, Comparison, ObservationView,
};

verus! {

/// Whether two stores say the same about `display`.
pub open spec fn agree_at(
    a: Map<Seq<char>, Seq<char>>,
    b: Map<Seq<char>, Seq<char>>,
    display: Seq<char>,
) -> bool {
    a.contains_key(display) == b.contains_key(display) && (a.contains_key(display) ==> a[display]
        == b[display])
}

/// Every baseline path is a file on storage, and no two displays share
/// one.
pub open spec fn baselines_present(store: Map<Seq<char>, Seq<char>>, files: Set<Seq<char>>) -> bool {
    &&& forall|d: Seq<char>| store.contains_key(d) ==> files.contains(#[trigger] store[d])
    &&& forall|d: Seq<char>, e: Seq<char>|
        store.contains_key(d) && store.contains_key(e) && #[trigger] store[d] == #[trigger] store[e]
            ==> d == e
}

/// The first capture of a display is kept, whatever the comparison says
/// and whatever the threshold is: it becomes the baseline and no file is
/// deleted.
pub proof fn lemma_first_sight_retained(
    store: Map<Seq<char>, Seq<char>>,
    o: ObservationView,
    sensitivity: u32,
)
    requires
        !store.contains_key(o.display),
    ensures
        store_after(store, o, sensitivity) == store.insert(o.display, o.path),
        action_for(store, o, sensitivity) == ActionView::Keep,
{
}

/// With a baseline, a capture is dropped exactly if its distance is below
/// the threshold; at the threshold itself it is kept.
pub proof fn lemma_threshold_boundary(
    store: Map<Seq<char>, Seq<char>>,
    o: ObservationView,
    score: u32,
    sensitivity: u32,
)
    requires
        store.contains_key(o.display),
        o.comparison == Comparison::Distance(score),
    ensures
        action_for(store, o, sensitivity) is Discard <==> score < sensitivity,
        action_for(store, o, sensitivity) is Replace <==> score >= sensitivity,
        score == sensitivity ==> store_after(store, o, sensitivity) == store.insert(
            o.display,
            o.path,
        ),
{
}

/// A dropped capture leaves the store as it was, and its file is gone
/// from storage afterwards.
pub proof fn lemma_discard_invariant(
    store: Map<Seq<char>, Seq<char>>,
    files: Set<Seq<char>>,
    o: ObservationView,
    sensitivity: u32,
)
    requires
        action_for(store, o, sensitivity) is Discard,
    ensures
        store_after(store, o, sensitivity) == store,
        !storage_after(files, o.path, action_for(store, o, sensitivity)).contains(o.path),
{
}

/// A capture that replaces a baseline becomes the one baseline of its
/// display, the file of the old baseline is gone from storage afterwards,
/// and no other display is touched.
pub proof fn lemma_retain_invariant(
    store: Map<Seq<char>, Seq<char>>,
    files: Set<Seq<char>>,
    o: ObservationView,
    sensitivity: u32,
)
    requires
        action_for(store, o, sensitivity) is Replace,
    ensures
        store.contains_key(o.display),
        !storage_after(files, o.path, action_for(store, o, sensitivity)).contains(store[o.display]),
        store_after(store, o, sensitivity).contains_key(o.display),
        store_after(store, o, sensitivity)[o.display] == o.path,
        store_after(store, o, sensitivity).dom() == store.dom(),
        forall|d: Seq<char>|
            d != o.display ==> agree_at(#[trigger] store_after(store, o, sensitivity), store, d),
{
    assert(store.insert(o.display, o.path).dom() =~= store.dom());
}

/// The same picture captured again is at distance zero from its baseline,
/// and with a threshold above zero it is dropped.
pub proof fn lemma_identical_capture_discarded(
    store: Map<Seq<char>, Seq<char>>,
    baseline: Raster,
    fresh: Raster,
    o: ObservationView,
    score: u32,
    sensitivity: u32,
)
    requires
        baseline.spec_width() == fresh.spec_width(),
        baseline.spec_height() == fresh.spec_height(),
        baseline.spec_pixels() == fresh.spec_pixels(),
        store.contains_key(o.display),
        score == hamming(baseline.digest(), fresh.digest()),
        o.comparison == Comparison::Distance(score),
        sensitivity > 0,
    ensures
        score == 0,
        action_for(store, o, sensitivity) == (ActionView::Discard { path: o.path }),
        store_after(store, o, sensitivity) == store,
{
    lemma_same_picture_same_digest(baseline, fresh);
}

/// With the threshold zero no capture that could be compared is dropped.
pub proof fn lemma_zero_threshold_keeps(
    store: Map<Seq<char>, Seq<char>>,
    o: ObservationView,
)
    requires
        o.comparison is Distance,
    ensures
        store_after(store, o, 0) == store.insert(o.display, o.path),
        !(action_for(store, o, 0) is Discard),
{
}

/// Processing a capture touches no display but its own, and what it does
/// to its own depends on nothing that the store says of the others.
pub proof fn lemma_capture_isolated(
    a: Map<Seq<char>, Seq<char>>,
    b: Map<Seq<char>, Seq<char>>,
    o: ObservationView,
    display: Seq<char>,
    sensitivity: u32,
)
    ensures
        display != o.display ==> agree_at(store_after(a, o, sensitivity), a, display),
        agree_at(a, b, display) ==> agree_at(
            store_after(a, o, sensitivity),
            store_after(b, o, sensitivity),
            display,
        ),
        agree_at(a, b, o.display) ==> action_for(a, o, sensitivity) == action_for(b, o, sensitivity),
{
}

/// A display without a capture in the tick keeps its entry as it is.
pub proof fn lemma_absent_display_untouched(
    store: Map<Seq<char>, Seq<char>>,
    observations: Seq<ObservationView>,
    display: Seq<char>,
    sensitivity: u32,
)
    requires
        forall|j: int| 0 <= j < observations.len() ==> (#[trigger] observations[j]).display != display,
    ensures
        agree_at(tick_store(store, observations, sensitivity), store, display),
    decreases observations.len(),
{
    if observations.len() > 0 {
        let front = observations.drop_last();
        assert forall|j: int| 0 <= j < front.len() implies (#[trigger] front[j]).display != display by {
            assert(front[j] == observations[j]);
        }
        lemma_absent_display_untouched(store, front, display, sensitivity);
        lemma_capture_isolated(
            tick_store(store, front, sensitivity),
            store,
            observations.last(),
            display,
            sensitivity,
        );
    }
}

/// A tick takes no display out of the store, and afterwards every
/// display that had a capture in it has a baseline.
pub proof fn lemma_tick_only_adds_displays(
    store: Map<Seq<char>, Seq<char>>,
    observations: Seq<ObservationView>,
    sensitivity: u32,
)
    ensures
        forall|d: Seq<char>|
            store.contains_key(d) ==> #[trigger] tick_store(
                store,
                observations,
                sensitivity,
            ).contains_key(d),
        forall|i: int|
            0 <= i < observations.len() ==> tick_store(store, observations, sensitivity).contains_key(
                (#[trigger] observations[i]).display,
            ),
    decreases observations.len(),
{
    if observations.len() > 0 {
        let front = observations.drop_last();
        lemma_tick_only_adds_displays(store, front, sensitivity);
        let before = tick_store(store, front, sensitivity);
        let after = tick_store(store, observations, sensitivity);
        assert forall|i: int| 0 <= i < observations.len() implies after.contains_key(
            (#[trigger] observations[i]).display,
        ) by {
            if i < front.len() {
                assert(front[i] == observations[i]);
                assert(before.contains_key(front[i].display));
            }
        }
    }
}

/// Two ticks that differ only in what happened to the captures of one
/// display, a failure among them or not, end with the same entry for
/// every other display.
pub proof fn lemma_tick_isolated(
    a: Map<Seq<char>, Seq<char>>,
    b: Map<Seq<char>, Seq<char>>,
    first: Seq<ObservationView>,
    second: Seq<ObservationView>,
    troubled: Seq<char>,
    display: Seq<char>,
    sensitivity: u32,
)
    requires
        first.len() == second.len(),
        forall|j: int|
            0 <= j < first.len() ==> #[trigger] first[j] == second[j] || (first[j].display == troubled
                && second[j].display == troubled),
        display != troubled,
        agree_at(a, b, display),
    ensures
        agree_at(
            tick_store(a, first, sensitivity),
            tick_store(b, second, sensitivity),
            display,
        ),
    decreases first.len(),
{
    if first.len() > 0 {
        let f = first.drop_last();
        let s = second.drop_last();
        assert forall|j: int| 0 <= j < f.len() implies #[trigger] f[j] == s[j] || (f[j].display
            == troubled && s[j].display == troubled) by {
            assert(f[j] == first[j] && s[j] == second[j]);
        }
        lemma_tick_isolated(a, b, f, s, troubled, display, sensitivity);
        let ma = tick_store(a, f, sensitivity);
        let mb = tick_store(b, s, sensitivity);
        let last = first.len() - 1;
        assert(first[last] == second[last] || (first[last].display == troubled
            && second[last].display == troubled));
        lemma_capture_isolated(ma, mb, first.last(), display, sensitivity);
        if first[last] != second[last] {
            lemma_capture_isolated(mb, ma, second.last(), display, sensitivity);
        }
    }
}

/// A capture whose comparison failed changes nothing for a display that
/// has a baseline: the store is what it was, and the file of the capture
/// is gone from storage afterwards.
pub proof fn lemma_failed_capture_changes_nothing(
    store: Map<Seq<char>, Seq<char>>,
    files: Set<Seq<char>>,
    o: ObservationView,
    sensitivity: u32,
)
    requires
        store.contains_key(o.display),
        o.comparison is Failed,
    ensures
        store_after(store, o, sensitivity) == store,
        action_for(store, o, sensitivity) == (ActionView::Abandon { path: o.path }),
        !storage_after(files, o.path, action_for(store, o, sensitivity)).contains(o.path),
{
}

/// Once a capture is processed it is the baseline of its display, or its
/// file is gone from storage.
pub proof fn lemma_capture_promoted_or_deleted(
    store: Map<Seq<char>, Seq<char>>,
    files: Set<Seq<char>>,
    o: ObservationView,
    sensitivity: u32,
)
    ensures
        (store_after(store, o, sensitivity).contains_key(o.display) && store_after(
            store,
            o,
            sensitivity,
        )[o.display] == o.path) || !storage_after(
            files,
            o.path,
            action_for(store, o, sensitivity),
        ).contains(o.path),
{
}

/// Whether `file` is the baseline of some display.
pub open spec fn is_baseline_path(store: Map<Seq<char>, Seq<char>>, file: Seq<char>) -> bool {
    exists|d: Seq<char>| store.contains_key(d) && #[trigger] store[d] == file
}

/// Every file on storage is the baseline of some display.
pub open spec fn no_stray_files(store: Map<Seq<char>, Seq<char>>, files: Set<Seq<char>>) -> bool {
    forall|file: Seq<char>| files.contains(file) ==> #[trigger] is_baseline_path(store, file)
}

/// Where every file on storage is a baseline before a capture, every file
/// on storage is a baseline once the capture is processed and its action
/// carried out: no file is left that the store does not know.
pub proof fn lemma_no_stray_files(
    store: Map<Seq<char>, Seq<char>>,
    files: Set<Seq<char>>,
    o: ObservationView,
    sensitivity: u32,
)
    requires
        no_stray_files(store, files),
    ensures
        no_stray_files(
            store_after(store, o, sensitivity),
            storage_after(files, o.path, action_for(store, o, sensitivity)),
        ),
{
    let after = store_after(store, o, sensitivity);
    let left = storage_after(files, o.path, action_for(store, o, sensitivity));
    assert forall|file: Seq<char>| left.contains(file) implies #[trigger] is_baseline_path(
        after,
        file,
    ) by {
        if file == o.path {
            assert(after.contains_key(o.display) && after[o.display] == file);
        } else {
            assert(is_baseline_path(store, file));
            let d = choose|d: Seq<char>| store.contains_key(d) && #[trigger] store[d] == file;
            assert(after.contains_key(d) && after[d] == file);
        }
    }
}

/// Where every baseline path is a file on storage before a capture, and
/// the capture was written to a path that is no baseline, every baseline
/// path is a file on storage once the capture is processed and its action
/// carried out.
pub proof fn lemma_baselines_stay_present(
    store: Map<Seq<char>, Seq<char>>,
    files: Set<Seq<char>>,
    o: ObservationView,
    sensitivity: u32,
)
    requires
        baselines_present(store, files),
        forall|d: Seq<char>| store.contains_key(d) ==> #[trigger] store[d] != o.path,
    ensures
        baselines_present(
            store_after(store, o, sensitivity),
            storage_after(files, o.path, action_for(store, o, sensitivity)),
        ),
{
    let after = store_after(store, o, sensitivity);
    let left = storage_after(files, o.path, action_for(store, o, sensitivity));
    assert forall|d: Seq<char>| after.contains_key(d) implies left.contains(#[trigger] after[d]) by {
        if d != o.display {
            assert(store.contains_key(d));
            assert(after[d] == store[d]);
            if store.contains_key(o.display) {
                assert(store[d] != store[o.display]);
            }
        }
    }
    assert forall|d: Seq<char>, e: Seq<char>|
        after.contains_key(d) && after.contains_key(e) && #[trigger] after[d] == #[trigger] after[e]
        implies d == e by {
        if d != o.display && e != o.display {
            assert(store[d] == store[e]);
        } else if d != o.display {
            assert(after[d] == store[d]);
        } else if e != o.display {
            assert(after[e] == store[e]);
        }
    }
}

/// The files on storage after a tick in which each capture is written and
/// then processed, one after the other.
pub open spec fn tick_storage(
    files: Set<Seq<char>>,
    store: Map<Seq<char>, Seq<char>>,
    observations: Seq<ObservationView>,
    sensitivity: u32,
) -> Set<Seq<char>>
    decreases observations.len(),
{
    if observations.len() == 0 {
        files
    } else {
        storage_after(
            tick_storage(files, store, observations.drop_last(), sensitivity),
            observations.last().path,
            action_for(
                tick_store(store, observations.drop_last(), sensitivity),
                observations.last(),
                sensitivity,
            ),
        )
    }
}

/// The captures of a tick are written to paths that differ from each
/// other and from every baseline path.
pub open spec fn fresh_paths(
    store: Map<Seq<char>, Seq<char>>,
    observations: Seq<ObservationView>,
) -> bool {
    &&& forall|i: int, d: Seq<char>|
        0 <= i < observations.len() && store.contains_key(d) ==> #[trigger] store[d]
            != (#[trigger] observations[i]).path
    &&& forall|i: int, j: int|
        0 <= i < j < observations.len() ==> (#[trigger] observations[i]).path
            != (#[trigger] observations[j]).path
}

/// Whether `path` is the path of one of the captures.
pub open spec fn is_capture_path(observations: Seq<ObservationView>, path: Seq<char>) -> bool {
    exists|i: int| 0 <= i < observations.len() && (#[trigger] observations[i]).path == path
}

/// After a tick every baseline path is one that the store held before or
/// the path of one of the captures of the tick.
pub proof fn lemma_tick_paths(
    store: Map<Seq<char>, Seq<char>>,
    observations: Seq<ObservationView>,
    sensitivity: u32,
)
    ensures
        forall|d: Seq<char>| #[trigger]
            tick_store(store, observations, sensitivity).contains_key(d) ==> (store.contains_key(d)
                && tick_store(store, observations, sensitivity)[d] == store[d]) || is_capture_path(
                observations,
                tick_store(store, observations, sensitivity)[d],
            ),
    decreases observations.len(),
{
    if observations.len() > 0 {
        let front = observations.drop_last();
        let last = observations.last();
        lemma_tick_paths(store, front, sensitivity);
        let before = tick_store(store, front, sensitivity);
        let after = tick_store(store, observations, sensitivity);
        assert forall|d: Seq<char>| #[trigger] after.contains_key(d) implies (store.contains_key(d)
            && after[d] == store[d]) || is_capture_path(observations, after[d]) by {
            if after[d] == last.path {
                assert(observations[observations.len() - 1].path == after[d]);
            } else {
                assert(before.contains_key(d) && before[d] == after[d]);
                if !(store.contains_key(d) && before[d] == store[d]) {
                    let i = choose|i: int| 0 <= i < front.len() && (#[trigger] front[i]).path == before[d];
                    assert(observations[i].path == after[d]);
                }
            }
        }
    }
}

/// Where every baseline path is a file on storage before a tick, and the
/// captures of the tick are written to fresh paths, every baseline path is
/// a file on storage after the tick.
pub proof fn lemma_tick_keeps_baselines_present(
    store: Map<Seq<char>, Seq<char>>,
    files: Set<Seq<char>>,
    observations: Seq<ObservationView>,
    sensitivity: u32,
)
    requires
        baselines_present(store, files),
        fresh_paths(store, observations),
    ensures
        baselines_present(
            tick_store(store, observations, sensitivity),
            tick_storage(files, store, observations, sensitivity),
        ),
    decreases observations.len(),
{
    if observations.len() > 0 {
        let front = observations.drop_last();
        let last = observations.last();
        assert(fresh_paths(store, front)) by {
            assert forall|i: int, d: Seq<char>|
                0 <= i < front.len() && store.contains_key(d) implies #[trigger] store[d] != (
                #[trigger] front[i]).path by {
                assert(front[i] == observations[i]);
            }
            assert forall|i: int, j: int| 0 <= i < j < front.len() implies (#[trigger] front[i]).path != (
            #[trigger] front[j]).path by {
                assert(front[i] == observations[i] && front[j] == observations[j]);
            }
        }
        lemma_tick_keeps_baselines_present(store, files, front, sensitivity);
        lemma_tick_paths(store, front, sensitivity);
        let before = tick_store(store, front, sensitivity);
        let n = observations.len() - 1;
        assert forall|d: Seq<char>| before.contains_key(d) implies #[trigger] before[d] != last.path by {
            if store.contains_key(d) && before[d] == store[d] {
                assert(store[d] != observations[n].path);
            } else {
                let i = choose|i: int| 0 <= i < front.len() && (#[trigger] front[i]).path == before[d];
                assert(front[i] == observations[i]);
                assert(observations[i].path != observations[n].path);
            }
        }
        lemma_baselines_stay_present(
            before,
            tick_storage(files, store, front, sensitivity),
            last,
            sensitivity,
        );
    }
}

/// Where every file on storage is a baseline before a tick, every file on
/// storage is a baseline after it: each capture of the tick has become a
/// baseline or its file is gone.
pub proof fn lemma_tick_leaves_no_stray_files(
    store: Map<Seq<char>, Seq<char>>,
    files: Set<Seq<char>>,
    observations: Seq<ObservationView>,
    sensitivity: u32,
)
    requires
        no_stray_files(store, files),
    ensures
        no_stray_files(
            tick_store(store, observations, sensitivity),
            tick_storage(files, store, observations, sensitivity),
        ),
    decreases observations.len(),
{
    if observations.len() > 0 {
        let front = observations.drop_last();
        lemma_tick_leaves_no_stray_files(store, files, front, sensitivity);
        lemma_no_stray_files(
            tick_store(store, front, sensitivity),
            tick_storage(files, store, front, sensitivity),
            observations.last(),
            sensitivity,
        );
    }
}

} // verus!
