use vstd::prelude::*;

verus! {

/// The picture last kept for one display.
struct BaselineEntry {
    /// Name of the display.
    display: String,
    /// Where its picture is stored.
    path: String,
}

/// Whether some entry of `entries` is for `display`.
spec fn has_entry(entries: Seq<BaselineEntry>, display: Seq<char>) -> bool {
    exists|i: int| 0 <= i < entries.len() && (#[trigger] entries[i]).display@ == display
}

/// The place of an entry for `display`, where there is one.
spec fn entry_index(entries: Seq<BaselineEntry>, display: Seq<char>) -> int {
    choose|i: int| 0 <= i < entries.len() && (#[trigger] entries[i]).display@ == display
}

/// No two entries are for the same display.
spec fn distinct_displays(entries: Seq<BaselineEntry>) -> bool {
    forall|i: int, j: int|
        0 <= i < entries.len() && 0 <= j < entries.len() && (#[trigger] entries[i]).display@ == (
        #[trigger] entries[j]).display@ ==> i == j
}

/// The displays of `entries`, each with the path of its entry.
spec fn entries_map(entries: Seq<BaselineEntry>) -> Map<Seq<char>, Seq<char>> {
    Map::new(
        |display: Seq<char>| has_entry(entries, display),
        |display: Seq<char>| entries[entry_index(entries, display)].path@,
    )
}

/// For each display seen so far, the path of the picture that the next
/// capture of that display is compared with. It holds at most one path for
/// a display.
pub struct BaselineStore {
    entries: Vec<BaselineEntry>,
}

impl View for BaselineStore {
    type V = Map<Seq<char>, Seq<char>>;

    closed spec fn view(&self) -> Map<Seq<char>, Seq<char>> {
        entries_map(self.entries@)
    }
}

impl BaselineStore {
    #[verifier::type_invariant]
    spec fn well_formed(&self) -> bool {
        distinct_displays(self.entries@)
    }

    /// A store that has seen no display.
    pub fn new() -> (store: BaselineStore)
        ensures
            store@ == Map::<Seq<char>, Seq<char>>::empty(),
    {
        let store = BaselineStore { entries: Vec::new() };
        proof {
            assert(store@ =~= Map::<Seq<char>, Seq<char>>::empty());
        }
        store
    }

    /// The place of the entry for `display`, or the number of entries
    /// where there is none.
    fn position(&self, display: &String) -> (at: usize)
        ensures
            at <= self.entries@.len(),
            at < self.entries@.len() ==> self.entries@[at as int].display@ == display@,
            at == self.entries@.len() ==> !has_entry(self.entries@, display@),
    {
        let mut i: usize = 0;
        while i < self.entries.len()
            invariant
                i <= self.entries@.len(),
                forall|j: int| 0 <= j < i ==> (#[trigger] self.entries@[j]).display@ != display@,
            decreases self.entries@.len() - i,
        {
            if self.entries[i].display == *display {
                return i;
            }
            i += 1;
        }
        i
    }

    /// The baseline path of `display`, if the store has one.
    pub fn get(&self, display: &String) -> (path: Option<&String>)
        ensures
            path is Some <==> self@.contains_key(display@),
            path matches Some(p) ==> p@ == self@[display@],
    {
        proof {
            use_type_invariant(self);
        }
        let at = self.position(display);
        if at < self.entries.len() {
            proof {
                assert(has_entry(self.entries@, display@));
            }
            Some(&self.entries[at].path)
        } else {
            None
        }
    }

    /// Whether the store has a baseline for `display`.
    pub fn contains(&self, display: &String) -> (seen: bool)
        ensures
            seen == self@.contains_key(display@),
    {
        let at = self.position(display);
        proof {
            if at < self.entries@.len() {
                assert(has_entry(self.entries@, display@));
            }
        }
        at < self.entries.len()
    }

    /// Makes `path` the baseline of `display` and hands back the path
    /// that it replaces. Nothing changes for any other display.
    pub fn install(&mut self, display: String, path: String) -> (replaced: Option<String>)
        ensures
            final(self)@ == old(self)@.insert(display@, path@),
            replaced is Some <==> old(self)@.contains_key(display@),
            replaced matches Some(p) ==> p@ == old(self)@[display@],
    {
        proof {
            use_type_invariant(&*self);
        }
        let at = self.position(&display);
        let ghost before = self.entries@;
        // The entries are taken out, changed and put back, so that the
        // store is never seen with an entry missing.
        let mut taken = BaselineStore { entries: Vec::new() };
        std::mem::swap(self, &mut taken);
        let mut entries = taken.entries;
        if at < entries.len() {
            let replaced = entries.remove(at);
            entries.insert(at, BaselineEntry { display, path });
            proof {
                lemma_replaced(before, entries@, at as int);
            }
            self.entries = entries;
            Some(replaced.path)
        } else {
            entries.push(BaselineEntry { display, path });
            proof {
                lemma_appended(before, entries@);
            }
            self.entries = entries;
            None
        }
    }
}

/// An entry for `display` at `at` is the entry that the map reads.
proof fn lemma_entry_at(entries: Seq<BaselineEntry>, at: int)
    requires
        distinct_displays(entries),
        0 <= at < entries.len(),
    ensures
        has_entry(entries, entries[at].display@),
        entry_index(entries, entries[at].display@) == at,
        entries_map(entries)[entries[at].display@] == entries[at].path@,
{
}

/// A new path for the entry at `at` is a new path for its display in the
/// map, and nothing else changes.
proof fn lemma_replaced(before: Seq<BaselineEntry>, after: Seq<BaselineEntry>, at: int)
    requires
        distinct_displays(before),
        0 <= at < before.len(),
        after.len() == before.len(),
        forall|j: int| 0 <= j < after.len() ==> (#[trigger] after[j]).display@ == before[j].display@,
        forall|j: int| 0 <= j < after.len() && j != at ==> (#[trigger] after[j]).path@ == before[j].path@,
    ensures
        distinct_displays(after),
        has_entry(before, before[at].display@),
        entries_map(before)[before[at].display@] == before[at].path@,
        entries_map(after) == entries_map(before).insert(before[at].display@, after[at].path@),
{
    lemma_same_displays(before, after);
    lemma_entry_at(before, at);
    assert forall|d: Seq<char>| has_entry(after, d) implies #[trigger] entries_map(after)[d]
        == entries_map(before).insert(before[at].display@, after[at].path@)[d] by {
        let k = entry_index(after, d);
        lemma_entry_at(after, k);
        lemma_entry_at(before, k);
    }
    assert(entries_map(after) =~= entries_map(before).insert(
        before[at].display@,
        after[at].path@,
    ));
}

/// An entry for a display that has none yet, put behind the others, is
/// one more display in the map, and nothing else changes.
proof fn lemma_appended(before: Seq<BaselineEntry>, after: Seq<BaselineEntry>)
    requires
        distinct_displays(before),
        after.len() == before.len() + 1,
        forall|j: int| 0 <= j < before.len() ==> (#[trigger] after[j]) == before[j],
        !has_entry(before, after.last().display@),
    ensures
        distinct_displays(after),
        entries_map(after) == entries_map(before).insert(after.last().display@, after.last().path@),
{
    let key = after.last().display@;
    let n = before.len() as int;
    assert forall|i: int, j: int|
        0 <= i < after.len() && 0 <= j < after.len() && (#[trigger] after[i]).display@ == (
        #[trigger] after[j]).display@ implies i == j by {
        if i < n && j < n {
            assert(before[i].display@ == before[j].display@);
        } else if i < n {
            assert(before[i].display@ == key);
        } else if j < n {
            assert(before[j].display@ == key);
        }
    }
    assert forall|d: Seq<char>| has_entry(after, d) <==> (d == key || has_entry(before, d)) by {
        if has_entry(after, d) {
            let k = entry_index(after, d);
            if k < n {
                assert(before[k].display@ == d);
            }
        }
        if has_entry(before, d) {
            let k = entry_index(before, d);
            assert(after[k].display@ == d);
        }
        if d == key {
            assert(after[n].display@ == d);
        }
    }
    assert forall|d: Seq<char>| has_entry(after, d) implies #[trigger] entries_map(after)[d]
        == entries_map(before).insert(key, after.last().path@)[d] by {
        let k = entry_index(after, d);
        lemma_entry_at(after, k);
        if d != key {
            lemma_entry_at(before, k);
        }
    }
    assert(entries_map(after) =~= entries_map(before).insert(key, after.last().path@));
}

/// Entries with the same displays at the same places hold the same set of
/// displays, and are distinct together.
proof fn lemma_same_displays(before: Seq<BaselineEntry>, after: Seq<BaselineEntry>)
    requires
        before.len() == after.len(),
        forall|j: int| 0 <= j < after.len() ==> (#[trigger] after[j]).display@ == before[j].display@,
        distinct_displays(before),
    ensures
        distinct_displays(after),
        forall|d: Seq<char>| has_entry(after, d) <==> has_entry(before, d),
{
    assert forall|i: int, j: int|
        0 <= i < after.len() && 0 <= j < after.len() && (#[trigger] after[i]).display@ == (
        #[trigger] after[j]).display@ implies i == j by {
        assert(before[i].display@ == before[j].display@);
    }
    assert forall|d: Seq<char>| has_entry(after, d) <==> has_entry(before, d) by {
        if has_entry(after, d) {
            let k = entry_index(after, d);
            assert(before[k].display@ == d);
        }
        if has_entry(before, d) {
            let k = entry_index(before, d);
            assert(after[k].display@ == d);
        }
    }
}

} // verus!
