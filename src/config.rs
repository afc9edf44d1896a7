use vstd::prelude::*;

use crate::errors::{OResult, OpaqueError};

verus! {

/// Creation and last-modification instants of one resource, in nanoseconds
/// since the Unix epoch (UTC).
#[derive(Debug, Clone, Copy, PartialEq, Eq, Structural)]
pub struct Timing {
    pub created: i64,
    pub modified: i64,
}

/// What the file system reported for one file. `None` stands for an instant
/// the platform could not provide.
#[derive(Debug, Clone, Copy, PartialEq, Eq, Structural)]
pub struct FileTimes {
    pub modified: Option<i64>,
    pub created: Option<i64>,
}

/// The creation instant chosen by the fallback chain: the file system's own,
/// else the one recorded by the previous scan, else the modification instant.
pub open spec fn resolved_created(created: Option<i64>, prev: Option<&Timing>, modified: i64) -> i64 {
    match created {
        Some(c) => c,
        None => match prev {
            Some(p) => p.created,
            None => modified,
        },
    }
}

impl Timing {
    /// Timing of a file from its metadata and the timing the previous scan
    /// recorded under the same name, if any. Fails only when the modification
    /// instant is unavailable.
    pub fn from_metadata_and_prev(metadata: &FileTimes, prev: Option<&Timing>) -> (r: OResult<Timing>)
        ensures
            r is Err <==> metadata.modified is None,
            r is Ok ==> r->Ok_0 == (Timing {
                created: resolved_created(metadata.created, prev, metadata.modified->Some_0),
                modified: metadata.modified->Some_0,
            }),
    {
        let modified = match metadata.modified {
            Some(m) => m,
            None => {
                return Err(OpaqueError::new(String::from_str("modification time unavailable")));
            },
        };
        let created = match metadata.created {
            Some(c) => c,
            None => match prev {
                Some(p) => p.created,
                None => modified,
            },
        };
        Ok(Timing { created, modified })
    }
}

} // verus!

verus! {

/// The entries of a manifest with each name seen as characters.
pub open spec fn entries_view(v: Seq<(String, Timing)>) -> Seq<(Seq<char>, Timing)> {
    v.map_values(|e: (String, Timing)| (e.0@, e.1))
}

/// The map built by inserting the entries in order: a later entry replaces an
/// earlier one of the same name.
pub open spec fn entries_map(s: Seq<(Seq<char>, Timing)>) -> Map<Seq<char>, Timing>
    decreases s.len(),
{
    if s.len() == 0 {
        Map::empty()
    } else {
        entries_map(s.drop_last()).insert(s.last().0, s.last().1)
    }
}

pub open spec fn names_distinct(s: Seq<(Seq<char>, Timing)>) -> bool {
    forall|i: int, j: int| 0 <= i < j < s.len() ==> s[i].0 != s[j].0
}

proof fn lemma_entries_map_keys(s: Seq<(Seq<char>, Timing)>)
    ensures
        forall|k: Seq<char>|
            #[trigger] entries_map(s).contains_key(k) <==> exists|i: int| 0 <= i < s.len() && s[i].0 == k,
    decreases s.len(),
{
    if s.len() > 0 {
        let t = s.drop_last();
        lemma_entries_map_keys(t);
        assert forall|k: Seq<char>|
            #[trigger] entries_map(s).contains_key(k) <==> exists|i: int| 0 <= i < s.len() && s[i].0 == k by {
            if entries_map(s).contains_key(k) {
                if k == s.last().0 {
                    assert(s[s.len() - 1].0 == k);
                } else {
                    assert(entries_map(t).contains_key(k));
                    let i = choose|i: int| 0 <= i < t.len() && t[i].0 == k;
                    assert(s[i] == t[i]);
                }
            }
            if exists|i: int| 0 <= i < s.len() && s[i].0 == k {
                let i = choose|i: int| 0 <= i < s.len() && s[i].0 == k;
                if i < s.len() - 1 {
                    assert(t[i] == s[i]);
                    assert(entries_map(t).contains_key(k));
                }
            }
        }
    }
}

proof fn lemma_entries_map_values(s: Seq<(Seq<char>, Timing)>)
    requires
        names_distinct(s),
    ensures
        forall|i: int| 0 <= i < s.len() ==> #[trigger] entries_map(s).contains_key(s[i].0) && entries_map(s)[s[i].0] == s[i].1,
    decreases s.len(),
{
    if s.len() > 0 {
        let t = s.drop_last();
        assert(names_distinct(t));
        lemma_entries_map_values(t);
        assert forall|i: int| 0 <= i < s.len() implies #[trigger] entries_map(s).contains_key(s[i].0) && entries_map(s)[s[i].0] == s[i].1 by {
            if i < s.len() - 1 {
                assert(t[i] == s[i]);
                assert(s[i].0 != s[s.len() - 1].0);
                assert(entries_map(t).contains_key(t[i].0));
            }
        }
    }
}

proof fn lemma_entries_map_len(s: Seq<(Seq<char>, Timing)>)
    requires
        names_distinct(s),
    ensures
        entries_map(s).dom().finite(),
        entries_map(s).len() == s.len(),
    decreases s.len(),
{
    if s.len() > 0 {
        let t = s.drop_last();
        assert(names_distinct(t));
        lemma_entries_map_len(t);
        lemma_entries_map_keys(t);
        assert(!entries_map(t).contains_key(s.last().0)) by {
            if entries_map(t).contains_key(s.last().0) {
                let i = choose|i: int| 0 <= i < t.len() && t[i].0 == s.last().0;
                assert(s[i].0 == s[s.len() - 1].0);
            }
        }
    }
}

proof fn lemma_entries_map_source(s: Seq<(Seq<char>, Timing)>)
    ensures
        forall|k: Seq<char>| #[trigger] entries_map(s).contains_key(k) ==> s.contains((k, entries_map(s)[k])),
    decreases s.len(),
{
    if s.len() > 0 {
        let t = s.drop_last();
        lemma_entries_map_source(t);
        assert forall|k: Seq<char>| #[trigger] entries_map(s).contains_key(k) implies s.contains((k, entries_map(s)[k])) by {
            if k == s.last().0 {
                assert(s[s.len() - 1] == (k, entries_map(s)[k]));
            } else {
                assert(entries_map(t).contains_key(k));
                let i = choose|i: int| 0 <= i < t.len() && t[i] == (k, entries_map(t)[k]);
                assert(s[i] == t[i]);
            }
        }
    }
}

/// Round trip through a document that lists the entries in another order (a
/// key-sorted file): entries that hold the same records as those a manifest
/// was written from, whatever their order, rebuild the same manifest.
pub proof fn lemma_entries_round_trip(written: Seq<(Seq<char>, Timing)>, read: Seq<(Seq<char>, Timing)>)
    requires
        names_distinct(written),
        read.to_multiset() == written.to_multiset(),
    ensures
        entries_map(read) == entries_map(written),
{
    broadcast use vstd::seq_lib::group_to_multiset_ensures;

    lemma_entries_map_keys(read);
    lemma_entries_map_keys(written);
    lemma_entries_map_values(written);
    lemma_entries_map_source(read);
    assert forall|k: Seq<char>| #[trigger] entries_map(read).contains_key(k) <==> entries_map(written).contains_key(k) by {
        if entries_map(read).contains_key(k) {
            let i = choose|i: int| 0 <= i < read.len() && read[i].0 == k;
            assert(read.contains(read[i]));
            assert(written.to_multiset().count(read[i]) > 0);
            let j = choose|j: int| 0 <= j < written.len() && written[j] == read[i];
            assert(written[j].0 == k);
        }
        if entries_map(written).contains_key(k) {
            let j = choose|j: int| 0 <= j < written.len() && written[j].0 == k;
            assert(written.contains(written[j]));
            assert(read.to_multiset().count(written[j]) > 0);
            let i = choose|i: int| 0 <= i < read.len() && read[i] == written[j];
            assert(read[i].0 == k);
        }
    }
    assert forall|k: Seq<char>| #[trigger] entries_map(read).contains_key(k) implies entries_map(read)[k] == entries_map(written)[k] by {
        let e = (k, entries_map(read)[k]);
        assert(read.contains(e));
        assert(written.to_multiset().count(e) > 0);
        let j = choose|j: int| 0 <= j < written.len() && written[j] == e;
        assert(entries_map(written).contains_key(written[j].0));
    }
    assert(entries_map(read) =~= entries_map(written));
}

/// The manifest: for each resource name, the timing that the last completed
/// build recorded.
#[derive(Debug)]
pub struct Config {
    timings: Vec<(String, Timing)>,
}

impl View for Config {
    type V = Map<Seq<char>, Timing>;

    closed spec fn view(&self) -> Map<Seq<char>, Timing> {
        entries_map(entries_view(self.timings@))
    }
}

impl Config {
    /// Each name occurs in one entry only.
    pub closed spec fn wf(&self) -> bool {
        names_distinct(entries_view(self.timings@))
    }

    /// A manifest with no entries.
    pub fn empty() -> (r: Config)
        ensures
            r.wf(),
            r@ == Map::<Seq<char>, Timing>::empty(),
    {
        let r = Config { timings: Vec::new() };
        assert(entries_view(r.timings@) =~= Seq::empty());
        r
    }

    fn find(&self, name: &String) -> (r: Option<usize>)
        requires
            self.wf(),
        ensures
            match r {
                Some(i) => i < self.timings@.len() && self.timings@[i as int].0@ == name@,
                None => !self@.contains_key(name@),
            },
    {
        proof {
            lemma_entries_map_keys(entries_view(self.timings@));
        }
        let mut i: usize = 0;
        while i < self.timings.len()
            invariant
                i <= self.timings@.len(),
                forall|j: int| 0 <= j < i ==> self.timings@[j].0@ != name@,
            decreases self.timings@.len() - i,
        {
            if self.timings[i].0 == *name {
                return Some(i);
            }
            i += 1;
        }
        proof {
            let s = entries_view(self.timings@);
            assert forall|j: int| 0 <= j < s.len() implies s[j].0 != name@ by {
                assert(self.timings@[j].0@ != name@);
            }
        }
        None
    }

    /// The timing recorded under `name`, if any.
    pub fn get(&self, name: &String) -> (r: Option<Timing>)
        requires
            self.wf(),
        ensures
            r == (if self@.contains_key(name@) { Some(self@[name@]) } else { None::<Timing> }),
    {
        proof {
            lemma_entries_map_values(entries_view(self.timings@));
        }
        match self.find(name) {
            Some(i) => {
                proof {
                    assert(entries_view(self.timings@)[i as int].0 == name@);
                }
                Some(self.timings[i].1)
            },
            None => None,
        }
    }

    /// Records `timing` under `name`, replacing what was recorded there.
    pub fn insert(&mut self, name: String, timing: Timing)
        requires
            old(self).wf(),
        ensures
            final(self).wf(),
            final(self)@ == old(self)@.insert(name@, timing),
    {
        let ghost before = entries_view(self.timings@);
        proof {
            lemma_entries_map_keys(before);
            lemma_entries_map_values(before);
        }
        match self.find(&name) {
            Some(i) => {
                let ghost k = name@;
                self.timings.set(i, (name, timing));
                proof {
                    let after = entries_view(self.timings@);
                    assert(after =~= before.update(i as int, (k, timing)));
                    assert(names_distinct(after)) by {
                        assert forall|a: int, b: int| 0 <= a < b < after.len() implies after[a].0 != after[b].0 by {
                            assert(after[a].0 == before[a].0);
                            assert(after[b].0 == before[b].0);
                        }
                    }
                    lemma_entries_map_keys(after);
                    lemma_entries_map_values(after);
                    assert forall|key: Seq<char>| #[trigger] entries_map(after).contains_key(key) <==> old(self)@.insert(k, timing).contains_key(key) by {
                        if entries_map(after).contains_key(key) {
                            let j = choose|j: int| 0 <= j < after.len() && after[j].0 == key;
                            if j != i {
                                assert(before[j].0 == key);
                                assert(old(self)@.contains_key(key));
                            }
                        }
                        if old(self)@.contains_key(key) {
                            let j = choose|j: int| 0 <= j < before.len() && before[j].0 == key;
                            assert(after[j].0 == key);
                        }
                        if key == k {
                            assert(after[i as int].0 == key);
                        }
                    }
                    assert forall|key: Seq<char>| #[trigger] entries_map(after).contains_key(key) implies entries_map(after)[key] == old(self)@.insert(k, timing)[key] by {
                        let j = choose|j: int| 0 <= j < after.len() && after[j].0 == key;
                        assert(entries_map(after).contains_key(after[j].0));
                        if j != i {
                            assert(before[j] == after[j]);
                            assert(before[i as int].0 == k);
                            assert(key != k);
                            assert(entries_map(before).contains_key(before[j].0));
                            assert(entries_map(before)[key] == before[j].1);
                        } else {
                            assert(after[j] == (k, timing));
                        }
                    }
                    assert(entries_map(after) =~= old(self)@.insert(k, timing));
                }
            },
            None => {
                self.timings.push((name, timing));
                proof {
                    let after = entries_view(self.timings@);
                    assert(after.drop_last() =~= before);
                    assert forall|a: int, b: int| 0 <= a < b < after.len() implies after[a].0 != after[b].0 by {
                        if b == after.len() - 1 {
                            assert(before[a].0 == after[a].0);
                        } else {
                            assert(before[a].0 == after[a].0);
                            assert(before[b].0 == after[b].0);
                        }
                    }
                }
            },
        }
    }

    /// A manifest holding the given entries; where a name occurs more than
    /// once, the last entry wins.
    pub fn new(timings: Vec<(String, Timing)>) -> (r: Config)
        ensures
            r.wf(),
            r@ == entries_map(entries_view(timings@)),
    {
        let mut r = Config::empty();
        let ghost all = entries_view(timings@);
        let mut i: usize = 0;
        while i < timings.len()
            invariant
                all == entries_view(timings@),
                i <= timings@.len(),
                r.wf(),
                r@ == entries_map(all.take(i as int)),
            decreases timings@.len() - i,
        {
            let name = timings[i].0.clone();
            proof {
                assert(all[i as int] == (name@, timings@[i as int].1));
                assert(all.take(i as int + 1).drop_last() =~= all.take(i as int));
            }
            r.insert(name, timings[i].1);
            i += 1;
        }
        assert(all.take(timings@.len() as int) =~= all);
        r
    }

    /// Whether every entry of `self` is recorded alike in `other`.
    fn contained_in(&self, other: &Config) -> (r: bool)
        requires
            self.wf(),
            other.wf(),
        ensures
            r == (forall|k: Seq<char>| #[trigger] self@.contains_key(k) ==> other@.contains_key(k) && other@[k] == self@[k]),
    {
        let ghost s = entries_view(self.timings@);
        proof {
            lemma_entries_map_keys(s);
            lemma_entries_map_values(s);
        }
        let mut i: usize = 0;
        while i < self.timings.len()
            invariant
                s == entries_view(self.timings@),
                self.wf(),
                other.wf(),
                i <= s.len(),
                forall|j: int| 0 <= j < i ==> #[trigger] other@.contains_key(s[j].0) && other@[s[j].0] == s[j].1,
            decreases s.len() - i,
        {
            proof {
                lemma_entries_map_values(s);
                assert(s[i as int].0 == self.timings@[i as int].0@);
                assert(self@.contains_key(s[i as int].0));
            }
            let found = other.get(&self.timings[i].0);
            match found {
                Some(t) => {
                    if t != self.timings[i].1 {
                        return false;
                    }
                },
                None => {
                    return false;
                },
            }
            proof {
                assert(found == Some(other@[s[i as int].0]));
                assert(other@.contains_key(s[i as int].0) && other@[s[i as int].0] == s[i as int].1);
                assert forall|j: int| 0 <= j < i + 1 implies #[trigger] other@.contains_key(s[j].0) && other@[s[j].0] == s[j].1 by {
                    if j < i {
                        assert(other@.contains_key(s[j].0));
                    }
                }
            }
            i += 1;
        }
        proof {
            lemma_entries_map_keys(s);
            lemma_entries_map_values(s);
            assert forall|k: Seq<char>| #[trigger] self@.contains_key(k) implies other@.contains_key(k) && other@[k] == self@[k] by {
                let j = choose|j: int| 0 <= j < s.len() && s[j].0 == k;
                assert(other@.contains_key(s[j].0));
            }
        }
        true
    }

    /// Whether the two manifests record the same timing under the same names.
    pub fn same_timings(&self, other: &Config) -> (r: bool)
        requires
            self.wf(),
            other.wf(),
        ensures
            r == (self@ == other@),
    {
        let r = self.contained_in(other) && other.contained_in(self);
        proof {
            if r {
                assert(self@ =~= other@);
            }
        }
        r
    }

    /// The entries of the manifest, one per name.
    pub fn entries(&self) -> (r: Vec<(String, Timing)>)
        requires
            self.wf(),
        ensures
            names_distinct(entries_view(r@)),
            entries_map(entries_view(r@)) == self@,
    {
        let mut r: Vec<(String, Timing)> = Vec::new();
        let mut i: usize = 0;
        while i < self.timings.len()
            invariant
                i <= self.timings@.len(),
                r@.len() == i,
                forall|j: int| 0 <= j < i ==> #[trigger] r@[j].0@ == self.timings@[j].0@ && r@[j].1 == self.timings@[j].1,
            decreases self.timings@.len() - i,
        {
            let name = self.timings[i].0.clone();
            r.push((name, self.timings[i].1));
            i += 1;
        }
        proof {
            assert(entries_view(r@) =~= entries_view(self.timings@));
        }
        r
    }

    /// Number of names recorded.
    pub fn len(&self) -> (r: usize)
        requires
            self.wf(),
        ensures
            r == self@.len(),
    {
        proof {
            lemma_entries_map_len(entries_view(self.timings@));
        }
        self.timings.len()
    }
}

impl Default for Config {
    fn default() -> (r: Config)
        ensures
            r.wf(),
            r@ == Map::<Seq<char>, Timing>::empty(),
    {
        Config::empty()
    }
}

} // verus!
