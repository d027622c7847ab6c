//! Small text-keyed tables that the shortcut compiler keeps while it walks a
//! list of actions. Each is a list of entries where a later entry for a key
//! replaces an earlier one, so that each reads as a `Map`.
use vstd::prelude::*;

verus! {

broadcast use vstd::string::group_string_axioms;

/// The map that a list of entries stands for: each entry sets its key, later
/// entries over earlier ones.
pub open spec fn fold_map<K, V>(s: Seq<(K, V)>) -> Map<K, V>
    decreases s.len(),
{
    if s.len() == 0 {
        Map::empty()
    } else {
        fold_map(s.drop_last()).insert(s.last().0, s.last().1)
    }
}

/// Entries past index `j` that do not set `k` leave what the map says of `k`
/// as the first `j` entries have it.
pub proof fn lemma_fold_map_skip<K, V>(s: Seq<(K, V)>, j: int, k: K)
    requires
        0 <= j <= s.len(),
        forall|m: int| j <= m < s.len() ==> (#[trigger] s[m]).0 != k,
    ensures
        fold_map(s).contains_key(k) == fold_map(s.take(j)).contains_key(k),
        fold_map(s).contains_key(k) ==> fold_map(s)[k] == fold_map(s.take(j))[k],
    decreases s.len(),
{
    if s.len() == j {
        assert(s.take(j) =~= s);
    } else {
        let d = s.drop_last();
        assert(d.take(j) =~= s.take(j));
        assert forall|m: int| j <= m < d.len() implies (#[trigger] d[m]).0 != k by {
            assert(d[m] == s[m]);
        }
        lemma_fold_map_skip(d, j, k);
    }
}

/// The map of the first `j + 1` entries sets the key of entry `j` to its
/// value.
pub proof fn lemma_fold_map_take_step<K, V>(s: Seq<(K, V)>, j: int)
    requires
        0 <= j < s.len(),
    ensures
        fold_map(s.take(j + 1)) == fold_map(s.take(j)).insert(s[j].0, s[j].1),
{
    let t = s.take(j + 1);
    assert(t.drop_last() =~= s.take(j));
}

/// The view of an output entry: alias, then output name and UUID.
pub open spec fn output_entry_view(e: (String, String, String)) -> (Seq<char>, (Seq<char>, Seq<char>)) {
    (e.0@, (e.1@, e.2@))
}

/// The outputs an action list has named so far: for each alias, the output
/// name and the UUID of the action that produced it.
pub struct OutputTable {
    entries: Vec<(String, String, String)>,
}

impl View for OutputTable {
    type V = Map<Seq<char>, (Seq<char>, Seq<char>)>;

    closed spec fn view(&self) -> Map<Seq<char>, (Seq<char>, Seq<char>)> {
        fold_map(self.entries@.map_values(|e: (String, String, String)| output_entry_view(e)))
    }
}

impl OutputTable {
    /// A table with no outputs.
    pub fn new() -> (t: Self)
        ensures
            t@ == Map::<Seq<char>, (Seq<char>, Seq<char>)>::empty(),
    {
        let t = OutputTable { entries: Vec::new() };
        assert(t.entries@.map_values(|e: (String, String, String)| output_entry_view(e)) =~= Seq::empty());
        t
    }

    /// Names the output `alias`: its name and UUID.
    pub fn insert(&mut self, alias: String, name: String, uuid: String)
        ensures
            final(self)@ == old(self)@.insert(alias@, (name@, uuid@)),
    {
        let ghost before = self.entries@;
        self.entries.push((alias, name, uuid));
        proof {
            let f = |e: (String, String, String)| output_entry_view(e);
            assert(self.entries@.map_values(f).drop_last() =~= before.map_values(f));
        }
    }

    /// The output name and UUID that `alias` stands for.
    pub fn get(&self, alias: &String) -> (r: Option<(String, String)>)
        ensures
            match r {
                Some((name, uuid)) => self@.contains_key(alias@) && self@[alias@] == (name@, uuid@),
                None => !self@.contains_key(alias@),
            },
    {
        let ghost s = self.entries@.map_values(|e: (String, String, String)| output_entry_view(e));
        let mut j: usize = self.entries.len();
        while j > 0
            invariant
                j <= self.entries.len(),
                s == self.entries@.map_values(|e: (String, String, String)| output_entry_view(e)),
                forall|m: int| j <= m < s.len() ==> (#[trigger] s[m]).0 != alias@,
            decreases j,
        {
            let e = &self.entries[j - 1];
            if e.0 == *alias {
                proof {
                    lemma_fold_map_skip(s, j as int, alias@);
                    lemma_fold_map_take_step(s, j - 1);
                }
                return Some((e.1.clone(), e.2.clone()));
            }
            j = j - 1;
        }
        proof {
            lemma_fold_map_skip(s, 0, alias@);
        }
        None
    }
}

/// The view of a text entry: key, then value.
pub open spec fn text_entry_view(e: (String, String)) -> (Seq<char>, Seq<char>) {
    (e.0@, e.1@)
}

/// A map from texts to texts.
pub struct TextTable {
    entries: Vec<(String, String)>,
}

impl View for TextTable {
    type V = Map<Seq<char>, Seq<char>>;

    closed spec fn view(&self) -> Map<Seq<char>, Seq<char>> {
        fold_map(self.entries@.map_values(|e: (String, String)| text_entry_view(e)))
    }
}

impl TextTable {
    /// An empty table.
    pub fn new() -> (t: Self)
        ensures
            t@ == Map::<Seq<char>, Seq<char>>::empty(),
    {
        let t = TextTable { entries: Vec::new() };
        assert(t.entries@.map_values(|e: (String, String)| text_entry_view(e)) =~= Seq::empty());
        t
    }

    /// Sets `key` to `value`.
    pub fn insert(&mut self, key: String, value: String)
        ensures
            final(self)@ == old(self)@.insert(key@, value@),
    {
        let ghost before = self.entries@;
        self.entries.push((key, value));
        proof {
            let f = |e: (String, String)| text_entry_view(e);
            assert(self.entries@.map_values(f).drop_last() =~= before.map_values(f));
        }
    }

    /// The value of `key`.
    pub fn get(&self, key: &String) -> (r: Option<String>)
        ensures
            match r {
                Some(v) => self@.contains_key(key@) && self@[key@] == v@,
                None => !self@.contains_key(key@),
            },
    {
        let ghost s = self.entries@.map_values(|e: (String, String)| text_entry_view(e));
        let mut j: usize = self.entries.len();
        while j > 0
            invariant
                j <= self.entries.len(),
                s == self.entries@.map_values(|e: (String, String)| text_entry_view(e)),
                forall|m: int| j <= m < s.len() ==> (#[trigger] s[m]).0 != key@,
            decreases j,
        {
            let e = &self.entries[j - 1];
            if e.0 == *key {
                proof {
                    lemma_fold_map_skip(s, j as int, key@);
                    lemma_fold_map_take_step(s, j - 1);
                }
                return Some(e.1.clone());
            }
            j = j - 1;
        }
        proof {
            lemma_fold_map_skip(s, 0, key@);
        }
        None
    }
}

/// The view of a count entry: key, then count.
pub open spec fn count_entry_view(e: (String, u64)) -> (Seq<char>, nat) {
    (e.0@, e.1 as nat)
}

/// How many times each text has been seen.
pub struct CountTable {
    entries: Vec<(String, u64)>,
}

impl View for CountTable {
    type V = Map<Seq<char>, nat>;

    closed spec fn view(&self) -> Map<Seq<char>, nat> {
        fold_map(self.entries@.map_values(|e: (String, u64)| count_entry_view(e)))
    }
}

impl CountTable {
    /// A table where nothing has been seen.
    pub fn new() -> (t: Self)
        ensures
            t@ == Map::<Seq<char>, nat>::empty(),
    {
        let t = CountTable { entries: Vec::new() };
        assert(t.entries@.map_values(|e: (String, u64)| count_entry_view(e)) =~= Seq::empty());
        t
    }

    /// Sets the count of `key`.
    pub fn insert(&mut self, key: String, count: u64)
        ensures
            final(self)@ == old(self)@.insert(key@, count as nat),
    {
        let ghost before = self.entries@;
        self.entries.push((key, count));
        proof {
            let f = |e: (String, u64)| count_entry_view(e);
            assert(self.entries@.map_values(f).drop_last() =~= before.map_values(f));
        }
    }

    /// The count of `key`, if it has one.
    pub fn get(&self, key: &String) -> (r: Option<u64>)
        ensures
            match r {
                Some(n) => self@.contains_key(key@) && self@[key@] == n as nat,
                None => !self@.contains_key(key@),
            },
    {
        let ghost s = self.entries@.map_values(|e: (String, u64)| count_entry_view(e));
        let mut j: usize = self.entries.len();
        while j > 0
            invariant
                j <= self.entries.len(),
                s == self.entries@.map_values(|e: (String, u64)| count_entry_view(e)),
                forall|m: int| j <= m < s.len() ==> (#[trigger] s[m]).0 != key@,
            decreases j,
        {
            let e = &self.entries[j - 1];
            if e.0 == *key {
                proof {
                    lemma_fold_map_skip(s, j as int, key@);
                    lemma_fold_map_take_step(s, j - 1);
                }
                return Some(e.1);
            }
            j = j - 1;
        }
        proof {
            lemma_fold_map_skip(s, 0, key@);
        }
        None
    }
}

} // verus!
