//! The header map of a request: lower-cased names to trimmed values, where a
//! later line with the same name replaces an earlier one.
use vstd::prelude::*;
use crate::text::str_eq;

verus! {

/// The map that a list of `(name, value)` pairs stands for: later pairs win.
pub open spec fn pairs_map(s: Seq<(Seq<char>, Seq<char>)>) -> Map<Seq<char>, Seq<char>>
    decreases s.len(),
{
    if s.len() == 0 {
        Map::empty()
    } else {
        pairs_map(s.drop_last()).insert(s.last().0, s.last().1)
    }
}

/// Header names and values, kept in arrival order; the view is the map in
/// which the last value given for a name is the one that counts.
#[derive(Debug)]
pub struct Headers {
    entries: Vec<(String, String)>,
}

proof fn lemma_no_later_key(s: Seq<(Seq<char>, Seq<char>)>, i: int, k: Seq<char>)
    requires
        0 <= i <= s.len(),
        forall|j: int| i <= j < s.len() ==> (#[trigger] s[j]).0 != k,
    ensures
        pairs_map(s).contains_key(k) == pairs_map(s.take(i)).contains_key(k),
        pairs_map(s).contains_key(k) ==> pairs_map(s)[k] == pairs_map(s.take(i))[k],
    decreases s.len(),
{
    if s.len() > i {
        lemma_no_later_key(s.drop_last(), i, k);
        assert(s.drop_last().take(i) =~= s.take(i));
    } else {
        assert(s.take(i) =~= s);
    }
}

impl Headers {
    /// The stored pairs, as character sequences.
    pub closed spec fn pairs(&self) -> Seq<(Seq<char>, Seq<char>)> {
        self.entries@.map_values(|p: (String, String)| (p.0@, p.1@))
    }

    /// The header map: the last value given for each name.
    pub closed spec fn view(&self) -> Map<Seq<char>, Seq<char>> {
        pairs_map(self.pairs())
    }

    /// An empty header map.
    pub fn new() -> (r: Headers)
        ensures
            r@ == Map::<Seq<char>, Seq<char>>::empty(),
    {
        let r = Headers { entries: Vec::new() };
        assert(r.pairs() =~= Seq::<(Seq<char>, Seq<char>)>::empty());
        r
    }

    /// Sets `name` to `value`, replacing any value it had.
    pub fn insert(&mut self, name: String, value: String)
        ensures
            final(self)@ == old(self)@.insert(name@, value@),
    {
        let ghost before = self.pairs();
        self.entries.push((name, value));
        assert(self.pairs().drop_last() =~= before);
    }

    /// The value given for `name`, if any.
    pub fn get(&self, name: &str) -> (r: Option<&String>)
        ensures
            match r {
                Some(v) => self@.contains_key(name@) && self@[name@] == v@,
                None => !self@.contains_key(name@),
            },
    {
        let ghost s = self.pairs();
        let mut i: usize = self.entries.len();
        while i > 0
            invariant
                s == self.pairs(),
                0 <= i <= s.len(),
                s.len() == self.entries@.len(),
                forall|j: int| i <= j < s.len() ==> (#[trigger] s[j]).0 != name@,
            decreases i,
        {
            let entry = &self.entries[i - 1];
            if str_eq(entry.0.as_str(), name) {
                proof {
                    lemma_no_later_key(s, i as int, name@);
                    assert(s.take(i as int).drop_last() =~= s.take(i - 1));
                    assert(s[i - 1] == (entry.0@, entry.1@));
                }
                return Some(&entry.1);
            }
            i = i - 1;
        }
        proof {
            lemma_no_later_key(s, 0, name@);
            assert(s.take(0) =~= Seq::<(Seq<char>, Seq<char>)>::empty());
        }
        None
    }
}

} // verus!
