use vstd::prelude::*;

verus! {

/// HTTP headers by name: a map from header name to value in which a later
/// `insert` of a name replaces the earlier value.
#[derive(Debug, Clone)]
pub struct Headers {
    entries: Vec<(String, String)>,
}

/// The map that a list of (name, value) pairs denotes: later pairs win.
pub open spec fn pairs_to_map(entries: Seq<(Seq<char>, Seq<char>)>) -> Map<Seq<char>, Seq<char>>
    decreases entries.len(),
{
    if entries.len() == 0 {
        Map::empty()
    } else {
        pairs_to_map(entries.drop_last()).insert(entries.last().0, entries.last().1)
    }
}

/// The pairs as character sequences.
pub open spec fn pairs_view(entries: Seq<(String, String)>) -> Seq<(Seq<char>, Seq<char>)> {
    entries.map_values(|e: (String, String)| (e.0@, e.1@))
}

/// Pairs after position `i` whose name is not `k` do not change what `k` maps to.
pub proof fn lemma_later_pairs_irrelevant(s: Seq<(Seq<char>, Seq<char>)>, i: int, k: Seq<char>)
    requires
        0 <= i <= s.len(),
        forall|j: int| i <= j < s.len() ==> #[trigger] s[j].0 != k,
    ensures
        pairs_to_map(s).contains_key(k) == pairs_to_map(s.take(i)).contains_key(k),
        pairs_to_map(s).contains_key(k) ==> pairs_to_map(s)[k] == pairs_to_map(s.take(i))[k],
    decreases s.len() - i,
{
    if i < s.len() {
        lemma_later_pairs_irrelevant(s.drop_last(), i, k);
        assert(s.drop_last().take(i) =~= s.take(i));
        assert(s[s.len() - 1].0 != k);
    } else {
        assert(s.take(i) =~= s);
    }
}

impl View for Headers {
    type V = Map<Seq<char>, Seq<char>>;

    closed spec fn view(&self) -> Map<Seq<char>, Seq<char>> {
        pairs_to_map(pairs_view(self.entries@))
    }
}

impl Headers {
    /// No headers.
    pub fn new() -> (h: Headers)
        ensures
            h@ == Map::<Seq<char>, Seq<char>>::empty(),
    {
        let h = Headers { entries: Vec::new() };
        assert(pairs_view(h.entries@) =~= Seq::empty());
        h
    }

    /// Sets `name` to `value`, replacing an earlier value.
    pub fn insert(&mut self, name: String, value: String)
        ensures
            final(self)@ == old(self)@.insert(name@, value@),
    {
        let ghost old_entries = self.entries@;
        self.entries.push((name, value));
        assert(pairs_view(self.entries@).drop_last() =~= pairs_view(old_entries));
    }

    /// The value of `name`, if it is set.
    pub fn get(&self, name: &str) -> (r: Option<String>)
        ensures
            r is Some <==> self@.contains_key(name@),
            r is Some ==> r->0@ == self@[name@],
    {
        let ghost pv = pairs_view(self.entries@);
        let mut i: usize = self.entries.len();
        while i > 0
            invariant
                i <= self.entries.len(),
                pv == pairs_view(self.entries@),
                forall|j: int| i <= j < self.entries.len() ==> #[trigger] pv[j].0 != name@,
            decreases i,
        {
            if crate::text::str_eq(self.entries[i - 1].0.as_str(), name) {
                proof {
                    lemma_later_pairs_irrelevant(pv, i as int, name@);
                    assert(pv.take(i as int).drop_last() =~= pv.take(i - 1));
                }
                return Some(self.entries[i - 1].1.clone());
            }
            i = i - 1;
        }
        proof {
            lemma_later_pairs_irrelevant(pv, 0, name@);
            assert(pv.take(0) =~= Seq::<(Seq<char>, Seq<char>)>::empty());
        }
        None
    }

    /// A copy of these headers.
    pub fn duplicate(&self) -> (r: Headers)
        ensures
            r@ == self@,
    {
        Headers { entries: self.pairs() }
    }

    /// `name` is set.
    pub fn contains_key(&self, name: &str) -> (r: bool)
        ensures
            r == self@.contains_key(name@),
    {
        self.get(name).is_some()
    }

    /// The (name, value) pairs in the order they were inserted, repeats included.
    pub fn pairs(&self) -> (r: Vec<(String, String)>)
        ensures
            pairs_to_map(pairs_view(r@)) == self@,
    {
        let mut r: Vec<(String, String)> = Vec::new();
        let mut i: usize = 0;
        while i < self.entries.len()
            invariant
                i <= self.entries.len(),
                pairs_view(r@) == pairs_view(self.entries@.take(i as int)),
            decreases self.entries.len() - i,
        {
            let name = self.entries[i].0.clone();
            let value = self.entries[i].1.clone();
            let ghost old_r = r@;
            r.push((name, value));
            assert(pairs_view(r@) =~= pairs_view(old_r).push((self.entries@[i as int].0@, self.entries@[i as int].1@)));
            assert(self.entries@.take(i + 1) =~= self.entries@.take(i as int).push(self.entries@[i as int]));
            assert(pairs_view(self.entries@.take(i + 1)) =~= pairs_view(self.entries@.take(i as int)).push((self.entries@[i as int].0@, self.entries@[i as int].1@)));
            i = i + 1;
        }
        assert(self.entries@.take(i as int) =~= self.entries@);
        r
    }
}

} // verus!
