//! The set of tags on one file.
use vstd::prelude::*;
use vstd::string::*;

verus! {

broadcast use {vstd::seq_lib::group_seq_properties, vstd::set::group_set_axioms};

/// A set of tags: distinct strings in no particular order.
pub struct TagSet {
    items: Vec<String>,
}

impl View for TagSet {
    type V = Set<Seq<char>>;

    open spec fn view(&self) -> Set<Seq<char>> {
        self.tag_seq().to_set()
    }
}

impl TagSet {
    /// The tags in the order in which they are held.
    pub closed spec fn tag_seq(&self) -> Seq<Seq<char>> {
        self.items@.map_values(|s: String| s@)
    }

    /// No tag is held twice.
    pub open spec fn wf(&self) -> bool {
        self.tag_seq().no_duplicates()
    }

    /// The empty set.
    pub fn new() -> (r: TagSet)
        ensures
            r.wf(),
            r@ == Set::<Seq<char>>::empty(),
    {
        let r = TagSet { items: Vec::new() };
        assert(r@ =~= Set::<Seq<char>>::empty());
        r
    }

    /// The tags, each once, in the order in which they are held.
    pub fn items(&self) -> (r: &Vec<String>)
        ensures
            r@.map_values(|s: String| s@) == self.tag_seq(),
    {
        &self.items
    }

    /// The number of tags.
    pub fn len(&self) -> (r: usize)
        requires
            self.wf(),
        ensures
            r == self@.len(),
    {
        proof {
            self.tag_seq().unique_seq_to_set();
        }
        self.items.len()
    }

    /// Whether the set is empty.
    pub fn is_empty(&self) -> (r: bool)
        ensures
            r == (self@ == Set::<Seq<char>>::empty()),
    {
        if self.items.len() == 0 {
            assert(self@ =~= Set::<Seq<char>>::empty());
            true
        } else {
            assert(self@.contains(self.tag_seq()[0]));
            false
        }
    }

    /// Where the tag `t` is held, if it is.
    fn position(&self, t: &String) -> (r: Option<usize>)
        ensures
            r is Some ==> r->0 < self.items@.len() && self.tag_seq()[r->0 as int] == t@,
            r is None ==> !self@.contains(t@),
    {
        let mut i: usize = 0;
        while i < self.items.len()
            invariant
                i <= self.items@.len(),
                forall|j: int| 0 <= j < i ==> self.tag_seq()[j] != t@,
            decreases self.items@.len() - i,
        {
            if self.items[i] == *t {
                return Some(i);
            }
            i = i + 1;
        }
        None
    }

    /// Whether `t` is in the set.
    pub fn contains(&self, t: &str) -> (r: bool)
        ensures
            r == self@.contains(t@),
    {
        let s = String::from_str(t);
        self.position(&s).is_some()
    }

    /// Adds `t`; true where it was not there before.
    pub fn insert(&mut self, t: String) -> (r: bool)
        requires
            old(self).wf(),
        ensures
            final(self).wf(),
            final(self)@ == old(self)@.insert(t@),
            r == !old(self)@.contains(t@),
    {
        match self.position(&t) {
            Some(_) => {
                assert(self@ =~= old(self)@.insert(t@));
                false
            },
            None => {
                let ghost tv = t@;
                self.items.push(t);
                assert(self.tag_seq() =~= old(self).tag_seq().push(tv));
                assert(self@ =~= old(self)@.insert(tv));
                true
            },
        }
    }

    /// Takes `t` out; true where it was there.
    pub fn remove(&mut self, t: &str) -> (r: bool)
        requires
            old(self).wf(),
        ensures
            final(self).wf(),
            final(self)@ == old(self)@.remove(t@),
            r == old(self)@.contains(t@),
    {
        let s = String::from_str(t);
        match self.position(&s) {
            Some(i) => {
                let ghost before = self.tag_seq();
                self.items.remove(i);
                assert(self.tag_seq() =~= before.remove(i as int));
                assert forall|x: Seq<char>| self@.contains(x) <==> old(self)@.remove(t@).contains(x) by {
                    if self@.contains(x) {
                        let k = choose|k: int| 0 <= k < self.tag_seq().len() && self.tag_seq()[k] == x;
                        if k < i {
                            assert(before[k] == x);
                        } else {
                            assert(before[k + 1] == x);
                        }
                    }
                    if old(self)@.remove(t@).contains(x) {
                        let k = choose|k: int| 0 <= k < before.len() && before[k] == x;
                        if k < i {
                            assert(self.tag_seq()[k] == x);
                        } else {
                            assert(self.tag_seq()[k - 1] == x);
                        }
                    }
                }
                assert(self@ =~= old(self)@.remove(t@));
                true
            },
            None => {
                assert(self@ =~= old(self)@.remove(t@));
                false
            },
        }
    }

    /// The set of the strings in `v`, each kept once.
    pub fn from_vec(v: Vec<String>) -> (r: TagSet)
        ensures
            r.wf(),
            r@ == v@.map_values(|s: String| s@).to_set(),
    {
        let ghost vs = v@.map_values(|s: String| s@);
        let mut r = TagSet::new();
        let mut i: usize = 0;
        let n = v.len();
        proof {
            assert(vs.take(0).to_set() =~= Set::<Seq<char>>::empty());
        }
        while i < n
            invariant
                n == vs.len(),
                vs == v@.map_values(|s: String| s@),
                i <= n,
                r.wf(),
                r@ == vs.take(i as int).to_set(),
            decreases n - i,
        {
            let s = v[i].clone();
            r.insert(s);
            proof {
                assert(vs.take(i as int + 1) =~= vs.take(i as int).push(vs[i as int]));
                vs.take(i as int).lemma_push_to_set_commute(vs[i as int]);
            }
            i = i + 1;
        }
        assert(vs.take(n as int) =~= vs);
        r
    }

    /// The number of tags in both `self` and `other`.
    pub fn common_count(&self, other: &TagSet) -> (r: usize)
        requires
            self.wf(),
        ensures
            r == self@.intersect(other@).len(),
    {
        let ghost sq = self.tag_seq();
        let ghost mut acc: Seq<Seq<char>> = Seq::empty();
        let mut count: usize = 0;
        let mut i: usize = 0;
        proof {
            assert(sq.take(0).to_set().intersect(other@) =~= acc.to_set());
        }
        while i < self.items.len()
            invariant
                sq == self.tag_seq(),
                sq.no_duplicates(),
                i <= sq.len(),
                count == acc.len(),
                count <= i,
                acc.no_duplicates(),
                acc.to_set() == sq.take(i as int).to_set().intersect(other@),
            decreases sq.len() - i,
        {
            let ghost x = sq[i as int];
            proof {
                assert(sq.take(i as int + 1) =~= sq.take(i as int).push(x));
                sq.take(i as int).lemma_push_to_set_commute(x);
                assert(!sq.take(i as int).contains(x));
            }
            if other.contains(self.items[i].as_str()) {
                proof {
                    assert(!acc.contains(x)) by {
                        if acc.contains(x) {
                            assert(acc.to_set().contains(x));
                        }
                    }
                    acc.lemma_push_to_set_commute(x);
                    acc = acc.push(x);
                    assert(acc.to_set() =~= sq.take(i as int + 1).to_set().intersect(other@));
                }
                count = count + 1;
            } else {
                proof {
                    assert(acc.to_set() =~= sq.take(i as int + 1).to_set().intersect(other@));
                }
            }
            i = i + 1;
        }
        proof {
            assert(sq.take(sq.len() as int) =~= sq);
            acc.unique_seq_to_set();
        }
        count
    }
}

} // verus!
