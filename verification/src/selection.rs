//! The nodes selected on the dashboard, and how the selection keys change them.
use vstd::prelude::*;

use crate::input::no_repeats;
use crate::nix::NodeName;
use crate::tree::names;

verus! {

/// A set of selected nodes, each held once.
#[derive(Debug)]
pub struct Selection {
    nodes: Vec<NodeName>,
}

/// The selection after toggling a group whose nodes are `l`: all of them
/// dropped where all were selected, else all of them added.
pub open spec fn group_toggled(s: Set<Seq<char>>, l: Set<Seq<char>>) -> Set<Seq<char>> {
    if l.subset_of(s) {
        s.difference(l)
    } else {
        s.union(l)
    }
}

impl View for Selection {
    type V = Set<Seq<char>>;

    closed spec fn view(&self) -> Set<Seq<char>> {
        names(self.nodes@).to_set()
    }
}

impl Selection {
    /// Each node is held once.
    pub closed spec fn wf(&self) -> bool {
        no_repeats(names(self.nodes@))
    }

    /// The empty selection.
    pub fn new() -> (r: Selection)
        ensures
            r.wf(),
            r@ == Set::<Seq<char>>::empty(),
    {
        let r = Selection { nodes: Vec::new() };
        assert(names(r.nodes@).to_set() =~= Set::<Seq<char>>::empty());
        r
    }

    /// The position of `n`, where it is selected.
    fn find(&self, n: &NodeName) -> (r: Option<usize>)
        ensures
            match r {
                Some(i) => i < self.nodes@.len() && self.nodes@[i as int]@ == n@,
                None => !self@.contains(n@),
            },
    {
        let mut i: usize = 0;
        while i < self.nodes.len()
            invariant
                i <= self.nodes@.len(),
                forall|k: int| 0 <= k < i ==> self.nodes@[k]@ != n@,
            decreases self.nodes@.len() - i,
        {
            if self.nodes[i].same(n) {
                return Some(i);
            }
            i = i + 1;
        }
        assert(!names(self.nodes@).contains(n@)) by {
            if names(self.nodes@).contains(n@) {
                let k = choose|k: int| 0 <= k < names(self.nodes@).len() && names(self.nodes@)[k] == n@;
                assert(self.nodes@[k]@ == n@);
            }
        }
        None
    }

    /// Whether `n` is selected.
    pub fn contains(&self, n: &NodeName) -> (r: bool)
        ensures
            r == self@.contains(n@),
    {
        match self.find(n) {
            Some(i) => {
                assert(names(self.nodes@)[i as int] == n@);
                true
            },
            None => false,
        }
    }

    /// The number of selected nodes.
    pub fn len(&self) -> (r: usize)
        requires
            self.wf(),
        ensures
            r == self@.len(),
    {
        proof {
            lemma_unique_len(names(self.nodes@));
        }
        self.nodes.len()
    }

    /// Selects `n`.
    pub fn insert(&mut self, n: NodeName)
        requires
            old(self).wf(),
        ensures
            final(self).wf(),
            final(self)@ == old(self)@.insert(n@),
    {
        if self.contains(&n) {
            assert(self@.insert(n@) =~= self@);
            return;
        }
        let ghost before = names(self.nodes@);
        let ghost nv = n@;
        self.nodes.push(n);
        assert(names(self.nodes@) =~= before.push(nv));
        assert(names(self.nodes@).to_set() =~= before.to_set().insert(nv)) by {
            assert forall|x: Seq<char>| names(self.nodes@).contains(x) <==> (before.contains(x) || x == nv) by {
                if before.contains(x) {
                    let k = choose|k: int| 0 <= k < before.len() && before[k] == x;
                    assert(names(self.nodes@)[k] == x);
                }
                if x == nv {
                    assert(names(self.nodes@)[before.len() as int] == x);
                }
                if names(self.nodes@).contains(x) {
                    let k = choose|k: int| 0 <= k < names(self.nodes@).len() && names(self.nodes@)[k] == x;
                    if k < before.len() {
                        assert(before[k] == x);
                    }
                }
            }
        }
    }

    /// Deselects `n`.
    pub fn remove(&mut self, n: &NodeName)
        requires
            old(self).wf(),
        ensures
            final(self).wf(),
            final(self)@ == old(self)@.remove(n@),
    {
        match self.find(n) {
            None => {
                assert(self@.remove(n@) =~= self@);
            },
            Some(i) => {
                let ghost before = names(self.nodes@);
                assert(before[i as int] == n@);
                self.nodes.remove(i);
                assert(names(self.nodes@) =~= before.remove(i as int));
                assert(names(self.nodes@).to_set() =~= before.to_set().remove(n@)) by {
                    let after = names(self.nodes@);
                    assert forall|x: Seq<char>| after.contains(x) <==> (before.contains(x) && x != n@) by {
                        if after.contains(x) {
                            let k = choose|k: int| 0 <= k < after.len() && after[k] == x;
                            if k < i {
                                assert(before[k] == x);
                                assert(before[k] != before[i as int]);
                            } else {
                                assert(before[k + 1] == x);
                                assert(before[i as int] != before[k + 1]);
                            }
                        }
                        if before.contains(x) && x != n@ {
                            let k = choose|k: int| 0 <= k < before.len() && before[k] == x;
                            if k < i {
                                assert(after[k] == x);
                            } else {
                                assert(k != i);
                                assert(after[k - 1] == x);
                            }
                        }
                    }
                }
            },
        }
    }

    /// Deselects every node.
    pub fn clear(&mut self)
        ensures
            final(self).wf(),
            final(self)@ == Set::<Seq<char>>::empty(),
    {
        self.nodes = Vec::new();
        assert(names(self.nodes@).to_set() =~= Set::<Seq<char>>::empty());
    }

    /// Selects `n` where it was not selected, and deselects it where it was.
    pub fn toggle_node(&mut self, n: NodeName)
        requires
            old(self).wf(),
        ensures
            final(self).wf(),
            final(self)@ == (if old(self)@.contains(n@) { old(self)@.remove(n@) } else { old(self)@.insert(n@) }),
    {
        if self.contains(&n) {
            self.remove(&n);
        } else {
            self.insert(n);
        }
    }

    /// Toggles a group whose nodes are `leaves` (see [`group_toggled`]).
    pub fn toggle_group(&mut self, leaves: &Vec<NodeName>)
        requires
            old(self).wf(),
        ensures
            final(self).wf(),
            final(self)@ == group_toggled(old(self)@, names(leaves@).to_set()),
    {
        let ghost l = names(leaves@).to_set();
        let ghost s0 = self@;
        let mut all = true;
        let mut i: usize = 0;
        while i < leaves.len()
            invariant
                i <= leaves@.len(),
                self@ == s0,
                all == (forall|k: int| 0 <= k < i ==> s0.contains(#[trigger] leaves@[k]@)),
            decreases leaves@.len() - i,
        {
            if !self.contains(&leaves[i]) {
                all = false;
            }
            i = i + 1;
        }
        assert(all == l.subset_of(s0)) by {
            if all {
                assert forall|x: Seq<char>| l.contains(x) implies s0.contains(x) by {
                    let k = choose|k: int| 0 <= k < names(leaves@).len() && names(leaves@)[k] == x;
                    assert(s0.contains(leaves@[k]@));
                }
            } else {
                let k = choose|k: int| 0 <= k < leaves@.len() && !s0.contains(#[trigger] leaves@[k]@);
                assert(names(leaves@)[k] == leaves@[k]@);
                assert(l.contains(leaves@[k]@));
            }
        }
        let mut j: usize = 0;
        while j < leaves.len()
            invariant
                j <= leaves@.len(),
                self.wf(),
                self@ == (if all {
                    s0.difference(names(leaves@.subrange(0, j as int)).to_set())
                } else {
                    s0.union(names(leaves@.subrange(0, j as int)).to_set())
                }),
            decreases leaves@.len() - j,
        {
            let ghost pre = names(leaves@.subrange(0, j as int)).to_set();
            let ghost post = names(leaves@.subrange(0, j + 1)).to_set();
            assert(post =~= pre.insert(leaves@[j as int]@)) by {
                assert(names(leaves@.subrange(0, j + 1)) =~= names(leaves@.subrange(0, j as int)).push(leaves@[j as int]@));
                lemma_push_to_set(names(leaves@.subrange(0, j as int)), leaves@[j as int]@);
            }
            if all {
                self.remove(&leaves[j]);
                assert(self@ =~= s0.difference(post));
            } else {
                self.insert(leaves[j].clone());
                assert(self@ =~= s0.union(post));
            }
            j = j + 1;
        }
        assert(leaves@.subrange(0, leaves@.len() as int) =~= leaves@);
    }

    /// Selects every node of `all`.
    pub fn select_all(&mut self, all: &Vec<NodeName>)
        requires
            old(self).wf(),
        ensures
            final(self).wf(),
            final(self)@ == old(self)@.union(names(all@).to_set()),
    {
        let ghost s0 = self@;
        let mut j: usize = 0;
        while j < all.len()
            invariant
                j <= all@.len(),
                self.wf(),
                self@ == s0.union(names(all@.subrange(0, j as int)).to_set()),
            decreases all@.len() - j,
        {
            let ghost pre = names(all@.subrange(0, j as int)).to_set();
            let ghost post = names(all@.subrange(0, j + 1)).to_set();
            assert(post =~= pre.insert(all@[j as int]@)) by {
                assert(names(all@.subrange(0, j + 1)) =~= names(all@.subrange(0, j as int)).push(all@[j as int]@));
                lemma_push_to_set(names(all@.subrange(0, j as int)), all@[j as int]@);
            }
            self.insert(all[j].clone());
            assert(self@ =~= s0.union(post));
            j = j + 1;
        }
        assert(all@.subrange(0, all@.len() as int) =~= all@);
    }

    /// The selected nodes, each once.
    pub fn to_vec(&self) -> (r: Vec<NodeName>)
        requires
            self.wf(),
        ensures
            names(r@).to_set() == self@,
            no_repeats(names(r@)),
    {
        let mut r: Vec<NodeName> = Vec::new();
        let mut i: usize = 0;
        while i < self.nodes.len()
            invariant
                i <= self.nodes@.len(),
                names(r@) == names(self.nodes@.subrange(0, i as int)),
            decreases self.nodes@.len() - i,
        {
            let ghost before = names(r@);
            let c = self.nodes[i].clone();
            r.push(c);
            assert(names(r@) =~= before.push(self.nodes@[i as int]@));
            assert(names(self.nodes@.subrange(0, i + 1)) =~= names(self.nodes@.subrange(0, i as int)).push(self.nodes@[i as int]@));
            i = i + 1;
        }
        assert(self.nodes@.subrange(0, self.nodes@.len() as int) =~= self.nodes@);
        assert(names(r@) == names(self.nodes@));
        r
    }
}

/// The set of a sequence with one more element is the set with that element.
proof fn lemma_push_to_set(s: Seq<Seq<char>>, x: Seq<char>)
    ensures
        s.push(x).to_set() == s.to_set().insert(x),
{
    assert forall|y: Seq<char>| #[trigger] s.push(x).to_set().contains(y) <==> s.to_set().insert(x).contains(y) by {
        if s.contains(y) {
            let k = choose|k: int| 0 <= k < s.len() && s[k] == y;
            assert(s.push(x)[k] == y);
        }
        if y == x {
            assert(s.push(x)[s.len() as int] == y);
        }
        if s.push(x).contains(y) {
            let k = choose|k: int| 0 <= k < s.push(x).len() && s.push(x)[k] == y;
            if k < s.len() {
                assert(s[k] == y);
            }
        }
    }
    assert(s.push(x).to_set() =~= s.to_set().insert(x));
}

/// A sequence without repeats has as many elements as its set.
proof fn lemma_unique_len(s: Seq<Seq<char>>)
    requires
        no_repeats(s),
    ensures
        s.to_set().len() == s.len(),
{
    assert forall|i: int, j: int| 0 <= i < s.len() && 0 <= j < s.len() && i != j implies s[i] != s[j] by {
        if i < j {
        } else {
        }
    }
    assert(s.no_duplicates());
    s.unique_seq_to_set();
}

/// Toggling a node twice gives back the selection.
pub proof fn lemma_toggle_node_twice(s: Set<Seq<char>>, n: Seq<char>)
    ensures
        ({
            let t = if s.contains(n) { s.remove(n) } else { s.insert(n) };
            (if t.contains(n) { t.remove(n) } else { t.insert(n) }) == s
        }),
{
    let t = if s.contains(n) { s.remove(n) } else { s.insert(n) };
    assert((if t.contains(n) { t.remove(n) } else { t.insert(n) }) =~= s);
}

/// After a group is toggled, either all of its nodes are selected or none is.
pub proof fn lemma_group_toggle_all_or_none(s: Set<Seq<char>>, l: Set<Seq<char>>)
    ensures
        l.subset_of(group_toggled(s, l)) || l.disjoint(group_toggled(s, l)),
{
    if l.subset_of(s) {
        assert(l.disjoint(s.difference(l)));
    } else {
        assert(l.subset_of(s.union(l)));
    }
}

/// Toggling a group twice gives back a selection that held all of the
/// group's nodes or none of them.
pub proof fn lemma_group_toggle_twice(s: Set<Seq<char>>, l: Set<Seq<char>>)
    requires
        l.subset_of(s) || l.disjoint(s),
    ensures
        group_toggled(group_toggled(s, l), l) == s,
{
    if l.subset_of(s) {
        let t = s.difference(l);
        if l.subset_of(t) {
            assert(l =~= Set::<Seq<char>>::empty()) by {
                assert forall|x: Seq<char>| !l.contains(x) by {
                    if l.contains(x) {
                        assert(t.contains(x));
                    }
                }
            }
            assert(t.difference(l) =~= s);
        } else {
            assert(t.union(l) =~= s);
        }
    } else {
        let t = s.union(l);
        assert(l.subset_of(t));
        assert(t.difference(l) =~= s);
    }
}

} // verus!
