//! Per-course partitions: each course keeps its own chat stream, history and
//! session while another course is current; switching courses puts the
//! current partition away and takes out the other one (a fresh one the
//! first time).
use vstd::prelude::*;
use crate::text::str_eq;

verus! {

/// The partitions put away, by course name (each name once).
pub struct Partitions<P> {
    saved: Vec<(String, P)>,
}

/// The saved partitions as a map from course name.
pub open spec fn saved_map<P>(v: Seq<(String, P)>) -> Map<Seq<char>, P>
    decreases v.len(),
{
    if v.len() == 0 {
        Map::empty()
    } else {
        saved_map(v.drop_last()).insert(v.last().0@, v.last().1)
    }
}

/// Each course name occurs once.
pub open spec fn distinct_names<P>(v: Seq<(String, P)>) -> bool {
    forall|i: int, j: int| 0 <= i < j < v.len() ==> (#[trigger] v[i]).0@ != (#[trigger] v[j]).0@
}

impl<P> View for Partitions<P> {
    type V = Map<Seq<char>, P>;

    closed spec fn view(&self) -> Map<Seq<char>, P> {
        saved_map(self.saved@)
    }
}

/// The map after putting `cur` away under `old` and taking out `new`, and
/// the partition taken out (`fresh` when `new` had none).
pub open spec fn swap_spec<P>(m: Map<Seq<char>, P>, old: Seq<char>, cur: P, new: Seq<char>, fresh: P) -> (
    Map<Seq<char>, P>,
    P,
) {
    let m1 = m.insert(old, cur);
    (m1.remove(new), if m1.contains_key(new) {
        m1[new]
    } else {
        fresh
    })
}

proof fn lemma_saved_map<P>(v: Seq<(String, P)>)
    requires
        distinct_names(v),
    ensures
        forall|x: Seq<char>| saved_map(v).contains_key(x) <==> exists|i: int| 0 <= i < v.len() && (#[trigger] v[i]).0@ == x,
        forall|i: int| 0 <= i < v.len() ==> saved_map(v)[(#[trigger] v[i]).0@] == v[i].1,
    decreases v.len(),
{
    if v.len() > 0 {
        let w = v.drop_last();
        assert(distinct_names(w)) by {
            assert forall|i: int, j: int| 0 <= i < j < w.len() implies (#[trigger] w[i]).0@ != (#[trigger] w[j]).0@ by {
                assert(w[i] == v[i] && w[j] == v[j]);
            }
        }
        lemma_saved_map(w);
        assert forall|x: Seq<char>| saved_map(v).contains_key(x) implies exists|i: int| 0 <= i < v.len() && (#[trigger] v[i]).0@ == x by {
            if x != v.last().0@ {
                assert(saved_map(v) == saved_map(w).insert(v.last().0@, v.last().1));
                assert(saved_map(w).contains_key(x));
                assert(exists|i: int| 0 <= i < w.len() && (#[trigger] w[i]).0@ == x);
                let i = choose|i: int| 0 <= i < w.len() && (#[trigger] w[i]).0@ == x;
                assert(v[i] == w[i]);
            } else {
                assert(v[v.len() - 1].0@ == x);
            }
        }
        assert forall|x: Seq<char>| (exists|i: int| 0 <= i < v.len() && (#[trigger] v[i]).0@ == x) implies saved_map(v).contains_key(x) by {
            let i = choose|i: int| 0 <= i < v.len() && (#[trigger] v[i]).0@ == x;
            if i < v.len() - 1 {
                assert(w[i] == v[i]);
            }
        }
        assert forall|i: int| 0 <= i < v.len() implies saved_map(v)[(#[trigger] v[i]).0@] == v[i].1 by {
            if i < v.len() - 1 {
                assert(w[i] == v[i]);
                assert(v[i].0@ != v[v.len() - 1].0@);
            }
        }
    }
}

impl<P> Partitions<P> {
    #[verifier::type_invariant]
    spec fn well_formed(self) -> bool {
        distinct_names(self.saved@)
    }

    pub fn new() -> (r: Partitions<P>)
        ensures
            r@ == Map::<Seq<char>, P>::empty(),
    {
        Partitions { saved: Vec::new() }
    }

    /// Switching from course `from` to course `to`: `current` is put away
    /// under `from`, and `to`'s partition is taken out and returned (`fresh`
    /// when it has none yet).
    pub fn swap(&mut self, from: String, current: P, to: &str, fresh: P) -> (r: P)
        ensures
            (final(self)@, r) == swap_spec(old(self)@, from@, current, to@, fresh),
    {
        proof {
            use_type_invariant(&*self);
            lemma_saved_map(self.saved@);
        }
        let ghost m0 = self@;
        let ghost m1 = m0.insert(from@, current);
        let mut saved = Vec::new();
        std::mem::swap(&mut saved, &mut self.saved);
        let ghost v0 = saved@;
        // Put `current` away under `from`.
        let mut i: usize = 0;
        let mut at: Option<usize> = None;
        while i < saved.len()
            invariant
                i <= saved@.len(),
                saved@ == v0,
                at is None ==> forall|k: int| 0 <= k < i ==> (#[trigger] saved@[k]).0@ != from@,
                at matches Some(a) ==> a < saved@.len() && saved@[a as int].0@ == from@,
            decreases saved@.len() - i,
        {
            if at.is_none() && str_eq(saved[i].0.as_str(), from.as_str()) {
                at = Some(i);
            }
            i = i + 1;
        }
        let ghost name_old = from@;
        match at {
            Some(a) => {
                saved.set(a, (from, current));
                proof {
                    let v1 = saved@;
                    assert(distinct_names(v1)) by {
                        assert forall|x: int, y: int| 0 <= x < y < v1.len() implies (#[trigger] v1[x]).0@ != (#[trigger] v1[y]).0@ by {
                            if x != a && y != a {
                                assert(v1[x] == v0[x] && v1[y] == v0[y]);
                            } else if x == a {
                                assert(v0[x].0@ == name_old);
                                assert(v1[y] == v0[y]);
                            } else {
                                assert(v0[y].0@ == name_old);
                                assert(v1[x] == v0[x]);
                            }
                        }
                    }
                    lemma_saved_map(v1);
                    assert(saved_map(v1) =~= m1) by {
                        assert forall|x: Seq<char>| saved_map(v1).contains_key(x) <==> m1.contains_key(x) by {
                            if saved_map(v1).contains_key(x) {
                                let k = choose|k: int| 0 <= k < v1.len() && (#[trigger] v1[k]).0@ == x;
                                if k != a {
                                    assert(v0[k] == v1[k]);
                                }
                            }
                            if m1.contains_key(x) && x != name_old {
                                let k = choose|k: int| 0 <= k < v0.len() && (#[trigger] v0[k]).0@ == x;
                                assert(k != a);
                                assert(v1[k] == v0[k]);
                            }
                            if x == name_old {
                                assert(v1[a as int].0@ == x);
                            }
                        }
                        assert forall|x: Seq<char>| saved_map(v1).contains_key(x) implies saved_map(v1)[x] == m1[x] by {
                            let k = choose|k: int| 0 <= k < v1.len() && (#[trigger] v1[k]).0@ == x;
                            if k != a {
                                assert(v0[k] == v1[k]);
                                assert(saved_map(v0)[v0[k].0@] == v0[k].1);
                            }
                        }
                    }
                }
            },
            None => {
                saved.push((from, current));
                proof {
                    let v1 = saved@;
                    assert(distinct_names(v1)) by {
                        assert forall|x: int, y: int| 0 <= x < y < v1.len() implies (#[trigger] v1[x]).0@ != (#[trigger] v1[y]).0@ by {
                            assert(v1[x] == v0[x]);
                            if y < v0.len() {
                                assert(v1[y] == v0[y]);
                            }
                        }
                    }
                    assert(v1.drop_last() =~= v0);
                }
            },
        }
        // Take out `to`.
        let ghost v1 = saved@;
        proof {
            lemma_saved_map(v1);
            assert(saved_map(v1) == m1);
        }
        let mut j: usize = 0;
        let mut found: Option<usize> = None;
        while j < saved.len()
            invariant
                j <= saved@.len(),
                saved@ == v1,
                found is None ==> forall|k: int| 0 <= k < j ==> (#[trigger] saved@[k]).0@ != to@,
                found matches Some(f) ==> f < saved@.len() && saved@[f as int].0@ == to@,
            decreases saved@.len() - j,
        {
            if found.is_none() && str_eq(saved[j].0.as_str(), to) {
                found = Some(j);
            }
            j = j + 1;
        }
        let r = match found {
            Some(f) => {
                let (_name, p) = saved.remove(f);
                proof {
                    let v2 = saved@;
                    assert(distinct_names(v2)) by {
                        assert forall|x: int, y: int| 0 <= x < y < v2.len() implies (#[trigger] v2[x]).0@ != (#[trigger] v2[y]).0@ by {
                            let x1 = if x < f { x } else { x + 1 };
                            let y1 = if y < f { y } else { y + 1 };
                            assert(v2[x] == v1[x1] && v2[y] == v1[y1]);
                        }
                    }
                    lemma_saved_map(v2);
                    assert(saved_map(v2) =~= m1.remove(to@)) by {
                        assert forall|x: Seq<char>| saved_map(v2).contains_key(x) <==> m1.remove(to@).contains_key(x) by {
                            if saved_map(v2).contains_key(x) {
                                let k = choose|k: int| 0 <= k < v2.len() && (#[trigger] v2[k]).0@ == x;
                                let k1 = if k < f { k } else { k + 1 };
                                assert(v2[k] == v1[k1]);
                                assert(k1 != f);
                            }
                            if m1.remove(to@).contains_key(x) {
                                let k = choose|k: int| 0 <= k < v1.len() && (#[trigger] v1[k]).0@ == x;
                                assert(k != f);
                                let k2 = if k < f { k } else { k - 1 };
                                assert(v2[k2] == v1[k]);
                            }
                        }
                        assert forall|x: Seq<char>| saved_map(v2).contains_key(x) implies saved_map(v2)[x] == m1.remove(to@)[x] by {
                            let k = choose|k: int| 0 <= k < v2.len() && (#[trigger] v2[k]).0@ == x;
                            let k1 = if k < f { k } else { k + 1 };
                            assert(v2[k] == v1[k1]);
                            assert(saved_map(v1)[v1[k1].0@] == v1[k1].1);
                        }
                    }
                    assert(m1[to@] == v1[f as int].1);
                }
                p
            },
            None => {
                proof {
                    assert(!m1.contains_key(to@));
                    assert(m1.remove(to@) =~= m1);
                }
                fresh
            },
        };
        self.saved = saved;
        r
    }
}

/// Switching to another course and back gives the partition of the first
/// course back unchanged, and leaves the other courses' partitions as they
/// were (the second course's being the one that was taken out).
pub proof fn law_switch_back_restores<P>(m: Map<Seq<char>, P>, a: Seq<char>, pa: P, b: Seq<char>, f1: P, f2: P)
    requires
        a != b,
    ensures
        ({
            let (m1, pb) = swap_spec(m, a, pa, b, f1);
            let (m2, back) = swap_spec(m1, b, pb, a, f2);
            &&& back == pa
            &&& m2 == m.remove(a).insert(b, pb)
            &&& (m.contains_key(b) ==> pb == m[b])
        }),
{
    let (m1, pb) = swap_spec(m, a, pa, b, f1);
    let (m2, back) = swap_spec(m1, b, pb, a, f2);
    assert(m1.insert(b, pb).contains_key(a));
    assert(m2 =~= m.remove(a).insert(b, pb));
}

} // verus!
