use vstd::prelude::*;

verus! {

/// The model of the mutable target: the set of tokens it currently carries.
///
/// The real target is externally owned; a run mutates it only through the two
/// idempotent primitives `ensure_present` and `ensure_absent`.
pub struct ClassSet {
    classes: Vec<String>,
}

impl View for ClassSet {
    type V = Set<Seq<char>>;

    closed spec fn view(&self) -> Set<Seq<char>> {
        self.classes.deep_view().to_set()
    }
}

impl ClassSet {
    /// Each carried token is stored exactly once.
    pub closed spec fn wf(&self) -> bool {
        self.classes.deep_view().no_duplicates()
    }

    /// A target that carries nothing.
    pub fn new() -> (r: ClassSet)
        ensures
            r@ == Set::<Seq<char>>::empty(),
            r.wf(),
    {
        let r = ClassSet { classes: Vec::new() };
        proof {
            assert(r.classes.deep_view() =~= Seq::<Seq<char>>::empty());
            assert(r@ =~= Set::<Seq<char>>::empty());
        }
        r
    }

    /// Does the target carry this token?
    pub fn carries(&self, token: &String) -> (r: bool)
        ensures
            r == self@.contains(token@),
    {
        let ghost views = self.classes.deep_view();
        let n = self.classes.len();
        let mut j: usize = 0;
        while j < n
            invariant
                n == self.classes.len(),
                j <= n,
                views == self.classes.deep_view(),
                forall|m: int| 0 <= m < j ==> views[m] != token@,
            decreases n - j,
        {
            assert(views[j as int] == self.classes@[j as int]@);
            if self.classes[j].eq(token) {
                assert(views.contains(token@));
                return true;
            }
            j += 1;
        }
        assert(!views.contains(token@));
        false
    }

    /// How many distinct tokens the target carries.
    pub fn count(&self) -> (r: usize)
        requires
            self.wf(),
        ensures
            r == self@.len(),
    {
        proof {
            self.classes.deep_view().unique_seq_to_set();
        }
        self.classes.len()
    }

    /// Idempotently ensure the target carries `token`.
    pub fn ensure_present(&mut self, token: &String)
        requires
            old(self).wf(),
        ensures
            final(self).wf(),
            final(self)@ == old(self)@.insert(token@),
    {
        let present = self.carries(token);
        if !present {
            let ghost before = self.classes.deep_view();
            self.classes.push(token.clone());
            proof {
                broadcast use vstd::seq_lib::lemma_seq_contains_after_push;

                assert(self.classes.deep_view() =~= before.push(token@));
                before.lemma_push_to_set_commute(token@);
                assert(forall|m: int| 0 <= m < before.len() ==> before[m] != token@);
                assert(self.classes.deep_view().no_duplicates());
                assert(self@ =~= old(self)@.insert(token@));
            }
        } else {
            proof {
                assert(self@ =~= old(self)@.insert(token@));
            }
        }
    }

    /// Idempotently ensure the target does not carry `token`.
    pub fn ensure_absent(&mut self, token: &String)
        requires
            old(self).wf(),
        ensures
            final(self).wf(),
            final(self)@ == old(self)@.remove(token@),
    {
        let ghost views = self.classes.deep_view();
        let n = self.classes.len();
        let mut j: usize = 0;
        while j < n
            invariant
                n == self.classes.len(),
                j <= n,
                *self == *old(self),
                views == self.classes.deep_view(),
                views.no_duplicates(),
                forall|m: int| 0 <= m < j ==> views[m] != token@,
            decreases n - j,
        {
            assert(views[j as int] == self.classes@[j as int]@);
            if self.classes[j].eq(token) {
                assert(views[j as int] == token@);
                self.classes.remove(j);
                proof {
                    let after = self.classes.deep_view();
                    views.remove_ensures(j as int);
                    old(self).classes@.remove_ensures(j as int);
                    assert(after =~= views.remove(j as int));
                    assert forall|t: Seq<char>| after.contains(t) implies views.contains(t)
                        && t != token@ by {
                        let m = choose|m: int| 0 <= m < after.len() && after[m] == t;
                        if m < j {
                            assert(views[m] == t);
                        } else {
                            assert(views[m + 1] == t);
                            assert(m + 1 != j);
                        }
                        assert(t != token@) by {
                            if m < j {
                                assert(views[m] != views[j as int]);
                            } else {
                                assert(views[m + 1] != views[j as int]);
                            }
                        };
                    };
                    assert forall|t: Seq<char>| views.contains(t) && t != token@ implies
                        after.contains(t) by {
                        let m = choose|m: int| 0 <= m < views.len() && views[m] == t;
                        if m < j {
                            assert(after[m] == t);
                        } else {
                            assert(m != j);
                            assert(after[m - 1] == t);
                        }
                    };
                    assert(after.no_duplicates()) by {
                        assert forall|p: int, q: int|
                            0 <= p < after.len() && 0 <= q < after.len() && p != q implies
                            after[p] != after[q] by {
                            let vp: int = if p < j { p } else { p + 1 };
                            let vq: int = if q < j { q } else { q + 1 };
                            assert(after[p] == views[vp]);
                            assert(after[q] == views[vq]);
                        };
                    };
                    assert(self@ =~= old(self)@.remove(token@));
                }
                return;
            }
            j += 1;
        }
        proof {
            assert(!views.contains(token@));
            assert(self@ =~= old(self)@.remove(token@));
        }
    }
}

} // verus!
