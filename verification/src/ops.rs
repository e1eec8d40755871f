use vstd::prelude::*;

use crate::classes::ClassSet;
use crate::tokens::split_tokens;
use crate::tokens::token_set;

verus! {

broadcast use vstd::std_specs::vec::group_vec_axioms;

/// A mutation of the target's membership state.
///
/// `Add` and `Remove` name one or more whitespace-separated tokens; a `Group`
/// applies its children in listed order at a single scheduled instant.
/// Operation trees are immutable once built; equality is structural.
pub enum Operation {
    Add(String),
    Remove(String),
    Group(Vec<Operation>),
}

impl Clone for Operation {
    /// A structural copy: the copy has the same effect as the operation it was
    /// taken from, on every membership state.
    fn clone(&self) -> (r: Self)
        ensures
            forall|st: Set<Seq<char>>| #[trigger] apply_op(st, r) == apply_op(st, *self),
        decreases self,
    {
        match self {
            Operation::Add(tag) => Operation::Add(tag.clone()),
            Operation::Remove(tag) => Operation::Remove(tag.clone()),
            Operation::Group(children) => {
                let mut v: Vec<Operation> = Vec::new();
                let mut k: usize = 0;
                proof {
                    assert(children@.take(0) =~= Seq::<Operation>::empty());
                    assert(v@ =~= Seq::<Operation>::empty());
                }
                while k < children.len()
                    invariant
                        k <= children.len(),
                        *self == Operation::Group(*children),
                        forall|st: Set<Seq<char>>| #[trigger] apply_all(st, v@) == apply_all(
                            st,
                            children@.take(k as int),
                        ),
                    decreases children.len() - k,
                {
                    proof {
                        assert((*self)->Group_0 == *children);
                        assert(decreases_to!(*self => (*self)->Group_0));
                        assert(decreases_to!(*children => children@[k as int]));
                    }
                    let copy = children[k].clone();
                    let ghost prefix = v@;
                    v.push(copy);
                    proof {
                        assert forall|st: Set<Seq<char>>| #[trigger] apply_all(st, v@)
                            == apply_all(st, children@.take(k as int + 1)) by {
                            assert(v@ =~= prefix.push(copy));
                            lemma_apply_all_snoc(st, prefix, copy);
                            lemma_apply_all_snoc(st, children@.take(k as int), children@[k as int]);
                            assert(children@.take(k as int + 1) =~= children@.take(k as int).push(
                                children@[k as int],
                            ));
                        };
                    }
                    k += 1;
                }
                let result = Operation::Group(v);
                proof {
                    assert(children@.take(children@.len() as int) =~= children@);
                    assert forall|st: Set<Seq<char>>| #[trigger] apply_op(st, result) == apply_op(
                        st,
                        *self,
                    ) by {
                        assert(apply_all(st, result->Group_0@) == apply_all(st, children@));
                    };
                }
                result
            },
        }
    }
}

/// The membership state that applying `op` leaves behind on state `st`.
pub open spec fn apply_op(st: Set<Seq<char>>, op: Operation) -> Set<Seq<char>>
    decreases op,
{
    match op {
        Operation::Add(tag) => st.union(token_set(tag@)),
        Operation::Remove(tag) => st.difference(token_set(tag@)),
        Operation::Group(children) => apply_all(st, children@),
    }
}

/// The state after applying each operation of `ops`, first to last.
pub open spec fn apply_all(st: Set<Seq<char>>, ops: Seq<Operation>) -> Set<Seq<char>>
    decreases ops,
{
    if ops.len() == 0 {
        st
    } else {
        apply_all(apply_op(st, ops[0]), ops.drop_first())
    }
}

/// Appending one operation to a list applies it after the list.
pub proof fn lemma_apply_all_snoc(st: Set<Seq<char>>, ops: Seq<Operation>, op: Operation)
    ensures
        apply_all(st, ops.push(op)) == apply_op(apply_all(st, ops), op),
    decreases ops.len(),
{
    if ops.len() == 0 {
        reveal_with_fuel(apply_all, 2);
        assert(ops.push(op)[0] == op);
        assert(ops.push(op).drop_first() =~= Seq::<Operation>::empty());
    } else {
        assert(ops.push(op)[0] == ops[0]);
        assert(ops.push(op).drop_first() =~= ops.drop_first().push(op));
        lemma_apply_all_snoc(apply_op(st, ops[0]), ops.drop_first(), op);
    }
}

/// Applying a concatenation applies the first list in full, then the second:
/// every operation of `a` is fully applied before any operation of `b` begins.
pub proof fn lemma_apply_all_concat(st: Set<Seq<char>>, a: Seq<Operation>, b: Seq<Operation>)
    ensures
        apply_all(st, a + b) == apply_all(apply_all(st, a), b),
    decreases a.len(),
{
    if a.len() == 0 {
        assert(a + b =~= b);
    } else {
        assert((a + b)[0] == a[0]);
        assert((a + b).drop_first() =~= a.drop_first() + b);
        lemma_apply_all_concat(apply_op(st, a[0]), a.drop_first(), b);
    }
}

/// A Group applies exactly its children, strictly in listed order and with
/// nothing interleaved between them.
pub proof fn lemma_group_applies_children_in_order(
    st: Set<Seq<char>>,
    children: Vec<Operation>,
)
    ensures
        apply_op(st, Operation::Group(children)) == apply_all(st, children@),
{
}

/// Re-applying an `Add` or `Remove` to the state it has already produced
/// changes nothing.
pub proof fn lemma_add_remove_idempotent(st: Set<Seq<char>>, op: Operation)
    requires
        op is Add || op is Remove,
    ensures
        apply_op(apply_op(st, op), op) == apply_op(st, op),
{
    match op {
        Operation::Add(tag) => {
            assert(st.union(token_set(tag@)).union(token_set(tag@)) =~= st.union(
                token_set(tag@),
            ));
        },
        Operation::Remove(tag) => {
            assert(st.difference(token_set(tag@)).difference(token_set(tag@)) =~= st.difference(
                token_set(tag@),
            ));
        },
        Operation::Group(_) => {
        },
    }
}

/// Apply one operation to the target's membership state.
///
/// Best effort by construction: an empty or all-whitespace tag names no token
/// and is a no-op, and every token effect is idempotent.
pub fn apply(target: &mut ClassSet, operation: &Operation)
    requires
        old(target).wf(),
    ensures
        final(target).wf(),
        final(target)@ == apply_op(old(target)@, *operation),
    decreases *operation,
{
    match operation {
        Operation::Add(tag) => {
            let toks = split_tokens(tag.as_str());
            let ghost tokviews = toks.deep_view();
            let n = toks.len();
            let mut k: usize = 0;
            assert(tokviews.take(0) =~= Seq::<Seq<char>>::empty());
            assert(target@ =~= old(target)@.union(tokviews.take(0).to_set()));
            while k < n
                invariant
                    n == toks.len(),
                    k <= n,
                    tokviews == toks.deep_view(),
                    target.wf(),
                    target@ == old(target)@.union(tokviews.take(k as int).to_set()),
                decreases n - k,
            {
                assert(tokviews[k as int] == toks@[k as int]@);
                target.ensure_present(&toks[k]);
                proof {
                    tokviews.take(k as int).lemma_push_to_set_commute(tokviews[k as int]);
                    assert(tokviews.take(k as int + 1) =~= tokviews.take(k as int).push(
                        tokviews[k as int],
                    ));
                    assert(target@ =~= old(target)@.union(tokviews.take(k as int + 1).to_set()));
                }
                k += 1;
            }
            proof {
                assert(tokviews.take(n as int) =~= tokviews);
                assert(target@ =~= old(target)@.union(token_set(tag@)));
            }
        },
        Operation::Remove(tag) => {
            let toks = split_tokens(tag.as_str());
            let ghost tokviews = toks.deep_view();
            let n = toks.len();
            let mut k: usize = 0;
            assert(tokviews.take(0) =~= Seq::<Seq<char>>::empty());
            assert(target@ =~= old(target)@.difference(tokviews.take(0).to_set()));
            while k < n
                invariant
                    n == toks.len(),
                    k <= n,
                    tokviews == toks.deep_view(),
                    target.wf(),
                    target@ == old(target)@.difference(tokviews.take(k as int).to_set()),
                decreases n - k,
            {
                assert(tokviews[k as int] == toks@[k as int]@);
                target.ensure_absent(&toks[k]);
                proof {
                    tokviews.take(k as int).lemma_push_to_set_commute(tokviews[k as int]);
                    assert(tokviews.take(k as int + 1) =~= tokviews.take(k as int).push(
                        tokviews[k as int],
                    ));
                    assert(target@ =~= old(target)@.difference(
                        tokviews.take(k as int + 1).to_set(),
                    ));
                }
                k += 1;
            }
            proof {
                assert(tokviews.take(n as int) =~= tokviews);
                assert(target@ =~= old(target)@.difference(token_set(tag@)));
            }
        },
        Operation::Group(children) => {
            let n = children.len();
            let mut k: usize = 0;
            assert(children@.take(0) =~= Seq::<Operation>::empty());
            while k < n
                invariant
                    n == children.len(),
                    k <= n,
                    target.wf(),
                    target@ == apply_all(old(target)@, children@.take(k as int)),
                    *operation == Operation::Group(*children),
                decreases n - k,
            {
                proof {
                    assert((*operation)->Group_0 == *children);
                    assert(decreases_to!(*operation => (*operation)->Group_0));
                    assert(decreases_to!(*children => children@[k as int]));
                }
                apply(target, &children[k]);
                proof {
                    lemma_apply_all_snoc(old(target)@, children@.take(k as int), children@[k as int]);
                    assert(children@.take(k as int + 1) =~= children@.take(k as int).push(
                        children@[k as int],
                    ));
                }
                k += 1;
            }
            proof {
                assert(children@.take(n as int) =~= children@);
            }
        },
    }
}

} // verus!
