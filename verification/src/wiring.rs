//! The jumps of the instructions that the lowering writes: every jump
//! goes to a label that stands in the list, and no label stands there twice.

use vstd::prelude::*;
use crate::ir::{Instr, Label, Reg};
use crate::scope::LoopLabels;
use crate::lowering::State;

verus! {

/// The label that the instruction jumps to, where it is a jump or a branch.
pub open spec fn target_of(instr: Instr) -> Option<Label> {
    match instr {
        Instr::Jump { target } => Some(target),
        Instr::Branch { target, .. } => Some(target),
        _ => None,
    }
}

/// The label that the instruction places, where it is a label.
pub open spec fn label_of(instr: Instr) -> Option<Label> {
    match instr {
        Instr::Label { label } => Some(label),
        _ => None,
    }
}

/// The number of a label.
pub open spec fn id_of(l: Label) -> int {
    l.0 as int
}

/// The label with the number `n`.
pub open spec fn label_no(n: int) -> Label {
    Label(n as usize)
}

/// The label is the start or the exit of one of the loops.
pub open spec fn loop_label(loops: Seq<LoopLabels>, l: Label) -> bool {
    exists|i: int| 0 <= i < loops.len() && ((#[trigger] loops[i]).start == l || loops[i].exit == l)
}

/// The label stands in the list, from the index `from` on.
pub open spec fn placed(code: Seq<Instr>, from: int, l: Label) -> bool {
    exists|k: int| from <= k < code.len() && #[trigger] label_of(code[k]) == Some(l)
}

/// No label stands twice in the list, from the index `from` on.
pub open spec fn labels_once(code: Seq<Instr>, from: int) -> bool {
    forall|j: int, k: int|
        from <= j < k < code.len() && label_of(code[j]) is Some ==> #[trigger] label_of(code[j])
            != #[trigger] label_of(code[k])
}

/// Every jump of the list goes to a label that stands in the list, and no
/// label stands there twice.
pub open spec fn jumps_resolve(code: Seq<Instr>) -> bool {
    &&& forall|k: int|
        0 <= k < code.len() && target_of(code[k]) is Some ==> placed(
            code,
            0,
            (#[trigger] target_of(code[k]))->0,
        )
    &&& labels_once(code, 0)
}

/// What a step of the lowering from `before` to `after` wrote is wired: it
/// stands after what was there; its labels are the labels that the step took,
/// each of them once; and its jumps go to these labels, or to the labels of
/// the loops around the step.
pub open spec fn wired(before: State, after: State) -> bool {
    let lo = before.code.len() as int;
    let first = before.next_label;
    let end = after.next_label;
    &&& lo <= after.code.len()
    &&& after.code.take(lo) == before.code
    &&& first <= end <= usize::MAX
    &&& forall|k: int|
        lo <= k < after.code.len() && label_of(after.code[k]) is Some ==> first <= id_of(
            (#[trigger] label_of(after.code[k]))->0,
        ) < end
    &&& forall|k: int|
        lo <= k < after.code.len() && target_of(after.code[k]) is Some ==> {
            let l = (#[trigger] target_of(after.code[k]))->0;
            first <= l.0 < end || loop_label(before.loops, l)
        }
    &&& forall|n: int| first <= n < end ==> placed(after.code, lo, #[trigger] label_no(n))
    &&& labels_once(after.code, lo)
}

/// A step that wrote nothing, took no label and kept the instructions is
/// wired.
pub proof fn lemma_wired_same(before: State, after: State)
    requires
        after.code == before.code,
        after.next_label == before.next_label,
        before.next_label <= usize::MAX,
    ensures
        wired(before, after),
{
    assert(after.code.take(before.code.len() as int) =~= before.code);
}

/// A step that wrote one instruction which is no label and no jump is wired.
pub proof fn lemma_wired_plain(before: State, after: State, instr: Instr)
    requires
        after.code == before.code.push(instr),
        after.next_label == before.next_label,
        before.next_label <= usize::MAX,
        label_of(instr) is None,
        target_of(instr) is None,
    ensures
        wired(before, after),
{
    assert(after.code.take(before.code.len() as int) =~= before.code);
}

/// A jump to a label of the loops around it is wired.
pub proof fn lemma_wired_jump(before: State, after: State, target: Label)
    requires
        after.code == before.code.push(Instr::Jump { target }),
        after.next_label == before.next_label,
        before.next_label <= usize::MAX,
        loop_label(before.loops, target),
    ensures
        wired(before, after),
{
    assert(after.code.take(before.code.len() as int) =~= before.code);
}

/// Two wired steps, one after the other and in the same loops, are a wired
/// step.
pub proof fn lemma_wired_then(a: State, b: State, c: State)
    requires
        wired(a, b),
        wired(b, c),
        b.loops == a.loops,
    ensures
        wired(a, c),
{
    let la = a.code.len() as int;
    let lb = b.code.len() as int;
    assert(c.code.take(la) =~= a.code) by {
        assert(c.code.take(lb).take(la) =~= c.code.take(la));
    }
    assert forall|k: int| la <= k < lb implies c.code[k] == b.code[k] by {
        assert(c.code.take(lb)[k] == c.code[k]);
    }
    assert forall|k: int| la <= k < c.code.len() && label_of(c.code[k]) is Some implies a.next_label
        <= id_of((#[trigger] label_of(c.code[k]))->0) < c.next_label by {
        if k < lb {
            assert(label_of(b.code[k]) is Some);
        }
    }
    assert forall|k: int| la <= k < c.code.len() && target_of(c.code[k]) is Some implies ({
        let l = (#[trigger] target_of(c.code[k]))->0;
        a.next_label <= l.0 < c.next_label || loop_label(a.loops, l)
    }) by {
        if k < lb {
            assert(target_of(b.code[k]) is Some);
        }
    }
    assert forall|n: int| a.next_label <= n < c.next_label implies placed(
        c.code,
        la,
        #[trigger] label_no(n),
    ) by {
        if n < b.next_label {
            assert(placed(b.code, la, label_no(n)));
            let k = choose|k: int| la <= k < b.code.len() && #[trigger] label_of(b.code[k]) == Some(label_no(n));
            assert(label_of(c.code[k]) == Some(label_no(n)));
        } else {
            assert(placed(c.code, lb, label_no(n)));
            let k = choose|k: int| lb <= k < c.code.len() && #[trigger] label_of(c.code[k]) == Some(label_no(n));
            assert(label_of(c.code[k]) == Some(label_no(n)));
        }
    }
    assert forall|j: int, k: int|
        la <= j < k < c.code.len() && label_of(c.code[j]) is Some implies #[trigger] label_of(
        c.code[j],
    ) != #[trigger] label_of(c.code[k]) by {
        if label_of(c.code[k]) is Some {
            if k < lb {
                assert(label_of(b.code[j]) != label_of(b.code[k]));
            } else if j < lb {
                assert(label_of(b.code[j]) is Some);
                assert(id_of(label_of(b.code[j])->0) < b.next_label);
                assert(id_of(label_of(c.code[k])->0) >= b.next_label);
            }
        }
    }
}

/// Where a unit was lowered in one wired step from the initial state,
/// outside every loop, its jumps resolve.
pub proof fn lemma_wired_resolves(before: State, after: State)
    requires
        wired(before, after),
        before.code.len() == 0,
        before.next_label == 0,
        before.loops.len() == 0,
    ensures
        jumps_resolve(after.code),
{
    assert forall|k: int| 0 <= k < after.code.len() && target_of(after.code[k]) is Some implies placed(
        after.code,
        0,
        (#[trigger] target_of(after.code[k]))->0,
    ) by {
        let l = target_of(after.code[k])->0;
        assert(!loop_label(before.loops, l));
        assert(0 <= l.0 < after.next_label);
        assert(placed(after.code, 0, label_no(l.0 as int)));
    }
}

/// The numbers from `first` up to, and without, `end`.
pub open spec fn span_of(first: int, end: int) -> Set<int> {
    Set::new(|n: int| first <= n < end)
}

/// A part of a wired step: from `before` to `after` instructions were
/// written after what was there; the labels among them are those with the
/// numbers `ids`, each of them once; and the jumps among them go to labels
/// with numbers from `first` up to `end`, or to labels of `loops`.
pub open spec fn part(
    before: Seq<Instr>,
    after: Seq<Instr>,
    first: int,
    end: int,
    ids: Set<int>,
    loops: Seq<LoopLabels>,
) -> bool {
    let lo = before.len() as int;
    &&& lo <= after.len()
    &&& after.take(lo) == before
    &&& 0 <= first <= end <= usize::MAX
    &&& forall|k: int|
        lo <= k < after.len() && label_of(after[k]) is Some ==> ids.contains(
            id_of((#[trigger] label_of(after[k]))->0),
        )
    &&& forall|k: int|
        lo <= k < after.len() && target_of(after[k]) is Some ==> {
            let l = (#[trigger] target_of(after[k]))->0;
            first <= l.0 < end || loop_label(loops, l)
        }
    &&& forall|n: int| #[trigger] ids.contains(n) ==> first <= n < end
    &&& forall|n: int| ids.contains(n) ==> placed(after, lo, #[trigger] label_no(n))
    &&& labels_once(after, lo)
}

/// Two parts, one after the other and with no label in common, are a part.
pub proof fn lemma_part_then(
    a: Seq<Instr>,
    b: Seq<Instr>,
    c: Seq<Instr>,
    first: int,
    end: int,
    p: Set<int>,
    q: Set<int>,
    loops: Seq<LoopLabels>,
)
    requires
        part(a, b, first, end, p, loops),
        part(b, c, first, end, q, loops),
        p.disjoint(q),
    ensures
        part(a, c, first, end, p.union(q), loops),
{
    let la = a.len() as int;
    let lb = b.len() as int;
    assert(c.take(la) =~= a) by {
        assert(c.take(lb).take(la) =~= c.take(la));
    }
    assert forall|k: int| la <= k < lb implies c[k] == b[k] by {
        assert(c.take(lb)[k] == c[k]);
    }
    assert forall|k: int| la <= k < c.len() && label_of(c[k]) is Some implies p.union(q).contains(
        id_of((#[trigger] label_of(c[k]))->0),
    ) by {
        if k < lb {
            assert(label_of(b[k]) is Some);
        }
    }
    assert forall|k: int| la <= k < c.len() && target_of(c[k]) is Some implies ({
        let l = (#[trigger] target_of(c[k]))->0;
        first <= l.0 < end || loop_label(loops, l)
    }) by {
        if k < lb {
            assert(target_of(b[k]) is Some);
        }
    }
    assert forall|n: int| p.union(q).contains(n) implies placed(c, la, #[trigger] label_no(n)) by {
        if p.contains(n) {
            assert(placed(b, la, label_no(n)));
            let k = choose|k: int| la <= k < b.len() && #[trigger] label_of(b[k]) == Some(label_no(n));
            assert(label_of(c[k]) == Some(label_no(n)));
        } else {
            assert(placed(c, lb, label_no(n)));
            let k = choose|k: int| lb <= k < c.len() && #[trigger] label_of(c[k]) == Some(label_no(n));
            assert(label_of(c[k]) == Some(label_no(n)));
        }
    }
    assert forall|j: int, k: int|
        la <= j < k < c.len() && label_of(c[j]) is Some implies #[trigger] label_of(c[j])
        != #[trigger] label_of(c[k]) by {
        if label_of(c[k]) is Some {
            if k < lb {
                assert(label_of(b[j]) != label_of(b[k]));
            } else if j < lb {
                assert(label_of(b[j]) is Some);
                assert(p.contains(id_of(label_of(b[j])->0)));
                assert(q.contains(id_of(label_of(c[k])->0)));
            }
        }
    }
}

/// A label is a part.
pub proof fn lemma_part_label(
    code: Seq<Instr>,
    label: Label,
    first: int,
    end: int,
    loops: Seq<LoopLabels>,
)
    requires
        0 <= first <= label.0 < end <= usize::MAX,
    ensures
        part(code, code.push(Instr::Label { label }), first, end, set![label.0 as int], loops),
{
    let after = code.push(Instr::Label { label });
    assert(after.take(code.len() as int) =~= code);
    assert(label_of(after[code.len() as int]) == Some(label_no(label.0 as int)));
}

/// A jump or a branch to a label with a number from `first` up to `end`, or
/// to a label of `loops`, is a part.
pub proof fn lemma_part_jump(
    code: Seq<Instr>,
    instr: Instr,
    first: int,
    end: int,
    loops: Seq<LoopLabels>,
)
    requires
        0 <= first <= end <= usize::MAX,
        target_of(instr) matches Some(l) && (first <= l.0 < end || loop_label(loops, l)),
    ensures
        part(code, code.push(instr), first, end, Set::empty(), loops),
{
    assert(code.push(instr).take(code.len() as int) =~= code);
}

/// A wired step is a part of a step that took its labels and more, in loops
/// whose labels are those of the loops of the step, or are among the labels
/// that the greater step took.
pub proof fn lemma_part_inner(
    before: State,
    after: State,
    first: int,
    end: int,
    loops: Seq<LoopLabels>,
)
    requires
        wired(before, after),
        0 <= first <= before.next_label,
        after.next_label <= end <= usize::MAX,
        forall|l: Label| #[trigger]
            loop_label(before.loops, l) ==> first <= l.0 < end || loop_label(loops, l),
    ensures
        part(
            before.code,
            after.code,
            first,
            end,
            span_of(before.next_label as int, after.next_label as int),
            loops,
        ),
{
    let ids = span_of(before.next_label as int, after.next_label as int);
    assert forall|k: int|
        before.code.len() <= k < after.code.len() && target_of(after.code[k]) is Some implies ({
        let l = (#[trigger] target_of(after.code[k]))->0;
        first <= l.0 < end || loop_label(loops, l)
    }) by {
        let l = target_of(after.code[k])->0;
        if !(before.next_label <= l.0 < after.next_label) {
            assert(loop_label(before.loops, l));
        }
    }
}

/// A part that places every label that the step took is a wired step.
pub proof fn lemma_part_wired(before: State, after: State)
    requires
        part(
            before.code,
            after.code,
            before.next_label as int,
            after.next_label as int,
            span_of(before.next_label as int, after.next_label as int),
            before.loops,
        ),
    ensures
        wired(before, after),
{
    let ids = span_of(before.next_label as int, after.next_label as int);
    assert forall|n: int| before.next_label <= n < after.next_label implies placed(
        after.code,
        before.code.len() as int,
        #[trigger] label_no(n),
    ) by {
        assert(ids.contains(n));
    }
}

/// A loop is a wired step, where its body is one.
pub proof fn lemma_wired_loop(st: State, inner: State)
    requires
        st.next_label + 2 <= usize::MAX,
        wired(st.open_loop(), inner),
    ensures
        wired(st, inner.close_loop(st)),
{
    let after = inner.close_loop(st);
    let entry = st.open_loop();
    let f = st.next_label as int;
    let e = inner.next_label as int;
    let start = st.label(0);
    let exit = st.label(1);
    let c0 = st.code;
    let c1 = entry.code;
    let c2 = inner.code;
    let c3 = c2.push(Instr::Jump { target: start });
    let c4 = after.code;
    assert forall|l: Label| #[trigger] loop_label(entry.loops, l) implies f <= l.0 < e || loop_label(
        st.loops,
        l,
    ) by {
        let i = choose|i: int|
            0 <= i < entry.loops.len() && ((#[trigger] entry.loops[i]).start == l
                || entry.loops[i].exit == l);
        if i < st.loops.len() {
            assert(st.loops[i] == entry.loops[i]);
        }
    }
    lemma_part_label(c0, start, f, e, st.loops);
    lemma_part_inner(entry, inner, f, e, st.loops);
    lemma_part_jump(c2, Instr::Jump { target: start }, f, e, st.loops);
    lemma_part_label(c3, exit, f, e, st.loops);
    let at_start = set![f];
    let in_body = span_of(f + 2, e);
    let at_exit = set![f + 1];
    lemma_part_then(c0, c1, c2, f, e, at_start, in_body, st.loops);
    lemma_part_then(c0, c2, c3, f, e, at_start.union(in_body), Set::empty(), st.loops);
    lemma_part_then(c0, c3, c4, f, e, at_start.union(in_body).union(Set::empty()), at_exit, st.loops);
    assert(at_start.union(in_body).union(Set::empty()).union(at_exit) =~= span_of(f, e));
    lemma_part_wired(st, after);
}

/// A conditional is a wired step, where its two blocks are.
pub proof fn lemma_wired_branch(st: State, cond: Reg, first: State, second: State)
    requires
        st.next_label + 3 <= usize::MAX,
        wired(st.open_branch(cond), first),
        first.loops == st.loops,
        wired(first.join(st.label(2), st.label(1)), second),
    ensures
        wired(st, second.join(st.label(2), st.label(2))),
{
    let after = second.join(st.label(2), st.label(2));
    let head = st.open_branch(cond);
    let mid = first.join(st.label(2), st.label(1));
    let f = st.next_label as int;
    let m = first.next_label as int;
    let e = second.next_label as int;
    let l0 = st.label(0);
    let l1 = st.label(1);
    let l2 = st.label(2);
    let loops = st.loops;
    let c0 = st.code;
    let c1 = c0.push(Instr::Branch { cond, target: l0 });
    let c2 = c1.push(Instr::Jump { target: l1 });
    let c3 = head.code;
    let c4 = first.code;
    let c5 = c4.push(Instr::Jump { target: l2 });
    let c6 = mid.code;
    let c7 = second.code;
    let c8 = c7.push(Instr::Jump { target: l2 });
    let c9 = after.code;
    let none = Set::<int>::empty();
    lemma_part_jump(c0, Instr::Branch { cond, target: l0 }, f, e, loops);
    lemma_part_jump(c1, Instr::Jump { target: l1 }, f, e, loops);
    lemma_part_label(c2, l0, f, e, loops);
    lemma_part_inner(head, first, f, e, loops);
    lemma_part_jump(c4, Instr::Jump { target: l2 }, f, e, loops);
    lemma_part_label(c5, l1, f, e, loops);
    lemma_part_inner(mid, second, f, e, loops);
    lemma_part_jump(c7, Instr::Jump { target: l2 }, f, e, loops);
    lemma_part_label(c8, l2, f, e, loops);
    let q1 = none.union(none);
    lemma_part_then(c0, c1, c2, f, e, none, none, loops);
    let q2 = q1.union(set![f]);
    lemma_part_then(c0, c2, c3, f, e, q1, set![f], loops);
    let q3 = q2.union(span_of(f + 3, m));
    lemma_part_then(c0, c3, c4, f, e, q2, span_of(f + 3, m), loops);
    let q4 = q3.union(none);
    lemma_part_then(c0, c4, c5, f, e, q3, none, loops);
    let q5 = q4.union(set![f + 1]);
    lemma_part_then(c0, c5, c6, f, e, q4, set![f + 1], loops);
    let q6 = q5.union(span_of(m, e));
    lemma_part_then(c0, c6, c7, f, e, q5, span_of(m, e), loops);
    let q7 = q6.union(none);
    lemma_part_then(c0, c7, c8, f, e, q6, none, loops);
    let q8 = q7.union(set![f + 2]);
    lemma_part_then(c0, c8, c9, f, e, q7, set![f + 2], loops);
    assert(q8 =~= span_of(f, e));
    lemma_part_wired(st, after);
}

/// What is wired up to `before` is wired up to `after`: the step from
/// `before` to `after` can follow any wired step in the same loops.
pub open spec fn carries(before: State, after: State) -> bool {
    forall|base: State| #[trigger]
        wired(base, before) && base.loops == before.loops ==> wired(base, after)
}

/// A wired step carries.
pub proof fn lemma_carries(before: State, after: State)
    requires
        wired(before, after),
    ensures
        carries(before, after),
{
    assert forall|base: State| #[trigger]
        wired(base, before) && base.loops == before.loops implies wired(base, after) by {
        lemma_wired_then(base, before, after);
    }
}

/// A step that keeps the instructions and the count of labels carries.
pub proof fn lemma_carries_same(before: State, after: State)
    requires
        after.code == before.code,
        after.next_label == before.next_label,
    ensures
        carries(before, after),
{
}

/// A step that carries from a state that differs from `before` in neither
/// the instructions, the count of labels nor the loops, carries from
/// `before`.
pub proof fn lemma_carries_from(before: State, inside: State, after: State)
    requires
        carries(inside, after),
        inside.code == before.code,
        inside.next_label == before.next_label,
        inside.loops == before.loops,
    ensures
        carries(before, after),
{
    assert forall|base: State| #[trigger]
        wired(base, before) && base.loops == before.loops implies wired(base, after) by {
        assert(wired(base, inside));
    }
}

/// A step that carries is wired, where its state before it can be a state
/// of the machine.
pub proof fn lemma_carries_wired(before: State, after: State)
    requires
        carries(before, after),
        before.next_label <= usize::MAX,
    ensures
        wired(before, after),
{
    lemma_wired_same(before, before);
}

/// A step that carries still does, where its state after it is changed in
/// neither the instructions nor the count of labels.
pub proof fn lemma_carries_to(before: State, inner: State, after: State)
    requires
        carries(before, inner),
        after.code == inner.code,
        after.next_label == inner.next_label,
    ensures
        carries(before, after),
{
    assert forall|base: State| #[trigger]
        wired(base, before) && base.loops == before.loops implies wired(base, after) by {
        assert(wired(base, inner));
    }
}

} // verus!
