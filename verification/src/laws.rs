//! What holds of the constraint system across calls: how allocation numbers
//! its variables, how enforcement counts, how scopes nest, and what a change of
//! one variable's value does to a constraint that held.

use crate::constraint::ConstraintView;
use crate::counter::{all_hold, path, plus, FrameView};
use crate::field::{modulus, Field};
use crate::linear_combination::{weighted_sum, Term};
use crate::lookup::LookupConstraintView;
use crate::r1cs::R1CSView;
use crate::variable::Variable;
use std::rc::Rc;
use vstd::arithmetic::div_mod::{lemma_mod_equivalence, lemma_mod_self_0, lemma_small_mod};
use vstd::prelude::*;

verus! {

/// The state after public variables of `values` have been allocated in order.
pub open spec fn with_publics(s: R1CSView, values: Seq<Field>) -> R1CSView
    decreases values.len(),
{
    if values.len() == 0 {
        s
    } else {
        with_publics(s, values.drop_last()).with_public(values.last())
    }
}

/// The state after private variables of `values` have been allocated in order.
pub open spec fn with_privates(s: R1CSView, values: Seq<Field>) -> R1CSView
    decreases values.len(),
{
    if values.len() == 0 {
        s
    } else {
        with_privates(s, values.drop_last()).with_private(values.last())
    }
}

/// The state after `constraints` have been enforced in order.
pub open spec fn with_constraints(s: R1CSView, constraints: Seq<ConstraintView>) -> R1CSView
    decreases constraints.len(),
{
    if constraints.len() == 0 {
        s
    } else {
        with_constraints(s, constraints.drop_last()).with_constraint(constraints.last())
    }
}

/// The term with `target`, where the term is on it, carrying `value` instead.
pub open spec fn flipped_term(term: Term, target: Variable, value: Field) -> Term {
    if term.variable == target {
        Term { variable: target.with_value(value), coefficient: term.coefficient }
    } else {
        term
    }
}

/// The terms with `target` carrying `value` instead of its own value.
pub open spec fn flipped(terms: Seq<Term>, target: Variable, value: Field) -> Seq<Term> {
    terms.map_values(|t: Term| flipped_term(t, target, value))
}

/// The constraint with `target` carrying `value` instead of its own value.
pub open spec fn flipped_constraint(c: ConstraintView, target: Variable, value: Field) -> ConstraintView {
    ConstraintView {
        scope: c.scope,
        a: flipped(c.a, target, value),
        b: flipped(c.b, target, value),
        c: flipped(c.c, target, value),
    }
}

/// The constraints with `target` carrying `value` instead of its own value.
pub open spec fn flipped_constraints(
    constraints: Seq<ConstraintView>,
    target: Variable,
    value: Field,
) -> Seq<ConstraintView> {
    constraints.map_values(|c: ConstraintView| flipped_constraint(c, target, value))
}

/// The coefficient that `target` is weighted with: the sum of the residues of
/// the coefficients of the terms on it.
pub open spec fn coefficient_of(terms: Seq<Term>, target: Variable) -> nat
    decreases terms.len(),
{
    if terms.len() == 0 {
        0
    } else {
        coefficient_of(terms.drop_last(), target) + if terms.last().variable == target {
            terms.last().coefficient.value()
        } else {
            0
        }
    }
}

/// What a change of `target`'s value by `d` adds to `a * b - c`, where `a`,
/// `b` and `c` are the values of the three combinations before the change and
/// `ka`, `kb` and `kc` the coefficients of `target` in them.
pub open spec fn flip_difference(d: int, a: int, b: int, ka: int, kb: int, kc: int) -> int {
    d * (ka * b + kb * a + ka * kb * d - kc)
}

/// A new system holds one public variable and nothing else: the one, of index
/// zero, whose value is the multiplicative identity. It meets the invariant.
pub proof fn law_fresh()
    ensures
        R1CSView::fresh().wf(),
        R1CSView::fresh().public.len() == 1,
        R1CSView::fresh().public[0] is Public,
        R1CSView::fresh().public[0].spec_index() == 0,
        R1CSView::fresh().public[0].spec_value().value() == 1,
        R1CSView::fresh().constants.len() == 0,
        R1CSView::fresh().private.len() == 0,
        R1CSView::fresh().constraints.len() == 0,
        R1CSView::fresh().lookup_constraints.len() == 0,
        path(R1CSView::fresh().frames) == Seq::<char>::empty(),
{
    Field::lemma_from_residue(1);
    let s = R1CSView::fresh();
    assert(s.frames[0].wf());
    assert(s.bounds(s.frames[0]));
}

/// Public variables are numbered in the order of their allocation: the `k`-th
/// allocation after a state with `n` public variables returns the public
/// variable of index `n + k`, and the number of public variables grows by one
/// with each. After a new system, where `n` is one, that index is `k + 1`.
pub proof fn law_public_indices(s: R1CSView, values: Seq<Field>)
    requires
        s.wf(),
        s.public.len() + values.len() <= u64::MAX,
    ensures
        with_publics(s, values).wf(),
        with_publics(s, values).public.len() == s.public.len() + values.len(),
        with_publics(s, values).public.take(s.public.len() as int) == s.public,
        forall|k: int|
            0 <= k < values.len() ==> {
                &&& #[trigger] with_publics(s, values.take(k)).next_public(values[k])
                    == Variable::Public((s.public.len() + k) as u64, Rc::new(values[k]))
                &&& with_publics(s, values).public[s.public.len() + k] == Variable::Public(
                    (s.public.len() + k) as u64,
                    Rc::new(values[k]),
                )
            },
    decreases values.len(),
{
    let n = s.public.len() as int;
    if values.len() == 0 {
        assert(s.public.take(n) =~= s.public);
    } else {
        let front = values.drop_last();
        let before = with_publics(s, front);
        law_public_indices(s, front);
        before.lemma_with_public(values.last());
        let after = with_publics(s, values);
        assert(after.public.take(n) =~= before.public.take(n));
        assert forall|k: int| 0 <= k < values.len() implies {
            &&& #[trigger] with_publics(s, values.take(k)).next_public(values[k])
                == Variable::Public((n + k) as u64, Rc::new(values[k]))
            &&& after.public[n + k] == Variable::Public((n + k) as u64, Rc::new(values[k]))
        } by {
            if k < front.len() {
                assert(values.take(k) =~= front.take(k));
                assert(values[k] == front[k]);
                assert(with_publics(s, front.take(k)).next_public(front[k]) == Variable::Public(
                    (n + k) as u64,
                    Rc::new(front[k]),
                ));
            } else {
                assert(values.take(k) =~= front);
            }
        }
    }
}

/// After a new system, the `k`-th public variable allocated has index `k + 1`,
/// the one having index zero.
pub proof fn law_public_indices_fresh(values: Seq<Field>)
    requires
        values.len() < u64::MAX,
    ensures
        with_publics(R1CSView::fresh(), values).public.len() == values.len() + 1,
        with_publics(R1CSView::fresh(), values).public[0] == R1CSView::one(),
        forall|k: int|
            0 <= k < values.len() ==> (#[trigger] with_publics(R1CSView::fresh(), values).public[k
                + 1]) == Variable::Public((k + 1) as u64, Rc::new(values[k])),
{
    let s = R1CSView::fresh();
    law_fresh();
    law_public_indices(s, values);
    let after = with_publics(s, values);
    assert(after.public.take(1)[0] == after.public[0]);
    assert forall|k: int| 0 <= k < values.len() implies (#[trigger] after.public[k + 1])
        == Variable::Public((k + 1) as u64, Rc::new(values[k])) by {
        assert(with_publics(s, values.take(k)).next_public(values[k]) == Variable::Public(
            (1 + k) as u64,
            Rc::new(values[k]),
        ));
        assert(after.public[1 + k] == Variable::Public((1 + k) as u64, Rc::new(values[k])));
    }
}

/// Private variables are numbered in the order of their allocation, from
/// zero: the `k`-th allocation after a state with `n` private variables
/// returns the private variable of index `n + k`, and the number of private
/// variables grows by one with each.
pub proof fn law_private_indices(s: R1CSView, values: Seq<Field>)
    requires
        s.wf(),
        s.private.len() + values.len() <= u64::MAX,
    ensures
        with_privates(s, values).wf(),
        with_privates(s, values).private.len() == s.private.len() + values.len(),
        with_privates(s, values).private.take(s.private.len() as int) == s.private,
        forall|k: int|
            0 <= k < values.len() ==> {
                &&& #[trigger] with_privates(s, values.take(k)).next_private(values[k])
                    == Variable::Private((s.private.len() + k) as u64, Rc::new(values[k]))
                &&& with_privates(s, values).private[s.private.len() + k] == Variable::Private(
                    (s.private.len() + k) as u64,
                    Rc::new(values[k]),
                )
            },
    decreases values.len(),
{
    let n = s.private.len() as int;
    if values.len() == 0 {
        assert(s.private.take(n) =~= s.private);
    } else {
        let front = values.drop_last();
        let before = with_privates(s, front);
        law_private_indices(s, front);
        before.lemma_with_private(values.last());
        let after = with_privates(s, values);
        assert(after.private.take(n) =~= before.private.take(n));
        assert forall|k: int| 0 <= k < values.len() implies {
            &&& #[trigger] with_privates(s, values.take(k)).next_private(values[k])
                == Variable::Private((n + k) as u64, Rc::new(values[k]))
            &&& after.private[n + k] == Variable::Private((n + k) as u64, Rc::new(values[k]))
        } by {
            if k < front.len() {
                assert(values.take(k) =~= front.take(k));
                assert(values[k] == front[k]);
                assert(with_privates(s, front.take(k)).next_private(front[k])
                    == Variable::Private((n + k) as u64, Rc::new(front[k])));
            } else {
                assert(values.take(k) =~= front);
            }
        }
    }
}

/// Enforcing a constraint adds one to the number of constraints and the
/// constraint's nonzero counts to the system's, place by place; the innermost
/// frame counts the same, and nothing else changes.
pub proof fn law_enforce_counts(s: R1CSView, c: ConstraintView)
    requires
        s.frames.len() >= 1,
    ensures
        s.with_constraint(c).constraints.len() == s.constraints.len() + 1,
        s.with_constraint(c).constraints.last() == c,
        s.with_constraint(c).nonzeros == plus(s.nonzeros, c.nonzeros()),
        s.with_constraint(c).frames.last().constraints.len() == s.frames.last().constraints.len()
            + 1,
        s.with_constraint(c).frames.last().nonzeros == plus(
            s.frames.last().nonzeros,
            c.nonzeros(),
        ),
        s.with_constraint(c).lookup_constraints == s.lookup_constraints,
        s.with_constraint(c).public == s.public,
        s.with_constraint(c).private == s.private,
        s.with_constraint(c).constants == s.constants,
{
}

/// Entering a scope and leaving it again restores the state; while the scope
/// is open, the path is the one before, then `/` unless no scope was open,
/// then the scope's name.
pub proof fn law_scope_balance(s: R1CSView, name: Seq<char>)
    requires
        s.frames.len() >= 1,
    ensures
        s.entered(name).left() == s,
        s.entered(name).frames.last() == FrameView::fresh(name),
        path(s.entered(name).frames) == if s.frames.len() == 1 {
            name
        } else {
            path(s.frames) + "/"@ + name
        },
{
    let inner = s.entered(name);
    assert(inner.frames.drop_last() =~= s.frames);
}

/// A scope counts what is enforced while it is innermost, and only that:
/// after a scope has been entered and `constraints` have been enforced, the
/// scope's frame holds exactly them, and the system holds them after those it
/// held before.
pub proof fn law_scoped_counting(s: R1CSView, name: Seq<char>, constraints: Seq<ConstraintView>)
    requires
        s.frames.len() >= 1,
    ensures
        with_constraints(s.entered(name), constraints).frames.len() == s.frames.len() + 1,
        with_constraints(s.entered(name), constraints).frames.last().constraints == constraints,
        with_constraints(s.entered(name), constraints).constraints == s.constraints + constraints,
        with_constraints(s.entered(name), constraints).frames.drop_last() == s.frames,
    decreases constraints.len(),
{
    let inner = s.entered(name);
    if constraints.len() == 0 {
        assert(inner.frames.drop_last() =~= s.frames);
        assert(s.constraints + constraints =~= s.constraints);
        assert(inner.frames.last().constraints =~= constraints);
    } else {
        let front = constraints.drop_last();
        law_scoped_counting(s, name, front);
        let before = with_constraints(inner, front);
        let after = with_constraints(inner, constraints);
        assert(after == before.with_constraint(constraints.last()));
        assert(after.frames.last().constraints =~= constraints);
        assert(after.constraints =~= s.constraints + constraints);
        assert(after.frames.drop_last() =~= before.frames.drop_last());
    }
}

/// Adding a table and enforcing a lookup constraint adds one to the number of
/// lookup constraints and the constraint's nonzero counts to the system's, and
/// leaves the constraints as they were.
pub proof fn law_lookup_counts(
    s: R1CSView,
    table: Seq<(Field, Field, Field)>,
    c: LookupConstraintView,
)
    requires
        s.frames.len() >= 1,
    ensures
        s.with_table(table).tables.len() == s.tables.len() + 1,
        s.with_table(table).with_lookup_constraint(c).lookup_constraints.len()
            == s.lookup_constraints.len() + 1,
        s.with_table(table).with_lookup_constraint(c).lookup_constraints.last() == c,
        s.with_table(table).with_lookup_constraint(c).constraints == s.constraints,
        s.with_table(table).with_lookup_constraint(c).nonzeros == plus(s.nonzeros, c.nonzeros()),
        s.with_table(table).with_lookup_constraint(c).frames.last().lookup_constraints.len()
            == s.frames.last().lookup_constraints.len() + 1,
        s.with_table(table).with_lookup_constraint(c).frames.last().constraints
            == s.frames.last().constraints,
{
}

/// A weighted sum is linear in the value of each variable: with `target`
/// carrying `value`, what `target` adds to the sum is its coefficient times
/// `value` instead of its coefficient times its own value.
pub proof fn lemma_flipped_sum(terms: Seq<Term>, target: Variable, value: Field)
    ensures
        weighted_sum(flipped(terms, target, value)) + coefficient_of(terms, target)
            * target.spec_value().value() == weighted_sum(terms) + coefficient_of(terms, target)
            * value.value(),
    decreases terms.len(),
{
    let after = flipped(terms, target, value);
    let old_value = target.spec_value().value() as int;
    let new_value = value.value() as int;
    if terms.len() == 0 {
        assert(after.len() == 0);
        assert(0 * old_value == 0 && 0 * new_value == 0) by (nonlinear_arith);
    } else {
        let front = terms.drop_last();
        let last = terms.last();
        lemma_flipped_sum(front, target, value);
        assert(after.drop_last() =~= flipped(front, target, value));
        assert(after.last() == flipped_term(last, target, value));
        let k = coefficient_of(front, target) as int;
        let c = last.coefficient.value() as int;
        let sum_front = weighted_sum(front) as int;
        let sum_front_after = weighted_sum(flipped(front, target, value)) as int;
        assert(sum_front_after + k * old_value == sum_front + k * new_value);
        assert(target.with_value(value).spec_value() == value);
        if last.variable == target {
            assert(weighted_sum(terms) == sum_front + c * old_value);
            assert(weighted_sum(after) == sum_front_after + c * new_value);
            assert(coefficient_of(terms, target) == k + c);
            assert((k + c) * old_value == k * old_value + c * old_value) by (nonlinear_arith);
            assert((k + c) * new_value == k * new_value + c * new_value) by (nonlinear_arith);
        } else {
            let carried = last.variable.spec_value().value() as int;
            assert(weighted_sum(terms) == sum_front + c * carried);
            assert(weighted_sum(after) == sum_front_after + c * carried);
            assert(coefficient_of(terms, target) == k);
        }
    }
}

/// What a change of one variable's value does to a constraint that holds: the
/// constraint still holds exactly if the modulus divides `flip_difference`,
/// the product of the change with a sum that the constraint's other values
/// and the variable's coefficients determine.
pub proof fn law_flip(c: ConstraintView, target: Variable, value: Field)
    requires
        c.holds(),
    ensures
        flipped_constraint(c, target, value).holds() <==> flip_difference(
            value.value() - target.spec_value().value(),
            weighted_sum(c.a) as int,
            weighted_sum(c.b) as int,
            coefficient_of(c.a, target) as int,
            coefficient_of(c.b, target) as int,
            coefficient_of(c.c, target) as int,
        ) % (modulus() as int) == 0,
{
    let p = modulus() as int;
    let d = value.value() - target.spec_value().value();
    let a = weighted_sum(c.a) as int;
    let b = weighted_sum(c.b) as int;
    let cc = weighted_sum(c.c) as int;
    let ka = coefficient_of(c.a, target) as int;
    let kb = coefficient_of(c.b, target) as int;
    let kc = coefficient_of(c.c, target) as int;
    let a2 = weighted_sum(flipped(c.a, target, value)) as int;
    let b2 = weighted_sum(flipped(c.b, target, value)) as int;
    let c2 = weighted_sum(flipped(c.c, target, value)) as int;
    let e = flip_difference(d, a, b, ka, kb, kc);
    lemma_flipped_sum(c.a, target, value);
    lemma_flipped_sum(c.b, target, value);
    lemma_flipped_sum(c.c, target, value);
    let v0 = target.spec_value().value() as int;
    let v1 = value.value() as int;
    let x = ka * d;
    let y = kb * d;
    let z = kc * d;
    assert(ka * v1 == ka * v0 + x) by (nonlinear_arith)
        requires
            x == ka * d,
            d == v1 - v0,
    ;
    assert(kb * v1 == kb * v0 + y) by (nonlinear_arith)
        requires
            y == kb * d,
            d == v1 - v0,
    ;
    assert(kc * v1 == kc * v0 + z) by (nonlinear_arith)
        requires
            z == kc * d,
            d == v1 - v0,
    ;
    assert(a2 == a + x && b2 == b + y && c2 == cc + z);
    assert(a2 * b2 == a * b + a * y + x * b + x * y) by (nonlinear_arith)
        requires
            a2 == a + x,
            b2 == b + y,
    ;
    let t1 = ka * b;
    let t2 = kb * a;
    let t3 = ka * kb * d;
    assert(d * (t1 + t2 + t3 - kc) == d * t1 + d * t2 + d * t3 - d * kc) by (nonlinear_arith);
    assert(d * t1 == x * b) by (nonlinear_arith)
        requires
            t1 == ka * b,
            x == ka * d,
    ;
    assert(d * t2 == a * y) by (nonlinear_arith)
        requires
            t2 == kb * a,
            y == kb * d,
    ;
    assert(d * t3 == x * y) by (nonlinear_arith)
        requires
            t3 == ka * kb * d,
            x == ka * d,
            y == kb * d,
    ;
    assert(d * kc == z) by (nonlinear_arith)
        requires
            z == kc * d,
    ;
    assert(e == d * (t1 + t2 + t3 - kc));
    assert(a2 * b2 - c2 == (a * b - cc) + e);
    lemma_mod_equivalence(a * b, cc, p);
    lemma_mod_equivalence(a2 * b2, c2, p);
    lemma_mod_equivalence(a2 * b2 - c2, e, p);
}

/// Changing a variable's value breaks a constraint that holds, unless the
/// modulus divides `flip_difference`: the new value then satisfies the
/// constraint too, as any value does in `x * 0 = 0`.
pub proof fn law_flip_breaks(c: ConstraintView, target: Variable, value: Field)
    requires
        c.holds(),
        flip_difference(
            value.value() - target.spec_value().value(),
            weighted_sum(c.a) as int,
            weighted_sum(c.b) as int,
            coefficient_of(c.a, target) as int,
            coefficient_of(c.b, target) as int,
            coefficient_of(c.c, target) as int,
        ) % (modulus() as int) != 0,
    ensures
        !flipped_constraint(c, target, value).holds(),
{
    law_flip(c, target, value);
}

/// Where a variable occurs in the result alone, with coefficient one, every
/// change of its value breaks a constraint that holds.
pub proof fn law_flip_result(c: ConstraintView, target: Variable, value: Field)
    requires
        c.holds(),
        coefficient_of(c.a, target) == 0,
        coefficient_of(c.b, target) == 0,
        coefficient_of(c.c, target) == 1,
        value.canonical(),
        target.spec_value().canonical(),
        value != target.spec_value(),
    ensures
        !flipped_constraint(c, target, value).holds(),
{
    let p = modulus() as int;
    let v0 = target.spec_value().value() as int;
    let v1 = value.value() as int;
    let d = v1 - v0;
    let a = weighted_sum(c.a) as int;
    let b = weighted_sum(c.b) as int;
    if v0 == v1 {
        Field::lemma_value_injective(value, target.spec_value());
    }
    Field::lemma_bound(value);
    Field::lemma_bound(target.spec_value());
    let inner = 0 * b + 0 * a + 0 * 0 * d - 1;
    assert(inner == -1) by (nonlinear_arith)
        requires
            inner == 0 * b + 0 * a + 0 * 0 * d - 1,
    ;
    let e = flip_difference(d, a, b, 0, 0, 1);
    assert(e == -d) by (nonlinear_arith)
        requires
            e == d * inner,
            inner == -1,
    ;
    if d > 0 {
        lemma_mod_equivalence(p - d, -d, p);
        lemma_mod_self_0(p);
        lemma_small_mod((p - d) as nat, p as nat);
    } else {
        lemma_small_mod((-d) as nat, p as nat);
    }
    law_flip_breaks(c, target, value);
}

/// A system with a constraint that held and that the change of one variable's
/// value breaks is not satisfied after the change.
pub proof fn law_flip_unsatisfied(
    constraints: Seq<ConstraintView>,
    at: int,
    target: Variable,
    value: Field,
)
    requires
        0 <= at < constraints.len(),
        constraints[at].holds(),
        flip_difference(
            value.value() - target.spec_value().value(),
            weighted_sum(constraints[at].a) as int,
            weighted_sum(constraints[at].b) as int,
            coefficient_of(constraints[at].a, target) as int,
            coefficient_of(constraints[at].b, target) as int,
            coefficient_of(constraints[at].c, target) as int,
        ) % (modulus() as int) != 0,
    ensures
        !all_hold(flipped_constraints(constraints, target, value)),
{
    law_flip_breaks(constraints[at], target, value);
    let after = flipped_constraints(constraints, target, value);
    assert(after[at] == flipped_constraint(constraints[at], target, value));
}

/// What a scope recorded is part of what the system holds: where every
/// constraint of the system holds, so does every constraint of each frame.
pub proof fn law_scoped_satisfaction(s: R1CSView, at: int)
    requires
        s.wf(),
        all_hold(s.constraints),
        0 <= at < s.frames.len(),
    ensures
        all_hold(s.frames[at].constraints),
{
    let frame = s.frames[at];
    assert(s.bounds(frame));
    assert forall|j: int| 0 <= j < frame.constraints.len() implies (#[trigger] frame.constraints[j]).holds() by {
        assert(s.constraints.contains(frame.constraints[j]));
        let k = choose|k: int| 0 <= k < s.constraints.len() && s.constraints[k] == frame.constraints[j];
        assert(s.constraints[k].holds());
    }
}

} // verus!
