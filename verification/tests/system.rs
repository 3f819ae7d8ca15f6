use constraint_system::constraint::Constraint;
use constraint_system::field::Field;
use constraint_system::linear_combination::LinearCombination;
use constraint_system::lookup::{LookupConstraint, LookupTable};
use constraint_system::r1cs::R1CS;
use constraint_system::variable::Variable;
use std::rc::Rc;

fn single(variable: Variable, coefficient: u64) -> LinearCombination {
    let mut lc = LinearCombination::zero();
    lc.add_term(variable, Field::from_u64(coefficient));
    lc
}

fn one() -> Variable {
    Variable::Public(0, Rc::new(Field::one()))
}

#[test]
fn fresh_system() {
    let cs = R1CS::new();
    assert_eq!(cs.num_public(), 1);
    assert_eq!(cs.num_private(), 0);
    assert_eq!(cs.num_constants(), 0);
    assert_eq!(cs.num_constraints(), 0);
    assert_eq!(cs.num_lookup_constraints(), 0);
    assert_eq!(cs.num_nonzeros(), (0, 0, 0));
    assert_eq!(cs.to_public_variables().len(), 1);
    assert!(cs.to_public_variables()[0].is_public());
    assert_eq!(cs.to_public_variables()[0].index(), 0);
    assert_eq!(cs.to_public_variables()[0].value(), Field::one());
    assert_eq!(cs.to_public_variables()[0], one());
    assert!(cs.to_private_variables().is_empty());
    assert!(cs.to_constraints().is_empty());
    assert!(cs.to_lookup_constraints().is_empty());
    assert!(cs.tables.is_empty());
    assert!(cs.is_satisfied());
    assert!(cs.is_satisfied_in_scope());
    assert_eq!(cs.scope(), "");
    assert_eq!(cs.num_public_in_scope(), 0);
    assert_eq!(cs.num_constraints_in_scope(), 0);
    assert_eq!(cs.num_lookup_constraints_in_scope(), 0);
    assert_eq!(cs.num_nonzeros_in_scope(), (0, 0, 0));
}

#[test]
fn public_indices_start_after_the_one() {
    let mut cs = R1CS::new();
    for k in 0..20u64 {
        let variable = cs.new_public(Field::from_u64(100 + k));
        assert!(variable.is_public());
        assert_eq!(variable.index(), k + 1);
        assert_eq!(variable.value(), Field::from_u64(100 + k));
        assert_eq!(cs.num_public(), k + 2);
        assert_eq!(cs.to_public_variables()[(k + 1) as usize], variable);
    }
    assert_eq!(cs.to_public_variables()[0], one());
    assert_eq!(cs.num_private(), 0);
    assert_eq!(cs.num_constants(), 0);
}

#[test]
fn private_indices_start_at_zero() {
    let mut cs = R1CS::new();
    for k in 0..20u64 {
        let variable = cs.new_private(Field::from_u64(100 + k));
        assert!(variable.is_private());
        assert_eq!(variable.index(), k);
        assert_eq!(variable.value(), Field::from_u64(100 + k));
        assert_eq!(cs.num_private(), k + 1);
        assert_eq!(cs.to_private_variables()[k as usize], variable);
    }
    assert_eq!(cs.num_public(), 1);
}

#[test]
fn constants_have_no_index() {
    let mut cs = R1CS::new();
    let a = cs.new_constant(Field::from_u64(9));
    let b = cs.new_constant(Field::from_u64(9));
    assert!(a.is_constant());
    assert_eq!(a.index(), 0);
    assert_eq!(a.value(), Field::from_u64(9));
    assert_eq!(a, b);
    assert_eq!(cs.num_constants(), 2);
    assert_eq!(cs.num_public(), 1);
    assert_eq!(cs.num_private(), 0);
}

#[test]
fn the_returned_variable_shares_its_value_with_the_stored_one() {
    let mut cs = R1CS::new();
    let variable = cs.new_private(Field::from_u64(3));
    match (&variable, &cs.to_private_variables()[0]) {
        (Variable::Private(_, a), Variable::Private(_, b)) => assert!(Rc::ptr_eq(a, b)),
        _ => panic!("both are private"),
    }
}

#[test]
fn enforce_counts() {
    let mut cs = R1CS::new();
    let x = cs.new_public(Field::from_u64(5));
    let y = cs.new_private(Field::from_u64(7));
    let mut a = LinearCombination::zero();
    a.add_term(x.clone(), Field::from_u64(2));
    a.add_term(y.clone(), Field::from_u64(3));
    a.add_term(one(), Field::zero());
    let b = single(one(), 1);
    let mut c = LinearCombination::zero();
    c.add_term(one(), Field::from_u64(31));
    let first = Constraint::new(cs.scope(), a, b, c);
    assert_eq!(first.num_nonzeros(), (2, 1, 1));
    cs.enforce(first);
    assert_eq!(cs.num_constraints(), 1);
    assert_eq!(cs.num_nonzeros(), (2, 1, 1));
    let second = Constraint::new(cs.scope(), single(x, 1), LinearCombination::zero(), single(y, 1));
    assert_eq!(second.num_nonzeros(), (1, 0, 1));
    cs.enforce(second);
    assert_eq!(cs.num_constraints(), 2);
    assert_eq!(cs.num_nonzeros(), (3, 1, 2));
    assert_eq!(cs.num_lookup_constraints(), 0);
    assert_eq!(cs.to_constraints().len(), 2);
    assert_eq!(cs.to_constraints()[0].num_nonzeros(), (2, 1, 1));
    assert_eq!(cs.to_constraints()[1].num_nonzeros(), (1, 0, 1));
    assert!(cs.to_constraints()[0].is_satisfied());
    assert!(!cs.to_constraints()[1].is_satisfied());
    assert!(!cs.is_satisfied());
}

#[test]
fn satisfied_iff_every_constraint_holds() {
    let build = |x: u64, y: u64| {
        let mut cs = R1CS::new();
        let px = cs.new_public(Field::from_u64(x));
        let py = cs.new_private(Field::from_u64(y));
        cs.enforce(Constraint::new(
            cs.scope(),
            single(px.clone(), 1),
            single(py.clone(), 1),
            single(one(), 35),
        ));
        cs.enforce(Constraint::new(cs.scope(), single(px, 2), single(one(), 1), single(one(), 10)));
        cs
    };
    assert!(build(5, 7).is_satisfied());
    assert!(!build(5, 8).is_satisfied());
    assert!(!build(6, 7).is_satisfied());
    assert!(!build(7, 5).is_satisfied());
}

#[test]
fn lookup_path() {
    let mut cs = R1CS::new();
    let x = cs.new_private(Field::from_u64(1));
    let y = cs.new_private(Field::from_u64(2));
    let z = cs.new_private(Field::from_u64(3));
    cs.enforce(Constraint::new(cs.scope(), single(x.clone(), 1), single(y.clone(), 1), single(one(), 2)));
    let mut table = LookupTable::new();
    table.fill(Field::from_u64(1), Field::from_u64(2), Field::from_u64(3));
    cs.add_lookup_table(table);
    assert_eq!(cs.tables.len(), 1);
    assert_eq!(cs.num_lookup_constraints(), 0);
    assert_eq!(cs.num_constraints(), 1);
    assert_eq!(cs.num_nonzeros(), (1, 1, 1));
    let row = LookupConstraint::new(cs.scope(), single(x, 1), single(y, 1), single(z, 1), 0);
    cs.enforce_lookup(row);
    assert_eq!(cs.num_lookup_constraints(), 1);
    assert_eq!(cs.num_constraints(), 1);
    assert_eq!(cs.num_nonzeros(), (2, 2, 2));
    assert_eq!(cs.num_lookup_constraints_in_scope(), 1);
    assert_eq!(cs.num_constraints_in_scope(), 1);
    assert_eq!(cs.to_lookup_constraints().len(), 1);
    assert_eq!(cs.to_lookup_constraints()[0].table_index(), 0);
    assert!(cs.to_lookup_constraints()[0].is_satisfied(&cs.tables[0]));
}

#[test]
fn satisfaction_does_not_examine_lookup_constraints() {
    let mut cs = R1CS::new();
    let x = cs.new_private(Field::from_u64(1));
    cs.add_lookup_table(LookupTable::new());
    cs.enforce_lookup(LookupConstraint::new(
        cs.scope(),
        single(x.clone(), 1),
        single(x.clone(), 1),
        single(x, 1),
        0,
    ));
    assert!(!cs.to_lookup_constraints()[0].is_satisfied(&cs.tables[0]));
    assert!(cs.is_satisfied());
    assert!(cs.is_satisfied_in_scope());
}

#[test]
fn end_to_end() {
    let mut cs = R1CS::new();
    let x = cs.new_public(Field::from_u64(5));
    let y = cs.new_private(Field::from_u64(7));
    assert_eq!(x, Variable::Public(1, Rc::new(Field::from_u64(5))));
    assert_eq!(y, Variable::Private(0, Rc::new(Field::from_u64(7))));
    let constraint = Constraint::new(cs.scope(), single(x, 1), single(y, 1), single(one(), 35));
    cs.enforce(constraint);
    assert!(cs.is_satisfied());
    assert_eq!(cs.num_constraints(), 1);
    assert_eq!(cs.num_nonzeros(), (1, 1, 1));
    assert_eq!(cs.num_public(), 2);
    assert_eq!(cs.num_private(), 1);
}

#[test]
fn system_in_words() {
    let mut cs = R1CS::new();
    assert_eq!(cs.to_string(), "\n");
    let x = cs.new_public(Field::from_u64(5));
    let y = cs.new_private(Field::from_u64(7));
    cs.push_scope("mul").unwrap();
    cs.enforce(Constraint::new(
        cs.scope(),
        single(x.clone(), 1),
        single(y.clone(), 1),
        single(one(), 35),
    ));
    cs.enforce(Constraint::new(
        cs.scope(),
        single(x.clone(), 1),
        single(y.clone(), 1),
        single(one(), 34),
    ));
    cs.pop_scope("mul").unwrap();
    cs.enforce_lookup(LookupConstraint::new(cs.scope(), single(x, 1), single(y, 1), single(one(), 2), 0));
    assert_eq!(
        cs.to_string(),
        "Constraint mul:\n\t5 * 7 == 35\nConstraint mul:\n\t5 * 7 != 34 (Unsatisfied)\nLookup :\n\t(5, 7, 2)\n\n"
    );
}

#[test]
fn debug_rendering_exists() {
    let cs = R1CS::new();
    assert!(format!("{:?}", cs).contains("R1CS"));
}
