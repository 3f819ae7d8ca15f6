use constraint_system::constraint::Constraint;
use constraint_system::field::{Field, MODULUS_0, MODULUS_1, MODULUS_2, MODULUS_3};
use constraint_system::linear_combination::LinearCombination;
use constraint_system::lookup::{LookupConstraint, LookupTable};
use constraint_system::variable::Variable;
use std::rc::Rc;

fn public(index: u64, value: u64) -> Variable {
    Variable::Public(index, Rc::new(Field::from_u64(value)))
}

fn private(index: u64, value: u64) -> Variable {
    Variable::Private(index, Rc::new(Field::from_u64(value)))
}

fn constant(value: u64) -> Variable {
    Variable::Constant(Rc::new(Field::from_u64(value)))
}

fn single(variable: Variable, coefficient: u64) -> LinearCombination {
    let mut lc = LinearCombination::zero();
    lc.add_term(variable, Field::from_u64(coefficient));
    lc
}

#[test]
fn variable_kinds() {
    assert!(constant(3).is_constant());
    assert!(!constant(3).is_public());
    assert!(!constant(3).is_private());
    assert!(public(1, 3).is_public());
    assert!(!public(1, 3).is_constant());
    assert!(private(0, 3).is_private());
    assert!(!private(0, 3).is_public());
}

#[test]
fn variable_index_and_value() {
    assert_eq!(constant(3).index(), 0);
    assert_eq!(public(4, 3).index(), 4);
    assert_eq!(private(9, 3).index(), 9);
    assert_eq!(constant(3).value(), Field::from_u64(3));
    assert_eq!(public(4, 5).value(), Field::from_u64(5));
    assert_eq!(private(9, 6).value(), Field::from_u64(6));
}

#[test]
fn variable_equality() {
    assert_eq!(public(1, 5), public(1, 5));
    assert_ne!(public(1, 5), public(2, 5));
    assert_ne!(public(1, 5), public(1, 6));
    assert_ne!(public(1, 5), private(1, 5));
    assert_ne!(constant(5), public(0, 5));
    assert_eq!(constant(5), constant(5));
    assert_ne!(constant(5), constant(6));
}

#[test]
fn variable_clone_shares_the_value() {
    let value = Rc::new(Field::from_u64(5));
    let variable = Variable::Private(3, Rc::clone(&value));
    let copy = variable.clone();
    assert_eq!(copy, variable);
    assert_eq!(copy.index(), 3);
    assert_eq!(copy.value(), Field::from_u64(5));
    assert_eq!(Rc::strong_count(&value), 3);
    match (&variable, &copy) {
        (Variable::Private(_, a), Variable::Private(_, b)) => assert!(Rc::ptr_eq(a, b)),
        _ => panic!("a clone is of the same kind"),
    }
}

#[test]
fn empty_combination() {
    let lc = LinearCombination::zero();
    assert_eq!(lc.len(), 0);
    assert_eq!(lc.num_nonzeros(), 0);
    assert_eq!(lc.value(), Field::zero());
    assert!(lc.to_terms().is_empty());
}

#[test]
fn combination_value_is_the_weighted_sum() {
    let mut lc = LinearCombination::zero();
    lc.add_term(public(1, 5), Field::from_u64(2));
    lc.add_term(private(0, 7), Field::from_u64(3));
    lc.add_term(public(0, 1), Field::from_u64(4));
    assert_eq!(lc.len(), 3);
    assert_eq!(lc.num_nonzeros(), 3);
    assert_eq!(lc.value(), Field::from_u64(2 * 5 + 3 * 7 + 4));
}

#[test]
fn combination_value_wraps_at_the_modulus() {
    let top = Field::from_limbs([MODULUS_0 - 1, MODULUS_1, MODULUS_2, MODULUS_3]).unwrap();
    let mut lc = LinearCombination::zero();
    lc.add_term(Variable::Private(0, Rc::new(top)), Field::from_u64(2));
    lc.add_term(public(0, 1), Field::from_u64(5));
    assert_eq!(lc.value(), Field::from_u64(3));
}

#[test]
fn adding_to_a_variable_twice_joins_the_coefficients() {
    let mut lc = LinearCombination::zero();
    lc.add_term(public(1, 5), Field::from_u64(2));
    lc.add_term(private(0, 7), Field::from_u64(3));
    lc.add_term(public(1, 5), Field::from_u64(10));
    assert_eq!(lc.len(), 2);
    let terms = lc.to_terms();
    assert_eq!(terms[0].variable, public(1, 5));
    assert_eq!(terms[0].coefficient, Field::from_u64(12));
    assert_eq!(terms[1].variable, private(0, 7));
    assert_eq!(terms[1].coefficient, Field::from_u64(3));
    assert_eq!(lc.value(), Field::from_u64(12 * 5 + 3 * 7));
}

#[test]
fn zero_coefficients_are_not_counted() {
    let top = Field::from_limbs([MODULUS_0 - 2, MODULUS_1, MODULUS_2, MODULUS_3]).unwrap();
    let mut lc = LinearCombination::zero();
    lc.add_term(public(1, 5), Field::from_u64(2));
    lc.add_term(private(0, 7), Field::zero());
    lc.add_term(public(1, 5), top);
    assert_eq!(lc.len(), 2);
    assert_eq!(lc.num_nonzeros(), 0);
    assert_eq!(lc.value(), Field::zero());
    lc.add_term(private(1, 9), Field::one());
    assert_eq!(lc.num_nonzeros(), 1);
}

#[test]
fn combination_clone() {
    let mut lc = LinearCombination::zero();
    lc.add_term(public(1, 5), Field::from_u64(2));
    lc.add_term(private(0, 7), Field::from_u64(3));
    let copy = lc.clone();
    assert_eq!(copy.len(), 2);
    assert_eq!(copy.value(), lc.value());
    assert_eq!(copy.to_terms()[0].variable, public(1, 5));
    assert_eq!(copy.to_terms()[1].coefficient, Field::from_u64(3));
}

#[test]
fn constraint_holds_when_the_product_matches() {
    let c = Constraint::new(
        String::from("mul"),
        single(public(1, 5), 1),
        single(private(0, 7), 1),
        single(public(0, 1), 35),
    );
    assert!(c.is_satisfied());
    assert_eq!(c.num_nonzeros(), (1, 1, 1));
    assert_eq!(c.scope(), "mul");
    assert_eq!(c.to_terms().0.value(), Field::from_u64(5));
    assert_eq!(c.to_terms().1.value(), Field::from_u64(7));
    assert_eq!(c.to_terms().2.value(), Field::from_u64(35));
}

#[test]
fn constraint_fails_when_the_product_differs() {
    let c = Constraint::new(
        String::from("mul"),
        single(public(1, 5), 1),
        single(private(0, 7), 1),
        single(public(0, 1), 36),
    );
    assert!(!c.is_satisfied());
}

#[test]
fn constraint_counts_each_combination_by_itself() {
    let mut a = LinearCombination::zero();
    a.add_term(public(1, 5), Field::from_u64(2));
    a.add_term(private(0, 7), Field::from_u64(3));
    a.add_term(private(1, 7), Field::zero());
    let b = LinearCombination::zero();
    let c = single(constant(4), 9);
    let constraint = Constraint::new(String::new(), a, b, c);
    assert_eq!(constraint.num_nonzeros(), (2, 0, 1));
    assert!(!constraint.is_satisfied());
}

#[test]
fn constraint_in_words() {
    let held = Constraint::new(
        String::from("a/b"),
        single(public(1, 5), 1),
        single(private(0, 7), 1),
        single(public(0, 1), 35),
    );
    assert_eq!(held.to_string(), "Constraint a/b:\n\t5 * 7 == 35\n");
    let broken = Constraint::new(
        String::from("a/b"),
        single(public(1, 5), 1),
        single(private(0, 7), 1),
        single(public(0, 1), 36),
    );
    assert_eq!(broken.to_string(), "Constraint a/b:\n\t5 * 7 != 36 (Unsatisfied)\n");
}

#[test]
fn constraint_clone() {
    let c = Constraint::new(
        String::from("mul"),
        single(public(1, 5), 1),
        single(private(0, 7), 1),
        single(public(0, 1), 35),
    );
    let copy = c.clone();
    assert_eq!(copy.scope(), "mul");
    assert_eq!(copy.num_nonzeros(), (1, 1, 1));
    assert!(copy.is_satisfied());
    assert_eq!(copy.to_string(), c.to_string());
}

#[test]
fn changing_a_value_breaks_a_constraint() {
    let with = |x: u64| {
        Constraint::new(
            String::new(),
            single(public(1, x), 1),
            single(private(0, 7), 1),
            single(public(0, 1), 35),
        )
    };
    assert!(with(5).is_satisfied());
    assert!(!with(6).is_satisfied());
    assert!(!with(0).is_satisfied());
}

#[test]
fn changing_a_value_that_is_multiplied_by_zero_breaks_nothing() {
    let with = |x: u64| {
        Constraint::new(
            String::new(),
            single(public(1, x), 1),
            LinearCombination::zero(),
            LinearCombination::zero(),
        )
    };
    assert!(with(5).is_satisfied());
    assert!(with(6).is_satisfied());
}

#[test]
fn table_rows() {
    let mut table = LookupTable::new();
    assert_eq!(table.len(), 0);
    assert!(!table.contains(&Field::zero(), &Field::zero(), &Field::zero()));
    table.fill(Field::from_u64(1), Field::from_u64(2), Field::from_u64(3));
    table.fill(Field::from_u64(4), Field::from_u64(5), Field::from_u64(6));
    assert_eq!(table.len(), 2);
    assert!(table.contains(&Field::from_u64(1), &Field::from_u64(2), &Field::from_u64(3)));
    assert!(table.contains(&Field::from_u64(4), &Field::from_u64(5), &Field::from_u64(6)));
    assert!(!table.contains(&Field::from_u64(1), &Field::from_u64(5), &Field::from_u64(3)));
    assert!(!table.contains(&Field::from_u64(3), &Field::from_u64(2), &Field::from_u64(1)));
    let copy = table.clone();
    assert_eq!(copy.len(), 2);
    assert!(copy.contains(&Field::from_u64(4), &Field::from_u64(5), &Field::from_u64(6)));
}

#[test]
fn lookup_constraint_holds_for_a_row() {
    let mut table = LookupTable::new();
    table.fill(Field::from_u64(1), Field::from_u64(2), Field::from_u64(3));
    table.fill(Field::from_u64(5), Field::from_u64(7), Field::from_u64(2));
    let row = LookupConstraint::new(
        String::from("xor"),
        single(public(1, 5), 1),
        single(private(0, 7), 1),
        single(private(1, 2), 1),
        0,
    );
    assert!(row.is_satisfied(&table));
    assert_eq!(row.table_index(), 0);
    assert_eq!(row.scope(), "xor");
    assert_eq!(row.num_nonzeros(), (1, 1, 1));
    assert_eq!(row.to_terms().2.value(), Field::from_u64(2));
    let other = LookupConstraint::new(
        String::from("xor"),
        single(public(1, 5), 1),
        single(private(0, 7), 1),
        single(private(1, 3), 1),
        4,
    );
    assert!(!other.is_satisfied(&table));
    assert!(!other.is_satisfied(&LookupTable::new()));
    assert_eq!(other.table_index(), 4);
    assert_eq!(other.clone().table_index(), 4);
    assert_eq!(other.clone().to_string(), other.to_string());
}

#[test]
fn lookup_constraint_in_words() {
    let row = LookupConstraint::new(
        String::from("xor"),
        single(public(1, 5), 1),
        single(private(0, 7), 1),
        single(private(1, 2), 1),
        0,
    );
    assert_eq!(row.to_string(), "Lookup xor:\n\t(5, 7, 2)\n");
}

#[test]
fn lookup_constraint_counts_nonzero_coefficients() {
    let mut a = LinearCombination::zero();
    a.add_term(public(1, 5), Field::from_u64(2));
    a.add_term(private(0, 7), Field::from_u64(3));
    let row = LookupConstraint::new(
        String::new(),
        a,
        single(private(0, 7), 0),
        LinearCombination::zero(),
        1,
    );
    assert_eq!(row.num_nonzeros(), (2, 0, 0));
}

#[test]
fn changing_the_result_breaks_a_constraint() {
    let with = |z: u64| {
        Constraint::new(
            String::new(),
            single(public(1, 5), 1),
            single(private(0, 7), 1),
            single(private(1, z), 1),
        )
    };
    assert!(with(35).is_satisfied());
    assert!(!with(36).is_satisfied());
    assert!(!with(34).is_satisfied());
    assert!(!with(0).is_satisfied());
}
