use bitchain::operations::rhs::Rhs;
use bitchain::operations::{Expression, Operation, Term};

fn assert_propagated(e: &Expression) {
    for i in 1..e.terms.len() {
        assert_eq!(e.terms[i].initial_value, e.terms[i - 1].result);
    }
    for t in &e.terms {
        let recomputed = Term::new(t.initial_value, t.operation);
        assert_eq!(recomputed.result, t.result);
    }
}

#[test]
fn empty_expression_yields_zero() {
    let e: Expression = Expression::new();
    assert!(e.is_empty());
    assert_eq!(e.final_value(), 0);
}

#[test]
fn identity_term_passes_value_through() {
    let t = Term::new(42, Operation::Identity);
    assert_eq!(t.initial_value, 42);
    assert_eq!(t.result, 42);
}

#[test]
fn term_from_previous_takes_its_result() {
    let first = Term::new(3, Operation::Add(4));
    assert_eq!(first.result, 7);
    let second = Term::new_from_term(&first, Operation::BitwiseAnd(1));
    assert_eq!(second.initial_value, 7);
    assert_eq!(second.result, 1);
}

#[test]
fn bitwise_not_on_pattern() {
    let mut e = Expression::new();
    e.set_initial_value(0x1234);
    e.add_operation(Operation::BitwiseNot);
    assert_eq!(e.final_value(), -4661);
    assert_eq!(e.final_value() as u16, 0xEDCB);
}

#[test]
fn and_after_not_matches_semantics_table() {
    let mut e = Expression::new();
    e.set_initial_value(0x1234);
    e.add_operation(Operation::BitwiseNot);
    e.add_operation(Operation::BitwiseAnd(0x4321));
    assert_eq!(e.final_value(), 0x4101);
    assert_propagated(&e);
}

#[test]
fn or_xor_semantics() {
    let mut e = Expression::new();
    e.set_initial_value(0b1100);
    e.add_operation(Operation::BitwiseOr(0b0011));
    assert_eq!(e.final_value(), 0b1111);
    e.add_operation(Operation::BitwiseXor(0b0101));
    assert_eq!(e.final_value(), 0b1010);
}

#[test]
fn shift_left_and_right() {
    let mut e = Expression::new();
    e.set_initial_value(0x0081);
    e.add_operation(Operation::ShiftLeft(4));
    assert_eq!(e.final_value(), 0x0810);
    e.add_operation(Operation::ShiftRight(8));
    assert_eq!(e.final_value(), 0x0008);
}

#[test]
fn shift_right_is_arithmetic_on_negative_input() {
    let mut e = Expression::new();
    e.set_initial_value(-4);
    e.add_operation(Operation::ShiftRight(1));
    assert_eq!(e.final_value(), -2);
    let mut f = Expression::new();
    f.set_initial_value(i16::MIN);
    f.add_operation(Operation::ShiftRight(15));
    assert_eq!(f.final_value(), -1);
}

#[test]
fn shift_amount_is_masked_to_low_four_bits() {
    let mut e = Expression::new();
    e.set_initial_value(1);
    e.add_operation(Operation::ShiftLeft(16));
    assert_eq!(e.final_value(), 1);
    e.add_operation(Operation::ShiftLeft(17));
    assert_eq!(e.final_value(), 2);
}

#[test]
fn logical_not_and_double_not() {
    let mut e = Expression::new();
    e.set_initial_value(0);
    e.add_operation(Operation::LogicalNot);
    assert_eq!(e.final_value(), 1);
    let mut f = Expression::new();
    f.set_initial_value(-7);
    f.add_operation(Operation::LogicalNot);
    assert_eq!(f.final_value(), 0);
    let mut g = Expression::new();
    g.set_initial_value(-7);
    g.add_operation(Operation::LogicalDoubleNot);
    assert_eq!(g.final_value(), 1);
    let mut h = Expression::new();
    h.set_initial_value(0);
    h.add_operation(Operation::LogicalDoubleNot);
    assert_eq!(h.final_value(), 0);
}

#[test]
fn add_wraps_on_overflow() {
    let mut e = Expression::new();
    e.set_initial_value(i16::MAX);
    e.add_operation(Operation::Add(1));
    assert_eq!(e.final_value(), i16::MIN);
    let mut f = Expression::new();
    f.set_initial_value(i16::MIN);
    f.add_operation(Operation::Add(-1));
    assert_eq!(f.final_value(), i16::MAX);
}

#[test]
fn power_of_two_scenario_positive() {
    let mut e = Expression::new();
    e.set_initial_value(8);
    e.add_operation(Operation::Add(-1));
    assert_eq!(e.final_value(), 7);
    e.add_operation(Operation::BitwiseAnd(8));
    assert_eq!(e.final_value(), 0);
    e.add_operation(Operation::LogicalNot);
    assert_eq!(e.final_value(), 1);
    assert_propagated(&e);
}

#[test]
fn power_of_two_scenario_negative() {
    let mut e = Expression::new();
    e.set_initial_value(5);
    e.add_operation(Operation::Add(-1));
    assert_eq!(e.final_value(), 4);
    e.add_operation(Operation::BitwiseAnd(5));
    assert_eq!(e.final_value(), 4);
    e.add_operation(Operation::LogicalNot);
    assert_eq!(e.final_value(), 0);
    assert_propagated(&e);
}

#[test]
fn operand_snapshots_another_expressions_result() {
    let mut e = Expression::new();
    e.set_initial_value(5);
    e.add_operation(Operation::Add(-1));
    e.add_operation(Operation::BitwiseAnd(e.final_value()));
    e.add_operation(Operation::LogicalNot);
    assert_eq!(e.final_value(), 0);
    e.set_initial_value(8);
    assert_eq!(e.final_value(), 0);
    assert_propagated(&e);
}

#[test]
fn rhs_literal_resolves_to_itself() {
    let v: i16 = -123;
    assert_eq!(v.value(), -123);
}

#[test]
fn rhs_expression_resolves_to_live_final_value() {
    let mut e = Expression::new();
    assert_eq!(e.value(), 0);
    e.set_initial_value(9);
    e.add_operation(Operation::Add(1));
    assert_eq!(e.value(), 10);
    e.set_initial_value(1);
    assert_eq!(e.value(), 2);
}

#[test]
fn set_initial_value_repropagates_whole_chain() {
    let mut e = Expression::new();
    e.set_initial_value(0x1234);
    e.add_operation(Operation::BitwiseNot);
    e.add_operation(Operation::BitwiseAnd(0x4321));
    e.set_initial_value(0);
    assert_eq!(e.terms[0].initial_value, 0);
    assert_eq!(e.final_value(), 0x4321);
    assert_propagated(&e);
}

#[test]
fn set_initial_value_on_empty_creates_identity_term() {
    let mut e = Expression::new();
    e.set_initial_value(11);
    assert_eq!(e.terms.len(), 1);
    assert_eq!(e.terms[0].operation, Operation::Identity);
    assert_eq!(e.final_value(), 11);
}

#[test]
fn set_initial_value_is_idempotent() {
    let mut e = Expression::new();
    e.set_initial_value(6);
    e.add_operation(Operation::Add(3));
    e.set_initial_value(6);
    let snapshot = e.terms.clone();
    e.set_initial_value(6);
    assert_eq!(e.terms, snapshot);
}

#[test]
fn add_operation_on_empty_starts_from_zero() {
    let mut e = Expression::new();
    e.add_operation(Operation::Add(5));
    assert_eq!(e.terms.len(), 1);
    assert_eq!(e.terms[0].initial_value, 0);
    assert_eq!(e.final_value(), 5);
}

#[test]
fn add_operation_grows_by_exactly_one() {
    let mut e = Expression::new();
    e.set_initial_value(1);
    assert_eq!(e.terms.len(), 1);
    e.add_operation(Operation::Add(1));
    assert_eq!(e.terms.len(), 2);
    e.add_operation(Operation::BitwiseNot);
    assert_eq!(e.terms.len(), 3);
}

#[test]
fn change_operation_repropagates_downstream() {
    let mut e = Expression::new();
    e.set_initial_value(8);
    e.add_operation(Operation::Add(-1));
    e.add_operation(Operation::BitwiseAnd(8));
    e.add_operation(Operation::LogicalNot);
    e.change_operation(1, Operation::Add(0));
    assert_eq!(e.terms[1].result, 8);
    assert_eq!(e.terms[2].result, 8);
    assert_eq!(e.final_value(), 0);
    assert_propagated(&e);
}

#[test]
fn change_operation_out_of_range_is_a_no_op() {
    let mut e = Expression::new();
    e.set_initial_value(8);
    e.add_operation(Operation::Add(-1));
    e.add_operation(Operation::BitwiseAnd(8));
    let snapshot = e.terms.clone();
    e.change_operation(3, Operation::BitwiseNot);
    assert_eq!(e.terms, snapshot);
    e.change_operation(usize::MAX, Operation::Add(7));
    assert_eq!(e.terms, snapshot);
}

#[test]
fn change_operation_out_of_range_on_empty_is_a_no_op() {
    let mut e = Expression::new();
    e.change_operation(0, Operation::BitwiseNot);
    assert!(e.is_empty());
    assert_eq!(e.final_value(), 0);
}

#[test]
fn append_is_deterministic_on_identical_chains() {
    let mut a = Expression::new();
    let mut b = Expression::new();
    for e in [&mut a, &mut b] {
        e.set_initial_value(0x0F0F);
        e.add_operation(Operation::BitwiseXor(0x00FF));
    }
    assert_eq!(a.terms, b.terms);
    a.add_operation(Operation::ShiftRight(2));
    b.add_operation(Operation::ShiftRight(2));
    assert_eq!(a.terms, b.terms);
    assert_eq!(a.final_value(), b.final_value());
}
