use practice_tasks::math::{Operation, Task};

#[test]
fn test_exact_addition() {
    let task = Task::new(10, 5, Operation::PLUS);
    assert_eq!(task.exact_result(), Some(15));
}

#[test]
fn test_exact_subtraction() {
    let task = Task::new(10, 3, Operation::MINUS);
    assert_eq!(task.exact_result(), Some(7));
}

#[test]
fn test_exact_multiplication() {
    let task = Task::new(6, 7, Operation::MULTIPLY);
    assert_eq!(task.exact_result(), Some(42));
}

#[test]
fn test_exact_division_has_no_integer_result() {
    let task = Task::new(10, 2, Operation::DIVIDE);
    assert_eq!(task.exact_result(), None);
}

#[test]
fn test_exact_subtraction_underflow_rejected() {
    let task = Task::new(3, 10, Operation::MINUS);
    assert_eq!(task.exact_result(), None);
}

#[test]
fn test_exact_addition_overflow_rejected() {
    let task = Task::new(u64::MAX, 1, Operation::PLUS);
    assert_eq!(task.exact_result(), None);
}

#[test]
fn test_exact_multiplication_overflow_rejected() {
    let task = Task::new(u64::MAX, 2, Operation::MULTIPLY);
    assert_eq!(task.exact_result(), None);
}

#[test]
fn test_operation_round_trip() {
    let ops = vec![
        Operation::PLUS,
        Operation::MINUS,
        Operation::MULTIPLY,
        Operation::DIVIDE,
    ];
    for op in ops {
        let code = op.to_int();
        assert_eq!(Operation::from_int(code), Some(op));
    }
}

#[test]
fn test_operation_codes_are_stable() {
    assert_eq!(Operation::PLUS.to_int(), 0);
    assert_eq!(Operation::MINUS.to_int(), 1);
    assert_eq!(Operation::MULTIPLY.to_int(), 2);
    assert_eq!(Operation::DIVIDE.to_int(), 3);
}

#[test]
fn test_operation_from_unknown_int() {
    assert_eq!(Operation::from_int(4), None);
    assert_eq!(Operation::from_int(-1), None);
    assert_eq!(Operation::from_int(i32::MAX), None);
}
