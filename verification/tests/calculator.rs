use event_ticketing::calculator::{Calculator, Operation, OperationType};
use event_ticketing::shapes::Error;

#[test]
fn signs() {
    assert_eq!(OperationType::Addition.get_sign(), "+");
    assert_eq!(OperationType::Subtraction.get_sign(), "-");
    assert_eq!(OperationType::Multiplication.get_sign(), "*");
}

#[test]
fn perform_is_exact_or_nothing() {
    assert_eq!(OperationType::Addition.perform(5, 3), Some(8));
    assert_eq!(OperationType::Subtraction.perform(10, 2), Some(8));
    assert_eq!(OperationType::Multiplication.perform(-4, 6), Some(-24));
    assert_eq!(OperationType::Addition.perform(i64::MAX, 1), None);
    assert_eq!(OperationType::Addition.perform(i64::MIN, -1), None);
    assert_eq!(OperationType::Addition.perform(i64::MAX, i64::MIN), Some(-1));
    assert_eq!(OperationType::Subtraction.perform(i64::MIN, 1), None);
    assert_eq!(OperationType::Subtraction.perform(0, i64::MIN), None);
    assert_eq!(OperationType::Subtraction.perform(-1, i64::MIN), Some(i64::MAX));
    assert_eq!(OperationType::Multiplication.perform(i64::MIN, -1), None);
    assert_eq!(OperationType::Multiplication.perform(i64::MAX, 2), None);
    assert_eq!(OperationType::Multiplication.perform(i64::MIN, 1), Some(i64::MIN));
    assert_eq!(OperationType::Multiplication.perform(3037000500, 3037000500), None);
    assert_eq!(
        OperationType::Multiplication.perform(3037000499, 3037000499),
        Some(9223372030926249001)
    );
}

#[test]
fn new_operation_has_no_result() {
    let mut op = Operation::new(1, 2, OperationType::Subtraction);
    assert_eq!(
        op,
        Operation {
            first_num: 1,
            second_num: 2,
            operation_type: OperationType::Subtraction,
            result: None,
        }
    );
    op.set_result(Some(-1));
    assert_eq!(op.result, Some(-1));
    assert_eq!((op.first_num, op.second_num), (1, 2));
    op.set_result(None);
    assert_eq!(op.result, None);
}

#[test]
fn successful_operations_are_recorded() {
    let mut calculator = Calculator::new();
    assert!(calculator.history.is_empty());
    assert_eq!(calculator.addition(5, 3), Some(8));
    assert_eq!(calculator.subtraction(10, 2), Some(8));
    assert_eq!(calculator.multiplication(-7, 6), Some(-42));
    assert_eq!(
        calculator.history,
        vec![
            Operation {
                first_num: 5,
                second_num: 3,
                operation_type: OperationType::Addition,
                result: Some(8),
            },
            Operation {
                first_num: 10,
                second_num: 2,
                operation_type: OperationType::Subtraction,
                result: Some(8),
            },
            Operation {
                first_num: -7,
                second_num: 6,
                operation_type: OperationType::Multiplication,
                result: Some(-42),
            },
        ]
    );
}

#[test]
fn overflowing_operations_are_not_recorded() {
    let mut calculator = Calculator::new();
    assert_eq!(calculator.addition(i64::MAX, 1), None);
    assert_eq!(calculator.subtraction(i64::MIN, 1), None);
    assert_eq!(calculator.multiplication(i64::MAX, 2), None);
    assert!(calculator.history.is_empty());
    assert_eq!(calculator.show_history(), "");
}

#[test]
fn history_is_shown_line_by_line() {
    let mut calculator = Calculator::new();
    calculator.addition(5, 3);
    calculator.subtraction(10, 2);
    assert_eq!(calculator.show_history(), "0: 5 + 3 = 8\n1: 10 - 2 = 8\n");
    calculator.multiplication(-12, 10);
    calculator.addition(i64::MIN, 0);
    calculator.subtraction(i64::MAX, 0);
    assert_eq!(
        calculator.show_history(),
        "0: 5 + 3 = 8\n1: 10 - 2 = 8\n2: -12 * 10 = -120\n\
         3: -9223372036854775808 + 0 = -9223372036854775808\n\
         4: 9223372036854775807 - 0 = 9223372036854775807\n"
    );
}

#[test]
fn history_shows_an_entry_without_result() {
    let mut calculator = Calculator::new();
    calculator.history.push(Operation::new(1, 0, OperationType::Multiplication));
    assert_eq!(calculator.show_history(), "0: 1 * 0 = None\n");
}

#[test]
fn history_numbers_its_lines_in_decimal() {
    let mut calculator = Calculator::new();
    for i in 0..12 {
        assert_eq!(calculator.addition(i, 100), Some(i + 100));
    }
    let shown = calculator.show_history();
    let lines: Vec<&str> = shown.lines().collect();
    assert_eq!(lines.len(), 12);
    assert_eq!(lines[9], "9: 9 + 100 = 109");
    assert_eq!(lines[10], "10: 10 + 100 = 110");
    assert_eq!(lines[11], "11: 11 + 100 = 111");
    assert!(shown.ends_with('\n'));
}

#[test]
fn repeat_performs_an_entry_again() {
    let mut calculator = Calculator::new();
    calculator.addition(5, 3);
    calculator.multiplication(2, 4);
    assert_eq!(calculator.repeat(1), Some(8));
    assert_eq!(calculator.repeat(0), Some(8));
    assert_eq!(calculator.history.len(), 4);
    assert_eq!(calculator.history[2], calculator.history[1]);
    assert_eq!(calculator.history[3], calculator.history[0]);
    assert_eq!(calculator.repeat(4), None);
    assert_eq!(calculator.repeat(usize::MAX), None);
    assert_eq!(calculator.history.len(), 4);
    assert_eq!(
        calculator.show_history(),
        "0: 5 + 3 = 8\n1: 2 * 4 = 8\n2: 2 * 4 = 8\n3: 5 + 3 = 8\n"
    );
}

#[test]
fn repeat_on_an_empty_history() {
    let mut calculator = Calculator::new();
    assert_eq!(calculator.repeat(0), None);
    assert!(calculator.history.is_empty());
}

#[test]
fn repeat_of_an_entry_that_overflows() {
    let mut calculator = Calculator::new();
    calculator.history.push(Operation::new(i64::MAX, 1, OperationType::Addition));
    assert_eq!(calculator.repeat(0), None);
    assert_eq!(calculator.history.len(), 1);
}

#[test]
fn clear_history_empties_it() {
    let mut calculator = Calculator::new();
    calculator.addition(1, 1);
    calculator.clear_history();
    assert!(calculator.history.is_empty());
    assert_eq!(calculator.show_history(), "");
    assert_eq!(calculator.addition(2, 2), Some(4));
    assert_eq!(calculator.show_history(), "0: 2 + 2 = 4\n");
}

#[test]
fn shape_errors_are_told_apart() {
    assert_eq!(Error::InvalidWidth, Error::InvalidWidth);
    assert_ne!(Error::InvalidWidth, Error::InvalidHeight);
    assert_ne!(Error::InvalidHeight, Error::InvalidRadius);
    assert_eq!(format!("{:?}", Error::InvalidRadius), "InvalidRadius");
}
