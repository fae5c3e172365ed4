//! A calculator on 64-bit integers that refuses to overflow and keeps a
//! history of the operations that succeeded.
use vstd::prelude::*;
use vstd::string::StringExecFns;

verus! {

/// The kind of an operation.
#[derive(Clone, Copy, Debug, PartialEq, Eq)]
pub enum OperationType {
    Addition,
    Subtraction,
    Multiplication,
}

impl OperationType {
    /// The sign of the operation, as text.
    pub open spec fn sign(self) -> Seq<char> {
        match self {
            OperationType::Addition => seq!['+'],
            OperationType::Subtraction => seq!['-'],
            OperationType::Multiplication => seq!['*'],
        }
    }

    /// The exact result of the operation on `x` and `y`.
    pub open spec fn exact(self, x: int, y: int) -> int {
        match self {
            OperationType::Addition => x + y,
            OperationType::Subtraction => x - y,
            OperationType::Multiplication => x * y,
        }
    }

    /// The result of the operation on `x` and `y`, where it fits 64 bits.
    pub open spec fn checked(self, x: i64, y: i64) -> Option<i64> {
        let exact = self.exact(x as int, y as int);
        if i64::MIN <= exact <= i64::MAX {
            Some(exact as i64)
        } else {
            None
        }
    }

    /// The sign of the operation: `+`, `-` or `*`.
    pub fn get_sign(&self) -> (r: &str)
        ensures
            r@ == self.sign(),
    {
        proof {
            reveal_strlit("+");
            reveal_strlit("-");
            reveal_strlit("*");
        }
        let sign = match self {
            OperationType::Addition => "+",
            OperationType::Subtraction => "-",
            OperationType::Multiplication => "*",
        };
        assert(sign@ =~= self.sign());
        sign
    }

    /// Performs the operation on `x` and `y`; `None` where the exact result
    /// does not fit 64 bits.
    pub fn perform(&self, x: i64, y: i64) -> (r: Option<i64>)
        ensures
            r == self.checked(x, y),
    {
        match self {
            OperationType::Addition => x.checked_add(y),
            OperationType::Subtraction => x.checked_sub(y),
            OperationType::Multiplication => x.checked_mul(y),
        }
    }
}

/// An operation on two numbers, with its result once it is known.
#[derive(Clone, Copy, Debug, PartialEq, Eq)]
pub struct Operation {
    pub first_num: i64,
    pub second_num: i64,
    pub operation_type: OperationType,
    pub result: Option<i64>,
}

impl Operation {
    /// An operation whose result is not known yet.
    pub fn new(first_num: i64, second_num: i64, operation_type: OperationType) -> (r: Operation)
        ensures
            r == (Operation { first_num, second_num, operation_type, result: None }),
    {
        Operation { first_num, second_num, operation_type, result: None }
    }

    /// Records the result of the operation.
    pub fn set_result(&mut self, result: Option<i64>)
        ensures
            *final(self) == (Operation { result, ..*old(self) }),
    {
        self.result = result;
    }
}

/// The character of a decimal digit.
pub open spec fn digit(d: nat) -> char {
    if d == 0 {
        '0'
    } else if d == 1 {
        '1'
    } else if d == 2 {
        '2'
    } else if d == 3 {
        '3'
    } else if d == 4 {
        '4'
    } else if d == 5 {
        '5'
    } else if d == 6 {
        '6'
    } else if d == 7 {
        '7'
    } else if d == 8 {
        '8'
    } else {
        '9'
    }
}

/// The decimal digits of `n`, most significant first, without leading
/// zeros.
pub open spec fn digits(n: nat) -> Seq<char>
    decreases n,
{
    if n < 10 {
        seq![digit(n)]
    } else {
        digits(n / 10).push(digit(n % 10))
    }
}

/// `n` in decimal, with a minus sign in front where it is negative.
pub open spec fn decimal(n: int) -> Seq<char> {
    if n < 0 {
        seq!['-'] + digits((-n) as nat)
    } else {
        digits(n as nat)
    }
}

/// The text of a result: the number in decimal, or `None`.
pub open spec fn result_text(result: Option<i64>) -> Seq<char> {
    match result {
        Some(value) => decimal(value as int),
        None => seq!['N', 'o', 'n', 'e'],
    }
}

/// The line of the history for the operation at `index`: the index, a
/// colon, the operation written out, an equals sign, the result and a line
/// feed.
pub open spec fn line(index: nat, op: Operation) -> Seq<char> {
    digits(index) + seq![':', ' '] + decimal(op.first_num as int) + seq![' ']
        + op.operation_type.sign() + seq![' '] + decimal(op.second_num as int) + seq![
        ' ',
        '=',
        ' ',
    ] + result_text(op.result) + seq!['\n']
}

/// The lines of the first `upto` operations of `history`, one after the
/// other.
pub open spec fn listing(history: Seq<Operation>, upto: nat) -> Seq<char>
    decreases upto,
{
    if upto == 0 {
        Seq::empty()
    } else {
        listing(history, (upto - 1) as nat) + line((upto - 1) as nat, history[upto - 1])
    }
}

fn digit_text(d: u64) -> (r: &'static str)
    requires
        d < 10,
    ensures
        r@ == seq![digit(d as nat)],
{
    proof {
        reveal_strlit("0");
        reveal_strlit("1");
        reveal_strlit("2");
        reveal_strlit("3");
        reveal_strlit("4");
        reveal_strlit("5");
        reveal_strlit("6");
        reveal_strlit("7");
        reveal_strlit("8");
        reveal_strlit("9");
    }
    let text = if d == 0 {
        "0"
    } else if d == 1 {
        "1"
    } else if d == 2 {
        "2"
    } else if d == 3 {
        "3"
    } else if d == 4 {
        "4"
    } else if d == 5 {
        "5"
    } else if d == 6 {
        "6"
    } else if d == 7 {
        "7"
    } else if d == 8 {
        "8"
    } else {
        "9"
    };
    assert(text@ =~= seq![digit(d as nat)]);
    text
}

fn append_digits(text: &mut String, n: u64)
    ensures
        final(text)@ == old(text)@ + digits(n as nat),
    decreases n,
{
    if n >= 10 {
        append_digits(text, n / 10);
    }
    text.append(digit_text(n % 10));
    assert(text@ =~= old(text)@ + digits(n as nat));
}

fn append_decimal(text: &mut String, n: i64)
    ensures
        final(text)@ == old(text)@ + decimal(n as int),
{
    if n < 0 {
        proof {
            reveal_strlit("-");
        }
        text.append("-");
        let magnitude: u64 = if n == i64::MIN {
            9223372036854775808u64
        } else {
            (-n) as u64
        };
        append_digits(text, magnitude);
        assert(text@ =~= old(text)@ + decimal(n as int));
    } else {
        append_digits(text, n as u64);
    }
}

fn append_line(text: &mut String, index: usize, op: &Operation)
    ensures
        final(text)@ == old(text)@ + line(index as nat, *op),
{
    proof {
        reveal_strlit(": ");
        reveal_strlit(" ");
        reveal_strlit(" = ");
        reveal_strlit("None");
        reveal_strlit("\n");
    }
    append_digits(text, index as u64);
    text.append(": ");
    append_decimal(text, op.first_num);
    text.append(" ");
    text.append(op.operation_type.get_sign());
    text.append(" ");
    append_decimal(text, op.second_num);
    text.append(" = ");
    match op.result {
        Some(value) => append_decimal(text, value),
        None => text.append("None"),
    }
    text.append("\n");
    assert(text@ =~= old(text)@ + line(index as nat, *op));
}

/// A calculator with the history of its successful operations, oldest
/// first.
pub struct Calculator {
    pub history: Vec<Operation>,
}

impl Calculator {
    /// A calculator with an empty history.
    pub fn new() -> (r: Calculator)
        ensures
            r.history@ == Seq::<Operation>::empty(),
    {
        Calculator { history: Vec::new() }
    }

    /// The history after an operation of the given kind on `x` and `y`: the
    /// operation with its result is added where it succeeds, and nothing is
    /// where it overflows.
    pub open spec fn recorded(
        history: Seq<Operation>,
        kind: OperationType,
        x: i64,
        y: i64,
    ) -> Seq<Operation> {
        match kind.checked(x, y) {
            Some(value) => history.push(
                Operation {
                    first_num: x,
                    second_num: y,
                    operation_type: kind,
                    result: Some(value),
                },
            ),
            None => history,
        }
    }

    fn calculate(&mut self, kind: OperationType, x: i64, y: i64) -> (r: Option<i64>)
        ensures
            r == kind.checked(x, y),
            final(self).history@ == Self::recorded(old(self).history@, kind, x, y),
    {
        let mut op = Operation::new(x, y, kind);
        let res = op.operation_type.perform(x, y);
        if res.is_some() {
            op.set_result(res);
            self.history.push(op);
        }
        res
    }

    /// Adds `y` to `x`.  The sum is returned and the operation recorded,
    /// unless the sum overflows.
    pub fn addition(&mut self, x: i64, y: i64) -> (r: Option<i64>)
        ensures
            r == OperationType::Addition.checked(x, y),
            final(self).history@ == Self::recorded(
                old(self).history@,
                OperationType::Addition,
                x,
                y,
            ),
    {
        self.calculate(OperationType::Addition, x, y)
    }

    /// Subtracts `y` from `x`.  The difference is returned and the operation
    /// recorded, unless the difference overflows.
    pub fn subtraction(&mut self, x: i64, y: i64) -> (r: Option<i64>)
        ensures
            r == OperationType::Subtraction.checked(x, y),
            final(self).history@ == Self::recorded(
                old(self).history@,
                OperationType::Subtraction,
                x,
                y,
            ),
    {
        self.calculate(OperationType::Subtraction, x, y)
    }

    /// Multiplies `x` by `y`.  The product is returned and the operation
    /// recorded, unless the product overflows.
    pub fn multiplication(&mut self, x: i64, y: i64) -> (r: Option<i64>)
        ensures
            r == OperationType::Multiplication.checked(x, y),
            final(self).history@ == Self::recorded(
                old(self).history@,
                OperationType::Multiplication,
                x,
                y,
            ),
    {
        self.calculate(OperationType::Multiplication, x, y)
    }

    /// The history as text, one line to an operation, in the form
    /// `index: first sign second = result`.
    pub fn show_history(&self) -> (r: String)
        ensures
            r@ == listing(self.history@, self.history@.len()),
    {
        let mut text = String::new();
        let mut i: usize = 0;
        while i < self.history.len()
            invariant
                i <= self.history.len(),
                text@ == listing(self.history@, i as nat),
            decreases self.history.len() - i,
        {
            append_line(&mut text, i, &self.history[i]);
            i = i + 1;
        }
        text
    }

    /// The result of performing the entry at `index` of `history` once more;
    /// nothing where there is no such entry or the operation overflows.
    pub open spec fn repeated(history: Seq<Operation>, index: int) -> Option<i64> {
        if 0 <= index < history.len() {
            history[index].operation_type.checked(
                history[index].first_num,
                history[index].second_num,
            )
        } else {
            None
        }
    }

    /// Performs the operation at `operation_index` of the history once
    /// more.  Where the index is in the history and the operation succeeds,
    /// its result is returned and a copy of the entry is added to the
    /// history; otherwise `None` is returned and the history stays as it is.
    pub fn repeat(&mut self, operation_index: usize) -> (r: Option<i64>)
        ensures
            r == Self::repeated(old(self).history@, operation_index as int),
            final(self).history@ == (if r is Some {
                old(self).history@.push(old(self).history@[operation_index as int])
            } else {
                old(self).history@
            }),
    {
        if operation_index < self.history.len() {
            let op = self.history[operation_index];
            let res = op.operation_type.perform(op.first_num, op.second_num);
            if res.is_some() {
                self.history.push(op);
            }
            res
        } else {
            None
        }
    }

    /// Empties the history.
    pub fn clear_history(&mut self)
        ensures
            final(self).history@ == Seq::<Operation>::empty(),
    {
        self.history.clear();
    }
}

} // verus!
