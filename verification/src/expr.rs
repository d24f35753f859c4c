//! An evaluator of integer expressions: numbers, the operators `+ - * / ^`
//! and parentheses, read from text by precedence climbing.
//!
//! Arithmetic is exact: where a result does not fit in an `i32`, or a
//! division has no result, the computation is given up with an error.

use vstd::prelude::*;
use vstd::arithmetic::power::pow;
use vstd::string::*;
use crate::text::{
    char_is_numeric, char_is_whitespace, chars_of, is_numeric, is_whitespace, parse_i32,
    parse_i32_spec,
};

verus! {

/// An operator that groups from the left.
pub const ASSOC_LEFT: i32 = 0;

/// An operator that groups from the right.
pub const ASSOC_RIGHT: i32 = 1;

/// One token of an expression.
#[derive(Debug, Clone, Copy, PartialEq, Eq)]
pub enum Token {
    Number(i32),
    Plus,
    Minus,
    Multiply,
    Divide,
    Power,
    LeftParen,
    RightParen,
}

/// `base` to the power of `exponent`, where it fits in an `i32`.
pub open spec fn power_spec(base: i32, exponent: u32) -> Option<i32> {
    let value = pow(base as int, exponent as nat);
    if i32::MIN <= value <= i32::MAX {
        Some(value as i32)
    } else {
        None
    }
}

/// The token that a character stands for, where it is an operator or a bracket.
pub open spec fn operator_of(c: char) -> Option<Token> {
    if c == '+' {
        Some(Token::Plus)
    } else if c == '-' {
        Some(Token::Minus)
    } else if c == '*' {
        Some(Token::Multiply)
    } else if c == '/' {
        Some(Token::Divide)
    } else if c == '^' {
        Some(Token::Power)
    } else if c == '(' {
        Some(Token::LeftParen)
    } else if c == ')' {
        Some(Token::RightParen)
    } else {
        None
    }
}

impl Token {
    /// Whether the token is one of the five operators.
    pub open spec fn spec_is_operator(&self) -> bool {
        *self is Plus || *self is Minus || *self is Multiply || *self is Divide || *self is Power
    }

    /// How tightly the operator binds; 0 for a token that is no operator.
    pub open spec fn spec_precedence(&self) -> i32 {
        match *self {
            Token::Plus | Token::Minus => 1,
            Token::Multiply | Token::Divide => 2,
            Token::Power => 3,
            _ => 0,
        }
    }

    /// From which side the operator groups.
    pub open spec fn spec_assoc(&self) -> i32 {
        match *self {
            Token::Power => ASSOC_RIGHT,
            _ => ASSOC_LEFT,
        }
    }

    /// What the operator makes of two numbers: their sum, difference,
    /// product, quotient rounded towards zero, or power with the right
    /// operand taken as an unsigned number; `None` where that is no `i32`,
    /// for a division by zero and for a token that is no operator.
    pub open spec fn spec_compute(&self, l: i32, r: i32) -> Option<i32> {
        match *self {
            Token::Plus => l.checked_add(r),
            Token::Minus => l.checked_sub(r),
            Token::Multiply => l.checked_mul(r),
            Token::Divide => l.checked_div(r),
            Token::Power => power_spec(l, r as u32),
            _ => None,
        }
    }

    /// Whether the token is one of the five operators.
    #[verifier::when_used_as_spec(spec_is_operator)]
    pub fn is_operator(&self) -> (r: bool)
        ensures
            r == self.spec_is_operator(),
    {
        match self {
            Token::Plus | Token::Minus | Token::Multiply | Token::Divide | Token::Power => true,
            _ => false,
        }
    }

    /// How tightly the operator binds; 0 for a token that is no operator.
    #[verifier::when_used_as_spec(spec_precedence)]
    pub fn precedence(&self) -> (r: i32)
        ensures
            r == self.spec_precedence(),
            0 <= r <= 3,
    {
        match self {
            Token::Plus | Token::Minus => 1,
            Token::Multiply | Token::Divide => 2,
            Token::Power => 3,
            _ => 0,
        }
    }

    /// From which side the operator groups.
    #[verifier::when_used_as_spec(spec_assoc)]
    pub fn assoc(&self) -> (r: i32)
        ensures
            r == self.spec_assoc(),
    {
        match self {
            Token::Power => ASSOC_RIGHT,
            _ => ASSOC_LEFT,
        }
    }

    /// Applies the operator to two numbers.
    #[verifier::when_used_as_spec(spec_compute)]
    pub fn compute(&self, l: i32, r: i32) -> (result: Option<i32>)
        ensures
            result == self.spec_compute(l, r),
    {
        match self {
            Token::Plus => l.checked_add(r),
            Token::Minus => l.checked_sub(r),
            Token::Multiply => l.checked_mul(r),
            Token::Divide => l.checked_div(r),
            Token::Power => checked_power(l, r as u32),
            _ => None,
        }
    }
}

spec fn magnitude(x: int) -> int {
    if x < 0 {
        -x
    } else {
        x
    }
}

proof fn lemma_magnitude_of_product(a: int, b: int)
    ensures
        magnitude(a * b) == magnitude(a) * magnitude(b),
{
    assert(magnitude(a * b) == magnitude(a) * magnitude(b)) by (nonlinear_arith)
        requires
            magnitude(a) == (if a < 0 {
                -a
            } else {
                a
            }),
            magnitude(b) == (if b < 0 {
                -b
            } else {
                b
            }),
            magnitude(a * b) == (if a * b < 0 {
                -(a * b)
            } else {
                a * b
            }),
    ;
}

proof fn lemma_power_grows(base: int, low: nat, high: nat)
    requires
        magnitude(base) >= 2,
        low < high,
    ensures
        magnitude(pow(base, high)) >= 2 * magnitude(pow(base, low)),
    decreases high,
{
    let below = pow(base, (high - 1) as nat);
    assert(pow(base, high) == base * below) by {
        reveal(pow);
    }
    lemma_magnitude_of_product(base, below);
    assert(magnitude(base) * magnitude(below) >= 2 * magnitude(below)) by (nonlinear_arith)
        requires
            magnitude(base) >= 2,
            magnitude(below) >= 0,
    ;
    if high - 1 > low {
        lemma_power_grows(base, low, (high - 1) as nat);
    }
}

proof fn lemma_power_of_unit(base: int, exponent: nat)
    requires
        -1 <= base <= 1,
    ensures
        pow(base, exponent) == (if exponent == 0 {
            1
        } else if base == -1 {
            if exponent % 2 == 0 {
                1int
            } else {
                -1int
            }
        } else {
            base
        }),
    decreases exponent,
{
    if exponent == 0 {
        reveal(pow);
    } else {
        lemma_power_of_unit(base, (exponent - 1) as nat);
        let below = pow(base, (exponent - 1) as nat);
        assert(pow(base, exponent) == base * below) by {
            reveal(pow);
        }
        if base == 0 {
            assert(base * below == 0) by (nonlinear_arith)
                requires
                    base == 0,
            ;
        } else if base == 1 {
            assert(base * below == below) by (nonlinear_arith)
                requires
                    base == 1,
            ;
        } else {
            assert(base * below == -below) by (nonlinear_arith)
                requires
                    base == -1,
            ;
        }
    }
}

/// `base` to the power of `exponent`, where it fits in an `i32`.
pub fn checked_power(base: i32, exponent: u32) -> (result: Option<i32>)
    ensures
        result == power_spec(base, exponent),
{
    proof {
        if -1 <= base <= 1 {
            lemma_power_of_unit(base as int, exponent as nat);
        }
        assert(pow(base as int, 0) == 1) by {
            reveal(pow);
        }
    }
    if exponent == 0 {
        return Some(1);
    }
    if base == 0 || base == 1 {
        return Some(base);
    }
    if base == -1 {
        return Some(
            if exponent % 2 == 0 {
                1
            } else {
                -1
            },
        );
    }
    let mut value: i32 = 1;
    let mut done: u32 = 0;
    while done < exponent
        invariant
            done <= exponent,
            magnitude(base as int) >= 2,
            value == pow(base as int, done as nat),
        decreases exponent - done,
    {
        assert(pow(base as int, (done + 1) as nat) == base * pow(base as int, done as nat)) by {
            reveal(pow);
        }
        match value.checked_mul(base) {
            Some(next) => {
                assert(value * base == base * value) by (nonlinear_arith);
                value = next;
            },
            None => {
                proof {
                    assert(value * base == base * value) by (nonlinear_arith);
                    let reached = pow(base as int, (done + 1) as nat);
                    assert(magnitude(reached) >= 0x8000_0000);
                    if done + 1 < exponent {
                        lemma_power_grows(base as int, (done + 1) as nat, exponent as nat);
                    }
                }
                return None;
            },
        }
        done += 1;
    }
    Some(value)
}

/// The position behind the whitespace that starts at `pos`.
pub open spec fn after_whitespace(s: Seq<char>, pos: int) -> int
    decreases s.len() - pos,
{
    if 0 <= pos < s.len() && is_whitespace(s[pos]) {
        after_whitespace(s, pos + 1)
    } else {
        pos
    }
}

/// The position behind the numeric characters that start at `pos`.
pub open spec fn after_numeric(s: Seq<char>, pos: int) -> int
    decreases s.len() - pos,
{
    if 0 <= pos < s.len() && is_numeric(s[pos]) {
        after_numeric(s, pos + 1)
    } else {
        pos
    }
}

/// A scan at a position: the token that was found, if any, and the position
/// behind what was read.
pub type Scan = (Option<Token>, int);

/// The scan of a number at `pos`: the numeric characters from there on are
/// read in any case; they are a token where they are the decimal digits of
/// an `i32`.
pub open spec fn scan_number_spec(s: Seq<char>, pos: int) -> Scan {
    let end = after_numeric(s, pos);
    (
        match parse_i32_spec(s.subrange(pos, end)) {
            Some(n) => Some(Token::Number(n)),
            None => None,
        },
        end,
    )
}

/// The scan of an operator or a bracket at `pos`: one character is read,
/// where there is one.
pub open spec fn scan_operator_spec(s: Seq<char>, pos: int) -> Scan {
    if 0 <= pos < s.len() {
        (operator_of(s[pos]), pos + 1)
    } else {
        (None, pos)
    }
}

/// The scan of the next token at `pos`: whitespace is passed over, then a
/// number is tried, then an operator.
pub open spec fn next_token(s: Seq<char>, pos: int) -> Scan {
    let number = scan_number_spec(s, after_whitespace(s, pos));
    if number.0 is Some {
        number
    } else {
        scan_operator_spec(s, number.1)
    }
}

proof fn lemma_after_whitespace_bounds(s: Seq<char>, pos: int)
    requires
        0 <= pos <= s.len(),
    ensures
        pos <= after_whitespace(s, pos) <= s.len(),
    decreases s.len() - pos,
{
    if pos < s.len() && is_whitespace(s[pos]) {
        lemma_after_whitespace_bounds(s, pos + 1);
    }
}

proof fn lemma_after_numeric_bounds(s: Seq<char>, pos: int)
    requires
        0 <= pos <= s.len(),
    ensures
        pos <= after_numeric(s, pos) <= s.len(),
    decreases s.len() - pos,
{
    if pos < s.len() && is_numeric(s[pos]) {
        lemma_after_numeric_bounds(s, pos + 1);
    }
}

/// A scan never goes back and never leaves the text, and a token is found
/// only where something was read.
pub proof fn lemma_next_token_advances(s: Seq<char>, pos: int)
    requires
        0 <= pos <= s.len(),
    ensures
        pos <= next_token(s, pos).1 <= s.len(),
        next_token(s, pos).0 is Some ==> pos < next_token(s, pos).1,
{
    lemma_after_whitespace_bounds(s, pos);
    let start = after_whitespace(s, pos);
    lemma_after_numeric_bounds(s, start);
    let end = after_numeric(s, start);
    if start == end {
        assert(s.subrange(start, end).len() == 0);
    }
}

/// Cuts a text into tokens, one at a time.
pub struct Tokenizer {
    chars: Vec<char>,
    pos: usize,
}

impl Tokenizer {
    #[verifier::type_invariant]
    spec fn within(&self) -> bool {
        self.pos <= self.chars@.len()
    }

    /// The text that is being read.
    pub closed spec fn text(&self) -> Seq<char> {
        self.chars@
    }

    /// How many characters of the text have been read.
    pub closed spec fn position(&self) -> int {
        self.pos as int
    }

    /// A tokenizer at the start of a text.
    pub fn new(expr: &str) -> (tokenizer: Tokenizer)
        ensures
            tokenizer.text() == expr@,
            tokenizer.position() == 0,
    {
        Tokenizer { chars: chars_of(expr), pos: 0 }
    }

    /// Says that the position lies inside the text.
    pub(crate) fn check_position(&self)
        ensures
            0 <= self.position() <= self.text().len(),
    {
        proof {
            use_type_invariant(self);
        }
    }

    /// Passes over whitespace.
    pub fn trim_start(&mut self)
        ensures
            final(self).text() == old(self).text(),
            final(self).position() == after_whitespace(old(self).text(), old(self).position()),
    {
        proof {
            use_type_invariant(&*self);
        }
        while self.pos < self.chars.len() && char_is_whitespace(self.chars[self.pos])
            invariant
                self.pos <= self.chars@.len(),
                self.chars@ == old(self).chars@,
                after_whitespace(self.chars@, self.pos as int) == after_whitespace(
                    old(self).chars@,
                    old(self).pos as int,
                ),
            decreases self.chars@.len() - self.pos,
        {
            self.pos += 1;
        }
    }

    /// Reads the numeric characters at the position. They are a token where
    /// they are the decimal digits of an `i32`.
    pub fn scan_number(&mut self) -> (token: Option<Token>)
        ensures
            final(self).text() == old(self).text(),
            (token, final(self).position()) == scan_number_spec(
                old(self).text(),
                old(self).position(),
            ),
    {
        proof {
            use_type_invariant(&*self);
        }
        let start = self.pos;
        while self.pos < self.chars.len() && char_is_numeric(self.chars[self.pos])
            invariant
                start <= self.pos <= self.chars@.len(),
                self.chars@ == old(self).chars@,
                after_numeric(self.chars@, self.pos as int) == after_numeric(
                    old(self).chars@,
                    start as int,
                ),
            decreases self.chars@.len() - self.pos,
        {
            self.pos += 1;
        }
        let run = vstd::slice::slice_subrange(self.chars.as_slice(), start, self.pos);
        match parse_i32(run) {
            Some(n) => Some(Token::Number(n)),
            None => None,
        }
    }

    /// Reads one character, where there is one. It is a token where it is
    /// an operator or a bracket.
    pub fn scan_operator(&mut self) -> (token: Option<Token>)
        ensures
            final(self).text() == old(self).text(),
            (token, final(self).position()) == scan_operator_spec(
                old(self).text(),
                old(self).position(),
            ),
    {
        proof {
            use_type_invariant(&*self);
        }
        if self.pos >= self.chars.len() {
            return None;
        }
        let c = self.chars[self.pos];
        self.pos += 1;
        if c == '+' {
            Some(Token::Plus)
        } else if c == '-' {
            Some(Token::Minus)
        } else if c == '*' {
            Some(Token::Multiply)
        } else if c == '/' {
            Some(Token::Divide)
        } else if c == '^' {
            Some(Token::Power)
        } else if c == '(' {
            Some(Token::LeftParen)
        } else if c == ')' {
            Some(Token::RightParen)
        } else {
            None
        }
    }

    /// Reads the next token: passes over whitespace, then tries a number,
    /// then an operator. `None` where neither is found; what was read by then
    /// stays read.
    pub fn next(&mut self) -> (token: Option<Token>)
        ensures
            final(self).text() == old(self).text(),
            (token, final(self).position()) == next_token(old(self).text(), old(self).position()),
    {
        self.trim_start();
        match self.scan_number() {
            Some(number) => Some(number),
            None => self.scan_operator(),
        }
    }
}

/// Why an evaluation was given up.
#[derive(Debug, Clone, PartialEq, Eq)]
pub enum ExprError {
    /// The text is no expression, or a computation has no result. The
    /// message says which.
    Parse(String),
}

impl ExprError {
    /// The message of the error.
    pub open spec fn message(&self) -> Seq<char> {
        match *self {
            ExprError::Parse(text) => text@,
        }
    }

    /// The message of the error.
    pub fn to_string(&self) -> (text: String)
        ensures
            text@ == self.message(),
    {
        match self {
            ExprError::Parse(text) => text.clone(),
        }
    }
}

/// The ways in which an evaluation is given up.
pub enum Fault {
    /// A number or an opening bracket was expected.
    NoAtom,
    /// A closing bracket was expected.
    Unclosed,
    /// A computation has no result.
    Compute,
}

/// The message that goes with a fault.
pub open spec fn fault_message(fault: Fault) -> Seq<char> {
    match fault {
        Fault::NoAtom => "compute_atom"@,
        Fault::Unclosed => "Unexpected character"@,
        Fault::Compute => "compute Error"@,
    }
}

/// The value of an evaluation, or the fault that ended it.
pub type Outcome = Result<i32, Fault>;

/// A result says the same as an outcome.
pub open spec fn agrees(result: Result<i32, ExprError>, outcome: Outcome) -> bool {
    match (result, outcome) {
        (Ok(value), Ok(expected)) => value == expected,
        (Err(error), Err(fault)) => error.message() == fault_message(fault),
        _ => false,
    }
}

/// The state of an evaluation: the text, how much of it has been read, and the
/// token that was looked at but not taken yet. A look that found no token is
/// kept as well: the next token that is taken is then none.
pub struct ExprState {
    pub text: Seq<char>,
    pub pos: int,
    pub peeked: Option<Option<Token>>,
}

/// The position lies inside the text.
pub open spec fn state_within(st: ExprState) -> bool {
    0 <= st.pos <= st.text.len()
}

/// A bound on the tokens that are still to be taken.
pub open spec fn measure(st: ExprState) -> nat {
    let unread = if st.pos <= st.text.len() {
        2 * (st.text.len() - st.pos)
    } else {
        0
    };
    let held: int = if st.peeked matches Some(Some(_)) {
        1
    } else {
        0
    };
    (unread + held) as nat
}

/// Looks at the next token without taking it.
pub open spec fn peek_state(st: ExprState) -> (Option<Token>, ExprState) {
    match st.peeked {
        Some(token) => (token, st),
        None => {
            let scan = next_token(st.text, st.pos);
            (scan.0, ExprState { text: st.text, pos: scan.1, peeked: Some(scan.0) })
        },
    }
}

/// Takes the next token.
pub open spec fn take_state(st: ExprState) -> (Option<Token>, ExprState) {
    match st.peeked {
        Some(token) => (token, ExprState { text: st.text, pos: st.pos, peeked: None }),
        None => {
            let scan = next_token(st.text, st.pos);
            (scan.0, ExprState { text: st.text, pos: scan.1, peeked: None })
        },
    }
}

/// The precedence that the right operand of an operator is read with: one
/// more than the operator's own where it groups from the left.
pub open spec fn operand_precedence(op: Token) -> i32 {
    if op.spec_assoc() == ASSOC_LEFT {
        (op.spec_precedence() + 1) as i32
    } else {
        op.spec_precedence()
    }
}

/// Evaluates an atom: a number, or an expression between brackets.
pub open spec fn atom_spec(st: ExprState) -> (Outcome, ExprState)
    decreases measure(st), 0nat,
{
    let (token, seen) = peek_state(st);
    match token {
        Some(Token::Number(n)) => (Ok(n), take_state(seen).1),
        Some(Token::LeftParen) => {
            let inside = take_state(seen).1;
            if measure(inside) < measure(st) {
                let (value, after) = expr_spec(inside, 1);
                match value {
                    Err(fault) => (Err(fault), after),
                    Ok(v) => {
                        let (closing, end) = take_state(after);
                        match closing {
                            Some(Token::RightParen) => (Ok(v), end),
                            _ => (Err(Fault::Unclosed), end),
                        }
                    },
                }
            } else {
                (Err(Fault::NoAtom), inside)
            }
        },
        _ => (Err(Fault::NoAtom), seen),
    }
}

/// Goes on from a left operand: as long as an operator follows that binds
/// at least as tightly as `min_prec`, its right operand is evaluated and the
/// operator applied.
pub open spec fn climb_spec(st: ExprState, lhs: i32, min_prec: i32) -> (Outcome, ExprState)
    decreases measure(st), 1nat,
{
    let (token, seen) = peek_state(st);
    match token {
        None => (Ok(lhs), seen),
        Some(op) => if !op.spec_is_operator() || op.spec_precedence() < min_prec {
            (Ok(lhs), seen)
        } else {
            let taken = take_state(seen).1;
            if measure(taken) < measure(st) {
                let (right, after) = expr_spec(taken, operand_precedence(op));
                match right {
                    Err(fault) => (Err(fault), after),
                    Ok(rhs) => match op.spec_compute(lhs, rhs) {
                        Some(value) => if measure(after) < measure(st) {
                            climb_spec(after, value, min_prec)
                        } else {
                            (Ok(value), after)
                        },
                        None => (Err(Fault::Compute), after),
                    },
                }
            } else {
                (Ok(lhs), taken)
            }
        },
    }
}

/// Evaluates an expression whose operators bind at least as tightly as
/// `min_prec`.
pub open spec fn expr_spec(st: ExprState, min_prec: i32) -> (Outcome, ExprState)
    decreases measure(st), 2nat,
{
    let (first, after) = atom_spec(st);
    match first {
        Err(fault) => (Err(fault), after),
        Ok(lhs) => if measure(after) <= measure(st) {
            climb_spec(after, lhs, min_prec)
        } else {
            (Ok(lhs), after)
        },
    }
}

/// The value of the expression that a text holds.
pub open spec fn value_of(text: Seq<char>) -> Outcome {
    expr_spec(ExprState { text, pos: 0, peeked: None }, 1).0
}

proof fn lemma_peek_state(st: ExprState)
    requires
        state_within(st),
    ensures
        state_within(peek_state(st).1),
        peek_state(st).1.text == st.text,
        peek_state(st).1.peeked == Some(peek_state(st).0),
        measure(peek_state(st).1) <= measure(st),
{
    lemma_next_token_advances(st.text, st.pos);
}

proof fn lemma_take_state(st: ExprState)
    requires
        state_within(st),
    ensures
        state_within(take_state(st).1),
        take_state(st).1.text == st.text,
        take_state(st).1.peeked is None,
        measure(take_state(st).1) <= measure(st),
        take_state(st).0 is Some ==> measure(take_state(st).1) < measure(st),
{
    lemma_next_token_advances(st.text, st.pos);
}

/// Evaluates an expression that is read from a text.
pub struct Expr {
    iter: Tokenizer,
    peeked: Option<Option<Token>>,
}

impl Expr {
    /// The state of the evaluation.
    pub closed spec fn state(&self) -> ExprState {
        ExprState { text: self.iter.text(), pos: self.iter.position(), peeked: self.peeked }
    }

    /// An evaluation at the start of a text.
    pub fn new(src: &str) -> (expr: Expr)
        ensures
            expr.state() == (ExprState { text: src@, pos: 0, peeked: None }),
    {
        Expr { iter: Tokenizer::new(src), peeked: None }
    }

    fn peek(&mut self) -> (token: Option<Token>)
        ensures
            (token, final(self).state()) == peek_state(old(self).state()),
            state_within(old(self).state()),
            state_within(final(self).state()),
            measure(final(self).state()) <= measure(old(self).state()),
    {
        self.iter.check_position();
        proof {
            lemma_peek_state(self.state());
        }
        match self.peeked {
            Some(token) => token,
            None => {
                let token = self.iter.next();
                self.peeked = Some(token);
                token
            },
        }
    }

    fn take(&mut self) -> (token: Option<Token>)
        ensures
            (token, final(self).state()) == take_state(old(self).state()),
            state_within(old(self).state()),
            state_within(final(self).state()),
            measure(final(self).state()) <= measure(old(self).state()),
            token is Some ==> measure(final(self).state()) < measure(old(self).state()),
    {
        self.iter.check_position();
        proof {
            lemma_take_state(self.state());
        }
        match self.peeked {
            Some(token) => {
                self.peeked = None;
                token
            },
            None => self.iter.next(),
        }
    }

    /// Evaluates the expression that the text holds from the position on.
    pub fn eval(&mut self) -> (result: Result<i32, ExprError>)
        ensures
            agrees(result, expr_spec(old(self).state(), 1).0),
            final(self).state() == expr_spec(old(self).state(), 1).1,
    {
        self.compute_expr(1)
    }

    /// Evaluates an atom: a number, or an expression between brackets.
    pub fn compute_atom(&mut self) -> (result: Result<i32, ExprError>)
        ensures
            agrees(result, atom_spec(old(self).state()).0),
            final(self).state() == atom_spec(old(self).state()).1,
            state_within(final(self).state()),
            measure(final(self).state()) <= measure(old(self).state()),
        decreases measure(old(self).state()), 0nat,
    {
        match self.peek() {
            Some(Token::Number(n)) => {
                self.take();
                Ok(n)
            },
            Some(Token::LeftParen) => {
                self.take();
                let value = self.compute_expr(1);
                match value {
                    Err(error) => Err(error),
                    Ok(v) => match self.take() {
                        Some(Token::RightParen) => Ok(v),
                        _ => Err(ExprError::Parse(String::from_str("Unexpected character"))),
                    },
                }
            },
            _ => Err(ExprError::Parse(String::from_str("compute_atom"))),
        }
    }

    /// Evaluates an expression whose operators bind at least as tightly as
    /// `min_prec`.
    pub fn compute_expr(&mut self, min_prec: i32) -> (result: Result<i32, ExprError>)
        ensures
            agrees(result, expr_spec(old(self).state(), min_prec).0),
            final(self).state() == expr_spec(old(self).state(), min_prec).1,
            state_within(final(self).state()),
            measure(final(self).state()) <= measure(old(self).state()),
        decreases measure(old(self).state()), 2nat,
    {
        let ghost start = self.state();
        let mut atom_lhs = match self.compute_atom() {
            Ok(value) => value,
            Err(error) => {
                return Err(error);
            },
        };
        let ghost goal = climb_spec(self.state(), atom_lhs, min_prec);
        loop
            invariant
                state_within(self.state()),
                measure(self.state()) <= measure(start),
                climb_spec(self.state(), atom_lhs, min_prec) == goal,
                goal == expr_spec(start, min_prec),
                start == old(self).state(),
            ensures
                state_within(self.state()),
                measure(self.state()) <= measure(start),
                goal == (Ok::<i32, Fault>(atom_lhs), self.state()),
            decreases measure(self.state()),
        {
            let token = match self.peek() {
                Some(t) => t,
                None => {
                    break ;
                },
            };
            if !token.is_operator() || token.precedence() < min_prec {
                break ;
            }
            let mut next_prec = token.precedence();
            if token.assoc() == ASSOC_LEFT {
                next_prec += 1;
            }
            self.take();
            let atom_rhs = match self.compute_expr(next_prec) {
                Ok(value) => value,
                Err(error) => {
                    return Err(error);
                },
            };
            match token.compute(atom_lhs, atom_rhs) {
                Some(n) => {
                    atom_lhs = n;
                },
                None => {
                    return Err(ExprError::Parse(String::from_str("compute Error")));
                },
            }
        }
        Ok(atom_lhs)
    }
}

/// An atom is evaluated by going forward in the text: what is left to read
/// never grows, and it shrinks where the atom has a value. So the bound that
/// `atom_spec` asks of the state inside a bracket always holds.
pub proof fn lemma_atom_goes_forward(st: ExprState)
    requires
        state_within(st),
    ensures
        state_within(atom_spec(st).1),
        atom_spec(st).1.text == st.text,
        measure(atom_spec(st).1) <= measure(st),
        atom_spec(st).0 is Ok ==> measure(atom_spec(st).1) < measure(st),
    decreases measure(st), 0nat,
{
    lemma_peek_state(st);
    let (token, seen) = peek_state(st);
    lemma_take_state(seen);
    match token {
        Some(Token::LeftParen) => {
            let inside = take_state(seen).1;
            lemma_expr_goes_forward(inside, 1);
            lemma_take_state(expr_spec(inside, 1).1);
        },
        _ => {},
    }
}

/// An operand chain is evaluated by going forward in the text. So the bounds
/// that `climb_spec` asks of the states behind an operator and behind its
/// right operand always hold.
pub proof fn lemma_climb_goes_forward(st: ExprState, lhs: i32, min_prec: i32)
    requires
        state_within(st),
    ensures
        state_within(climb_spec(st, lhs, min_prec).1),
        climb_spec(st, lhs, min_prec).1.text == st.text,
        measure(climb_spec(st, lhs, min_prec).1) <= measure(st),
    decreases measure(st), 1nat,
{
    lemma_peek_state(st);
    let (token, seen) = peek_state(st);
    match token {
        None => {},
        Some(op) => {
            if op.spec_is_operator() && op.spec_precedence() >= min_prec {
                lemma_take_state(seen);
                let taken = take_state(seen).1;
                lemma_expr_goes_forward(taken, operand_precedence(op));
                let (right, after) = expr_spec(taken, operand_precedence(op));
                match right {
                    Ok(rhs) => match op.spec_compute(lhs, rhs) {
                        Some(value) => {
                            lemma_climb_goes_forward(after, value, min_prec);
                        },
                        None => {},
                    },
                    Err(_) => {},
                }
            }
        },
    }
}

/// An expression is evaluated by going forward in the text. So the bound that
/// `expr_spec` asks of the state behind its first atom always holds.
pub proof fn lemma_expr_goes_forward(st: ExprState, min_prec: i32)
    requires
        state_within(st),
    ensures
        state_within(expr_spec(st, min_prec).1),
        expr_spec(st, min_prec).1.text == st.text,
        measure(expr_spec(st, min_prec).1) <= measure(st),
        expr_spec(st, min_prec).0 is Ok ==> measure(expr_spec(st, min_prec).1) < measure(st),
    decreases measure(st), 2nat,
{
    lemma_atom_goes_forward(st);
    let (first, after) = atom_spec(st);
    match first {
        Ok(lhs) => {
            lemma_climb_goes_forward(after, lhs, min_prec);
        },
        Err(_) => {},
    }
}

/// A text that holds nothing but one number has that number as its value.
pub proof fn lemma_value_of_number(text: Seq<char>, n: i32)
    requires
        next_token(text, 0) == (Some(Token::Number(n)), text.len() as int),
    ensures
        value_of(text) == Ok::<i32, Fault>(n),
{
    let st = ExprState { text, pos: 0, peeked: None };
    let held = peek_state(st).1;
    let taken = take_state(held).1;
    assert(taken == (ExprState { text, pos: text.len() as int, peeked: None }));
    assert(atom_spec(st) == (Ok::<i32, Fault>(n), taken));
    assert(next_token(text, text.len() as int).0 is None) by {
        assert(after_whitespace(text, text.len() as int) == text.len());
        assert(after_numeric(text, text.len() as int) == text.len());
        assert(text.subrange(text.len() as int, text.len() as int).len() == 0);
    }
    assert(measure(taken) <= measure(st));
    assert(climb_spec(taken, n, 1).0 == Ok::<i32, Fault>(n));
}

/// What an operator makes of the outcomes of its operands: the first fault
/// among them, or the result of the computation, or the fault that the
/// computation has none.
pub open spec fn applied(op: Token, left: Outcome, right: Outcome) -> Outcome {
    match (left, right) {
        (Ok(l), Ok(r)) => match op.spec_compute(l, r) {
            Some(value) => Ok(value),
            None => Err(Fault::Compute),
        },
        (Err(fault), _) => Err(fault),
        (_, Err(fault)) => Err(fault),
    }
}

/// A text that holds nothing but two numbers with an operator between them
/// has as its value what the operator makes of the two numbers.
pub proof fn lemma_value_of_operation(text: Seq<char>, a: i32, op: Token, b: i32, p1: int, p2: int, p3: int)
    requires
        op.spec_is_operator(),
        next_token(text, 0) == (Some(Token::Number(a)), p1),
        next_token(text, p1) == (Some(op), p2),
        next_token(text, p2) == (Some(Token::Number(b)), p3),
        next_token(text, p3).0 is None,
    ensures
        value_of(text) == applied(op, Ok(a), Ok(b)),
{
    lemma_next_token_advances(text, 0);
    lemma_next_token_advances(text, p1);
    lemma_next_token_advances(text, p2);
    lemma_next_token_advances(text, p3);
    let p4 = next_token(text, p3).1;
    let st0 = ExprState { text, pos: 0, peeked: None };
    let s1 = ExprState { text, pos: p1, peeked: None };
    let s2 = ExprState { text, pos: p2, peeked: None };
    let s3 = ExprState { text, pos: p3, peeked: None };
    let end = ExprState { text, pos: p4, peeked: Some(None) };
    assert(take_state(peek_state(st0).1).1 == s1);
    assert(atom_spec(st0) == (Ok::<i32, Fault>(a), s1));
    assert(take_state(peek_state(s1).1).1 == s2);
    assert(take_state(peek_state(s2).1).1 == s3);
    assert(atom_spec(s2) == (Ok::<i32, Fault>(b), s3));
    assert(peek_state(s3) == (None::<Token>, end));
    assert(climb_spec(s3, b, operand_precedence(op)) == (Ok::<i32, Fault>(b), end));
    assert(expr_spec(s2, operand_precedence(op)) == (Ok::<i32, Fault>(b), end));
    assert(peek_state(end) == (None::<Token>, end));
    assert(measure(s2) < measure(s1));
    assert(measure(end) < measure(s1));
    match op.spec_compute(a, b) {
        Some(value) => {
            assert(climb_spec(end, value, 1) == (Ok::<i32, Fault>(value), end));
            assert(climb_spec(s1, a, 1) == (Ok::<i32, Fault>(value), end));
        },
        None => {
            assert(climb_spec(s1, a, 1) == (Err::<i32, Fault>(Fault::Compute), end));
        },
    }
}

/// A text that holds nothing but three numbers with two operators between
/// them is evaluated by precedence and grouping: where the second operator
/// binds more tightly than the first, or as tightly and the first groups from
/// the right, the second is applied first; else the first is.
pub proof fn lemma_value_of_two_operations(
    text: Seq<char>,
    a: i32,
    first: Token,
    b: i32,
    second: Token,
    c: i32,
    p: Seq<int>,
)
    requires
        first.spec_is_operator(),
        second.spec_is_operator(),
        p.len() == 6,
        p[0] == 0,
        next_token(text, p[0]) == (Some(Token::Number(a)), p[1]),
        next_token(text, p[1]) == (Some(first), p[2]),
        next_token(text, p[2]) == (Some(Token::Number(b)), p[3]),
        next_token(text, p[3]) == (Some(second), p[4]),
        next_token(text, p[4]) == (Some(Token::Number(c)), p[5]),
        next_token(text, p[5]).0 is None,
    ensures
        value_of(text) == (if second.spec_precedence() >= operand_precedence(first) {
            applied(first, Ok(a), applied(second, Ok(b), Ok(c)))
        } else {
            applied(second, applied(first, Ok(a), Ok(b)), Ok(c))
        }),
{
    lemma_next_token_advances(text, p[0]);
    lemma_next_token_advances(text, p[1]);
    lemma_next_token_advances(text, p[2]);
    lemma_next_token_advances(text, p[3]);
    lemma_next_token_advances(text, p[4]);
    lemma_next_token_advances(text, p[5]);
    let last = next_token(text, p[5]).1;
    let st0 = ExprState { text, pos: 0, peeked: None };
    let s1 = ExprState { text, pos: p[1], peeked: None };
    let s2 = ExprState { text, pos: p[2], peeked: None };
    let s3 = ExprState { text, pos: p[3], peeked: None };
    let held = ExprState { text, pos: p[4], peeked: Some(Some(second)) };
    let s4 = ExprState { text, pos: p[4], peeked: None };
    let s5 = ExprState { text, pos: p[5], peeked: None };
    let end = ExprState { text, pos: last, peeked: Some(None) };
    let q1 = operand_precedence(first);
    let q2 = operand_precedence(second);

    assert(take_state(peek_state(st0).1).1 == s1);
    assert(atom_spec(st0) == (Ok::<i32, Fault>(a), s1));
    assert(take_state(peek_state(s1).1).1 == s2);
    assert(take_state(peek_state(s2).1).1 == s3);
    assert(atom_spec(s2) == (Ok::<i32, Fault>(b), s3));
    assert(peek_state(s3) == (Some(second), held));
    assert(peek_state(held) == (Some(second), held));
    assert(take_state(held).1 == s4);
    assert(take_state(peek_state(s4).1).1 == s5);
    assert(atom_spec(s4) == (Ok::<i32, Fault>(c), s5));
    assert(peek_state(s5) == (None::<Token>, end));
    assert(peek_state(end) == (None::<Token>, end));
    assert(climb_spec(s5, c, q2) == (Ok::<i32, Fault>(c), end));
    assert(expr_spec(s4, q2) == (Ok::<i32, Fault>(c), end));
    assert(measure(end) < measure(s4) < measure(held) <= measure(s3) < measure(s2) < measure(s1));

    if second.spec_precedence() >= q1 {
        match second.spec_compute(b, c) {
            Some(inner) => {
                assert(climb_spec(end, inner, q1) == (Ok::<i32, Fault>(inner), end));
                assert(climb_spec(s3, b, q1) == (Ok::<i32, Fault>(inner), end));
                assert(expr_spec(s2, q1) == (Ok::<i32, Fault>(inner), end));
                match first.spec_compute(a, inner) {
                    Some(value) => {
                        assert(climb_spec(end, value, 1) == (Ok::<i32, Fault>(value), end));
                        assert(climb_spec(s1, a, 1) == (Ok::<i32, Fault>(value), end));
                    },
                    None => {
                        assert(climb_spec(s1, a, 1) == (Err::<i32, Fault>(Fault::Compute), end));
                    },
                }
            },
            None => {
                assert(climb_spec(s3, b, q1) == (Err::<i32, Fault>(Fault::Compute), end));
                assert(expr_spec(s2, q1) == (Err::<i32, Fault>(Fault::Compute), end));
                assert(climb_spec(s1, a, 1) == (Err::<i32, Fault>(Fault::Compute), end));
            },
        }
    } else {
        assert(climb_spec(s3, b, q1) == (Ok::<i32, Fault>(b), held));
        assert(expr_spec(s2, q1) == (Ok::<i32, Fault>(b), held));
        match first.spec_compute(a, b) {
            Some(inner) => {
                match second.spec_compute(inner, c) {
                    Some(value) => {
                        assert(climb_spec(end, value, 1) == (Ok::<i32, Fault>(value), end));
                        assert(climb_spec(held, inner, 1) == (Ok::<i32, Fault>(value), end));
                        assert(climb_spec(s1, a, 1) == (Ok::<i32, Fault>(value), end));
                    },
                    None => {
                        assert(climb_spec(held, inner, 1) == (
                            Err::<i32, Fault>(Fault::Compute),
                            end,
                        ));
                        assert(climb_spec(s1, a, 1) == (Err::<i32, Fault>(Fault::Compute), end));
                    },
                }
            },
            None => {
                assert(climb_spec(s1, a, 1) == (Err::<i32, Fault>(Fault::Compute), held));
            },
        }
    }
}

} // verus!
