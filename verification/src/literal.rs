//! Runtime values and the operators defined on them.

use vstd::prelude::*;
use vstd::string::*;
use crate::text::{contains_char, ends_with, has_char, has_suffix};
use std::cmp::Ordering;
use vstd::std_specs::cmp::{PartialEqSpecImpl, PartialOrdSpecImpl};

verus! {

/// A value of the language.
///
/// A number is an IEEE 754 binary32 value, held by its bit pattern. A
/// function is held by its place in the table of functions of the interpreter
/// that declared it.
#[derive(Debug)]
pub enum Literal {
    Number(u32),
    String(String),
    Bool(bool),
    Null,
    Function(usize),
}

/// The mathematical content of a [`Literal`].
pub enum LiteralView {
    Number(u32),
    String(Seq<char>),
    Bool(bool),
    Null,
    Function(nat),
}

impl View for Literal {
    type V = LiteralView;

    open spec fn view(&self) -> LiteralView {
        match self {
            Literal::Number(bits) => LiteralView::Number(*bits),
            Literal::String(text) => LiteralView::String(text@),
            Literal::Bool(b) => LiteralView::Bool(*b),
            Literal::Null => LiteralView::Null,
            Literal::Function(index) => LiteralView::Function(*index as nat),
        }
    }
}

/// The four operations on numbers that are asked of the host.
#[derive(Debug, Clone, Copy, PartialEq, Eq, Structural)]
pub enum ArithOp {
    Add,
    Sub,
    Mul,
    Div,
}

/// The host's arithmetic can be called on every pair of numbers.
pub open spec fn host_total<A: Fn(ArithOp, u32, u32) -> u32>(host: &A) -> bool {
    forall|op: ArithOp, a: u32, b: u32| call_requires(host, (op, a, b))
}

/// The host's arithmetic returns the same result whenever it is given the
/// same operation and numbers.
pub open spec fn host_deterministic<A: Fn(ArithOp, u32, u32) -> u32>(host: &A) -> bool {
    forall|op: ArithOp, a: u32, b: u32, r1: u32, r2: u32|
        #[trigger] call_ensures(host, (op, a, b), r1) && #[trigger] call_ensures(
            host,
            (op, a, b),
            r2,
        ) ==> r1 == r2
}

/// The function that the host's arithmetic computes: for each operation and
/// two numbers, a result that it may return.
pub open spec fn host_function<A: Fn(ArithOp, u32, u32) -> u32>(host: &A) -> spec_fn(
    ArithOp,
    u32,
    u32,
) -> u32 {
    |op: ArithOp, a: u32, b: u32| choose|r: u32| call_ensures(host, (op, a, b), r)
}

/// What a deterministic host returned is the value of its function.
pub proof fn lemma_host_function<A: Fn(ArithOp, u32, u32) -> u32>(
    host: &A,
    op: ArithOp,
    a: u32,
    b: u32,
    r: u32,
)
    requires
        host_deterministic(host),
        call_ensures(host, (op, a, b), r),
    ensures
        host_function(host)(op, a, b) == r,
{
    let chosen = choose|r: u32| call_ensures(host, (op, a, b), r);
    assert(call_ensures(host, (op, a, b), chosen));
}

/// The bit pattern without its sign bit.
pub open spec fn number_magnitude(bits: u32) -> int {
    if bits >= 0x8000_0000 {
        bits - 0x8000_0000
    } else {
        bits as int
    }
}

/// Not a number: the exponent is all ones and the fraction is not zero.
pub open spec fn number_is_nan(bits: u32) -> bool {
    number_magnitude(bits) > 0x7f80_0000
}

/// An integer that orders the numbers other than NaN as their values do; both
/// zeros have rank 0.
pub open spec fn number_rank(bits: u32) -> int {
    if bits >= 0x8000_0000 {
        -(bits - 0x8000_0000)
    } else {
        bits as int
    }
}

/// `a < b` on binary32 values: false as soon as either is NaN.
pub open spec fn number_less(a: u32, b: u32) -> bool {
    !number_is_nan(a) && !number_is_nan(b) && number_rank(a) < number_rank(b)
}

/// `a == b` on binary32 values: NaN equals nothing, and the two zeros are equal.
pub open spec fn number_equal(a: u32, b: u32) -> bool {
    !number_is_nan(a) && !number_is_nan(b) && number_rank(a) == number_rank(b)
}

/// `-a` on binary32 values: the sign bit is flipped.
pub open spec fn number_negated(bits: u32) -> int {
    if bits >= 0x8000_0000 {
        bits - 0x8000_0000
    } else {
        bits + 0x8000_0000
    }
}

/// Whether `bits` is NaN.
pub fn is_nan(bits: u32) -> (r: bool)
    ensures
        r == number_is_nan(bits),
{
    if bits >= 0x8000_0000 {
        bits - 0x8000_0000 > 0x7f80_0000
    } else {
        bits > 0x7f80_0000
    }
}

/// Whether the number `a` is less than the number `b`.
pub fn less(a: u32, b: u32) -> (r: bool)
    ensures
        r == number_less(a, b),
{
    if is_nan(a) || is_nan(b) {
        false
    } else if a >= 0x8000_0000 {
        if b >= 0x8000_0000 {
            a > b
        } else {
            a > 0x8000_0000 || b > 0
        }
    } else {
        if b >= 0x8000_0000 {
            false
        } else {
            a < b
        }
    }
}

/// Whether the numbers `a` and `b` are equal.
pub fn equal(a: u32, b: u32) -> (r: bool)
    ensures
        r == number_equal(a, b),
{
    if is_nan(a) || is_nan(b) {
        false
    } else if a == b {
        true
    } else {
        (a == 0 && b == 0x8000_0000) || (a == 0x8000_0000 && b == 0)
    }
}

/// The number `-bits`.
pub fn negated(bits: u32) -> (r: u32)
    ensures
        r == number_negated(bits),
{
    if bits >= 0x8000_0000 {
        bits - 0x8000_0000
    } else {
        bits + 0x8000_0000
    }
}

/// The name of a value's type, as error messages give it.
pub open spec fn kind_name(value: LiteralView) -> Seq<char> {
    match value {
        LiteralView::Number(_) => "number"@,
        LiteralView::String(_) => "string"@,
        LiteralView::Bool(_) => "bool"@,
        LiteralView::Null => "null"@,
        LiteralView::Function(_) => "function"@,
    }
}

/// The text of a number, chosen between its shortest decimal form `plain` and
/// its form with one decimal `fixed`: a form without a fraction gets one.
pub open spec fn number_text(plain: Seq<char>, fixed: Seq<char>) -> Seq<char> {
    if has_suffix(plain, ".0"@) || !has_char(plain, '.') {
        fixed
    } else {
        plain
    }
}

/// The text that `print` writes for a value.
pub open spec fn literal_text(value: LiteralView, plain: Seq<char>, fixed: Seq<char>) -> Seq<
    char,
> {
    match value {
        LiteralView::Number(_) => number_text(plain, fixed),
        LiteralView::String(text) => text,
        LiteralView::Bool(b) => if b {
            "true"@
        } else {
            "false"@
        },
        LiteralView::Null => "null"@,
        LiteralView::Function(_) => "<fn>"@,
    }
}

/// Equality of two values as Rust's `==` sees it: same variant and equal
/// contents, numbers by their values.
pub open spec fn literal_equal(left: LiteralView, right: LiteralView) -> bool {
    match (left, right) {
        (LiteralView::Number(a), LiteralView::Number(b)) => number_equal(a, b),
        (LiteralView::String(a), LiteralView::String(b)) => a == b,
        (LiteralView::Bool(a), LiteralView::Bool(b)) => a == b,
        (LiteralView::Null, LiteralView::Null) => true,
        (LiteralView::Function(a), LiteralView::Function(b)) => a == b,
        _ => false,
    }
}

/// The message for two operands that `op` is not defined on.
pub open spec fn mismatch_message(op: ArithOp, left: LiteralView, right: LiteralView) -> Seq<
    char,
> {
    match op {
        ArithOp::Add => "Cannot add '"@ + kind_name(left) + "' and '"@ + kind_name(right) + "'"@,
        ArithOp::Sub => "Cannot subtract '"@ + kind_name(right) + "' from '"@ + kind_name(left)
            + "'"@,
        ArithOp::Mul => "Cannot multiply '"@ + kind_name(left) + "' by '"@ + kind_name(right)
            + "'"@,
        ArithOp::Div => "Cannot multiply '"@ + kind_name(left) + "' by '"@ + kind_name(right)
            + "'"@,
    }
}

/// What `op` gives on two values, where `answer` is what the host returned
/// for two numbers: numbers give the host's answer, two strings are
/// concatenated by `+`, and everything else is an error that names the types.
pub open spec fn arithmetic_outcome(
    op: ArithOp,
    left: LiteralView,
    right: LiteralView,
    answer: u32,
) -> Result<LiteralView, Seq<char>> {
    match (op, left, right) {
        (_, LiteralView::Number(_), LiteralView::Number(_)) => Ok(LiteralView::Number(answer)),
        (ArithOp::Add, LiteralView::String(a), LiteralView::String(b)) => Ok(
            LiteralView::String(a + b),
        ),
        _ => Err(mismatch_message(op, left, right)),
    }
}

/// What `op` gives on two values when the host's arithmetic is `f`.
pub open spec fn arithmetic_result(
    f: spec_fn(ArithOp, u32, u32) -> u32,
    op: ArithOp,
    left: LiteralView,
    right: LiteralView,
) -> Result<LiteralView, Seq<char>> {
    match (left, right) {
        (LiteralView::Number(a), LiteralView::Number(b)) => arithmetic_outcome(
            op,
            left,
            right,
            f(op, a, b),
        ),
        _ => arithmetic_outcome(op, left, right, 0),
    }
}

/// What unary minus gives on a value: a number changes sign, a boolean is
/// inverted, and nothing else can be negated.
pub open spec fn negation_result(value: LiteralView) -> Result<LiteralView, Seq<char>> {
    match value {
        LiteralView::Number(bits) => Ok(LiteralView::Number(number_negated(bits) as u32)),
        LiteralView::Bool(b) => Ok(LiteralView::Bool(!b)),
        LiteralView::String(_) => Err("Cannot negate a string."@),
        LiteralView::Null => Err("Cannot negate a nil."@),
        LiteralView::Function(_) => Err("Cannot negate a function."@),
    }
}

/// The views of a sequence of values.
pub open spec fn literal_views(values: Seq<Literal>) -> Seq<LiteralView> {
    values.map_values(|value: Literal| value@)
}

/// The views of a sequence with one more value.
pub proof fn lemma_literal_views_push(values: Seq<Literal>, last: Literal)
    ensures
        literal_views(values.push(last)) == literal_views(values).push(last@),
{
    assert(literal_views(values.push(last)) =~= literal_views(values).push(last@));
}

/// The view of the result of an operator.
pub open spec fn outcome_view(r: Result<Literal, String>) -> Result<LiteralView, Seq<char>> {
    match r {
        Ok(value) => Ok(value@),
        Err(message) => Err(message@),
    }
}

/// What holds of the result of an operation asked of `host`: on two numbers
/// it is what the host returned for them, and on anything else it is fixed by
/// the operands alone.
pub open spec fn arithmetic_post<A: Fn(ArithOp, u32, u32) -> u32>(
    host: &A,
    op: ArithOp,
    left: LiteralView,
    right: LiteralView,
    r: Result<Literal, String>,
) -> bool {
    match (left, right) {
        (LiteralView::Number(a), LiteralView::Number(b)) => r matches Ok(Literal::Number(n))
            && call_ensures(host, (op, a, b), n),
        _ => outcome_view(r) == arithmetic_outcome(op, left, right, 0),
    }
}

impl Clone for Literal {
    fn clone(&self) -> (r: Self)
        ensures
            r == *self,
    {
        match self {
            Literal::Number(bits) => Literal::Number(*bits),
            Literal::String(text) => Literal::String(text.clone()),
            Literal::Bool(b) => Literal::Bool(*b),
            Literal::Null => Literal::Null,
            Literal::Function(index) => Literal::Function(*index),
        }
    }
}

impl PartialEq for Literal {
    fn eq(&self, other: &Literal) -> (r: bool) {
        match (self, other) {
            (Literal::Number(a), Literal::Number(b)) => equal(*a, *b),
            (Literal::String(a), Literal::String(b)) => *a == *b,
            (Literal::Bool(a), Literal::Bool(b)) => *a == *b,
            (Literal::Null, Literal::Null) => true,
            (Literal::Function(a), Literal::Function(b)) => *a == *b,
            _ => false,
        }
    }
}

impl PartialEqSpecImpl for Literal {
    open spec fn obeys_eq_spec() -> bool {
        true
    }

    open spec fn eq_spec(&self, other: &Literal) -> bool {
        literal_equal(self@, other@)
    }
}

/// How two values are ordered: only two numbers are, and a pair of numbers
/// that is neither greater nor less counts as equal.
pub open spec fn literal_order(left: LiteralView, right: LiteralView) -> Option<Ordering> {
    match (left, right) {
        (LiteralView::Number(a), LiteralView::Number(b)) => if number_less(b, a) {
            Some(Ordering::Greater)
        } else if number_less(a, b) {
            Some(Ordering::Less)
        } else {
            Some(Ordering::Equal)
        },
        _ => None,
    }
}

impl PartialOrd for Literal {
    fn partial_cmp(&self, other: &Literal) -> (r: Option<Ordering>) {
        match (self, other) {
            (Literal::Number(a), Literal::Number(b)) => {
                if less(*b, *a) {
                    Some(Ordering::Greater)
                } else if less(*a, *b) {
                    Some(Ordering::Less)
                } else {
                    Some(Ordering::Equal)
                }
            },
            _ => None,
        }
    }
}

impl PartialOrdSpecImpl for Literal {
    open spec fn obeys_partial_cmp_spec() -> bool {
        true
    }

    open spec fn partial_cmp_spec(&self, other: &Literal) -> Option<Ordering> {
        literal_order(self@, other@)
    }
}

impl Literal {
    /// The text that `print` writes for this value. For a number the caller
    /// passes its shortest decimal form as `plain` and its form with one
    /// decimal as `fixed`; for any other value the two are not read.
    pub fn to_string(&self, plain: &str, fixed: &str) -> (r: String)
        ensures
            r@ == literal_text(self@, plain@, fixed@),
    {
        match self {
            Literal::Number(_) => {
                if ends_with(plain, ".0") || !contains_char(plain, '.') {
                    fixed.to_owned()
                } else {
                    plain.to_owned()
                }
            },
            Literal::String(text) => text.clone(),
            Literal::Bool(b) => {
                if *b {
                    "true".to_owned()
                } else {
                    "false".to_owned()
                }
            },
            Literal::Null => "null".to_owned(),
            Literal::Function(_) => "<fn>".to_owned(),
        }
    }

    /// The name of this value's type.
    pub fn literal_type(&self) -> (r: String)
        ensures
            r@ == kind_name(self@),
    {
        match self {
            Literal::Number(_) => "number".to_owned(),
            Literal::String(_) => "string".to_owned(),
            Literal::Bool(_) => "bool".to_owned(),
            Literal::Null => "null".to_owned(),
            Literal::Function(_) => "function".to_owned(),
        }
    }

    /// Whether the value is a number.
    pub fn is_double(&self) -> (r: bool)
        ensures
            r == (self@ is Number),
    {
        match self {
            Literal::Number(_) => true,
            _ => false,
        }
    }

    /// Whether the value is a boolean.
    pub fn is_bool(&self) -> (r: bool)
        ensures
            r == (self@ is Bool),
    {
        match self {
            Literal::Bool(_) => true,
            _ => false,
        }
    }

    /// Whether the value is a string.
    pub fn is_string(&self) -> (r: bool)
        ensures
            r == (self@ is String),
    {
        match self {
            Literal::String(_) => true,
            _ => false,
        }
    }

    /// Whether the value is nil.
    pub fn is_null(&self) -> (r: bool)
        ensures
            r == (self@ is Null),
    {
        match self {
            Literal::Null => true,
            _ => false,
        }
    }

    /// Whether the value is a function.
    pub fn is_function(&self) -> (r: bool)
        ensures
            r == (self@ is Function),
    {
        match self {
            Literal::Function(_) => true,
            _ => false,
        }
    }

    /// The message for operands that `op` is not defined on.
    fn mismatch(op: ArithOp, left: &Literal, right: &Literal) -> (r: String)
        ensures
            r@ == mismatch_message(op, left@, right@),
    {
        let l = left.literal_type();
        let r = right.literal_type();
        match op {
            ArithOp::Add => {
                let mut m = "Cannot add '".to_owned();
                m.append(l.as_str());
                m.append("' and '");
                m.append(r.as_str());
                m.append("'");
                m
            },
            ArithOp::Sub => {
                let mut m = "Cannot subtract '".to_owned();
                m.append(r.as_str());
                m.append("' from '");
                m.append(l.as_str());
                m.append("'");
                m
            },
            ArithOp::Mul => {
                let mut m = "Cannot multiply '".to_owned();
                m.append(l.as_str());
                m.append("' by '");
                m.append(r.as_str());
                m.append("'");
                m
            },
            ArithOp::Div => {
                let mut m = "Cannot multiply '".to_owned();
                m.append(l.as_str());
                m.append("' by '");
                m.append(r.as_str());
                m.append("'");
                m
            },
        }
    }

    /// Applies `op` to two values, asking `host` for the result on two numbers.
    pub fn arithmetic<A: Fn(ArithOp, u32, u32) -> u32>(
        self,
        op: ArithOp,
        rhs: Literal,
        host: &A,
    ) -> (r: Result<Literal, String>)
        requires
            host_total(host),
        ensures
            arithmetic_post(host, op, self@, rhs@, r),
            host_deterministic(host) ==> outcome_view(r) == arithmetic_result(
                host_function(host),
                op,
                self@,
                rhs@,
            ),
    {
        match (self, rhs) {
            (Literal::Number(a), Literal::Number(b)) => {
                let n = host(op, a, b);
                proof {
                    if host_deterministic(host) {
                        lemma_host_function(host, op, a, b, n);
                    }
                }
                Ok(Literal::Number(n))
            },
            (Literal::String(a), Literal::String(b)) => {
                match op {
                    ArithOp::Add => Ok(Literal::String(a.concat(b.as_str()))),
                    _ => Err(
                        Self::mismatch(op, &Literal::String(a), &Literal::String(b)),
                    ),
                }
            },
            (lhs, rhs) => Err(Self::mismatch(op, &lhs, &rhs)),
        }
    }

    /// `self + rhs`: the sum of two numbers or the concatenation of two strings.
    pub fn add<A: Fn(ArithOp, u32, u32) -> u32>(self, rhs: Literal, host: &A) -> (r: Result<
        Literal,
        String,
    >)
        requires
            host_total(host),
        ensures
            arithmetic_post(host, ArithOp::Add, self@, rhs@, r),
    {
        self.arithmetic(ArithOp::Add, rhs, host)
    }

    /// `self - rhs`, defined on two numbers.
    pub fn sub<A: Fn(ArithOp, u32, u32) -> u32>(self, rhs: Literal, host: &A) -> (r: Result<
        Literal,
        String,
    >)
        requires
            host_total(host),
        ensures
            arithmetic_post(host, ArithOp::Sub, self@, rhs@, r),
    {
        self.arithmetic(ArithOp::Sub, rhs, host)
    }

    /// `self * rhs`, defined on two numbers.
    pub fn mul<A: Fn(ArithOp, u32, u32) -> u32>(self, rhs: Literal, host: &A) -> (r: Result<
        Literal,
        String,
    >)
        requires
            host_total(host),
        ensures
            arithmetic_post(host, ArithOp::Mul, self@, rhs@, r),
    {
        self.arithmetic(ArithOp::Mul, rhs, host)
    }

    /// `self / rhs`, defined on two numbers.
    pub fn div<A: Fn(ArithOp, u32, u32) -> u32>(self, rhs: Literal, host: &A) -> (r: Result<
        Literal,
        String,
    >)
        requires
            host_total(host),
        ensures
            arithmetic_post(host, ArithOp::Div, self@, rhs@, r),
    {
        self.arithmetic(ArithOp::Div, rhs, host)
    }

    /// `-self`: a number changes sign, a boolean is inverted.
    pub fn neg(self) -> (r: Result<Literal, String>)
        ensures
            outcome_view(r) == negation_result(self@),
    {
        match self {
            Literal::Number(bits) => Ok(Literal::Number(negated(bits))),
            Literal::Bool(b) => Ok(Literal::Bool(!b)),
            Literal::String(_) => Err("Cannot negate a string.".to_owned()),
            Literal::Null => Err("Cannot negate a nil.".to_owned()),
            Literal::Function(_) => Err("Cannot negate a function.".to_owned()),
        }
    }
}

} // verus!
