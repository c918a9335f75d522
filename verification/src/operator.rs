use vstd::prelude::*;
use vstd::std_specs::cmp::PartialOrdSpec;
use vstd::string::StrSliceExecFns;

verus! {

/// A binary arithmetic operator.
#[derive(Debug, Clone, Copy, PartialEq, Eq, Structural)]
pub enum Operator {
    Add,
    Sub,
    Mult,
}

impl Operator {
    /// The mathematical meaning of the operator, over unbounded integers.
    pub open spec fn spec_eval(self, a: int, b: int) -> int {
        match self {
            Operator::Add => a + b,
            Operator::Sub => a - b,
            Operator::Mult => a * b,
        }
    }

    /// Binding strength: `Mult` binds tighter than `Add` and `Sub`, which
    /// share a rank.
    pub open spec fn spec_precedence(self) -> int {
        match self {
            Operator::Add => 1,
            Operator::Sub => 1,
            Operator::Mult => 2,
        }
    }

    /// Which operator, if any, a whitespace-delimited piece of input denotes.
    /// Exactly `"+"`, `"-"` and `"*"` denote one; anything else is "no match".
    pub open spec fn spec_parse(p: Seq<char>) -> Option<Operator> {
        if p.len() == 1 && p[0] == '+' {
            Some(Operator::Add)
        } else if p.len() == 1 && p[0] == '-' {
            Some(Operator::Sub)
        } else if p.len() == 1 && p[0] == '*' {
            Some(Operator::Mult)
        } else {
            None
        }
    }

    /// Applies the operator to two machine integers. The caller must rule
    /// out overflow: the mathematical result has to fit in an `i32`.
    pub fn eval(&self, num1: i32, num2: i32) -> (r: i32)
        requires
            i32::MIN <= self.spec_eval(num1 as int, num2 as int) <= i32::MAX,
        ensures
            r as int == self.spec_eval(num1 as int, num2 as int),
    {
        match self {
            Operator::Add => num1 + num2,
            Operator::Sub => num1 - num2,
            Operator::Mult => num1 * num2,
        }
    }

    /// Maps exactly the strings `"+"`, `"-"` and `"*"` to their operator;
    /// any other input yields `None`.
    pub fn parse(input: &str) -> (r: Option<Operator>)
        ensures
            r == Self::spec_parse(input@),
    {
        if input.unicode_len() == 1 {
            let c = input.get_char(0);
            if c == '+' {
                return Some(Operator::Add);
            }
            if c == '-' {
                return Some(Operator::Sub);
            }
            if c == '*' {
                return Some(Operator::Mult);
            }
        }
        None
    }

    /// The numeric precedence rank: `Mult` is 2, `Add` and `Sub` are 1.
    pub fn precedence(&self) -> (r: u32)
        ensures
            r == self.spec_precedence(),
    {
        match self {
            Operator::Add => 1,
            Operator::Sub => 1,
            Operator::Mult => 2,
        }
    }
}

/// Operators compare by precedence alone.
impl PartialOrd for Operator {
    fn partial_cmp(&self, other: &Operator) -> (r: Option<core::cmp::Ordering>) {
        let a: u32 = self.precedence();
        let b: u32 = other.precedence();
        if a < b {
            Some(core::cmp::Ordering::Less)
        } else if b < a {
            Some(core::cmp::Ordering::Greater)
        } else {
            Some(core::cmp::Ordering::Equal)
        }
    }
}

impl vstd::std_specs::cmp::PartialOrdSpecImpl for Operator {
    open spec fn obeys_partial_cmp_spec() -> bool {
        true
    }

    open spec fn partial_cmp_spec(&self, other: &Operator) -> Option<core::cmp::Ordering> {
        if self.spec_precedence() < other.spec_precedence() {
            Some(core::cmp::Ordering::Less)
        } else if other.spec_precedence() < self.spec_precedence() {
            Some(core::cmp::Ordering::Greater)
        } else {
            Some(core::cmp::Ordering::Equal)
        }
    }
}

/// Precedence orders every pair of operators: comparison answers exactly as
/// the precedence ranks do, `Mult` ranks strictly above `Add` and `Sub`, and
/// `Add` and `Sub` share a rank.
pub proof fn lemma_precedence_order(a: Operator, b: Operator)
    ensures
        a.partial_cmp_spec(&b) == Some(core::cmp::Ordering::Less) <==> a.spec_precedence()
            < b.spec_precedence(),
        a.partial_cmp_spec(&b) == Some(core::cmp::Ordering::Greater) <==> a.spec_precedence()
            > b.spec_precedence(),
        a.partial_cmp_spec(&b) == Some(core::cmp::Ordering::Equal) <==> a.spec_precedence()
            == b.spec_precedence(),
        Operator::Mult.spec_precedence() > Operator::Add.spec_precedence(),
        Operator::Mult.spec_precedence() > Operator::Sub.spec_precedence(),
        Operator::Add.spec_precedence() == Operator::Sub.spec_precedence(),
{
}

} // verus!
