use vstd::prelude::*;

use crate::error::ParseError;
use crate::operator::Operator;
use crate::token::Token;

verus! {

/// An arithmetic expression tree: integer leaves under binary operator
/// nodes. Each node owns its two subtrees exclusively and is never mutated
/// after construction.
#[derive(Debug, PartialEq)]
pub enum Expression {
    Value(i32),
    Operation(Operator, Box<Expression>, Box<Expression>),
}

/// A deep copy: expression trees have plain value semantics.
impl Clone for Expression {
    fn clone(&self) -> (r: Self)
        ensures
            r == *self,
        decreases self,
    {
        match self {
            Expression::Value(val) => Expression::Value(*val),
            Expression::Operation(op, exp1, exp2) => Expression::Operation(
                *op,
                Box::new((**exp1).clone()),
                Box::new((**exp2).clone()),
            ),
        }
    }
}

/// The parser's state mid-scan: the operator stack, the operand stack of
/// partial trees, and, for each parenthesis group still open, the
/// operator-stack depth at the moment it opened.
pub ghost struct ParserState {
    pub ops: Seq<Operator>,
    pub results: Seq<Expression>,
    pub parens: Seq<usize>,
}

impl Expression {
    /// The integer an expression denotes, over unbounded integers: a leaf
    /// is its value, a node applies its operator to its children's values.
    pub open spec fn spec_eval(self) -> int
        decreases self,
    {
        match self {
            Expression::Value(val) => val as int,
            Expression::Operation(op, exp1, exp2) => op.spec_eval(
                (*exp1).spec_eval(),
                (*exp2).spec_eval(),
            ),
        }
    }

    /// Every subexpression evaluates within `i32` bounds, so machine
    /// evaluation can return every intermediate result exactly.
    pub open spec fn evals_in_range(self) -> bool
        decreases self,
    {
        match self {
            Expression::Value(_) => true,
            Expression::Operation(op, exp1, exp2) => (*exp1).evals_in_range()
                && (*exp2).evals_in_range() && i32::MIN <= op.spec_eval(
                (*exp1).spec_eval(),
                (*exp2).spec_eval(),
            ) <= i32::MAX,
        }
    }

    /// The stack the parser leaves when it pops one operator: the two top
    /// operands combine into a node, the earlier-parsed operand as the left
    /// child, and the node returns to the stack.
    pub open spec fn combine_top(op: Operator, results: Seq<Expression>) -> Seq<Expression>
        recommends
            results.len() >= 2,
    {
        results.take(results.len() - 2).push(
            Expression::Operation(
                op,
                Box::new(results[results.len() - 2]),
                Box::new(results.last()),
            ),
        )
    }

    /// Popping for an incoming operator `op`: while the stack top binds at
    /// least as tightly as `op` and popping would not cross the boundary of
    /// the innermost open parenthesis group, pop and combine. `None` is the
    /// fatal case: a pop without two operands to combine.
    pub open spec fn spec_drain_ge(
        op: Operator,
        ops: Seq<Operator>,
        results: Seq<Expression>,
        parens: Seq<usize>,
    ) -> Option<(Seq<Operator>, Seq<Expression>)>
        decreases ops.len(),
    {
        if ops.len() == 0 {
            Some((ops, results))
        } else if ops.last().spec_precedence() < op.spec_precedence() {
            Some((ops, results))
        } else if parens.len() > 0 && parens.last() as int == ops.len() as int {
            Some((ops, results))
        } else if results.len() < 2 {
            None
        } else {
            Self::spec_drain_ge(op, ops.drop_last(), Self::combine_top(ops.last(), results), parens)
        }
    }

    /// Popping down to a recorded depth: drain and combine until at most
    /// `boundary` operators remain. Closing a parenthesis drains to the
    /// depth recorded when the group opened; the end of the scan drains to
    /// zero. `None` is the same fatal case as above.
    pub open spec fn spec_drain_to(
        boundary: nat,
        ops: Seq<Operator>,
        results: Seq<Expression>,
    ) -> Option<(Seq<Operator>, Seq<Expression>)>
        decreases ops.len(),
    {
        if ops.len() <= boundary {
            Some((ops, results))
        } else if results.len() < 2 {
            None
        } else {
            Self::spec_drain_to(boundary, ops.drop_last(), Self::combine_top(ops.last(), results))
        }
    }

    /// One token's effect on the parser state.
    pub open spec fn spec_step(t: Token, st: ParserState) -> Result<ParserState, ParseError> {
        match t {
            Token::Number(num) => Ok(
                ParserState {
                    ops: st.ops,
                    results: st.results.push(Expression::Value(num)),
                    parens: st.parens,
                },
            ),
            Token::BinOp(op) => match Self::spec_drain_ge(op, st.ops, st.results, st.parens) {
                None => Err(ParseError::IncompleteExpression),
                Some(p) => Ok(
                    ParserState { ops: p.0.push(op), results: p.1, parens: st.parens },
                ),
            },
            Token::LeftParen => Ok(
                ParserState {
                    ops: st.ops,
                    results: st.results,
                    parens: st.parens.push(st.ops.len() as usize),
                },
            ),
            Token::RightParen => if st.parens.len() == 0 {
                Err(ParseError::MismatchedParentheses)
            } else {
                match Self::spec_drain_to(st.parens.last() as nat, st.ops, st.results) {
                    None => Err(ParseError::IncompleteExpression),
                    Some(p) => Ok(
                        ParserState { ops: p.0, results: p.1, parens: st.parens.drop_last() },
                    ),
                }
            },
        }
    }

    /// The parser state after a whole token sequence, scanned left to
    /// right, or the first fatal condition the scan hits.
    pub open spec fn spec_run(tokens: Seq<Token>, st: ParserState) -> Result<
        ParserState,
        ParseError,
    >
        decreases tokens.len(),
    {
        if tokens.len() == 0 {
            Ok(st)
        } else {
            match Self::spec_step(tokens[0], st) {
                Err(e) => Err(e),
                Ok(st2) => Self::spec_run(tokens.skip(1), st2),
            }
        }
    }

    /// The parser's starting state: three empty stacks.
    pub open spec fn spec_init() -> ParserState {
        ParserState { ops: Seq::empty(), results: Seq::empty(), parens: Seq::empty() }
    }

    /// What a token sequence parses to: scan every token, drain the
    /// operators still stacked, and take the top of the operand stack.
    pub open spec fn spec_parse_tokens(tokens: Seq<Token>) -> Result<Expression, ParseError> {
        match Self::spec_run(tokens, Self::spec_init()) {
            Err(e) => Err(e),
            Ok(st) => match Self::spec_drain_to(0, st.ops, st.results) {
                None => Err(ParseError::IncompleteExpression),
                Some(p) => if p.1.len() == 0 {
                    Err(ParseError::IncompleteExpression)
                } else {
                    Ok(p.1.last())
                },
            },
        }
    }

    /// What an input string parses to: its tokens, run through the
    /// shunting-yard scan.
    pub open spec fn spec_parse(s: Seq<char>) -> Result<Expression, ParseError> {
        match Token::spec_tokenize(s) {
            Err(e) => Err(e),
            Ok(ts) => Self::spec_parse_tokens(ts),
        }
    }

    /// Evaluates the tree by structural recursion. The caller must rule out
    /// overflow: every subexpression's value has to fit in an `i32`.
    pub fn eval(&self) -> (r: i32)
        requires
            self.evals_in_range(),
        ensures
            r as int == self.spec_eval(),
        decreases self,
    {
        match self {
            Expression::Value(val) => *val,
            Expression::Operation(op, exp1, exp2) => op.eval(exp1.eval(), exp2.eval()),
        }
    }

    /// Dijkstra's shunting-yard algorithm: one left-to-right scan over the
    /// tokens, with an operator stack, an operand stack of partial trees,
    /// and a stack of parenthesis scope boundaries.
    #[verifier::loop_isolation(false)]
    pub fn parse(input: &str) -> (r: Result<Expression, ParseError>)
        ensures
            r == Self::spec_parse(input@),
    {
        let tokens = match Token::tokenize(input) {
            Ok(t) => t,
            Err(e) => {
                return Err(e);
            },
        };
        let ghost toks = tokens@;
        let mut operator_stack: Vec<Operator> = Vec::new();
        let mut result_stack: Vec<Expression> = Vec::new();
        let mut par_stack: Vec<usize> = Vec::new();
        let n: usize = tokens.len();
        let mut idx: usize = 0;
        proof {
            assert(toks.skip(0) =~= toks);
        }
        while idx < n
            invariant
                idx <= n,
                Self::spec_run(toks, Self::spec_init()) == Self::spec_run(
                    toks.skip(idx as int),
                    (ParserState {
                        ops: operator_stack@,
                        results: result_stack@,
                        parens: par_stack@,
                    }),
                ),
            decreases n - idx,
        {
            let ghost st = ParserState {
                ops: operator_stack@,
                results: result_stack@,
                parens: par_stack@,
            };
            proof {
                assert(toks.skip(idx as int)[0] == toks[idx as int]);
                assert(toks.skip(idx as int).skip(1) =~= toks.skip(idx as int + 1));
            }
            let t = tokens[idx];
            match t {
                Token::Number(num) => {
                    result_stack.push(Expression::Value(num));
                },
                Token::BinOp(op) => {
                    let ok = Self::drain_ge(op, &mut operator_stack, &mut result_stack, &par_stack);
                    if !ok {
                        return Err(ParseError::IncompleteExpression);
                    }
                    operator_stack.push(op);
                },
                Token::LeftParen => {
                    par_stack.push(operator_stack.len());
                },
                Token::RightParen => {
                    let index: usize = match par_stack.pop() {
                        Some(x) => x,
                        None => {
                            return Err(ParseError::MismatchedParentheses);
                        },
                    };
                    let ok = Self::drain_to(index, &mut operator_stack, &mut result_stack);
                    if !ok {
                        return Err(ParseError::IncompleteExpression);
                    }
                },
            }
            idx = idx + 1;
        }
        proof {
            assert(toks.skip(n as int) =~= Seq::<Token>::empty());
        }
        let ok = Self::drain_to(0, &mut operator_stack, &mut result_stack);
        if !ok {
            return Err(ParseError::IncompleteExpression);
        }
        match result_stack.pop() {
            Some(e) => Ok(e),
            None => Err(ParseError::IncompleteExpression),
        }
    }

    /// The exec counterpart of `spec_drain_ge`, popping in place. `false`
    /// reports the fatal case.
    #[verifier::loop_isolation(false)]
    fn drain_ge(
        op: Operator,
        ops: &mut Vec<Operator>,
        results: &mut Vec<Expression>,
        parens: &Vec<usize>,
    ) -> (ok: bool)
        ensures
            match Self::spec_drain_ge(op, old(ops)@, old(results)@, parens@) {
                Some(p) => ok && final(ops)@ == p.0 && final(results)@ == p.1,
                None => !ok,
            },
    {
        loop
            invariant
                Self::spec_drain_ge(op, old(ops)@, old(results)@, parens@) == Self::spec_drain_ge(
                    op,
                    ops@,
                    results@,
                    parens@,
                ),
            decreases ops@.len(),
        {
            if ops.len() == 0 {
                return true;
            }
            let top = ops[ops.len() - 1];
            if top.precedence() < op.precedence() {
                return true;
            }
            if parens.len() > 0 && parens[parens.len() - 1] == ops.len() {
                return true;
            }
            if results.len() < 2 {
                return false;
            }
            Self::pop_combine(ops, results);
        }
    }

    /// The exec counterpart of `spec_drain_to`, popping in place. `false`
    /// reports the fatal case.
    #[verifier::loop_isolation(false)]
    fn drain_to(boundary: usize, ops: &mut Vec<Operator>, results: &mut Vec<Expression>) -> (ok:
        bool)
        ensures
            match Self::spec_drain_to(boundary as nat, old(ops)@, old(results)@) {
                Some(p) => ok && final(ops)@ == p.0 && final(results)@ == p.1,
                None => !ok,
            },
    {
        loop
            invariant
                Self::spec_drain_to(boundary as nat, old(ops)@, old(results)@)
                    == Self::spec_drain_to(boundary as nat, ops@, results@),
            decreases ops@.len(),
        {
            if ops.len() <= boundary {
                return true;
            }
            if results.len() < 2 {
                return false;
            }
            Self::pop_combine(ops, results);
        }
    }

    /// Pops one operator and the two top operands, and pushes the combined
    /// node: the operands flip because the stack yields the most recently
    /// pushed first, and the earlier-parsed operand must be the left child.
    fn pop_combine(ops: &mut Vec<Operator>, results: &mut Vec<Expression>)
        requires
            old(ops)@.len() >= 1,
            old(results)@.len() >= 2,
        ensures
            final(ops)@ == old(ops)@.drop_last(),
            final(results)@ == Self::combine_top(old(ops)@.last(), old(results)@),
    {
        let apply_op = ops.pop().unwrap();
        let val1 = results.pop().unwrap();
        let val2 = results.pop().unwrap();
        results.push(Expression::Operation(apply_op, Box::new(val2), Box::new(val1)));
        proof {
            assert(results@ =~= Self::combine_top(old(ops)@.last(), old(results)@));
        }
    }
}

/// One input string determines one outcome: any two results that parsing
/// the same input may return are equal, and when they hold expressions,
/// those evaluate to the same integer.
pub proof fn lemma_parse_eval_deterministic(
    s: Seq<char>,
    r1: Result<Expression, ParseError>,
    r2: Result<Expression, ParseError>,
)
    requires
        r1 == Expression::spec_parse(s),
        r2 == Expression::spec_parse(s),
    ensures
        r1 == r2,
        r1 matches Ok(e1) ==> r2 matches Ok(e2) && e1.spec_eval() == e2.spec_eval(),
{
}

} // verus!
