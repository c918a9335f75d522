use vstd::prelude::*;
use vstd::string::StrSliceExecFns;

use crate::error::ParseError;
use crate::operator::Operator;

verus! {

/// One lexical element of the input.
#[derive(Debug, Clone, Copy, PartialEq, Eq, Structural)]
pub enum Token {
    Number(i32),
    BinOp(Operator),
    LeftParen,
    RightParen,
}

/// `c` is an ASCII decimal digit.
pub open spec fn is_digit(c: char) -> bool {
    '0' as int <= c as int <= '9' as int
}

/// Every character of `ds` is a decimal digit.
pub open spec fn all_digits(ds: Seq<char>) -> bool {
    forall|j: int| 0 <= j < ds.len() ==> is_digit(#[trigger] ds[j])
}

/// The number a digit string denotes in base ten.
pub open spec fn digits_val(ds: Seq<char>) -> int
    decreases ds.len(),
{
    if ds.len() == 0 {
        0
    } else {
        digits_val(ds.drop_last()) * 10 + (ds.last() as int - '0' as int)
    }
}

/// The `i32` an input piece denotes, if any: an optional sign followed by
/// at least one digit, with a value that fits the type.
pub open spec fn spec_parse_i32(p: Seq<char>) -> Option<i32> {
    if p.len() == 0 {
        None
    } else {
        let signed = p[0] == '-' || p[0] == '+';
        let neg = p[0] == '-';
        let ds = if signed {
            p.skip(1)
        } else {
            p
        };
        if ds.len() == 0 || !all_digits(ds) {
            None
        } else if neg {
            if digits_val(ds) <= 0x8000_0000 {
                Some((-digits_val(ds)) as i32)
            } else {
                None
            }
        } else {
            if digits_val(ds) <= 0x7FFF_FFFF {
                Some(digits_val(ds) as i32)
            } else {
                None
            }
        }
    }
}

/// The input split on every single space character: consecutive spaces and
/// spaces at either end yield empty pieces, and the empty input yields one
/// empty piece.
pub open spec fn split_spaces(s: Seq<char>) -> Seq<Seq<char>>
    decreases s.len(),
{
    if s.len() == 0 {
        seq![Seq::<char>::empty()]
    } else if s[0] == ' ' {
        seq![Seq::<char>::empty()] + split_spaces(s.skip(1))
    } else {
        let rest = split_spaces(s.skip(1));
        seq![seq![s[0]] + rest[0]] + rest.skip(1)
    }
}

/// Splitting an input whose first `k` characters hold no space: if the
/// whole input is space-free it is a single piece, and otherwise the first
/// piece ends exactly at the space at position `k`.
proof fn lemma_split_first_piece(s: Seq<char>, k: int)
    requires
        0 <= k <= s.len(),
        forall|j: int| 0 <= j < k ==> s[j] != ' ',
        k < s.len() ==> s[k] == ' ',
    ensures
        k == s.len() ==> split_spaces(s) == seq![s],
        k < s.len() ==> split_spaces(s) == seq![s.take(k)] + split_spaces(s.skip(k + 1)),
    decreases k,
{
    if k == 0 {
        if k == s.len() {
            assert(split_spaces(s) =~~= seq![s]);
        } else {
            assert(s[0] == ' ');
            assert(split_spaces(s) =~~= seq![s.take(0)] + split_spaces(s.skip(1)));
        }
    } else {
        assert(s[0] != ' ');
        let tail = s.skip(1);
        assert(forall|j: int| 0 <= j < k - 1 ==> #[trigger] tail[j] == s[j + 1] && tail[j] != ' ');
        lemma_split_first_piece(tail, k - 1);
        let rest = split_spaces(tail);
        if k == s.len() {
            assert(rest == seq![tail]);
            assert(seq![s[0]] + rest[0] =~= s);
            assert(split_spaces(s) =~~= seq![s]);
        } else {
            assert(tail[k - 1] == s[k]);
            assert(rest == seq![tail.take(k - 1)] + split_spaces(tail.skip(k)));
            assert(tail.skip(k) =~= s.skip(k + 1));
            assert(rest[0] == tail.take(k - 1));
            assert(seq![s[0]] + tail.take(k - 1) =~= s.take(k));
            assert(rest.skip(1) =~~= split_spaces(s.skip(k + 1)));
            assert(split_spaces(s) =~~= seq![s.take(k)] + split_spaces(s.skip(k + 1)));
        }
    }
}

impl Token {
    /// The token one piece denotes, tried in this order: an operator
    /// symbol, then an integer, then a parenthesis. Anything else matches
    /// no token.
    pub open spec fn spec_classify(p: Seq<char>) -> Option<Token> {
        match Operator::spec_parse(p) {
            Some(op) => Some(Token::BinOp(op)),
            None => match spec_parse_i32(p) {
                Some(n) => Some(Token::Number(n)),
                None => if p.len() == 1 && p[0] == '(' {
                    Some(Token::LeftParen)
                } else if p.len() == 1 && p[0] == ')' {
                    Some(Token::RightParen)
                } else {
                    None
                },
            },
        }
    }

    /// The tokens of a piece sequence, in order; the first unrecognized
    /// piece makes the whole input unrecognized.
    pub open spec fn spec_classify_all(pieces: Seq<Seq<char>>) -> Result<Seq<Token>, ParseError>
        decreases pieces.len(),
    {
        if pieces.len() == 0 {
            Ok(Seq::empty())
        } else {
            match Token::spec_classify(pieces[0]) {
                None => Err(ParseError::UnrecognizedToken),
                Some(t) => match Token::spec_classify_all(pieces.skip(1)) {
                    Err(e) => Err(e),
                    Ok(ts) => Ok(seq![t] + ts),
                },
            }
        }
    }

    /// The token sequence of an input string: its space-delimited pieces,
    /// classified in input order.
    pub open spec fn spec_tokenize(s: Seq<char>) -> Result<Seq<Token>, ParseError> {
        Token::spec_classify_all(split_spaces(s))
    }

    /// Splits the input on single spaces and classifies each piece. Output
    /// order is exactly input order; the first piece that matches no token
    /// fails the whole call.
    #[verifier::loop_isolation(false)]
    pub fn tokenize(input: &str) -> (r: Result<Vec<Token>, ParseError>)
        ensures
            match Token::spec_tokenize(input@) {
                Ok(ts) => r matches Ok(v) && v@ == ts,
                Err(e) => r == Err::<Vec<Token>, ParseError>(e),
            },
    {
        let n: usize = input.unicode_len();
        let mut toks: Vec<Token> = Vec::new();
        let mut start: usize = 0;
        let mut i: usize = 0;
        proof {
            assert(input@.skip(0) =~= input@);
            match Token::spec_classify_all(split_spaces(input@)) {
                Ok(ts) => {
                    assert(Seq::<Token>::empty() + ts =~= ts);
                },
                Err(e) => {},
            }
        }
        loop
            invariant
                start <= i <= n,
                n == input@.len(),
                forall|j: int| start <= j < i ==> input@[j] != ' ',
                Token::spec_tokenize(input@) == tokenize_unfold(toks@, input@.skip(start as int)),
            decreases n - i,
        {
            let ghost sub = input@.skip(start as int);
            if i == n {
                let piece = input.substring_char(start, n);
                proof {
                    assert(piece@ =~= sub);
                    lemma_split_first_piece(sub, n - start);
                    assert(split_spaces(sub) == seq![piece@]);
                    lemma_classify_all_cons(piece@, Seq::<Seq<char>>::empty());
                    assert(seq![piece@] + Seq::<Seq<char>>::empty() =~~= seq![piece@]);
                }
                match Self::classify(piece) {
                    None => {
                        return Err(ParseError::UnrecognizedToken);
                    },
                    Some(t) => {
                        proof {
                            match Token::spec_classify(piece@) {
                                Some(t2) => {
                                    assert(seq![t2] + Seq::<Token>::empty() =~= seq![t2]);
                                    assert(toks@ + seq![t2] =~= toks@.push(t2));
                                },
                                None => {},
                            }
                        }
                        toks.push(t);
                        return Ok(toks);
                    },
                }
            }
            let c = input.get_char(i);
            if c == ' ' {
                let piece = input.substring_char(start, i);
                proof {
                    assert(piece@ =~= sub.take(i - start));
                    lemma_split_first_piece(sub, i - start);
                    assert(sub.skip(i - start + 1) =~= input@.skip(i + 1));
                    assert(split_spaces(sub) == seq![piece@] + split_spaces(input@.skip(i + 1)));
                    lemma_classify_all_cons(piece@, split_spaces(input@.skip(i + 1)));
                }
                match Self::classify(piece) {
                    None => {
                        return Err(ParseError::UnrecognizedToken);
                    },
                    Some(t) => {
                        proof {
                            match Token::spec_classify(piece@) {
                                Some(t2) => {
                                    match Token::spec_classify_all(
                                        split_spaces(input@.skip(i + 1)),
                                    ) {
                                        Ok(ts) => {
                                            assert(toks@ + (seq![t2] + ts) =~= toks@.push(t2)
                                                + ts);
                                        },
                                        Err(e) => {},
                                    }
                                },
                                None => {},
                            }
                        }
                        toks.push(t);
                        start = i + 1;
                    },
                }
            }
            i = i + 1;
        }
    }

    /// The token one piece of the input denotes, if any.
    fn classify(piece: &str) -> (r: Option<Token>)
        ensures
            r == Token::spec_classify(piece@),
    {
        if let Some(op) = Operator::parse(piece) {
            return Some(Token::BinOp(op));
        }
        if let Some(num) = parse_i32(piece) {
            return Some(Token::Number(num));
        }
        if piece.unicode_len() == 1 {
            let c = piece.get_char(0);
            if c == '(' {
                return Some(Token::LeftParen);
            }
            if c == ')' {
                return Some(Token::RightParen);
            }
        }
        None
    }
}

/// What remains of a tokenization mid-scan: the tokens already produced,
/// followed by whatever the unscanned rest of the input yields.
spec fn tokenize_unfold(done: Seq<Token>, rest: Seq<char>) -> Result<
    Seq<Token>,
    ParseError,
> {
    match Token::spec_classify_all(split_spaces(rest)) {
        Err(e) => Err(e),
        Ok(ts) => Ok(done + ts),
    }
}

/// Classifying a piece sequence starts with its first piece.
proof fn lemma_classify_all_cons(p: Seq<char>, ps: Seq<Seq<char>>)
    ensures
        Token::spec_classify_all(seq![p] + ps) == (match Token::spec_classify(p) {
            None => Err::<Seq<Token>, ParseError>(ParseError::UnrecognizedToken),
            Some(t) => match Token::spec_classify_all(ps) {
                Err(e) => Err(e),
                Ok(ts) => Ok(seq![t] + ts),
            },
        }),
{
    let c = seq![p] + ps;
    assert(c[0] == p);
    assert(c.skip(1) =~= ps);
}

/// Parses an optionally signed decimal integer, exactly as the tokenizer
/// accepts one: `None` on any other shape, and on a value that does not
/// fit an `i32`.
#[verifier::loop_isolation(false)]
fn parse_i32(piece: &str) -> (r: Option<i32>)
    ensures
        r == spec_parse_i32(piece@),
{
    let n: usize = piece.unicode_len();
    if n == 0 {
        return None;
    }
    let first = piece.get_char(0);
    let signed = first == '-' || first == '+';
    let neg = first == '-';
    let start: usize = if signed {
        1
    } else {
        0
    };
    if n <= start {
        return None;
    }
    let ghost ds: Seq<char> = if signed {
        piece@.skip(1)
    } else {
        piece@
    };
    let mut acc: u64 = 0;
    let mut over = false;
    let mut i: usize = start;
    while i < n
        invariant
            start <= i <= n,
            n == piece@.len(),
            signed ==> start == 1,
            !signed ==> start == 0,
            ds == (if signed {
                piece@.skip(1)
            } else {
                piece@
            }),
            forall|j: int| 0 <= j < i - start ==> is_digit(#[trigger] ds[j]),
            !over ==> acc == digits_val(ds.take(i - start)) && acc <= u32::MAX,
            over ==> digits_val(ds.take(i - start)) > u32::MAX,
        decreases n - i,
    {
        let c = piece.get_char(i);
        let v: u32 = c as u32;
        if v < 48 || v > 57 {
            proof {
                assert(ds[i - start] == piece@[i as int]);
                assert(!is_digit(ds[i - start]));
            }
            return None;
        }
        proof {
            assert(ds[i - start] == piece@[i as int]);
            assert(is_digit(ds[i - start]));
            assert(ds.take(i + 1 - start).drop_last() =~= ds.take(i - start));
            assert(ds.take(i + 1 - start).last() == ds[i - start]);
        }
        let d: u64 = (v - 48) as u64;
        if over {
            proof {
                assert(digits_val(ds.take(i + 1 - start)) == digits_val(ds.take(i - start)) * 10 + (
                ds[i - start] as int - '0' as int));
            }
        } else {
            acc = acc * 10 + d;
            if acc > 0xFFFF_FFFF {
                over = true;
            }
        }
        i = i + 1;
    }
    proof {
        assert(ds.take(n - start) =~= ds);
    }
    if over {
        return None;
    }
    if neg {
        if acc > 0x8000_0000 {
            return None;
        }
        if acc == 0x8000_0000 {
            return Some(i32::MIN);
        }
        Some(0i32 - (acc as i32))
    } else {
        if acc > 0x7FFF_FFFF {
            return None;
        }
        Some(acc as i32)
    }
}

} // verus!
