//! Lexical analysis: one left-to-right scan over the characters of an
//! expression, producing the token sequence. Bare operator characters
//! are all classified as binary here; unary resolution happens in the
//! reorderer.

use vstd::prelude::*;

use crate::analyzer::token::{
    spec_binary_token, spec_delim_token, spec_function_token, spec_number_token, spec_paren_token,
    toks_view, Delim, Paren, Token, TokenV,
};
use crate::error::{Error, ErrorV};
use crate::number::is_digit;

verus! {

/// Whether the character is an ASCII letter. Identifiers are made of
/// these.
pub open spec fn is_letter(c: char) -> bool {
    ('a' as u32 <= c as u32 && c as u32 <= 'z' as u32) || ('A' as u32 <= c as u32 && c as u32
        <= 'Z' as u32)
}

/// Whether the character is blank space the lexer skips.
pub open spec fn is_space(c: char) -> bool {
    c == ' ' || c == '\t' || c == '\r' || c == '\n'
}

/// Whether the character writes a binary operator.
pub open spec fn is_op_char(c: char) -> bool {
    c == '+' || c == '-' || c == '*' || c == '/' || c == '%' || c == '^'
}

/// The lexer's running state: the tokens emitted so far, the pending
/// number buffer with its dot flag and start column, the pending
/// identifier buffer with its start column, and the current line.
pub ghost struct LexState {
    pub toks: Seq<TokenV>,
    pub num: Seq<char>,
    pub dot: bool,
    pub num_start: nat,
    pub fname: Seq<char>,
    pub fname_start: nat,
    pub line: nat,
}

/// The state the lexer starts in: nothing emitted, nothing pending,
/// line one.
pub open spec fn lex_init() -> LexState {
    LexState {
        toks: Seq::empty(),
        num: Seq::empty(),
        dot: false,
        num_start: 0,
        fname: Seq::empty(),
        fname_start: 0,
        line: 1,
    }
}

/// Flush the pending buffers, number first, each as a completed token
/// standing at its recorded start column.
pub open spec fn lex_flush(st: LexState) -> LexState {
    let st1 = if st.num.len() > 0 {
        LexState {
            toks: st.toks.push(spec_number_token(st.num, st.line, st.num_start)),
            num: Seq::empty(),
            dot: false,
            num_start: 0,
            fname: st.fname,
            fname_start: st.fname_start,
            line: st.line,
        }
    } else {
        st
    };
    if st1.fname.len() > 0 {
        LexState {
            toks: st1.toks.push(spec_function_token(st1.fname, st1.line, st1.fname_start)),
            num: st1.num,
            dot: st1.dot,
            num_start: st1.num_start,
            fname: Seq::empty(),
            fname_start: 0,
            line: st1.line,
        }
    } else {
        st1
    }
}

/// One lexer step on the character at index `i` (so at column `i + 1`).
/// In priority order: a digit or a first dot extends the number
/// buffer, a second dot is fatal, a letter extends the identifier
/// buffer; any other character first flushes the buffers and then
/// stands for itself: blank space is skipped (a newline bumps the
/// line), parentheses, operators and the comma become tokens, and
/// anything else is fatal.
pub open spec fn lex_step(st: LexState, c: char, i: nat) -> Result<LexState, ErrorV> {
    if is_digit(c) {
        Ok(
            LexState {
                toks: st.toks,
                num: st.num.push(c),
                dot: st.dot,
                num_start: if st.num.len() == 0 {
                    i + 1
                } else {
                    st.num_start
                },
                fname: st.fname,
                fname_start: st.fname_start,
                line: st.line,
            },
        )
    } else if c == '.' && !st.dot {
        Ok(
            LexState {
                toks: st.toks,
                num: st.num.push(c),
                dot: true,
                num_start: if st.num.len() == 0 {
                    i + 1
                } else {
                    st.num_start
                },
                fname: st.fname,
                fname_start: st.fname_start,
                line: st.line,
            },
        )
    } else if c == '.' {
        Err(ErrorV::UnexpectedDot { line: st.line, column: i + 1 })
    } else if is_letter(c) {
        Ok(
            LexState {
                toks: st.toks,
                num: st.num,
                dot: st.dot,
                num_start: st.num_start,
                fname: st.fname.push(c),
                fname_start: if st.fname.len() == 0 {
                    i + 1
                } else {
                    st.fname_start
                },
                line: st.line,
            },
        )
    } else {
        let st1 = lex_flush(st);
        if is_space(c) {
            Ok(
                LexState {
                    toks: st1.toks,
                    num: st1.num,
                    dot: st1.dot,
                    num_start: st1.num_start,
                    fname: st1.fname,
                    fname_start: st1.fname_start,
                    line: if c == '\n' {
                        st1.line + 1
                    } else {
                        st1.line
                    },
                },
            )
        } else if c == '(' {
            Ok(
                LexState {
                    toks: st1.toks.push(spec_paren_token(Paren::Open, st1.line, i + 1)),
                    num: st1.num,
                    dot: st1.dot,
                    num_start: st1.num_start,
                    fname: st1.fname,
                    fname_start: st1.fname_start,
                    line: st1.line,
                },
            )
        } else if c == ')' {
            Ok(
                LexState {
                    toks: st1.toks.push(spec_paren_token(Paren::Close, st1.line, i + 1)),
                    num: st1.num,
                    dot: st1.dot,
                    num_start: st1.num_start,
                    fname: st1.fname,
                    fname_start: st1.fname_start,
                    line: st1.line,
                },
            )
        } else if is_op_char(c) {
            Ok(
                LexState {
                    toks: st1.toks.push(
                        spec_binary_token(crate::analyzer::token::spec_bin_of_char(c)->Some_0, st1.line, i + 1),
                    ),
                    num: st1.num,
                    dot: st1.dot,
                    num_start: st1.num_start,
                    fname: st1.fname,
                    fname_start: st1.fname_start,
                    line: st1.line,
                },
            )
        } else if c == ',' {
            Ok(
                LexState {
                    toks: st1.toks.push(spec_delim_token(Delim::Comma, st1.line, i + 1)),
                    num: st1.num,
                    dot: st1.dot,
                    num_start: st1.num_start,
                    fname: st1.fname,
                    fname_start: st1.fname_start,
                    line: st1.line,
                },
            )
        } else {
            Err(ErrorV::UnexpectedCharacter { line: st1.line, column: i + 1 })
        }
    }
}

/// Run the lexer from index `i` to the end of the input.
pub open spec fn lex_all(s: Seq<char>, i: nat, st: LexState) -> Result<LexState, ErrorV>
    decreases s.len() - i,
{
    if i >= s.len() {
        Ok(st)
    } else {
        match lex_step(st, s[i as int], i) {
            Ok(st2) => lex_all(s, i + 1, st2),
            Err(e) => Err(e),
        }
    }
}

/// The token sequence of an expression's text: scan every character,
/// then flush whatever number or identifier is still pending.
pub open spec fn spec_tokenize(s: Seq<char>) -> Result<Seq<TokenV>, ErrorV> {
    match lex_all(s, 0, lex_init()) {
        Ok(st) => Ok(lex_flush(st).toks),
        Err(e) => Err(e),
    }
}

/// Scan an expression's characters once, left to right, into its token
/// sequence; fatal on a second dot inside one number and on any
/// character outside the grammar.
pub fn tokenize(expression: &str) -> (r: Result<Vec<Token>, Error>)
    requires
        expression@.len() < usize::MAX,
    ensures
        (r matches Ok(toks) ==> spec_tokenize(expression@) == Ok::<Seq<TokenV>, ErrorV>(
            toks_view(toks@),
        )),
        (r matches Err(e) ==> spec_tokenize(expression@) == Err::<Seq<TokenV>, ErrorV>(e@)),
{
    let ghost s = expression@;
    let n = expression.unicode_len();
    let mut toks: Vec<Token> = Vec::new();
    let mut num: Vec<char> = Vec::new();
    let mut dot = false;
    let mut num_start: usize = 0;
    let mut fname: Vec<char> = Vec::new();
    let mut fname_start: usize = 0;
    let mut line: usize = 1;
    let mut i: usize = 0;
    proof {
        assert(toks_view(toks@) =~= Seq::<TokenV>::empty());
    }
    while i < n
        invariant
            n as nat == s.len(),
            s.len() < usize::MAX,
            s == expression@,
            i <= n,
            line <= i + 1,
            lex_all(s, i as nat, (LexState {
                toks: toks_view(toks@),
                num: num@,
                dot,
                num_start: num_start as nat,
                fname: fname@,
                fname_start: fname_start as nat,
                line: line as nat,
            })) == lex_all(s, 0, lex_init()),
        decreases n - i,
    {
        let ghost st = LexState {
            toks: toks_view(toks@),
            num: num@,
            dot,
            num_start: num_start as nat,
            fname: fname@,
            fname_start: fname_start as nat,
            line: line as nat,
        };
        let c = expression.get_char(i);
        let cu = c as u32;
        if 48 <= cu && cu <= 57 {
            if num.len() == 0 {
                num_start = i + 1;
            }
            num.push(c);
        } else if c == '.' && !dot {
            if num.len() == 0 {
                num_start = i + 1;
            }
            num.push(c);
            dot = true;
        } else if c == '.' {
            return Err(Error::UnexpectedDot { line, column: i + 1 });
        } else if (97 <= cu && cu <= 122) || (65 <= cu && cu <= 90) {
            proof {
                assert(is_letter(c));
            }
            if fname.len() == 0 {
                fname_start = i + 1;
            }
            fname.push(c);
        } else {
            proof {
                assert(!is_digit(c) && !is_letter(c) && c != '.');
            }
            if num.len() > 0 {
                let text = num;
                num = Vec::new();
                dot = false;
                toks.push(Token::number(text, line, num_start));
                num_start = 0;
            }
            if fname.len() > 0 {
                let text = fname;
                fname = Vec::new();
                toks.push(Token::function(text, line, fname_start));
                fname_start = 0;
            }
            proof {
                assert(toks_view(toks@) =~= lex_flush(st).toks);
            }
            if c == ' ' || c == '\t' || c == '\r' || c == '\n' {
                if c == '\n' {
                    line = line + 1;
                }
            } else if c == '(' || c == ')' {
                let t = Token::parenthesis(c, line, i + 1).unwrap();
                toks.push(t);
            } else if c == '+' || c == '-' || c == '*' || c == '/' || c == '%' || c == '^' {
                let t = Token::binary_op(c, line, i + 1).unwrap();
                toks.push(t);
            } else if c == ',' {
                let t = Token::delimiter(c, line, i + 1).unwrap();
                toks.push(t);
            } else {
                return Err(Error::UnexpectedCharacter { line, column: i + 1 });
            }
        }
        proof {
            let st2 = LexState {
                toks: toks_view(toks@),
                num: num@,
                dot,
                num_start: num_start as nat,
                fname: fname@,
                fname_start: fname_start as nat,
                line: line as nat,
            };
            let stepped = lex_step(st, s[i as int], i as nat);
            assert(stepped is Ok);
            let st3 = stepped->Ok_0;
            assert(st3.toks =~= st2.toks);
            assert(st3.num =~= st2.num);
            assert(st3.fname =~= st2.fname);
            assert(st3 == st2);
        }
        i = i + 1;
    }
    let ghost st = LexState {
        toks: toks_view(toks@),
        num: num@,
        dot,
        num_start: num_start as nat,
        fname: fname@,
        fname_start: fname_start as nat,
        line: line as nat,
    };
    if num.len() > 0 {
        let text = num;
        num = Vec::new();
        toks.push(Token::number(text, line, num_start));
    }
    if fname.len() > 0 {
        let text = fname;
        fname = Vec::new();
        toks.push(Token::function(text, line, fname_start));
    }
    proof {
        assert(toks_view(toks@) =~= lex_flush(st).toks);
    }
    Ok(toks)
}

} // verus!
