//! The tokenizer: one raw input line becomes a sequence of tokens.
//!
//! A token is either a word fragment (a run of characters that belongs to one
//! logical word) or a separator marking the boundary between words. Adjacent
//! fragments with no separator between them belong to the same logical word;
//! `crate::words` assembles them.
//!
//! The scan honors three quoting forms:
//! - a single-quoted span takes every character up to the closing quote
//!   literally;
//! - a double-quoted span takes characters literally except that a backslash
//!   immediately before one of `\n`, `$`, `"`, `\` escapes that character
//!   (the backslash is dropped); a backslash before any other character is
//!   kept verbatim;
//! - outside quotes a backslash escapes exactly the next character, and a run
//!   of spaces collapses into at most one separator (never a leading one).
//!
//! Malformed input is given a defined meaning rather than rejected: an
//! unterminated quoted span runs to the end of the line and its contents are
//! kept as a literal fragment, and a backslash at the very end of the line
//! escapes nothing and is dropped.
//!
//! The meaning of the scan is a character-at-a-time state machine,
//! [`lex_step`]; [`spec_tokenize`] folds it over the line and is the
//! specification that [`parse_input`] is proved to implement.

use vstd::prelude::*;

use crate::strutil::push_char_from;

verus! {

/// A token of the input line, as executable data.
pub enum Token {
    /// A run of characters belonging to one logical word.
    Fragment(String),
    /// The boundary between two logical words.
    Separator,
}

/// A token of the input line, as mathematical data.
#[verifier::ext_equal]
pub enum TokenView {
    Frag(Seq<char>),
    Sep,
}

impl View for Token {
    type V = TokenView;

    open spec fn view(&self) -> TokenView {
        match self {
            Token::Fragment(s) => TokenView::Frag(s@),
            Token::Separator => TokenView::Sep,
        }
    }
}

impl TokenView {
    /// Whether this token is a word fragment.
    pub open spec fn is_frag(self) -> bool {
        self is Frag
    }

    /// The characters of a fragment token.
    pub open spec fn frag_chars(self) -> Seq<char> {
        self->Frag_0
    }
}

/// The view of a token vector: the sequence of token views.
pub open spec fn toks_view(ts: Seq<Token>) -> Seq<TokenView> {
    ts.map_values(|t: Token| t@)
}

/// Where in the line the scan currently stands.
#[derive(Clone, Copy)]
pub enum Mode {
    /// Outside quotes, not inside a word run.
    Normal,
    /// Outside quotes, inside a word run.
    InWord,
    /// Inside a single-quoted span.
    Single,
    /// Inside a double-quoted span.
    Double,
    /// Inside a double-quoted span, immediately after a backslash.
    DoubleEsc,
    /// Outside quotes, immediately after a backslash.
    OutsideEsc,
}

/// The full state of the scan: the mode, the tokens emitted so far, and the
/// characters of the fragment being built.
#[verifier::ext_equal]
pub struct LexState {
    pub mode: Mode,
    pub out: Seq<TokenView>,
    pub cur: Seq<char>,
}

/// Characters that may start a word run outside quotes: alphanumerics plus
/// `/`, `.`, `-`, and `>` (so redirection operators tokenize as words).
pub open spec fn is_word_char(c: char) -> bool {
    ('a' <= c && c <= 'z') || ('A' <= c && c <= 'Z') || ('0' <= c && c <= '9') || c == '/' || c
        == '.' || c == '>' || c == '-'
}

/// Characters whose special meaning a backslash preserves inside double
/// quotes.
pub open spec fn is_dq_escape(c: char) -> bool {
    c == '\n' || c == '$' || c == '"' || c == '\\'
}

/// Append a separator, unless nothing was emitted yet or the last token
/// already is one: spaces collapse and no line starts with a separator.
pub open spec fn sep_push(out: Seq<TokenView>) -> Seq<TokenView> {
    if out.len() > 0 && out.last().is_frag() {
        out.push(TokenView::Sep)
    } else {
        out
    }
}

/// The state in which the scan of a line begins.
pub open spec fn lex_init() -> LexState {
    LexState { mode: Mode::Normal, out: Seq::empty(), cur: Seq::empty() }
}

/// One step of the scan: consume the character `c`.
pub open spec fn lex_step(st: LexState, c: char) -> LexState {
    match st.mode {
        Mode::Normal => if c == '\'' {
            LexState { mode: Mode::Single, out: st.out, cur: Seq::empty() }
        } else if c == '"' {
            LexState { mode: Mode::Double, out: st.out, cur: Seq::empty() }
        } else if is_word_char(c) {
            LexState { mode: Mode::InWord, out: st.out, cur: seq![c] }
        } else if c == ' ' {
            LexState { mode: Mode::Normal, out: sep_push(st.out), cur: Seq::empty() }
        } else if c == '\\' {
            LexState { mode: Mode::OutsideEsc, out: st.out, cur: Seq::empty() }
        } else {
            // Any other character outside quotes has no meaning and is dropped.
            LexState { mode: Mode::Normal, out: st.out, cur: Seq::empty() }
        },
        Mode::InWord => if c == '\'' {
            LexState { mode: Mode::Single, out: st.out.push(TokenView::Frag(st.cur)), cur: Seq::empty() }
        } else if c == '"' {
            LexState { mode: Mode::Double, out: st.out.push(TokenView::Frag(st.cur)), cur: Seq::empty() }
        } else if c == ' ' {
            LexState {
                mode: Mode::Normal,
                out: sep_push(st.out.push(TokenView::Frag(st.cur))),
                cur: Seq::empty(),
            }
        } else if c == '\\' {
            LexState { mode: Mode::OutsideEsc, out: st.out.push(TokenView::Frag(st.cur)), cur: Seq::empty() }
        } else {
            // A word run, once begun, is broken only by a quote, a space, or
            // a backslash.
            LexState { mode: Mode::InWord, out: st.out, cur: st.cur.push(c) }
        },
        Mode::Single => if c == '\'' {
            LexState { mode: Mode::Normal, out: st.out.push(TokenView::Frag(st.cur)), cur: Seq::empty() }
        } else {
            LexState { mode: Mode::Single, out: st.out, cur: st.cur.push(c) }
        },
        Mode::Double => if c == '"' {
            LexState { mode: Mode::Normal, out: st.out.push(TokenView::Frag(st.cur)), cur: Seq::empty() }
        } else if c == '\\' {
            LexState { mode: Mode::DoubleEsc, out: st.out, cur: st.cur }
        } else {
            LexState { mode: Mode::Double, out: st.out, cur: st.cur.push(c) }
        },
        Mode::DoubleEsc => if is_dq_escape(c) {
            LexState {
                mode: Mode::Double,
                out: st.out.push(TokenView::Frag(st.cur)).push(TokenView::Frag(seq![c])),
                cur: Seq::empty(),
            }
        } else {
            LexState { mode: Mode::Double, out: st.out, cur: st.cur.push('\\').push(c) }
        },
        Mode::OutsideEsc => LexState {
            mode: Mode::Normal,
            out: st.out.push(TokenView::Frag(seq![c])),
            cur: Seq::empty(),
        },
    }
}

/// Fold the scan over a sequence of characters.
pub open spec fn lex_run(st: LexState, s: Seq<char>) -> LexState
    decreases s.len(),
{
    if s.len() == 0 {
        st
    } else {
        lex_run(lex_step(st, s[0]), s.drop_first())
    }
}

/// Close the scan at the end of the line: an open quoted span keeps its
/// contents as a literal fragment; a pending backslash inside double quotes
/// is kept verbatim; a pending backslash outside quotes escapes nothing and
/// is dropped.
pub open spec fn lex_finish(st: LexState) -> Seq<TokenView> {
    match st.mode {
        Mode::Normal => st.out,
        Mode::InWord => st.out.push(TokenView::Frag(st.cur)),
        Mode::Single => st.out.push(TokenView::Frag(st.cur)),
        Mode::Double => st.out.push(TokenView::Frag(st.cur)),
        Mode::DoubleEsc => st.out.push(TokenView::Frag(st.cur.push('\\'))),
        Mode::OutsideEsc => st.out,
    }
}

/// The tokens of a whole input line.
pub open spec fn spec_tokenize(s: Seq<char>) -> Seq<TokenView> {
    lex_finish(lex_run(lex_init(), s))
}

/// Running the scan over `a + b` is running it over `a`, then over `b`.
pub proof fn lemma_lex_run_concat(st: LexState, a: Seq<char>, b: Seq<char>)
    ensures
        lex_run(st, a + b) == lex_run(lex_run(st, a), b),
    decreases a.len(),
{
    if a.len() == 0 {
        assert(a + b =~= b);
    } else {
        assert((a + b).drop_first() =~= a.drop_first() + b);
        lemma_lex_run_concat(lex_step(st, a[0]), a.drop_first(), b);
    }
}

/// The shape separators always have: none leads the token list, and each
/// one directly follows a fragment — so separators never stand adjacent.
pub open spec fn seps_well_placed(ts: Seq<TokenView>) -> bool {
    &&& ts.len() > 0 ==> ts[0].is_frag()
    &&& forall|i: int| 0 < i < ts.len() && (#[trigger] ts[i]) is Sep ==> ts[i - 1].is_frag()
}

proof fn lemma_step_seps(st: LexState, c: char)
    requires
        seps_well_placed(st.out),
    ensures
        seps_well_placed(lex_step(st, c).out),
{
    let out = lex_step(st, c).out;
    assert forall|i: int| 0 < i < out.len() && (#[trigger] out[i]) is Sep implies out[i
        - 1].is_frag() by {
        if i < st.out.len() {
            assert(out[i] == st.out[i]);
            assert(out[i - 1] == st.out[i - 1]);
        }
    }
}

proof fn lemma_run_seps(st: LexState, s: Seq<char>)
    requires
        seps_well_placed(st.out),
    ensures
        seps_well_placed(lex_run(st, s).out),
    decreases s.len(),
{
    if s.len() > 0 {
        lemma_step_seps(st, s[0]);
        lemma_run_seps(lex_step(st, s[0]), s.drop_first());
    }
}

/// Tokenizing any line yields separators only between words: never a
/// leading separator, and never two in a row, however many spaces the line
/// holds and wherever they stand.
pub proof fn lemma_separators_well_placed(s: Seq<char>)
    ensures
        seps_well_placed(spec_tokenize(s)),
{
    lemma_run_seps(lex_init(), s);
    let end = lex_run(lex_init(), s);
    let ts = spec_tokenize(s);
    assert forall|i: int| 0 < i < ts.len() && (#[trigger] ts[i]) is Sep implies ts[i
        - 1].is_frag() by {
        if i < end.out.len() {
            assert(ts[i] == end.out[i]);
            assert(ts[i - 1] == end.out[i - 1]);
        }
    }
}

/// Tokenize one raw input line.
pub fn parse_input(line: &str) -> (r: Vec<Token>)
    ensures
        toks_view(r@) == spec_tokenize(line@),
{
    let n = line.unicode_len();
    let mut out: Vec<Token> = Vec::new();
    let mut cur = String::new();
    let mut mode = Mode::Normal;
    let mut i: usize = 0;
    proof {
        assert(line@.skip(0) =~= line@);
        assert(LexState { mode: mode, out: toks_view(out@), cur: cur@ } =~~= lex_init());
    }
    while i < n
        invariant
            n == line@.len(),
            i <= n,
            mode is Normal ==> cur@.len() == 0,
            lex_run(lex_init(), line@) == lex_run(
                LexState { mode: mode, out: toks_view(out@), cur: cur@ },
                line@.skip(i as int),
            ),
        decreases n - i,
    {
        let ghost st = LexState { mode: mode, out: toks_view(out@), cur: cur@ };
        proof {
            assert(line@.skip(i as int).drop_first() =~= line@.skip(i + 1));
            assert(line@.skip(i as int)[0] == line@[i as int]);
        }
        let c = line.get_char(i);
        match mode {
            Mode::Normal => {
                if c == '\'' {
                    mode = Mode::Single;
                } else if c == '"' {
                    mode = Mode::Double;
                } else if is_word_char_exec(c) {
                    cur = String::new();
                    push_char_from(&mut cur, line, i);
                    mode = Mode::InWord;
                } else if c == ' ' {
                    push_separator(&mut out);
                } else if c == '\\' {
                    mode = Mode::OutsideEsc;
                }
            },
            Mode::InWord => {
                if c == '\'' {
                    out.push(Token::Fragment(cur));
                    cur = String::new();
                    mode = Mode::Single;
                } else if c == '"' {
                    out.push(Token::Fragment(cur));
                    cur = String::new();
                    mode = Mode::Double;
                } else if c == ' ' {
                    out.push(Token::Fragment(cur));
                    cur = String::new();
                    push_separator(&mut out);
                    mode = Mode::Normal;
                } else if c == '\\' {
                    out.push(Token::Fragment(cur));
                    cur = String::new();
                    mode = Mode::OutsideEsc;
                } else {
                    push_char_from(&mut cur, line, i);
                }
            },
            Mode::Single => {
                if c == '\'' {
                    out.push(Token::Fragment(cur));
                    cur = String::new();
                    mode = Mode::Normal;
                } else {
                    push_char_from(&mut cur, line, i);
                }
            },
            Mode::Double => {
                if c == '"' {
                    out.push(Token::Fragment(cur));
                    cur = String::new();
                    mode = Mode::Normal;
                } else if c == '\\' {
                    mode = Mode::DoubleEsc;
                } else {
                    push_char_from(&mut cur, line, i);
                }
            },
            Mode::DoubleEsc => {
                if c == '\n' || c == '$' || c == '"' || c == '\\' {
                    out.push(Token::Fragment(cur));
                    cur = String::new();
                    push_char_from(&mut cur, line, i);
                    out.push(Token::Fragment(cur));
                    cur = String::new();
                } else {
                    cur.append("\\");
                    proof {
                        reveal_strlit("\\");
                        assert(cur@ =~= st.cur.push('\\'));
                    }
                    push_char_from(&mut cur, line, i);
                }
                mode = Mode::Double;
            },
            Mode::OutsideEsc => {
                cur = String::new();
                push_char_from(&mut cur, line, i);
                out.push(Token::Fragment(cur));
                cur = String::new();
                mode = Mode::Normal;
            },
        }
        proof {
            let stepped = lex_step(st, line@[i as int]);
            assert(toks_view(out@) =~~= stepped.out);
            assert(cur@ =~= stepped.cur);
            assert(LexState { mode: mode, out: toks_view(out@), cur: cur@ } =~~= stepped);
        }
        i += 1;
    }
    proof {
        assert(line@.skip(n as int) =~= Seq::<char>::empty());
    }
    match mode {
        Mode::Normal => {},
        Mode::InWord => {
            out.push(Token::Fragment(cur));
        },
        Mode::Single => {
            out.push(Token::Fragment(cur));
        },
        Mode::Double => {
            out.push(Token::Fragment(cur));
        },
        Mode::DoubleEsc => {
            cur.append("\\");
            proof {
                reveal_strlit("\\");
            }
            out.push(Token::Fragment(cur));
        },
        Mode::OutsideEsc => {},
    }
    proof {
        assert(toks_view(out@) =~~= spec_tokenize(line@));
    }
    out
}

/// Executable test for [`is_word_char`].
fn is_word_char_exec(c: char) -> (b: bool)
    ensures
        b == is_word_char(c),
{
    ('a' <= c && c <= 'z') || ('A' <= c && c <= 'Z') || ('0' <= c && c <= '9') || c == '/' || c
        == '.' || c == '>' || c == '-'
}

/// Append a separator token as [`sep_push`] says.
fn push_separator(out: &mut Vec<Token>)
    ensures
        toks_view(final(out)@) == sep_push(toks_view(old(out)@)),
{
    let n = out.len();
    let needs = if n > 0 {
        match &out[n - 1] {
            Token::Fragment(_) => true,
            Token::Separator => false,
        }
    } else {
        false
    };
    if needs {
        out.push(Token::Separator);
        assert(toks_view(out@) =~= sep_push(toks_view(old(out)@)));
    } else {
        assert(toks_view(out@) =~= sep_push(toks_view(old(out)@)));
    }
}

} // verus!
