//! Laws of the quoting forms.
//!
//! These proof functions state, against the tokenizer's state machine, what
//! the two quoting forms guarantee: a single-quoted span keeps its contents
//! literally as one fragment, and a double-quoted span unescapes exactly the
//! backslash pairs in the escape set while keeping every other character —
//! other backslashes included — verbatim.

use vstd::prelude::*;

use crate::lexer::{
    is_dq_escape, lex_init, lex_run, lex_step, spec_tokenize, LexState, Mode, TokenView,
};
use crate::words::{words_from, words_of};

verus! {

/// Whether every token is a word fragment.
pub open spec fn all_frags(ts: Seq<TokenView>) -> bool {
    forall|i: int| 0 <= i < ts.len() ==> (#[trigger] ts[i]).is_frag()
}

/// The concatenated characters of a sequence of fragments.
pub open spec fn frags_concat(ts: Seq<TokenView>) -> Seq<char>
    decreases ts.len(),
{
    if ts.len() == 0 {
        Seq::empty()
    } else {
        ts[0].frag_chars() + frags_concat(ts.drop_first())
    }
}

/// Whether a double-quoted span with body `body` runs to a plain closing
/// quote: no unescaped `"` inside, and no trailing backslash that would
/// escape the closing quote itself.
pub open spec fn dq_plain(body: Seq<char>) -> bool
    decreases body.len(),
{
    if body.len() == 0 {
        true
    } else if body[0] == '"' {
        false
    } else if body[0] == '\\' {
        if body.len() == 1 {
            false
        } else {
            dq_plain(body.skip(2))
        }
    } else {
        dq_plain(body.skip(1))
    }
}

/// The text a double-quoted body stands for: a backslash before one of
/// `\n`, `$`, `"`, `\` is dropped and the escaped character kept; a
/// backslash before anything else is kept verbatim along with what follows.
pub open spec fn dq_unescape(body: Seq<char>) -> Seq<char>
    decreases body.len(),
{
    if body.len() == 0 {
        Seq::empty()
    } else if body[0] == '\\' && body.len() >= 2 {
        if is_dq_escape(body[1]) {
            seq![body[1]] + dq_unescape(body.skip(2))
        } else {
            seq!['\\', body[1]] + dq_unescape(body.skip(2))
        }
    } else {
        seq![body[0]] + dq_unescape(body.skip(1))
    }
}

/// Inside a single-quoted span, every character up to the closing quote is
/// taken as it stands.
proof fn lemma_single_run(st: LexState, body: Seq<char>)
    requires
        st.mode is Single,
        forall|i: int| 0 <= i < body.len() ==> body[i] != '\'',
    ensures
        lex_run(st, body) == (LexState { mode: Mode::Single, out: st.out, cur: st.cur + body }),
    decreases body.len(),
{
    if body.len() == 0 {
        assert(st.cur + body =~= st.cur);
        assert(lex_run(st, body) =~~= LexState { mode: Mode::Single, out: st.out, cur: st.cur + body });
    } else {
        let stepped = lex_step(st, body[0]);
        assert(stepped == (LexState { mode: Mode::Single, out: st.out, cur: st.cur.push(body[0]) }));
        assert(forall|i: int|
            0 <= i < body.drop_first().len() ==> #[trigger] body.drop_first()[i] == body[i + 1]);
        lemma_single_run(stepped, body.drop_first());
        assert(st.cur.push(body[0]) + body.drop_first() =~= st.cur + body);
    }
}

/// A single-quoted span, scanned from outside a word, emits exactly one
/// fragment holding its contents literally — interior spaces and all — and
/// leaves the scan back outside a word.
pub proof fn lemma_single_quote_span(st: LexState, body: Seq<char>)
    requires
        st.mode is Normal,
        st.cur == Seq::<char>::empty(),
        forall|i: int| 0 <= i < body.len() ==> body[i] != '\'',
    ensures
        lex_run(st, seq!['\''] + body + seq!['\'']) == (LexState {
            mode: Mode::Normal,
            out: st.out.push(TokenView::Frag(body)),
            cur: Seq::<char>::empty(),
        }),
{
    let s = seq!['\''] + body + seq!['\''];
    let opened = lex_step(st, '\'');
    assert(opened == (LexState { mode: Mode::Single, out: st.out, cur: Seq::<char>::empty() }));
    assert(s[0] == '\'');
    assert(s.drop_first() =~= body.push('\''));
    lemma_single_run(opened, body);
    crate::lexer::lemma_lex_run_concat(opened, body, seq!['\'']);
    assert(body.push('\'') =~= body + seq!['\'']);
    let inside = lex_run(opened, body);
    assert(inside.cur =~= body);
    let closed = lex_step(inside, '\'');
    assert(lex_run(inside, seq!['\'']) == lex_run(closed, seq!['\''].drop_first()));
    assert(seq!['\''].drop_first() =~= Seq::<char>::empty());
}

/// Tokenizing a line that is one single-quoted span yields one logical
/// word: the quoted text, preserved literally.
pub proof fn lemma_single_quoted_word(body: Seq<char>)
    requires
        forall|i: int| 0 <= i < body.len() ==> body[i] != '\'',
    ensures
        words_of(spec_tokenize(seq!['\''] + body + seq!['\''])) == seq![body],
{
    lemma_single_quote_span(lex_init(), body);
    let ts = spec_tokenize(seq!['\''] + body + seq!['\'']);
    assert(ts =~= seq![TokenView::Frag(body)]);
    assert(ts.drop_first() =~= Seq::<TokenView>::empty());
    assert(words_of(ts) == words_from(Some(Seq::<char>::empty() + body), ts.drop_first()));
    assert(Seq::<char>::empty() + body =~= body);
}

/// Inside a double-quoted span, the scan up to the closing quote emits only
/// fragments, whose concatenation is the pending text plus the unescaped
/// body; earlier tokens stay untouched.
proof fn lemma_double_run(st: LexState, body: Seq<char>)
    requires
        st.mode is Double,
        dq_plain(body),
    ensures
        ({
            let end = lex_run(st, body.push('"'));
            &&& end.mode is Normal
            &&& end.cur == Seq::<char>::empty()
            &&& end.out.len() > st.out.len()
            &&& end.out.take(st.out.len() as int) == st.out
            &&& all_frags(end.out.skip(st.out.len() as int))
            &&& frags_concat(end.out.skip(st.out.len() as int)) == st.cur + dq_unescape(body)
        }),
    decreases body.len(),
{
    let s = body.push('"');
    let end = lex_run(st, s);
    if body.len() == 0 {
        assert(s[0] == '"');
        assert(s.drop_first() =~= Seq::<char>::empty());
        let closed = lex_step(st, '"');
        assert(end == lex_run(closed, s.drop_first()));
        assert(lex_run(closed, Seq::<char>::empty()) == closed);
        assert(end == closed);
        assert(end.out.take(st.out.len() as int) =~= st.out);
        let single = end.out.skip(st.out.len() as int);
        assert(single =~= seq![TokenView::Frag(st.cur)]);
        assert(single.drop_first() =~= Seq::<TokenView>::empty());
        assert(frags_concat(single.drop_first()) == Seq::<char>::empty());
        assert(frags_concat(single) == st.cur + Seq::<char>::empty());
        assert(dq_unescape(body) == Seq::<char>::empty());
        assert(frags_concat(single) =~= st.cur + dq_unescape(body));
    } else if body[0] == '\\' {
        assert(body.len() >= 2);
        let esc = body[1];
        assert(s[0] == '\\');
        assert(s.drop_first() =~= body.drop_first().push('"'));
        assert(body.drop_first().push('"')[0] == esc);
        assert(body.drop_first().push('"').drop_first() =~= body.skip(2).push('"'));
        let st1 = lex_step(st, '\\');
        assert(st1 == (LexState { mode: Mode::DoubleEsc, out: st.out, cur: st.cur }));
        let st2 = lex_step(st1, esc);
        assert(end == lex_run(st2, body.skip(2).push('"')));
        lemma_double_run(st2, body.skip(2));
        let rest = lex_run(st2, body.skip(2).push('"'));
        if is_dq_escape(esc) {
            let two = seq![TokenView::Frag(st.cur), TokenView::Frag(seq![esc])];
            assert(st2.out == st.out + two) by {
                assert(st.out.push(TokenView::Frag(st.cur)).push(TokenView::Frag(seq![esc])) =~= st.out
                    + two);
            }
            assert(st2.out.len() == st.out.len() + 2);
            assert(end.out.take(st2.out.len() as int) == st2.out);
            let mid = end.out.skip(st.out.len() as int);
            let tail = end.out.skip(st2.out.len() as int);
            assert(end.out.take(st.out.len() as int) =~= st.out) by {
                assert(forall|i: int|
                    0 <= i < st.out.len() ==> #[trigger] end.out[i] == end.out.take(
                        st2.out.len() as int,
                    )[i]);
            }
            assert forall|j: int| 0 <= j < mid.len() implies mid[j] == (two + tail)[j] by {
                if j < 2 {
                    assert(end.out[st.out.len() + j] == end.out.take(st2.out.len() as int)[st.out.len()
                        + j]);
                } else {
                    assert(mid[j] == end.out[st.out.len() + j]);
                    assert(tail[j - 2] == end.out[st2.out.len() + (j - 2)]);
                }
            }
            assert(mid =~= two + tail);
            assert(mid.drop_first() =~= seq![TokenView::Frag(seq![esc])] + tail);
            assert((seq![TokenView::Frag(seq![esc])] + tail).drop_first() =~= tail);
            assert(frags_concat(tail) =~= dq_unescape(body.skip(2))) by {
                assert(st2.cur + dq_unescape(body.skip(2)) =~= dq_unescape(body.skip(2)));
            }
            assert(frags_concat(mid) == st.cur + frags_concat(mid.drop_first()));
            assert(frags_concat(mid.drop_first()) == seq![esc] + frags_concat(tail)) by {
                assert(mid.drop_first()[0] == TokenView::Frag(seq![esc]));
            }
            assert(dq_unescape(body) == seq![esc] + dq_unescape(body.skip(2)));
            assert(frags_concat(mid) =~= st.cur + dq_unescape(body));
            assert(all_frags(mid));
        } else {
            assert(st2 == (LexState {
                mode: Mode::Double,
                out: st.out,
                cur: st.cur.push('\\').push(esc),
            }));
            assert(st.cur.push('\\').push(esc) + dq_unescape(body.skip(2)) =~= st.cur + (seq![
                '\\',
                esc,
            ] + dq_unescape(body.skip(2))));
            assert(frags_concat(end.out.skip(st.out.len() as int)) == st.cur + dq_unescape(body));
        }
    } else {
        assert(s[0] == body[0]);
        assert(s.drop_first() =~= body.skip(1).push('"'));
        let st1 = lex_step(st, body[0]);
        assert(st1 == (LexState { mode: Mode::Double, out: st.out, cur: st.cur.push(body[0]) }));
        lemma_double_run(st1, body.skip(1));
        assert(st.cur.push(body[0]) + dq_unescape(body.skip(1)) =~= st.cur + (seq![body[0]]
            + dq_unescape(body.skip(1))));
        assert(frags_concat(end.out.skip(st.out.len() as int)) == st.cur + dq_unescape(body));
    }
}

/// A double-quoted span, scanned from outside a word, emits one or more
/// fragments whose concatenation is exactly the unescaped body: only a
/// backslash before `\n`, `$`, `"` or `\` is unescaped, and everything else
/// is kept verbatim.
pub proof fn lemma_double_quote_span(st: LexState, body: Seq<char>)
    requires
        st.mode is Normal,
        st.cur == Seq::<char>::empty(),
        dq_plain(body),
    ensures
        ({
            let end = lex_run(st, seq!['"'] + body + seq!['"']);
            &&& end.mode is Normal
            &&& end.cur == Seq::<char>::empty()
            &&& end.out.len() > st.out.len()
            &&& end.out.take(st.out.len() as int) == st.out
            &&& all_frags(end.out.skip(st.out.len() as int))
            &&& frags_concat(end.out.skip(st.out.len() as int)) == dq_unescape(body)
        }),
{
    let s = seq!['"'] + body + seq!['"'];
    assert(s[0] == '"');
    assert(s.drop_first() =~= body.push('"'));
    let opened = lex_step(st, '"');
    assert(opened == (LexState { mode: Mode::Double, out: st.out, cur: Seq::<char>::empty() }));
    lemma_double_run(opened, body);
    assert(Seq::<char>::empty() + dq_unescape(body) =~= dq_unescape(body));
}

/// Tokenizing a line that is one double-quoted span yields one logical
/// word: the unescaped body.
pub proof fn lemma_double_quoted_word(body: Seq<char>)
    requires
        dq_plain(body),
    ensures
        words_of(spec_tokenize(seq!['"'] + body + seq!['"'])) == seq![dq_unescape(body)],
{
    lemma_double_quote_span(lex_init(), body);
    let end = lex_run(lex_init(), seq!['"'] + body + seq!['"']);
    let ts = spec_tokenize(seq!['"'] + body + seq!['"']);
    assert(ts == end.out);
    assert(end.out.skip(0) =~= end.out);
    lemma_words_of_frags(ts);
}

/// A sequence of fragments alone assembles into one word: their
/// concatenation.
proof fn lemma_words_of_frags(ts: Seq<TokenView>)
    requires
        all_frags(ts),
        ts.len() > 0,
    ensures
        words_of(ts) == seq![frags_concat(ts)],
{
    assert(ts[0].is_frag());
    let f0 = ts[0].frag_chars();
    assert(words_of(ts) == words_from(Some(Seq::<char>::empty() + f0), ts.drop_first()));
    assert(forall|i: int|
        0 <= i < ts.drop_first().len() ==> #[trigger] ts.drop_first()[i] == ts[i + 1]);
    lemma_words_from_frags(Seq::<char>::empty() + f0, ts.drop_first());
    assert(Seq::<char>::empty() + f0 + frags_concat(ts.drop_first()) =~= frags_concat(ts));
}

proof fn lemma_words_from_frags(acc: Seq<char>, ts: Seq<TokenView>)
    requires
        all_frags(ts),
    ensures
        words_from(Some(acc), ts) == seq![acc + frags_concat(ts)],
    decreases ts.len(),
{
    if ts.len() == 0 {
        assert(acc + frags_concat(ts) =~= acc);
        assert(seq![acc + frags_concat(ts)] =~= seq![acc]);
    } else {
        assert(ts[0].is_frag());
        let f0 = ts[0].frag_chars();
        assert(forall|i: int|
            0 <= i < ts.drop_first().len() ==> #[trigger] ts.drop_first()[i] == ts[i + 1]);
        lemma_words_from_frags(acc + f0, ts.drop_first());
        assert(acc + f0 + frags_concat(ts.drop_first()) =~= acc + frags_concat(ts));
        assert(seq![acc + f0 + frags_concat(ts.drop_first())] =~= seq![acc + frags_concat(ts)]);
    }
}

/// A double-quoted body in which no backslash stands before a character of
/// the escape set is preserved verbatim, backslashes included.
pub proof fn lemma_dq_verbatim(body: Seq<char>)
    requires
        forall|i: int|
            0 <= i < body.len() ==> ((#[trigger] body[i]) == '\\' ==> (i + 1 == body.len() || !is_dq_escape(
                body[i + 1],
            ))),
    ensures
        dq_unescape(body) == body,
    decreases body.len(),
{
    if body.len() == 0 {
    } else if body[0] == '\\' && body.len() >= 2 {
        assert(!is_dq_escape(body[1]));
        assert(forall|i: int|
            0 <= i < body.skip(2).len() ==> #[trigger] body.skip(2)[i] == body[i + 2]);
        lemma_dq_verbatim(body.skip(2));
        assert(seq!['\\', body[1]] + body.skip(2) =~= body);
    } else {
        assert(forall|i: int|
            0 <= i < body.skip(1).len() ==> #[trigger] body.skip(1)[i] == body[i + 1]);
        lemma_dq_verbatim(body.skip(1));
        assert(seq![body[0]] + body.skip(1) =~= body);
    }
}

/// A backslash before a character of the escape set is dropped and the
/// character kept.
pub proof fn lemma_dq_escape_pair(c: char, rest: Seq<char>)
    requires
        is_dq_escape(c),
    ensures
        dq_unescape(seq!['\\', c] + rest) == seq![c] + dq_unescape(rest),
{
    let body = seq!['\\', c] + rest;
    assert(body[0] == '\\');
    assert(body[1] == c);
    assert(body.skip(2) =~= rest);
}

} // verus!
