//! Assembling tokens into logical words.
//!
//! A logical word is the concatenation of a maximal run of adjacent fragment
//! tokens; separator tokens end one word and begin the next. This is how a
//! quoted span and the bare text around it glue together into a single
//! argument.

use vstd::prelude::*;

use crate::lexer::{toks_view, Token, TokenView};

verus! {

/// The characters gathered so far for the word being built: none at all, or
/// a (possibly empty) prefix of a word.
pub open spec fn acc_chars(acc: Option<Seq<char>>) -> Seq<char> {
    match acc {
        Some(w) => w,
        None => Seq::empty(),
    }
}

/// The logical words of a token sequence, given the word under construction:
/// a fragment extends it, a separator closes it, and the end of the tokens
/// closes it only if it was ever begun.
pub open spec fn words_from(acc: Option<Seq<char>>, ts: Seq<TokenView>) -> Seq<Seq<char>>
    decreases ts.len(),
{
    if ts.len() == 0 {
        match acc {
            Some(w) => seq![w],
            None => Seq::empty(),
        }
    } else {
        match ts[0] {
            TokenView::Frag(f) => words_from(Some(acc_chars(acc) + f), ts.drop_first()),
            TokenView::Sep => seq![acc_chars(acc)] + words_from(None, ts.drop_first()),
        }
    }
}

/// The logical words of a token sequence.
pub open spec fn words_of(ts: Seq<TokenView>) -> Seq<Seq<char>> {
    words_from(None, ts)
}

/// The views of a vector of words.
pub open spec fn words_view(ws: Seq<String>) -> Seq<Seq<char>> {
    ws.map_values(|w: String| w@)
}

/// Concatenate adjacent fragments into logical words.
pub fn assemble_words(tokens: &Vec<Token>) -> (ws: Vec<String>)
    ensures
        words_view(ws@) == words_of(toks_view(tokens@)),
{
    let n = tokens.len();
    let mut ws: Vec<String> = Vec::new();
    let mut cur = String::new();
    let mut started = false;
    let ghost all = toks_view(tokens@);
    let mut i: usize = 0;
    proof {
        assert(all.skip(0) =~= all);
        assert(words_view(ws@) + words_from(None, all) =~~= words_of(all));
    }
    while i < n
        invariant
            n == tokens@.len(),
            i <= n,
            all == toks_view(tokens@),
            !started ==> cur@.len() == 0,
            words_view(ws@) + words_from(
                if started {
                    Some(cur@)
                } else {
                    None
                },
                all.skip(i as int),
            ) == words_of(all),
        decreases n - i,
    {
        let ghost acc: Option<Seq<char>> = if started {
            Some(cur@)
        } else {
            None
        };
        proof {
            assert(all.skip(i as int)[0] == all[i as int]);
            assert(all.skip(i as int).drop_first() =~= all.skip(i + 1));
        }
        match &tokens[i] {
            Token::Fragment(f) => {
                cur.append(f.as_str());
                started = true;
                proof {
                    assert(cur@ =~= acc_chars(acc) + all[i as int]->Frag_0);
                }
            },
            Token::Separator => {
                ws.push(cur);
                cur = String::new();
                started = false;
            },
        }
        proof {
            assert(words_view(ws@) + words_from(
                if started {
                    Some(cur@)
                } else {
                    None
                },
                all.skip(i + 1),
            ) =~~= words_of(all));
        }
        i += 1;
    }
    proof {
        assert(all.skip(n as int) =~= Seq::<TokenView>::empty());
    }
    if started {
        ws.push(cur);
    }
    proof {
        assert(words_view(ws@) =~~= words_of(all));
    }
    ws
}

/// Split the logical words into the command word and the argument words:
/// the first word names the command, the rest are its arguments. A line
/// with no words names no command.
pub fn split_command(words: Vec<String>) -> (r: Option<(String, Vec<String>)>)
    ensures
        match r {
            None => words@.len() == 0,
            Some(p) => words@.len() > 0 && p.0 == words@[0] && p.1@ == words@.drop_first(),
        },
{
    let ghost ws = words@;
    let mut rest = words;
    if rest.is_empty() {
        return None;
    }
    let command = rest.remove(0);
    proof {
        assert(rest@ =~= ws.drop_first());
    }
    Some((command, rest))
}

/// Join words with one space between them, as `echo` prints its arguments.
pub open spec fn join_words(ws: Seq<Seq<char>>) -> Seq<char>
    decreases ws.len(),
{
    if ws.len() == 0 {
        Seq::empty()
    } else if ws.len() == 1 {
        ws[0]
    } else {
        join_words(ws.drop_last()) + seq![' '] + ws.last()
    }
}

/// Join the given words with single spaces.
pub fn join_with_spaces(ws: &Vec<String>) -> (r: String)
    ensures
        r@ == join_words(words_view(ws@)),
{
    let n = ws.len();
    let mut r = String::new();
    let mut i: usize = 0;
    proof {
        assert(words_view(ws@).take(0) =~= Seq::<Seq<char>>::empty());
    }
    while i < n
        invariant
            n == ws@.len(),
            i <= n,
            r@ == join_words(words_view(ws@).take(i as int)),
        decreases n - i,
    {
        let ghost views = words_view(ws@);
        if i > 0 {
            r.append(" ");
            proof {
                reveal_strlit(" ");
                assert(" "@ =~= seq![' ']);
            }
        }
        r.append(ws[i].as_str());
        proof {
            assert(views.take(i + 1).drop_last() =~= views.take(i as int));
            assert(views.take(i + 1).last() == views[i as int]);
            assert(r@ =~= join_words(views.take(i + 1)));
        }
        i += 1;
    }
    proof {
        assert(words_view(ws@).take(n as int) =~= words_view(ws@));
    }
    r
}

/// Adjacent fragments with no separator between them concatenate: a stretch
/// of text yields the same logical words whether it arrives as two fragments
/// or as one. This is why `"1""2"` and `"hello"world` each form one word.
pub proof fn lemma_adjacent_fragments_concat(
    ts: Seq<TokenView>,
    a: Seq<char>,
    b: Seq<char>,
    us: Seq<TokenView>,
)
    ensures
        words_of(ts + seq![TokenView::Frag(a), TokenView::Frag(b)] + us) == words_of(
            ts + seq![TokenView::Frag(a + b)] + us,
        ),
{
    lemma_words_from_merge(None, ts, a, b, us);
}

proof fn lemma_words_from_merge(
    acc: Option<Seq<char>>,
    ts: Seq<TokenView>,
    a: Seq<char>,
    b: Seq<char>,
    us: Seq<TokenView>,
)
    ensures
        words_from(acc, ts + seq![TokenView::Frag(a), TokenView::Frag(b)] + us) == words_from(
            acc,
            ts + seq![TokenView::Frag(a + b)] + us,
        ),
    decreases ts.len(),
{
    let two = ts + seq![TokenView::Frag(a), TokenView::Frag(b)] + us;
    let one = ts + seq![TokenView::Frag(a + b)] + us;
    if ts.len() == 0 {
        let mid = seq![TokenView::Frag(b)] + us;
        assert(two[0] == TokenView::Frag(a));
        assert(two.drop_first() =~= mid);
        assert(mid[0] == TokenView::Frag(b));
        assert(mid.drop_first() =~= us);
        assert(one[0] == TokenView::Frag(a + b));
        assert(one.drop_first() =~= us);
        assert(words_from(acc, two) == words_from(Some(acc_chars(acc) + a), mid));
        assert(words_from(Some(acc_chars(acc) + a), mid) == words_from(
            Some(acc_chars(acc) + a + b),
            us,
        ));
        assert(acc_chars(acc) + a + b =~= acc_chars(acc) + (a + b));
        assert(words_from(acc, one) == words_from(Some(acc_chars(acc) + (a + b)), us));
    } else {
        assert(two[0] == ts[0]);
        assert(one[0] == ts[0]);
        assert(two.drop_first() =~= ts.drop_first() + seq![TokenView::Frag(a), TokenView::Frag(b)]
            + us);
        assert(one.drop_first() =~= ts.drop_first() + seq![TokenView::Frag(a + b)] + us);
        match ts[0] {
            TokenView::Frag(f) => {
                lemma_words_from_merge(Some(acc_chars(acc) + f), ts.drop_first(), a, b, us);
            },
            TokenView::Sep => {
                lemma_words_from_merge(None, ts.drop_first(), a, b, us);
            },
        }
    }
}

} // verus!
