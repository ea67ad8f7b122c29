//! Redirection operators and output sinks.
//!
//! After the command word is split off, the remaining argument words may end
//! in a redirection operator followed by a target path: `>`, `1>`, `>>` and
//! `1>>` steer standard output, `2>` and `2>>` steer standard error. The
//! extractor scans the words for the first matching operator and honors it
//! only when it stands second to last, with the target path as the one word
//! after it; both are then removed from the argument list. Any other
//! placement leaves the arguments alone and the stream inherited. One
//! operator per stream is recognized; the scan takes the first.

use vstd::prelude::*;

use crate::strutil::str_eq;
use crate::words::words_view;

verus! {

/// Where one output stream of one invocation goes.
#[derive(Debug, PartialEq, Eq)]
pub enum Sink {
    /// The inherited terminal stream.
    Inherit,
    /// The file at the path, truncated (or created) before writing.
    Truncate(String),
    /// The file at the path, appended to (or created).
    Append(String),
}

/// A sink, as mathematical data.
#[verifier::ext_equal]
pub enum SinkView {
    Inherit,
    Truncate(Seq<char>),
    Append(Seq<char>),
}

impl View for Sink {
    type V = SinkView;

    open spec fn view(&self) -> SinkView {
        match self {
            Sink::Inherit => SinkView::Inherit,
            Sink::Truncate(p) => SinkView::Truncate(p@),
            Sink::Append(p) => SinkView::Append(p@),
        }
    }
}

impl SinkView {
    /// What a file holding `prior` holds once `text` is flushed through this
    /// sink: a truncating sink discards the prior contents, an appending sink
    /// keeps them. For the inherited stream, `prior` stands for what the
    /// terminal has shown so far.
    pub open spec fn flushed(self, prior: Seq<char>, text: Seq<char>) -> Seq<char> {
        match self {
            SinkView::Inherit => prior + text,
            SinkView::Truncate(_) => text,
            SinkView::Append(_) => prior + text,
        }
    }
}

/// The operators that steer standard output.
pub open spec fn is_stdout_op(w: Seq<char>) -> bool {
    w == ">"@ || w == "1>"@ || w == ">>"@ || w == "1>>"@
}

/// The operators that steer standard error.
pub open spec fn is_stderr_op(w: Seq<char>) -> bool {
    w == "2>"@ || w == "2>>"@
}

/// The operators that append to their target instead of truncating it.
pub open spec fn is_append_op(w: Seq<char>) -> bool {
    w == ">>"@ || w == "1>>"@ || w == "2>>"@
}

/// Whether `w` is a redirection operator of the stream chosen by `stderr`.
pub open spec fn op_matches(w: Seq<char>, stderr: bool) -> bool {
    if stderr {
        is_stderr_op(w)
    } else {
        is_stdout_op(w)
    }
}

/// The index of the first word from `i` on that is an operator of the chosen
/// stream, or the length if none is.
pub open spec fn find_op_from(ws: Seq<Seq<char>>, i: int, stderr: bool) -> int
    decreases ws.len() - i,
{
    if i < 0 || i >= ws.len() {
        ws.len() as int
    } else if op_matches(ws[i], stderr) {
        i
    } else {
        find_op_from(ws, i + 1, stderr)
    }
}

/// What extracting one stream's redirection from `ws` yields: the remaining
/// words and the sink. The first operator found is honored only when it is
/// second to last; the word after it is the target path.
pub open spec fn spec_extract(ws: Seq<Seq<char>>, stderr: bool) -> (Seq<Seq<char>>, SinkView) {
    let k = find_op_from(ws, 0, stderr);
    if ws.len() >= 2 && k == ws.len() - 2 {
        let path = ws.last();
        (
            ws.take(ws.len() - 2),
            if is_append_op(ws[k]) {
                SinkView::Append(path)
            } else {
                SinkView::Truncate(path)
            },
        )
    } else {
        (ws, SinkView::Inherit)
    }
}

/// Test whether a word is a standard-output redirection operator.
fn is_stdout_op_exec(w: &String) -> (b: bool)
    ensures
        b == is_stdout_op(w@),
{
    str_eq(w.as_str(), ">") || str_eq(w.as_str(), "1>") || str_eq(w.as_str(), ">>") || str_eq(
        w.as_str(),
        "1>>",
    )
}

/// Test whether a word is a standard-error redirection operator.
fn is_stderr_op_exec(w: &String) -> (b: bool)
    ensures
        b == is_stderr_op(w@),
{
    str_eq(w.as_str(), "2>") || str_eq(w.as_str(), "2>>")
}

/// Test whether a word is an appending redirection operator.
fn is_append_op_exec(w: &String) -> (b: bool)
    ensures
        b == is_append_op(w@),
{
    str_eq(w.as_str(), ">>") || str_eq(w.as_str(), "1>>") || str_eq(w.as_str(), "2>>")
}

/// Extract the standard-output redirection, if any, from the argument words.
pub fn extract_stdout_redirect(args: &mut Vec<String>) -> (s: Sink)
    ensures
        words_view(final(args)@) == spec_extract(words_view(old(args)@), false).0,
        s@ == spec_extract(words_view(old(args)@), false).1,
{
    extract_redirect(args, false)
}

/// Extract the standard-error redirection, if any, from the argument words.
pub fn extract_stderr_redirect(args: &mut Vec<String>) -> (s: Sink)
    ensures
        words_view(final(args)@) == spec_extract(words_view(old(args)@), true).0,
        s@ == spec_extract(words_view(old(args)@), true).1,
{
    extract_redirect(args, true)
}

fn extract_redirect(args: &mut Vec<String>, stderr: bool) -> (s: Sink)
    ensures
        words_view(final(args)@) == spec_extract(words_view(old(args)@), stderr).0,
        s@ == spec_extract(words_view(old(args)@), stderr).1,
{
    let ghost ws = words_view(old(args)@);
    let n = args.len();
    let mut k: usize = 0;
    let mut found = false;
    while k < n && !found
        invariant
            n == ws.len(),
            ws == words_view(args@),
            args@ == old(args)@,
            k <= n,
            found ==> k < n && op_matches(ws[k as int], stderr) && find_op_from(ws, 0, stderr)
                == k as int,
            !found ==> find_op_from(ws, 0, stderr) == find_op_from(ws, k as int, stderr),
        decreases n - k + (if found {
            0int
        } else {
            1int
        }),
    {
        let hit = if stderr {
            is_stderr_op_exec(&args[k])
        } else {
            is_stdout_op_exec(&args[k])
        };
        if hit {
            found = true;
        } else {
            k += 1;
        }
    }
    proof {
        assert(find_op_from(ws, 0, stderr) == k as int);
    }
    if n >= 2 && found && k == n - 2 {
        let append = is_append_op_exec(&args[k]);
        let path = match args.pop() {
            Some(w) => w,
            None => String::new(),  // unreachable: the vector holds at least two words
        };
        args.pop();
        proof {
            assert(words_view(args@) =~= ws.take(ws.len() - 2));
        }
        if append {
            Sink::Append(path)
        } else {
            Sink::Truncate(path)
        }
    } else {
        Sink::Inherit
    }
}

/// The redirection round trip: flushing `a` through a truncating sink and
/// then `b` through an appending sink on the same path leaves the file
/// holding exactly `a` followed by `b`, whatever it held before. Truncation
/// forgets the prior contents; appending preserves what the first flush
/// wrote.
pub proof fn lemma_redirect_round_trip(
    prior: Seq<char>,
    path: Seq<char>,
    a: Seq<char>,
    b: Seq<char>,
)
    ensures
        SinkView::Append(path).flushed(SinkView::Truncate(path).flushed(prior, a), b) == a + b,
{
}

} // verus!
