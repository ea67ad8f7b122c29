//! Normalizing captured child-process output.
//!
//! A child's captured stream is folded into the shell's own buffer line by
//! line: line breaks become single `\n` characters (a `\r\n` pair counts as
//! one break), and a final line that the child left unterminated still ends
//! with a newline in the buffer. Empty output contributes nothing.

use vstd::prelude::*;

use crate::strutil::push_char_from;

verus! {

/// `s` with every `\r\n` pair replaced by `\n`. A `\r` not followed by
/// `\n` stays.
pub open spec fn crlf_to_lf(s: Seq<char>) -> Seq<char>
    decreases s.len(),
{
    if s.len() == 0 {
        Seq::empty()
    } else if s[0] == '\r' && s.len() >= 2 && s[1] == '\n' {
        seq!['\n'] + crlf_to_lf(s.skip(2))
    } else {
        seq![s[0]] + crlf_to_lf(s.skip(1))
    }
}

/// The text that captured output `s` adds to a buffer: line breaks become
/// `\n`, and nonempty output always ends with one.
pub open spec fn normalize_lines(s: Seq<char>) -> Seq<char> {
    if s.len() == 0 {
        Seq::empty()
    } else {
        let t = crlf_to_lf(s);
        if t.len() > 0 && t.last() == '\n' {
            t
        } else {
            t + seq!['\n']
        }
    }
}

/// Normalize captured output as [`normalize_lines`] says.
pub fn normalize_output(s: &str) -> (r: String)
    ensures
        r@ == normalize_lines(s@),
{
    let n = s.unicode_len();
    if n == 0 {
        let r = String::new();
        return r;
    }
    let mut r = String::new();
    let mut i: usize = 0;
    proof {
        assert(s@.skip(0) =~= s@);
    }
    while i < n
        invariant
            n == s@.len(),
            i <= n,
            r@ + crlf_to_lf(s@.skip(i as int)) == crlf_to_lf(s@),
        decreases n - i,
    {
        let c = s.get_char(i);
        if c == '\r' && i + 1 < n && s.get_char(i + 1) == '\n' {
            proof {
                assert(s@.skip(i as int)[0] == s@[i as int]);
                assert(s@.skip(i as int)[1] == s@[i + 1]);
                assert(s@.skip(i as int).skip(2) =~= s@.skip(i + 2));
            }
            r.append("\n");
            proof {
                reveal_strlit("\n");
                assert(r@ + crlf_to_lf(s@.skip(i + 2)) =~= crlf_to_lf(s@));
            }
            i += 2;
        } else {
            proof {
                assert(s@.skip(i as int)[0] == s@[i as int]);
                assert(s@.skip(i as int).skip(1) =~= s@.skip(i + 1));
                if s@[i as int] == '\r' && i + 1 < n {
                    assert(s@.skip(i as int)[1] == s@[i + 1]);
                }
            }
            push_char_from(&mut r, s, i);
            proof {
                assert(r@ + crlf_to_lf(s@.skip(i + 1)) =~= crlf_to_lf(s@));
            }
            i += 1;
        }
    }
    proof {
        assert(s@.skip(n as int) =~= Seq::<char>::empty());
        assert(r@ =~= crlf_to_lf(s@));
    }
    let m = r.as_str().unicode_len();
    if m == 0 || r.as_str().get_char(m - 1) != '\n' {
        r.append("\n");
        proof {
            reveal_strlit("\n");
            assert(r@ =~= normalize_lines(s@));
        }
    } else {
        proof {
            assert(r@ =~= normalize_lines(s@));
        }
    }
    r
}

} // verus!
