//! Resolving a bare command name to an executable.
//!
//! The search path is a colon-separated list of directories. The caller
//! scans those directories in order and hands the entries it saw — name,
//! full path, and whether the permission bits mark the entry executable —
//! to [`resolve_command`], which picks the first executable entry whose name
//! equals the command word. Reading the directories is the caller's side;
//! the choice among the entries is made and verified here.

use vstd::prelude::*;

use crate::strutil::push_char_from;

verus! {

/// One directory entry, as the caller saw it on disk.
pub struct FileEntry {
    /// The bare file name.
    pub name: String,
    /// The full path of the entry.
    pub path: String,
    /// Whether at least one executable permission bit is set.
    pub executable: bool,
}

/// Whether an entry resolves the command `name`.
pub open spec fn entry_matches(e: FileEntry, name: Seq<char>) -> bool {
    e.executable && e.name@ == name
}

/// The path of the first entry that resolves `name`, if any.
pub open spec fn spec_resolve(entries: Seq<FileEntry>, name: Seq<char>) -> Option<Seq<char>>
    decreases entries.len(),
{
    if entries.len() == 0 {
        None
    } else if entry_matches(entries[0], name) {
        Some(entries[0].path@)
    } else {
        spec_resolve(entries.drop_first(), name)
    }
}

/// The view of an optional path.
pub open spec fn opt_path_view(r: Option<String>) -> Option<Seq<char>> {
    match r {
        Some(p) => Some(p@),
        None => None,
    }
}

/// Pick the first executable entry whose name equals the command word, in
/// the order the entries were listed.
pub fn resolve_command(entries: &Vec<FileEntry>, name: &str) -> (r: Option<String>)
    ensures
        opt_path_view(r) == spec_resolve(entries@, name@),
{
    let n = entries.len();
    let mut i: usize = 0;
    proof {
        assert(entries@.skip(0) =~= entries@);
    }
    while i < n
        invariant
            n == entries@.len(),
            i <= n,
            spec_resolve(entries@, name@) == spec_resolve(entries@.skip(i as int), name@),
        decreases n - i,
    {
        proof {
            assert(entries@.skip(i as int)[0] == entries@[i as int]);
            assert(entries@.skip(i as int).drop_first() =~= entries@.skip(i + 1));
        }
        let e = &entries[i];
        if e.executable && crate::strutil::str_eq(e.name.as_str(), name) {
            return Some(e.path.clone());
        }
        i += 1;
    }
    proof {
        assert(entries@.skip(n as int) =~= Seq::<FileEntry>::empty());
    }
    None
}

/// Split a sequence of characters at colons, keeping empty pieces: the
/// fold state is the pieces already closed and the piece being built.
pub open spec fn split_run(done: Seq<Seq<char>>, cur: Seq<char>, s: Seq<char>) -> Seq<Seq<char>>
    decreases s.len(),
{
    if s.len() == 0 {
        done.push(cur)
    } else if s[0] == ':' {
        split_run(done.push(cur), Seq::empty(), s.drop_first())
    } else {
        split_run(done, cur.push(s[0]), s.drop_first())
    }
}

/// The pieces of `s` between colons. An empty input is one empty piece, and
/// a trailing colon ends with one, as splitting a string on a separator
/// does.
pub open spec fn split_colon(s: Seq<char>) -> Seq<Seq<char>> {
    split_run(Seq::empty(), Seq::empty(), s)
}

/// Split the search-path variable into its directories.
pub fn split_path(path_var: &str) -> (dirs: Vec<String>)
    ensures
        crate::words::words_view(dirs@) == split_colon(path_var@),
{
    let n = path_var.unicode_len();
    let mut dirs: Vec<String> = Vec::new();
    let mut cur = String::new();
    let mut i: usize = 0;
    proof {
        assert(path_var@.skip(0) =~= path_var@);
        assert(crate::words::words_view(dirs@) =~= Seq::<Seq<char>>::empty());
    }
    while i < n
        invariant
            n == path_var@.len(),
            i <= n,
            split_run(crate::words::words_view(dirs@), cur@, path_var@.skip(i as int))
                == split_colon(path_var@),
        decreases n - i,
    {
        proof {
            assert(path_var@.skip(i as int)[0] == path_var@[i as int]);
            assert(path_var@.skip(i as int).drop_first() =~= path_var@.skip(i + 1));
        }
        let ghost dv = crate::words::words_view(dirs@);
        let ghost cv = cur@;
        let c = path_var.get_char(i);
        if c == ':' {
            dirs.push(cur);
            cur = String::new();
            proof {
                assert(crate::words::words_view(dirs@) =~~= dv.push(cv));
            }
        } else {
            push_char_from(&mut cur, path_var, i);
        }
        proof {
            assert(split_run(crate::words::words_view(dirs@), cur@, path_var@.skip(i + 1))
                =~~= split_colon(path_var@));
        }
        i += 1;
    }
    dirs.push(cur);
    proof {
        assert(path_var@.skip(n as int) =~= Seq::<char>::empty());
        assert(crate::words::words_view(dirs@) =~~= split_colon(path_var@));
    }
    dirs
}

} // verus!
