//! Names and paths of archives: base names, joining, and the timestamped
//! archive file name.
use vstd::prelude::*;
use crate::stamp::{stamp_text, Stamp};
use crate::text::{owned, pieces, split_on, views};

verus! {

/// The last component of a `/`-separated path that is neither empty nor `.`.
pub open spec fn last_named(cs: Seq<Seq<char>>) -> Option<Seq<char>>
    decreases cs.len(),
{
    if cs.len() == 0 {
        None
    } else if cs.last().len() == 0 || cs.last() == seq!['.'] {
        last_named(cs.drop_last())
    } else {
        Some(cs.last())
    }
}

/// The final component of a path, as `Path::file_name` gives it on a
/// `/`-separated path: none for a root, `.`, or a path that ends in `..`.
pub open spec fn base_name_of(path: Seq<char>) -> Option<Seq<char>> {
    match last_named(pieces(path, '/')) {
        Some(c) => if c == seq!['.', '.'] {
            None
        } else {
            Some(c)
        },
        None => None,
    }
}

/// `name` placed under the directory `dir`.
pub open spec fn joined(dir: Seq<char>, name: Seq<char>) -> Seq<char> {
    if dir.len() == 0 || dir.last() == '/' {
        dir + name
    } else {
        dir + seq!['/'] + name
    }
}

/// `{base}_{YY_MM_DD_HH_MM}{extension}`.
pub open spec fn archive_name(base: Seq<char>, stamp: Stamp, extension: Seq<char>) -> Seq<char> {
    base + seq!['_'] + stamp_text(stamp) + extension
}

fn is_dot_dot(s: &String) -> (r: bool)
    ensures
        r == (s@ == seq!['.', '.']),
{
    let t = s.as_str();
    if t.unicode_len() == 2 {
        let r = t.get_char(0) == '.' && t.get_char(1) == '.';
        if r {
            assert(s@ =~= seq!['.', '.']);
        }
        r
    } else {
        false
    }
}

fn is_skipped_component(s: &String) -> (r: bool)
    ensures
        r == (s@.len() == 0 || s@ == seq!['.']),
{
    let t = s.as_str();
    let n = t.unicode_len();
    if n == 0 {
        true
    } else if n == 1 {
        let r = t.get_char(0) == '.';
        if r {
            assert(s@ =~= seq!['.']);
        }
        r
    } else {
        false
    }
}

/// The final component of a `/`-separated path.
pub fn base_name(path: &str) -> (r: Option<String>)
    ensures
        match r {
            Some(b) => base_name_of(path@) == Some(b@),
            None => base_name_of(path@) is None,
        },
{
    let cs = split_on(path, '/');
    let ghost all = pieces(path@, '/');
    let mut k: usize = cs.len();
    assert(all.take(k as int) =~= all);
    while k > 0
        invariant
            k <= cs@.len(),
            views(cs@) == all,
            all == pieces(path@, '/'),
            last_named(all.take(k as int)) == last_named(all),
        decreases k,
    {
        let c = &cs[k - 1];
        assert(all.take(k as int).drop_last() =~= all.take(k as int - 1));
        assert(all.take(k as int).last() == c@);
        if !is_skipped_component(c) {
            if is_dot_dot(c) {
                return None;
            }
            return Some(owned(c.as_str()));
        }
        k = k - 1;
    }
    None
}

fn push_str(out: &mut String, s: &str)
    ensures
        final(out)@ == old(out)@ + s@,
{
    out.append(s);
}

/// `name` placed under the directory `dir`, with one `/` between them
/// unless `dir` is empty or already ends in `/`.
pub fn join_path(dir: &str, name: &str) -> (r: String)
    ensures
        r@ == joined(dir@, name@),
{
    let mut out = owned(dir);
    let n = dir.unicode_len();
    if n > 0 && dir.get_char(n - 1) != '/' {
        proof {
            reveal_strlit("/");
        }
        push_str(&mut out, "/");
    }
    push_str(&mut out, name);
    assert(out@ =~= joined(dir@, name@));
    out
}

/// The file name of an archive: `{base}_{YY_MM_DD_HH_MM}{extension}`.
pub fn archive_file_name(base: &str, stamp: Stamp, extension: &str) -> (r: String)
    requires
        stamp.wf(),
    ensures
        r@ == archive_name(base@, stamp, extension@),
{
    let mut out = owned(base);
    proof {
        reveal_strlit("_");
    }
    push_str(&mut out, "_");
    let t = stamp.text();
    push_str(&mut out, t.as_str());
    push_str(&mut out, extension);
    assert(out@ =~= archive_name(base@, stamp, extension@));
    out
}

} // verus!
