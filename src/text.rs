//! Cutting text at a delimiter, as a sequence model and as executable code.
use vstd::prelude::*;

verus! {

/// `s` cut at every occurrence of `d`: `k` delimiters give `k + 1` pieces,
/// empty pieces included, the delimiters themselves dropped.
pub open spec fn pieces(s: Seq<char>, d: char) -> Seq<Seq<char>>
    decreases s.len(),
{
    if s.len() == 0 {
        seq![Seq::empty()]
    } else {
        let rest = pieces(s.drop_last(), d);
        if s.last() == d {
            rest.push(Seq::empty())
        } else {
            rest.update(rest.len() - 1, rest.last().push(s.last()))
        }
    }
}

/// There is always at least one piece.
pub proof fn lemma_pieces_nonempty(s: Seq<char>, d: char)
    ensures
        pieces(s, d).len() >= 1,
    decreases s.len(),
{
    if s.len() > 0 {
        lemma_pieces_nonempty(s.drop_last(), d);
    }
}

/// Text without `d` is a single piece: itself.
pub proof fn lemma_pieces_without_delimiter(s: Seq<char>, d: char)
    requires
        !s.contains(d),
    ensures
        pieces(s, d) == seq![s],
    decreases s.len(),
{
    if s.len() > 0 {
        assert(!s.drop_last().contains(d)) by {
            if s.drop_last().contains(d) {
                let k = choose|k: int| 0 <= k < s.drop_last().len() && s.drop_last()[k] == d;
                assert(s[k] == d);
            }
        }
        lemma_pieces_without_delimiter(s.drop_last(), d);
        assert(s.last() != d) by {
            assert(s[s.len() - 1] == s.last());
        }
        assert(s.drop_last().push(s.last()) =~= s);
        assert(pieces(s, d) =~= seq![s]);
    } else {
        assert(s =~= Seq::<char>::empty());
    }
}

/// The views of a vector of strings.
pub open spec fn views(v: Seq<String>) -> Seq<Seq<char>> {
    v.map_values(|x: String| x@)
}

/// A copy of a string slice.
pub fn owned(s: &str) -> (r: String)
    ensures
        r@ == s@,
{
    String::from_str(s)
}

/// `s` cut at every occurrence of `d`.
pub fn split_on(s: &str, d: char) -> (r: Vec<String>)
    ensures
        views(r@) == pieces(s@, d),
{
    let n = s.unicode_len();
    let mut out: Vec<String> = Vec::new();
    let mut start: usize = 0;
    let mut i: usize = 0;
    assert(s@.subrange(0, 0) =~= Seq::<char>::empty());
    while i < n
        invariant
            n == s@.len(),
            start <= i <= n,
            views(out@).push(s@.subrange(start as int, i as int)) == pieces(
                s@.subrange(0, i as int),
                d,
            ),
        decreases n - i,
    {
        let c = s.get_char(i);
        let ghost pre = s@.subrange(0, i as int);
        let ghost cur = s@.subrange(0, i as int + 1);
        assert(cur.drop_last() =~= pre);
        assert(cur.last() == c);
        if c == d {
            let piece = owned(s.substring_char(start, i));
            let ghost before = out@;
            out.push(piece);
            assert(views(out@) =~= views(before).push(piece@));
            i = i + 1;
            start = i;
            assert(s@.subrange(start as int, i as int) =~= Seq::<char>::empty());
            assert(views(out@).push(Seq::empty()) =~= pieces(s@.subrange(0, i as int), d));
        } else {
            i = i + 1;
            assert(s@.subrange(start as int, i as int) =~= s@.subrange(
                start as int,
                i as int - 1,
            ).push(c));
            assert(views(out@).push(s@.subrange(start as int, i as int)) =~= pieces(
                s@.subrange(0, i as int),
                d,
            ));
        }
    }
    assert(s@.subrange(0, n as int) =~= s@);
    let last = owned(s.substring_char(start, n));
    let ghost before = out@;
    out.push(last);
    assert(views(out@) =~= views(before).push(last@));
    out
}

} // verus!
