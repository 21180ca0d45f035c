//! Splitting character sequences on a separator, and string equality.

use vstd::prelude::*;

verus! {

/// The pieces of `s` between occurrences of the separator `sep`, in order.
/// An empty sequence splits into one empty piece, and a separator at either
/// end contributes an empty piece, as `str::split` does.
pub open spec fn split_on(s: Seq<char>, sep: char) -> Seq<Seq<char>>
    decreases s.len(),
{
    if s.len() == 0 {
        seq![Seq::<char>::empty()]
    } else {
        let rest = split_on(s.drop_last(), sep);
        if s.last() == sep {
            rest.push(Seq::<char>::empty())
        } else {
            rest.drop_last().push(rest.last().push(s.last()))
        }
    }
}

/// Splits a string on the character `sep`.
pub fn split_str(s: &str, sep: char) -> (r: Vec<String>)
    ensures
        r@.map_values(|p: String| p@) == split_on(s@, sep),
{
    let n = s.unicode_len();
    let mut pieces: Vec<String> = Vec::new();
    let mut piece_start: usize = 0;
    let mut i: usize = 0;
    proof {
        assert(s@.take(0) =~= Seq::<char>::empty());
        assert(s@.subrange(0, 0) =~= Seq::<char>::empty());
        assert(pieces@.map_values(|p: String| p@) =~= Seq::<Seq<char>>::empty());
    }
    while i < n
        invariant
            piece_start <= i <= n,
            n == s@.len(),
            split_on(s@.take(i as int), sep) == pieces@.map_values(|p: String| p@).push(
                s@.subrange(piece_start as int, i as int),
            ),
        decreases n - i,
    {
        let c = s.get_char(i);
        proof {
            assert(s@.take(i as int + 1).drop_last() =~= s@.take(i as int));
            assert(s@.take(i as int + 1).last() == c);
        }
        if c == sep {
            let ghost old_pieces = pieces@;
            let piece = s.substring_char(piece_start, i);
            pieces.push(String::from_str(piece));
            proof {
                assert(pieces@.map_values(|p: String| p@) =~= old_pieces.map_values(
                    |p: String| p@,
                ).push(s@.subrange(piece_start as int, i as int)));
                assert((old_pieces.map_values(|p: String| p@).push(
                    s@.subrange(piece_start as int, i as int),
                )).push(Seq::<char>::empty()) =~= pieces@.map_values(|p: String| p@).push(
                    Seq::<char>::empty(),
                ));
                assert(s@.subrange(i as int + 1, i as int + 1) =~= Seq::<char>::empty());
            }
            piece_start = i + 1;
        } else {
            proof {
                let m = pieces@.map_values(|p: String| p@);
                let cur = s@.subrange(piece_start as int, i as int);
                assert(m.push(cur).drop_last() =~= m);
                assert(m.push(cur).last() == cur);
                assert(cur.push(c) =~= s@.subrange(piece_start as int, i as int + 1));
            }
        }
        i = i + 1;
    }
    proof {
        assert(s@.take(n as int) =~= s@);
    }
    let ghost old_pieces = pieces@;
    let piece = s.substring_char(piece_start, n);
    pieces.push(String::from_str(piece));
    proof {
        assert(pieces@.map_values(|p: String| p@) =~= old_pieces.map_values(|p: String| p@).push(
            s@.subrange(piece_start as int, n as int),
        ));
    }
    pieces
}

/// Whether two strings hold the same characters.
pub fn str_eq(a: &str, b: &str) -> (r: bool)
    ensures
        r == (a@ == b@),
{
    let na = a.unicode_len();
    let nb = b.unicode_len();
    if na != nb {
        return false;
    }
    let mut i: usize = 0;
    while i < na
        invariant
            i <= na,
            na == a@.len(),
            nb == b@.len(),
            na == nb,
            forall|k: int| 0 <= k < i ==> a@[k] == b@[k],
        decreases na - i,
    {
        if a.get_char(i) != b.get_char(i) {
            return false;
        }
        i = i + 1;
    }
    proof {
        assert(a@ =~= b@);
    }
    true
}

} // verus!
