//! Query-string parsing: `&`-separated pieces, each a `name=value` pair
//! (or a bare name standing for an empty value), both sides
//! percent-decoded.  Empty pieces vanish.
use vstd::prelude::*;

verus! {

use vstd::string::StrSliceExecFns;
use crate::codec::{percent_decode, spec_pct_decode};

/// The first position at or after `i` holding `&`, or the text's end.
pub open spec fn spec_amp_end(s: Seq<char>, i: int) -> int
    decreases s.len() - i,
    when 0 <= i <= s.len()
{
    if i < s.len() && s[i] != '&' {
        spec_amp_end(s, i + 1)
    } else {
        i
    }
}

/// The piece boundary never leaves the text.
pub proof fn lemma_amp_end(s: Seq<char>, i: int)
    requires
        0 <= i <= s.len(),
    ensures
        i <= spec_amp_end(s, i) <= s.len(),
    decreases s.len() - i,
{
    if i < s.len() && s[i] != '&' {
        lemma_amp_end(s, i + 1);
    }
}

/// The first position holding `=` within a piece, or the piece's length.
pub open spec fn spec_eq_pos(piece: Seq<char>, i: int) -> int
    decreases piece.len() - i,
    when 0 <= i <= piece.len()
{
    if i < piece.len() && piece[i] != '=' {
        spec_eq_pos(piece, i + 1)
    } else {
        i
    }
}

/// The decoded pair one piece stands for: the name before the first `=`
/// and the value after it, both percent-decoded; a piece without `=` is a
/// name with an empty value, and an empty piece is nothing.
pub open spec fn spec_pair_of(piece: Seq<char>) -> Option<(Seq<char>, Seq<char>)> {
    if piece.len() == 0 {
        None
    } else {
        let e = spec_eq_pos(piece, 0);
        let name = spec_pct_decode(piece.subrange(0, e));
        let value = if e < piece.len() {
            spec_pct_decode(piece.subrange(e + 1, piece.len() as int))
        } else {
            Seq::empty()
        };
        Some((name, value))
    }
}

/// The decoded pairs of the query text from `i` on, piece by piece.
pub open spec fn spec_query_pairs(s: Seq<char>, i: int) -> Seq<(Seq<char>, Seq<char>)>
    decreases s.len() - i,
    when 0 <= i <= s.len()
    via spec_query_pairs_dec
{
    if i >= s.len() {
        Seq::empty()
    } else {
        let e = spec_amp_end(s, i);
        let head: Seq<(Seq<char>, Seq<char>)> = match spec_pair_of(s.subrange(i, e)) {
            Some(pair) => seq![pair],
            None => Seq::empty(),
        };
        if e < s.len() {
            head + spec_query_pairs(s, e + 1)
        } else {
            head
        }
    }
}

#[via_fn]
proof fn spec_query_pairs_dec(s: Seq<char>, i: int) {
    if 0 <= i < s.len() {
        lemma_amp_end(s, i);
    }
}

/// Parses a query string into its decoded name/value pairs, in order.
pub fn parse_query(query: &str) -> (r: Vec<(String, String)>)
    ensures
        crate::path::view_pairs(r@) == spec_query_pairs(query@, 0),
{
    let n = query.unicode_len();
    let mut out: Vec<(String, String)> = Vec::new();
    let mut i: usize = 0;
    proof {
        assert(crate::path::view_pairs(out@) + spec_query_pairs(query@, 0) =~= spec_query_pairs(
            query@,
            0,
        ));
    }
    while i < n
        invariant
            0 <= i <= n,
            n == query@.len(),
            crate::path::view_pairs(out@) + spec_query_pairs(query@, i as int)
                == spec_query_pairs(query@, 0),
        decreases n - i,
    {
        let ghost out0 = crate::path::view_pairs(out@);
        let mut e: usize = i;
        while e < n && query.get_char(e) != '&'
            invariant
                i <= e <= n,
                n == query@.len(),
                spec_amp_end(query@, i as int) == spec_amp_end(query@, e as int),
            decreases n - e,
        {
            e += 1;
        }
        proof {
            assert(spec_amp_end(query@, e as int) == e);
        }
        if e > i {
            let piece = query.substring_char(i, e);
            proof {
                assert(piece@ =~= query@.subrange(i as int, e as int));
            }
            let m = piece.unicode_len();
            let mut q: usize = 0;
            while q < m && piece.get_char(q) != '='
                invariant
                    0 <= q <= m,
                    m == piece@.len(),
                    spec_eq_pos(piece@, 0) == spec_eq_pos(piece@, q as int),
                decreases m - q,
            {
                q += 1;
            }
            proof {
                assert(spec_eq_pos(piece@, q as int) == q);
            }
            let name_raw = piece.substring_char(0, q);
            let name = percent_decode(name_raw);
            let value = if q < m {
                let value_raw = piece.substring_char(q + 1, m);
                proof {
                    assert(value_raw@ =~= piece@.subrange(q + 1, m as int));
                }
                percent_decode(value_raw)
            } else {
                String::new()
            };
            proof {
                assert(name_raw@ =~= piece@.subrange(0, q as int));
            }
            out.push((name, value));
            proof {
                assert(spec_pair_of(piece@) is Some);
                assert(crate::path::view_pairs(out@) =~= out0 + seq![
                    spec_pair_of(piece@)->0,
                ]);
            }
        } else {
            proof {
                assert(query@.subrange(i as int, e as int) =~= Seq::<char>::empty());
                assert(spec_pair_of(query@.subrange(i as int, e as int)) is None);
            }
        }
        proof {
            let gi = i as int;
            let ge = e as int;
            assert(spec_query_pairs(query@, gi) == (match spec_pair_of(
                query@.subrange(gi, ge),
            ) {
                Some(pair) => seq![pair],
                None => Seq::<(Seq<char>, Seq<char>)>::empty(),
            }) + (if ge < n { spec_query_pairs(query@, ge + 1) } else {
                Seq::<(Seq<char>, Seq<char>)>::empty()
            }));
            if ge < n {
                assert(crate::path::view_pairs(out@) + spec_query_pairs(query@, ge + 1)
                    =~= spec_query_pairs(query@, 0));
            } else {
                assert(crate::path::view_pairs(out@) + spec_query_pairs(query@, n as int)
                    =~= spec_query_pairs(query@, 0));
            }
        }
        if e < n {
            i = e + 1;
        } else {
            i = n;
        }
    }
    proof {
        assert(crate::path::view_pairs(out@) =~= spec_query_pairs(query@, 0));
    }
    out
}

} // verus!
