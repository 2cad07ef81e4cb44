//! Category-name input handling: a comma-separated list (either the
//! ASCII comma or the ideographic enumeration comma) is split into
//! trimmed, non-empty names.

use vstd::prelude::*;
use vstd::string::StrSliceExecFns;
use vstd::string::StringExecFns;
use crate::text::spec_trim;
use crate::text::trim_whitespace;

verus! {

/// A character that separates category names.
pub open spec fn spec_is_cat_sep(c: char) -> bool {
    c == ',' || c == '、'
}

/// One trimmed piece, kept only when something is left of it.
pub open spec fn spec_cat_piece(cur: Seq<char>) -> Seq<Seq<char>> {
    if spec_trim(cur).len() == 0 {
        Seq::empty()
    } else {
        seq![spec_trim(cur)]
    }
}

/// The split from position `i` onward, with `cur` the piece read so
/// far.
pub open spec fn spec_split_acc(s: Seq<char>, i: int, cur: Seq<char>) -> Seq<Seq<char>>
    decreases s.len() - i,
{
    if i < 0 || i >= s.len() {
        spec_cat_piece(cur)
    } else if spec_is_cat_sep(s[i]) {
        spec_cat_piece(cur) + spec_split_acc(s, i + 1, Seq::empty())
    } else {
        spec_split_acc(s, i + 1, cur.push(s[i]))
    }
}

/// The category names in a separated list: split at the separators,
/// each piece trimmed of whitespace, empty pieces dropped.
pub open spec fn spec_split_categories(s: Seq<char>) -> Seq<Seq<char>> {
    spec_split_acc(s, 0, Seq::empty())
}

/// Split a separated list of category names into trimmed, non-empty
/// names, in order.
pub fn split_category_names(s: &str) -> (r: Vec<String>)
    ensures
        r.deep_view() == spec_split_categories(s@),
{
    let n = s.unicode_len();
    let mut out: Vec<String> = Vec::new();
    let mut start: usize = 0;
    let mut i: usize = 0;
    proof {
        assert(s@.subrange(0, 0) =~= Seq::<char>::empty());
        assert(out.deep_view() + spec_split_acc(s@, 0, Seq::empty()) =~= spec_split_acc(
            s@,
            0,
            Seq::empty(),
        ));
    }
    while i < n
        invariant
            n == s@.len(),
            start <= i <= n,
            spec_split_categories(s@) == out.deep_view() + spec_split_acc(
                s@,
                i as int,
                s@.subrange(start as int, i as int),
            ),
        decreases n - i,
    {
        let c = s.get_char(i);
        if c == ',' || c == '、' {
            let piece = s.substring_char(start, i);
            let t = trim_whitespace(piece);
            if !t.is_empty() {
                let ghost before = out.deep_view();
                out.push(String::from_str(t));
                proof {
                    assert(out.deep_view() =~= before.push(t@));
                    assert(out.deep_view() + spec_split_acc(s@, i + 1, Seq::empty())
                        =~= before + spec_cat_piece(s@.subrange(start as int, i as int))
                        + spec_split_acc(s@, i + 1, Seq::empty()));
                }
            } else {
                proof {
                    assert(out.deep_view() + spec_cat_piece(s@.subrange(start as int, i as int))
                        + spec_split_acc(s@, i + 1, Seq::empty()) =~= out.deep_view()
                        + spec_split_acc(s@, i + 1, Seq::empty()));
                }
            }
            start = i + 1;
            proof {
                assert(s@.subrange(start as int, i + 1) =~= Seq::<char>::empty());
            }
        } else {
            proof {
                assert(s@.subrange(start as int, i + 1) =~= s@.subrange(
                    start as int,
                    i as int,
                ).push(s@[i as int]));
            }
        }
        i = i + 1;
    }
    let piece = s.substring_char(start, n);
    let t = trim_whitespace(piece);
    if !t.is_empty() {
        let ghost before = out.deep_view();
        out.push(String::from_str(t));
        proof {
            assert(out.deep_view() =~= before.push(t@));
            assert(before.push(t@) =~= before + spec_cat_piece(s@.subrange(start as int, n as int)));
        }
    } else {
        proof {
            assert(out.deep_view() + spec_cat_piece(s@.subrange(start as int, n as int))
                =~= out.deep_view());
        }
    }
    out
}

} // verus!
