//! Character-level helpers for the line parser: white-space trimming,
//! first-occurrence search, and comma splitting.

use vstd::prelude::*;
use vstd::string::StrSliceExecFns;

verus! {

/// The views of a sequence of strings: each as its character sequence.
pub open spec fn str_views(v: Seq<String>) -> Seq<Seq<char>> {
    v.map_values(|s: String| s@)
}

/// The Unicode white-space characters, the set `char::is_whitespace` accepts.
pub open spec fn is_ws_spec(c: char) -> bool {
    let u = c as u32;
    ||| u == 0x20
    ||| (0x09 <= u && u <= 0x0D)
    ||| u == 0x85
    ||| u == 0xA0
    ||| u == 0x1680
    ||| (0x2000 <= u && u <= 0x200A)
    ||| u == 0x2028
    ||| u == 0x2029
    ||| u == 0x202F
    ||| u == 0x205F
    ||| u == 0x3000
}

pub fn is_ws(c: char) -> (b: bool)
    ensures
        b == is_ws_spec(c),
{
    let u = c as u32;
    u == 0x20 || (0x09 <= u && u <= 0x0D) || u == 0x85 || u == 0xA0 || u == 0x1680
        || (0x2000 <= u && u <= 0x200A) || u == 0x2028 || u == 0x2029 || u == 0x202F
        || u == 0x205F || u == 0x3000
}

/// The sequence with its leading white space removed.
pub open spec fn trim_start_spec(s: Seq<char>) -> Seq<char>
    decreases s.len(),
{
    if s.len() > 0 && is_ws_spec(s[0]) {
        trim_start_spec(s.drop_first())
    } else {
        s
    }
}

/// The sequence with its trailing white space removed.
pub open spec fn trim_end_spec(s: Seq<char>) -> Seq<char>
    decreases s.len(),
{
    if s.len() > 0 && is_ws_spec(s[s.len() - 1]) {
        trim_end_spec(s.drop_last())
    } else {
        s
    }
}

/// The sequence with white space removed from both ends.
pub open spec fn trim_spec(s: Seq<char>) -> Seq<char> {
    trim_end_spec(trim_start_spec(s))
}

pub fn trim(s: &str) -> (r: &str)
    ensures
        r@ == trim_spec(s@),
{
    let n = s.unicode_len();
    let mut lo: usize = 0;
    proof {
        assert(s@.skip(0) =~= s@);
    }
    while lo < n && is_ws(s.get_char(lo))
        invariant
            n == s@.len(),
            0 <= lo <= n,
            trim_start_spec(s@) == trim_start_spec(s@.skip(lo as int)),
        decreases n - lo,
    {
        proof {
            assert(s@.skip(lo as int).drop_first() =~= s@.skip(lo as int + 1));
        }
        lo = lo + 1;
    }
    proof {
        assert(trim_start_spec(s@.skip(lo as int)) == s@.skip(lo as int));
        assert(s@.subrange(lo as int, n as int) =~= s@.skip(lo as int));
    }
    let mut hi: usize = n;
    while hi > lo && is_ws(s.get_char(hi - 1))
        invariant
            n == s@.len(),
            0 <= lo <= hi <= n,
            trim_start_spec(s@) == s@.skip(lo as int),
            trim_end_spec(s@.skip(lo as int)) == trim_end_spec(s@.subrange(lo as int, hi as int)),
        decreases hi,
    {
        proof {
            assert(s@.subrange(lo as int, hi as int).drop_last() =~= s@.subrange(
                lo as int,
                hi as int - 1,
            ));
        }
        hi = hi - 1;
    }
    proof {
        assert(trim_end_spec(s@.subrange(lo as int, hi as int)) == s@.subrange(
            lo as int,
            hi as int,
        ));
    }
    s.substring_char(lo, hi)
}

/// The index of the first occurrence of `c` in `s`, if any.
pub open spec fn find_spec(s: Seq<char>, c: char) -> Option<int>
    decreases s.len(),
{
    if s.len() == 0 {
        None
    } else if s[0] == c {
        Some(0int)
    } else {
        match find_spec(s.drop_first(), c) {
            None => None,
            Some(i) => Some(i + 1),
        }
    }
}

/// `find_spec` returns the first occurrence: the index holds `c` and nothing
/// before it does; `None` means `c` does not occur at all.
pub proof fn lemma_find_spec(s: Seq<char>, c: char)
    ensures
        match find_spec(s, c) {
            None => forall|j: int| 0 <= j < s.len() ==> s[j] != c,
            Some(i) => 0 <= i < s.len() && s[i] == c && (forall|j: int| 0 <= j < i ==> s[j] != c),
        },
    decreases s.len(),
{
    if s.len() == 0 {
    } else if s[0] == c {
    } else {
        lemma_find_spec(s.drop_first(), c);
        match find_spec(s.drop_first(), c) {
            None => {
                assert forall|j: int| 0 <= j < s.len() implies s[j] != c by {
                    if j > 0 {
                        assert(s.drop_first()[j - 1] == s[j]);
                    }
                }
            },
            Some(i) => {
                assert(s.drop_first()[i] == s[i + 1]);
                assert forall|j: int| 0 <= j < i + 1 implies s[j] != c by {
                    if j > 0 {
                        assert(s.drop_first()[j - 1] == s[j]);
                    }
                }
            },
        }
    }
}

pub fn find_char(s: &str, c: char) -> (r: Option<usize>)
    ensures
        match r {
            None => find_spec(s@, c) is None,
            Some(i) => find_spec(s@, c) == Some(i as int),
        },
{
    let n = s.unicode_len();
    let mut i: usize = 0;
    while i < n
        invariant
            n == s@.len(),
            0 <= i <= n,
            forall|j: int| 0 <= j < i ==> s@[j] != c,
        decreases n - i,
    {
        if s.get_char(i) == c {
            proof {
                lemma_find_spec(s@, c);
            }
            return Some(i);
        }
        i = i + 1;
    }
    proof {
        lemma_find_spec(s@, c);
    }
    None
}

/// The comma-separated pieces of `s`, each trimmed of surrounding white
/// space; splitting happens at every `sep` and an absent separator yields
/// the whole (trimmed) input as the single piece.
pub open spec fn split_trim_spec(s: Seq<char>, sep: char) -> Seq<Seq<char>>
    decreases s.len(),
        via split_trim_spec_dec
{
    match find_spec(s, sep) {
        None => seq![trim_spec(s)],
        Some(i) => seq![trim_spec(s.subrange(0, i))] + split_trim_spec(
            s.subrange(i + 1, s.len() as int),
            sep,
        ),
    }
}

#[via_fn]
proof fn split_trim_spec_dec(s: Seq<char>, sep: char) {
    lemma_find_spec(s, sep);
}

pub fn split_trim_commas(s: &str) -> (v: Vec<String>)
    ensures
        v@.map_values(|t: String| t@) == split_trim_spec(s@, ','),
{
    let n = s.unicode_len();
    let mut v: Vec<String> = Vec::new();
    let mut cur: usize = 0;
    proof {
        assert(s@.subrange(0, n as int) =~= s@);
        assert(v@.map_values(|t: String| t@) =~= Seq::<Seq<char>>::empty());
        assert(Seq::<Seq<char>>::empty() + split_trim_spec(s@, ',') =~= split_trim_spec(s@, ','));
    }
    loop
        invariant
            n == s@.len(),
            0 <= cur <= n,
            split_trim_spec(s@, ',') == v@.map_values(|t: String| t@) + split_trim_spec(
                s@.subrange(cur as int, n as int),
                ',',
            ),
        decreases n - cur,
    {
        let rest = s.substring_char(cur, n);
        let ghost old_views = v@.map_values(|t: String| t@);
        match find_char(rest, ',') {
            Some(i) => {
                proof {
                    lemma_find_spec(rest@, ',');
                }
                let piece = rest.substring_char(0, i);
                let trimmed = trim(piece);
                v.push(trimmed.to_owned());
                proof {
                    assert(rest@.subrange(0, i as int) =~= piece@);
                    assert(rest@.subrange(i as int + 1, rest@.len() as int) =~= s@.subrange(
                        cur as int + i as int + 1,
                        n as int,
                    ));
                    assert(v@.map_values(|t: String| t@) =~= old_views.push(trim_spec(piece@)));
                    assert(old_views + split_trim_spec(rest@, ',') =~= v@.map_values(
                        |t: String| t@,
                    ) + split_trim_spec(s@.subrange(cur as int + i as int + 1, n as int), ','));
                }
                cur = cur + i + 1;
            },
            None => {
                let trimmed = trim(rest);
                v.push(trimmed.to_owned());
                proof {
                    assert(v@.map_values(|t: String| t@) =~= old_views.push(trim_spec(rest@)));
                    assert(old_views + split_trim_spec(rest@, ',') =~= v@.map_values(
                        |t: String| t@,
                    ));
                }
                return v;
            },
        }
    }
}

} // verus!
