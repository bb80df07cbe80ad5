//! Character-sequence utilities: substring matching, trimming, prefix and
//! suffix stripping, occurrence removal, and line splitting, each with an
//! exact specification over `Seq<char>`.

use vstd::prelude::*;
use vstd::string::*;

verus! {

/// `p` occurs in `s` at position `i`.
pub open spec fn match_at(s: Seq<char>, p: Seq<char>, i: int) -> bool {
    0 <= i && i + p.len() <= s.len() && s.subrange(i, i + p.len() as int) == p
}

/// `p` occurs somewhere in `s`.
pub open spec fn spec_contains(s: Seq<char>, p: Seq<char>) -> bool {
    exists|i: int| match_at(s, p, i)
}

pub open spec fn spec_starts_with(s: Seq<char>, p: Seq<char>) -> bool {
    p.len() <= s.len() && s.subrange(0, p.len() as int) == p
}

pub open spec fn spec_ends_with(s: Seq<char>, p: Seq<char>) -> bool {
    p.len() <= s.len() && s.subrange(s.len() - p.len(), s.len() as int) == p
}

/// The whitespace characters recognized by trimming.
pub open spec fn is_ws(c: char) -> bool {
    c == ' ' || c == '\t' || c == '\r' || c == '\n'
}

/// `s` with leading whitespace removed.
pub open spec fn spec_trim_start(s: Seq<char>) -> Seq<char>
    decreases s.len(),
{
    if s.len() > 0 && is_ws(s[0]) {
        spec_trim_start(s.skip(1))
    } else {
        s
    }
}

/// `s` with trailing whitespace removed.
pub open spec fn spec_trim_end(s: Seq<char>) -> Seq<char>
    decreases s.len(),
{
    if s.len() > 0 && is_ws(s[s.len() - 1]) {
        spec_trim_end(s.take(s.len() - 1))
    } else {
        s
    }
}

/// `s` with surrounding whitespace removed.
pub open spec fn spec_trim(s: Seq<char>) -> Seq<char> {
    spec_trim_end(spec_trim_start(s))
}

/// `s` with every leading repetition of `p` removed.
pub open spec fn spec_trim_start_matches(s: Seq<char>, p: Seq<char>) -> Seq<char>
    decreases s.len(),
{
    if p.len() > 0 && spec_starts_with(s, p) {
        spec_trim_start_matches(s.skip(p.len() as int), p)
    } else {
        s
    }
}

/// `s` with every trailing repetition of `p` removed.
pub open spec fn spec_trim_end_matches(s: Seq<char>, p: Seq<char>) -> Seq<char>
    decreases s.len(),
{
    if p.len() > 0 && spec_ends_with(s, p) {
        spec_trim_end_matches(s.take(s.len() - p.len()), p)
    } else {
        s
    }
}

/// `s` with every occurrence of `p` removed, scanning left to right over
/// non-overlapping occurrences.
pub open spec fn spec_strip_all(s: Seq<char>, p: Seq<char>) -> Seq<char>
    decreases s.len(),
{
    if s.len() == 0 || p.len() == 0 {
        s
    } else if spec_starts_with(s, p) {
        spec_strip_all(s.skip(p.len() as int), p)
    } else {
        seq![s[0]] + spec_strip_all(s.skip(1), p)
    }
}

/// The lines of `s`, split on `'\n'`; a final line without a terminating
/// newline is included, a terminating newline adds no empty line.
pub open spec fn lines_rec(s: Seq<char>, cur: Seq<char>) -> Seq<Seq<char>>
    decreases s.len(),
{
    if s.len() == 0 {
        if cur.len() == 0 {
            Seq::empty()
        } else {
            seq![cur]
        }
    } else if s[0] == '\n' {
        seq![cur] + lines_rec(s.skip(1), Seq::empty())
    } else {
        lines_rec(s.skip(1), cur.push(s[0]))
    }
}

pub open spec fn spec_lines(s: Seq<char>) -> Seq<Seq<char>> {
    lines_rec(s, Seq::empty())
}

/// Whether `p` occurs in `s` at position `i`, by character comparison.
pub fn str_match_at(s: &str, p: &str, i: usize) -> (r: bool)
    ensures
        r == match_at(s@, p@, i as int),
{
    let n = s.unicode_len();
    let m = p.unicode_len();
    if i > n || m > n - i {
        return false;
    }
    let mut k: usize = 0;
    while k < m
        invariant
            i + m <= n,
            k <= m,
            m == p@.len(),
            n == s@.len(),
            forall|t: int| 0 <= t < k ==> s@[i + t] == p@[t],
        decreases m - k,
    {
        if s.get_char(i + k) != p.get_char(k) {
            proof {
                assert(s@.subrange(i as int, i + m as int)[k as int] != p@[k as int]);
            }
            return false;
        }
        k += 1;
    }
    proof {
        assert(s@.subrange(i as int, i + m as int) =~= p@);
    }
    true
}

/// Whether `p` occurs anywhere in `s`.
pub fn str_contains(s: &str, p: &str) -> (r: bool)
    ensures
        r == spec_contains(s@, p@),
{
    let n = s.unicode_len();
    let mut i: usize = 0;
    loop
        invariant
            i <= n,
            n == s@.len(),
            forall|j: int| 0 <= j < i ==> !match_at(s@, p@, j),
        decreases n - i,
    {
        if str_match_at(s, p, i) {
            return true;
        }
        if i == n {
            proof {
                assert(!spec_contains(s@, p@)) by {
                    if spec_contains(s@, p@) {
                        let j = choose|j: int| match_at(s@, p@, j);
                        assert(0 <= j <= n);
                    }
                }
            }
            return false;
        }
        i += 1;
    }
}

pub fn str_starts_with(s: &str, p: &str) -> (r: bool)
    ensures
        r == spec_starts_with(s@, p@),
{
    let r = str_match_at(s, p, 0);
    proof {
        if r {
            assert(s@.subrange(0, p@.len() as int) == p@);
        }
    }
    r
}

pub fn str_ends_with(s: &str, p: &str) -> (r: bool)
    ensures
        r == spec_ends_with(s@, p@),
{
    let n = s.unicode_len();
    let m = p.unicode_len();
    if m > n {
        return false;
    }
    let r = str_match_at(s, p, n - m);
    r
}

fn is_ws_char(c: char) -> (r: bool)
    ensures
        r == is_ws(c),
{
    c == ' ' || c == '\t' || c == '\r' || c == '\n'
}

/// `s` with surrounding whitespace removed.
pub fn str_trim<'a>(s: &'a str) -> (r: &'a str)
    ensures
        r@ == spec_trim(s@),
{
    let n = s.unicode_len();
    proof {
        assert(s@.skip(0) =~= s@);
    }
    let mut a: usize = 0;
    while a < n && is_ws_char(s.get_char(a))
        invariant
            a <= n,
            n == s@.len(),
            spec_trim_start(s@) == spec_trim_start(s@.skip(a as int)),
        decreases n - a,
    {
        proof {
            assert(s@.skip(a as int).skip(1) =~= s@.skip(a + 1));
        }
        a += 1;
    }
    proof {
        assert(spec_trim_start(s@.skip(a as int)) == s@.skip(a as int));
        assert(s@.skip(a as int) =~= s@.subrange(a as int, n as int));
    }
    let mut b: usize = n;
    while b > a && is_ws_char(s.get_char(b - 1))
        invariant
            a <= b <= n,
            n == s@.len(),
            spec_trim_start(s@) == s@.subrange(a as int, n as int),
            spec_trim_end(s@.subrange(a as int, n as int)) == spec_trim_end(
                s@.subrange(a as int, b as int),
            ),
        decreases b,
    {
        proof {
            let cur = s@.subrange(a as int, b as int);
            assert(is_ws(cur[cur.len() - 1]));
            assert(cur.take(cur.len() - 1) =~= s@.subrange(a as int, b - 1));
        }
        b -= 1;
    }
    proof {
        let cur = s@.subrange(a as int, b as int);
        assert(spec_trim_end(cur) == cur);
    }
    let r = s.substring_char(a, b);
    r
}

/// `s` with every leading repetition of `p` removed.
pub fn str_trim_start_matches<'a>(s: &'a str, p: &str) -> (r: &'a str)
    requires
        p@.len() > 0,
    ensures
        r@ == spec_trim_start_matches(s@, p@),
{
    let n = s.unicode_len();
    let m = p.unicode_len();
    proof {
        assert(s@.skip(0) =~= s@);
    }
    let mut i: usize = 0;
    while str_match_at(s, p, i)
        invariant
            i <= n,
            n == s@.len(),
            m == p@.len(),
            m > 0,
            spec_trim_start_matches(s@, p@) == spec_trim_start_matches(s@.skip(i as int), p@),
        decreases n - i,
    {
        proof {
            assert(s@.skip(i as int).subrange(0, m as int) =~= s@.subrange(i as int, i + m as int));
            assert(spec_starts_with(s@.skip(i as int), p@));
            assert(s@.skip(i as int).skip(m as int) =~= s@.skip(i + m));
        }
        i += m;
    }
    proof {
        if spec_starts_with(s@.skip(i as int), p@) {
            assert(s@.subrange(i as int, i + m as int) =~= s@.skip(i as int).subrange(0, m as int));
            assert(match_at(s@, p@, i as int));
        }
        assert(spec_trim_start_matches(s@.skip(i as int), p@) == s@.skip(i as int));
    }
    let r = s.substring_char(i, n);
    proof {
        assert(r@ =~= s@.skip(i as int));
    }
    r
}

/// `s` with every trailing repetition of `p` removed.
pub fn str_trim_end_matches<'a>(s: &'a str, p: &str) -> (r: &'a str)
    requires
        p@.len() > 0,
    ensures
        r@ == spec_trim_end_matches(s@, p@),
{
    let n = s.unicode_len();
    let m = p.unicode_len();
    proof {
        assert(s@.take(n as int) =~= s@);
    }
    let mut b: usize = n;
    while b >= m && str_match_at(s, p, b - m)
        invariant
            b <= n,
            n == s@.len(),
            m == p@.len(),
            m > 0,
            spec_trim_end_matches(s@, p@) == spec_trim_end_matches(s@.take(b as int), p@),
        decreases b,
    {
        proof {
            let cur = s@.take(b as int);
            assert(cur.subrange(cur.len() - m, cur.len() as int) =~= s@.subrange(
                b - m,
                b as int,
            ));
            assert(spec_ends_with(cur, p@));
            assert(cur.take(cur.len() - m) =~= s@.take(b - m));
        }
        b -= m;
    }
    proof {
        let cur = s@.take(b as int);
        if spec_ends_with(cur, p@) {
            assert(s@.subrange(b - m, b as int) =~= cur.subrange(cur.len() - m, cur.len() as int));
            assert(match_at(s@, p@, b - m));
        }
        assert(spec_trim_end_matches(cur, p@) == cur);
    }
    let r = s.substring_char(0, b);
    proof {
        assert(r@ =~= s@.take(b as int));
    }
    r
}

/// `s` with every occurrence of `p` removed.
pub fn str_strip_all(s: &str, p: &str) -> (r: String)
    requires
        p@.len() > 0,
    ensures
        r@ == spec_strip_all(s@, p@),
{
    let n = s.unicode_len();
    let m = p.unicode_len();
    let mut out = String::new();
    proof {
        assert(s@.skip(0) =~= s@);
        assert(Seq::<char>::empty() + spec_strip_all(s@, p@) =~= spec_strip_all(s@, p@));
    }
    let mut i: usize = 0;
    while i < n
        invariant
            i <= n,
            n == s@.len(),
            m == p@.len(),
            m > 0,
            spec_strip_all(s@, p@) == out@ + spec_strip_all(s@.skip(i as int), p@),
        decreases n - i,
    {
        if str_match_at(s, p, i) {
            proof {
                assert(s@.skip(i as int).subrange(0, m as int) =~= s@.subrange(
                    i as int,
                    i + m as int,
                ));
                assert(spec_starts_with(s@.skip(i as int), p@));
                assert(s@.skip(i as int).skip(m as int) =~= s@.skip(i + m));
            }
            i += m;
        } else {
            let c = s.substring_char(i, i + 1);
            proof {
                let ghost old_out = out@;
                if spec_starts_with(s@.skip(i as int), p@) {
                    assert(s@.subrange(i as int, i + m as int) =~= s@.skip(i as int).subrange(
                        0,
                        m as int,
                    ));
                    assert(match_at(s@, p@, i as int));
                }
                assert(c@ =~= seq![s@.skip(i as int)[0]]);
                assert(s@.skip(i as int).skip(1) =~= s@.skip(i + 1));
            }
            let ghost prev = out@;
            out.append(c);
            proof {
                assert(prev + (c@ + spec_strip_all(s@.skip(i + 1), p@)) =~= (prev + c@)
                    + spec_strip_all(s@.skip(i + 1), p@));
            }
            i += 1;
        }
    }
    proof {
        assert(s@.skip(i as int) =~= Seq::<char>::empty());
        assert(out@ + Seq::<char>::empty() =~= out@);
    }
    out
}

/// The lines of `s`, split on `'\n'`.
pub fn split_lines(s: &str) -> (r: Vec<String>)
    ensures
        r@.map_values(|l: String| l@) == spec_lines(s@),
{
    let n = s.unicode_len();
    let mut out: Vec<String> = Vec::new();
    let mut cur = String::new();
    proof {
        assert(s@.skip(0) =~= s@);
        assert(out@.map_values(|l: String| l@) =~= Seq::<Seq<char>>::empty());
        assert(Seq::<Seq<char>>::empty() + lines_rec(s@, Seq::empty()) =~= lines_rec(
            s@,
            Seq::empty(),
        ));
    }
    let mut i: usize = 0;
    while i < n
        invariant
            i <= n,
            n == s@.len(),
            spec_lines(s@) == out@.map_values(|l: String| l@) + lines_rec(
                s@.skip(i as int),
                cur@,
            ),
        decreases n - i,
    {
        let c = s.get_char(i);
        proof {
            assert(s@.skip(i as int)[0] == s@[i as int]);
            assert(s@.skip(i as int).skip(1) =~= s@.skip(i + 1));
        }
        if c == '\n' {
            let ghost prev_out = out@;
            let ghost prev_cur = cur@;
            out.push(cur);
            cur = String::new();
            proof {
                assert(out@.map_values(|l: String| l@) =~= prev_out.map_values(|l: String| l@)
                    .push(prev_cur));
                assert(prev_out.map_values(|l: String| l@) + (seq![prev_cur] + lines_rec(
                    s@.skip(i + 1),
                    Seq::empty(),
                )) =~= out@.map_values(|l: String| l@) + lines_rec(s@.skip(i + 1), Seq::empty()));
            }
        } else {
            let piece = s.substring_char(i, i + 1);
            proof {
                assert(piece@ =~= seq![s@[i as int]]);
            }
            let ghost prev_cur = cur@;
            cur.append(piece);
            proof {
                assert(cur@ =~= prev_cur.push(s@[i as int]));
            }
        }
        i += 1;
    }
    proof {
        assert(s@.skip(i as int) =~= Seq::<char>::empty());
    }
    if cur.as_str().unicode_len() > 0 {
        let ghost prev_out = out@;
        let ghost prev_cur = cur@;
        out.push(cur);
        proof {
            assert(out@.map_values(|l: String| l@) =~= prev_out.map_values(|l: String| l@).push(
                prev_cur,
            ));
            assert(prev_out.map_values(|l: String| l@) + seq![prev_cur] =~= out@.map_values(
                |l: String| l@,
            ));
        }
    } else {
        proof {
            assert(out@.map_values(|l: String| l@) + Seq::<Seq<char>>::empty() =~= out@.map_values(
                |l: String| l@,
            ));
        }
    }
    out
}

} // verus!
