//! Character and string helpers shared by the document pipeline:
//! whitespace trimming, decimal rendering, delimiter splitting and
//! case-insensitive comparison against ASCII patterns.

use vstd::prelude::*;
use vstd::string::*;

verus! {

/// The Unicode white-space characters, as a predicate on scalar values.
pub open spec fn is_space_char(c: char) -> bool {
    let u = c as u32;
    (9 <= u && u <= 13) || u == 32 || u == 0x85 || u == 0xA0 || u == 0x1680
        || (0x2000 <= u && u <= 0x200A) || u == 0x2028 || u == 0x2029 || u == 0x202F
        || u == 0x205F || u == 0x3000
}

pub fn is_space(c: char) -> (r: bool)
    ensures
        r == is_space_char(c),
{
    let u: u32 = c as u32;
    (9 <= u && u <= 13) || u == 32 || u == 0x85 || u == 0xA0 || u == 0x1680
        || (0x2000 <= u && u <= 0x200A) || u == 0x2028 || u == 0x2029 || u == 0x202F
        || u == 0x205F || u == 0x3000
}

/// The sequence with leading white space removed.
pub open spec fn trim_front(s: Seq<char>) -> Seq<char>
    decreases s.len(),
{
    if s.len() > 0 && is_space_char(s[0]) {
        trim_front(s.drop_first())
    } else {
        s
    }
}

/// The sequence with trailing white space removed.
pub open spec fn trim_back(s: Seq<char>) -> Seq<char>
    decreases s.len(),
{
    if s.len() > 0 && is_space_char(s[s.len() - 1]) {
        trim_back(s.drop_last())
    } else {
        s
    }
}

/// The sequence with surrounding white space removed.
pub open spec fn trim_seq(s: Seq<char>) -> Seq<char> {
    trim_back(trim_front(s))
}

proof fn lemma_trim_front_skip(s: Seq<char>, lo: int)
    requires
        0 <= lo < s.len(),
        is_space_char(s[lo]),
        trim_front(s) == trim_front(s.subrange(lo, s.len() as int)),
    ensures
        trim_front(s) == trim_front(s.subrange(lo + 1, s.len() as int)),
{
    let tail = s.subrange(lo, s.len() as int);
    assert(tail.drop_first() =~= s.subrange(lo + 1, s.len() as int));
}

proof fn lemma_trim_back_shrink(s: Seq<char>, lo: int, hi: int)
    requires
        0 <= lo < hi <= s.len(),
        is_space_char(s[hi - 1]),
        trim_back(s.subrange(lo, s.len() as int)) == trim_back(s.subrange(lo, hi)),
    ensures
        trim_back(s.subrange(lo, s.len() as int)) == trim_back(s.subrange(lo, hi - 1)),
{
    let part = s.subrange(lo, hi);
    assert(part.drop_last() =~= s.subrange(lo, hi - 1));
}

/// Removes surrounding white space, as `trim_seq` describes.
pub fn trim_str<'a>(s: &'a str) -> (r: &'a str)
    ensures
        r@ == trim_seq(s@),
{
    let n: usize = s.unicode_len();
    let mut lo: usize = 0;
    proof {
        assert(s@.subrange(0, n as int) =~= s@);
    }
    while lo < n && is_space(s.get_char(lo))
        invariant
            0 <= lo <= n,
            n == s@.len(),
            trim_front(s@) == trim_front(s@.subrange(lo as int, n as int)),
        decreases n - lo,
    {
        proof {
            lemma_trim_front_skip(s@, lo as int);
        }
        lo = lo + 1;
    }
    proof {
        let tail = s@.subrange(lo as int, n as int);
        if lo < n {
            assert(!is_space_char(tail[0]));
        }
        assert(trim_front(s@) == tail);
    }
    let mut hi: usize = n;
    while hi > lo && is_space(s.get_char(hi - 1))
        invariant
            lo <= hi <= n,
            n == s@.len(),
            trim_front(s@) == s@.subrange(lo as int, n as int),
            trim_back(s@.subrange(lo as int, n as int)) == trim_back(
                s@.subrange(lo as int, hi as int),
            ),
        decreases hi,
    {
        proof {
            lemma_trim_back_shrink(s@, lo as int, hi as int);
        }
        hi = hi - 1;
    }
    proof {
        let part = s@.subrange(lo as int, hi as int);
        if hi > lo {
            assert(!is_space_char(part[part.len() - 1]));
        }
        assert(trim_back(part) == part);
    }
    s.substring_char(lo, hi)
}

/// The character for one decimal digit.
pub open spec fn digit_char(d: nat) -> char {
    if d == 0 {
        '0'
    } else if d == 1 {
        '1'
    } else if d == 2 {
        '2'
    } else if d == 3 {
        '3'
    } else if d == 4 {
        '4'
    } else if d == 5 {
        '5'
    } else if d == 6 {
        '6'
    } else if d == 7 {
        '7'
    } else if d == 8 {
        '8'
    } else {
        '9'
    }
}

/// The usual decimal rendering of a natural number, most significant
/// digit first and without leading zeros.
pub open spec fn dec_str(n: nat) -> Seq<char>
    decreases n,
{
    if n < 10 {
        seq![digit_char(n)]
    } else {
        dec_str(n / 10) + seq![digit_char(n % 10)]
    }
}

fn digit_str(d: u64) -> (r: &'static str)
    requires
        d < 10,
    ensures
        r@ == seq![digit_char(d as nat)],
{
    proof {
        reveal_strlit("0");
        reveal_strlit("1");
        reveal_strlit("2");
        reveal_strlit("3");
        reveal_strlit("4");
        reveal_strlit("5");
        reveal_strlit("6");
        reveal_strlit("7");
        reveal_strlit("8");
        reveal_strlit("9");
    }
    let r = if d == 0 {
        "0"
    } else if d == 1 {
        "1"
    } else if d == 2 {
        "2"
    } else if d == 3 {
        "3"
    } else if d == 4 {
        "4"
    } else if d == 5 {
        "5"
    } else if d == 6 {
        "6"
    } else if d == 7 {
        "7"
    } else if d == 8 {
        "8"
    } else {
        "9"
    };
    proof {
        assert(r@ =~= seq![digit_char(d as nat)]);
    }
    r
}

/// Renders a number in decimal, as `dec_str` describes.
pub fn u64_to_dec(n: u64) -> (r: String)
    ensures
        r@ == dec_str(n as nat),
    decreases n,
{
    if n < 10 {
        digit_str(n).to_owned()
    } else {
        let high = u64_to_dec(n / 10);
        high.concat(digit_str(n % 10))
    }
}

/// Splits a sequence at every separator: one part per gap, so a
/// sequence with `k` separators yields `k + 1` (possibly empty) parts.
pub open spec fn split_parts(s: Seq<char>, sep: char) -> Seq<Seq<char>>
    decreases s.len(),
{
    if s.len() == 0 {
        seq![Seq::<char>::empty()]
    } else if s[0] == sep {
        seq![Seq::<char>::empty()] + split_parts(s.drop_first(), sep)
    } else {
        let rest = split_parts(s.drop_first(), sep);
        seq![seq![s[0]] + rest[0]] + rest.drop_first()
    }
}

proof fn lemma_split_len(s: Seq<char>, sep: char)
    ensures
        split_parts(s, sep).len() >= 1,
    decreases s.len(),
{
    if s.len() > 0 {
        lemma_split_len(s.drop_first(), sep);
    }
}

proof fn lemma_split_no_sep(s: Seq<char>, sep: char)
    requires
        forall|j: int| 0 <= j < s.len() ==> s[j] != sep,
    ensures
        split_parts(s, sep) == seq![s],
    decreases s.len(),
{
    if s.len() == 0 {
        assert(s =~= Seq::<char>::empty());
    } else {
        lemma_split_no_sep(s.drop_first(), sep);
        let rest = split_parts(s.drop_first(), sep);
        assert(seq![s[0]] + rest[0] =~= s);
        assert(rest.drop_first() =~= Seq::<Seq<char>>::empty());
        assert(seq![seq![s[0]] + rest[0]] + rest.drop_first() =~= seq![s]);
    }
}

proof fn lemma_split_first(s: Seq<char>, sep: char, k: int)
    requires
        0 <= k < s.len(),
        s[k] == sep,
        forall|j: int| 0 <= j < k ==> s[j] != sep,
    ensures
        split_parts(s, sep) == seq![s.subrange(0, k)] + split_parts(
            s.subrange(k + 1, s.len() as int),
            sep,
        ),
    decreases k,
{
    if k == 0 {
        assert(s.drop_first() =~= s.subrange(1, s.len() as int));
        assert(s.subrange(0, 0) =~= Seq::<char>::empty());
        assert(seq![Seq::<char>::empty()] + split_parts(s.drop_first(), sep) =~= seq![
            s.subrange(0, 0),
        ] + split_parts(s.subrange(1, s.len() as int), sep));
    } else {
        let t = s.drop_first();
        assert(t[k - 1] == sep);
        assert(forall|j: int| 0 <= j < k - 1 ==> t[j] != sep);
        lemma_split_first(t, sep, k - 1);
        let rest = split_parts(t, sep);
        lemma_split_len(t.subrange(k, t.len() as int), sep);
        assert(rest == seq![t.subrange(0, k - 1)] + split_parts(
            t.subrange(k, t.len() as int),
            sep,
        ));
        assert(rest[0] == t.subrange(0, k - 1));
        assert(seq![s[0]] + rest[0] =~= s.subrange(0, k));
        assert(rest.drop_first() =~= split_parts(t.subrange(k, t.len() as int), sep));
        assert(t.subrange(k, t.len() as int) =~= s.subrange(k + 1, s.len() as int));
        assert(seq![seq![s[0]] + rest[0]] + rest.drop_first() =~= seq![s.subrange(0, k)]
            + split_parts(s.subrange(k + 1, s.len() as int), sep));
    }
}

/// Splits a string at every separator character, as `split_parts`
/// describes.
pub fn split_string(s: &str, sep: char) -> (r: Vec<String>)
    ensures
        r.deep_view() == split_parts(s@, sep),
{
    let n: usize = s.unicode_len();
    let mut parts: Vec<String> = Vec::new();
    let mut seg_start: usize = 0;
    let mut i: usize = 0;
    proof {
        assert(parts.deep_view() =~= Seq::<Seq<char>>::empty());
        assert(s@.subrange(0, n as int) =~= s@);
    }
    while i < n
        invariant
            0 <= seg_start <= i <= n,
            n == s@.len(),
            forall|j: int| seg_start <= j < i ==> s@[j] != sep,
            split_parts(s@, sep) == parts.deep_view() + split_parts(
                s@.subrange(seg_start as int, n as int),
                sep,
            ),
        decreases n - i,
    {
        if s.get_char(i) == sep {
            let part = s.substring_char(seg_start, i).to_owned();
            let ghost prev = parts.deep_view();
            proof {
                let tail = s@.subrange(seg_start as int, n as int);
                let k = i - seg_start;
                assert(tail[k] == sep);
                assert(forall|j: int| 0 <= j < k ==> tail[j] != sep);
                lemma_split_first(tail, sep, k);
                assert(tail.subrange(0, k) =~= part@);
                assert(tail.subrange(k + 1, tail.len() as int) =~= s@.subrange(
                    i + 1,
                    n as int,
                ));
            }
            parts.push(part);
            proof {
                assert(parts.deep_view() =~= prev.push(part@));
                assert(parts.deep_view() + split_parts(s@.subrange(i + 1, n as int), sep) =~= prev
                    + (seq![part@] + split_parts(s@.subrange(i + 1, n as int), sep)));
            }
            seg_start = i + 1;
        }
        i = i + 1;
    }
    let last = s.substring_char(seg_start, n).to_owned();
    let ghost prev = parts.deep_view();
    proof {
        let tail = s@.subrange(seg_start as int, n as int);
        assert(forall|j: int| 0 <= j < tail.len() ==> tail[j] != sep);
        lemma_split_no_sep(tail, sep);
    }
    parts.push(last);
    proof {
        assert(parts.deep_view() =~= prev.push(last@));
        assert(split_parts(s@, sep) =~= parts.deep_view());
    }
    parts
}

/// Whether `s` equals an all-lowercase ASCII pattern, ignoring the case
/// of ASCII letters in `s`.
pub open spec fn matches_lower(s: Seq<char>, pat: Seq<char>) -> bool {
    s.len() == pat.len() && forall|i: int|
        0 <= i < s.len() ==> (s[i] == pat[i] || ('a' <= #[trigger] pat[i] && pat[i] <= 'z' && s[i]
            as u32 + 32 == pat[i] as u32))
}

/// Compares against an all-lowercase ASCII pattern, ignoring ASCII case,
/// as `matches_lower` describes.
pub fn eq_ignore_ascii_case(s: &str, pat: &str) -> (r: bool)
    ensures
        r == matches_lower(s@, pat@),
{
    let n: usize = s.unicode_len();
    if n != pat.unicode_len() {
        return false;
    }
    let mut i: usize = 0;
    while i < n
        invariant
            0 <= i <= n,
            n == s@.len(),
            n == pat@.len(),
            forall|j: int|
                0 <= j < i ==> (s@[j] == pat@[j] || ('a' <= #[trigger] pat@[j] && pat@[j] <= 'z'
                    && s@[j] as u32 + 32 == pat@[j] as u32)),
        decreases n - i,
    {
        let c = s.get_char(i);
        let p = pat.get_char(i);
        let ok = c == p || ('a' <= p && p <= 'z' && (c as u32) + 32 == p as u32);
        if !ok {
            return false;
        }
        i = i + 1;
    }
    true
}

/// The concatenation of `parts` with `sep` between consecutive parts.
pub open spec fn join_parts(parts: Seq<Seq<char>>, sep: Seq<char>) -> Seq<char>
    decreases parts.len(),
{
    if parts.len() == 0 {
        Seq::empty()
    } else if parts.len() == 1 {
        parts[0]
    } else {
        parts[0] + sep + join_parts(parts.drop_first(), sep)
    }
}

proof fn lemma_join_snoc(parts: Seq<Seq<char>>, sep: Seq<char>, last: Seq<char>)
    requires
        parts.len() > 0,
    ensures
        join_parts(parts.push(last), sep) == join_parts(parts, sep) + sep + last,
    decreases parts.len(),
{
    if parts.len() == 1 {
        let both = parts.push(last);
        assert(both.drop_first() =~= seq![last]);
        assert(join_parts(both, sep) == both[0] + sep + join_parts(seq![last], sep));
    } else {
        let both = parts.push(last);
        assert(both.drop_first() =~= parts.drop_first().push(last));
        lemma_join_snoc(parts.drop_first(), sep, last);
        assert(join_parts(both, sep) == both[0] + sep + join_parts(
            parts.drop_first().push(last),
            sep,
        ));
        assert(both[0] + sep + (join_parts(parts.drop_first(), sep) + sep + last) =~= (parts[0]
            + sep + join_parts(parts.drop_first(), sep)) + sep + last);
    }
}

/// Joins strings with a separator, as `join_parts` describes.
pub fn join_strings(parts: &Vec<String>, sep: &str) -> (r: String)
    ensures
        r@ == join_parts(parts.deep_view(), sep@),
{
    let ghost all = parts.deep_view();
    let mut out = String::new();
    let n: usize = parts.len();
    proof {
        assert(all.len() == n);
        assert(all.subrange(0, 0) =~= Seq::<Seq<char>>::empty());
    }
    let mut i: usize = 0;
    while i < n
        invariant
            0 <= i <= n,
            n == all.len(),
            all == parts.deep_view(),
            out@ == join_parts(all.subrange(0, i as int), sep@),
        decreases n - i,
    {
        if i > 0 {
            out.append(sep);
        }
        out.append(parts[i].as_str());
        proof {
            let prefix = all.subrange(0, i as int);
            assert(parts[i as int].deep_view() == all[i as int]);
            assert(all.subrange(0, i + 1) =~= prefix.push(all[i as int]));
            if i > 0 {
                lemma_join_snoc(prefix, sep@, all[i as int]);
            } else {
                assert(all.subrange(0, 1) =~= seq![all[0]]);
            }
        }
        i = i + 1;
    }
    proof {
        assert(all.subrange(0, n as int) =~= all);
    }
    out
}

} // verus!
