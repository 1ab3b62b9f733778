//! Verified string, number and path helpers.
//!
//! All paths handled by this library are plain strings.  Splitting,
//! trimming, decimal parsing and formatting, lexicographic comparison and
//! path manipulation are implemented here against sequence-level
//! specifications; the rest of the library states its contracts in terms of
//! these spec functions.

use vstd::prelude::*;

verus! {

use vstd::string::StrSliceExecFns;
use vstd::string::StringExecFns;

/// True of the ten ASCII digit characters.
pub open spec fn is_digit(c: char) -> bool {
    48 <= c as u32 && c as u32 <= 57
}

/// Numeric value of an ASCII digit character.
pub open spec fn digit_val(c: char) -> nat {
    ((c as u32) - 48) as nat
}

pub open spec fn all_digits(s: Seq<char>) -> bool {
    forall|i: int| 0 <= i < s.len() ==> is_digit(#[trigger] s[i])
}

/// Value of a decimal digit string, most significant digit first.
pub open spec fn digits_val(s: Seq<char>) -> nat
    decreases s.len(),
{
    if s.len() == 0 {
        0
    } else {
        digits_val(s.drop_last()) * 10 + digit_val(s.last())
    }
}

/// The digit character for a value below ten.
pub open spec fn digit_char(d: nat) -> char {
    if d == 0 {
        '0'
    } else if d == 1 {
        '1'
    } else if d == 2 {
        '2'
    } else if d == 3 {
        '3'
    } else if d == 4 {
        '4'
    } else if d == 5 {
        '5'
    } else if d == 6 {
        '6'
    } else if d == 7 {
        '7'
    } else if d == 8 {
        '8'
    } else {
        '9'
    }
}

/// Decimal rendering of a natural number, without leading zeros.
pub open spec fn spec_dec(n: nat) -> Seq<char>
    decreases n,
{
    if n < 10 {
        seq![digit_char(n)]
    } else {
        spec_dec(n / 10) + seq![digit_char(n % 10)]
    }
}

/// The value of a digit-string prefix never exceeds the value of the whole.
pub proof fn lemma_digits_val_prefix(s: Seq<char>, j: int)
    requires
        0 <= j <= s.len(),
    ensures
        digits_val(s.take(j)) <= digits_val(s),
    decreases s.len() - j,
{
    if j == s.len() {
        assert(s.take(j) =~= s);
    } else {
        assert(s.take(j + 1).drop_last() =~= s.take(j));
        assert(digits_val(s.take(j + 1)) == digits_val(s.take(j)) * 10 + digit_val(
            s.take(j + 1).last(),
        ));
        lemma_digits_val_prefix(s, j + 1);
    }
}

/// Exact equality of two string slices.
pub fn str_eq(a: &str, b: &str) -> (r: bool)
    ensures
        r == (a@ == b@),
{
    let alen: usize = a.unicode_len();
    let blen: usize = b.unicode_len();
    if alen != blen {
        return false;
    }
    let mut i: usize = 0;
    while i < alen
        invariant
            alen == a@.len(),
            blen == b@.len(),
            alen == blen,
            0 <= i <= alen,
            forall|j: int| 0 <= j < i ==> a@[j] == b@[j],
        decreases alen - i,
    {
        if a.get_char(i) != b.get_char(i) {
            return false;
        }
        i = i + 1;
    }
    proof {
        assert(a@ =~= b@);
    }
    true
}

/// Index of the first occurrence of a character, if any.
pub fn find_char(s: &str, c: char) -> (r: Option<usize>)
    ensures
        (match r {
            Some(i) => i < s@.len() && s@[i as int] == c && forall|j: int|
                0 <= j < i ==> s@[j] != c,
            None => forall|j: int| 0 <= j < s@.len() ==> s@[j] != c,
        }),
{
    let n: usize = s.unicode_len();
    let mut i: usize = 0;
    while i < n
        invariant
            n == s@.len(),
            0 <= i <= n,
            forall|j: int| 0 <= j < i ==> s@[j] != c,
        decreases n - i,
    {
        if s.get_char(i) == c {
            return Some(i);
        }
        i = i + 1;
    }
    None
}

/// True when `p` is a prefix of `s`.
pub fn starts_with_str(s: &str, p: &str) -> (r: bool)
    ensures
        r == (s@.len() >= p@.len() && s@.subrange(0, p@.len() as int) == p@),
{
    let n: usize = s.unicode_len();
    let m: usize = p.unicode_len();
    if m > n {
        return false;
    }
    let mut i: usize = 0;
    while i < m
        invariant
            n == s@.len(),
            m == p@.len(),
            m <= n,
            0 <= i <= m,
            forall|j: int| 0 <= j < i ==> s@[j] == p@[j],
        decreases m - i,
    {
        if s.get_char(i) != p.get_char(i) {
            proof {
                assert(s@.subrange(0, p@.len() as int)[i as int] == s@[i as int]);
            }
            return false;
        }
        i = i + 1;
    }
    proof {
        assert(s@.subrange(0, p@.len() as int) =~= p@);
    }
    true
}

/// The remainder of `s` after the prefix `p`, when `p` is a prefix.
pub fn strip_prefix_str(s: &str, p: &str) -> (r: Option<String>)
    ensures
        (match r {
            Some(t) => s@.len() >= p@.len() && s@.subrange(0, p@.len() as int) == p@ && t@
                == s@.skip(p@.len() as int),
            None => !(s@.len() >= p@.len() && s@.subrange(0, p@.len() as int) == p@),
        }),
{
    if starts_with_str(s, p) {
        let n: usize = s.unicode_len();
        let m: usize = p.unicode_len();
        let rest = s.substring_char(m, n);
        proof {
            assert(rest@ =~= s@.skip(p@.len() as int));
        }
        Some(rest.to_owned())
    } else {
        None
    }
}

/// Index of the first occurrence of the substring `pat`, if any.
pub fn find_sub(s: &str, pat: &str) -> (r: Option<usize>)
    ensures
        (match r {
            Some(i) => i + pat@.len() <= s@.len() && s@.subrange(
                i as int,
                i as int + pat@.len() as int,
            ) == pat@ && forall|j: int|
                0 <= j < i ==> #[trigger] s@.subrange(j, j + pat@.len() as int) != pat@,
            None => forall|j: int|
                0 <= j && j + pat@.len() <= s@.len() ==> #[trigger] s@.subrange(
                    j,
                    j + pat@.len() as int,
                ) != pat@,
        }),
{
    let n: usize = s.unicode_len();
    let m: usize = pat.unicode_len();
    if m > n {
        return None;
    }
    if m == 0 {
        proof {
            assert(s@.subrange(0, 0) =~= pat@);
        }
        return Some(0);
    }
    let mut i: usize = 0;
    while i <= n - m
        invariant
            n == s@.len(),
            m == pat@.len(),
            1 <= m <= n,
            0 <= i <= n - m + 1,
            forall|j: int| 0 <= j < i ==> #[trigger] s@.subrange(j, j + pat@.len() as int)
                != pat@,
        decreases n - i,
    {
        let sub = s.substring_char(i, i + m);
        if str_eq(sub, pat) {
            return Some(i);
        }
        i = i + 1;
    }
    None
}

/// Splitting a character-separated string into its segments.
pub open spec fn spec_split(s: Seq<char>, c: char) -> Seq<Seq<char>>
    decreases s.len(),
{
    if s.len() == 0 {
        seq![Seq::<char>::empty()]
    } else if s[0] == c {
        seq![Seq::<char>::empty()] + spec_split(s.skip(1), c)
    } else {
        let r = spec_split(s.skip(1), c);
        seq![seq![s[0]] + r[0]] + r.skip(1)
    }
}

/// A string without the separator splits into exactly itself.
pub proof fn lemma_split_none(s: Seq<char>, c: char)
    requires
        forall|j: int| 0 <= j < s.len() ==> s[j] != c,
    ensures
        spec_split(s, c) == seq![s],
    decreases s.len(),
{
    if s.len() == 0 {
        assert(spec_split(s, c) =~~= seq![s]);
    } else {
        assert(s[0] != c);
        assert forall|j: int| 0 <= j < s.skip(1).len() implies s.skip(1)[j] != c by {
            assert(s.skip(1)[j] == s[j + 1]);
        }
        lemma_split_none(s.skip(1), c);
        let r = spec_split(s.skip(1), c);
        assert(r[0] == s.skip(1));
        assert(seq![s[0]] + s.skip(1) =~= s);
        assert(r.skip(1) =~~= Seq::<Seq<char>>::empty());
        assert(spec_split(s, c) =~~= seq![s]);
    }
}

/// Splitting at the first separator occurrence.
pub proof fn lemma_split_head(s: Seq<char>, c: char, i: int)
    requires
        0 <= i < s.len(),
        s[i] == c,
        forall|j: int| 0 <= j < i ==> s[j] != c,
    ensures
        spec_split(s, c) == seq![s.take(i)] + spec_split(s.skip(i + 1), c),
    decreases i,
{
    if i == 0 {
        assert(s.take(0) =~= Seq::<char>::empty());
        assert(spec_split(s, c) =~~= seq![s.take(0)] + spec_split(s.skip(1), c));
    } else {
        let t = s.skip(1);
        assert(t[i - 1] == c);
        assert(forall|j: int| 0 <= j < i - 1 ==> t[j] != c);
        lemma_split_head(t, c, i - 1);
        let r = spec_split(t, c);
        assert(r == seq![t.take(i - 1)] + spec_split(t.skip(i), c));
        assert(r[0] == t.take(i - 1));
        assert(seq![s[0]] + t.take(i - 1) =~= s.take(i));
        assert(t.skip(i) =~= s.skip(i + 1));
        assert(r.skip(1) =~~= spec_split(s.skip(i + 1), c));
        assert(spec_split(s, c) =~~= seq![s.take(i)] + spec_split(s.skip(i + 1), c));
    }
}

/// Splits `s` on every occurrence of `c`, in order.
pub fn split_char(s: &str, c: char) -> (r: Vec<String>)
    ensures
        r.deep_view() == spec_split(s@, c),
    decreases s@.len(),
{
    let n: usize = s.unicode_len();
    match find_char(s, c) {
        None => {
            let mut v: Vec<String> = Vec::new();
            v.push(s.to_owned());
            proof {
                lemma_split_none(s@, c);
                assert(v.deep_view() =~~= spec_split(s@, c));
            }
            v
        },
        Some(i) => {
            let head = s.substring_char(0, i).to_owned();
            let rest = s.substring_char(i + 1, n);
            proof {
                assert(rest@ =~= s@.skip(i + 1));
            }
            let mut v = split_char(rest, c);
            v.insert(0, head);
            proof {
                assert(head@ =~= s@.take(i as int));
                lemma_split_head(s@, c, i as int);
                assert(v.deep_view() =~~= spec_split(s@, c));
            }
            v
        },
    }
}

/// Splits at the first occurrence of `c`, when present.
pub fn split_once_char(s: &str, c: char) -> (r: Option<(String, String)>)
    ensures
        (match r {
            Some(p) => exists|i: int|
                #![auto]
                0 <= i < s@.len() && s@[i] == c && (forall|j: int| 0 <= j < i ==> s@[j] != c)
                    && p.0@ == s@.take(i) && p.1@ == s@.skip(i + 1),
            None => forall|j: int| 0 <= j < s@.len() ==> s@[j] != c,
        }),
{
    let n: usize = s.unicode_len();
    match find_char(s, c) {
        None => None,
        Some(i) => {
            let head = s.substring_char(0, i).to_owned();
            let tail = s.substring_char(i + 1, n).to_owned();
            proof {
                assert(head@ =~= s@.take(i as int));
                assert(tail@ =~= s@.skip(i as int + 1));
            }
            Some((head, tail))
        },
    }
}

/// Splits at the first occurrence of the substring `pat`, when present.
pub fn split_once_sub(s: &str, pat: &str) -> (r: Option<(String, String)>)
    ensures
        (match r {
            Some(p) => exists|i: int|
                #![auto]
                0 <= i && i + pat@.len() <= s@.len() && s@.subrange(i, i + pat@.len() as int)
                    == pat@ && (forall|j: int|
                    0 <= j < i ==> #[trigger] s@.subrange(j, j + pat@.len() as int) != pat@) && p.0@
                    == s@.take(i) && p.1@ == s@.skip(i + pat@.len() as int),
            None => forall|j: int|
                0 <= j && j + pat@.len() <= s@.len() ==> #[trigger] s@.subrange(
                    j,
                    j + pat@.len() as int,
                ) != pat@,
        }),
{
    let n: usize = s.unicode_len();
    let m: usize = pat.unicode_len();
    match find_sub(s, pat) {
        None => None,
        Some(i) => {
            let head = s.substring_char(0, i).to_owned();
            let tail = s.substring_char(i + m, n).to_owned();
            proof {
                assert(head@ =~= s@.take(i as int));
                assert(tail@ =~= s@.skip(i as int + pat@.len() as int));
            }
            Some((head, tail))
        },
    }
}

/// True when `pat` occurs as a substring of `s`, at the spec level.
pub open spec fn seq_contains_sub(s: Seq<char>, pat: Seq<char>) -> bool {
    exists|i: int|
        #![trigger s.subrange(i, i + pat.len() as int)]
        0 <= i && i + pat.len() <= s.len() && s.subrange(i, i + pat.len() as int) == pat
}

/// True when `pat` occurs as a substring of `s`.
pub fn contains_sub(s: &str, pat: &str) -> (r: bool)
    ensures
        r == seq_contains_sub(s@, pat@),
{
    match find_sub(s, pat) {
        Some(i) => {
            proof {
                assert(s@.subrange(i as int, i as int + pat@.len() as int) == pat@);
            }
            true
        },
        None => false,
    }
}

/// True when `suffix` ends `s`.
pub fn ends_with_str(s: &str, suffix: &str) -> (r: bool)
    ensures
        r == (s@.len() >= suffix@.len() && s@.subrange(
            s@.len() - suffix@.len(),
            s@.len() as int,
        ) == suffix@),
{
    let n: usize = s.unicode_len();
    let m: usize = suffix.unicode_len();
    if m > n {
        return false;
    }
    let tail = s.substring_char(n - m, n);
    str_eq(tail, suffix)
}

/// A line with a trailing carriage return dropped.
pub open spec fn strip_cr(l: Seq<char>) -> Seq<char> {
    if l.len() > 0 && l.last() == '\r' {
        l.drop_last()
    } else {
        l
    }
}

pub open spec fn spec_lines_of(ss: Seq<Seq<char>>) -> Seq<Seq<char>>
    decreases ss.len(),
{
    if ss.len() == 0 {
        Seq::empty()
    } else {
        spec_lines_of(ss.drop_last()) + seq![strip_cr(ss.last())]
    }
}

/// The lines of a text: newline-separated segments, each without a
/// trailing carriage return.
pub open spec fn spec_lines(s: Seq<char>) -> Seq<Seq<char>> {
    spec_lines_of(spec_split(s, '\n'))
}

/// Splits a text into lines.
pub fn lines(s: &str) -> (r: Vec<String>)
    ensures
        r.deep_view() == spec_lines(s@),
{
    let segs = split_char(s, '\n');
    let ghost sv = segs.deep_view();
    let n: usize = segs.len();
    let mut out: Vec<String> = Vec::new();
    let mut i: usize = 0;
    proof {
        assert(sv.take(0) =~= Seq::<Seq<char>>::empty());
        assert(out.deep_view() =~= spec_lines_of(sv.take(0)));
    }
    while i < n
        invariant
            n == sv.len(),
            sv == segs.deep_view(),
            0 <= i <= n,
            out.deep_view() == spec_lines_of(sv.take(i as int)),
        decreases n - i,
    {
        let seg = &segs[i];
        let ghost prev = out.deep_view();
        let sl: usize = seg.as_str().unicode_len();
        proof {
            assert(seg@ == sv[i as int]);
        }
        if sl > 0 && seg.as_str().get_char(sl - 1) == '\r' {
            let t = seg.as_str().substring_char(0, sl - 1).to_owned();
            proof {
                assert(t@ =~= strip_cr(sv[i as int]));
            }
            out.push(t);
        } else {
            out.push(seg.clone());
        }
        proof {
            assert(sv.take(i as int + 1).drop_last() =~= sv.take(i as int));
            assert(sv.take(i as int + 1).last() == sv[i as int]);
            assert(out.deep_view() =~= prev.push(strip_cr(sv[i as int])));
            assert(out.deep_view() =~= spec_lines_of(sv.take(i as int + 1)));
        }
        i = i + 1;
    }
    proof {
        assert(sv.take(n as int) =~= sv);
    }
    out
}

/// ASCII whitespace, as this library's trimming model.
pub open spec fn is_ws(c: char) -> bool {
    c == ' ' || c == '\t' || c == '\r' || c == '\n'
}

fn is_ws_char(c: char) -> (r: bool)
    ensures
        r == is_ws(c),
{
    c == ' ' || c == '\t' || c == '\r' || c == '\n'
}

pub open spec fn spec_trim_start(s: Seq<char>) -> Seq<char>
    decreases s.len(),
{
    if s.len() > 0 && is_ws(s[0]) {
        spec_trim_start(s.skip(1))
    } else {
        s
    }
}

pub open spec fn spec_trim_end(s: Seq<char>) -> Seq<char>
    decreases s.len(),
{
    if s.len() > 0 && is_ws(s.last()) {
        spec_trim_end(s.drop_last())
    } else {
        s
    }
}

/// Trimming ASCII whitespace from both ends.
pub open spec fn spec_trim(s: Seq<char>) -> Seq<char> {
    spec_trim_end(spec_trim_start(s))
}

proof fn lemma_trim_start_at(s: Seq<char>, k: int)
    requires
        0 <= k <= s.len(),
        forall|j: int| 0 <= j < k ==> is_ws(s[j]),
        k < s.len() ==> !is_ws(s[k]),
    ensures
        spec_trim_start(s) == s.skip(k),
    decreases k,
{
    if k == 0 {
        assert(s.skip(0) =~= s);
    } else {
        let t = s.skip(1);
        assert(forall|j: int| 0 <= j < k - 1 ==> t[j] == s[j + 1]);
        assert(k - 1 < t.len() ==> !is_ws(t[k - 1]));
        lemma_trim_start_at(t, k - 1);
        assert(t.skip(k - 1) =~= s.skip(k));
    }
}

proof fn lemma_trim_end_at(s: Seq<char>, k: int)
    requires
        0 <= k <= s.len(),
        forall|j: int| k <= j < s.len() ==> is_ws(s[j]),
        k > 0 ==> !is_ws(s[k - 1]),
    ensures
        spec_trim_end(s) == s.take(k),
    decreases s.len() - k,
{
    if k == s.len() {
        assert(s.take(k) =~= s);
    } else {
        let t = s.drop_last();
        assert(t =~= s.take(s.len() - 1));
        lemma_trim_end_at(t, k);
        assert(t.take(k) =~= s.take(k));
    }
}

/// Removes leading and trailing ASCII whitespace.
pub fn trim(s: &str) -> (r: String)
    ensures
        r@ == spec_trim(s@),
{
    let n: usize = s.unicode_len();
    let mut a: usize = 0;
    while a < n && is_ws_char(s.get_char(a))
        invariant
            n == s@.len(),
            0 <= a <= n,
            forall|j: int| 0 <= j < a ==> is_ws(s@[j]),
        decreases n - a,
    {
        a = a + 1;
    }
    proof {
        lemma_trim_start_at(s@, a as int);
    }
    let mut b: usize = n;
    while b > a && is_ws_char(s.get_char(b - 1))
        invariant
            n == s@.len(),
            a <= b <= n,
            forall|j: int| b <= j < n ==> is_ws(s@[j]),
        decreases b,
    {
        b = b - 1;
    }
    let r = s.substring_char(a, b).to_owned();
    proof {
        let t = s@.skip(a as int);
        assert(forall|j: int| b - a <= j < t.len() ==> t[j] == s@[j + a]);
        assert(b - a > 0 ==> !is_ws(t[b - a - 1]));
        lemma_trim_end_at(t, b - a);
        assert(r@ =~= t.take(b - a));
    }
    r
}

/// Parses an unsigned decimal integer: succeeds exactly on non-empty
/// all-digit strings whose value fits in `u32`.
pub fn parse_u32(s: &str) -> (r: Option<u32>)
    ensures
        (match r {
            Some(v) => s@.len() > 0 && all_digits(s@) && digits_val(s@) == v as nat,
            None => s@.len() == 0 || !all_digits(s@) || digits_val(s@) > u32::MAX as nat,
        }),
        r is Some <==> (s@.len() > 0 && all_digits(s@) && digits_val(s@) <= u32::MAX as nat),
{
    let n: usize = s.unicode_len();
    if n == 0 {
        return None;
    }
    let mut i: usize = 0;
    let mut acc: u64 = 0;
    while i < n
        invariant
            n == s@.len(),
            0 <= i <= n,
            all_digits(s@.take(i as int)),
            acc as nat == digits_val(s@.take(i as int)),
            acc <= u32::MAX as u64,
        decreases n - i,
    {
        let c = s.get_char(i);
        let cv: u32 = c as u32;
        if cv < 48 || cv > 57 {
            proof {
                assert(!is_digit(s@[i as int]));
            }
            return None;
        }
        let d: u64 = (cv - 48) as u64;
        let next: u64 = acc * 10 + d;
        proof {
            assert(s@.take(i as int + 1).drop_last() =~= s@.take(i as int));
            assert(s@.take(i as int + 1).last() == s@[i as int]);
        }
        if next > u32::MAX as u64 {
            proof {
                assert(digits_val(s@.take(i as int + 1)) == next as nat);
                lemma_digits_val_prefix(s@, i as int + 1);
            }
            return None;
        }
        acc = next;
        i = i + 1;
    }
    proof {
        assert(s@.take(n as int) =~= s@);
    }
    Some(acc as u32)
}

/// The digit character for a value below ten, as a one-character string.
pub fn digit_str(d: u32) -> (r: &'static str)
    requires
        d < 10,
    ensures
        r@ == seq![digit_char(d as nat)],
{
    proof {
        reveal_strlit("0");
        reveal_strlit("1");
        reveal_strlit("2");
        reveal_strlit("3");
        reveal_strlit("4");
        reveal_strlit("5");
        reveal_strlit("6");
        reveal_strlit("7");
        reveal_strlit("8");
        reveal_strlit("9");
    }
    let r = if d == 0 {
        "0"
    } else if d == 1 {
        "1"
    } else if d == 2 {
        "2"
    } else if d == 3 {
        "3"
    } else if d == 4 {
        "4"
    } else if d == 5 {
        "5"
    } else if d == 6 {
        "6"
    } else if d == 7 {
        "7"
    } else if d == 8 {
        "8"
    } else {
        "9"
    };
    proof {
        assert(r@ =~= seq![digit_char(d as nat)]);
    }
    r
}

/// Renders an unsigned integer in decimal.
pub fn u32_string(n: u32) -> (r: String)
    ensures
        r@ == spec_dec(n as nat),
    decreases n,
{
    if n < 10 {
        digit_str(n).to_owned()
    } else {
        proof {
            assert(n / 10 < n && n / 10 >= 1);
        }
        let q = u32_string(n / 10);
        let r = q.concat(digit_str(n % 10));
        proof {
            assert(r@ =~= spec_dec(n as nat));
        }
        r
    }
}

/// Lexicographic order on character sequences, by code point, shorter
/// prefixes first.
pub open spec fn lex_le(a: Seq<char>, b: Seq<char>) -> bool
    decreases a.len(),
{
    if a.len() == 0 {
        true
    } else if b.len() == 0 {
        false
    } else if a[0] != b[0] {
        (a[0] as u32) < (b[0] as u32)
    } else {
        lex_le(a.skip(1), b.skip(1))
    }
}

pub proof fn lemma_lex_le_refl(a: Seq<char>)
    ensures
        lex_le(a, a),
    decreases a.len(),
{
    if a.len() > 0 {
        lemma_lex_le_refl(a.skip(1));
    }
}

pub proof fn lemma_lex_le_total(a: Seq<char>, b: Seq<char>)
    ensures
        lex_le(a, b) || lex_le(b, a),
    decreases a.len(),
{
    if a.len() > 0 && b.len() > 0 {
        if a[0] == b[0] {
            lemma_lex_le_total(a.skip(1), b.skip(1));
        } else {
            vstd::utf8::char_u32_cast(a[0], a[0] as u32);
            vstd::utf8::char_u32_cast(b[0], b[0] as u32);
            assert((a[0] as u32) != (b[0] as u32));
        }
    }
}

pub proof fn lemma_lex_le_trans(a: Seq<char>, b: Seq<char>, c: Seq<char>)
    requires
        lex_le(a, b),
        lex_le(b, c),
    ensures
        lex_le(a, c),
    decreases a.len(),
{
    if a.len() > 0 && b.len() > 0 && c.len() > 0 {
        if a[0] == b[0] && b[0] == c[0] {
            lemma_lex_le_trans(a.skip(1), b.skip(1), c.skip(1));
        }
    }
}

/// Lexicographic comparison of two string slices.
pub fn str_lex_le(a: &str, b: &str) -> (r: bool)
    ensures
        r == lex_le(a@, b@),
{
    let la: usize = a.unicode_len();
    let lb: usize = b.unicode_len();
    proof {
        assert(a@.skip(0) =~= a@);
        assert(b@.skip(0) =~= b@);
    }
    let mut i: usize = 0;
    while i < la && i < lb
        invariant
            la == a@.len(),
            lb == b@.len(),
            0 <= i <= la,
            0 <= i <= lb,
            lex_le(a@, b@) == lex_le(a@.skip(i as int), b@.skip(i as int)),
        decreases la - i,
    {
        let ca = a.get_char(i);
        let cb = b.get_char(i);
        if ca != cb {
            return (ca as u32) < (cb as u32);
        }
        proof {
            assert(a@.skip(i as int).skip(1) =~= a@.skip(i as int + 1));
            assert(b@.skip(i as int).skip(1) =~= b@.skip(i as int + 1));
        }
        i = i + 1;
    }
    proof {
        if i >= la {
            assert(a@.skip(i as int).len() == 0);
        } else {
            assert(b@.skip(i as int).len() == 0);
            assert(a@.skip(i as int).len() > 0);
        }
    }
    la <= lb
}

/// Replaces every backslash by a forward slash, as the in-archive path
/// convention requires.
pub open spec fn spec_normalize_slashes(s: Seq<char>) -> Seq<char> {
    Seq::new(s.len(), |i: int| if s[i] == '\\' {
        '/'
    } else {
        s[i]
    })
}

pub fn normalize_slashes(s: &str) -> (r: String)
    ensures
        r@ == spec_normalize_slashes(s@),
{
    proof {
        reveal_strlit("/");
        assert(Seq::<char>::empty() =~= spec_normalize_slashes(s@).take(0));
    }
    let n: usize = s.unicode_len();
    let mut out = String::new();
    let mut i: usize = 0;
    while i < n
        invariant
            n == s@.len(),
            0 <= i <= n,
            out@ == spec_normalize_slashes(s@).take(i as int),
        decreases n - i,
    {
        let c = s.get_char(i);
        if c == '\\' {
            out.append("/");
        } else {
            let piece = s.substring_char(i, i + 1);
            proof {
                assert(piece@ =~= seq![s@[i as int]]);
            }
            out.append(piece);
        }
        proof {
            reveal_strlit("/");
            let sp = spec_normalize_slashes(s@);
            assert(sp.take(i as int + 1) =~= sp.take(i as int).push(sp[i as int]));
            assert(out@ =~= sp.take(i as int + 1));
        }
        i = i + 1;
    }
    proof {
        assert(spec_normalize_slashes(s@).take(n as int) =~= spec_normalize_slashes(s@));
    }
    out
}

/// Path separators of the host conventions this library models.
pub open spec fn is_sep(c: char) -> bool {
    c == '/' || c == '\\'
}

fn is_sep_char(c: char) -> (r: bool)
    ensures
        r == is_sep(c),
{
    c == '/' || c == '\\'
}

/// Joining two path components with a forward slash; an empty left side
/// yields the right side, and a trailing separator is not doubled.
pub open spec fn spec_path_join(a: Seq<char>, b: Seq<char>) -> Seq<char> {
    if a.len() == 0 {
        b
    } else if is_sep(a.last()) {
        a + b
    } else {
        a + seq!['/'] + b
    }
}

pub fn path_join(a: &str, b: &str) -> (r: String)
    ensures
        r@ == spec_path_join(a@, b@),
{
    let n: usize = a.unicode_len();
    if n == 0 {
        return b.to_owned();
    }
    let last = a.get_char(n - 1);
    if last == '/' || last == '\\' {
        a.to_owned().concat(b)
    } else {
        proof {
            reveal_strlit("/");
        }
        let r = a.to_owned().concat("/").concat(b);
        proof {
            assert(r@ =~= spec_path_join(a@, b@));
        }
        r
    }
}

/// The final path component: everything after the last separator.
pub open spec fn spec_file_name(s: Seq<char>) -> Seq<char>
    decreases s.len(),
{
    if s.len() == 0 {
        s
    } else if is_sep(s.last()) {
        Seq::empty()
    } else {
        spec_file_name(s.drop_last()) + seq![s.last()]
    }
}

proof fn lemma_file_name_after(s: Seq<char>, k: int)
    requires
        0 <= k <= s.len(),
        forall|j: int| k <= j < s.len() ==> !is_sep(s[j]),
        k > 0 ==> is_sep(s[k - 1]),
    ensures
        spec_file_name(s) == s.skip(k),
    decreases s.len() - k,
{
    if k == s.len() {
        if k > 0 {
            assert(s.skip(k) =~= Seq::<char>::empty());
        } else {
            assert(s.skip(0) =~= s);
        }
    } else {
        let t = s.drop_last();
        lemma_file_name_after(t, k);
        assert(t.skip(k) + seq![s.last()] =~= s.skip(k));
    }
}

pub fn file_name_of(s: &str) -> (r: String)
    ensures
        r@ == spec_file_name(s@),
{
    let n: usize = s.unicode_len();
    let mut k: usize = n;
    while k > 0 && !is_sep_char(s.get_char(k - 1))
        invariant
            n == s@.len(),
            0 <= k <= n,
            forall|j: int| k <= j < n ==> !is_sep(s@[j]),
        decreases k,
    {
        k = k - 1;
    }
    let r = s.substring_char(k, n).to_owned();
    proof {
        lemma_file_name_after(s@, k as int);
        assert(r@ =~= s@.skip(k as int));
    }
    r
}

/// The position of the extension dot of the final path component: the last
/// dot that is neither the first character of the component nor preceded by
/// a separator.
pub open spec fn spec_last_dot(s: Seq<char>) -> Option<int>
    decreases s.len(),
{
    if s.len() == 0 {
        None
    } else if is_sep(s.last()) {
        None
    } else if s.last() == '.' {
        Some(s.len() - 1)
    } else {
        spec_last_dot(s.drop_last())
    }
}

/// The sibling debug-information path: the input with its extension
/// replaced by `dwarf` (or with `.dwarf` appended when it has none).
pub open spec fn spec_dwarf_path(s: Seq<char>) -> Seq<char> {
    match spec_last_dot(s) {
        Some(p) => if p > 0 && !is_sep(s[p - 1]) {
            s.take(p) + seq!['.', 'd', 'w', 'a', 'r', 'f']
        } else {
            s + seq!['.', 'd', 'w', 'a', 'r', 'f']
        },
        None => s + seq!['.', 'd', 'w', 'a', 'r', 'f'],
    }
}

pub fn dwarf_path(s: &str) -> (r: String)
    ensures
        r@ == spec_dwarf_path(s@),
{
    proof {
        reveal_strlit(".dwarf");
        assert(s@.take(s@.len() as int) =~= s@);
    }
    let n: usize = s.unicode_len();
    let mut k: usize = n;
    while k > 0 && !is_sep_char(s.get_char(k - 1)) && s.get_char(k - 1) != '.'
        invariant
            n == s@.len(),
            0 <= k <= n,
            spec_last_dot(s@) == spec_last_dot(s@.take(k as int)),
        decreases k,
    {
        proof {
            assert(s@.take(k as int).last() == s@[k as int - 1]);
            assert(s@.take(k as int).drop_last() =~= s@.take(k as int - 1));
        }
        k = k - 1;
    }
    if k > 0 {
        proof {
            assert(s@.take(k as int).last() == s@[k as int - 1]);
        }
        let c = s.get_char(k - 1);
        if c == '.' {
            let p = k - 1;
            if p > 0 && !is_sep_char(s.get_char(p - 1)) {
                let r = s.substring_char(0, p).to_owned().concat(".dwarf");
                proof {
                    assert(r@ =~= spec_dwarf_path(s@));
                }
                return r;
            }
            let r = s.to_owned().concat(".dwarf");
            proof {
                assert(r@ =~= spec_dwarf_path(s@));
            }
            return r;
        }
        let r = s.to_owned().concat(".dwarf");
        proof {
            assert(r@ =~= spec_dwarf_path(s@));
        }
        return r;
    }
    proof {
        assert(s@.take(0) =~= Seq::<char>::empty());
    }
    let r = s.to_owned().concat(".dwarf");
    proof {
        assert(r@ =~= spec_dwarf_path(s@));
    }
    r
}

/// Index of the first occurrence of a character, as a spec-level function.
pub open spec fn spec_find_idx(s: Seq<char>, c: char) -> Option<int>
    decreases s.len(),
{
    if s.len() == 0 {
        None
    } else if s[0] == c {
        Some(0)
    } else {
        match spec_find_idx(s.skip(1), c) {
            Some(i) => Some(i + 1),
            None => None,
        }
    }
}

/// `spec_find_idx` returns exactly the first occurrence.
pub proof fn lemma_find_idx_first(s: Seq<char>, c: char)
    ensures
        (match spec_find_idx(s, c) {
            Some(i) => 0 <= i < s.len() && s[i] == c && forall|j: int| 0 <= j < i ==> s[j] != c,
            None => forall|j: int| 0 <= j < s.len() ==> s[j] != c,
        }),
    decreases s.len(),
{
    if s.len() > 0 && s[0] != c {
        lemma_find_idx_first(s.skip(1), c);
        match spec_find_idx(s.skip(1), c) {
            Some(i) => {
                assert forall|j: int| 0 <= j < i + 1 implies s[j] != c by {
                    if j > 0 {
                        assert(s.skip(1)[j - 1] != c);
                    }
                }
            },
            None => {
                assert forall|j: int| 0 <= j < s.len() implies s[j] != c by {
                    if j > 0 {
                        assert(s.skip(1)[j - 1] != c);
                    }
                }
            },
        }
    }
}

/// The first occurrence determines `spec_find_idx`.
pub proof fn lemma_find_idx_unique(s: Seq<char>, c: char, k: int)
    requires
        0 <= k < s.len(),
        s[k] == c,
        forall|j: int| 0 <= j < k ==> s[j] != c,
    ensures
        spec_find_idx(s, c) == Some(k),
{
    lemma_find_idx_first(s, c);
    match spec_find_idx(s, c) {
        Some(i) => {
            if i < k {
                assert(s[i] == c);
            } else if i > k {
                assert(s[k] != c);
            }
        },
        None => {
            assert(s[k] != c);
        },
    }
}

/// Index of the first occurrence of a substring, as a spec-level function.
pub open spec fn spec_find_sub_idx(s: Seq<char>, pat: Seq<char>) -> Option<int>
    decreases s.len(),
{
    if s.len() < pat.len() {
        None
    } else if s.take(pat.len() as int) == pat {
        Some(0)
    } else if s.len() == 0 {
        None
    } else {
        match spec_find_sub_idx(s.skip(1), pat) {
            Some(i) => Some(i + 1),
            None => None,
        }
    }
}

/// `spec_find_sub_idx` returns exactly the first occurrence.
pub proof fn lemma_find_sub_idx_first(s: Seq<char>, pat: Seq<char>)
    ensures
        (match spec_find_sub_idx(s, pat) {
            Some(i) => 0 <= i && i + pat.len() <= s.len() && s.subrange(i, i + pat.len() as int)
                == pat && forall|j: int|
                0 <= j < i ==> #[trigger] s.subrange(j, j + pat.len() as int) != pat,
            None => forall|j: int|
                0 <= j && j + pat.len() <= s.len() ==> #[trigger] s.subrange(
                    j,
                    j + pat.len() as int,
                ) != pat,
        }),
    decreases s.len(),
{
    if s.len() < pat.len() {
    } else if s.take(pat.len() as int) == pat {
        assert(s.subrange(0, pat.len() as int) =~= s.take(pat.len() as int));
    } else if s.len() == 0 {
        assert(s.take(pat.len() as int) =~= pat);
    } else {
        assert(s.len() >= pat.len());
        lemma_find_sub_idx_first(s.skip(1), pat);
        let t = s.skip(1);
        assert forall|j: int| 1 <= j && j + pat.len() <= s.len() implies #[trigger] s.subrange(
            j,
            j + pat.len() as int,
        ) == t.subrange(j - 1, j - 1 + pat.len() as int) by {
            assert(s.subrange(j, j + pat.len() as int) =~= t.subrange(
                j - 1,
                j - 1 + pat.len() as int,
            ));
        }
        assert(s.subrange(0, pat.len() as int) =~= s.take(pat.len() as int));
        match spec_find_sub_idx(t, pat) {
            Some(i) => {
                assert(t.subrange(i, i + pat.len() as int) == pat);
                assert(s.subrange(i + 1, i + 1 + pat.len() as int) =~= t.subrange(
                    i,
                    i + pat.len() as int,
                ));
            },
            None => {},
        }
    }
}

/// The first occurrence determines `spec_find_sub_idx`.
pub proof fn lemma_find_sub_idx_unique(s: Seq<char>, pat: Seq<char>, k: int)
    requires
        0 <= k,
        k + pat.len() <= s.len(),
        s.subrange(k, k + pat.len() as int) == pat,
        forall|j: int| 0 <= j < k ==> #[trigger] s.subrange(j, j + pat.len() as int) != pat,
    ensures
        spec_find_sub_idx(s, pat) == Some(k),
{
    lemma_find_sub_idx_first(s, pat);
    match spec_find_sub_idx(s, pat) {
        Some(i) => {
            if i < k {
                assert(s.subrange(i, i + pat.len() as int) == pat);
            } else if i > k {
                assert(s.subrange(k, k + pat.len() as int) != pat);
            }
        },
        None => {
            assert(s.subrange(k, k + pat.len() as int) != pat);
        },
    }
}

} // verus!
