//! Character-level scanning used by the listing parser, the result
//! classifier and the direct-submission token extractor: substring search,
//! whitespace tokenization, decimal parsing and decimal rendering.
//!
//! Whitespace here is the ASCII set (space, tab, line feed, vertical tab,
//! form feed, carriage return); the page fragments these functions scan are
//! ASCII-rendered markup.

use vstd::prelude::*;
use vstd::string::*;

verus! {

/// ASCII whitespace.
pub open spec fn is_space_char(c: char) -> bool {
    c == ' ' || c == '\t' || c == '\n' || c == '\r' || c == '\u{b}' || c == '\u{c}'
}

/// ASCII decimal digit.
pub open spec fn is_digit_char(c: char) -> bool {
    '0' <= c && c <= '9'
}

/// Numeric value of an ASCII decimal digit.
pub open spec fn digit_val(c: char) -> int {
    c as int - '0' as int
}

/// `needle` occurs in `hay` starting at position `i`.
pub open spec fn matches_at(hay: Seq<char>, needle: Seq<char>, i: int) -> bool {
    &&& 0 <= i
    &&& i + needle.len() <= hay.len()
    &&& forall|k: int| 0 <= k < needle.len() ==> hay[i + k] == needle[k]
}

/// `needle` occurs somewhere in `hay`.
pub open spec fn contains_seq(hay: Seq<char>, needle: Seq<char>) -> bool {
    exists|i: int| matches_at(hay, needle, i)
}

/// The characters of `s`, in order.
pub fn chars_of(s: &str) -> (v: Vec<char>)
    ensures
        v@ == s@,
{
    let n = s.unicode_len();
    let mut v: Vec<char> = Vec::new();
    let mut i: usize = 0;
    while i < n
        invariant
            i <= n,
            n == s@.len(),
            v@ == s@.take(i as int),
        decreases n - i,
    {
        let c = s.get_char(i);
        v.push(c);
        i = i + 1;
        proof {
            assert(v@ =~= s@.take(i as int));
        }
    }
    proof {
        assert(s@.take(n as int) =~= s@);
    }
    v
}

/// Whether `needle` occurs in `hay` at exactly position `i`.
pub fn match_at_exec(hay: &Vec<char>, needle: &Vec<char>, i: usize) -> (r: bool)
    requires
        i + needle@.len() <= hay@.len(),
    ensures
        r == matches_at(hay@, needle@, i as int),
{
    let n = hay.len();
    let m = needle.len();
    let mut k: usize = 0;
    while k < m
        invariant
            i + m <= n,
            n == hay@.len(),
            m == needle@.len(),
            k <= m,
            forall|q: int| 0 <= q < k ==> hay@[i + q] == needle@[q],
        decreases m - k,
    {
        if hay[i + k] != needle[k] {
            proof {
                assert(hay@[i + k as int] != needle@[k as int]);
            }
            return false;
        }
        k = k + 1;
    }
    true
}

/// Substring search: whether `needle` occurs anywhere in `hay`.
pub fn contains_str(hay: &str, needle: &str) -> (r: bool)
    ensures
        r == contains_seq(hay@, needle@),
{
    let h = chars_of(hay);
    let nd = chars_of(needle);
    let n = h.len();
    let m = nd.len();
    if m > n {
        proof {
            assert(forall|i: int| !matches_at(hay@, needle@, i));
        }
        return false;
    }
    let mut i: usize = 0;
    while i <= n - m
        invariant
            m <= n,
            n == hay@.len(),
            m == needle@.len(),
            h@ == hay@,
            nd@ == needle@,
            i <= n - m + 1,
            forall|q: int| 0 <= q < i ==> !matches_at(hay@, needle@, q),
        decreases n - i,
    {
        if match_at_exec(&h, &nd, i) {
            proof {
                assert(matches_at(hay@, needle@, i as int));
            }
            return true;
        }
        i = i + 1;
    }
    proof {
        assert(forall|q: int| q > n - m ==> !matches_at(hay@, needle@, q));
    }
    false
}

/// Value of a digit string, most significant digit first.
pub open spec fn digits_value(s: Seq<char>) -> int
    decreases s.len(),
{
    if s.len() == 0 {
        0
    } else {
        digits_value(s.drop_last()) * 10 + digit_val(s.last())
    }
}

/// A non-empty, all-digit string.
pub open spec fn all_digits(s: Seq<char>) -> bool {
    s.len() > 0 && forall|i: int| 0 <= i < s.len() ==> is_digit_char(s[i])
}

/// What `str::parse::<u32>` accepts: an optional leading `+`, then one or
/// more decimal digits whose value fits in a `u32`.
pub open spec fn parse_u32_spec(t: Seq<char>) -> Option<u32> {
    let d = if t.len() > 0 && t[0] == '+' {
        t.drop_first()
    } else {
        t
    };
    if all_digits(d) && digits_value(d) <= u32::MAX {
        Some(digits_value(d) as u32)
    } else {
        None
    }
}

proof fn lemma_digits_nonneg(s: Seq<char>)
    requires
        forall|i: int| 0 <= i < s.len() ==> is_digit_char(s[i]),
    ensures
        digits_value(s) >= 0,
    decreases s.len(),
{
    if s.len() > 0 {
        assert(forall|i: int| 0 <= i < s.drop_last().len() ==> is_digit_char(
            s.drop_last()[i],
        ));
        lemma_digits_nonneg(s.drop_last());
    }
}

/// The value of an all-digit string is at least the value of any prefix.
proof fn lemma_digits_prefix_le(s: Seq<char>, k: int)
    requires
        0 <= k <= s.len(),
        forall|i: int| 0 <= i < s.len() ==> is_digit_char(s[i]),
    ensures
        digits_value(s.take(k)) <= digits_value(s),
    decreases s.len() - k,
{
    if k == s.len() {
        assert(s.take(k) =~= s);
    } else {
        assert(s.take(k + 1).drop_last() =~= s.take(k));
        assert(s.take(k + 1).last() == s[k]);
        assert(forall|i: int| 0 <= i < s.take(k).len() ==> is_digit_char(s.take(k)[i]));
        lemma_digits_nonneg(s.take(k));
        lemma_digits_prefix_le(s, k + 1);
    }
}

/// Parses `v[start..end]` as `str::parse::<u32>` would.
#[verifier::rlimit(50)]
#[verifier::loop_isolation(false)]
pub fn parse_u32_range(v: &Vec<char>, start: usize, end: usize) -> (r: Option<u32>)
    requires
        start <= end <= v@.len(),
    ensures
        r == parse_u32_spec(v@.subrange(start as int, end as int)),
{
    let ghost t = v@.subrange(start as int, end as int);
    let mut i = start;
    if i < end && v[i] == '+' {
        i = i + 1;
    }
    let ghost d = if t.len() > 0 && t[0] == '+' {
        t.drop_first()
    } else {
        t
    };
    proof {
        assert(d =~= v@.subrange(i as int, end as int));
    }
    if i == end {
        return None;
    }
    let i0 = i;
    let mut acc: u64 = 0;
    let mut j = i0;
    while j < end
        invariant
            start <= i0 <= j <= end <= v@.len(),
            d == v@.subrange(i0 as int, end as int),
            d.len() > 0,
            forall|q: int| i0 <= q < j ==> is_digit_char(v@[q]),
            acc == digits_value(v@.subrange(i0 as int, j as int)),
            acc <= u32::MAX,
        decreases end - j,
    {
        let c = v[j];
        if c < '0' || c > '9' {
            proof {
                assert(!is_digit_char(d[j - i0]));
            }
            return None;
        }
        let dnum: u32 = (c as u32) - ('0' as u32);
        let ghost prev = acc;
        acc = acc * 10 + (dnum as u64);
        proof {
            let sub1 = v@.subrange(i0 as int, j + 1 as int);
            assert(sub1.drop_last() =~= v@.subrange(i0 as int, j as int));
            assert(sub1.last() == v@[j as int]);
            assert(digit_val(v@[j as int]) == dnum);
            assert(digits_value(sub1) == prev * 10 + dnum);
        }
        j = j + 1;
        if acc > u32::MAX as u64 {
            proof {
                if all_digits(d) {
                    assert(d.take(j - i0) =~= v@.subrange(i0 as int, j as int));
                    lemma_digits_prefix_le(d, j - i0);
                }
            }
            return None;
        }
    }
    proof {
        assert(d =~= v@.subrange(i0 as int, end as int));
        assert(all_digits(d));
        assert(digits_value(d) == acc);
    }
    Some(acc as u32)
}

/// End of the whitespace-delimited token that starts at `i`: the first
/// position at or after `i` that holds whitespace, or the end of the text.
pub open spec fn token_end(s: Seq<char>, i: int) -> int
    decreases s.len() - i,
{
    if i >= s.len() {
        s.len() as int
    } else if is_space_char(s[i]) {
        i
    } else {
        token_end(s, i + 1)
    }
}

proof fn lemma_token_end(s: Seq<char>, i: int)
    requires
        0 <= i <= s.len(),
    ensures
        i <= token_end(s, i) <= s.len(),
        forall|q: int| i <= q < token_end(s, i) ==> !is_space_char(s[q]),
    decreases s.len() - i,
{
    if i < s.len() && !is_space_char(s[i]) {
        lemma_token_end(s, i + 1);
    }
}

/// The numbers of a text, read as `split_whitespace` followed by parsing
/// each token as a `u32` and dropping the tokens that do not parse.
pub open spec fn seat_numbers_from(s: Seq<char>, i: int) -> Seq<u32>
    decreases s.len() - i,
        when 0 <= i
        via seat_numbers_from_decreases
{
    if i >= s.len() {
        Seq::empty()
    } else if is_space_char(s[i]) {
        seat_numbers_from(s, i + 1)
    } else {
        let e = token_end(s, i);
        let rest = seat_numbers_from(s, e);
        match parse_u32_spec(s.subrange(i, e)) {
            Some(v) => seq![v] + rest,
            None => rest,
        }
    }
}

#[via_fn]
proof fn seat_numbers_from_decreases(s: Seq<char>, i: int) {
    if 0 <= i < s.len() && !is_space_char(s[i]) {
        lemma_token_end(s, i + 1);
        assert(token_end(s, i) == token_end(s, i + 1));
    }
}

/// All whitespace-separated numbers of `s`, in text order.
pub fn seat_numbers(s: &str) -> (r: Vec<u32>)
    ensures
        r@ == seat_numbers_from(s@, 0),
{
    let v = chars_of(s);
    let n = v.len();
    let mut out: Vec<u32> = Vec::new();
    let mut i: usize = 0;
    while i < n
        invariant
            n == s@.len(),
            v@ == s@,
            i <= n,
            seat_numbers_from(s@, 0) == out@ + seat_numbers_from(s@, i as int),
        decreases n - i,
    {
        let c = v[i];
        if c == ' ' || c == '\t' || c == '\n' || c == '\r' || c == '\u{b}' || c == '\u{c}' {
            i = i + 1;
        } else {
            let mut j = i + 1;
            proof {
                assert(token_end(s@, i as int) == token_end(s@, i + 1 as int));
            }
            while j < n && !(v[j] == ' ' || v[j] == '\t' || v[j] == '\n' || v[j] == '\r'
                || v[j] == '\u{b}' || v[j] == '\u{c}')
                invariant
                    n == s@.len(),
                    v@ == s@,
                    i < j <= n,
                    token_end(s@, i as int) == token_end(s@, j as int),
                decreases n - j,
            {
                j = j + 1;
                proof {
                    assert(token_end(s@, j - 1 as int) == token_end(s@, j as int));
                }
            }
            proof {
                assert(token_end(s@, i as int) == j);
            }
            let parsed = parse_u32_range(&v, i, j);
            match parsed {
                Some(val) => {
                    out.push(val);
                    proof {
                        assert(seat_numbers_from(s@, i as int) =~= seq![val]
                            + seat_numbers_from(s@, j as int));
                        assert(out@ + seat_numbers_from(s@, j as int) =~= out@.drop_last()
                            + seat_numbers_from(s@, i as int));
                    }
                },
                None => {},
            }
            i = j;
        }
    }
    proof {
        assert(out@ + seat_numbers_from(s@, n as int) =~= out@);
    }
    out
}

/// `s` with its leading whitespace removed.
pub open spec fn trim_front(s: Seq<char>) -> Seq<char>
    decreases s.len(),
{
    if s.len() > 0 && is_space_char(s[0]) {
        trim_front(s.drop_first())
    } else {
        s
    }
}

/// `s` with its trailing whitespace removed.
pub open spec fn trim_back(s: Seq<char>) -> Seq<char>
    decreases s.len(),
{
    if s.len() > 0 && is_space_char(s.last()) {
        trim_back(s.drop_last())
    } else {
        s
    }
}

/// `s` with leading and trailing whitespace removed.
pub open spec fn trim_spec(s: Seq<char>) -> Seq<char> {
    trim_back(trim_front(s))
}

proof fn lemma_trim_front_skip(s: Seq<char>, a: int)
    requires
        0 <= a <= s.len(),
        forall|q: int| 0 <= q < a ==> is_space_char(s[q]),
        a < s.len() ==> !is_space_char(s[a]),
    ensures
        trim_front(s) =~= s.skip(a),
    decreases a,
{
    if a == 0 {
        if s.len() > 0 {
            assert(!is_space_char(s[0]));
        }
        assert(s.skip(0) =~= s);
    } else {
        assert(is_space_char(s[0]));
        let t = s.drop_first();
        assert(forall|q: int| 0 <= q < a - 1 ==> is_space_char(t[q]));
        lemma_trim_front_skip(t, a - 1);
        assert(t.skip(a - 1) =~= s.skip(a));
    }
}

proof fn lemma_trim_back_take(s: Seq<char>, b: int)
    requires
        0 <= b <= s.len(),
        forall|q: int| b <= q < s.len() ==> is_space_char(s[q]),
        b > 0 ==> !is_space_char(s[b - 1]),
    ensures
        trim_back(s) =~= s.take(b),
    decreases s.len() - b,
{
    if b == s.len() {
        if s.len() > 0 {
            assert(!is_space_char(s.last()));
        }
        assert(s.take(b) =~= s);
    } else {
        assert(is_space_char(s.last()));
        let t = s.drop_last();
        assert(forall|q: int| b <= q < t.len() ==> is_space_char(t[q]));
        lemma_trim_back_take(t, b);
        assert(t.take(b) =~= s.take(b));
    }
}

/// Whether `c` is library whitespace, executably.
pub fn is_space_exec(c: char) -> (r: bool)
    ensures
        r == is_space_char(c),
{
    c == ' ' || c == '\t' || c == '\n' || c == '\r' || c == '\u{b}' || c == '\u{c}'
}

/// Whether `c` is an ASCII decimal digit, executably.
pub fn is_digit_exec(c: char) -> (r: bool)
    ensures
        r == is_digit_char(c),
{
    '0' <= c && c <= '9'
}

/// Whether two texts hold the same characters.
#[verifier::loop_isolation(false)]
pub fn eq_str(a: &str, b: &str) -> (r: bool)
    ensures
        r == (a@ == b@),
{
    let va = chars_of(a);
    let vb = chars_of(b);
    let n = va.len();
    if n != vb.len() {
        return false;
    }
    let mut i: usize = 0;
    while i < n
        invariant
            i <= n,
            forall|q: int| 0 <= q < i ==> a@[q] == b@[q],
        decreases n - i,
    {
        if va[i] != vb[i] {
            return false;
        }
        i = i + 1;
    }
    proof {
        assert(a@ =~= b@);
    }
    true
}

/// `s` with leading and trailing whitespace removed.
#[verifier::loop_isolation(false)]
pub fn trim_of(s: &str) -> (r: String)
    ensures
        r@ == trim_spec(s@),
{
    let v = chars_of(s);
    let n = v.len();
    let mut a: usize = 0;
    while a < n && is_space_exec(v[a])
        invariant
            a <= n,
            forall|q: int| 0 <= q < a ==> is_space_char(s@[q]),
        decreases n - a,
    {
        a = a + 1;
    }
    proof {
        lemma_trim_front_skip(s@, a as int);
    }
    if a == n {
        proof {
            assert(trim_front(s@) =~= Seq::<char>::empty());
            assert(trim_spec(s@) =~= Seq::<char>::empty());
        }
        return String::new();
    }
    let mut b: usize = n;
    while b > a && is_space_exec(v[b - 1])
        invariant
            a <= b <= n,
            forall|q: int| b <= q < n ==> is_space_char(s@[q]),
        decreases b,
    {
        b = b - 1;
    }
    // `a` holds a non-space character, so the scan from the back stops at or
    // after `a + 1`.
    proof {
        assert(!is_space_char(s@[a as int]));
        assert(b > a);
        let f = s@.skip(a as int);
        assert(forall|q: int| b - a <= q < f.len() ==> is_space_char(f[q]));
        assert(!is_space_char(f[b - a - 1]));
        lemma_trim_back_take(f, b - a as int);
        assert(f.take(b - a as int) =~= s@.subrange(a as int, b as int));
    }
    let out = s.substring_char(a, b);
    out.to_owned()
}

/// The decimal digit `d` as a character.
pub open spec fn digit_char(d: int) -> char {
    if d == 0 {
        '0'
    } else if d == 1 {
        '1'
    } else if d == 2 {
        '2'
    } else if d == 3 {
        '3'
    } else if d == 4 {
        '4'
    } else if d == 5 {
        '5'
    } else if d == 6 {
        '6'
    } else if d == 7 {
        '7'
    } else if d == 8 {
        '8'
    } else {
        '9'
    }
}

/// The decimal rendering of `n`, without sign or leading zeros.
pub open spec fn dec_rep(n: int) -> Seq<char>
    decreases n,
        when n >= 0
        via dec_rep_decreases
{
    if n < 10 {
        seq![digit_char(n)]
    } else {
        dec_rep(n / 10) + seq![digit_char(n % 10)]
    }
}

#[via_fn]
proof fn dec_rep_decreases(n: int) {
    if n >= 10 {
        assert(n / 10 < n) by (nonlinear_arith)
            requires
                n >= 10,
        ;
        assert(n / 10 >= 0) by (nonlinear_arith)
            requires
                n >= 10,
        ;
    }
}

/// The decimal digit `d` as a one-character text.
fn digit_str(d: u32) -> (r: &'static str)
    requires
        d < 10,
    ensures
        r@ =~= seq![digit_char(d as int)],
{
    proof {
        reveal_strlit("0");
        reveal_strlit("1");
        reveal_strlit("2");
        reveal_strlit("3");
        reveal_strlit("4");
        reveal_strlit("5");
        reveal_strlit("6");
        reveal_strlit("7");
        reveal_strlit("8");
        reveal_strlit("9");
    }
    match d {
        0 => "0",
        1 => "1",
        2 => "2",
        3 => "3",
        4 => "4",
        5 => "5",
        6 => "6",
        7 => "7",
        8 => "8",
        _ => "9",
    }
}

/// Renders `x` in decimal.
pub fn u32_to_string(x: u32) -> (r: String)
    ensures
        r@ == dec_rep(x as int),
    decreases x,
{
    if x < 10 {
        digit_str(x).to_owned()
    } else {
        let mut s = u32_to_string(x / 10);
        s.append(digit_str(x % 10));
        proof {
            assert(s@ =~= dec_rep(x as int));
        }
        s
    }
}

} // verus!
