//! Character-level text primitives shared by the log parsers.
//!
//! Every routine works on the `Seq<char>` view of a string, and each
//! executable function is tied to a spec function that says what it computes.

use vstd::prelude::*;

verus! {

/// `char::is_ascii_digit`.
pub open spec fn is_ascii_digit(c: char) -> bool {
    '0' <= c && c <= '9'
}

/// `char::is_whitespace`: the Unicode `White_Space` property.
pub open spec fn is_ws(c: char) -> bool {
    let n = c as u32;
    ||| 0x09 <= n && n <= 0x0d
    ||| n == 0x20
    ||| n == 0x85
    ||| n == 0xa0
    ||| n == 0x1680
    ||| 0x2000 <= n && n <= 0x200a
    ||| n == 0x2028
    ||| n == 0x2029
    ||| n == 0x202f
    ||| n == 0x205f
    ||| n == 0x3000
}

pub open spec fn ws_pred() -> spec_fn(char) -> bool {
    |c: char| is_ws(c)
}

pub open spec fn non_ws_pred() -> spec_fn(char) -> bool {
    |c: char| !is_ws(c)
}

pub open spec fn digit_pred() -> spec_fn(char) -> bool {
    |c: char| is_ascii_digit(c)
}

/// Index just past the run of characters satisfying `p` that starts at `i`.
pub open spec fn run_end(s: Seq<char>, p: spec_fn(char) -> bool, i: int) -> int
    decreases s.len() - i,
{
    if 0 <= i < s.len() && p(s[i]) {
        run_end(s, p, i + 1)
    } else {
        i
    }
}

/// Index where the run of characters satisfying `p` that ends at `j` begins.
pub open spec fn run_start(s: Seq<char>, p: spec_fn(char) -> bool, j: int) -> int
    decreases j,
{
    if 0 < j <= s.len() && p(s[j - 1]) {
        run_start(s, p, j - 1)
    } else {
        j
    }
}

/// `str::trim_start_matches(p)`.
pub open spec fn trim_start_by(s: Seq<char>, p: spec_fn(char) -> bool) -> Seq<char> {
    s.skip(run_end(s, p, 0))
}

/// `str::trim_end_matches(p)`.
pub open spec fn trim_end_by(s: Seq<char>, p: spec_fn(char) -> bool) -> Seq<char> {
    s.take(run_start(s, p, s.len() as int))
}

/// `str::trim_matches(p)`.
pub open spec fn trim_by(s: Seq<char>, p: spec_fn(char) -> bool) -> Seq<char> {
    trim_end_by(trim_start_by(s, p), p)
}

/// `str::trim_start`.
pub open spec fn trim_start(s: Seq<char>) -> Seq<char> {
    trim_start_by(s, ws_pred())
}

/// `str::trim`.
pub open spec fn trim(s: Seq<char>) -> Seq<char> {
    trim_by(s, ws_pred())
}

/// The longest prefix of `s` made of ASCII digits.
pub open spec fn digit_prefix(s: Seq<char>) -> Seq<char> {
    s.take(run_end(s, digit_pred(), 0))
}

/// Every character of `s` is an ASCII digit.
pub open spec fn all_digits(s: Seq<char>) -> bool {
    forall|i: int| 0 <= i < s.len() ==> is_ascii_digit(#[trigger] s[i])
}

pub proof fn lemma_run_end(s: Seq<char>, p: spec_fn(char) -> bool, i: int)
    requires
        0 <= i <= s.len(),
    ensures
        i <= run_end(s, p, i) <= s.len(),
        forall|k: int| i <= k < run_end(s, p, i) ==> p(#[trigger] s[k]),
        run_end(s, p, i) < s.len() ==> !p(s[run_end(s, p, i)]),
    decreases s.len() - i,
{
    if i < s.len() && p(s[i]) {
        lemma_run_end(s, p, i + 1);
    }
}

pub proof fn lemma_run_start(s: Seq<char>, p: spec_fn(char) -> bool, j: int)
    requires
        0 <= j <= s.len(),
    ensures
        0 <= run_start(s, p, j) <= j,
        forall|k: int| run_start(s, p, j) <= k < j ==> p(#[trigger] s[k]),
        run_start(s, p, j) > 0 ==> !p(s[run_start(s, p, j) - 1]),
    decreases j,
{
    if 0 < j && p(s[j - 1]) {
        lemma_run_start(s, p, j - 1);
    }
}

/// Leftmost position at or after `i` where `pat` occurs in `s`.
pub open spec fn find_from(s: Seq<char>, pat: Seq<char>, i: int) -> Option<int>
    decreases s.len() + 1 - i,
{
    if i < 0 || i + pat.len() > s.len() {
        None
    } else if s.subrange(i, i + pat.len()) == pat {
        Some(i)
    } else {
        find_from(s, pat, i + 1)
    }
}

/// `str::find` with a string pattern, in characters.
pub open spec fn find(s: Seq<char>, pat: Seq<char>) -> Option<int> {
    find_from(s, pat, 0)
}

/// `str::contains` with a string pattern.
pub open spec fn contains(s: Seq<char>, pat: Seq<char>) -> bool {
    find(s, pat) is Some
}

/// `str::split_once` with a string pattern.
pub open spec fn split_once(s: Seq<char>, pat: Seq<char>) -> Option<(Seq<char>, Seq<char>)> {
    match find(s, pat) {
        Some(i) => Some((s.take(i), s.skip(i + pat.len()))),
        None => None,
    }
}

/// The part of `s` after the first `pat`, if `pat` occurs.
pub open spec fn after(s: Seq<char>, pat: Seq<char>) -> Option<Seq<char>> {
    match find(s, pat) {
        Some(i) => Some(s.skip(i + pat.len())),
        None => None,
    }
}

/// Last position before `j` holding `c`.
pub open spec fn rfind_char_before(s: Seq<char>, c: char, j: int) -> Option<int>
    decreases j,
{
    if j <= 0 || j > s.len() {
        None
    } else if s[j - 1] == c {
        Some(j - 1)
    } else {
        rfind_char_before(s, c, j - 1)
    }
}

/// `str::rfind` with a `char` pattern.
pub open spec fn rfind_char(s: Seq<char>, c: char) -> Option<int> {
    rfind_char_before(s, c, s.len() as int)
}

/// `str::split_whitespace().next()`.
pub open spec fn first_word(s: Seq<char>) -> Option<Seq<char>> {
    let t = trim_start(s);
    if t.len() == 0 {
        None
    } else {
        Some(t.take(run_end(t, non_ws_pred(), 0)))
    }
}

pub proof fn lemma_find_from(s: Seq<char>, pat: Seq<char>, i: int)
    requires
        0 <= i,
    ensures
        find_from(s, pat, i) matches Some(k) ==> i <= k && k + pat.len() <= s.len()
            && s.subrange(k, k + pat.len()) == pat,
    decreases s.len() + 1 - i,
{
    if i + pat.len() <= s.len() && s.subrange(i, i + pat.len()) != pat {
        lemma_find_from(s, pat, i + 1);
    }
}

pub proof fn lemma_rfind_char_before(s: Seq<char>, c: char, j: int)
    ensures
        rfind_char_before(s, c, j) matches Some(k) ==> 0 <= k < j && k < s.len() && s[k] == c
            && forall|m: int| k < m < j ==> s[m] != c,
        (rfind_char_before(s, c, j) is None && 0 <= j <= s.len()) ==> forall|m: int|
            0 <= m < j ==> s[m] != c,
    decreases j,
{
    if 0 < j <= s.len() && s[j - 1] != c {
        lemma_rfind_char_before(s, c, j - 1);
    }
}

// ---------------------------------------------------------------------------
// Executable counterparts
// ---------------------------------------------------------------------------

/// The characters of `s`, in order.
pub fn chars_of(s: &str) -> (out: Vec<char>)
    ensures
        out@ == s@,
{
    let mut out: Vec<char> = Vec::new();
    for c in it: s.chars()
        invariant
            out@ == it.seq().take(it.index() as int),
            it.seq() == s@,
    {
        out.push(c);
    }
    out
}

/// Wraps `String::push`, which vstd leaves unspecified: appends one character.
#[verifier::external_body]
fn push_char(s: &mut String, c: char)
    ensures
        final(s)@ == old(s)@.push(c),
{
    s.push(c)
}

/// A `String` holding exactly the characters of `cs`.
pub fn string_from(cs: &[char]) -> (out: String)
    ensures
        out@ == cs@,
{
    let mut out = String::new();
    let mut i: usize = 0;
    while i < cs.len()
        invariant
            i <= cs@.len(),
            out@ == cs@.take(i as int),
        decreases cs@.len() - i,
    {
        push_char(&mut out, cs[i]);
        assert(cs@.take(i as int).push(cs@[i as int]) =~= cs@.take(i + 1));
        i += 1;
    }
    assert(cs@.take(cs@.len() as int) =~= cs@);
    out
}

pub fn is_ascii_digit_exec(c: char) -> (b: bool)
    ensures
        b == is_ascii_digit(c),
{
    '0' <= c && c <= '9'
}

pub fn is_ws_exec(c: char) -> (b: bool)
    ensures
        b == is_ws(c),
{
    let n = c as u32;
    (0x09 <= n && n <= 0x0d) || n == 0x20 || n == 0x85 || n == 0xa0 || n == 0x1680 || (0x2000
        <= n && n <= 0x200a) || n == 0x2028 || n == 0x2029 || n == 0x202f || n == 0x205f || n
        == 0x3000
}

/// End of the whitespace run starting at `i`.
pub fn ws_run_end(s: &[char], i: usize) -> (r: usize)
    requires
        i <= s@.len(),
    ensures
        r == run_end(s@, ws_pred(), i as int),
{
    let mut k = i;
    while k < s.len() && is_ws_exec(s[k])
        invariant
            i <= k <= s@.len(),
            run_end(s@, ws_pred(), i as int) == run_end(s@, ws_pred(), k as int),
        decreases s@.len() - k,
    {
        k += 1;
    }
    k
}

/// End of the non-whitespace run starting at `i`.
pub fn word_run_end(s: &[char], i: usize) -> (r: usize)
    requires
        i <= s@.len(),
    ensures
        r == run_end(s@, non_ws_pred(), i as int),
{
    let mut k = i;
    while k < s.len() && !is_ws_exec(s[k])
        invariant
            i <= k <= s@.len(),
            run_end(s@, non_ws_pred(), i as int) == run_end(s@, non_ws_pred(), k as int),
        decreases s@.len() - k,
    {
        k += 1;
    }
    k
}

/// End of the ASCII-digit run starting at `i`.
pub fn digit_run_end(s: &[char], i: usize) -> (r: usize)
    requires
        i <= s@.len(),
    ensures
        r == run_end(s@, digit_pred(), i as int),
{
    let mut k = i;
    while k < s.len() && is_ascii_digit_exec(s[k])
        invariant
            i <= k <= s@.len(),
            run_end(s@, digit_pred(), i as int) == run_end(s@, digit_pred(), k as int),
        decreases s@.len() - k,
    {
        k += 1;
    }
    k
}

/// Start of the whitespace run that ends at `j`.
pub fn ws_run_start(s: &[char], j: usize) -> (r: usize)
    requires
        j <= s@.len(),
    ensures
        r == run_start(s@, ws_pred(), j as int),
{
    let mut k = j;
    while k > 0 && is_ws_exec(s[k - 1])
        invariant
            k <= j <= s@.len(),
            run_start(s@, ws_pred(), j as int) == run_start(s@, ws_pred(), k as int),
        decreases k,
    {
        k -= 1;
    }
    k
}

/// Whether `pat` occurs in `s` at position `i`.
pub fn matches_at(s: &[char], pat: &[char], i: usize) -> (b: bool)
    requires
        i + pat@.len() <= s@.len(),
    ensures
        b == (s@.subrange(i as int, i + pat@.len()) == pat@),
{
    let n = s.len();
    let mut k: usize = 0;
    while k < pat.len()
        invariant
            k <= pat@.len(),
            i + pat@.len() <= s@.len(),
            n == s@.len(),
            forall|m: int| 0 <= m < k ==> s@[i + m] == pat@[m],
        decreases pat@.len() - k,
    {
        if s[i + k] != pat[k] {
            assert(s@.subrange(i as int, i + pat@.len())[k as int] != pat@[k as int]);
            return false;
        }
        k += 1;
    }
    assert(s@.subrange(i as int, i + pat@.len()) =~= pat@);
    true
}

/// `str::find` with a string pattern.
pub fn find_exec(s: &[char], pat: &[char]) -> (r: Option<usize>)
    ensures
        r matches Some(k) ==> find(s@, pat@) == Some(k as int),
        r is None ==> find(s@, pat@) is None,
{
    if pat.len() > s.len() {
        return None;
    }
    let last = s.len() - pat.len();
    let mut i: usize = 0;
    while i <= last
        invariant
            last == s@.len() - pat@.len(),
            i <= last + 1,
            find(s@, pat@) == find_from(s@, pat@, i as int),
        decreases last + 1 - i,
    {
        if matches_at(s, pat, i) {
            return Some(i);
        }
        if i == last {
            return None;
        }
        i += 1;
    }
    None
}

/// Last index of `c` in `s`.
pub fn rfind_char_exec(s: &[char], c: char) -> (r: Option<usize>)
    ensures
        r matches Some(k) ==> rfind_char(s@, c) == Some(k as int),
        r is None ==> rfind_char(s@, c) is None,
{
    let mut j = s.len();
    while j > 0
        invariant
            j <= s@.len(),
            rfind_char(s@, c) == rfind_char_before(s@, c, j as int),
        decreases j,
    {
        if s[j - 1] == c {
            return Some(j - 1);
        }
        j -= 1;
    }
    None
}

/// Copies `s[a..b]`.
pub fn copy_range(s: &[char], a: usize, b: usize) -> (out: Vec<char>)
    requires
        a <= b <= s@.len(),
    ensures
        out@ == s@.subrange(a as int, b as int),
{
    let mut out: Vec<char> = Vec::new();
    let mut k = a;
    while k < b
        invariant
            a <= k <= b <= s@.len(),
            out@ == s@.subrange(a as int, k as int),
        decreases b - k,
    {
        out.push(s[k]);
        assert(s@.subrange(a as int, k as int).push(s@[k as int]) =~= s@.subrange(
            a as int,
            k + 1,
        ));
        k += 1;
    }
    out
}


// ---------------------------------------------------------------------------
// Decimal integers
// ---------------------------------------------------------------------------

pub open spec fn digit_val(c: char) -> int {
    c as int - '0' as int
}

/// The value of a string of decimal digits (most significant first).
pub open spec fn digits_value(s: Seq<char>) -> int
    decreases s.len(),
{
    if s.len() == 0 {
        0
    } else {
        digits_value(s.drop_last()) * 10 + digit_val(s.last())
    }
}

/// `<i64 as FromStr>::from_str`: an optional `+` or `-`, then one or more
/// ASCII digits, whose value must fit in an `i64`.
pub open spec fn parse_i64(s: Seq<char>) -> Option<i64> {
    if s.len() == 0 {
        None
    } else {
        let d = if s[0] == '+' || s[0] == '-' {
            s.drop_first()
        } else {
            s
        };
        let v = if s[0] == '-' {
            -digits_value(d)
        } else {
            digits_value(d)
        };
        if d.len() == 0 || !all_digits(d) || v < i64::MIN || v > i64::MAX {
            None
        } else {
            Some(v as i64)
        }
    }
}

pub open spec fn digit_char(d: int) -> char {
    (d + '0' as int) as char
}

/// Decimal digits of a natural number, without leading zeros.
pub open spec fn nat_decimal(n: nat) -> Seq<char>
    decreases n,
{
    if n < 10 {
        seq![digit_char(n as int)]
    } else {
        nat_decimal(n / 10).push(digit_char((n % 10) as int))
    }
}

/// `<i64 as Display>::fmt`: decimal, with a leading `-` when negative.
pub open spec fn int_decimal(n: int) -> Seq<char> {
    if n < 0 {
        seq!['-'] + nat_decimal((-n) as nat)
    } else {
        nat_decimal(n as nat)
    }
}

pub proof fn lemma_digits_value_nonneg(s: Seq<char>)
    requires
        all_digits(s),
    ensures
        digits_value(s) >= 0,
    decreases s.len(),
{
    if s.len() > 0 {
        assert(all_digits(s.drop_last())) by {
            assert forall|i: int| 0 <= i < s.drop_last().len() implies is_ascii_digit(
                #[trigger] s.drop_last()[i],
            ) by {
                assert(s.drop_last()[i] == s[i]);
            }
        }
        lemma_digits_value_nonneg(s.drop_last());
        assert(is_ascii_digit(s[s.len() - 1]));
    }
}

pub proof fn lemma_digits_value_prefix(s: Seq<char>, k: int)
    requires
        all_digits(s),
        0 <= k <= s.len(),
    ensures
        digits_value(s.take(k)) <= digits_value(s),
    decreases s.len(),
{
    if k < s.len() {
        let t = s.drop_last();
        assert(all_digits(t)) by {
            assert forall|i: int| 0 <= i < t.len() implies is_ascii_digit(#[trigger] t[i]) by {
                assert(t[i] == s[i]);
            }
        }
        lemma_digits_value_prefix(t, k);
        lemma_digits_value_nonneg(t);
        assert(t.take(k) =~= s.take(k));
        assert(is_ascii_digit(s[s.len() - 1]));
    } else {
        assert(s.take(k) =~= s);
    }
}

/// `<i64 as FromStr>::from_str` on characters.
pub fn parse_i64_exec(s: &[char]) -> (r: Option<i64>)
    ensures
        r == parse_i64(s@),
{
    let n = s.len();
    if n == 0 {
        return None;
    }
    let start: usize = if s[0] == '+' || s[0] == '-' {
        1
    } else {
        0
    };
    let ghost d = if s@[0] == '+' || s@[0] == '-' {
        s@.drop_first()
    } else {
        s@
    };
    assert(d =~= s@.subrange(start as int, n as int));
    if start == n {
        return None;
    }
    let mut v: i128 = 0;
    let mut k = start;
    while k < n
        invariant
            start < n,
            n == s@.len(),
            start <= k <= n,
            d == s@.subrange(start as int, n as int),
            d == (if s@[0] == '+' || s@[0] == '-' {
                s@.drop_first()
            } else {
                s@
            }),
            all_digits(s@.subrange(start as int, k as int)),
            v == digits_value(s@.subrange(start as int, k as int)),
            0 <= v <= 0x8000_0000_0000_0000,
        decreases n - k,
    {
        let c = s[k];
        if !is_ascii_digit_exec(c) {
            proof {
                assert(d[k - start] == c);
                assert(!all_digits(d));
            }
            return None;
        }
        let ghost pre = s@.subrange(start as int, k as int);
        let ghost post = s@.subrange(start as int, k + 1);
        assert(post.drop_last() =~= pre);
        v = v * 10 + (c as i128 - '0' as i128);
        assert(post.last() == c);
        assert(v == digits_value(post));
        assert(all_digits(post)) by {
            assert forall|i: int| 0 <= i < post.len() implies is_ascii_digit(#[trigger] post[i]) by {
                if i < pre.len() {
                    assert(post[i] == pre[i]);
                }
            }
        }
        if v > 0x8000_0000_0000_0000 {
            proof {
                if all_digits(d) {
                    assert(d.take(k + 1 - start) =~= post);
                    lemma_digits_value_prefix(d, k + 1 - start);
                    assert(digits_value(d) > 0x8000_0000_0000_0000);
                }
            }
            return None;
        }
        k += 1;
    }
    assert(s@.subrange(start as int, k as int) =~= d);
    if s[0] == '-' {
        if v > 0x8000_0000_0000_0000 {
            return None;
        }
        Some((-v) as i64)
    } else {
        if v > 0x7fff_ffff_ffff_ffff {
            return None;
        }
        Some(v as i64)
    }
}

fn push_nat_decimal(n: u64, out: &mut Vec<char>)
    ensures
        final(out)@ == old(out)@ + nat_decimal(n as nat),
    decreases n,
{
    if n >= 10 {
        push_nat_decimal(n / 10, out);
    }
    let d = (n % 10) as u8;
    let c = (48u8 + d) as char;
    assert(c == digit_char((n % 10) as int));
    out.push(c);
    proof {
        if n < 10 {
            assert(old(out)@ + nat_decimal(n as nat) =~= old(out)@.push(c));
        } else {
            assert((old(out)@ + nat_decimal((n / 10) as nat)).push(c) =~= old(out)@
                + nat_decimal(n as nat));
        }
    }
}

/// `i64::to_string`.
pub fn i64_to_string(n: i64) -> (out: String)
    ensures
        out@ == int_decimal(n as int),
{
    let mut cs: Vec<char> = Vec::new();
    if n < 0 {
        cs.push('-');
        let m: u64 = (-(n as i128)) as u64;
        push_nat_decimal(m, &mut cs);
    } else {
        push_nat_decimal(n as u64, &mut cs);
    }
    assert(cs@ =~= int_decimal(n as int));
    string_from(cs.as_slice())
}


// ---------------------------------------------------------------------------
// Derived operations
// ---------------------------------------------------------------------------

/// The character view of an optional character vector.
pub open spec fn opt_chars(o: Option<Vec<char>>) -> Option<Seq<char>> {
    match o {
        Some(v) => Some(v@),
        None => None,
    }
}

/// The character view of an optional string.
pub open spec fn opt_str(o: Option<String>) -> Option<Seq<char>> {
    match o {
        Some(v) => Some(v@),
        None => None,
    }
}

/// `str::starts_with` with a string pattern.
pub open spec fn starts_with(s: Seq<char>, pat: Seq<char>) -> bool {
    pat.len() <= s.len() && s.take(pat.len() as int) == pat
}

pub fn contains_exec(s: &[char], pat: &[char]) -> (b: bool)
    ensures
        b == contains(s@, pat@),
{
    find_exec(s, pat).is_some()
}

pub fn starts_with_exec(s: &[char], pat: &[char]) -> (b: bool)
    ensures
        b == starts_with(s@, pat@),
{
    if pat.len() > s.len() {
        return false;
    }
    let b = matches_at(s, pat, 0);
    assert(s@.subrange(0, pat@.len() as int) =~= s@.take(pat@.len() as int));
    b
}

/// The text after the first occurrence of `pat`.
pub fn after_exec(s: &[char], pat: &[char]) -> (r: Option<Vec<char>>)
    ensures
        opt_chars(r) == after(s@, pat@),
{
    let n = s.len();
    match find_exec(s, pat) {
        Some(i) => {
            proof {
                lemma_find_from(s@, pat@, 0);
            }
            Some(copy_range(s, i + pat.len(), n))
        },
        None => None,
    }
}

/// `str::trim_start`.
pub fn trim_start_exec(s: &[char]) -> (out: Vec<char>)
    ensures
        out@ == trim_start(s@),
{
    let a = ws_run_end(s, 0);
    proof {
        lemma_run_end(s@, ws_pred(), 0);
    }
    let out = copy_range(s, a, s.len());
    assert(out@ =~= s@.skip(a as int));
    out
}

/// `str::trim`.
pub fn trim_exec(s: &[char]) -> (out: Vec<char>)
    ensures
        out@ == trim(s@),
{
    let t = trim_start_exec(s);
    let b = ws_run_start(t.as_slice(), t.len());
    proof {
        lemma_run_start(t@, ws_pred(), t@.len() as int);
    }
    let out = copy_range(t.as_slice(), 0, b);
    assert(out@ =~= t@.take(b as int));
    out
}

/// The longest ASCII-digit prefix.
pub fn digit_prefix_exec(s: &[char]) -> (out: Vec<char>)
    ensures
        out@ == digit_prefix(s@),
        all_digits(out@),
{
    let e = digit_run_end(s, 0);
    proof {
        lemma_run_end(s@, digit_pred(), 0);
    }
    let out = copy_range(s, 0, e);
    assert(out@ =~= s@.take(e as int));
    out
}

/// `str::trim_end_matches(|c| c.is_ascii_digit())`.
pub fn trim_end_digits_exec(s: &[char]) -> (out: Vec<char>)
    ensures
        out@ == trim_end_by(s@, digit_pred()),
{
    let mut k = s.len();
    while k > 0 && is_ascii_digit_exec(s[k - 1])
        invariant
            k <= s@.len(),
            run_start(s@, digit_pred(), s@.len() as int) == run_start(s@, digit_pred(), k as int),
        decreases k,
    {
        k -= 1;
    }
    proof {
        lemma_run_start(s@, digit_pred(), s@.len() as int);
    }
    let out = copy_range(s, 0, k);
    assert(out@ =~= s@.take(k as int));
    out
}

/// `str::split_whitespace().next()`.
pub fn first_word_exec(s: &[char]) -> (r: Option<Vec<char>>)
    ensures
        opt_chars(r) == first_word(s@),
{
    let t = trim_start_exec(s);
    if t.len() == 0 {
        return None;
    }
    let e = word_run_end(t.as_slice(), 0);
    proof {
        lemma_run_end(t@, non_ws_pred(), 0);
    }
    let w = copy_range(t.as_slice(), 0, e);
    assert(w@ =~= t@.take(e as int));
    Some(w)
}


/// The characters `str::trim_matches` strips from map components.
pub open spec fn is_map_punct(c: char) -> bool {
    c == '\'' || c == '"' || c == ',' || c == ')' || c == '('
}

pub open spec fn map_punct_pred() -> spec_fn(char) -> bool {
    |c: char| is_map_punct(c)
}

pub fn is_map_punct_exec(c: char) -> (b: bool)
    ensures
        b == is_map_punct(c),
{
    c == '\'' || c == '"' || c == ',' || c == ')' || c == '('
}

/// `str::trim_matches` with the map-component punctuation.
pub fn trim_map_punct_exec(s: &[char]) -> (out: Vec<char>)
    ensures
        out@ == trim_by(s@, map_punct_pred()),
{
    let n = s.len();
    let mut a: usize = 0;
    while a < n && is_map_punct_exec(s[a])
        invariant
            n == s@.len(),
            a <= n,
            run_end(s@, map_punct_pred(), 0) == run_end(s@, map_punct_pred(), a as int),
        decreases n - a,
    {
        a += 1;
    }
    proof {
        lemma_run_end(s@, map_punct_pred(), 0);
    }
    let t = copy_range(s, a, n);
    assert(t@ =~= trim_start_by(s@, map_punct_pred()));
    let mut b = t.len();
    while b > 0 && is_map_punct_exec(t[b - 1])
        invariant
            b <= t@.len(),
            run_start(t@, map_punct_pred(), t@.len() as int) == run_start(
                t@,
                map_punct_pred(),
                b as int,
            ),
        decreases b,
    {
        b -= 1;
    }
    proof {
        lemma_run_start(t@, map_punct_pred(), t@.len() as int);
    }
    let out = copy_range(t.as_slice(), 0, b);
    assert(out@ =~= t@.take(b as int));
    out
}

/// The part after the last `c`, or all of `s` when `c` does not occur
/// (`str::rsplit(c).next()`).
pub open spec fn after_last(s: Seq<char>, c: char) -> Seq<char> {
    match rfind_char(s, c) {
        Some(i) => s.skip(i + 1),
        None => s,
    }
}

pub fn after_last_exec(s: &[char], c: char) -> (out: Vec<char>)
    ensures
        out@ == after_last(s@, c),
{
    let n = s.len();
    match rfind_char_exec(s, c) {
        Some(i) => {
            proof {
                lemma_rfind_char_before(s@, c, s@.len() as int);
            }
            let out = copy_range(s, i + 1, n);
            assert(out@ =~= s@.skip(i + 1));
            out
        },
        None => copy_range(s, 0, n),
    }
}

/// A vector holding a copy of `s`.
pub fn to_vec(s: &[char]) -> (out: Vec<char>)
    ensures
        out@ == s@,
{
    let out = copy_range(s, 0, s.len());
    assert(out@ =~= s@);
    out
}

/// `a` followed by `b`.
pub fn concat(a: &[char], b: &[char]) -> (out: Vec<char>)
    ensures
        out@ == a@ + b@,
{
    let mut out = to_vec(a);
    let mut k: usize = 0;
    while k < b.len()
        invariant
            k <= b@.len(),
            out@ == a@ + b@.take(k as int),
        decreases b@.len() - k,
    {
        out.push(b[k]);
        assert(a@ + b@.take(k as int).push(b@[k as int]) =~= a@ + b@.take(k + 1));
        k += 1;
    }
    assert(b@.take(b@.len() as int) =~= b@);
    out
}

/// Whether two character slices are equal.
pub fn chars_eq(a: &[char], b: &[char]) -> (r: bool)
    ensures
        r == (a@ == b@),
{
    if a.len() != b.len() {
        return false;
    }
    let r = matches_at(a, b, 0);
    assert(a@.subrange(0, b@.len() as int) =~= a@);
    r
}


/// A line without the `\r` of a `\r\n` ending.
pub open spec fn strip_cr(s: Seq<char>) -> Seq<char> {
    if s.len() > 0 && s.last() == '\r' {
        s.drop_last()
    } else {
        s
    }
}

/// `str::lines`: pieces between `\n`s, each without a `\r` that preceded its
/// `\n`; a final `\n` does not start another line.
pub open spec fn spec_lines(s: Seq<char>) -> Seq<Seq<char>>
    decreases s.len(),
{
    if s.len() == 0 {
        seq![]
    } else {
        match find(s, seq!['\n']) {
            Some(i) => {
                proof {
                    lemma_find_from(s, seq!['\n'], 0);
                }
                seq![strip_cr(s.take(i))] + spec_lines(s.skip(i + 1))
            },
            None => seq![s],
        }
    }
}

/// The character views of a sequence of strings.
pub open spec fn str_views(v: Seq<String>) -> Seq<Seq<char>> {
    v.map_values(|s: String| s@)
}

/// `str::lines`, collected.
pub fn split_lines(s: &[char]) -> (out: Vec<String>)
    ensures
        str_views(out@) == spec_lines(s@),
{
    let newline = vec!['\n'];
    assert(newline@ =~= seq!['\n']);
    let mut out: Vec<String> = Vec::new();
    let mut rest = to_vec(s);
    while rest.len() > 0
        invariant
            newline@ == seq!['\n'],
            str_views(out@) + spec_lines(rest@) == spec_lines(s@),
        decreases rest@.len(),
    {
        let n = rest.len();
        match find_exec(rest.as_slice(), newline.as_slice()) {
            Some(i) => {
                proof {
                    lemma_find_from(rest@, seq!['\n'], 0);
                }
                let mut e = i;
                if e > 0 && rest[e - 1] == '\r' {
                    e = e - 1;
                }
                let piece = copy_range(rest.as_slice(), 0, e);
                assert(piece@ =~= strip_cr(rest@.take(i as int)));
                let next = copy_range(rest.as_slice(), i + 1, n);
                assert(next@ =~= rest@.skip(i + 1));
                let ghost o0 = str_views(out@);
                out.push(string_from(piece.as_slice()));
                assert(str_views(out@) =~= o0.push(piece@));
                assert(o0.push(piece@) + spec_lines(next@) =~= o0 + spec_lines(rest@));
                rest = next;
            },
            None => {
                let ghost o0 = str_views(out@);
                let whole = string_from(rest.as_slice());
                out.push(whole);
                assert(str_views(out@) =~= o0.push(rest@));
                assert(spec_lines(rest@) == seq![rest@]);
                assert(str_views(out@) + spec_lines(Seq::<char>::empty()) =~= o0 + spec_lines(
                    rest@,
                ));
                rest = Vec::new();
            },
        }
    }
    assert(spec_lines(rest@) == Seq::<Seq<char>>::empty());
    assert(str_views(out@) + seq![] =~= str_views(out@));
    out
}

/// How many line breaks `s` holds.
pub open spec fn newline_count(s: Seq<char>) -> nat
    decreases s.len(),
{
    if s.len() == 0 {
        0
    } else {
        newline_count(s.drop_last()) + if s.last() == '\n' {
            1nat
        } else {
            0nat
        }
    }
}

/// One more line when the text ends without a line break.
pub open spec fn open_tail(s: Seq<char>) -> nat {
    if s.len() > 0 && s.last() != '\n' {
        1
    } else {
        0
    }
}

pub proof fn lemma_newline_count_add(a: Seq<char>, b: Seq<char>)
    ensures
        newline_count(a + b) == newline_count(a) + newline_count(b),
    decreases b.len(),
{
    if b.len() == 0 {
        assert(a + b =~= a);
    } else {
        assert((a + b).drop_last() =~= a + b.drop_last());
        lemma_newline_count_add(a, b.drop_last());
    }
}

proof fn lemma_newline_count_none(s: Seq<char>)
    requires
        forall|k: int| 0 <= k < s.len() ==> s[k] != '\n',
    ensures
        newline_count(s) == 0,
    decreases s.len(),
{
    if s.len() > 0 {
        lemma_newline_count_none(s.drop_last());
    }
}

proof fn lemma_find_first(s: Seq<char>, c: char, i: int)
    requires
        0 <= i,
    ensures
        find_from(s, seq![c], i) matches Some(k) ==> (i <= k < s.len() && s[k] == c && forall|j: int|
            i <= j < k ==> s[j] != c),
        find_from(s, seq![c], i) is None ==> forall|j: int| i <= j < s.len() ==> s[j] != c,
    decreases s.len() + 1 - i,
{
    if i + 1 <= s.len() {
        if s.subrange(i, i + 1) == seq![c] {
            assert(s[i] == s.subrange(i, i + 1)[0]);
        } else {
            assert(s[i] != c) by {
                if s[i] == c {
                    assert(s.subrange(i, i + 1) =~= seq![c]);
                }
            }
            lemma_find_first(s, c, i + 1);
        }
    }
}

/// `str::lines` gives one line per line break, and one more when the text
/// ends without one: every line, empty ones too, is counted.
pub proof fn law_line_count(s: Seq<char>)
    ensures
        spec_lines(s).len() == newline_count(s) + open_tail(s),
    decreases s.len(),
{
    if s.len() > 0 {
        lemma_find_first(s, '\n', 0);
        match find(s, seq!['\n']) {
            Some(i) => {
                let rest = s.skip(i + 1);
                law_line_count(rest);
                assert(s =~= s.take(i) + seq!['\n'] + rest);
                lemma_newline_count_none(s.take(i));
                lemma_newline_count_add(s.take(i) + seq!['\n'], rest);
                lemma_newline_count_add(s.take(i), seq!['\n']);
                assert(newline_count(seq!['\n']) == 1) by {
                    reveal_with_fuel(newline_count, 2);
                    assert(seq!['\n'].drop_last() =~= Seq::<char>::empty());
                }
                if rest.len() > 0 {
                    assert(rest.last() == s.last());
                }
                assert(spec_lines(s) == seq![strip_cr(s.take(i))] + spec_lines(rest));
            },
            None => {
                lemma_newline_count_none(s);
                assert(spec_lines(s) == seq![s]);
            },
        }
    }
}

} // verus!
