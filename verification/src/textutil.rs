//! Character and string helpers shared by the verdict parser, the unlock
//! phrase check and the renderer: ASCII classification, case-insensitive
//! comparison, substring search, whitespace trimming, and decimal numerals.

use vstd::prelude::*;

verus! {

/// The whitespace characters recognised around a lock-duration numeral and
/// between words when wrapping text. The protocol text is ASCII, so only the
/// ASCII whitespace characters are treated as blank.
pub open spec fn is_ascii_space(c: char) -> bool {
    c == ' ' || c == '\t' || c == '\n' || c == '\r'
}

pub open spec fn is_digit_char(c: char) -> bool {
    '0' <= c && c <= '9'
}

pub open spec fn digit_val(c: char) -> nat {
    ((c as int) - 48) as nat
}

/// The decimal digit character for a value below ten.
pub open spec fn digit_char(d: nat) -> char {
    ((d + 48) as u8) as char
}

/// The numeric value of a digit string, most significant digit first.
pub open spec fn digits_val(s: Seq<char>) -> nat
    decreases s.len(),
{
    if s.len() == 0 {
        0
    } else {
        digits_val(s.drop_last()) * 10 + digit_val(s.last())
    }
}

pub open spec fn all_digits(s: Seq<char>) -> bool {
    forall|i: int| 0 <= i < s.len() ==> is_digit_char(#[trigger] s[i])
}

/// The decimal numeral of `n`, without sign or leading zeros.
pub open spec fn dec_str(n: nat) -> Seq<char>
    decreases n,
{
    if n < 10 {
        seq![digit_char(n)]
    } else {
        dec_str(n / 10).push(digit_char(n % 10))
    }
}

/// ASCII upper-casing of one character; anything outside `a..=z` is kept.
pub open spec fn upper_char(c: char) -> char {
    if 'a' <= c && c <= 'z' {
        ((c as u8) - 32) as char
    } else {
        c
    }
}

/// Case-insensitive equality of two character sequences, folding ASCII case.
pub open spec fn eq_ignore_ascii_case(a: Seq<char>, b: Seq<char>) -> bool {
    a.len() == b.len() && forall|i: int|
        0 <= i < a.len() ==> upper_char(#[trigger] a[i]) == upper_char(b[i])
}

/// `pat` occurs in `s` starting at position `i`.
pub open spec fn match_at(s: Seq<char>, pat: Seq<char>, i: int) -> bool {
    &&& 0 <= i
    &&& i + pat.len() <= s.len()
    &&& s.subrange(i, i + pat.len() as int) == pat
}

pub open spec fn contains_seq(s: Seq<char>, pat: Seq<char>) -> bool {
    exists|i: int| match_at(s, pat, i)
}

/// The least position at or after `i` where `pat` occurs, or -1 if none.
pub open spec fn find_from(s: Seq<char>, pat: Seq<char>, i: nat) -> int
    decreases s.len() + 1 - i,
{
    if i + pat.len() > s.len() {
        -1
    } else if match_at(s, pat, i as int) {
        i as int
    } else {
        find_from(s, pat, (i + 1) as nat)
    }
}

/// The least position where `pat` occurs in `s`, or -1 if it does not.
pub open spec fn find_first(s: Seq<char>, pat: Seq<char>) -> int {
    find_from(s, pat, 0)
}

/// `find_from` returns the least match position at or after `i`, and -1
/// exactly when there is no match at or after `i`.
pub proof fn lemma_find_from(s: Seq<char>, pat: Seq<char>, i: nat)
    ensures
        find_from(s, pat, i) == -1 || find_from(s, pat, i) >= i,
        find_from(s, pat, i) == -1 ==> forall|j: int| i <= j ==> !match_at(s, pat, j),
        find_from(s, pat, i) >= 0 ==> {
            &&& i <= find_from(s, pat, i)
            &&& match_at(s, pat, find_from(s, pat, i))
            &&& forall|j: int| i <= j < find_from(s, pat, i) ==> !match_at(s, pat, j)
        },
    decreases s.len() + 1 - i,
{
    if i + pat.len() > s.len() {
        assert(forall|j: int| i <= j ==> !match_at(s, pat, j));
    } else if match_at(s, pat, i as int) {
    } else {
        lemma_find_from(s, pat, (i + 1) as nat);
    }
}

/// `contains_seq` agrees with `find_first`.
pub proof fn lemma_contains_find_first(s: Seq<char>, pat: Seq<char>)
    ensures
        contains_seq(s, pat) <==> find_first(s, pat) >= 0,
{
    lemma_find_from(s, pat, 0);
    if find_first(s, pat) >= 0 {
        assert(match_at(s, pat, find_first(s, pat)));
    }
    if contains_seq(s, pat) {
        let w = choose|i: int| match_at(s, pat, i);
        assert(match_at(s, pat, w));
    }
}

/// The least position at or after `i` holding a non-space character, or the
/// length of `s` if all of the rest is blank.
pub open spec fn skip_spaces_from(s: Seq<char>, i: nat) -> int
    decreases s.len() - i,
{
    if i >= s.len() {
        s.len() as int
    } else if is_ascii_space(s[i as int]) {
        skip_spaces_from(s, (i + 1) as nat)
    } else {
        i as int
    }
}

/// One past the last position below `i` holding a non-space character, or 0
/// if all of `s` before `i` is blank.
pub open spec fn rskip_spaces(s: Seq<char>, i: nat) -> int
    decreases i,
{
    if i == 0 {
        0
    } else if is_ascii_space(s[i - 1]) {
        rskip_spaces(s, (i - 1) as nat)
    } else {
        i as int
    }
}

/// The least position at or after `i` holding a whitespace character, or
/// the length of `s` if the rest holds none.
pub open spec fn next_space(s: Seq<char>, i: nat) -> int
    decreases s.len() - i,
{
    if i >= s.len() {
        s.len() as int
    } else if is_ascii_space(s[i as int]) {
        i as int
    } else {
        next_space(s, (i + 1) as nat)
    }
}

/// `skip_spaces_from` lands on the first non-space at or after `i`.
pub proof fn lemma_skip_spaces_from(s: Seq<char>, i: nat)
    ensures
        skip_spaces_from(s, i) <= s.len(),
        i <= s.len() ==> i <= skip_spaces_from(s, i),
        skip_spaces_from(s, i) < s.len() ==> !is_ascii_space(s[skip_spaces_from(s, i)]),
        forall|j: int| i <= j < skip_spaces_from(s, i) ==> is_ascii_space(#[trigger] s[j]),
    decreases s.len() - i,
{
    if i < s.len() && is_ascii_space(s[i as int]) {
        lemma_skip_spaces_from(s, (i + 1) as nat);
    }
}

/// `next_space` lands on the first space at or after `i`.
pub proof fn lemma_next_space(s: Seq<char>, i: nat)
    ensures
        next_space(s, i) <= s.len(),
        i <= s.len() ==> i <= next_space(s, i),
        next_space(s, i) < s.len() ==> is_ascii_space(s[next_space(s, i)]),
        forall|j: int| i <= j < next_space(s, i) ==> !is_ascii_space(#[trigger] s[j]),
    decreases s.len() - i,
{
    if i < s.len() && !is_ascii_space(s[i as int]) {
        lemma_next_space(s, (i + 1) as nat);
    }
}

/// The whitespace-separated words of `s` from position `i` on: maximal runs
/// of non-space characters, in order.
pub open spec fn split_words_from(s: Seq<char>, i: nat) -> Seq<Seq<char>>
    decreases s.len() - i,
    via split_words_from_decreases
{
    let j = skip_spaces_from(s, i);
    if j >= s.len() {
        Seq::empty()
    } else {
        let k = next_space(s, j as nat);
        seq![s.subrange(j, k)] + split_words_from(s, k as nat)
    }
}

#[via_fn]
proof fn split_words_from_decreases(s: Seq<char>, i: nat) {
    lemma_skip_spaces_from(s, i);
    let j = skip_spaces_from(s, i);
    if i <= s.len() && j < s.len() {
        lemma_next_space(s, j as nat);
        assert(next_space(s, j as nat) > j);
    }
}

/// The whitespace-separated words of `s`.
pub open spec fn split_words(s: Seq<char>) -> Seq<Seq<char>> {
    split_words_from(s, 0)
}

/// `s` with leading and trailing ASCII whitespace removed.
pub open spec fn trimmed(s: Seq<char>) -> Seq<char> {
    let lo = skip_spaces_from(s, 0);
    let hi = rskip_spaces(s, s.len());
    if lo <= hi {
        s.subrange(lo, hi)
    } else {
        Seq::empty()
    }
}

/// Relies on nothing external: exec search mirroring `find_first`.
/// Returns the least occurrence of `pat` in `s`, if any.
pub fn find_sub(s: &str, pat: &str) -> (r: Option<usize>)
    ensures
        match r {
            Some(k) => find_first(s@, pat@) == k as int,
            None => find_first(s@, pat@) == -1,
        },
{
    let n = s.unicode_len();
    let m = pat.unicode_len();
    if m > n {
        return None;
    }
    if m == 0 {
        assert(match_at(s@, pat@, 0)) by {
            assert(s@.subrange(0, 0) =~= pat@);
        }
        return Some(0);
    }
    let mut i: usize = 0;
    while i <= n - m
        invariant
            n == s@.len(),
            m == pat@.len(),
            1 <= m <= n,
            i <= n - m + 1,
            find_from(s@, pat@, i as nat) == find_first(s@, pat@),
        decreases n - i,
    {
        if match_here(s, pat, i) {
            return Some(i);
        }
        assert(find_from(s@, pat@, i as nat) == find_from(s@, pat@, (i + 1) as nat));
        i += 1;
    }
    assert(find_from(s@, pat@, i as nat) == -1);
    None
}

/// Whether `pat` occurs in `s` starting exactly at `i`.
fn match_here(s: &str, pat: &str, i: usize) -> (r: bool)
    requires
        i + pat@.len() <= s@.len(),
        s@.len() <= usize::MAX,
    ensures
        r == match_at(s@, pat@, i as int),
{
    let m = pat.unicode_len();
    let mut j: usize = 0;
    while j < m
        invariant
            m == pat@.len(),
            i + m <= s@.len(),
            s@.len() <= usize::MAX,
            j <= m,
            forall|k: int| 0 <= k < j ==> s@[i + k] == pat@[k],
        decreases m - j,
    {
        if s.get_char(i + j) != pat.get_char(j) {
            assert(s@.subrange(i as int, i + pat@.len() as int)[j as int] != pat@[j as int]);
            return false;
        }
        j += 1;
    }
    assert(s@.subrange(i as int, i + pat@.len() as int) =~= pat@);
    true
}

/// Whether `s` contains `pat` anywhere.
pub fn contains_sub(s: &str, pat: &str) -> (r: bool)
    ensures
        r == contains_seq(s@, pat@),
{
    proof {
        lemma_contains_find_first(s@, pat@);
    }
    find_sub(s, pat).is_some()
}

/// Case-insensitive ASCII equality of two strings.
pub fn str_eq_ignore_case(a: &str, b: &str) -> (r: bool)
    ensures
        r == eq_ignore_ascii_case(a@, b@),
{
    let n = a.unicode_len();
    if n != b.unicode_len() {
        return false;
    }
    let mut i: usize = 0;
    while i < n
        invariant
            n == a@.len(),
            n == b@.len(),
            i <= n,
            forall|k: int| 0 <= k < i ==> upper_char(#[trigger] a@[k]) == upper_char(b@[k]),
        decreases n - i,
    {
        if upper_char_exec(a.get_char(i)) != upper_char_exec(b.get_char(i)) {
            return false;
        }
        i += 1;
    }
    true
}

/// ASCII upper-casing of one character.
pub fn upper_char_exec(c: char) -> (r: char)
    ensures
        r == upper_char(c),
{
    let u: u32 = c as u32;
    if 97 <= u && u <= 122 {
        assert('a' <= c && c <= 'z');
        ((u - 32) as u8) as char
    } else {
        assert(!('a' <= c && c <= 'z'));
        c
    }
}

/// `s` with leading and trailing ASCII whitespace removed.
pub fn trim_spaces<'a>(s: &'a str) -> (r: &'a str)
    ensures
        r@ == trimmed(s@),
{
    let n = s.unicode_len();
    let mut lo: usize = 0;
    while lo < n && is_space_exec(s.get_char(lo))
        invariant
            n == s@.len(),
            lo <= n,
            skip_spaces_from(s@, lo as nat) == skip_spaces_from(s@, 0),
        decreases n - lo,
    {
        lo += 1;
    }
    assert(skip_spaces_from(s@, lo as nat) == lo as int);
    let mut hi: usize = n;
    while hi > 0 && is_space_exec(s.get_char(hi - 1))
        invariant
            n == s@.len(),
            hi <= n,
            rskip_spaces(s@, hi as nat) == rskip_spaces(s@, n as nat),
        decreases hi,
    {
        hi -= 1;
    }
    assert(rskip_spaces(s@, hi as nat) == hi as int);
    if lo <= hi {
        s.substring_char(lo, hi)
    } else {
        let empty = "";
        proof {
            reveal_strlit("");
            assert(empty@ =~= trimmed(s@));
        }
        empty
    }
}

/// Whether `c` is one of the recognised whitespace characters.
pub fn is_space_exec(c: char) -> (r: bool)
    ensures
        r == is_ascii_space(c),
{
    c == ' ' || c == '\t' || c == '\n' || c == '\r'
}

/// Whether `c` is a decimal digit.
pub fn is_digit_exec(c: char) -> (r: bool)
    ensures
        r == is_digit_char(c),
{
    let u: u32 = c as u32;
    if 48 <= u && u <= 57 {
        assert('0' <= c && c <= '9');
        true
    } else {
        assert(!('0' <= c && c <= '9'));
        false
    }
}

/// The numeral of a digit prefix never exceeds the numeral of the whole
/// digit string.
pub proof fn lemma_digits_val_prefix_le(s: Seq<char>, i: int)
    requires
        0 <= i <= s.len(),
    ensures
        digits_val(s.subrange(0, i)) <= digits_val(s),
    decreases s.len() - i,
{
    if i < s.len() {
        let t = s.subrange(0, i + 1);
        assert(t.drop_last() =~= s.subrange(0, i));
        lemma_digits_val_prefix_le(s, i + 1);
    } else {
        assert(s.subrange(0, i) =~= s);
    }
}

/// The digit string of the decimal numeral of `n` evaluates back to `n`.
pub proof fn lemma_dec_str_val(n: nat)
    ensures
        dec_str(n).len() >= 1,
        all_digits(dec_str(n)),
        digits_val(dec_str(n)) == n,
    decreases n,
{
    if n < 10 {
        let s = dec_str(n);
        assert(s =~= seq![digit_char(n)]);
        assert(s.drop_last() =~= Seq::<char>::empty());
        assert(is_digit_char(digit_char(n)));
        assert(digit_val(digit_char(n)) == n);
        assert(s[0] == digit_char(n));
        assert(s.last() == digit_char(n));
        assert(digits_val(s.drop_last()) == 0) by {
            assert(s.drop_last() =~= Seq::<char>::empty());
        }
        assert(digits_val(s) == digit_val(digit_char(n)));
        assert(forall|i: int| 0 <= i < s.len() ==> is_digit_char(#[trigger] s[i]));
    } else {
        lemma_dec_str_val(n / 10);
        let s = dec_str(n);
        assert(s.drop_last() =~= dec_str(n / 10));
        assert(s.last() == digit_char(n % 10));
        assert(is_digit_char(digit_char(n % 10)));
        assert(digit_val(digit_char(n % 10)) == n % 10);
        assert(digits_val(s) == (n / 10) * 10 + n % 10);
        assert((n / 10) * 10 + n % 10 == n) by (nonlinear_arith);
        assert(forall|i: int| 0 <= i < s.len() ==> is_digit_char(#[trigger] s[i]));
    }
}

/// Relies on String::push: appends exactly the given character.
#[verifier::external_body]
pub fn push_char(s: &mut String, c: char)
    ensures
        final(s)@ == old(s)@.push(c),
{
    s.push(c);
}

/// Relies on String::pop: removes and returns the last character, or leaves
/// an empty string unchanged and returns nothing.
#[verifier::external_body]
pub fn pop_char(s: &mut String) -> (r: Option<char>)
    ensures
        old(s)@.len() == 0 ==> final(s)@ == old(s)@ && r is None,
        old(s)@.len() > 0 ==> final(s)@ == old(s)@.drop_last() && r == Some(old(s)@.last()),
{
    s.pop()
}

/// The single-character string for a digit value.
pub fn digit_str(d: u64) -> (s: &'static str)
    requires
        d < 10,
    ensures
        s@ =~= seq![digit_char(d as nat)],
{
    proof {
        reveal_strlit("0");
        reveal_strlit("1");
        reveal_strlit("2");
        reveal_strlit("3");
        reveal_strlit("4");
        reveal_strlit("5");
        reveal_strlit("6");
        reveal_strlit("7");
        reveal_strlit("8");
        reveal_strlit("9");
    }
    if d == 0 {
        "0"
    } else if d == 1 {
        "1"
    } else if d == 2 {
        "2"
    } else if d == 3 {
        "3"
    } else if d == 4 {
        "4"
    } else if d == 5 {
        "5"
    } else if d == 6 {
        "6"
    } else if d == 7 {
        "7"
    } else if d == 8 {
        "8"
    } else {
        "9"
    }
}

/// The decimal numeral of `n` as a string.
pub fn fmt_u64(n: u64) -> (s: String)
    ensures
        s@ == dec_str(n as nat),
    decreases n,
{
    if n < 10 {
        String::from_str(digit_str(n))
    } else {
        assert(n / 10 < n) by (nonlinear_arith)
            requires n >= 10;
        let mut s = fmt_u64(n / 10);
        s.append(digit_str(n % 10));
        assert(s@ =~= dec_str((n / 10) as nat).push(digit_char((n % 10) as nat)));
        s
    }
}

/// Parses an unsigned decimal integer in the way the negotiation protocol
/// reads a lock duration: an optional leading `+`, then one or more digits,
/// nothing else, and a value that fits in 64 bits.
pub open spec fn numeral_digits(t: Seq<char>) -> Seq<char> {
    if t.len() > 0 && t[0] == '+' {
        t.subrange(1, t.len() as int)
    } else {
        t
    }
}

pub open spec fn is_u64_numeral(t: Seq<char>) -> bool {
    &&& numeral_digits(t).len() > 0
    &&& all_digits(numeral_digits(t))
    &&& digits_val(numeral_digits(t)) <= u64::MAX
}

pub open spec fn numeral_val(t: Seq<char>) -> nat {
    digits_val(numeral_digits(t))
}

/// Parses `t` as an unsigned 64-bit decimal integer, accepting an optional
/// leading `+` and rejecting anything else, as `is_u64_numeral` states.
pub fn parse_u64(t: &str) -> (r: Option<u64>)
    ensures
        match r {
            Some(v) => is_u64_numeral(t@) && v as nat == numeral_val(t@),
            None => !is_u64_numeral(t@),
        },
{
    let n = t.unicode_len();
    let mut i: usize = 0;
    if n > 0 && t.get_char(0) == '+' {
        i = 1;
    }
    let ghost digits = numeral_digits(t@);
    assert(digits =~= t@.subrange(i as int, n as int));
    if i == n {
        assert(digits.len() == 0);
        return None;
    }
    let mut acc: u64 = 0;
    let start = i;
    while i < n
        invariant
            n == t@.len(),
            start <= i <= n,
            start < n,
            digits == numeral_digits(t@),
            digits =~= t@.subrange(start as int, n as int),
            all_digits(digits.subrange(0, i - start)),
            acc as nat == digits_val(digits.subrange(0, i - start)),
        decreases n - i,
    {
        let c = t.get_char(i);
        if !is_digit_exec(c) {
            assert(digits[i - start] == c);
            assert(!all_digits(digits));
            assert(!is_u64_numeral(t@));
            return None;
        }
        let d: u64 = (c as u32 - 48) as u64;
        assert(d as nat == digit_val(c));
        let wide: u128 = acc as u128 * 10 + d as u128;
        proof {
            let pre = digits.subrange(0, i - start);
            let ext = digits.subrange(0, i - start + 1);
            assert(ext.drop_last() =~= pre);
            assert(ext.last() == c);
            assert(digits_val(ext) == digits_val(pre) * 10 + digit_val(c));
            assert forall|k: int| 0 <= k < ext.len() implies is_digit_char(#[trigger] ext[k]) by {
                if k < i - start {
                    assert(ext[k] == pre[k]);
                }
            }
        }
        if wide > u64::MAX as u128 {
            proof {
                lemma_digits_val_prefix_le(digits, i - start + 1);
                assert(digits_val(digits) > u64::MAX);
                assert(!is_u64_numeral(t@));
            }
            return None;
        }
        acc = wide as u64;
        i += 1;
    }
    assert(digits.subrange(0, n - start) =~= digits);
    Some(acc)
}

} // verus!
