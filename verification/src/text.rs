//! Character classes, trimming and decimal notation over sequences of
//! characters.

use vstd::prelude::*;
use vstd::string::*;

verus! {

/// Whether `c` has the Unicode property White_Space.
pub open spec fn is_space(c: char) -> bool {
    let n = c as u32;
    ||| 0x09 <= n <= 0x0d
    ||| n == 0x20
    ||| n == 0x85
    ||| n == 0xa0
    ||| n == 0x1680
    ||| 0x2000 <= n <= 0x200a
    ||| n == 0x2028
    ||| n == 0x2029
    ||| n == 0x202f
    ||| n == 0x205f
    ||| n == 0x3000
}

/// Whether `c` is one of the ten ASCII digits.
pub open spec fn is_digit(c: char) -> bool {
    0x30 <= c as u32 <= 0x39
}

/// The number that the ASCII digit `c` stands for.
pub open spec fn digit_value(c: char) -> nat {
    (c as u32 - 0x30) as nat
}

/// The ASCII digit that stands for `d`, for `d` below ten.
pub open spec fn digit_char(d: nat) -> char {
    (d + 0x30) as char
}

/// The first index at or after `from` that holds no white space.
pub open spec fn space_run(s: Seq<char>, from: int) -> int
    decreases s.len() - from,
{
    if 0 <= from < s.len() && is_space(s[from]) {
        space_run(s, from + 1)
    } else {
        from
    }
}

/// The least end of a suffix of `s[..to]` that is all white space.
pub open spec fn space_run_back(s: Seq<char>, to: int) -> int
    decreases to,
{
    if 0 < to <= s.len() && is_space(s[to - 1]) {
        space_run_back(s, to - 1)
    } else {
        to
    }
}

/// `s` without the white space at its two ends.
pub open spec fn trimmed(s: Seq<char>) -> Seq<char> {
    let a = space_run(s, 0);
    let b = space_run_back(s, s.len() as int);
    if a < b {
        s.subrange(a, b)
    } else {
        Seq::empty()
    }
}

/// The first index at or after `from` that holds no digit.
pub open spec fn digit_run(s: Seq<char>, from: int) -> int
    decreases s.len() - from,
{
    if 0 <= from < s.len() && is_digit(s[from]) {
        digit_run(s, from + 1)
    } else {
        from
    }
}

/// The number written in decimal by the digits `s[from..to]`.
pub open spec fn decimal_value(s: Seq<char>, from: int, to: int) -> nat
    decreases to - from,
{
    if to <= from {
        0
    } else {
        decimal_value(s, from, to - 1) * 10 + digit_value(s[to - 1])
    }
}

/// `n` in decimal, without leading zeros.
pub open spec fn decimal_text(n: nat) -> Seq<char>
    decreases n,
{
    if n < 10 {
        seq![digit_char(n)]
    } else {
        decimal_text(n / 10).push(digit_char(n % 10))
    }
}

/// Tells whether `c` is white space.
pub fn char_is_space(c: char) -> (r: bool)
    ensures
        r == is_space(c),
{
    let n: u32 = c as u32;
    (0x09 <= n && n <= 0x0d) || n == 0x20 || n == 0x85 || n == 0xa0 || n == 0x1680 || (0x2000 <= n
        && n <= 0x200a) || n == 0x2028 || n == 0x2029 || n == 0x202f || n == 0x205f || n == 0x3000
}

/// Tells whether `c` is an ASCII digit.
pub fn char_is_digit(c: char) -> (r: bool)
    ensures
        r == is_digit(c),
{
    let n: u32 = c as u32;
    0x30 <= n && n <= 0x39
}

/// The characters of `s`, in order.
pub fn chars_of(s: &str) -> (v: Vec<char>)
    ensures
        v@ == s@,
{
    broadcast use vstd::string::group_string_axioms;

    let mut v: Vec<char> = Vec::new();
    for c in it: s.chars()
        invariant
            v@ == it.history@,
            it.seq() == s@,
    {
        v.push(c);
    }
    assert(v@ =~= s@);
    v
}

/// White space at the end of a prefix never reaches past that prefix.
pub proof fn lemma_space_run_back_bound(s: Seq<char>, to: int)
    requires
        0 <= to <= s.len(),
    ensures
        0 <= space_run_back(s, to) <= to,
    decreases to,
{
    if 0 < to && is_space(s[to - 1]) {
        lemma_space_run_back_bound(s, to - 1);
    }
}

/// A run of white space ends at or after its start, within the text.
pub proof fn lemma_space_run_bound(s: Seq<char>, from: int)
    requires
        0 <= from <= s.len(),
    ensures
        from <= space_run(s, from) <= s.len(),
    decreases s.len() - from,
{
    if from < s.len() && is_space(s[from]) {
        lemma_space_run_bound(s, from + 1);
    }
}

/// The characters of `v` without the white space at its two ends.
pub fn trim_chars(v: &Vec<char>) -> (t: Vec<char>)
    ensures
        t@ == trimmed(v@),
{
    let n: usize = v.len();
    let mut a: usize = 0;
    while a < n && char_is_space(v[a])
        invariant
            a <= n,
            n == v.len(),
            space_run(v@, 0) == space_run(v@, a as int),
        decreases n - a,
    {
        a += 1;
    }
    let mut b: usize = n;
    while b > a && char_is_space(v[b - 1])
        invariant
            a <= b <= n,
            n == v.len(),
            a < n ==> !is_space(v@[a as int]),
            a == n || b > a,
            space_run_back(v@, n as int) == space_run_back(v@, b as int),
        decreases b,
    {
        b -= 1;
    }
    proof {
        lemma_space_run_back_bound(v@, n as int);
    }
    let mut t: Vec<char> = Vec::new();
    let mut i: usize = a;
    while i < b
        invariant
            a <= i <= b <= n,
            n == v.len(),
            t@ == v@.subrange(a as int, i as int),
        decreases b - i,
    {
        t.push(v[i]);
        i += 1;
        assert(t@ =~= v@.subrange(a as int, i as int));
    }
    assert(t@ =~= trimmed(v@));
    t
}

/// The end of the run of digits that starts at `from`.
pub fn scan_digits(t: &Vec<char>, from: usize) -> (k: usize)
    requires
        from <= t.len(),
    ensures
        k == digit_run(t@, from as int),
        from <= k <= t.len(),
        forall|x: int| from <= x < k ==> is_digit(#[trigger] t@[x]),
{
    let n: usize = t.len();
    let mut k: usize = from;
    while k < n && char_is_digit(t[k])
        invariant
            from <= k <= n,
            n == t.len(),
            digit_run(t@, from as int) == digit_run(t@, k as int),
            forall|x: int| from <= x < k ==> is_digit(#[trigger] t@[x]),
        decreases n - k,
    {
        k += 1;
    }
    k
}

/// The end of the run of white space that starts at `from`.
pub fn scan_spaces(t: &Vec<char>, from: usize) -> (k: usize)
    requires
        from <= t.len(),
    ensures
        k == space_run(t@, from as int),
        from <= k <= t.len(),
{
    let n: usize = t.len();
    let mut k: usize = from;
    while k < n && char_is_space(t[k])
        invariant
            from <= k <= n,
            n == t.len(),
            space_run(t@, from as int) == space_run(t@, k as int),
        decreases n - k,
    {
        k += 1;
    }
    k
}

/// The number written by digits depends on those digits alone.
pub proof fn lemma_decimal_value_of_equal_digits(a: Seq<char>, b: Seq<char>, from: int, to: int)
    requires
        0 <= from,
        to <= a.len(),
        to <= b.len(),
        forall|i: int| from <= i < to ==> a[i] == b[i],
    ensures
        decimal_value(a, from, to) == decimal_value(b, from, to),
    decreases to - from,
{
    if from < to {
        lemma_decimal_value_of_equal_digits(a, b, from, to - 1);
    }
}

/// The decimal notation of a number writes that number.
pub proof fn lemma_decimal_text_value(n: nat)
    ensures
        decimal_value(decimal_text(n), 0, decimal_text(n).len() as int) == n,
    decreases n,
{
    let whole = decimal_text(n);
    if n >= 10 {
        let head = decimal_text(n / 10);
        lemma_decimal_text_value(n / 10);
        lemma_decimal_value_of_equal_digits(whole, head, 0, head.len() as int);
        assert(whole.len() == head.len() + 1);
        assert(whole[whole.len() - 1] == digit_char(n % 10));
        assert(digit_value(digit_char(n % 10)) == n % 10);
        assert(decimal_value(whole, 0, whole.len() as int) == decimal_value(
            whole,
            0,
            whole.len() - 1,
        ) * 10 + digit_value(whole[whole.len() - 1]));
    } else {
        assert(whole.len() == 1);
        assert(digit_value(digit_char(n)) == n);
        assert(decimal_value(whole, 0, 0) == 0);
        assert(decimal_value(whole, 0, 1) == decimal_value(whole, 0, 0) * 10 + digit_value(
            whole[0],
        ));
    }
}

/// The number whose lowest digits are `low`, lowest first, and whose
/// higher digits write `high`.
pub open spec fn join_digits(high: nat, low: Seq<u8>) -> nat
    decreases low.len(),
{
    if low.len() == 0 {
        high
    } else {
        join_digits(high * 10 + low.last() as nat, low.drop_last())
    }
}

/// The text of one decimal digit.
pub fn digit_str(d: u64) -> (r: &'static str)
    requires
        d < 10,
    ensures
        r@ == seq![digit_char(d as nat)],
{
    proof {
        reveal_strlit("0");
        reveal_strlit("1");
        reveal_strlit("2");
        reveal_strlit("3");
        reveal_strlit("4");
        reveal_strlit("5");
        reveal_strlit("6");
        reveal_strlit("7");
        reveal_strlit("8");
        reveal_strlit("9");
    }
    let r = if d == 0 {
        "0"
    } else if d == 1 {
        "1"
    } else if d == 2 {
        "2"
    } else if d == 3 {
        "3"
    } else if d == 4 {
        "4"
    } else if d == 5 {
        "5"
    } else if d == 6 {
        "6"
    } else if d == 7 {
        "7"
    } else if d == 8 {
        "8"
    } else {
        "9"
    };
    assert(r@ =~= seq![digit_char(d as nat)]);
    r
}

/// Writes `n` in decimal at the end of `out`.
pub fn append_decimal(out: &mut String, n: u64)
    ensures
        final(out)@ == old(out)@ + decimal_text(n as nat),
    decreases n,
{
    if n >= 10 {
        append_decimal(out, n / 10);
    }
    out.append(digit_str(n % 10));
    assert(final(out)@ =~= old(out)@ + decimal_text(n as nat));
}

/// Decimal notation holds digits only.
pub proof fn lemma_decimal_text_digits(n: nat)
    ensures
        decimal_text(n).len() >= 1,
        forall|x: int| 0 <= x < decimal_text(n).len() ==> is_digit(#[trigger] decimal_text(n)[x]),
    decreases n,
{
    if n >= 10 {
        lemma_decimal_text_digits(n / 10);
    }
}

} // verus!
