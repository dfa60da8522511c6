//! The duration grammar: an optional count of days, then hours, minutes and
//! seconds separated by colons, then an optional fraction of a second.

use vstd::prelude::*;
use vstd::string::*;
use crate::text::{
    char_is_digit, chars_of, decimal_text, decimal_value, digit_char, digit_run, digit_str,
    is_digit, join_digits, lemma_decimal_text_digits, lemma_decimal_text_value,
    lemma_space_run_back_bound, lemma_space_run_bound, scan_digits, scan_spaces, space_run,
    trim_chars, trimmed,
};

verus! {

/// An elapsed time of any length, exact to the millisecond: the whole
/// seconds in decimal, and the milliseconds beyond them.
#[derive(Clone, Debug, PartialEq, Eq)]
pub struct DurationValue {
    /// The whole seconds, in decimal without leading zeros.
    pub seconds: String,
    /// The milliseconds beyond the whole seconds, below 1000.
    pub millis: u16,
}

impl View for DurationValue {
    type V = nat;

    /// The elapsed time in milliseconds.
    open spec fn view(&self) -> nat {
        decimal_value(self.seconds@, 0, self.seconds@.len() as int) * 1000 + self.millis as nat
    }
}

/// The three digits that write `millis` modulo 1000.
pub open spec fn millis_text(millis: nat) -> Seq<char> {
    let f = millis % 1000;
    seq![digit_char(f / 100), digit_char(f / 10 % 10), digit_char(f % 10)]
}

/// What follows the seconds, from `from` to the end of `t`: nothing, or a
/// point and one to three digits, read as a decimal fraction of a second and
/// counted in milliseconds.
pub open spec fn fraction_millis(t: Seq<char>, from: int) -> Option<nat> {
    let n = t.len() - from;
    if n == 0 {
        Some(0)
    } else if 2 <= n <= 4 && t[from] == '.' && digit_run(t, from + 1) == t.len() {
        let digits = decimal_value(t, from + 1, t.len() as int);
        Some(
            if n == 2 {
                digits * 100
            } else if n == 3 {
                digits * 10
            } else {
                digits
            },
        )
    } else {
        None
    }
}

/// The clock part of the grammar, from `from` to the end of `t`: one to
/// three digits of hours, a colon, two digits of minutes, a colon, two
/// digits of seconds and the optional fraction; in milliseconds.
pub open spec fn clock_millis(t: Seq<char>, from: int) -> Option<nat> {
    let k = digit_run(t, from);
    if 1 <= k - from <= 3 && k + 6 <= t.len() && t[k] == ':' && is_digit(t[k + 1]) && is_digit(
        t[k + 2],
    ) && t[k + 3] == ':' && is_digit(t[k + 4]) && is_digit(t[k + 5]) {
        match fraction_millis(t, k + 6) {
            Some(f) => Some(
                decimal_value(t, from, k) * 3_600_000 + decimal_value(t, k + 1, k + 3) * 60_000
                    + decimal_value(t, k + 4, k + 6) * 1_000 + f,
            ),
            None => None,
        }
    } else {
        None
    }
}

/// The whole grammar on a text without white space at its ends. A run of
/// digits followed by the letter d, in either case, is a count of days; at
/// least one white space must part it from the clock.
pub open spec fn grammar_millis(t: Seq<char>) -> Option<nat> {
    let i = digit_run(t, 0);
    if i < t.len() && (t[i] == 'd' || t[i] == 'D') {
        let j = space_run(t, i + 1);
        if i >= 1 && j > i + 1 {
            match clock_millis(t, j) {
                Some(c) => Some(decimal_value(t, 0, i) * 86_400_000 + c),
                None => None,
            }
        } else {
            None
        }
    } else {
        clock_millis(t, 0)
    }
}

/// The milliseconds that `s` states, if `s` is a duration. White space
/// around the duration is ignored.
pub open spec fn duration_millis(s: Seq<char>) -> Option<nat> {
    grammar_millis(trimmed(s))
}

/// Seconds with six decimal places: the whole seconds, a point, the three
/// digits of the milliseconds and three zeros.
pub open spec fn canonical_text(millis: nat) -> Seq<char> {
    decimal_text(millis / 1000) + seq!['.'] + millis_text(millis) + seq!['0', '0', '0']
}

/// The number written by at most three digits.
fn read_short(t: &Vec<char>, from: usize, to: usize) -> (r: u64)
    requires
        from <= to <= t.len(),
        to - from <= 3,
        forall|x: int| from <= x < to ==> is_digit(#[trigger] t@[x]),
    ensures
        r == decimal_value(t@, from as int, to as int),
        r <= 999,
{
    let mut acc: u64 = 0;
    let mut i: usize = from;
    while i < to
        invariant
            from <= i <= to <= t.len(),
            to - from <= 3,
            forall|x: int| from <= x < to ==> is_digit(#[trigger] t@[x]),
            acc == decimal_value(t@, from as int, i as int),
            i - from == 0 ==> acc == 0,
            i - from == 1 ==> acc <= 9,
            i - from == 2 ==> acc <= 99,
            i - from == 3 ==> acc <= 999,
        decreases to - i,
    {
        let d: u64 = (t[i] as u32 - 0x30) as u64;
        acc = acc * 10 + d;
        i += 1;
    }
    acc
}

/// Reads what follows the seconds: nothing, or a point and one to three
/// digits.
fn read_fraction(t: &Vec<char>, from: usize) -> (r: Option<u64>)
    requires
        from <= t.len(),
    ensures
        match r {
            Some(f) => fraction_millis(t@, from as int) == Some(f as nat) && f <= 999,
            None => fraction_millis(t@, from as int) is None,
        },
{
    let n: usize = t.len() - from;
    if n == 0 {
        return Some(0);
    }
    if n < 2 || n > 4 || t[from] != '.' {
        return None;
    }
    let end: usize = scan_digits(t, from + 1);
    if end != t.len() {
        return None;
    }
    let digits: u64 = read_short(t, from + 1, end);
    proof {
        lemma_short_bound(t@, from as int + 1, end as int);
    }
    if n == 2 {
        Some(digits * 100)
    } else if n == 3 {
        Some(digits * 10)
    } else {
        Some(digits)
    }
}

/// One digit writes less than ten, two less than a hundred, three less than
/// a thousand.
proof fn lemma_short_bound(s: Seq<char>, from: int, to: int)
    requires
        0 <= from <= to <= s.len(),
        to - from <= 3,
        forall|x: int| from <= x < to ==> is_digit(#[trigger] s[x]),
    ensures
        to - from == 1 ==> decimal_value(s, from, to) <= 9,
        to - from == 2 ==> decimal_value(s, from, to) <= 99,
        to - from == 3 ==> decimal_value(s, from, to) <= 999,
{
    reveal_with_fuel(decimal_value, 4);
}

/// Reads hours, minutes, seconds and the optional fraction, from `from` to
/// the end.
fn read_clock(t: &Vec<char>, from: usize) -> (r: Option<u64>)
    requires
        from <= t.len(),
    ensures
        match r {
            Some(c) => clock_millis(t@, from as int) == Some(c as nat) && c <= 4_000_000_000,
            None => clock_millis(t@, from as int) is None,
        },
{
    let k: usize = scan_digits(t, from);
    if k - from < 1 || k - from > 3 || t.len() - k < 6 {
        return None;
    }
    if t[k] != ':' || !char_is_digit(t[k + 1]) || !char_is_digit(t[k + 2]) || t[k + 3] != ':'
        || !char_is_digit(t[k + 4]) || !char_is_digit(t[k + 5]) {
        return None;
    }
    let hours: u64 = read_short(t, from, k);
    let minutes: u64 = read_short(t, k + 1, k + 3);
    let seconds: u64 = read_short(t, k + 4, k + 6);
    proof {
        lemma_short_bound(t@, k as int + 1, k as int + 3);
        lemma_short_bound(t@, k as int + 4, k as int + 6);
    }
    match read_fraction(t, k + 6) {
        Some(f) => Some(hours * 3_600_000 + minutes * 60_000 + seconds * 1_000 + f),
        None => None,
    }
}

/// The seconds of `days` days and `clock_seconds` seconds.
pub open spec fn total_seconds(days: nat, clock_seconds: nat) -> nat {
    days * 86_400 + clock_seconds
}

/// Writes in decimal the days `t[..days_end]` as seconds, plus
/// `clock_seconds`: the digits of the days are multiplied by 86400 from the
/// lowest up, so the days may be of any length.
fn seconds_text(t: &Vec<char>, days_end: usize, clock_seconds: u64) -> (r: String)
    requires
        days_end <= t.len(),
        forall|x: int| 0 <= x < days_end ==> is_digit(#[trigger] t@[x]),
        clock_seconds <= 4_000_000,
    ensures
        r@ == decimal_text(
            total_seconds(decimal_value(t@, 0, days_end as int), clock_seconds as nat),
        ),
{
    let ghost total: nat = total_seconds(
        decimal_value(t@, 0, days_end as int),
        clock_seconds as nat,
    );
    let mut low: Vec<u8> = Vec::new();
    let mut carry: u64 = clock_seconds;
    let mut j: usize = days_end;
    while j > 0
        invariant
            j <= days_end <= t.len(),
            forall|x: int| 0 <= x < days_end ==> is_digit(#[trigger] t@[x]),
            carry <= 4_000_000,
            forall|x: int| 0 <= x < low.len() ==> #[trigger] low@[x] < 10,
            join_digits(total_seconds(decimal_value(t@, 0, j as int), carry as nat), low@)
                == total,
        decreases j,
    {
        let d: u64 = (t[j - 1] as u32 - 0x30) as u64;
        let step: u64 = d * 86_400 + carry;
        let ghost before = low@;
        low.push((step % 10) as u8);
        carry = step / 10;
        j -= 1;
        assert(low@.drop_last() =~= before);
    }
    while carry > 0
        invariant
            forall|x: int| 0 <= x < low.len() ==> #[trigger] low@[x] < 10,
            join_digits(carry as nat, low@) == total,
        decreases carry,
    {
        let ghost before = low@;
        low.push((carry % 10) as u8);
        carry = carry / 10;
        assert(low@.drop_last() =~= before);
    }
    while low.len() > 0 && low[low.len() - 1] == 0
        invariant
            forall|x: int| 0 <= x < low.len() ==> #[trigger] low@[x] < 10,
            join_digits(0, low@) == total,
        decreases low.len(),
    {
        low.pop();
    }
    let mut out = String::new();
    if low.len() == 0 {
        out.append("0");
        proof {
            reveal_strlit("0");
        }
        assert(out@ =~= decimal_text(total));
        return out;
    }
    let mut k: usize = low.len() - 1;
    let ghost mut high: nat = low@[k as int] as nat;
    out.append(digit_str(low[k] as u64));
    assert(low@.take(k as int) =~= low@.drop_last());
    assert(out@ =~= decimal_text(high));
    while k > 0
        invariant
            k < low.len(),
            forall|x: int| 0 <= x < low.len() ==> #[trigger] low@[x] < 10,
            high >= 1,
            out@ == decimal_text(high),
            join_digits(high, low@.take(k as int)) == total,
        decreases k,
    {
        k -= 1;
        out.append(digit_str(low[k] as u64));
        proof {
            assert(low@.take(k as int + 1).drop_last() =~= low@.take(k as int));
            assert(low@.take(k as int + 1).last() == low@[k as int]);
            high = high * 10 + low@[k as int] as nat;
        }
        assert(out@ =~= decimal_text(high));
    }
    out
}

/// Reads a duration from characters that have no white space at their
/// ends: `Some` exactly where they follow the grammar, with the value that
/// they state.
pub fn parse_trimmed(t: &Vec<char>) -> (r: Option<DurationValue>)
    ensures
        match r {
            Some(d) => d.wf() && grammar_millis(t@) == Some(d@),
            None => grammar_millis(t@) is None,
        },
{
    let i: usize = scan_digits(t, 0);
    let with_days: bool = i < t.len() && (t[i] == 'd' || t[i] == 'D');
    let from: usize = if with_days {
        let j: usize = scan_spaces(t, i + 1);
        if i < 1 || j <= i + 1 {
            return None;
        }
        j
    } else {
        0
    };
    let days_end: usize = if with_days {
        i
    } else {
        0
    };
    let clock: u64 = match read_clock(t, from) {
        Some(c) => c,
        None => { return None; },
    };
    let seconds = seconds_text(t, days_end, clock / 1000);
    let value = DurationValue { seconds, millis: (clock % 1000) as u16 };
    proof {
        lemma_decimal_text_value(
            total_seconds(decimal_value(t@, 0, days_end as int), (clock / 1000) as nat),
        );
    }
    Some(value)
}

/// Reads a duration: `Some` exactly where `s`, without the white space
/// around it, follows the grammar, with the value that it states, however
/// many the days.
pub fn parse_duration_to_seconds(s: &str) -> (r: Option<DurationValue>)
    ensures
        r is Some <==> duration_millis(s@) is Some,
        r matches Some(d) ==> d.wf() && duration_millis(s@) == Some(d@),
{
    let chars = chars_of(s);
    let t = trim_chars(&chars);
    parse_trimmed(&t)
}

impl DurationValue {
    /// Whether the value is well formed: the seconds are a number in
    /// decimal without leading zeros, and the milliseconds are below 1000.
    pub open spec fn wf(&self) -> bool {
        &&& self.millis < 1000
        &&& self.seconds@ == decimal_text(
            decimal_value(self.seconds@, 0, self.seconds@.len() as int),
        )
    }

    /// The canonical text: seconds with six decimal places.
    pub fn to_canonical(&self) -> (r: String)
        ensures
            r@ == self.seconds@ + seq!['.'] + millis_text(self.millis as nat) + seq!['0', '0', '0'],
            self.wf() ==> r@ == canonical_text(self@),
    {
        let f: u64 = (self.millis % 1000) as u64;
        let mut out = self.seconds.clone();
        out.append(".");
        out.append(digit_str(f / 100));
        out.append(digit_str(f / 10 % 10));
        out.append(digit_str(f % 10));
        out.append("000");
        proof {
            reveal_strlit(".");
            reveal_strlit("000");
        }
        assert(out@ =~= self.seconds@ + seq!['.'] + millis_text(self.millis as nat) + seq![
            '0',
            '0',
            '0',
        ]);
        out
    }
}

/// A well-formed value is fixed by the milliseconds it stands for: its
/// seconds are their whole seconds in decimal, its milliseconds the rest.
pub proof fn lemma_value_is_determined(d: DurationValue)
    requires
        d.wf(),
    ensures
        d.seconds@ == decimal_text(d@ / 1000),
        d.millis as nat == d@ % 1000,
{
}

/// A text without a colon states no duration.
pub proof fn lemma_no_colon_no_duration(s: Seq<char>)
    requires
        forall|x: int| 0 <= x < s.len() ==> #[trigger] s[x] != ':',
    ensures
        duration_millis(s) is None,
{
    let t = trimmed(s);
    lemma_space_run_bound(s, 0);
    lemma_space_run_back_bound(s, s.len() as int);
    assert(forall|x: int| 0 <= x < t.len() ==> #[trigger] t[x] != ':');
}

/// The canonical text of any duration states no duration itself: the
/// rewrite never reads its own output as input.
pub proof fn lemma_canonical_is_no_duration(millis: nat)
    ensures
        duration_millis(canonical_text(millis)) is None,
{
    lemma_decimal_text_digits(millis / 1000);
    let c = canonical_text(millis);
    assert forall|x: int| 0 <= x < c.len() implies #[trigger] c[x] != ':' by {
        let w = decimal_text(millis / 1000);
        if x < w.len() {
            assert(c[x] == w[x]);
        }
    }
    lemma_no_colon_no_duration(c);
}

} // verus!
