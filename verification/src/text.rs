//! Text shown to the player: decimal and hexadecimal numbers, race
//! positions, and lap times as `MM:SS.hh`.

use vstd::prelude::*;

verus! {

/// The character of a decimal digit.
pub open spec fn digit_char(d: nat) -> char {
    if d == 0 {
        '0'
    } else if d == 1 {
        '1'
    } else if d == 2 {
        '2'
    } else if d == 3 {
        '3'
    } else if d == 4 {
        '4'
    } else if d == 5 {
        '5'
    } else if d == 6 {
        '6'
    } else if d == 7 {
        '7'
    } else if d == 8 {
        '8'
    } else {
        '9'
    }
}

/// The character of a lowercase hexadecimal digit.
pub open spec fn hex_char(d: nat) -> char {
    if d == 0 {
        '0'
    } else if d == 1 {
        '1'
    } else if d == 2 {
        '2'
    } else if d == 3 {
        '3'
    } else if d == 4 {
        '4'
    } else if d == 5 {
        '5'
    } else if d == 6 {
        '6'
    } else if d == 7 {
        '7'
    } else if d == 8 {
        '8'
    } else if d == 9 {
        '9'
    } else if d == 10 {
        'a'
    } else if d == 11 {
        'b'
    } else if d == 12 {
        'c'
    } else if d == 13 {
        'd'
    } else if d == 14 {
        'e'
    } else {
        'f'
    }
}

/// Decimal digits of `n`, most significant first, no leading zeros.
pub open spec fn decimal(n: nat) -> Seq<char>
    decreases n,
{
    if n < 10 {
        seq![digit_char(n)]
    } else {
        decimal(n / 10).push(digit_char(n % 10))
    }
}

/// `s` left-padded with zeros to at least two characters (`{:02}`).
pub open spec fn pad2(s: Seq<char>) -> Seq<char> {
    if s.len() < 2 {
        seq!['0'] + s
    } else {
        s
    }
}

/// The lowest `k` hexadecimal digits of `n`, most significant first.
pub open spec fn hex_digits(n: nat, k: nat) -> Seq<char>
    decreases k,
{
    if k == 0 {
        Seq::empty()
    } else {
        hex_digits(n / 16, (k - 1) as nat).push(hex_char(n % 16))
    }
}

proof fn lemma_decimal_len(n: nat)
    ensures
        decimal(n).len() >= 1,
    decreases n,
{
    if n >= 10 {
        lemma_decimal_len((n / 10) as nat);
    }
}

/// One decimal digit as a string.
pub fn digit_str(d: u64) -> (s: &'static str)
    requires
        d < 10,
    ensures
        s@ == seq![digit_char(d as nat)],
{
    proof {
        reveal_strlit("0");
        reveal_strlit("1");
        reveal_strlit("2");
        reveal_strlit("3");
        reveal_strlit("4");
        reveal_strlit("5");
        reveal_strlit("6");
        reveal_strlit("7");
        reveal_strlit("8");
        reveal_strlit("9");
    }
    match d {
        0 => "0",
        1 => "1",
        2 => "2",
        3 => "3",
        4 => "4",
        5 => "5",
        6 => "6",
        7 => "7",
        8 => "8",
        9 => "9",
        _ => "9",
    }
}

/// One lowercase hexadecimal digit as a string.
pub fn hex_str(d: u64) -> (s: &'static str)
    requires
        d < 16,
    ensures
        s@ == seq![hex_char(d as nat)],
{
    proof {
        reveal_strlit("0");
        reveal_strlit("1");
        reveal_strlit("2");
        reveal_strlit("3");
        reveal_strlit("4");
        reveal_strlit("5");
        reveal_strlit("6");
        reveal_strlit("7");
        reveal_strlit("8");
        reveal_strlit("9");
        reveal_strlit("a");
        reveal_strlit("b");
        reveal_strlit("c");
        reveal_strlit("d");
        reveal_strlit("e");
        reveal_strlit("f");
    }
    match d {
        0 => "0",
        1 => "1",
        2 => "2",
        3 => "3",
        4 => "4",
        5 => "5",
        6 => "6",
        7 => "7",
        8 => "8",
        9 => "9",
        10 => "a",
        11 => "b",
        12 => "c",
        13 => "d",
        14 => "e",
        15 => "f",
        _ => "f",
    }
}

/// Decimal text of `n` (`{}`).
pub fn decimal_string(n: u64) -> (s: String)
    ensures
        s@ == decimal(n as nat),
    decreases n,
{
    if n < 10 {
        let mut s = String::new();
        s.append(digit_str(n));
        proof {
            assert(s@ =~= decimal(n as nat));
        }
        s
    } else {
        let mut s = decimal_string(n / 10);
        s.append(digit_str(n % 10));
        s
    }
}

/// Decimal text of `n`, at least two characters (`{:02}`).
pub fn padded2(n: u64) -> (s: String)
    ensures
        s@ == pad2(decimal(n as nat)),
{
    let d = decimal_string(n);
    if n < 10 {
        let mut s = String::new();
        s.append("0");
        s.append(d.as_str());
        proof {
            reveal_strlit("0");
            assert(s@ =~= pad2(decimal(n as nat)));
        }
        s
    } else {
        proof {
            lemma_decimal_len((n / 10) as nat);
        }
        d
    }
}

/// The lowest `k` hexadecimal digits of `n`, zero-padded.
fn hex_fixed(n: u64, k: u64) -> (s: String)
    requires
        k <= 16,
    ensures
        s@ == hex_digits(n as nat, k as nat),
    decreases k,
{
    if k == 0 {
        let s = String::new();
        proof {
            assert(s@ =~= hex_digits(n as nat, 0));
        }
        s
    } else {
        let mut s = hex_fixed(n / 16, k - 1);
        s.append(hex_str(n % 16));
        s
    }
}

/// Sixteen lowercase hexadecimal digits of `n` (`{:016x}`).
pub fn hex16(n: u64) -> (s: String)
    ensures
        s@ == hex_digits(n as nat, 16),
{
    hex_fixed(n, 16)
}

/// Ordinal text of a race position: `1st`, `2nd`, `3rd`, then `Nth`.
pub open spec fn ordinal_text(position: nat) -> Seq<char> {
    if position == 1 {
        seq!['1', 's', 't']
    } else if position == 2 {
        seq!['2', 'n', 'd']
    } else if position == 3 {
        seq!['3', 'r', 'd']
    } else {
        decimal(position) + seq!['t', 'h']
    }
}

/// A position with its ordinal suffix.
pub fn ordinal(position: usize) -> (s: String)
    ensures
        s@ == ordinal_text(position as nat),
{
    proof {
        reveal_strlit("1st");
        reveal_strlit("2nd");
        reveal_strlit("3rd");
        reveal_strlit("th");
    }
    if position == 1 {
        String::from_str("1st")
    } else if position == 2 {
        String::from_str("2nd")
    } else if position == 3 {
        String::from_str("3rd")
    } else {
        let mut s = decimal_string(position as u64);
        s.append("th");
        s
    }
}

/// `MM:SS.hh` for a duration of `total` hundredths of a second: minutes,
/// seconds within the minute and hundredths, each at least two digits.
pub open spec fn time_text(total: nat) -> Seq<char> {
    let hundredths = total % 100;
    let total_seconds = total / 100;
    let secs = total_seconds % 60;
    let mins = total_seconds / 60;
    pad2(decimal(mins)) + seq![':'] + pad2(decimal(secs)) + seq!['.'] + pad2(decimal(hundredths))
}

/// The placeholder shown where no lap time exists yet.
pub open spec fn no_time_text() -> Seq<char> {
    seq!['-', '-', ':', '-', '-', '.', '-', '-']
}

/// An optional lap time, or the placeholder.
pub open spec fn opt_time_text(total: Option<u32>) -> Seq<char> {
    match total {
        Some(t) => time_text(t as nat),
        None => no_time_text(),
    }
}

/// Formats a duration given in hundredths of a second as `MM:SS.hh`.
pub fn format_time(total_hundredths: u32) -> (s: String)
    ensures
        s@ == time_text(total_hundredths as nat),
{
    let hundredths = total_hundredths % 100;
    let total_seconds = total_hundredths / 100;
    let secs = total_seconds % 60;
    let mins = total_seconds / 60;
    let mut s = padded2(mins as u64);
    s.append(":");
    s.append(padded2(secs as u64).as_str());
    s.append(".");
    s.append(padded2(hundredths as u64).as_str());
    proof {
        reveal_strlit(":");
        reveal_strlit(".");
    }
    s
}

/// Formats an optional lap time, showing `--:--.--` when there is none.
pub fn format_opt_lap_time(total_hundredths: Option<u32>) -> (s: String)
    ensures
        s@ == opt_time_text(total_hundredths),
{
    match total_hundredths {
        Some(t) => format_time(t),
        None => {
            proof {
                reveal_strlit("--:--.--");
            }
            String::from_str("--:--.--")
        },
    }
}

/// The menu line naming the saved best lap as the target to beat.
pub open spec fn best_target_text(saved: Option<u32>) -> Seq<char> {
    match saved {
        Some(t) => "TARGET TO BEAT — BEST "@ + time_text(t as nat),
        None => "TARGET TO BEAT — no best lap yet"@,
    }
}

/// Formats the menu target line from the saved best lap.
pub fn format_best_target(saved: Option<u32>) -> (s: String)
    ensures
        s@ == best_target_text(saved),
{
    match saved {
        Some(t) => {
            let mut s = String::from_str("TARGET TO BEAT — BEST ");
            s.append(format_time(t).as_str());
            s
        },
        None => String::from_str("TARGET TO BEAT — no best lap yet"),
    }
}

proof fn lemma_two_digits(n: nat)
    requires
        n < 100,
    ensures
        pad2(decimal(n)).len() == 2,
{
    if n >= 10 {
        assert(decimal(n / 10).len() == 1);
    }
}

/// A duration under a hundred minutes reads `MM:SS.hh`: eight characters,
/// a colon after the minutes and a point after the seconds.
pub proof fn time_text_reads_mm_ss_hh(total: nat)
    requires
        total < 600000,
    ensures
        time_text(total).len() == 8,
        time_text(total)[2] == ':',
        time_text(total)[5] == '.',
{
    lemma_two_digits(total % 100);
    lemma_two_digits((total / 100) % 60);
    lemma_two_digits((total / 100) / 60);
}

/// `16^k`.
pub open spec fn pow16(k: nat) -> nat
    decreases k,
{
    if k == 0 {
        1
    } else {
        16 * pow16((k - 1) as nat)
    }
}

proof fn lemma_hex_len(n: nat, k: nat)
    ensures
        hex_digits(n, k).len() == k,
    decreases k,
{
    if k > 0 {
        lemma_hex_len(n / 16, (k - 1) as nat);
    }
}

proof fn lemma_hex_char_injective(a: nat, b: nat)
    requires
        a < 16,
        b < 16,
        hex_char(a) == hex_char(b),
    ensures
        a == b,
{
}

/// The lowest `k` hexadecimal digits determine a number below `16^k`.
pub proof fn hex_digits_are_injective(n: nat, m: nat, k: nat)
    requires
        n < pow16(k),
        m < pow16(k),
        hex_digits(n, k) == hex_digits(m, k),
    ensures
        n == m,
    decreases k,
{
    if k > 0 {
        let a = hex_digits(n / 16, (k - 1) as nat);
        let b = hex_digits(m / 16, (k - 1) as nat);
        lemma_hex_len(n / 16, (k - 1) as nat);
        lemma_hex_len(m / 16, (k - 1) as nat);
        assert(hex_digits(n, k).drop_last() =~= a);
        assert(hex_digits(m, k).drop_last() =~= b);
        assert(hex_digits(n, k).last() == hex_char(n % 16));
        assert(hex_digits(m, k).last() == hex_char(m % 16));
        lemma_hex_char_injective(n % 16, m % 16);
        hex_digits_are_injective(n / 16, m / 16, (k - 1) as nat);
    }
}

} // verus!
