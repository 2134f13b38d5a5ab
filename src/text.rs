//! Text helpers, and human-readable text for byte counts and durations.
use vstd::arithmetic::div_mod::lemma_div_is_ordered;
use vstd::prelude::*;

verus! {

/// The text of one decimal digit.
pub open spec fn digit_text(d: int) -> Seq<char> {
    if d == 0 {
        "0"@
    } else if d == 1 {
        "1"@
    } else if d == 2 {
        "2"@
    } else if d == 3 {
        "3"@
    } else if d == 4 {
        "4"@
    } else if d == 5 {
        "5"@
    } else if d == 6 {
        "6"@
    } else if d == 7 {
        "7"@
    } else if d == 8 {
        "8"@
    } else {
        "9"@
    }
}

/// The decimal text of a natural number, without leading zeros.
pub open spec fn dec(n: nat) -> Seq<char>
    decreases n,
{
    if n < 10 {
        digit_text(n as int)
    } else {
        dec(n / 10) + digit_text((n % 10) as int)
    }
}

/// The decimal text of an integer, with a leading `-` when it is negative.
pub open spec fn int_text(n: int) -> Seq<char> {
    if n < 0 {
        "-"@ + dec((-n) as nat)
    } else {
        dec(n as nat)
    }
}

/// Two decimal digits, with a leading zero below ten.
pub open spec fn pad2(n: nat) -> Seq<char> {
    digit_text((n / 10) as int) + digit_text((n % 10) as int)
}

/// A count of hundredths written with two decimals (`105` is `1.05`).
pub open spec fn hundredths_text(h: nat) -> Seq<char> {
    dec(h / 100) + "."@ + pad2(h % 100)
}

/// Which unit a byte count is shown in: 0 bytes, 1 KB, 2 MB, 3 GB.
pub open spec fn byte_unit(b: int) -> int {
    if b < 1000 {
        0
    } else if b < 1000_000 {
        1
    } else if b < 1000_000_000 {
        2
    } else {
        3
    }
}

/// The number of bytes in one hundredth of a unit.
pub open spec fn hundredth_of_unit(unit: int) -> int {
    if unit == 1 {
        10
    } else if unit == 2 {
        10_000
    } else {
        10_000_000
    }
}

/// The amount that is shown for a byte count: the count itself in bytes,
/// else the count in hundredths of its unit, rounded half up.
pub open spec fn byte_amount(b: int) -> int {
    let u = byte_unit(b);
    if u == 0 {
        b
    } else {
        (b + hundredth_of_unit(u) / 2) / hundredth_of_unit(u)
    }
}

/// The text of a byte count: whole bytes below a thousand, else kilobytes,
/// megabytes or gigabytes (powers of a thousand) with two decimals.
pub open spec fn bytes_text(b: int) -> Seq<char> {
    let u = byte_unit(b);
    if u == 0 {
        int_text(b) + " bytes"@
    } else if u == 1 {
        hundredths_text(byte_amount(b) as nat) + " KB"@
    } else if u == 2 {
        hundredths_text(byte_amount(b) as nat) + " MB"@
    } else {
        hundredths_text(byte_amount(b) as nat) + " GB"@
    }
}

/// The text of a duration in seconds: `N seconds` below a minute,
/// `M:SS` below an hour, else `H:MM:SS`.
pub open spec fn time_text(secs: int) -> Seq<char> {
    if secs < 60 {
        int_text(secs) + " seconds"@
    } else if secs < 3600 {
        dec((secs / 60) as nat) + ":"@ + pad2((secs % 60) as nat)
    } else {
        dec((secs / 3600) as nat) + ":"@ + pad2((secs % 3600 / 60) as nat) + ":"@ + pad2(
            (secs % 60) as nat,
        )
    }
}

/// The magnitude that the text of a byte count shows, in bytes: the amount
/// times the weight of its unit.
pub open spec fn shown_value(b: int) -> int {
    if byte_unit(b) == 0 {
        b
    } else {
        byte_amount(b) * hundredth_of_unit(byte_unit(b))
    }
}

/// A larger byte count is never shown as a smaller magnitude.
pub proof fn lemma_bytes_shown_value_monotonic(a: int, b: int)
    requires
        a <= b,
    ensures
        shown_value(a) <= shown_value(b),
{
    lemma_bytes_display_monotonic(a, b);
    let ua = byte_unit(a);
    let ub = byte_unit(b);
    if ua == ub {
        if ua != 0 {
            let h = hundredth_of_unit(ua);
            assert(byte_amount(a) * h <= byte_amount(b) * h) by (nonlinear_arith)
                requires
                    byte_amount(a) <= byte_amount(b),
                    h > 0,
            ;
        }
    } else {
        // a's magnitude is at most the least count of the next unit, which
        // b's magnitude is at least.
        let ma = byte_amount(a);
        let mb = byte_amount(b);
        if ua == 1 {
            lemma_div_is_ordered(a + 5, 1000_004, 10);
            assert(shown_value(a) == ma * 10);
            assert(shown_value(a) <= 1000_000);
        } else if ua == 2 {
            lemma_div_is_ordered(a + 5000, 1000_004_999, 10_000);
            assert(shown_value(a) == ma * 10_000);
            assert(shown_value(a) <= 1000_000_000);
        }
        if ub == 1 {
            lemma_div_is_ordered(1005, b + 5, 10);
            assert(shown_value(b) == mb * 10);
            assert(shown_value(b) >= 1000);
        } else if ub == 2 {
            lemma_div_is_ordered(1_005_000, b + 5000, 10_000);
            assert(shown_value(b) == mb * 10_000);
            assert(shown_value(b) >= 1000_000);
        } else if ub == 3 {
            lemma_div_is_ordered(1_005_000_000, b + 5000_000, 10_000_000);
            assert(shown_value(b) == mb * 10_000_000);
            assert(shown_value(b) >= 1000_000_000);
        }
    }
}

/// A larger byte count is never shown in a smaller unit, and within one
/// unit it is never shown as a smaller amount.
pub proof fn lemma_bytes_display_monotonic(a: int, b: int)
    requires
        a <= b,
    ensures
        byte_unit(a) <= byte_unit(b),
        byte_unit(a) == byte_unit(b) ==> byte_amount(a) <= byte_amount(b),
{
    let u = byte_unit(a);
    if u == byte_unit(b) && u != 0 {
        let h = hundredth_of_unit(u);
        lemma_div_is_ordered(a + h / 2, b + h / 2, h);
    }
}

fn digit_str(d: u64) -> (r: &'static str)
    requires
        d < 10,
    ensures
        r@ == digit_text(d as int),
{
    match d {
        0 => "0",
        1 => "1",
        2 => "2",
        3 => "3",
        4 => "4",
        5 => "5",
        6 => "6",
        7 => "7",
        8 => "8",
        _ => "9",
    }
}

/// Appends the decimal text of `n`.
pub fn push_decimal(s: &mut String, n: u64)
    ensures
        final(s)@ == old(s)@ + dec(n as nat),
    decreases n,
{
    if n >= 10 {
        push_decimal(s, n / 10);
        s.append(digit_str(n % 10));
        assert(final(s)@ == old(s)@ + dec(n as nat)) by {
            assert(dec(n as nat) == dec((n / 10) as nat) + digit_text((n % 10) as int));
        }
    } else {
        s.append(digit_str(n));
    }
}

fn push_int(s: &mut String, n: i64)
    ensures
        final(s)@ == old(s)@ + int_text(n as int),
{
    if n < 0 {
        s.append("-");
        let m: u64 = if n == i64::MIN {
            9_223_372_036_854_775_808u64
        } else {
            (-n) as u64
        };
        push_decimal(s, m);
    } else {
        push_decimal(s, n as u64);
    }
}

fn push_pad2(s: &mut String, n: u64)
    requires
        n < 100,
    ensures
        final(s)@ == old(s)@ + pad2(n as nat),
{
    s.append(digit_str(n / 10));
    s.append(digit_str(n % 10));
}

fn push_hundredths(s: &mut String, h: u64)
    ensures
        final(s)@ == old(s)@ + hundredths_text(h as nat),
{
    push_decimal(s, h / 100);
    s.append(".");
    push_pad2(s, h % 100);
}

/// The text of a byte count, as a progress display shows it:
/// `999 bytes`, `1.00 KB`, `1.05 MB`, `2.15 GB`. Amounts are computed on
/// integers and an exact half rounds up, so 1005 bytes is `1.01 KB`;
/// formatting the quotient as a binary float would show `1.00 KB`, since
/// 1.005 has no exact binary form.
pub fn format_bytes(bytes: i32) -> (r: String)
    ensures
        r@ == bytes_text(bytes as int),
{
    let mut s = String::new();
    if bytes < 1000 {
        push_int(&mut s, bytes as i64);
        s.append(" bytes");
    } else {
        let b = bytes as u64;
        if b < 1000_000 {
            push_hundredths(&mut s, (b + 5) / 10);
            s.append(" KB");
        } else if b < 1000_000_000 {
            push_hundredths(&mut s, (b + 5000) / 10_000);
            s.append(" MB");
        } else {
            push_hundredths(&mut s, (b + 5000_000) / 10_000_000);
            s.append(" GB");
        }
    }
    s
}

/// Appends the text of a duration of `secs` seconds.
pub fn push_duration(s: &mut String, secs: u64)
    ensures
        final(s)@ == old(s)@ + time_text(secs as int),
{
    if secs < 60 {
        push_decimal(s, secs);
        s.append(" seconds");
    } else if secs < 3600 {
        push_decimal(s, secs / 60);
        s.append(":");
        push_pad2(s, secs % 60);
    } else {
        push_decimal(s, secs / 3600);
        s.append(":");
        push_pad2(s, secs % 3600 / 60);
        s.append(":");
        push_pad2(s, secs % 60);
    }
}

/// The text of a duration: `59 seconds`, `1:00`, `1:01:01`, `24:00:00`.
pub fn format_time(secs: i32) -> (r: String)
    ensures
        r@ == time_text(secs as int),
{
    let mut s = String::new();
    if secs < 0 {
        push_int(&mut s, secs as i64);
        s.append(" seconds");
    } else {
        push_duration(&mut s, secs as u64);
    }
    s
}

/// `k` occurs in `h` as a contiguous run.
pub open spec fn contains(h: Seq<char>, k: Seq<char>) -> bool {
    exists|i: int| 0 <= i && i + k.len() <= h.len() && #[trigger] h.subrange(i, i + k.len()) == k
}

/// The characters of a string, one by one.
pub fn chars_of(s: &str) -> (r: Vec<char>)
    ensures
        r@ == s@,
{
    let n = s.unicode_len();
    let mut r: Vec<char> = Vec::new();
    let mut i: usize = 0;
    while i < n
        invariant
            n == s@.len(),
            i <= n,
            r@ == s@.subrange(0, i as int),
        decreases n - i,
    {
        r.push(s.get_char(i));
        i = i + 1;
    }
    r
}

/// Whether `k` occurs in `h` at index `i`.
pub(crate) fn occurs_at(h: &Vec<char>, k: &Vec<char>, i: usize) -> (r: bool)
    requires
        i + k@.len() <= h@.len(),
    ensures
        r == (h@.subrange(i as int, i + k@.len()) == k@),
{
    let n = h.len();
    let mut j: usize = 0;
    while j < k.len()
        invariant
            n == h@.len(),
            i + k@.len() <= h@.len(),
            j <= k@.len(),
            forall|q: int| 0 <= q < j ==> h@[i + q] == k@[q],
        decreases k@.len() - j,
    {
        if h[i + j] != k[j] {
            assert(h@.subrange(i as int, i + k@.len())[j as int] != k@[j as int]);
            return false;
        }
        j = j + 1;
    }
    assert(h@.subrange(i as int, i + k@.len()) =~= k@);
    true
}

/// Whether `k` occurs in `h`.
pub fn contains_text(h: &Vec<char>, k: &str) -> (r: bool)
    ensures
        r == contains(h@, k@),
{
    let kc = chars_of(k);
    if kc.len() > h.len() {
        return false;
    }
    let last = h.len() - kc.len();
    let mut i: usize = 0;
    loop
        invariant
            kc@ == k@,
            last == h@.len() - k@.len(),
            i <= last,
            forall|p: int| 0 <= p < i ==> #[trigger] h@.subrange(p, p + k@.len()) != k@,
        decreases last - i,
    {
        if occurs_at(h, &kc, i) {
            assert(h@.subrange(i as int, i + k@.len()) == k@);
            return true;
        }
        if i == last {
            return false;
        }
        i = i + 1;
    }
}

/// Whether two texts are equal.
pub fn same_text(a: &str, b: &str) -> (r: bool)
    ensures
        r == (a@ == b@),
{
    a.to_owned() == b.to_owned()
}

} // verus!
