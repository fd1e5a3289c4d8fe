//! Text shown to the user: zero-padded decimal numbers, `mm:ss` times and
//! the names of saved clip files.
use vstd::prelude::*;

verus! {

/// The ASCII digit for `d` (taken modulo 10).
pub open spec fn digit_char(d: nat) -> char {
    let d = d % 10;
    if d == 0 {
        '0'
    } else if d == 1 {
        '1'
    } else if d == 2 {
        '2'
    } else if d == 3 {
        '3'
    } else if d == 4 {
        '4'
    } else if d == 5 {
        '5'
    } else if d == 6 {
        '6'
    } else if d == 7 {
        '7'
    } else if d == 8 {
        '8'
    } else {
        '9'
    }
}

/// Decimal digits of `n`, most significant first, without leading zeros
/// (`"0"` for zero).
pub open spec fn decimal(n: nat) -> Seq<char>
    decreases n,
{
    if n < 10 {
        seq![digit_char(n)]
    } else {
        decimal(n / 10) + seq![digit_char(n % 10)]
    }
}

/// Decimal digits of `n`, left-padded with zeros to at least `width` digits.
pub open spec fn padded(n: nat, width: nat) -> Seq<char> {
    let d = decimal(n);
    if d.len() < width {
        Seq::new((width - d.len()) as nat, |i: int| '0') + d
    } else {
        d
    }
}

/// `mm:ss` for a number of whole seconds; minutes grow past two digits.
pub open spec fn clock_text(secs: nat) -> Seq<char> {
    padded(secs / 60, 2) + seq![':'] + padded(secs % 60, 2)
}

/// `clip_NNN.wav`, the counter padded to at least three digits.
pub open spec fn clip_file_text(counter: nat) -> Seq<char> {
    seq!['c', 'l', 'i', 'p', '_'] + padded(counter, 3) + seq!['.', 'w', 'a', 'v']
}

/// The number of decimal digits of `n` is positive.
pub proof fn lemma_decimal_len(n: nat)
    ensures
        decimal(n).len() >= 1,
        n < 10 ==> decimal(n).len() == 1,
        n >= 10 ==> decimal(n).len() == decimal(n / 10).len() + 1,
    decreases n,
{
    if n >= 10 {
        lemma_decimal_len(n / 10);
    }
}

fn push_digit(s: &mut String, d: u64)
    requires
        d < 10,
    ensures
        final(s)@ == old(s)@ + seq![digit_char(d as nat)],
{
    if d == 0 {
        proof {
            reveal_strlit("0");
        }
        s.append("0");
    } else if d == 1 {
        proof {
            reveal_strlit("1");
        }
        s.append("1");
    } else if d == 2 {
        proof {
            reveal_strlit("2");
        }
        s.append("2");
    } else if d == 3 {
        proof {
            reveal_strlit("3");
        }
        s.append("3");
    } else if d == 4 {
        proof {
            reveal_strlit("4");
        }
        s.append("4");
    } else if d == 5 {
        proof {
            reveal_strlit("5");
        }
        s.append("5");
    } else if d == 6 {
        proof {
            reveal_strlit("6");
        }
        s.append("6");
    } else if d == 7 {
        proof {
            reveal_strlit("7");
        }
        s.append("7");
    } else if d == 8 {
        proof {
            reveal_strlit("8");
        }
        s.append("8");
    } else {
        proof {
            reveal_strlit("9");
        }
        s.append("9");
    }
}

fn push_decimal(s: &mut String, n: u64)
    ensures
        final(s)@ == old(s)@ + decimal(n as nat),
    decreases n,
{
    if n >= 10 {
        push_decimal(s, n / 10);
    }
    push_digit(s, n % 10);
    proof {
        if n < 10 {
            assert(n % 10 == n);
        }
    }
}

fn decimal_width(n: u64) -> (w: usize)
    ensures
        w == decimal(n as nat).len(),
    decreases n,
{
    proof {
        lemma_decimal_len(n as nat);
    }
    if n < 10 {
        1
    } else {
        let w = decimal_width(n / 10);
        assert(w <= 20) by {
            lemma_decimal_width_bound(n as nat / 10);
        }
        w + 1
    }
}

/// Ten to the power `k`.
pub open spec fn pow10(k: nat) -> nat
    decreases k,
{
    if k == 0 {
        1
    } else {
        10 * pow10((k - 1) as nat)
    }
}

/// At most twenty decimal digits for any 64-bit value.
proof fn lemma_decimal_width_bound(n: nat)
    requires
        n <= u64::MAX,
    ensures
        decimal(n).len() <= 20,
{
    reveal_with_fuel(pow10, 21);
    assert(pow10(20) == 100000000000000000000nat);
    lemma_decimal_len_bound(n, 20);
}

/// A number below `10^k` has at most `k` digits (for `k >= 1`).
proof fn lemma_decimal_len_bound(n: nat, k: nat)
    requires
        k >= 1,
        n < pow10(k),
    ensures
        decimal(n).len() <= k,
    decreases k,
{
    lemma_decimal_len(n);
    if n >= 10 {
        if k == 1 {
            assert(pow10(1) == 10) by {
                reveal_with_fuel(pow10, 2);
            }
        }
        let p = pow10((k - 1) as nat);
        assert(n / 10 < p) by (nonlinear_arith)
            requires
                n < 10 * p,
        ;
        lemma_decimal_len_bound(n / 10, (k - 1) as nat);
    }
}

/// Appends `n` in decimal, zero-padded to at least `width` digits.
pub fn push_padded(s: &mut String, n: u64, width: usize)
    ensures
        final(s)@ == old(s)@ + padded(n as nat, width as nat),
{
    let w = decimal_width(n);
    let ghost start = s@;
    let mut k: usize = w;
    while k < width
        invariant
            w <= k <= width || (w > width && k == w),
            w == decimal(n as nat).len(),
            s@ == start + Seq::new((k - w) as nat, |i: int| '0'),
        decreases width - k,
    {
        proof {
            reveal_strlit("0");
        }
        s.append("0");
        k = k + 1;
        assert(s@ =~= start + Seq::new((k - w) as nat, |i: int| '0'));
    }
    let ghost mid = s@;
    push_decimal(s, n);
    proof {
        if w < width {
            assert(k == width);
            assert(s@ =~= start + padded(n as nat, width as nat));
        } else {
            assert(k == w);
            assert(mid =~= start);
            assert(s@ =~= start + padded(n as nat, width as nat));
        }
    }
}

/// `mm:ss` for a whole number of seconds, as the transport shows positions.
pub fn format_time(secs: u32) -> (res: String)
    ensures
        res@ == clock_text(secs as nat),
{
    let mut s = String::new();
    push_padded(&mut s, (secs / 60) as u64, 2);
    proof {
        reveal_strlit(":");
    }
    s.append(":");
    push_padded(&mut s, (secs % 60) as u64, 2);
    assert(s@ =~= clock_text(secs as nat));
    s
}

/// File name of the `counter`-th saved clip: `clip_001.wav`, `clip_002.wav`, ...
pub fn clip_file_name(counter: u32) -> (res: String)
    ensures
        res@ == clip_file_text(counter as nat),
{
    proof {
        reveal_strlit("clip_");
        reveal_strlit(".wav");
    }
    let mut s = String::from_str("clip_");
    push_padded(&mut s, counter as u64, 3);
    s.append(".wav");
    assert(s@ =~= clip_file_text(counter as nat));
    s
}

/// A count of half units shown with its sign and one decimal: `+1.5`,
/// `-3.0`, `+0.0`.
pub open spec fn half_units_text(p: int) -> Seq<char> {
    let a: nat = if p < 0 {
        (-p) as nat
    } else {
        p as nat
    };
    seq![if p < 0 {
        '-'
    } else {
        '+'
    }] + decimal(a / 2) + seq!['.', if a % 2 == 1 {
        '5'
    } else {
        '0'
    }]
}

/// A count of hundredths shown with two decimals: `0.80`, `1.00`, `4.00`.
pub open spec fn hundredths_text(t: nat) -> Seq<char> {
    decimal(t / 100) + seq!['.'] + padded(t % 100, 2)
}

/// Pitch for display, in semitones with sign and one decimal, from a pitch
/// counted in half semitones.
pub fn half_units_string(p: i32) -> (res: String)
    ensures
        res@ == half_units_text(p as int),
{
    let a: u64 = if p < 0 {
        (-(p as i64)) as u64
    } else {
        p as u64
    };
    let mut s = if p < 0 {
        proof {
            reveal_strlit("-");
        }
        String::from_str("-")
    } else {
        proof {
            reveal_strlit("+");
        }
        String::from_str("+")
    };
    push_decimal(&mut s, a / 2);
    proof {
        reveal_strlit(".");
    }
    s.append(".");
    if a % 2 == 1 {
        push_digit(&mut s, 5);
    } else {
        push_digit(&mut s, 0);
    }
    assert(s@ =~= half_units_text(p as int));
    s
}

/// Tempo for display, with two decimals, from a tempo counted in hundredths.
pub fn hundredths_string(t: u32) -> (res: String)
    ensures
        res@ == hundredths_text(t as nat),
{
    let mut s = String::new();
    push_decimal(&mut s, (t / 100) as u64);
    proof {
        reveal_strlit(".");
    }
    s.append(".");
    push_padded(&mut s, (t % 100) as u64, 2);
    assert(s@ =~= hundredths_text(t as nat));
    s
}

/// Left part of the top bar: ` name (i/n)`, with `i` counted from one,
/// then the sample-rate warning if there is one, then the status message if
/// one is shown.
pub open spec fn top_bar_text(
    name: Seq<char>,
    file_idx: nat,
    n_files: nat,
    mismatch: bool,
    status: Option<Seq<char>>,
) -> Seq<char> {
    seq![' '] + name + seq![' ', '('] + decimal(file_idx + 1) + seq!['/'] + decimal(n_files)
        + seq![')'] + (if mismatch {
        "  [!] sample rate mismatch"@
    } else {
        Seq::empty()
    }) + match status {
        Some(m) => seq![' ', ' '] + m,
        None => Seq::empty(),
    }
}

/// `position / duration`, both as `mm:ss`.
pub open spec fn position_line(pos_secs: nat, dur_secs: nat) -> Seq<char> {
    clock_text(pos_secs) + seq![' ', '/', ' '] + clock_text(dur_secs)
}

/// The left part of the top bar for the file `file_name`, the `file_idx`-th
/// (from zero) of `n_files`, with the sample-rate warning when `mismatch`
/// and the status message when one is given.
pub fn top_bar_left(
    file_name: &str,
    file_idx: usize,
    n_files: usize,
    mismatch: bool,
    status: Option<&str>,
) -> (res: String)
    requires
        file_idx < usize::MAX,
    ensures
        res@ == top_bar_text(
            file_name@,
            file_idx as nat,
            n_files as nat,
            mismatch,
            match status {
                Some(m) => Some(m@),
                None => None,
            },
        ),
{
    proof {
        reveal_strlit(" ");
        reveal_strlit(" (");
        reveal_strlit("/");
        reveal_strlit(")");
        reveal_strlit("  [!] sample rate mismatch");
        reveal_strlit("  ");
    }
    let mut s = String::from_str(" ");
    s.append(file_name);
    s.append(" (");
    push_decimal(&mut s, file_idx as u64 + 1);
    s.append("/");
    push_decimal(&mut s, n_files as u64);
    s.append(")");
    let ghost base = s@;
    if mismatch {
        s.append("  [!] sample rate mismatch");
    }
    let ghost warned = s@;
    match status {
        Some(m) => {
            s.append("  ");
            s.append(m);
        },
        None => {},
    }
    assert(s@ =~= top_bar_text(
        file_name@,
        file_idx as nat,
        n_files as nat,
        mismatch,
        match status {
            Some(m) => Some(m@),
            None => None,
        },
    ));
    s
}

/// `mm:ss / mm:ss` for the position and the duration in whole seconds.
pub fn position_text(pos_secs: u32, dur_secs: u32) -> (res: String)
    ensures
        res@ == position_line(pos_secs as nat, dur_secs as nat),
{
    let mut s = format_time(pos_secs);
    proof {
        reveal_strlit(" / ");
    }
    s.append(" / ");
    let d = format_time(dur_secs);
    s.append(d.as_str());
    assert(s@ =~= position_line(pos_secs as nat, dur_secs as nat));
    s
}

/// The value of a decimal digit character, `-1` for any other character.
pub open spec fn digit_value(c: char) -> int {
    if c == '0' {
        0
    } else if c == '1' {
        1
    } else if c == '2' {
        2
    } else if c == '3' {
        3
    } else if c == '4' {
        4
    } else if c == '5' {
        5
    } else if c == '6' {
        6
    } else if c == '7' {
        7
    } else if c == '8' {
        8
    } else if c == '9' {
        9
    } else {
        -1
    }
}

/// Whether every character is a decimal digit.
pub open spec fn all_digits(s: Seq<char>) -> bool {
    forall|i: int| 0 <= i < s.len() ==> digit_value(#[trigger] s[i]) >= 0
}

/// The number a string of decimal digits reads as (most significant first).
pub open spec fn digits_value(s: Seq<char>) -> int
    decreases s.len(),
{
    if s.len() == 0 {
        0
    } else {
        digits_value(s.drop_last()) * 10 + digit_value(s.last())
    }
}

proof fn lemma_digit_round_trip(d: nat)
    ensures
        digit_value(digit_char(d)) == d % 10,
{
}

/// Reading digits that follow other digits: the front part counts in
/// units of ten to the length of the back part.
pub proof fn lemma_digits_concat(a: Seq<char>, b: Seq<char>)
    ensures
        digits_value(a + b) == digits_value(a) * pow10(b.len()) + digits_value(b),
    decreases b.len(),
{
    if b.len() == 0 {
        assert(a + b =~= a);
        assert(pow10(0) == 1);
        assert(digits_value(b) == 0);
    } else {
        assert((a + b).drop_last() =~= a + b.drop_last());
        assert((a + b).last() == b.last());
        lemma_digits_concat(a, b.drop_last());
        let p = pow10((b.len() - 1) as nat);
        assert(pow10(b.len()) == 10 * p);
        assert(digits_value(b) == digits_value(b.drop_last()) * 10 + digit_value(b.last()));
        assert(digits_value(a) * (10 * p) == digits_value(a) * pow10(b.len()));
        assert(digits_value(a + b) == (digits_value(a) * p + digits_value(b.drop_last())) * 10
            + digit_value(b.last()));
        assert((digits_value(a) * p + digits_value(b.drop_last())) * 10 == digits_value(a) * (10
            * p) + digits_value(b.drop_last()) * 10) by (nonlinear_arith);
    }
}

proof fn lemma_zeros_value(k: nat)
    ensures
        digits_value(Seq::new(k, |i: int| '0')) == 0,
        all_digits(Seq::new(k, |i: int| '0')),
    decreases k,
{
    if k > 0 {
        assert(Seq::new(k, |i: int| '0').drop_last() =~= Seq::new((k - 1) as nat, |i: int| '0'));
        lemma_zeros_value((k - 1) as nat);
    }
}

/// Decimal text reads back as the number it was made from: it is all
/// digits, not empty, and starts with `0` only for zero itself.
pub proof fn law_decimal_reads_back(n: nat)
    ensures
        digits_value(decimal(n)) == n,
        all_digits(decimal(n)),
        decimal(n).len() >= 1,
        (decimal(n)[0] == '0') == (n == 0),
    decreases n,
{
    lemma_decimal_len(n);
    if n < 10 {
        assert(decimal(n).drop_last() =~= Seq::<char>::empty());
        assert(digits_value(Seq::<char>::empty()) == 0);
        assert(decimal(n).last() == digit_char(n));
        lemma_digit_round_trip(n);
        assert(n % 10 == n);
    } else {
        law_decimal_reads_back(n / 10);
        lemma_digit_round_trip(n % 10);
        assert((n % 10) % 10 == n % 10);
        assert((n / 10) * 10 + n % 10 == n);
        assert(decimal(n).last() == digit_char(n % 10));
        let d = decimal(n / 10);
        assert(decimal(n).drop_last() =~= d);
        assert(decimal(n)[0] == d[0]);
        assert(digits_value(decimal(n)) == (n / 10) * 10 + n % 10);
        assert forall|i: int| 0 <= i < decimal(n).len() implies digit_value(
            #[trigger] decimal(n)[i],
        ) >= 0 by {
            if i < d.len() {
                assert(decimal(n)[i] == d[i]);
            } else {
                lemma_digit_round_trip((n % 10) as nat);
            }
        }
    }
}

/// Zero-padded text reads back as the number, is all digits, and is as
/// long as the wider of the padding width and the number's own digits.
pub proof fn law_padded_reads_back(n: nat, width: nat)
    ensures
        digits_value(padded(n, width)) == n,
        all_digits(padded(n, width)),
        padded(n, width).len() == if decimal(n).len() < width {
            width
        } else {
            decimal(n).len()
        },
{
    law_decimal_reads_back(n);
    let d = decimal(n);
    if d.len() < width {
        let z = Seq::new((width - d.len()) as nat, |i: int| '0');
        lemma_zeros_value((width - d.len()) as nat);
        lemma_digits_concat(z, d);
        assert forall|i: int| 0 <= i < (z + d).len() implies digit_value(#[trigger] (z + d)[i])
            >= 0 by {
            if i < z.len() {
                assert((z + d)[i] == z[i]);
            } else {
                assert((z + d)[i] == d[i - z.len()]);
            }
        }
    }
}

/// Numbers below a hundred take at most two digits, so padding them to two
/// gives exactly two.
pub proof fn lemma_two_digits(n: nat)
    requires
        n < 100,
    ensures
        padded(n, 2).len() == 2,
{
    assert(pow10(2) == 100) by {
        reveal_with_fuel(pow10, 3);
    }
    lemma_decimal_len_bound(n, 2);
    law_padded_reads_back(n, 2);
}

/// A `mm:ss` time reads back as the seconds it shows: the part before the
/// colon (at least two digits) is the minutes, the two digits after it the
/// seconds within the minute.
pub proof fn law_clock_reads_back(secs: nat)
    ensures
        ({
            let t = clock_text(secs);
            let k = t.len() as int;
            &&& k >= 5
            &&& t[k - 3] == ':'
            &&& all_digits(t.subrange(0, k - 3))
            &&& digits_value(t.subrange(0, k - 3)) == secs / 60
            &&& all_digits(t.subrange(k - 2, k))
            &&& digits_value(t.subrange(k - 2, k)) == secs % 60
        }),
{
    let m = padded(secs / 60, 2);
    let r = padded(secs % 60, 2);
    law_padded_reads_back(secs / 60, 2);
    law_padded_reads_back(secs % 60, 2);
    lemma_two_digits(secs % 60);
    let t = clock_text(secs);
    let k = t.len() as int;
    assert(t.subrange(0, k - 3) =~= m);
    assert(t.subrange(k - 2, k) =~= r);
}

/// A clip file name is `clip_`, at least three digits reading as the clip
/// number, and `.wav`.
pub proof fn law_clip_name_reads_back(counter: nat)
    ensures
        ({
            let t = clip_file_text(counter);
            let k = t.len() as int;
            &&& k >= 12
            &&& t.subrange(0, 5) == seq!['c', 'l', 'i', 'p', '_']
            &&& t.subrange(k - 4, k) == seq!['.', 'w', 'a', 'v']
            &&& all_digits(t.subrange(5, k - 4))
            &&& digits_value(t.subrange(5, k - 4)) == counter
        }),
{
    law_padded_reads_back(counter, 3);
    let p = padded(counter, 3);
    let t = clip_file_text(counter);
    let k = t.len() as int;
    assert(t.subrange(0, 5) =~= seq!['c', 'l', 'i', 'p', '_']);
    assert(t.subrange(k - 4, k) =~= seq!['.', 'w', 'a', 'v']);
    assert(t.subrange(5, k - 4) =~= p);
}

/// A pitch label reads back as the pitch in semitones: it starts with `-`
/// exactly for a pitch below zero (`+` otherwise), then the whole
/// semitones in digits, a point, and `5` for an odd number of half
/// semitones or `0` for an even one.
pub proof fn law_pitch_label_reads_back(p: int)
    ensures
        ({
            let t = half_units_text(p);
            let k = t.len() as int;
            let a = if p < 0 {
                -p
            } else {
                p
            };
            &&& k >= 4
            &&& (t[0] == '-') == (p < 0)
            &&& (t[0] == '+') == (p >= 0)
            &&& all_digits(t.subrange(1, k - 2))
            &&& digits_value(t.subrange(1, k - 2)) == a / 2
            &&& t[k - 2] == '.'
            &&& t[k - 1] == (if a % 2 == 1 {
                '5'
            } else {
                '0'
            })
        }),
{
    let a: nat = if p < 0 {
        (-p) as nat
    } else {
        p as nat
    };
    law_decimal_reads_back(a / 2);
    let t = half_units_text(p);
    let k = t.len() as int;
    assert(t.subrange(1, k - 2) =~= decimal(a / 2));
}

/// A tempo label reads back as the tempo: whole units in digits, a point,
/// and exactly two digits of hundredths.
pub proof fn law_tempo_label_reads_back(t: nat)
    ensures
        ({
            let s = hundredths_text(t);
            let k = s.len() as int;
            &&& k >= 4
            &&& s[k - 3] == '.'
            &&& all_digits(s.subrange(0, k - 3))
            &&& digits_value(s.subrange(0, k - 3)) == t / 100
            &&& all_digits(s.subrange(k - 2, k))
            &&& digits_value(s.subrange(k - 2, k)) == t % 100
        }),
{
    law_decimal_reads_back(t / 100);
    law_padded_reads_back(t % 100, 2);
    lemma_two_digits(t % 100);
    let s = hundredths_text(t);
    let k = s.len() as int;
    assert(s.subrange(0, k - 3) =~= decimal(t / 100));
    assert(s.subrange(k - 2, k) =~= padded(t % 100, 2));
}

/// The top bar reads back as what it shows: a space, the file name, then
/// in brackets the file's place counted from one and the number of files,
/// both in digits; then the warning when the rates differ, and the status
/// message, after two spaces, at the very end when one is shown.
pub proof fn law_top_bar_reads_back(
    name: Seq<char>,
    file_idx: nat,
    n_files: nat,
    mismatch: bool,
    status: Option<Seq<char>>,
)
    ensures
        ({
            let t = top_bar_text(name, file_idx, n_files, mismatch, status);
            let a: int = name.len() + 3int;
            let b: int = a + decimal(file_idx + 1).len();
            let c: int = b + 1 + decimal(n_files).len();
            &&& t[0] == ' '
            &&& t.subrange(1, name.len() + 1 as int) == name
            &&& t[name.len() + 1 as int] == ' ' && t[name.len() + 2 as int] == '('
            &&& all_digits(t.subrange(a, b))
            &&& digits_value(t.subrange(a, b)) == file_idx + 1
            &&& t[b] == '/'
            &&& all_digits(t.subrange(b + 1, c))
            &&& digits_value(t.subrange(b + 1, c)) == n_files
            &&& t[c] == ')'
            &&& (!mismatch && status is None) ==> t.len() == c + 1
            &&& status matches Some(m) ==> t.len() >= c + 3 + m.len() && t.subrange(
                t.len() - m.len() - 2 as int,
                t.len() as int,
            ) == seq![' ', ' '] + m
        }),
{
    law_decimal_reads_back(file_idx + 1);
    law_decimal_reads_back(n_files);
    let t = top_bar_text(name, file_idx, n_files, mismatch, status);
    let d1 = decimal(file_idx + 1);
    let d2 = decimal(n_files);
    let head = seq![' '] + name + seq![' ', '('] + d1 + seq!['/'] + d2 + seq![')'];
    let warn: Seq<char> = if mismatch {
        "  [!] sample rate mismatch"@
    } else {
        Seq::empty()
    };
    let tail: Seq<char> = match status {
        Some(m) => seq![' ', ' '] + m,
        None => Seq::empty(),
    };
    assert(t =~= head + warn + tail);
    let a: int = name.len() + 3int;
    let b: int = a + d1.len();
    let c: int = b + 1 + d2.len();
    assert(t.subrange(1, name.len() + 1 as int) =~= name);
    assert(t.subrange(a, b) =~= d1);
    assert(t.subrange(b + 1, c) =~= d2);
    match status {
        Some(m) => {
            assert(t.subrange(t.len() - m.len() - 2 as int, t.len() as int) =~= seq![' ', ' '] + m);
        },
        None => {},
    }
}

} // verus!
