//! Number formatting for the directory listing: thousands separators and
//! sizes in binary units.

use vstd::prelude::*;

verus! {

/// `String::push` appends one character to the end of the string.
pub assume_specification[ String::push ](s: &mut String, ch: char)
    ensures
        final(s)@ == old(s)@.push(ch),
;

/// The character of a decimal digit.
pub open spec fn digit_char(d: nat) -> char
    recommends
        d < 10,
{
    (('0' as nat) + d) as char
}

/// The decimal digits of `n`, most significant first, without leading zeros.
pub open spec fn decimal(n: nat) -> Seq<char>
    decreases n,
{
    if n < 10 {
        seq![digit_char(n)]
    } else {
        decimal(n / 10).push(digit_char(n % 10))
    }
}

/// A number below one thousand written with exactly three digits.
pub open spec fn three_digits(n: nat) -> Seq<char>
    recommends
        n < 1000,
{
    seq![digit_char(n / 100), digit_char((n / 10) % 10), digit_char(n % 10)]
}

/// A number below one hundred written with exactly two digits.
pub open spec fn two_digits(n: nat) -> Seq<char>
    recommends
        n < 100,
{
    seq![digit_char(n / 10), digit_char(n % 10)]
}

/// The decimal digits of `n` with a comma before every group of three digits
/// counted from the least significant one.
pub open spec fn comma_separated(n: nat) -> Seq<char>
    decreases n,
{
    if n < 1000 {
        decimal(n)
    } else {
        comma_separated(n / 1000).push(',') + three_digits(n % 1000)
    }
}

/// Holds of every character but the comma.
pub open spec fn not_comma() -> spec_fn(char) -> bool {
    |c: char| c != ','
}

/// What is left of a formatted number when its commas are taken out.
pub open spec fn without_commas(s: Seq<char>) -> Seq<char> {
    s.filter(not_comma())
}

/// No digit is a comma.
proof fn lemma_decimal_has_no_comma(n: nat)
    ensures
        without_commas(decimal(n)) == decimal(n),
    decreases n,
{
    reveal(Seq::filter);
    if n < 10 {
        assert(decimal(n).drop_last() =~= Seq::<char>::empty());
    } else {
        lemma_decimal_has_no_comma(n / 10);
        assert(decimal(n).drop_last() =~= decimal(n / 10));
    }
}

/// The digits of a number of four digits or more are the digits of its
/// thousands and the three digits of the rest.
proof fn lemma_decimal_splits_at_thousands(n: nat)
    requires
        n >= 1000,
    ensures
        decimal(n) == decimal(n / 1000) + three_digits(n % 1000),
{
    let tens = n / 10;
    let hundreds = n / 100;
    assert(tens / 10 == hundreds);
    assert(hundreds / 10 == n / 1000);
    assert(hundreds % 10 == (n % 1000) / 100);
    assert(tens % 10 == ((n % 1000) / 10) % 10);
    assert(n % 10 == (n % 1000) % 10);
    assert(decimal(n) == decimal(tens).push(digit_char(n % 10)));
    assert(decimal(tens) == decimal(hundreds).push(digit_char(tens % 10)));
    assert(decimal(hundreds) == decimal(n / 1000).push(digit_char(hundreds % 10)));
    assert(decimal(n) =~= decimal(n / 1000) + three_digits(n % 1000));
}

/// Separating changes no digit: without its commas, a formatted number is
/// the number's decimal digits.
pub proof fn lemma_commas_keep_digits(n: nat)
    ensures
        without_commas(comma_separated(n)) == decimal(n),
    decreases n,
{
    if n < 1000 {
        lemma_decimal_has_no_comma(n);
    } else {
        let head = comma_separated(n / 1000);
        let tail = three_digits(n % 1000);
        lemma_commas_keep_digits(n / 1000);
        lemma_decimal_splits_at_thousands(n);
        Seq::filter_distributes_over_add(head.push(','), tail, not_comma());
        assert(without_commas(head.push(',')) == without_commas(head)) by {
            reveal(Seq::filter);
            assert(head.push(',').drop_last() =~= head);
        }
        assert(without_commas(tail) == tail) by {
            reveal_with_fuel(Seq::filter, 4);
            let two = tail.drop_last();
            let one = two.drop_last();
            assert(one.drop_last() =~= Seq::<char>::empty());
            assert(without_commas(one) =~= one);
            assert(without_commas(two) =~= two);
            assert(without_commas(tail) =~= tail);
        }
    }
}

/// The character of `s` that stands `i` places before its last one.
pub open spec fn from_end(s: Seq<char>, i: int) -> char
    recommends
        0 <= i < s.len(),
{
    s[s.len() - 1 - i]
}

/// A number below one thousand has at most three digits, none a comma.
proof fn lemma_short_decimal(n: nat)
    requires
        n < 1000,
    ensures
        0 < decimal(n).len() <= 3,
        forall|i: int| 0 <= i < decimal(n).len() ==> #[trigger] decimal(n)[i] != ',',
{
    reveal_with_fuel(decimal, 4);
}

/// Where the separators stand: counted from the last character, every
/// fourth character of a formatted number is a comma, and no other is.
pub proof fn lemma_comma_every_fourth_place(n: nat)
    ensures
        forall|i: int|
            0 <= i < comma_separated(n).len() ==> ((#[trigger] from_end(comma_separated(n), i))
                == ',' <==> i % 4 == 3),
    decreases n,
{
    let s = comma_separated(n);
    if n < 1000 {
        lemma_short_decimal(n);
    } else {
        let head = comma_separated(n / 1000);
        lemma_comma_every_fourth_place(n / 1000);
        assert(s.len() == head.len() + 4);
        assert forall|i: int| 0 <= i < s.len() implies ((#[trigger] from_end(s, i)) == ',' <==> i
            % 4 == 3) by {
            if i >= 4 {
                assert(from_end(s, i) == from_end(head, i - 4));
            }
        }
    }
}

/// Separators stand between digits only: a formatted number neither starts
/// nor ends with a comma.
pub proof fn lemma_no_comma_at_either_end(n: nat)
    ensures
        comma_separated(n).len() > 0,
        comma_separated(n).first() != ',',
        comma_separated(n).last() != ',',
    decreases n,
{
    if n < 1000 {
        lemma_decimal_starts_with_digit(n);
    } else {
        lemma_no_comma_at_either_end(n / 1000);
    }
}

/// The decimal digits of a number are not empty, and none at either end is
/// a comma.
proof fn lemma_decimal_starts_with_digit(n: nat)
    ensures
        decimal(n).len() > 0,
        decimal(n).first() != ',',
        decimal(n).last() != ',',
    decreases n,
{
    if n >= 10 {
        lemma_decimal_starts_with_digit(n / 10);
    }
}

pub const KB: u64 = 1024;

pub const MB: u64 = 1_048_576;

pub const GB: u64 = 1_073_741_824;

pub const TB: u64 = 1_099_511_627_776;

/// `size` in the given unit: the whole part with thousands separators, a
/// point, and the first two decimals of the fraction.
pub open spec fn scaled(size: nat, unit: nat) -> Seq<char>
    recommends
        unit > 0,
{
    comma_separated(size / unit).push('.') + two_digits(((size % unit) * 100) / unit)
}

/// A byte count in the largest binary unit that it reaches.
pub open spec fn human_readable(size: nat) -> Seq<char> {
    if size >= TB {
        scaled(size, TB as nat) + " TB"@
    } else if size >= GB {
        scaled(size, GB as nat) + " GB"@
    } else if size >= MB {
        scaled(size, MB as nat) + " MB"@
    } else if size >= KB {
        scaled(size, KB as nat) + " KB"@
    } else {
        comma_separated(size) + " bytes"@
    }
}

fn push_digit(s: &mut String, d: u64)
    requires
        d < 10,
    ensures
        final(s)@ == old(s)@.push(digit_char(d as nat)),
{
    let c: char = if d == 0 {
        '0'
    } else if d == 1 {
        '1'
    } else if d == 2 {
        '2'
    } else if d == 3 {
        '3'
    } else if d == 4 {
        '4'
    } else if d == 5 {
        '5'
    } else if d == 6 {
        '6'
    } else if d == 7 {
        '7'
    } else if d == 8 {
        '8'
    } else {
        '9'
    };
    s.push(c);
}

fn push_decimal(s: &mut String, n: u64)
    ensures
        final(s)@ == old(s)@ + decimal(n as nat),
    decreases n,
{
    if n < 10 {
        push_digit(s, n);
        assert(s@ =~= old(s)@ + decimal(n as nat));
    } else {
        push_decimal(s, n / 10);
        push_digit(s, n % 10);
        assert(s@ =~= old(s)@ + decimal(n as nat));
    }
}

fn push_comma_separated(s: &mut String, n: u64)
    ensures
        final(s)@ == old(s)@ + comma_separated(n as nat),
    decreases n,
{
    if n < 1000 {
        push_decimal(s, n);
    } else {
        push_comma_separated(s, n / 1000);
        s.push(',');
        let low: u64 = n % 1000;
        push_digit(s, low / 100);
        push_digit(s, (low / 10) % 10);
        push_digit(s, low % 10);
        assert(s@ =~= old(s)@ + comma_separated(n as nat));
    }
}

fn push_scaled(s: &mut String, size: u64, unit: u64)
    requires
        0 < unit <= TB,
    ensures
        final(s)@ == old(s)@ + scaled(size as nat, unit as nat),
{
    push_comma_separated(s, size / unit);
    s.push('.');
    let rest: u64 = size % unit;
    assert(rest * 100 <= TB * 100) by (nonlinear_arith)
        requires
            rest < unit,
            unit <= TB,
    ;
    let hundredths: u64 = rest * 100 / unit;
    assert(hundredths < 100) by (nonlinear_arith)
        requires
            hundredths == (rest * 100) / (unit as int),
            rest < unit,
            unit > 0,
    ;
    push_digit(s, hundredths / 10);
    push_digit(s, hundredths % 10);
    assert(s@ =~= old(s)@ + scaled(size as nat, unit as nat));
}

/// Writes `num` in decimal with a comma every three digits.
pub fn comma_separated_number(num: u64) -> (r: String)
    ensures
        r@ == comma_separated(num as nat),
{
    let mut s = String::new();
    push_comma_separated(&mut s, num);
    assert(s@ =~= comma_separated(num as nat));
    s
}

/// Writes a byte count in the largest of TB, GB, MB and KB that it reaches,
/// with two decimals, or in bytes below 1024.
pub fn human_readable_size(size: u64) -> (r: String)
    ensures
        r@ == human_readable(size as nat),
{
    let mut s = String::new();
    if size >= TB {
        push_scaled(&mut s, size, TB);
        s.append(" TB");
    } else if size >= GB {
        push_scaled(&mut s, size, GB);
        s.append(" GB");
    } else if size >= MB {
        push_scaled(&mut s, size, MB);
        s.append(" MB");
    } else if size >= KB {
        push_scaled(&mut s, size, KB);
        s.append(" KB");
    } else {
        push_comma_separated(&mut s, size);
        s.append(" bytes");
    }
    assert(s@ =~= human_readable(size as nat));
    s
}

} // verus!
