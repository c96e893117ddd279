//! Byte sizes and their human-readable form.
//!
//! A size is counted exactly, in millionths of a byte, so that a decimal
//! figure such as `12.3` in front of a binary unit such as `MiB` has an exact
//! value and sums of such figures stay exact. Figures carry at most six
//! fraction digits and are at most 10^20; a size is at most 10^20 TiB.

use crate::text::{copy_range, from_chars, lemma_pieces_of_two, pieces, to_chars};
use vstd::arithmetic::div_mod::{lemma_fundamental_div_mod, lemma_fundamental_div_mod_converse};
use vstd::prelude::*;

verus! {

/// The number of millionths in one byte.
pub const SCALE: u128 = 1_000_000;

/// The largest decimal figure that is read, in millionths: 10^20.
pub const MAX_VALUE: u128 = 100_000_000_000_000_000_000_000_000;

/// The largest size that is held, in millionths of a byte: 10^20 TiB.
pub const MAX_AMOUNT: u128 = 109_951_162_777_600_000_000_000_000_000_000_000_000;

/// The number of bytes in one KiB.
pub const KIB: u128 = 1024;

/// The number of bytes in one MiB.
pub const MIB: u128 = 1_048_576;

/// The number of bytes in one GiB.
pub const GIB: u128 = 1_073_741_824;

/// The number of bytes in one TiB.
pub const TIB: u128 = 1_099_511_627_776;

/// Why a size could not be read or held.
#[derive(Clone, Copy, Debug, PartialEq, Eq, Structural)]
pub enum SizeError {
    /// The figure is not a decimal number of the accepted form.
    NotANumber,
    /// The figure, or a sum of sizes, is larger than can be held.
    TooLarge,
}

/// `c` is one of the digits `0` to `9`.
pub open spec fn is_digit(c: char) -> bool {
    48 <= c as u32 <= 57
}

/// The number that the digit `c` denotes.
pub open spec fn digit_of(c: char) -> nat {
    (c as u32 - 48) as nat
}

/// Every character of `s` is a digit.
pub open spec fn all_digits(s: Seq<char>) -> bool {
    forall|i: int| 0 <= i < s.len() ==> is_digit(#[trigger] s[i])
}

/// The number that a run of decimal digits denotes; the empty run denotes 0.
pub open spec fn digits_value(s: Seq<char>) -> nat
    decreases s.len(),
{
    if s.len() == 0 {
        0
    } else {
        digits_value(s.drop_last()) * 10 + digit_of(s.last())
    }
}

/// Ten to the power of `n`.
pub open spec fn pow10(n: nat) -> nat
    decreases n,
{
    if n == 0 {
        1
    } else {
        10 * pow10((n - 1) as nat)
    }
}

/// The index of the first `c` at or after `pos`, or the length of `text`.
pub open spec fn first_index(text: Seq<char>, c: char, pos: int) -> int
    decreases text.len() - pos,
{
    if pos >= text.len() {
        text.len() as int
    } else if text[pos] == c {
        pos
    } else {
        first_index(text, c, pos + 1)
    }
}

/// The digits of a decimal figure before its point.
pub open spec fn whole_digits(text: Seq<char>) -> Seq<char> {
    text.subrange(0, first_index(text, '.', 0))
}

/// The digits of a decimal figure after its point.
pub open spec fn fraction_digits(text: Seq<char>) -> Seq<char> {
    let dot = first_index(text, '.', 0);
    if dot < text.len() {
        text.subrange(dot + 1, text.len() as int)
    } else {
        Seq::empty()
    }
}

/// A decimal figure: digits, then optionally a point and at most six more
/// digits, with at least one digit in all. No sign and no exponent.
pub open spec fn is_decimal(text: Seq<char>) -> bool {
    &&& all_digits(whole_digits(text))
    &&& all_digits(fraction_digits(text))
    &&& whole_digits(text).len() + fraction_digits(text).len() >= 1
    &&& fraction_digits(text).len() <= 6
}

/// The value of a decimal figure, in millionths.
pub open spec fn decimal_millionths(text: Seq<char>) -> nat {
    digits_value(whole_digits(text)) * 1_000_000 + digits_value(fraction_digits(text)) * pow10(
        (6 - fraction_digits(text).len()) as nat,
    )
}

/// What reading `text` as a figure gives: its value in millionths, or the
/// reason why it is not read.
pub open spec fn figure(text: Seq<char>) -> Result<nat, SizeError> {
    if !is_decimal(text) {
        Err(SizeError::NotANumber)
    } else if decimal_millionths(text) > MAX_VALUE {
        Err(SizeError::TooLarge)
    } else {
        Ok(decimal_millionths(text))
    }
}

/// The number of bytes in one unit of the given name: a power of 1024 for
/// `B`, `KiB`, `MiB`, `GiB` and `TiB`, and 0 for every other name.
pub open spec fn unit_bytes(unit: Seq<char>) -> nat {
    if unit == seq!['B'] {
        1
    } else if unit == seq!['K', 'i', 'B'] {
        1024
    } else if unit == seq!['M', 'i', 'B'] {
        1_048_576
    } else if unit == seq!['G', 'i', 'B'] {
        1_073_741_824
    } else if unit == seq!['T', 'i', 'B'] {
        1_099_511_627_776
    } else {
        0
    }
}

/// The size that a figure and a unit name denote, in millionths of a byte.
pub open spec fn size_of(value: Seq<char>, unit: Seq<char>) -> Result<nat, SizeError> {
    match figure(value) {
        Ok(v) => Ok(v * unit_bytes(unit)),
        Err(e) => Err(e),
    }
}

/// A run of digits denotes no less than any run that it begins with.
pub proof fn lemma_digits_value_grows(s: Seq<char>, i: int)
    requires
        0 <= i <= s.len(),
    ensures
        digits_value(s.take(i)) <= digits_value(s),
    decreases s.len(),
{
    if i == s.len() {
        assert(s.take(i) =~= s);
    } else {
        assert(s.drop_last().take(i) =~= s.take(i));
        lemma_digits_value_grows(s.drop_last(), i);
    }
}

/// Tests for an ASCII decimal digit.
pub fn is_decimal_digit(c: char) -> (b: bool)
    ensures
        b == is_digit(c),
{
    let u: u32 = c as u32;
    48 <= u && u <= 57
}

/// Reads a run of decimal digits whose value is at most `MAX_VALUE`.
pub fn parse_digits(s: &Vec<char>) -> (r: Option<u128>)
    ensures
        r is Some <==> all_digits(s@) && digits_value(s@) <= MAX_VALUE,
        r matches Some(v) ==> v == digits_value(s@),
{
    let mut acc: u128 = 0;
    let mut i: usize = 0;
    while i < s.len()
        invariant
            i <= s.len(),
            acc == digits_value(s@.take(i as int)),
            acc <= MAX_VALUE,
            all_digits(s@.take(i as int)),
        decreases s.len() - i,
    {
        let c = s[i];
        if !is_decimal_digit(c) {
            assert(!is_digit(s@[i as int]));
            return None;
        }
        let d: u128 = (c as u32 - 48) as u128;
        let next: u128 = acc * 10 + d;
        proof {
            let longer = s@.take(i + 1);
            assert(longer.drop_last() =~= s@.take(i as int));
            assert(longer.last() == c);
            assert(next == digits_value(longer));
            assert forall|j: int| 0 <= j < longer.len() implies is_digit(#[trigger] longer[j]) by {
                if j < i {
                    assert(longer[j] == s@.take(i as int)[j]);
                }
            }
            lemma_digits_value_grows(s@, i + 1);
        }
        if next > MAX_VALUE {
            return None;
        }
        acc = next;
        i = i + 1;
    }
    assert(s@.take(i as int) =~= s@);
    Some(acc)
}

/// Finds the first occurrence of `c` in `text`.
pub fn find_char(text: &Vec<char>, c: char) -> (at: usize)
    ensures
        at == first_index(text@, c, 0),
        at <= text.len(),
{
    let mut pos: usize = 0;
    while pos < text.len() && text[pos] != c
        invariant
            pos <= text.len(),
            first_index(text@, c, pos as int) == first_index(text@, c, 0),
        decreases text.len() - pos,
    {
        pos = pos + 1;
    }
    pos
}

/// The power of ten that lifts a fraction of `len` digits to millionths.
fn fraction_weight(len: usize) -> (w: u128)
    requires
        len <= 6,
    ensures
        w == pow10((6 - len) as nat),
        1 <= w <= 1_000_000,
{
    proof {
        reveal_with_fuel(pow10, 7);
    }
    if len == 0 {
        1_000_000
    } else if len == 1 {
        100_000
    } else if len == 2 {
        10_000
    } else if len == 3 {
        1_000
    } else if len == 4 {
        100
    } else if len == 5 {
        10
    } else {
        1
    }
}

/// Reads a decimal figure.
pub fn parse_figure(text: &Vec<char>) -> (r: Result<u128, SizeError>)
    ensures
        match r {
            Ok(v) => figure(text@) == Ok::<nat, SizeError>(v as nat),
            Err(e) => figure(text@) == Err::<nat, SizeError>(e),
        },
{
    let dot = find_char(text, '.');
    let whole = copy_range(text, 0, dot);
    let fraction = if dot < text.len() {
        copy_range(text, dot + 1, text.len())
    } else {
        Vec::new()
    };
    assert(whole@ == whole_digits(text@));
    assert(fraction@ =~= fraction_digits(text@));
    if whole.len() == 0 && fraction.len() == 0 {
        return Err(SizeError::NotANumber);
    }
    if fraction.len() > 6 {
        return Err(SizeError::NotANumber);
    }
    let weight = fraction_weight(fraction.len());
    let w = parse_digits(&whole);
    let f = parse_digits(&fraction);
    match (w, f) {
        (Some(w), Some(f)) => {
            assert(f * weight <= MAX_VALUE * 1_000_000) by (nonlinear_arith)
                requires
                    f <= MAX_VALUE,
                    weight <= 1_000_000,
            ;
            let total: u128 = w * SCALE + f * weight;
            if total > MAX_VALUE {
                Err(SizeError::TooLarge)
            } else {
                Ok(total)
            }
        },
        (None, Some(_)) => {
            if is_all_digits(&whole) {
                Err(SizeError::TooLarge)
            } else {
                Err(SizeError::NotANumber)
            }
        },
        (_, None) => {
            if !is_all_digits(&whole) || !is_all_digits(&fraction) {
                Err(SizeError::NotANumber)
            } else {
                assert(digits_value(fraction@) * weight >= digits_value(fraction@))
                    by (nonlinear_arith)
                    requires
                        weight >= 1,
                ;
                Err(SizeError::TooLarge)
            }
        },
    }
}

/// Tests whether every character is a decimal digit.
pub fn is_all_digits(s: &Vec<char>) -> (b: bool)
    ensures
        b == all_digits(s@),
{
    let mut i: usize = 0;
    while i < s.len()
        invariant
            i <= s.len(),
            forall|j: int| 0 <= j < i ==> is_digit(#[trigger] s@[j]),
        decreases s.len() - i,
    {
        if !is_decimal_digit(s[i]) {
            return false;
        }
        i = i + 1;
    }
    true
}

/// The index of the unit in which a size is shown: the count of the bounds
/// 1024 B, 1024 KiB, 1024 MiB and 1024 GiB that the size exceeds. The units
/// are, by index, B, KiB, MiB, GiB and TiB.
pub open spec fn unit_index(amount: nat) -> nat {
    if amount <= 1024 * 1_000_000 {
        0
    } else if amount <= 1_048_576 * 1_000_000 {
        1
    } else if amount <= 1_073_741_824 * 1_000_000 {
        2
    } else if amount <= 1_099_511_627_776 * 1_000_000 {
        3
    } else {
        4
    }
}

/// The number of bytes in the unit of the given index.
pub open spec fn unit_size(index: nat) -> nat {
    if index == 0 {
        1
    } else if index == 1 {
        1024
    } else if index == 2 {
        1_048_576
    } else if index == 3 {
        1_073_741_824
    } else {
        1_099_511_627_776
    }
}

/// The name of the unit of the given index.
pub open spec fn unit_name(index: nat) -> Seq<char> {
    if index == 0 {
        seq!['B']
    } else if index == 1 {
        seq!['K', 'i', 'B']
    } else if index == 2 {
        seq!['M', 'i', 'B']
    } else if index == 3 {
        seq!['G', 'i', 'B']
    } else {
        seq!['T', 'i', 'B']
    }
}

/// `n / d` rounded to the nearest whole number, a tie going to the even one.
pub open spec fn round_half_even(n: nat, d: nat) -> nat {
    let q = n / d;
    let r = n % d;
    if 2 * r < d {
        q
    } else if 2 * r > d {
        q + 1
    } else if q % 2 == 0 {
        q
    } else {
        q + 1
    }
}

/// A size in hundredths of its display unit, rounded.
pub open spec fn hundredths(amount: nat) -> nat {
    round_half_even(amount * 100, unit_size(unit_index(amount)) * 1_000_000)
}

/// The digit that denotes `d`, for `d` below ten.
pub open spec fn digit_char(d: nat) -> char {
    if d == 0 {
        '0'
    } else if d == 1 {
        '1'
    } else if d == 2 {
        '2'
    } else if d == 3 {
        '3'
    } else if d == 4 {
        '4'
    } else if d == 5 {
        '5'
    } else if d == 6 {
        '6'
    } else if d == 7 {
        '7'
    } else if d == 8 {
        '8'
    } else {
        '9'
    }
}

/// The decimal digits of `n`, without leading zeros; `0` for zero.
pub open spec fn decimal_text(n: nat) -> Seq<char>
    decreases n,
{
    if n < 10 {
        seq![digit_char(n)]
    } else {
        decimal_text(n / 10).push(digit_char(n % 10))
    }
}

/// The figure of the human form of a size: the size in its display unit,
/// written with exactly two fraction digits.
pub open spec fn human_figure(amount: nat) -> Seq<char> {
    let h = hundredths(amount);
    decimal_text(h / 100) + seq!['.', digit_char((h % 100) / 10), digit_char(h % 10)]
}

/// The unit name of the human form of a size.
pub open spec fn human_unit(amount: nat) -> Seq<char> {
    unit_name(unit_index(amount))
}

/// The human form of a size: figure, one space, unit name.
pub open spec fn human_text(amount: nat) -> Seq<char> {
    human_figure(amount) + seq![' '] + human_unit(amount)
}

/// An exact size of at most `MAX_AMOUNT` millionths of a byte.
#[derive(Clone, Copy, Debug, PartialEq, Eq)]
pub struct ByteSize {
    millionths: u128,
}

impl View for ByteSize {
    type V = nat;

    /// The size in millionths of a byte.
    closed spec fn view(&self) -> nat {
        self.millionths as nat
    }
}

impl ByteSize {
    /// A size is never larger than `MAX_AMOUNT`.
    #[verifier::type_invariant]
    spec fn in_range(self) -> bool {
        self.millionths <= MAX_AMOUNT
    }

    /// The empty size.
    pub fn zero() -> (z: ByteSize)
        ensures
            z@ == 0,
    {
        ByteSize { millionths: 0 }
    }

    /// The size of `millionths` millionths of a byte, if that is in range.
    pub fn from_millionths(millionths: u128) -> (r: Option<ByteSize>)
        ensures
            r is Some <==> millionths <= MAX_AMOUNT,
            r matches Some(b) ==> b@ == millionths,
    {
        if millionths <= MAX_AMOUNT {
            Some(ByteSize { millionths })
        } else {
            None
        }
    }

    /// The size in millionths of a byte.
    pub fn millionths(&self) -> (m: u128)
        ensures
            m == self@,
            m <= MAX_AMOUNT,
    {
        proof {
            use_type_invariant(self);
        }
        self.millionths
    }

    /// The sum of two sizes, unless it is out of range.
    pub fn plus(&self, other: &ByteSize) -> (r: Option<ByteSize>)
        ensures
            r is Some <==> self@ + other@ <= MAX_AMOUNT,
            r matches Some(b) ==> b@ == self@ + other@,
    {
        proof {
            use_type_invariant(self);
            use_type_invariant(other);
        }
        let sum: u128 = self.millionths + other.millionths;
        if sum <= MAX_AMOUNT {
            Some(ByteSize { millionths: sum })
        } else {
            None
        }
    }

    /// The human form of the size, such as `12.30 MiB`.
    pub fn human(&self) -> (s: String)
        ensures
            s@ == human_text(self@),
            self@ <= MAX_AMOUNT,
    {
        proof {
            use_type_invariant(self);
        }
        let amount: u128 = self.millionths;
        let index: usize = if amount <= KIB * SCALE {
            0
        } else if amount <= MIB * SCALE {
            1
        } else if amount <= GIB * SCALE {
            2
        } else if amount <= TIB * SCALE {
            3
        } else {
            4
        };
        let bytes: u128 = if index == 0 {
            1
        } else if index == 1 {
            KIB
        } else if index == 2 {
            MIB
        } else if index == 3 {
            GIB
        } else {
            TIB
        };
        let h = rounded_hundredths(amount, bytes * SCALE);
        let mut out: Vec<char> = Vec::new();
        push_decimal(&mut out, h / 100);
        out.push('.');
        out.push(digit_to_char(((h % 100) / 10) as u8));
        out.push(digit_to_char((h % 10) as u8));
        out.push(' ');
        if index == 1 {
            out.push('K');
        } else if index == 2 {
            out.push('M');
        } else if index == 3 {
            out.push('G');
        } else if index == 4 {
            out.push('T');
        }
        if index != 0 {
            out.push('i');
        }
        out.push('B');
        assert(out@ =~= human_text(amount as nat));
        from_chars(&out)
    }
}

/// `amount * 100 / unit` rounded half to even, computed without forming
/// `amount * 100`.
fn rounded_hundredths(amount: u128, unit: u128) -> (h: u128)
    requires
        0 < unit <= 1_099_511_627_776 * 1_000_000,
        amount <= unit * 100_000_000_000_000_000_000,
        amount <= MAX_AMOUNT,
    ensures
        h == round_half_even((amount * 100) as nat, unit as nat),
        h <= 10_000_000_000_000_000_000_000,
{
    let q: u128 = amount / unit;
    let r: u128 = amount % unit;
    assert(q <= 100_000_000_000_000_000_000) by (nonlinear_arith)
        requires
            q == amount / unit,
            0 < unit,
            amount <= unit * 100_000_000_000_000_000_000,
    ;
    let n: u128 = r * 100;
    let q2: u128 = n / unit;
    let r2: u128 = n % unit;
    assert(q2 < 100) by (nonlinear_arith)
        requires
            q2 == n / unit,
            n == r * 100,
            0 < unit,
            r < unit,
    ;
    let base: u128 = q * 100 + q2;
    proof {
        lemma_fundamental_div_mod(amount as int, unit as int);
        lemma_fundamental_div_mod(n as int, unit as int);
        assert(amount == q * unit + r) by (nonlinear_arith)
            requires
                amount == unit * q + r,
        ;
        assert(r * 100 == q2 * unit + r2) by (nonlinear_arith)
            requires
                r * 100 == unit * q2 + r2,
        ;
        assert(amount * 100 == base * unit + r2) by (nonlinear_arith)
            requires
                amount == q * unit + r,
                r * 100 == q2 * unit + r2,
                base == q * 100 + q2,
        ;
        lemma_fundamental_div_mod_converse(amount * 100, unit as int, base as int, r2 as int);
        assert(base * unit <= amount * 100);
        assert(base <= 10_000_000_000_000_000_000_000) by (nonlinear_arith)
            requires
                base * unit <= amount * 100,
                amount <= unit * 100_000_000_000_000_000_000,
                0 < unit,
        ;
        if base == 10_000_000_000_000_000_000_000 {
            assert(r2 == 0) by (nonlinear_arith)
                requires
                    amount * 100 == base * unit + r2,
                    base == 10_000_000_000_000_000_000_000,
                    amount <= unit * 100_000_000_000_000_000_000,
                    r2 >= 0,
            ;
        }
    }
    let twice: u128 = r2 * 2;
    if twice < unit {
        base
    } else if twice > unit {
        base + 1
    } else if base % 2 == 0 {
        base
    } else {
        base + 1
    }
}

/// The character of a decimal digit.
fn digit_to_char(d: u8) -> (c: char)
    requires
        d < 10,
    ensures
        c == digit_char(d as nat),
{
    if d == 0 {
        '0'
    } else if d == 1 {
        '1'
    } else if d == 2 {
        '2'
    } else if d == 3 {
        '3'
    } else if d == 4 {
        '4'
    } else if d == 5 {
        '5'
    } else if d == 6 {
        '6'
    } else if d == 7 {
        '7'
    } else if d == 8 {
        '8'
    } else {
        '9'
    }
}

/// Appends the decimal digits of `n`.
fn push_decimal(out: &mut Vec<char>, n: u128)
    ensures
        final(out)@ == old(out)@ + decimal_text(n as nat),
    decreases n,
{
    if n < 10 {
        out.push(digit_to_char(n as u8));
        assert(out@ =~= old(out)@ + decimal_text(n as nat));
    } else {
        push_decimal(out, n / 10);
        out.push(digit_to_char((n % 10) as u8));
        assert(out@ =~= old(out)@ + decimal_text(n as nat));
    }
}

/// The number of bytes in one unit of the given name.
pub fn unit_multiplier(unit: &Vec<char>) -> (m: u128)
    ensures
        m == unit_bytes(unit@),
        m <= 1_099_511_627_776,
{
    if unit.len() == 1 && unit[0] == 'B' {
        assert(unit@ =~= seq!['B']);
        1
    } else if unit.len() == 3 && unit[1] == 'i' && unit[2] == 'B' {
        let first = unit[0];
        if first == 'K' {
            assert(unit@ =~= seq!['K', 'i', 'B']);
            KIB
        } else if first == 'M' {
            assert(unit@ =~= seq!['M', 'i', 'B']);
            MIB
        } else if first == 'G' {
            assert(unit@ =~= seq!['G', 'i', 'B']);
            GIB
        } else if first == 'T' {
            assert(unit@ =~= seq!['T', 'i', 'B']);
            TIB
        } else {
            assert(unit@[0] != 'K' && unit@[0] != 'M' && unit@[0] != 'G' && unit@[0] != 'T');
            0
        }
    } else {
        proof {
            if unit@.len() == 3 {
                assert(unit@[1] != 'i' || unit@[2] != 'B');
            }
            if unit@.len() == 1 {
                assert(unit@[0] != 'B');
            }
        }
        0
    }
}

/// The size that a figure and a unit name denote.
pub fn byte_size(value: &Vec<char>, unit: &Vec<char>) -> (r: Result<ByteSize, SizeError>)
    ensures
        match r {
            Ok(b) => size_of(value@, unit@) == Ok::<nat, SizeError>(b@),
            Err(e) => size_of(value@, unit@) == Err::<nat, SizeError>(e),
        },
{
    match parse_figure(value) {
        Ok(v) => {
            let m = unit_multiplier(unit);
            assert(v * m <= MAX_AMOUNT) by (nonlinear_arith)
                requires
                    v <= MAX_VALUE,
                    m <= 1_099_511_627_776,
            ;
            Ok(ByteSize { millionths: v * m })
        },
        Err(e) => Err(e),
    }
}

/// Multiplies the figure `num` by the number of bytes in the unit named
/// `unit`. A unit name other than `B`, `KiB`, `MiB`, `GiB` and `TiB` counts
/// zero bytes.
pub fn get_byte_size(num: &str, unit: &str) -> (r: Result<ByteSize, SizeError>)
    ensures
        match r {
            Ok(b) => size_of(num@, unit@) == Ok::<nat, SizeError>(b@),
            Err(e) => size_of(num@, unit@) == Err::<nat, SizeError>(e),
        },
{
    let value = to_chars(num);
    let name = to_chars(unit);
    byte_size(&value, &name)
}

/// The human form of the number of bytes that the figure `num` gives.
pub fn simplify_byte_size(num: &str) -> (r: Result<String, SizeError>)
    ensures
        match r {
            Ok(s) => figure(num@) matches Ok(v) && s@ == human_text(v),
            Err(e) => figure(num@) == Err::<nat, SizeError>(e),
        },
{
    let value = to_chars(num);
    match parse_figure(&value) {
        Ok(v) => {
            let size = ByteSize { millionths: v };
            Ok(size.human())
        },
        Err(e) => Err(e),
    }
}

/// A rounded quotient is within half the divisor of the exact one.
pub proof fn lemma_round_half_even_close(n: nat, d: nat)
    requires
        d > 0,
    ensures
        2 * (round_half_even(n, d) * d - n) <= d,
        2 * (n - round_half_even(n, d) * d) <= d,
{
    let q = n / d;
    let r = n % d;
    lemma_fundamental_div_mod(n as int, d as int);
    assert(n == q * d + r) by (nonlinear_arith)
        requires
            n == d * q + r,
    ;
    assert((q + 1) * d == q * d + d) by (nonlinear_arith);
}

/// The digits written for a number are digits, and read back as the number.
pub proof fn lemma_decimal_text_reads_back(n: nat)
    ensures
        all_digits(decimal_text(n)),
        digits_value(decimal_text(n)) == n,
        decimal_text(n).len() >= 1,
    decreases n,
{
    if n < 10 {
        let t = decimal_text(n);
        assert(t.drop_last() =~= Seq::<char>::empty());
        assert(digits_value(t.drop_last()) == 0);
    } else {
        lemma_decimal_text_reads_back(n / 10);
        let t = decimal_text(n);
        assert(t.drop_last() =~= decimal_text(n / 10));
    }
}

/// Characters other than `c` are passed over in the search for `c`.
pub proof fn lemma_first_index_skips(text: Seq<char>, c: char, pos: int, to: int)
    requires
        0 <= pos <= to <= text.len(),
        forall|i: int| pos <= i < to ==> text[i] != c,
    ensures
        first_index(text, c, pos) == first_index(text, c, to),
    decreases to - pos,
{
    if pos < to {
        lemma_first_index_skips(text, c, pos + 1, to);
    }
}

/// The unit names of the human form are the names that are read.
pub proof fn lemma_unit_name_bytes(index: nat)
    ensures
        unit_bytes(unit_name(index)) == unit_size(index),
{
    let name = unit_name(index);
    if index == 0 {
    } else {
        assert(name.len() == 3);
        assert(seq!['B'].len() == 1);
        if index == 1 {
        } else if index == 2 {
            assert(name[0] != seq!['K', 'i', 'B'][0]);
        } else if index == 3 {
            assert(name[0] != seq!['K', 'i', 'B'][0]);
            assert(name[0] != seq!['M', 'i', 'B'][0]);
        } else {
            assert(name[0] != seq!['K', 'i', 'B'][0]);
            assert(name[0] != seq!['M', 'i', 'B'][0]);
            assert(name[0] != seq!['G', 'i', 'B'][0]);
        }
    }
}

/// A size in range is at most 10^22 hundredths of its display unit.
pub proof fn lemma_hundredths_bound(amount: nat)
    requires
        amount <= MAX_AMOUNT,
    ensures
        hundredths(amount) <= 10_000_000_000_000_000_000_000,
{
    let m = unit_size(unit_index(amount)) * 1_000_000;
    let n = amount * 100;
    let q = n / m;
    let r = n % m;
    assert(amount <= m * 100_000_000_000_000_000_000);
    lemma_fundamental_div_mod(n as int, m as int);
    assert(q <= 10_000_000_000_000_000_000_000 && (q == 10_000_000_000_000_000_000_000 ==> r
        == 0)) by (nonlinear_arith)
        requires
            n == m * q + r,
            n == amount * 100,
            amount <= m * 100_000_000_000_000_000_000,
            0 <= r,
            0 <= q,
            m > 0,
    ;
}

/// The figure of the human form reads as the hundredths it was written from.
pub proof fn lemma_human_figure_reads_back(amount: nat)
    requires
        amount <= MAX_AMOUNT,
    ensures
        figure(human_figure(amount)) == Ok::<nat, SizeError>(hundredths(amount) * 10_000),
{
    let h = hundredths(amount);
    let whole = decimal_text(h / 100);
    let tens = digit_char((h % 100) / 10);
    let ones = digit_char(h % 10);
    let text = human_figure(amount);
    lemma_hundredths_bound(amount);
    lemma_decimal_text_reads_back(h / 100);
    assert(text =~= whole + seq!['.', tens, ones]);
    assert forall|i: int| 0 <= i < whole.len() implies text[i] != '.' by {
        assert(is_digit(whole[i]));
        assert(text[i] == whole[i]);
    }
    lemma_first_index_skips(text, '.', 0, whole.len() as int);
    assert(text[whole.len() as int] == '.');
    assert(first_index(text, '.', 0) == whole.len());
    assert(whole_digits(text) =~= whole);
    let fraction = fraction_digits(text);
    assert(fraction =~= seq![tens, ones]);
    assert(fraction.drop_last() =~= seq![tens]);
    assert(seq![tens].drop_last() =~= Seq::<char>::empty());
    reveal_with_fuel(digits_value, 3);
    assert(digits_value(fraction) == ((h % 100) / 10) * 10 + h % 10);
    assert(digits_value(fraction) == h % 100);
    reveal_with_fuel(pow10, 5);
    assert(pow10(4) == 10_000);
    assert(decimal_millionths(text) == (h / 100) * 1_000_000 + (h % 100) * 10_000);
    assert(decimal_millionths(text) == h * 10_000);
}

/// The human form has one space: it splits there into its figure and its
/// unit name.
pub proof fn lemma_human_text_splits(amount: nat)
    ensures
        pieces(human_text(amount), ' ') == seq![human_figure(amount), human_unit(amount)],
{
    let h = hundredths(amount);
    let whole = decimal_text(h / 100);
    let figure = human_figure(amount);
    let unit = human_unit(amount);
    lemma_decimal_text_reads_back(h / 100);
    assert forall|i: int| 0 <= i < figure.len() implies figure[i] != ' ' by {
        if i < whole.len() {
            assert(figure[i] == whole[i]);
            assert(is_digit(whole[i]));
        }
    }
    lemma_pieces_of_two(figure, ' ', unit);
}

/// Reading the human form of a size back gives the size again, to within
/// half a hundredth of the unit it is shown in: the human form splits at its
/// space into a figure and a unit name, and the size that these two denote
/// differs from the size shown by at most that much.
pub proof fn lemma_human_round_trip(amount: nat)
    requires
        amount <= MAX_AMOUNT,
    ensures
        pieces(human_text(amount), ' ') == seq![human_figure(amount), human_unit(amount)],
        size_of(human_figure(amount), human_unit(amount)) matches Ok(back) && 200 * (back - amount)
            <= unit_size(unit_index(amount)) * 1_000_000 && 200 * (amount - back) <= unit_size(
            unit_index(amount),
        ) * 1_000_000,
{
    lemma_human_text_splits(amount);
    let index = unit_index(amount);
    let h = hundredths(amount);
    let m = unit_size(index) * 1_000_000;
    lemma_human_figure_reads_back(amount);
    lemma_unit_name_bytes(index);
    lemma_round_half_even_close(amount * 100, m);
    let back = (h * 10_000) * unit_size(index);
    assert(size_of(human_figure(amount), human_unit(amount)) == Ok::<nat, SizeError>(back));
    assert(100 * back == h * m) by (nonlinear_arith)
        requires
            back == (h * 10_000) * unit_size(index),
            m == unit_size(index) * 1_000_000,
    ;
}

} // verus!
