use vstd::prelude::*;
use crate::text::{decimal_digits, spec_decimal_digits};

verus! {

/// The lit segments of a seven-segment digit, in the order top, upper right, lower right,
/// bottom, lower left, upper left, middle; a value above 9 lights nothing.
pub open spec fn spec_segments(digit: u32) -> Seq<bool> {
    if digit == 0 {
        seq![true, true, true, true, true, true, false]
    } else if digit == 1 {
        seq![false, true, true, false, false, false, false]
    } else if digit == 2 {
        seq![true, true, false, true, true, false, true]
    } else if digit == 3 {
        seq![true, true, true, true, false, false, true]
    } else if digit == 4 {
        seq![false, true, true, false, false, true, true]
    } else if digit == 5 {
        seq![true, false, true, true, false, true, true]
    } else if digit == 6 {
        seq![true, false, true, true, true, true, true]
    } else if digit == 7 {
        seq![true, true, true, false, false, false, false]
    } else if digit == 8 {
        seq![true, true, true, true, true, true, true]
    } else if digit == 9 {
        seq![true, true, true, true, false, true, true]
    } else {
        seq![false, false, false, false, false, false, false]
    }
}

/// The segments to light for a digit of the ammo counter.
pub fn digit_segments(digit: u32) -> (segs: [bool; 7])
    ensures
        segs@ == spec_segments(digit),
{
    let segs = match digit {
        0 => [true, true, true, true, true, true, false],
        1 => [false, true, true, false, false, false, false],
        2 => [true, true, false, true, true, false, true],
        3 => [true, true, true, true, false, false, true],
        4 => [false, true, true, false, false, true, true],
        5 => [true, false, true, true, false, true, true],
        6 => [true, false, true, true, true, true, true],
        7 => [true, true, true, false, false, false, false],
        8 => [true, true, true, true, true, true, true],
        9 => [true, true, true, true, false, true, true],
        _ => [false, false, false, false, false, false, false],
    };
    assert(segs@ =~= spec_segments(digit));
    segs
}

/// The digits that the ammo counter draws for a number, most significant first.
pub fn counter_digits(number: u32) -> (digits: Vec<u32>)
    ensures
        digits@.map_values(|d: u32| d as nat) == spec_decimal_digits(number as nat),
        forall|i: int| 0 <= i < digits@.len() ==> digits@[i] < 10,
{
    let wide = decimal_digits(number as u64);
    let mut digits: Vec<u32> = Vec::new();
    let mut i: usize = 0;
    while i < wide.len()
        invariant
            i <= wide@.len(),
            forall|j: int| 0 <= j < wide@.len() ==> wide@[j] < 10,
            digits@.len() == i,
            forall|j: int| 0 <= j < i ==> digits@[j] as u64 == wide@[j],
        decreases wide@.len() - i,
    {
        digits.push(wide[i] as u32);
        i = i + 1;
    }
    assert(digits@.map_values(|d: u32| d as nat) =~= wide@.map_values(|d: u64| d as nat));
    assert forall|j: int| 0 <= j < digits@.len() implies digits@[j] < 10 by {
        assert(digits@[j] as u64 == wide@[j]);
    }
    digits
}

/// What the gauge above a gun shows.
#[derive(Clone, Copy, Debug, PartialEq, Eq, Structural)]
pub enum AmmoDisplay {
    /// The spinning reload ring.
    Reloading,
    /// A seven-segment count, for more than 18 rounds.
    Counter,
    /// One dot per round, in rows of three.
    Dots,
    /// Nothing: the magazine is empty.
    Empty,
}

/// Chooses the ammo gauge: reloading comes first, then a counter above 18 rounds, then dots.
pub fn ammo_display(reloading: bool, current_ammo: u32) -> (d: AmmoDisplay)
    ensures
        d == (if reloading {
            AmmoDisplay::Reloading
        } else if current_ammo > 18 {
            AmmoDisplay::Counter
        } else if current_ammo > 0 {
            AmmoDisplay::Dots
        } else {
            AmmoDisplay::Empty
        }),
{
    if reloading {
        AmmoDisplay::Reloading
    } else if current_ammo > 18 {
        AmmoDisplay::Counter
    } else if current_ammo > 0 {
        AmmoDisplay::Dots
    } else {
        AmmoDisplay::Empty
    }
}

/// The row and column of the dot for round `i`, three dots to a row.
pub fn ammo_dot_cell(i: u32) -> (cell: (u32, u32))
    ensures
        cell.0 == i / 3,
        cell.1 == i % 3,
        cell.0 * 3 + cell.1 == i,
{
    (i / 3, i % 3)
}

/// The number that a row of decimal digits stands for.
pub open spec fn digits_value(ds: Seq<nat>) -> nat
    decreases ds.len(),
{
    if ds.len() == 0 {
        0
    } else {
        digits_value(ds.drop_last()) * 10 + ds.last()
    }
}

/// Reading the counter's digits back gives the number: each is a digit and together they spell it.
pub proof fn lemma_counter_digits_spell_number(n: nat)
    ensures
        digits_value(spec_decimal_digits(n)) == n,
        forall|i: int| 0 <= i < spec_decimal_digits(n).len() ==> #[trigger] spec_decimal_digits(n)[i] < 10,
    decreases n,
{
    if n >= 10 {
        lemma_counter_digits_spell_number(n / 10);
        let ds = spec_decimal_digits(n);
        assert(ds.drop_last() =~= spec_decimal_digits(n / 10));
        assert(ds.last() == n % 10);
        vstd::arithmetic::div_mod::lemma_fundamental_div_mod(n as int, 10);
        assert(digits_value(ds) == digits_value(ds.drop_last()) * 10 + ds.last());
        assert(digits_value(ds.drop_last()) == n / 10);
    } else {
        let ds = spec_decimal_digits(n);
        assert(ds.drop_last() =~= Seq::<nat>::empty());
        assert(digits_value(ds) == digits_value(ds.drop_last()) * 10 + ds.last());
    }
}

/// The ten digits light ten different patterns, so every digit reads unambiguously, and a value
/// above 9 lights nothing.
pub proof fn lemma_digit_patterns_distinct(a: u32, b: u32)
    ensures
        a <= 9 && b <= 9 && a != b ==> spec_segments(a) != spec_segments(b),
        a > 9 ==> forall|i: int| 0 <= i < 7 ==> !spec_segments(a)[i],
{
    if a <= 9 && b <= 9 && a != b {
        let sa = spec_segments(a);
        let sb = spec_segments(b);
        assert(sa[0] != sb[0] || sa[1] != sb[1] || sa[2] != sb[2] || sa[3] != sb[3] || sa[4] != sb[4]
            || sa[5] != sb[5] || sa[6] != sb[6]);
    }
}

} // verus!
