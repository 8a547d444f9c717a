use vstd::prelude::*;

verus! {

/// Compares two string slices character by character.
pub fn str_equals(a: &str, b: &str) -> (r: bool)
    ensures
        r == (a@ == b@),
{
    let n = a.unicode_len();
    let m = b.unicode_len();
    if n != m {
        return false;
    }
    let mut i: usize = 0;
    while i < n
        invariant
            n == a@.len(),
            m == b@.len(),
            n == m,
            i <= n,
            forall|j: int| 0 <= j < i ==> a@[j] == b@[j],
        decreases n - i,
    {
        if a.get_char(i) != b.get_char(i) {
            assert(a@[i as int] != b@[i as int]);
            return false;
        }
        i = i + 1;
    }
    assert(a@ =~= b@);
    true
}

/// The decimal digit character for a number from 0 to 9.
pub open spec fn spec_digit_char(d: int) -> char {
    if d == 0 {
        '0'
    } else if d == 1 {
        '1'
    } else if d == 2 {
        '2'
    } else if d == 3 {
        '3'
    } else if d == 4 {
        '4'
    } else if d == 5 {
        '5'
    } else if d == 6 {
        '6'
    } else if d == 7 {
        '7'
    } else if d == 8 {
        '8'
    } else {
        '9'
    }
}

/// The decimal digits of a number, most significant first, without leading zeros ("0" for zero).
pub open spec fn spec_decimal_digits(n: nat) -> Seq<nat>
    decreases n,
{
    if n < 10 {
        seq![n]
    } else {
        spec_decimal_digits(n / 10).push(n % 10)
    }
}

/// The decimal text of a number, as `to_string` writes it.
pub open spec fn spec_decimal(n: nat) -> Seq<char> {
    spec_decimal_digits(n).map_values(|d: nat| spec_digit_char(d as int))
}

/// The text of one decimal digit.
pub fn digit_str(d: u64) -> (s: &'static str)
    requires
        d < 10,
    ensures
        s@ == seq![spec_digit_char(d as int)],
{
    proof {
        reveal_strlit("0");
        reveal_strlit("1");
        reveal_strlit("2");
        reveal_strlit("3");
        reveal_strlit("4");
        reveal_strlit("5");
        reveal_strlit("6");
        reveal_strlit("7");
        reveal_strlit("8");
        reveal_strlit("9");
    }
    match d {
        0 => "0",
        1 => "1",
        2 => "2",
        3 => "3",
        4 => "4",
        5 => "5",
        6 => "6",
        7 => "7",
        8 => "8",
        _ => "9",
    }
}

/// The decimal digits of a number, most significant first.
pub fn decimal_digits(n: u64) -> (v: Vec<u64>)
    ensures
        v@.map_values(|d: u64| d as nat) == spec_decimal_digits(n as nat),
        forall|i: int| 0 <= i < v@.len() ==> v@[i] < 10,
    decreases n,
{
    if n < 10 {
        let mut v: Vec<u64> = Vec::new();
        v.push(n);
        assert(v@.map_values(|d: u64| d as nat) =~= seq![n as nat]);
        v
    } else {
        let mut v = decimal_digits(n / 10);
        let ghost before = v@;
        v.push(n % 10);
        assert(v@.map_values(|d: u64| d as nat) =~= before.map_values(|d: u64| d as nat).push((n % 10) as nat));
        v
    }
}

/// The decimal text of a number.
pub fn decimal_string(n: u64) -> (s: String)
    ensures
        s@ == spec_decimal(n as nat),
{
    let digits = decimal_digits(n);
    let ghost ds = spec_decimal_digits(n as nat);
    let mut s = String::new();
    let mut i: usize = 0;
    while i < digits.len()
        invariant
            i <= digits@.len(),
            digits@.map_values(|d: u64| d as nat) == ds,
            forall|j: int| 0 <= j < digits@.len() ==> digits@[j] < 10,
            s@ == ds.take(i as int).map_values(|d: nat| spec_digit_char(d as int)),
        decreases digits@.len() - i,
    {
        assert(digits@[i as int] < 10);
        s.append(digit_str(digits[i]));
        assert(ds[i as int] == digits@[i as int] as nat);
        assert(ds.take(i + 1).map_values(|d: nat| spec_digit_char(d as int)) =~= ds.take(i as int).map_values(
            |d: nat| spec_digit_char(d as int),
        ).push(spec_digit_char(ds[i as int] as int)));
        i = i + 1;
    }
    assert(ds.take(i as int) =~= ds);
    s
}

/// The text with every space taken out.
pub open spec fn spec_strip_spaces(s: Seq<char>) -> Seq<char>
    decreases s.len(),
{
    if s.len() == 0 {
        s
    } else if s.last() == ' ' {
        spec_strip_spaces(s.drop_last())
    } else {
        spec_strip_spaces(s.drop_last()).push(s.last())
    }
}

/// Takes every space out of the text, as `replace(" ", "")` does.
pub fn strip_spaces(text: &str) -> (r: String)
    ensures
        r@ == spec_strip_spaces(text@),
{
    let n = text.unicode_len();
    let mut r = String::new();
    let mut i: usize = 0;
    while i < n
        invariant
            n == text@.len(),
            i <= n,
            r@ == spec_strip_spaces(text@.take(i as int)),
        decreases n - i,
    {
        assert(text@.take(i + 1).drop_last() =~= text@.take(i as int));
        let c = text.get_char(i);
        if c != ' ' {
            let piece = text.substring_char(i, i + 1);
            assert(piece@ =~= seq![c]);
            r.append(piece);
        }
        i = i + 1;
    }
    assert(text@.take(i as int) =~= text@);
    r
}

} // verus!
