use vstd::prelude::*;
use crate::text::chars_of;
use crate::text::push_char;

verus! {

/// `c` is one of the ASCII digits `0` to `9`.
pub open spec fn is_digit(c: char) -> bool {
    c == '0' || c == '1' || c == '2' || c == '3' || c == '4' || c == '5' || c == '6' || c == '7'
        || c == '8' || c == '9'
}

/// The value of a digit character (0 for any other character).
pub open spec fn digit_value(c: char) -> nat {
    if c == '1' {
        1
    } else if c == '2' {
        2
    } else if c == '3' {
        3
    } else if c == '4' {
        4
    } else if c == '5' {
        5
    } else if c == '6' {
        6
    } else if c == '7' {
        7
    } else if c == '8' {
        8
    } else if c == '9' {
        9
    } else {
        0
    }
}

/// The digit character for a value below ten.
pub open spec fn digit_char(d: nat) -> char {
    if d == 0 {
        '0'
    } else if d == 1 {
        '1'
    } else if d == 2 {
        '2'
    } else if d == 3 {
        '3'
    } else if d == 4 {
        '4'
    } else if d == 5 {
        '5'
    } else if d == 6 {
        '6'
    } else if d == 7 {
        '7'
    } else if d == 8 {
        '8'
    } else {
        '9'
    }
}

/// The value of `c` when it is a digit.
fn digit_of(c: char) -> (r: Option<u32>)
    ensures
        r is Some <==> is_digit(c),
        r matches Some(v) ==> v == digit_value(c),
{
    match c {
        '0' => Some(0),
        '1' => Some(1),
        '2' => Some(2),
        '3' => Some(3),
        '4' => Some(4),
        '5' => Some(5),
        '6' => Some(6),
        '7' => Some(7),
        '8' => Some(8),
        '9' => Some(9),
        _ => None,
    }
}

/// The digit character for `d`.
fn char_of_digit(d: u64) -> (c: char)
    requires
        d < 10,
    ensures
        c == digit_char(d as nat),
{
    match d {
        0 => '0',
        1 => '1',
        2 => '2',
        3 => '3',
        4 => '4',
        5 => '5',
        6 => '6',
        7 => '7',
        8 => '8',
        _ => '9',
    }
}

/// Every character of `s` is a digit.
pub open spec fn all_digits(s: Seq<char>) -> bool {
    forall|i: int| 0 <= i < s.len() ==> #[trigger] is_digit(s[i])
}

/// The number that a string of digits writes in base ten.
pub open spec fn digits_value(s: Seq<char>) -> nat
    decreases s.len(),
{
    if s.len() == 0 {
        0
    } else {
        digits_value(s.drop_last()) * 10 + digit_value(s.last())
    }
}

/// The shortest base-ten writing of `n`, as `format!("{}", n)` gives it.
pub open spec fn decimal(n: nat) -> Seq<char>
    decreases n,
{
    if n < 10 {
        seq![digit_char(n)]
    } else {
        decimal(n / 10).push(digit_char(n % 10))
    }
}

/// What follows an optional leading `+`, the only sign an unsigned number may carry.
pub open spec fn unsigned_digits(s: Seq<char>) -> Seq<char> {
    if s.len() > 0 && s[0] == '+' {
        s.drop_first()
    } else {
        s
    }
}

/// What `str::parse::<u16>` gives: the value when `s` is an optional `+` followed by
/// at least one digit and nothing else, and the value fits in 16 bits.
pub open spec fn parse_u16_spec(s: Seq<char>) -> Option<u16> {
    let d = unsigned_digits(s);
    if d.len() > 0 && all_digits(d) && digits_value(d) <= 65535 {
        Some(digits_value(d) as u16)
    } else {
        None
    }
}

proof fn lemma_value_step(s: Seq<char>, j: int)
    requires
        0 <= j < s.len(),
    ensures
        digits_value(s.take(j + 1)) == digits_value(s.take(j)) * 10 + digit_value(s[j]),
{
    assert(s.take(j + 1).drop_last() =~= s.take(j));
}

proof fn lemma_prefix_value_le(s: Seq<char>, i: int)
    requires
        0 <= i <= s.len(),
    ensures
        digits_value(s.take(i)) <= digits_value(s),
    decreases s.len(),
{
    if i == s.len() {
        assert(s.take(i) =~= s);
    } else {
        let t = s.drop_last();
        lemma_prefix_value_le(t, i);
        assert(t.take(i) =~= s.take(i));
    }
}

/// Parses a 16-bit unsigned number as `str::parse::<u16>` does.
pub fn parse_u16(text: &str) -> (r: Option<u16>)
    ensures
        r == parse_u16_spec(text@),
{
    let s = chars_of(text);
    let n: usize = s.len();
    let start: usize = if n > 0 && s[0] == '+' { 1 } else { 0 };
    let ghost d = unsigned_digits(text@);
    assert(d =~= text@.subrange(start as int, n as int));
    if start == n {
        return None;
    }
    let mut value: u32 = 0;
    let mut j: usize = start;
    while j < n
        invariant
            s@ == text@,
            n == s@.len(),
            start <= j <= n,
            d == text@.subrange(start as int, n as int),
            d == unsigned_digits(text@),
            all_digits(d.take(j - start)),
            value as nat == digits_value(d.take(j - start)),
            value <= 65535,
        decreases n - j,
    {
        let c: char = s[j];
        proof {
            assert(d[j - start] == c);
        }
        let dv = digit_of(c);
        if dv.is_none() {
            assert(!is_digit(d[j - start]));
            assert(!all_digits(d));
            assert(parse_u16_spec(text@) is None);
            return None;
        }
        let next: u32 = value * 10 + dv.unwrap();
        proof {
            lemma_value_step(d, j - start);
            assert(all_digits(d.take(j - start + 1)));
        }
        if next > 65535 {
            proof {
                lemma_prefix_value_le(d, j - start + 1);
                assert(digits_value(d) > 65535);
                assert(parse_u16_spec(text@) is None);
            }
            return None;
        }
        value = next;
        j = j + 1;
    }
    assert(d.take(n - start) =~= d);
    Some(value as u16)
}

/// Appends the base-ten writing of `n` to `s`.
pub fn push_decimal(s: &mut String, n: u64)
    ensures
        final(s)@ == old(s)@ + decimal(n as nat),
    decreases n,
{
    if n >= 10 {
        push_decimal(s, n / 10);
    }
    let c: char = char_of_digit(n % 10);
    push_char(s, c);
    if n >= 10 {
        assert(decimal(n as nat) == decimal((n / 10) as nat).push(digit_char((n % 10) as nat)));
    } else {
        assert(decimal(n as nat) == seq![digit_char(n as nat)]);
    }
}

/// The base-ten writing of `n`, as `format!("{}", n)` gives it.
pub fn decimal_string(n: u64) -> (r: String)
    ensures
        r@ == decimal(n as nat),
{
    let mut s = String::new();
    push_decimal(&mut s, n);
    assert(s@ =~= decimal(n as nat));
    s
}

proof fn lemma_digit_char(d: nat)
    requires
        d < 10,
    ensures
        is_digit(digit_char(d)),
        digit_value(digit_char(d)) == d,
{
}

proof fn lemma_decimal_shape(n: nat)
    ensures
        decimal(n).len() > 0,
        all_digits(decimal(n)),
        digits_value(decimal(n)) == n,
        is_digit(decimal(n)[0]),
    decreases n,
{
    if n < 10 {
        lemma_digit_char(n);
        let q = decimal(n);
        assert(q.drop_last() =~= Seq::<char>::empty());
        assert(digits_value(q.drop_last()) == 0);
        assert(q.last() == digit_char(n));
        assert(digits_value(q) == digits_value(q.drop_last()) * 10 + digit_value(q.last()));
    } else {
        lemma_digit_char(n % 10);
        lemma_decimal_shape(n / 10);
        let p = decimal(n / 10);
        let q = decimal(n);
        assert(q.drop_last() =~= p);
        assert(q.last() == digit_char(n % 10));
        assert(digits_value(q) == digits_value(q.drop_last()) * 10 + digit_value(q.last()));
        assert(decimal(n)[0] == p[0]);
        assert((n / 10) * 10 + n % 10 == n) by (nonlinear_arith);
    }
}

/// A number written in base ten holds no `:`.
pub proof fn lemma_decimal_has_no_colon(n: nat)
    ensures
        forall|j: int| 0 <= j < decimal(n).len() ==> decimal(n)[j] != ':',
{
    lemma_decimal_shape(n);
    assert forall|j: int| 0 <= j < decimal(n).len() implies decimal(n)[j] != ':' by {
        assert(is_digit(decimal(n)[j]));
    }
}

/// Writing a 16-bit number in base ten and parsing it back gives the number again.
pub proof fn lemma_parse_decimal_roundtrip(n: u16)
    ensures
        parse_u16_spec(decimal(n as nat)) == Some(n),
{
    lemma_decimal_shape(n as nat);
    assert(unsigned_digits(decimal(n as nat)) == decimal(n as nat));
}

} // verus!
