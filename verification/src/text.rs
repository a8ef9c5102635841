//! Rendering of numbers and byte strings as text.

use vstd::prelude::*;

verus! {

/// `String::push` appends one character to the end of the string.
pub assume_specification[ String::push ](s: &mut String, ch: char)
    ensures
        final(s)@ == old(s)@.push(ch),
;

/// The character of a decimal digit.
pub open spec fn digit_char(d: nat) -> char {
    if d == 0 { '0' }
    else if d == 1 { '1' }
    else if d == 2 { '2' }
    else if d == 3 { '3' }
    else if d == 4 { '4' }
    else if d == 5 { '5' }
    else if d == 6 { '6' }
    else if d == 7 { '7' }
    else if d == 8 { '8' }
    else { '9' }
}

/// The decimal notation of a natural number, without leading zeros.
pub open spec fn decimal(n: nat) -> Seq<char>
    decreases n,
{
    if n < 10 {
        seq![digit_char(n)]
    } else {
        decimal(n / 10).push(digit_char(n % 10))
    }
}

/// `n` spaces.
pub open spec fn spaces(n: nat) -> Seq<char> {
    Seq::new(n, |i: int| ' ')
}

/// `t` right-aligned in a field of at least `width` characters.
pub open spec fn pad_left(t: Seq<char>, width: nat) -> Seq<char> {
    if t.len() < width {
        spaces((width - t.len()) as nat) + t
    } else {
        t
    }
}

/// The decimal notation of `n`, right-aligned in `width` characters.
pub open spec fn padded_decimal(n: nat, width: nat) -> Seq<char> {
    pad_left(decimal(n), width)
}

/// The lower-case hexadecimal digit of a value below 16.
pub open spec fn hex_char(v: nat) -> char {
    if v < 10 { digit_char(v) }
    else if v == 10 { 'a' }
    else if v == 11 { 'b' }
    else if v == 12 { 'c' }
    else if v == 13 { 'd' }
    else if v == 14 { 'e' }
    else { 'f' }
}

/// Lower-case hexadecimal notation of a byte string, two digits per byte,
/// high nibble first.
pub open spec fn lower_hex(bytes: Seq<u8>) -> Seq<char>
    decreases bytes.len(),
{
    if bytes.len() == 0 {
        Seq::empty()
    } else {
        let b = bytes.last();
        lower_hex(bytes.drop_last()).push(hex_char((b / 16) as nat)).push(hex_char((b % 16) as nat))
    }
}

fn digit(d: usize) -> (c: char)
    requires
        d < 10,
    ensures
        c == digit_char(d as nat),
{
    if d == 0 { '0' }
    else if d == 1 { '1' }
    else if d == 2 { '2' }
    else if d == 3 { '3' }
    else if d == 4 { '4' }
    else if d == 5 { '5' }
    else if d == 6 { '6' }
    else if d == 7 { '7' }
    else if d == 8 { '8' }
    else { '9' }
}

/// Appends the decimal notation of `n` to `s`.
pub fn push_decimal(s: &mut String, n: usize)
    ensures
        final(s)@ == old(s)@ + decimal(n as nat),
    decreases n,
{
    if n >= 10 {
        push_decimal(s, n / 10);
    }
    let c = digit(n % 10);
    s.push(c);
    assert(final(s)@ == old(s)@ + decimal(n as nat)) by {
        if n >= 10 {
            assert(decimal(n as nat) == decimal((n / 10) as nat).push(digit_char((n % 10) as nat)));
        }
    }
}

/// The number of characters of the decimal notation of `n`.
pub fn decimal_len(n: usize) -> (len: usize)
    ensures
        len == decimal(n as nat).len(),
    decreases n,
{
    if n < 10 {
        1
    } else {
        let l = decimal_len(n / 10);
        proof {
            lemma_decimal_len_bound((n / 10) as nat);
        }
        l + 1
    }
}

/// The decimal notation of `n` has at most as many characters as `n` is large, plus one.
pub proof fn lemma_decimal_len_bound(n: nat)
    ensures
        decimal(n).len() <= n + 1,
        decimal(n).len() >= 1,
    decreases n,
{
    if n >= 10 {
        lemma_decimal_len_bound(n / 10);
    }
}

/// Appends `count` spaces to `s`.
pub fn push_spaces(s: &mut String, count: usize)
    ensures
        final(s)@ == old(s)@ + spaces(count as nat),
{
    let mut i: usize = 0;
    while i < count
        invariant
            i <= count,
            s@ == old(s)@ + spaces(i as nat),
        decreases count - i,
    {
        s.push(' ');
        i = i + 1;
        assert(s@ =~= old(s)@ + spaces(i as nat));
    }
}

/// Appends the decimal notation of `n`, right-aligned in `width` characters.
pub fn push_padded(s: &mut String, n: usize, width: usize)
    ensures
        final(s)@ == old(s)@ + padded_decimal(n as nat, width as nat),
{
    let len = decimal_len(n);
    if len < width {
        push_spaces(s, width - len);
    }
    push_decimal(s, n);
    assert(final(s)@ =~= old(s)@ + padded_decimal(n as nat, width as nat));
}


/// A right-aligned field is as wide as asked, or as the number when it is
/// wider, and ends with the number's digits.
pub proof fn lemma_padded_width(n: nat, width: nat)
    ensures
        padded_decimal(n, width).len() == if decimal(n).len() < width { width } else { decimal(n).len() },
        padded_decimal(n, width).subrange(
            padded_decimal(n, width).len() - decimal(n).len(),
            padded_decimal(n, width).len() as int,
        ) == decimal(n),
{
    let d = decimal(n);
    let p = padded_decimal(n, width);
    assert(p.subrange(p.len() - d.len(), p.len() as int) =~= d);
}

/// The decimal notation has no leading zero, save for zero itself.
pub proof fn lemma_decimal_no_leading_zero(n: nat)
    ensures
        decimal(n).len() > 1 ==> decimal(n)[0] != '0',
        decimal(n).len() == 1 <==> n < 10,
    decreases n,
{
    lemma_decimal_len_bound(n);
    if n >= 10 {
        lemma_decimal_no_leading_zero(n / 10);
        lemma_decimal_len_bound(n / 10);
        let d = decimal(n / 10);
        assert(decimal(n)[0] == d[0]);
        if d.len() == 1 {
            assert(n / 10 >= 1);
            assert(d[0] == digit_char((n / 10) as nat));
        }
    }
}

/// Decimal notation holds only digits.
pub proof fn lemma_decimal_digits(n: nat)
    ensures
        forall|i: int| 0 <= i < decimal(n).len() ==> '0' <= #[trigger] decimal(n)[i] <= '9',
    decreases n,
{
    if n >= 10 {
        lemma_decimal_digits(n / 10);
        let d = decimal((n / 10) as nat);
        assert(decimal(n) == d.push(digit_char((n % 10) as nat)));
        assert forall|i: int| 0 <= i < decimal(n).len() implies '0' <= #[trigger] decimal(n)[i] <= '9' by {
            if i < d.len() {
                assert(decimal(n)[i] == d[i]);
            }
        }
    }
}

} // verus!
