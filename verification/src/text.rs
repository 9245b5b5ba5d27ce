//! Building human-readable text: decimal numbers and hex byte lists.

use vstd::prelude::*;

verus! {

/// `String::push` appends one character.
pub assume_specification[ String::push ](s: &mut String, ch: char)
    ensures
        final(s)@ == old(s)@.push(ch),
;

/// The decimal digit character for `d < 10`.
pub open spec fn decimal_digit(d: nat) -> char {
    (48 + d) as char
}

/// The decimal representation of `n`, without leading zeros.
pub open spec fn decimal(n: nat) -> Seq<char>
    decreases n,
{
    if n < 10 {
        seq![decimal_digit(n)]
    } else {
        decimal(n / 10).push(decimal_digit(n % 10))
    }
}

/// The number that the decimal digit characters `s` denote, most
/// significant first.
pub open spec fn digit_chars_value(s: Seq<char>) -> nat
    decreases s.len(),
{
    if s.len() == 0 {
        0
    } else {
        digit_chars_value(s.drop_last()) * 10 + (s.last() as int - 48) as nat
    }
}

/// The decimal text of a number is a non-empty string of the ASCII digits
/// `0`–`9` that denotes the number, and it has no leading zero.
pub proof fn lemma_decimal_denotes(n: nat)
    ensures
        decimal(n).len() > 0,
        forall|i: int| 0 <= i < decimal(n).len() ==> 48 <= #[trigger] (decimal(n)[i] as int) <= 57,
        digit_chars_value(decimal(n)) == n,
        n > 0 ==> decimal(n)[0] != '0',
        n < 10 <==> decimal(n).len() == 1,
    decreases n,
{
    let d = decimal(n);
    if n >= 10 {
        lemma_decimal_denotes(n / 10);
        let p = decimal(n / 10);
        assert(d.drop_last() =~= p);
        assert forall|i: int| 0 <= i < d.len() implies 48 <= #[trigger] (d[i] as int) <= 57 by {
            if i < d.len() - 1 {
                assert(d[i] == p[i]);
            }
        }
        assert(d.last() as int - 48 == n % 10);
        assert(n == (n / 10) * 10 + n % 10);
        assert(d[0] == p[0]);
        assert(digit_chars_value(d) == digit_chars_value(d.drop_last()) * 10 + (d.last() as int - 48) as nat);
    } else {
        assert(d.drop_last() =~= Seq::<char>::empty());
        assert(d.last() as int - 48 == n);
        assert(digit_chars_value(d) == digit_chars_value(d.drop_last()) * 10 + (d.last() as int - 48) as nat);
    }
}

/// The lowercase hexadecimal digit character for `d < 16`.
pub open spec fn hex_digit(d: nat) -> char {
    if d < 10 {
        (48 + d) as char
    } else {
        (87 + d) as char
    }
}

/// The two lowercase hexadecimal digits of `b`.
pub open spec fn hex_pair(b: u8) -> Seq<char> {
    seq![hex_digit((b / 16) as nat), hex_digit((b % 16) as nat)]
}

/// The bytes `bs` as two-digit hexadecimal numbers separated by spaces.
pub open spec fn hex_list(bs: Seq<u8>) -> Seq<char>
    decreases bs.len(),
{
    if bs.len() == 0 {
        Seq::empty()
    } else if bs.len() == 1 {
        hex_pair(bs[0])
    } else {
        hex_list(bs.drop_last()) + seq![' '] + hex_pair(bs.last())
    }
}

/// Appends the decimal representation of `n`.
pub fn push_decimal(s: &mut String, n: usize)
    ensures
        final(s)@ == old(s)@ + decimal(n as nat),
    decreases n,
{
    if n >= 10 {
        push_decimal(s, n / 10);
    }
    let d = (n % 10) as u8;
    let c = (48u8 + d) as char;
    s.push(c);
}

/// The lowercase hexadecimal digit for `d < 16`.
fn hex_char(d: u8) -> (c: char)
    requires
        d < 16,
    ensures
        c == hex_digit(d as nat),
{
    if d < 10 {
        (48u8 + d) as char
    } else {
        (87u8 + d) as char
    }
}

/// Appends the bytes as two-digit hexadecimal numbers separated by spaces.
pub fn push_hex_list(s: &mut String, bs: &[u8])
    ensures
        final(s)@ == old(s)@ + hex_list(bs@),
{
    let mut i: usize = 0;
    while i < bs.len()
        invariant
            i <= bs@.len(),
            s@ == old(s)@ + hex_list(bs@.take(i as int)),
        decreases bs@.len() - i,
    {
        let b = bs[i];
        if i > 0 {
            s.push(' ');
        }
        s.push(hex_char(b / 16));
        s.push(hex_char(b % 16));
        proof {
            let t = bs@.take(i + 1);
            assert(t.drop_last() =~= bs@.take(i as int));
        }
        i = i + 1;
    }
    assert(bs@.take(bs@.len() as int) =~= bs@);
}

} // verus!
