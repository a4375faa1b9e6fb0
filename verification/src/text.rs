//! Text as sequences of characters: the few string operations the engine needs.

use vstd::prelude::*;
use vstd::std_specs::iter::IteratorSpec;

verus! {

/// `String::push` appends one character to the text.
pub assume_specification[ std::string::String::push ](s: &mut std::string::String, c: char)
    ensures
        final(s)@ == old(s)@.push(c),
;

/// The characters of `s`, in order.
pub fn chars_of(s: &str) -> (v: Vec<char>)
    ensures
        v@ == s@,
{
    let mut v: Vec<char> = Vec::new();
    for c in it: s.chars()
        invariant
            v@ == it.seq().take(it.index() as int),
            it.seq() == s@,
    {
        v.push(c);
    }
    assert(s@.take(s@.len() as int) == s@);
    v
}

/// The text made of the characters `chars[from..to]`.
pub fn string_of(chars: &Vec<char>, from: usize, to: usize) -> (s: String)
    requires
        from <= to <= chars@.len(),
    ensures
        s@ == chars@.subrange(from as int, to as int),
{
    let mut s = String::new();
    let mut i: usize = from;
    while i < to
        invariant
            from <= i <= to <= chars@.len(),
            s@ == chars@.subrange(from as int, i as int),
        decreases to - i,
    {
        s.push(chars[i]);
        i += 1;
        assert(chars@.subrange(from as int, i as int) == chars@.subrange(
            from as int,
            i as int - 1,
        ).push(chars@[i as int - 1]));
    }
    s
}

/// Whether `chars[from..to]` spells exactly `text`.
pub fn spells(chars: &Vec<char>, from: usize, to: usize, text: &str) -> (r: bool)
    requires
        from <= to <= chars@.len(),
    ensures
        r == (chars@.subrange(from as int, to as int) == text@),
{
    let want = chars_of(text);
    if want.len() != to - from {
        return false;
    }
    let mut i: usize = 0;
    while i < want.len()
        invariant
            from <= to <= chars@.len(),
            want@ == text@,
            want@.len() == to - from,
            i <= want@.len(),
            forall|j: int| 0 <= j < i ==> chars@[from + j] == want@[j],
        decreases want@.len() - i,
    {
        if chars[from + i] != want[i] {
            assert(chars@.subrange(from as int, to as int)[i as int] != text@[i as int]);
            return false;
        }
        i += 1;
    }
    assert(chars@.subrange(from as int, to as int) =~= text@);
    true
}

/// The character of the decimal digit `d`.
pub open spec fn digit_char(d: nat) -> char {
    ('0' as u8 + d) as u8 as char
}

/// The decimal digits of `n`, most significant first, without leading zeros.
pub open spec fn decimal_digits(n: nat) -> Seq<char>
    decreases n,
{
    if n < 10 {
        seq![digit_char(n)]
    } else {
        decimal_digits(n / 10).push(digit_char(n % 10))
    }
}

/// The number `n` in decimal digits.
pub fn decimal_text(n: usize) -> (s: String)
    ensures
        s@ == decimal_digits(n as nat),
    decreases n,
{
    let mut s = if n >= 10 {
        decimal_text(n / 10)
    } else {
        String::new()
    };
    let digit: u8 = (n % 10) as u8;
    s.push((48u8 + digit) as char);
    proof {
        assert('0' as u8 == 48u8);
        if n < 10 {
            assert(s@ =~= seq![digit_char(n as nat)]);
        }
    }
    s
}

} // verus!
