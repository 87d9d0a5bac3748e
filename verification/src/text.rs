//! The diagnostic text of a residue, which shows the value and the modulus.

use vstd::prelude::*;
use crate::modint::Mod;

verus! {

/// The character of one decimal digit.
pub open spec fn digit(d: nat) -> char {
    if d == 0 {
        '0'
    } else if d == 1 {
        '1'
    } else if d == 2 {
        '2'
    } else if d == 3 {
        '3'
    } else if d == 4 {
        '4'
    } else if d == 5 {
        '5'
    } else if d == 6 {
        '6'
    } else if d == 7 {
        '7'
    } else if d == 8 {
        '8'
    } else {
        '9'
    }
}

/// The decimal digits of `n`, most significant first, without leading zeros.
pub open spec fn decimal(n: nat) -> Seq<char>
    decreases n,
{
    if n < 10 {
        seq![digit(n)]
    } else {
        decimal(n / 10).push(digit(n % 10))
    }
}

/// The diagnostic text of the residue `value` under `modulus`.
pub open spec fn debug_text(value: u32, modulus: u32) -> Seq<char> {
    "Mod { value: "@ + decimal(value as nat) + ", mod: "@ + decimal(modulus as nat) + " }"@
}

/// `String::push`: trusted to append the one character to the end of the
/// text and to leave what was there.
#[verifier::external_body]
fn push_char(text: &mut String, c: char)
    ensures
        final(text)@ == old(text)@.push(c),
{
    text.push(c)
}

/// `String::push_str`: trusted to append the characters of `tail`, in their
/// order, to the end of the text and to leave what was there.
#[verifier::external_body]
fn push_text(text: &mut String, tail: &str)
    ensures
        final(text)@ == old(text)@ + tail@,
{
    text.push_str(tail)
}

fn digit_char(d: u32) -> (c: char)
    requires
        d < 10,
    ensures
        c == digit(d as nat),
{
    if d == 0 {
        '0'
    } else if d == 1 {
        '1'
    } else if d == 2 {
        '2'
    } else if d == 3 {
        '3'
    } else if d == 4 {
        '4'
    } else if d == 5 {
        '5'
    } else if d == 6 {
        '6'
    } else if d == 7 {
        '7'
    } else if d == 8 {
        '8'
    } else {
        '9'
    }
}

/// Appends the decimal digits of `n` to the text.
fn push_decimal(text: &mut String, n: u32)
    ensures
        final(text)@ == old(text)@ + decimal(n as nat),
    decreases n,
{
    if n >= 10 {
        push_decimal(text, n / 10);
    }
    push_char(text, digit_char(n % 10));
    proof {
        let before: Seq<char> = old(text)@;
        let last: char = digit((n % 10) as nat);
        if n >= 10 {
            let upper: Seq<char> = decimal((n / 10) as nat);
            assert((before + upper).push(last) =~= before + upper.push(last));
        } else {
            assert(before.push(last) =~= before + seq![last]);
        }
    }
}

impl<const M: u32> Mod<M> {
    /// The diagnostic text of the value: its residue and its modulus, as in
    /// `Mod { value: 10, mod: 17 }`.
    pub fn debug_string(&self) -> (r: String)
        ensures
            r@ == debug_text(self.value, M),
    {
        let mut text: String = String::new();
        push_text(&mut text, "Mod { value: ");
        push_decimal(&mut text, self.value);
        push_text(&mut text, ", mod: ");
        push_decimal(&mut text, M);
        push_text(&mut text, " }");
        proof {
            assert(Seq::<char>::empty() + "Mod { value: "@ =~= "Mod { value: "@);
        }
        text
    }
}

} // verus!
