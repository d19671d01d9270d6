//! Small operations on text that the rest of the library is built from.

use vstd::prelude::*;
use vstd::std_specs::iter::IteratorSpec;

verus! {

/// Appends one character to a string.
///
/// This is `String::push` of the standard library, taken on trust: after
/// the call the string holds what it held before, followed by `c`.
#[verifier::external_body]
pub(crate) fn push_char(text: &mut String, c: char)
    ensures
        final(text)@ == old(text)@.push(c),
{
    text.push(c)
}

/// The character that stands for the digit `d`.
pub open spec fn digit_char(d: nat) -> char
    recommends
        d < 10,
{
    ((48 + d) as u8) as char
}

/// The number `n` written in base ten, without leading zeros.
pub open spec fn decimal_text(n: nat) -> Seq<char>
    decreases n,
{
    if n < 10 {
        seq![digit_char(n)]
    } else {
        decimal_text(n / 10).push(digit_char(n % 10))
    }
}

/// Appends the digit `d` to `text`.
fn push_digit(text: &mut String, d: u8)
    requires
        d < 10,
    ensures
        final(text)@ == old(text)@.push(digit_char(d as nat)),
{
    push_char(text, (48 + d) as char);
}

/// Appends `n`, written in base ten, to `text`.
pub fn push_decimal(text: &mut String, n: u8)
    ensures
        final(text)@ == old(text)@ + decimal_text(n as nat),
{
    reveal_with_fuel(decimal_text, 3);
    if n >= 100 {
        push_digit(text, n / 100);
    }
    if n >= 10 {
        push_digit(text, (n / 10) % 10);
    }
    push_digit(text, n % 10);
    assert(text@ =~= old(text)@ + decimal_text(n as nat));
}

/// Whether `text` begins with `prefix`, character by character.
pub fn starts_with(text: &str, prefix: &str) -> (yes: bool)
    ensures
        yes == prefix@.is_prefix_of(text@),
{
    let mut wanted = prefix.chars();
    let mut given = text.chars();
    let ghost mut seen: int = 0;
    loop
        invariant
            0 <= seen <= prefix@.len(),
            seen <= text@.len(),
            wanted.remaining() == prefix@.skip(seen),
            given.remaining() == text@.skip(seen),
            prefix@.take(seen) == text@.take(seen),
            wanted.decrease() is Some,
        decreases wanted.decrease()->0,
    {
        match wanted.next() {
            None => {
                assert(seen == prefix@.len());
                assert(prefix@.take(seen) =~= prefix@);
                return true;
            },
            Some(w) => {
                assert(w == prefix@[seen]);
                match given.next() {
                    None => {
                        assert(seen == text@.len());
                        return false;
                    },
                    Some(g) => {
                        assert(g == text@[seen]);
                        if w != g {
                            assert(prefix@.is_prefix_of(text@) ==> prefix@[seen] == text@.subrange(
                                0,
                                prefix@.len() as int,
                            )[seen]);
                            return false;
                        }
                        proof {
                            assert(prefix@.take(seen + 1) =~= prefix@.take(seen).push(w));
                            assert(text@.take(seen + 1) =~= text@.take(seen).push(g));
                            assert(prefix@.skip(seen).drop_first() =~= prefix@.skip(seen + 1));
                            assert(text@.skip(seen).drop_first() =~= text@.skip(seen + 1));
                            seen = seen + 1;
                        }
                    },
                }
            },
        }
    }
}

} // verus!
