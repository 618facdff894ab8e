//! Validation of numbers typed by the user: addresses to jump to and register values.
use vstd::prelude::*;

verus! {

/// Why typed text was refused. Nothing changes when it is.
#[derive(Clone, Copy, Debug, PartialEq, Eq, Structural)]
pub enum InputError {
    Empty,
    NotANumber,
    OutOfRange,
}

pub open spec fn is_digit(b: u8) -> bool {
    48 <= b <= 57
}

pub open spec fn all_digits(s: Seq<u8>) -> bool {
    forall|i: int| 0 <= i < s.len() ==> is_digit(#[trigger] s[i])
}

/// The value of a run of ASCII decimal digits.
pub open spec fn decimal_value(s: Seq<u8>) -> nat
    decreases s.len(),
{
    if s.len() == 0 {
        0
    } else {
        decimal_value(s.drop_last()) * 10 + (s.last() - 48) as nat
    }
}

proof fn lemma_decimal_grows(s: Seq<u8>, i: int)
    requires
        all_digits(s),
        0 <= i <= s.len(),
    ensures
        decimal_value(s.take(i)) <= decimal_value(s),
    decreases s.len() - i,
{
    if i < s.len() {
        lemma_decimal_grows(s, i + 1);
        assert(s.take(i + 1).drop_last() =~= s.take(i));
    } else {
        assert(s.take(i) =~= s);
    }
}

/// The number `s` spells in decimal, when it is one and at most `max`.
pub fn parse_bounded(s: &[u8], max: u32) -> (r: Result<u32, InputError>)
    requires
        max <= 65535,
    ensures
        s@.len() == 0 ==> r == Err::<u32, InputError>(InputError::Empty),
        s@.len() > 0 && !all_digits(s@) ==> r == Err::<u32, InputError>(InputError::NotANumber),
        s@.len() > 0 && all_digits(s@) && decimal_value(s@) > max ==> r == Err::<u32, InputError>(
            InputError::OutOfRange,
        ),
        s@.len() > 0 && all_digits(s@) && decimal_value(s@) <= max ==> r == Ok::<u32, InputError>(
            decimal_value(s@) as u32,
        ),
{
    if s.len() == 0 {
        return Err(InputError::Empty);
    }
    let mut i: usize = 0;
    while i < s.len()
        invariant
            i <= s@.len(),
            forall|k: int| 0 <= k < i ==> is_digit(#[trigger] s@[k]),
        decreases s@.len() - i,
    {
        if s[i] < 48 || s[i] > 57 {
            return Err(InputError::NotANumber);
        }
        i = i + 1;
    }
    let mut value: u32 = 0;
    let mut j: usize = 0;
    while j < s.len()
        invariant
            j <= s@.len(),
            all_digits(s@),
            max <= 65535,
            value == decimal_value(s@.take(j as int)),
            value <= max,
        decreases s@.len() - j,
    {
        proof {
            assert(s@.take(j + 1).drop_last() =~= s@.take(j as int));
        }
        let next = value * 10 + (s[j] - 48) as u32;
        if next > max {
            proof {
                lemma_decimal_grows(s@, j + 1);
            }
            return Err(InputError::OutOfRange);
        }
        value = next;
        j = j + 1;
    }
    proof {
        assert(s@.take(j as int) =~= s@);
    }
    Ok(value)
}

/// A register value typed in decimal, 0 through 65535.
pub fn parse_register_value(s: &[u8]) -> (r: Result<u16, InputError>)
    ensures
        s@.len() == 0 ==> r == Err::<u16, InputError>(InputError::Empty),
        s@.len() > 0 && !all_digits(s@) ==> r == Err::<u16, InputError>(InputError::NotANumber),
        s@.len() > 0 && all_digits(s@) && decimal_value(s@) > 65535 ==> r == Err::<u16, InputError>(
            InputError::OutOfRange,
        ),
        s@.len() > 0 && all_digits(s@) && decimal_value(s@) <= 65535 ==> r == Ok::<u16, InputError>(
            decimal_value(s@) as u16,
        ),
{
    match parse_bounded(s, 65535) {
        Ok(v) => Ok(v as u16),
        Err(e) => Err(e),
    }
}

/// An address typed in the one-based numbering shown to the user, 1 through
/// 65535; the result is the zero-based address.
pub fn parse_goto_address(s: &[u8]) -> (r: Result<u16, InputError>)
    ensures
        s@.len() == 0 ==> r == Err::<u16, InputError>(InputError::Empty),
        s@.len() > 0 && !all_digits(s@) ==> r == Err::<u16, InputError>(InputError::NotANumber),
        s@.len() > 0 && all_digits(s@) && (decimal_value(s@) == 0 || decimal_value(s@) > 65535) ==> r
            == Err::<u16, InputError>(InputError::OutOfRange),
        s@.len() > 0 && all_digits(s@) && 1 <= decimal_value(s@) <= 65535 ==> r == Ok::<u16, InputError>(
            (decimal_value(s@) - 1) as u16,
        ),
{
    match parse_bounded(s, 65535) {
        Ok(v) => {
            if v == 0 {
                Err(InputError::OutOfRange)
            } else {
                Ok((v - 1) as u16)
            }
        },
        Err(e) => Err(e),
    }
}

} // verus!
