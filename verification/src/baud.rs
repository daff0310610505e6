//! Validation of the baud rate given on the command line.

use vstd::prelude::*;
use crate::text::{chars_of, decimal_text, push_decimal};

verus! {

/// True for the rates that the serial link supports.
pub open spec fn is_valid_baud(n: u32) -> bool {
    n == 300 || n == 1200 || n == 2400 || n == 4800 || n == 9600 || n == 19200 || n == 38400
        || n == 57600 || n == 115200
}

/// Tells whether `n` is one of the supported rates.
pub fn baud_rate_supported(n: u32) -> (b: bool)
    ensures
        b == is_valid_baud(n),
{
    n == 300 || n == 1200 || n == 2400 || n == 4800 || n == 9600 || n == 19200 || n == 38400
        || n == 57600 || n == 115200
}

/// The supported rates, in ascending order.
pub fn valid_baud_rates() -> (rates: Vec<u32>)
    ensures
        rates@ == seq![300u32, 1200u32, 2400u32, 4800u32, 9600u32, 19200u32, 38400u32, 57600u32, 115200u32],
        forall|n: u32| is_valid_baud(n) <==> rates@.contains(n),
{
    let rates: Vec<u32> = vec![300, 1200, 2400, 4800, 9600, 19200, 38400, 57600, 115200];
    proof {
        assert forall|n: u32| is_valid_baud(n) implies rates@.contains(n) by {
            if n == 300 {
                assert(rates@[0] == n);
            } else if n == 1200 {
                assert(rates@[1] == n);
            } else if n == 2400 {
                assert(rates@[2] == n);
            } else if n == 4800 {
                assert(rates@[3] == n);
            } else if n == 9600 {
                assert(rates@[4] == n);
            } else if n == 19200 {
                assert(rates@[5] == n);
            } else if n == 38400 {
                assert(rates@[6] == n);
            } else if n == 57600 {
                assert(rates@[7] == n);
            } else {
                assert(rates@[8] == n);
            }
        }
    }
    rates
}

/// True for the ten ASCII digits.
pub open spec fn is_digit(c: char) -> bool {
    '0' <= c && c <= '9'
}

/// True when every character of `s` is an ASCII digit.
pub open spec fn all_digits(s: Seq<char>) -> bool {
    forall|i: int| 0 <= i < s.len() ==> is_digit(#[trigger] s[i])
}

/// The number that a run of digits writes in base ten.
pub open spec fn digits_value(s: Seq<char>) -> nat
    decreases s.len(),
{
    if s.len() == 0 {
        0
    } else {
        digits_value(s.drop_last()) * 10 + ((s.last() as nat) - ('0' as nat)) as nat
    }
}

/// The text without the one plus sign that may lead it.
pub open spec fn without_plus(s: Seq<char>) -> Seq<char> {
    if s.len() > 0 && s[0] == '+' {
        s.drop_first()
    } else {
        s
    }
}

/// The unsigned 32-bit number that `s` writes: an optional plus sign, then
/// one or more digits and nothing else, with a value that fits. `None` for
/// every other text.
pub open spec fn parsed_u32(s: Seq<char>) -> Option<u32> {
    let d = without_plus(s);
    if d.len() > 0 && all_digits(d) && digits_value(d) <= u32::MAX {
        Some(digits_value(d) as u32)
    } else {
        None
    }
}

/// A longer run of digits never writes a smaller number than its prefix.
pub proof fn lemma_digits_value_grows(s: Seq<char>, k: int)
    requires
        0 <= k <= s.len(),
    ensures
        digits_value(s.take(k)) <= digits_value(s),
    decreases s.len(),
{
    if k == s.len() {
        assert(s.take(k) =~= s);
    } else {
        lemma_digits_value_grows(s.drop_last(), k);
        assert(s.drop_last().take(k) =~= s.take(k));
    }
}

/// Reads an unsigned 32-bit number written in base ten.
pub fn parse_u32(s: &str) -> (r: Option<u32>)
    ensures
        r == parsed_u32(s@),
{
    let chars = chars_of(s);
    let mut i: usize = 0;
    if chars.len() > 0 && chars[0] == '+' {
        i = 1;
    }
    let first = i;
    if i == chars.len() {
        return None;
    }
    let ghost d = without_plus(s@);
    proof {
        assert(d =~= s@.skip(first as int));
        assert(d.take(0) =~= Seq::<char>::empty());
    }
    let mut acc: u32 = 0;
    while i < chars.len()
        invariant
            first <= i <= chars@.len(),
            chars@ == s@,
            d == s@.skip(first as int),
            d == without_plus(s@),
            all_digits(d.take(i - first)),
            acc == digits_value(d.take(i - first)),
        decreases chars@.len() - i,
    {
        let c = chars[i];
        let ghost k = i - first;
        proof {
            assert(d[k] == c);
            assert(d.take(k + 1).drop_last() =~= d.take(k));
            assert(d.take(k + 1).last() == c);
        }
        if !('0' <= c && c <= '9') {
            assert(!is_digit(d[k]));
            return None;
        }
        let v: u32 = (c as u32) - ('0' as u32);
        if acc > (u32::MAX - v) / 10 {
            proof {
                assert(digits_value(d.take(k + 1)) == acc * 10 + v);
                lemma_digits_value_grows(d, k + 1);
            }
            return None;
        }
        acc = acc * 10 + v;
        proof {
            assert forall|j: int| 0 <= j < d.take(k + 1).len() implies is_digit(
                #[trigger] d.take(k + 1)[j],
            ) by {
                if j < k {
                    assert(d.take(k + 1)[j] == d.take(k)[j]);
                }
            }
        }
        i += 1;
    }
    proof {
        assert(d.take(i - first) =~= d);
    }
    Some(acc)
}

/// The list of supported rates as the messages show it.
pub open spec fn baud_list_text() -> Seq<char> {
    "[300, 1200, 2400, 4800, 9600, 19200, 38400, 57600, 115200]"@
}

/// The message for a text that is no number.
pub open spec fn not_a_number_message() -> Seq<char> {
    "Baud rate must be a number, one of "@ + baud_list_text()
}

/// The message for a number that is no supported rate.
pub open spec fn unsupported_baud_message(n: u32) -> Seq<char> {
    "Invalid baud rate: "@ + decimal_text(n as nat) + ". Must be one of "@ + baud_list_text()
}

/// What validation makes of a text: the rate it writes, if it writes a
/// supported one, and otherwise the message that says what is wrong.
pub open spec fn validated_baud(s: Seq<char>) -> Result<u32, Seq<char>> {
    match parsed_u32(s) {
        Some(n) => if is_valid_baud(n) {
            Ok(n)
        } else {
            Err(unsupported_baud_message(n))
        },
        None => Err(not_a_number_message()),
    }
}

/// Accepts a baud rate written in base ten if it is one of the supported
/// rates; otherwise explains what was expected.
pub fn validate_baud_rate(baud: &str) -> (r: Result<u32, String>)
    ensures
        match r {
            Ok(n) => validated_baud(baud@) == Ok::<u32, Seq<char>>(n),
            Err(e) => validated_baud(baud@) == Err::<u32, Seq<char>>(e@),
        },
{
    match parse_u32(baud) {
        Some(n) => {
            if baud_rate_supported(n) {
                Ok(n)
            } else {
                let mut msg = String::from_str("Invalid baud rate: ");
                push_decimal(&mut msg, n);
                msg.append(". Must be one of ");
                msg.append("[300, 1200, 2400, 4800, 9600, 19200, 38400, 57600, 115200]");
                Err(msg)
            }
        },
        None => {
            let mut msg = String::from_str("Baud rate must be a number, one of ");
            msg.append("[300, 1200, 2400, 4800, 9600, 19200, 38400, 57600, 115200]");
            Err(msg)
        },
    }
}

} // verus!
