//! Validation of the port name given on the command line.

use vstd::prelude::*;
use crate::text::{chars_of, matches_at, starts_with_text};

verus! {

/// The upper-case form of a text, as Unicode's case mapping gives it.
pub uninterp spec fn uppercase_text(s: Seq<char>) -> Seq<char>;

/// Calls `str::to_uppercase`. The result is the upper-case form of the
/// argument, which depends on nothing else.
#[verifier::external_body]
fn to_uppercase(s: &str) -> (upper: String)
    ensures
        upper@ == uppercase_text(s@),
{
    s.to_uppercase()
}

/// True when a port name has one of the two accepted forms: it begins with
/// `/dev/tty`, or its upper-case form begins with `COM`.
pub open spec fn port_name_fits(port: Seq<char>, upper: Seq<char>) -> bool {
    starts_with_text(port, "/dev/tty"@) || starts_with_text(upper, "COM"@)
}

/// The message for a port name of neither form.
pub open spec fn port_error_message(port: Seq<char>) -> Seq<char> {
    "Invalid port: "@ + port + ". Must start with '/dev/tty' (Unix) or 'COM' (Windows)"@
}

/// What validation makes of a port name and its upper-case form: the name
/// itself if it fits, and otherwise the message that says what was expected.
pub open spec fn checked_port(port: Seq<char>, upper: Seq<char>) -> Result<Seq<char>, Seq<char>> {
    if port_name_fits(port, upper) {
        Ok(port)
    } else {
        Err(port_error_message(port))
    }
}

/// Decides on a port name, given its upper-case form.
pub fn check_port(port: &str, upper: &str) -> (r: Result<String, String>)
    ensures
        match r {
            Ok(name) => checked_port(port@, upper@) == Ok::<Seq<char>, Seq<char>>(name@),
            Err(e) => checked_port(port@, upper@) == Err::<Seq<char>, Seq<char>>(e@),
        },
{
    let port_chars = chars_of(port);
    let upper_chars = chars_of(upper);
    let unix = chars_of("/dev/tty");
    let windows = chars_of("COM");
    if matches_at(port_chars.as_slice(), unix.as_slice(), 0) || matches_at(
        upper_chars.as_slice(),
        windows.as_slice(),
        0,
    ) {
        Ok(String::from_str(port))
    } else {
        let mut msg = String::from_str("Invalid port: ");
        msg.append(port);
        msg.append(". Must start with '/dev/tty' (Unix) or 'COM' (Windows)");
        Err(msg)
    }
}

/// Accepts a port name that begins with `/dev/tty`, or with `COM` in any
/// mix of upper and lower case; otherwise explains what was expected.
/// Whether such a port exists is not looked at.
pub fn validate_port(port: &str) -> (r: Result<String, String>)
    ensures
        match r {
            Ok(name) => checked_port(port@, uppercase_text(port@)) == Ok::<Seq<char>, Seq<char>>(
                name@,
            ),
            Err(e) => checked_port(port@, uppercase_text(port@)) == Err::<Seq<char>, Seq<char>>(e@),
        },
{
    let upper = to_uppercase(port);
    check_port(port, upper.as_str())
}

} // verus!
