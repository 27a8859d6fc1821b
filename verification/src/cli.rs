//! Checks on command-line arguments.

use crate::decimal::{parse_u64, parsed};
use vstd::prelude::*;
use vstd::string::*;

verus! {

/// The lowest port that may be asked for.
pub const PORT_MIN: u16 = 1;

/// The highest port that may be asked for.
pub const PORT_MAX: u16 = 65535;

/// What is said of an argument that is no number.
pub open spec fn not_a_port(text: Seq<char>) -> Seq<char> {
    "`"@ + text + "` isn't a port number"@
}

/// What is said of a number that is no port.
pub open spec fn port_out_of_range() -> Seq<char> {
    "port not in range 1-65535"@
}

/// The port that an argument asks for, or what is wrong with it. The argument has
/// to be a number text whose number fits the machine's word; a number outside the
/// range of ports is refused in other words than a text that is no such number.
pub open spec fn port_of(text: Seq<char>) -> Result<u16, Seq<char>> {
    match parsed(text) {
        Some(number) => if number > usize::MAX {
            Err(not_a_port(text))
        } else if PORT_MIN <= number <= PORT_MAX {
            Ok(number as u16)
        } else {
            Err(port_out_of_range())
        },
        None => Err(not_a_port(text)),
    }
}

/// Reads a port from a command-line argument.
pub fn port_in_range(s: &str) -> (port: Result<u16, String>)
    ensures
        match port {
            Ok(p) => port_of(s@) == Ok::<_, Seq<char>>(p),
            Err(message) => port_of(s@) == Err::<u16, _>(message@),
        },
{
    let number = match parse_u64(s) {
        Some(n) => if n <= usize::MAX as u64 {
            Some(n)
        } else {
            None
        },
        None => None,
    };
    match number {
        Some(n) => {
            if PORT_MIN as u64 <= n && n <= PORT_MAX as u64 {
                Ok(n as u16)
            } else {
                Err("port not in range 1-65535".to_string())
            }
        },
        None => {
            let mut message = "`".to_string();
            message.append(s);
            message.append("` isn't a port number");
            Err(message)
        },
    }
}

} // verus!
