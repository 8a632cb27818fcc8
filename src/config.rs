use vstd::prelude::*;

use crate::decimal::{parse_decimal, parse_spec, ParseError};

verus! {

/// The port served on when none is configured.
pub const DEFAULT_PORT: u16 = 8080;

/// The port that a configured setting selects: the default when the setting
/// is unset or empty, else the setting read as a decimal number that must fit
/// in 16 bits.
pub open spec fn port_spec(setting: Option<Seq<u8>>) -> Result<u16, ParseError> {
    match setting {
        None => Ok(DEFAULT_PORT),
        Some(s) => if s.len() == 0 {
            Ok(DEFAULT_PORT)
        } else {
            match parse_spec(s) {
                Ok(v) => if v <= u16::MAX {
                    Ok(v as u16)
                } else {
                    Err(ParseError::Overflow)
                },
                Err(e) => Err(e),
            }
        },
    }
}

/// Reads the port setting; see `port_spec`.
pub fn parse_port(setting: Option<&[u8]>) -> (r: Result<u16, ParseError>)
    ensures
        r == port_spec(
            match setting {
                Some(s) => Some(s@),
                None => None,
            },
        ),
{
    match setting {
        None => Ok(DEFAULT_PORT),
        Some(s) => {
            if s.len() == 0 {
                return Ok(DEFAULT_PORT);
            }
            match parse_decimal(s) {
                Ok(v) => if v <= 65535 {
                    Ok(v as u16)
                } else {
                    Err(ParseError::Overflow)
                },
                Err(e) => Err(e),
            }
        },
    }
}

} // verus!
