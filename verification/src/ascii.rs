//! Names for the ASCII bytes the wire formats are written in.

use vstd::prelude::*;

verus! {

/// `'0'`
pub const ZERO: u8 = 48;

/// `'9'`
pub const NINE: u8 = 57;

/// `':'`
pub const COLON: u8 = 58;

/// `'-'`
pub const MINUS: u8 = 45;

/// `'.'`
pub const DOT: u8 = 46;

/// `'%'`
pub const PERCENT: u8 = 37;

/// `'?'`
pub const QMARK: u8 = 63;

/// `'&'`
pub const AMP: u8 = 38;

/// `'='`
pub const EQUALS: u8 = 61;

/// `'i'`
pub const LC_I: u8 = 105;

/// `'e'`
pub const LC_E: u8 = 101;

/// `'l'`
pub const LC_L: u8 = 108;

/// `'d'`
pub const LC_D: u8 = 100;


/// `'_'`
pub const UNDERSCORE: u8 = 95;

/// `'~'`
pub const TILDE: u8 = 126;

/// `'a'`
pub const LC_A: u8 = 97;

/// `'z'`
pub const LC_Z: u8 = 122;

/// `'A'`
pub const UC_A: u8 = 65;

/// `'Z'`
pub const UC_Z: u8 = 90;

} // verus!
