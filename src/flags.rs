//! Transaction flags.

use vstd::prelude::*;

use crate::text::{int_text, push_int};
use crate::Helpers;

verus! {

/// Entry flags: a single-character annotation on a transaction.
#[derive(Debug, Clone, Copy, PartialEq, Eq, Structural)]
pub enum Flags {
    Conversion,
    Merging,
    /// posted
    Okay,
    Padding,
    Returns,
    Summarize,
    Transfer,
    /// plugin "beancount.plugins.unrealized" "Unrealized"
    Unrealized,
    /// unposted
    Warning,
}

/// The canonical character of a flag.
pub open spec fn flag_char(f: Flags) -> char {
    match f {
        Flags::Conversion => 'C',
        Flags::Merging => 'M',
        Flags::Okay => '*',
        Flags::Padding => 'P',
        Flags::Returns => 'R',
        Flags::Summarize => 'S',
        Flags::Transfer => 'T',
        Flags::Unrealized => 'U',
        Flags::Warning => '!',
    }
}

/// The flag that a character stands for: a letter in either case, or `*` or `!`.
pub open spec fn flag_of_char(c: char) -> Option<Flags> {
    if c == 'C' || c == 'c' {
        Some(Flags::Conversion)
    } else if c == 'M' || c == 'm' {
        Some(Flags::Merging)
    } else if c == '*' {
        Some(Flags::Okay)
    } else if c == 'P' || c == 'p' {
        Some(Flags::Padding)
    } else if c == 'R' || c == 'r' {
        Some(Flags::Returns)
    } else if c == 'S' || c == 's' {
        Some(Flags::Summarize)
    } else if c == 'T' || c == 't' {
        Some(Flags::Transfer)
    } else if c == 'U' || c == 'u' {
        Some(Flags::Unrealized)
    } else if c == '!' {
        Some(Flags::Warning)
    } else {
        None
    }
}

/// The flag that a byte stands for, read as an ASCII character.
pub open spec fn flag_of_byte(b: u8) -> Option<Flags> {
    if b < 128 {
        flag_of_char(b as char)
    } else {
        None
    }
}

/// The canonical text of a flag: its one character.
pub open spec fn flag_text(f: Flags) -> Seq<char> {
    seq![flag_char(f)]
}

/// The flag that a text stands for: one character that names a flag.
pub open spec fn flag_of_text(s: Seq<char>) -> Option<Flags> {
    if s.len() == 1 {
        flag_of_char(s[0])
    } else {
        None
    }
}

/// The message of the error for a byte that is no flag.
pub open spec fn invalid_byte_message(b: u8) -> Seq<char> {
    "Invalid flag byte: "@ + int_text(b as int)
}

/// The message of the error for a text that is no flag.
pub open spec fn invalid_text_message(s: Seq<char>) -> Seq<char> {
    "conversion error: "@ + s + " is not a valid variant of Flags"@
}

fn flag_from_char(c: char) -> (r: Option<Flags>)
    ensures
        r == flag_of_char(c),
{
    match c {
        'C' | 'c' => Some(Flags::Conversion),
        'M' | 'm' => Some(Flags::Merging),
        '*' => Some(Flags::Okay),
        'P' | 'p' => Some(Flags::Padding),
        'R' | 'r' => Some(Flags::Returns),
        'S' | 's' => Some(Flags::Summarize),
        'T' | 't' => Some(Flags::Transfer),
        'U' | 'u' => Some(Flags::Unrealized),
        '!' => Some(Flags::Warning),
        _ => None,
    }
}

impl Flags {
    /// The canonical one-character text of the flag.
    pub fn as_str(&self) -> (r: &'static str)
        ensures
            r@ == flag_text(*self),
    {
        proof {
            reveal_strlit("C");
            reveal_strlit("M");
            reveal_strlit("*");
            reveal_strlit("P");
            reveal_strlit("R");
            reveal_strlit("S");
            reveal_strlit("T");
            reveal_strlit("U");
            reveal_strlit("!");
        }
        match self {
            Self::Conversion => "C",
            Self::Merging => "M",
            Self::Okay => "*",
            Self::Padding => "P",
            Self::Returns => "R",
            Self::Summarize => "S",
            Self::Transfer => "T",
            Self::Unrealized => "U",
            Self::Warning => "!",
        }
    }

    /// The canonical byte of the flag.
    pub fn to_byte(&self) -> (r: u8)
        ensures
            r < 128,
            r as char == flag_char(*self),
    {
        match self {
            Self::Conversion => 67,
            Self::Merging => 77,
            Self::Okay => 42,
            Self::Padding => 80,
            Self::Returns => 82,
            Self::Summarize => 83,
            Self::Transfer => 84,
            Self::Unrealized => 85,
            Self::Warning => 33,
        }
    }

    /// The flag of a byte; any byte that names none is refused.
    pub fn from_byte(byte: u8) -> (r: Result<Flags, Helpers>)
        ensures
            r is Ok <==> flag_of_byte(byte) is Some,
            r matches Ok(f) ==> flag_of_byte(byte) == Some(f),
            r matches Err(e) ==> e matches Helpers::BeancountError(m) && m@
                == invalid_byte_message(byte),
    {
        let found = if byte < 128 {
            flag_from_char(byte as char)
        } else {
            None
        };
        match found {
            Some(f) => Ok(f),
            None => {
                proof {
                    reveal_strlit("Invalid flag byte: ");
                }
                let mut m = String::new();
                m.append("Invalid flag byte: ");
                push_int(&mut m, byte as i64);
                Err(Helpers::BeancountError(m))
            },
        }
    }

    /// The flag of a text; any text that names none is refused.
    pub fn parse(s: &str) -> (r: Result<Flags, Helpers>)
        ensures
            r is Ok <==> flag_of_text(s@) is Some,
            r matches Ok(f) ==> flag_of_text(s@) == Some(f),
            r matches Err(e) ==> e matches Helpers::BeancountError(m) && m@
                == invalid_text_message(s@),
    {
        let found = if s.unicode_len() == 1 {
            flag_from_char(s.get_char(0))
        } else {
            None
        };
        match found {
            Some(f) => Ok(f),
            None => {
                proof {
                    reveal_strlit("conversion error: ");
                    reveal_strlit(" is not a valid variant of Flags");
                }
                let mut m = String::new();
                m.append("conversion error: ");
                m.append(s);
                m.append(" is not a valid variant of Flags");
                Err(Helpers::BeancountError(m))
            },
        }
    }
}

impl std::str::FromStr for Flags {
    type Err = Helpers;

    fn from_str(s: &str) -> Result<Flags, Helpers> {
        Flags::parse(s)
    }
}

impl From<Flags> for u8 {
    fn from(flag: Flags) -> (r: u8) {
        flag.to_byte()
    }
}

impl vstd::std_specs::convert::FromSpecImpl<Flags> for u8 {
    open spec fn obeys_from_spec() -> bool {
        true
    }

    open spec fn from_spec(flag: Flags) -> u8 {
        flag_char(flag) as u8
    }
}

/// Reading the canonical text of a flag gives the flag back.
pub proof fn lemma_flag_text_round_trip(f: Flags)
    ensures
        flag_of_text(flag_text(f)) == Some(f),
{
}

/// Reading the canonical byte of a flag gives the flag back.
pub proof fn lemma_flag_byte_round_trip(f: Flags)
    ensures
        flag_of_byte(flag_char(f) as u8) == Some(f),
{
}

} // verus!
