//! The machine's registers and their names in assembly text.
use vstd::prelude::*;
use crate::number::{i32_decimal, int_decimal};
use crate::text::{chars_of, extend_chars, string_of};

verus! {

/// A register of the machine: ten general registers, the comparison flag,
/// the link register and the stack pointer.
#[derive(Clone, Copy, Debug, PartialEq, Eq, Structural, Hash)]
pub enum Reg {
    A,
    B,
    C,
    D,
    E,
    F,
    G,
    H,
    I,
    J,
    Cmp,
    Link,
    StackPtr,
}

/// The name of a register in assembly text.
pub open spec fn reg_name(r: Reg) -> Seq<char> {
    match r {
        Reg::A => seq!['%', 'a'],
        Reg::B => seq!['%', 'b'],
        Reg::C => seq!['%', 'c'],
        Reg::D => seq!['%', 'd'],
        Reg::E => seq!['%', 'e'],
        Reg::F => seq!['%', 'f'],
        Reg::G => seq!['%', 'g'],
        Reg::H => seq!['%', 'h'],
        Reg::I => seq!['%', 'i'],
        Reg::J => seq!['%', 'j'],
        Reg::Cmp => seq!['%', 'c', 'm', 'p'],
        Reg::Link => seq!['%', 'l', 'n', 'k'],
        Reg::StackPtr => seq!['%', 's', 'p'],
    }
}

/// The register that `s` names, if any.
pub open spec fn reg_of_name(s: Seq<char>) -> Option<Reg> {
    if s == reg_name(Reg::A) {
        Some(Reg::A)
    } else if s == reg_name(Reg::B) {
        Some(Reg::B)
    } else if s == reg_name(Reg::C) {
        Some(Reg::C)
    } else if s == reg_name(Reg::D) {
        Some(Reg::D)
    } else if s == reg_name(Reg::E) {
        Some(Reg::E)
    } else if s == reg_name(Reg::F) {
        Some(Reg::F)
    } else if s == reg_name(Reg::G) {
        Some(Reg::G)
    } else if s == reg_name(Reg::H) {
        Some(Reg::H)
    } else if s == reg_name(Reg::I) {
        Some(Reg::I)
    } else if s == reg_name(Reg::J) {
        Some(Reg::J)
    } else if s == reg_name(Reg::Cmp) {
        Some(Reg::Cmp)
    } else if s == reg_name(Reg::Link) {
        Some(Reg::Link)
    } else if s == reg_name(Reg::StackPtr) {
        Some(Reg::StackPtr)
    } else {
        None
    }
}

/// The general register with number `n` (1 to 10 name `%a` to `%j`).
pub open spec fn reg_of_number(n: i32) -> Option<Reg> {
    match n {
        1 => Some(Reg::A),
        2 => Some(Reg::B),
        3 => Some(Reg::C),
        4 => Some(Reg::D),
        5 => Some(Reg::E),
        6 => Some(Reg::F),
        7 => Some(Reg::G),
        8 => Some(Reg::H),
        9 => Some(Reg::I),
        10 => Some(Reg::J),
        _ => None,
    }
}

/// The register that the characters `s` name, if any (see `reg_of_name`).
pub fn reg_from_chars(s: &[char]) -> (r: Option<Reg>)
    ensures
        r == reg_of_name(s@),
{
    if s.len() == 2 && s[0] == '%' {
        let r = match s[1] {
            'a' => Some(Reg::A),
            'b' => Some(Reg::B),
            'c' => Some(Reg::C),
            'd' => Some(Reg::D),
            'e' => Some(Reg::E),
            'f' => Some(Reg::F),
            'g' => Some(Reg::G),
            'h' => Some(Reg::H),
            'i' => Some(Reg::I),
            'j' => Some(Reg::J),
            _ => None,
        };
        proof {
            match r {
                Some(x) => {
                    assert(s@ =~= reg_name(x));
                },
                None => {},
            }
        }
        r
    } else if s.len() == 3 && s[0] == '%' && s[1] == 's' && s[2] == 'p' {
        assert(s@ =~= reg_name(Reg::StackPtr));
        Some(Reg::StackPtr)
    } else if s.len() == 4 && s[0] == '%' && s[1] == 'c' && s[2] == 'm' && s[3] == 'p' {
        assert(s@ =~= reg_name(Reg::Cmp));
        Some(Reg::Cmp)
    } else if s.len() == 4 && s[0] == '%' && s[1] == 'l' && s[2] == 'n' && s[3] == 'k' {
        assert(s@ =~= reg_name(Reg::Link));
        Some(Reg::Link)
    } else {
        None
    }
}

/// The name of `r` as characters.
pub fn reg_name_chars(r: Reg) -> (v: Vec<char>)
    ensures
        v@ == reg_name(r),
{
    let v = match r {
        Reg::A => vec!['%', 'a'],
        Reg::B => vec!['%', 'b'],
        Reg::C => vec!['%', 'c'],
        Reg::D => vec!['%', 'd'],
        Reg::E => vec!['%', 'e'],
        Reg::F => vec!['%', 'f'],
        Reg::G => vec!['%', 'g'],
        Reg::H => vec!['%', 'h'],
        Reg::I => vec!['%', 'i'],
        Reg::J => vec!['%', 'j'],
        Reg::Cmp => vec!['%', 'c', 'm', 'p'],
        Reg::Link => vec!['%', 'l', 'n', 'k'],
        Reg::StackPtr => vec!['%', 's', 'p'],
    };
    assert(v@ =~= reg_name(r));
    v
}

/// Reading a register's name gives back that register.
pub proof fn lemma_reg_name_round_trip(r: Reg)
    ensures
        reg_of_name(reg_name(r)) == Some(r),
{
    let n = reg_name(r);
    match r {
        Reg::A => {},
        Reg::B => { assert(n != reg_name(Reg::A)); },
        Reg::C => { assert(n[1] == 'c'); },
        Reg::D => { assert(n[1] == 'd'); },
        Reg::E => { assert(n[1] == 'e'); },
        Reg::F => { assert(n[1] == 'f'); },
        Reg::G => { assert(n[1] == 'g'); },
        Reg::H => { assert(n[1] == 'h'); },
        Reg::I => { assert(n[1] == 'i'); },
        Reg::J => { assert(n[1] == 'j'); },
        Reg::Cmp => { assert(n.len() == 4 && n[1] == 'c' && n[2] == 'm'); },
        Reg::Link => { assert(n.len() == 4 && n[1] == 'l'); },
        Reg::StackPtr => { assert(n.len() == 3); },
    }
}

impl Reg {
    /// The register named by `value` (`%a` to `%j`, `%cmp`, `%lnk`, `%sp`),
    /// or the message `Invalid Register Name <value>`.
    pub fn try_from(value: &str) -> (r: Result<Reg, String>)
        ensures
            match reg_of_name(value@) {
                Some(x) => r == Ok::<Reg, String>(x),
                None => r matches Err(m) && m@ == "Invalid Register Name "@ + value@,
            },
    {
        let cs = chars_of(value);
        match reg_from_chars(cs.as_slice()) {
            Some(x) => Ok(x),
            None => {
                let mut msg = chars_of("Invalid Register Name ");
                extend_chars(&mut msg, cs.as_slice());
                Err(string_of(msg.as_slice()))
            },
        }
    }

    /// The general register with number `value` (1 for `%a` to 10 for `%j`),
    /// or the message `Invalid Register Number <value>`.
    pub fn try_from_number(value: i32) -> (r: Result<Reg, String>)
        ensures
            match reg_of_number(value) {
                Some(x) => r == Ok::<Reg, String>(x),
                None => r matches Err(m) && m@ == "Invalid Register Number "@ + int_decimal(
                    value as int,
                ),
            },
    {
        match value {
            1 => Ok(Reg::A),
            2 => Ok(Reg::B),
            3 => Ok(Reg::C),
            4 => Ok(Reg::D),
            5 => Ok(Reg::E),
            6 => Ok(Reg::F),
            7 => Ok(Reg::G),
            8 => Ok(Reg::H),
            9 => Ok(Reg::I),
            10 => Ok(Reg::J),
            _ => {
                let mut msg = chars_of("Invalid Register Number ");
                let digits = i32_decimal(value);
                extend_chars(&mut msg, digits.as_slice());
                Err(string_of(msg.as_slice()))
            },
        }
    }

    /// The register's name in assembly text (`%a`, ..., `%cmp`, `%lnk`, `%sp`).
    pub fn to_string(&self) -> (s: String)
        ensures
            s@ == reg_name(*self),
    {
        let v = reg_name_chars(*self);
        string_of(v.as_slice())
    }
}

} // verus!
