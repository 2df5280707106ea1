//! Operands of instructions: literals, registers, data names and dereferences.
use vstd::prelude::*;
use vstd::slice::slice_subrange;
use crate::number::{i32_decimal, int_decimal, nat_decimal, is_digit, parse_i32, parse_i32_chars, lemma_decimal_round_trip, lemma_nat_decimal};
use crate::reg::{Reg, reg_of_name, reg_name, reg_from_chars, reg_name_chars, lemma_reg_name_round_trip};
use crate::text::{chars_of, clean_word, extend_chars, is_space, string_of};

verus! {

/// An operand: a literal, a register, the address of a named data object, or
/// the stack byte at the address that another operand gives.
#[derive(Debug)]
pub enum Value {
    Lit(i32),
    Reg(Reg),
    Data(String),
    Deref(Box<Value>),
}

/// The mathematical form of a `Value`: names are character sequences.
pub enum ValueModel {
    Lit(i32),
    Reg(Reg),
    Data(Seq<char>),
    Deref(Box<ValueModel>),
}

/// The model of a value.
pub open spec fn value_model(v: Value) -> ValueModel
    decreases v,
{
    match v {
        Value::Lit(n) => ValueModel::Lit(n),
        Value::Reg(r) => ValueModel::Reg(r),
        Value::Data(s) => ValueModel::Data(s@),
        Value::Deref(b) => ValueModel::Deref(Box::new(value_model(*b))),
    }
}

/// A copy of `v`.
pub fn clone_value(v: &Value) -> (c: Value)
    ensures
        c@ == v@,
    decreases v,
{
    match v {
        Value::Lit(n) => Value::Lit(*n),
        Value::Reg(r) => Value::Reg(*r),
        Value::Data(s) => Value::Data(s.clone()),
        Value::Deref(b) => Value::Deref(Box::new(clone_value(&**b))),
    }
}

impl Clone for Value {
    fn clone(&self) -> (c: Self)
        ensures
            c@ == self@,
    {
        clone_value(self)
    }
}

impl View for Value {
    type V = ValueModel;

    open spec fn view(&self) -> ValueModel {
        value_model(*self)
    }
}

/// How an operand is read from its text, or `None` where reading it fails
/// (a `[` without a matching final `]`): a `[...]` dereference, else a
/// register name, else a decimal `i32`, else a data name.
pub open spec fn parse_value(s: Seq<char>) -> Option<ValueModel>
    decreases s.len(),
{
    if s.len() > 0 && s[0] == '[' {
        if s.len() >= 2 && s.last() == ']' {
            match parse_value(s.subrange(1, s.len() - 1)) {
                Some(v) => Some(ValueModel::Deref(Box::new(v))),
                None => None,
            }
        } else {
            None
        }
    } else if reg_of_name(s) is Some {
        Some(ValueModel::Reg(reg_of_name(s)->0))
    } else if parse_i32(s) is Some {
        Some(ValueModel::Lit(parse_i32(s)->0))
    } else {
        Some(ValueModel::Data(s))
    }
}

/// The text of an operand.
pub open spec fn value_text(v: ValueModel) -> Seq<char>
    decreases v,
{
    match v {
        ValueModel::Lit(n) => int_decimal(n as int),
        ValueModel::Reg(r) => reg_name(r),
        ValueModel::Data(s) => s,
        ValueModel::Deref(b) => seq!['['] + value_text(*b) + seq![']'],
    }
}

/// Reads an operand from the characters `s` (see `parse_value`).
pub fn parse_value_chars(s: &[char]) -> (r: Option<Value>)
    ensures
        match r {
            Some(v) => parse_value(s@) == Some(v@),
            None => parse_value(s@) is None,
        },
    decreases s@.len(),
{
    if s.len() > 0 && s[0] == '[' {
        if s.len() >= 2 && s[s.len() - 1] == ']' {
            let inner = slice_subrange(s, 1, s.len() - 1);
            match parse_value_chars(inner) {
                Some(v) => Some(Value::Deref(Box::new(v))),
                None => None,
            }
        } else {
            None
        }
    } else {
        match reg_from_chars(s) {
            Some(r) => Some(Value::Reg(r)),
            None => match parse_i32_chars(s) {
                Some(n) => Some(Value::Lit(n)),
                None => Some(Value::Data(string_of(s))),
            },
        }
    }
}

/// Appends the text of `v` to `out`.
pub fn push_value_text(v: &Value, out: &mut Vec<char>)
    ensures
        final(out)@ == old(out)@ + value_text(v@),
    decreases v,
{
    match v {
        Value::Lit(n) => {
            let d = i32_decimal(*n);
            extend_chars(out, d.as_slice());
        },
        Value::Reg(r) => {
            let d = reg_name_chars(*r);
            extend_chars(out, d.as_slice());
        },
        Value::Data(s) => {
            let d = chars_of(s.as_str());
            extend_chars(out, d.as_slice());
        },
        Value::Deref(b) => {
            out.push('[');
            push_value_text(&**b, out);
            out.push(']');
            assert(final(out)@ =~= old(out)@ + value_text(v@));
        },
    }
}

/// A data name that reads back as itself in an instruction: a word without
/// white space or `;`, not starting with `[`, neither a register name nor a
/// decimal `i32`.
pub open spec fn plain_data_name(s: Seq<char>) -> bool {
    &&& clean_word(s)
    &&& s[0] != '['
    &&& reg_of_name(s) is None
    &&& parse_i32(s) is None
}

/// An operand whose data names are all plain.
pub open spec fn plain_value(v: ValueModel) -> bool
    decreases v,
{
    match v {
        ValueModel::Data(s) => plain_data_name(s),
        ValueModel::Deref(b) => plain_value(*b),
        _ => true,
    }
}

/// Reading the text of an operand gives back that operand, when its data
/// names are plain.
pub proof fn lemma_value_round_trip(v: ValueModel)
    requires
        plain_value(v),
    ensures
        parse_value(value_text(v)) == Some(v),
    decreases v,
{
    match v {
        ValueModel::Lit(n) => {
            lemma_decimal_round_trip(n);
            let t = int_decimal(n as int);
            assert(t[0] != '[');
            assert(t.len() >= 1);
            assert(reg_of_name(t) is None) by {
                assert(t[0] != '%');
            }
        },
        ValueModel::Reg(r) => {
            lemma_reg_name_round_trip(r);
        },
        ValueModel::Data(s) => {},
        ValueModel::Deref(b) => {
            lemma_value_round_trip(*b);
            let t = value_text(v);
            assert(t.subrange(1, t.len() - 1) =~= value_text(*b));
        },
    }
}

/// The text of a register is a word.
pub proof fn lemma_reg_name_clean(r: Reg)
    ensures
        clean_word(reg_name(r)),
{
    let n = reg_name(r);
    assert forall|i: int| 0 <= i < n.len() implies !is_space(#[trigger] n[i]) && n[i] != ';' by {
        match r {
            Reg::Cmp | Reg::Link => {
                assert(i == 0 || i == 1 || i == 2 || i == 3);
            },
            Reg::StackPtr => {
                assert(i == 0 || i == 1 || i == 2);
            },
            _ => {
                assert(i == 0 || i == 1);
            },
        }
    }
}

/// The text of an operand with plain data names is a word.
pub proof fn lemma_value_text_clean(v: ValueModel)
    requires
        plain_value(v),
    ensures
        clean_word(value_text(v)),
    decreases v,
{
    let t = value_text(v);
    match v {
        ValueModel::Lit(n) => {
            if n < 0 {
                let m = (-(n as int)) as nat;
                lemma_nat_decimal(m);
                let d = nat_decimal(m);
                assert forall|i: int| 0 <= i < t.len() implies !is_space(#[trigger] t[i]) && t[i] != ';' by {
                    if i > 0 {
                        assert(t[i] == d[i - 1]);
                        assert(is_digit(d[i - 1]));
                    }
                }
            } else {
                lemma_nat_decimal(n as nat);
                let d = nat_decimal(n as nat);
                assert forall|i: int| 0 <= i < t.len() implies !is_space(#[trigger] t[i]) && t[i] != ';' by {
                    assert(is_digit(d[i]));
                }
            }
        },
        ValueModel::Reg(r) => {
            lemma_reg_name_clean(r);
        },
        ValueModel::Data(s) => {},
        ValueModel::Deref(b) => {
            lemma_value_text_clean(*b);
            let inner = value_text(*b);
            assert forall|i: int| 0 <= i < t.len() implies !is_space(#[trigger] t[i]) && t[i] != ';' by {
                if 0 < i < t.len() - 1 {
                    assert(t[i] == inner[i - 1]);
                }
            }
        },
    }
}

impl Value {
    /// Reads an operand from `value`: a `[...]` dereference, a register name,
    /// a decimal `i32`, or else a data name. Requires that every `[` has a
    /// matching final `]`.
    pub fn try_from(value: &str) -> (r: Result<Value, String>)
        requires
            parse_value(value@) is Some,
        ensures
            r matches Ok(v) && parse_value(value@) == Some(v@),
    {
        let cs = chars_of(value);
        match parse_value_chars(cs.as_slice()) {
            Some(v) => Ok(v),
            None => Err(String::new()),
        }
    }

    /// The operand's text: a literal in decimal, a register's name, a data
    /// name, or `[inner]`.
    pub fn to_string(&self) -> (s: String)
        ensures
            s@ == value_text(self@),
    {
        let mut out: Vec<char> = Vec::new();
        push_value_text(self, &mut out);
        assert(out@ =~= value_text(self@));
        string_of(out.as_slice())
    }
}

} // verus!
