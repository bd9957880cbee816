//! The value coercer: from a raw string and a declared type to a typed value.

use crate::error::ArgError;
use crate::text::str_equal;
use vstd::prelude::*;
use vstd::string::*;

verus! {

/// The type of value that a schema declares for an option.
#[derive(Clone, Copy, Debug, PartialEq, Eq, Hash, Structural)]
pub enum ArgType {
    /// Any string, kept as it is.
    ArgTypeString,
    /// A non-negative integer, written in decimal digits.
    ArgTypeUsize,
    /// `true` or `false`.
    ArgTypeBool,
    /// No value: the option is a flag, and its presence is all it says.
    ArgTypeNoValue,
}

/// A typed value.
#[derive(Debug, PartialEq)]
pub enum ArgVal {
    ArgValString(String),
    ArgValUsize(usize),
    ArgValBool(bool),
    ArgValNone,
}

/// The mathematical model of an [`ArgVal`]: the string is its characters.
pub ghost enum SpecArgVal {
    String(Seq<char>),
    Usize(usize),
    Bool(bool),
    NoValue,
}

impl View for ArgVal {
    type V = SpecArgVal;

    open spec fn view(&self) -> SpecArgVal {
        match *self {
            ArgVal::ArgValString(s) => SpecArgVal::String(s@),
            ArgVal::ArgValUsize(n) => SpecArgVal::Usize(n),
            ArgVal::ArgValBool(b) => SpecArgVal::Bool(b),
            ArgVal::ArgValNone => SpecArgVal::NoValue,
        }
    }
}

impl DeepView for ArgVal {
    type V = SpecArgVal;

    open spec fn deep_view(&self) -> SpecArgVal {
        self@
    }
}

/// The type whose values have the shape of `v`.
pub open spec fn type_of_value(v: SpecArgVal) -> ArgType {
    match v {
        SpecArgVal::String(_) => ArgType::ArgTypeString,
        SpecArgVal::Usize(_) => ArgType::ArgTypeUsize,
        SpecArgVal::Bool(_) => ArgType::ArgTypeBool,
        SpecArgVal::NoValue => ArgType::ArgTypeNoValue,
    }
}

/// Whether `c` is one of the ten decimal digits `0` to `9`.
pub open spec fn is_digit(c: char) -> bool {
    '0' <= c && c <= '9'
}

/// The number that the digit `c` stands for.
pub open spec fn digit_value(c: char) -> nat
    recommends
        is_digit(c),
{
    (c as int - '0' as int) as nat
}

/// The number that a sequence of digits denotes in base ten, the most
/// significant digit first. Zeros in front change nothing.
pub open spec fn digits_value(s: Seq<char>) -> nat
    decreases s.len(),
{
    if s.len() == 0 {
        0
    } else {
        10 * digits_value(s.drop_last()) + digit_value(s.last())
    }
}

/// Whether `s` is a decimal numeral: one digit or more, and nothing else. A
/// sign, a blank or a separator makes it something else.
pub open spec fn is_decimal(s: Seq<char>) -> bool {
    s.len() > 0 && forall|i: int| 0 <= i < s.len() ==> is_digit(#[trigger] s[i])
}

/// The `usize` that `s` denotes, if it is a decimal numeral of a number that a
/// `usize` can hold.
pub open spec fn decimal_value(s: Seq<char>) -> Option<usize> {
    if is_decimal(s) && digits_value(s) <= usize::MAX {
        Some(digits_value(s) as usize)
    } else {
        None
    }
}

/// The truth value that `s` names: `true` or `false`, in lower case.
pub open spec fn bool_value(s: Seq<char>) -> Option<bool> {
    if s == "true"@ {
        Some(true)
    } else if s == "false"@ {
        Some(false)
    } else {
        None
    }
}

/// What coercing `raw` to `arg_type` gives: the typed value, or
/// `TypeCoercion` where `raw` does not denote a value of that type.
pub open spec fn coerce_spec(raw: Seq<char>, arg_type: ArgType) -> Result<SpecArgVal, ArgError> {
    match arg_type {
        ArgType::ArgTypeUsize => match decimal_value(raw) {
            Some(n) => Ok(SpecArgVal::Usize(n)),
            None => Err(ArgError::TypeCoercion),
        },
        ArgType::ArgTypeBool => match bool_value(raw) {
            Some(b) => Ok(SpecArgVal::Bool(b)),
            None => Err(ArgError::TypeCoercion),
        },
        ArgType::ArgTypeString => Ok(SpecArgVal::String(raw)),
        ArgType::ArgTypeNoValue => Ok(SpecArgVal::NoValue),
    }
}

/// A numeral is worth at least as much as any part that it starts with.
pub proof fn lemma_digits_value_grows(s: Seq<char>, k: int)
    requires
        0 <= k <= s.len(),
    ensures
        digits_value(s.take(k)) <= digits_value(s),
    decreases s.len() - k,
{
    if k < s.len() {
        lemma_digits_value_grows(s, k + 1);
        assert(s.take(k + 1).drop_last() == s.take(k));
    } else {
        assert(s.take(k) == s);
    }
}

/// Reads a decimal numeral.
pub fn parse_decimal(s: &str) -> (value: Option<usize>)
    ensures
        value == decimal_value(s@),
{
    let mut total: usize = 0;
    let mut any = false;
    for c in it: s.chars()
        invariant
            it.seq() == s@,
            any == (it.index() > 0),
            forall|i: int| 0 <= i < it.index() ==> is_digit(#[trigger] s@[i]),
            total == digits_value(s@.take(it.index() as int)),
    {
        let ghost k = it.index() as int;
        assert(s@.take(k + 1).drop_last() == s@.take(k));
        if c < '0' || c > '9' {
            assert(!is_digit(s@[k]));
            return None;
        }
        let digit = (c as u32 - '0' as u32) as usize;
        let next = match total.checked_mul(10) {
            Some(tens) => tens.checked_add(digit),
            None => None,
        };
        match next {
            Some(n) => {
                total = n;
            },
            None => {
                proof {
                    lemma_digits_value_grows(s@, k + 1);
                }
                return None;
            },
        }
        any = true;
    }
    assert(s@.take(s@.len() as int) == s@);
    if any {
        Some(total)
    } else {
        None
    }
}

/// Reads `true` or `false`.
pub fn parse_bool(s: &str) -> (value: Option<bool>)
    ensures
        value == bool_value(s@),
{
    if str_equal(s, "true") {
        Some(true)
    } else if str_equal(s, "false") {
        Some(false)
    } else {
        None
    }
}

/// Coerces `input_str` to a value of type `arg_type`.
///
/// An unsigned integer is a decimal numeral whose number fits a `usize`; the
/// empty string, a sign, or any character that is no digit is refused. A
/// string is kept as it is. A flag has no value, whatever `input_str` holds.
pub fn construct_arg_val(input_str: &str, arg_type: ArgType) -> (result: Result<ArgVal, ArgError>)
    ensures
        match result {
            Ok(v) => coerce_spec(input_str@, arg_type) == Ok::<SpecArgVal, ArgError>(v@),
            Err(e) => coerce_spec(input_str@, arg_type) == Err::<SpecArgVal, ArgError>(e),
        },
        arg_type is ArgTypeUsize && !is_decimal(input_str@) ==> result == Err::<ArgVal, ArgError>(
            ArgError::TypeCoercion,
        ),
        result matches Ok(v) ==> type_of_value(v@) == arg_type,
{
    match arg_type {
        ArgType::ArgTypeUsize => match parse_decimal(input_str) {
            Some(n) => Ok(ArgVal::ArgValUsize(n)),
            None => Err(ArgError::TypeCoercion),
        },
        ArgType::ArgTypeBool => match parse_bool(input_str) {
            Some(b) => Ok(ArgVal::ArgValBool(b)),
            None => Err(ArgError::TypeCoercion),
        },
        ArgType::ArgTypeString => Ok(ArgVal::ArgValString(input_str.to_owned())),
        ArgType::ArgTypeNoValue => Ok(ArgVal::ArgValNone),
    }
}

} // verus!
