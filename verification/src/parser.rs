//! The argument stream parser: from raw tokens and a schema to typed
//! arguments.

use crate::error::ArgError;
use crate::laws::law_arguments_are_declared;
use crate::schema::{get_arg_type, lookup_spec, ArgName, ArgTypes};
use crate::text::{count_char, find_char, first_index_of};
use crate::token::{normalize_spec, remove_leading_dashes};
use crate::value::{coerce_spec, construct_arg_val, ArgType, ArgVal, SpecArgVal};
use vstd::prelude::*;
use vstd::string::*;

verus! {

/// One parsed argument: an option with its value, or an option alone.
///
/// The parser pairs an option with a value that is not `ArgValNone`, and
/// leaves it single otherwise.
#[derive(Debug, PartialEq)]
pub enum Argument {
    PairedArgument(ArgName, ArgVal),
    SingleArgument(ArgName),
}

/// The mathematical model of an [`Argument`].
pub ghost enum SpecArgument {
    Paired(Seq<char>, SpecArgVal),
    Single(Seq<char>),
}

impl View for Argument {
    type V = SpecArgument;

    open spec fn view(&self) -> SpecArgument {
        match *self {
            Argument::PairedArgument(name, value) => SpecArgument::Paired(name@, value@),
            Argument::SingleArgument(name) => SpecArgument::Single(name@),
        }
    }
}

impl DeepView for Argument {
    type V = SpecArgument;

    open spec fn deep_view(&self) -> SpecArgument {
        self@
    }
}

impl SpecArgument {
    /// The name of the option.
    pub open spec fn name(self) -> Seq<char> {
        match self {
            SpecArgument::Paired(name, _) => name,
            SpecArgument::Single(name) => name,
        }
    }

    /// Whether a paired argument holds a value: `Paired` never holds
    /// `NoValue`.
    pub open spec fn wf(self) -> bool {
        match self {
            SpecArgument::Paired(_, value) => !(value is NoValue),
            SpecArgument::Single(_) => true,
        }
    }
}

/// The argument that an option and its coerced value make: a pair, but for
/// the value of a flag, which leaves the option single.
pub open spec fn argument_spec(name: Seq<char>, value: SpecArgVal) -> SpecArgument {
    if value is NoValue {
        SpecArgument::Single(name)
    } else {
        SpecArgument::Paired(name, value)
    }
}

/// The argument that the option `name` of type `arg_type` makes with the raw
/// value `raw`.
pub open spec fn parse_single_spec(name: Seq<char>, arg_type: ArgType, raw: Seq<char>) -> Result<
    SpecArgument,
    ArgError,
> {
    match coerce_spec(raw, arg_type) {
        Ok(value) => Ok(argument_spec(name, value)),
        Err(e) => Err(e),
    }
}

/// What a normalized token means as `name=value`.
///
/// A token without `=` is no such token: `None`. A bare `=` and a token with
/// more than one `=` are malformed. Any other token is parted at its `=`: the
/// name must be declared, and the value is coerced to the declared type.
pub open spec fn parse_embedded_spec(token: Seq<char>, types: Map<Seq<char>, ArgType>) -> Result<
    Option<SpecArgument>,
    ArgError,
> {
    if count_char(token, '=') == 0 {
        Ok(None)
    } else if count_char(token, '=') >= 2 || token.len() == 1 {
        Err(ArgError::MalformedEmbeddedArgument)
    } else {
        let at = first_index_of(token, '=') as int;
        let name = token.take(at);
        match lookup_spec(types, name) {
            Err(e) => Err(e),
            Ok(arg_type) => match parse_single_spec(name, arg_type, token.skip(at + 1)) {
                Err(e) => Err(e),
                Ok(argument) => Ok(Some(argument)),
            },
        }
    }
}

/// What an option that stands alone means: it must be declared, and is
/// single whatever its type.
pub open spec fn parse_isolated_spec(name: Seq<char>, types: Map<Seq<char>, ArgType>) -> Result<
    SpecArgument,
    ArgError,
> {
    match lookup_spec(types, name) {
        Err(e) => Err(e),
        Ok(_) => Ok(SpecArgument::Single(name)),
    }
}

/// One step of the parser on the tokens that are left: the argument that the
/// first token makes, and how many tokens it took, one or two.
///
/// The first token is normalized. If it has the form `name=value` it is an
/// argument by itself. Otherwise it names an option, which must be declared.
/// A flag takes no value and never takes the token after it. Any other option
/// takes the token after it as its raw value, whatever that token looks like;
/// where no token is left, the option is single.
pub open spec fn parse_step(tokens: Seq<Seq<char>>, types: Map<Seq<char>, ArgType>) -> Result<
    (SpecArgument, int),
    ArgError,
>
    recommends
        tokens.len() > 0,
{
    match normalize_spec(tokens[0]) {
        Err(e) => Err(e),
        Ok(name) => match parse_embedded_spec(name, types) {
            Err(e) => Err(e),
            Ok(Some(argument)) => Ok((argument, 1)),
            Ok(None) => match lookup_spec(types, name) {
                Err(e) => Err(e),
                Ok(arg_type) => if tokens.len() > 1 && arg_type != ArgType::ArgTypeNoValue {
                    match parse_single_spec(name, arg_type, tokens[1]) {
                        Err(e) => Err(e),
                        Ok(argument) => Ok((argument, 2)),
                    }
                } else {
                    match parse_isolated_spec(name, types) {
                        Err(e) => Err(e),
                        Ok(argument) => Ok((argument, 1)),
                    }
                },
            },
        },
    }
}

/// What a sequence of tokens means under a schema: the arguments in the order
/// of the tokens, or the first error that a step meets.
pub open spec fn parse_spec(tokens: Seq<Seq<char>>, types: Map<Seq<char>, ArgType>) -> Result<
    Seq<SpecArgument>,
    ArgError,
>
    decreases tokens.len(),
{
    if tokens.len() == 0 {
        Ok(Seq::empty())
    } else {
        match parse_step(tokens, types) {
            Err(e) => Err(e),
            Ok((argument, used)) => match parse_spec(tokens.skip(used), types) {
                Err(e) => Err(e),
                Ok(rest) => Ok(seq![argument] + rest),
            },
        }
    }
}

/// Coerces `arg_val` to `arg_type` and joins it to the option `arg_name`.
pub fn parse_single_argument(arg_name: &str, arg_type: ArgType, arg_val: &str) -> (result: Result<
    Argument,
    ArgError,
>)
    ensures
        match result {
            Ok(argument) => parse_single_spec(arg_name@, arg_type, arg_val@) == Ok::<
                SpecArgument,
                ArgError,
            >(argument@),
            Err(e) => parse_single_spec(arg_name@, arg_type, arg_val@) == Err::<
                SpecArgument,
                ArgError,
            >(e),
        },
{
    let parsed_arg_val = construct_arg_val(arg_val, arg_type)?;
    let parsed_arg_name = ArgName::ArgName(arg_name.to_owned());
    match parsed_arg_val {
        ArgVal::ArgValNone => Ok(Argument::SingleArgument(parsed_arg_name)),
        not_none_type => Ok(Argument::PairedArgument(parsed_arg_name, not_none_type)),
    }
}

/// Reads a normalized token as `name=value`, if it holds a `=`.
pub fn parse_embedded_arg(arg: &str, stored_types: &ArgTypes) -> (result: Result<
    Option<Argument>,
    ArgError,
>)
    ensures
        match result {
            Ok(argument) => parse_embedded_spec(arg@, stored_types@) == Ok::<
                Option<SpecArgument>,
                ArgError,
            >(argument.deep_view()),
            Err(e) => parse_embedded_spec(arg@, stored_types@) == Err::<
                Option<SpecArgument>,
                ArgError,
            >(e),
        },
        count_char(arg@, '=') >= 2 ==> result == Err::<Option<Argument>, ArgError>(
            ArgError::MalformedEmbeddedArgument,
        ),
{
    let equals = match find_char(arg, '=') {
        Some(equals) => equals,
        None => {
            return Ok(None);
        },
    };
    let len = arg.unicode_len();
    if equals.repeated || len == 1 {
        return Err(ArgError::MalformedEmbeddedArgument);
    }
    let unparsed_arg_name = arg.substring_char(0, equals.first);
    let unparsed_arg_value = arg.substring_char(equals.first + 1, len);
    let arg_type = get_arg_type(unparsed_arg_name, stored_types)?;
    let parsed_argument = parse_single_argument(unparsed_arg_name, arg_type, unparsed_arg_value)?;
    Ok(Some(parsed_argument))
}

/// Reads a normalized token as an option that stands alone.
pub fn parse_isolated_arg(arg: &str, arg_types: &ArgTypes) -> (result: Result<Argument, ArgError>)
    ensures
        match result {
            Ok(argument) => parse_isolated_spec(arg@, arg_types@) == Ok::<SpecArgument, ArgError>(
                argument@,
            ),
            Err(e) => parse_isolated_spec(arg@, arg_types@) == Err::<SpecArgument, ArgError>(e),
        },
{
    if arg_types.contains_key(arg) {
        Ok(Argument::SingleArgument(ArgName::ArgName(arg.to_owned())))
    } else {
        Err(ArgError::UnknownOption)
    }
}

/// Parses the tokens `input` under the schema `arg_types`.
///
/// The tokens are read from left to right. Each step reads one option, from
/// one token or from two ([`parse_step`]), and the arguments come out in the
/// order in which they were read. The first error ends the parse, and nothing
/// of what was read before it is handed out.
///
/// Three choices are worth knowing. A flag never takes the token after it, so
/// that token is read as the next option. An option with a value that is the
/// last token is single, and no error. A token of dashes alone names the
/// empty option, and fails as an unknown option unless the schema was made to
/// hold the empty name.
pub fn parse_arguments(input: Vec<String>, arg_types: ArgTypes) -> (result: Result<
    Vec<Argument>,
    ArgError,
>)
    ensures
        match result {
            Ok(arguments) => parse_spec(input.deep_view(), arg_types@) == Ok::<
                Seq<SpecArgument>,
                ArgError,
            >(arguments.deep_view()),
            Err(e) => parse_spec(input.deep_view(), arg_types@) == Err::<
                Seq<SpecArgument>,
                ArgError,
            >(e),
        },
        result matches Ok(arguments) ==> {
            &&& arguments.len() <= input.len()
            &&& forall|i: int|
                0 <= i < arguments.len() ==> arg_types@.contains_key(
                    (#[trigger] arguments[i])@.name(),
                ) && arguments[i]@.wf()
        },
{
    let ghost tokens = input.deep_view();
    let ghost types = arg_types@;
    let mut idx: usize = 0;
    let mut parsed_arguments: Vec<Argument> = Vec::new();
    proof {
        assert(tokens.skip(0) == tokens);
        if let Ok(all) = parse_spec(tokens, types) {
            assert(parsed_arguments.deep_view() + all == all);
        }
    }
    while idx < input.len()
        invariant
            idx <= input.len(),
            tokens == input.deep_view(),
            types == arg_types@,
            match parse_spec(tokens.skip(idx as int), types) {
                Ok(rest) => parse_spec(tokens, types) == Ok::<Seq<SpecArgument>, ArgError>(
                    parsed_arguments.deep_view() + rest,
                ),
                Err(e) => parse_spec(tokens, types) == Err::<Seq<SpecArgument>, ArgError>(e),
            },
        decreases input.len() - idx,
    {
        let ghost left = tokens.skip(idx as int);
        let ghost before = parsed_arguments.deep_view();
        proof {
            assert(left[0] == input[idx as int]@);
            assert(left.skip(1) == tokens.skip(idx + 1));
            if left.len() > 1 {
                assert(left.skip(2) == tokens.skip(idx + 2));
            }
        }
        let mut increment: usize = 1;
        let current_arg_name = remove_leading_dashes(input[idx].as_str())?;
        let argument = match parse_embedded_arg(current_arg_name, &arg_types)? {
            Some(embedded_arg) => embedded_arg,
            None => {
                let parsed_arg_type = get_arg_type(current_arg_name, &arg_types)?;
                if idx < input.len() - 1 && parsed_arg_type != ArgType::ArgTypeNoValue {
                    assert(left[1] == input[idx + 1]@);
                    let raw_arg_value = input[idx + 1].as_str();
                    increment = 2;
                    parse_single_argument(current_arg_name, parsed_arg_type, raw_arg_value)?
                } else {
                    parse_isolated_arg(current_arg_name, &arg_types)?
                }
            },
        };
        parsed_arguments.push(argument);
        idx += increment;
        proof {
            assert(parsed_arguments.deep_view() == before.push(argument@));
            if let Ok(rest) = parse_spec(tokens.skip(idx as int), types) {
                assert(before + (seq![argument@] + rest) == before.push(argument@) + rest);
            }
        }
    }
    proof {
        let all = parsed_arguments.deep_view();
        assert(tokens.skip(idx as int).len() == 0);
        assert(all + Seq::<SpecArgument>::empty() == all);
        law_arguments_are_declared(tokens, types);
        assert forall|i: int| 0 <= i < parsed_arguments.len() implies types.contains_key(
            (#[trigger] parsed_arguments[i])@.name(),
        ) && parsed_arguments[i]@.wf() by {
            assert(all[i] == parsed_arguments[i]@);
        }
    }
    Ok(parsed_arguments)
}

} // verus!
