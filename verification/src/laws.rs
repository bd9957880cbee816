//! What holds of the parser as a whole, proved from the model.

use crate::error::ArgError;
use crate::parser::{parse_embedded_spec, parse_spec, parse_step, SpecArgument};
use crate::schema::{declaration_spec, declared_type, is_valid_name, lookup_spec, register_spec};
use crate::text::{
    count_char, first_index_of, lemma_count_char_add, lemma_count_char_one, lemma_count_char_zero,
    lemma_first_index_of, lemma_strip_dashes, lemma_strip_dashes_result, strip_dashes,
};
use crate::token::{is_embedded, normalize_spec};
use crate::value::{
    coerce_spec, decimal_value, is_decimal, is_digit, type_of_value, ArgType, SpecArgVal,
};
use vstd::prelude::*;

verus! {

/// Whether the parser, reading `tokens` from the left, reads the token at
/// `idx` as an option: every step before `idx` succeeds, and none of them
/// takes the token at `idx` as its value.
pub open spec fn reads_option_at(
    tokens: Seq<Seq<char>>,
    types: Map<Seq<char>, ArgType>,
    idx: int,
) -> bool
    decreases tokens.len(),
{
    if idx <= 0 || tokens.len() == 0 {
        idx == 0
    } else {
        match parse_step(tokens, types) {
            Err(_) => false,
            Ok((_, used)) => used <= idx && reads_option_at(tokens.skip(used), types, idx - used),
        }
    }
}

/// The option that a token names where it is read as an option: the
/// normalized token itself, or what stands before the `=` of a token of the
/// form `name=value`. An empty token, a bare `=` and a token with several `=`
/// name none.
pub open spec fn named_option(token: Seq<char>) -> Option<Seq<char>> {
    match normalize_spec(token) {
        Err(_) => None,
        Ok(name) => if count_char(name, '=') == 0 {
            Some(name)
        } else if is_embedded(name) && name.len() > 1 {
            Some(name.take(first_index_of(name, '=') as int))
        } else {
            None
        },
    }
}

/// A valid name is its own normalized form, and is no token of the form
/// `name=value`.
pub proof fn lemma_valid_name_token(name: Seq<char>, types: Map<Seq<char>, ArgType>)
    requires
        is_valid_name(name),
    ensures
        normalize_spec(name) == Ok::<Seq<char>, ArgError>(name),
        parse_embedded_spec(name, types) == Ok::<Option<SpecArgument>, ArgError>(None),
{
    lemma_count_char_zero(name, '=');
}

/// Dashes are no `=`: stripping them leaves the count of `=` as it was.
pub proof fn lemma_strip_dashes_keeps_equals(token: Seq<char>)
    ensures
        count_char(strip_dashes(token), '=') == count_char(token, '='),
{
    lemma_strip_dashes_result(token);
    let rest = strip_dashes(token);
    let dashes = token.take(token.len() - rest.len());
    assert(token == dashes + rest);
    lemma_count_char_add(dashes, rest, '=');
    lemma_count_char_zero(dashes, '=');
}

/// A declared flag that is the only token parses to the single argument of
/// its name.
pub proof fn law_flag_alone(types: Map<Seq<char>, ArgType>, name: Seq<char>)
    requires
        is_valid_name(name),
        types.contains_key(name),
        types[name] == ArgType::ArgTypeNoValue,
    ensures
        parse_spec(seq![name], types) == Ok::<Seq<SpecArgument>, ArgError>(
            seq![SpecArgument::Single(name)],
        ),
{
    let tokens = seq![name];
    lemma_valid_name_token(name, types);
    assert(parse_step(tokens, types) == Ok::<(SpecArgument, int), ArgError>(
        (SpecArgument::Single(name), 1),
    ));
    assert(parse_spec(tokens.skip(1), types) == Ok::<Seq<SpecArgument>, ArgError>(Seq::empty()));
    assert(seq![SpecArgument::Single(name)] + Seq::<SpecArgument>::empty()
        == seq![SpecArgument::Single(name)]);
}

/// An option declared with a string value, followed by one more token, parses
/// to the pair of its name and that token, whatever the token holds.
pub proof fn law_string_option_takes_next_token(
    types: Map<Seq<char>, ArgType>,
    name: Seq<char>,
    value: Seq<char>,
)
    requires
        is_valid_name(name),
        types.contains_key(name),
        types[name] == ArgType::ArgTypeString,
    ensures
        parse_spec(seq![name, value], types) == Ok::<Seq<SpecArgument>, ArgError>(
            seq![SpecArgument::Paired(name, SpecArgVal::String(value))],
        ),
{
    let tokens = seq![name, value];
    let argument = SpecArgument::Paired(name, SpecArgVal::String(value));
    lemma_valid_name_token(name, types);
    assert(parse_step(tokens, types) == Ok::<(SpecArgument, int), ArgError>((argument, 2)));
    assert(parse_spec(tokens.skip(2), types) == Ok::<Seq<SpecArgument>, ArgError>(Seq::empty()));
    assert(seq![argument] + Seq::<SpecArgument>::empty() == seq![argument]);
}

/// An option declared with an unsigned integer value, written as one token
/// `--name=digits`, parses to the pair of its name and the number that the
/// digits denote.
pub proof fn law_embedded_unsigned_integer(
    types: Map<Seq<char>, ArgType>,
    name: Seq<char>,
    digits: Seq<char>,
)
    requires
        is_valid_name(name),
        types.contains_key(name),
        types[name] == ArgType::ArgTypeUsize,
        decimal_value(digits) is Some,
    ensures
        parse_spec(seq![seq!['-', '-'] + name + seq!['='] + digits], types) == Ok::<
            Seq<SpecArgument>,
            ArgError,
        >(seq![SpecArgument::Paired(name, SpecArgVal::Usize(decimal_value(digits)->Some_0))]),
{
    let token = seq!['-', '-'] + name + seq!['='] + digits;
    let tokens = seq![token];
    let joined = name + seq!['='] + digits;
    let at = name.len() as int;
    let argument = SpecArgument::Paired(name, SpecArgVal::Usize(decimal_value(digits)->Some_0));
    assert(normalize_spec(token) == Ok::<Seq<char>, ArgError>(joined)) by {
        lemma_strip_dashes(token, 2);
        assert(token.skip(2) == joined);
    }
    assert(count_char(joined, '=') == 1) by {
        lemma_count_char_add(name + seq!['='], digits, '=');
        lemma_count_char_add(name, seq!['='], '=');
        lemma_count_char_zero(name, '=');
        lemma_count_char_one('=', '=');
        assert(!digits.contains('=')) by {
            if digits.contains('=') {
                let i = choose|i: int| 0 <= i < digits.len() && digits[i] == '=';
                assert(is_digit(digits[i]));
            }
        }
        lemma_count_char_zero(digits, '=');
    }
    assert(first_index_of(joined, '=') == at) by {
        assert forall|j: int| 0 <= j < at implies joined[j] != '=' by {
            assert(joined[j] == name[j]);
        }
        lemma_first_index_of(joined, '=', at);
    }
    assert(joined.take(at) == name);
    assert(joined.skip(at + 1) == digits);
    assert(parse_embedded_spec(joined, types) == Ok::<Option<SpecArgument>, ArgError>(
        Some(argument),
    ));
    assert(parse_step(tokens, types) == Ok::<(SpecArgument, int), ArgError>((argument, 1)));
    assert(parse_spec(tokens.skip(1), types) == Ok::<Seq<SpecArgument>, ArgError>(Seq::empty()));
    assert(seq![argument] + Seq::<SpecArgument>::empty() == seq![argument]);
}

/// A string that is no decimal numeral is never coerced to an unsigned
/// integer.
pub proof fn law_non_numeral_is_refused(raw: Seq<char>)
    requires
        !is_decimal(raw),
    ensures
        coerce_spec(raw, ArgType::ArgTypeUsize) == Err::<SpecArgVal, ArgError>(
            ArgError::TypeCoercion,
        ),
{
}

/// A coerced value has the shape of the type it was coerced to.
pub proof fn law_value_matches_type(raw: Seq<char>, arg_type: ArgType)
    ensures
        coerce_spec(raw, arg_type) matches Ok(value) ==> type_of_value(value) == arg_type,
{
}

/// The parse fails fast: the error of the first step that fails is the error
/// of the whole parse.
pub proof fn law_first_error_ends_parse(
    tokens: Seq<Seq<char>>,
    types: Map<Seq<char>, ArgType>,
    idx: int,
)
    requires
        0 <= idx < tokens.len(),
        reads_option_at(tokens, types, idx),
        parse_step(tokens.skip(idx), types) is Err,
    ensures
        parse_spec(tokens, types) == Err::<Seq<SpecArgument>, ArgError>(
            parse_step(tokens.skip(idx), types)->Err_0,
        ),
    decreases tokens.len(),
{
    if idx == 0 {
        assert(tokens.skip(0) == tokens);
    } else {
        let used = parse_step(tokens, types)->Ok_0.1;
        assert(tokens.skip(used).skip(idx - used) == tokens.skip(idx));
        law_first_error_ends_parse(tokens.skip(used), types, idx - used);
    }
}

/// A token that is read as an option and names one that the schema does not
/// declare fails the parse with `UnknownOption`, wherever it stands.
pub proof fn law_unknown_option_fails(
    tokens: Seq<Seq<char>>,
    types: Map<Seq<char>, ArgType>,
    idx: int,
)
    requires
        0 <= idx < tokens.len(),
        reads_option_at(tokens, types, idx),
        named_option(tokens[idx]) matches Some(name) && !types.contains_key(name),
    ensures
        parse_spec(tokens, types) == Err::<Seq<SpecArgument>, ArgError>(ArgError::UnknownOption),
{
    assert(tokens.skip(idx)[0] == tokens[idx]);
    law_first_error_ends_parse(tokens, types, idx);
}

/// A token that is read as an option and holds two `=` or more fails the
/// parse with `MalformedEmbeddedArgument`, wherever it stands. So does a
/// token that is a bare `=` once its dashes are stripped.
pub proof fn law_malformed_token_fails(
    tokens: Seq<Seq<char>>,
    types: Map<Seq<char>, ArgType>,
    idx: int,
)
    requires
        0 <= idx < tokens.len(),
        reads_option_at(tokens, types, idx),
        count_char(tokens[idx], '=') >= 2 || strip_dashes(tokens[idx]) == seq!['='],
    ensures
        parse_spec(tokens, types) == Err::<Seq<SpecArgument>, ArgError>(
            ArgError::MalformedEmbeddedArgument,
        ),
{
    let token = tokens[idx];
    assert(tokens.skip(idx)[0] == token);
    lemma_strip_dashes_keeps_equals(token);
    if strip_dashes(token) == seq!['='] {
        lemma_count_char_one('=', '=');
    }
    assert(token.len() > 0) by {
        if token.len() == 0 {
            assert(count_char(token, '=') == 0);
        }
    }
    law_first_error_ends_parse(tokens, types, idx);
}

/// Declaring a name again is no error, and the last declaration wins: after
/// two declarations of one name the registry is what the second alone would
/// have made it, and a lookup of the name gives the type declared last.
pub proof fn law_last_registration_wins(
    types: Map<Seq<char>, ArgType>,
    name: Seq<char>,
    first: Option<Seq<char>>,
    second: Option<Seq<char>>,
)
    requires
        declaration_spec(name, first) is Ok,
        declaration_spec(name, second) is Ok,
    ensures
        register_spec(types, name, first) matches Ok(once) && register_spec(once, name, second)
            matches Ok(twice) && register_spec(types, name, second) == Ok::<
            Map<Seq<char>, ArgType>,
            ArgError,
        >(twice) && lookup_spec(twice, name) == declared_type(second),
{
    let once = register_spec(types, name, first)->Ok_0;
    let twice = register_spec(once, name, second)->Ok_0;
    assert(twice == register_spec(types, name, second)->Ok_0);
}

/// Every argument that a parse hands out names a declared option, a paired
/// argument holds a value, and there are no more arguments than tokens.
pub proof fn law_arguments_are_declared(tokens: Seq<Seq<char>>, types: Map<Seq<char>, ArgType>)
    ensures
        parse_spec(tokens, types) matches Ok(arguments) ==> {
            &&& arguments.len() <= tokens.len()
            &&& forall|i: int|
                0 <= i < arguments.len() ==> types.contains_key((#[trigger] arguments[i]).name())
                    && arguments[i].wf()
        },
    decreases tokens.len(),
{
    if tokens.len() > 0 {
        if let Ok(arguments) = parse_spec(tokens, types) {
            let used = parse_step(tokens, types)->Ok_0.1;
            let first = parse_step(tokens, types)->Ok_0.0;
            let rest = parse_spec(tokens.skip(used), types)->Ok_0;
            law_arguments_are_declared(tokens.skip(used), types);
            assert(arguments == seq![first] + rest);
            assert forall|i: int| 0 <= i < arguments.len() implies types.contains_key(
                (#[trigger] arguments[i]).name(),
            ) && arguments[i].wf() by {
                if i > 0 {
                    assert(arguments[i] == rest[i - 1]);
                }
            }
        }
    }
}

} // verus!
