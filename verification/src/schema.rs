//! The schema: option names, the types declared for them, and the registry
//! that holds the declarations of one parse session.

use crate::error::ArgError;
use crate::text::{find_char, lemma_count_char_zero, str_equal};
use crate::value::ArgType;
use vstd::hash_map::StringHashMap;
use vstd::prelude::*;
use vstd::string::*;

verus! {

/// The name of an option, without dashes in front.
///
/// Two names are the same name exactly if they hold the same characters. A
/// name that [`construct_arg_name`] made is valid ([`is_valid_name`]); one
/// built from the variant directly is whatever its string is.
#[derive(Debug, PartialEq, Eq, Hash)]
pub enum ArgName {
    ArgName(String),
}

impl Clone for ArgName {
    fn clone(&self) -> (name: ArgName)
        ensures
            name@ == self@,
    {
        match self {
            ArgName::ArgName(s) => ArgName::ArgName(s.clone()),
        }
    }
}

impl View for ArgName {
    type V = Seq<char>;

    open spec fn view(&self) -> Seq<char> {
        match *self {
            ArgName::ArgName(s) => s@,
        }
    }
}

impl DeepView for ArgName {
    type V = Seq<char>;

    open spec fn deep_view(&self) -> Seq<char> {
        self@
    }
}

/// Whether `name` can name an option: it is not empty, does not start with a
/// dash, and holds no `=`.
pub open spec fn is_valid_name(name: Seq<char>) -> bool {
    name.len() > 0 && name[0] != '-' && !name.contains('=')
}

/// The type that a declaration names: none for a flag, `"usize"` or
/// `"string"` for an option with a value. Nothing else is a type.
pub open spec fn declared_type(declaration: Option<Seq<char>>) -> Result<ArgType, ArgError> {
    match declaration {
        None => Ok(ArgType::ArgTypeNoValue),
        Some(s) => if s == "usize"@ {
            Ok(ArgType::ArgTypeUsize)
        } else if s == "string"@ {
            Ok(ArgType::ArgTypeString)
        } else {
            Err(ArgError::UnrecognizedType)
        },
    }
}

/// What declaring `name` with `declaration` gives. The name is judged first.
pub open spec fn declaration_spec(name: Seq<char>, declaration: Option<Seq<char>>) -> Result<
    (Seq<char>, ArgType),
    ArgError,
> {
    if !is_valid_name(name) {
        Err(ArgError::InvalidName)
    } else {
        match declared_type(declaration) {
            Ok(t) => Ok((name, t)),
            Err(e) => Err(e),
        }
    }
}

/// The registry after `name` was declared in `types`: the entry is added, or
/// replaces the one that `name` had.
pub open spec fn register_spec(
    types: Map<Seq<char>, ArgType>,
    name: Seq<char>,
    declaration: Option<Seq<char>>,
) -> Result<Map<Seq<char>, ArgType>, ArgError> {
    match declaration_spec(name, declaration) {
        Ok((n, t)) => Ok(types.insert(n, t)),
        Err(e) => Err(e),
    }
}

/// The type that `types` declares for `name`.
pub open spec fn lookup_spec(types: Map<Seq<char>, ArgType>, name: Seq<char>) -> Result<
    ArgType,
    ArgError,
> {
    if types.contains_key(name) {
        Ok(types[name])
    } else {
        Err(ArgError::UnknownOption)
    }
}

/// Whether every name that `types` declares is a valid option name.
pub open spec fn registry_wf(types: Map<Seq<char>, ArgType>) -> bool {
    forall|name: Seq<char>| types.contains_key(name) ==> is_valid_name(name)
}

impl ArgName {
    /// Whether the name is a valid option name.
    pub open spec fn wf(&self) -> bool {
        is_valid_name(self@)
    }

    /// The characters of the name.
    pub fn as_str(&self) -> (s: &str)
        ensures
            s@ == self@,
    {
        match self {
            ArgName::ArgName(s) => s.as_str(),
        }
    }
}

/// The schema registry: which option names exist, and the type of each.
///
/// Its model is a map from names to types, so a name has one type at most.
pub struct ArgTypes {
    types: StringHashMap<ArgType>,
}

impl View for ArgTypes {
    type V = Map<Seq<char>, ArgType>;

    closed spec fn view(&self) -> Map<Seq<char>, ArgType> {
        self.types@
    }
}

impl ArgTypes {
    /// Whether every declared name is a valid option name. A registry that
    /// was filled through [`ArgTypes::register`] or
    /// [`insert_argument_type`] alone is well formed.
    pub open spec fn wf(&self) -> bool {
        registry_wf(self@)
    }

    /// A registry that declares nothing.
    pub fn new() -> (types: ArgTypes)
        ensures
            types@ == Map::<Seq<char>, ArgType>::empty(),
            types.wf(),
    {
        ArgTypes { types: StringHashMap::new() }
    }

    /// Declares `name` with type `arg_type`, in place of what was declared for
    /// `name` before. The name is taken as it is.
    pub fn insert(&mut self, name: ArgName, arg_type: ArgType)
        ensures
            final(self)@ == old(self)@.insert(name@, arg_type),
            old(self).wf() && name.wf() ==> final(self).wf(),
    {
        match name {
            ArgName::ArgName(s) => {
                self.types.insert(s, arg_type);
            },
        }
    }

    /// Whether `name` is declared.
    pub fn contains_key(&self, name: &str) -> (declared: bool)
        ensures
            declared == self@.contains_key(name@),
    {
        self.types.contains_key(name)
    }

    /// The type declared for `name`, if it is declared.
    pub fn get(&self, name: &str) -> (arg_type: Option<ArgType>)
        ensures
            arg_type == (if self@.contains_key(name@) {
                Some(self@[name@])
            } else {
                None
            }),
    {
        match self.types.get(name) {
            Some(t) => Some(*t),
            None => None,
        }
    }

    /// Declares the option `name` with the type that `declaration` names.
    ///
    /// The name is validated, the declaration is read, and the entry is
    /// written over any earlier one for the same name: the last declaration
    /// wins. On an error the registry is left as it was.
    pub fn register(&mut self, name: String, declaration: Option<String>) -> (result: Result<
        ArgName,
        ArgError,
    >)
        ensures
            match result {
                Ok(n) => n@ == name@ && register_spec(
                    old(self)@,
                    name@,
                    declaration.deep_view(),
                ) == Ok::<Map<Seq<char>, ArgType>, ArgError>(final(self)@),
                Err(e) => final(self)@ == old(self)@ && register_spec(
                    old(self)@,
                    name@,
                    declaration.deep_view(),
                ) == Err::<Map<Seq<char>, ArgType>, ArgError>(e),
            },
            old(self).wf() ==> final(self).wf(),
    {
        let (arg_name, arg_type) = construct_arg_tuple(name, declaration)?;
        self.types.insert(arg_name.as_str().to_owned(), arg_type);
        Ok(arg_name)
    }
}

/// Reads the declaration of a type.
pub fn construct_arg_type(arg_type: Option<String>) -> (result: Result<ArgType, ArgError>)
    ensures
        result == declared_type(arg_type.deep_view()),
{
    match arg_type {
        None => Ok(ArgType::ArgTypeNoValue),
        Some(arg_str) => {
            if str_equal(arg_str.as_str(), "usize") {
                Ok(ArgType::ArgTypeUsize)
            } else if str_equal(arg_str.as_str(), "string") {
                Ok(ArgType::ArgTypeString)
            } else {
                Err(ArgError::UnrecognizedType)
            }
        },
    }
}

/// Makes an option name of `arg_name`, if it is a valid one.
pub fn construct_arg_name(arg_name: String) -> (result: Result<ArgName, ArgError>)
    ensures
        match result {
            Ok(name) => is_valid_name(arg_name@) && name@ == arg_name@,
            Err(e) => !is_valid_name(arg_name@) && e == ArgError::InvalidName,
        },
{
    let s = arg_name.as_str();
    if s.unicode_len() == 0 {
        return Err(ArgError::InvalidName);
    }
    if s.get_char(0) == '-' {
        return Err(ArgError::InvalidName);
    }
    proof {
        lemma_count_char_zero(s@, '=');
    }
    if find_char(s, '=').is_some() {
        return Err(ArgError::InvalidName);
    }
    Ok(ArgName::ArgName(arg_name))
}

/// Makes one entry of a schema: a valid name and the type declared for it.
pub fn construct_arg_tuple(arg_name: String, arg_type: Option<String>) -> (result: Result<
    (ArgName, ArgType),
    ArgError,
>)
    ensures
        match result {
            Ok((name, t)) => declaration_spec(arg_name@, arg_type.deep_view()) == Ok::<
                (Seq<char>, ArgType),
                ArgError,
            >((name@, t)),
            Err(e) => declaration_spec(arg_name@, arg_type.deep_view()) == Err::<
                (Seq<char>, ArgType),
                ArgError,
            >(e),
        },
{
    let constructed_arg_name = construct_arg_name(arg_name)?;
    let constructed_arg_type = construct_arg_type(arg_type)?;
    Ok((constructed_arg_name, constructed_arg_type))
}

/// The type that `stored_types` declares for the name `input_str`.
pub fn get_arg_type(input_str: &str, stored_types: &ArgTypes) -> (result: Result<
    ArgType,
    ArgError,
>)
    ensures
        result == lookup_spec(stored_types@, input_str@),
{
    match stored_types.get(input_str) {
        Some(arg_type) => Ok(arg_type),
        None => Err(ArgError::UnknownOption),
    }
}

/// Declares the option `arg_name` with a value of the type that `arg_type`
/// names, `"usize"` or `"string"`, in `arg_types`.
///
/// The last declaration of a name wins. On an error `arg_types` is left as it
/// was.
pub fn insert_argument_type(arg_name: &str, arg_type: &str, arg_types: &mut ArgTypes) -> (result:
    Result<(), ArgError>)
    ensures
        match result {
            Ok(_) => register_spec(old(arg_types)@, arg_name@, Some(arg_type@)) == Ok::<
                Map<Seq<char>, ArgType>,
                ArgError,
            >(final(arg_types)@),
            Err(e) => final(arg_types)@ == old(arg_types)@ && register_spec(
                old(arg_types)@,
                arg_name@,
                Some(arg_type@),
            ) == Err::<Map<Seq<char>, ArgType>, ArgError>(e),
        },
        old(arg_types).wf() ==> final(arg_types).wf(),
{
    arg_types.register(arg_name.to_owned(), Some(arg_type.to_owned()))?;
    Ok(())
}

/// A registry that declares nothing yet.
pub fn initialize_arg_types_hashmap() -> (arg_types: ArgTypes)
    ensures
        arg_types@ == Map::<Seq<char>, ArgType>::empty(),
        arg_types.wf(),
{
    ArgTypes::new()
}

} // verus!
