//! The arguments of the route macros: `"/path", tag = "...", request_body = T,
//! response = T, openapi = bool`.

use vstd::prelude::*;

use crate::text::str_eq;

verus! {

/// The value of one `key = value` argument, as far as the macro reads it.
#[derive(Debug, PartialEq, Eq)]
pub enum MetaValue {
    /// A string literal, with its contents.
    Str(String),
    /// `true` or `false`.
    Bool(bool),
    /// Any other expression.
    Other,
}

/// One argument after the path.
#[derive(Debug, PartialEq, Eq)]
pub enum MetaArg {
    /// `key = value`. `key` is the identifier when the left-hand side is a single bare
    /// identifier; `as_type` is `Some(is_unit)` when the value also reads as a type
    /// (`is_unit`: it is the empty tuple `()`), `None` when it does not.
    NameValue { key: Option<String>, value: MetaValue, as_type: Option<bool> },
    /// A bare path or a list, such as `tag` or `tag("x")`.
    Other,
}

/// Parsed macro arguments. Each present option holds the position of the argument
/// that set it; when a key repeats, the last one wins.
#[derive(Debug, PartialEq, Eq)]
pub struct ApiArgs {
    /// The route path literal's contents.
    pub path: String,
    pub tag: Option<usize>,
    pub request_body: Option<usize>,
    pub response: Option<usize>,
    pub openapi: Option<bool>,
}

/// Why the arguments were refused; each names the argument at fault by position.
#[derive(Debug, Clone, Copy, PartialEq, Eq, Structural)]
pub enum ArgError {
    /// `tag` was not given a string literal.
    ExpectedStringLiteral(usize),
    /// `openapi` was not given a bool literal.
    ExpectedBoolLiteral(usize),
    /// `request_body` or `response` was not given a type.
    InvalidType(usize),
    /// Not one of the four `key = value` forms.
    UnexpectedArgument(usize),
}

impl ArgError {
    /// The diagnostic the macro reports (the type parser words its own for `InvalidType`).
    pub fn message(&self) -> (s: &'static str)
        ensures
            s@ == self.spec_message(),
    {
        match self {
            ArgError::ExpectedStringLiteral(_) => "expected string literal",
            ArgError::ExpectedBoolLiteral(_) => "expected bool literal",
            ArgError::InvalidType(_) => "expected type",
            ArgError::UnexpectedArgument(_) => "expected tag / request_body / response / openapi",
        }
    }

    pub open spec fn spec_message(self) -> Seq<char> {
        match self {
            ArgError::ExpectedStringLiteral(_) => "expected string literal"@,
            ArgError::ExpectedBoolLiteral(_) => "expected bool literal"@,
            ArgError::InvalidType(_) => "expected type"@,
            ArgError::UnexpectedArgument(_) => "expected tag / request_body / response / openapi"@,
        }
    }
}

/// The key is exactly the identifier `name`.
pub open spec fn key_is(key: Option<String>, name: Seq<char>) -> bool {
    key matches Some(k) && k@ == name
}

/// The arguments after one more `key = value` argument, found at position `i`.
pub open spec fn apply_meta(acc: ApiArgs, m: MetaArg, i: usize) -> Result<ApiArgs, ArgError> {
    match m {
        MetaArg::NameValue { key, value, as_type } => {
            if key_is(key, "tag"@) {
                if value is Str {
                    Ok(ApiArgs { tag: Some(i), ..acc })
                } else {
                    Err(ArgError::ExpectedStringLiteral(i))
                }
            } else if key_is(key, "request_body"@) {
                if as_type is Some {
                    Ok(ApiArgs { request_body: Some(i), ..acc })
                } else {
                    Err(ArgError::InvalidType(i))
                }
            } else if key_is(key, "response"@) {
                if as_type is Some {
                    Ok(ApiArgs { response: Some(i), ..acc })
                } else {
                    Err(ArgError::InvalidType(i))
                }
            } else if key_is(key, "openapi"@) {
                match value {
                    MetaValue::Bool(b) => Ok(ApiArgs { openapi: Some(b), ..acc }),
                    _ => Err(ArgError::ExpectedBoolLiteral(i)),
                }
            } else {
                Err(ArgError::UnexpectedArgument(i))
            }
        },
        MetaArg::Other => Err(ArgError::UnexpectedArgument(i)),
    }
}

/// The arguments `metas` read left to right after `path`; the first refused one is the error.
pub open spec fn parse_metas(path: String, metas: Seq<MetaArg>) -> Result<ApiArgs, ArgError>
    decreases metas.len(),
{
    if metas.len() == 0 {
        Ok(ApiArgs { path, tag: None, request_body: None, response: None, openapi: None })
    } else {
        match parse_metas(path, metas.drop_last()) {
            Ok(acc) => apply_meta(acc, metas.last(), (metas.len() - 1) as usize),
            Err(e) => Err(e),
        }
    }
}

/// Once a prefix of the arguments is refused, so is every longer run of them.
proof fn lemma_refusal_persists(path: String, metas: Seq<MetaArg>, k: int)
    requires
        0 <= k <= metas.len(),
        parse_metas(path, metas.take(k)) is Err,
    ensures
        parse_metas(path, metas) == parse_metas(path, metas.take(k)),
    decreases metas.len() - k,
{
    if k < metas.len() {
        assert(metas.drop_last().take(k) =~= metas.take(k));
        lemma_refusal_persists(path, metas.drop_last(), k);
    } else {
        assert(metas.take(k) =~= metas);
    }
}

/// The contents of a string literal, if `value` is one.
pub fn expr_to_lit_str(value: &MetaValue) -> (r: Option<String>)
    ensures
        r == (match *value {
            MetaValue::Str(s) => Some(s),
            _ => None::<String>,
        }),
{
    match value {
        MetaValue::Str(s) => Some(s.clone()),
        _ => None,
    }
}

/// The value of a bool literal, if `value` is one.
pub fn expr_to_bool(value: &MetaValue) -> (r: Option<bool>)
    ensures
        r == (match *value {
            MetaValue::Bool(b) => Some(b),
            _ => None::<bool>,
        }),
{
    match value {
        MetaValue::Bool(b) => Some(*b),
        _ => None,
    }
}

fn key_equals(key: &Option<String>, name: &str) -> (r: bool)
    ensures
        r == key_is(*key, name@),
{
    match key {
        Some(k) => str_eq(k.as_str(), name),
        None => false,
    }
}

/// The arguments after the argument `m`, found at position `i` (see `apply_meta`).
fn apply_meta_at(acc: ApiArgs, m: &MetaArg, i: usize) -> (r: Result<ApiArgs, ArgError>)
    ensures
        r == apply_meta(acc, *m, i),
{
    let mut acc = acc;
    match m {
        MetaArg::NameValue { key, value, as_type } => {
            if key_equals(key, "tag") {
                match expr_to_lit_str(value) {
                    Some(_) => {
                        acc.tag = Some(i);
                        Ok(acc)
                    },
                    None => Err(ArgError::ExpectedStringLiteral(i)),
                }
            } else if key_equals(key, "request_body") {
                if as_type.is_some() {
                    acc.request_body = Some(i);
                    Ok(acc)
                } else {
                    Err(ArgError::InvalidType(i))
                }
            } else if key_equals(key, "response") {
                if as_type.is_some() {
                    acc.response = Some(i);
                    Ok(acc)
                } else {
                    Err(ArgError::InvalidType(i))
                }
            } else if key_equals(key, "openapi") {
                match expr_to_bool(value) {
                    Some(b) => {
                        acc.openapi = Some(b);
                        Ok(acc)
                    },
                    None => Err(ArgError::ExpectedBoolLiteral(i)),
                }
            } else {
                Err(ArgError::UnexpectedArgument(i))
            }
        },
        MetaArg::Other => Err(ArgError::UnexpectedArgument(i)),
    }
}

impl ApiArgs {
    /// Reads the arguments that follow the path literal.
    pub fn parse(path: String, metas: &Vec<MetaArg>) -> (r: Result<ApiArgs, ArgError>)
        ensures
            r == parse_metas(path, metas@),
    {
        let ghost path0 = path;
        let mut acc = ApiArgs { path, tag: None, request_body: None, response: None, openapi: None };
        let mut i: usize = 0;
        assert(metas@.take(0) =~= Seq::<MetaArg>::empty());
        while i < metas.len()
            invariant
                path0 == path,
                i <= metas.len(),
                parse_metas(path0, metas@.take(i as int)) == Ok::<ApiArgs, ArgError>(acc),
            decreases metas.len() - i,
        {
            assert(metas@.take(i + 1).drop_last() =~= metas@.take(i as int));
            assert(metas@.take(i + 1).last() == metas@[i as int]);
            match apply_meta_at(acc, &metas[i], i) {
                Ok(next) => {
                    acc = next;
                },
                Err(e) => {
                    proof {
                        lemma_refusal_persists(path0, metas@, i + 1);
                    }
                    return Err(e);
                },
            }
            i += 1;
        }
        assert(metas@.take(metas.len() as int) =~= metas@);
        Ok(acc)
    }
}

} // verus!
