//! What the route macros read of the documented function's signature.

use vstd::prelude::*;

use crate::text::str_eq;

verus! {

/// One input of the function.
#[derive(Debug, PartialEq, Eq)]
pub enum FnArgShape {
    /// `self`, `&self`, ...
    Receiver,
    /// `pattern: Type`; `ident` is the name when the pattern is a plain identifier.
    Typed { ident: Option<String> },
}

/// The named inputs of `args`: each typed input bound to a plain identifier, with its
/// position among all inputs, in order.
pub open spec fn arg_map_of(args: Seq<FnArgShape>) -> Seq<(Seq<char>, int)>
    decreases args.len(),
{
    if args.len() == 0 {
        Seq::empty()
    } else {
        let prev = arg_map_of(args.drop_last());
        match args.last() {
            FnArgShape::Typed { ident: Some(n) } => prev.push((n@, args.len() - 1)),
            _ => prev,
        }
    }
}

/// The view of an argument map as names and positions.
pub open spec fn arg_map_view(m: Seq<(String, usize)>) -> Seq<(Seq<char>, int)> {
    m.map_values(|e: (String, usize)| (e.0@, e.1 as int))
}

/// Map arg name to its position among the inputs. Skips receivers and inputs whose
/// pattern is not a plain identifier; order is kept.
pub fn fn_arg_map(args: &Vec<FnArgShape>) -> (out: Vec<(String, usize)>)
    ensures
        arg_map_view(out@) == arg_map_of(args@),
{
    let mut out: Vec<(String, usize)> = Vec::new();
    let mut i: usize = 0;
    assert(args@.take(0) =~= Seq::<FnArgShape>::empty());
    while i < args.len()
        invariant
            i <= args.len(),
            arg_map_view(out@) == arg_map_of(args@.take(i as int)),
        decreases args.len() - i,
    {
        assert(args@.take(i + 1).drop_last() =~= args@.take(i as int));
        assert(args@.take(i + 1).last() == args@[i as int]);
        let ghost before = out@;
        match &args[i] {
            FnArgShape::Typed { ident: Some(n) } => {
                out.push((n.clone(), i));
                assert(arg_map_view(out@) =~= arg_map_view(before).push((n@, i as int)));
            },
            _ => {},
        }
        i += 1;
    }
    assert(args@.take(args.len() as int) =~= args@);
    out
}

/// One generic argument of the return type's last path segment.
#[derive(Debug, PartialEq, Eq)]
pub enum GenericArgShape {
    /// A type; `is_unit` when it is `()`.
    Type { is_unit: bool },
    /// A lifetime, constant, binding or constraint.
    Other,
}

/// The arguments of the return type's last path segment.
#[derive(Debug, PartialEq, Eq)]
pub enum PathArgsShape {
    Bare,
    AngleBracketed(Vec<GenericArgShape>),
    Parenthesized,
}

/// The function's return type.
#[derive(Debug, PartialEq, Eq)]
pub enum ReturnShape {
    /// No `-> T`.
    Default,
    /// A path type; `last_segment` is its last segment's identifier and arguments,
    /// `None` when the path has no segment.
    Path { last_segment: Option<(String, PathArgsShape)> },
    /// Any other type; `is_unit` when it is `()`.
    Other { is_unit: bool },
}

/// Which type documents the success response.
#[derive(Debug, Clone, Copy, PartialEq, Eq, Structural)]
pub enum ResponseType {
    /// The whole return type (only ever `()`, which documents no body).
    Whole,
    /// The generic argument at this position of `Result<..>`.
    GenericArg(usize),
}

/// Why the return type cannot document the response.
#[derive(Debug, Clone, Copy, PartialEq, Eq, Structural)]
pub enum ReturnError {
    /// The return type is a path without segments.
    EmptyPath,
    /// The return type is neither `Result<..>` nor `()`.
    NotResult,
}

impl ReturnError {
    pub open spec fn spec_message(self) -> Seq<char> {
        match self {
            ReturnError::EmptyPath => "empty return type path"@,
            ReturnError::NotResult => "expected a `Result<T>` return type (or `response = T`)"@,
        }
    }

    /// The diagnostic the macro reports.
    pub fn message(&self) -> (s: &'static str)
        ensures
            s@ == self.spec_message(),
    {
        match self {
            ReturnError::EmptyPath => "empty return type path",
            ReturnError::NotResult => "expected a `Result<T>` return type (or `response = T`)",
        }
    }
}

/// Position of the first generic argument that is a type.
pub open spec fn first_type_arg(gs: Seq<GenericArgShape>) -> Option<int>
    decreases gs.len(),
{
    if gs.len() == 0 {
        None
    } else if gs[0] is Type {
        Some(0)
    } else {
        match first_type_arg(gs.skip(1)) {
            Some(k) => Some(k + 1),
            None => None,
        }
    }
}

/// `Result<T>` / `Result<T, E>` give `T`; `()` gives itself; no return type, or a
/// `Result` without a type argument, gives none; any other return type is an error
/// (a bare non-`Result` type must name its response with `response = T`).
pub open spec fn result_ok_of(ret: ReturnShape) -> Result<Option<ResponseType>, ReturnError> {
    match ret {
        ReturnShape::Default => Ok(None),
        ReturnShape::Other { is_unit: true } => Ok(Some(ResponseType::Whole)),
        ReturnShape::Other { is_unit: false } => Err(ReturnError::NotResult),
        ReturnShape::Path { last_segment: None } => Err(ReturnError::EmptyPath),
        ReturnShape::Path { last_segment: Some((ident, args)) } => {
            if ident@ != "Result"@ {
                Err(ReturnError::NotResult)
            } else {
                match args {
                    PathArgsShape::AngleBracketed(gs) => match first_type_arg(gs@) {
                        Some(k) => Ok(Some(ResponseType::GenericArg(k as usize))),
                        None => Ok(None),
                    },
                    _ => Ok(None),
                }
            }
        },
    }
}

/// Whether the chosen response type is `()`.
pub open spec fn response_type_is_unit(ret: ReturnShape, t: ResponseType) -> bool {
    match t {
        ResponseType::Whole => ret matches ReturnShape::Other { is_unit: true },
        ResponseType::GenericArg(k) => match ret {
            ReturnShape::Path { last_segment: Some((_, PathArgsShape::AngleBracketed(gs))) } => 0
                <= k < gs@.len() && gs@[k as int] matches GenericArgShape::Type { is_unit: true },
            _ => false,
        },
    }
}

proof fn lemma_first_type_arg(gs: Seq<GenericArgShape>)
    ensures
        first_type_arg(gs) matches Some(k) ==> 0 <= k < gs.len() && gs[k] is Type && forall|m: int|
            0 <= m < k ==> !(gs[m] is Type),
        first_type_arg(gs) is None ==> forall|m: int| 0 <= m < gs.len() ==> !(gs[m] is Type),
    decreases gs.len(),
{
    if gs.len() > 0 && !(gs[0] is Type) {
        lemma_first_type_arg(gs.skip(1));
        assert forall|m: int| 1 <= m < gs.len() implies gs[m] == gs.skip(1)[m - 1] by {}
    }
}

/// The response of a `Result<..>` return type is its first type argument: the success
/// type, never the error type, and lifetimes or other arguments before it are passed
/// over; a `Result` with no type argument documents none.
pub proof fn result_response_is_first_type_argument(ident: String, gs: Vec<GenericArgShape>)
    requires
        ident@ == "Result"@,
    ensures
        ({
            let r = result_ok_of(
                ReturnShape::Path {
                    last_segment: Some((ident, PathArgsShape::AngleBracketed(gs))),
                },
            );
            &&& r is Ok
            &&& r matches Ok(Some(t)) ==> t matches ResponseType::GenericArg(k) && k < gs@.len()
                && gs@[k as int] is Type && forall|m: int| 0 <= m < k ==> !(gs@[m] is Type)
            &&& r == Ok::<Option<ResponseType>, ReturnError>(None) <==> forall|m: int|
                0 <= m < gs@.len() ==> !(gs@[m] is Type)
        }),
{
    lemma_first_type_arg(gs@);
    assert(gs@.len() == gs.len());
}

fn first_type_arg_of(gs: &Vec<GenericArgShape>) -> (r: Option<usize>)
    ensures
        r matches Some(k) ==> first_type_arg(gs@) == Some(k as int) && k < gs.len(),
        r is None ==> first_type_arg(gs@) is None,
{
    let mut k: usize = 0;
    assert(gs@.skip(0) =~= gs@);
    while k < gs.len()
        invariant
            k <= gs.len(),
            first_type_arg(gs@) == (match first_type_arg(gs@.skip(k as int)) {
                Some(j) => Some(j + k),
                None => None,
            }),
        decreases gs.len() - k,
    {
        assert(gs@.skip(k as int).skip(1) =~= gs@.skip(k + 1));
        assert(gs@.skip(k as int)[0] == gs@[k as int]);
        match &gs[k] {
            GenericArgShape::Type { .. } => {
                return Some(k);
            },
            GenericArgShape::Other => {},
        }
        k += 1;
    }
    None
}

/// `Result<T>` / `Result<T, E>` give `Some(T)`; see `result_ok_of`.
pub fn extract_result_ok(ret: &ReturnShape) -> (r: Result<Option<ResponseType>, ReturnError>)
    ensures
        r == result_ok_of(*ret),
{
    match ret {
        ReturnShape::Default => Ok(None),
        ReturnShape::Other { is_unit } => if *is_unit {
            Ok(Some(ResponseType::Whole))
        } else {
            Err(ReturnError::NotResult)
        },
        ReturnShape::Path { last_segment: None } => Err(ReturnError::EmptyPath),
        ReturnShape::Path { last_segment: Some((ident, args)) } => {
            if !str_eq(ident.as_str(), "Result") {
                return Err(ReturnError::NotResult);
            }
            match args {
                PathArgsShape::AngleBracketed(gs) => match first_type_arg_of(gs) {
                    Some(k) => Ok(Some(ResponseType::GenericArg(k))),
                    None => Ok(None),
                },
                _ => Ok(None),
            }
        },
    }
}

} // verus!
