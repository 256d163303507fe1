//! What a route macro expands to: the plan behind the generated route attribute,
//! request-body struct, OpenAPI path stub and registration.

use vstd::prelude::*;

use crate::api_args::{ApiArgs, MetaArg};
use crate::path_params::{parse_path_params, path_params_of};
use crate::route::{dioxus_route_attr, route_attr_of, RouteMethod};
use crate::signature::{
    arg_map_of, arg_map_view, extract_result_ok, fn_arg_map, response_type_is_unit, result_ok_of,
    FnArgShape, ResponseType, ReturnError, ReturnShape,
};
use crate::text::{chars_of, joined, str_eq, string_from_range};

verus! {

/// Where the documented request body comes from.
#[derive(Debug, Clone, Copy, PartialEq, Eq, Structural)]
pub enum RequestBody {
    /// The `request_body = T` argument at this position.
    Override(usize),
    /// The generated struct of the non-path arguments.
    Generated,
    /// No request body.
    Absent,
}

/// Which type documents the 200 response.
#[derive(Debug, Clone, Copy, PartialEq, Eq, Structural)]
pub enum ResponseSource {
    /// The `response = T` argument at this position.
    Attribute(usize),
    /// A type taken from the function's return type.
    Return(ResponseType),
}

/// The documented responses: 200 and 500 always; the 200 has a body or not.
#[derive(Debug, Clone, Copy, PartialEq, Eq, Structural)]
pub enum Responses {
    Plain,
    WithBody(ResponseSource),
}

/// Everything the documented expansion is built from.
#[derive(Debug, PartialEq, Eq)]
pub struct DocPlan {
    /// The route attribute kept on the function, or the compile error in its place.
    pub route: Result<RouteMethod, String>,
    /// Position of the `tag = "..."` argument.
    pub tag: usize,
    pub operation_id: String,
    /// Name of the generated stub function that carries the OpenAPI path.
    pub openapi_fn: String,
    /// Name of the generated request-body struct.
    pub body_struct: String,
    /// Name of the path type generated for the stub.
    pub path_type: String,
    /// Each path capture with the position of the function input of that name.
    pub path_params: Vec<(String, usize)>,
    /// The named inputs that are not path captures, in order, with their positions.
    pub body_fields: Vec<(String, usize)>,
    /// Whether the request-body struct is generated.
    pub has_body: bool,
    pub request_body: RequestBody,
    pub responses: Responses,
}

/// The expansion of a route macro.
#[derive(Debug, PartialEq, Eq)]
pub enum Expansion {
    /// `openapi = false`: the route attribute (or its error) and the function, nothing more.
    RouteOnly(Result<RouteMethod, String>),
    Documented(DocPlan),
}

/// Why a route macro refused to expand.
#[derive(Debug, PartialEq, Eq)]
pub enum ExpandError {
    /// Documented routes need `tag = "..."`.
    TagRequired,
    /// A path capture names no function input.
    UnmatchedPathParam(String),
    /// The return type could not be read.
    ReturnType(ReturnError),
}

impl ExpandError {
    /// The diagnostic the macro reports.
    pub open spec fn spec_message(&self) -> Seq<char> {
        match self {
            ExpandError::TagRequired => "api_get/api_post require `tag = \"...\"` (or `openapi = false`)"@,
            ExpandError::UnmatchedPathParam(name) => "path parameter `{"@ + name@
                + "}` has no matching function argument"@,
            ExpandError::ReturnType(e) => e.spec_message(),
        }
    }

    /// The diagnostic the macro reports.
    pub fn message(&self) -> (s: String)
        ensures
            s@ == self.spec_message(),
    {
        match self {
            ExpandError::TagRequired => "api_get/api_post require `tag = \"...\"` (or `openapi = false`)".to_owned(),
            ExpandError::UnmatchedPathParam(name) => {
                let mut s = joined("path parameter `{", name.as_str());
                s.append("}` has no matching function argument");
                s
            },
            ExpandError::ReturnType(e) => e.message().to_owned(),
        }
    }
}

/// The view of a route attribute result.
pub open spec fn route_view(r: Result<RouteMethod, String>) -> Result<RouteMethod, Seq<char>> {
    match r {
        Ok(m) => Ok(m),
        Err(s) => Err(s@),
    }
}

/// Position of the first named input called `name`.
pub open spec fn lookup_arg(map: Seq<(Seq<char>, int)>, name: Seq<char>) -> Option<int>
    decreases map.len(),
{
    if map.len() == 0 {
        None
    } else if map[0].0 == name {
        Some(map[0].1)
    } else {
        lookup_arg(map.skip(1), name)
    }
}

/// Each capture paired with its input's position, or the first capture without one.
pub open spec fn matched_params(params: Seq<Seq<char>>, map: Seq<(Seq<char>, int)>) -> Result<
    Seq<(Seq<char>, int)>,
    Seq<char>,
>
    decreases params.len(),
{
    if params.len() == 0 {
        Ok(Seq::empty())
    } else {
        match matched_params(params.drop_last(), map) {
            Err(n) => Err(n),
            Ok(done) => match lookup_arg(map, params.last()) {
                Some(p) => Ok(done.push((params.last(), p))),
                None => Err(params.last()),
            },
        }
    }
}

/// The named inputs whose names are not captures, in order.
pub open spec fn body_fields_of(map: Seq<(Seq<char>, int)>, params: Seq<Seq<char>>) -> Seq<
    (Seq<char>, int),
>
    decreases map.len(),
{
    if map.len() == 0 {
        Seq::empty()
    } else {
        let prev = body_fields_of(map.drop_last(), params);
        if params.contains(map.last().0) {
            prev
        } else {
            prev.push(map.last())
        }
    }
}

/// The `response = T` argument at `i` names `()`.
pub open spec fn attribute_type_is_unit(metas: Seq<MetaArg>, i: usize) -> bool {
    i < metas.len() && metas[i as int] matches MetaArg::NameValue { as_type: Some(true), .. }
}

/// The documented responses: an explicit `response` wins over the return type; `()`
/// and "no type" document no body.
pub open spec fn responses_of(args: ApiArgs, metas: Seq<MetaArg>, ret: ReturnShape) -> Result<
    Responses,
    ReturnError,
> {
    match args.response {
        Some(i) => if attribute_type_is_unit(metas, i) {
            Ok(Responses::Plain)
        } else {
            Ok(Responses::WithBody(ResponseSource::Attribute(i)))
        },
        None => match result_ok_of(ret) {
            Err(e) => Err(e),
            Ok(None) => Ok(Responses::Plain),
            Ok(Some(t)) => if response_type_is_unit(ret, t) {
                Ok(Responses::Plain)
            } else {
                Ok(Responses::WithBody(ResponseSource::Return(t)))
            },
        },
    }
}

/// An identifier's text without the raw-identifier prefix `r#`, as an identifier is
/// written when it becomes part of a longer one.
pub open spec fn unraw(name: Seq<char>) -> Seq<char> {
    if name.len() >= 2 && name[0] == 'r' && name[1] == '#' {
        name.skip(2)
    } else {
        name
    }
}

/// `name` without a leading `r#`.
pub fn unraw_name(name: &str) -> (r: String)
    ensures
        r@ == unraw(name@),
{
    let chars = chars_of(name);
    let from: usize = if chars.len() >= 2 && chars[0] == 'r' && chars[1] == '#' {
        2
    } else {
        0
    };
    let r = string_from_range(&chars, from, chars.len());
    assert(chars@.subrange(from as int, chars.len() as int) =~= unraw(name@));
    r
}

/// A request-body struct is generated for a POST with non-path inputs and no
/// `request_body` argument.
pub open spec fn has_body_of(method: Seq<char>, args: ApiArgs, body: Seq<(Seq<char>, int)>) -> bool {
    method == "post"@ && body.len() > 0 && args.request_body is None
}

/// `plan` is the documented expansion for these inputs.
pub open spec fn plan_is(
    plan: DocPlan,
    method: Seq<char>,
    args: ApiArgs,
    fn_name: Seq<char>,
    pairs: Seq<(Seq<char>, int)>,
    responses: Responses,
    fn_args: Seq<FnArgShape>,
) -> bool {
    let body = body_fields_of(arg_map_of(fn_args), path_params_of(args.path@));
    let has_body = has_body_of(method, args, body);
    &&& route_view(plan.route) == route_attr_of(method)
    &&& args.tag == Some(plan.tag)
    &&& plan.operation_id@ == fn_name
    &&& plan.openapi_fn@ == "__openapi_"@ + unraw(fn_name)
    &&& plan.body_struct@ == "__openapi_body_"@ + unraw(fn_name)
    &&& plan.path_type@ == "__path___openapi_"@ + unraw(fn_name)
    &&& arg_map_view(plan.path_params@) == pairs
    &&& arg_map_view(plan.body_fields@) == body
    &&& plan.has_body == has_body
    &&& plan.request_body == (match args.request_body {
        Some(i) => RequestBody::Override(i),
        None => if has_body {
            RequestBody::Generated
        } else {
            RequestBody::Absent
        },
    })
    &&& plan.responses == responses
}

/// The request-body fields and the path captures split the named inputs: a named input
/// is a body field exactly when no capture has its name, and the fields keep the
/// inputs' order.
pub proof fn body_fields_partition_inputs(map: Seq<(Seq<char>, int)>, params: Seq<Seq<char>>)
    ensures
        body_fields_of(map, params) == map.filter(|e: (Seq<char>, int)| !params.contains(e.0)),
        forall|e: (Seq<char>, int)|
            #[trigger] body_fields_of(map, params).contains(e) <==> (map.contains(e)
                && !params.contains(e.0)),
    decreases map.len(),
{
    reveal_with_fuel(Seq::filter, 1);
    if map.len() > 0 {
        body_fields_partition_inputs(map.drop_last(), params);
        assert(map.drop_last().push(map.last()) =~= map);
        let body = body_fields_of(map, params);
        let prev = body_fields_of(map.drop_last(), params);
        assert forall|e: (Seq<char>, int)|
            #[trigger] body.contains(e) <==> (map.contains(e) && !params.contains(e.0)) by {
            if map.contains(e) {
                let k = choose|k: int| 0 <= k < map.len() && map[k] == e;
                if k < map.len() - 1 {
                    assert(map.drop_last()[k] == e);
                }
            }
            if map.drop_last().contains(e) {
                let k = choose|k: int| 0 <= k < map.drop_last().len() && map.drop_last()[k] == e;
                assert(map[k] == e);
            }
            if !params.contains(map.last().0) {
                assert(body == prev.push(map.last()));
                if prev.contains(e) {
                    let k = choose|k: int| 0 <= k < prev.len() && prev[k] == e;
                    assert(body[k] == e);
                }
                if body.contains(e) && e != map.last() {
                    let k = choose|k: int| 0 <= k < body.len() && body[k] == e;
                    assert(prev[k] == e);
                }
                if e == map.last() {
                    assert(body[body.len() - 1] == e);
                }
            }
        }
    } else {
        assert(map.filter(|e: (Seq<char>, int)| !params.contains(e.0)) =~= Seq::<
            (Seq<char>, int),
        >::empty());
    }
}

proof fn lemma_lookup_finds(map: Seq<(Seq<char>, int)>, name: Seq<char>)
    ensures
        lookup_arg(map, name) matches Some(p) ==> map.contains((name, p)),
        lookup_arg(map, name) is None ==> forall|k: int| 0 <= k < map.len() ==> map[k].0 != name,
    decreases map.len(),
{
    if map.len() > 0 {
        lemma_lookup_finds(map.skip(1), name);
        if map[0].0 == name {
            assert(map[0] == (name, map[0].1));
        } else {
            if let Some(p) = lookup_arg(map, name) {
                let k = choose|k: int| 0 <= k < map.skip(1).len() && map.skip(1)[k] == (name, p);
                assert(map[k + 1] == (name, p));
            } else {
                assert forall|k: int| 0 <= k < map.len() implies map[k].0 != name by {
                    if k > 0 {
                        assert(map[k] == map.skip(1)[k - 1]);
                    }
                }
            }
        }
    }
}

/// Every capture is documented with the type of an input of its own name: when the
/// captures match, they come back in order, each paired with the position of the first
/// input so named; otherwise the capture reported names no input.
pub proof fn path_params_match_inputs(params: Seq<Seq<char>>, map: Seq<(Seq<char>, int)>)
    ensures
        matched_params(params, map) matches Ok(pairs) ==> pairs.len() == params.len() && forall|
            k: int,
        |
            0 <= k < pairs.len() ==> #[trigger] pairs[k].0 == params[k] && map.contains(pairs[k])
                && lookup_arg(map, params[k]) == Some(pairs[k].1),
        matched_params(params, map) matches Err(name) ==> params.contains(name) && forall|k: int|
            0 <= k < map.len() ==> map[k].0 != name,
    decreases params.len(),
{
    if params.len() > 0 {
        path_params_match_inputs(params.drop_last(), map);
        lemma_lookup_finds(map, params.last());
        match matched_params(params.drop_last(), map) {
            Err(name) => {
                let k = choose|k: int| 0 <= k < params.drop_last().len() && params.drop_last()[k] == name;
                assert(params[k] == name);
            },
            Ok(done) => {
                if let Some(p) = lookup_arg(map, params.last()) {
                    let pairs = done.push((params.last(), p));
                    assert forall|k: int| 0 <= k < pairs.len() implies #[trigger] pairs[k].0
                        == params[k] && map.contains(pairs[k]) && lookup_arg(map, params[k]) == Some(
                        pairs[k].1,
                    ) by {
                        if k < done.len() {
                            assert(pairs[k] == done[k]);
                            assert(params[k] == params.drop_last()[k]);
                        }
                    }
                } else {
                    assert(params[params.len() - 1] == params.last());
                }
            },
        }
    }
}

/// A request-body struct is generated exactly for a POST that has a named input which
/// is not a path capture and no `request_body = T`; `request_body = T` always documents
/// `T`; every other route documents no request body.
pub proof fn generated_body_exactly_for_post_with_body_inputs(
    plan: DocPlan,
    method: Seq<char>,
    args: ApiArgs,
    fn_name: Seq<char>,
    pairs: Seq<(Seq<char>, int)>,
    responses: Responses,
    fn_args: Seq<FnArgShape>,
)
    requires
        plan_is(plan, method, args, fn_name, pairs, responses, fn_args),
    ensures
        plan.has_body <==> (method == "post"@ && plan.body_fields@.len() >= 1
            && args.request_body is None),
        args.request_body is None && method == "post"@ && plan.body_fields@.len() >= 1
            ==> plan.request_body == RequestBody::Generated,
        args.request_body is None && !(method == "post"@ && plan.body_fields@.len() >= 1)
            ==> plan.request_body == RequestBody::Absent,
        args.request_body matches Some(i) ==> plan.request_body == RequestBody::Override(i),
{
    assert(arg_map_view(plan.body_fields@).len() == plan.body_fields@.len());
}

fn find_arg(map: &Vec<(String, usize)>, name: &String) -> (r: Option<usize>)
    ensures
        match r {
            Some(p) => lookup_arg(arg_map_view(map@), name@) == Some(p as int),
            None => lookup_arg(arg_map_view(map@), name@) is None,
        },
{
    let ghost v = arg_map_view(map@);
    let mut k: usize = 0;
    assert(v.skip(0) =~= v);
    while k < map.len()
        invariant
            v == arg_map_view(map@),
            k <= map.len(),
            lookup_arg(v, name@) == lookup_arg(v.skip(k as int), name@),
        decreases map.len() - k,
    {
        assert(v.skip(k as int).skip(1) =~= v.skip(k + 1));
        assert(v.skip(k as int)[0] == v[k as int]);
        if str_eq(map[k].0.as_str(), name.as_str()) {
            return Some(map[k].1);
        }
        k += 1;
    }
    None
}

fn contains_name(names: &Vec<String>, name: &String) -> (r: bool)
    ensures
        r == names@.map_values(|s: String| s@).contains(name@),
{
    let ghost v = names@.map_values(|s: String| s@);
    let mut k: usize = 0;
    while k < names.len()
        invariant
            v == names@.map_values(|s: String| s@),
            k <= names.len(),
            forall|j: int| 0 <= j < k ==> v[j] != name@,
        decreases names.len() - k,
    {
        if str_eq(names[k].as_str(), name.as_str()) {
            assert(v[k as int] == name@);
            return true;
        }
        k += 1;
    }
    false
}

proof fn lemma_unmatched_persists(params: Seq<Seq<char>>, map: Seq<(Seq<char>, int)>, k: int)
    requires
        0 <= k <= params.len(),
        matched_params(params.take(k), map) is Err,
    ensures
        matched_params(params, map) == matched_params(params.take(k), map),
    decreases params.len() - k,
{
    if k < params.len() {
        assert(params.drop_last().take(k) =~= params.take(k));
        lemma_unmatched_persists(params.drop_last(), map, k);
    } else {
        assert(params.take(k) =~= params);
    }
}

fn match_params(params: &Vec<String>, map: &Vec<(String, usize)>) -> (r: Result<
    Vec<(String, usize)>,
    String,
>)
    ensures
        match r {
            Ok(pairs) => matched_params(params@.map_values(|s: String| s@), arg_map_view(map@))
                == Ok::<Seq<(Seq<char>, int)>, Seq<char>>(arg_map_view(pairs@)),
            Err(n) => matched_params(params@.map_values(|s: String| s@), arg_map_view(map@))
                == Err::<Seq<(Seq<char>, int)>, Seq<char>>(n@),
        },
{
    let ghost names = params@.map_values(|s: String| s@);
    let ghost mv = arg_map_view(map@);
    let mut out: Vec<(String, usize)> = Vec::new();
    let mut i: usize = 0;
    assert(names.take(0) =~= Seq::<Seq<char>>::empty());
    assert(arg_map_view(out@) =~= Seq::<(Seq<char>, int)>::empty());
    while i < params.len()
        invariant
            names == params@.map_values(|s: String| s@),
            mv == arg_map_view(map@),
            i <= params.len(),
            matched_params(names.take(i as int), mv) == Ok::<Seq<(Seq<char>, int)>, Seq<char>>(
                arg_map_view(out@),
            ),
        decreases params.len() - i,
    {
        assert(names.take(i + 1).drop_last() =~= names.take(i as int));
        assert(names.take(i + 1).last() == params@[i as int]@);
        let ghost before = out@;
        match find_arg(map, &params[i]) {
            Some(p) => {
                out.push((params[i].clone(), p));
                assert(arg_map_view(out@) =~= arg_map_view(before).push((params@[i as int]@, p as int)));
            },
            None => {
                proof {
                    lemma_unmatched_persists(names, mv, i + 1);
                }
                return Err(params[i].clone());
            },
        }
        i += 1;
    }
    assert(names.take(params.len() as int) =~= names);
    Ok(out)
}

fn body_fields(map: &Vec<(String, usize)>, params: &Vec<String>) -> (r: Vec<(String, usize)>)
    ensures
        arg_map_view(r@) == body_fields_of(arg_map_view(map@), params@.map_values(|s: String| s@)),
{
    let ghost names = params@.map_values(|s: String| s@);
    let ghost mv = arg_map_view(map@);
    let mut out: Vec<(String, usize)> = Vec::new();
    let mut i: usize = 0;
    assert(mv.take(0) =~= Seq::<(Seq<char>, int)>::empty());
    assert(arg_map_view(out@) =~= Seq::<(Seq<char>, int)>::empty());
    while i < map.len()
        invariant
            names == params@.map_values(|s: String| s@),
            mv == arg_map_view(map@),
            i <= map.len(),
            arg_map_view(out@) == body_fields_of(mv.take(i as int), names),
        decreases map.len() - i,
    {
        assert(mv.take(i + 1).drop_last() =~= mv.take(i as int));
        assert(mv.take(i + 1).last() == mv[i as int]);
        let ghost before = out@;
        if !contains_name(params, &map[i].0) {
            out.push((map[i].0.clone(), map[i].1));
            assert(arg_map_view(out@) =~= arg_map_view(before).push(mv[i as int]));
        }
        i += 1;
    }
    assert(mv.take(map.len() as int) =~= mv);
    out
}

fn responses(args: &ApiArgs, metas: &Vec<MetaArg>, ret: &ReturnShape) -> (r: Result<
    Responses,
    ReturnError,
>)
    ensures
        r == responses_of(*args, metas@, *ret),
{
    match args.response {
        Some(i) => {
            let unit = i < metas.len() && match &metas[i] {
                MetaArg::NameValue { as_type: Some(true), .. } => true,
                _ => false,
            };
            if unit {
                Ok(Responses::Plain)
            } else {
                Ok(Responses::WithBody(ResponseSource::Attribute(i)))
            }
        },
        None => match extract_result_ok(ret) {
            Err(e) => Err(e),
            Ok(None) => Ok(Responses::Plain),
            Ok(Some(t)) => {
                let unit = match t {
                    ResponseType::Whole => match ret {
                        ReturnShape::Other { is_unit } => *is_unit,
                        _ => false,
                    },
                    ResponseType::GenericArg(k) => match ret {
                        ReturnShape::Path {
                            last_segment: Some((_, crate::signature::PathArgsShape::AngleBracketed(gs))),
                        } => k < gs.len() && match &gs[k] {
                            crate::signature::GenericArgShape::Type { is_unit } => *is_unit,
                            _ => false,
                        },
                        _ => false,
                    },
                };
                if unit {
                    Ok(Responses::Plain)
                } else {
                    Ok(Responses::WithBody(ResponseSource::Return(t)))
                }
            },
        },
    }
}

/// Plans the expansion of `#[api_get(..)]` / `#[api_post(..)]` (`method` is `get` or
/// `post`) on the function `fn_name(fn_args) -> ret`, given its parsed arguments.
pub fn expand(
    method: &str,
    args: &ApiArgs,
    metas: &Vec<MetaArg>,
    fn_name: &str,
    fn_args: &Vec<FnArgShape>,
    ret: &ReturnShape,
) -> (r: Result<Expansion, ExpandError>)
    ensures
        args.openapi == Some(false) ==> (r matches Ok(Expansion::RouteOnly(route)) && route_view(
            route,
        ) == route_attr_of(method@)),
        args.openapi != Some(false) && args.tag is None ==> r == Err::<Expansion, ExpandError>(
            ExpandError::TagRequired,
        ),
        args.openapi != Some(false) && args.tag is Some ==> match matched_params(
            path_params_of(args.path@),
            arg_map_of(fn_args@),
        ) {
            Err(name) => r matches Err(ExpandError::UnmatchedPathParam(n)) && n@ == name,
            Ok(pairs) => match responses_of(*args, metas@, *ret) {
                Err(e) => r == Err::<Expansion, ExpandError>(ExpandError::ReturnType(e)),
                Ok(resp) => r matches Ok(Expansion::Documented(plan)) && plan_is(
                    plan,
                    method@,
                    *args,
                    fn_name@,
                    pairs,
                    resp,
                    fn_args@,
                ),
            },
        },
{
    if args.openapi == Some(false) {
        return Ok(Expansion::RouteOnly(dioxus_route_attr(method)));
    }
    let tag = match args.tag {
        Some(t) => t,
        None => {
            return Err(ExpandError::TagRequired);
        },
    };
    let path_params = parse_path_params(args.path.as_str());
    let arg_map = fn_arg_map(fn_args);
    let params = match match_params(&path_params, &arg_map) {
        Ok(p) => p,
        Err(name) => {
            return Err(ExpandError::UnmatchedPathParam(name));
        },
    };
    let body = body_fields(&arg_map, &path_params);
    let has_body = str_eq(method, "post") && body.len() > 0 && args.request_body.is_none();
    let request_body = match args.request_body {
        Some(i) => RequestBody::Override(i),
        None => if has_body {
            RequestBody::Generated
        } else {
            RequestBody::Absent
        },
    };
    let responses = match responses(args, metas, ret) {
        Ok(r) => r,
        Err(e) => {
            return Err(ExpandError::ReturnType(e));
        },
    };
    let bare = unraw_name(fn_name);
    let plan = DocPlan {
        route: dioxus_route_attr(method),
        tag,
        operation_id: fn_name.to_owned(),
        openapi_fn: joined("__openapi_", bare.as_str()),
        body_struct: joined("__openapi_body_", bare.as_str()),
        path_type: joined("__path___openapi_", bare.as_str()),
        path_params: params,
        body_fields: body,
        has_body,
        request_body,
        responses,
    };
    Ok(Expansion::Documented(plan))
}

} // verus!
