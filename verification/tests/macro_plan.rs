use dioxus_openapi::api_args::{expr_to_bool, expr_to_lit_str, ApiArgs, ArgError, MetaArg, MetaValue};
use dioxus_openapi::expand::{expand, unraw_name, ExpandError, Expansion, RequestBody, ResponseSource, Responses};
use dioxus_openapi::route::{dioxus_route_attr, RouteMethod};
use dioxus_openapi::signature::{
    extract_result_ok, fn_arg_map, FnArgShape, GenericArgShape, PathArgsShape, ResponseType,
    ReturnError, ReturnShape,
};

fn kv(key: &str, value: MetaValue, as_type: Option<bool>) -> MetaArg {
    MetaArg::NameValue { key: Some(key.to_string()), value, as_type }
}

fn tag(name: &str) -> MetaArg {
    kv("tag", MetaValue::Str(name.to_string()), None)
}

fn arg(name: &str) -> FnArgShape {
    FnArgShape::Typed { ident: Some(name.to_string()) }
}

fn result_of(args: Vec<GenericArgShape>) -> ReturnShape {
    ReturnShape::Path {
        last_segment: Some(("Result".to_string(), PathArgsShape::AngleBracketed(args))),
    }
}

#[test]
fn route_attributes() {
    assert_eq!(dioxus_route_attr("get"), Ok(RouteMethod::Get));
    assert_eq!(dioxus_route_attr("post"), Ok(RouteMethod::Post));
    assert_eq!(dioxus_route_attr("put"), Ok(RouteMethod::Put));
    assert_eq!(dioxus_route_attr("delete"), Ok(RouteMethod::Delete));
    assert_eq!(dioxus_route_attr("patch"), Ok(RouteMethod::Patch));
    assert_eq!(dioxus_route_attr("GET"), Err("unsupported method GET".to_string()));
    assert_eq!(dioxus_route_attr("head"), Err("unsupported method head".to_string()));
    assert_eq!(RouteMethod::Patch.name(), "patch");
}

#[test]
fn literal_readers() {
    assert_eq!(expr_to_lit_str(&MetaValue::Str("x".to_string())), Some("x".to_string()));
    assert_eq!(expr_to_lit_str(&MetaValue::Bool(true)), None);
    assert_eq!(expr_to_bool(&MetaValue::Bool(false)), Some(false));
    assert_eq!(expr_to_bool(&MetaValue::Other), None);
}

#[test]
fn args_all_keys_last_wins() {
    let metas = vec![
        tag("a"),
        kv("request_body", MetaValue::Other, Some(false)),
        kv("response", MetaValue::Other, Some(true)),
        kv("openapi", MetaValue::Bool(true), None),
        tag("b"),
    ];
    let parsed = ApiArgs::parse("/api/x".to_string(), &metas).unwrap();
    assert_eq!(
        parsed,
        ApiArgs {
            path: "/api/x".to_string(),
            tag: Some(4),
            request_body: Some(1),
            response: Some(2),
            openapi: Some(true),
        }
    );
}

#[test]
fn args_only_path() {
    let parsed = ApiArgs::parse("/p".to_string(), &vec![]).unwrap();
    assert_eq!(parsed.tag, None);
    assert_eq!(parsed.openapi, None);
}

#[test]
fn args_errors() {
    let p = || "/p".to_string();
    assert_eq!(
        ApiArgs::parse(p(), &vec![kv("tag", MetaValue::Other, None)]),
        Err(ArgError::ExpectedStringLiteral(0))
    );
    assert_eq!(
        ApiArgs::parse(p(), &vec![tag("a"), kv("openapi", MetaValue::Str("no".to_string()), None)]),
        Err(ArgError::ExpectedBoolLiteral(1))
    );
    assert_eq!(
        ApiArgs::parse(p(), &vec![kv("response", MetaValue::Other, None)]),
        Err(ArgError::InvalidType(0))
    );
    assert_eq!(
        ApiArgs::parse(p(), &vec![tag("a"), kv("summary", MetaValue::Other, None), kv("tag", MetaValue::Other, None)]),
        Err(ArgError::UnexpectedArgument(1))
    );
    assert_eq!(
        ApiArgs::parse(p(), &vec![MetaArg::NameValue { key: None, value: MetaValue::Other, as_type: None }]),
        Err(ArgError::UnexpectedArgument(0))
    );
    assert_eq!(ApiArgs::parse(p(), &vec![MetaArg::Other]), Err(ArgError::UnexpectedArgument(0)));
    assert_eq!(ArgError::UnexpectedArgument(0).message(), "expected tag / request_body / response / openapi");
    assert_eq!(ArgError::ExpectedStringLiteral(0).message(), "expected string literal");
}

#[test]
fn argument_map_skips_receivers_and_patterns() {
    let args = vec![FnArgShape::Receiver, arg("a"), FnArgShape::Typed { ident: None }, arg("b")];
    assert_eq!(fn_arg_map(&args), vec![("a".to_string(), 1), ("b".to_string(), 3)]);
}

#[test]
fn result_ok_type() {
    assert_eq!(extract_result_ok(&ReturnShape::Default), Ok(None));
    assert_eq!(extract_result_ok(&ReturnShape::Other { is_unit: false }), Err(ReturnError::NotResult));
    assert_eq!(extract_result_ok(&ReturnShape::Other { is_unit: true }), Ok(Some(ResponseType::Whole)));
    assert_eq!(extract_result_ok(&ReturnShape::Path { last_segment: None }), Err(ReturnError::EmptyPath));
    assert_eq!(ReturnError::EmptyPath.message(), "empty return type path");
    let plain = ReturnShape::Path { last_segment: Some(("String".to_string(), PathArgsShape::Bare)) };
    assert_eq!(extract_result_ok(&plain), Err(ReturnError::NotResult));
    assert_eq!(ReturnError::NotResult.message(), "expected a `Result<T>` return type (or `response = T`)");
    let bare_result = ReturnShape::Path { last_segment: Some(("Result".to_string(), PathArgsShape::Bare)) };
    assert_eq!(extract_result_ok(&bare_result), Ok(None));
    let lifetimes_first = result_of(vec![GenericArgShape::Other, GenericArgShape::Type { is_unit: false }]);
    assert_eq!(extract_result_ok(&lifetimes_first), Ok(Some(ResponseType::GenericArg(1))));
    assert_eq!(extract_result_ok(&result_of(vec![GenericArgShape::Other])), Ok(None));
}

#[test]
fn expand_route_only_ignores_missing_tag() {
    let metas = vec![kv("openapi", MetaValue::Bool(false), None)];
    let args = ApiArgs::parse("/x/{id}".to_string(), &metas).unwrap();
    let r = expand("get", &args, &metas, "f", &vec![], &ReturnShape::Default);
    assert_eq!(r, Ok(Expansion::RouteOnly(Ok(RouteMethod::Get))));
}

#[test]
fn expand_requires_tag() {
    let args = ApiArgs::parse("/x".to_string(), &vec![]).unwrap();
    let r = expand("get", &args, &vec![], "f", &vec![], &ReturnShape::Default);
    assert_eq!(r, Err(ExpandError::TagRequired));
    assert_eq!(
        ExpandError::TagRequired.message(),
        "api_get/api_post require `tag = \"...\"` (or `openapi = false`)"
    );
}

#[test]
fn expand_unmatched_path_param() {
    let metas = vec![tag("demo")];
    let args = ApiArgs::parse("/dev/{serial}/{role}".to_string(), &metas).unwrap();
    let r = expand("get", &args, &metas, "f", &vec![arg("serial")], &ReturnShape::Default);
    assert_eq!(r, Err(ExpandError::UnmatchedPathParam("role".to_string())));
    assert_eq!(
        ExpandError::UnmatchedPathParam("role".to_string()).message(),
        "path parameter `{role}` has no matching function argument"
    );
}

#[test]
fn expand_post_with_generated_body() {
    let metas = vec![tag("devices")];
    let args = ApiArgs::parse("/api/devices/{serial}".to_string(), &metas).unwrap();
    let fn_args = vec![arg("name"), arg("serial"), FnArgShape::Typed { ident: None }, arg("count")];
    let ret = result_of(vec![GenericArgShape::Type { is_unit: false }]);
    let r = expand("post", &args, &metas, "rename", &fn_args, &ret).unwrap();
    let plan = match r {
        Expansion::Documented(plan) => plan,
        other => panic!("unexpected {:?}", other),
    };
    assert_eq!(plan.route, Ok(RouteMethod::Post));
    assert_eq!(plan.tag, 0);
    assert_eq!(plan.operation_id, "rename");
    assert_eq!(plan.openapi_fn, "__openapi_rename");
    assert_eq!(plan.body_struct, "__openapi_body_rename");
    assert_eq!(plan.path_type, "__path___openapi_rename");
    assert_eq!(plan.path_params, vec![("serial".to_string(), 1)]);
    assert_eq!(plan.body_fields, vec![("name".to_string(), 0), ("count".to_string(), 3)]);
    assert!(plan.has_body);
    assert_eq!(plan.request_body, RequestBody::Generated);
    assert_eq!(plan.responses, Responses::WithBody(ResponseSource::Return(ResponseType::GenericArg(0))));
}

#[test]
fn expand_get_has_no_generated_body() {
    let metas = vec![tag("t")];
    let args = ApiArgs::parse("/q".to_string(), &metas).unwrap();
    let ret = result_of(vec![GenericArgShape::Type { is_unit: true }]);
    let r = expand("get", &args, &metas, "q", &vec![arg("x")], &ret).unwrap();
    match r {
        Expansion::Documented(plan) => {
            assert!(!plan.has_body);
            assert_eq!(plan.body_fields, vec![("x".to_string(), 0)]);
            assert_eq!(plan.request_body, RequestBody::Absent);
            assert_eq!(plan.responses, Responses::Plain);
        }
        other => panic!("unexpected {:?}", other),
    }
}

#[test]
fn expand_explicit_request_body_and_response() {
    let metas = vec![
        tag("t"),
        kv("request_body", MetaValue::Other, Some(false)),
        kv("response", MetaValue::Other, Some(false)),
    ];
    let args = ApiArgs::parse("/q".to_string(), &metas).unwrap();
    let r = expand("post", &args, &metas, "q", &vec![arg("x")], &ReturnShape::Path { last_segment: None })
        .unwrap();
    match r {
        Expansion::Documented(plan) => {
            assert!(!plan.has_body);
            assert_eq!(plan.request_body, RequestBody::Override(1));
            assert_eq!(plan.responses, Responses::WithBody(ResponseSource::Attribute(2)));
        }
        other => panic!("unexpected {:?}", other),
    }
}

#[test]
fn expand_unit_response_attribute_has_no_body() {
    let metas = vec![tag("t"), kv("response", MetaValue::Other, Some(true))];
    let args = ApiArgs::parse("/q".to_string(), &metas).unwrap();
    let r = expand("get", &args, &metas, "q", &vec![], &ReturnShape::Default).unwrap();
    match r {
        Expansion::Documented(plan) => assert_eq!(plan.responses, Responses::Plain),
        other => panic!("unexpected {:?}", other),
    }
}

#[test]
fn expand_reports_return_type_error() {
    let metas = vec![tag("t")];
    let args = ApiArgs::parse("/q".to_string(), &metas).unwrap();
    let r = expand("get", &args, &metas, "q", &vec![], &ReturnShape::Path { last_segment: None });
    assert_eq!(r, Err(ExpandError::ReturnType(ReturnError::EmptyPath)));
}

#[test]
fn expand_unsupported_method_keeps_error_text() {
    let metas = vec![tag("t")];
    let args = ApiArgs::parse("/q".to_string(), &metas).unwrap();
    match expand("trace", &args, &metas, "q", &vec![], &ReturnShape::Default).unwrap() {
        Expansion::Documented(plan) => assert_eq!(plan.route, Err("unsupported method trace".to_string())),
        other => panic!("unexpected {:?}", other),
    }
}

#[test]
fn body_fields_and_captures_partition_inputs() {
    let metas = vec![tag("t")];
    let args = ApiArgs::parse("/{a}/{c}".to_string(), &metas).unwrap();
    let fn_args = vec![arg("a"), arg("b"), arg("c"), arg("d")];
    match expand("post", &args, &metas, "f", &fn_args, &ReturnShape::Default).unwrap() {
        Expansion::Documented(plan) => {
            let mut names: Vec<String> = plan.path_params.iter().map(|p| p.0.clone()).collect();
            names.extend(plan.body_fields.iter().map(|p| p.0.clone()));
            names.sort();
            assert_eq!(names, vec!["a", "b", "c", "d"]);
            assert_eq!(plan.path_params, vec![("a".to_string(), 0), ("c".to_string(), 2)]);
        }
        other => panic!("unexpected {:?}", other),
    }
}

#[test]
fn expand_rejects_bare_non_result_return() {
    let metas = vec![tag("t")];
    let args = ApiArgs::parse("/q".to_string(), &metas).unwrap();
    let plain = ReturnShape::Path { last_segment: Some(("String".to_string(), PathArgsShape::Bare)) };
    let r = expand("get", &args, &metas, "q", &vec![], &plain);
    assert_eq!(r, Err(ExpandError::ReturnType(ReturnError::NotResult)));
    assert_eq!(
        ExpandError::ReturnType(ReturnError::NotResult).message(),
        "expected a `Result<T>` return type (or `response = T`)"
    );
}

#[test]
fn expand_bare_return_with_response_override() {
    let metas = vec![tag("t"), kv("response", MetaValue::Other, Some(false))];
    let args = ApiArgs::parse("/q".to_string(), &metas).unwrap();
    let plain = ReturnShape::Path { last_segment: Some(("String".to_string(), PathArgsShape::Bare)) };
    match expand("get", &args, &metas, "q", &vec![], &plain).unwrap() {
        Expansion::Documented(plan) => {
            assert_eq!(plan.responses, Responses::WithBody(ResponseSource::Attribute(1)))
        }
        other => panic!("unexpected {:?}", other),
    }
}

#[test]
fn expand_unit_return_has_no_body() {
    let metas = vec![tag("t")];
    let args = ApiArgs::parse("/q".to_string(), &metas).unwrap();
    match expand("get", &args, &metas, "q", &vec![], &ReturnShape::Other { is_unit: true }).unwrap() {
        Expansion::Documented(plan) => assert_eq!(plan.responses, Responses::Plain),
        other => panic!("unexpected {:?}", other),
    }
}

#[test]
fn expand_raw_identifier_names() {
    let metas = vec![tag("t")];
    let args = ApiArgs::parse("/q".to_string(), &metas).unwrap();
    let ret = result_of(vec![GenericArgShape::Type { is_unit: false }]);
    match expand("post", &args, &metas, "r#type", &vec![arg("x")], &ret).unwrap() {
        Expansion::Documented(plan) => {
            assert_eq!(plan.operation_id, "r#type");
            assert_eq!(plan.openapi_fn, "__openapi_type");
            assert_eq!(plan.body_struct, "__openapi_body_type");
            assert_eq!(plan.path_type, "__path___openapi_type");
        }
        other => panic!("unexpected {:?}", other),
    }
}

#[test]
fn unraw_examples() {
    assert_eq!(unraw_name("r#match"), "match");
    assert_eq!(unraw_name("r#"), "");
    assert_eq!(unraw_name("rust"), "rust");
    assert_eq!(unraw_name("r"), "r");
    assert_eq!(unraw_name("r#r#x"), "r#x");
}
