use dioxus_openapi::parse_path_params;

fn params(path: &str) -> Vec<String> {
    parse_path_params(path)
}

#[test]
fn captures_in_order() {
    assert_eq!(params("/api/devices/{serial}/roles/{role}"), vec!["serial", "role"]);
}

#[test]
fn no_captures() {
    assert_eq!(params("/api/hello"), Vec::<String>::new());
    assert_eq!(params(""), Vec::<String>::new());
}

#[test]
fn wildcard_prefix_is_dropped_once() {
    assert_eq!(params("/files/{*path}"), vec!["path"]);
    assert_eq!(params("/files/{**path}"), vec!["*path"]);
}

#[test]
fn empty_captures_are_skipped() {
    assert_eq!(params("/a/{}/b/{*}/{x}"), vec!["x"]);
}

#[test]
fn unterminated_capture_ends_the_scan() {
    assert_eq!(params("/a/{x}/{y"), vec!["x"]);
    assert_eq!(params("/a/{y"), Vec::<String>::new());
}

#[test]
fn capture_runs_to_first_closing_brace() {
    assert_eq!(params("{a{b}c}"), vec!["a{b"]);
    assert_eq!(params("}{a}"), vec!["a"]);
}

#[test]
fn non_ascii_names() {
    assert_eq!(params("/é/{nöm}/{ü}"), vec!["nöm", "ü"]);
}

#[test]
fn capture_names_are_well_formed() {
    for path in ["/{a}/{}/{*}/{b}c}", "{{x}}", "{}}}{y}", "/{*}/{**}"] {
        for name in params(path) {
            assert!(!name.is_empty());
            assert!(!name.contains('}'));
        }
    }
}


/// The scan written with `str::find`, for comparison.
fn scan_with_find(path: &str) -> Vec<String> {
    let mut out = Vec::new();
    let mut rest = path;
    while let Some(start) = rest.find('{') {
        rest = &rest[start + 1..];
        let Some(end) = rest.find('}') else { break };
        let name = &rest[..end];
        let name = name.strip_prefix('*').unwrap_or(name);
        if !name.is_empty() {
            out.push(name.to_string());
        }
        rest = &rest[end + 1..];
    }
    out
}

#[test]
fn agrees_with_find_based_scan() {
    let cases = [
        "", "{", "}", "{}", "{{}}", "{*}", "{**}", "/a/{b}/c/{*d}", "{x}{y}{z}", "a{b{c}d}e{", "{é}{ß",
        "/api/{serial}/roles/{role}/{*rest}", "{ a }", "{*}{x}", "x}{y}{}",
    ];
    for path in cases {
        assert_eq!(params(path), scan_with_find(path), "path {path:?}");
    }
}

#[test]
fn captures_of_closed_prefix_concatenate() {
    let cases = [("/a/{x}/", "{y}/{z"), ("", "{q}"), ("{a}}", "b}{c}"), ("plain", "/{p}"), ("{*w}", "{}")];
    for (a, b) in cases {
        let whole = params(&(a.to_string() + b));
        let mut parts = params(a);
        parts.extend(params(b));
        assert_eq!(whole.len(), parts.len());
        assert_eq!(whole, parts, "{a:?} + {b:?}");
    }
}
