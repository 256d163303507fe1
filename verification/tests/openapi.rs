use dioxus_openapi::openapi::{document_tags, operation_for_tags};
use dioxus_openapi::schemas::dedup_by_name;
use dioxus_openapi::{append_tagged_path, build_openapi, SpecOptions, TagMeta};
use utoipa::openapi::path::{HttpMethod, Operation, OperationBuilder, PathItem, PathsBuilder};
use utoipa::openapi::schema::{ComponentsBuilder, ObjectBuilder, Schema};
use utoipa::openapi::tag::TagBuilder;
use utoipa::openapi::{InfoBuilder, OpenApiBuilder, Ref, RefOr};

fn op(id: &str) -> Operation {
    OperationBuilder::new().operation_id(Some(id)).build()
}

fn schema_ref(target: &str) -> RefOr<Schema> {
    RefOr::Ref(Ref::new(target))
}

fn object() -> RefOr<Schema> {
    RefOr::T(Schema::Object(ObjectBuilder::new().build()))
}

static TAGS: [TagMeta; 2] = [
    TagMeta { name: "demo", description: Some("Demo routes") },
    TagMeta { name: "bare", description: None },
];

#[test]
fn dedup_keeps_first_of_each_name() {
    let list = vec![
        ("A".to_string(), 1),
        ("B".to_string(), 2),
        ("A".to_string(), 3),
        ("C".to_string(), 4),
        ("B".to_string(), 5),
    ];
    assert_eq!(
        dedup_by_name(list),
        vec![("A".to_string(), 1), ("B".to_string(), 2), ("C".to_string(), 4)]
    );
    assert_eq!(dedup_by_name(Vec::<(String, u8)>::new()), vec![]);
}

#[test]
fn dedup_is_idempotent() {
    let list = vec![("x".to_string(), 'a'), ("x".to_string(), 'b'), ("y".to_string(), 'c')];
    let once = dedup_by_name(list);
    assert_eq!(dedup_by_name(once.clone()), once);
}

#[test]
fn tags_applied_to_operation() {
    let tagged = operation_for_tags(op("f"), vec!["demo".to_string()]);
    assert_eq!(tagged.tags, Some(vec!["demo".to_string()]));
    let untouched = operation_for_tags(op("f"), vec![]);
    assert!(untouched == op("f"));
}

#[test]
fn append_single_method() {
    let paths = append_tagged_path(
        PathsBuilder::new(),
        "/api/hello".to_string(),
        vec![HttpMethod::Get],
        op("hello"),
        vec!["demo".to_string()],
    )
    .build();
    let item = paths.paths.get("/api/hello").expect("path registered");
    let get = item.get.as_ref().expect("get operation");
    assert_eq!(get.tags, Some(vec!["demo".to_string()]));
    assert_eq!(get.operation_id, Some("hello".to_string()));
    assert!(item.post.is_none());
}

#[test]
fn append_several_methods() {
    let paths = append_tagged_path(
        PathsBuilder::new(),
        "/x".to_string(),
        vec![HttpMethod::Get, HttpMethod::Post],
        op("x"),
        vec![],
    )
    .build();
    let item = paths.paths.get("/x").unwrap();
    assert!(item.get == Some(op("x")));
    assert!(item.post == Some(op("x")));
    assert!(item.put.is_none());
}

#[test]
fn append_merges_into_existing_path() {
    let paths = PathsBuilder::new().path("/x", PathItem::new(HttpMethod::Get, op("first")));
    let paths = append_tagged_path(paths, "/x".to_string(), vec![HttpMethod::Post], op("second"), vec![])
        .build();
    let item = paths.paths.get("/x").unwrap();
    assert!(item.get == Some(op("first")));
    assert!(item.post == Some(op("second")));
}

#[test]
fn top_level_tags() {
    assert!(document_tags(&[]).is_none());
    let tags = document_tags(&TAGS).unwrap();
    assert_eq!(tags.len(), 2);
    assert_eq!(tags[0].name, "demo");
    assert_eq!(tags[0].description, Some("Demo routes".to_string()));
    assert_eq!(tags[1].name, "bare");
    assert_eq!(tags[1].description, None);
}

#[test]
fn document_matches_builders() {
    let opts = SpecOptions { title: "My API", version: "0.1.0", description: Some("desc"), tags: &TAGS };
    let schemas = vec![
        ("A".to_string(), object()),
        ("B".to_string(), schema_ref("#/components/schemas/C")),
        ("A".to_string(), schema_ref("#/components/schemas/Other")),
    ];
    let paths = || PathsBuilder::new().path("/p", PathItem::new(HttpMethod::Get, op("p")));
    let doc = build_openapi(&opts, paths(), schemas);

    let expected = OpenApiBuilder::new()
        .info(InfoBuilder::new().title("My API").version("0.1.0").description(Some("desc")).build())
        .paths(paths().build())
        .components(Some(
            ComponentsBuilder::new()
                .schemas_from_iter(vec![("A", object()), ("B", schema_ref("#/components/schemas/C"))])
                .build(),
        ))
        .tags(Some(vec![
            TagBuilder::new().name("demo").description(Some("Demo routes")).build(),
            TagBuilder::new().name("bare").build(),
        ]))
        .build();
    assert!(doc == expected);
    assert!(doc.components.as_ref().unwrap().schemas.get("A") == Some(&object()));
}

#[test]
fn document_without_tags_or_description() {
    let opts = SpecOptions { title: "T", version: "1", description: None, tags: &[] };
    let doc = build_openapi(&opts, PathsBuilder::new(), vec![]);
    assert_eq!(doc.info.title, "T");
    assert_eq!(doc.info.version, "1");
    assert_eq!(doc.info.description, None);
    assert!(doc.tags.is_none());
    assert!(doc.paths.paths.is_empty());
    assert!(doc.components.unwrap().schemas.is_empty());
}

#[test]
fn append_without_methods_gives_empty_item() {
    let paths = append_tagged_path(PathsBuilder::new(), "/none".to_string(), vec![], op("n"), vec![])
        .build();
    let item = paths.paths.get("/none").unwrap();
    assert!(item.get.is_none() && item.post.is_none() && item.put.is_none());
}

struct OneMethod;
impl utoipa::Path for OneMethod {
    fn path() -> String {
        "/one/{id}".to_string()
    }
    fn methods() -> Vec<HttpMethod> {
        vec![HttpMethod::Get]
    }
    fn operation() -> Operation {
        op("one")
    }
}

struct TwoMethods;
impl utoipa::Path for TwoMethods {
    fn path() -> String {
        "/two".to_string()
    }
    fn methods() -> Vec<HttpMethod> {
        vec![HttpMethod::Put, HttpMethod::Delete]
    }
    fn operation() -> Operation {
        op("two")
    }
}

fn untagged<P: utoipa::Path>(paths: PathsBuilder) -> PathsBuilder {
    append_tagged_path(paths, P::path(), P::methods(), P::operation(), vec![])
}

#[test]
fn untagged_append_matches_path_from() {
    let base = || PathsBuilder::new().path("/two", PathItem::new(HttpMethod::Get, op("existing")));
    assert!(untagged::<OneMethod>(base()).build() == base().path_from::<OneMethod>().build());
    assert!(untagged::<TwoMethods>(base()).build() == base().path_from::<TwoMethods>().build());
}
