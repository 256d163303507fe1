//! Assembly of the OpenAPI document from the registered paths.

use vstd::prelude::*;

use utoipa::openapi::path::{HttpMethod, Operation, PathItem, Paths, PathsBuilder};
use utoipa::openapi::schema::{Components, ComponentsBuilder, Schema};
use utoipa::openapi::tag::TagBuilder;
use utoipa::openapi::{Info, InfoBuilder, OpenApi, OpenApiBuilder, RefOr, Tag};

use crate::schemas::{dedup_by_name, first_by_name};

verus! {

#[verifier::external_type_specification]
#[verifier::external_body]
pub struct ExOperation(Operation);

#[verifier::external_type_specification]
#[verifier::external_body]
pub struct ExHttpMethod(HttpMethod);

#[verifier::external_type_specification]
#[verifier::external_body]
pub struct ExPathItem(PathItem);

#[verifier::external_type_specification]
#[verifier::external_body]
pub struct ExPaths(Paths);

#[verifier::external_type_specification]
#[verifier::external_body]
pub struct ExPathsBuilder(PathsBuilder);

#[verifier::external_type_specification]
#[verifier::external_body]
pub struct ExSchema(Schema);

#[verifier::external_type_specification]
#[verifier::external_body]
#[verifier::reject_recursive_types(T)]
pub struct ExRefOr<T>(RefOr<T>);

#[verifier::external_type_specification]
#[verifier::external_body]
pub struct ExComponents(Components);

#[verifier::external_type_specification]
#[verifier::external_body]
pub struct ExInfo(Info);

#[verifier::external_type_specification]
#[verifier::external_body]
pub struct ExTag(Tag);

#[verifier::external_type_specification]
#[verifier::external_body]
pub struct ExOpenApi(OpenApi);

/// Tag metadata for the top-level OpenAPI `tags` array (sidebar descriptions).
#[derive(Debug, Clone, Copy)]
pub struct TagMeta {
    pub name: &'static str,
    pub description: Option<&'static str>,
}

/// Document-level OpenAPI info + optional tag descriptions.
#[derive(Debug, Clone, Copy)]
pub struct SpecOptions {
    pub title: &'static str,
    pub version: &'static str,
    pub description: Option<&'static str>,
    pub tags: &'static [TagMeta],
}

/// The view of an optional string.
pub open spec fn opt_view(s: Option<&str>) -> Option<Seq<char>> {
    match s {
        Some(t) => Some(t@),
        None => None,
    }
}

/// The operation with its tag list set to `tags` (what utoipa stores in `Operation::tags`).
pub uninterp spec fn operation_with_tags(op: Operation, tags: Seq<Seq<char>>) -> Operation;

/// `PathItem::new(method, op)`.
pub uninterp spec fn path_item_new(method: HttpMethod, op: Operation) -> PathItem;

/// `PathItem::from_http_methods(methods, op)`: the item holding `op` under each method.
pub uninterp spec fn path_item_from_methods(methods: Seq<HttpMethod>, op: Operation) -> PathItem;

/// `PathsBuilder::path(builder, path, item)`.
pub uninterp spec fn paths_builder_path(builder: PathsBuilder, path: Seq<char>, item: PathItem) -> PathsBuilder;

/// `PathsBuilder::build(builder)`.
pub uninterp spec fn paths_build(builder: PathsBuilder) -> Paths;

/// The `Info` built from a title, a version and an optional description.
pub uninterp spec fn info_of(title: Seq<char>, version: Seq<char>, description: Option<Seq<char>>) -> Info;

/// The `Tag` built from a name and an optional description.
pub uninterp spec fn tag_of(name: Seq<char>, description: Option<Seq<char>>) -> Tag;

/// The `Components` whose schemas are `schemas`, inserted in order.
pub uninterp spec fn components_of(schemas: Seq<(Seq<char>, RefOr<Schema>)>) -> Components;

/// The `OpenApi` document with these parts.
pub uninterp spec fn document_of(
    info: Info,
    paths: Paths,
    components: Components,
    tags: Option<Seq<Tag>>,
) -> OpenApi;

/// One top-level tag per `TagMeta`, in order, with its name and description; the
/// document has no tag list only when there are no tags.
pub proof fn document_has_one_tag_per_meta(tags: Seq<TagMeta>)
    ensures
        document_tags_of(tags) is None <==> tags.len() == 0,
        document_tags_of(tags) matches Some(v) ==> v.len() == tags.len() && forall|i: int|
            0 <= i < tags.len() ==> #[trigger] v[i] == tag_of(tags[i].name@, opt_view(tags[i].description)),
{
}

/// Sets `Operation::tags` to `Some(tags)` (a field assignment).
#[verifier::external_body]
fn set_operation_tags(op: Operation, tags: Vec<String>) -> (r: Operation)
    ensures
        r == operation_with_tags(op, strings_view(tags@)),
{
    let mut op = op;
    op.tags = Some(tags);
    op
}

/// `PathItem::new`: the item holding `op` under `method`.
#[verifier::external_body]
fn new_path_item(method: HttpMethod, op: Operation) -> (r: PathItem)
    ensures
        r == path_item_new(method, op),
{
    PathItem::new(method, op)
}

/// `PathItem::from_http_methods`: the item holding `op` under each of `methods` (what
/// folding `PathItemBuilder::operation` over the methods from an empty builder gives).
#[verifier::external_body]
fn new_path_item_for_methods(methods: Vec<HttpMethod>, op: Operation) -> (r: PathItem)
    ensures
        r == path_item_from_methods(methods@, op),
{
    PathItem::from_http_methods(methods, op)
}

/// `PathsBuilder::path`: adds `item` under `path`, merging with an item already there.
#[verifier::external_body]
fn add_path(paths: PathsBuilder, path: String, item: PathItem) -> (r: PathsBuilder)
    ensures
        r == paths_builder_path(paths, path@, item),
{
    paths.path(path, item)
}

/// `PathsBuilder::build`.
#[verifier::external_body]
fn build_paths(paths: PathsBuilder) -> (r: Paths)
    ensures
        r == paths_build(paths),
{
    paths.build()
}

/// `InfoBuilder`: title, version and description set, the rest left at their defaults.
#[verifier::external_body]
fn build_info(title: &str, version: &str, description: Option<&str>) -> (r: Info)
    ensures
        r == info_of(title@, version@, opt_view(description)),
{
    InfoBuilder::new().title(title).version(version).description(description).build()
}

/// `TagBuilder`: name and description set, the rest left at their defaults.
#[verifier::external_body]
fn build_tag(name: &str, description: Option<&str>) -> (r: Tag)
    ensures
        r == tag_of(name@, opt_view(description)),
{
    TagBuilder::new().name(name).description(description).build()
}

/// `ComponentsBuilder::schemas_from_iter`: the components holding these schemas.
#[verifier::external_body]
fn build_components(schemas: Vec<(String, RefOr<Schema>)>) -> (r: Components)
    ensures
        r == components_of(schemas@.map_values(|e: (String, RefOr<Schema>)| (e.0@, e.1))),
{
    ComponentsBuilder::new().schemas_from_iter(schemas).build()
}

/// `OpenApiBuilder`: info, paths, components and tags set, the rest left at their defaults.
#[verifier::external_body]
fn build_document(info: Info, paths: Paths, components: Components, tags: Option<Vec<Tag>>) -> (r: OpenApi)
    ensures
        r == document_of(
            info,
            paths,
            components,
            match tags {
                Some(t) => Some(t@),
                None => None,
            },
        ),
{
    OpenApiBuilder::new().info(info).paths(paths).components(Some(components)).tags(tags).build()
}

/// The view of a list of strings.
pub open spec fn strings_view(v: Seq<String>) -> Seq<Seq<char>> {
    v.map_values(|t: String| t@)
}

/// The operation documented for a path: tagged with the path's tags when it has any.
pub open spec fn tagged_operation(op: Operation, tags: Seq<Seq<char>>) -> Operation {
    if tags.len() > 0 {
        operation_with_tags(op, tags)
    } else {
        op
    }
}

/// The document's top-level tags: one per `TagMeta`, or none at all when there are no tags.
pub open spec fn document_tags_of(tags: Seq<TagMeta>) -> Option<Seq<Tag>> {
    if tags.len() == 0 {
        None
    } else {
        Some(tags.map_values(|t: TagMeta| tag_of(t.name@, opt_view(t.description))))
    }
}

/// The view of a schema list as names and schemas.
pub open spec fn schema_list_view(list: Seq<(String, RefOr<Schema>)>) -> Seq<(Seq<char>, RefOr<Schema>)> {
    list.map_values(|e: (String, RefOr<Schema>)| (e.0@, e.1))
}

/// The operation with the path's tags applied, so that each operation is listed under its
/// own tag (a path without tags keeps the operation as it is).
pub fn operation_for_tags(operation: Operation, tags: Vec<String>) -> (r: Operation)
    ensures
        r == tagged_operation(operation, strings_view(tags@)),
{
    if tags.len() > 0 {
        set_operation_tags(operation, tags)
    } else {
        operation
    }
}

/// The item `PathsBuilder::path_from` puts under the path for these methods and this
/// operation: `PathItem::new` for one method; for any other number, the operation set
/// for each method by folding `PathItemBuilder::operation`, which is the item
/// `PathItem::from_http_methods` gives.
pub open spec fn path_from_item(methods: Seq<HttpMethod>, op: Operation) -> PathItem {
    if methods.len() == 1 {
        path_item_new(methods[0], op)
    } else {
        path_item_from_methods(methods, op)
    }
}

/// Like `PathsBuilder::path_from`, but with the path's tags copied onto the operation.
/// `path`, `methods`, `operation` and `tags` are what the path type's `path()`,
/// `methods()`, `operation()` and `tags()` return.
pub fn append_tagged_path(
    paths: PathsBuilder,
    path: String,
    methods: Vec<HttpMethod>,
    operation: Operation,
    tags: Vec<String>,
) -> (r: PathsBuilder)
    ensures
        methods.len() == 1 ==> r == paths_builder_path(
            paths,
            path@,
            path_item_new(methods@[0], tagged_operation(operation, strings_view(tags@))),
        ),
        methods.len() != 1 ==> r == paths_builder_path(
            paths,
            path@,
            path_item_from_methods(methods@, tagged_operation(operation, strings_view(tags@))),
        ),
        tags.len() == 0 ==> r == paths_builder_path(paths, path@, path_from_item(methods@, operation)),
{
    let operation = operation_for_tags(operation, tags);
    let mut methods = methods;
    let path_item = if methods.len() == 1 {
        let method = methods.remove(0);
        new_path_item(method, operation)
    } else {
        new_path_item_for_methods(methods, operation)
    };
    add_path(paths, path, path_item)
}

/// The top-level tags of the document; `None` when `tags` is empty.
pub fn document_tags(tags: &[TagMeta]) -> (r: Option<Vec<Tag>>)
    ensures
        match r {
            Some(v) => document_tags_of(tags@) == Some(v@),
            None => document_tags_of(tags@) is None,
        },
{
    let mut out: Vec<Tag> = Vec::new();
    let mut i: usize = 0;
    while i < tags.len()
        invariant
            i <= tags@.len(),
            out@ == tags@.take(i as int).map_values(
                |t: TagMeta| tag_of(t.name@, opt_view(t.description)),
            ),
        decreases tags.len() - i,
    {
        let t = tags[i];
        out.push(build_tag(t.name, t.description));
        assert(tags@.take(i + 1).map_values(|t: TagMeta| tag_of(t.name@, opt_view(t.description)))
            =~= tags@.take(i as int).map_values(
            |t: TagMeta| tag_of(t.name@, opt_view(t.description)),
        ).push(tag_of(t.name@, opt_view(t.description))));
        i += 1;
    }
    assert(tags@.take(tags@.len() as int) =~= tags@);
    if out.len() == 0 {
        None
    } else {
        Some(out)
    }
}

/// Build the full OpenAPI document from the registered paths (`paths`, with every
/// registered path appended) and the schemas they reference (`schemas`, in registration
/// order, possibly with repeats).
pub fn build_openapi(opts: &SpecOptions, paths: PathsBuilder, schemas: Vec<(String, RefOr<Schema>)>) -> (r: OpenApi)
    ensures
        r == document_of(
            info_of(opts.title@, opts.version@, opt_view(opts.description)),
            paths_build(paths),
            components_of(schema_list_view(first_by_name(schemas@))),
            document_tags_of(opts.tags@),
        ),
{
    let schema_list = dedup_by_name(schemas);
    let info = build_info(opts.title, opts.version, opts.description);
    let tags = document_tags(opts.tags);
    build_document(info, build_paths(paths), build_components(schema_list), tags)
}

} // verus!
