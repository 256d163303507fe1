# dioxus_openapi

OpenAPI documentation for server functions, verified with Verus.

- `src/` is the verified library:
  - `path_params` — captures (`{name}`) of a route path;
  - `api_args`, `signature`, `route`, `expand` — what the `api_get` / `api_post`
    route macros decide: argument parsing, the function's named inputs and response
    type, the route attribute, and the plan of the expansion (request-body struct,
    path parameters, responses, generated names);
  - `schemas`, `openapi` — schema deduplication and assembly of the OpenAPI document
    with `utoipa`;
  - `scalar` — the Scalar API-reference page and the escaping of its custom CSS;
  - `text` — character helpers.
- `app/` holds what works on compiler tokens (`syn`, `quote`) and the link-time
  registry of documented paths (`inventory`); it is the runtime that generated code
  reaches as `dioxus_openapi_server`.
- `tests/` exercises the library on concrete values.
