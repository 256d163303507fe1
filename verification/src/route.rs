//! The server-function route attribute that a documented endpoint keeps.

use vstd::prelude::*;

use crate::text::{joined, str_eq};

verus! {

/// HTTP methods that have a route attribute of their own.
#[derive(Debug, Clone, Copy, PartialEq, Eq, Structural)]
pub enum RouteMethod {
    Get,
    Post,
    Put,
    Delete,
    Patch,
}

impl RouteMethod {
    /// The lower-case method name, which is also the attribute's name.
    pub open spec fn spec_name(self) -> Seq<char> {
        match self {
            RouteMethod::Get => "get"@,
            RouteMethod::Post => "post"@,
            RouteMethod::Put => "put"@,
            RouteMethod::Delete => "delete"@,
            RouteMethod::Patch => "patch"@,
        }
    }

    /// The lower-case method name, which is also the attribute's name.
    pub fn name(&self) -> (s: &'static str)
        ensures
            s@ == self.spec_name(),
    {
        match self {
            RouteMethod::Get => "get",
            RouteMethod::Post => "post",
            RouteMethod::Put => "put",
            RouteMethod::Delete => "delete",
            RouteMethod::Patch => "patch",
        }
    }
}

/// The route method named `method`, if it is one of the five.
pub open spec fn route_method_of(method: Seq<char>) -> Option<RouteMethod> {
    if method == "get"@ {
        Some(RouteMethod::Get)
    } else if method == "post"@ {
        Some(RouteMethod::Post)
    } else if method == "put"@ {
        Some(RouteMethod::Put)
    } else if method == "delete"@ {
        Some(RouteMethod::Delete)
    } else if method == "patch"@ {
        Some(RouteMethod::Patch)
    } else {
        None
    }
}

/// What the route attribute for `method` is: the method's attribute, or the
/// compile error `unsupported method <method>`.
pub open spec fn route_attr_of(method: Seq<char>) -> Result<RouteMethod, Seq<char>> {
    match route_method_of(method) {
        Some(m) => Ok(m),
        None => Err("unsupported method "@ + method),
    }
}

/// The route attribute a documented function keeps, or the text of the compile error
/// emitted in its place.
pub fn dioxus_route_attr(method: &str) -> (r: Result<RouteMethod, String>)
    ensures
        match r {
            Ok(m) => route_attr_of(method@) == Ok::<RouteMethod, Seq<char>>(m),
            Err(msg) => route_attr_of(method@) == Err::<RouteMethod, Seq<char>>(msg@),
        },
{
    if str_eq(method, "get") {
        Ok(RouteMethod::Get)
    } else if str_eq(method, "post") {
        Ok(RouteMethod::Post)
    } else if str_eq(method, "put") {
        Ok(RouteMethod::Put)
    } else if str_eq(method, "delete") {
        Ok(RouteMethod::Delete)
    } else if str_eq(method, "patch") {
        Ok(RouteMethod::Patch)
    } else {
        Err(joined("unsupported method ", method))
    }
}

} // verus!
