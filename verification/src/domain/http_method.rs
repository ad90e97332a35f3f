//! The HTTP methods this tool knows how to scaffold, with their templates.

use vstd::prelude::*;

use crate::templates::{
    CONTROLLER_DELETE, CONTROLLER_GET, CONTROLLER_POST, CONTROLLER_PUT, HANDLER_DELETE, HANDLER_GET,
    HANDLER_POST, HANDLER_PUT, ROUTE_EXPORT_DELETE, ROUTE_EXPORT_GET, ROUTE_EXPORT_POST,
    ROUTE_EXPORT_PUT, ROUTE_IMPORT_DELETE, ROUTE_IMPORT_GET, ROUTE_IMPORT_POST, ROUTE_IMPORT_PUT,
};

verus! {

/// One of the four scaffoldable HTTP methods, in canonical order.
#[derive(Debug, Clone, Copy, PartialEq, Eq, Structural, PartialOrd, Ord)]
pub enum HttpMethod {
    Get,
    Post,
    Put,
    Delete,
}

/// Position of a method in the canonical order `Get < Post < Put < Delete`.
pub open spec fn rank(m: HttpMethod) -> int {
    match m {
        HttpMethod::Get => 0,
        HttpMethod::Post => 1,
        HttpMethod::Put => 2,
        HttpMethod::Delete => 3,
    }
}

/// The canonical sequence of all methods.
pub open spec fn all_methods() -> Seq<HttpMethod> {
    seq![HttpMethod::Get, HttpMethod::Post, HttpMethod::Put, HttpMethod::Delete]
}

/// Uppercase name of a method.
pub open spec fn upper_of(m: HttpMethod) -> Seq<char> {
    match m {
        HttpMethod::Get => "GET"@,
        HttpMethod::Post => "POST"@,
        HttpMethod::Put => "PUT"@,
        HttpMethod::Delete => "DELETE"@,
    }
}

/// The handler template of a method.
pub open spec fn handler_template_of(m: HttpMethod) -> Seq<char> {
    match m {
        HttpMethod::Get => HANDLER_GET@,
        HttpMethod::Post => HANDLER_POST@,
        HttpMethod::Put => HANDLER_PUT@,
        HttpMethod::Delete => HANDLER_DELETE@,
    }
}

/// The controller fragment of a method.
pub open spec fn controller_fragment_of(m: HttpMethod) -> Seq<char> {
    match m {
        HttpMethod::Get => CONTROLLER_GET@,
        HttpMethod::Post => CONTROLLER_POST@,
        HttpMethod::Put => CONTROLLER_PUT@,
        HttpMethod::Delete => CONTROLLER_DELETE@,
    }
}

/// The `route.ts` import line of a method.
pub open spec fn route_import_of(m: HttpMethod) -> Seq<char> {
    match m {
        HttpMethod::Get => ROUTE_IMPORT_GET@,
        HttpMethod::Post => ROUTE_IMPORT_POST@,
        HttpMethod::Put => ROUTE_IMPORT_PUT@,
        HttpMethod::Delete => ROUTE_IMPORT_DELETE@,
    }
}

/// The `route.ts` export line of a method.
pub open spec fn route_export_of(m: HttpMethod) -> Seq<char> {
    match m {
        HttpMethod::Get => ROUTE_EXPORT_GET@,
        HttpMethod::Post => ROUTE_EXPORT_POST@,
        HttpMethod::Put => ROUTE_EXPORT_PUT@,
        HttpMethod::Delete => ROUTE_EXPORT_DELETE@,
    }
}

impl HttpMethod {
    /// Uppercase form, e.g. `"GET"`.
    pub fn upper(&self) -> (r: &'static str)
        ensures
            r@ == upper_of(*self),
    {
        match self {
            HttpMethod::Get => "GET",
            HttpMethod::Post => "POST",
            HttpMethod::Put => "PUT",
            HttpMethod::Delete => "DELETE",
        }
    }

    /// Whether the request carries a body (affects the controller fragment).
    pub fn has_body(&self) -> (r: bool)
        ensures
            r == (*self == HttpMethod::Post || *self == HttpMethod::Put),
    {
        match self {
            HttpMethod::Post | HttpMethod::Put => true,
            _ => false,
        }
    }

    /// The embedded handler template (`GET.ts` content) for this method.
    pub fn handler_template(&self) -> (r: &'static str)
        ensures
            r@ == handler_template_of(*self),
    {
        match self {
            HttpMethod::Get => HANDLER_GET,
            HttpMethod::Post => HANDLER_POST,
            HttpMethod::Put => HANDLER_PUT,
            HttpMethod::Delete => HANDLER_DELETE,
        }
    }

    /// The embedded controller fragment for this method (appended after the
    /// shared preamble).
    pub fn controller_fragment(&self) -> (r: &'static str)
        ensures
            r@ == controller_fragment_of(*self),
    {
        match self {
            HttpMethod::Get => CONTROLLER_GET,
            HttpMethod::Post => CONTROLLER_POST,
            HttpMethod::Put => CONTROLLER_PUT,
            HttpMethod::Delete => CONTROLLER_DELETE,
        }
    }

    /// The `route.ts` import line template for this method.
    pub fn route_import(&self) -> (r: &'static str)
        ensures
            r@ == route_import_of(*self),
    {
        match self {
            HttpMethod::Get => ROUTE_IMPORT_GET,
            HttpMethod::Post => ROUTE_IMPORT_POST,
            HttpMethod::Put => ROUTE_IMPORT_PUT,
            HttpMethod::Delete => ROUTE_IMPORT_DELETE,
        }
    }

    /// The `route.ts` export line template for this method.
    pub fn route_export(&self) -> (r: &'static str)
        ensures
            r@ == route_export_of(*self),
    {
        match self {
            HttpMethod::Get => ROUTE_EXPORT_GET,
            HttpMethod::Post => ROUTE_EXPORT_POST,
            HttpMethod::Put => ROUTE_EXPORT_PUT,
            HttpMethod::Delete => ROUTE_EXPORT_DELETE,
        }
    }

    /// All known methods, in canonical order.
    pub fn all() -> (r: [HttpMethod; 4])
        ensures
            r@ == all_methods(),
    {
        [HttpMethod::Get, HttpMethod::Post, HttpMethod::Put, HttpMethod::Delete]
    }
}

} // verus!
