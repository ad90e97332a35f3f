//! Assemble the list of files to produce for a request. The single place that
//! knows which artifacts exist; the runner is agnostic.

use vstd::prelude::*;

use crate::domain::http_method::HttpMethod;
use crate::domain::request::GenerationRequest;
use crate::generation::artifact::{Artifact, FileArtifact};
use crate::generation::controller::{controller_content, ControllerArtifact};
use crate::generation::handler::{handler_content, handler_file_name, HandlerArtifact};
use crate::generation::route::{route_content, RouteArtifact};

verus! {

/// Relative path of the `i`-th planned file for the methods `ms`: one handler
/// per method, then `controller.ts`, then `route.ts`.
pub open spec fn planned_path(ms: Seq<HttpMethod>, i: int) -> Seq<char> {
    if i < ms.len() {
        handler_file_name(ms[i])
    } else if i == ms.len() {
        "controller.ts"@
    } else {
        "route.ts"@
    }
}

/// Contents of the `i`-th planned file for the methods `ms` and the resource
/// name `name`.
pub open spec fn planned_content(ms: Seq<HttpMethod>, name: Seq<char>, i: int) -> Seq<char> {
    if i < ms.len() {
        handler_content(ms[i], name)
    } else if i == ms.len() {
        controller_content(ms, name)
    } else {
        route_content(ms, name)
    }
}

/// The artifacts of a request: one handler per method (in the request's
/// order), then the controller and the route, both over all the methods.
pub fn build_artifacts(req: &GenerationRequest) -> (r: Vec<Artifact>)
    ensures
        r@.len() == req.methods@.len() + 2,
        forall|i: int|
            0 <= i < req.methods@.len() ==> (#[trigger] r@[i] matches Artifact::Handler(h)
                && h.method == req.methods@[i]),
        r@[req.methods@.len() as int] matches Artifact::Controller(c) && c.methods@
            == req.methods@,
        r@[req.methods@.len() + 1int] matches Artifact::Route(rt) && rt.methods@ == req.methods@,
        forall|i: int|
            0 <= i < r@.len() ==> (#[trigger] r@[i]).path_of() == planned_path(req.methods@, i)
                && r@[i].content_for(req.name@) == planned_content(req.methods@, req.name@, i),
{
    let mut v: Vec<Artifact> = Vec::new();
    let n = req.methods.len();
    let mut i: usize = 0;
    while i < n
        invariant
            n == req.methods@.len(),
            i <= n,
            v@.len() == i,
            forall|k: int|
                0 <= k < i ==> (#[trigger] v@[k] matches Artifact::Handler(h) && h.method
                    == req.methods@[k]),
        decreases n - i,
    {
        v.push(Artifact::Handler(HandlerArtifact { method: req.methods[i] }));
        i = i + 1;
    }
    v.push(Artifact::Controller(ControllerArtifact { methods: copy_methods(&req.methods) }));
    v.push(Artifact::Route(RouteArtifact { methods: copy_methods(&req.methods) }));
    assert forall|i: int|
        0 <= i < v@.len() implies (#[trigger] v@[i]).path_of() == planned_path(req.methods@, i)
        && v@[i].content_for(req.name@) == planned_content(req.methods@, req.name@, i) by {
        if i < n {
            assert(v@[i] matches Artifact::Handler(h) && h.method == req.methods@[i]);
        }
    }
    v
}

/// A copy of a list of methods.
fn copy_methods(ms: &Vec<HttpMethod>) -> (r: Vec<HttpMethod>)
    ensures
        r@ == ms@,
{
    let mut r: Vec<HttpMethod> = Vec::new();
    let n = ms.len();
    let mut i: usize = 0;
    while i < n
        invariant
            n == ms@.len(),
            i <= n,
            r@ == ms@.take(i as int),
        decreases n - i,
    {
        r.push(ms[i]);
        i = i + 1;
        assert(r@ =~= ms@.take(i as int));
    }
    assert(ms@.take(n as int) =~= ms@);
    r
}

} // verus!
