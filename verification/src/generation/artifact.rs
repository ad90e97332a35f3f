//! One output file = one `FileArtifact`. Adding a new file type means a new
//! struct implementing this trait, registered in `plan.rs`.

use vstd::prelude::*;

use crate::domain::request::GenerationRequest;
use crate::error::CliError;
use crate::generation::controller::ControllerArtifact;
use crate::generation::handler::HandlerArtifact;
use crate::generation::route::RouteArtifact;

verus! {

/// A file to produce: where it goes and what it holds.
pub trait FileArtifact {
    /// Path relative to the target directory.
    spec fn path_of(&self) -> Seq<char>;

    /// The file contents for the PascalCase resource name `name`.
    spec fn content_for(&self, name: Seq<char>) -> Seq<char>;

    /// Path relative to the target directory, e.g. `"GET.ts"`.
    fn relative_path(&self) -> (r: String)
        ensures
            r@ == self.path_of(),
    ;

    /// Render the full file contents for this request.
    fn render(&self, req: &GenerationRequest) -> (r: Result<String, CliError>)
        ensures
            r matches Ok(s) && s@ == self.content_for(req.name@),
    ;
}

/// Every kind of file the tool produces.
pub enum Artifact {
    Handler(HandlerArtifact),
    Controller(ControllerArtifact),
    Route(RouteArtifact),
}

impl FileArtifact for Artifact {
    open spec fn path_of(&self) -> Seq<char> {
        match self {
            Artifact::Handler(a) => a.path_of(),
            Artifact::Controller(a) => a.path_of(),
            Artifact::Route(a) => a.path_of(),
        }
    }

    open spec fn content_for(&self, name: Seq<char>) -> Seq<char> {
        match self {
            Artifact::Handler(a) => a.content_for(name),
            Artifact::Controller(a) => a.content_for(name),
            Artifact::Route(a) => a.content_for(name),
        }
    }

    fn relative_path(&self) -> (r: String) {
        match self {
            Artifact::Handler(a) => a.relative_path(),
            Artifact::Controller(a) => a.relative_path(),
            Artifact::Route(a) => a.relative_path(),
        }
    }

    fn render(&self, req: &GenerationRequest) -> (r: Result<String, CliError>) {
        match self {
            Artifact::Handler(a) => a.render(req),
            Artifact::Controller(a) => a.render(req),
            Artifact::Route(a) => a.render(req),
        }
    }
}

} // verus!
