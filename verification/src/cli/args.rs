//! The parsed command line and its resolution into a `GenerationRequest`.

use vstd::prelude::*;
use vstd::slice::slice_to_vec;

use crate::domain::http_method::{all_methods, rank, HttpMethod};
use crate::domain::request::{
    lemma_normalized_of_sorted, normalized, strictly_sorted, GenerationRequest,
};
use crate::domain::resource_name::{name_accepted, trim, upper_camel_case, ResourceName};
use crate::error::{is_invalid_name, CliError};

verus! {

/// The parsed command line: `next --update`, or a subcommand.
#[derive(Debug)]
pub struct Cli {
    /// Replace this program with its latest release.
    pub update: bool,
    pub command: Option<Command>,
}

/// Top-level subcommands.
#[derive(Debug)]
pub enum Command {
    /// API scaffolding commands.
    Api { action: ApiAction },
}

/// `api` subcommands.
#[derive(Debug)]
pub enum ApiAction {
    /// Create handler files for a resource.
    Create(CreateArgs),
}

/// Arguments of `api create`.
#[derive(Debug)]
pub struct CreateArgs {
    /// Resource name in any case (user, user-profile, userProfile, ...).
    pub name: String,
    pub get: bool,
    pub post: bool,
    pub put: bool,
    pub delete: bool,
    /// Select all four methods (the default when no flag is given).
    pub all: bool,
    /// Target directory. Files are written flat into it.
    pub location: String,
    /// Overwrite existing files.
    pub force: bool,
    /// Print what would be written; write nothing.
    pub dry_run: bool,
}

/// `[m]` when `flag` is set, else nothing.
pub open spec fn flagged(flag: bool, m: HttpMethod) -> Seq<HttpMethod> {
    if flag {
        seq![m]
    } else {
        Seq::<HttpMethod>::empty()
    }
}

/// The method set selected by the flags: all four when `all` is set or no
/// method flag is, otherwise the flagged methods in canonical order.
pub open spec fn resolved_methods(get: bool, post: bool, put: bool, delete: bool, all: bool) -> Seq<
    HttpMethod,
> {
    if all || !(get || post || put || delete) {
        all_methods()
    } else {
        flagged(get, HttpMethod::Get) + flagged(post, HttpMethod::Post) + flagged(
            put,
            HttpMethod::Put,
        ) + flagged(delete, HttpMethod::Delete)
    }
}

/// Resolve the selected method set from the boolean flags.
///
/// No flags -> all four. `--all` -> all four. Otherwise the chosen subset.
pub fn resolve_methods(get: bool, post: bool, put: bool, delete: bool, all: bool) -> (r: Vec<
    HttpMethod,
>)
    ensures
        r@ == resolved_methods(get, post, put, delete, all),
{
    if all || !(get || post || put || delete) {
        let all_four = HttpMethod::all();
        return slice_to_vec(all_four.as_slice());
    }
    let mut v: Vec<HttpMethod> = Vec::new();
    if get {
        v.push(HttpMethod::Get);
    }
    if post {
        v.push(HttpMethod::Post);
    }
    if put {
        v.push(HttpMethod::Put);
    }
    if delete {
        v.push(HttpMethod::Delete);
    }
    assert(v@ =~= resolved_methods(get, post, put, delete, all));
    v
}

/// The flags select methods already in canonical order without duplicates,
/// so the request keeps exactly that selection.
pub proof fn lemma_resolved_methods_are_normalized(
    get: bool,
    post: bool,
    put: bool,
    delete: bool,
    all: bool,
)
    ensures
        strictly_sorted(resolved_methods(get, post, put, delete, all)),
        normalized(resolved_methods(get, post, put, delete, all)) == resolved_methods(
            get,
            post,
            put,
            delete,
            all,
        ),
{
    let s = resolved_methods(get, post, put, delete, all);
    assert forall|i: int, j: int| 0 <= i < j < s.len() implies rank(#[trigger] s[i]) < rank(
        #[trigger] s[j],
    ) by {
        if all || !(get || post || put || delete) {
        } else {
            let a = flagged(get, HttpMethod::Get);
            let b = flagged(post, HttpMethod::Post);
            let c = flagged(put, HttpMethod::Put);
            let d = flagged(delete, HttpMethod::Delete);
            assert(s == a + b + c + d);
        }
    }
    lemma_normalized_of_sorted(s);
}

/// Whether the flag of `m` is set among `get`, `post`, `put` and `delete`.
pub open spec fn flag_of(m: HttpMethod, get: bool, post: bool, put: bool, delete: bool) -> bool {
    match m {
        HttpMethod::Get => get,
        HttpMethod::Post => post,
        HttpMethod::Put => put,
        HttpMethod::Delete => delete,
    }
}

/// The flags select exactly the flagged methods, unless `--all` is given or
/// no method flag is, when they select all four: `--put` alone selects `PUT`
/// and nothing else.
pub proof fn lemma_resolved_methods_select_the_flagged(
    get: bool,
    post: bool,
    put: bool,
    delete: bool,
    all: bool,
)
    ensures
        all || !(get || post || put || delete) ==> forall|m: HttpMethod|
            #[trigger] resolved_methods(get, post, put, delete, all).contains(m),
        !all && (get || post || put || delete) ==> forall|m: HttpMethod|
            #[trigger] resolved_methods(get, post, put, delete, all).contains(m) == flag_of(
                m,
                get,
                post,
                put,
                delete,
            ),
{
    let s = resolved_methods(get, post, put, delete, all);
    assert forall|m: HttpMethod| #[trigger] s.contains(m) == ((all || !(get || post || put || delete))
        || flag_of(m, get, post, put, delete)) by {
        if all || !(get || post || put || delete) {
            let k: int = match m {
                HttpMethod::Get => 0,
                HttpMethod::Post => 1,
                HttpMethod::Put => 2,
                HttpMethod::Delete => 3,
            };
            assert(s[k] == m);
        } else {
            let a = flagged(get, HttpMethod::Get);
            let b = flagged(post, HttpMethod::Post);
            let c = flagged(put, HttpMethod::Put);
            let d = flagged(delete, HttpMethod::Delete);
            assert(s == a + b + c + d);
            if flag_of(m, get, post, put, delete) {
                let k: int = match m {
                    HttpMethod::Get => 0,
                    HttpMethod::Post => a.len() as int,
                    HttpMethod::Put => (a.len() + b.len()) as int,
                    HttpMethod::Delete => (a.len() + b.len() + c.len()) as int,
                };
                assert(s[k] == m);
            }
            if s.contains(m) {
                let k = choose|k: int| 0 <= k < s.len() && s[k] == m;
                if k < a.len() {
                    assert(s[k] == a[k]);
                } else if k < a.len() + b.len() {
                    assert(s[k] == b[k - a.len()]);
                } else if k < a.len() + b.len() + c.len() {
                    assert(s[k] == c[k - a.len() - b.len()]);
                } else {
                    assert(s[k] == d[k - a.len() - b.len() - c.len()]);
                }
            }
        }
    }
}

impl CreateArgs {
    /// Validate and resolve into a domain `GenerationRequest`: the name is
    /// parsed first, so an invalid name is reported even when no method would
    /// be selected.
    pub fn to_request(&self) -> (r: Result<GenerationRequest, CliError>)
        ensures
            r is Ok <==> name_accepted(self.name@),
            r matches Ok(req) ==> {
                &&& req.name@ == upper_camel_case(trim(self.name@))
                &&& req.methods@ == normalized(
                    resolved_methods(self.get, self.post, self.put, self.delete, self.all),
                )
                &&& req.target_dir@ == self.location@
                &&& req.force == self.force
            },
            r matches Err(e) ==> is_invalid_name(e, self.name@),
    {
        let name = match ResourceName::parse(self.name.as_str()) {
            Ok(n) => n,
            Err(e) => return Err(e),
        };
        let methods = resolve_methods(self.get, self.post, self.put, self.delete, self.all);
        assert(methods@.len() > 0);
        GenerationRequest::new(name, methods, self.location.clone(), self.force)
    }
}

} // verus!
