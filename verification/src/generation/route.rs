//! `route.ts`: one import line per method, a blank line, then one export line
//! per method.

use vstd::prelude::*;

use crate::domain::http_method::{route_export_of, route_import_of, upper_of, HttpMethod};
use crate::domain::request::GenerationRequest;
use crate::error::CliError;
use crate::generation::artifact::FileArtifact;
use crate::text::{lemma_occurs_in_middle, occurs_in};
use crate::generation::renderer::{
    lemma_render_one_token, substitute_name, NamePlaceholderRenderer, TemplateRenderer,
};

verus! {

/// The rendered import lines of `ms`, in order.
pub open spec fn imports_rendered(ms: Seq<HttpMethod>, name: Seq<char>) -> Seq<char>
    decreases ms.len(),
{
    if ms.len() == 0 {
        Seq::<char>::empty()
    } else {
        imports_rendered(ms.drop_last(), name) + substitute_name(route_import_of(ms.last()), name)
    }
}

/// The rendered export lines of `ms`, in order.
pub open spec fn exports_rendered(ms: Seq<HttpMethod>, name: Seq<char>) -> Seq<char>
    decreases ms.len(),
{
    if ms.len() == 0 {
        Seq::<char>::empty()
    } else {
        exports_rendered(ms.drop_last(), name) + substitute_name(route_export_of(ms.last()), name)
    }
}

/// Contents of `route.ts`: the imports, a blank line, the exports.
pub open spec fn route_content(ms: Seq<HttpMethod>, name: Seq<char>) -> Seq<char> {
    imports_rendered(ms, name) + "\n"@ + exports_rendered(ms, name)
}

/// The `route.ts` file.
pub struct RouteArtifact {
    pub methods: Vec<HttpMethod>,
}

impl FileArtifact for RouteArtifact {
    open spec fn path_of(&self) -> Seq<char> {
        "route.ts"@
    }

    open spec fn content_for(&self, name: Seq<char>) -> Seq<char> {
        route_content(self.methods@, name)
    }

    fn relative_path(&self) -> (r: String) {
        String::from_str("route.ts")
    }

    fn render(&self, req: &GenerationRequest) -> (r: Result<String, CliError>) {
        let renderer = NamePlaceholderRenderer;
        let mut out = String::new();
        let n = self.methods.len();
        let ghost ms = self.methods@;
        let mut i: usize = 0;
        while i < n
            invariant
                n == ms.len(),
                ms == self.methods@,
                i <= n,
                out@ == imports_rendered(ms.take(i as int), req.name@),
            decreases n - i,
        {
            let piece = renderer.render(self.methods[i].route_import(), &req.name);
            out.append(piece.as_str());
            assert(ms.take(i + 1).drop_last() =~= ms.take(i as int));
            i = i + 1;
        }
        assert(ms.take(n as int) =~= ms);
        out.append("\n");
        let ghost head = out@;
        let mut j: usize = 0;
        while j < n
            invariant
                n == ms.len(),
                ms == self.methods@,
                j <= n,
                head == imports_rendered(ms, req.name@) + "\n"@,
                out@ == head + exports_rendered(ms.take(j as int), req.name@),
            decreases n - j,
        {
            let piece = renderer.render(self.methods[j].route_export(), &req.name);
            out.append(piece.as_str());
            assert(ms.take(j + 1).drop_last() =~= ms.take(j as int));
            j = j + 1;
        }
        assert(ms.take(n as int) =~= ms);
        Ok(out)
    }
}


/// Lower-case name of a method, as it starts handler names.
pub open spec fn lower_of(m: HttpMethod) -> Seq<char> {
    match m {
        HttpMethod::Get => "get"@,
        HttpMethod::Post => "post"@,
        HttpMethod::Put => "put"@,
        HttpMethod::Delete => "delete"@,
    }
}

/// The rendered import line of a method imports its handler, named after
/// the method and the resource, from the method's handler file; e.g. for
/// `GET` and `User`: `import { getUserHandler } from './GET';`.
pub proof fn lemma_route_import_rendered(m: HttpMethod, name: Seq<char>)
    ensures
        substitute_name(route_import_of(m), name) == "import { "@ + lower_of(m) + name
            + "Handler } from './"@ + upper_of(m) + "';\n"@,
{
    reveal_strlit("import { ");
    reveal_strlit("Handler } from './");
    reveal_strlit("';\n");
    reveal_strlit("$NAME$");
    match m {
        HttpMethod::Get => {
            reveal_strlit("import { get$NAME$Handler } from './GET';\n");
            reveal_strlit("get");
            reveal_strlit("GET");
            let a = "import { "@ + "get"@;
            let b = "Handler } from './"@ + "GET"@ + "';\n"@;
            assert(route_import_of(m) =~= a + "$NAME$"@ + b);
            lemma_render_one_token(a, b, name);
            assert(a + name + b =~= "import { "@ + lower_of(m) + name + "Handler } from './"@ + upper_of(m)
                + "';\n"@);
        },
        HttpMethod::Post => {
            reveal_strlit("import { post$NAME$Handler } from './POST';\n");
            reveal_strlit("post");
            reveal_strlit("POST");
            let a = "import { "@ + "post"@;
            let b = "Handler } from './"@ + "POST"@ + "';\n"@;
            assert(route_import_of(m) =~= a + "$NAME$"@ + b);
            lemma_render_one_token(a, b, name);
            assert(a + name + b =~= "import { "@ + lower_of(m) + name + "Handler } from './"@ + upper_of(m)
                + "';\n"@);
        },
        HttpMethod::Put => {
            reveal_strlit("import { put$NAME$Handler } from './PUT';\n");
            reveal_strlit("put");
            reveal_strlit("PUT");
            let a = "import { "@ + "put"@;
            let b = "Handler } from './"@ + "PUT"@ + "';\n"@;
            assert(route_import_of(m) =~= a + "$NAME$"@ + b);
            lemma_render_one_token(a, b, name);
            assert(a + name + b =~= "import { "@ + lower_of(m) + name + "Handler } from './"@ + upper_of(m)
                + "';\n"@);
        },
        HttpMethod::Delete => {
            reveal_strlit("import { delete$NAME$Handler } from './DELETE';\n");
            reveal_strlit("delete");
            reveal_strlit("DELETE");
            let a = "import { "@ + "delete"@;
            let b = "Handler } from './"@ + "DELETE"@ + "';\n"@;
            assert(route_import_of(m) =~= a + "$NAME$"@ + b);
            lemma_render_one_token(a, b, name);
            assert(a + name + b =~= "import { "@ + lower_of(m) + name + "Handler } from './"@ + upper_of(m)
                + "';\n"@);
        },
    }
}


/// The rendered export line of a method exports, under the method's name,
/// the route of its handler; e.g. for `GET` and `User`:
/// `export const GET = getUserHandler.toRoute();`.
pub proof fn lemma_route_export_rendered(m: HttpMethod, name: Seq<char>)
    ensures
        substitute_name(route_export_of(m), name) == "export const "@ + upper_of(m) + " = "@
            + lower_of(m) + name + "Handler.toRoute();\n"@,
{
    reveal_strlit("export const ");
    reveal_strlit(" = ");
    reveal_strlit("Handler.toRoute();\n");
    reveal_strlit("$NAME$");
    match m {
        HttpMethod::Get => {
            reveal_strlit("export const GET = get$NAME$Handler.toRoute();\n");
            reveal_strlit("get");
            reveal_strlit("GET");
            let a = "export const "@ + "GET"@ + " = "@ + "get"@;
            let b = "Handler.toRoute();\n"@;
            assert(route_export_of(m) =~= a + "$NAME$"@ + b);
            lemma_render_one_token(a, b, name);
        },
        HttpMethod::Post => {
            reveal_strlit("export const POST = post$NAME$Handler.toRoute();\n");
            reveal_strlit("post");
            reveal_strlit("POST");
            let a = "export const "@ + "POST"@ + " = "@ + "post"@;
            let b = "Handler.toRoute();\n"@;
            assert(route_export_of(m) =~= a + "$NAME$"@ + b);
            lemma_render_one_token(a, b, name);
        },
        HttpMethod::Put => {
            reveal_strlit("export const PUT = put$NAME$Handler.toRoute();\n");
            reveal_strlit("put");
            reveal_strlit("PUT");
            let a = "export const "@ + "PUT"@ + " = "@ + "put"@;
            let b = "Handler.toRoute();\n"@;
            assert(route_export_of(m) =~= a + "$NAME$"@ + b);
            lemma_render_one_token(a, b, name);
        },
        HttpMethod::Delete => {
            reveal_strlit("export const DELETE = delete$NAME$Handler.toRoute();\n");
            reveal_strlit("delete");
            reveal_strlit("DELETE");
            let a = "export const "@ + "DELETE"@ + " = "@ + "delete"@;
            let b = "Handler.toRoute();\n"@;
            assert(route_export_of(m) =~= a + "$NAME$"@ + b);
            lemma_render_one_token(a, b, name);
        },
    }
}

/// Import lines of two method lists, one after the other, are the import
/// lines of the joined list.
proof fn lemma_imports_concat(a: Seq<HttpMethod>, b: Seq<HttpMethod>, name: Seq<char>)
    ensures
        imports_rendered(a + b, name) == imports_rendered(a, name) + imports_rendered(b, name),
    decreases b.len(),
{
    if b.len() == 0 {
        assert(a + b =~= a);
        assert(imports_rendered(a, name) + imports_rendered(b, name) =~= imports_rendered(a, name));
    } else {
        assert((a + b).drop_last() =~= a + b.drop_last());
        lemma_imports_concat(a, b.drop_last(), name);
    }
}

/// Export lines of two method lists, one after the other, are the export
/// lines of the joined list.
proof fn lemma_exports_concat(a: Seq<HttpMethod>, b: Seq<HttpMethod>, name: Seq<char>)
    ensures
        exports_rendered(a + b, name) == exports_rendered(a, name) + exports_rendered(b, name),
    decreases b.len(),
{
    if b.len() == 0 {
        assert(a + b =~= a);
        assert(exports_rendered(a, name) + exports_rendered(b, name) =~= exports_rendered(a, name));
    } else {
        assert((a + b).drop_last() =~= a + b.drop_last());
        lemma_exports_concat(a, b.drop_last(), name);
    }
}

/// `route.ts` imports the handler of every selected method from that
/// method's handler file, and exports its route under the method's name:
/// for each method `m` of `ms` it holds the line
/// `import { <m><Name>Handler } from './<M>';` and the line
/// `export const <M> = <m><Name>Handler.toRoute();`.
pub proof fn lemma_route_wires_every_method(ms: Seq<HttpMethod>, name: Seq<char>)
    ensures
        forall|i: int|
            0 <= i < ms.len() ==> occurs_in(
                route_content(ms, name),
                "import { "@ + lower_of(#[trigger] ms[i]) + name + "Handler } from './"@ + upper_of(ms[i])
                    + "';\n"@,
            ),
        forall|i: int|
            0 <= i < ms.len() ==> occurs_in(
                route_content(ms, name),
                "export const "@ + upper_of(#[trigger] ms[i]) + " = "@ + lower_of(ms[i]) + name
                    + "Handler.toRoute();\n"@,
            ),
{
    assert forall|i: int| 0 <= i < ms.len() implies occurs_in(
        route_content(ms, name),
        "import { "@ + lower_of(#[trigger] ms[i]) + name + "Handler } from './"@ + upper_of(ms[i])
            + "';\n"@,
    ) && occurs_in(
        route_content(ms, name),
        "export const "@ + upper_of(ms[i]) + " = "@ + lower_of(ms[i]) + name + "Handler.toRoute();\n"@,
    ) by {
        let pre = ms.take(i);
        let one = seq![ms[i]];
        let post = ms.skip(i + 1);
        assert(ms =~= pre + one + post);
        lemma_imports_concat(pre + one, post, name);
        lemma_imports_concat(pre, one, name);
        lemma_exports_concat(pre + one, post, name);
        lemma_exports_concat(pre, one, name);
        assert(one.drop_last() =~= Seq::<HttpMethod>::empty());
        assert(one.last() == ms[i]);
        assert(imports_rendered(one.drop_last(), name) =~= Seq::<char>::empty());
        assert(exports_rendered(one.drop_last(), name) =~= Seq::<char>::empty());
        lemma_route_import_rendered(ms[i], name);
        lemma_route_export_rendered(ms[i], name);
        let imp = substitute_name(route_import_of(ms[i]), name);
        let exp = substitute_name(route_export_of(ms[i]), name);
        assert(imports_rendered(one, name) =~= imp);
        assert(exports_rendered(one, name) =~= exp);
        let c = route_content(ms, name);
        assert(c =~= imports_rendered(pre, name) + imp + (imports_rendered(post, name) + "\n"@
            + exports_rendered(ms, name)));
        lemma_occurs_in_middle(
            imports_rendered(pre, name),
            imp,
            imports_rendered(post, name) + "\n"@ + exports_rendered(ms, name),
        );
        assert(c =~= (imports_rendered(ms, name) + "\n"@ + exports_rendered(pre, name)) + exp
            + exports_rendered(post, name));
        lemma_occurs_in_middle(
            imports_rendered(ms, name) + "\n"@ + exports_rendered(pre, name),
            exp,
            exports_rendered(post, name),
        );
    }
}

} // verus!
