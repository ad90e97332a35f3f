//! `controller.ts`: shared preamble (imports + consts) emitted once, followed
//! by one client fragment per selected method.

use vstd::prelude::*;

use crate::domain::http_method::{controller_fragment_of, HttpMethod};
use crate::domain::request::GenerationRequest;
use crate::error::CliError;
use crate::generation::artifact::FileArtifact;
use crate::generation::renderer::{
    lemma_render_plain, lemma_render_step, substitute_name, NamePlaceholderRenderer, TemplateRenderer,
};
use crate::generation::route::lower_of;
use crate::text::{lemma_occurs_in_middle, no_pair_start, occurs_in, starts_with};
use crate::templates::CONTROLLER_PREAMBLE;

verus! {

/// The rendered controller fragments of `ms`, in order.
pub open spec fn fragments_rendered(ms: Seq<HttpMethod>, name: Seq<char>) -> Seq<char>
    decreases ms.len(),
{
    if ms.len() == 0 {
        Seq::<char>::empty()
    } else {
        fragments_rendered(ms.drop_last(), name) + substitute_name(
            controller_fragment_of(ms.last()),
            name,
        )
    }
}

/// Contents of `controller.ts`: the rendered preamble, once, then the
/// rendered fragment of each method.
pub open spec fn controller_content(ms: Seq<HttpMethod>, name: Seq<char>) -> Seq<char> {
    substitute_name(CONTROLLER_PREAMBLE@, name) + fragments_rendered(ms, name)
}

/// The `controller.ts` file.
pub struct ControllerArtifact {
    pub methods: Vec<HttpMethod>,
}

impl FileArtifact for ControllerArtifact {
    open spec fn path_of(&self) -> Seq<char> {
        "controller.ts"@
    }

    open spec fn content_for(&self, name: Seq<char>) -> Seq<char> {
        controller_content(self.methods@, name)
    }

    fn relative_path(&self) -> (r: String) {
        String::from_str("controller.ts")
    }

    fn render(&self, req: &GenerationRequest) -> (r: Result<String, CliError>) {
        let renderer = NamePlaceholderRenderer;
        let mut out = renderer.render(CONTROLLER_PREAMBLE, &req.name);
        let n = self.methods.len();
        let ghost ms = self.methods@;
        let mut i: usize = 0;
        while i < n
            invariant
                n == ms.len(),
                ms == self.methods@,
                i <= n,
                out@ == substitute_name(CONTROLLER_PREAMBLE@, req.name@) + fragments_rendered(
                    ms.take(i as int),
                    req.name@,
                ),
            decreases n - i,
        {
            let piece = renderer.render(self.methods[i].controller_fragment(), &req.name);
            out.append(piece.as_str());
            assert(ms.take(i + 1).drop_last() =~= ms.take(i as int));
            i = i + 1;
        }
        assert(ms.take(n as int) =~= ms);
        Ok(out)
    }
}


/// The rendered fragment of a method declares its fetch function, named
/// after the method and the resource, e.g. `export const getUser = async (`.
proof fn lemma_fragment_declares(m: HttpMethod, name: Seq<char>)
    ensures
        exists|fb0: Seq<char>|
            substitute_name(controller_fragment_of(m), name) == "\n"@ + ("export const "@ + lower_of(m)
                + name + " = async ("@) + fb0,
{
    reveal_strlit("\n");
    reveal_strlit("export const ");
    reveal_strlit(" = async (");
    reveal_strlit("$NAME$");
    match m {
        HttpMethod::Get => {
            reveal_strlit("\nexport const get$NAME$ = async (id?: string): Promise<Response> => {\n  return fetch(`${API_RESSOURCE}${id ? `/${id}` : DYNAMIC_PARAMS}`, {\n    method: 'GET',\n  });\n};\n");
            reveal_strlit("get");
            reveal_strlit("id?: string): Promise<Response> => {\n  return fetch(`${API_RESSOURCE}${id ? `/${id}` : DYNAMIC_PARAMS}`, {\n    method: 'GET',\n  });\n};\n");
            let fb0 = "id?: string): Promise<Response> => {\n  return fetch(`${API_RESSOURCE}${id ? `/${id}` : DYNAMIC_PARAMS}`, {\n    method: 'GET',\n  });\n};\n"@;
            let fa = "\n"@ + "export const "@ + "get"@;
            let fb = " = async ("@ + fb0;
            assert(controller_fragment_of(m) =~= fa + "$NAME$"@ + fb);
            assert(no_pair_start(fa, "$NAME$"@));
            assert(no_pair_start(fb, "$NAME$"@));
            lemma_render_step(fa, fb, name);
            lemma_render_plain(fb, name);
            assert(substitute_name(controller_fragment_of(m), name) =~= "\n"@ + ("export const "@
                + lower_of(m) + name + " = async ("@) + fb0);
        },
        HttpMethod::Post => {
            reveal_strlit("\nexport const post$NAME$ = async (body: unknown): Promise<Response> => {\n  return fetch(`${API_RESSOURCE}${DYNAMIC_PARAMS}`, {\n    method: 'POST',\n    headers: { 'Content-Type': 'application/json' },\n    body: JSON.stringify(body),\n  });\n};\n");
            reveal_strlit("post");
            reveal_strlit("body: unknown): Promise<Response> => {\n  return fetch(`${API_RESSOURCE}${DYNAMIC_PARAMS}`, {\n    method: 'POST',\n    headers: { 'Content-Type': 'application/json' },\n    body: JSON.stringify(body),\n  });\n};\n");
            let fb0 = "body: unknown): Promise<Response> => {\n  return fetch(`${API_RESSOURCE}${DYNAMIC_PARAMS}`, {\n    method: 'POST',\n    headers: { 'Content-Type': 'application/json' },\n    body: JSON.stringify(body),\n  });\n};\n"@;
            let fa = "\n"@ + "export const "@ + "post"@;
            let fb = " = async ("@ + fb0;
            assert(controller_fragment_of(m) =~= fa + "$NAME$"@ + fb);
            assert(no_pair_start(fa, "$NAME$"@));
            assert(no_pair_start(fb, "$NAME$"@));
            lemma_render_step(fa, fb, name);
            lemma_render_plain(fb, name);
            assert(substitute_name(controller_fragment_of(m), name) =~= "\n"@ + ("export const "@
                + lower_of(m) + name + " = async ("@) + fb0);
        },
        HttpMethod::Put => {
            reveal_strlit("\nexport const put$NAME$ = async (id: string, body: unknown): Promise<Response> => {\n  return fetch(`${API_RESSOURCE}/${id}`, {\n    method: 'PUT',\n    headers: { 'Content-Type': 'application/json' },\n    body: JSON.stringify(body),\n  });\n};\n");
            reveal_strlit("put");
            reveal_strlit("id: string, body: unknown): Promise<Response> => {\n  return fetch(`${API_RESSOURCE}/${id}`, {\n    method: 'PUT',\n    headers: { 'Content-Type': 'application/json' },\n    body: JSON.stringify(body),\n  });\n};\n");
            let fb0 = "id: string, body: unknown): Promise<Response> => {\n  return fetch(`${API_RESSOURCE}/${id}`, {\n    method: 'PUT',\n    headers: { 'Content-Type': 'application/json' },\n    body: JSON.stringify(body),\n  });\n};\n"@;
            let fa = "\n"@ + "export const "@ + "put"@;
            let fb = " = async ("@ + fb0;
            assert(controller_fragment_of(m) =~= fa + "$NAME$"@ + fb);
            assert(no_pair_start(fa, "$NAME$"@));
            assert(no_pair_start(fb, "$NAME$"@));
            lemma_render_step(fa, fb, name);
            lemma_render_plain(fb, name);
            assert(substitute_name(controller_fragment_of(m), name) =~= "\n"@ + ("export const "@
                + lower_of(m) + name + " = async ("@) + fb0);
        },
        HttpMethod::Delete => {
            reveal_strlit("\nexport const delete$NAME$ = async (id: string): Promise<Response> => {\n  return fetch(`${API_RESSOURCE}/${id}`, {\n    method: 'DELETE',\n  });\n};\n");
            reveal_strlit("delete");
            reveal_strlit("id: string): Promise<Response> => {\n  return fetch(`${API_RESSOURCE}/${id}`, {\n    method: 'DELETE',\n  });\n};\n");
            let fb0 = "id: string): Promise<Response> => {\n  return fetch(`${API_RESSOURCE}/${id}`, {\n    method: 'DELETE',\n  });\n};\n"@;
            let fa = "\n"@ + "export const "@ + "delete"@;
            let fb = " = async ("@ + fb0;
            assert(controller_fragment_of(m) =~= fa + "$NAME$"@ + fb);
            assert(no_pair_start(fa, "$NAME$"@));
            assert(no_pair_start(fb, "$NAME$"@));
            lemma_render_step(fa, fb, name);
            lemma_render_plain(fb, name);
            assert(substitute_name(controller_fragment_of(m), name) =~= "\n"@ + ("export const "@
                + lower_of(m) + name + " = async ("@) + fb0);
        },
    }
}

/// Fragments of two method lists, one after the other, are the fragments of
/// the joined list.
proof fn lemma_fragments_concat(a: Seq<HttpMethod>, b: Seq<HttpMethod>, name: Seq<char>)
    ensures
        fragments_rendered(a + b, name) == fragments_rendered(a, name) + fragments_rendered(b, name),
    decreases b.len(),
{
    if b.len() == 0 {
        assert(a + b =~= a);
        assert(fragments_rendered(a, name) + fragments_rendered(b, name) =~= fragments_rendered(a, name));
    } else {
        assert((a + b).drop_last() =~= a + b.drop_last());
        lemma_fragments_concat(a, b.drop_last(), name);
    }
}

/// `controller.ts` starts with the shared preamble for the resource: its
/// base URL constant ends in the PascalCase name, as in
/// ``const API_RESSOURCE = `${API_V4_URL}/User`;``; and for every selected
/// method it declares that method's fetch function, e.g.
/// `export const getUser = async (`.
pub proof fn lemma_controller_for_the_resource(ms: Seq<HttpMethod>, name: Seq<char>)
    ensures
        starts_with(
            controller_content(ms, name),
            "import { API_V4_URL } from '@/config/api';\n\nconst API_RESSOURCE = `${API_V4_URL}/"@ + name + "`;\nconst DYNAMIC_PARAMS = '';\n"@,
        ),
        forall|i: int|
            0 <= i < ms.len() ==> occurs_in(
                controller_content(ms, name),
                "export const "@ + lower_of(#[trigger] ms[i]) + name + " = async ("@,
            ),
{
    reveal_strlit("import { API_V4_URL } from '@/config/api';\n\nconst API_RESSOURCE = `${API_V4_URL}/$NAME$`;\nconst DYNAMIC_PARAMS = '';\n");
    reveal_strlit("import { API_V4_URL } from '@/config/api';\n\nconst API_RESSOURCE = `${API_V4_URL}/");
    reveal_strlit("`;\nconst DYNAMIC_PARAMS = '';\n");
    reveal_strlit("$NAME$");
    let a = "import { API_V4_URL } from '@/config/api';\n\nconst API_RESSOURCE = `${API_V4_URL}/"@;
    let b = "`;\nconst DYNAMIC_PARAMS = '';\n"@;
    assert(CONTROLLER_PREAMBLE@ =~= a + "$NAME$"@ + b);
    assert(no_pair_start(a, "$NAME$"@));
    assert(no_pair_start(b, "$NAME$"@));
    lemma_render_step(a, b, name);
    lemma_render_plain(b, name);
    let p = a + name + b;
    assert(controller_content(ms, name) =~= p + fragments_rendered(ms, name));
    assert(controller_content(ms, name).take(p.len() as int) =~= p);
    assert forall|i: int| 0 <= i < ms.len() implies occurs_in(
        controller_content(ms, name),
        "export const "@ + lower_of(#[trigger] ms[i]) + name + " = async ("@,
    ) by {
        let pre = ms.take(i);
        let one = seq![ms[i]];
        let post = ms.skip(i + 1);
        assert(ms =~= pre + one + post);
        lemma_fragments_concat(pre + one, post, name);
        lemma_fragments_concat(pre, one, name);
        assert(one.drop_last() =~= Seq::<HttpMethod>::empty());
        assert(one.last() == ms[i]);
        assert(fragments_rendered(one.drop_last(), name) =~= Seq::<char>::empty());
        lemma_fragment_declares(ms[i], name);
        let fb0 = choose|fb0: Seq<char>|
            substitute_name(controller_fragment_of(ms[i]), name) == "\n"@ + ("export const "@
                + lower_of(ms[i]) + name + " = async ("@) + fb0;
        let x = "export const "@ + lower_of(ms[i]) + name + " = async ("@;
        assert(fragments_rendered(one, name) =~= "\n"@ + x + fb0);
        assert(controller_content(ms, name) =~= (p + fragments_rendered(pre, name) + "\n"@) + x + (fb0
            + fragments_rendered(post, name)));
        lemma_occurs_in_middle(p + fragments_rendered(pre, name) + "\n"@, x, fb0 + fragments_rendered(post, name));
    }
}

} // verus!
