//! One handler file per selected method (`GET.ts`, `POST.ts`, ...).

use vstd::prelude::*;
use vstd::string::StringExecFns;

use crate::domain::http_method::{handler_template_of, upper_of, HttpMethod};
use crate::domain::request::GenerationRequest;
use crate::error::CliError;
use crate::generation::artifact::FileArtifact;
use crate::generation::renderer::{
    lemma_render_plain, lemma_render_step, substitute_name, NamePlaceholderRenderer, TemplateRenderer,
};
use crate::generation::route::lower_of;
use crate::text::{ends_with, lemma_occurs_in_middle, no_pair_start, occurs_in};

verus! {

/// File name of the handler of `m`, e.g. `GET.ts`.
pub open spec fn handler_file_name(m: HttpMethod) -> Seq<char> {
    upper_of(m) + ".ts"@
}

/// Contents of the handler of `m` for the resource name `name`.
pub open spec fn handler_content(m: HttpMethod, name: Seq<char>) -> Seq<char> {
    substitute_name(handler_template_of(m), name)
}

/// The handler file of one method.
pub struct HandlerArtifact {
    pub method: HttpMethod,
}

impl FileArtifact for HandlerArtifact {
    open spec fn path_of(&self) -> Seq<char> {
        handler_file_name(self.method)
    }

    open spec fn content_for(&self, name: Seq<char>) -> Seq<char> {
        handler_content(self.method, name)
    }

    fn relative_path(&self) -> (r: String) {
        let mut s = String::from_str(self.method.upper());
        s.append(".ts");
        s
    }

    fn render(&self, req: &GenerationRequest) -> (r: Result<String, CliError>) {
        Ok(NamePlaceholderRenderer.render(self.method.handler_template(), &req.name))
    }
}


/// Title-case name of a method, as it starts handler class names.
pub open spec fn title_of(m: HttpMethod) -> Seq<char> {
    match m {
        HttpMethod::Get => "Get"@,
        HttpMethod::Post => "Post"@,
        HttpMethod::Put => "Put"@,
        HttpMethod::Delete => "Delete"@,
    }
}

/// A handler template made of `a0`, the class declaration, `b1`, the export:
/// `<a0>class <M>$NAME$Handler extends BaseApiHandler<b1>export const
/// <m>$NAME$Handler = new <M>$NAME$Handler();\n`.
spec fn handler_shape(m: HttpMethod, a0: Seq<char>, b1: Seq<char>) -> Seq<char> {
    let tok = "$NAME$"@;
    (a0 + ("class "@ + title_of(m))) + tok + (("Handler extends BaseApiHandler"@ + b1 + ("export const "@
        + lower_of(m))) + tok + (("Handler = new "@ + title_of(m)) + tok + "Handler();\n"@))
}

/// The template of `m` has the shape above, with no `$NAME$` starting
/// inside its fixed parts.
spec fn handler_parts(m: HttpMethod, a0: Seq<char>, b1: Seq<char>) -> bool {
    let tok = "$NAME$"@;
    &&& handler_template_of(m) == handler_shape(m, a0, b1)
    &&& no_pair_start(a0 + ("class "@ + title_of(m)), tok)
    &&& no_pair_start("Handler extends BaseApiHandler"@ + b1 + ("export const "@ + lower_of(m)), tok)
    &&& no_pair_start("Handler = new "@ + title_of(m), tok)
    &&& no_pair_start("Handler();\n"@, tok)
}

/// A template of that shape renders to a class declaration for the name and
/// ends with the export of its instance.
proof fn lemma_handler_parts_render(m: HttpMethod, a0: Seq<char>, b1: Seq<char>, name: Seq<char>)
    requires
        handler_parts(m, a0, b1),
    ensures
        occurs_in(handler_content(m, name), "class "@ + title_of(m) + name + "Handler extends BaseApiHandler"@),
        ends_with(
            handler_content(m, name),
            "export const "@ + lower_of(m) + name + "Handler = new "@ + title_of(m) + name + "Handler();\n"@,
        ),
{
    let tok = "$NAME$"@;
    let a = a0 + ("class "@ + title_of(m));
    let b = "Handler extends BaseApiHandler"@ + b1 + ("export const "@ + lower_of(m));
    let c = "Handler = new "@ + title_of(m);
    let d = "Handler();\n"@;
    lemma_render_step(a, b + tok + (c + tok + d), name);
    lemma_render_step(b, c + tok + d, name);
    lemma_render_step(c, d, name);
    lemma_render_plain(d, name);
    let rendered = a + name + (b + name + (c + name + d));
    assert(handler_content(m, name) == rendered);
    let cls = "class "@ + title_of(m) + name + "Handler extends BaseApiHandler"@;
    let tail = b1 + ("export const "@ + lower_of(m)) + name + c + name + d;
    assert(rendered =~= a0 + cls + tail);
    lemma_occurs_in_middle(a0, cls, tail);
    let exp = "export const "@ + lower_of(m) + name + "Handler = new "@ + title_of(m) + name + "Handler();\n"@;
    let front = a0 + ("class "@ + title_of(m)) + name + "Handler extends BaseApiHandler"@ + b1;
    assert(rendered =~= front + exp);
    assert(rendered.skip(rendered.len() - exp.len()) =~= exp);
}

/// The `GET` handler template in its parts.
proof fn lemma_handler_template_get()
    ensures
        handler_parts(HttpMethod::Get, "import { NextRequest, NextResponse } from 'next/server';\nimport { BaseApiHandler } from '@/lib/api/BaseApiHandler';\n\n"@, " {\n  protected async handle(req: NextRequest): Promise<NextResponse> {\n    return NextResponse.json({ data: null }, { status: 200 });\n  }\n}\n\n"@),
{
    reveal_strlit("import { NextRequest, NextResponse } from 'next/server';\nimport { BaseApiHandler } from '@/lib/api/BaseApiHandler';\n\nclass Get$NAME$Handler extends BaseApiHandler {\n  protected async handle(req: NextRequest): Promise<NextResponse> {\n    return NextResponse.json({ data: null }, { status: 200 });\n  }\n}\n\nexport const get$NAME$Handler = new Get$NAME$Handler();\n");
    reveal_strlit("import { NextRequest, NextResponse } from 'next/server';\nimport { BaseApiHandler } from '@/lib/api/BaseApiHandler';\n\n");
    reveal_strlit(" {\n  protected async handle(req: NextRequest): Promise<NextResponse> {\n    return NextResponse.json({ data: null }, { status: 200 });\n  }\n}\n\n");
    reveal_strlit("get");
    reveal_strlit("Get");
    reveal_strlit("class ");
    reveal_strlit("Handler extends BaseApiHandler");
    reveal_strlit("export const ");
    reveal_strlit("Handler = new ");
    reveal_strlit("Handler();\n");
    reveal_strlit("$NAME$");
    let tok = "$NAME$"@;
    assert(handler_template_of(HttpMethod::Get) =~= handler_shape(HttpMethod::Get, "import { NextRequest, NextResponse } from 'next/server';\nimport { BaseApiHandler } from '@/lib/api/BaseApiHandler';\n\n"@, " {\n  protected async handle(req: NextRequest): Promise<NextResponse> {\n    return NextResponse.json({ data: null }, { status: 200 });\n  }\n}\n\n"@));
    assert(no_pair_start("import { NextRequest, NextResponse } from 'next/server';\nimport { BaseApiHandler } from '@/lib/api/BaseApiHandler';\n\n"@ + ("class "@ + "Get"@), tok));
    assert(no_pair_start("Handler extends BaseApiHandler"@ + " {\n  protected async handle(req: NextRequest): Promise<NextResponse> {\n    return NextResponse.json({ data: null }, { status: 200 });\n  }\n}\n\n"@ + ("export const "@ + "get"@), tok));
    assert(no_pair_start("Handler = new "@ + "Get"@, tok));
    assert(no_pair_start("Handler();\n"@, tok));
}

/// The `POST` handler template in its parts.
proof fn lemma_handler_template_post()
    ensures
        handler_parts(HttpMethod::Post, "import { NextRequest, NextResponse } from 'next/server';\nimport { BaseApiHandler } from '@/lib/api/BaseApiHandler';\n\n"@, " {\n  protected async handle(req: NextRequest): Promise<NextResponse> {\n    const body = await req.json();\n    return NextResponse.json({ data: body }, { status: 201 });\n  }\n}\n\n"@),
{
    reveal_strlit("import { NextRequest, NextResponse } from 'next/server';\nimport { BaseApiHandler } from '@/lib/api/BaseApiHandler';\n\nclass Post$NAME$Handler extends BaseApiHandler {\n  protected async handle(req: NextRequest): Promise<NextResponse> {\n    const body = await req.json();\n    return NextResponse.json({ data: body }, { status: 201 });\n  }\n}\n\nexport const post$NAME$Handler = new Post$NAME$Handler();\n");
    reveal_strlit("import { NextRequest, NextResponse } from 'next/server';\nimport { BaseApiHandler } from '@/lib/api/BaseApiHandler';\n\n");
    reveal_strlit(" {\n  protected async handle(req: NextRequest): Promise<NextResponse> {\n    const body = await req.json();\n    return NextResponse.json({ data: body }, { status: 201 });\n  }\n}\n\n");
    reveal_strlit("post");
    reveal_strlit("Post");
    reveal_strlit("class ");
    reveal_strlit("Handler extends BaseApiHandler");
    reveal_strlit("export const ");
    reveal_strlit("Handler = new ");
    reveal_strlit("Handler();\n");
    reveal_strlit("$NAME$");
    let tok = "$NAME$"@;
    assert(handler_template_of(HttpMethod::Post) =~= handler_shape(HttpMethod::Post, "import { NextRequest, NextResponse } from 'next/server';\nimport { BaseApiHandler } from '@/lib/api/BaseApiHandler';\n\n"@, " {\n  protected async handle(req: NextRequest): Promise<NextResponse> {\n    const body = await req.json();\n    return NextResponse.json({ data: body }, { status: 201 });\n  }\n}\n\n"@));
    assert(no_pair_start("import { NextRequest, NextResponse } from 'next/server';\nimport { BaseApiHandler } from '@/lib/api/BaseApiHandler';\n\n"@ + ("class "@ + "Post"@), tok));
    assert(no_pair_start("Handler extends BaseApiHandler"@ + " {\n  protected async handle(req: NextRequest): Promise<NextResponse> {\n    const body = await req.json();\n    return NextResponse.json({ data: body }, { status: 201 });\n  }\n}\n\n"@ + ("export const "@ + "post"@), tok));
    assert(no_pair_start("Handler = new "@ + "Post"@, tok));
    assert(no_pair_start("Handler();\n"@, tok));
}

/// The `PUT` handler template in its parts.
proof fn lemma_handler_template_put()
    ensures
        handler_parts(HttpMethod::Put, "import { NextRequest, NextResponse } from 'next/server';\nimport { BaseApiHandler } from '@/lib/api/BaseApiHandler';\n\n"@, " {\n  protected async handle(req: NextRequest): Promise<NextResponse> {\n    const body = await req.json();\n    return NextResponse.json({ data: body }, { status: 200 });\n  }\n}\n\n"@),
{
    reveal_strlit("import { NextRequest, NextResponse } from 'next/server';\nimport { BaseApiHandler } from '@/lib/api/BaseApiHandler';\n\nclass Put$NAME$Handler extends BaseApiHandler {\n  protected async handle(req: NextRequest): Promise<NextResponse> {\n    const body = await req.json();\n    return NextResponse.json({ data: body }, { status: 200 });\n  }\n}\n\nexport const put$NAME$Handler = new Put$NAME$Handler();\n");
    reveal_strlit("import { NextRequest, NextResponse } from 'next/server';\nimport { BaseApiHandler } from '@/lib/api/BaseApiHandler';\n\n");
    reveal_strlit(" {\n  protected async handle(req: NextRequest): Promise<NextResponse> {\n    const body = await req.json();\n    return NextResponse.json({ data: body }, { status: 200 });\n  }\n}\n\n");
    reveal_strlit("put");
    reveal_strlit("Put");
    reveal_strlit("class ");
    reveal_strlit("Handler extends BaseApiHandler");
    reveal_strlit("export const ");
    reveal_strlit("Handler = new ");
    reveal_strlit("Handler();\n");
    reveal_strlit("$NAME$");
    let tok = "$NAME$"@;
    assert(handler_template_of(HttpMethod::Put) =~= handler_shape(HttpMethod::Put, "import { NextRequest, NextResponse } from 'next/server';\nimport { BaseApiHandler } from '@/lib/api/BaseApiHandler';\n\n"@, " {\n  protected async handle(req: NextRequest): Promise<NextResponse> {\n    const body = await req.json();\n    return NextResponse.json({ data: body }, { status: 200 });\n  }\n}\n\n"@));
    assert(no_pair_start("import { NextRequest, NextResponse } from 'next/server';\nimport { BaseApiHandler } from '@/lib/api/BaseApiHandler';\n\n"@ + ("class "@ + "Put"@), tok));
    assert(no_pair_start("Handler extends BaseApiHandler"@ + " {\n  protected async handle(req: NextRequest): Promise<NextResponse> {\n    const body = await req.json();\n    return NextResponse.json({ data: body }, { status: 200 });\n  }\n}\n\n"@ + ("export const "@ + "put"@), tok));
    assert(no_pair_start("Handler = new "@ + "Put"@, tok));
    assert(no_pair_start("Handler();\n"@, tok));
}

/// The `DELETE` handler template in its parts.
proof fn lemma_handler_template_delete()
    ensures
        handler_parts(HttpMethod::Delete, "import { NextRequest, NextResponse } from 'next/server';\nimport { BaseApiHandler } from '@/lib/api/BaseApiHandler';\n\n"@, " {\n  protected async handle(req: NextRequest): Promise<NextResponse> {\n    return new NextResponse(null, { status: 204 });\n  }\n}\n\n"@),
{
    reveal_strlit("import { NextRequest, NextResponse } from 'next/server';\nimport { BaseApiHandler } from '@/lib/api/BaseApiHandler';\n\nclass Delete$NAME$Handler extends BaseApiHandler {\n  protected async handle(req: NextRequest): Promise<NextResponse> {\n    return new NextResponse(null, { status: 204 });\n  }\n}\n\nexport const delete$NAME$Handler = new Delete$NAME$Handler();\n");
    reveal_strlit("import { NextRequest, NextResponse } from 'next/server';\nimport { BaseApiHandler } from '@/lib/api/BaseApiHandler';\n\n");
    reveal_strlit(" {\n  protected async handle(req: NextRequest): Promise<NextResponse> {\n    return new NextResponse(null, { status: 204 });\n  }\n}\n\n");
    reveal_strlit("delete");
    reveal_strlit("Delete");
    reveal_strlit("class ");
    reveal_strlit("Handler extends BaseApiHandler");
    reveal_strlit("export const ");
    reveal_strlit("Handler = new ");
    reveal_strlit("Handler();\n");
    reveal_strlit("$NAME$");
    let tok = "$NAME$"@;
    assert(handler_template_of(HttpMethod::Delete) =~= handler_shape(HttpMethod::Delete, "import { NextRequest, NextResponse } from 'next/server';\nimport { BaseApiHandler } from '@/lib/api/BaseApiHandler';\n\n"@, " {\n  protected async handle(req: NextRequest): Promise<NextResponse> {\n    return new NextResponse(null, { status: 204 });\n  }\n}\n\n"@));
    assert(no_pair_start("import { NextRequest, NextResponse } from 'next/server';\nimport { BaseApiHandler } from '@/lib/api/BaseApiHandler';\n\n"@ + ("class "@ + "Delete"@), tok));
    assert(no_pair_start("Handler extends BaseApiHandler"@ + " {\n  protected async handle(req: NextRequest): Promise<NextResponse> {\n    return new NextResponse(null, { status: 204 });\n  }\n}\n\n"@ + ("export const "@ + "delete"@), tok));
    assert(no_pair_start("Handler = new "@ + "Delete"@, tok));
    assert(no_pair_start("Handler();\n"@, tok));
}

/// The handler file of each method declares that method's own handler class
/// and ends by exporting its instance under the name `route.ts` imports from
/// it: for `PUT` and `User`, `class PutUserHandler extends BaseApiHandler`
/// and finally `export const putUserHandler = new PutUserHandler();`.
pub proof fn lemma_handler_declares_its_method(m: HttpMethod, name: Seq<char>)
    ensures
        occurs_in(handler_content(m, name), "class "@ + title_of(m) + name + "Handler extends BaseApiHandler"@),
        ends_with(
            handler_content(m, name),
            "export const "@ + lower_of(m) + name + "Handler = new "@ + title_of(m) + name + "Handler();\n"@,
        ),
{
    match m {
        HttpMethod::Get => {
            lemma_handler_template_get();
            lemma_handler_parts_render(m, "import { NextRequest, NextResponse } from 'next/server';\nimport { BaseApiHandler } from '@/lib/api/BaseApiHandler';\n\n"@, " {\n  protected async handle(req: NextRequest): Promise<NextResponse> {\n    return NextResponse.json({ data: null }, { status: 200 });\n  }\n}\n\n"@, name);
        },
        HttpMethod::Post => {
            lemma_handler_template_post();
            lemma_handler_parts_render(m, "import { NextRequest, NextResponse } from 'next/server';\nimport { BaseApiHandler } from '@/lib/api/BaseApiHandler';\n\n"@, " {\n  protected async handle(req: NextRequest): Promise<NextResponse> {\n    const body = await req.json();\n    return NextResponse.json({ data: body }, { status: 201 });\n  }\n}\n\n"@, name);
        },
        HttpMethod::Put => {
            lemma_handler_template_put();
            lemma_handler_parts_render(m, "import { NextRequest, NextResponse } from 'next/server';\nimport { BaseApiHandler } from '@/lib/api/BaseApiHandler';\n\n"@, " {\n  protected async handle(req: NextRequest): Promise<NextResponse> {\n    const body = await req.json();\n    return NextResponse.json({ data: body }, { status: 200 });\n  }\n}\n\n"@, name);
        },
        HttpMethod::Delete => {
            lemma_handler_template_delete();
            lemma_handler_parts_render(m, "import { NextRequest, NextResponse } from 'next/server';\nimport { BaseApiHandler } from '@/lib/api/BaseApiHandler';\n\n"@, " {\n  protected async handle(req: NextRequest): Promise<NextResponse> {\n    return new NextResponse(null, { status: 204 });\n  }\n}\n\n"@, name);
        },
    }
}

} // verus!
