//! The embedded file templates. Every `$NAME$` token is replaced by the
//! PascalCase resource name when a file is rendered.

use vstd::prelude::*;

use crate::domain::http_method::{controller_fragment_of, route_export_of, route_import_of, HttpMethod};
use crate::text::{lemma_absent_char, lemma_absent_triple, lemma_only_at_start, occurs_in, occurs_only_at_start};

verus! {

/// Shared preamble of `controller.ts`: imports and constants, emitted once.
pub const CONTROLLER_PREAMBLE: &'static str = "import { API_V4_URL } from '@/config/api';\n\nconst API_RESSOURCE = `${API_V4_URL}/$NAME$`;\nconst DYNAMIC_PARAMS = '';\n";

/// `GET.ts` handler.
pub const HANDLER_GET: &'static str = "import { NextRequest, NextResponse } from 'next/server';\nimport { BaseApiHandler } from '@/lib/api/BaseApiHandler';\n\nclass Get$NAME$Handler extends BaseApiHandler {\n  protected async handle(req: NextRequest): Promise<NextResponse> {\n    return NextResponse.json({ data: null }, { status: 200 });\n  }\n}\n\nexport const get$NAME$Handler = new Get$NAME$Handler();\n";

/// `POST.ts` handler.
pub const HANDLER_POST: &'static str = "import { NextRequest, NextResponse } from 'next/server';\nimport { BaseApiHandler } from '@/lib/api/BaseApiHandler';\n\nclass Post$NAME$Handler extends BaseApiHandler {\n  protected async handle(req: NextRequest): Promise<NextResponse> {\n    const body = await req.json();\n    return NextResponse.json({ data: body }, { status: 201 });\n  }\n}\n\nexport const post$NAME$Handler = new Post$NAME$Handler();\n";

/// `PUT.ts` handler.
pub const HANDLER_PUT: &'static str = "import { NextRequest, NextResponse } from 'next/server';\nimport { BaseApiHandler } from '@/lib/api/BaseApiHandler';\n\nclass Put$NAME$Handler extends BaseApiHandler {\n  protected async handle(req: NextRequest): Promise<NextResponse> {\n    const body = await req.json();\n    return NextResponse.json({ data: body }, { status: 200 });\n  }\n}\n\nexport const put$NAME$Handler = new Put$NAME$Handler();\n";

/// `DELETE.ts` handler.
pub const HANDLER_DELETE: &'static str = "import { NextRequest, NextResponse } from 'next/server';\nimport { BaseApiHandler } from '@/lib/api/BaseApiHandler';\n\nclass Delete$NAME$Handler extends BaseApiHandler {\n  protected async handle(req: NextRequest): Promise<NextResponse> {\n    return new NextResponse(null, { status: 204 });\n  }\n}\n\nexport const delete$NAME$Handler = new Delete$NAME$Handler();\n";

/// Client fetch function for `GET`, appended to the controller.
pub const CONTROLLER_GET: &'static str = "\nexport const get$NAME$ = async (id?: string): Promise<Response> => {\n  return fetch(`${API_RESSOURCE}${id ? `/${id}` : DYNAMIC_PARAMS}`, {\n    method: 'GET',\n  });\n};\n";

/// Client fetch function for `POST`, appended to the controller.
pub const CONTROLLER_POST: &'static str = "\nexport const post$NAME$ = async (body: unknown): Promise<Response> => {\n  return fetch(`${API_RESSOURCE}${DYNAMIC_PARAMS}`, {\n    method: 'POST',\n    headers: { 'Content-Type': 'application/json' },\n    body: JSON.stringify(body),\n  });\n};\n";

/// Client fetch function for `PUT`, appended to the controller.
pub const CONTROLLER_PUT: &'static str = "\nexport const put$NAME$ = async (id: string, body: unknown): Promise<Response> => {\n  return fetch(`${API_RESSOURCE}/${id}`, {\n    method: 'PUT',\n    headers: { 'Content-Type': 'application/json' },\n    body: JSON.stringify(body),\n  });\n};\n";

/// Client fetch function for `DELETE`, appended to the controller.
pub const CONTROLLER_DELETE: &'static str = "\nexport const delete$NAME$ = async (id: string): Promise<Response> => {\n  return fetch(`${API_RESSOURCE}/${id}`, {\n    method: 'DELETE',\n  });\n};\n";

/// `route.ts` import line for `GET`.
pub const ROUTE_IMPORT_GET: &'static str = "import { get$NAME$Handler } from './GET';\n";

/// `route.ts` import line for `POST`.
pub const ROUTE_IMPORT_POST: &'static str = "import { post$NAME$Handler } from './POST';\n";

/// `route.ts` import line for `PUT`.
pub const ROUTE_IMPORT_PUT: &'static str = "import { put$NAME$Handler } from './PUT';\n";

/// `route.ts` import line for `DELETE`.
pub const ROUTE_IMPORT_DELETE: &'static str = "import { delete$NAME$Handler } from './DELETE';\n";

/// `route.ts` export line for `GET`.
pub const ROUTE_EXPORT_GET: &'static str = "export const GET = get$NAME$Handler.toRoute();\n";

/// `route.ts` export line for `POST`.
pub const ROUTE_EXPORT_POST: &'static str = "export const POST = post$NAME$Handler.toRoute();\n";

/// `route.ts` export line for `PUT`.
pub const ROUTE_EXPORT_PUT: &'static str = "export const PUT = put$NAME$Handler.toRoute();\n";

/// `route.ts` export line for `DELETE`.
pub const ROUTE_EXPORT_DELETE: &'static str = "export const DELETE = delete$NAME$Handler.toRoute();\n";


/// No controller fragment repeats a line of the shared preamble, so the
/// preamble appears once in `controller.ts` whatever the methods.
pub proof fn lemma_fragment_has_no_preamble(m: HttpMethod)
    ensures
        !occurs_in(controller_fragment_of(m), "import { API_V4_URL }"@),
        !occurs_in(controller_fragment_of(m), "const API_RESSOURCE"@),
        !occurs_in(controller_fragment_of(m), "const DYNAMIC_PARAMS"@),
{
    reveal_strlit("import { API_V4_URL }");
    reveal_strlit("const API_RESSOURCE");
    reveal_strlit("const DYNAMIC_PARAMS");
    match m {
        HttpMethod::Get => {
            reveal_strlit("\nexport const get$NAME$ = async (id?: string): Promise<Response> => {\n  return fetch(`${API_RESSOURCE}${id ? `/${id}` : DYNAMIC_PARAMS}`, {\n    method: 'GET',\n  });\n};\n");
        },
        HttpMethod::Post => {
            reveal_strlit("\nexport const post$NAME$ = async (body: unknown): Promise<Response> => {\n  return fetch(`${API_RESSOURCE}${DYNAMIC_PARAMS}`, {\n    method: 'POST',\n    headers: { 'Content-Type': 'application/json' },\n    body: JSON.stringify(body),\n  });\n};\n");
        },
        HttpMethod::Put => {
            reveal_strlit("\nexport const put$NAME$ = async (id: string, body: unknown): Promise<Response> => {\n  return fetch(`${API_RESSOURCE}/${id}`, {\n    method: 'PUT',\n    headers: { 'Content-Type': 'application/json' },\n    body: JSON.stringify(body),\n  });\n};\n");
        },
        HttpMethod::Delete => {
            reveal_strlit("\nexport const delete$NAME$ = async (id: string): Promise<Response> => {\n  return fetch(`${API_RESSOURCE}/${id}`, {\n    method: 'DELETE',\n  });\n};\n");
        },
    }
    let f = controller_fragment_of(m);
    lemma_absent_char(f, "import { API_V4_URL }"@, 14);
    lemma_absent_triple(f, "const API_RESSOURCE"@, 4);
    lemma_absent_triple(f, "const DYNAMIC_PARAMS"@, 4);
}

/// Each `route.ts` import line holds one import, at its start, and no
/// export.
pub proof fn lemma_route_import_is_one_import(m: HttpMethod)
    ensures
        occurs_only_at_start(route_import_of(m), "import {"@),
        !occurs_in(route_import_of(m), "export const"@),
{
    reveal_strlit("import {");
    reveal_strlit("export const");
    match m {
        HttpMethod::Get => {
            reveal_strlit("import { get$NAME$Handler } from './GET';\n");
        },
        HttpMethod::Post => {
            reveal_strlit("import { post$NAME$Handler } from './POST';\n");
        },
        HttpMethod::Put => {
            reveal_strlit("import { put$NAME$Handler } from './PUT';\n");
        },
        HttpMethod::Delete => {
            reveal_strlit("import { delete$NAME$Handler } from './DELETE';\n");
        },
    }
    let l = route_import_of(m);
    assert(l.take(8) =~= "import {"@);
    lemma_only_at_start(l, "import {"@, 0);
    lemma_absent_char(l, "export const"@, 1);
}

/// Each `route.ts` export line holds one export, at its start, and no
/// import.
pub proof fn lemma_route_export_is_one_export(m: HttpMethod)
    ensures
        occurs_only_at_start(route_export_of(m), "export const"@),
        !occurs_in(route_export_of(m), "import {"@),
{
    reveal_strlit("import {");
    reveal_strlit("export const");
    match m {
        HttpMethod::Get => {
            reveal_strlit("export const GET = get$NAME$Handler.toRoute();\n");
        },
        HttpMethod::Post => {
            reveal_strlit("export const POST = post$NAME$Handler.toRoute();\n");
        },
        HttpMethod::Put => {
            reveal_strlit("export const PUT = put$NAME$Handler.toRoute();\n");
        },
        HttpMethod::Delete => {
            reveal_strlit("export const DELETE = delete$NAME$Handler.toRoute();\n");
        },
    }
    let l = route_export_of(m);
    assert(l.take(12) =~= "export const"@);
    lemma_only_at_start(l, "export const"@, 1);
    lemma_absent_char(l, "import {"@, 0);
}

} // verus!
