use next::domain::http_method::HttpMethod;
use next::domain::request::GenerationRequest;
use next::domain::resource_name::ResourceName;
use next::generation::artifact::{Artifact, FileArtifact};
use next::generation::controller::ControllerArtifact;
use next::generation::handler::HandlerArtifact;
use next::generation::plan::build_artifacts;
use next::generation::renderer::{NamePlaceholderRenderer, TemplateRenderer};
use next::generation::route::RouteArtifact;

fn req(methods: Vec<HttpMethod>) -> GenerationRequest {
    GenerationRequest::new(
        ResourceName::parse("user").unwrap(),
        methods,
        String::from("."),
        false,
    )
    .unwrap()
}

#[test]
fn preamble_appears_exactly_once_with_all_methods() {
    let methods = HttpMethod::all().to_vec();
    let a = ControllerArtifact {
        methods: methods.clone(),
    };
    let out = a.render(&req(methods)).unwrap();
    assert_eq!(out.matches("import { API_V4_URL }").count(), 1);
    assert_eq!(out.matches("const API_RESSOURCE").count(), 1);
    assert_eq!(out.matches("const DYNAMIC_PARAMS").count(), 1);
}

#[test]
fn one_fetch_fn_per_method() {
    let methods = HttpMethod::all().to_vec();
    let a = ControllerArtifact {
        methods: methods.clone(),
    };
    let out = a.render(&req(methods)).unwrap();
    assert!(out.contains("export const getUser ="));
    assert!(out.contains("export const postUser ="));
    assert!(out.contains("export const putUser ="));
    assert!(out.contains("export const deleteUser ="));
    assert!(!out.contains("$NAME$"));
}

#[test]
fn controller_starts_with_preamble_then_fragments_in_order() {
    let methods = vec![HttpMethod::Put, HttpMethod::Get];
    let a = ControllerArtifact {
        methods: methods.clone(),
    };
    let out = a.render(&req(methods)).unwrap();
    assert!(out.starts_with("import { API_V4_URL }"));
    let put = out.find("export const putUser =").unwrap();
    let get = out.find("export const getUser =").unwrap();
    assert!(put < get);
    assert_eq!(a.relative_path(), "controller.ts");
}

#[test]
fn path_uses_upper_method() {
    let a = HandlerArtifact {
        method: HttpMethod::Get,
    };
    assert_eq!(a.relative_path(), "GET.ts");
}

#[test]
fn render_contains_class_and_export() {
    let a = HandlerArtifact {
        method: HttpMethod::Get,
    };
    let out = a.render(&req(vec![HttpMethod::Get])).unwrap();
    assert!(out.contains("class GetUserHandler"));
    assert!(out.contains("export const getUserHandler"));
    assert!(!out.contains("$NAME$"));
}

#[test]
fn handler_paths_for_every_method() {
    let paths: Vec<String> = HttpMethod::all()
        .iter()
        .map(|m| HandlerArtifact { method: *m }.relative_path())
        .collect();
    assert_eq!(paths, vec!["GET.ts", "POST.ts", "PUT.ts", "DELETE.ts"]);
}

#[test]
fn produces_handlers_plus_controller_and_route() {
    let req = req(vec![HttpMethod::Get, HttpMethod::Post]);
    let paths: Vec<String> = build_artifacts(&req)
        .iter()
        .map(|a| a.relative_path())
        .collect();
    assert_eq!(
        paths,
        vec!["GET.ts", "POST.ts", "controller.ts", "route.ts"]
    );
}

#[test]
fn plan_kinds_follow_the_methods() {
    let req = req(vec![HttpMethod::Post, HttpMethod::Delete]);
    let arts = build_artifacts(&req);
    assert_eq!(arts.len(), 4);
    assert!(matches!(&arts[0], Artifact::Handler(h) if h.method == HttpMethod::Post));
    assert!(matches!(&arts[1], Artifact::Handler(h) if h.method == HttpMethod::Delete));
    assert!(matches!(&arts[2], Artifact::Controller(c) if c.methods == req.methods));
    assert!(matches!(&arts[3], Artifact::Route(r) if r.methods == req.methods));
}

#[test]
fn substitutes_pascal_name() {
    let name = ResourceName::parse("user-profile").unwrap();
    let out = NamePlaceholderRenderer.render("class $NAME$Handler", &name);
    assert_eq!(out, "class UserProfileHandler");
}

#[test]
fn leaves_non_token_text_untouched() {
    let name = ResourceName::parse("user").unwrap();
    let out = NamePlaceholderRenderer.render("no token here", &name);
    assert_eq!(out, "no token here");
}

#[test]
fn replaces_every_occurrence() {
    let name = ResourceName::parse("user").unwrap();
    let out = NamePlaceholderRenderer.render("$NAME$ and $NAME$", &name);
    assert_eq!(out, "User and User");
}

#[test]
fn replacement_scans_left_to_right_without_overlap() {
    let name = ResourceName::parse("user").unwrap();
    assert_eq!(NamePlaceholderRenderer.render("$NAME$NAME$", &name), "UserNAME$");
    assert_eq!(NamePlaceholderRenderer.render("$$NAME$$", &name), "$User$");
    assert_eq!(NamePlaceholderRenderer.render("$NAME", &name), "$NAME");
    assert_eq!(NamePlaceholderRenderer.render("", &name), "");
}

#[test]
fn one_import_and_export_per_method() {
    let methods = vec![HttpMethod::Get, HttpMethod::Post];
    let a = RouteArtifact {
        methods: methods.clone(),
    };
    let out = a.render(&req(methods)).unwrap();
    assert_eq!(out.matches("import {").count(), 2);
    assert_eq!(out.matches("export const").count(), 2);
    assert!(out.contains("import { getUserHandler } from './GET';"));
    assert!(out.contains("export const POST = postUserHandler.toRoute();"));
    assert!(!out.contains("$NAME$"));
}

#[test]
fn route_has_imports_blank_line_then_exports() {
    let methods = vec![HttpMethod::Delete];
    let a = RouteArtifact {
        methods: methods.clone(),
    };
    let out = a.render(&req(methods)).unwrap();
    assert_eq!(
        out,
        "import { deleteUserHandler } from './DELETE';\n\nexport const DELETE = deleteUserHandler.toRoute();\n"
    );
    assert_eq!(a.relative_path(), "route.ts");
}
