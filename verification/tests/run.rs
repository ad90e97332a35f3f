use next::domain::http_method::HttpMethod;
use next::domain::request::GenerationRequest;
use next::domain::resource_name::ResourceName;
use next::error::CliError;
use next::io::writer::{FileSystem, InMemoryFs};
use next::run::run;
use next::text::join_path_str;
use std::path::Path;

fn req(force: bool) -> GenerationRequest {
    GenerationRequest::new(
        ResourceName::parse("user").unwrap(),
        vec![HttpMethod::Get, HttpMethod::Post],
        String::from("api"),
        force,
    )
    .unwrap()
}

fn get(fs: &InMemoryFs, path: &str) -> Option<String> {
    fs.entries()
        .into_iter()
        .find(|(p, _)| p == path)
        .map(|(_, c)| c)
}

#[test]
fn writes_expected_file_set() {
    let mut fs = InMemoryFs::new();
    let report = run(&req(false), &mut fs, false).unwrap();
    assert!(!report.dry_run);
    let files = fs.entries();
    let mut names: Vec<String> = files
        .iter()
        .map(|(p, _)| Path::new(p).file_name().unwrap().to_string_lossy().to_string())
        .collect();
    names.sort();
    assert_eq!(names, vec!["GET.ts", "POST.ts", "controller.ts", "route.ts"]);
    assert!(get(&fs, "api/GET.ts")
        .unwrap()
        .contains("class GetUserHandler"));
}

#[test]
fn collision_without_force_errors_and_writes_nothing() {
    let mut fs = InMemoryFs::new();
    fs.seed("api/GET.ts", "old");
    let err = run(&req(false), &mut fs, false);
    assert!(matches!(err, Err(CliError::FileExists(_))));
    // The pre-existing file is untouched and nothing else was written.
    assert_eq!(fs.entries().len(), 1);
    assert_eq!(get(&fs, "api/GET.ts").unwrap(), "old");
}

#[test]
fn force_overwrites() {
    let mut fs = InMemoryFs::new();
    fs.seed("api/GET.ts", "old");
    run(&req(true), &mut fs, false).unwrap();
    assert!(get(&fs, "api/GET.ts")
        .unwrap()
        .contains("class GetUserHandler"));
}

#[test]
fn run_dry_run_writes_nothing() {
    let mut fs = InMemoryFs::new();
    let report = run(&req(false), &mut fs, true).unwrap();
    assert!(report.dry_run);
    assert_eq!(report.created.len(), 4);
    assert!(fs.entries().is_empty());
}

#[test]
fn collision_reports_the_first_existing_target() {
    let mut fs = InMemoryFs::new();
    fs.seed("api/route.ts", "mine");
    fs.seed("api/POST.ts", "mine too");
    match run(&req(false), &mut fs, false) {
        Err(CliError::FileExists(p)) => assert_eq!(p, "api/POST.ts"),
        _ => panic!("expected a collision"),
    }
    assert_eq!(fs.entries().len(), 2);
    assert!(!fs.has_dir("api"));
}

#[test]
fn dry_run_ignores_collisions() {
    let mut fs = InMemoryFs::new();
    fs.seed("api/GET.ts", "old");
    let report = run(&req(false), &mut fs, true).unwrap();
    assert_eq!(report.created, vec!["api/GET.ts", "api/POST.ts", "api/controller.ts", "api/route.ts"]);
    assert_eq!(get(&fs, "api/GET.ts").unwrap(), "old");
}

#[test]
fn real_run_keeps_unrelated_files_and_creates_the_directory() {
    let mut fs = InMemoryFs::default();
    fs.seed("README.md", "hello");
    run(&req(false), &mut fs, false).unwrap();
    assert_eq!(get(&fs, "README.md").unwrap(), "hello");
    assert_eq!(fs.entries().len(), 5);
    assert!(fs.has_dir("api"));
    let route = get(&fs, "api/route.ts").unwrap();
    assert_eq!(route.matches("import {").count(), 2);
}

#[test]
fn paths_join_like_path_join() {
    for (dir, expected) in [("api", "api/GET.ts"), ("api/", "api/GET.ts"), ("", "GET.ts"), (".", "./GET.ts")] {
        let r = GenerationRequest::new(
            ResourceName::parse("user").unwrap(),
            vec![HttpMethod::Get],
            String::from(dir),
            false,
        )
        .unwrap();
        let mut fs = InMemoryFs::new();
        let report = run(&r, &mut fs, true).unwrap();
        assert_eq!(report.created[0], expected);
        assert_eq!(Path::new(dir).join("GET.ts").to_string_lossy(), expected);
    }
}

#[test]
fn in_memory_fs_reports_what_it_holds() {
    let mut fs = InMemoryFs::new();
    assert!(!fs.path_exists("a"));
    fs.seed("a", "1");
    assert!(fs.path_exists("a"));
    fs.write("a", "2").unwrap();
    fs.create_dir_all("d").unwrap();
    assert_eq!(get(&fs, "a").unwrap(), "2");
    assert_eq!(fs.entries().len(), 1);
    assert!(fs.has_dir("d"));
}

#[test]
fn subset_with_kebab_name_lands_in_nested_location() {
    let methods = next::cli::args::resolve_methods(true, false, false, false, false);
    let r = GenerationRequest::new(
        ResourceName::parse("user-profile").unwrap(),
        methods,
        String::from("tmp/api/users"),
        false,
    )
    .unwrap();
    let mut fs = InMemoryFs::new();
    let report = run(&r, &mut fs, false).unwrap();
    assert!(!report.dry_run);
    let mut names: Vec<String> = fs.entries().into_iter().map(|(p, _)| p).collect();
    names.sort();
    assert_eq!(
        names,
        vec!["tmp/api/users/GET.ts", "tmp/api/users/controller.ts", "tmp/api/users/route.ts"]
    );
    assert!(get(&fs, "tmp/api/users/GET.ts")
        .unwrap()
        .contains("class GetUserProfileHandler"));
}

#[test]
fn default_selection_writes_six_files_with_one_preamble() {
    let methods = next::cli::args::resolve_methods(false, false, false, false, false);
    let r = GenerationRequest::new(ResourceName::parse("user").unwrap(), methods, String::from("tmp"), false)
        .unwrap();
    let mut fs = InMemoryFs::new();
    run(&r, &mut fs, false).unwrap();
    for f in ["GET.ts", "POST.ts", "PUT.ts", "DELETE.ts", "controller.ts", "route.ts"] {
        assert!(fs.path_exists(&format!("tmp/{f}")), "missing {f}");
    }
    let controller = get(&fs, "tmp/controller.ts").unwrap();
    assert_eq!(controller.matches("import { API_V4_URL }").count(), 1);
    assert_eq!(controller.matches("const API_RESSOURCE").count(), 1);
}

#[test]
fn rerun_without_force_keeps_a_manual_edit() {
    let r = GenerationRequest::new(
        ResourceName::parse("user").unwrap(),
        HttpMethod::all().to_vec(),
        String::from("tmp"),
        false,
    )
    .unwrap();
    let mut fs = InMemoryFs::new();
    run(&r, &mut fs, false).unwrap();
    fs.write("tmp/route.ts", "manual edit").unwrap();
    let again = run(&r, &mut fs, false);
    assert!(matches!(again, Err(CliError::FileExists(_))));
    assert_eq!(get(&fs, "tmp/route.ts").unwrap(), "manual edit");
}

#[test]
fn dry_run_into_a_missing_directory_creates_nothing() {
    let r = GenerationRequest::new(
        ResourceName::parse("user").unwrap(),
        HttpMethod::all().to_vec(),
        String::from("tmp/nope"),
        false,
    )
    .unwrap();
    let mut fs = InMemoryFs::new();
    let report = run(&r, &mut fs, true).unwrap();
    assert!(report.dry_run);
    assert!(!fs.has_dir("tmp/nope"));
    assert!(fs.entries().is_empty());
}

#[test]
fn join_follows_the_platform_separator() {
    assert_eq!(join_path_str("api", '/', "GET.ts"), "api/GET.ts");
    assert_eq!(join_path_str("api", '\\', "GET.ts"), "api\\GET.ts");
    assert_eq!(join_path_str("api/", '\\', "GET.ts"), "api/GET.ts");
    assert_eq!(join_path_str("api\\", '\\', "GET.ts"), "api\\GET.ts");
    assert_eq!(join_path_str("api\\", '/', "GET.ts"), "api\\/GET.ts");
    assert_eq!(join_path_str("C:", '\\', "GET.ts"), "C:GET.ts");
    assert_eq!(join_path_str("C:", '/', "GET.ts"), "C:/GET.ts");
    assert_eq!(join_path_str("", '\\', "GET.ts"), "GET.ts");
}

#[test]
fn real_run_on_memory_succeeds_and_creates_the_directory() {
    let mut fs = InMemoryFs::new();
    let r = GenerationRequest::new(ResourceName::parse("user").unwrap(), vec![HttpMethod::Put], String::from("out"), true)
        .unwrap();
    let report = run(&r, &mut fs, false).unwrap();
    assert_eq!(report.created, vec!["out/PUT.ts", "out/controller.ts", "out/route.ts"]);
    assert!(fs.has_dir("out"));
}

#[test]
fn paths_are_compared_by_their_components() {
    let mut fs = InMemoryFs::new();
    fs.seed("api/./GET.ts", "old");
    assert!(fs.path_exists("api/GET.ts"));
    assert!(fs.path_exists("api//GET.ts"));
    assert!(!fs.path_exists("./api/GET.ts"));
    let err = run(&req(false), &mut fs, false);
    assert!(matches!(err, Err(CliError::FileExists(ref p)) if p == "api/GET.ts"));
    assert_eq!(fs.entries().len(), 1);
    run(&req(true), &mut fs, false).unwrap();
    assert_eq!(fs.entries().len(), 4);
    assert!(get(&fs, "api/./GET.ts").unwrap().contains("class GetUserHandler"));
    assert!(fs.has_dir("api/"));
}

#[test]
fn same_path_follows_path_equality() {
    for (a, b) in [
        ("api/GET.ts", "api/GET.ts"),
        ("api/./GET.ts", "api/GET.ts"),
        ("api//GET.ts", "api/GET.ts"),
        ("api/", "api"),
        ("/x", "//x"),
        ("./a", "./a"),
        ("./a", "a"),
        ("a/..", "a"),
        ("/a", "a"),
        (".", ""),
        (".a", "a"),
    ] {
        assert_eq!(
            next::paths::same_path(a, b, '/'),
            std::path::Path::new(a) == std::path::Path::new(b),
            "{a} vs {b}"
        );
    }
}
