use next::cli::args::{resolve_methods, ApiAction, Cli, Command, CreateArgs};
use next::command::{create, dispatch, dispatch_start, summary, Dispatched, Start};
use next::domain::http_method::HttpMethod;
use next::error::CliError;
use next::io::writer::InMemoryFs;
use next::run::RunReport;

fn args(name: &str) -> CreateArgs {
    CreateArgs {
        name: String::from(name),
        get: false,
        post: false,
        put: false,
        delete: false,
        all: false,
        location: String::from("."),
        force: false,
        dry_run: false,
    }
}

#[test]
fn none_selected_yields_all() {
    assert_eq!(
        resolve_methods(false, false, false, false, false),
        HttpMethod::all().to_vec()
    );
}

#[test]
fn all_flag_yields_all() {
    assert_eq!(
        resolve_methods(true, false, false, false, true),
        HttpMethod::all().to_vec()
    );
}

#[test]
fn subset_is_respected() {
    assert_eq!(
        resolve_methods(true, false, true, false, false),
        vec![HttpMethod::Get, HttpMethod::Put]
    );
}

#[test]
fn single_flags_select_one_method() {
    assert_eq!(resolve_methods(false, false, false, true, false), vec![HttpMethod::Delete]);
    assert_eq!(resolve_methods(false, true, false, false, false), vec![HttpMethod::Post]);
}

#[test]
fn to_request_resolves_flags_and_name() {
    let mut a = args("user-profile");
    a.post = true;
    a.get = true;
    a.location = String::from("api/users");
    a.force = true;
    let req = a.to_request().unwrap();
    assert_eq!(req.name.pascal(), "UserProfile");
    assert_eq!(req.methods, vec![HttpMethod::Get, HttpMethod::Post]);
    assert_eq!(req.target_dir, "api/users");
    assert!(req.force);
}

#[test]
fn to_request_rejects_a_bad_name() {
    assert!(matches!(args("a.b").to_request(), Err(CliError::InvalidName(_))));
}

#[test]
fn create_writes_the_files() {
    let mut fs = InMemoryFs::new();
    let mut a = args("user");
    a.get = true;
    let report = create(&a, &mut fs).unwrap();
    assert!(!report.dry_run);
    assert_eq!(report.created, vec!["./GET.ts", "./controller.ts", "./route.ts"]);
    assert_eq!(fs.entries().len(), 3);
}

#[test]
fn create_with_invalid_name_touches_nothing() {
    let mut fs = InMemoryFs::new();
    let err = create(&args("../x"), &mut fs);
    assert!(matches!(err, Err(CliError::InvalidName(_))));
    assert!(fs.entries().is_empty());
    assert!(!fs.has_dir("."));
}

#[test]
fn dispatch_runs_api_create() {
    let mut fs = InMemoryFs::new();
    let mut a = args("order");
    a.dry_run = true;
    let cli = Cli {
        update: false,
        command: Some(Command::Api {
            action: ApiAction::Create(a),
        }),
    };
    let report = match dispatch(&cli, &mut fs).unwrap() {
        Dispatched::Ran(report) => report,
        _ => panic!("expected a run"),
    };
    assert!(report.dry_run);
    assert_eq!(report.created.len(), 6);
    assert!(fs.entries().is_empty());
}

#[test]
fn summary_lists_paths_then_count() {
    let report = RunReport {
        created: vec![String::from("./GET.ts"), String::from("./route.ts")],
        dry_run: false,
    };
    assert_eq!(
        summary(&report),
        "created: ./GET.ts\ncreated: ./route.ts\n2 file(s) created.\n"
    );
    let dry = RunReport {
        created: vec![],
        dry_run: true,
    };
    assert_eq!(summary(&dry), "0 file(s) would create.\n");
}

#[test]
fn summary_counts_past_nine() {
    let report = RunReport {
        created: (0..12).map(|i| format!("f{}", i)).collect(),
        dry_run: true,
    };
    assert!(summary(&report).ends_with("\n12 file(s) would create.\n"));
}

#[test]
fn update_flag_asks_for_self_update_and_touches_nothing() {
    let mut fs = InMemoryFs::new();
    let cli = Cli {
        update: true,
        command: Some(Command::Api {
            action: ApiAction::Create(args("order")),
        }),
    };
    assert!(matches!(dispatch(&cli, &mut fs), Ok(Dispatched::SelfUpdate)));
    assert!(fs.entries().is_empty());
    assert!(matches!(dispatch_start(&cli, '/'), Ok(Start::SelfUpdate)));
}

#[test]
fn no_subcommand_does_nothing() {
    let mut fs = InMemoryFs::new();
    let cli = Cli { update: false, command: None };
    assert!(matches!(dispatch(&cli, &mut fs), Ok(Dispatched::Nothing)));
    assert!(matches!(dispatch_start(&cli, '/'), Ok(Start::Nothing)));
}

#[test]
fn update_messages() {
    assert_eq!(next::update::update_message(true, "0.3.0"), "updated to v0.3.0");
    assert_eq!(
        next::update::update_message(false, "0.2.0"),
        "already up to date (v0.2.0)"
    );
}
