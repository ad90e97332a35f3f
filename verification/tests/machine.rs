use next::domain::http_method::HttpMethod;
use next::domain::request::GenerationRequest;
use next::domain::resource_name::ResourceName;
use next::error::CliError;
use next::run::{RunMachine, RunStep};
use std::collections::HashMap;

fn req(force: bool) -> GenerationRequest {
    GenerationRequest::new(
        ResourceName::parse("user").unwrap(),
        vec![HttpMethod::Get],
        String::from("api"),
        force,
    )
    .unwrap()
}

/// Drive a machine against an in-test map, recording each step asked for.
fn drive_logged(
    req: &GenerationRequest,
    dry_run: bool,
    files: &mut HashMap<String, String>,
) -> (Vec<String>, Result<Vec<String>, String>) {
    let (mut machine, mut step) = RunMachine::start(req, dry_run, '/');
    let mut log = Vec::new();
    loop {
        step = match step {
            RunStep::CheckExists(p) => {
                log.push(format!("check {}", p));
                let exists = files.contains_key(&p);
                machine.on_exists(exists)
            }
            RunStep::CreateDir(d) => {
                log.push(format!("mkdir {}", d));
                machine.on_done(Ok(()))
            }
            RunStep::Write(p, c) => {
                log.push(format!("write {}", p));
                files.insert(p, c);
                machine.on_done(Ok(()))
            }
            RunStep::Finished(r) => {
                return (
                    log,
                    r.map(|rep| rep.created).map_err(|e| match e {
                        CliError::FileExists(p) => p,
                        other => format!("{:?}", other),
                    }),
                )
            }
        };
    }
}

#[test]
fn machine_checks_every_target_before_writing() {
    let mut files = HashMap::new();
    let (log, out) = drive_logged(&req(false), false, &mut files);
    assert_eq!(
        log,
        vec![
            "check api/GET.ts",
            "check api/controller.ts",
            "check api/route.ts",
            "mkdir api",
            "write api/GET.ts",
            "write api/controller.ts",
            "write api/route.ts",
        ]
    );
    assert_eq!(out.unwrap().len(), 3);
    assert!(files["api/GET.ts"].contains("class GetUserHandler"));
}

#[test]
fn machine_stops_at_the_first_existing_target() {
    let mut files = HashMap::new();
    files.insert(String::from("api/controller.ts"), String::from("mine"));
    let (log, out) = drive_logged(&req(false), false, &mut files);
    assert_eq!(log, vec!["check api/GET.ts", "check api/controller.ts"]);
    assert_eq!(out, Err(String::from("api/controller.ts")));
    assert_eq!(files.len(), 1);
}

#[test]
fn machine_with_force_skips_the_checks() {
    let mut files = HashMap::new();
    files.insert(String::from("api/GET.ts"), String::from("old"));
    let (log, out) = drive_logged(&req(true), false, &mut files);
    assert_eq!(log[0], "mkdir api");
    assert!(out.is_ok());
    assert!(files["api/GET.ts"].contains("class GetUserHandler"));
}

#[test]
fn machine_dry_run_asks_for_nothing() {
    let mut files = HashMap::new();
    let (log, out) = drive_logged(&req(false), true, &mut files);
    assert!(log.is_empty());
    assert_eq!(
        out.unwrap(),
        vec!["api/GET.ts", "api/controller.ts", "api/route.ts"]
    );
    assert!(files.is_empty());
}

#[test]
fn machine_ends_on_a_failed_write() {
    let (mut machine, step) = RunMachine::start(&req(true), false, '/');
    assert!(matches!(step, RunStep::CreateDir(ref d) if d == "api"));
    let step = machine.on_done(Ok(()));
    assert!(matches!(step, RunStep::Write(ref p, _) if p == "api/GET.ts"));
    let step = machine.on_done(Err(CliError::Update(String::from("disk full"))));
    assert!(matches!(step, RunStep::Finished(Err(CliError::Update(ref m))) if m == "disk full"));
}
