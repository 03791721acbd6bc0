use nomad_webhook::json::Json;
use nomad_webhook::nomad::{
    allocations_path, decode_allocations, parse_allocations, plan_restarts, restart_body,
    restart_path, running_allocations, Allocation, JobAllocations, ListJobAllocsError,
};
use nomad_webhook::{status_code, Dispatch, ExecutionOutcome, NomadConfig, Task};

fn s(x: &str) -> Json {
    Json::Str(x.to_string())
}

fn alloc_json(id: &str, status: &str) -> Json {
    Json::Obj(vec![
        ("ID".to_string(), s(id)),
        ("Name".to_string(), s(id)),
        ("ClientStatus".to_string(), s(status)),
    ])
}

fn listing() -> JobAllocations {
    let body = Json::Arr(vec![
        alloc_json("a", "running"),
        alloc_json("b", "complete"),
        alloc_json("c", "running"),
    ]);
    parse_allocations(&body).unwrap()
}

#[test]
fn exactly_the_running_instances_are_planned() {
    let targets = running_allocations(&listing());
    assert_eq!(targets, vec!["a".to_string(), "c".to_string()]);
}

#[test]
fn running_match_is_exact_and_case_sensitive() {
    let body = Json::Arr(vec![
        alloc_json("a", "Running"),
        alloc_json("b", "RUNNING"),
        alloc_json("c", "running "),
        alloc_json("d", "running"),
    ]);
    let ja = parse_allocations(&body).unwrap();
    assert_eq!(running_allocations(&ja), vec!["d".to_string()]);
}

#[test]
fn failed_listing_plans_no_restarts() {
    let listing: Result<JobAllocations, ListJobAllocsError> =
        Err(ListJobAllocsError::RequestFailed(500));
    assert_eq!(plan_restarts(&listing), Vec::<String>::new());
    // the webhook caller is still acknowledged: the decision was made before
    // the orchestrator was called, and its status stays success-shaped
    let decision = Dispatch::Execute(Task::RestartJob { id: "docs".to_string() });
    assert_eq!(status_code(&decision), 200);
}

#[test]
fn retrieved_listing_plans_its_running_instances() {
    let listing: Result<JobAllocations, ListJobAllocsError> = Ok(listing());
    assert_eq!(plan_restarts(&listing), vec!["a".to_string(), "c".to_string()]);
}

#[test]
fn one_failed_restart_hides_no_other_result() {
    let results = vec![("a".to_string(), false), ("c".to_string(), true)];
    let outcome = ExecutionOutcome::collect(&results);
    assert_eq!(outcome.failed, vec!["a".to_string()]);
    assert!(!outcome.fully_succeeded());

    let all_ok = vec![("a".to_string(), true), ("c".to_string(), true)];
    let outcome = ExecutionOutcome::collect(&all_ok);
    assert_eq!(outcome.failed, Vec::<String>::new());
    assert!(outcome.fully_succeeded());

    // the partial failure never reaches the webhook caller
    let decision = Dispatch::Execute(Task::RestartJob { id: "docs".to_string() });
    assert_eq!(status_code(&decision), 200);
}

#[test]
fn decode_reads_the_orchestrator_answer() {
    let body = br#"[{"ID":"a","Name":"n1","ClientStatus":"running"},{"ID":"b","Name":"n2","ClientStatus":"complete"}]"#;
    let ja = decode_allocations(body).unwrap();
    assert_eq!(ja.allocs.len(), 2);
    assert_eq!(
        ja.allocs[0],
        Allocation {
            id: "a".to_string(),
            name: "n1".to_string(),
            client_status: "running".to_string(),
        }
    );
    assert_eq!(running_allocations(&ja), vec!["a".to_string()]);
}

#[test]
fn decode_refuses_bad_bodies() {
    assert_eq!(decode_allocations(b"not json"), Err(ListJobAllocsError::LoadingBody));
    assert_eq!(decode_allocations(b"{}"), Err(ListJobAllocsError::LoadingBody));
    // an element missing a required field spoils the whole answer
    assert_eq!(
        decode_allocations(br#"[{"ID":"a","Name":"n"}]"#),
        Err(ListJobAllocsError::LoadingBody)
    );
    // a wrongly typed field does too
    assert_eq!(
        decode_allocations(br#"[{"ID":1,"Name":"n","ClientStatus":"running"}]"#),
        Err(ListJobAllocsError::LoadingBody)
    );
}

#[test]
fn decode_tolerates_extra_fields() {
    let body = br#"[{"ID":"a","Name":"n","ClientStatus":"running","JobID":"docs"}]"#;
    let ja = decode_allocations(body).unwrap();
    assert_eq!(ja.allocs[0].id, "a");
}

#[test]
fn empty_listing_plans_nothing() {
    let ja = decode_allocations(b"[]").unwrap();
    assert_eq!(ja.allocs.len(), 0);
    assert_eq!(running_allocations(&ja), Vec::<String>::new());
}

#[test]
fn call_paths_match_the_orchestrator_api() {
    assert_eq!(allocations_path(&"docs".to_string()), "/v1/job/docs/allocations");
    assert_eq!(
        restart_path(&"0f3b1c".to_string()),
        "/v1/client/allocation/0f3b1c/restart"
    );
    assert_eq!(restart_body(), r#"{"AllTasks":true}"#);
}

#[test]
fn nomad_config_wraps_the_base_url() {
    let c = NomadConfig::new("http://localhost:4646".to_string());
    assert_eq!(c.endpoint, "http://localhost:4646");
}
