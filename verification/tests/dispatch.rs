use nomad_webhook::json::Json;
use nomad_webhook::{status_code, webhook, webhook_bytes, Config, Dispatch, Task};

fn s(x: &str) -> Json {
    Json::Str(x.to_string())
}

fn obj(pairs: Vec<(&str, Json)>) -> Json {
    Json::Obj(pairs.into_iter().map(|(k, v)| (k.to_string(), v)).collect())
}

fn config() -> Config {
    Config::load(br#"{"infra":{"docs-latest":{"RestartJob":{"id":"docs"}}}}"#).unwrap()
}

fn body_with_tag(tag: &str) -> Json {
    obj(vec![
        ("action", s("published")),
        (
            "package",
            obj(vec![
                ("id", Json::Int(1)),
                ("name", s("docs")),
                ("namespace", s("acme")),
                ("description", s("d")),
                ("package_type", s("CONTAINER")),
                (
                    "package_version",
                    obj(vec![
                        ("name", s("sha256:abc")),
                        ("version", s("1")),
                        (
                            "container_metadata",
                            obj(vec![(
                                "tag",
                                obj(vec![("name", s(tag)), ("digest", s("sha256:abc"))]),
                            )]),
                        ),
                        ("package_url", s("u")),
                    ]),
                ),
                (
                    "registry",
                    obj(vec![("name", s("r")), ("url", s("u")), ("vendor", s("v"))]),
                ),
            ]),
        ),
        ("repository", Json::Null),
        ("sender", Json::Null),
    ])
}

fn bytes_with_tag(tag: &str) -> Vec<u8> {
    let head = r#"{"action":"published","package":{"id":1,"name":"docs","namespace":"acme","description":"d","package_type":"CONTAINER","package_version":{"name":"sha256:abc","version":"1","container_metadata":{"tag":{"name":""#;
    let tail = r#"","digest":"sha256:abc"}},"package_url":"u"},"registry":{"name":"r","url":"u","vendor":"v"}},"repository":{},"sender":{}}"#;
    format!("{head}{tag}{tail}").into_bytes()
}

#[test]
fn routed_request_executes_the_configured_task() {
    let c = config();
    let d = webhook(&c, &"infra".to_string(), &body_with_tag("docs-latest"));
    assert_eq!(d, Dispatch::Execute(Task::RestartJob { id: "docs".to_string() }));
    assert_eq!(status_code(&d), 200);
}

#[test]
fn unknown_endpoint_is_not_found_whatever_the_body() {
    let c = config();
    let d = webhook(&c, &"unknown-endpoint".to_string(), &body_with_tag("docs-latest"));
    assert_eq!(d, Dispatch::UnknownEndpoint);
    assert_eq!(status_code(&d), 404);

    // even an unreadable body is never looked at
    let d = webhook_bytes(&c, &"unknown-endpoint".to_string(), b"not json at all");
    assert_eq!(d, Dispatch::UnknownEndpoint);
    assert_eq!(status_code(&d), 404);
}

#[test]
fn malformed_body_is_a_bad_request() {
    let c = config();
    let d = webhook(&c, &"infra".to_string(), &obj(vec![("action", s("published"))]));
    assert_eq!(d, Dispatch::InvalidPayload);
    assert_eq!(status_code(&d), 400);
}

#[test]
fn unparseable_bytes_are_a_bad_request() {
    let c = config();
    let d = webhook_bytes(&c, &"infra".to_string(), b"{broken");
    assert_eq!(d, Dispatch::InvalidPayload);
    assert_eq!(status_code(&d), 400);
}

#[test]
fn unrouted_tag_is_a_bad_request() {
    let c = config();
    let d = webhook(&c, &"infra".to_string(), &body_with_tag("api-latest"));
    assert_eq!(d, Dispatch::UnroutedTag);
    assert_eq!(status_code(&d), 400);
}

#[test]
fn dispatch_from_bytes_matches_dispatch_from_values() {
    let c = config();
    let from_bytes = webhook_bytes(&c, &"infra".to_string(), &bytes_with_tag("docs-latest"));
    let from_value = webhook(&c, &"infra".to_string(), &body_with_tag("docs-latest"));
    assert_eq!(from_bytes, from_value);
    let from_bytes = webhook_bytes(&c, &"infra".to_string(), &bytes_with_tag("other"));
    assert_eq!(from_bytes, Dispatch::UnroutedTag);
}

#[test]
fn action_value_does_not_gate_dispatch() {
    // the advisory classification refuses the action, yet dispatch proceeds
    let c = config();
    let mut body = body_with_tag("docs-latest");
    if let Json::Obj(ms) = &mut body {
        for (k, v) in ms.iter_mut() {
            if k.as_str() == "action" {
                *v = s("deleted");
            }
        }
    }
    assert!(!nomad_webhook::webhook::GithubPackagePayload::is_package(&body));
    let d = webhook(&c, &"infra".to_string(), &body);
    assert_eq!(d, Dispatch::Execute(Task::RestartJob { id: "docs".to_string() }));
}

#[test]
fn duplicate_preserves_documents_and_tasks() {
    let body = body_with_tag("docs-latest");
    assert_eq!(body.duplicate(), body);
    let t = Task::RestartJob { id: "docs".to_string() };
    assert_eq!(t.duplicate(), t);
}
