use nomad_webhook::json::Json;
use nomad_webhook::webhook::{GithubPackagePayload, ParseError};

fn s(x: &str) -> Json {
    Json::Str(x.to_string())
}

fn obj(pairs: Vec<(&str, Json)>) -> Json {
    Json::Obj(pairs.into_iter().map(|(k, v)| (k.to_string(), v)).collect())
}

fn without(j: Json, key: &str) -> Json {
    match j {
        Json::Obj(ms) => Json::Obj(ms.into_iter().filter(|(k, _)| k != key).collect()),
        other => other,
    }
}

fn tag_json() -> Json {
    obj(vec![("name", s("docs-latest")), ("digest", s("sha256:abc"))])
}

fn version_json() -> Json {
    obj(vec![
        ("name", s("sha256:abc")),
        ("version", s("1.2.3")),
        ("container_metadata", obj(vec![("tag", tag_json())])),
        ("package_url", s("ghcr.io/acme/docs:docs-latest")),
    ])
}

fn registry_json() -> Json {
    obj(vec![
        ("name", s("container")),
        ("url", s("https://ghcr.io")),
        ("vendor", s("GitHub")),
    ])
}

fn package_json() -> Json {
    obj(vec![
        ("id", Json::Int(4711)),
        ("name", s("docs")),
        ("namespace", s("acme")),
        ("description", s("the docs image")),
        ("package_type", s("CONTAINER")),
        ("package_version", version_json()),
        ("registry", registry_json()),
    ])
}

fn payload_json() -> Json {
    obj(vec![
        ("action", s("published")),
        ("package", package_json()),
        ("repository", obj(vec![("full_name", s("acme/docs"))])),
        ("sender", obj(vec![("login", s("octocat"))])),
    ])
}

#[test]
fn parse_accepts_the_full_shape() {
    let p = GithubPackagePayload::into_package(payload_json()).unwrap();
    assert_eq!(p.action, "published");
    assert_eq!(p.package.name, "docs");
    assert_eq!(p.package.namespace, "acme");
    assert_eq!(p.package.package_type, "CONTAINER");
    assert_eq!(p.package.package_version.version, "1.2.3");
    assert_eq!(p.package.package_version.container_metadata.tag.name, "docs-latest");
    assert_eq!(p.package.package_version.container_metadata.tag.digest, "sha256:abc");
    assert_eq!(p.package.registry.vendor, "GitHub");
    assert_eq!(p.repository, obj(vec![("full_name", s("acme/docs"))]));
    assert_eq!(p.sender, obj(vec![("login", s("octocat"))]));
}

#[test]
fn parse_ignores_extra_fields() {
    let mut raw = payload_json();
    if let Json::Obj(ms) = &mut raw {
        ms.push(("organization".to_string(), obj(vec![("login", s("acme"))])));
    }
    assert!(GithubPackagePayload::into_package(raw).is_ok());
}

#[test]
fn parse_fails_without_action() {
    let raw = without(payload_json(), "action");
    assert_eq!(GithubPackagePayload::into_package(raw), Err(ParseError::Malformed));
}

#[test]
fn parse_fails_without_package() {
    let raw = without(payload_json(), "package");
    assert_eq!(GithubPackagePayload::into_package(raw), Err(ParseError::Malformed));
}

#[test]
fn parse_fails_without_repository_or_sender() {
    assert_eq!(
        GithubPackagePayload::into_package(without(payload_json(), "repository")),
        Err(ParseError::Malformed)
    );
    assert_eq!(
        GithubPackagePayload::into_package(without(payload_json(), "sender")),
        Err(ParseError::Malformed)
    );
}

#[test]
fn parse_fails_on_missing_nested_fields() {
    for key in ["name", "namespace", "package_type", "package_version", "registry"] {
        let mut raw = payload_json();
        if let Json::Obj(ms) = &mut raw {
            for (k, v) in ms.iter_mut() {
                if k.as_str() == "package" {
                    *v = without(v.duplicate(), key);
                }
            }
        }
        assert_eq!(
            GithubPackagePayload::into_package(raw),
            Err(ParseError::Malformed),
            "package.{key} should be required"
        );
    }
}

#[test]
fn parse_fails_on_missing_tag_name() {
    let tag = without(tag_json(), "name");
    let version = obj(vec![
        ("name", s("sha256:abc")),
        ("version", s("1.2.3")),
        ("container_metadata", obj(vec![("tag", tag)])),
        ("package_url", s("ghcr.io/acme/docs:docs-latest")),
    ]);
    let package = obj(vec![
        ("id", Json::Int(4711)),
        ("name", s("docs")),
        ("namespace", s("acme")),
        ("description", s("the docs image")),
        ("package_type", s("CONTAINER")),
        ("package_version", version),
        ("registry", registry_json()),
    ]);
    let raw = obj(vec![
        ("action", s("published")),
        ("package", package),
        ("repository", Json::Null),
        ("sender", Json::Null),
    ]);
    assert_eq!(GithubPackagePayload::into_package(raw), Err(ParseError::Malformed));
}

#[test]
fn parse_fails_on_wrongly_typed_field() {
    let mut raw = payload_json();
    if let Json::Obj(ms) = &mut raw {
        for (k, v) in ms.iter_mut() {
            if k.as_str() == "action" {
                *v = Json::Int(1);
            }
        }
    }
    assert_eq!(GithubPackagePayload::into_package(raw), Err(ParseError::Malformed));
}

#[test]
fn parse_does_not_require_id_or_description() {
    // the notification shape reads neither; they are tolerated like any
    // other unrecognized field, absent, present or oddly typed
    let mut raw = payload_json();
    if let Json::Obj(ms) = &mut raw {
        for (k, v) in ms.iter_mut() {
            if k.as_str() == "package" {
                *v = without(without(v.duplicate(), "id"), "description");
            }
        }
    }
    assert!(GithubPackagePayload::into_package(raw).is_ok());

    let mut raw = payload_json();
    if let Json::Obj(ms) = &mut raw {
        for (k, v) in ms.iter_mut() {
            if k.as_str() == "package" {
                if let Json::Obj(ps) = v {
                    for (pk, pv) in ps.iter_mut() {
                        if pk.as_str() == "id" {
                            *pv = Json::Str("not a number".to_string());
                        }
                    }
                }
            }
        }
    }
    assert!(GithubPackagePayload::into_package(raw).is_ok());
}

#[test]
fn is_package_accepts_published_and_updated_ignoring_case() {
    assert!(GithubPackagePayload::is_package(&obj(vec![("action", s("published"))])));
    assert!(GithubPackagePayload::is_package(&obj(vec![("action", s("PUBLISHED"))])));
    assert!(GithubPackagePayload::is_package(&obj(vec![("action", s("Updated"))])));
}

#[test]
fn is_package_refuses_other_shapes() {
    assert!(!GithubPackagePayload::is_package(&obj(vec![("action", s("deleted"))])));
    assert!(!GithubPackagePayload::is_package(&obj(vec![("action", Json::Int(1))])));
    assert!(!GithubPackagePayload::is_package(&obj(vec![("other", s("published"))])));
    assert!(!GithubPackagePayload::is_package(&Json::Arr(vec![s("published")])));
    assert!(!GithubPackagePayload::is_package(&Json::Null));
}
