use vstd::prelude::*;

use crate::json::{get_member, get_str_member, member_of, str_member_of, Json, JsonV};
use vstd::utf8::encode_utf8;

verus! {

/// A package-publish notification after structural validation. Fields beyond
/// the expected shape are tolerated and dropped; `repository` and `sender`
/// are carried through as opaque values.
#[derive(Debug, PartialEq, Eq)]
pub struct GithubPackagePayload {
    pub action: String,
    pub package: GithubPackage,
    pub repository: Json,
    pub sender: Json,
}

#[derive(Debug, PartialEq, Eq)]
pub struct GithubPackage {
    pub name: String,
    pub namespace: String,
    pub package_type: String,
    pub package_version: GithubPackageVersion,
    pub registry: GithubPacakgeRegistry,
}

#[derive(Debug, PartialEq, Eq)]
pub struct GithubPackageVersion {
    pub name: String,
    pub version: String,
    pub container_metadata: GithubContainerMetadata,
    pub package_url: String,
}

#[derive(Debug, PartialEq, Eq)]
pub struct GithubContainerMetadata {
    pub tag: GithubContainerTag,
}

#[derive(Debug, PartialEq, Eq)]
pub struct GithubContainerTag {
    pub name: String,
    pub digest: String,
}

#[derive(Debug, PartialEq, Eq)]
pub struct GithubPacakgeRegistry {
    pub name: String,
    pub url: String,
    pub vendor: String,
}

/// Why a notification body was refused.
#[derive(Debug, PartialEq, Eq)]
pub enum ParseError {
    /// A required field is absent or of the wrong type.
    Malformed,
}

pub struct GithubPackagePayloadV {
    pub action: Seq<char>,
    pub package: GithubPackageV,
    pub repository: JsonV,
    pub sender: JsonV,
}

pub struct GithubPackageV {
    pub name: Seq<char>,
    pub namespace: Seq<char>,
    pub package_type: Seq<char>,
    pub package_version: GithubPackageVersionV,
    pub registry: GithubPacakgeRegistryV,
}

pub struct GithubPackageVersionV {
    pub name: Seq<char>,
    pub version: Seq<char>,
    pub container_metadata: GithubContainerMetadataV,
    pub package_url: Seq<char>,
}

pub struct GithubContainerMetadataV {
    pub tag: GithubContainerTagV,
}

pub struct GithubContainerTagV {
    pub name: Seq<char>,
    pub digest: Seq<char>,
}

pub struct GithubPacakgeRegistryV {
    pub name: Seq<char>,
    pub url: Seq<char>,
    pub vendor: Seq<char>,
}

impl View for GithubContainerTag {
    type V = GithubContainerTagV;

    open spec fn view(&self) -> GithubContainerTagV {
        GithubContainerTagV { name: self.name@, digest: self.digest@ }
    }
}

impl View for GithubContainerMetadata {
    type V = GithubContainerMetadataV;

    open spec fn view(&self) -> GithubContainerMetadataV {
        GithubContainerMetadataV { tag: self.tag@ }
    }
}

impl View for GithubPackageVersion {
    type V = GithubPackageVersionV;

    open spec fn view(&self) -> GithubPackageVersionV {
        GithubPackageVersionV {
            name: self.name@,
            version: self.version@,
            container_metadata: self.container_metadata@,
            package_url: self.package_url@,
        }
    }
}

impl View for GithubPacakgeRegistry {
    type V = GithubPacakgeRegistryV;

    open spec fn view(&self) -> GithubPacakgeRegistryV {
        GithubPacakgeRegistryV { name: self.name@, url: self.url@, vendor: self.vendor@ }
    }
}

impl View for GithubPackage {
    type V = GithubPackageV;

    open spec fn view(&self) -> GithubPackageV {
        GithubPackageV {
            name: self.name@,
            namespace: self.namespace@,
            package_type: self.package_type@,
            package_version: self.package_version@,
            registry: self.registry@,
        }
    }
}

impl View for GithubPackagePayload {
    type V = GithubPackagePayloadV;

    open spec fn view(&self) -> GithubPackagePayloadV {
        GithubPackagePayloadV {
            action: self.action@,
            package: self.package@,
            repository: self.repository@,
            sender: self.sender@,
        }
    }
}

/// The tag object: `name` carries the routing key, `digest` is informational.
pub open spec fn tag_of(j: JsonV) -> Option<GithubContainerTagV> {
    match (str_member_of(j, "name"@), str_member_of(j, "digest"@)) {
        (Some(name), Some(digest)) => Some(GithubContainerTagV { name, digest }),
        _ => None,
    }
}

pub open spec fn metadata_of(j: JsonV) -> Option<GithubContainerMetadataV> {
    match member_of(j, "tag"@) {
        Some(tj) => match tag_of(tj) {
            Some(tag) => Some(GithubContainerMetadataV { tag }),
            None => None,
        },
        None => None,
    }
}

pub open spec fn version_of(j: JsonV) -> Option<GithubPackageVersionV> {
    match (
        str_member_of(j, "name"@),
        str_member_of(j, "version"@),
        member_of(j, "container_metadata"@),
        str_member_of(j, "package_url"@),
    ) {
        (Some(name), Some(version), Some(mj), Some(package_url)) => match metadata_of(mj) {
            Some(container_metadata) => Some(
                GithubPackageVersionV { name, version, container_metadata, package_url },
            ),
            None => None,
        },
        _ => None,
    }
}

pub open spec fn registry_of(j: JsonV) -> Option<GithubPacakgeRegistryV> {
    match (str_member_of(j, "name"@), str_member_of(j, "url"@), str_member_of(j, "vendor"@)) {
        (Some(name), Some(url), Some(vendor)) => Some(
            GithubPacakgeRegistryV { name, url, vendor },
        ),
        _ => None,
    }
}

pub open spec fn package_of(j: JsonV) -> Option<GithubPackageV> {
    match (
        str_member_of(j, "name"@),
        str_member_of(j, "namespace"@),
        str_member_of(j, "package_type"@),
        member_of(j, "package_version"@),
        member_of(j, "registry"@),
    ) {
        (Some(name), Some(namespace), Some(package_type), Some(vj), Some(rj)) => match (
            version_of(vj),
            registry_of(rj),
        ) {
            (Some(package_version), Some(registry)) => Some(
                GithubPackageV { name, namespace, package_type, package_version, registry },
            ),
            _ => None,
        },
        _ => None,
    }
}

/// The validated notification shape: the structural contract of `parse`.
pub open spec fn payload_of(j: JsonV) -> Option<GithubPackagePayloadV> {
    match (
        str_member_of(j, "action"@),
        member_of(j, "package"@),
        member_of(j, "repository"@),
        member_of(j, "sender"@),
    ) {
        (Some(action), Some(pj), Some(repository), Some(sender)) => match package_of(pj) {
            Some(package) => Some(
                GithubPackagePayloadV { action, package, repository, sender },
            ),
            None => None,
        },
        _ => None,
    }
}

/// ASCII lower-casing of one byte, as the advisory action check folds case.
pub open spec fn lower_byte(b: u8) -> u8 {
    if 65 <= b && b <= 90 {
        (b + 32) as u8
    } else {
        b
    }
}

/// Byte-wise equality up to ASCII case.
pub open spec fn eq_ignore_ascii_case(a: Seq<u8>, b: Seq<u8>) -> bool {
    &&& a.len() == b.len()
    &&& forall|i: int| 0 <= i < a.len() ==> lower_byte(a[i]) == lower_byte(b[i])
}

fn lower_u8(b: u8) -> (r: u8)
    ensures
        r == lower_byte(b),
{
    if b >= 65 && b <= 90 {
        b + 32
    } else {
        b
    }
}

fn bytes_eq_ignore_case(a: &[u8], b: &[u8]) -> (r: bool)
    ensures
        r == eq_ignore_ascii_case(a@, b@),
{
    if a.len() != b.len() {
        return false;
    }
    let mut i: usize = 0;
    while i < a.len()
        invariant
            a@.len() == b@.len(),
            0 <= i <= a@.len(),
            forall|k: int| 0 <= k < i ==> lower_byte(a@[k]) == lower_byte(b@[k]),
        decreases a@.len() - i,
    {
        if lower_u8(a[i]) != lower_u8(b[i]) {
            return false;
        }
        i += 1;
    }
    true
}

/// True only of an object whose `action` member is a string equal, up to
/// ASCII case, to `published` or `updated`.
pub open spec fn is_package_event(j: JsonV) -> bool {
    match member_of(j, "action"@) {
        Some(JsonV::Str(a)) => eq_ignore_ascii_case(encode_utf8(a), encode_utf8("published"@))
            || eq_ignore_ascii_case(encode_utf8(a), encode_utf8("updated"@)),
        _ => false,
    }
}

impl GithubPackagePayload {
    /// Advisory classification of a raw body. The dispatch path does not gate
    /// on it: parsing stays permissive about the action value.
    pub fn is_package(raw: &Json) -> (r: bool)
        ensures
            r == is_package_event(raw@),
    {
        match get_member(raw, &"action".to_owned()) {
            Some(a) => match a {
                Json::Str(s) => {
                    let p = bytes_eq_ignore_case(s.as_str().as_bytes(), "published".as_bytes());
                    let u = bytes_eq_ignore_case(s.as_str().as_bytes(), "updated".as_bytes());
                    p || u
                },
                _ => false,
            },
            None => false,
        }
    }

    /// Structural validation of a raw body against the notification shape.
    pub fn parse(raw: &Json) -> (r: Result<GithubPackagePayload, ParseError>)
        ensures
            match r {
                Ok(p) => payload_of(raw@) == Some(p@),
                Err(e) => payload_of(raw@) is None && e == ParseError::Malformed,
            },
    {
        let action = match get_str_member(raw, &"action".to_owned()) {
            Some(s) => s.clone(),
            None => { return Err(ParseError::Malformed) },
        };
        let package = match get_member(raw, &"package".to_owned()) {
            Some(pj) => match GithubPackage::parse(pj) {
                Ok(p) => p,
                Err(e) => { return Err(e) },
            },
            None => { return Err(ParseError::Malformed) },
        };
        let repository = match get_member(raw, &"repository".to_owned()) {
            Some(v) => v.duplicate(),
            None => { return Err(ParseError::Malformed) },
        };
        let sender = match get_member(raw, &"sender".to_owned()) {
            Some(v) => v.duplicate(),
            None => { return Err(ParseError::Malformed) },
        };
        Ok(GithubPackagePayload { action, package, repository, sender })
    }

    /// Consuming form of `parse`, as the dispatch path takes the body.
    pub fn into_package(raw: Json) -> (r: Result<GithubPackagePayload, ParseError>)
        ensures
            match r {
                Ok(p) => payload_of(raw@) == Some(p@),
                Err(e) => payload_of(raw@) is None && e == ParseError::Malformed,
            },
    {
        Self::parse(&raw)
    }
}

impl GithubPackage {
    pub fn parse(j: &Json) -> (r: Result<GithubPackage, ParseError>)
        ensures
            match r {
                Ok(p) => package_of(j@) == Some(p@),
                Err(e) => package_of(j@) is None && e == ParseError::Malformed,
            },
    {
        let name = match get_str_member(j, &"name".to_owned()) {
            Some(s) => s.clone(),
            None => { return Err(ParseError::Malformed) },
        };
        let namespace = match get_str_member(j, &"namespace".to_owned()) {
            Some(s) => s.clone(),
            None => { return Err(ParseError::Malformed) },
        };
        let package_type = match get_str_member(j, &"package_type".to_owned()) {
            Some(s) => s.clone(),
            None => { return Err(ParseError::Malformed) },
        };
        let package_version = match get_member(j, &"package_version".to_owned()) {
            Some(vj) => match GithubPackageVersion::parse(vj) {
                Ok(v) => v,
                Err(e) => { return Err(e) },
            },
            None => { return Err(ParseError::Malformed) },
        };
        let registry = match get_member(j, &"registry".to_owned()) {
            Some(rj) => match GithubPacakgeRegistry::parse(rj) {
                Ok(v) => v,
                Err(e) => { return Err(e) },
            },
            None => { return Err(ParseError::Malformed) },
        };
        Ok(GithubPackage { name, namespace, package_type, package_version, registry })
    }
}

impl GithubPackageVersion {
    pub fn parse(j: &Json) -> (r: Result<GithubPackageVersion, ParseError>)
        ensures
            match r {
                Ok(v) => version_of(j@) == Some(v@),
                Err(e) => version_of(j@) is None && e == ParseError::Malformed,
            },
    {
        let name = match get_str_member(j, &"name".to_owned()) {
            Some(s) => s.clone(),
            None => { return Err(ParseError::Malformed) },
        };
        let version = match get_str_member(j, &"version".to_owned()) {
            Some(s) => s.clone(),
            None => { return Err(ParseError::Malformed) },
        };
        let container_metadata = match get_member(j, &"container_metadata".to_owned()) {
            Some(mj) => match GithubContainerMetadata::parse(mj) {
                Ok(m) => m,
                Err(e) => { return Err(e) },
            },
            None => { return Err(ParseError::Malformed) },
        };
        let package_url = match get_str_member(j, &"package_url".to_owned()) {
            Some(s) => s.clone(),
            None => { return Err(ParseError::Malformed) },
        };
        Ok(GithubPackageVersion { name, version, container_metadata, package_url })
    }
}

impl GithubContainerMetadata {
    pub fn parse(j: &Json) -> (r: Result<GithubContainerMetadata, ParseError>)
        ensures
            match r {
                Ok(m) => metadata_of(j@) == Some(m@),
                Err(e) => metadata_of(j@) is None && e == ParseError::Malformed,
            },
    {
        match get_member(j, &"tag".to_owned()) {
            Some(tj) => match GithubContainerTag::parse(tj) {
                Ok(tag) => Ok(GithubContainerMetadata { tag }),
                Err(e) => Err(e),
            },
            None => Err(ParseError::Malformed),
        }
    }
}

impl GithubContainerTag {
    pub fn parse(j: &Json) -> (r: Result<GithubContainerTag, ParseError>)
        ensures
            match r {
                Ok(t) => tag_of(j@) == Some(t@),
                Err(e) => tag_of(j@) is None && e == ParseError::Malformed,
            },
    {
        let name = match get_str_member(j, &"name".to_owned()) {
            Some(s) => s.clone(),
            None => { return Err(ParseError::Malformed) },
        };
        let digest = match get_str_member(j, &"digest".to_owned()) {
            Some(s) => s.clone(),
            None => { return Err(ParseError::Malformed) },
        };
        Ok(GithubContainerTag { name, digest })
    }
}

impl GithubPacakgeRegistry {
    pub fn parse(j: &Json) -> (r: Result<GithubPacakgeRegistry, ParseError>)
        ensures
            match r {
                Ok(v) => registry_of(j@) == Some(v@),
                Err(e) => registry_of(j@) is None && e == ParseError::Malformed,
            },
    {
        let name = match get_str_member(j, &"name".to_owned()) {
            Some(s) => s.clone(),
            None => { return Err(ParseError::Malformed) },
        };
        let url = match get_str_member(j, &"url".to_owned()) {
            Some(s) => s.clone(),
            None => { return Err(ParseError::Malformed) },
        };
        let vendor = match get_str_member(j, &"vendor".to_owned()) {
            Some(s) => s.clone(),
            None => { return Err(ParseError::Malformed) },
        };
        Ok(GithubPacakgeRegistry { name, url, vendor })
    }
}

} // verus!
