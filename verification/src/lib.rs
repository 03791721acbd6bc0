pub mod json;
pub mod nomad;
pub mod webhook;

use vstd::prelude::*;

use crate::json::{
    assoc_get, jval, lemma_assoc_get_corresponds, lemma_jval_members_index, member_of,
    str_member_of, Json, JsonV,
};

verus! {

/// An executable action a webhook route can be configured with. The variant
/// set is closed; the source encoding is a one-member object naming the
/// variant, `{"RestartJob": {"id": "<job-id>"}}`.
#[derive(Debug, PartialEq, Eq)]
pub enum Task {
    RestartJob { id: String },
}

/// The mathematical value of a task.
pub enum TaskV {
    RestartJob { id: Seq<char> },
}

impl View for Task {
    type V = TaskV;

    open spec fn view(&self) -> TaskV {
        match self {
            Task::RestartJob { id } => TaskV::RestartJob { id: id@ },
        }
    }
}

impl Task {
    /// A copy of the task with the same value.
    pub fn duplicate(&self) -> (r: Task)
        ensures
            r == *self,
    {
        match self {
            Task::RestartJob { id } => Task::RestartJob { id: id.clone() },
        }
    }
}

/// Why a configuration document was not turned into a route table.
#[derive(Debug, PartialEq, Eq)]
pub enum LoadError {
    /// The source of the document could not be read at all.
    Io,
    /// The document does not match the two-level map-of-tasks shape.
    Malformed,
}

/// The task descriptor under a tag name: a one-member object naming the
/// variant, whose inner object carries the job id under `id`. Members beyond
/// `id` are tolerated; a second variant-level member is not.
pub open spec fn task_of(j: JsonV) -> Option<TaskV> {
    match j {
        JsonV::Obj(ms) => if ms.len() == 1 && ms[0].0 == "RestartJob"@ {
            match str_member_of(ms[0].1, "id"@) {
                Some(id) => Some(TaskV::RestartJob { id }),
                None => None,
            }
        } else {
            None
        },
        _ => None,
    }
}

/// The tag-name-to-task routes encoded by the members of one endpoint object.
pub open spec fn routes_of_members(ms: Seq<(Seq<char>, JsonV)>) -> Option<
    Seq<(Seq<char>, TaskV)>,
>
    decreases ms.len(),
{
    if ms.len() == 0 {
        Some(Seq::empty())
    } else {
        match (routes_of_members(ms.drop_last()), task_of(ms.last().1)) {
            (Some(rest), Some(t)) => Some(rest.push((ms.last().0, t))),
            _ => None,
        }
    }
}

/// The routes encoded by one endpoint value, which must be an object.
pub open spec fn routes_of(j: JsonV) -> Option<Seq<(Seq<char>, TaskV)>> {
    match j {
        JsonV::Obj(ms) => routes_of_members(ms),
        _ => None,
    }
}

/// The route table encoded by the members of the top-level object.
pub open spec fn table_of_members(ms: Seq<(Seq<char>, JsonV)>) -> Option<
    Seq<(Seq<char>, Seq<(Seq<char>, TaskV)>)>,
>
    decreases ms.len(),
{
    if ms.len() == 0 {
        Some(Seq::empty())
    } else {
        match (table_of_members(ms.drop_last()), routes_of(ms.last().1)) {
            (Some(rest), Some(rs)) => Some(rest.push((ms.last().0, rs))),
            _ => None,
        }
    }
}

/// The route table encoded by a configuration document: a two-level
/// map-of-objects, every leaf a task descriptor. Any malformed entry spoils
/// the whole document.
pub open spec fn table_of(j: JsonV) -> Option<Seq<(Seq<char>, Seq<(Seq<char>, TaskV)>)>> {
    match j {
        JsonV::Obj(ms) => table_of_members(ms),
        _ => None,
    }
}

proof fn lemma_routes_of_members_none(ms: Seq<(Seq<char>, JsonV)>, i: int)
    requires
        0 <= i < ms.len(),
        task_of(ms[i].1) is None,
    ensures
        routes_of_members(ms) is None,
    decreases ms.len(),
{
    if i < ms.len() - 1 {
        lemma_routes_of_members_none(ms.drop_last(), i);
        assert(ms.drop_last()[i] == ms[i]);
    }
}

proof fn lemma_table_of_members_none(ms: Seq<(Seq<char>, JsonV)>, i: int)
    requires
        0 <= i < ms.len(),
        routes_of(ms[i].1) is None,
    ensures
        table_of_members(ms) is None,
    decreases ms.len(),
{
    if i < ms.len() - 1 {
        lemma_table_of_members_none(ms.drop_last(), i);
        assert(ms.drop_last()[i] == ms[i]);
    }
}

/// The task a configuration document itself holds under an endpoint name and
/// a tag name, read directly off the document.
pub open spec fn document_task(d: JsonV, e: Seq<char>, t: Seq<char>) -> Option<TaskV> {
    match member_of(d, e) {
        Some(sub) => match member_of(sub, t) {
            Some(leaf) => task_of(leaf),
            None => None,
        },
        None => None,
    }
}

proof fn lemma_routes_members_corr(ms: Seq<(Seq<char>, JsonV)>, rs: Seq<(Seq<char>, TaskV)>)
    requires
        routes_of_members(ms) == Some(rs),
    ensures
        rs.len() == ms.len(),
        forall|i: int| 0 <= i < ms.len() ==> #[trigger] rs[i].0 == ms[i].0,
        forall|i: int| 0 <= i < ms.len() ==> #[trigger] task_of(ms[i].1) == Some(rs[i].1),
    decreases ms.len(),
{
    if ms.len() > 0 {
        let rest = routes_of_members(ms.drop_last()).unwrap();
        lemma_routes_members_corr(ms.drop_last(), rest);
        assert(forall|i: int| 0 <= i < ms.len() - 1 ==> ms.drop_last()[i] == ms[i]);
    }
}

proof fn lemma_table_members_corr(
    ms: Seq<(Seq<char>, JsonV)>,
    tb: Seq<(Seq<char>, Seq<(Seq<char>, TaskV)>)>,
)
    requires
        table_of_members(ms) == Some(tb),
    ensures
        tb.len() == ms.len(),
        forall|i: int| 0 <= i < ms.len() ==> #[trigger] tb[i].0 == ms[i].0,
        forall|i: int| 0 <= i < ms.len() ==> #[trigger] routes_of(ms[i].1) == Some(tb[i].1),
    decreases ms.len(),
{
    if ms.len() > 0 {
        let rest = table_of_members(ms.drop_last()).unwrap();
        lemma_table_members_corr(ms.drop_last(), rest);
        assert(forall|i: int| 0 <= i < ms.len() - 1 ==> ms.drop_last()[i] == ms[i]);
    }
}

/// Law: a route table built from a configuration document resolves every
/// endpoint-name and tag-name pair to exactly the task the document holds
/// there, and to nothing where the document holds none.
pub proof fn lemma_table_resolves_as_document(c: Config, d: JsonV, e: Seq<char>, t: Seq<char>)
    requires
        table_of(d) == Some(c.table()),
    ensures
        c.spec_resolve(e, t) == document_task(d, e, t),
{
    let dms = d->Obj_0;
    let tb = c.table();
    lemma_table_members_corr(dms, tb);
    lemma_assoc_get_corresponds(
        dms,
        tb,
        e,
        (|v: JsonV, w: Seq<(Seq<char>, TaskV)>| routes_of(v) == Some(w)),
    );
    match assoc_get(dms, e) {
        Some(sub) => {
            let rs = assoc_get(tb, e)->Some_0;
            assert(routes_of(sub) == Some(rs));
            let sms = sub->Obj_0;
            lemma_routes_members_corr(sms, rs);
            lemma_assoc_get_corresponds(
                sms,
                rs,
                t,
                (|leaf: JsonV, tv: TaskV| task_of(leaf) == Some(tv)),
            );
        },
        None => {},
    }
}

/// The value of one endpoint's routes.
pub open spec fn routes_val(rs: Seq<(String, Task)>) -> Seq<(Seq<char>, TaskV)> {
    Seq::new(rs.len(), |i: int| (rs[i].0@, rs[i].1@))
}

/// The value of the whole endpoint map.
pub open spec fn endpoints_val(es: Seq<(String, Vec<(String, Task)>)>) -> Seq<
    (Seq<char>, Seq<(Seq<char>, TaskV)>),
> {
    Seq::new(es.len(), |i: int| (es[i].0@, routes_val(es[i].1@)))
}

/// The route table: endpoint name to tag name to task, loaded once at startup
/// and immutable afterwards. Lookups are first-match over the source order.
#[derive(Debug, PartialEq, Eq)]
pub struct Config {
    pub endpoints: Vec<(String, Vec<(String, Task)>)>,
}

impl Config {
    /// The table as the contracts see it.
    pub open spec fn table(&self) -> Seq<(Seq<char>, Seq<(Seq<char>, TaskV)>)> {
        endpoints_val(self.endpoints@)
    }

    /// The routes configured for an endpoint name.
    pub open spec fn spec_endpoint(&self, name: Seq<char>) -> Option<Seq<(Seq<char>, TaskV)>> {
        assoc_get(self.table(), name)
    }

    /// The task configured for an endpoint name and a tag name.
    pub open spec fn spec_resolve(&self, endpoint_name: Seq<char>, tag_name: Seq<char>) -> Option<
        TaskV,
    > {
        match self.spec_endpoint(endpoint_name) {
            Some(rs) => assoc_get(rs, tag_name),
            None => None,
        }
    }

    /// Two-level exact-match lookup, case-sensitive on both keys.
    pub fn resolve(&self, endpoint_name: &String, tag_name: &String) -> (r: Option<&Task>)
        ensures
            match r {
                Some(t) => self.spec_resolve(endpoint_name@, tag_name@) == Some(t@),
                None => self.spec_resolve(endpoint_name@, tag_name@) is None,
            },
    {
        match self.endpoint_routes(endpoint_name) {
            Some(rs) => Self::find_route(rs, tag_name),
            None => None,
        }
    }

    /// The configured routes of one endpoint, if any.
    pub fn endpoint_routes(&self, endpoint_name: &String) -> (r: Option<
        &Vec<(String, Task)>,
    >)
        ensures
            match r {
                Some(rs) => self.spec_endpoint(endpoint_name@) == Some(routes_val(rs@)),
                None => self.spec_endpoint(endpoint_name@) is None,
            },
    {
        let es = &self.endpoints;
        let mut i: usize = 0;
        while i < es.len()
            invariant
                0 <= i <= es@.len(),
                es == &self.endpoints,
                forall|k: int| 0 <= k < i ==> #[trigger] es@[k].0@ != endpoint_name@,
        decreases es@.len() - i,
        {
            if es[i].0 == *endpoint_name {
                proof {
                    assert(forall|k: int|
                        0 <= k < i ==> #[trigger] self.table()[k].0 != endpoint_name@);
                    crate::json::lemma_assoc_get_at(self.table(), endpoint_name@, i as int);
                }
                return Some(&es[i].1);
            }
            i += 1;
        }
        proof {
            assert(forall|k: int|
                0 <= k < es@.len() ==> #[trigger] self.table()[k].0 != endpoint_name@);
            crate::json::lemma_assoc_get_none(self.table(), endpoint_name@);
        }
        None
    }

    /// Builds the route table from an already-read configuration document.
    /// Any entry off the schema invalidates the whole document.
    pub fn from_document(doc: &Json) -> (r: Result<Config, LoadError>)
        ensures
            match r {
                Ok(c) => table_of(doc@) == Some(c.table()),
                Err(e) => table_of(doc@) is None && e == LoadError::Malformed,
            },
    {
        let ms = match doc {
            Json::Obj(ms) => ms,
            _ => { return Err(LoadError::Malformed) },
        };
        let ghost mv: Seq<(Seq<char>, JsonV)> = doc@->Obj_0;
        proof {
            lemma_jval_members_index(ms@);
        }
        let mut endpoints: Vec<(String, Vec<(String, Task)>)> = Vec::new();
        let mut i: usize = 0;
        while i < ms.len()
            invariant
                0 <= i <= ms@.len(),
                *doc matches Json::Obj(m) && m == *ms,
                mv == doc@->Obj_0,
                mv.len() == ms@.len(),
                forall|k: int| 0 <= k < ms@.len() ==> mv[k] == (ms@[k].0@, jval(ms@[k].1)),
                table_of_members(mv.take(i as int)) == Some(endpoints_val(endpoints@)),
            decreases ms@.len() - i,
        {
            let rs = match Self::parse_routes(&ms[i].1) {
                Ok(rs) => rs,
                Err(e) => {
                    proof {
                        lemma_table_of_members_none(mv, i as int);
                    }
                    return Err(e);
                },
            };
            let ghost old_endpoints = endpoints@;
            endpoints.push((ms[i].0.clone(), rs));
            i += 1;
            proof {
                let j = i as int;
                assert(mv.take(j).drop_last() =~= mv.take(j - 1));
                assert(endpoints_val(endpoints@) =~= endpoints_val(old_endpoints).push(
                    (mv[j - 1].0, routes_val(rs@)),
                ));
            }
        }
        proof {
            assert(mv.take(ms@.len() as int) =~= mv);
        }
        Ok(Config { endpoints })
    }

    /// Turns one endpoint's configuration object into its routes.
    pub fn parse_routes(j: &Json) -> (r: Result<Vec<(String, Task)>, LoadError>)
        ensures
            match r {
                Ok(rs) => routes_of(j@) == Some(routes_val(rs@)),
                Err(e) => routes_of(j@) is None && e == LoadError::Malformed,
            },
    {
        let ms = match j {
            Json::Obj(ms) => ms,
            _ => { return Err(LoadError::Malformed) },
        };
        let ghost mv: Seq<(Seq<char>, JsonV)> = j@->Obj_0;
        proof {
            lemma_jval_members_index(ms@);
        }
        let mut routes: Vec<(String, Task)> = Vec::new();
        let mut i: usize = 0;
        while i < ms.len()
            invariant
                0 <= i <= ms@.len(),
                *j matches Json::Obj(m) && m == *ms,
                mv == j@->Obj_0,
                mv.len() == ms@.len(),
                forall|k: int| 0 <= k < ms@.len() ==> mv[k] == (ms@[k].0@, jval(ms@[k].1)),
                routes_of_members(mv.take(i as int)) == Some(routes_val(routes@)),
            decreases ms@.len() - i,
        {
            let t = match Self::parse_task(&ms[i].1) {
                Ok(t) => t,
                Err(e) => {
                    proof {
                        lemma_routes_of_members_none(mv, i as int);
                    }
                    return Err(e);
                },
            };
            let ghost old_routes = routes@;
            routes.push((ms[i].0.clone(), t));
            i += 1;
            proof {
                let k = i as int;
                assert(mv.take(k).drop_last() =~= mv.take(k - 1));
                assert(routes_val(routes@) =~= routes_val(old_routes).push((mv[k - 1].0, t@)));
            }
        }
        proof {
            assert(mv.take(ms@.len() as int) =~= mv);
        }
        Ok(routes)
    }

    /// Turns one task descriptor object into a task.
    pub fn parse_task(j: &Json) -> (r: Result<Task, LoadError>)
        ensures
            match r {
                Ok(t) => task_of(j@) == Some(t@),
                Err(e) => task_of(j@) is None && e == LoadError::Malformed,
            },
    {
        let ms = match j {
            Json::Obj(ms) => ms,
            _ => { return Err(LoadError::Malformed) },
        };
        proof {
            lemma_jval_members_index(ms@);
        }
        if ms.len() != 1 {
            return Err(LoadError::Malformed);
        }
        if !(ms[0].0 == "RestartJob".to_owned()) {
            return Err(LoadError::Malformed);
        }
        match crate::json::get_str_member(&ms[0].1, &"id".to_owned()) {
            Some(id) => Ok(Task::RestartJob { id: id.clone() }),
            None => Err(LoadError::Malformed),
        }
    }

    /// Reads a configuration document from raw bytes and builds the route
    /// table. Content that is not valid JSON, or off the schema, is refused
    /// whole.
    pub fn load(content: &[u8]) -> (r: Result<Config, LoadError>)
        ensures
            match r {
                Ok(c) => crate::json::json_of(content@) matches Some(d) && table_of(d) == Some(
                    c.table(),
                ),
                Err(e) => e == LoadError::Malformed && (crate::json::json_of(content@) matches Some(
                    d,
                ) ==> table_of(d) is None),
            },
    {
        let doc = match crate::json::parse_json(content) {
            Some(d) => d,
            None => { return Err(LoadError::Malformed) },
        };
        let c = match Self::from_document(&doc) {
            Ok(c) => c,
            Err(e) => { return Err(e) },
        };
        Ok(c)
    }

    /// First-match search among one endpoint's routes.
    pub fn find_route<'a>(rs: &'a Vec<(String, Task)>, tag_name: &String) -> (r: Option<&'a Task>)
        ensures
            match r {
                Some(t) => assoc_get(routes_val(rs@), tag_name@) == Some(t@),
                None => assoc_get(routes_val(rs@), tag_name@) is None,
            },
    {
        let mut i: usize = 0;
        while i < rs.len()
            invariant
                0 <= i <= rs@.len(),
                forall|k: int| 0 <= k < i ==> #[trigger] rs@[k].0@ != tag_name@,
            decreases rs@.len() - i,
        {
            if rs[i].0 == *tag_name {
                proof {
                    assert(forall|k: int|
                        0 <= k < i ==> #[trigger] routes_val(rs@)[k].0 != tag_name@);
                    crate::json::lemma_assoc_get_at(routes_val(rs@), tag_name@, i as int);
                }
                return Some(&rs[i].1);
            }
            i += 1;
        }
        proof {
            assert(forall|k: int|
                0 <= k < rs@.len() ==> #[trigger] routes_val(rs@)[k].0 != tag_name@);
            crate::json::lemma_assoc_get_none(routes_val(rs@), tag_name@);
        }
        None
    }
}

/// The orchestrator endpoint: the base URL the two call paths are appended
/// to, of the shape `scheme://host:port`. Immutable after construction and
/// shared read-only across concurrent handlers.
#[derive(Debug, PartialEq, Eq)]
pub struct NomadConfig {
    pub endpoint: String,
}

impl NomadConfig {
    /// Wraps the base URL.
    pub fn new(url: String) -> (c: NomadConfig)
        ensures
            c.endpoint@ == url@,
    {
        NomadConfig { endpoint: url }
    }
}

/// The terminal decision for one inbound request. The transport answers with
/// the matching status after running the task, if one is handed back.
#[derive(Debug, PartialEq, Eq)]
pub enum Dispatch {
    /// The path names no configured endpoint: not found.
    UnknownEndpoint,
    /// The body fails structural validation: bad request.
    InvalidPayload,
    /// The body is well-shaped but its tag has no configured action: bad
    /// request, distinct from the unknown endpoint so operators can tell a
    /// misconfiguration apart.
    UnroutedTag,
    /// The configured task to execute; the answer is success once it ran,
    /// whatever came of the individual orchestrator calls.
    Execute(Task),
}

/// The mathematical value of a dispatch decision.
pub enum DispatchV {
    UnknownEndpoint,
    InvalidPayload,
    UnroutedTag,
    Execute(TaskV),
}

impl View for Dispatch {
    type V = DispatchV;

    open spec fn view(&self) -> DispatchV {
        match self {
            Dispatch::UnknownEndpoint => DispatchV::UnknownEndpoint,
            Dispatch::InvalidPayload => DispatchV::InvalidPayload,
            Dispatch::UnroutedTag => DispatchV::UnroutedTag,
            Dispatch::Execute(t) => DispatchV::Execute(t@),
        }
    }
}

/// The dispatch decision for an endpoint name and a body: endpoint first,
/// then the body's shape, then the tag's route.
pub open spec fn dispatch_of(c: Config, endpoint_name: Seq<char>, body: JsonV) -> DispatchV {
    if c.spec_endpoint(endpoint_name) is None {
        DispatchV::UnknownEndpoint
    } else {
        match crate::webhook::payload_of(body) {
            None => DispatchV::InvalidPayload,
            Some(p) => match c.spec_resolve(
                endpoint_name,
                p.package.package_version.container_metadata.tag.name,
            ) {
                Some(t) => DispatchV::Execute(t),
                None => DispatchV::UnroutedTag,
            },
        }
    }
}

/// The status the webhook caller observes: acknowledgment of receipt and
/// routing, never of orchestration outcome.
pub open spec fn spec_status(d: DispatchV) -> u16 {
    match d {
        DispatchV::UnknownEndpoint => 404,
        DispatchV::InvalidPayload => 400,
        DispatchV::UnroutedTag => 400,
        DispatchV::Execute(_) => 200,
    }
}

/// The request-handling decision: resolve the endpoint, validate the body,
/// resolve the tag, and hand back the configured task or the failure that
/// ends the request. The advisory action check is not applied here: dispatch
/// stays permissive about the action value.
pub fn webhook(config: &Config, endpoint_name: &String, body: &Json) -> (d: Dispatch)
    ensures
        d@ == dispatch_of(*config, endpoint_name@, body@),
{
    let routes = match config.endpoint_routes(endpoint_name) {
        Some(rs) => rs,
        None => { return Dispatch::UnknownEndpoint },
    };
    let payload = match crate::webhook::GithubPackagePayload::parse(body) {
        Ok(p) => p,
        Err(_) => { return Dispatch::InvalidPayload },
    };
    let tag_name = &payload.package.package_version.container_metadata.tag.name;
    match Config::find_route(routes, tag_name) {
        Some(t) => Dispatch::Execute(t.duplicate()),
        None => Dispatch::UnroutedTag,
    }
}

/// The decision from raw body bytes: the body is read as JSON here, and
/// bytes that are not JSON count as an invalid payload. The unknown-endpoint
/// answer is decided before the body is looked at.
pub fn webhook_bytes(config: &Config, endpoint_name: &String, body: &[u8]) -> (d: Dispatch)
    ensures
        d@ == match crate::json::json_of(body@) {
            Some(b) => dispatch_of(*config, endpoint_name@, b),
            None => if config.spec_endpoint(endpoint_name@) is None {
                DispatchV::UnknownEndpoint
            } else {
                DispatchV::InvalidPayload
            },
        },
{
    if config.endpoint_routes(endpoint_name).is_none() {
        return Dispatch::UnknownEndpoint;
    }
    match crate::json::parse_json(body) {
        Some(doc) => webhook(config, endpoint_name, &doc),
        None => Dispatch::InvalidPayload,
    }
}

/// The status line for a decision.
pub fn status_code(d: &Dispatch) -> (c: u16)
    ensures
        c == spec_status(d@),
{
    match d {
        Dispatch::UnknownEndpoint => 404,
        Dispatch::InvalidPayload => 400,
        Dispatch::UnroutedTag => 400,
        Dispatch::Execute(_) => 200,
    }
}

/// Law: a body missing any required field of the notification shape is
/// answered as a bad request, and no task is handed back to run.
pub proof fn lemma_malformed_payload_rejected(c: Config, e: Seq<char>, body: JsonV)
    requires
        c.spec_endpoint(e) is Some,
        crate::webhook::payload_of(body) is None,
    ensures
        dispatch_of(c, e, body) == DispatchV::InvalidPayload,
        spec_status(dispatch_of(c, e, body)) == 400,
{
}

/// Law: a well-shaped body whose tag name has no action under the resolved
/// endpoint is answered as a bad request, and no task is handed back to run.
pub proof fn lemma_unrouted_tag_rejected(c: Config, e: Seq<char>, body: JsonV)
    requires
        c.spec_endpoint(e) is Some,
        crate::webhook::payload_of(body) is Some,
        c.spec_resolve(
            e,
            crate::webhook::payload_of(body)->Some_0.package.package_version.container_metadata.tag.name,
        ) is None,
    ensures
        dispatch_of(c, e, body) == DispatchV::UnroutedTag,
        spec_status(dispatch_of(c, e, body)) == 400,
{
}

/// Law: a path naming no configured endpoint is answered not-found, whatever
/// the body holds, and no task is handed back to run.
pub proof fn lemma_unknown_endpoint_rejected(c: Config, e: Seq<char>, body: JsonV)
    requires
        c.spec_endpoint(e) is None,
    ensures
        dispatch_of(c, e, body) == DispatchV::UnknownEndpoint,
        spec_status(dispatch_of(c, e, body)) == 404,
{
}

/// What one task execution did: the ids of the instances whose restart call
/// failed. An empty list is full success; the webhook answer never depends
/// on it.
#[derive(Debug, PartialEq, Eq)]
pub struct ExecutionOutcome {
    pub failed: Vec<String>,
}

/// The ids whose restart result came back false, in order.
pub open spec fn failed_ids(results: Seq<(Seq<char>, bool)>) -> Seq<Seq<char>>
    decreases results.len(),
{
    if results.len() == 0 {
        Seq::empty()
    } else {
        let rest = failed_ids(results.drop_last());
        if !results.last().1 {
            rest.push(results.last().0)
        } else {
            rest
        }
    }
}

impl ExecutionOutcome {
    /// Gathers per-instance restart results; a false second component marks a
    /// failed restart call. One instance's failure never hides another's
    /// result.
    pub fn collect(results: &Vec<(String, bool)>) -> (r: ExecutionOutcome)
        ensures
            r.failed.deep_view() == failed_ids(results.deep_view()),
    {
        let mut failed: Vec<String> = Vec::new();
        let mut i: usize = 0;
        proof {
            assert(failed.deep_view() =~= failed_ids(results.deep_view().take(0)));
        }
        while i < results.len()
            invariant
                0 <= i <= results@.len(),
                results.deep_view().len() == results@.len(),
                failed.deep_view() == failed_ids(results.deep_view().take(i as int)),
            decreases results@.len() - i,
        {
            let ghost old_deep = failed.deep_view();
            if !results[i].1 {
                failed.push(results[i].0.clone());
            }
            i += 1;
            proof {
                let k = i as int;
                assert(results.deep_view().take(k).drop_last() =~= results.deep_view().take(k - 1));
                assert(results.deep_view().take(k).last() == (results@[k - 1].0@, results@[k - 1].1));
                if !results@[k - 1].1 {
                    assert(failed.deep_view() =~= old_deep.push(results@[k - 1].0@));
                } else {
                    assert(failed.deep_view() =~= old_deep);
                }
            }
        }
        proof {
            assert(results.deep_view().take(results@.len() as int) =~= results.deep_view());
        }
        ExecutionOutcome { failed }
    }

    /// Whether every attempted restart went through.
    pub fn fully_succeeded(&self) -> (b: bool)
        ensures
            b == (self.failed@.len() == 0),
    {
        self.failed.len() == 0
    }
}

} // verus!
