use vstd::prelude::*;

use crate::json::{str_member_of, Json, JsonV};
use vstd::string::StringExecFns;

verus! {

/// The listing path for a job: `/v1/job/{job_id}/allocations`.
pub fn allocations_path(job_id: &String) -> (p: String)
    ensures
        p@ == "/v1/job/"@ + job_id@ + "/allocations"@,
{
    let mut p = "/v1/job/".to_owned();
    p.append(job_id.as_str());
    p.append("/allocations");
    p
}

/// The restart path for an instance: `/v1/client/allocation/{id}/restart`.
pub fn restart_path(alloc_id: &String) -> (p: String)
    ensures
        p@ == "/v1/client/allocation/"@ + alloc_id@ + "/restart"@,
{
    let mut p = "/v1/client/allocation/".to_owned();
    p.append(alloc_id.as_str());
    p.append("/restart");
    p
}

/// The body of a restart call: every task of the instance is restarted.
pub fn restart_body() -> (b: String)
    ensures
        b@ == "{\"AllTasks\":true}"@,
{
    "{\"AllTasks\":true}".to_owned()
}

/// One running placement of a job on the orchestrator. Only `id` is acted
/// upon; `name` is informational; `client_status` decides whether a restart
/// is attempted.
#[derive(Debug, PartialEq, Eq)]
pub struct Allocation {
    pub id: String,
    pub name: String,
    pub client_status: String,
}

/// The mathematical value of an allocation.
pub struct AllocationV {
    pub id: Seq<char>,
    pub name: Seq<char>,
    pub client_status: Seq<char>,
}

impl View for Allocation {
    type V = AllocationV;

    open spec fn view(&self) -> AllocationV {
        AllocationV { id: self.id@, name: self.name@, client_status: self.client_status@ }
    }
}

/// The instances a job owns, fetched fresh per task execution.
#[derive(Debug, PartialEq, Eq)]
pub struct JobAllocations {
    pub allocs: Vec<Allocation>,
}

/// The value of a list of allocations.
pub open spec fn allocs_val(s: Seq<Allocation>) -> Seq<AllocationV> {
    Seq::new(s.len(), |i: int| s[i]@)
}

impl View for JobAllocations {
    type V = Seq<AllocationV>;

    open spec fn view(&self) -> Seq<AllocationV> {
        allocs_val(self.allocs@)
    }
}

/// Why listing a job's allocations failed.
#[derive(Debug, PartialEq, Eq)]
pub enum ListJobAllocsError {
    /// The request URL could not be built from the base URL.
    CreateUrl,
    /// The request could not be sent at all.
    SendRequest,
    /// The orchestrator answered outside the success range; the status is
    /// kept for diagnostics.
    RequestFailed(u16),
    /// The response body could not be read as a list of allocations.
    LoadingBody,
}

/// One allocation object of the orchestrator's answer: `ID`, `Name` and
/// `ClientStatus`, all strings.
pub open spec fn allocation_of(j: JsonV) -> Option<AllocationV> {
    match (str_member_of(j, "ID"@), str_member_of(j, "Name"@), str_member_of(j, "ClientStatus"@)) {
        (Some(id), Some(name), Some(client_status)) => Some(
            AllocationV { id, name, client_status },
        ),
        _ => None,
    }
}

/// The allocations of a listing answer, element by element; one bad element
/// spoils the whole answer.
pub open spec fn allocations_of_elems(s: Seq<JsonV>) -> Option<Seq<AllocationV>>
    decreases s.len(),
{
    if s.len() == 0 {
        Some(Seq::empty())
    } else {
        match (allocations_of_elems(s.drop_last()), allocation_of(s.last())) {
            (Some(rest), Some(a)) => Some(rest.push(a)),
            _ => None,
        }
    }
}

/// The allocations of a listing answer, which must be an array.
pub open spec fn allocations_of(j: JsonV) -> Option<Seq<AllocationV>> {
    match j {
        JsonV::Arr(items) => allocations_of_elems(items),
        _ => None,
    }
}

proof fn lemma_allocations_of_elems_none(s: Seq<JsonV>, i: int)
    requires
        0 <= i < s.len(),
        allocation_of(s[i]) is None,
    ensures
        allocations_of_elems(s) is None,
    decreases s.len(),
{
    if i < s.len() - 1 {
        lemma_allocations_of_elems_none(s.drop_last(), i);
        assert(s.drop_last()[i] == s[i]);
    }
}

impl Allocation {
    /// Reads one allocation object of the listing answer.
    pub fn parse(j: &Json) -> (r: Result<Allocation, ListJobAllocsError>)
        ensures
            match r {
                Ok(a) => allocation_of(j@) == Some(a@),
                Err(e) => allocation_of(j@) is None && e == ListJobAllocsError::LoadingBody,
            },
    {
        let id = match crate::json::get_str_member(j, &"ID".to_owned()) {
            Some(s) => s.clone(),
            None => { return Err(ListJobAllocsError::LoadingBody) },
        };
        let name = match crate::json::get_str_member(j, &"Name".to_owned()) {
            Some(s) => s.clone(),
            None => { return Err(ListJobAllocsError::LoadingBody) },
        };
        let client_status = match crate::json::get_str_member(j, &"ClientStatus".to_owned()) {
            Some(s) => s.clone(),
            None => { return Err(ListJobAllocsError::LoadingBody) },
        };
        Ok(Allocation { id, name, client_status })
    }
}

/// Reads a listing answer already parsed as JSON.
pub fn parse_allocations(body: &Json) -> (r: Result<JobAllocations, ListJobAllocsError>)
    ensures
        match r {
            Ok(ja) => allocations_of(body@) == Some(ja@),
            Err(e) => allocations_of(body@) is None && e == ListJobAllocsError::LoadingBody,
        },
{
    let items = match body {
        Json::Arr(items) => items,
        _ => { return Err(ListJobAllocsError::LoadingBody) },
    };
    let ghost iv: Seq<JsonV> = body@->Arr_0;
    proof {
        crate::json::lemma_jvals_index(items@);
    }
    let mut allocs: Vec<Allocation> = Vec::new();
    let mut i: usize = 0;
    while i < items.len()
        invariant
            0 <= i <= items@.len(),
            *body matches Json::Arr(v) && v == *items,
            iv == body@->Arr_0,
            iv.len() == items@.len(),
            forall|k: int| 0 <= k < items@.len() ==> iv[k] == crate::json::jval(items@[k]),
            allocations_of_elems(iv.take(i as int)) == Some(allocs_val(allocs@)),
        decreases items@.len() - i,
    {
        let a = match Allocation::parse(&items[i]) {
            Ok(a) => a,
            Err(e) => {
                proof {
                    lemma_allocations_of_elems_none(iv, i as int);
                }
                return Err(e);
            },
        };
        let ghost old_allocs = allocs@;
        let ghost av = a@;
        allocs.push(a);
        i += 1;
        proof {
            let k = i as int;
            assert(iv.take(k).drop_last() =~= iv.take(k - 1));
            assert(allocs_val(allocs@) =~= allocs_val(old_allocs).push(av));
        }
    }
    proof {
        assert(iv.take(items@.len() as int) =~= iv);
    }
    Ok(JobAllocations { allocs })
}

/// Reads a listing answer from raw body bytes; bytes that are not a JSON
/// array of allocation objects fail as a bad body.
pub fn decode_allocations(body: &[u8]) -> (r: Result<JobAllocations, ListJobAllocsError>)
    ensures
        match r {
            Ok(ja) => crate::json::json_of(body@) matches Some(b) && allocations_of(b) == Some(
                ja@,
            ),
            Err(e) => e == ListJobAllocsError::LoadingBody && (crate::json::json_of(body@) matches
                Some(b) ==> allocations_of(b) is None),
        },
{
    let doc = match crate::json::parse_json(body) {
        Some(d) => d,
        None => { return Err(ListJobAllocsError::LoadingBody) },
    };
    let ja = match parse_allocations(&doc) {
        Ok(ja) => ja,
        Err(e) => { return Err(e) },
    };
    Ok(ja)
}

/// The ids to restart: exactly those instances whose client status is the
/// exact, case-sensitive string `running`, in listing order.
pub open spec fn running_ids(s: Seq<AllocationV>) -> Seq<Seq<char>>
    decreases s.len(),
{
    if s.len() == 0 {
        Seq::empty()
    } else {
        let rest = running_ids(s.drop_last());
        if s.last().client_status == "running"@ {
            rest.push(s.last().id)
        } else {
            rest
        }
    }
}

/// Filters a listing to the instances a restart is attempted on.
pub fn running_allocations(ja: &JobAllocations) -> (r: Vec<String>)
    ensures
        r.deep_view() == running_ids(ja@),
{
    let allocs = &ja.allocs;
    let mut out: Vec<String> = Vec::new();
    let mut i: usize = 0;
    proof {
        assert(out.deep_view() =~= running_ids(ja@.take(0)));
    }
    while i < allocs.len()
        invariant
            0 <= i <= allocs@.len(),
            allocs == &ja.allocs,
            ja@.len() == allocs@.len(),
            out.deep_view() == running_ids(ja@.take(i as int)),
        decreases allocs@.len() - i,
    {
        let ghost old_deep = out.deep_view();
        if allocs[i].client_status == "running".to_owned() {
            out.push(allocs[i].id.clone());
        }
        i += 1;
        proof {
            let k = i as int;
            assert(ja@.take(k).drop_last() =~= ja@.take(k - 1));
            assert(ja@.take(k).last() == allocs@[k - 1]@);
            if allocs@[k - 1].client_status@ == "running"@ {
                assert(out.deep_view() =~= old_deep.push(allocs@[k - 1].id@));
            } else {
                assert(out.deep_view() =~= old_deep);
            }
        }
    }
    proof {
        assert(ja@.take(allocs@.len() as int) =~= ja@);
    }
    out
}

/// The fail-fast step of a restart task: a listing that could not be
/// retrieved plans no restarts at all, and a retrieved listing plans exactly
/// its running instances.
pub fn plan_restarts(listing: &Result<JobAllocations, ListJobAllocsError>) -> (r: Vec<String>)
    ensures
        match listing {
            Ok(ja) => r.deep_view() == running_ids(ja@),
            Err(_) => r.deep_view() == Seq::<Seq<char>>::empty(),
        },
{
    match listing {
        Ok(ja) => running_allocations(ja),
        Err(_) => {
            let out: Vec<String> = Vec::new();
            proof {
                assert(out.deep_view() =~= Seq::<Seq<char>>::empty());
            }
            out
        },
    }
}

} // verus!
