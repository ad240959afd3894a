//! Check-run id resolution.
//!
//! A terminated container must be attributed to the external check-run it
//! reports under. Two interchangeable strategies exist: read the id from
//! the `CHECK_RUN_ID` environment variable declared in that container's
//! pod-spec entry, or look the container name up in a pre-supplied table.
//! When no id can be resolved the sidecar aborts: silently skipping the
//! container would break exactly-once reporting.

use vstd::prelude::*;
use crate::errors::SidecarError;
use crate::text::{parse_i32, parse_i32_spec, str_eq};

verus! {

/// The name of the environment variable holding a container's check-run id.
pub open spec fn check_run_key() -> Seq<char> {
    "CHECK_RUN_ID"@
}

/// One declared environment variable of a container, from the pod spec.
pub struct EnvEntry {
    pub name: String,
    pub value: Option<String>,
}

/// One container declaration of the pod spec: its name and its declared
/// environment.
pub struct PodSpecContainer {
    pub name: String,
    pub env: Option<Vec<EnvEntry>>,
}

/// One row of a pre-supplied container-name to check-run id table.
pub struct TableEntry {
    pub name: String,
    pub id: i32,
}

/// The strategy for mapping a container name to its check-run id.
pub enum Resolver {
    /// Read the id from the container's declared `CHECK_RUN_ID` variable.
    EnvLookup,
    /// Look the container name up in a pre-parsed table.
    TableLookup { table: Vec<TableEntry> },
}

/// The first container declaration named `name`, if any.
pub open spec fn find_container(
    cs: Seq<PodSpecContainer>,
    name: Seq<char>,
) -> Option<PodSpecContainer>
    decreases cs.len(),
{
    if cs.len() == 0 {
        None
    } else if cs[0].name@ == name {
        Some(cs[0])
    } else {
        find_container(cs.drop_first(), name)
    }
}

/// The first environment entry named `key`, if any.
pub open spec fn find_env(es: Seq<EnvEntry>, key: Seq<char>) -> Option<EnvEntry>
    decreases es.len(),
{
    if es.len() == 0 {
        None
    } else if es[0].name@ == key {
        Some(es[0])
    } else {
        find_env(es.drop_first(), key)
    }
}

/// The first table row for `name`, if any.
pub open spec fn find_table(ts: Seq<TableEntry>, name: Seq<char>) -> Option<TableEntry>
    decreases ts.len(),
{
    if ts.len() == 0 {
        None
    } else if ts[0].name@ == name {
        Some(ts[0])
    } else {
        find_table(ts.drop_first(), name)
    }
}

/// What env-lookup resolution returns: the container must be declared in
/// the pod spec (else the collaborator broke its contract), must declare a
/// `CHECK_RUN_ID` variable with a value, and the value must parse as a
/// 32-bit decimal integer; any missing link is fatal.
pub open spec fn env_resolve_spec(
    cs: Seq<PodSpecContainer>,
    name: Seq<char>,
) -> Result<i32, SidecarError> {
    match find_container(cs, name) {
        None => Err(SidecarError::UnexpectedShape),
        Some(c) => match c.env {
            None => Err(SidecarError::IdResolutionError),
            Some(es) => match find_env(es@, check_run_key()) {
                None => Err(SidecarError::IdResolutionError),
                Some(e) => match e.value {
                    None => Err(SidecarError::IdResolutionError),
                    Some(v) => match parse_i32_spec(v@) {
                        None => Err(SidecarError::IdResolutionError),
                        Some(n) => Ok(n as i32),
                    },
                },
            },
        },
    }
}

/// What table-lookup resolution returns: the id of the first row for
/// `name`, and a fatal error when the table has none.
pub open spec fn table_resolve_spec(
    ts: Seq<TableEntry>,
    name: Seq<char>,
) -> Result<i32, SidecarError> {
    match find_table(ts, name) {
        None => Err(SidecarError::IdResolutionError),
        Some(e) => Ok(e.id),
    }
}

/// What resolution returns under each strategy.
pub open spec fn resolve_spec(
    r: Resolver,
    cs: Seq<PodSpecContainer>,
    name: Seq<char>,
) -> Result<i32, SidecarError> {
    match r {
        Resolver::EnvLookup => env_resolve_spec(cs, name),
        Resolver::TableLookup { table } => table_resolve_spec(table@, name),
    }
}

impl Resolver {
    /// Resolve the check-run id that the container `name` reports under.
    pub fn resolve(&self, spec_containers: &Vec<PodSpecContainer>, name: &str) -> (r: Result<
        i32,
        SidecarError,
    >)
        ensures
            r == resolve_spec(*self, spec_containers@, name@),
    {
        match self {
            Resolver::EnvLookup => resolve_from_env(spec_containers, name),
            Resolver::TableLookup { table } => resolve_from_table(table, name),
        }
    }
}

/// Env-lookup resolution, per [`env_resolve_spec`].
fn resolve_from_env(spec_containers: &Vec<PodSpecContainer>, name: &str) -> (r: Result<
    i32,
    SidecarError,
>)
    ensures
        r == env_resolve_spec(spec_containers@, name@),
{
    let cs = spec_containers;
    let len = cs.len();
    proof {
        assert(cs@.skip(0) =~= cs@);
    }
    let mut i: usize = 0;
    while i < len
        invariant
            i <= len,
            cs == spec_containers,
            len == cs@.len(),
            find_container(cs@, name@) == find_container(cs@.skip(i as int), name@),
        decreases len - i,
    {
        proof {
            let rest = cs@.skip(i as int);
            assert(rest[0] == cs@[i as int]);
            assert(rest.drop_first() =~= cs@.skip(i + 1 as int));
        }
        let c = &cs[i];
        if str_eq(c.name.as_str(), name) {
            proof {
                assert(find_container(cs@, name@) == Some(cs@[i as int]));
            }
            match &c.env {
                None => {
                    return Err(SidecarError::IdResolutionError);
                },
                Some(envs) => {
                    return resolve_from_envs(envs, Ghost(cs@), Ghost(name@), Ghost(i as int));
                },
            }
        }
        i = i + 1;
    }
    proof {
        assert(cs@.skip(len as int) =~= Seq::<PodSpecContainer>::empty());
    }
    Err(SidecarError::UnexpectedShape)
}

/// Search a found container's declared environment for `CHECK_RUN_ID` and
/// parse its value.
fn resolve_from_envs(
    envs: &Vec<EnvEntry>,
    Ghost(cs): Ghost<Seq<PodSpecContainer>>,
    Ghost(name): Ghost<Seq<char>>,
    Ghost(ci): Ghost<int>,
) -> (r: Result<i32, SidecarError>)
    requires
        0 <= ci < cs.len(),
        find_container(cs, name) == Some(cs[ci]),
        cs[ci].env == Some(*envs),
    ensures
        r == env_resolve_spec(cs, name),
{
    let len = envs.len();
    proof {
        assert(envs@.skip(0) =~= envs@);
    }
    let mut i: usize = 0;
    while i < len
        invariant
            i <= len,
            len == envs@.len(),
            0 <= ci < cs.len(),
            find_container(cs, name) == Some(cs[ci]),
            cs[ci].env == Some(*envs),
            find_env(envs@, check_run_key()) == find_env(envs@.skip(i as int), check_run_key()),
        decreases len - i,
    {
        proof {
            let rest = envs@.skip(i as int);
            assert(rest[0] == envs@[i as int]);
            assert(rest.drop_first() =~= envs@.skip(i + 1 as int));
        }
        let e = &envs[i];
        if str_eq(e.name.as_str(), "CHECK_RUN_ID") {
            proof {
                assert(find_env(envs@, check_run_key()) == Some(envs@[i as int]));
            }
            match &e.value {
                None => {
                    return Err(SidecarError::IdResolutionError);
                },
                Some(v) => {
                    match parse_i32(v.as_str()) {
                        None => {
                            return Err(SidecarError::IdResolutionError);
                        },
                        Some(id) => {
                            return Ok(id);
                        },
                    }
                },
            }
        }
        i = i + 1;
    }
    proof {
        assert(envs@.skip(len as int) =~= Seq::<EnvEntry>::empty());
    }
    Err(SidecarError::IdResolutionError)
}

/// Table-lookup resolution, per [`table_resolve_spec`].
fn resolve_from_table(table: &Vec<TableEntry>, name: &str) -> (r: Result<i32, SidecarError>)
    ensures
        r == table_resolve_spec(table@, name@),
{
    let len = table.len();
    proof {
        assert(table@.skip(0) =~= table@);
    }
    let mut i: usize = 0;
    while i < len
        invariant
            i <= len,
            len == table@.len(),
            find_table(table@, name@) == find_table(table@.skip(i as int), name@),
        decreases len - i,
    {
        proof {
            let rest = table@.skip(i as int);
            assert(rest[0] == table@[i as int]);
            assert(rest.drop_first() =~= table@.skip(i + 1 as int));
        }
        let e = &table[i];
        if str_eq(e.name.as_str(), name) {
            proof {
                assert(find_table(table@, name@) == Some(table@[i as int]));
            }
            return Ok(e.id);
        }
        i = i + 1;
    }
    proof {
        assert(table@.skip(len as int) =~= Seq::<TableEntry>::empty());
    }
    Err(SidecarError::IdResolutionError)
}

} // verus!
