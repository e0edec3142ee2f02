//! The registry of running deployments.

pub mod store;

use vstd::prelude::*;
use self::store::Registry;

verus! {

/// A deployed function: where it is served and which component serves it.
#[derive(Debug, Clone)]
pub struct FnService {
    pub id: String,
    pub name: String,
    pub endpoint: String,
    pub port: u16,
    pub method: String,
    pub wasm_path: String,
}

/// Model of an [`FnService`].
pub struct SpecFnService {
    pub id: Seq<char>,
    pub name: Seq<char>,
    pub endpoint: Seq<char>,
    pub port: u16,
    pub method: Seq<char>,
    pub wasm_path: Seq<char>,
}

impl View for FnService {
    type V = SpecFnService;

    open spec fn view(&self) -> SpecFnService {
        SpecFnService {
            id: self.id@,
            name: self.name@,
            endpoint: self.endpoint@,
            port: self.port,
            method: self.method@,
            wasm_path: self.wasm_path@,
        }
    }
}

impl FnService {
    /// A copy of this record.
    pub fn duplicate(&self) -> (r: FnService)
        ensures
            r@ == self@,
    {
        FnService {
            id: crate::text::owned(self.id.as_str()),
            name: crate::text::owned(self.name.as_str()),
            endpoint: crate::text::owned(self.endpoint.as_str()),
            port: self.port,
            method: crate::text::owned(self.method.as_str()),
            wasm_path: crate::text::owned(self.wasm_path.as_str()),
        }
    }
}

/// Records a deployment under its id, replacing any record with that id.
pub fn register(reg: &mut Registry, deployment: FnService)
    ensures
        final(reg).map() == old(reg).map().insert(deployment.id@, deployment@),
{
    store::save(reg, deployment)
}

/// Forgets the deployment recorded under `id`, if there is one.
pub fn unregister(reg: &mut Registry, id: &str)
    ensures
        final(reg).map() == old(reg).map().remove(id@),
{
    store::remove(reg, id)
}

/// The first recorded deployment called `name`.
pub fn find_by_name(reg: &Registry, name: &str) -> (r: Result<FnService, String>)
    ensures
        match r {
            Ok(s) => store::first_named(reg@, name@) == Some(s@),
            Err(m) => store::first_named(reg@, name@) is None && m@ == store::not_found_message(name@),
        },
{
    store::find_by_name(reg, name)
}

/// Every recorded deployment, in the order they were first recorded.
pub fn list_all(reg: &Registry) -> (r: Vec<FnService>)
    ensures
        r@.map_values(|s: FnService| s@) == reg@.map_values(|e: (Seq<char>, SpecFnService)| e.1),
{
    store::list_all(reg)
}

} // verus!
