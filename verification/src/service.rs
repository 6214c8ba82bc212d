//! Services: outside dependencies of components.
//!
//! A service is a container started before the components that reference
//! it and stopped after they are done.  Starting and stopping is outside
//! work performed by the container client around this library; here live
//! the service description, the container-name rule, and the launch and
//! teardown sequences that report per-item success or failure without
//! aborting the batch.

use crate::util::clone_opt_string;
use vstd::prelude::*;

verus! {

/// The kind of backing a service has.  Containers are the only kind.
#[derive(Clone, Copy, PartialEq, Eq, Structural, Debug)]
pub enum ServiceType {
    DockerContainer,
}

impl Default for ServiceType {
    fn default() -> (r: Self)
        ensures
            r == ServiceType::DockerContainer,
    {
        ServiceType::DockerContainer
    }
}

/// An outside support system used by components, managed by name.
#[derive(Debug)]
pub struct Service {
    pub service_type: ServiceType,
    pub container: Option<String>,
    pub name: String,
}

/// The mathematical shape of a [`Service`].
pub struct ServiceView {
    pub service_type: ServiceType,
    pub container: Option<Seq<char>>,
    pub name: Seq<char>,
}

impl View for Service {
    type V = ServiceView;

    open spec fn view(&self) -> ServiceView {
        ServiceView {
            service_type: self.service_type,
            container: self.container.deep_view(),
            name: self.name@,
        }
    }
}

impl DeepView for Service {
    type V = ServiceView;

    open spec fn deep_view(&self) -> ServiceView {
        self@
    }
}

/// The container a service runs in: its `container` field when set, its
/// name otherwise.
pub open spec fn container_name(s: ServiceView) -> Seq<char> {
    match s.container {
        Some(c) => c,
        None => s.name,
    }
}

impl Default for Service {
    /// An unnamed container-backed service.
    fn default() -> (r: Self)
        ensures
            r@.name.len() == 0,
            r@.container is None,
            r@.service_type == ServiceType::DockerContainer,
    {
        Service { service_type: ServiceType::DockerContainer, container: None, name: String::new() }
    }
}

impl Service {
    /// The name of the container backing this service.
    pub fn get_container_name(&self) -> (r: String)
        ensures
            r@ == container_name(self@),
    {
        match &self.container {
            Some(c) => c.clone(),
            None => self.name.clone(),
        }
    }
}

impl Clone for Service {
    fn clone(&self) -> (r: Self)
        ensures
            r@ == self@,
    {
        Service {
            service_type: self.service_type,
            container: clone_opt_string(&self.container),
            name: self.name.clone(),
        }
    }
}

/// A copy of a service vector whose contents are provably the same.
pub fn clone_services(v: &Vec<Service>) -> (r: Vec<Service>)
    ensures
        r.deep_view() == v.deep_view(),
{
    let mut out: Vec<Service> = Vec::new();
    let mut i: usize = 0;
    while i < v.len()
        invariant
            i <= v.len(),
            out.deep_view() == v.deep_view().take(i as int),
        decreases v.len() - i,
    {
        let ghost before = out.deep_view();
        out.push(v[i].clone());
        proof {
            assert(out.deep_view() =~= before.push(v.deep_view()[i as int]));
            assert(before.push(v.deep_view()[i as int]) =~= v.deep_view().take(i + 1));
        }
        i = i + 1;
    }
    proof {
        assert(v.deep_view().take(v.deep_view().len() as int) =~= v.deep_view());
    }
    out
}

/// The launch sequence for a batch of services: hands the services out one
/// at a time so the caller can attempt each start and report individual
/// failures without aborting the batch.
pub struct ServiceLauncher {
    pub services: Vec<Service>,
}

impl ServiceLauncher {
    /// A launcher over the given services.
    pub fn new(services: Vec<Service>) -> (r: ServiceLauncher)
        ensures
            r.services.deep_view() == services.deep_view(),
    {
        ServiceLauncher { services }
    }

    /// The next service to start; the batch is walked from the back.
    pub fn next_service(&mut self) -> (r: Option<Service>)
        ensures
            old(self).services.deep_view().len() == 0 ==> r is None && final(self).services.deep_view()
                == old(self).services.deep_view(),
            old(self).services.deep_view().len() > 0 ==> (r matches Some(s) && s@ == old(
                self,
            ).services.deep_view().last() && final(self).services.deep_view() == old(
                self,
            ).services.deep_view().drop_last()),
    {
        let r = self.services.pop();
        proof {
            if old(self).services@.len() > 0 {
                assert(self.services.deep_view() =~= old(self).services.deep_view().drop_last());
            }
        }
        r
    }
}

/// The teardown sequence for a batch of services: hands the services out
/// one at a time so the caller can attempt each stop and report individual
/// failures without aborting the batch.
pub struct ServiceTerminator {
    pub services: Vec<Service>,
}

impl ServiceTerminator {
    /// A terminator over the given services.
    pub fn new(services: Vec<Service>) -> (r: ServiceTerminator)
        ensures
            r.services.deep_view() == services.deep_view(),
    {
        ServiceTerminator { services }
    }

    /// The next service to stop; the batch is walked from the back.
    pub fn next_service(&mut self) -> (r: Option<Service>)
        ensures
            old(self).services.deep_view().len() == 0 ==> r is None && final(self).services.deep_view()
                == old(self).services.deep_view(),
            old(self).services.deep_view().len() > 0 ==> (r matches Some(s) && s@ == old(
                self,
            ).services.deep_view().last() && final(self).services.deep_view() == old(
                self,
            ).services.deep_view().drop_last()),
    {
        let r = self.services.pop();
        proof {
            if old(self).services@.len() > 0 {
                assert(self.services.deep_view() =~= old(self).services.deep_view().drop_last());
            }
        }
        r
    }
}

} // verus!
