//! The service registry: named services registered once and started
//! together.

use vstd::prelude::*;
use vstd::string::StringExecFns;
use crate::strutil::str_eq;

verus! {

#[derive(Debug)]
pub enum ServiceError {
    AlreadyStarted(String),
    Failed(String),
}

impl ServiceError {
    pub fn message(&self) -> (r: String)
        ensures
            (match self {
                ServiceError::AlreadyStarted(s) => r@ == "service already started: "@ + s@,
                ServiceError::Failed(s) => r@ == "service failed: "@ + s@,
            }),
    {
        match self {
            ServiceError::AlreadyStarted(s) => "service already started: ".to_owned().concat(
                s.as_str(),
            ),
            ServiceError::Failed(s) => "service failed: ".to_owned().concat(s.as_str()),
        }
    }
}

/// Something that can be brought up by name.
pub trait Service {
    fn name(&self) -> String;

    fn start(&mut self) -> Result<(), ServiceError>;
}

/// Registers services and starts them in registration order; a name that
/// has already been started cannot be registered again.
pub struct ServiceRegistry {
    started: Vec<String>,
    services: Vec<Box<dyn Service>>,
}

impl ServiceRegistry {
    pub closed spec fn spec_started(&self) -> Seq<String> {
        self.started@
    }

    pub closed spec fn spec_service_count(&self) -> nat {
        self.services@.len()
    }

    pub fn new() -> (r: ServiceRegistry)
        ensures
            r.spec_started().len() == 0,
            r.spec_service_count() == 0,
    {
        ServiceRegistry { started: Vec::new(), services: Vec::new() }
    }

    /// Whether `name` has been started.
    fn has_started(&self, name: &str) -> (r: bool)
        ensures
            r == (exists|i: int|
                0 <= i < self.spec_started().len() && (#[trigger] self.spec_started()[i])@
                    == name@),
    {
        let mut i: usize = 0;
        while i < self.started.len()
            invariant
                i <= self.started@.len(),
                forall|j: int| 0 <= j < i ==> (#[trigger] self.started@[j])@ != name@,
            decreases self.started@.len() - i,
        {
            if str_eq(self.started[i].as_str(), name) {
                proof {
                    assert((self.spec_started()[i as int])@ == name@);
                }
                return true;
            }
            i += 1;
        }
        false
    }

    /// Accepts a service whose name has not been started; rejects one
    /// already started.
    pub fn register(&mut self, service: Box<dyn Service>) -> (r: Result<
        (),
        ServiceError,
    >)
        ensures
            final(self).spec_started() == old(self).spec_started(),
            r.is_err() ==> (r matches Err(ServiceError::AlreadyStarted(_))),
    {
        let name = service.name();
        if self.has_started(name.as_str()) {
            return Err(ServiceError::AlreadyStarted(name));
        }
        self.services.push(service);
        Ok(())
    }

    /// Starts every registered service in order, recording one name per
    /// started service; the first failure stops the loop and is reported,
    /// leaving the earlier names recorded.
    pub fn start_all(&mut self) -> (r: Result<(), ServiceError>)
        ensures
            r.is_ok() ==> final(self).spec_started().len() == old(self).spec_started().len()
                + old(self).spec_service_count(),
            final(self).spec_started().len() >= old(self).spec_started().len(),
    {
        let mut i: usize = 0;
        let n = self.services.len();
        while i < n
            invariant
                i <= n,
                n == self.services@.len(),
                n == old(self).spec_service_count(),
                self.started@.len() == old(self).spec_started().len() + i,
            decreases n - i,
        {
            let x = self.services[i].start();
            match x {
                Ok(()) => {
                    let name = self.services[i].name();
                    self.started.push(name);
                },
                Err(e) => {
                    return Err(e);
                },
            }
            i += 1;
        }
        Ok(())
    }
}

} // verus!
