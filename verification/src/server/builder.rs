use vstd::prelude::*;

use crate::config::ServiceConfig;
use crate::default::DefaultControlService;

verus! {

/// Builds server with custom configuration values.
///
/// Methods can be chained in order to set the configuration values.
#[derive(Debug)]
pub struct ServerBuilder<Ctl> {
    pub control: Ctl,
    pub config: ServiceConfig,
}

impl ServerBuilder<DefaultControlService> {
    /// Returns a new server builder instance initialized with default
    /// configuration values.
    ///
    /// Configuration methods can be chained on the return value.
    pub fn new() -> (r: ServerBuilder<DefaultControlService>)
        ensures
            r.config == ServiceConfig::initial(),
    {
        ServerBuilder { config: ServiceConfig::new(), control: DefaultControlService }
    }
}

impl<Ctl> ServerBuilder<Ctl> {
    /// Configure connection settings
    pub fn configure<F: FnOnce(ServiceConfig) -> ServiceConfig>(self, f: F) -> (r: ServerBuilder<
        Ctl,
    >)
        requires
            f.requires((self.config,)),
        ensures
            f.ensures((self.config,), r.config),
            r.control == self.control,
    {
        let config = f(self.config);
        ServerBuilder { control: self.control, config }
    }

    /// Service to call with control frames
    pub fn control<S>(self, service: S) -> (r: ServerBuilder<S>)
        ensures
            r.control == service,
            r.config == self.config,
    {
        ServerBuilder { control: service, config: self.config }
    }
}

impl Default for ServerBuilder<DefaultControlService> {
    fn default() -> (r: ServerBuilder<DefaultControlService>)
        ensures
            r.config == ServiceConfig::initial(),
    {
        ServerBuilder::new()
    }
}

} // verus!
