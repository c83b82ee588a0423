//! Service descriptors for introspection and diagnostics.
use vstd::prelude::*;
use std::any::TypeId;
use crate::key::Key;
use crate::lifetime::Lifetime;

verus! {

/// Service descriptor for introspection and diagnostics.
#[derive(Debug, Clone, Copy)]
pub struct ServiceDescriptor {
    /// The service key (type/trait name with optional service name)
    pub key: Key,
    /// Service lifetime
    pub lifetime: Lifetime,
    /// Implementation type ID (if available)
    pub impl_type_id: Option<TypeId>,
    /// Implementation type name (if available)
    pub impl_type_name: Option<&'static str>,
    /// Whether this registration has metadata attached
    pub has_metadata: bool,
}

impl ServiceDescriptor {
    /// Get the service name for named services, or None for unnamed services.
    pub fn service_name(&self) -> (r: Option<&'static str>)
        ensures
            r == self.key.spec_service_name(),
    {
        self.key.service_name()
    }

    /// Get the type/trait name shown in diagnostics.
    pub fn type_display_name(&self) -> (r: &'static str)
        ensures
            r == self.key.spec_display_name(),
    {
        self.key.display_name()
    }

    /// Check if this is a named service.
    pub fn is_named(&self) -> (r: bool)
        ensures
            r == self.key.spec_service_name().is_some(),
    {
        self.service_name().is_some()
    }
}

} // verus!
