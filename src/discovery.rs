use crate::config::{governing_mapping, lemma_governing_mapping, ServiceMcpMapping, ZeroConfig};
use crate::models::DiscoveredService;
use vstd::prelude::*;

verus! {

/// A discovery event, reduced to plain values.
#[derive(Clone, Debug, PartialEq, Eq)]
pub enum DiscoveryEvent {
    /// A service of the given type was resolved.
    Resolved { service: DiscoveredService, service_type: String },
    /// The service of the given full name went away.
    Removed { fullname: String },
}

/// What the orchestration loop does about a discovery event.
#[derive(Clone, Debug, PartialEq, Eq)]
pub enum Directive {
    /// The configuration has no mapping for the service type: nothing.
    Unmapped,
    /// Launch the service from the mapping at this index of the configuration,
    /// once the registry grants the claim on its name (a service that already
    /// has a connection or a launch in flight is not launched again).
    Launch { mapping: usize },
    /// Cancel the connection of the service that went away.
    Stop { fullname: String },
}

/// The directive for an event, given the configured mappings.
pub open spec fn directive_for(maps: Seq<ServiceMcpMapping>, event: DiscoveryEvent) -> Directive {
    match event {
        DiscoveryEvent::Resolved { service, service_type } => {
            match governing_mapping(maps, service_type@) {
                None => Directive::Unmapped,
                Some(i) => Directive::Launch { mapping: i as usize },
            }
        },
        DiscoveryEvent::Removed { fullname } => Directive::Stop { fullname },
    }
}

/// The full name of the service that an event is about.
pub open spec fn event_service(event: DiscoveryEvent) -> Seq<char> {
    match event {
        DiscoveryEvent::Resolved { service, .. } => service.fullname@,
        DiscoveryEvent::Removed { fullname } => fullname@,
    }
}

impl DiscoveryEvent {
    /// The full name of the service that the event is about.
    pub fn service_name(&self) -> (r: &String)
        ensures
            r@ == event_service(*self),
    {
        match self {
            DiscoveryEvent::Resolved { service, .. } => &service.fullname,
            DiscoveryEvent::Removed { fullname } => fullname,
        }
    }
}

/// Decides what to do about a discovery event.
pub fn decide(config: &ZeroConfig, event: DiscoveryEvent) -> (r: Directive)
    ensures
        r == directive_for(config.service_mappings@, event),
        r matches Directive::Launch { mapping } ==> mapping < config.service_mappings@.len()
            && config.service_mappings@[mapping as int].zeroconf_service@ == match event {
            DiscoveryEvent::Resolved { service_type, .. } => service_type@,
            _ => Seq::empty(),
        },
{
    match event {
        DiscoveryEvent::Resolved { service, service_type } => {
            proof {
                lemma_governing_mapping(config.service_mappings@, service_type@);
            }
            match config.mapping_index(&service_type) {
                None => Directive::Unmapped,
                Some(i) => Directive::Launch { mapping: i },
            }
        },
        DiscoveryEvent::Removed { fullname } => Directive::Stop { fullname },
    }
}

} // verus!
