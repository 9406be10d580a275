//! A verified room engine for a selective forwarding unit.

pub mod order;
pub mod ord_map;
pub mod ids;
pub mod transport;
pub mod source_model;
pub mod relay;
pub mod key_index;
pub mod route_graph;
pub mod route_laws;
pub mod sources;
pub mod json;
pub mod outbound;
pub mod outbound_laws;
pub mod consumer_setup;
pub mod transport_plan;
pub mod producer;
pub mod topology;
pub mod state;
pub mod membership;
pub mod subscription;
pub mod publication;
pub mod placement;
pub mod lifecycle;
pub mod definition;
pub mod factory;
pub mod directory;
pub mod diagnostics;
pub mod read_model;
pub mod manager;
pub mod effects;
pub mod admission;
pub mod room_laws;
pub mod delivery_laws;
pub mod admission_laws;
pub mod publication_laws;
pub mod effect_laws;
pub mod registry_laws;
pub mod membership_laws;
pub mod output_laws;
pub mod setup_laws;
pub mod report_laws;
