//! The logic of a Compute environment controller: desired state, releases,
//! networking and the read models over them, as verified functions.

#![verifier::loop_isolation(false)]

pub mod admission;
pub mod adopt;
pub mod announce;
pub mod applications;
pub mod certificates;
pub mod cycle;
pub mod dataplane;
pub mod deploy;
pub mod desired;
pub mod digest;
pub mod dns;
pub mod domains;
pub mod error;
pub mod events;
pub mod execute;
pub mod identity;
pub mod ids;
pub mod json;
pub mod lifecycle;
pub mod load;
pub mod manifest;
pub mod model;
pub mod network;
pub mod network_runtime;
pub mod node;
pub mod operators;
pub mod ports;
pub mod prepare;
pub mod processes;
pub mod queries;
pub mod readiness;
pub mod receipts;
pub mod reconcile;
pub mod release;
pub mod results;
pub mod revisions;
pub mod routing;
pub mod runtime;
pub mod search;
pub mod state;
pub mod status;
pub mod supervision;
pub mod table;
pub mod terminal;
pub mod text;
pub mod time;
pub mod tls;
pub mod transition;
pub mod upgrade;
pub mod views;
