//! The cluster agent: a guarded door to the deployments of one cluster, or an
//! outbound member that fetches what it should run.
pub mod api;
pub mod cycle;
pub mod pull;
