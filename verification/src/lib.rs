//! Verified decision core of the XScope platform: gateway, control plane and
//! cluster agent.
pub mod agent;
pub mod collections;
pub mod control;
pub mod crypto;
pub mod domain;
pub mod gateway;
pub mod headers;
pub mod json;
pub mod text;
pub mod time;
