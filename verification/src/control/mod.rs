//! Decisions of the control plane. Each function takes the rows that its
//! caller read under the locks named in its documentation, and says what is
//! written in their place.
pub mod api;
pub mod audit;
pub mod billing;
pub mod billing_feed;
pub mod billing_projection;
pub mod billing_review;
pub mod catalog;
pub mod clusters;
pub mod config;
pub mod error;
pub mod event_worker;
pub mod gateway_proofs;
pub mod ledger;
pub mod managed_pools;
pub mod ops;
pub mod payment_service;
pub mod reconciliation;
pub mod refund_service;
pub mod releases;
pub mod repository;
pub mod scaling;
pub mod summary;
pub mod tax;
pub mod traffic;
