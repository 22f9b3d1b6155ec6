//! Decides whether a structured log record is forwarded or dropped, using a
//! regular-expression filter chosen per workload from a three-level
//! (container, namespace, pod) configuration with `"*"` wildcards.
pub mod config;
pub mod filter;
pub mod pattern;
pub mod pod_name;
