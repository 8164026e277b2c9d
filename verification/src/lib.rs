//! A Kubernetes desktop client's core: a restricted command language,
//! the destructive-command guard with one-shot confirmation tokens, the
//! cluster credential store and the kubeconfig import rules.

pub mod text;
pub mod error;
pub mod parser;
pub mod crypto;
pub mod store;
pub mod safety;
pub mod commands;
pub mod executor;
pub mod registry;
pub mod dashboard;
pub mod kube_client;
pub mod laws;
pub mod operation_laws;
