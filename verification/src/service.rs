//! The service around the manager: what it is configured with, what it checks,
//! what it spools, and how its longer jobs go on from step to step.

pub mod beginning;
pub mod checks;
pub mod collect;
pub mod config;
pub mod cut;
pub mod decode;
pub mod flow;
pub mod going;
pub mod historical;
pub mod initialize;
pub mod planting;
pub mod recover;
pub mod resuming;
pub mod safety;
pub mod spooling;
pub mod stage;
pub mod tending;
pub mod worktree;

pub use crate::service::config::{
    ChangesOptions, InitializeOptions, PublishedWorktree, ServiceConfig, ServiceError,
    WorktreeOptions,
};
pub use crate::service::flow::Service;
#[allow(unused_imports)]
use vstd::prelude::*;
