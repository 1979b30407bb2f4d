//! Verified core of a CI/CD platform: pipeline configuration, variable
//! interpolation, repository scanning, executor planning and the decisions
//! of the webhook, Terraform and dashboard services.
use vstd::prelude::*;

pub mod text;
pub mod strmap;
pub mod num;
pub mod ids;
pub mod time;
pub mod variables;
pub mod deployer;
pub mod pipeline;
pub mod kdl_doc;
pub mod config;
pub mod graph;
pub mod dag;
pub mod ui;
pub mod application;
pub mod stack;
pub mod executor;
pub mod docker;
pub mod kubernetes;
pub mod json;
pub mod repository;
pub mod webhooks;
pub mod terraform;
pub mod stack_runner;
pub mod order;
pub mod git;
pub mod errors;
pub mod secret;
pub mod github;
pub mod api;
pub mod artifact;
pub mod queries;
pub mod system;
pub mod stack_flow;
pub mod views;
pub mod runner_flow;
pub mod run_trigger;
pub mod webhook_flow;

verus! {
} // verus!
