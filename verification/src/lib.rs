//! Deployment, provisioning and dashboard logic for NixOS fleets.
pub mod boot;
pub mod cli;
pub mod commands;
pub mod copy;
pub mod daemon;
pub mod demo;
pub mod deployment;
pub mod diff;
pub mod events;
pub mod facts;
pub mod hive;
pub mod host;
pub mod input;
pub mod install;
pub mod inspector;
pub mod life;
pub mod list;
pub mod local;
pub mod logview;
pub mod model;
pub mod navigation;
pub mod nix;
pub mod node_filter;
pub mod provision;
pub mod registrant_tree;
pub mod registrants;
pub mod selection;
pub mod ssh;
pub mod terraform;
pub mod text;
pub mod tree;
pub mod view;
