pub mod text;
pub mod paths;
pub mod policy;
pub mod audit;
pub mod oci;
pub mod sandbox;
pub mod task;
pub mod daemon;
pub mod cgroup;
pub mod registry;
pub mod image;
pub mod network;
pub mod rootfs;
pub mod doctor;
pub mod proxy;
pub mod agent_client;
pub mod landlock;
pub mod broker;
pub mod seccomp;
pub mod cli;
pub mod agent_integration;
pub mod environment;
pub mod exec;
