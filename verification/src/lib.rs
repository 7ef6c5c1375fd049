//! Pure logic of the sahai deployment tool: naming, validation, compose
//! bookkeeping, health aggregation, settings checks, Traefik route planning and
//! the text formatting that the command line client shows.

pub mod text;
pub mod error;
pub mod validation;
pub mod naming;
pub mod keyed;
pub mod domain;
pub mod traefik;
pub mod dto;
pub mod port_check;
pub mod registration;
pub mod health;
pub mod settings;
pub mod settings_service;
pub mod env_file;
pub mod compose;
pub mod docker_args;
pub mod access;
pub mod not_service;
pub mod traefik_container;
pub mod container_plan;
pub mod cli;
pub mod cli_format;
pub mod log_stream;
pub mod rows;
pub mod service_ops;
pub mod upload_rules;
pub mod config;
