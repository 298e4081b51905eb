//! The configuration resolution engine of a server that distributes
//! versioned, environment-scoped application configuration from git
//! repositories.
//!
//! A client asks for the configuration of an application under a list of
//! profiles, in one environment and optionally at a label. The engine says
//! which references and files of the environment's mirror to read, merges
//! the files that exist into one flat property map after substituting the
//! variables of the environment, and builds the answer.
//!
//! The engine runs no process and reads no file: git commands are values
//! that the caller runs, and their outcomes are handed back.
//!
//! - [`config`], [`environment`]: the endpoints, the variables and the
//!   registry of environments
//! - [`git`], [`mirror`], [`reader`]: the git commands, keeping a mirror
//!   fresh, and reading from it
//! - [`template`]: substitution of `{{ NAME }}` placeholders
//! - [`yaml`], [`properties`], [`assembler`]: documents, their flat
//!   properties, and the merge of the candidate files
//! - [`path`], [`files`]: validation of requested paths and raw file serving
//! - [`auth`], [`request`], [`response`], [`export`]: what a request may do,
//!   what it reads, and what it is answered
//! - [`text`], [`ordered_map`], [`error`]: what the rest is built on

pub mod assembler;
pub mod auth;
pub mod config;
pub mod environment;
pub mod error;
pub mod export;
pub mod files;
pub mod git;
pub mod mirror;
pub mod ordered_map;
pub mod path;
pub mod properties;
pub mod reader;
pub mod request;
pub mod response;
pub mod template;
pub mod text;
pub mod yaml;
