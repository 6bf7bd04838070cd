//! A verified generator of shell environment initialization scripts.
//!
//! A configuration document — a tree of typed nodes (scripts, languages,
//! tools, plugins, paths), each guarded by a boolean predicate — is walked
//! once in declaration order.  Each active node appends shell text to a
//! traversal context and may update the context's model of the process
//! environment, so that conditions and variable expansions evaluated later
//! in the walk observe the effects of earlier nodes.
//!
//! The crate also contains a small bash-style variable expander
//! (`$VAR`, `${VAR}`, `${VAR:-default}`, `$$`) over pluggable lookup
//! sources, and a fixed-width comment-banner formatter.

pub mod condition;
pub mod env_map;
pub mod env_source;
pub mod installer;
pub mod language;
pub mod net_proxy;
pub mod path;
pub mod platform;
pub mod plugin;
pub mod proxy;
pub mod rush;
pub mod say;
pub mod script;
pub mod strutil;
pub mod tool;
pub mod vars;
pub mod visitor;
