//! Launch helpers for a private, unprivileged filesystem view.
//!
//! The library holds the decision logic of a tool that runs a command inside
//! a fresh user+mount namespace with caller-chosen bind mounts: parsing and
//! serializing volume specifications, the mount-list file format, the
//! identity credential map written into the namespace, the whitelisted flag
//! bitmasks for the two privileged syscalls, and the classification rules of
//! the configuration diagnostics. The syscalls and file reads themselves are
//! performed by the surrounding binary, which hands their outcomes to the
//! functions here as plain values.

pub mod command;
pub mod diag;
pub mod flags;
pub mod mapping;
pub mod text;
pub mod volume;
