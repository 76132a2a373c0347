//! Identity and access core for a small social-posting service.
//!
//! Accounts register with a username and password, authenticate to obtain an
//! opaque bearer token, and create short text posts retrievable per account
//! with pagination.  Password hashing, credential verification, session
//! issuance and resolution, and the storage abstraction are verified; the
//! HTTP transport and the durable storage engine live outside this crate.

pub mod access;
pub mod dto;
pub mod hasher;
pub mod manager;
pub mod post;
pub mod repository;
pub mod session;
pub mod trusted;
pub mod user;
