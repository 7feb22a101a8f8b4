//! Short-lived access and refresh tokens signed with a rotating pool of
//! symmetric keys, and the small decisions of the server around them.
//!
//! The pool of keys (`pool`) and the token protocol (`token`) are verified,
//! and `laws` states what holds of the two together. `manager` shares one
//! pool between many callers; `timed` is the same service for one owner who
//! brings the time along. `jwt` holds the older tokens of the admin pages,
//! with one key that signs and one that signed before, and `auth` signs
//! users in with the one secret of the service.
//!
//! The clock, the random source, the signing and a few functions of the
//! standard library are reached through small functions whose contracts are
//! taken on trust and say so: they stand in `clock`, `keygen`, `signing`,
//! `auth`, `config`, `text` and `toml_config`.
//!
//! The rest decides what the server answers, from plain values: to a login
//! (`auth`, `handlers`), to a request for a page or an asset
//! (`static_files`), to the installer (`install`), and in which envelope
//! (`response`, `cookies`, `types`); `addresses`, `config` and
//! `toml_config` serve its start-up.

pub mod addresses;
pub mod auth;
pub mod claims;
pub mod clock;
pub mod config;
pub mod cookies;
pub mod handlers;
pub mod install;
pub mod jwt;
pub mod keygen;
pub mod laws;
pub mod manager;
pub mod pool;
pub mod response;
pub mod signing;
pub mod static_files;
pub mod text;
pub mod timed;
pub mod token;
pub mod toml_config;
pub mod types;
