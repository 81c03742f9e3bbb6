//! What the storefront decides without a browser: which deployment it talks
//! to, which page an address names and whether a form can be sent.

pub mod config;
pub mod merchant;
pub mod route;
