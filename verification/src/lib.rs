//! Verified core of the `up` configuration: parsing and validation of the
//! operations a work directory declares.
use vstd::prelude::*;

pub mod text;
pub mod error;
pub mod env_file;
pub mod config_value;
pub mod cargo_install;
pub mod go_install;
pub mod github_release;
pub mod custom;
pub mod path;
pub mod mise;
pub mod nodejs;
pub mod python;
pub mod version_file;
pub mod asdf;
pub mod askpass;
pub mod bundler;
pub mod homebrew;
pub mod up_config;
pub mod order;
pub mod nix;
pub mod summary;
pub mod detect;
pub mod golang;
pub mod options;
pub mod resolution;

verus! {

} // verus!
