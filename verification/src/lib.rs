use vstd::prelude::*;

pub mod json;
pub mod text;
pub mod model;
pub mod error;
pub mod config;
pub mod build_info;
pub mod garage;
pub mod openbao;
pub mod reconciler;
