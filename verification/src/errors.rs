//! The top-level error: everything that can stop startup, by stage.

use vstd::prelude::*;

use crate::builder::errors::BuilderError;
use crate::clusters::errors::ClusterError;
use crate::config::def::ValidationError;

verus! {

#[derive(Debug)]
pub enum AppError {
    Cluster { source: ClusterError },
    Config { message: String },
    Builder { source: BuilderError },
    Validation { source: ValidationError },
}

} // verus!
