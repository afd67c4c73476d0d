//! Directory creation and removal batches: the order in which paths are
//! processed, the walk up through ancestors, the lines reported for each
//! outcome, and a model of the file system under which the batches are proved.
use vstd::prelude::*;

pub mod creation;
pub mod laws;
pub mod model;
pub mod outcome;
pub mod path;
pub mod removal;
