//! Names of the checks that issues are filed under.
pub mod names;
