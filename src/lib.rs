//! A configuration-driven directory archiver: the policy that turns a list of
//! `source|destination[|mode]` records into archive requests, and the step
//! function that drives them one at a time.
use vstd::prelude::*;

pub mod stamp;
pub mod text;
pub mod config;
pub mod naming;
pub mod run;

verus! {

} // verus!
