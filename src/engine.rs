//! The recognition engine: one template, fixed at construction.
use vstd::prelude::*;
use crate::models::InputScan;

verus! {

/// Holds the template that every recognition call reads.
#[derive(Debug)]
pub struct Engine {
    scan_data: InputScan,
}

impl Engine {
    /// The template the engine was made with.
    pub closed spec fn template(&self) -> InputScan {
        self.scan_data
    }

    pub fn new(scan_data: InputScan) -> (r: Self)
        ensures
            r.template() == scan_data,
    {
        Engine { scan_data }
    }

    pub fn get_scan_data(&self) -> (r: &InputScan)
        ensures
            *r == self.template(),
    {
        &self.scan_data
    }
}

} // verus!
