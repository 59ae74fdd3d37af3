//! The system page: meters of what the device uses now, and graphs of what
//! it used over the last readings.
//!
//! The readings of the past travel with the page: each call brings them in
//! its query, and each answer hands them back with the newest reading put
//! in front.

pub mod fragments;
pub mod graph;

use crate::message::Sample;
use vstd::prelude::*;

verus! {

/// The readings of the past that a call for the system page brings, newest
/// first, one list for each curve.
#[derive(Clone, Debug, PartialEq, Eq)]
pub struct SystemQuery {
    pub cpu: Vec<Sample>,
    pub temp: Vec<Sample>,
    pub ram: Vec<Sample>,
    pub swap: Vec<Sample>,
    pub sent: Vec<Sample>,
    pub recv: Vec<Sample>,
}

impl Default for SystemQuery {
    /// A query that brings no readings.
    fn default() -> (query: SystemQuery)
        ensures
            query.cpu@.len() == 0,
            query.temp@.len() == 0,
            query.ram@.len() == 0,
            query.swap@.len() == 0,
            query.sent@.len() == 0,
            query.recv@.len() == 0,
    {
        SystemQuery {
            cpu: Vec::new(),
            temp: Vec::new(),
            ram: Vec::new(),
            swap: Vec::new(),
            sent: Vec::new(),
            recv: Vec::new(),
        }
    }
}

} // verus!
