//! Reconcile logic: what has to be done to get from what is to what is wanted.

pub mod device;
pub mod group;
pub mod instance;
pub mod laws;
