//! Transfer of timesheet rows to a remote time-tracking service.
//!
//! The library holds the verified logic: parsing the fields of a timesheet
//! table, resolving project keys, deriving time entries and deciding the
//! outcome of each row. Network and file access stay with the caller.

pub mod fields;
pub mod lookup;
pub mod issue;
pub mod table;
pub mod project;
pub mod entry;
pub mod transfer;
pub mod conf;
pub mod cli;
