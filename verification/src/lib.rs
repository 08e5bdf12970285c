//! How much memory the processes of a system hold.
//!
//! The library reads nothing itself. It is handed what the files of the
//! process table hold, decides which processes belong to the report, sums up
//! their memory maps, and writes the report as a table of fixed-width columns.
//!
//! - [`scan`] takes one entry of the process table from its name to a row of
//!   the report, or drops it;
//! - [`smaps`] sums up the memory map of a process, and [`stats`] holds the
//!   sizes and the rows;
//! - [`users`] and [`filter`] say whose processes and which processes are wanted;
//! - [`order`] puts the rows in order, and [`report`] writes the table.

pub mod error;
pub mod fields;
pub mod filter;
pub mod format;
pub mod options;
pub mod order;
pub mod report;
pub mod scan;
pub mod smaps;
pub mod stats;
pub mod text;
pub mod users;
