//! A single-user task tracker: boards group tasks, tasks carry append-only
//! comments and an optional reminder string. Everything is persisted in a
//! SQLite database reached through a [`store::Store`] handle; the domain
//! rules (reminder validation, overdue detection, filtered listing and the
//! label-based selection flow) are specified and verified here, with the
//! database and calendar calls held behind small trusted wrappers.

pub mod datetime;
pub mod domain;
pub mod selection;
pub mod store;
