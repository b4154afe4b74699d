//! An email-driven journal: a daily reminder goes out at a configured UTC hour,
//! replies from one authorised sender become that day's journal entry (the first
//! reply of a day wins), and the reminder quotes the entry written a year before.
//!
//! This crate holds the decisions and the text; the transports and the database
//! are driven by the application around it.

pub mod date;
pub mod schedule;
pub mod config;
pub mod journal;
pub mod message;
pub mod notice;
