//! Incremental ingestion of sensor readings from append-only delimited text
//! files.
//!
//! A driver polls a directory on a timer. Each cycle selects the most
//! recently modified file ([`scanner`]), reads it, turns the lines that were
//! appended since the last cycle into readings ([`record`], [`ingest`]) and
//! hands the readings to a forwarder one at a time. The [`tracker`] remembers
//! between cycles which file was read and up to which line. The decisions of a
//! cycle are a state machine ([`cycle`]); listing the directory, reading the
//! file and sending a reading are left to the driver.
//!
//! A source file begins with a preamble of seventeen lines that is never
//! data. Every later line holds one reading: fields separated by commas, the
//! twelve measurements in the fields with index 16 to 27.
mod clock;
pub mod cycle;
pub mod ingest;
pub mod record;
pub mod scanner;
pub mod text;
pub mod tracker;
