//! Verified core of the APEX / ROAD time-trial racer: the track text
//! format, ordered checkpoint timing, command-line options, record files
//! and the small pieces of interface state that do not involve geometry.
pub mod courses;
pub mod input;
pub mod options;
pub mod readout;
pub mod records;
pub mod scenery;
pub mod session;
pub mod test_support;
pub mod text;
pub mod timing;
pub mod track;
