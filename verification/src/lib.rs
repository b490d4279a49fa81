//! Decoding, storage and export of the fixed-width location reports that a
//! GPS tracker sends to its dashboard.
//!
//! A report carries a payload of ten hexadecimal digits. `wire` decodes it
//! into longitude, latitude and battery level, `gps_data` builds the record
//! that is kept of a report, `store` keeps the records in the order of their
//! arrival, behind a lock, and `handlers` joins the three into the two
//! requests that the server answers. `csv` writes the records out as text.
//! `hex` and `decimal` hold the numerals that the others read and write.

pub mod hex;
pub mod decimal;
pub mod wire;
pub mod gps_data;
pub mod store;
pub mod handlers;
pub mod csv;
