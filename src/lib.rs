//! Conversion of points in time to Japanese era names (nengou) and era dates.

pub mod date;
pub mod era;
pub mod eras;
pub mod numerals;
pub mod script;

pub use date::utc_dt;
pub use era::{Era, Jidai, UtcDate};
pub use numerals::to_jp_intstring;
pub use script::is_jp;
