//! Conversions between integers and numerals: Roman numerals both ways, in
//! ASCII letters or Unicode numeral forms, and Japanese numerals from integers.

pub mod decimal;
pub mod japanese;
pub mod roman;
pub mod roman_laws;

pub use japanese::to_japanese;
pub use roman::{decode_uppercase, to_arabic, to_roman, RomanError};
