//! Core of a course-log application: a rule-based transliterator for
//! Chinese academic titles, a translation cache gateway, and a
//! week-bucketed calendar builder.

pub mod calendar;
pub mod categories;
pub mod dates;
pub mod gateway;
pub mod models;
pub mod numerals;
pub mod text;
pub mod transliterate;
