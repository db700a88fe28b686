//! A bounded-history sentiment ledger: per user it keeps the most recent
//! sentiment samples, derives a crime coefficient from them on demand, and
//! tracks whether its state has to be written out.
//!
//! Scores are held in ten-thousandths and coefficients as exact fractions,
//! so that every result is stated and proved over the integers.
//!
//! - `binary64` reads scores from IEEE 754 bit patterns;
//! - `sentiment` holds one sample and scores the text of a message;
//! - `cymatic` derives the crime coefficient;
//! - `profile` is one user's ring buffer of samples;
//! - `userdb` is the ledger of all profiles;
//! - `checkpoint` decides when the ledger is flushed and when to stop.

pub mod binary64;
pub mod checkpoint;
pub mod cymatic;
pub mod profile;
pub mod sentiment;
pub mod userdb;
