//! Offline-first speech collection: quality control of captured audio, the
//! capture stop rules, the recording ledger and the upload queue.
//!
//! Amplitudes are 16-bit PCM samples. Decibels and percentages are fixed-point
//! integers in thousandths, so every rule of the library is exact integer
//! arithmetic.

pub mod capture;
pub mod config;
pub mod export;
pub mod ledger;
pub mod parse;
pub mod paths;
pub mod quality;
pub mod text;
pub mod upload;
pub mod vad;
