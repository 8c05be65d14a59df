//! A provider of play-count guidance for a playlist optimizer.
//!
//! The provider ranks candidates by how often the Lyrion persist database says they
//! were played, among all candidates that are eligible. Nothing here reads a file or
//! speaks to the database: where an answer from the outside is needed, a step names
//! what it waits for and goes on from the answer.
//!
//! - [`service`] takes the command line and the requests;
//! - [`prepare`] and [`score`] are the two requests that need the outside;
//! - [`provider`] is the state between requests;
//! - [`artifact`], [`database`], [`counts`] and [`population`] are what they rest on;
//! - [`ranking`] turns play counts into percentiles;
//! - [`protocol`], [`text`] and [`order`] are the values they speak of;
//! - [`laws`] is what holds of all of it together.

pub mod artifact;
pub mod counts;
pub mod database;
pub mod laws;
pub mod order;
pub mod population;
pub mod prepare;
pub mod protocol;
pub mod provider;
pub mod ranking;
pub mod score;
pub mod service;
pub mod text;
