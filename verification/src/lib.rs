//! # buongiorno-caffe-bot
//!
//! Core library of a greeting-image chat bot: calendar-aware greeting
//! categories, scraping providers with fallback resolution, a subscription
//! and birthday store, and the scheduling and dispatch rules that tie them
//! together. Chat transport, HTTP and durable storage live outside, in the
//! application around this crate.

pub mod answer;
pub mod automatize;
pub mod date;
pub mod greeting;
pub mod ilmondodigrazia;
pub mod providers;
pub mod random;
pub mod resolver;
pub mod store;
