//! A research assistant for chat services: what it reads, decides and writes, without any I/O.
//!
//! A topic becomes a report in steps. [`sources`] reads the replies of search services, [`prompts`]
//! says what a model is asked, [`drafting`] and [`report`] are the work on a section and on a report,
//! and [`quality`] is what they are held to. [`chat`] and [`bridge`] are the conversations around it,
//! over the [`state`] that they share. [`laws`] says what holds of them as a whole. Calls into other
//! crates stand in [`outside`], some calls into the standard library in [`chars`] and [`text`]; their
//! contracts are trusted.

pub mod blueprint;
pub mod bridge;
pub mod bytes;
pub mod calendar;
pub mod chars;
pub mod chat;
pub mod config;
pub mod drafting;
pub mod excerpt;
pub mod feedback;
pub mod json;
pub mod laws;
pub mod messages;
pub mod model_call;
pub mod models;
pub mod numbers;
pub mod outline;
pub mod outside;
pub mod pages;
pub mod pieces;
pub mod prompts;
pub mod quality;
pub mod rendering;
pub mod report;
pub mod requests;
pub mod sections;
pub mod sources;
pub mod state;
pub mod text;
pub mod trim;
