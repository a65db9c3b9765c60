//! Turn a fetched web page into a Markdown bundle: the decisions, text
//! transformations and bookkeeping of the converter, with their contracts.

pub mod assets;
pub mod cli;
pub mod config;
pub mod converter;
pub mod error;
pub mod extractor;
pub mod html;
pub mod output;
pub mod pipeline;
pub mod renderer;
pub mod report;
pub mod text;
pub mod web_url;
