use vstd::prelude::*;

pub mod api;
pub mod assets;
pub mod charts;
pub mod chunking;
pub mod classifier;
pub mod config;
pub mod converters;
pub mod digest;
pub mod doctor;
pub mod extractors;
pub mod formulas;
pub mod job_worker;
pub mod jobs;
pub mod json;
pub mod language;
pub mod layout;
pub mod model;
pub mod strmap;
pub mod text;
pub mod unicode;
pub mod upload;
