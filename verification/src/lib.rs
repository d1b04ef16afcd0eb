//! Core logic of a sandboxed filesystem service: line-addressed reads,
//! content search snippets, path filters, duplicate grouping and the
//! decisions around them, stated over plain values and proved.

pub mod ast;
pub mod chars;
pub mod cli;
pub mod content;
pub mod decimal;
pub mod dedup;
pub mod diff;
pub mod edit;
pub mod error;
pub mod fileinfo;
pub mod globs;
pub mod grep;
pub mod grouping;
pub mod handler;
pub mod language;
pub mod lines;
pub mod media;
pub mod paths;
pub mod render;
pub mod sandbox;
pub mod service;
pub mod size;
pub mod snippet;
pub mod stats;
pub mod text;
pub mod tools;
pub mod tree;
pub mod walk;
