//! A build orchestrator's core logic: recipe graphs, Makefile/justfile/Taskfile
//! import, configuration validation and cache-key framing.

pub mod text;
pub mod lexer;
pub mod parser;
pub mod map;
pub mod translate;
pub mod writer;
pub mod report;
pub mod justfile;
pub mod taskfile;
pub mod import;
pub mod error;
pub mod graph;
pub mod paths;
pub mod command;
pub mod types;
pub mod hash;
pub mod cache;
pub mod mtime;
pub mod job;
pub mod runner;
pub mod dotnet;
pub mod elixir;
pub mod kotlin;
pub mod nim;
pub mod ruby;
pub mod swift;
pub mod docker;
pub mod py;
pub mod go;
pub mod config;
pub mod cc;
pub mod rust;
pub mod ts;
pub mod precompiled;
pub mod plugin;
pub mod shell;
pub mod bridge;
pub mod engine;
pub mod mustfile;
pub mod cli;
