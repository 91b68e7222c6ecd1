//! The logic of a terminal client for agents that test software: what the
//! client shows, decides, reads and writes, apart from the terminal, the network
//! and the disk themselves.
//!
//! Texts are sequences of characters in all contracts (`text`, `pieces`,
//! `digits`), JSON documents are values of `json`, and tables are kept in the
//! order of `order`. On these stand
//!
//! - the chat session: `app`, `session`, `editor`, `history`, `screen`,
//!   `markdown`, `chat`, `errands`, `choices`, `picker`, `panels`, `transcript`;
//! - the commands: `cli`, `listing`, `send`, `workflow`, `remote`, `config`,
//!   `api`, `requests`;
//! - the scans: `scan`, `prompts`, `deps`, `manifests`, `packages`, `osv`,
//!   `iac`, `findings`, `severity`, `sarif`, `report`, `verdict`;
//! - the machine: `netpolicy`, `egress_proxy`, `procsandbox`, `local`, `pack`,
//!   `browser`, `chrome`, `bridge`, `analyzer_registry`.
//!
//! Each type that has one is stated by its view, and what holds of several
//! functions together is a public proof function of the module it is about.
//! What an operation comes to on the inputs that it is meant for, said in terms
//! of those inputs and of its result alone, is a public proof function of a
//! module under `laws`.

pub mod analyzer_registry;
pub mod api;
pub mod app;
pub mod blocks;
pub mod bridge;
pub mod browser;
pub mod chat;
pub mod choices;
pub mod chrome;
pub mod cli;
pub mod codec;
pub mod config;
pub mod deps;
pub mod digits;
pub mod editor;
pub mod egress_proxy;
pub mod errands;
pub mod findings;
pub mod graph;
pub mod history;
pub mod iac;
pub mod ip;
pub mod json;
pub mod laws;
pub mod listing;
pub mod local;
pub mod lockfiles;
pub mod manifests;
pub mod markdown;
pub mod netpolicy;
pub mod order;
pub mod osv;
pub mod pack;
pub mod packages;
pub mod panels;
pub mod picker;
pub mod pieces;
pub mod procsandbox;
pub mod prompts;
pub mod pulse;
pub mod remote;
pub mod report;
pub mod requests;
pub mod ring;
pub mod sarif;
pub mod scan;
pub mod screen;
pub mod send;
pub mod session;
pub mod severity;
pub mod style;
pub mod table;
pub mod text;
pub mod transcript;
pub mod verdict;
pub mod weburl;
pub mod workflow;
