//! Arknights operator data from the PRTS wiki: wikitext parsing and Markdown rendering,
//! behind the tools of an MCP server.
//!
//! Text primitives come first (`text`, `strops`, `md`, `patterns`, `urlenc`), then the
//! page-level pieces (`wikitext`, `categorizer`, `fields`, `modules`, `ordered`,
//! `grouping`), then one module per data domain (`basic`, the combat parts, `materials`,
//! `lore`, `gallery`, `voice`), and last the tools and the server's own answers.
pub mod text;
pub mod strops;
pub mod md;
pub mod patterns;
pub mod urlenc;
pub mod wikitext;
pub mod categorizer;
pub mod fields;
pub mod modules;
pub mod ordered;
pub mod grouping;
pub mod basic;
pub mod attributes;
pub mod talents;
pub mod skills;
pub mod module_table;
pub mod range_grid;
pub mod combat;
pub mod materials;
pub mod lore;
pub mod gallery;
pub mod voice;
pub mod get_operator;
pub mod operator_list;
pub mod search;
pub mod server;
