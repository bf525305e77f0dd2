//! Verified core of the Cocos build LAN server: data model, validation,
//! normalization, placeholder rendering and the build-state machine.

pub mod text;
pub mod json;
pub mod param_map;
pub mod error;
pub mod models;
pub mod placeholders;
pub mod ids;
pub mod params;
pub mod paths;
pub mod preps;
pub mod copies;
pub mod runtime;
pub mod state;
pub mod migration;
pub mod cocos;
pub mod git;
pub mod groups;
pub mod prep_actions;
pub mod tasks;
pub mod feishu;
pub mod ordering;
pub mod pipeline;
pub mod queue;
pub mod workspace;
pub mod obfuscation;
pub mod web;
pub mod legacy;
pub mod listing;
