//! Verified core of a newsroom assistant: parsers for public-data API
//! responses, calendar arithmetic, and the editorial bookkeeping rules.
pub mod alerts;
pub mod article;
pub mod calendar;
pub mod clip;
pub mod contacts;
pub mod collab;
pub mod coverage;
pub mod data;
pub mod dataapi;
pub mod desk;
pub mod devtools;
pub mod editorial;
pub mod find;
pub mod foia;
pub mod follow;
pub mod git;
pub mod index;
pub mod init;
pub mod jsearch;
pub mod law;
pub mod news;
pub mod notes;
pub mod order;
pub mod project;
pub mod press;
pub mod prompts;
pub mod research;
pub mod rss;
pub mod scan;
pub mod series;
pub mod session;
pub mod sources;
pub mod style;
pub mod text;
pub mod tracking;
pub mod wire;
