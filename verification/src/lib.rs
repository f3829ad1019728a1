//! A terminal SQL workbench for MySQL: the decisions of its screens, its
//! completion engine, and the checks and formatting it applies to what it reads.

pub mod text;
pub mod model;
pub mod completion;
pub mod config;
pub mod db;
pub mod drafts;
pub mod editor;
pub mod nav;
pub mod app;
pub mod view;
pub mod layout;
pub mod grid;
