//! Verified protocol, configuration, wallpaper-library and world-cache logic of
//! the mural wallpaper daemon.

pub mod action_law;
pub mod actions;
pub mod answer_law;
pub mod arguments;
pub mod big;
pub mod binary64;
pub mod binary64_law;
pub mod cache_law;
pub mod canvas;
pub mod change;
pub mod cli;
pub mod command_law;
pub mod commands;
pub mod compute;
pub mod compute_options;
pub mod config;
pub mod config_law;
pub mod control;
pub mod display_law;
pub mod drawing;
pub mod error;
pub mod error_law;
pub mod fields;
pub mod figure_law;
pub mod hashing;
pub mod help;
pub mod invocation;
pub mod json;
pub mod json_law;
pub mod layout;
pub mod library;
pub mod library_law;
pub mod mosaic;
pub mod option_law;
pub mod output;
pub mod paths;
pub mod picture_law;
pub mod place_law;
pub mod preview;
pub mod preview_law;
pub mod profile_law;
pub mod protocol;
pub mod random;
pub mod random_law;
pub mod reading_law;
pub mod registry;
pub mod report;
pub mod report_law;
pub mod request;
pub mod request_law;
pub mod response;
pub mod response_law;
pub mod run;
pub mod scale;
pub mod selection;
pub mod setting_law;
pub mod supply;
pub mod text;
pub mod textlist;
pub mod textmap;
pub mod tiles;
pub mod trial;
pub mod wallpaper;
pub mod wallpaper_law;
pub mod wire_law;
pub mod work_law;
pub mod world;
pub mod world_cache;
pub mod world_law;
