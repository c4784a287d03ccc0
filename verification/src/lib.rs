//! Recording logic of a two-camera dash recorder: file naming, directory
//! layout, ffmpeg argument lists, keyboard commands, and the bookkeeping
//! that decides which clips an accident or manual save keeps.

pub mod text;
pub mod paths;
pub mod config;
pub mod order;
pub mod recorder;
pub mod cleanup;
pub mod command;
pub mod ffmpeg;
pub mod save;
