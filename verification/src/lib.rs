//! Review a folder of images and videos, mark rejects, and delete the marked
//! files only after an explicit confirmation.

pub mod app;
pub mod assoc;
pub mod binary;
pub mod browser;
pub mod cli;
pub mod codec;
pub mod comparison;
pub mod decode;
pub mod delete;
pub mod gui;
pub mod image_cache;
pub mod input;
pub mod metadata;
pub mod numbers;
pub mod order;
pub mod path;
pub mod picture;
pub mod queue;
pub mod refresh;
pub mod renderer;
pub mod scanner;
pub mod slots;
pub mod sorter;
pub mod state;
pub mod text;
pub mod thumbnail;
pub mod ui;
pub mod video;
pub mod watcher;
