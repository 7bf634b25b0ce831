pub mod json;
pub mod text;
pub mod progress;
pub mod models;
pub mod task_manager;
pub mod music;
pub mod format;
pub mod paths;
pub mod runtime;
pub mod urls;
pub mod thumbnail;
pub mod catalog;
pub mod regexes;
pub mod ytdlp;
pub mod providers;
pub mod postprocess;
pub mod html;
pub mod subtitles;
pub mod tooling;
