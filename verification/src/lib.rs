//! StudyPilot: the command parsers, editors, pickers and renderers of a
//! local-first study assistant, with their contracts.
pub mod text;
pub mod input_edit;
pub mod course_cmd;
pub mod wizard;
pub mod navigation;
pub mod palette;
pub mod review_map;
pub mod cards;
pub mod highlight;
pub mod events;
pub mod toast;
pub mod import_path;
pub mod keys;
pub mod setup;
pub mod refs;
pub mod note_browser;
pub mod markdown;
pub mod outline_render;
pub mod selection;
pub mod commands;
pub mod review_keys;
pub mod session_browser;
pub mod warmup;
pub mod status;
pub mod followup;
pub mod review_text;
pub mod partitions;
pub mod import_events;
pub mod session_restore;
pub mod note_admin;
pub mod session_persist;
pub mod course_admin;
