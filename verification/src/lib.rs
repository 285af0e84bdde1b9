pub mod actions;
pub mod async_syntax;
pub mod buffer;
pub mod command;
pub mod commands;
pub mod color;
pub mod command_registry;
pub mod completion;
pub mod config;
pub mod digits;
pub mod editor;
pub mod engine;
pub mod event;
pub mod event_handlers;
pub mod external;
pub mod file;
pub mod input_events;
pub mod keymap;
pub mod lsp;
pub mod macros;
pub mod mode;
pub mod motion;
pub mod plugin;
pub mod search;
pub mod syntax;
pub mod text;
pub mod text_objects;
pub mod theme;
pub mod ui;
pub mod utils;
