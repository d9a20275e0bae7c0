//! The chat provider: what the chat network sends, how it is parsed, and
//! how parsed updates reach the store.

pub mod content;
pub mod files;
pub mod handler;
pub mod layout;
pub mod parsers;
pub mod source;
pub mod source_provider;
pub mod structs;
pub mod updates_handler;

pub use structs::{
    AnimationMeta, FilePath, FileType, ImageMeta, PollMeta, PollOptionMeta, TelegramFile,
    TelegramFileForRecord, TelegramFileWithMeta, TelegramMessage, TelegramUpdate,
};
pub use source::{CollectorConfig, TelegramSource, TelegramSourceBuilder};
pub use updates_handler::Step;
