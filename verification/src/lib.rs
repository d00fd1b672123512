pub mod app;
pub mod codec;
pub mod hex;
pub mod i18n;
pub mod initfile;
pub mod input_history;
pub mod offset_map;
pub mod reader;
pub mod text;
