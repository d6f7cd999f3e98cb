//! Screen OCR and translation: the decisions behind the program.

pub mod capture;
pub mod conf;
pub mod conf_laws;
pub mod config;
pub mod cycle;
pub mod daemon;
pub mod drag;
pub mod fonts;
pub mod frame;
pub mod history;
pub mod hotkey;
pub mod http;
pub mod json;
pub mod letter_case;
pub mod live;
pub mod locate;
pub mod monitors;
pub mod number;
pub mod ocr;
pub mod picture_calls;
pub mod popup;
pub mod providers;
pub mod region_ipc;
pub mod regions;
pub mod session_lock;
pub mod settings;
pub mod text;
pub mod text_laws;
pub mod text_order;
pub mod translate;
pub mod tray;
