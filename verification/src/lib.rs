//! Voice-controlled dictation core: audio capture state machine, segment
//! buffering for speech recognition, spoken-command detection, and a text
//! editor with linear undo/redo history.

pub mod text;
pub mod editor;
pub mod commands;
pub mod interpreter;
pub mod capture;
pub mod config;
pub mod device;
pub mod transcribe;
