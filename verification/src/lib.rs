//! Verified core of a push-to-talk dictation tool: the key tracking of the
//! listener, the command protocol between listener and daemon, the
//! recording buffer, transcript assembly, clipboard fallback order, model
//! download arithmetic, supervision decisions and the diagnostic report.
pub mod clipboard;
pub mod doctor;
pub mod listener;
pub mod model;
pub mod perms;
pub mod protocol;
pub mod recording;
pub mod supervisor;
pub mod text;
pub mod transcript;
pub mod tray;
