//! Wolf Screen Recorder: the decision logic of a screen recorder (encoder
//! selection and FFmpeg command lines, hotkey handling, click tracking,
//! localisation, annotation geometry and pixel effects), with contracts.

pub mod text;
pub mod hardware;
pub mod hotkeys;
pub mod region;
pub mod focus;
pub mod i18n;
pub mod config;
pub mod webcam;
pub mod audio;
pub mod capture;
pub mod canvas;
pub mod annotations;
pub mod editor;
pub mod render;
pub mod status;
