//! Resumable download of serialized novel chapters and assembly of the
//! downloaded text into e-book pages.
pub mod book;
pub mod chapter;
pub mod content;
pub mod cookies;
pub mod download;
pub mod epub;
pub mod model;
pub mod text;
pub mod title;
