use vstd::prelude::*;

pub mod app;
pub mod book;
pub mod config;
pub mod encoding;
pub mod platform;
pub mod text;
pub mod ui;
pub mod xml;

verus! {
}
