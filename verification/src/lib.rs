use vstd::prelude::*;

pub mod text;
pub mod layout;
pub mod i18n;
pub mod fb2_parser;
pub mod fb2_builder;
pub mod fb2_source;
pub mod book;
pub mod library;
pub mod reader;
pub mod view;
pub mod popups;

verus! {
} // verus!
