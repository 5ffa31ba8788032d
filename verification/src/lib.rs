use vstd::prelude::*;

pub mod dashboard;
pub mod desktop_integration;
pub mod diagnostics;
pub mod error_kind;
pub mod live_workspace;
pub mod local_data;
pub mod presentation;
pub mod responsive;
pub mod rich_text_view;
pub mod semantic_icons;
pub mod text;

verus! {
} // verus!
