//! Input routing and focus navigation for a retained-mode UI node tree.
pub mod action;
pub mod backend;
pub mod canvas;
pub mod context;
pub mod event;
pub mod focus;
pub mod hover;
pub mod input;
pub mod layout;
pub mod node;
pub mod static_id;
pub mod style;
pub mod tag_list;
pub mod theme;
pub mod tree;
