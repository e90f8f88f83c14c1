//! A plain-text markdown editor core: a character buffer with undo,
//! offset-based caret and selection arithmetic, and a structural
//! renderer that turns a markdown token stream into a tree of typed
//! nodes while keeping the literal syntax markers visible.

pub mod caret;
pub mod document;
pub mod editor;
pub mod escape;
pub mod events;
pub mod lines;
pub mod markdown;
pub mod nodes;
pub mod text;
