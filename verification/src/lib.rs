//! Pins continuous-integration action references to immutable commit
//! identifiers.
//!
//! A workflow file names the actions it runs in `uses:` fields of the form
//! `owner/repo@ref`, where `ref` is a mutable tag or branch name.  This
//! library parses such references, finds them at any nesting depth of a
//! workflow document, decides how each symbolic reference resolves to a
//! full commit identifier, and rewrites exactly the textual occurrences
//! that changed.


pub mod chars;
pub mod document;
pub mod reference;
pub mod resolver;
pub mod rewrite;

pub use document::extract_uses_from_value;
pub use document::find_action_references;
pub use document::Node;
pub use reference::parse_uses_string;
pub use reference::ActionReference;
pub use resolver::Lookup;
pub use resolver::ObjectKind;
pub use resolver::Outcome;
pub use resolver::ResolvedPin;
pub use resolver::Resolver;
pub use resolver::Step;
pub use rewrite::plan_change;
pub use rewrite::replace_all_str;
pub use rewrite::rewrite_document;
pub use rewrite::Change;
pub use rewrite::Resolution;
pub use rewrite::Rewrite;
