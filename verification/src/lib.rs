//! Compiler core for a keyboard-shortcut declaration language.
//!
//! A keybind is declared as a `+`-joined expression such as `Ctrl+Alt+Del`,
//! `Logo+{d}` or `Ctrl+[111]`. This crate parses such expressions, resolves
//! key names through an alias registry, aligns `{tag}` parameter terms with a
//! callback's declared extra arguments, and emits a structured binding
//! descriptor for a compositor runtime to match against live key events.

pub mod diag;
pub mod emitter;
pub mod key;
pub mod parser;
pub mod registry;
pub mod text;
pub mod validator;

pub use diag::GrammarKind;
pub use diag::KeybindError;
pub use diag::Span;
pub use emitter::BindingDescriptor;
pub use emitter::compile;
pub use key::AvKey;
pub use key::AvKeyDiscrim;
pub use key::AvKeyParameter;
pub use key::IntoAvKeyDiscrim;
pub use key::KeyCode;
pub use parser::ParsedKey;
pub use parser::ParsedKeyDisc;
pub use parser::ParsedKeybind;
pub use registry::KeyEntry;
pub use registry::KeyIdentifier;
pub use registry::Registry;
pub use validator::AssignmentPlan;
pub use validator::CallbackParam;
