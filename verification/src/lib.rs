//! ICU-style message formatting.
//!
//! A template such as `"{name} is from {city}."` is parsed into an immutable
//! [`Message`] tree whose nodes are plain text, `#` placeholders, simple
//! substitutions, plural branches and select branches.  The tree is then
//! formatted against a caller-supplied set of named arguments ([`Args`]),
//! producing localized text.

pub mod args;
pub mod context;
pub mod decimal;
pub mod icu;
pub mod message;
pub mod message_part;
pub mod model;
pub mod value;

pub use args::arg;
pub use args::Args;
pub use args::EmptyArgs;
pub use args::ListArgs;
pub use context::Context;
pub use message::Message;
pub use message_part::MessagePart;
pub use model::FormatError;
pub use value::IntoValue;
pub use value::Value;
