//! The format-node variants a parsed message is built from.

pub mod placeholder_format;
pub mod plain_text;
pub mod plural_format;
pub mod select_format;
pub mod simple_format;

pub use placeholder_format::PlaceholderFormat;
pub use plain_text::PlainText;
pub use plural_format::PluralFormat;
pub use select_format::SelectFormat;
pub use select_format::SelectMapping;
pub use simple_format::SimpleFormat;
