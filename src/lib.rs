//! Turns a music player's status line into a desktop notification: the line
//! is parsed into a record of known fields, the record is formatted into a
//! short text, and the text is handed to a notifier.
mod dispatch;
mod format;
mod metadata;
mod parser;
mod tag;

pub use dispatch::{Notifier, notification, run, summary_spec};
pub use format::{body_spec, format_notification_body};
pub use metadata::{Metadata, entries_map, keys_unique};
pub use parser::{
    ScanState, closed_fields, lemma_parse_keys_are_tags, parse, parse_spec, scan, scan_word,
    split_spaces,
};
pub use tag::{Tag, is_tag_name, lemma_tag_of, str_eq, tag_name, tag_of};
