use vstd::prelude::*;
use crate::format::{body_spec, format_notification_body};
use crate::parser::{parse, parse_spec};

verus! {

/// Something that can show a notification with a summary and a body.
pub trait Notifier {
    fn send(&self, summary: String, content: String);
}

/// The summary that every notification carries.
pub open spec fn summary_spec() -> Seq<char> {
    "Cmustify - Current song"@
}

/// The summary and body of the notification for a status line: the fixed
/// summary, and the text of the record that the line stands for.
pub fn notification(cmus_data: String) -> (r: (String, String))
    ensures
        r.0@ == summary_spec(),
        r.1@ == body_spec(parse_spec(cmus_data@)),
{
    let metadata = parse(cmus_data);
    let body = format_notification_body(&metadata);
    (String::from_str("Cmustify - Current song"), body)
}

/// Reads a status line and hands its notification to `n`, in one call.
pub fn run<T: Notifier>(n: &T, cmus_data: String) {
    let (summary, body) = notification(cmus_data);
    n.send(summary, body);
}

} // verus!
