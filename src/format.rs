use vstd::prelude::*;
use crate::metadata::Metadata;
use crate::tag::{Tag, tag_name};

verus! {

/// The text of a notification for the record `m`: the title (or "Unknown"),
/// then " by " and the artist if there is one, then ", " and the album if
/// there are both an artist and an album. No other field shows.
pub open spec fn body_spec(m: Map<Seq<char>, Seq<char>>) -> Seq<char> {
    let title = tag_name(Tag::Title);
    let artist = tag_name(Tag::Artist);
    let album = tag_name(Tag::Album);
    let head = if m.contains_key(title) {
        m[title]
    } else {
        "Unknown"@
    };
    if m.contains_key(artist) {
        let by = head + " by "@ + m[artist];
        if m.contains_key(album) {
            by + ", "@ + m[album]
        } else {
            by
        }
    } else {
        head
    }
}

/// The text of a notification for the record `m`.
pub fn format_notification_body(m: &Metadata) -> (r: String)
    requires
        m.wf(),
    ensures
        r@ == body_spec(m@),
{
    let mut body = match m.get("title") {
        Some(t) => t.clone(),
        None => String::from_str("Unknown"),
    };
    if let Some(artist) = m.get("artist") {
        body.append(" by ");
        body.append(artist.as_str());
        if let Some(album) = m.get("album") {
            body.append(", ");
            body.append(album.as_str());
        }
    }
    body
}

} // verus!
