use vstd::prelude::*;

verus! {

/// The fields that a status line can carry, each introduced by its name.
#[derive(Clone, Copy, Debug, PartialEq, Eq, Structural)]
pub enum Tag {
    Status,
    Url,
    File,
    Artist,
    Album,
    Discnumber,
    Tracknumber,
    Title,
    Date,
    Duration,
}

/// The word that introduces a field in a status line.
pub open spec fn tag_name(t: Tag) -> Seq<char> {
    match t {
        Tag::Status => "status"@,
        Tag::Url => "url"@,
        Tag::File => "file"@,
        Tag::Artist => "artist"@,
        Tag::Album => "album"@,
        Tag::Discnumber => "discnumber"@,
        Tag::Tracknumber => "tracknumber"@,
        Tag::Title => "title"@,
        Tag::Date => "date"@,
        Tag::Duration => "duration"@,
    }
}

/// Whether `w` is the name of one of the fields.
pub open spec fn is_tag_name(w: Seq<char>) -> bool {
    exists|t: Tag| tag_name(t) == w
}

/// The field that the word `w` introduces, if it is a field's name
/// (case-sensitive, exact match).
pub open spec fn tag_of(w: Seq<char>) -> Option<Tag> {
    if w == tag_name(Tag::Status) {
        Some(Tag::Status)
    } else if w == tag_name(Tag::Url) {
        Some(Tag::Url)
    } else if w == tag_name(Tag::File) {
        Some(Tag::File)
    } else if w == tag_name(Tag::Artist) {
        Some(Tag::Artist)
    } else if w == tag_name(Tag::Album) {
        Some(Tag::Album)
    } else if w == tag_name(Tag::Discnumber) {
        Some(Tag::Discnumber)
    } else if w == tag_name(Tag::Tracknumber) {
        Some(Tag::Tracknumber)
    } else if w == tag_name(Tag::Title) {
        Some(Tag::Title)
    } else if w == tag_name(Tag::Date) {
        Some(Tag::Date)
    } else if w == tag_name(Tag::Duration) {
        Some(Tag::Duration)
    } else {
        None
    }
}

/// A word is recognised as a field exactly when it is that field's name.
pub proof fn lemma_tag_of(w: Seq<char>)
    ensures
        tag_of(w) is Some <==> is_tag_name(w),
        tag_of(w) matches Some(t) ==> tag_name(t) == w,
{
    if is_tag_name(w) {
        let t = choose|t: Tag| tag_name(t) == w;
        assert(tag_name(t) == w);
    }
}

/// Whether two strings hold the same characters.
pub fn str_eq(a: &str, b: &str) -> (r: bool)
    ensures
        r == (a@ == b@),
{
    let n = a.unicode_len();
    if n != b.unicode_len() {
        return false;
    }
    let mut i: usize = 0;
    while i < n
        invariant
            n == a@.len(),
            n == b@.len(),
            i <= n,
            a@.subrange(0, i as int) == b@.subrange(0, i as int),
        decreases n - i,
    {
        if a.get_char(i) != b.get_char(i) {
            return false;
        }
        assert(a@.subrange(0, i + 1) =~= a@.subrange(0, i as int).push(a@[i as int]));
        assert(b@.subrange(0, i + 1) =~= b@.subrange(0, i as int).push(b@[i as int]));
        i = i + 1;
    }
    assert(a@ =~= a@.subrange(0, n as int));
    assert(b@ =~= b@.subrange(0, n as int));
    true
}

impl Tag {
    /// The word that introduces this field.
    pub fn name(&self) -> (r: &'static str)
        ensures
            r@ == tag_name(*self),
    {
        match self {
            Tag::Status => "status",
            Tag::Url => "url",
            Tag::File => "file",
            Tag::Artist => "artist",
            Tag::Album => "album",
            Tag::Discnumber => "discnumber",
            Tag::Tracknumber => "tracknumber",
            Tag::Title => "title",
            Tag::Date => "date",
            Tag::Duration => "duration",
        }
    }

    /// The field that the word `w` introduces, if any.
    pub fn from_word(w: &str) -> (r: Option<Tag>)
        ensures
            r == tag_of(w@),
    {
        if str_eq(w, "status") {
            Some(Tag::Status)
        } else if str_eq(w, "url") {
            Some(Tag::Url)
        } else if str_eq(w, "file") {
            Some(Tag::File)
        } else if str_eq(w, "artist") {
            Some(Tag::Artist)
        } else if str_eq(w, "album") {
            Some(Tag::Album)
        } else if str_eq(w, "discnumber") {
            Some(Tag::Discnumber)
        } else if str_eq(w, "tracknumber") {
            Some(Tag::Tracknumber)
        } else if str_eq(w, "title") {
            Some(Tag::Title)
        } else if str_eq(w, "date") {
            Some(Tag::Date)
        } else if str_eq(w, "duration") {
            Some(Tag::Duration)
        } else {
            None
        }
    }
}

} // verus!
