use vstd::prelude::*;
use crate::metadata::Metadata;
use crate::tag::{Tag, tag_name, tag_of, is_tag_name, lemma_tag_of};

verus! {

/// The words of `s`, split at every single space; two spaces in a row give an
/// empty word between them, and an empty line is one empty word.
pub open spec fn split_spaces(s: Seq<char>) -> Seq<Seq<char>>
    decreases s.len(),
{
    if s.len() == 0 {
        seq![Seq::<char>::empty()]
    } else {
        let p = split_spaces(s.drop_last());
        if s.last() == ' ' {
            p.push(Seq::<char>::empty())
        } else {
            p.update(p.len() - 1, p.last().push(s.last()))
        }
    }
}

/// Where a left-to-right scan of the words stands: the fields found so far,
/// the field being read, and the words read for it (joined by spaces), if any.
pub struct ScanState {
    pub fields: Map<Seq<char>, Seq<char>>,
    pub current: Option<Tag>,
    pub value: Option<Seq<char>>,
}

/// The fields of a scan once the field being read is closed: it is recorded
/// only when a field is being read and at least one word was read for it.
pub open spec fn closed_fields(st: ScanState) -> Map<Seq<char>, Seq<char>> {
    match (st.current, st.value) {
        (Some(t), Some(v)) => st.fields.insert(tag_name(t), v),
        _ => st.fields,
    }
}

/// One word of the scan: a field's name closes the field being read and
/// starts a new one with no words; any other word is added to the value.
pub open spec fn scan_word(st: ScanState, w: Seq<char>) -> ScanState {
    match tag_of(w) {
        Some(t) => ScanState { fields: closed_fields(st), current: Some(t), value: None },
        None => ScanState {
            fields: st.fields,
            current: st.current,
            value: Some(
                match st.value {
                    Some(v) => v + seq![' '] + w,
                    None => w,
                },
            ),
        },
    }
}

/// The scan of the words `ws`, from no fields and no field being read.
pub open spec fn scan(ws: Seq<Seq<char>>) -> ScanState
    decreases ws.len(),
{
    if ws.len() == 0 {
        ScanState { fields: Map::empty(), current: None, value: None }
    } else {
        scan_word(scan(ws.drop_last()), ws.last())
    }
}

/// The record that a status line stands for.
pub open spec fn parse_spec(s: Seq<char>) -> Map<Seq<char>, Seq<char>> {
    closed_fields(scan(split_spaces(s)))
}

proof fn lemma_split_spaces_len(s: Seq<char>)
    ensures
        split_spaces(s).len() >= 1,
    decreases s.len(),
{
    if s.len() > 0 {
        lemma_split_spaces_len(s.drop_last());
    }
}

/// Every name that a scan has recorded is a field's name.
proof fn lemma_scan_keys(ws: Seq<Seq<char>>)
    ensures
        forall|k: Seq<char>| #[trigger] scan(ws).fields.contains_key(k) ==> is_tag_name(k),
        forall|k: Seq<char>| #[trigger] closed_fields(scan(ws)).contains_key(k) ==> is_tag_name(k),
    decreases ws.len(),
{
    if ws.len() > 0 {
        lemma_scan_keys(ws.drop_last());
        lemma_tag_of(ws.last());
    }
    if let Some(t) = scan(ws).current {
        assert(is_tag_name(tag_name(t)));
    }
}

/// For every line, each name in the record that it stands for is one of the
/// fields' names.
pub proof fn lemma_parse_keys_are_tags(s: Seq<char>)
    ensures
        forall|k: Seq<char>| #[trigger] parse_spec(s).contains_key(k) ==> is_tag_name(k),
{
    lemma_scan_keys(split_spaces(s));
}

/// The executable form of a scan.
struct Scanner {
    fields: Metadata,
    current: Option<Tag>,
    value: Option<String>,
}

impl Scanner {
    spec fn state(&self) -> ScanState {
        ScanState {
            fields: self.fields@,
            current: self.current,
            value: match self.value {
                Some(v) => Some(v@),
                None => None,
            },
        }
    }
}

fn close_field(sc: Scanner) -> (r: Metadata)
    requires
        sc.fields.wf(),
    ensures
        r.wf(),
        r@ == closed_fields(sc.state()),
{
    let mut fields = sc.fields;
    match (sc.current, sc.value) {
        (Some(t), Some(v)) => {
            fields.insert(String::from_str(t.name()), v);
        },
        _ => {},
    }
    fields
}

fn take_word(sc: Scanner, w: &str) -> (r: Scanner)
    requires
        sc.fields.wf(),
    ensures
        r.fields.wf(),
        r.state() == scan_word(sc.state(), w@),
{
    match Tag::from_word(w) {
        Some(t) => {
            let fields = close_field(sc);
            Scanner { fields, current: Some(t), value: None }
        },
        None => {
            let value = match sc.value {
                Some(v) => {
                    let ghost before = v@;
                    let mut v = v;
                    v.append(" ");
                    v.append(w);
                    proof {
                        reveal_strlit(" ");
                        assert(v@ =~= before + seq![' '] + w@);
                    }
                    v
                },
                None => String::from_str(w),
            };
            Scanner { fields: sc.fields, current: sc.current, value: Some(value) }
        },
    }
}

/// Reads a status line into a record of fields.
///
/// The line is split at single spaces into words. A word that is a field's
/// name starts that field; the words up to the next field's name (or the
/// end), joined by single spaces, are its value. A field with no words is
/// left out, a later value of a field replaces an earlier one, and words
/// before the first field's name are dropped.
pub fn parse(cmus_data: String) -> (r: Metadata)
    ensures
        r.wf(),
        r@ == parse_spec(cmus_data@),
        forall|k: Seq<char>| #[trigger] r@.contains_key(k) ==> is_tag_name(k),
{
    let s = cmus_data.as_str();
    let n = s.unicode_len();
    let mut sc = Scanner { fields: Metadata::new(), current: None, value: None };
    let mut start: usize = 0;
    let mut i: usize = 0;
    proof {
        assert(s@.subrange(0, 0) =~= Seq::<char>::empty());
        assert(split_spaces(s@.subrange(0, 0)).drop_last() =~= Seq::<Seq<char>>::empty());
    }
    while i < n
        invariant
            n == s@.len(),
            s@ == cmus_data@,
            start <= i <= n,
            sc.fields.wf(),
            split_spaces(s@.subrange(0, i as int)).len() >= 1,
            split_spaces(s@.subrange(0, i as int)).last() == s@.subrange(start as int, i as int),
            sc.state() == scan(split_spaces(s@.subrange(0, i as int)).drop_last()),
        decreases n - i,
    {
        let ghost p = split_spaces(s@.subrange(0, i as int));
        let ghost q = s@.subrange(0, i + 1);
        assert(q.drop_last() =~= s@.subrange(0, i as int));
        if s.get_char(i) == ' ' {
            let w = s.substring_char(start, i);
            sc = take_word(sc, w);
            start = i + 1;
            proof {
                assert(split_spaces(q) == p.push(Seq::<char>::empty()));
                assert(split_spaces(q).drop_last() =~= p);
                assert(p =~= p.drop_last().push(p.last()));
                assert(s@.subrange(start as int, i + 1) =~= Seq::<char>::empty());
            }
        } else {
            proof {
                assert(split_spaces(q) == p.update(p.len() - 1, p.last().push(s@[i as int])));
                assert(split_spaces(q).drop_last() =~= p.drop_last());
                assert(s@.subrange(start as int, i + 1) =~= s@.subrange(start as int, i as int).push(s@[i as int]));
            }
        }
        i = i + 1;
    }
    let w = s.substring_char(start, n);
    sc = take_word(sc, w);
    proof {
        let p = split_spaces(s@.subrange(0, n as int));
        assert(s@.subrange(0, n as int) =~= s@);
        assert(p =~= p.drop_last().push(p.last()));
    }
    let r = close_field(sc);
    proof {
        lemma_parse_keys_are_tags(cmus_data@);
        assert forall|k: Seq<char>| #[trigger] r@.contains_key(k) implies is_tag_name(k) by {
            assert(parse_spec(cmus_data@).contains_key(k));
        }
    }
    r
}

} // verus!
