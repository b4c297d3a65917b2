//! The structured index as rows of (path, tags joined by commas): how a tag
//! set is stored, how a stored row is read back, which rows a substring
//! lookup finds, and the renaming job over the rows it finds.

use vstd::prelude::*;
use crate::engine::{is_log, log_with, AppMessage};
use crate::tagset::{rename_tag, renamed, tag_views};
use crate::text::{contains_text, decimal, decimal_string, has_substring, join_tags, joined};

verus! {

/// A white-space character (Unicode's White_Space property).
pub open spec fn is_ws(c: char) -> bool {
    c == '\t' || c == '\n' || c == '\u{0B}' || c == '\u{0C}' || c == '\r' || c == ' '
        || c == '\u{85}' || c == '\u{A0}' || c == '\u{1680}' || ('\u{2000}' <= c && c <= '\u{200A}')
        || c == '\u{2028}' || c == '\u{2029}' || c == '\u{202F}' || c == '\u{205F}' || c == '\u{3000}'
}

pub open spec fn trim_start(p: Seq<char>) -> Seq<char>
    decreases p.len(),
{
    if p.len() > 0 && is_ws(p[0]) {
        trim_start(p.drop_first())
    } else {
        p
    }
}

pub open spec fn trim_end(p: Seq<char>) -> Seq<char>
    decreases p.len(),
{
    if p.len() > 0 && is_ws(p.last()) {
        trim_end(p.drop_last())
    } else {
        p
    }
}

/// The text without white space at either end.
pub open spec fn trimmed(p: Seq<char>) -> Seq<char> {
    trim_end(trim_start(p))
}

/// The pieces of the text between commas (one more than there are commas).
pub open spec fn pieces(s: Seq<char>) -> Seq<Seq<char>>
    decreases s.len(),
{
    if s.len() == 0 {
        seq![Seq::empty()]
    } else {
        let p = pieces(s.drop_last());
        if s.last() == ',' {
            p.push(Seq::empty())
        } else {
            p.update(p.len() - 1, p.last().push(s.last()))
        }
    }
}

/// Each piece trimmed, the empty ones left out.
pub open spec fn kept(ps: Seq<Seq<char>>) -> Seq<Seq<char>>
    decreases ps.len(),
{
    if ps.len() == 0 {
        Seq::empty()
    } else {
        let k = kept(ps.drop_last());
        if trimmed(ps.last()).len() == 0 {
            k
        } else {
            k.push(trimmed(ps.last()))
        }
    }
}

/// The tags that a stored tag string holds.
pub open spec fn parsed_tags(s: Seq<char>) -> Seq<Seq<char>> {
    kept(pieces(s))
}

/// Whether `c` is white space.
pub fn is_space(c: char) -> (r: bool)
    ensures
        r == is_ws(c),
{
    c == '\t' || c == '\n' || c == '\u{0B}' || c == '\u{0C}' || c == '\r' || c == ' '
        || c == '\u{85}' || c == '\u{A0}' || c == '\u{1680}' || ('\u{2000}' <= c && c <= '\u{200A}')
        || c == '\u{2028}' || c == '\u{2029}' || c == '\u{202F}' || c == '\u{205F}' || c == '\u{3000}'
}

fn trim_range(s: &str, from: usize, to: usize) -> (r: String)
    requires
        from <= to <= s@.len(),
    ensures
        r@ == trimmed(s@.subrange(from as int, to as int)),
{
    let mut a = from;
    while a < to && is_space(s.get_char(a))
        invariant
            from <= a <= to <= s@.len(),
            trim_start(s@.subrange(from as int, to as int)) == trim_start(s@.subrange(a as int, to as int)),
        decreases to - a,
    {
        assert(s@.subrange(a as int, to as int).drop_first() =~= s@.subrange(a + 1, to as int));
        a = a + 1;
    }
    let mut b = to;
    while b > a && is_space(s.get_char(b - 1))
        invariant
            from <= a <= b <= to <= s@.len(),
            trim_end(s@.subrange(a as int, to as int)) == trim_end(s@.subrange(a as int, b as int)),
        decreases b - a,
    {
        assert(s@.subrange(a as int, b as int).drop_last() =~= s@.subrange(a as int, b - 1));
        b = b - 1;
    }
    let sub = s.substring_char(a, b);
    String::from_str(sub)
}

/// The tags of a stored tag string: split at commas, trimmed, empty ones dropped.
pub fn parse_tags(s: &str) -> (r: Vec<String>)
    ensures
        tag_views(r@) == parsed_tags(s@),
{
    let n = s.unicode_len();
    let mut out: Vec<String> = Vec::new();
    let mut start: usize = 0;
    let mut i: usize = 0;
    let ghost mut done: Seq<Seq<char>> = Seq::empty();
    assert(s@.take(0) =~= Seq::<char>::empty());
    assert(pieces(s@.take(0)) =~= done.push(s@.subrange(0, 0)));
    while i < n
        invariant
            n == s@.len(),
            start <= i <= n,
            pieces(s@.take(i as int)) == done.push(s@.subrange(start as int, i as int)),
            tag_views(out@) == kept(done),
        decreases n - i,
    {
        let c = s.get_char(i);
        assert(s@.take(i + 1).drop_last() =~= s@.take(i as int));
        assert(s@.take(i + 1).last() == c);
        if c == ',' {
            let piece = trim_range(s, start, i);
            let ghost before = tag_views(out@);
            let ghost d2 = done.push(s@.subrange(start as int, i as int));
            assert(d2.drop_last() =~= done);
            if piece.unicode_len() > 0 {
                out.push(piece);
                assert(tag_views(out@) =~= before.push(piece@));
            }
            proof {
                done = d2;
            }
            assert(s@.subrange(i + 1, i + 1) =~= Seq::<char>::empty());
            assert(pieces(s@.take(i + 1)) == pieces(s@.take(i as int)).push(Seq::empty()));
            assert(pieces(s@.take(i + 1)) =~= done.push(s@.subrange(i + 1, i + 1)));
            start = i + 1;
        } else {
            assert(s@.subrange(start as int, i as int).push(c) =~= s@.subrange(start as int, i + 1));
            assert(pieces(s@.take(i + 1)) =~= done.push(s@.subrange(start as int, i + 1)));
        }
        i = i + 1;
    }
    let piece = trim_range(s, start, n);
    let ghost before = tag_views(out@);
    let ghost d2 = done.push(s@.subrange(start as int, n as int));
    assert(d2.drop_last() =~= done);
    assert(s@.take(n as int) =~= s@);
    if piece.unicode_len() > 0 {
        out.push(piece);
        assert(tag_views(out@) =~= before.push(piece@));
    }
    out
}

/// One record of the index: an item's path and its tags.
#[derive(Clone, Debug, PartialEq, Eq)]
pub struct IndexRecord {
    pub path: String,
    pub tags: Vec<String>,
}

impl View for IndexRecord {
    type V = (Seq<char>, Seq<Seq<char>>);

    open spec fn view(&self) -> (Seq<char>, Seq<Seq<char>>) {
        (self.path@, tag_views(self.tags@))
    }
}

/// Stored rows as (path, tag string).
pub open spec fn row_views(rows: Seq<(String, String)>) -> Seq<(Seq<char>, Seq<char>)> {
    rows.map_values(|r: (String, String)| (r.0@, r.1@))
}

pub open spec fn record_views(recs: Seq<IndexRecord>) -> Seq<(Seq<char>, Seq<Seq<char>>)> {
    recs.map_values(|r: IndexRecord| r@)
}

/// The records whose tag string holds `needle`, in the rows' order, with their tags read back.
pub open spec fn found_records(rows: Seq<(Seq<char>, Seq<char>)>, needle: Seq<char>) -> Seq<(Seq<char>, Seq<Seq<char>>)>
    decreases rows.len(),
{
    if rows.len() == 0 {
        Seq::empty()
    } else {
        let f = found_records(rows.drop_last(), needle);
        if has_substring(rows.last().1, needle) {
            f.push((rows.last().0, parsed_tags(rows.last().1)))
        } else {
            f
        }
    }
}

/// The paths of the rows whose tag string holds `query`, in the rows' order.
pub open spec fn found_paths(rows: Seq<(Seq<char>, Seq<char>)>, query: Seq<char>) -> Seq<Seq<char>>
    decreases rows.len(),
{
    if rows.len() == 0 {
        Seq::empty()
    } else {
        let f = found_paths(rows.drop_last(), query);
        if has_substring(rows.last().1, query) {
            f.push(rows.last().0)
        } else {
            f
        }
    }
}

/// The tag string stored for a tag set: the tags joined by commas.
pub fn encode_tags(tags: &Vec<String>) -> (r: String)
    ensures
        r@ == joined(tag_views(tags@), ","@),
{
    join_tags(tags, ",")
}

/// Whether a stored tag string matches a query: a plain, case-sensitive
/// substring test on the whole string, so "cat" matches a tag "category".
pub fn tags_match(tag_string: &str, query: &str) -> (r: bool)
    ensures
        r == has_substring(tag_string@, query@),
{
    contains_text(tag_string, query)
}

/// The records whose tag string holds `needle`, with their tags read back.
pub fn find_by_substring(rows: &Vec<(String, String)>, needle: &str) -> (r: Vec<IndexRecord>)
    ensures
        record_views(r@) == found_records(row_views(rows@), needle@),
{
    let ghost rv = row_views(rows@);
    let mut out: Vec<IndexRecord> = Vec::new();
    let mut i: usize = 0;
    while i < rows.len()
        invariant
            i <= rows@.len(),
            rv == row_views(rows@),
            record_views(out@) == found_records(rv.take(i as int), needle@),
        decreases rows@.len() - i,
    {
        assert(rv.take(i + 1).drop_last() =~= rv.take(i as int));
        let row = &rows[i];
        if tags_match(row.1.as_str(), needle) {
            let ghost before = record_views(out@);
            let rec = IndexRecord { path: row.0.clone(), tags: parse_tags(row.1.as_str()) };
            out.push(rec);
            assert(record_views(out@) =~= before.push(rec@));
        }
        i = i + 1;
    }
    assert(rv.take(rows@.len() as int) =~= rv);
    out
}

/// The paths of the rows whose tag string holds `query`.
pub fn search_paths(rows: &Vec<(String, String)>, query: &str) -> (r: Vec<String>)
    ensures
        tag_views(r@) == found_paths(row_views(rows@), query@),
{
    let ghost rv = row_views(rows@);
    let mut out: Vec<String> = Vec::new();
    let mut i: usize = 0;
    while i < rows.len()
        invariant
            i <= rows@.len(),
            rv == row_views(rows@),
            tag_views(out@) == found_paths(rv.take(i as int), query@),
        decreases rows@.len() - i,
    {
        assert(rv.take(i + 1).drop_last() =~= rv.take(i as int));
        if tags_match(rows[i].1.as_str(), query) {
            let ghost before = tag_views(out@);
            out.push(rows[i].0.clone());
            assert(tag_views(out@) =~= before.push(rows@[i as int].0@));
        }
        i = i + 1;
    }
    assert(rv.take(rows@.len() as int) =~= rv);
    out
}

/// What the renaming job does for one record: report progress, and write
/// the renamed record back when it held the exact old tag.
#[derive(Clone, Debug)]
pub struct RecordPlan {
    pub progress: AppMessage,
    pub update: Option<IndexRecord>,
}

/// The renaming job: the events before the records, one plan per record in
/// the order the index returned them, and the closing events.
#[derive(Clone, Debug)]
pub struct RenamePlan {
    pub opening: Vec<AppMessage>,
    pub records: Vec<RecordPlan>,
    pub closing: Vec<AppMessage>,
}

/// Renames `old_tag` to `new_tag` in every record that the substring lookup
/// found. A record that holds no exact `old_tag` is left as it is and not
/// written; the others are written back with the tag replaced, sorted and
/// free of duplicates.
pub fn run_renaming_process(old_tag: &String, new_tag: &String, found: Result<Vec<IndexRecord>, String>) -> (r: RenamePlan)
    ensures
        r.closing@.len() == 2,
        is_log(r.closing@[0], "Renaming complete."@),
        r.closing@[1] is Finished,
        r.opening@.len() == 1,
        found is Err ==> {
            &&& is_log(r.opening@[0], "Search error: "@ + found->Err_0@)
            &&& r.records@.len() == 0
        },
        found is Ok ==> {
            let recs = found->Ok_0@;
            &&& is_log(r.opening@[0], "Found "@ + decimal(recs.len()) + " images with tag '"@ + old_tag@ + "'"@)
            &&& r.records@.len() == recs.len()
            &&& forall|i: int| 0 <= i < recs.len() ==> {
                let p = #[trigger] r.records@[i];
                &&& p.progress == AppMessage::Progress((i + 1) as usize, recs.len() as usize)
                &&& (p.update is None <==> !tag_views(recs[i].tags@).contains(old_tag@))
                &&& (p.update is Some ==> p.update->Some_0.path == recs[i].path
                    && tag_views(p.update->Some_0.tags@) == renamed(tag_views(recs[i].tags@), old_tag@, new_tag@))
            }
        },
{
    let closing = vec![AppMessage::Log(String::from_str("Renaming complete.")), AppMessage::Finished];
    match found {
        Err(e) => {
            let opening = vec![log_with("Search error: ", e.as_str())];
            RenamePlan { opening, records: Vec::new(), closing }
        },
        Ok(recs) => {
            let total = recs.len();
            let mut text = String::from_str("Found ");
            text.append(decimal_string(total).as_str());
            text.append(" images with tag '");
            text.append(old_tag.as_str());
            text.append("'");
            let opening = vec![AppMessage::Log(text)];
            let mut records: Vec<RecordPlan> = Vec::new();
            let mut i: usize = 0;
            while i < total
                invariant
                    total == recs@.len(),
                    i <= total,
                    records@.len() == i,
                    forall|k: int| 0 <= k < i ==> {
                        let p = #[trigger] records@[k];
                        &&& p.progress == AppMessage::Progress((k + 1) as usize, total)
                        &&& (p.update is None <==> !tag_views(recs@[k].tags@).contains(old_tag@))
                        &&& (p.update is Some ==> p.update->Some_0.path == recs@[k].path
                            && tag_views(p.update->Some_0.tags@) == renamed(tag_views(recs@[k].tags@), old_tag@, new_tag@))
                    },
                decreases total - i,
            {
                let mut tags = recs[i].tags.clone();
                assert(tags@ == recs@[i as int].tags@);
                let changed = rename_tag(&mut tags, old_tag, new_tag);
                let update = if changed {
                    Some(IndexRecord { path: recs[i].path.clone(), tags })
                } else {
                    None
                };
                records.push(RecordPlan { progress: AppMessage::Progress(i + 1, total), update });
                i = i + 1;
            }
            RenamePlan { opening, records, closing }
        },
    }
}

} // verus!
