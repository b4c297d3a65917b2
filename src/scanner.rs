//! The file side: which enumerated files are images, the arguments that
//! embed a tag set in a file's metadata with its processed marker, and how
//! the marker is recognised when read back.

use vstd::prelude::*;
use crate::tagset::tag_views;
use crate::text::{contains_text, has_substring, join_tags, joined};

verus! {

/// The token written into a file's metadata once it has been processed.
pub open spec fn marker() -> Seq<char> {
    "local_lens_processed"@
}

/// Position of the last `c` in `s`, or -1.
pub open spec fn last_index_of(s: Seq<char>, c: char) -> int
    decreases s.len(),
{
    if s.len() == 0 {
        -1
    } else if s.last() == c {
        s.len() - 1
    } else {
        last_index_of(s.drop_last(), c)
    }
}

/// The extension of the file a path names: what follows the last dot of the
/// file name, where that dot is not the name's first character.
pub open spec fn extension_of(p: Seq<char>) -> Option<Seq<char>> {
    let d = last_index_of(p, '.');
    if d > last_index_of(p, '/') + 1 {
        Some(p.subrange(d + 1, p.len() as int))
    } else {
        None
    }
}

/// Whether a path names an image: its extension is `jpg`, `jpeg` or `png`, case-sensitively.
pub open spec fn is_image_path(p: Seq<char>) -> bool {
    match extension_of(p) {
        Some(e) => e == "jpg"@ || e == "jpeg"@ || e == "png"@,
        None => false,
    }
}

/// The image paths among the walked entries (path, is a regular file), in order.
pub open spec fn image_paths(entries: Seq<(Seq<char>, bool)>) -> Seq<Seq<char>>
    decreases entries.len(),
{
    if entries.len() == 0 {
        Seq::empty()
    } else {
        let f = image_paths(entries.drop_last());
        if entries.last().1 && is_image_path(entries.last().0) {
            f.push(entries.last().0)
        } else {
            f
        }
    }
}

proof fn lemma_last_index_bounds(s: Seq<char>, c: char)
    ensures
        -1 <= last_index_of(s, c) < s.len(),
    decreases s.len(),
{
    if s.len() > 0 {
        lemma_last_index_bounds(s.drop_last(), c);
    }
}

fn last_index(s: &str, n: usize, c: char) -> (r: Option<usize>)
    requires
        n == s@.len(),
    ensures
        r is None ==> last_index_of(s@, c) == -1,
        r is Some ==> last_index_of(s@, c) == r->Some_0 && r->Some_0 < n,
{
    let mut j = n;
    assert(s@.take(n as int) =~= s@);
    while j > 0 && s.get_char(j - 1) != c
        invariant
            j <= n == s@.len(),
            last_index_of(s@, c) == last_index_of(s@.take(j as int), c),
        decreases j,
    {
        assert(s@.take(j as int).drop_last() =~= s@.take(j - 1));
        j = j - 1;
    }
    if j == 0 {
        None
    } else {
        Some(j - 1)
    }
}

fn equals_literal(s: &str, lit: &str) -> (r: bool)
    ensures
        r == (s@ == lit@),
{
    String::from_str(s).eq(&String::from_str(lit))
}

/// Whether a path names an image by its extension.
pub fn is_image_file(path: &str) -> (r: bool)
    ensures
        r == is_image_path(path@),
{
    let n = path.unicode_len();
    proof {
        lemma_last_index_bounds(path@, '.');
        lemma_last_index_bounds(path@, '/');
    }
    let dot = last_index(path, n, '.');
    let slash = last_index(path, n, '/');
    let d = match dot {
        None => {
            return false;
        },
        Some(d) => d,
    };
    let has_ext = match slash {
        None => d > 0,
        Some(sl) => d > sl + 1,
    };
    if !has_ext {
        return false;
    }
    let ext = path.substring_char(d + 1, n);
    equals_literal(ext, "jpg") || equals_literal(ext, "jpeg") || equals_literal(ext, "png")
}

/// The paths of the walked entries that are regular image files, in walk order.
pub fn select_images(entries: &Vec<(String, bool)>) -> (r: Vec<String>)
    ensures
        tag_views(r@) == image_paths(entries@.map_values(|e: (String, bool)| (e.0@, e.1))),
{
    let ghost ev = entries@.map_values(|e: (String, bool)| (e.0@, e.1));
    let mut out: Vec<String> = Vec::new();
    let mut i: usize = 0;
    while i < entries.len()
        invariant
            i <= entries@.len(),
            ev == entries@.map_values(|e: (String, bool)| (e.0@, e.1)),
            tag_views(out@) == image_paths(ev.take(i as int)),
        decreases entries@.len() - i,
    {
        assert(ev.take(i + 1).drop_last() =~= ev.take(i as int));
        if entries[i].1 && is_image_file(entries[i].0.as_str()) {
            let ghost before = tag_views(out@);
            out.push(entries[i].0.clone());
            assert(tag_views(out@) =~= before.push(entries@[i as int].0@));
        }
        i = i + 1;
    }
    assert(ev.take(entries@.len() as int) =~= ev);
    out
}

/// Whether a file's comment field, as read back, holds the processed marker.
pub fn comment_has_marker(comment: &str) -> (r: bool)
    ensures
        r == has_substring(comment@, marker()),
{
    contains_text(comment, "local_lens_processed")
}

/// The idempotency oracle's answer from the comment field read back, or
/// `None` where it could not be read: an unreadable item counts as not
/// processed, so that it is tagged again rather than skipped.
pub fn is_processed(comment: Option<&str>) -> (r: bool)
    ensures
        r == (comment is Some && has_substring(comment->Some_0@, marker())),
{
    match comment {
        Some(c) => comment_has_marker(c),
        None => false,
    }
}

fn prefixed(prefix: &str, rest: &str) -> (r: String)
    ensures
        r@ == prefix@ + rest@,
{
    let mut s = String::from_str(prefix);
    s.append(rest);
    s
}

/// The arguments of the metadata tool that write the tags, joined by ", ",
/// into the keyword, subject, Windows keyword and comment fields, set the
/// processed marker, and keep no backup copy. The file's path follows them.
pub fn embed_arguments(tags: &Vec<String>) -> (r: Vec<String>)
    ensures
        r@.len() == 6,
        r@[0]@ == "-overwrite_original"@,
        r@[1]@ == "-Keywords="@ + joined(tag_views(tags@), ", "@),
        r@[2]@ == "-Subject="@ + joined(tag_views(tags@), ", "@),
        r@[3]@ == "-XPKeywords="@ + joined(tag_views(tags@), ", "@),
        r@[4]@ == "-Comment="@ + joined(tag_views(tags@), ", "@),
        r@[5]@ == "-UserComment="@ + marker(),
{
    let list = join_tags(tags, ", ");
    let mut args: Vec<String> = Vec::new();
    args.push(String::from_str("-overwrite_original"));
    args.push(prefixed("-Keywords=", list.as_str()));
    args.push(prefixed("-Subject=", list.as_str()));
    args.push(prefixed("-XPKeywords=", list.as_str()));
    args.push(prefixed("-Comment=", list.as_str()));
    args.push(prefixed("-UserComment=", "local_lens_processed"));
    args
}

/// Why embedding tags in a file failed.
#[derive(Clone, Debug, PartialEq, Eq)]
pub enum MetadataError {
    /// The metadata tool is not installed.
    NotInstalled,
    /// The tool ran and reported failure, with what it wrote on its error stream.
    ToolFailed(String),
    /// Any other input/output error, as text.
    Io(String),
}

impl MetadataError {
    /// The text that a log event shows for this error.
    pub fn message(&self) -> (r: String)
        ensures
            self is NotInstalled ==> r@ == "exiftool not found. Please install it: sudo apt install libimage-exiftool-perl"@,
            self is ToolFailed ==> r@ == "Exiftool failed: "@ + self->ToolFailed_0@,
            self is Io ==> r@ == self->Io_0@,
    {
        match self {
            MetadataError::NotInstalled => String::from_str(
                "exiftool not found. Please install it: sudo apt install libimage-exiftool-perl",
            ),
            MetadataError::ToolFailed(err) => prefixed("Exiftool failed: ", err.as_str()),
            MetadataError::Io(err) => err.clone(),
        }
    }
}

} // verus!
