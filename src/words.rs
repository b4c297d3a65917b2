//! The words that text extraction contributes to a tag set: the recognised
//! text split at white space, reduced to letters and digits, lower-cased,
//! sorted and free of duplicates; words of two bytes or fewer are dropped.

use vstd::prelude::*;
use vstd::utf8::encode_utf8;
use crate::index::{is_space, is_ws};
use crate::tagset::{sort_dedup, sorted_unique, tag_views};

verus! {

/// Whether a character is alphabetic or numeric in Unicode's sense.
pub uninterp spec fn alphanumeric(c: char) -> bool;

/// The lower-case form of a text, character by character in Unicode's sense.
pub uninterp spec fn lower_of(s: Seq<char>) -> Seq<char>;

/// Relies on char::is_alphanumeric, a property of the character alone.
#[verifier::external_body]
fn is_alnum(c: char) -> (r: bool)
    ensures
        r == alphanumeric(c),
{
    c.is_alphanumeric()
}

/// Relies on str::to_lowercase, a function of the text alone.
#[verifier::external_body]
fn lowercase(s: &str) -> (r: String)
    ensures
        r@ == lower_of(s@),
{
    s.to_lowercase()
}

/// The pieces of a text between white-space characters.
pub open spec fn ws_pieces(s: Seq<char>) -> Seq<Seq<char>>
    decreases s.len(),
{
    if s.len() == 0 {
        seq![Seq::empty()]
    } else {
        let p = ws_pieces(s.drop_last());
        if is_ws(s.last()) {
            p.push(Seq::empty())
        } else {
            p.update(p.len() - 1, p.last().push(s.last()))
        }
    }
}

pub open spec fn non_empty(ps: Seq<Seq<char>>) -> Seq<Seq<char>>
    decreases ps.len(),
{
    if ps.len() == 0 {
        Seq::empty()
    } else if ps.last().len() == 0 {
        non_empty(ps.drop_last())
    } else {
        non_empty(ps.drop_last()).push(ps.last())
    }
}

/// The words of a text: its maximal runs of characters other than white space.
pub open spec fn words_of(s: Seq<char>) -> Seq<Seq<char>> {
    non_empty(ws_pieces(s))
}

/// The letters and digits of a word, in order.
pub open spec fn alnum_only(w: Seq<char>) -> Seq<char>
    decreases w.len(),
{
    if w.len() == 0 {
        Seq::empty()
    } else if alphanumeric(w.last()) {
        alnum_only(w.drop_last()).push(w.last())
    } else {
        alnum_only(w.drop_last())
    }
}

/// The length of a text in UTF-8 bytes, as `str::len` gives it.
pub open spec fn byte_len(s: Seq<char>) -> usize {
    encode_utf8(s).len() as usize
}

/// The cleaned, lower-cased words, each kept where its cleaned form is longer than two bytes.
pub open spec fn candidates(ws: Seq<Seq<char>>) -> Seq<Seq<char>>
    decreases ws.len(),
{
    if ws.len() == 0 {
        Seq::empty()
    } else {
        let c = alnum_only(ws.last());
        if byte_len(c) > 2 {
            candidates(ws.drop_last()).push(lower_of(c))
        } else {
            candidates(ws.drop_last())
        }
    }
}

/// The candidates of each text, text after text.
pub open spec fn all_candidates(texts: Seq<Seq<char>>) -> Seq<Seq<char>>
    decreases texts.len(),
{
    if texts.len() == 0 {
        Seq::empty()
    } else {
        all_candidates(texts.drop_last()) + candidates(words_of(texts.last()))
    }
}

/// The words that a set of recognised texts contributes, sorted and without duplicates.
pub open spec fn extracted_words(texts: Seq<Seq<char>>) -> Seq<Seq<char>> {
    sort_dedup(all_candidates(texts))
}

/// The words of a text, in order.
pub fn split_words(s: &str) -> (r: Vec<String>)
    ensures
        tag_views(r@) == words_of(s@),
{
    let n = s.unicode_len();
    let mut out: Vec<String> = Vec::new();
    let mut start: usize = 0;
    let mut i: usize = 0;
    let ghost mut done: Seq<Seq<char>> = Seq::empty();
    assert(s@.take(0) =~= Seq::<char>::empty());
    assert(ws_pieces(s@.take(0)) =~= done.push(s@.subrange(0, 0)));
    while i < n
        invariant
            n == s@.len(),
            start <= i <= n,
            ws_pieces(s@.take(i as int)) == done.push(s@.subrange(start as int, i as int)),
            tag_views(out@) == non_empty(done),
        decreases n - i,
    {
        let c = s.get_char(i);
        assert(s@.take(i + 1).drop_last() =~= s@.take(i as int));
        assert(s@.take(i + 1).last() == c);
        if is_space(c) {
            let ghost before = tag_views(out@);
            let ghost d2 = done.push(s@.subrange(start as int, i as int));
            assert(d2.drop_last() =~= done);
            if start < i {
                let w = String::from_str(s.substring_char(start, i));
                out.push(w);
                assert(tag_views(out@) =~= before.push(w@));
            }
            proof {
                done = d2;
            }
            assert(s@.subrange(i + 1, i + 1) =~= Seq::<char>::empty());
            assert(ws_pieces(s@.take(i + 1)) == ws_pieces(s@.take(i as int)).push(Seq::empty()));
            assert(ws_pieces(s@.take(i + 1)) =~= done.push(s@.subrange(i + 1, i + 1)));
            start = i + 1;
        } else {
            assert(s@.subrange(start as int, i as int).push(c) =~= s@.subrange(start as int, i + 1));
            assert(ws_pieces(s@.take(i + 1)) =~= done.push(s@.subrange(start as int, i + 1)));
        }
        i = i + 1;
    }
    let ghost before = tag_views(out@);
    let ghost d2 = done.push(s@.subrange(start as int, n as int));
    assert(d2.drop_last() =~= done);
    assert(s@.take(n as int) =~= s@);
    if start < n {
        let w = String::from_str(s.substring_char(start, n));
        out.push(w);
        assert(tag_views(out@) =~= before.push(w@));
    }
    out
}

/// The letters and digits of a word.
pub fn keep_alphanumeric(w: &str) -> (r: String)
    ensures
        r@ == alnum_only(w@),
{
    let n = w.unicode_len();
    let mut out = String::new();
    let mut k: usize = 0;
    assert(w@.take(0) =~= Seq::<char>::empty());
    while k < n
        invariant
            n == w@.len(),
            k <= n,
            out@ == alnum_only(w@.take(k as int)),
        decreases n - k,
    {
        assert(w@.take(k + 1).drop_last() =~= w@.take(k as int));
        let c = w.get_char(k);
        if is_alnum(c) {
            let one = w.substring_char(k, k + 1);
            assert(one@ =~= seq![c]);
            out.append(one);
            assert(out@ =~= alnum_only(w@.take(k as int)).push(c));
        }
        k = k + 1;
    }
    assert(w@.take(n as int) =~= w@);
    out
}

/// The words that the recognised texts contribute to a tag set.
pub fn words_from_texts(texts: &Vec<String>) -> (r: Vec<String>)
    ensures
        tag_views(r@) == extracted_words(tag_views(texts@)),
{
    let ghost tv = tag_views(texts@);
    let mut found: Vec<String> = Vec::new();
    let mut t: usize = 0;
    while t < texts.len()
        invariant
            t <= texts@.len(),
            tv == tag_views(texts@),
            tag_views(found@) == all_candidates(tv.take(t as int)),
        decreases texts@.len() - t,
    {
        assert(tv.take(t + 1).drop_last() =~= tv.take(t as int));
        let ghost base = tag_views(found@);
        let words = split_words(texts[t].as_str());
        let ghost wv = tag_views(words@);
        let mut j: usize = 0;
        assert(base + candidates(wv.take(0)) =~= base);
        while j < words.len()
            invariant
                j <= words@.len(),
                wv == tag_views(words@),
                tag_views(found@) == base + candidates(wv.take(j as int)),
            decreases words@.len() - j,
        {
            assert(wv.take(j + 1).drop_last() =~= wv.take(j as int));
            let cleaned = keep_alphanumeric(words[j].as_str());
            assert(wv.take(j + 1).last() == words@[j as int]@);
            let bytes = cleaned.as_str().len();
            if bytes > 2 {
                let ghost before = tag_views(found@);
                let lower = lowercase(cleaned.as_str());
                found.push(lower);
                assert(tag_views(found@) =~= before.push(lower@));
                assert(base + candidates(wv.take(j + 1)) =~= (base + candidates(wv.take(j as int))).push(lower@));
            }
            j = j + 1;
        }
        assert(wv.take(words@.len() as int) =~= wv);
        assert(tv.take(t + 1).last() == texts@[t as int]@);
        t = t + 1;
    }
    assert(tv.take(texts@.len() as int) =~= tv);
    sorted_unique(&found)
}

} // verus!
