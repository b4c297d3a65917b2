//! Tag sets: ordered sequences of text tokens, how they are merged, compared,
//! sorted with duplicates removed, and renamed.

use vstd::prelude::*;

verus! {

/// The characters of each tag, in order.
pub open spec fn tag_views(v: Seq<String>) -> Seq<Seq<char>> {
    v.map_values(|s: String| s@)
}

/// Lexicographic order of two strings, character by character
/// (the order of `String`'s `Ord`, since UTF-8 keeps code point order).
pub open spec fn lex_lt(a: Seq<char>, b: Seq<char>) -> bool
    decreases a.len(),
{
    if a.len() == 0 {
        b.len() > 0
    } else if b.len() == 0 {
        false
    } else if a[0] != b[0] {
        a[0] < b[0]
    } else {
        lex_lt(a.drop_first(), b.drop_first())
    }
}

/// Each tag is strictly smaller than the next one: sorted, without duplicates.
pub open spec fn strictly_ascending(t: Seq<Seq<char>>) -> bool {
    forall|i: int| 0 <= i < t.len() - 1 ==> #[trigger] lex_lt(t[i], t[i + 1])
}

/// First position, from `j` on, whose tag is not smaller than `x`.
pub open spec fn lower_bound_from(s: Seq<Seq<char>>, x: Seq<char>, j: int) -> int
    decreases s.len() - j,
{
    if j < 0 || j >= s.len() || !lex_lt(s[j], x) {
        j
    } else {
        lower_bound_from(s, x, j + 1)
    }
}

/// `x` put in its place in the sorted sequence `s`, unless it is already there.
pub open spec fn insert_unique(s: Seq<Seq<char>>, x: Seq<char>) -> Seq<Seq<char>> {
    let j = lower_bound_from(s, x, 0);
    if j < s.len() && s[j] == x {
        s
    } else {
        s.insert(j, x)
    }
}

/// The tags sorted lexicographically, each kept once.
pub open spec fn sort_dedup(s: Seq<Seq<char>>) -> Seq<Seq<char>>
    decreases s.len(),
{
    if s.len() == 0 {
        Seq::empty()
    } else {
        insert_unique(sort_dedup(s.drop_last()), s.last())
    }
}

/// Position of the first tag equal to `x` (the length when there is none).
pub open spec fn first_index(s: Seq<Seq<char>>, x: Seq<char>) -> int
    decreases s.len(),
{
    if s.len() == 0 {
        0
    } else if s[0] == x {
        0
    } else {
        1 + first_index(s.drop_first(), x)
    }
}

/// The tags after a rename of `old_tag` to `new_tag`: the first exact
/// `old_tag` replaced, then the whole set sorted with duplicates removed.
pub open spec fn renamed(s: Seq<Seq<char>>, old_tag: Seq<char>, new_tag: Seq<char>) -> Seq<Seq<char>> {
    sort_dedup(s.update(first_index(s, old_tag), new_tag))
}

/// The tags followed by each word that is not yet among them, in the words' order.
pub open spec fn merged(tags: Seq<Seq<char>>, words: Seq<Seq<char>>) -> Seq<Seq<char>>
    decreases words.len(),
{
    if words.len() == 0 {
        tags
    } else {
        let m = merged(tags, words.drop_last());
        if m.contains(words.last()) {
            m
        } else {
            m.push(words.last())
        }
    }
}

pub proof fn lemma_lex_lt_total(a: Seq<char>, b: Seq<char>)
    requires
        a != b,
    ensures
        lex_lt(a, b) || lex_lt(b, a),
    decreases a.len(),
{
    if a.len() > 0 && b.len() > 0 && a[0] == b[0] {
        if a.drop_first() == b.drop_first() {
            assert(a =~= seq![a[0]] + a.drop_first());
            assert(b =~= seq![b[0]] + b.drop_first());
        }
        lemma_lex_lt_total(a.drop_first(), b.drop_first());
    } else if a.len() == 0 && b.len() == 0 {
        assert(a =~= b);
    } else if a.len() > 0 && b.len() > 0 {
        assert(a[0] < b[0] || b[0] < a[0]);
    }
}

proof fn lemma_lower_bound(s: Seq<Seq<char>>, x: Seq<char>, j: int)
    requires
        0 <= j <= s.len(),
    ensures
        j <= lower_bound_from(s, x, j) <= s.len(),
        forall|i: int| j <= i < lower_bound_from(s, x, j) ==> lex_lt(#[trigger] s[i], x),
        lower_bound_from(s, x, j) < s.len() ==> !lex_lt(s[lower_bound_from(s, x, j)], x),
    decreases s.len() - j,
{
    if j < s.len() && lex_lt(s[j], x) {
        lemma_lower_bound(s, x, j + 1);
    }
}

proof fn lemma_insert_unique(s: Seq<Seq<char>>, x: Seq<char>)
    requires
        strictly_ascending(s),
    ensures
        strictly_ascending(insert_unique(s, x)),
        forall|y: Seq<char>| #[trigger] insert_unique(s, x).contains(y) <==> (s.contains(y) || y == x),
{
    let j = lower_bound_from(s, x, 0);
    lemma_lower_bound(s, x, 0);
    let r = insert_unique(s, x);
    if j < s.len() && s[j] == x {
        assert forall|y: Seq<char>| r.contains(y) <==> (s.contains(y) || y == x) by {
            if y == x {
                assert(s[j] == y);
            }
        }
    } else {
        if j < s.len() {
            lemma_lex_lt_total(s[j], x);
        }
        assert forall|i: int| 0 <= i < r.len() - 1 implies #[trigger] lex_lt(r[i], r[i + 1]) by {
            if i < j - 1 {
                assert(lex_lt(s[i], s[i + 1]));
            } else if i == j - 1 {
                assert(lex_lt(s[i], x));
            } else if i == j {
            } else {
                assert(lex_lt(s[i - 1], s[(i - 1) + 1]));
            }
        }
        assert forall|y: Seq<char>| r.contains(y) <==> (s.contains(y) || y == x) by {
            if r.contains(y) {
                let k = choose|k: int| 0 <= k < r.len() && r[k] == y;
                if k < j {
                    assert(s[k] == y);
                } else if k > j {
                    assert(s[k - 1] == y);
                }
            }
            if s.contains(y) {
                let k = choose|k: int| 0 <= k < s.len() && s[k] == y;
                if k < j {
                    assert(r[k] == y);
                } else {
                    assert(r[k + 1] == y);
                }
            }
            if y == x {
                assert(r[j] == y);
            }
        }
    }
}

/// Sorting with duplicates removed gives a strictly ascending sequence that
/// holds exactly the tags of the input.
pub proof fn lemma_sort_dedup(s: Seq<Seq<char>>)
    ensures
        strictly_ascending(sort_dedup(s)),
        forall|y: Seq<char>| #[trigger] sort_dedup(s).contains(y) <==> s.contains(y),
    decreases s.len(),
{
    if s.len() > 0 {
        lemma_sort_dedup(s.drop_last());
        lemma_insert_unique(sort_dedup(s.drop_last()), s.last());
        assert forall|y: Seq<char>| #[trigger] sort_dedup(s).contains(y) <==> s.contains(y) by {
            if s.drop_last().contains(y) {
                let k = choose|k: int| 0 <= k < s.drop_last().len() && s.drop_last()[k] == y;
                assert(s[k] == y);
            }
            if s.contains(y) && y != s.last() {
                let k = choose|k: int| 0 <= k < s.len() && s[k] == y;
                assert(s.drop_last()[k] == y);
            }
        }
    }
}

/// A renamed tag set is sorted without duplicates, and holds exactly the
/// old tags with the first exact `old_tag` replaced by `new_tag`.
pub proof fn lemma_renamed_sorted_and_complete(s: Seq<Seq<char>>, old_tag: Seq<char>, new_tag: Seq<char>)
    requires
        s.contains(old_tag),
    ensures
        strictly_ascending(renamed(s, old_tag, new_tag)),
        forall|y: Seq<char>| #[trigger] renamed(s, old_tag, new_tag).contains(y)
            <==> s.update(first_index(s, old_tag), new_tag).contains(y),
{
    lemma_sort_dedup(s.update(first_index(s, old_tag), new_tag));
}

/// Whether `a` sorts strictly before `b`.
pub fn str_lt(a: &str, b: &str) -> (r: bool)
    ensures
        r == lex_lt(a@, b@),
{
    let la = a.unicode_len();
    let lb = b.unicode_len();
    let mut i: usize = 0;
    assert(a@.skip(0) =~= a@);
    assert(b@.skip(0) =~= b@);
    while i < la && i < lb
        invariant
            la == a@.len(),
            lb == b@.len(),
            i <= la,
            i <= lb,
            lex_lt(a@, b@) == lex_lt(a@.skip(i as int), b@.skip(i as int)),
        decreases la - i,
    {
        let ca = a.get_char(i);
        let cb = b.get_char(i);
        if ca != cb {
            return ca < cb;
        }
        assert(a@.skip(i as int).drop_first() =~= a@.skip(i + 1));
        assert(b@.skip(i as int).drop_first() =~= b@.skip(i + 1));
        i = i + 1;
    }
    i < lb
}

/// Whether the tags hold `t`.
pub fn contains_tag(v: &Vec<String>, t: &String) -> (r: bool)
    ensures
        r == tag_views(v@).contains(t@),
{
    let mut i: usize = 0;
    while i < v.len()
        invariant
            i <= v.len(),
            forall|k: int| 0 <= k < i ==> v@[k]@ != t@,
        decreases v.len() - i,
    {
        if v[i].eq(t) {
            assert(tag_views(v@)[i as int] == t@);
            return true;
        }
        i = i + 1;
    }
    assert forall|k: int| 0 <= k < tag_views(v@).len() implies tag_views(v@)[k] != t@ by {
        assert(v@[k]@ != t@);
    }
    false
}

/// Position of the first tag equal to `t`, if any.
pub fn position_of(v: &Vec<String>, t: &String) -> (r: Option<usize>)
    ensures
        r is None <==> !tag_views(v@).contains(t@),
        r is Some ==> r->Some_0 == first_index(tag_views(v@), t@) && r->Some_0 < v@.len(),
{
    let ghost views = tag_views(v@);
    let mut i: usize = 0;
    assert(views.skip(0) =~= views);
    while i < v.len()
        invariant
            i <= v.len(),
            views == tag_views(v@),
            forall|k: int| 0 <= k < i ==> v@[k]@ != t@,
            first_index(views, t@) == i + first_index(views.skip(i as int), t@),
        decreases v.len() - i,
    {
        if v[i].eq(t) {
            assert(views[i as int] == t@);
            return Some(i);
        }
        assert(views.skip(i as int).drop_first() =~= views.skip(i + 1));
        i = i + 1;
    }
    assert forall|k: int| 0 <= k < views.len() implies views[k] != t@ by {
        assert(v@[k]@ != t@);
    }
    None
}

/// First position, from `j` on, whose tag is not smaller than `x`.
fn lower_bound(s: &Vec<String>, x: &String) -> (r: usize)
    ensures
        r == lower_bound_from(tag_views(s@), x@, 0),
        r <= s@.len(),
{
    let ghost views = tag_views(s@);
    let mut j: usize = 0;
    while j < s.len() && str_lt(s[j].as_str(), x.as_str())
        invariant
            j <= s@.len(),
            views == tag_views(s@),
            lower_bound_from(views, x@, 0) == lower_bound_from(views, x@, j as int),
        decreases s@.len() - j,
    {
        j = j + 1;
    }
    j
}

/// The tags sorted lexicographically, each kept once.
pub fn sorted_unique(v: &Vec<String>) -> (r: Vec<String>)
    ensures
        tag_views(r@) == sort_dedup(tag_views(v@)),
{
    let mut out: Vec<String> = Vec::new();
    let mut i: usize = 0;
    while i < v.len()
        invariant
            i <= v@.len(),
            tag_views(out@) == sort_dedup(tag_views(v@).take(i as int)),
        decreases v@.len() - i,
    {
        let ghost before = tag_views(out@);
        assert(tag_views(v@).take(i + 1).drop_last() =~= tag_views(v@).take(i as int));
        let j = lower_bound(&out, &v[i]);
        if j < out.len() && out[j].eq(&v[i]) {
        } else {
            out.insert(j, v[i].clone());
            assert(tag_views(out@) =~= before.insert(j as int, v@[i as int]@));
        }
        i = i + 1;
    }
    assert(tag_views(v@).take(v@.len() as int) =~= tag_views(v@));
    out
}

/// Renames the first tag equal to `old_tag` to `new_tag`, then sorts the tags
/// and removes duplicates. Tags without an exact `old_tag` are left untouched.
pub fn rename_tag(tags: &mut Vec<String>, old_tag: &String, new_tag: &String) -> (changed: bool)
    ensures
        changed == tag_views(old(tags)@).contains(old_tag@),
        !changed ==> *final(tags) == *old(tags),
        changed ==> tag_views(final(tags)@) == renamed(tag_views(old(tags)@), old_tag@, new_tag@),
{
    match position_of(tags, old_tag) {
        None => false,
        Some(pos) => {
            let ghost before = tag_views(tags@);
            tags.set(pos, new_tag.clone());
            assert(tag_views(tags@) =~= before.update(pos as int, new_tag@));
            let sorted = sorted_unique(tags);
            *tags = sorted;
            true
        },
    }
}

/// Appends each word that the tags do not hold yet, in the words' order.
pub fn merge_words(tags: &mut Vec<String>, words: &Vec<String>)
    ensures
        tag_views(final(tags)@) == merged(tag_views(old(tags)@), tag_views(words@)),
{
    let ghost start = tag_views(tags@);
    let mut i: usize = 0;
    while i < words.len()
        invariant
            i <= words@.len(),
            tag_views(tags@) == merged(start, tag_views(words@).take(i as int)),
        decreases words@.len() - i,
    {
        assert(tag_views(words@).take(i + 1).drop_last() =~= tag_views(words@).take(i as int));
        assert(tag_views(words@).take(i + 1).last() == words@[i as int]@);
        if !contains_tag(tags, &words[i]) {
            let ghost before = tag_views(tags@);
            tags.push(words[i].clone());
            assert(tag_views(tags@) =~= before.push(words@[i as int]@));
        }
        i = i + 1;
    }
    assert(tag_views(words@).take(words@.len() as int) =~= tag_views(words@));
}

} // verus!
