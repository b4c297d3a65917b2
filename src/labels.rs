//! Class labels of the classifier: read from a JSON list of names, and
//! turned into tags from the ranked class indices that the classifier gives.

use vstd::prelude::*;
use crate::text::{decimal, decimal_string};

verus! {

/// The strings of a JSON array of strings, or `None` where the text is not one.
pub uninterp spec fn json_string_list(text: Seq<char>) -> Option<Seq<Seq<char>>>;

#[verifier::external_type_specification]
#[verifier::external_body]
pub struct ExJsonError(serde_json::Error);

/// Relies on serde_json::from_str::<Vec<String>>: it succeeds exactly on a
/// JSON array of strings and yields those strings, as a function of the text alone.
#[verifier::external_body]
fn parse_string_list(text: &str) -> (r: Result<Vec<String>, serde_json::Error>)
    ensures
        r is Ok <==> json_string_list(text@) is Some,
        r is Ok ==> r->Ok_0@.map_values(|s: String| s@) == json_string_list(text@)->Some_0,
{
    serde_json::from_str::<Vec<String>>(text)
}

/// Relies on serde_json::Error's Display: the error's text, for a log line.
#[verifier::external_body]
fn json_error_text(e: &serde_json::Error) -> (r: String) {
    e.to_string()
}

/// How many of the best-ranked classes become tags.
pub const TOP_K: usize = 5;

/// A class label.
#[derive(Clone, Debug, PartialEq, Eq)]
pub struct Label {
    pub name: String,
}

pub open spec fn label_views(v: Seq<Label>) -> Seq<Seq<char>> {
    v.map_values(|l: Label| l.name@)
}

/// The labels file could not be read as a list of names.
#[derive(Clone, Debug, PartialEq, Eq)]
pub enum LabelsError {
    Invalid(String),
}

/// One label for each name, in order.
pub fn labels_from_names(names: Vec<String>) -> (r: Vec<Label>)
    ensures
        label_views(r@) == names@.map_values(|s: String| s@),
{
    let mut out: Vec<Label> = Vec::new();
    let mut i: usize = 0;
    while i < names.len()
        invariant
            i <= names@.len(),
            label_views(out@) == names@.map_values(|s: String| s@).take(i as int),
        decreases names@.len() - i,
    {
        let ghost before = label_views(out@);
        let l = Label { name: names[i].clone() };
        out.push(l);
        assert(label_views(out@) =~= before.push(names@[i as int]@));
        assert(label_views(out@) =~= names@.map_values(|s: String| s@).take(i + 1));
        i = i + 1;
    }
    assert(names@.map_values(|s: String| s@).take(names@.len() as int) =~= names@.map_values(|s: String| s@));
    out
}

/// The labels of a JSON list of names.
pub fn load_labels(text: &str) -> (r: Result<Vec<Label>, LabelsError>)
    ensures
        r is Ok <==> json_string_list(text@) is Some,
        r is Ok ==> label_views(r->Ok_0@) == json_string_list(text@)->Some_0,
{
    match parse_string_list(text) {
        Ok(names) => Ok(labels_from_names(names)),
        Err(e) => Err(LabelsError::Invalid(json_error_text(&e))),
    }
}

/// The tag of a class: its label's name, or `class_<index>` past the labels.
pub open spec fn class_tag(labels: Seq<Seq<char>>, idx: nat) -> Seq<char> {
    if idx < labels.len() {
        labels[idx as int]
    } else {
        "class_"@ + decimal(idx)
    }
}

/// The tag of a class.
pub fn tag_for_class(labels: &Vec<Label>, idx: usize) -> (r: String)
    ensures
        r@ == class_tag(label_views(labels@), idx as nat),
{
    if idx < labels.len() {
        labels[idx].name.clone()
    } else {
        let mut s = String::from_str("class_");
        s.append(decimal_string(idx).as_str());
        s
    }
}

/// The tags of the best-ranked classes: the first `TOP_K` of the ranking
/// (all of it when shorter), each turned into its tag, in ranking order.
pub fn tags_for_ranking(labels: &Vec<Label>, ranked: &Vec<usize>) -> (r: Vec<String>)
    ensures
        r@.len() == if ranked@.len() < TOP_K { ranked@.len() } else { TOP_K as nat },
        forall|i: int| 0 <= i < r@.len() ==> #[trigger] r@[i]@ == class_tag(label_views(labels@), ranked@[i] as nat),
{
    let n = if ranked.len() < TOP_K { ranked.len() } else { TOP_K };
    let mut out: Vec<String> = Vec::new();
    let mut i: usize = 0;
    while i < n
        invariant
            n <= ranked@.len(),
            i <= n,
            out@.len() == i,
            forall|k: int| 0 <= k < i ==> #[trigger] out@[k]@ == class_tag(label_views(labels@), ranked@[k] as nat),
        decreases n - i,
    {
        out.push(tag_for_class(labels, ranked[i]));
        i = i + 1;
    }
    out
}

} // verus!
