//! Deciding the outward response shape.
//!
//! After a run, the caller is told either that XML was produced — the
//! rendered text or the ordered fan-out texts — or that it was not, and
//! then the document's accumulated errors are the answer.  The decision
//! reads only the reserved output fields.

use crate::document::{DocView, Document};
use crate::path::{split_dots, FieldPath};
use crate::tree::{resolve, Node, Tree};
use vstd::prelude::*;

verus! {

/// The texts of a list of text nodes; `None` where any item is no text.
pub open spec fn text_items(es: Seq<Tree>) -> Option<Seq<Seq<char>>>
    decreases es.len(),
{
    if es.len() == 0 {
        Some(Seq::empty())
    } else {
        match es[0] {
            Tree::Text(s) => match text_items(es.skip(1)) {
                Some(rest) => Some(seq![s] + rest),
                None => None,
            },
            _ => None,
        }
    }
}

pub proof fn lemma_text_items_all(es: Seq<Tree>)
    requires
        forall|j: int| 0 <= j < es.len() ==> (#[trigger] es[j]) is Text,
    ensures
        text_items(es) == Some(Seq::new(es.len(), |j: int| es[j]->Text_0)),
    decreases es.len(),
{
    if es.len() == 0 {
        assert(Seq::new(es.len(), |j: int| es[j]->Text_0) =~= Seq::<Seq<char>>::empty());
    } else {
        assert(es[0] is Text);
        assert forall|j: int| 0 <= j < es.skip(1).len() implies (#[trigger] es.skip(1)[j])
            is Text by {
            assert(es.skip(1)[j] == es[j + 1]);
        }
        lemma_text_items_all(es.skip(1));
        assert(Seq::new(es.len(), |j: int| es[j]->Text_0) =~= seq![es[0]->Text_0] + Seq::new(
            es.skip(1).len(),
            |j: int| es.skip(1)[j]->Text_0,
        ));
    }
}

pub proof fn lemma_text_items_none(es: Seq<Tree>, i: int)
    requires
        0 <= i < es.len(),
        !(es[i] is Text),
    ensures
        text_items(es) is None,
    decreases i,
{
    if es[0] is Text {
        assert(es.skip(1)[i - 1] == es[i]);
        lemma_text_items_none(es.skip(1), i - 1);
    }
}

/// The published texts of a finished document: the fan-out list at
/// `results` when it holds at least one text, else the single text at
/// `result`, else nothing.
pub open spec fn response_spec(d: DocView) -> Option<Seq<Seq<char>>> {
    match resolve(d.data, split_dots("results"@)) {
        Some(Tree::List(es)) => if es.len() > 0 && text_items(es) is Some {
            text_items(es)
        } else {
            single_response_spec(d)
        },
        _ => single_response_spec(d),
    }
}

/// The single-document part of the response: the text at `result`.
pub open spec fn single_response_spec(d: DocView) -> Option<Seq<Seq<char>>> {
    match resolve(d.data, split_dots("result"@)) {
        Some(Tree::Text(s)) => Some(seq![s]),
        _ => None,
    }
}

/// Collect the published XML texts of a document, in order; `None` means
/// no XML was produced and the caller reports the error shape.
#[verifier::loop_isolation(false)]
pub fn published_texts(doc: &Document) -> (r: Option<Vec<String>>)
    ensures
        match r {
            Some(texts) => response_spec(doc@) == Some(
                Seq::new(texts@.len(), |j: int| texts@[j]@),
            ),
            None => response_spec(doc@) is None,
        },
{
    let rpath = FieldPath::parse("results");
    match doc.get_data(&rpath) {
        Some(found) => match found.as_list() {
            Some(xs) => {
                let ghost es = crate::tree::items_model(xs@);
                proof {
                    crate::tree::lemma_items_model(xs@);
                }
                if xs.len() == 0 {
                    return single_published_text(doc);
                }
                let mut out: Vec<String> = Vec::new();
                let mut i: usize = 0;
                while i < xs.len()
                    invariant
                        0 <= i <= xs.len(),
                        out@.len() == i,
                        forall|j: int|
                            0 <= j < i ==> (#[trigger] es[j]) is Text && out@[j]@ == es[j]->Text_0,
                    decreases xs.len() - i,
                {
                    proof {
                        crate::tree::lemma_items_model(xs@);
                    }
                    match (&xs[i]).as_text() {
                        Some(s) => {
                            out.push(s.clone());
                        },
                        None => {
                            proof {
                                lemma_text_items_none(es, i as int);
                            }
                            return single_published_text(doc);
                        },
                    }
                    i = i + 1;
                }
                proof {
                    lemma_text_items_all(es);
                    assert(Seq::new(es.len(), |j: int| es[j]->Text_0) =~= Seq::new(
                        out@.len(),
                        |j: int| out@[j]@,
                    ));
                }
                Some(out)
            },
            None => single_published_text(doc),
        },
        None => single_published_text(doc),
    }
}

/// The single text at `result`, as a one-element list.
fn single_published_text(doc: &Document) -> (r: Option<Vec<String>>)
    ensures
        match r {
            Some(texts) => single_response_spec(doc@) == Some(
                Seq::new(texts@.len(), |j: int| texts@[j]@),
            ),
            None => single_response_spec(doc@) is None,
        },
{
    let rpath = FieldPath::parse("result");
    match doc.get_data(&rpath) {
        Some(found) => match found.as_text() {
            Some(s) => {
                let mut out: Vec<String> = Vec::new();
                out.push(s.clone());
                proof {
                    assert(Seq::new(out@.len(), |j: int| out@[j]@) =~= seq![out@[0]@]);
                }
                Some(out)
            },
            None => None,
        },
        None => None,
    }
}

} // verus!
