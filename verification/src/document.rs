//! The message document: the mutable unit of work that the pipeline stages
//! read and write.
//!
//! A document carries the original raw payload, a `data` tree for every
//! stage's structured output, a separate `metadata` tree for cross-cutting
//! facts, and an append-only error list.  Stages address the trees by
//! dotted paths and report each write as a `Change`.

use crate::path::FieldPath;
use crate::tree::{graft, resolve, Node, Tree};
use vstd::prelude::*;

verus! {

/// One field write made by a stage: the path written, the value that stood
/// there before, and the value written.
pub struct Change {
    pub path: String,
    pub old_value: Node,
    pub new_value: Node,
}

/// The mathematical state of a document.
pub struct DocView {
    pub payload: Seq<char>,
    pub data: Tree,
    pub metadata: Tree,
    pub errors: Seq<Seq<char>>,
}

/// The mutable message document threaded through the pipeline stages.
pub struct Document {
    pub payload: String,
    pub data: Node,
    pub metadata: Node,
    pub errors: Vec<String>,
}

impl View for Document {
    type V = DocView;

    open spec fn view(&self) -> DocView {
        DocView {
            payload: self.payload@,
            data: self.data@,
            metadata: self.metadata@,
            errors: Seq::new(self.errors@.len(), |i: int| self.errors@[i]@),
        }
    }
}

impl Document {
    /// A fresh document around a raw payload: empty trees, no errors.
    pub fn from_payload(payload: String) -> (r: Document)
        ensures
            r@.payload == payload@,
            r@.data == Tree::Obj(Seq::<(Seq<char>, Tree)>::empty()),
            r@.metadata == Tree::Obj(Seq::<(Seq<char>, Tree)>::empty()),
            r@.errors == Seq::<Seq<char>>::empty(),
    {
        let r = Document {
            payload,
            data: Node::Obj(Vec::new()),
            metadata: Node::Obj(Vec::new()),
            errors: Vec::new(),
        };
        proof {
            assert(r@.errors =~= Seq::<Seq<char>>::empty());
        }
        r
    }

    /// Read the value at a dotted path of `data`, if any.
    pub fn get_data<'a>(&'a self, path: &FieldPath) -> (r: Option<&'a Node>)
        ensures
            match r {
                Some(c) => resolve(self@.data, path@) == Some(c@),
                None => resolve(self@.data, path@) is None,
            },
    {
        proof {
            assert(path@.skip(0) =~= path@);
        }
        self.data.resolve_at(path, 0)
    }

    /// Read the value at a dotted path of `metadata`, if any.
    pub fn get_metadata<'a>(&'a self, path: &FieldPath) -> (r: Option<&'a Node>)
        ensures
            match r {
                Some(c) => resolve(self@.metadata, path@) == Some(c@),
                None => resolve(self@.metadata, path@) is None,
            },
    {
        proof {
            assert(path@.skip(0) =~= path@);
        }
        self.metadata.resolve_at(path, 0)
    }

    /// Write a value at a dotted path of `data`.
    pub fn set_data(&mut self, path: &FieldPath, v: Node)
        ensures
            final(self)@.data == graft(old(self)@.data, path@, v@),
            final(self)@.payload == old(self)@.payload,
            final(self)@.metadata == old(self)@.metadata,
            final(self)@.errors == old(self)@.errors,
    {
        proof {
            assert(path@.skip(0) =~= path@);
        }
        let mut d = Node::Null;
        core::mem::swap(&mut self.data, &mut d);
        self.data = d.graft_at(path, 0, v);
    }

    /// Write a value at a dotted path of `metadata`.
    pub fn set_metadata(&mut self, path: &FieldPath, v: Node)
        ensures
            final(self)@.metadata == graft(old(self)@.metadata, path@, v@),
            final(self)@.payload == old(self)@.payload,
            final(self)@.data == old(self)@.data,
            final(self)@.errors == old(self)@.errors,
    {
        proof {
            assert(path@.skip(0) =~= path@);
        }
        let mut d = Node::Null;
        core::mem::swap(&mut self.metadata, &mut d);
        self.metadata = d.graft_at(path, 0, v);
    }

    /// Append one error description; earlier entries are never touched.
    pub fn push_error(&mut self, e: String)
        ensures
            final(self)@.errors == old(self)@.errors.push(e@),
            final(self)@.payload == old(self)@.payload,
            final(self)@.data == old(self)@.data,
            final(self)@.metadata == old(self)@.metadata,
    {
        self.errors.push(e);
        proof {
            assert(self@.errors =~= old(self)@.errors.push(self.errors@[self.errors@.len() - 1]@));
        }
    }
}

} // verus!
