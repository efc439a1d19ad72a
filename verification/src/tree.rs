//! The structured value tree held by a message document.
//!
//! `Node` is the executable tree; `Tree` is its mathematical model.  An
//! object is a list of key/value entries whose keys are unique per level;
//! lists are ordered.  Numbers are carried as their decimal text, so the
//! tree itself stays exact.

use crate::path::FieldPath;
use vstd::prelude::*;

verus! {

broadcast use
    vstd::std_specs::vec::axiom_vec_index_decreases,
    vstd::std_specs::vec::axiom_vec_decreases_to_view,
    vstd::seq::axiom_seq_index_decreases,
    vstd::seq::axiom_seq_subrange_decreases;

/// The mathematical model of a structured value.
#[verifier::ext_equal]
pub enum Tree {
    Null,
    Bool(bool),
    Num(Seq<char>),
    Text(Seq<char>),
    List(Seq<Tree>),
    Obj(Seq<(Seq<char>, Tree)>),
}

/// A structured value: null, a boolean, a number (as decimal text), a text,
/// an ordered list, or an object of key/value entries.
pub enum Node {
    Null,
    Bool(bool),
    Num(String),
    Text(String),
    List(Vec<Node>),
    Obj(Vec<(String, Node)>),
}

impl View for Node {
    type V = Tree;

    open spec fn view(&self) -> Tree {
        node_model(*self)
    }
}

pub open spec fn node_model(n: Node) -> Tree
    decreases n,
{
    match n {
        Node::Null => Tree::Null,
        Node::Bool(b) => Tree::Bool(b),
        Node::Num(s) => Tree::Num(s@),
        Node::Text(s) => Tree::Text(s@),
        Node::List(v) => Tree::List(items_model(v@)),
        Node::Obj(v) => Tree::Obj(entries_model(v@)),
    }
}

pub open spec fn items_model(s: Seq<Node>) -> Seq<Tree>
    decreases s,
{
    if s.len() == 0 {
        Seq::empty()
    } else {
        seq![node_model(s[0])] + items_model(s.skip(1))
    }
}

pub open spec fn entries_model(s: Seq<(String, Node)>) -> Seq<(Seq<char>, Tree)>
    decreases s,
{
    if s.len() == 0 {
        Seq::empty()
    } else {
        seq![(s[0].0@, node_model(s[0].1))] + entries_model(s.skip(1))
    }
}

pub proof fn lemma_items_model(s: Seq<Node>)
    ensures
        items_model(s).len() == s.len(),
        forall|i: int| 0 <= i < s.len() ==> items_model(s)[i] == node_model(s[i]),
    decreases s.len(),
{
    if s.len() > 0 {
        lemma_items_model(s.skip(1));
    }
}

pub proof fn lemma_entries_model(s: Seq<(String, Node)>)
    ensures
        entries_model(s).len() == s.len(),
        forall|i: int|
            0 <= i < s.len() ==> entries_model(s)[i] == (s[i].0@, node_model(s[i].1)),
    decreases s.len(),
{
    if s.len() > 0 {
        lemma_entries_model(s.skip(1));
    }
}

/// First-match lookup of a key among an object's entries.
pub open spec fn obj_lookup(es: Seq<(Seq<char>, Tree)>, k: Seq<char>) -> Option<Tree>
    decreases es.len(),
{
    if es.len() == 0 {
        None
    } else if es[0].0 == k {
        Some(es[0].1)
    } else {
        obj_lookup(es.skip(1), k)
    }
}

/// Replace the first entry whose key is `k`, or append a fresh entry.
pub open spec fn obj_set(es: Seq<(Seq<char>, Tree)>, k: Seq<char>, v: Tree) -> Seq<
    (Seq<char>, Tree),
>
    decreases es.len(),
{
    if es.len() == 0 {
        seq![(k, v)]
    } else if es[0].0 == k {
        seq![(k, v)] + es.skip(1)
    } else {
        seq![es[0]] + obj_set(es.skip(1), k, v)
    }
}

/// A path segment that addresses a list element: one or more decimal digits.
pub open spec fn is_index_seg(s: Seq<char>) -> bool {
    s.len() > 0 && forall|i: int| 0 <= i < s.len() ==> '0' <= #[trigger] s[i] <= '9'
}

/// The number written by a sequence of decimal digits.
pub open spec fn seg_nat(s: Seq<char>) -> nat
    decreases s.len(),
{
    if s.len() == 0 {
        0
    } else {
        (seg_nat(s.take(s.len() - 1)) * 10 + (s[s.len() - 1] as int - '0' as int)) as nat
    }
}

/// One step of addressing: a key into an object, or an index into a list.
pub open spec fn child(t: Tree, seg: Seq<char>) -> Option<Tree> {
    match t {
        Tree::Obj(es) => obj_lookup(es, seg),
        Tree::List(xs) => if is_index_seg(seg) && seg_nat(seg) < xs.len() {
            Some(xs[seg_nat(seg) as int])
        } else {
            None
        },
        _ => None,
    }
}

/// Follow a whole path of segments.
pub open spec fn resolve(t: Tree, path: Seq<Seq<char>>) -> Option<Tree>
    decreases path.len(),
{
    if path.len() == 0 {
        Some(t)
    } else {
        match child(t, path[0]) {
            Some(c) => resolve(c, path.skip(1)),
            None => None,
        }
    }
}

/// Write `v` at `path`, creating object levels where the path runs off the
/// existing tree.  A valid list index updates the element in place; any
/// other obstruction is replaced by a fresh object level.
pub open spec fn graft(t: Tree, path: Seq<Seq<char>>, v: Tree) -> Tree
    decreases path.len(),
{
    if path.len() == 0 {
        v
    } else {
        let seg = path[0];
        match t {
            Tree::List(xs) => {
                if is_index_seg(seg) && seg_nat(seg) < xs.len() {
                    Tree::List(
                        xs.update(seg_nat(seg) as int, graft(xs[seg_nat(seg) as int], path.skip(1), v)),
                    )
                } else {
                    Tree::Obj(obj_set(Seq::empty(), seg, graft(Tree::Null, path.skip(1), v)))
                }
            },
            Tree::Obj(es) => {
                let base = match obj_lookup(es, seg) {
                    Some(c) => c,
                    None => Tree::Null,
                };
                Tree::Obj(obj_set(es, seg, graft(base, path.skip(1), v)))
            },
            _ => Tree::Obj(obj_set(Seq::empty(), seg, graft(Tree::Null, path.skip(1), v))),
        }
    }
}

pub proof fn lemma_obj_set_same(es: Seq<(Seq<char>, Tree)>, k: Seq<char>, v: Tree)
    ensures
        obj_lookup(obj_set(es, k, v), k) == Some(v),
    decreases es.len(),
{
    if es.len() == 0 {
    } else if es[0].0 == k {
    } else {
        lemma_obj_set_same(es.skip(1), k, v);
        assert((seq![es[0]] + obj_set(es.skip(1), k, v)).skip(1) =~= obj_set(es.skip(1), k, v));
    }
}

pub proof fn lemma_obj_set_other(es: Seq<(Seq<char>, Tree)>, k: Seq<char>, v: Tree, k2: Seq<char>)
    requires
        k2 != k,
    ensures
        obj_lookup(obj_set(es, k, v), k2) == obj_lookup(es, k2),
    decreases es.len(),
{
    reveal_with_fuel(obj_lookup, 3);
    if es.len() == 0 {
        assert(obj_set(es, k, v)[0] == (k, v));
    } else if es[0].0 == k {
        assert((seq![(k, v)] + es.skip(1))[0] == (k, v));
        assert((seq![(k, v)] + es.skip(1)).skip(1) =~= es.skip(1));
    } else {
        lemma_obj_set_other(es.skip(1), k, v, k2);
        assert((seq![es[0]] + obj_set(es.skip(1), k, v))[0] == es[0]);
        assert((seq![es[0]] + obj_set(es.skip(1), k, v)).skip(1) =~= obj_set(es.skip(1), k, v));
    }
}

pub proof fn lemma_obj_lookup_found(es: Seq<(Seq<char>, Tree)>, k: Seq<char>, j: int)
    requires
        0 <= j < es.len(),
        es[j].0 == k,
        forall|m: int| 0 <= m < j ==> (#[trigger] es[m]).0 != k,
    ensures
        obj_lookup(es, k) == Some(es[j].1),
    decreases j,
{
    if j > 0 {
        lemma_obj_lookup_found(es.skip(1), k, j - 1);
    }
}

pub proof fn lemma_obj_lookup_none(es: Seq<(Seq<char>, Tree)>, k: Seq<char>)
    requires
        forall|m: int| 0 <= m < es.len() ==> (#[trigger] es[m]).0 != k,
    ensures
        obj_lookup(es, k) is None,
    decreases es.len(),
{
    if es.len() > 0 {
        lemma_obj_lookup_none(es.skip(1), k);
    }
}

/// Where the first match sits at `j`, `obj_set` is an update in place.
pub proof fn lemma_obj_set_at(es: Seq<(Seq<char>, Tree)>, k: Seq<char>, v: Tree, j: int)
    requires
        0 <= j < es.len(),
        es[j].0 == k,
        forall|m: int| 0 <= m < j ==> (#[trigger] es[m]).0 != k,
    ensures
        obj_set(es, k, v) =~= es.update(j, (k, v)),
    decreases j,
{
    if j == 0 {
        assert(obj_set(es, k, v) =~= seq![(k, v)] + es.skip(1));
    } else {
        lemma_obj_set_at(es.skip(1), k, v, j - 1);
        assert(obj_set(es, k, v) =~= seq![es[0]] + es.skip(1).update(j - 1, (k, v)));
    }
}

/// Setting a key to a value it already has from a prior set changes
/// nothing further.
pub proof fn lemma_obj_set_idem(es: Seq<(Seq<char>, Tree)>, k: Seq<char>, v: Tree)
    ensures
        obj_set(obj_set(es, k, v), k, v) == obj_set(es, k, v),
    decreases es.len(),
{
    if es.len() == 0 {
        assert(obj_set(es, k, v)[0] == (k, v));
        assert(obj_set(obj_set(es, k, v), k, v) =~= obj_set(es, k, v));
    } else if es[0].0 == k {
        let once = seq![(k, v)] + es.skip(1);
        assert(once[0] == (k, v));
        assert(once.skip(1) =~= es.skip(1));
        assert(obj_set(once, k, v) =~= once);
    } else {
        lemma_obj_set_idem(es.skip(1), k, v);
        let once = seq![es[0]] + obj_set(es.skip(1), k, v);
        assert(once[0] == es[0]);
        assert(once.skip(1) =~= obj_set(es.skip(1), k, v));
        assert(obj_set(once, k, v) =~= once);
    }
}

/// Where no entry matches, `obj_set` appends.
pub proof fn lemma_obj_set_append(es: Seq<(Seq<char>, Tree)>, k: Seq<char>, v: Tree)
    requires
        forall|m: int| 0 <= m < es.len() ==> (#[trigger] es[m]).0 != k,
    ensures
        obj_set(es, k, v) =~= es.push((k, v)),
    decreases es.len(),
{
    if es.len() > 0 {
        lemma_obj_set_append(es.skip(1), k, v);
    }
}

/// Parse a path segment as a list index.  `None` means the segment is not
/// all digits, or the number does not fit a machine word (and so cannot
/// index any list either).
#[verifier::loop_isolation(false)]
pub fn parse_index(seg: &String) -> (r: Option<usize>)
    ensures
        r matches Some(ix) ==> is_index_seg(seg@) && seg_nat(seg@) == ix,
        r is None ==> !is_index_seg(seg@) || seg_nat(seg@) > usize::MAX,
{
    let s = seg.as_str();
    let n = s.unicode_len();
    if n == 0 {
        return None;
    }
    let mut acc: usize = 0;
    let mut i: usize = 0;
    while i < n
        invariant
            0 <= i <= n,
            n == s@.len(),
            s@ == seg@,
            forall|m: int| 0 <= m < i ==> '0' <= #[trigger] s@[m] <= '9',
            acc == seg_nat(s@.take(i as int)),
        decreases n - i,
    {
        let c = s.get_char(i);
        if c < '0' || c > '9' {
            return None;
        }
        let d = ((c as u32) - ('0' as u32)) as usize;
        if acc > (usize::MAX - d) / 10 {
            proof {
                assert(acc * 10 + d > usize::MAX) by (nonlinear_arith)
                    requires
                        acc > (usize::MAX - d) / 10,
                        d <= 9,
                ;
                assert(s@.take(i + 1).take(i as int) =~= s@.take(i as int));
                assert(seg_nat(s@.take(i + 1)) == acc * 10 + d);
                if is_index_seg(seg@) {
                    lemma_seg_nat_prefix(seg@, i + 1);
                }
            }
            return None;
        }
        acc = acc * 10 + d;
        proof {
            assert(s@.take(i + 1).take(i as int) =~= s@.take(i as int));
        }
        i = i + 1;
    }
    proof {
        assert(s@.take(n as int) =~= s@);
    }
    Some(acc)
}

/// A digit string's value only grows as more digits follow.
pub proof fn lemma_seg_nat_prefix(s: Seq<char>, j: int)
    requires
        is_index_seg(s),
        0 <= j <= s.len(),
    ensures
        seg_nat(s) >= seg_nat(s.take(j)),
    decreases s.len(),
{
    if j < s.len() {
        let pre = s.take(s.len() - 1);
        assert(is_index_seg(pre) || pre.len() == 0);
        assert(seg_nat(s) >= seg_nat(pre) * 10) by {
            assert(s[s.len() - 1] as int - '0' as int >= 0);
        }
        assert(seg_nat(pre) * 10 >= seg_nat(pre)) by (nonlinear_arith);
        if pre.len() == 0 {
            assert(s.take(j) =~= pre.take(j));
        } else {
            lemma_seg_nat_prefix(pre, j);
        }
        assert(pre.take(j) =~= s.take(j));
    } else {
        assert(s.take(j) =~= s);
    }
}

/// The index of the first entry whose key equals `seg`, if any.
#[verifier::loop_isolation(false)]
fn find_key(es: &Vec<(String, Node)>, seg: &String) -> (r: Option<usize>)
    ensures
        match r {
            Some(f) => 0 <= f < es@.len() && es@[f as int].0@ == seg@ && forall|m: int|
                0 <= m < f ==> (#[trigger] es@[m]).0@ != seg@,
            None => forall|m: int| 0 <= m < es@.len() ==> (#[trigger] es@[m]).0@ != seg@,
        },
{
    let mut j: usize = 0;
    while j < es.len()
        invariant
            0 <= j <= es.len(),
            forall|m: int| 0 <= m < j ==> (#[trigger] es@[m]).0@ != seg@,
        decreases es.len() - j,
    {
        if es[j].0.eq(seg) {
            return Some(j);
        }
        j = j + 1;
    }
    None
}

impl Node {
    /// The contained text, where this node is a text.
    pub fn as_text<'a>(&'a self) -> (r: Option<&'a String>)
        ensures
            match r {
                Some(s) => self@ == Tree::Text(s@),
                None => !(self@ is Text),
            },
    {
        match self {
            Node::Text(s) => Some(s),
            Node::Null => None,
            Node::Bool(_) => None,
            Node::Num(_) => None,
            Node::List(_) => None,
            Node::Obj(_) => None,
        }
    }

    /// Whether this node is a list.
    pub fn is_list(&self) -> (r: bool)
        ensures
            r == (self@ is List),
    {
        match self {
            Node::List(_) => true,
            Node::Null => false,
            Node::Bool(_) => false,
            Node::Num(_) => false,
            Node::Text(_) => false,
            Node::Obj(_) => false,
        }
    }

    /// The contained items, where this node is a list.
    pub fn as_list<'a>(&'a self) -> (r: Option<&'a Vec<Node>>)
        ensures
            match r {
                Some(xs) => self@ == Tree::List(items_model(xs@)),
                None => !(self@ is List),
            },
    {
        match self {
            Node::List(xs) => Some(xs),
            Node::Null => None,
            Node::Bool(_) => None,
            Node::Num(_) => None,
            Node::Text(_) => None,
            Node::Obj(_) => None,
        }
    }

    /// An exact copy: the model of the copy is the model of the original.
    #[verifier::loop_isolation(false)]
    pub fn deep_copy(&self) -> (r: Node)
        ensures
            r@ == self@,
        decreases *self,
    {
        match self {
            Node::Null => Node::Null,
            Node::Bool(b) => Node::Bool(*b),
            Node::Num(s) => Node::Num(s.clone()),
            Node::Text(s) => Node::Text(s.clone()),
            Node::List(xs) => {
                let mut out: Vec<Node> = Vec::new();
                let mut i: usize = 0;
                while i < xs.len()
                    invariant
                        0 <= i <= xs.len(),
                        out@.len() == i,
                        forall|m: int|
                            0 <= m < i ==> node_model(#[trigger] out@[m]) == node_model(xs@[m]),
                    decreases xs.len() - i,
                {
                    proof {
                        assert(decreases_to!(*self => self->List_0));
                        assert(self->List_0 == *xs);
                        assert(decreases_to!(*xs => xs@));
                        assert(decreases_to!(xs@ => xs@[i as int]));
                    }
                    let c = (&xs[i]).deep_copy();
                    out.push(c);
                    i = i + 1;
                }
                proof {
                    lemma_items_model(out@);
                    lemma_items_model(xs@);
                    assert(items_model(out@) =~= items_model(xs@));
                }
                Node::List(out)
            },
            Node::Obj(es) => {
                let mut out: Vec<(String, Node)> = Vec::new();
                let mut i: usize = 0;
                while i < es.len()
                    invariant
                        0 <= i <= es.len(),
                        out@.len() == i,
                        forall|m: int|
                            0 <= m < i ==> (#[trigger] out@[m]).0@ == es@[m].0@ && node_model(
                                out@[m].1,
                            ) == node_model(es@[m].1),
                    decreases es.len() - i,
                {
                    proof {
                        assert(decreases_to!(*self => self->Obj_0));
                        assert(self->Obj_0 == *es);
                        assert(decreases_to!(*es => es@));
                        assert(decreases_to!(es@ => es@[i as int]));
                        assert(decreases_to!(es@[i as int] => es@[i as int].1));
                    }
                    let k = es[i].0.clone();
                    let c = (&es[i].1).deep_copy();
                    out.push((k, c));
                    i = i + 1;
                }
                proof {
                    lemma_entries_model(out@);
                    lemma_entries_model(es@);
                    assert(entries_model(out@) =~= entries_model(es@));
                }
                Node::Obj(out)
            },
        }
    }

    /// Follow the path's segments from `i` on; `None` where the path runs
    /// off the tree.
    #[verifier::loop_isolation(false)]
    pub fn resolve_at<'a>(&'a self, path: &FieldPath, i: usize) -> (r: Option<&'a Node>)
        requires
            i <= path.segs.len(),
        ensures
            match r {
                Some(c) => resolve(self@, path@.skip(i as int)) == Some(c@),
                None => resolve(self@, path@.skip(i as int)) is None,
            },
        decreases path.segs.len() - i,
    {
        if i == path.segs.len() {
            proof {
                assert(path@.skip(i as int) =~= Seq::<Seq<char>>::empty());
            }
            return Some(self);
        }
        let seg = &path.segs[i];
        proof {
            assert(path@.skip(i as int)[0] == seg@);
            assert(path@.skip(i as int).skip(1) =~= path@.skip(i as int + 1));
        }
        match self {
            Node::Obj(es) => {
                proof {
                    lemma_entries_model(es@);
                }
                match find_key(es, seg) {
                    Some(j) => {
                        proof {
                            lemma_obj_lookup_found(entries_model(es@), seg@, j as int);
                            assert(self@ == Tree::Obj(entries_model(es@)));
                            assert(obj_lookup(entries_model(es@), seg@) == Some(
                                node_model(es@[j as int].1),
                            ));
                            assert(child(self@, path@.skip(i as int)[0]) == Some(
                                node_model(es@[j as int].1),
                            ));
                            assert(resolve(self@, path@.skip(i as int)) == resolve(
                                node_model(es@[j as int].1),
                                path@.skip(i as int).skip(1),
                            ));
                            assert(resolve(self@, path@.skip(i as int)) == resolve(
                                node_model(es@[j as int].1),
                                path@.skip(i as int + 1),
                            ));
                        }
                        (&es[j].1).resolve_at(path, i + 1)
                    },
                    None => {
                        proof {
                            lemma_obj_lookup_none(entries_model(es@), seg@);
                            assert(self@ == Tree::Obj(entries_model(es@)));
                            assert(path@.skip(i as int)[0] == seg@);
                            assert(child(self@, path@.skip(i as int)[0]) is None);
                            assert(resolve(self@, path@.skip(i as int)) is None);
                        }
                        None
                    },
                }
            },
            Node::List(xs) => {
                proof {
                    lemma_items_model(xs@);
                }
                let n = xs.len();
                match parse_index(seg) {
                    Some(ix) => {
                        if ix < n {
                            (&xs[ix]).resolve_at(path, i + 1)
                        } else {
                            None
                        }
                    },
                    None => None,
                }
            },
            _ => None,
        }
    }

    /// Write `v` at the path's segments from `i` on, as `graft` says.
    #[verifier::loop_isolation(false)]
    pub fn graft_at(self, path: &FieldPath, i: usize, v: Node) -> (r: Node)
        requires
            i <= path.segs.len(),
        ensures
            r@ == graft(self@, path@.skip(i as int), v@),
        decreases path.segs.len() - i,
    {
        if i == path.segs.len() {
            proof {
                assert(path@.skip(i as int) =~= Seq::<Seq<char>>::empty());
            }
            return v;
        }
        let seg = path.segs[i].clone();
        proof {
            assert(path@.skip(i as int)[0] == seg@);
            assert(path@.skip(i as int).skip(1) =~= path@.skip(i as int + 1));
        }
        match self {
            Node::List(mut xs) => {
                proof {
                    lemma_items_model(xs@);
                }
                let n = xs.len();
                let ix_opt = parse_index(&seg);
                match ix_opt {
                    Some(ix) if ix < n => {
                        let base = (&xs[ix]).deep_copy();
                        let sub = base.graft_at(path, i + 1, v);
                        let ghost pre = xs@;
                        xs[ix] = sub;
                        proof {
                            lemma_items_model(xs@);
                            assert(items_model(xs@) =~= items_model(pre).update(
                                ix as int,
                                node_model(xs@[ix as int]),
                            ));
                        }
                        Node::List(xs)
                    },
                    _ => {
                        let sub = Node::Null.graft_at(path, i + 1, v);
                        let mut out: Vec<(String, Node)> = Vec::new();
                        out.push((seg, sub));
                        proof {
                            lemma_entries_model(out@);
                            assert(entries_model(out@) =~= obj_set(
                                Seq::<(Seq<char>, Tree)>::empty(),
                                out@[0].0@,
                                node_model(out@[0].1),
                            ));
                        }
                        Node::Obj(out)
                    },
                }
            },
            Node::Obj(mut es) => {
                let ghost pre = es@;
                let found = find_key(&es, &seg);
                proof {
                    lemma_entries_model(pre);
                }
                match found {
                    Some(jx) => {
                        let base = (&es[jx].1).deep_copy();
                        let sub = base.graft_at(path, i + 1, v);
                        es[jx] = (seg, sub);
                        proof {
                            lemma_obj_lookup_found(entries_model(pre), path@.skip(i as int)[0], jx as int);
                            lemma_obj_set_at(
                                entries_model(pre),
                                path@.skip(i as int)[0],
                                node_model(es@[jx as int].1),
                                jx as int,
                            );
                            lemma_entries_model(es@);
                            assert(entries_model(es@) =~= entries_model(pre).update(
                                jx as int,
                                (es@[jx as int].0@, node_model(es@[jx as int].1)),
                            ));
                        }
                        Node::Obj(es)
                    },
                    None => {
                        proof {
                            lemma_obj_lookup_none(entries_model(pre), seg@);
                        }
                        let sub = Node::Null.graft_at(path, i + 1, v);
                        es.push((seg, sub));
                        proof {
                            lemma_obj_set_append(
                                entries_model(pre),
                                path@.skip(i as int)[0],
                                node_model(es@[es@.len() - 1].1),
                            );
                            lemma_entries_model(es@);
                            assert(entries_model(es@) =~= entries_model(pre).push(
                                (es@[es@.len() - 1].0@, node_model(es@[es@.len() - 1].1)),
                            ));
                        }
                        Node::Obj(es)
                    },
                }
            },
            _ => {
                let sub = Node::Null.graft_at(path, i + 1, v);
                let mut out: Vec<(String, Node)> = Vec::new();
                out.push((seg, sub));
                proof {
                    lemma_entries_model(out@);
                    assert(entries_model(out@) =~= obj_set(
                        Seq::<(Seq<char>, Tree)>::empty(),
                        out@[0].0@,
                        node_model(out@[0].1),
                    ));
                }
                Node::Obj(out)
            },
        }
    }
}

} // verus!
