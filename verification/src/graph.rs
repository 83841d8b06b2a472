//! The shape graph: the tagged-union operation tree submitted by a client,
//! and the dependency collector that extracts the distinct content keys its
//! leaves reference.
//!
//! Numeric parameters are concrete lengths and factors held in thousandths
//! (one unit of the model is one thousandth of a millimetre), so every
//! comparison and every canonical rendering is exact.  A parameter may
//! instead be a symbolic expression string; those are rejected by the
//! evaluator, never evaluated.

use vstd::prelude::*;

use crate::errors::ShapeError;

verus! {

/// A concrete number (in thousandths) or an unsupported symbolic expression.
pub enum NumberOrExpr {
    Num(i64),
    Expr(String),
}

/// Leaf: references a previously converted solid by its content key.
///
/// `path` is the content key (the hex SHA-256 of the uploaded source) and is
/// semantic; `content_hash` is an optional caller annotation that is excluded
/// from canonicalization and caching decisions.
pub struct StepNode {
    pub content_hash: Option<String>,
    pub path: String,
}

/// Boolean fuse of two child graphs.
pub struct UnionShapeNode {
    pub a: Box<ShapeNode>,
    pub b: Box<ShapeNode>,
}

/// Boolean common part of two child graphs.
pub struct IntersectNode {
    pub a: Box<ShapeNode>,
    pub b: Box<ShapeNode>,
}

/// Boolean cut: `a` minus `b`.
pub struct SubtractNode {
    pub a: Box<ShapeNode>,
    pub b: Box<ShapeNode>,
}

/// Uniform scaling of one child graph.
pub struct ScaleNode {
    pub factor: NumberOrExpr,
    pub shape: Box<ShapeNode>,
}

/// Translation of one child graph by `xyz`.
pub struct TranslateNode {
    pub shape: Box<ShapeNode>,
    pub xyz: Vec<NumberOrExpr>,
}

/// Rotation of one child graph about `axis` by `deg` degrees.
pub struct RotateNode {
    pub axis: Vec<NumberOrExpr>,
    pub deg: NumberOrExpr,
    pub shape: Box<ShapeNode>,
}

/// Axis-aligned stretch of one child graph: cut at `cut`, displace by `delta`.
pub struct StretchNode {
    pub cut: Vec<NumberOrExpr>,
    pub delta: Vec<NumberOrExpr>,
    pub shape: Box<ShapeNode>,
}

/// A node of the shape graph.
pub enum ShapeNode {
    Step(StepNode),
    Union(UnionShapeNode),
    Intersect(IntersectNode),
    Subtract(SubtractNode),
    Scale(ScaleNode),
    Translate(TranslateNode),
    Rotate(RotateNode),
    Stretch(StretchNode),
}

/// Common field of every node on the wire.
pub struct ShapeNodeBase {
    pub op: String,
}

/// The set of distinct content keys referenced by the leaves of a graph.
pub open spec fn leaf_keys(n: ShapeNode) -> Set<Seq<char>>
    decreases n,
{
    match n {
        ShapeNode::Step(s) => set![s.path@],
        ShapeNode::Union(u) => leaf_keys(*u.a) + leaf_keys(*u.b),
        ShapeNode::Intersect(u) => leaf_keys(*u.a) + leaf_keys(*u.b),
        ShapeNode::Subtract(u) => leaf_keys(*u.a) + leaf_keys(*u.b),
        ShapeNode::Scale(s) => leaf_keys(*s.shape),
        ShapeNode::Translate(t) => leaf_keys(*t.shape),
        ShapeNode::Rotate(r) => leaf_keys(*r.shape),
        ShapeNode::Stretch(s) => leaf_keys(*s.shape),
    }
}

/// The leaf-key set of every graph is finite.
pub proof fn lemma_leaf_keys_finite(n: ShapeNode)
    ensures
        leaf_keys(n).finite(),
    decreases n,
{
    match n {
        ShapeNode::Step(_) => {},
        ShapeNode::Union(u) => {
            lemma_leaf_keys_finite(*u.a);
            lemma_leaf_keys_finite(*u.b);
        },
        ShapeNode::Intersect(u) => {
            lemma_leaf_keys_finite(*u.a);
            lemma_leaf_keys_finite(*u.b);
        },
        ShapeNode::Subtract(u) => {
            lemma_leaf_keys_finite(*u.a);
            lemma_leaf_keys_finite(*u.b);
        },
        ShapeNode::Scale(s) => lemma_leaf_keys_finite(*s.shape),
        ShapeNode::Translate(t) => lemma_leaf_keys_finite(*t.shape),
        ShapeNode::Rotate(r) => lemma_leaf_keys_finite(*r.shape),
        ShapeNode::Stretch(s) => lemma_leaf_keys_finite(*s.shape),
    }
}

/// The views of a sequence of strings.
pub open spec fn string_views(s: Seq<String>) -> Seq<Seq<char>> {
    s.map_values(|k: String| k@)
}

/// Whether some entry of `keys` already holds the characters of `k`.
fn contains_string(keys: &Vec<String>, k: &String) -> (r: bool)
    ensures
        r == string_views(keys@).contains(k@),
{
    let mut i: usize = 0;
    while i < keys.len()
        invariant
            i <= keys@.len(),
            forall|j: int| 0 <= j < i ==> keys@[j]@ != k@,
        decreases keys@.len() - i,
    {
        if keys[i].eq(k) {
            proof {
                assert(string_views(keys@)[i as int] == k@);
            }
            return true;
        }
        i += 1;
    }
    proof {
        assert(forall|j: int| 0 <= j < keys@.len() ==> string_views(keys@)[j] == keys@[j]@);
    }
    false
}

/// Walks a graph and adds every leaf key not yet present to `keys`.
fn collect_keys_into(node: &ShapeNode, keys: &mut Vec<String>)
    requires
        string_views(old(keys)@).no_duplicates(),
    ensures
        string_views(final(keys)@).no_duplicates(),
        string_views(final(keys)@).to_set() == string_views(old(keys)@).to_set() + leaf_keys(
            *node,
        ),
    decreases *node,
{
    match node {
        ShapeNode::Step(s) => {
            let present = contains_string(keys, &s.path);
            if !present {
                let ghost pre = keys@;
                keys.push(s.path.clone());
                proof {
                    let vs = string_views(pre);
                    let p = s.path@;
                    assert(string_views(keys@) =~= vs.push(p));
                    assert(forall|j: int| 0 <= j < vs.len() ==> vs[j] != p) by {
                        assert(forall|j: int|
                            0 <= j < vs.len() && vs[j] == p ==> vs.contains(p));
                    }
                    assert(vs.push(p).no_duplicates());
                    assert(vs.push(p) =~= vs + seq![p]);
                    Seq::lemma_to_set_insert_commutes(vs, p);
                    assert(string_views(keys@).to_set() == (vs + seq![p]).to_set());
                    assert(vs.to_set().insert(p) =~= vs.to_set() + set![p]);
                    assert(leaf_keys(*node) == set![p]);
                    assert(string_views(keys@).to_set() =~= vs.to_set() + leaf_keys(*node));
                }
            } else {
                proof {
                    assert(string_views(keys@).to_set().contains(s.path@));
                    assert(string_views(keys@).to_set()
                        =~= string_views(keys@).to_set() + leaf_keys(*node));
                }
            }
        },
        ShapeNode::Union(u) => {
            collect_keys_into(&u.a, keys);
            collect_keys_into(&u.b, keys);
            proof {
                assert(string_views(keys@).to_set()
                    =~= string_views(old(keys)@).to_set() + leaf_keys(*node));
            }
        },
        ShapeNode::Intersect(u) => {
            collect_keys_into(&u.a, keys);
            collect_keys_into(&u.b, keys);
            proof {
                assert(string_views(keys@).to_set()
                    =~= string_views(old(keys)@).to_set() + leaf_keys(*node));
            }
        },
        ShapeNode::Subtract(u) => {
            collect_keys_into(&u.a, keys);
            collect_keys_into(&u.b, keys);
            proof {
                assert(string_views(keys@).to_set()
                    =~= string_views(old(keys)@).to_set() + leaf_keys(*node));
            }
        },
        ShapeNode::Scale(s) => {
            collect_keys_into(&s.shape, keys);
        },
        ShapeNode::Translate(t) => {
            collect_keys_into(&t.shape, keys);
        },
        ShapeNode::Rotate(r) => {
            collect_keys_into(&r.shape, keys);
        },
        ShapeNode::Stretch(s) => {
            collect_keys_into(&s.shape, keys);
        },
    }
}

/// Collects the distinct leaf content keys of a graph: every distinct key
/// appears exactly once, so the result has exactly as many entries as the
/// graph has distinct leaf keys, however often each leaf recurs.
pub fn collect_keys(node: &ShapeNode) -> (r: Vec<String>)
    ensures
        string_views(r@).no_duplicates(),
        string_views(r@).to_set() == leaf_keys(*node),
        r@.len() == leaf_keys(*node).len(),
{
    let mut keys: Vec<String> = Vec::new();
    collect_keys_into(node, &mut keys);
    proof {
        assert(string_views(Seq::<String>::empty()).to_set() =~= Set::<Seq<char>>::empty());
        assert(string_views(keys@).to_set() =~= leaf_keys(*node));
        string_views(keys@).unique_seq_to_set();
    }
    keys
}

/// Resolves a parameter to its concrete numeric value; symbolic expressions
/// are rejected, never evaluated.
pub fn resolve_param(p: &NumberOrExpr) -> (r: Result<i64, ShapeError>)
    ensures
        match r {
            Ok(v) => p matches NumberOrExpr::Num(m) && v == m,
            Err(e) => p matches NumberOrExpr::Expr(_) && e matches
                ShapeError::UnsupportedOperation(_),
        },
{
    match p {
        NumberOrExpr::Num(m) => Ok(*m),
        NumberOrExpr::Expr(_) => {
            let mut d = String::new();
            d.append("expression parameter");
            Err(ShapeError::UnsupportedOperation(d))
        },
    }
}

} // verus!
