//! The shape-graph evaluator.  A leaf consumes its resolved payload from the
//! dependency map — removal on use is intentional, so one payload is never
//! implicitly shared between two positions of a graph.  Every other node
//! kind is reported as unsupported with its operation name, so callers can
//! tell a partially implemented graph language from a genuine failure.

use vstd::prelude::*;

use crate::canon::{canon_node, graph_hash};
use crate::errors::ShapeError;
use crate::graph::ShapeNode;
use crate::hashing::{hex_chars, sha256_of};
use crate::store::{glb_cache_key, ByteMap};

verus! {

use vstd::string::StringExecFns;

/// The wire name of a node's operation.
pub open spec fn op_name(n: ShapeNode) -> Seq<char> {
    match n {
        ShapeNode::Step(_) => "step"@,
        ShapeNode::Union(_) => "union"@,
        ShapeNode::Intersect(_) => "intersect"@,
        ShapeNode::Subtract(_) => "subtract"@,
        ShapeNode::Scale(_) => "scale"@,
        ShapeNode::Translate(_) => "translate"@,
        ShapeNode::Rotate(_) => "rotate"@,
        ShapeNode::Stretch(_) => "stretch"@,
    }
}

/// Reduces a graph against its resolved leaf payloads.
///
/// A leaf whose content key is present returns exactly the stored bytes and
/// consumes the entry; a leaf whose key is absent fails with
/// `MissingDependency` and leaves the map untouched; every other node kind
/// fails with `UnsupportedOperation` naming the operation, the map untouched.
pub fn evaluate(node: &ShapeNode, breps: &mut ByteMap) -> (r: Result<Vec<u8>, ShapeError>)
    requires
        old(breps).wf(),
    ensures
        final(breps).wf(),
        match *node {
            ShapeNode::Step(s) => {
                if old(breps)@.contains_key(s.path@) {
                    &&& r matches Ok(v) && v@ == old(breps)@[s.path@]
                    &&& final(breps)@ == old(breps)@.remove(s.path@)
                } else {
                    &&& r matches Err(e) && (e matches ShapeError::MissingDependency(k)
                        && k@ == s.path@)
                    &&& final(breps)@ == old(breps)@
                }
            },
            _ => {
                &&& r matches Err(e) && (e matches ShapeError::UnsupportedOperation(k) && k@
                    == op_name(*node))
                &&& final(breps)@ == old(breps)@
            },
        },
{
    match node {
        ShapeNode::Step(s) => {
            match breps.remove(&s.path) {
                Some(v) => Ok(v),
                None => Err(ShapeError::MissingDependency(s.path.clone())),
            }
        },
        ShapeNode::Union(_) => Err(ShapeError::UnsupportedOperation(make_name("union"))),
        ShapeNode::Intersect(_) => Err(ShapeError::UnsupportedOperation(make_name("intersect"))),
        ShapeNode::Subtract(_) => Err(ShapeError::UnsupportedOperation(make_name("subtract"))),
        ShapeNode::Scale(_) => Err(ShapeError::UnsupportedOperation(make_name("scale"))),
        ShapeNode::Translate(_) => Err(ShapeError::UnsupportedOperation(make_name("translate"))),
        ShapeNode::Rotate(_) => Err(ShapeError::UnsupportedOperation(make_name("rotate"))),
        ShapeNode::Stretch(_) => Err(ShapeError::UnsupportedOperation(make_name("stretch"))),
    }
}

/// The memo key a graph's artifact is cached under.
pub open spec fn memo_key(n: ShapeNode) -> Seq<char> {
    hex_chars(sha256_of(canon_node(n))) + ".glb"@
}

/// Evaluates a graph through the content-addressed cache: the graph is
/// canonicalized and hashed, and a hit under that key returns the stored
/// artifact without touching the compute path or the dependencies; a miss
/// evaluates the graph, stores a successful result under the key, and
/// returns it.  Two concurrent misses may both compute; the write is
/// idempotent, so this costs redundant work, never correctness.
pub fn cached_evaluate(node: &ShapeNode, breps: &mut ByteMap, memo: &mut ByteMap) -> (r: Result<
    Vec<u8>,
    ShapeError,
>)
    requires
        old(breps).wf(),
        old(memo).wf(),
    ensures
        final(breps).wf(),
        final(memo).wf(),
        old(memo)@.contains_key(memo_key(*node)) ==> {
            &&& (r matches Ok(v) && v@ == old(memo)@[memo_key(*node)])
            &&& final(memo)@ == old(memo)@
            &&& final(breps)@ == old(breps)@
        },
        !old(memo)@.contains_key(memo_key(*node)) ==> match r {
            Ok(v) => {
                &&& *node matches ShapeNode::Step(s) && old(breps)@.contains_key(s.path@)
                    && v@ == old(breps)@[s.path@] && final(breps)@ == old(breps)@.remove(
                    s.path@,
                )
                &&& final(memo)@ == old(memo)@.insert(memo_key(*node), v@)
            },
            Err(e) => {
                &&& final(memo)@ == old(memo)@ && final(breps)@ == old(breps)@
                &&& match *node {
                    ShapeNode::Step(s) => !old(breps)@.contains_key(s.path@) && (e matches
                        ShapeError::MissingDependency(k) && k@ == s.path@),
                    _ => e matches ShapeError::UnsupportedOperation(k) && k@ == op_name(
                        *node,
                    ),
                }
            },
        },
{
    let hash = graph_hash(node);
    let key = glb_cache_key(&hash);
    match memo.get_copy(&key) {
        Some(v) => Ok(v),
        None => {
            match evaluate(node, breps) {
                Ok(v) => {
                    memo.insert(key, v.clone());
                    Ok(v)
                },
                Err(e) => Err(e),
            }
        },
    }
}

/// An owned copy of an operation name.
fn make_name(s: &str) -> (r: String)
    ensures
        r@ == s@,
{
    let mut r = String::new();
    r.append(s);
    r
}

} // verus!
