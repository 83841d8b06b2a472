//! Graph canonicalization, hashing, dependency collection, evaluation and
//! the content-addressed cache.

use shapegraph::canon::canonical_bytes;
use shapegraph::canon::graph_hash;
use shapegraph::errors::ShapeError;
use shapegraph::eval::cached_evaluate;
use shapegraph::eval::evaluate;
use shapegraph::graph::collect_keys;
use shapegraph::graph::resolve_param;
use shapegraph::graph::NumberOrExpr;
use shapegraph::graph::ScaleNode;
use shapegraph::graph::ShapeNode;
use shapegraph::graph::StepNode;
use shapegraph::graph::TranslateNode;
use shapegraph::graph::UnionShapeNode;
use shapegraph::hashing::content_hash;
use shapegraph::store::get_or_compute;
use shapegraph::store::glb_cache_key;
use shapegraph::store::ByteMap;

fn step_node(key: &str) -> ShapeNode {
    ShapeNode::Step(StepNode {
        path: key.to_string(),
        content_hash: None,
    })
}

fn annotated_step(key: &str, note: &str) -> ShapeNode {
    ShapeNode::Step(StepNode {
        path: key.to_string(),
        content_hash: Some(note.to_string()),
    })
}

#[test]
fn shape_missing_brep_returns_err() {
    let mut breps = ByteMap::new();

    let result = evaluate(&step_node("nonexistent"), &mut breps);
    assert!(result.is_err());
    assert!(
        result.err().unwrap().message().contains("not found"),
        "エラーメッセージに 'not found' が含まれるべき"
    );
}

#[test]
fn shape_unsupported_node_returns_err() {
    let mut breps = ByteMap::new();

    let node = ShapeNode::Union(UnionShapeNode {
        a: Box::new(step_node("a")),
        b: Box::new(step_node("b")),
    });

    let result = evaluate(&node, &mut breps);
    assert!(result.is_err());
    assert!(
        result.err().unwrap().message().contains("Only StepNode"),
        "エラーメッセージに 'Only StepNode' が含まれるべき"
    );
}

#[test]
fn leaf_payload_is_consumed_on_use() {
    let mut breps = ByteMap::new();
    breps.insert("k1".to_string(), vec![1u8, 2, 3]);
    assert!(breps.contains_key(&"k1".to_string()));

    let result = evaluate(&step_node("k1"), &mut breps);
    assert_eq!(result.ok().unwrap(), vec![1u8, 2, 3]);
    assert!(!breps.contains_key(&"k1".to_string()));

    let again = evaluate(&step_node("k1"), &mut breps);
    assert!(again.is_err());
}

#[test]
fn collect_keys_deduplicates_leaves() {
    // Four leaf nodes, two distinct hashes: exactly two entries come back.
    let node = ShapeNode::Union(UnionShapeNode {
        a: Box::new(ShapeNode::Union(UnionShapeNode {
            a: Box::new(step_node("aaa")),
            b: Box::new(step_node("bbb")),
        })),
        b: Box::new(ShapeNode::Union(UnionShapeNode {
            a: Box::new(step_node("bbb")),
            b: Box::new(step_node("aaa")),
        })),
    });
    let keys = collect_keys(&node);
    assert_eq!(keys.len(), 2);
    assert!(keys.contains(&"aaa".to_string()));
    assert!(keys.contains(&"bbb".to_string()));
}

#[test]
fn collect_keys_walks_every_node_kind() {
    let node = ShapeNode::Translate(TranslateNode {
        shape: Box::new(ShapeNode::Scale(ScaleNode {
            factor: NumberOrExpr::Num(2000),
            shape: Box::new(step_node("leaf")),
        })),
        xyz: vec![
            NumberOrExpr::Num(1000),
            NumberOrExpr::Num(0),
            NumberOrExpr::Num(0),
        ],
    });
    let keys = collect_keys(&node);
    assert_eq!(keys, vec!["leaf".to_string()]);
}

#[test]
fn canonical_bytes_agree_with_jcs_of_reordered_json() {
    // The same graph written with fields in another order canonicalizes,
    // through RFC 8785, to exactly the bytes the library emits.
    let node = ShapeNode::Scale(ScaleNode {
        factor: NumberOrExpr::Num(50500),
        shape: Box::new(step_node("abc")),
    });
    let text = String::from_utf8(canonical_bytes(&node)).unwrap();
    assert_eq!(
        text,
        "{\"factor\":50.5,\"op\":\"scale\",\"shape\":{\"op\":\"step\",\"path\":\"abc\"}}"
    );

    let reordered = "{\"shape\":{\"path\":\"abc\",\"op\":\"step\"},\"op\":\"scale\",\"factor\":50.5}";
    let value: serde_json::Value = serde_json::from_str(reordered).unwrap();
    let jcs = serde_json_canonicalizer::to_string(&value).unwrap();
    assert_eq!(text, jcs);
}

#[test]
fn canonical_number_formatting() {
    let node = ShapeNode::Translate(TranslateNode {
        shape: Box::new(step_node("p")),
        xyz: vec![
            NumberOrExpr::Num(1000),
            NumberOrExpr::Num(100),
            NumberOrExpr::Num(-1010),
        ],
    });
    let text = String::from_utf8(canonical_bytes(&node)).unwrap();
    assert_eq!(
        text,
        "{\"op\":\"translate\",\"shape\":{\"op\":\"step\",\"path\":\"p\"},\"xyz\":[1,0.1,-1.01]}"
    );
}

#[test]
fn canonical_string_escaping() {
    let node = step_node("a\"b\\c\nd");
    let text = String::from_utf8(canonical_bytes(&node)).unwrap();
    assert_eq!(text, "{\"op\":\"step\",\"path\":\"a\\\"b\\\\c\\nd\"}");
}

#[test]
fn hash_ignores_annotation() {
    // Two leaves differing only in the stripped annotation are
    // cache-equivalent.
    let h1 = graph_hash(&step_node("same"));
    let h2 = graph_hash(&annotated_step("same", "human readable note"));
    assert_eq!(h1, h2);

    let h3 = graph_hash(&step_node("other"));
    assert_ne!(h1, h3);
}

#[test]
fn content_hash_known_vectors() {
    assert_eq!(
        content_hash(b""),
        "e3b0c44298fc1c149afbf4c8996fb92427ae41e4649b934ca495991b7852b855"
    );
    assert_eq!(
        content_hash(b"abc"),
        "ba7816bf8f01cfea414140de5dae2223b00361a396177a9cb410ff61f20015ad"
    );
}

#[test]
fn content_hash_matches_direct_digest() {
    let data = b"shape graph payload";
    let digest = <sha2::Sha256 as sha2::Digest>::digest(data);
    let mut expected = String::new();
    for b in digest.iter() {
        expected.push_str(&format!("{:02x}", b));
    }
    assert_eq!(content_hash(data), expected);
}

#[test]
fn cache_hit_skips_compute() {
    let mut store = ByteMap::new();
    let key = "deadbeef.glb".to_string();
    store.insert(key.clone(), vec![9u8, 9, 9]);

    let mut called = false;
    let result = get_or_compute(&mut store, &key, || {
        called = true;
        Ok(vec![1u8])
    });
    assert_eq!(result.ok().unwrap(), vec![9u8, 9, 9]);
    assert!(!called, "a cache hit must not invoke the compute path");
}

#[test]
fn cache_miss_computes_and_stores() {
    let mut store = ByteMap::new();
    let key = "cafebabe.glb".to_string();

    let mut called = false;
    let result = get_or_compute(&mut store, &key, || {
        called = true;
        Ok(vec![4u8, 5])
    });
    assert_eq!(result.ok().unwrap(), vec![4u8, 5]);
    assert!(called);
    assert_eq!(store.get_copy(&key).unwrap(), vec![4u8, 5]);
}

#[test]
fn cache_miss_error_stores_nothing() {
    let mut store = ByteMap::new();
    let key = "broken.glb".to_string();
    let result = get_or_compute(&mut store, &key, || {
        Err(ShapeError::StoreIO("read timed out".to_string()))
    });
    assert!(result.is_err());
    assert_eq!(store.len(), 0);
}

#[test]
fn cached_evaluate_second_call_is_byte_identical_without_compute() {
    // First evaluation computes and stores; the second returns the stored
    // bytes without touching the (now empty) dependency map.
    let node = step_node("leafhash");
    let mut memo = ByteMap::new();

    let mut breps = ByteMap::new();
    breps.insert("leafhash".to_string(), vec![7u8, 7, 7]);
    let first = cached_evaluate(&node, &mut breps, &mut memo).ok().unwrap();
    assert_eq!(first, vec![7u8, 7, 7]);
    assert!(!breps.contains_key(&"leafhash".to_string()));

    let mut empty_breps = ByteMap::new();
    let second = cached_evaluate(&node, &mut empty_breps, &mut memo)
        .ok()
        .unwrap();
    assert_eq!(second, first, "the cached artifact must be byte-identical");
}

#[test]
fn glb_cache_key_appends_suffix() {
    let key = glb_cache_key(&"0123abcd".to_string());
    assert_eq!(key, "0123abcd.glb");
}

#[test]
fn resolve_param_rejects_expressions() {
    assert_eq!(resolve_param(&NumberOrExpr::Num(1500)).ok(), Some(1500));
    let err = resolve_param(&NumberOrExpr::Expr("$width * 0.5".to_string()));
    assert!(err.is_err());
}

#[test]
fn error_messages_name_their_cause() {
    assert_eq!(
        ShapeError::MissingDependency("k".to_string()).message(),
        "BRep data for 'k' not found in collected map"
    );
    assert_eq!(
        ShapeError::UnsupportedOperation("union".to_string()).message(),
        "Only StepNode is currently supported"
    );
    assert!(ShapeError::IntegrityMismatch("x".to_string())
        .message()
        .contains("mismatch"));
    assert!(ShapeError::StoreIO("y".to_string()).message().contains("store"));
}

#[test]
fn cached_evaluate_miss_propagates_the_evaluation_error() {
    // A miss with an unresolvable leaf propagates the evaluator's error
    // unchanged and writes nothing to either store.
    let node = step_node("absent");
    let mut memo = ByteMap::new();
    let mut breps = ByteMap::new();
    let r = cached_evaluate(&node, &mut breps, &mut memo);
    let msg = r.err().unwrap().message();
    assert!(msg.contains("not found"));
    assert_eq!(memo.len(), 0);
    assert_eq!(breps.len(), 0);

    let unsupported = ShapeNode::Union(UnionShapeNode {
        a: Box::new(step_node("a")),
        b: Box::new(step_node("b")),
    });
    let r = cached_evaluate(&unsupported, &mut breps, &mut memo);
    assert!(r.err().unwrap().message().contains("Only StepNode"));
    assert_eq!(memo.len(), 0);
}
