//! Canonical serialization of a shape graph: a byte-stable JSON rendering
//! with object keys in lexicographic order, numbers in a fixed decimal form,
//! and the non-semantic leaf annotation stripped.  Two graphs that agree on
//! everything but the annotation serialize to identical bytes, so they hash
//! to the same content key.

use vstd::prelude::*;

use crate::graph::{NumberOrExpr, ShapeNode};
use crate::hashing::{content_hash, hex_chars, hex_digit, sha256_of};

verus! {

use vstd::string::StrSliceExecFns;
use vstd::string::StringSliceAdditionalSpecFns;
use vstd::utf8::encode_utf8;

/// The UTF-8 bytes of a string literal.
pub open spec fn lit(s: &str) -> Seq<u8> {
    s.spec_bytes()
}

/// Appends the UTF-8 bytes of `s`.
pub(crate) fn push_lit(out: &mut Vec<u8>, s: &str)
    ensures
        final(out)@ == old(out)@ + lit(s),
{
    let mut b = s.as_bytes_vec();
    out.append(&mut b);
}

/// Decimal digits (ASCII) of a natural number, most significant first.
pub open spec fn dec_digits(n: nat) -> Seq<u8>
    decreases n,
{
    if n < 10 {
        seq![(48 + n) as u8]
    } else {
        dec_digits(n / 10) + seq![(48 + n % 10) as u8]
    }
}

/// Appends the decimal digits of `n`.
pub(crate) fn push_decimal_u64(out: &mut Vec<u8>, n: u64)
    ensures
        final(out)@ == old(out)@ + dec_digits(n as nat),
    decreases n,
{
    if n < 10 {
        out.push(48 + (n as u8));
    } else {
        push_decimal_u64(out, n / 10);
        out.push(48 + ((n % 10) as u8));
        proof {
            assert(final(out)@ =~= old(out)@ + dec_digits(n as nat));
        }
    }
}

/// Fractional part of a canonical number: a decimal point and the thousandth
/// digits with trailing zeros dropped; empty when the fraction is zero.
pub open spec fn frac_digits(f: int) -> Seq<u8>
    recommends
        0 <= f < 1000,
{
    if f == 0 {
        Seq::empty()
    } else {
        let d1 = (48 + f / 100) as u8;
        let d2 = (48 + (f / 10) % 10) as u8;
        let d3 = (48 + f % 10) as u8;
        if f % 10 != 0 {
            seq![46u8, d1, d2, d3]
        } else if (f / 10) % 10 != 0 {
            seq![46u8, d1, d2]
        } else {
            seq![46u8, d1]
        }
    }
}

/// Canonical decimal text of a number held in thousandths: sign, integer
/// part, then the fraction with trailing zeros dropped.
pub open spec fn canon_number(m: int) -> Seq<u8> {
    let a = if m < 0 {
        -m
    } else {
        m
    };
    let sign: Seq<u8> = if m < 0 {
        seq![45u8]
    } else {
        Seq::empty()
    };
    sign + dec_digits((a / 1000) as nat) + frac_digits(a % 1000)
}

/// Appends the canonical decimal text of `m` thousandths.
fn push_canon_number(out: &mut Vec<u8>, m: i64)
    ensures
        final(out)@ == old(out)@ + canon_number(m as int),
{
    let a: u64 = if m >= 0 {
        m as u64
    } else {
        (-(m as i128)) as u64
    };
    proof {
        assert(a as int == if (m as int) < 0 {
            -(m as int)
        } else {
            m as int
        });
    }
    if m < 0 {
        out.push(45);
    }
    push_decimal_u64(out, a / 1000);
    let f = a % 1000;
    if f != 0 {
        out.push(46);
        out.push(48 + ((f / 100) as u8));
        if f % 10 != 0 {
            out.push(48 + (((f / 10) % 10) as u8));
            out.push(48 + ((f % 10) as u8));
        } else if (f / 10) % 10 != 0 {
            out.push(48 + (((f / 10) % 10) as u8));
        }
    }
    proof {
        assert(final(out)@ =~= old(out)@ + canon_number(m as int));
    }
}

/// Plain decimal text of an integer: an optional minus sign and the digits.
pub open spec fn int_text(v: int) -> Seq<u8> {
    let a = if v < 0 {
        -v
    } else {
        v
    };
    let sign: Seq<u8> = if v < 0 {
        seq![45u8]
    } else {
        Seq::empty()
    };
    sign + dec_digits(a as nat)
}

/// Appends the plain decimal text of `v`.
pub(crate) fn push_int_i64(out: &mut Vec<u8>, v: i64)
    ensures
        final(out)@ == old(out)@ + int_text(v as int),
{
    let a: u64 = if v >= 0 {
        v as u64
    } else {
        (-(v as i128)) as u64
    };
    if v < 0 {
        out.push(45);
    }
    push_decimal_u64(out, a);
    proof {
        assert(final(out)@ =~= old(out)@ + int_text(v as int));
    }
}

/// Escape of one byte of string content inside a JSON string.
pub open spec fn json_escape_byte(b: u8) -> Seq<u8> {
    if b == 34 {
        seq![92u8, 34u8]
    } else if b == 92 {
        seq![92u8, 92u8]
    } else if b == 8 {
        seq![92u8, 98u8]
    } else if b == 9 {
        seq![92u8, 116u8]
    } else if b == 10 {
        seq![92u8, 110u8]
    } else if b == 12 {
        seq![92u8, 102u8]
    } else if b == 13 {
        seq![92u8, 114u8]
    } else if b < 32 {
        seq![92u8, 117u8, 48u8, 48u8, hex_digit((b / 16) as u8), hex_digit((b % 16) as u8)]
    } else {
        seq![b]
    }
}

/// Escape of a whole byte sequence of string content.
pub open spec fn json_escape(s: Seq<u8>) -> Seq<u8>
    decreases s.len(),
{
    if s.len() == 0 {
        Seq::empty()
    } else {
        json_escape(s.drop_last()) + json_escape_byte(s.last())
    }
}

/// Canonical JSON rendering of a string value, quotes included.
pub open spec fn canon_string(s: Seq<char>) -> Seq<u8> {
    seq![34u8] + json_escape(encode_utf8(s)) + seq![34u8]
}

/// Appends the escape of one content byte.
fn push_json_escape_byte(out: &mut Vec<u8>, b: u8)
    ensures
        final(out)@ == old(out)@ + json_escape_byte(b),
{
    if b == 34 {
        out.push(92);
        out.push(34);
    } else if b == 92 {
        out.push(92);
        out.push(92);
    } else if b == 8 {
        out.push(92);
        out.push(98);
    } else if b == 9 {
        out.push(92);
        out.push(116);
    } else if b == 10 {
        out.push(92);
        out.push(110);
    } else if b == 12 {
        out.push(92);
        out.push(102);
    } else if b == 13 {
        out.push(92);
        out.push(114);
    } else if b < 32 {
        out.push(92);
        out.push(117);
        out.push(48);
        out.push(48);
        let hi = b / 16;
        let lo = b % 16;
        out.push(if hi < 10 { 48 + hi } else { 87 + hi });
        out.push(if lo < 10 { 48 + lo } else { 87 + lo });
    } else {
        out.push(b);
    }
    proof {
        assert(final(out)@ =~= old(out)@ + json_escape_byte(b));
    }
}

/// Appends the canonical JSON rendering of a string value.
pub(crate) fn push_json_string(out: &mut Vec<u8>, s: &str)
    ensures
        final(out)@ == old(out)@ + canon_string(s@),
{
    let ghost base = out@;
    out.push(34);
    let bytes = s.as_bytes_vec();
    let mut i: usize = 0;
    while i < bytes.len()
        invariant
            i <= bytes@.len(),
            bytes@ == encode_utf8(s@),
            out@ == base + seq![34u8] + json_escape(bytes@.take(i as int)),
        decreases bytes@.len() - i,
    {
        push_json_escape_byte(out, bytes[i]);
        proof {
            let pre = bytes@.take(i as int + 1);
            assert(pre.drop_last() =~= bytes@.take(i as int));
            assert(pre.last() == bytes@[i as int]);
            assert(out@ =~= base + seq![34u8] + json_escape(pre));
        }
        i += 1;
    }
    out.push(34);
    proof {
        assert(bytes@.take(bytes@.len() as int) =~= bytes@);
        assert(out@ =~= base + canon_string(s@));
    }
}

/// Canonical rendering of one parameter: its number, or the expression
/// string as a JSON string.
pub open spec fn canon_param(p: NumberOrExpr) -> Seq<u8> {
    match p {
        NumberOrExpr::Num(m) => canon_number(m as int),
        NumberOrExpr::Expr(s) => canon_string(s@),
    }
}

/// Canonical rendering of a parameter list, comma separated.
pub open spec fn canon_params(ps: Seq<NumberOrExpr>) -> Seq<u8>
    decreases ps.len(),
{
    if ps.len() == 0 {
        Seq::empty()
    } else if ps.len() == 1 {
        canon_param(ps[0])
    } else {
        canon_params(ps.drop_last()) + seq![44u8] + canon_param(ps.last())
    }
}

/// Canonical rendering of a parameter array, brackets included.
pub open spec fn canon_array(ps: Seq<NumberOrExpr>) -> Seq<u8> {
    seq![91u8] + canon_params(ps) + seq![93u8]
}

/// Appends the canonical rendering of one parameter.
fn push_canon_param(out: &mut Vec<u8>, p: &NumberOrExpr)
    ensures
        final(out)@ == old(out)@ + canon_param(*p),
{
    match p {
        NumberOrExpr::Num(m) => push_canon_number(out, *m),
        NumberOrExpr::Expr(s) => push_json_string(out, s.as_str()),
    }
}

/// Appends the canonical rendering of a parameter array.
fn push_canon_array(out: &mut Vec<u8>, ps: &Vec<NumberOrExpr>)
    ensures
        final(out)@ == old(out)@ + canon_array(ps@),
{
    let ghost base = out@;
    out.push(91);
    let mut i: usize = 0;
    while i < ps.len()
        invariant
            i <= ps@.len(),
            out@ == base + seq![91u8] + canon_params(ps@.take(i as int)),
        decreases ps@.len() - i,
    {
        if i > 0 {
            out.push(44);
        }
        push_canon_param(out, &ps[i]);
        proof {
            let pre = ps@.take(i as int + 1);
            assert(pre.drop_last() =~= ps@.take(i as int));
            assert(pre.last() == ps@[i as int]);
            if i == 0 {
                assert(canon_params(pre) == canon_param(ps@[0]));
            }
            assert(out@ =~= base + seq![91u8] + canon_params(pre));
        }
        i += 1;
    }
    out.push(93);
    proof {
        assert(ps@.take(ps@.len() as int) =~= ps@);
        assert(out@ =~= base + canon_array(ps@));
    }
}

/// Canonical JSON bytes of a graph node.  Object keys are emitted in
/// lexicographic order; the optional leaf annotation is stripped.
pub open spec fn canon_node(n: ShapeNode) -> Seq<u8>
    decreases n,
{
    match n {
        ShapeNode::Step(s) => lit("{\"op\":\"step\",\"path\":") + canon_string(s.path@) + lit(
            "}",
        ),
        ShapeNode::Union(u) => lit("{\"a\":") + canon_node(*u.a) + lit(",\"b\":") + canon_node(
            *u.b,
        ) + lit(",\"op\":\"union\"}"),
        ShapeNode::Intersect(u) => lit("{\"a\":") + canon_node(*u.a) + lit(",\"b\":")
            + canon_node(*u.b) + lit(",\"op\":\"intersect\"}"),
        ShapeNode::Subtract(u) => lit("{\"a\":") + canon_node(*u.a) + lit(",\"b\":") + canon_node(
            *u.b,
        ) + lit(",\"op\":\"subtract\"}"),
        ShapeNode::Scale(s) => lit("{\"factor\":") + canon_param(s.factor) + lit(
            ",\"op\":\"scale\",\"shape\":",
        ) + canon_node(*s.shape) + lit("}"),
        ShapeNode::Translate(t) => lit("{\"op\":\"translate\",\"shape\":") + canon_node(*t.shape)
            + lit(",\"xyz\":") + canon_array(t.xyz@) + lit("}"),
        ShapeNode::Rotate(r) => lit("{\"axis\":") + canon_array(r.axis@) + lit(",\"deg\":")
            + canon_param(r.deg) + lit(",\"op\":\"rotate\",\"shape\":") + canon_node(*r.shape)
            + lit("}"),
        ShapeNode::Stretch(s) => lit("{\"cut\":") + canon_array(s.cut@) + lit(",\"delta\":")
            + canon_array(s.delta@) + lit(",\"op\":\"stretch\",\"shape\":") + canon_node(*s.shape)
            + lit("}"),
    }
}

/// Appends the canonical JSON bytes of a node.
#[verifier::rlimit(50)]
fn push_canon_node(out: &mut Vec<u8>, n: &ShapeNode)
    ensures
        final(out)@ == old(out)@ + canon_node(*n),
    decreases *n,
{
    match n {
        ShapeNode::Step(s) => {
            push_lit(out, "{\"op\":\"step\",\"path\":");
            push_json_string(out, s.path.as_str());
            push_lit(out, "}");
            proof {
                assert(out@ =~= old(out)@ + canon_node(*n));
            }
        },
        ShapeNode::Union(u) => {
            push_lit(out, "{\"a\":");
            push_canon_node(out, &u.a);
            push_lit(out, ",\"b\":");
            push_canon_node(out, &u.b);
            push_lit(out, ",\"op\":\"union\"}");
            proof {
                assert(out@ =~= old(out)@ + canon_node(*n));
            }
        },
        ShapeNode::Intersect(u) => {
            push_lit(out, "{\"a\":");
            push_canon_node(out, &u.a);
            push_lit(out, ",\"b\":");
            push_canon_node(out, &u.b);
            push_lit(out, ",\"op\":\"intersect\"}");
            proof {
                assert(out@ =~= old(out)@ + canon_node(*n));
            }
        },
        ShapeNode::Subtract(u) => {
            push_lit(out, "{\"a\":");
            push_canon_node(out, &u.a);
            push_lit(out, ",\"b\":");
            push_canon_node(out, &u.b);
            push_lit(out, ",\"op\":\"subtract\"}");
            proof {
                assert(out@ =~= old(out)@ + canon_node(*n));
            }
        },
        ShapeNode::Scale(s) => {
            push_lit(out, "{\"factor\":");
            push_canon_param(out, &s.factor);
            push_lit(out, ",\"op\":\"scale\",\"shape\":");
            push_canon_node(out, &s.shape);
            push_lit(out, "}");
            proof {
                assert(out@ =~= old(out)@ + canon_node(*n));
            }
        },
        ShapeNode::Translate(t) => {
            push_lit(out, "{\"op\":\"translate\",\"shape\":");
            push_canon_node(out, &t.shape);
            push_lit(out, ",\"xyz\":");
            push_canon_array(out, &t.xyz);
            push_lit(out, "}");
            proof {
                assert(out@ =~= old(out)@ + canon_node(*n));
            }
        },
        ShapeNode::Rotate(r) => {
            push_lit(out, "{\"axis\":");
            push_canon_array(out, &r.axis);
            push_lit(out, ",\"deg\":");
            push_canon_param(out, &r.deg);
            push_lit(out, ",\"op\":\"rotate\",\"shape\":");
            push_canon_node(out, &r.shape);
            push_lit(out, "}");
            proof {
                assert(out@ =~= old(out)@ + canon_node(*n));
            }
        },
        ShapeNode::Stretch(s) => {
            push_lit(out, "{\"cut\":");
            push_canon_array(out, &s.cut);
            push_lit(out, ",\"delta\":");
            push_canon_array(out, &s.delta);
            push_lit(out, ",\"op\":\"stretch\",\"shape\":");
            push_canon_node(out, &s.shape);
            push_lit(out, "}");
            proof {
                assert(out@ =~= old(out)@ + canon_node(*n));
            }
        },
    }
}

/// The canonical JSON bytes of a graph.
pub fn canonical_bytes(node: &ShapeNode) -> (r: Vec<u8>)
    ensures
        r@ == canon_node(*node),
{
    let mut out: Vec<u8> = Vec::new();
    push_canon_node(&mut out, node);
    proof {
        assert(out@ =~= canon_node(*node));
    }
    out
}

/// The content key of a graph: the lowercase hex SHA-256 digest of its
/// canonical bytes.
pub fn graph_hash(node: &ShapeNode) -> (r: String)
    ensures
        r@ == hex_chars(sha256_of(canon_node(*node))),
        r@.len() == 64,
{
    let bytes = canonical_bytes(node);
    content_hash(bytes.as_slice())
}

/// Parameters that hold the same value.
pub open spec fn param_eq(p: NumberOrExpr, q: NumberOrExpr) -> bool {
    match (p, q) {
        (NumberOrExpr::Num(a), NumberOrExpr::Num(b)) => a == b,
        (NumberOrExpr::Expr(a), NumberOrExpr::Expr(b)) => a@ == b@,
        _ => false,
    }
}

/// Parameter lists that hold the same values.
pub open spec fn params_eq(p: Seq<NumberOrExpr>, q: Seq<NumberOrExpr>) -> bool {
    p.len() == q.len() && forall|i: int| 0 <= i < p.len() ==> param_eq(p[i], q[i])
}

/// Graphs that agree on everything semantic: same operation tree, same
/// numeric values, same leaf content keys.  The optional leaf annotation is
/// not compared.
pub open spec fn same_shape(g: ShapeNode, h: ShapeNode) -> bool
    decreases g,
{
    match (g, h) {
        (ShapeNode::Step(s), ShapeNode::Step(t)) => s.path@ == t.path@,
        (ShapeNode::Union(u), ShapeNode::Union(v)) => same_shape(*u.a, *v.a) && same_shape(
            *u.b,
            *v.b,
        ),
        (ShapeNode::Intersect(u), ShapeNode::Intersect(v)) => same_shape(*u.a, *v.a)
            && same_shape(*u.b, *v.b),
        (ShapeNode::Subtract(u), ShapeNode::Subtract(v)) => same_shape(*u.a, *v.a) && same_shape(
            *u.b,
            *v.b,
        ),
        (ShapeNode::Scale(s), ShapeNode::Scale(t)) => param_eq(s.factor, t.factor) && same_shape(
            *s.shape,
            *t.shape,
        ),
        (ShapeNode::Translate(s), ShapeNode::Translate(t)) => params_eq(s.xyz@, t.xyz@)
            && same_shape(*s.shape, *t.shape),
        (ShapeNode::Rotate(s), ShapeNode::Rotate(t)) => params_eq(s.axis@, t.axis@) && param_eq(
            s.deg,
            t.deg,
        ) && same_shape(*s.shape, *t.shape),
        (ShapeNode::Stretch(s), ShapeNode::Stretch(t)) => params_eq(s.cut@, t.cut@) && params_eq(
            s.delta@,
            t.delta@,
        ) && same_shape(*s.shape, *t.shape),
        _ => false,
    }
}

/// Equal parameter lists render identically.
proof fn lemma_canon_params_eq(p: Seq<NumberOrExpr>, q: Seq<NumberOrExpr>)
    requires
        params_eq(p, q),
    ensures
        canon_params(p) == canon_params(q),
    decreases p.len(),
{
    if p.len() > 1 {
        assert(params_eq(p.drop_last(), q.drop_last()));
        lemma_canon_params_eq(p.drop_last(), q.drop_last());
        assert(param_eq(p.last(), q.last()));
    } else if p.len() == 1 {
        assert(param_eq(p[0], q[0]));
    }
}

/// Canonicalization ignores the leaf annotation: graphs that agree on
/// everything semantic serialize to the same canonical bytes, so they hash
/// to the same content key.
pub proof fn lemma_canon_ignores_annotation(g: ShapeNode, h: ShapeNode)
    requires
        same_shape(g, h),
    ensures
        canon_node(g) == canon_node(h),
        hex_chars(sha256_of(canon_node(g))) == hex_chars(sha256_of(canon_node(h))),
    decreases g,
{
    match (g, h) {
        (ShapeNode::Step(_), ShapeNode::Step(_)) => {},
        (ShapeNode::Union(u), ShapeNode::Union(v)) => {
            lemma_canon_ignores_annotation(*u.a, *v.a);
            lemma_canon_ignores_annotation(*u.b, *v.b);
        },
        (ShapeNode::Intersect(u), ShapeNode::Intersect(v)) => {
            lemma_canon_ignores_annotation(*u.a, *v.a);
            lemma_canon_ignores_annotation(*u.b, *v.b);
        },
        (ShapeNode::Subtract(u), ShapeNode::Subtract(v)) => {
            lemma_canon_ignores_annotation(*u.a, *v.a);
            lemma_canon_ignores_annotation(*u.b, *v.b);
        },
        (ShapeNode::Scale(s), ShapeNode::Scale(t)) => {
            lemma_canon_ignores_annotation(*s.shape, *t.shape);
        },
        (ShapeNode::Translate(s), ShapeNode::Translate(t)) => {
            lemma_canon_params_eq(s.xyz@, t.xyz@);
            lemma_canon_ignores_annotation(*s.shape, *t.shape);
        },
        (ShapeNode::Rotate(s), ShapeNode::Rotate(t)) => {
            lemma_canon_params_eq(s.axis@, t.axis@);
            lemma_canon_ignores_annotation(*s.shape, *t.shape);
        },
        (ShapeNode::Stretch(s), ShapeNode::Stretch(t)) => {
            lemma_canon_params_eq(s.cut@, t.cut@);
            lemma_canon_params_eq(s.delta@, t.delta@);
            lemma_canon_ignores_annotation(*s.shape, *t.shape);
        },
        _ => {},
    }
}

} // verus!
