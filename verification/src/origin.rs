//! Estimating a request's origin (scheme and host) from its header values,
//! in priority order: an absolute request target's authority, then the
//! standard forwarding header, then the de-facto forwarding headers, then
//! the plain host header.  All work is on header bytes; the transport layer
//! only hands the raw values over.

use vstd::prelude::*;

use crate::canon::{lit, push_lit};

verus! {

use vstd::string::StrSliceExecFns;

/// ASCII whitespace, as header trimming treats it.
pub open spec fn ws(b: u8) -> bool {
    b == 32 || (9 <= b <= 13)
}

/// The first index holding `b`, or the length when absent.
pub open spec fn find_byte(s: Seq<u8>, b: u8) -> int
    decreases s.len(),
{
    if s.len() == 0 {
        0
    } else if s[0] == b {
        0
    } else {
        1 + find_byte(s.drop_first(), b)
    }
}

/// Everything before the first `b`.
pub open spec fn take_until(s: Seq<u8>, b: u8) -> Seq<u8> {
    if find_byte(s, b) < s.len() {
        s.subrange(0, find_byte(s, b))
    } else {
        s
    }
}

/// Whether `b` occurs in `s`.
pub open spec fn has_byte(s: Seq<u8>, b: u8) -> bool {
    find_byte(s, b) < s.len()
}

/// `s` without its leading whitespace.
pub open spec fn trim_front(s: Seq<u8>) -> Seq<u8>
    decreases s.len(),
{
    if s.len() > 0 && ws(s[0]) {
        trim_front(s.drop_first())
    } else {
        s
    }
}

/// `s` without its trailing whitespace.
pub open spec fn trim_back(s: Seq<u8>) -> Seq<u8>
    decreases s.len(),
{
    if s.len() > 0 && ws(s.last()) {
        trim_back(s.drop_last())
    } else {
        s
    }
}

/// `s` without leading and trailing whitespace.
pub open spec fn trim_spec(s: Seq<u8>) -> Seq<u8> {
    trim_back(trim_front(s))
}

/// ASCII lowercase.
pub open spec fn lower_spec(s: Seq<u8>) -> Seq<u8> {
    s.map_values(|b: u8| if 65 <= b <= 90 { (b + 32) as u8 } else { b })
}

/// `s` trimmed, and stripped of one pair of surrounding double quotes.
pub open spec fn unquote_spec(s: Seq<u8>) -> Seq<u8> {
    let t = trim_spec(s);
    if t.len() >= 2 && t[0] == 34 && t.last() == 34 {
        t.subrange(1, t.len() - 1)
    } else {
        t
    }
}

/// The first comma-separated element, trimmed.
pub open spec fn first_csv_spec(s: Seq<u8>) -> Seq<u8> {
    trim_spec(take_until(s, 44))
}

/// `s` without its leading `b` bytes.
pub open spec fn strip_leading(s: Seq<u8>, b: u8) -> Seq<u8>
    decreases s.len(),
{
    if s.len() > 0 && s[0] == b {
        strip_leading(s.drop_first(), b)
    } else {
        s
    }
}

/// The bare hostname of a host value: leading brackets stripped, then cut
/// at the first closing bracket, then at the first colon.
pub open spec fn hostname_spec(host: Seq<u8>) -> Seq<u8> {
    take_until(take_until(strip_leading(host, 91), 93), 58)
}

/// The scheme guessed for a host: plain for the loopback names, secure for
/// everything else.
pub open spec fn guess_scheme_spec(host: Seq<u8>) -> Seq<u8> {
    let h = hostname_spec(host);
    if h == lit("localhost") || h == lit("127.0.0.1") || h == lit("::1") {
        lit("http")
    } else {
        lit("https")
    }
}

/// A scheme (given, or guessed from the host), the separator, the host.
pub open spec fn mk_origin_spec(proto: Option<Seq<u8>>, host: Seq<u8>) -> Seq<u8> {
    (match proto {
        Some(p) => p,
        None => guess_scheme_spec(host),
    }) + lit("://") + host
}

/// `s` split at every `sep`; without a separator, the one whole segment.
pub open spec fn split_spec(s: Seq<u8>, sep: u8) -> Seq<Seq<u8>>
    decreases s.len(),
{
    let i = find_byte(s, sep);
    if i < 0 || i >= s.len() {
        seq![s]
    } else {
        seq![s.subrange(0, i)] + split_spec(s.subrange(i + 1, s.len() as int), sep)
    }
}

/// The first-occurrence index is always within the sequence, inclusively.
pub proof fn lemma_find_byte_bounds(s: Seq<u8>, b: u8)
    ensures
        0 <= find_byte(s, b) <= s.len(),
    decreases s.len(),
{
    if s.len() > 0 && s[0] != b {
        lemma_find_byte_bounds(s.drop_first(), b);
    }
}

/// One forwarding-header element folded over its parameters: each
/// parameter's key is trimmed and lowercased, its value unquoted; a later
/// `proto` or nonempty value overrides an earlier one, and empty values are
/// ignored.
pub open spec fn fw_fold(parts: Seq<Seq<u8>>) -> (Option<Seq<u8>>, Option<Seq<u8>>)
    decreases parts.len(),
{
    if parts.len() == 0 {
        (None, None)
    } else {
        let acc = fw_fold(parts.drop_last());
        let part = parts.last();
        let k = lower_spec(trim_spec(take_until(part, 61)));
        let v = if has_byte(part, 61) {
            unquote_spec(part.subrange(find_byte(part, 61) + 1, part.len() as int))
        } else {
            unquote_spec(Seq::empty())
        };
        if k == lit("proto") && v.len() > 0 {
            (Some(lower_spec(v)), acc.1)
        } else if k == lit("host") && v.len() > 0 {
            (acc.0, Some(v))
        } else {
            acc
        }
    }
}

/// What the forwarding header yields: the scheme and host of its first
/// comma-separated element.
pub open spec fn forwarded_spec(raw: Seq<u8>) -> (Option<Seq<u8>>, Option<Seq<u8>>) {
    fw_fold(split_spec(first_csv_spec(raw), 59))
}

/// The origin estimated from the request parts, in priority order: the
/// request target's authority; the standard forwarding header, when it
/// names a host; the de-facto forwarded-host (first element, with the
/// forwarded port appended when the host has no port of its own, and the
/// forwarded scheme lowercased); finally the plain host header, trimmed.
pub open spec fn origin_spec(
    authority: Option<Seq<u8>>,
    forwarded: Option<Seq<u8>>,
    xf_host: Option<Seq<u8>>,
    xf_port: Option<Seq<u8>>,
    xf_proto: Option<Seq<u8>>,
    host: Option<Seq<u8>>,
) -> Option<Seq<u8>> {
    if authority is Some {
        Some(mk_origin_spec(None, authority->0))
    } else if forwarded is Some && forwarded_spec(forwarded->0).1 is Some {
        Some(mk_origin_spec(forwarded_spec(forwarded->0).0, forwarded_spec(forwarded->0).1->0))
    } else if xf_host is Some && first_csv_spec(xf_host->0).len() > 0 {
        let h0 = first_csv_spec(xf_host->0);
        let h = if !has_byte(h0, 58) && xf_port is Some && trim_spec(xf_port->0).len() > 0 {
            h0 + seq![58u8] + trim_spec(xf_port->0)
        } else {
            h0
        };
        let p = if xf_proto is Some && lower_spec(first_csv_spec(xf_proto->0)).len() > 0 {
            Some(lower_spec(first_csv_spec(xf_proto->0)))
        } else {
            None
        };
        Some(mk_origin_spec(p, h))
    } else if host is Some && trim_spec(host->0).len() > 0 {
        Some(mk_origin_spec(None, trim_spec(host->0)))
    } else {
        None
    }
}

/// A byte-for-byte copy of `s[from..to]`.
fn sub_bytes(s: &[u8], from: usize, to: usize) -> (r: Vec<u8>)
    requires
        from <= to <= s@.len(),
    ensures
        r@ == s@.subrange(from as int, to as int),
{
    let mut r: Vec<u8> = Vec::new();
    let mut i: usize = from;
    while i < to
        invariant
            from <= i <= to <= s@.len(),
            r@ == s@.subrange(from as int, i as int),
        decreases to - i,
    {
        r.push(s[i]);
        proof {
            assert(r@ =~= s@.subrange(from as int, i as int + 1));
        }
        i += 1;
    }
    r
}

/// Whether two byte strings hold the same bytes.
fn bytes_eq(a: &[u8], b: &[u8]) -> (r: bool)
    ensures
        r == (a@ == b@),
{
    if a.len() != b.len() {
        return false;
    }
    let mut i: usize = 0;
    while i < a.len()
        invariant
            a@.len() == b@.len(),
            i <= a@.len(),
            forall|j: int| 0 <= j < i ==> a@[j] == b@[j],
        decreases a@.len() - i,
    {
        if a[i] != b[i] {
            return false;
        }
        i += 1;
    }
    proof {
        assert(a@ =~= b@);
    }
    true
}

/// The first index at or after `from` holding `b`, or the length.
fn find_byte_from(s: &[u8], from: usize, b: u8) -> (r: usize)
    requires
        from <= s@.len(),
    ensures
        from <= r <= s@.len(),
        r < s@.len() ==> s@[r as int] == b,
        forall|k: int| from <= k < r ==> s@[k] != b,
{
    let mut i: usize = from;
    while i < s.len()
        invariant
            from <= i <= s@.len(),
            forall|k: int| from <= k < i ==> s@[k] != b,
        decreases s@.len() - i,
    {
        if s[i] == b {
            return i;
        }
        i += 1;
    }
    i
}

/// A scan that stopped at the first hit computes `find_byte`.
proof fn lemma_find_byte_at(s: Seq<u8>, b: u8, i: int)
    requires
        0 <= i <= s.len(),
        forall|k: int| 0 <= k < i ==> s[k] != b,
        i == s.len() || s[i] == b,
    ensures
        find_byte(s, b) == i,
    decreases i,
{
    if s.len() == 0 {
    } else if i == 0 {
    } else {
        assert(s[0] != b);
        lemma_find_byte_at(s.drop_first(), b, i - 1);
    }
}

/// A scan that found the whitespace bounds computes the trim.
proof fn lemma_trim_front_at(s: Seq<u8>, lo: int)
    requires
        0 <= lo <= s.len(),
        forall|k: int| 0 <= k < lo ==> ws(s[k]),
        lo == s.len() || !ws(s[lo]),
    ensures
        trim_front(s) == s.subrange(lo, s.len() as int),
    decreases lo,
{
    if lo == 0 {
        if s.len() == 0 || !ws(s[0]) {
            assert(trim_front(s) =~= s.subrange(0, s.len() as int));
        }
    } else {
        lemma_trim_front_at(s.drop_first(), lo - 1);
        assert(s.drop_first().subrange(lo - 1, s.drop_first().len() as int) =~= s.subrange(
            lo,
            s.len() as int,
        ));
    }
}

/// The same from the back.
proof fn lemma_trim_back_at(s: Seq<u8>, hi: int)
    requires
        0 <= hi <= s.len(),
        forall|k: int| hi <= k < s.len() ==> ws(s[k]),
        hi == 0 || !ws(s[hi - 1]),
    ensures
        trim_back(s) == s.subrange(0, hi),
    decreases s.len(),
{
    if hi == s.len() {
        if s.len() == 0 || !ws(s.last()) {
            assert(trim_back(s) =~= s.subrange(0, hi));
        }
    } else {
        assert(ws(s.last()));
        lemma_trim_back_at(s.drop_last(), hi);
        assert(s.drop_last().subrange(0, hi) =~= s.subrange(0, hi));
    }
}

/// Whether a byte is whitespace to trimming.
fn is_ws(b: u8) -> (r: bool)
    ensures
        r == ws(b),
{
    b == 32 || (9 <= b && b <= 13)
}

/// `s` with leading and trailing whitespace removed.
fn trim_bytes(s: &[u8]) -> (r: Vec<u8>)
    ensures
        r@ == trim_spec(s@),
{
    let mut lo: usize = 0;
    while lo < s.len() && is_ws(s[lo])
        invariant
            lo <= s@.len(),
            forall|k: int| 0 <= k < lo ==> ws(s@[k]),
        decreases s@.len() - lo,
    {
        lo += 1;
    }
    let mut hi: usize = s.len();
    while hi > lo && is_ws(s[hi - 1])
        invariant
            lo <= hi <= s@.len(),
            forall|k: int| 0 <= k < lo ==> ws(s@[k]),
            forall|k: int| hi <= k < s@.len() ==> ws(s@[k]),
        decreases hi,
    {
        hi -= 1;
    }
    proof {
        lemma_trim_front_at(s@, lo as int);
        let t = s@.subrange(lo as int, s@.len() as int);
        lemma_trim_back_at(t, hi - lo);
        assert(t.subrange(0, hi - lo) =~= s@.subrange(lo as int, hi as int));
    }
    sub_bytes(s, lo, hi)
}

/// ASCII lowercase of `s`.
fn lower_bytes(s: &[u8]) -> (r: Vec<u8>)
    ensures
        r@ == lower_spec(s@),
{
    let mut r: Vec<u8> = Vec::new();
    let mut i: usize = 0;
    while i < s.len()
        invariant
            i <= s@.len(),
            r@ == lower_spec(s@.subrange(0, i as int)),
        decreases s@.len() - i,
    {
        let b = s[i];
        r.push(if 65 <= b && b <= 90 { b + 32 } else { b });
        proof {
            assert(r@ =~= lower_spec(s@.subrange(0, i as int + 1)));
        }
        i += 1;
    }
    proof {
        assert(s@.subrange(0, s@.len() as int) =~= s@);
    }
    r
}

/// `s` trimmed and stripped of one pair of surrounding quotes.
fn unquote_bytes(s: &[u8]) -> (r: Vec<u8>)
    ensures
        r@ == unquote_spec(s@),
{
    let t = trim_bytes(s);
    if t.len() >= 2 && t[0] == 34 && t[t.len() - 1] == 34 {
        sub_bytes(t.as_slice(), 1, t.len() - 1)
    } else {
        t
    }
}

/// Everything before the first `b`, as a copy.
fn take_until_bytes(s: &[u8], b: u8) -> (r: Vec<u8>)
    ensures
        r@ == take_until(s@, b),
{
    let i = find_byte_from(s, 0, b);
    proof {
        lemma_find_byte_at(s@, b, i as int);
    }
    sub_bytes(s, 0, i)
}

/// The first comma-separated element of `s`, trimmed.
fn first_csv_bytes(s: &[u8]) -> (r: Vec<u8>)
    ensures
        r@ == first_csv_spec(s@),
{
    let head = take_until_bytes(s, 44);
    trim_bytes(head.as_slice())
}

/// `s` split at every `sep`.
fn split_bytes(s: &[u8], sep: u8) -> (r: Vec<Vec<u8>>)
    ensures
        r@.map_values(|v: Vec<u8>| v@) == split_spec(s@, sep),
{
    let mut r: Vec<Vec<u8>> = Vec::new();
    let mut start: usize = 0;
    proof {
        assert(s@.subrange(0, s@.len() as int) =~= s@);
        assert(r@.map_values(|v: Vec<u8>| v@) =~= Seq::<Seq<u8>>::empty());
        assert(split_spec(s@, sep) =~= r@.map_values(|v: Vec<u8>| v@) + split_spec(
            s@.subrange(0, s@.len() as int),
            sep,
        ));
    }
    loop
        invariant
            start <= s@.len(),
            split_spec(s@, sep) == r@.map_values(|v: Vec<u8>| v@) + split_spec(
                s@.subrange(start as int, s@.len() as int),
                sep,
            ),
        decreases s@.len() - start,
    {
        let j = find_byte_from(s, start, sep);
        let ghost tail = s@.subrange(start as int, s@.len() as int);
        proof {
            assert(forall|k: int| 0 <= k < j - start ==> tail[k] == s@[start + k]);
            lemma_find_byte_at(tail, sep, j - start);
        }
        if j >= s.len() {
            let ghost pre = r@;
            r.push(sub_bytes(s, start, s.len()));
            proof {
                assert(split_spec(tail, sep) =~= seq![tail]);
                assert(r@.map_values(|v: Vec<u8>| v@) =~= pre.map_values(|v: Vec<u8>| v@).push(
                    tail,
                ));
                assert(r@.map_values(|v: Vec<u8>| v@) =~= split_spec(s@, sep));
            }
            return r;
        } else {
            let ghost pre = r@;
            r.push(sub_bytes(s, start, j));
            proof {
                let seg = tail.subrange(0, j - start);
                let rest = tail.subrange(j - start + 1, tail.len() as int);
                assert(split_spec(tail, sep) == seq![seg] + split_spec(rest, sep));
                assert(seg =~= s@.subrange(start as int, j as int));
                assert(rest =~= s@.subrange(j as int + 1, s@.len() as int));
                assert(r@.map_values(|v: Vec<u8>| v@) =~= pre.map_values(|v: Vec<u8>| v@).push(
                    seg,
                ));
                assert(split_spec(s@, sep) == r@.map_values(|v: Vec<u8>| v@) + split_spec(
                    s@.subrange(j as int + 1, s@.len() as int),
                    sep,
                ));
            }
            start = j + 1;
        }
    }
}

/// The scheme and host named by one forwarding-header element.
fn fw_scan(parts: &Vec<Vec<u8>>) -> (r: (Option<Vec<u8>>, Option<Vec<u8>>))
    ensures
        ({
            let spec = fw_fold(parts@.map_values(|v: Vec<u8>| v@));
            &&& (match r.0 {
                Some(p) => spec.0 matches Some(sp) && p@ == sp,
                None => spec.0 is None,
            })
            &&& (match r.1 {
                Some(h) => spec.1 matches Some(sh) && h@ == sh,
                None => spec.1 is None,
            })
        }),
{
    let mut proto: Option<Vec<u8>> = None;
    let mut host: Option<Vec<u8>> = None;
    let mut i: usize = 0;
    while i < parts.len()
        invariant
            i <= parts@.len(),
            ({
                let spec = fw_fold(parts@.map_values(|v: Vec<u8>| v@).take(i as int));
                &&& (match proto {
                    Some(p) => spec.0 matches Some(sp) && p@ == sp,
                    None => spec.0 is None,
                })
                &&& (match host {
                    Some(h) => spec.1 matches Some(sh) && h@ == sh,
                    None => spec.1 is None,
                })
            }),
        decreases parts@.len() - i,
    {
        let part = &parts[i];
        let eq_pos = find_byte_from(part.as_slice(), 0, 61);
        proof {
            lemma_find_byte_at(part@, 61, eq_pos as int);
        }
        let key_raw = take_until_bytes(part.as_slice(), 61);
        let key_trimmed = trim_bytes(key_raw.as_slice());
        let k = lower_bytes(key_trimmed.as_slice());
        let v: Vec<u8> = if eq_pos < part.len() {
            let raw = sub_bytes(part.as_slice(), eq_pos + 1, part.len());
            unquote_bytes(raw.as_slice())
        } else {
            let empty: Vec<u8> = Vec::new();
            unquote_bytes(empty.as_slice())
        };
        let is_proto = bytes_eq_lit(k.as_slice(), "proto");
        let is_host = bytes_eq_lit(k.as_slice(), "host");
        if is_proto && v.len() > 0 {
            proto = Some(lower_bytes(v.as_slice()));
        } else if is_host && v.len() > 0 {
            host = Some(v);
        }
        proof {
            let all = parts@.map_values(|v2: Vec<u8>| v2@);
            let pre = all.take(i as int + 1);
            assert(pre.drop_last() =~= all.take(i as int));
            assert(pre.last() == part@);
        }
        i += 1;
    }
    proof {
        assert(parts@.map_values(|v: Vec<u8>| v@).take(parts@.len() as int) =~= parts@.map_values(
            |v: Vec<u8>| v@,
        ));
    }
    (proto, host)
}

/// Whether `v` holds exactly the bytes of the literal `s`.
fn bytes_eq_lit(v: &[u8], s: &str) -> (r: bool)
    ensures
        r == (v@ == lit(s)),
{
    let b = s.as_bytes_vec();
    bytes_eq(v, b.as_slice())
}

/// The scheme guessed for a host: plain only for the loopback names.
fn guess_scheme(host: &[u8]) -> (r: Vec<u8>)
    ensures
        r@ == guess_scheme_spec(host@),
{
    let mut start: usize = 0;
    while start < host.len() && host[start] == 91
        invariant
            start <= host@.len(),
            forall|k: int| 0 <= k < start ==> host@[k] == 91,
        decreases host@.len() - start,
    {
        start += 1;
    }
    let stripped = sub_bytes(host, start, host.len());
    proof {
        lemma_strip_leading_at(host@, 91, start as int);
    }
    let a = take_until_bytes(stripped.as_slice(), 93);
    let h = take_until_bytes(a.as_slice(), 58);
    let local = {
        let l1 = bytes_eq_lit(h.as_slice(), "localhost");
        let l2 = bytes_eq_lit(h.as_slice(), "127.0.0.1");
        let l3 = bytes_eq_lit(h.as_slice(), "::1");
        l1 || l2 || l3
    };
    let mut r: Vec<u8> = Vec::new();
    if local {
        push_lit(&mut r, "http");
    } else {
        push_lit(&mut r, "https");
    }
    proof {
        assert(r@ =~= guess_scheme_spec(host@));
    }
    r
}

/// A scan that skipped the leading `b` bytes computes `strip_leading`.
proof fn lemma_strip_leading_at(s: Seq<u8>, b: u8, i: int)
    requires
        0 <= i <= s.len(),
        forall|k: int| 0 <= k < i ==> s[k] == b,
        i == s.len() || s[i] != b,
    ensures
        strip_leading(s, b) == s.subrange(i, s.len() as int),
    decreases i,
{
    if i == 0 {
        if s.len() == 0 || s[0] != b {
            assert(strip_leading(s, b) =~= s.subrange(0, s.len() as int));
        }
    } else {
        lemma_strip_leading_at(s.drop_first(), b, i - 1);
        assert(s.drop_first().subrange(i - 1, s.drop_first().len() as int) =~= s.subrange(
            i,
            s.len() as int,
        ));
    }
}

/// Builds `proto://host`, guessing the scheme when none is given.
fn mk_origin(proto: Option<Vec<u8>>, host: Vec<u8>) -> (r: Vec<u8>)
    ensures
        r@ == mk_origin_spec(
            match proto {
                Some(p) => Some(p@),
                None => None,
            },
            host@,
        ),
{
    let mut r: Vec<u8> = match proto {
        Some(p) => p,
        None => guess_scheme(host.as_slice()),
    };
    push_lit(&mut r, "://");
    r.extend_from_slice(host.as_slice());
    proof {
        assert(r@ =~= mk_origin_spec(
            match proto {
                Some(p) => Some(p@),
                None => None,
            },
            host@,
        ));
    }
    r
}

/// Estimates the origin (scheme and host) of a request from its parts, in
/// priority order: absolute-target authority, the standard forwarding
/// header, the de-facto forwarding headers, then the plain host header.
pub fn origin_from_parts(
    authority: Option<Vec<u8>>,
    forwarded: Option<Vec<u8>>,
    xf_host: Option<Vec<u8>>,
    xf_port: Option<Vec<u8>>,
    xf_proto: Option<Vec<u8>>,
    host: Option<Vec<u8>>,
) -> (r: Option<Vec<u8>>)
    ensures
        ({
            let spec = origin_spec(
                match authority {
                    Some(ref a) => Some(a@),
                    None => None,
                },
                match forwarded {
                    Some(ref f) => Some(f@),
                    None => None,
                },
                match xf_host {
                    Some(ref h) => Some(h@),
                    None => None,
                },
                match xf_port {
                    Some(ref p) => Some(p@),
                    None => None,
                },
                match xf_proto {
                    Some(ref p) => Some(p@),
                    None => None,
                },
                match host {
                    Some(ref h) => Some(h@),
                    None => None,
                },
            );
            match r {
                Some(o) => spec matches Some(so) && o@ == so,
                None => spec is None,
            }
        }),
{
    if let Some(a) = authority {
        return Some(mk_origin(None, a));
    }
    if let Some(f) = forwarded {
        let first = first_csv_bytes(f.as_slice());
        let parts = split_bytes(first.as_slice(), 59);
        let scanned = fw_scan(&parts);
        if let Some(h) = scanned.1 {
            return Some(mk_origin(scanned.0, h));
        }
    }
    if let Some(xh) = xf_host {
        let h0 = first_csv_bytes(xh.as_slice());
        if h0.len() > 0 {
            let has_port = {
                let p = find_byte_from(h0.as_slice(), 0, 58);
                proof {
                    lemma_find_byte_at(h0@, 58, p as int);
                }
                p < h0.len()
            };
            let mut h = h0;
            let ghost h0v = h@;
            if !has_port {
                if let Some(ref xp) = xf_port {
                    let pt = trim_bytes(xp.as_slice());
                    if pt.len() > 0 {
                        h.push(58);
                        h.extend_from_slice(pt.as_slice());
                        proof {
                            assert(h@ =~= h0v + seq![58u8] + trim_spec(xp@));
                        }
                    }
                }
            }
            let proto: Option<Vec<u8>> = match xf_proto {
                Some(ref xp) => {
                    let p0 = first_csv_bytes(xp.as_slice());
                    let p1 = lower_bytes(p0.as_slice());
                    if p1.len() > 0 {
                        Some(p1)
                    } else {
                        None
                    }
                },
                None => None,
            };
            return Some(mk_origin(proto, h));
        }
    }
    if let Some(hh) = host {
        let t = trim_bytes(hh.as_slice());
        if t.len() > 0 {
            return Some(mk_origin(None, t));
        }
    }
    None
}

} // verus!
