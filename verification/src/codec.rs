//! The line format of the stores: one JSON object per line.
//!
//! Output lines have the shape `{"name":"..","status":"..","price":"..",
//! "query":".."}`; input lines have the shape `{"name":"..","query":".."}`.
//! String fields are written with a backslash escape before each quote or
//! backslash and nothing else, so every byte string round-trips.

use vstd::prelude::*;
use vstd::string::StrSliceExecFns;
use vstd::string::StringSliceAdditionalSpecFns;

use crate::record::QueryRecord;
use crate::record::QueryRep;
use crate::record::RecordRep;
use crate::record::ResultRecord;
use crate::search::is_match_at;
use crate::search::matches_at;
use crate::status::Status;

verus! {

pub const QUOTE: u8 = 34;

pub const BACKSLASH: u8 = 92;

pub const RBRACE: u8 = 125;

/// How one byte of a string field is written: a backslash before a quote
/// or a backslash, the byte itself otherwise.
pub open spec fn esc_byte(b: u8) -> Seq<u8> {
    if b == QUOTE || b == BACKSLASH {
        seq![BACKSLASH, b]
    } else {
        seq![b]
    }
}

/// How a whole string field is written.
pub open spec fn esc(s: Seq<u8>) -> Seq<u8>
    decreases s.len(),
{
    if s.len() == 0 {
        Seq::empty()
    } else {
        esc_byte(s[0]) + esc(s.drop_first())
    }
}

/// `{"name":"`
pub open spec fn key_name() -> Seq<u8> {
    ("{\"name\":\"").spec_bytes()
}

/// `,"status":"` — the quote closing the previous field stands before it.
pub open spec fn key_status() -> Seq<u8> {
    (",\"status\":\"").spec_bytes()
}

/// `,"price":"`
pub open spec fn key_price() -> Seq<u8> {
    (",\"price\":\"").spec_bytes()
}

/// `,"query":"`
pub open spec fn key_query() -> Seq<u8> {
    (",\"query\":\"").spec_bytes()
}

/// The bytes under which each status is persisted.
pub open spec fn status_label(st: Status) -> Seq<u8> {
    match st {
        Status::Active => seq![97u8, 99u8, 116u8, 105u8, 118u8, 101u8],  // active
        Status::Pending => seq![112u8, 101u8, 110u8, 100u8, 105u8, 110u8, 103u8],  // pending
        Status::Contingent => seq![
            99u8,
            111u8,
            110u8,
            116u8,
            105u8,
            110u8,
            103u8,
            101u8,
            110u8,
            116u8,
        ],  // contingent
        Status::JustSold => seq![106u8, 117u8, 115u8, 116u8, 95u8, 115u8, 111u8, 108u8, 100u8],  // just_sold
        Status::OffMarket => seq![
            111u8,
            102u8,
            102u8,
            95u8,
            109u8,
            97u8,
            114u8,
            107u8,
            101u8,
            116u8,
        ],  // off_market
        Status::Unknown => seq![117u8, 110u8, 107u8, 110u8, 111u8, 119u8, 110u8],  // unknown
    }
}

/// A status label followed by the quote that closes its field.
pub open spec fn label_with_quote(st: Status) -> Seq<u8> {
    status_label(st) + seq![QUOTE]
}

/// The full output line for a record.
pub open spec fn encode_spec(r: RecordRep) -> Seq<u8> {
    key_name() + esc(r.name) + seq![QUOTE] + key_status() + status_label(r.status) + seq![QUOTE]
        + key_price() + esc(r.price) + seq![QUOTE] + key_query() + esc(r.query) + seq![QUOTE]
        + seq![RBRACE]
}

/// Read a string field starting at `i`: bytes up to the next unescaped
/// quote, with a backslash taking the following quote or backslash
/// literally. Yields the field's content and the position after the
/// closing quote, or nothing when the field is malformed or unterminated.
pub open spec fn parse_string_from(s: Seq<u8>, i: int) -> Option<(Seq<u8>, int)>
    decreases s.len() - i,
{
    if i < 0 || i >= s.len() {
        None
    } else if s[i] == QUOTE {
        Some((Seq::empty(), i + 1))
    } else if s[i] == BACKSLASH {
        if i + 1 < s.len() && (s[i + 1] == QUOTE || s[i + 1] == BACKSLASH) {
            match parse_string_from(s, i + 2) {
                Some(r) => Some((seq![s[i + 1]] + r.0, r.1)),
                None => None,
            }
        } else {
            None
        }
    } else {
        match parse_string_from(s, i + 1) {
            Some(r) => Some((seq![s[i]] + r.0, r.1)),
            None => None,
        }
    }
}

/// Read the status field at `i`: one of the known labels followed by its
/// closing quote. Yields the status and the position after that quote.
pub open spec fn parse_status_at(s: Seq<u8>, i: int) -> Option<(Status, int)> {
    if is_match_at(s, label_with_quote(Status::Active), i) {
        Some((Status::Active, i + label_with_quote(Status::Active).len() as int))
    } else if is_match_at(s, label_with_quote(Status::Pending), i) {
        Some((Status::Pending, i + label_with_quote(Status::Pending).len() as int))
    } else if is_match_at(s, label_with_quote(Status::Contingent), i) {
        Some((Status::Contingent, i + label_with_quote(Status::Contingent).len() as int))
    } else if is_match_at(s, label_with_quote(Status::JustSold), i) {
        Some((Status::JustSold, i + label_with_quote(Status::JustSold).len() as int))
    } else if is_match_at(s, label_with_quote(Status::OffMarket), i) {
        Some((Status::OffMarket, i + label_with_quote(Status::OffMarket).len() as int))
    } else if is_match_at(s, label_with_quote(Status::Unknown), i) {
        Some((Status::Unknown, i + label_with_quote(Status::Unknown).len() as int))
    } else {
        None
    }
}

/// The record whose output line the input is, if it is one.
pub open spec fn decode_spec(s: Seq<u8>) -> Option<RecordRep> {
    if !is_match_at(s, key_name(), 0) {
        None
    } else {
        match parse_string_from(s, key_name().len() as int) {
            None => None,
            Some(nr) => {
                if !is_match_at(s, key_status(), nr.1) {
                    None
                } else {
                    match parse_status_at(s, nr.1 + key_status().len() as int) {
                        None => None,
                        Some(sr) => {
                            if !is_match_at(s, key_price(), sr.1) {
                                None
                            } else {
                                match parse_string_from(s, sr.1 + key_price().len() as int) {
                                    None => None,
                                    Some(pr) => {
                                        if !is_match_at(s, key_query(), pr.1) {
                                            None
                                        } else {
                                            match parse_string_from(
                                                s,
                                                pr.1 + key_query().len() as int,
                                            ) {
                                                None => None,
                                                Some(qr) => {
                                                    if qr.1 + 1 == s.len() && s[qr.1] == RBRACE {
                                                        Some(
                                                            RecordRep {
                                                                name: nr.0,
                                                                status: sr.0,
                                                                price: pr.0,
                                                                query: qr.0,
                                                            },
                                                        )
                                                    } else {
                                                        None
                                                    }
                                                },
                                            }
                                        }
                                    },
                                }
                            }
                        },
                    }
                }
            },
        }
    }
}

/// The query record whose input line the input is, if it is one.
pub open spec fn decode_query_spec(s: Seq<u8>) -> Option<QueryRep> {
    if !is_match_at(s, key_name(), 0) {
        None
    } else {
        match parse_string_from(s, key_name().len() as int) {
            None => None,
            Some(nr) => {
                if !is_match_at(s, key_query(), nr.1) {
                    None
                } else {
                    match parse_string_from(s, nr.1 + key_query().len() as int) {
                        None => None,
                        Some(qr) => {
                            if qr.1 + 1 == s.len() && s[qr.1] == RBRACE {
                                Some(QueryRep { name: nr.0, query: qr.0 })
                            } else {
                                None
                            }
                        },
                    }
                }
            },
        }
    }
}

fn key_name_bytes() -> (v: Vec<u8>)
    ensures
        v@ == key_name(),
{
    ("{\"name\":\"").as_bytes_vec()
}

fn key_status_bytes() -> (v: Vec<u8>)
    ensures
        v@ == key_status(),
{
    (",\"status\":\"").as_bytes_vec()
}

fn key_price_bytes() -> (v: Vec<u8>)
    ensures
        v@ == key_price(),
{
    (",\"price\":\"").as_bytes_vec()
}

fn key_query_bytes() -> (v: Vec<u8>)
    ensures
        v@ == key_query(),
{
    (",\"query\":\"").as_bytes_vec()
}

/// The bytes under which a status is persisted.
pub fn status_label_bytes(st: Status) -> (v: Vec<u8>)
    ensures
        v@ == status_label(st),
{
    let mut v: Vec<u8> = Vec::new();
    match st {
        Status::Active => {
            v.push(97);
            v.push(99);
            v.push(116);
            v.push(105);
            v.push(118);
            v.push(101);
        },
        Status::Pending => {
            v.push(112);
            v.push(101);
            v.push(110);
            v.push(100);
            v.push(105);
            v.push(110);
            v.push(103);
        },
        Status::Contingent => {
            v.push(99);
            v.push(111);
            v.push(110);
            v.push(116);
            v.push(105);
            v.push(110);
            v.push(103);
            v.push(101);
            v.push(110);
            v.push(116);
        },
        Status::JustSold => {
            v.push(106);
            v.push(117);
            v.push(115);
            v.push(116);
            v.push(95);
            v.push(115);
            v.push(111);
            v.push(108);
            v.push(100);
        },
        Status::OffMarket => {
            v.push(111);
            v.push(102);
            v.push(102);
            v.push(95);
            v.push(109);
            v.push(97);
            v.push(114);
            v.push(107);
            v.push(101);
            v.push(116);
        },
        Status::Unknown => {
            v.push(117);
            v.push(110);
            v.push(107);
            v.push(110);
            v.push(111);
            v.push(119);
            v.push(110);
        },
    }
    proof {
        assert(v@ =~= status_label(st));
    }
    v
}

fn label_quote_bytes(st: Status) -> (v: Vec<u8>)
    ensures
        v@ == label_with_quote(st),
{
    let mut v = status_label_bytes(st);
    v.push(QUOTE);
    proof {
        assert(v@ =~= label_with_quote(st));
    }
    v
}

/// Whether `key` stands in `s` at position `i`.
fn has_key_at(s: &[u8], key: &[u8], i: usize) -> (r: bool)
    ensures
        r == is_match_at(s@, key@, i as int),
{
    if i > s.len() || s.len() - i < key.len() {
        return false;
    }
    matches_at(s, key, i)
}

proof fn lemma_esc_snoc(s: Seq<u8>, b: u8)
    ensures
        esc(s.push(b)) == esc(s) + esc_byte(b),
    decreases s.len(),
{
    if s.len() == 0 {
        assert(s.push(b).drop_first() =~= Seq::<u8>::empty());
        assert(s.push(b)[0] == b);
        assert(esc(s.push(b)) == esc_byte(b) + esc(Seq::<u8>::empty()));
        assert(esc_byte(b) + Seq::<u8>::empty() =~= esc_byte(b));
        assert(esc(s) + esc_byte(b) =~= esc_byte(b));
    } else {
        assert(s.push(b).drop_first() =~= s.drop_first().push(b));
        lemma_esc_snoc(s.drop_first(), b);
        assert(esc(s.push(b)) == esc_byte(s[0]) + (esc(s.drop_first()) + esc_byte(b)));
        assert(esc_byte(s[0]) + (esc(s.drop_first()) + esc_byte(b)) =~= (esc_byte(s[0]) + esc(
            s.drop_first(),
        )) + esc_byte(b));
    }
}

/// Append the escaped form of `s` to `out`.
fn append_escaped(out: &mut Vec<u8>, s: &[u8])
    ensures
        final(out)@ == old(out)@ + esc(s@),
{
    let n = s.len();
    let mut j: usize = 0;
    while j < n
        invariant
            0 <= j <= n,
            n == s@.len(),
            out@ == old(out)@ + esc(s@.subrange(0, j as int)),
        decreases n - j,
    {
        let ghost pre = s@.subrange(0, j as int);
        let b = s[j];
        if b == QUOTE || b == BACKSLASH {
            out.push(BACKSLASH);
            out.push(b);
        } else {
            out.push(b);
        }
        j += 1;
        proof {
            lemma_esc_snoc(pre, b);
            assert(s@.subrange(0, j as int) =~= pre.push(b));
            assert(out@ =~= old(out)@ + esc(s@.subrange(0, j as int)));
        }
    }
    proof {
        assert(s@.subrange(0, n as int) =~= s@);
    }
}

/// Write the output line for a record.
pub fn encode_record(r: &ResultRecord) -> (out: Vec<u8>)
    ensures
        out@ == encode_spec(r@),
{
    let mut out = key_name_bytes();
    append_escaped(&mut out, r.name.as_slice());
    out.push(QUOTE);
    let mut k = key_status_bytes();
    out.append(&mut k);
    let mut lab = status_label_bytes(r.status);
    out.append(&mut lab);
    out.push(QUOTE);
    let mut k2 = key_price_bytes();
    out.append(&mut k2);
    append_escaped(&mut out, r.price.as_slice());
    out.push(QUOTE);
    let mut k3 = key_query_bytes();
    out.append(&mut k3);
    append_escaped(&mut out, r.query.as_slice());
    out.push(QUOTE);
    out.push(RBRACE);
    proof {
        assert(out@ =~= encode_spec(r@));
    }
    out
}

/// Read a string field of the line format, from `start`.
fn parse_string(s: &[u8], start: usize) -> (r: Option<(Vec<u8>, usize)>)
    ensures
        match r {
            Some(p) => {
                &&& parse_string_from(s@, start as int) == Some((p.0@, p.1 as int))
                &&& p.1 <= s@.len()
            },
            None => parse_string_from(s@, start as int) is None,
        },
{
    let n = s.len();
    let mut j = start;
    let mut acc: Vec<u8> = Vec::new();
    while j < n
        invariant
            j <= n || parse_string_from(s@, j as int) is None,
            n == s@.len(),
            match parse_string_from(s@, j as int) {
                Some(p) => parse_string_from(s@, start as int) == Some((acc@ + p.0, p.1)),
                None => parse_string_from(s@, start as int) is None,
            },
        decreases n - j,
    {
        let ghost acc0 = acc@;
        let ghost j0 = j as int;
        let b = s[j];
        if b == QUOTE {
            proof {
                assert(acc0 + Seq::<u8>::empty() =~= acc0);
            }
            return Some((acc, j + 1));
        } else if b == BACKSLASH {
            if j + 1 < n && (s[j + 1] == QUOTE || s[j + 1] == BACKSLASH) {
                acc.push(s[j + 1]);
                j += 2;
                proof {
                    if let Some(p) = parse_string_from(s@, j as int) {
                        assert(parse_string_from(s@, j0) == Some((seq![s@[j0 + 1]] + p.0, p.1)));
                        assert(acc0 + (seq![s@[j0 + 1]] + p.0) =~= acc@ + p.0);
                    }
                }
            } else {
                return None;
            }
        } else {
            acc.push(b);
            j += 1;
            proof {
                if let Some(p) = parse_string_from(s@, j as int) {
                    assert(parse_string_from(s@, j0) == Some((seq![s@[j0]] + p.0, p.1)));
                    assert(acc0 + (seq![s@[j0]] + p.0) =~= acc@ + p.0);
                }
            }
        }
    }
    None
}

/// Read the status field of the line format, at `i`.
fn parse_status(s: &[u8], i: usize) -> (r: Option<(Status, usize)>)
    ensures
        match r {
            Some(p) => {
                &&& parse_status_at(s@, i as int) == Some((p.0, p.1 as int))
                &&& p.1 <= s@.len()
            },
            None => parse_status_at(s@, i as int) is None,
        },
{
    proof {
        vstd::slice::axiom_spec_len::<u8>(s);
    }
    let c1 = label_quote_bytes(Status::Active);
    if has_key_at(s, c1.as_slice(), i) {
        return Some((Status::Active, i + c1.len()));
    }
    let c2 = label_quote_bytes(Status::Pending);
    if has_key_at(s, c2.as_slice(), i) {
        return Some((Status::Pending, i + c2.len()));
    }
    let c3 = label_quote_bytes(Status::Contingent);
    if has_key_at(s, c3.as_slice(), i) {
        return Some((Status::Contingent, i + c3.len()));
    }
    let c4 = label_quote_bytes(Status::JustSold);
    if has_key_at(s, c4.as_slice(), i) {
        return Some((Status::JustSold, i + c4.len()));
    }
    let c5 = label_quote_bytes(Status::OffMarket);
    if has_key_at(s, c5.as_slice(), i) {
        return Some((Status::OffMarket, i + c5.len()));
    }
    let c6 = label_quote_bytes(Status::Unknown);
    if has_key_at(s, c6.as_slice(), i) {
        return Some((Status::Unknown, i + c6.len()));
    }
    None
}

/// Read an output line back into a record; nothing when the line is not
/// an output line of this format.
pub fn decode_record(s: &[u8]) -> (r: Option<ResultRecord>)
    ensures
        match r {
            Some(rec) => decode_spec(s@) == Some(rec@),
            None => decode_spec(s@) is None,
        },
{
    proof {
        vstd::slice::axiom_spec_len::<u8>(s);
    }
    let kn = key_name_bytes();
    if !has_key_at(s, kn.as_slice(), 0) {
        return None;
    }
    let nr = match parse_string(s, kn.len()) {
        Some(p) => p,
        None => {
            return None;
        },
    };
    let ks = key_status_bytes();
    if !has_key_at(s, ks.as_slice(), nr.1) {
        return None;
    }
    let sr = match parse_status(s, nr.1 + ks.len()) {
        Some(p) => p,
        None => {
            return None;
        },
    };
    let kp = key_price_bytes();
    if !has_key_at(s, kp.as_slice(), sr.1) {
        return None;
    }
    let pr = match parse_string(s, sr.1 + kp.len()) {
        Some(p) => p,
        None => {
            return None;
        },
    };
    let kq = key_query_bytes();
    if !has_key_at(s, kq.as_slice(), pr.1) {
        return None;
    }
    let qr = match parse_string(s, pr.1 + kq.len()) {
        Some(p) => p,
        None => {
            return None;
        },
    };
    if qr.1 < s.len() && s.len() - qr.1 == 1 && s[qr.1] == RBRACE {
        Some(ResultRecord { name: nr.0, status: sr.0, price: pr.0, query: qr.0 })
    } else {
        None
    }
}

proof fn lemma_parse_escaped(s: Seq<u8>, x: Seq<u8>, i: int)
    requires
        0 <= i,
        i + esc(x).len() + 1 <= s.len(),
        forall|k: int| 0 <= k < esc(x).len() ==> s[i + k] == #[trigger] esc(x)[k],
        s[i + esc(x).len()] == QUOTE,
    ensures
        parse_string_from(s, i) == Some((x, i + esc(x).len() + 1)),
    decreases x.len(),
{
    if x.len() == 0 {
        assert(s[i] == QUOTE);
        assert(x =~= Seq::<u8>::empty());
    } else {
        let b = x[0];
        let t = x.drop_first();
        assert(esc(x) == esc_byte(b) + esc(t));
        if b == QUOTE || b == BACKSLASH {
            assert(esc(x)[0] == BACKSLASH);
            assert(esc(x)[1] == b);
            assert(s[i] == BACKSLASH);
            assert(s[i + 1] == b);
            assert forall|k: int| 0 <= k < esc(t).len() implies s[i + 2 + k] == #[trigger] esc(t)[k] by {
                assert(esc(x)[2 + k] == esc(t)[k]);
                assert(s[i + (2 + k)] == esc(x)[2 + k]);
            }
            lemma_parse_escaped(s, t, i + 2);
            assert(seq![s[i + 1]] + t =~= x);
            assert(esc(x).len() == 2 + esc(t).len());
        } else {
            assert(esc(x)[0] == b);
            assert(s[i] == b);
            assert forall|k: int| 0 <= k < esc(t).len() implies s[i + 1 + k] == #[trigger] esc(t)[k] by {
                assert(esc(x)[1 + k] == esc(t)[k]);
                assert(s[i + (1 + k)] == esc(x)[1 + k]);
            }
            lemma_parse_escaped(s, t, i + 1);
            assert(seq![s[i]] + t =~= x);
            assert(esc(x).len() == 1 + esc(t).len());
        }
    }
}

proof fn lemma_first_byte_differs(s: Seq<u8>, other: Status, i: int, b: u8)
    requires
        0 <= i < s.len(),
        s[i] == b,
        status_label(other).len() > 0,
        status_label(other)[0] != b,
    ensures
        !is_match_at(s, label_with_quote(other), i),
{
    if is_match_at(s, label_with_quote(other), i) {
        assert(s.subrange(i, i + label_with_quote(other).len() as int)[0] == s[i]);
        assert(label_with_quote(other)[0] == status_label(other)[0]);
    }
}

proof fn lemma_parse_status_round(s: Seq<u8>, st: Status, i: int)
    requires
        0 <= i,
        i + status_label(st).len() + 1 <= s.len(),
        forall|k: int| 0 <= k < status_label(st).len() ==> s[i + k] == #[trigger] status_label(st)[k],
        s[i + status_label(st).len()] == QUOTE,
    ensures
        parse_status_at(s, i) == Some((st, i + status_label(st).len() + 1)),
{
    let lab = status_label(st);
    let lq = label_with_quote(st);
    assert(s[i + 0] == lab[0]);
    assert forall|k: int| 0 <= k < lq.len() implies s.subrange(i, i + lq.len() as int)[k] == lq[k] by {
        if k < lab.len() {
            assert(s[i + k] == lab[k]);
            assert(lq[k] == lab[k]);
        } else {
            assert(lq[k] == QUOTE);
        }
    }
    assert(s.subrange(i, i + lq.len() as int) =~= lq);
    assert(is_match_at(s, lq, i));
    // The label of each earlier-tried status starts with a different byte,
    // so no earlier branch can match.
    match st {
        Status::Active => {},
        Status::Pending => {
            lemma_first_byte_differs(s, Status::Active, i, lab[0]);
        },
        Status::Contingent => {
            lemma_first_byte_differs(s, Status::Active, i, lab[0]);
            lemma_first_byte_differs(s, Status::Pending, i, lab[0]);
        },
        Status::JustSold => {
            lemma_first_byte_differs(s, Status::Active, i, lab[0]);
            lemma_first_byte_differs(s, Status::Pending, i, lab[0]);
            lemma_first_byte_differs(s, Status::Contingent, i, lab[0]);
        },
        Status::OffMarket => {
            lemma_first_byte_differs(s, Status::Active, i, lab[0]);
            lemma_first_byte_differs(s, Status::Pending, i, lab[0]);
            lemma_first_byte_differs(s, Status::Contingent, i, lab[0]);
            lemma_first_byte_differs(s, Status::JustSold, i, lab[0]);
        },
        Status::Unknown => {
            lemma_first_byte_differs(s, Status::Active, i, lab[0]);
            lemma_first_byte_differs(s, Status::Pending, i, lab[0]);
            lemma_first_byte_differs(s, Status::Contingent, i, lab[0]);
            lemma_first_byte_differs(s, Status::JustSold, i, lab[0]);
            lemma_first_byte_differs(s, Status::OffMarket, i, lab[0]);
        },
    }
}

/// Round-trip law: the output line written for a record decodes back to
/// that record, field for field, for every record and status.
#[verifier::rlimit(100)]
#[verifier::spinoff_prover]
pub proof fn lemma_codec_round_trip(r: RecordRep)
    ensures
        decode_spec(encode_spec(r)) == Some(r),
{
    let s = encode_spec(r);
    let a0 = key_name();
    let e1 = esc(r.name);
    let a1 = key_status();
    let lab = status_label(r.status);
    let a2 = key_price();
    let e2 = esc(r.price);
    let a3 = key_query();
    let e3 = esc(r.query);
    let p0 = a0.len() as int;
    let p1 = p0 + e1.len() + 1;
    let p2 = p1 + a1.len();
    let p3 = p2 + lab.len() + 1;
    let p4 = p3 + a2.len();
    let p5 = p4 + e2.len() + 1;
    let p6 = p5 + a3.len();
    let p7 = p6 + e3.len() + 1;
    assert(s.len() == p7 + 1);
    assert forall|k: int| 0 <= k < p0 implies s[k] == #[trigger] a0[k] by {}
    assert forall|k: int| 0 <= k < e1.len() implies s[p0 + k] == #[trigger] e1[k] by {}
    assert(s[p1 - 1] == QUOTE);
    assert forall|k: int| 0 <= k < a1.len() implies s[p1 + k] == #[trigger] a1[k] by {}
    assert forall|k: int| 0 <= k < lab.len() implies s[p2 + k] == #[trigger] lab[k] by {}
    assert(s[p3 - 1] == QUOTE);
    assert forall|k: int| 0 <= k < a2.len() implies s[p3 + k] == #[trigger] a2[k] by {}
    assert forall|k: int| 0 <= k < e2.len() implies s[p4 + k] == #[trigger] e2[k] by {}
    assert(s[p5 - 1] == QUOTE);
    assert forall|k: int| 0 <= k < a3.len() implies s[p5 + k] == #[trigger] a3[k] by {}
    assert forall|k: int| 0 <= k < e3.len() implies s[p6 + k] == #[trigger] e3[k] by {}
    assert(s[p7 - 1] == QUOTE);
    assert(s[p7] == RBRACE);

    assert(s.subrange(0, p0) =~= a0);
    assert(is_match_at(s, a0, 0));
    lemma_parse_escaped(s, r.name, p0);
    assert(parse_string_from(s, p0) == Some((r.name, p1)));
    assert(s.subrange(p1, p1 + a1.len() as int) =~= a1);
    assert(is_match_at(s, a1, p1));
    lemma_parse_status_round(s, r.status, p2);
    assert(parse_status_at(s, p2) == Some((r.status, p3)));
    assert(s.subrange(p3, p3 + a2.len() as int) =~= a2);
    assert(is_match_at(s, a2, p3));
    lemma_parse_escaped(s, r.price, p4);
    assert(parse_string_from(s, p4) == Some((r.price, p5)));
    assert(s.subrange(p5, p5 + a3.len() as int) =~= a3);
    assert(is_match_at(s, a3, p5));
    lemma_parse_escaped(s, r.query, p6);
    assert(parse_string_from(s, p6) == Some((r.query, p7)));
    assert(RecordRep { name: r.name, status: r.status, price: r.price, query: r.query } =~= r);
}

proof fn lemma_parse_string_sound(s: Seq<u8>, i: int)
    requires
        parse_string_from(s, i) is Some,
    ensures
        ({
            let (x, j) = parse_string_from(s, i)->Some_0;
            &&& i >= 0
            &&& i < j <= s.len()
            &&& j == i + esc(x).len() + 1
            &&& s.subrange(i, j) == esc(x) + seq![QUOTE]
        }),
    decreases s.len() - i,
{
    let (x, j) = parse_string_from(s, i)->Some_0;
    if s[i] == QUOTE {
        assert(s.subrange(i, j) =~= esc(Seq::<u8>::empty()) + seq![QUOTE]);
    } else if s[i] == BACKSLASH {
        lemma_parse_string_sound(s, i + 2);
        let (t, j2) = parse_string_from(s, i + 2)->Some_0;
        assert(x == seq![s[i + 1]] + t);
        assert(x[0] == s[i + 1]);
        assert(x.drop_first() =~= t);
        assert(esc(x) == esc_byte(x[0]) + esc(t));
        assert(esc_byte(x[0]) =~= seq![BACKSLASH, s[i + 1]]);
        assert(s.subrange(i, j) =~= s.subrange(i, i + 2) + s.subrange(i + 2, j));
        assert(s.subrange(i, i + 2) =~= seq![BACKSLASH, s[i + 1]]);
        assert(s.subrange(i + 2, j) == esc(t) + seq![QUOTE]);
        assert((seq![BACKSLASH, s[i + 1]] + esc(t)) + seq![QUOTE] =~= seq![BACKSLASH, s[i + 1]]
            + (esc(t) + seq![QUOTE]));
    } else {
        lemma_parse_string_sound(s, i + 1);
        let (t, j2) = parse_string_from(s, i + 1)->Some_0;
        assert(x == seq![s[i]] + t);
        assert(x[0] == s[i]);
        assert(x.drop_first() =~= t);
        assert(esc(x) == esc_byte(x[0]) + esc(t));
        assert(esc_byte(x[0]) =~= seq![s[i]]);
        assert(s.subrange(i, j) =~= s.subrange(i, i + 1) + s.subrange(i + 1, j));
        assert(s.subrange(i, i + 1) =~= seq![s[i]]);
        assert(s.subrange(i + 1, j) == esc(t) + seq![QUOTE]);
        assert((seq![s[i]] + esc(t)) + seq![QUOTE] =~= seq![s[i]] + (esc(t) + seq![QUOTE]));
    }
}

proof fn lemma_parse_status_sound(s: Seq<u8>, i: int)
    requires
        parse_status_at(s, i) is Some,
    ensures
        ({
            let (st, j) = parse_status_at(s, i)->Some_0;
            &&& i >= 0
            &&& i < j <= s.len()
            &&& j == i + status_label(st).len() + 1
            &&& s.subrange(i, j) == status_label(st) + seq![QUOTE]
        }),
{
}

/// Conversely, only output lines decode: whatever byte string decodes to
/// a record is exactly that record's output line.
#[verifier::rlimit(100)]
#[verifier::spinoff_prover]
pub proof fn lemma_decode_sound(s: Seq<u8>, r: RecordRep)
    requires
        decode_spec(s) == Some(r),
    ensures
        s == encode_spec(r),
{
    let p0 = key_name().len() as int;
    let (name, i1) = parse_string_from(s, p0)->Some_0;
    lemma_parse_string_sound(s, p0);
    let p2 = i1 + key_status().len() as int;
    let (st, i2) = parse_status_at(s, p2)->Some_0;
    lemma_parse_status_sound(s, p2);
    let p4 = i2 + key_price().len() as int;
    let (price, i3) = parse_string_from(s, p4)->Some_0;
    lemma_parse_string_sound(s, p4);
    let p6 = i3 + key_query().len() as int;
    let (query, i4) = parse_string_from(s, p6)->Some_0;
    lemma_parse_string_sound(s, p6);
    assert(r == RecordRep { name, status: st, price, query });
    assert(s.subrange(0, p0) == key_name());
    assert(s.subrange(p0, i1) == esc(name) + seq![QUOTE]);
    assert(s.subrange(i1, p2) == key_status());
    assert(s.subrange(p2, i2) == status_label(st) + seq![QUOTE]);
    assert(s.subrange(i2, p4) == key_price());
    assert(s.subrange(p4, i3) == esc(price) + seq![QUOTE]);
    assert(s.subrange(i3, p6) == key_query());
    assert(s.subrange(p6, i4) == esc(query) + seq![QUOTE]);
    assert(i4 + 1 == s.len() && s[i4] == RBRACE);
    let e1 = esc(name) + seq![QUOTE];
    let lq = status_label(st) + seq![QUOTE];
    let e2 = esc(price) + seq![QUOTE];
    let e3 = esc(query) + seq![QUOTE];
    assert(s.subrange(0, i1) =~= s.subrange(0, p0) + s.subrange(p0, i1));
    assert(s.subrange(0, p2) =~= s.subrange(0, i1) + s.subrange(i1, p2));
    assert(s.subrange(0, i2) =~= s.subrange(0, p2) + s.subrange(p2, i2));
    assert(s.subrange(0, p4) =~= s.subrange(0, i2) + s.subrange(i2, p4));
    assert(s.subrange(0, i3) =~= s.subrange(0, p4) + s.subrange(p4, i3));
    assert(s.subrange(0, p6) =~= s.subrange(0, i3) + s.subrange(i3, p6));
    assert(s.subrange(0, i4) =~= s.subrange(0, p6) + s.subrange(p6, i4));
    assert(s.subrange(i4, i4 + 1) =~= seq![RBRACE]);
    assert(s =~= s.subrange(0, i4) + s.subrange(i4, i4 + 1));
    let v = ((((((((key_name() + e1) + key_status()) + lq) + key_price()) + e2) + key_query())
        + e3) + seq![RBRACE]);
    assert(s == v);
    assert(v =~= encode_spec(r));
}

/// Two different records never write the same output line.
pub proof fn lemma_encode_injective(r1: RecordRep, r2: RecordRep)
    requires
        encode_spec(r1) == encode_spec(r2),
    ensures
        r1 == r2,
{
    lemma_codec_round_trip(r1);
    lemma_codec_round_trip(r2);
}

/// Read an input line into a query record; nothing when the line is not
/// an input line of this format.
pub fn decode_query_record(s: &[u8]) -> (r: Option<QueryRecord>)
    ensures
        match r {
            Some(rec) => decode_query_spec(s@) == Some(rec@),
            None => decode_query_spec(s@) is None,
        },
{
    proof {
        vstd::slice::axiom_spec_len::<u8>(s);
    }
    let kn = key_name_bytes();
    if !has_key_at(s, kn.as_slice(), 0) {
        return None;
    }
    let nr = match parse_string(s, kn.len()) {
        Some(p) => p,
        None => {
            return None;
        },
    };
    let kq = key_query_bytes();
    if !has_key_at(s, kq.as_slice(), nr.1) {
        return None;
    }
    let qr = match parse_string(s, nr.1 + kq.len()) {
        Some(p) => p,
        None => {
            return None;
        },
    };
    if qr.1 < s.len() && s.len() - qr.1 == 1 && s[qr.1] == RBRACE {
        Some(QueryRecord { name: nr.0, query: qr.0 })
    } else {
        None
    }
}

} // verus!
