//! Price extraction by layered literal pattern matching.
//!
//! The displayed price appears as a CSS-class-qualified price element
//! followed by a dollar amount with a standard thousands separator: a
//! 2-3 digit thousands group and a 3-digit hundreds group. The extracted
//! substring is the dollar amount verbatim, leading `$` and separator
//! included; it is treated as opaque display text, never parsed into a
//! number.

use vstd::prelude::*;
use vstd::string::StrSliceExecFns;
use vstd::string::StringSliceAdditionalSpecFns;

use crate::search::matches_at;
use crate::status::Status;

verus! {

/// The fixed non-price part of the priced markup fragment; the dollar
/// amount follows it directly.
pub open spec fn price_prefix() -> Seq<u8> {
    ("class=\"Price__Component-rui__x3geed-0 gipzbd\">").spec_bytes()
}

/// The fixed non-price part of the priced markup fragment, as bytes.
pub fn price_prefix_bytes() -> (v: Vec<u8>)
    ensures
        v@ == price_prefix(),
{
    ("class=\"Price__Component-rui__x3geed-0 gipzbd\">").as_bytes_vec()
}

/// ASCII decimal digit.
pub open spec fn is_digit(b: u8) -> bool {
    48 <= b && b <= 57
}

/// The priced markup fragment occurs at position `i` with a `d`-digit
/// thousands group: the prefix, then `$`, `d` digits, a comma, and three
/// digits.
pub open spec fn price_match_at(body: Seq<u8>, i: int, d: int) -> bool {
    let p = price_prefix().len() as int;
    &&& (d == 2 || d == 3)
    &&& 0 <= i
    &&& i + p + d + 5 <= body.len()
    &&& body.subrange(i, i + p) == price_prefix()
    &&& body[i + p] == 36  // '$'
    &&& (forall|k: int| i + p + 1 <= k < i + p + 1 + d ==> is_digit(#[trigger] body[k]))
    &&& body[i + p + 1 + d] == 44  // ','
    &&& (forall|k: int| i + p + 2 + d <= k < i + p + 5 + d ==> is_digit(#[trigger] body[k]))
}

/// The priced markup fragment occurs at position `i`, with either group
/// width.
pub open spec fn price_starts_at(body: Seq<u8>, i: int) -> bool {
    price_match_at(body, i, 3) || price_match_at(body, i, 2)
}

/// The dollar-amount substring of the occurrence at position `i`, the
/// wider thousands group preferred, as the layered patterns try it first.
pub open spec fn amount_at(body: Seq<u8>, i: int) -> Seq<u8> {
    let p = price_prefix().len() as int;
    if price_match_at(body, i, 3) {
        body.subrange(i + p, i + p + 8)
    } else {
        body.subrange(i + p, i + p + 7)
    }
}

/// The amount of the leftmost occurrence at or after position `i`, or
/// empty when there is none.
pub open spec fn price_from(body: Seq<u8>, i: int) -> Seq<u8>
    decreases body.len() - i,
{
    if i < 0 || i >= body.len() {
        Seq::empty()
    } else if price_starts_at(body, i) {
        amount_at(body, i)
    } else {
        price_from(body, i + 1)
    }
}

/// The dollar-amount substring of the leftmost occurrence of the priced
/// markup fragment, or empty when the body holds none.
pub open spec fn extract_price_spec(body: Seq<u8>) -> Seq<u8> {
    price_from(body, 0)
}

/// A price is meaningful only while a listing can still be bought.
pub open spec fn price_applicable(st: Status) -> bool {
    st == Status::Active || st == Status::Pending || st == Status::Contingent
}

/// What price extraction returns: the extracted amount for statuses where
/// a price is meaningful, empty otherwise, whatever the body holds.
pub open spec fn price_of(body: Seq<u8>, st: Status) -> Seq<u8> {
    if price_applicable(st) {
        extract_price_spec(body)
    } else {
        Seq::empty()
    }
}

/// Copy `body[from..to]` into a fresh vector.
fn copy_range(body: &[u8], from: usize, to: usize) -> (v: Vec<u8>)
    requires
        from <= to <= body@.len(),
    ensures
        v@ == body@.subrange(from as int, to as int),
{
    let mut v: Vec<u8> = Vec::new();
    let mut j = from;
    while j < to
        invariant
            from <= j <= to <= body@.len(),
            v@ =~= body@.subrange(from as int, j as int),
        decreases to - j,
    {
        v.push(body[j]);
        j += 1;
        assert(v@ =~= body@.subrange(from as int, j as int));
    }
    v
}

/// Whether the priced markup fragment with a `d`-digit thousands group
/// occurs at position `i`.
fn price_match_here(body: &[u8], pre: &[u8], i: usize, d: usize) -> (r: bool)
    requires
        pre@ == price_prefix(),
        d == 2 || d == 3,
    ensures
        r == price_match_at(body@, i as int, d as int),
{
    let n = body.len();
    let p = pre.len();
    if n < p {
        return false;
    }
    if n - p < d + 5 {
        return false;
    }
    if i > n - p - (d + 5) {
        return false;
    }
    if !matches_at(body, pre, i) {
        return false;
    }
    if body[i + p] != 36 {
        return false;
    }
    let mut k: usize = 0;
    while k < d
        invariant
            0 <= k <= d,
            i + p + d + 5 <= n == body@.len(),
            p == price_prefix().len(),
            forall|j: int| i + p + 1 <= j < i + p + 1 + k ==> is_digit(#[trigger] body@[j]),
        decreases d - k,
    {
        let b = body[i + p + 1 + k];
        if b < 48 || b > 57 {
            return false;
        }
        k += 1;
    }
    if body[i + p + 1 + d] != 44 {
        return false;
    }
    let mut k: usize = 0;
    while k < 3
        invariant
            0 <= k <= 3,
            i + p + d + 5 <= n == body@.len(),
            p == price_prefix().len(),
            forall|j: int| i + p + 2 + d <= j < i + p + 2 + d + k ==> is_digit(#[trigger] body@[j]),
        decreases 3 - k,
    {
        let b = body[i + p + 2 + d + k];
        if b < 48 || b > 57 {
            return false;
        }
        k += 1;
    }
    true
}

/// Extract the displayed price from a page body, for the given
/// classification outcome.
pub fn get_price(body: &[u8], status: Status) -> (r: Vec<u8>)
    ensures
        r@ == price_of(body@, status),
{
    match status {
        Status::Active | Status::Pending | Status::Contingent => {},
        _ => {
            return Vec::new();
        },
    }
    let pre = price_prefix_bytes();
    let n = body.len();
    let mut i: usize = 0;
    while i < n
        invariant
            0 <= i <= n,
            n == body@.len(),
            pre@ == price_prefix(),
            price_applicable(status),
            extract_price_spec(body@) == price_from(body@, i as int),
        decreases n - i,
    {
        if price_match_here(body, pre.as_slice(), i, 3) {
            return copy_range(body, i + pre.len(), i + pre.len() + 8);
        }
        if price_match_here(body, pre.as_slice(), i, 2) {
            return copy_range(body, i + pre.len(), i + pre.len() + 7);
        }
        i += 1;
    }
    Vec::new()
}

proof fn lemma_price_from_skips(body: Seq<u8>, i: int, m: int)
    requires
        0 <= i <= m,
        price_starts_at(body, m),
        forall|k: int| i <= k < m ==> !price_starts_at(body, k),
    ensures
        price_from(body, i) == amount_at(body, m),
    decreases m - i,
{
    assert(m < body.len());
    if i < m {
        lemma_price_from_skips(body, i + 1, m);
    }
}

/// The extracted price is the amount of the leftmost occurrence of the
/// priced markup fragment.
pub proof fn lemma_price_at_leftmost_match(body: Seq<u8>, m: int)
    requires
        0 <= m,
        price_starts_at(body, m),
        forall|k: int| 0 <= k < m ==> !price_starts_at(body, k),
    ensures
        extract_price_spec(body) == amount_at(body, m),
{
    lemma_price_from_skips(body, 0, m);
}

proof fn lemma_price_from_none(body: Seq<u8>, i: int)
    requires
        forall|k: int| !price_starts_at(body, k),
    ensures
        price_from(body, i) == Seq::<u8>::empty(),
    decreases body.len() - i,
{
    if 0 <= i < body.len() {
        lemma_price_from_none(body, i + 1);
    }
}

/// When the body holds no occurrence of the priced markup fragment, the
/// extracted price is empty.
pub proof fn lemma_price_no_match(body: Seq<u8>)
    requires
        forall|k: int| !price_starts_at(body, k),
    ensures
        extract_price_spec(body) == Seq::<u8>::empty(),
{
    lemma_price_from_none(body, 0);
}

} // verus!
