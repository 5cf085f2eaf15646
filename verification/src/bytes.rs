//! Comparing, copying and searching byte strings and texts.

use vstd::prelude::*;
use vstd::string::*;

verus! {

/// Whether two byte strings hold the same bytes.
pub fn bytes_equal(a: &[u8], b: &[u8]) -> (r: bool)
    ensures
        r == (a@ == b@),
{
    if a.len() != b.len() {
        return false;
    }
    let mut i: usize = 0;
    while i < a.len()
        invariant
            a@.len() == b@.len(),
            i <= a@.len(),
            forall|k: int| 0 <= k < i ==> a@[k] == b@[k],
        decreases a@.len() - i,
    {
        if a[i] != b[i] {
            return false;
        }
        i += 1;
    }
    assert(a@ =~= b@);
    true
}

/// A fresh vector with the same bytes.
pub fn clone_bytes(b: &[u8]) -> (r: Vec<u8>)
    ensures
        r@ == b@,
{
    let mut out: Vec<u8> = Vec::new();
    out.extend_from_slice(b);
    assert(out@ =~= b@);
    out
}

/// Whether two texts hold the same characters.
pub fn text_equal(a: &str, b: &str) -> (r: bool)
    ensures
        r == (a@ == b@),
{
    let r: bool = bytes_equal(a.as_bytes(), b.as_bytes());
    proof {
        vstd::utf8::encode_utf8_decode_utf8(a@);
        vstd::utf8::encode_utf8_decode_utf8(b@);
    }
    r
}

/// The contents of each byte string of a list.
pub open spec fn byte_views(list: Seq<Vec<u8>>) -> Seq<Seq<u8>> {
    list.map_values(|v: Vec<u8>| v@)
}

/// The contents of each text of a list.
pub open spec fn text_views(list: Seq<String>) -> Seq<Seq<char>> {
    list.map_values(|s: String| s@)
}

/// Whether a byte string occurs in a list.
pub fn contains_bytes(list: &[Vec<u8>], wanted: &[u8]) -> (r: bool)
    ensures
        r == byte_views(list@).contains(wanted@),
{
    let mut i: usize = 0;
    while i < list.len()
        invariant
            i <= list@.len(),
            forall|k: int| 0 <= k < i ==> byte_views(list@)[k] != wanted@,
        decreases list@.len() - i,
    {
        if bytes_equal(list[i].as_slice(), wanted) {
            assert(byte_views(list@)[i as int] == wanted@);
            return true;
        }
        i += 1;
    }
    false
}

/// Whether a text occurs in a list.
pub fn contains_text(list: &[String], wanted: &str) -> (r: bool)
    ensures
        r == text_views(list@).contains(wanted@),
{
    let mut i: usize = 0;
    while i < list.len()
        invariant
            i <= list@.len(),
            forall|k: int| 0 <= k < i ==> text_views(list@)[k] != wanted@,
        decreases list@.len() - i,
    {
        if text_equal(list[i].as_str(), wanted) {
            assert(text_views(list@)[i as int] == wanted@);
            return true;
        }
        i += 1;
    }
    false
}

/// A fresh list of the same texts.
pub fn clone_texts(list: &[String]) -> (r: Vec<String>)
    ensures
        r@ == list@,
{
    let mut out: Vec<String> = Vec::new();
    let mut i: usize = 0;
    while i < list.len()
        invariant
            i <= list@.len(),
            out@ == list@.take(i as int),
        decreases list@.len() - i,
    {
        out.push(list[i].clone());
        assert(list@.take(i + 1) =~= list@.take(i as int).push(list@[i as int]));
        i += 1;
    }
    assert(list@.take(i as int) =~= list@);
    out
}

/// A fresh list of the same byte strings.
pub fn clone_byte_strings(list: &[Vec<u8>]) -> (r: Vec<Vec<u8>>)
    ensures
        byte_views(r@) == byte_views(list@),
{
    let mut out: Vec<Vec<u8>> = Vec::new();
    let mut i: usize = 0;
    while i < list.len()
        invariant
            i <= list@.len(),
            out@.len() == i,
            forall|k: int| 0 <= k < i ==> (#[trigger] out@[k])@ == list@[k]@,
        decreases list@.len() - i,
    {
        out.push(clone_bytes(list[i].as_slice()));
        i += 1;
    }
    assert(byte_views(out@) =~= byte_views(list@));
    out
}

} // verus!
