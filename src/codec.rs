//! Length-prefixed text framing shared by the instruction and record layouts.
use vstd::prelude::*;
use vstd::string::StringSliceAdditionalSpecFns;
use vstd::utf8::*;

verus! {

/// Four little-endian bytes of `n`.
pub open spec fn le_bytes(n: u32) -> Seq<u8> {
    seq![n as u8, (n >> 8u32) as u8, (n >> 16u32) as u8, (n >> 24u32) as u8]
}

/// The `u32` stored little-endian in four bytes.
pub open spec fn le_value(b0: u8, b1: u8, b2: u8, b3: u8) -> u32 {
    (b0 as u32) | ((b1 as u32) << 8u32) | ((b2 as u32) << 16u32) | ((b3 as u32) << 24u32)
}

/// A text field: its length as four little-endian bytes, then its bytes.
pub open spec fn framed(t: Seq<u8>) -> Seq<u8> {
    le_bytes(t.len() as u32) + t
}

/// The one byte that stores a flag.
pub open spec fn flag_byte(b: bool) -> u8 {
    if b { 1 } else { 0 }
}

/// The length prefix read at `pos`, if four bytes are there.
pub open spec fn len_at(b: Seq<u8>, pos: int) -> Option<int> {
    if 0 <= pos && pos + 4 <= b.len() {
        Some(le_value(b[pos], b[pos + 1], b[pos + 2], b[pos + 3]) as int)
    } else {
        None
    }
}

/// The UTF-8 text framed at `pos`, and the position after it.
pub open spec fn text_at(b: Seq<u8>, pos: int) -> Option<(Seq<u8>, int)> {
    match len_at(b, pos) {
        Some(n) => if pos + 4 + n <= b.len() && valid_utf8(b.subrange(pos + 4, pos + 4 + n)) {
            Some((b.subrange(pos + 4, pos + 4 + n), pos + 4 + n))
        } else {
            None
        },
        None => None,
    }
}

/// The flag stored at `pos`: only the bytes 0 and 1 are flags.
pub open spec fn flag_at(b: Seq<u8>, pos: int) -> Option<bool> {
    if 0 <= pos && pos < b.len() && b[pos] <= 1 {
        Some(b[pos] == 1)
    } else {
        None
    }
}

/// Reading back a framed text that stands at `prefix.len()` gives the text.
pub proof fn lemma_text_at_framed(prefix: Seq<u8>, t: Seq<u8>, rest: Seq<u8>)
    requires
        valid_utf8(t),
        t.len() <= u32::MAX,
    ensures
        text_at(prefix + framed(t) + rest, prefix.len() as int) == Some(
            (t, prefix.len() + 4 + t.len() as int),
        ),
{
    let n = t.len() as u32;
    let b = prefix + framed(t) + rest;
    let p = prefix.len() as int;
    assert(b[p] == n as u8);
    assert(b[p + 1] == (n >> 8u32) as u8);
    assert(b[p + 2] == (n >> 16u32) as u8);
    assert(b[p + 3] == (n >> 24u32) as u8);
    assert(le_value(n as u8, (n >> 8u32) as u8, (n >> 16u32) as u8, (n >> 24u32) as u8) == n)
        by (bit_vector);
    assert(b.subrange(p + 4, p + 4 + t.len()) =~= t);
}

/// The flag byte of `f` reads back as `f`.
pub proof fn lemma_flag_at(prefix: Seq<u8>, f: bool, rest: Seq<u8>)
    ensures
        flag_at(prefix + seq![flag_byte(f)] + rest, prefix.len() as int) == Some(f),
{
    assert((prefix + seq![flag_byte(f)] + rest)[prefix.len() as int] == flag_byte(f));
}

/// Relies on `std::str::from_utf8`: it accepts exactly the valid UTF-8 byte
/// sequences, and the accepted text has those bytes.
#[verifier::external_body]
fn utf8_str(b: &[u8]) -> (r: Option<&str>)
    ensures
        r is Some <==> valid_utf8(b@),
        r matches Some(s) ==> s.spec_bytes() == b@,
{
    std::str::from_utf8(b).ok()
}

/// Reads the length prefix at `pos`.
pub fn read_len(b: &[u8], pos: usize) -> (r: Option<u32>)
    ensures
        match len_at(b@, pos as int) {
            Some(n) => r == Some(n as u32),
            None => r is None,
        },
        r is Some ==> pos + 4 <= b@.len(),
{
    if pos > b.len() || b.len() - pos < 4 {
        return None;
    }
    let v = (b[pos] as u32) | ((b[pos + 1] as u32) << 8u32) | ((b[pos + 2] as u32) << 16u32) | ((
    b[pos + 3] as u32) << 24u32);
    Some(v)
}

/// Reads the framed UTF-8 text at `pos`, returning it and the position after it.
pub fn read_text(b: &[u8], pos: usize) -> (r: Option<(String, usize)>)
    ensures
        match text_at(b@, pos as int) {
            Some((t, q)) => r matches Some((s, p)) && encode_utf8(s@) == t && p == q,
            None => r is None,
        },
        r matches Some((s, p)) ==> p <= b@.len(),
{
    let len = read_len(b, pos);
    let n = match len {
        Some(n) => n as usize,
        None => return None,
    };
    let blen = b.len();
    assert(pos + 4 <= blen);
    let start = pos + 4;
    if n > b.len() - start {
        return None;
    }
    let end = start + n;
    let mut payload: Vec<u8> = Vec::with_capacity(n);
    let mut i: usize = start;
    while i < end
        invariant
            start <= i <= end <= b.len(),
            payload@ == b@.subrange(start as int, i as int),
        decreases end - i,
    {
        payload.push(b[i]);
        i = i + 1;
    }
    match utf8_str(payload.as_slice()) {
        Some(s) => Some((s.to_owned(), end)),
        None => None,
    }
}

/// Reads the flag byte at `pos`.
pub fn read_flag(b: &[u8], pos: usize) -> (r: Option<bool>)
    ensures
        r == flag_at(b@, pos as int),
        r is Some ==> pos < b@.len() <= usize::MAX,
{
    if pos < b.len() && b[pos] <= 1 {
        Some(b[pos] == 1)
    } else {
        None
    }
}

/// Appends `s` as a framed text.
pub fn push_text(out: &mut Vec<u8>, s: &str)
    requires
        s.spec_bytes().len() <= u32::MAX,
    ensures
        final(out)@ == old(out)@ + framed(s.spec_bytes()),
{
    let bytes = s.as_bytes();
    let n = bytes.len() as u32;
    out.push(n as u8);
    out.push((n >> 8u32) as u8);
    out.push((n >> 16u32) as u8);
    out.push((n >> 24u32) as u8);
    let ghost head = out@;
    let mut i: usize = 0;
    while i < bytes.len()
        invariant
            i <= bytes@.len(),
            out@ == head + bytes@.subrange(0, i as int),
        decreases bytes@.len() - i,
    {
        out.push(bytes[i]);
        i = i + 1;
    }
    assert(out@ =~= old(out)@ + framed(s.spec_bytes()));
}

/// Appends the flag byte of `f`.
pub fn push_flag(out: &mut Vec<u8>, f: bool)
    ensures
        final(out)@ == old(out)@.push(flag_byte(f)),
{
    out.push(if f { 1u8 } else { 0u8 });
}

/// `bytes` written over the start of `base`; the rest of `base` is kept.
pub fn overlay(bytes: &Vec<u8>, base: &Vec<u8>) -> (r: Vec<u8>)
    requires
        bytes@.len() <= base@.len(),
    ensures
        r@ == bytes@ + base@.subrange(bytes@.len() as int, base@.len() as int),
{
    let mut r: Vec<u8> = Vec::with_capacity(base.len());
    let mut i: usize = 0;
    while i < base.len()
        invariant
            bytes@.len() <= base@.len(),
            i <= base@.len(),
            r@.len() == i,
            forall|k: int| 0 <= k < i ==> r@[k] == if k < bytes@.len() { bytes@[k] } else { base@[k] },
        decreases base@.len() - i,
    {
        if i < bytes.len() {
            r.push(bytes[i]);
        } else {
            r.push(base[i]);
        }
        i = i + 1;
    }
    assert(r@ =~= bytes@ + base@.subrange(bytes@.len() as int, base@.len() as int));
    r
}

/// `n` zero bytes, as the host hands out a fresh account's storage.
pub fn zeroed(n: usize) -> (r: Vec<u8>)
    ensures
        r@ == Seq::new(n as nat, |i: int| 0u8),
{
    let mut r: Vec<u8> = Vec::with_capacity(n);
    let mut i: usize = 0;
    while i < n
        invariant
            i <= n,
            r@ == Seq::new(i as nat, |k: int| 0u8),
        decreases n - i,
    {
        r.push(0u8);
        i = i + 1;
        assert(r@ =~= Seq::new(i as nat, |k: int| 0u8));
    }
    r
}

} // verus!
