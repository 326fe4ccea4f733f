use vstd::bytes::*;
use vstd::prelude::*;
use vstd::slice::*;
use vstd::string::*;
use vstd::utf8::*;

verus! {

/// `piece` stands in `bytes` from position `at` on.
pub open spec fn holds_at(bytes: Seq<u8>, at: int, piece: Seq<u8>) -> bool {
    &&& 0 <= at
    &&& at + piece.len() <= bytes.len()
    &&& bytes.subrange(at, at + piece.len()) == piece
}

/// Where two pieces stand one after the other, each stands at its place.
pub proof fn lemma_holds_at_split(bytes: Seq<u8>, at: int, first: Seq<u8>, second: Seq<u8>)
    requires
        holds_at(bytes, at, first + second),
    ensures
        holds_at(bytes, at, first),
        holds_at(bytes, at + first.len(), second),
{
    let whole = first + second;
    let window = bytes.subrange(at, at + whole.len());
    assert(bytes.subrange(at, at + first.len()) =~= first) by {
        assert forall|i: int| 0 <= i < first.len() implies bytes[at + i] == first[i] by {
            assert(window[i] == whole[i]);
        }
    }
    assert(bytes.subrange(at + first.len(), at + first.len() + second.len()) =~= second) by {
        assert forall|i: int| 0 <= i < second.len() implies bytes[at + first.len() + i]
            == second[i] by {
            assert(window[first.len() + i] == whole[first.len() + i]);
        }
    }
}

/// What a reader returned agrees with what the format says stands at the
/// place: the value's model and the next place, or nothing.
pub open spec fn read_agrees<V>(got: Option<(V, usize)>, expected: Option<(V, int)>, limit: int) -> bool {
    match got {
        Some((value, next)) => expected == Some((value, next as int)) && next <= limit,
        None => expected is None,
    }
}

pub fn put_bytes(out: &mut Vec<u8>, piece: &[u8])
    ensures
        final(out)@ == old(out)@ + piece@,
{
    let mut i: usize = 0;
    while i < piece.len()
        invariant
            i <= piece@.len(),
            out@ == old(out)@ + piece@.subrange(0, i as int),
        decreases piece@.len() - i,
    {
        out.push(piece[i]);
        i += 1;
        assert(out@ =~= old(out)@ + piece@.subrange(0, i as int));
    }
    assert(piece@.subrange(0, i as int) =~= piece@);
}

pub open spec fn byte_form(x: u8) -> Seq<u8> {
    seq![x]
}

pub open spec fn parse_byte(bytes: Seq<u8>, at: int) -> Option<(u8, int)> {
    if 0 <= at < bytes.len() {
        Some((bytes[at], at + 1))
    } else {
        None
    }
}

pub proof fn lemma_parse_byte(bytes: Seq<u8>, at: int, x: u8)
    requires
        holds_at(bytes, at, byte_form(x)),
    ensures
        parse_byte(bytes, at) == Some((x, at + 1)),
{
    assert(bytes.subrange(at, at + 1)[0] == byte_form(x)[0]);
}

pub fn put_byte(out: &mut Vec<u8>, x: u8)
    ensures
        final(out)@ == old(out)@ + byte_form(x),
{
    out.push(x);
    assert(out@ =~= old(out)@ + byte_form(x));
}

pub fn take_byte(bytes: &[u8], at: usize) -> (got: Option<(u8, usize)>)
    requires
        at <= bytes@.len(),
    ensures
        read_agrees(got, parse_byte(bytes@, at as int), bytes@.len() as int),
{
    if at < bytes.len() {
        Some((bytes[at], at + 1))
    } else {
        None
    }
}

pub open spec fn u32_form(x: u32) -> Seq<u8> {
    spec_u32_to_le_bytes(x)
}

pub open spec fn parse_u32(bytes: Seq<u8>, at: int) -> Option<(u32, int)> {
    if 0 <= at && at + 4 <= bytes.len() {
        Some((spec_u32_from_le_bytes(bytes.subrange(at, at + 4)), at + 4))
    } else {
        None
    }
}

pub proof fn lemma_parse_u32(bytes: Seq<u8>, at: int, x: u32)
    requires
        holds_at(bytes, at, u32_form(x)),
    ensures
        u32_form(x).len() == 4,
        parse_u32(bytes, at) == Some((x, at + 4)),
{
    lemma_auto_spec_u32_to_from_le_bytes();
}

pub fn put_u32(out: &mut Vec<u8>, x: u32)
    ensures
        final(out)@ == old(out)@ + u32_form(x),
{
    let piece = u32_to_le_bytes(x);
    put_bytes(out, piece.as_slice());
}

pub fn take_u32(bytes: &[u8], at: usize) -> (got: Option<(u32, usize)>)
    requires
        at <= bytes@.len(),
    ensures
        read_agrees(got, parse_u32(bytes@, at as int), bytes@.len() as int),
{
    if bytes.len() - at >= 4 {
        let x = u32_from_le_bytes(slice_subrange(bytes, at, at + 4));
        Some((x, at + 4))
    } else {
        None
    }
}

pub open spec fn u64_form(x: u64) -> Seq<u8> {
    spec_u64_to_le_bytes(x)
}

pub open spec fn parse_u64(bytes: Seq<u8>, at: int) -> Option<(u64, int)> {
    if 0 <= at && at + 8 <= bytes.len() {
        Some((spec_u64_from_le_bytes(bytes.subrange(at, at + 8)), at + 8))
    } else {
        None
    }
}

pub proof fn lemma_parse_u64(bytes: Seq<u8>, at: int, x: u64)
    requires
        holds_at(bytes, at, u64_form(x)),
    ensures
        u64_form(x).len() == 8,
        parse_u64(bytes, at) == Some((x, at + 8)),
{
    lemma_auto_spec_u64_to_from_le_bytes();
}

pub fn put_u64(out: &mut Vec<u8>, x: u64)
    ensures
        final(out)@ == old(out)@ + u64_form(x),
{
    let piece = u64_to_le_bytes(x);
    put_bytes(out, piece.as_slice());
}

pub fn take_u64(bytes: &[u8], at: usize) -> (got: Option<(u64, usize)>)
    requires
        at <= bytes@.len(),
    ensures
        read_agrees(got, parse_u64(bytes@, at as int), bytes@.len() as int),
{
    if bytes.len() - at >= 8 {
        let x = u64_from_le_bytes(slice_subrange(bytes, at, at + 8));
        Some((x, at + 8))
    } else {
        None
    }
}

/// A text whose UTF-8 form has a length that the format can write down.
pub open spec fn text_fits(text: Seq<char>) -> bool {
    encode_utf8(text).len() <= u64::MAX
}

pub open spec fn text_form(text: Seq<char>) -> Seq<u8> {
    u64_form(encode_utf8(text).len() as u64) + encode_utf8(text)
}

pub open spec fn parse_text(bytes: Seq<u8>, at: int) -> Option<(Seq<char>, int)> {
    match parse_u64(bytes, at) {
        Some((length, start)) => {
            if start + length <= bytes.len() && valid_utf8(bytes.subrange(start, start + length)) {
                Some((decode_utf8(bytes.subrange(start, start + length)), start + length))
            } else {
                None
            }
        },
        None => None,
    }
}

pub proof fn lemma_parse_text(bytes: Seq<u8>, at: int, text: Seq<char>)
    requires
        text_fits(text),
        holds_at(bytes, at, text_form(text)),
    ensures
        parse_text(bytes, at) == Some((text, at + text_form(text).len())),
{
    let body = encode_utf8(text);
    let head = u64_form(body.len() as u64);
    lemma_holds_at_split(bytes, at, head, body);
    lemma_parse_u64(bytes, at, body.len() as u64);
    encode_utf8_valid_utf8(text);
    encode_utf8_decode_utf8(text);
}

/// `String::from_utf8` of std: the text that `bytes` spell in UTF-8, and
/// nothing where they spell none.
#[verifier::external_body]
fn text_from_utf8(bytes: Vec<u8>) -> (text: Option<String>)
    ensures
        text is Some <==> valid_utf8(bytes@),
        text is Some ==> text->0@ == decode_utf8(bytes@),
{
    String::from_utf8(bytes).ok()
}

pub fn put_text(out: &mut Vec<u8>, text: &String)
    ensures
        final(out)@ == old(out)@ + text_form(text@),
        text_fits(text@),
{
    let body = text.as_str().as_bytes_vec();
    put_u64(out, body.len() as u64);
    put_bytes(out, body.as_slice());
    assert(out@ =~= old(out)@ + text_form(text@));
}

pub fn take_text(bytes: &[u8], at: usize) -> (got: Option<(String, usize)>)
    requires
        at <= bytes@.len(),
    ensures
        match got {
            Some((text, next)) => parse_text(bytes@, at as int) == Some((text@, next as int))
                && next <= bytes@.len(),
            None => parse_text(bytes@, at as int) is None,
        },
{
    match take_u64(bytes, at) {
        Some((length, start)) => {
            if length > (bytes.len() - start) as u64 {
                return None;
            }
            let end: usize = start + length as usize;
            let body = slice_to_vec(slice_subrange(bytes, start, end));
            match text_from_utf8(body) {
                Some(text) => Some((text, end)),
                None => None,
            }
        },
        None => None,
    }
}

} // verus!
