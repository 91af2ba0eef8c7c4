//! The JSON envelope encoding.
//!
//! The pinned convention for this runtime: an envelope is a JSON object with
//! its keys in a fixed order and no whitespace; `payload` bytes are written
//! as an array of decimal numbers; strings escape only `"` and `\`, so a
//! method or error text containing control characters cannot be serialized
//! in JSON mode and is refused with a `Serialization` error. A request is
//! `{"id":N,"method":"...","payload":[...]}`; a response is
//! `{"id":N,"payload":[...]}` on success and `{"id":N,"error":"..."}` on
//! failure.
use vstd::prelude::*;

use crate::error::Error;
use crate::strbytes::string_from_utf8;
use crate::wire::ReqModel;
use crate::wire::Request;
use crate::wire::RespModel;
use crate::wire::Response;
use vstd::string::StrSliceExecFns;
use vstd::utf8::decode_utf8;
use vstd::utf8::encode_scalar;
use vstd::utf8::encode_utf8;
use vstd::utf8::is_ascii_chars_encode_utf8;
use vstd::arithmetic::div_mod::lemma_fundamental_div_mod;
use vstd::utf8::valid_utf8;

verus! {

/// True for the ten decimal digit characters.
pub open spec fn is_digit(c: char) -> bool {
    c == '0' || c == '1' || c == '2' || c == '3' || c == '4' || c == '5' || c == '6' || c == '7'
        || c == '8' || c == '9'
}

/// The character of one decimal digit.
pub open spec fn digit_char(d: int) -> char {
    if d == 0 {
        '0'
    } else if d == 1 {
        '1'
    } else if d == 2 {
        '2'
    } else if d == 3 {
        '3'
    } else if d == 4 {
        '4'
    } else if d == 5 {
        '5'
    } else if d == 6 {
        '6'
    } else if d == 7 {
        '7'
    } else if d == 8 {
        '8'
    } else {
        '9'
    }
}

/// The value of one decimal digit character; 0 for anything else.
pub open spec fn digit_val(c: char) -> u64 {
    if c == '0' {
        0
    } else if c == '1' {
        1
    } else if c == '2' {
        2
    } else if c == '3' {
        3
    } else if c == '4' {
        4
    } else if c == '5' {
        5
    } else if c == '6' {
        6
    } else if c == '7' {
        7
    } else if c == '8' {
        8
    } else if c == '9' {
        9
    } else {
        0
    }
}

/// The decimal digits of `n`, most significant first.
pub open spec fn dec_u64(n: u64) -> Seq<char>
    decreases n,
{
    if n < 10 {
        seq![digit_char(n as int)]
    } else {
        dec_u64(n / 10) + seq![digit_char((n % 10) as int)]
    }
}

/// One string character as it appears between quotes: `"` and `\` get a
/// backslash, everything else stands for itself.
pub open spec fn esc_char(c: char) -> Seq<char> {
    if c == '"' || c == '\\' {
        seq!['\\', c]
    } else {
        seq![c]
    }
}

/// A whole string as it appears between quotes.
pub open spec fn jesc(s: Seq<char>) -> Seq<char>
    decreases s.len(),
{
    if s.len() == 0 {
        Seq::<char>::empty()
    } else {
        esc_char(s[0]) + jesc(s.drop_first())
    }
}

/// True when a string can be written in this JSON convention: it holds no
/// control characters.
pub open spec fn jesc_ok(s: Seq<char>) -> bool {
    forall|k: int| 0 <= k < s.len() ==> (#[trigger] s[k] as u32) >= 0x20
}

/// Payload bytes as the inside of a JSON array: decimal numbers joined by
/// commas.
pub open spec fn jarr_body(p: Seq<u8>) -> Seq<char>
    decreases p.len(),
{
    if p.len() == 0 {
        Seq::<char>::empty()
    } else if p.len() == 1 {
        dec_u64(p[0] as u64)
    } else {
        dec_u64(p[0] as u64) + seq![','] + jarr_body(p.drop_first())
    }
}

/// The opening of every envelope object.
pub open spec fn lit_obj_id() -> Seq<char> {
    seq!['{', '"', 'i', 'd', '"', ':']
}

/// The key between a request's id and its method string.
pub open spec fn lit_method() -> Seq<char> {
    seq![',', '"', 'm', 'e', 't', 'h', 'o', 'd', '"', ':', '"']
}

/// The key between an id (or a method string) and the payload array.
pub open spec fn lit_payload() -> Seq<char> {
    seq![',', '"', 'p', 'a', 'y', 'l', 'o', 'a', 'd', '"', ':', '[']
}

/// The key between a response's id and its error string.
pub open spec fn lit_error() -> Seq<char> {
    seq![',', '"', 'e', 'r', 'r', 'o', 'r', '"', ':', '"']
}

/// The characters of a request envelope.
pub open spec fn jenc_chars_request(m: ReqModel) -> Seq<char> {
    lit_obj_id() + dec_u64(m.id) + lit_method() + jesc(m.method) + seq!['"'] + lit_payload()
        + jarr_body(m.payload) + seq![']', '}']
}

/// The JSON encoding of a request envelope, or `None` when the method holds
/// a control character.
pub open spec fn jenc_request(m: ReqModel) -> Option<Seq<u8>> {
    if jesc_ok(m.method) {
        Some(encode_utf8(jenc_chars_request(m)))
    } else {
        None
    }
}

/// The characters of a response envelope.
pub open spec fn jenc_chars_response(m: RespModel) -> Seq<char>
    recommends
        m.wf(),
{
    match m.payload {
        Some(p) => lit_obj_id() + dec_u64(m.id) + lit_payload() + jarr_body(p) + seq![']', '}'],
        None => lit_obj_id() + dec_u64(m.id) + lit_error() + jesc(m.error->Some_0) + seq![
            '"',
            '}',
        ],
    }
}

/// The JSON encoding of a response envelope, or `None` when the error text
/// holds a control character.
pub open spec fn jenc_response(m: RespModel) -> Option<Seq<u8>>
    recommends
        m.wf(),
{
    if m.payload is Some || jesc_ok(m.error->Some_0) {
        Some(encode_utf8(jenc_chars_response(m)))
    } else {
        None
    }
}

/// Encoding distributes over concatenation of character sequences.
pub proof fn lemma_encode_utf8_concat(a: Seq<char>, b: Seq<char>)
    ensures
        encode_utf8(a + b) == encode_utf8(a) + encode_utf8(b),
    decreases a.len(),
{
    if a.len() == 0 {
        assert(a + b =~= b);
        assert(encode_utf8(a) + encode_utf8(b) =~= encode_utf8(b));
    } else {
        assert((a + b).drop_first() =~= a.drop_first() + b);
        lemma_encode_utf8_concat(a.drop_first(), b);
        assert(encode_scalar((a + b)[0] as u32) + (encode_utf8(a.drop_first()) + encode_utf8(b))
            =~= encode_utf8(a) + encode_utf8(b));
    }
}

/// Appends the UTF-8 bytes of one character.
fn char_utf8_push(out: &mut Vec<u8>, c: char)
    ensures
        final(out)@ == old(out)@ + encode_scalar(c as u32),
{
    proof {
        vstd::utf8::char_is_scalar(c);
    }
    let v = c as u32;
    if v <= 0x7F {
        out.push((v & 0x7F) as u8);
    } else if v <= 0x7FF {
        out.push(0xC0 | ((v >> 6) & 0x1F) as u8);
        out.push(0x80 | (v & 0x3F) as u8);
    } else if v <= 0xFFFF {
        out.push(0xE0 | ((v >> 12) & 0x0F) as u8);
        out.push(0x80 | ((v >> 6) & 0x3F) as u8);
        out.push(0x80 | (v & 0x3F) as u8);
    } else {
        out.push(0xF0 | ((v >> 18) & 0x7) as u8);
        out.push(0x80 | ((v >> 12) & 0x3F) as u8);
        out.push(0x80 | ((v >> 6) & 0x3F) as u8);
        out.push(0x80 | (v & 0x3F) as u8);
    }
    proof {
        assert(out@ =~= old(out)@ + encode_scalar(c as u32));
    }
}

/// The encoding of a one-character sequence is that character's scalar
/// encoding.
proof fn lemma_encode_utf8_singleton(c: char)
    ensures
        encode_utf8(seq![c]) == encode_scalar(c as u32),
{
    assert(seq![c].drop_first() =~= Seq::<char>::empty());
    assert(encode_scalar(c as u32) + encode_utf8(Seq::<char>::empty()) =~= encode_scalar(
        c as u32,
    ));
}

/// Appends the decimal digits of `n` as ASCII bytes.
fn jpush_u64(out: &mut Vec<u8>, n: u64)
    ensures
        final(out)@ == old(out)@ + encode_utf8(dec_u64(n)),
    decreases n,
{
    if n < 10 {
        let c = digit_of(n);
        char_utf8_push(out, c);
        proof {
            lemma_encode_utf8_singleton(c);
            assert(out@ =~= old(out)@ + encode_utf8(dec_u64(n)));
        }
    } else {
        jpush_u64(out, n / 10);
        let c = digit_of(n % 10);
        char_utf8_push(out, c);
        proof {
            lemma_encode_utf8_concat(dec_u64(n / 10), seq![digit_char((n % 10) as int)]);
            lemma_encode_utf8_singleton(c);
            assert(out@ =~= old(out)@ + encode_utf8(dec_u64(n)));
        }
    }
}

/// The digit character of `d`, which must be below ten.
fn digit_of(d: u64) -> (c: char)
    requires
        d < 10,
    ensures
        c == digit_char(d as int),
        is_digit(c),
{
    if d == 0 {
        '0'
    } else if d == 1 {
        '1'
    } else if d == 2 {
        '2'
    } else if d == 3 {
        '3'
    } else if d == 4 {
        '4'
    } else if d == 5 {
        '5'
    } else if d == 6 {
        '6'
    } else if d == 7 {
        '7'
    } else if d == 8 {
        '8'
    } else {
        '9'
    }
}

/// Appends the escaped form of the characters of `s` from index `i` on.
/// Fails, appending nothing more, on a control character.
fn jpush_esc(out: &mut Vec<u8>, s: &str, n: usize, i: usize) -> (ok: bool)
    requires
        n == s@.len(),
        i <= n,
    ensures
        ok ==> final(out)@ == old(out)@ + encode_utf8(jesc(s@.skip(i as int)))
            && jesc_ok(s@.skip(i as int)),
        !ok ==> !jesc_ok(s@.skip(i as int)),
    decreases n - i,
{
    if i == n {
        proof {
            assert(s@.skip(i as int) =~= Seq::<char>::empty());
        }
        return true;
    }
    let c = s.get_char(i);
    if (c as u32) < 0x20 {
        proof {
            assert(s@.skip(i as int)[0] == c);
        }
        return false;
    }
    let ghost pre = out@;
    if c == '"' || c == '\\' {
        char_utf8_push(out, '\\');
        char_utf8_push(out, c);
    } else {
        char_utf8_push(out, c);
    }
    let ghost mid = out@;
    let ok = jpush_esc(out, s, n, i + 1);
    proof {
        let tail = s@.skip(i as int);
        assert(tail.drop_first() =~= s@.skip(i as int + 1));
        if ok {
            assert(mid =~= pre + encode_utf8(esc_char(c))) by {
                if c == '"' || c == '\\' {
                    assert(esc_char(c).drop_first() =~= seq![c]);
                    lemma_encode_utf8_singleton(c);
                } else {
                    lemma_encode_utf8_singleton(c);
                }
            }
            lemma_encode_utf8_concat(esc_char(c), jesc(tail.drop_first()));
            assert(out@ =~= pre + encode_utf8(jesc(tail)));
            assert forall|k: int| 0 <= k < tail.len() implies (#[trigger] tail[k] as u32)
                >= 0x20 by {
                if k > 0 {
                    assert(tail[k] == tail.drop_first()[k - 1]);
                }
            }
        } else {
            let bad = choose|k: int|
                0 <= k < tail.drop_first().len() && (#[trigger] tail.drop_first()[k] as u32)
                    < 0x20;
            assert(tail[bad + 1] == tail.drop_first()[bad]);
        }
    }
    ok
}

/// Appends the array items for the bytes of `p` from index `i` on.
fn jpush_items(out: &mut Vec<u8>, p: &Vec<u8>, i: usize)
    requires
        i <= p@.len(),
    ensures
        final(out)@ == old(out)@ + encode_utf8(jarr_body(p@.skip(i as int))),
    decreases p@.len() - i,
{
    if i >= p.len() {
        proof {
            assert(p@.skip(i as int) =~= Seq::<u8>::empty());
        }
        return ;
    }
    let ghost tail = p@.skip(i as int);
    jpush_u64(out, p[i] as u64);
    if i + 1 < p.len() {
        char_utf8_push(out, ',');
        let ghost mid = out@;
        jpush_items(out, p, i + 1);
        proof {
            assert(tail.drop_first() =~= p@.skip(i as int + 1));
            lemma_encode_utf8_singleton(',');
            lemma_encode_utf8_concat(dec_u64(p@[i as int] as u64), seq![',']);
            lemma_encode_utf8_concat(dec_u64(p@[i as int] as u64) + seq![','], jarr_body(
                tail.drop_first(),
            ));
            assert(out@ =~= old(out)@ + encode_utf8(jarr_body(tail)));
        }
    } else {
        proof {
            assert(tail.len() == 1);
            assert(tail[0] == p@[i as int]);
            assert(out@ =~= old(out)@ + encode_utf8(jarr_body(tail)));
        }
    }
}

/// Appends ASCII characters as their bytes; the helper behind the fixed
/// template pieces.
fn jpush_ascii(out: &mut Vec<u8>, piece: &[u8], Ghost(chars): Ghost<Seq<char>>)
    requires
        piece@.len() == chars.len(),
        vstd::utf8::is_ascii_chars(chars),
        forall|k: int| 0 <= k < chars.len() ==> piece@[k] == (#[trigger] chars[k] as u8),
    ensures
        final(out)@ == old(out)@ + encode_utf8(chars),
{
    out.extend_from_slice(piece);
    proof {
        is_ascii_chars_encode_utf8(chars);
        assert(out@ =~= old(out)@ + encode_utf8(chars));
    }
}

/// Serializes a request envelope as JSON bytes, or fails with a
/// `Serialization` error when the method holds a control character.
pub fn jenc_request_vec(req: &Request) -> (r: Result<Vec<u8>, Error>)
    ensures
        match jenc_request(req@) {
            Some(bs) => r matches Ok(o) && o@ == bs,
            None => r matches Err(e) && e matches Error::Serialization(_),
        },
{
    let mut out: Vec<u8> = Vec::new();
    jpush_ascii(&mut out, &[0x7B, 0x22, 0x69, 0x64, 0x22, 0x3A], Ghost(lit_obj_id()));
    jpush_u64(&mut out, req.id);
    jpush_ascii(
        &mut out,
        &[0x2C, 0x22, 0x6D, 0x65, 0x74, 0x68, 0x6F, 0x64, 0x22, 0x3A, 0x22],
        Ghost(lit_method()),
    );
    let n = req.method.as_str().unicode_len();
    let ok = jpush_esc(&mut out, req.method.as_str(), n, 0);
    proof {
        assert(req.method@.skip(0) =~= req.method@);
    }
    if !ok {
        return Err(Error::Serialization(String::from_str("string holds a control character")));
    }
    let ghost quote_payload: Seq<char> = seq!['"'] + lit_payload();
    jpush_ascii(
        &mut out,
        &[0x22, 0x2C, 0x22, 0x70, 0x61, 0x79, 0x6C, 0x6F, 0x61, 0x64, 0x22, 0x3A, 0x5B],
        Ghost(quote_payload),
    );
    jpush_items(&mut out, &req.payload, 0);
    let ghost close_obj: Seq<char> = seq![']', '}'];
    jpush_ascii(&mut out, &[0x5D, 0x7D], Ghost(close_obj));
    proof {
        let m = req@;
        let c1 = lit_obj_id();
        let c2 = dec_u64(m.id);
        let c3 = lit_method();
        let c4 = jesc(m.method);
        let c5 = seq!['"'];
        let c6 = lit_payload();
        let c7 = jarr_body(m.payload);
        let c8 = seq![']', '}'];
        assert(req.payload@.skip(0) =~= req.payload@);
        lemma_encode_utf8_concat(c5, c6);
        lemma_encode_utf8_concat(c1, c2);
        lemma_encode_utf8_concat(c1 + c2, c3);
        lemma_encode_utf8_concat(c1 + c2 + c3, c4);
        lemma_encode_utf8_concat(c1 + c2 + c3 + c4, c5);
        lemma_encode_utf8_concat(c1 + c2 + c3 + c4 + c5, c6);
        lemma_encode_utf8_concat(c1 + c2 + c3 + c4 + c5 + c6, c7);
        lemma_encode_utf8_concat(c1 + c2 + c3 + c4 + c5 + c6 + c7, c8);
        assert(out@ =~= encode_utf8(jenc_chars_request(m)));
    }
    Ok(out)
}

/// Serializes a response envelope as JSON bytes, or fails with a
/// `Serialization` error when the error text holds a control character.
pub fn jenc_response_vec(resp: &Response) -> (r: Result<Vec<u8>, Error>)
    requires
        resp@.wf(),
    ensures
        match jenc_response(resp@) {
            Some(bs) => r matches Ok(o) && o@ == bs,
            None => r matches Err(e) && e matches Error::Serialization(_),
        },
{
    let mut out: Vec<u8> = Vec::new();
    jpush_ascii(&mut out, &[0x7B, 0x22, 0x69, 0x64, 0x22, 0x3A], Ghost(lit_obj_id()));
    jpush_u64(&mut out, resp.id);
    match &resp.payload {
        Some(p) => {
            jpush_ascii(
                &mut out,
                &[0x2C, 0x22, 0x70, 0x61, 0x79, 0x6C, 0x6F, 0x61, 0x64, 0x22, 0x3A, 0x5B],
                Ghost(lit_payload()),
            );
            jpush_items(&mut out, p, 0);
            let ghost close_obj: Seq<char> = seq![']', '}'];
            jpush_ascii(&mut out, &[0x5D, 0x7D], Ghost(close_obj));
            proof {
                let m = resp@;
                let c1 = lit_obj_id();
                let c2 = dec_u64(m.id);
                let c3 = lit_payload();
                let c4 = jarr_body(m.payload->Some_0);
                let c5 = seq![']', '}'];
                assert(p@.skip(0) =~= p@);
                lemma_encode_utf8_concat(c1, c2);
                lemma_encode_utf8_concat(c1 + c2, c3);
                lemma_encode_utf8_concat(c1 + c2 + c3, c4);
                lemma_encode_utf8_concat(c1 + c2 + c3 + c4, c5);
                assert(out@ =~= encode_utf8(jenc_chars_response(m)));
            }
            Ok(out)
        },
        None => {
            let e = match &resp.error {
                Some(e) => e,
                None => {
                    proof {
                        assert(false);
                    }
                    return Err(Error::Serialization(String::new()));
                },
            };
            jpush_ascii(
                &mut out,
                &[0x2C, 0x22, 0x65, 0x72, 0x72, 0x6F, 0x72, 0x22, 0x3A, 0x22],
                Ghost(lit_error()),
            );
            let n = e.as_str().unicode_len();
            let ok = jpush_esc(&mut out, e.as_str(), n, 0);
            proof {
                assert(e@.skip(0) =~= e@);
            }
            if !ok {
                return Err(
                    Error::Serialization(String::from_str("string holds a control character")),
                );
            }
            let ghost close_str: Seq<char> = seq!['"', '}'];
            jpush_ascii(&mut out, &[0x22, 0x7D], Ghost(close_str));
            proof {
                let m = resp@;
                let c1 = lit_obj_id();
                let c2 = dec_u64(m.id);
                let c3 = lit_error();
                let c4 = jesc(m.error->Some_0);
                let c5 = seq!['"', '}'];
                lemma_encode_utf8_concat(c1, c2);
                lemma_encode_utf8_concat(c1 + c2, c3);
                lemma_encode_utf8_concat(c1 + c2 + c3, c4);
                lemma_encode_utf8_concat(c1 + c2 + c3 + c4, c5);
                assert(out@ =~= encode_utf8(jenc_chars_response(m)));
            }
            Ok(out)
        },
    }
}

/// The first index at or after `i` whose character is not a digit.
pub open spec fn digit_run_end(s: Seq<char>, i: int) -> int
    decreases s.len() - i,
{
    if 0 <= i < s.len() && is_digit(s[i]) {
        digit_run_end(s, i + 1)
    } else {
        i
    }
}

/// The number a sequence of digit characters spells, `None` when empty or
/// over 64 bits.
pub open spec fn numval(d: Seq<char>) -> Option<u64>
    decreases d.len(),
{
    if d.len() == 0 {
        None
    } else if d.len() == 1 {
        Some(digit_val(d[0]))
    } else {
        match numval(d.drop_last()) {
            None => None,
            Some(v) => {
                let last = digit_val(d.last());
                if v <= (u64::MAX - last) / 10 {
                    Some((v * 10 + last) as u64)
                } else {
                    None
                }
            },
        }
    }
}

/// Parses a decimal number at offset `i`: its value and the offset just
/// after its digits.
pub open spec fn jdec_u64(s: Seq<char>, i: int) -> Option<(u64, int)> {
    let e = digit_run_end(s, i);
    if e == i {
        None
    } else {
        match numval(s.subrange(i, e)) {
            None => None,
            Some(v) => Some((v, e)),
        }
    }
}

/// Parses string contents at offset `i`, the opening quote already
/// consumed, up to and including the closing quote: the unescaped
/// characters and the offset just after the quote.
pub open spec fn jdec_string(s: Seq<char>, i: int) -> Option<(Seq<char>, int)>
    decreases s.len() - i,
{
    if i < 0 || i >= s.len() {
        None
    } else if s[i] == '"' {
        Some((Seq::<char>::empty(), i + 1))
    } else if s[i] == '\\' {
        if i + 1 >= s.len() {
            None
        } else if s[i + 1] == '"' || s[i + 1] == '\\' {
            match jdec_string(s, i + 2) {
                None => None,
                Some((t, j)) => Some((seq![s[i + 1]] + t, j)),
            }
        } else {
            None
        }
    } else if (s[i] as u32) < 0x20 {
        None
    } else {
        match jdec_string(s, i + 1) {
            None => None,
            Some((t, j)) => Some((seq![s[i]] + t, j)),
        }
    }
}

/// Parses the items of a non-empty byte array at offset `i`, up to and
/// including the closing bracket.
pub open spec fn jdec_items(s: Seq<char>, i: int) -> Option<(Seq<u8>, int)>
    decreases s.len() - i,
{
    match jdec_u64(s, i) {
        None => None,
        Some((v, j)) => if !(i < j <= s.len()) || v > 255 {
            None
        } else if j < s.len() && s[j] == ']' {
            Some((seq![v as u8], j + 1))
        } else if j < s.len() && s[j] == ',' {
            match jdec_items(s, j + 1) {
                None => None,
                Some((t, k)) => Some((seq![v as u8] + t, k)),
            }
        } else {
            None
        },
    }
}

/// Parses a byte array at offset `i`, the opening bracket already consumed,
/// up to and including the closing bracket.
pub open spec fn jdec_array(s: Seq<char>, i: int) -> Option<(Seq<u8>, int)> {
    if 0 <= i < s.len() && s[i] == ']' {
        Some((Seq::<u8>::empty(), i + 1))
    } else {
        jdec_items(s, i)
    }
}

/// True when the characters of `lit` stand at offset `i` of `s`.
pub open spec fn has_lit(s: Seq<char>, i: int, lit: Seq<char>) -> bool {
    0 <= i && i + lit.len() <= s.len() && s.subrange(i, i + lit.len()) == lit
}

/// What a request envelope's characters parse to.
pub open spec fn jdec_chars_request(s: Seq<char>) -> Option<ReqModel> {
    if !has_lit(s, 0, lit_obj_id()) {
        None
    } else {
        match jdec_u64(s, lit_obj_id().len() as int) {
            None => None,
            Some((id, i1)) => if !has_lit(s, i1, lit_method()) {
                None
            } else {
                match jdec_string(s, i1 + lit_method().len()) {
                    None => None,
                    Some((method, i2)) => if !has_lit(s, i2, lit_payload()) {
                        None
                    } else {
                        match jdec_array(s, i2 + lit_payload().len()) {
                            None => None,
                            Some((payload, i3)) => if i3 < s.len() && s[i3] == '}' && i3 + 1
                                == s.len() {
                                Some(ReqModel { id, method, payload })
                            } else {
                                None
                            },
                        }
                    },
                }
            },
        }
    }
}

/// What a response envelope's characters parse to.
pub open spec fn jdec_chars_response(s: Seq<char>) -> Option<RespModel> {
    if !has_lit(s, 0, lit_obj_id()) {
        None
    } else {
        match jdec_u64(s, lit_obj_id().len() as int) {
            None => None,
            Some((id, i1)) => if has_lit(s, i1, lit_payload()) {
                match jdec_array(s, i1 + lit_payload().len()) {
                    None => None,
                    Some((payload, i2)) => if i2 < s.len() && s[i2] == '}' && i2 + 1 == s.len() {
                        Some(RespModel { id, payload: Some(payload), error: None })
                    } else {
                        None
                    },
                }
            } else if has_lit(s, i1, lit_error()) {
                match jdec_string(s, i1 + lit_error().len()) {
                    None => None,
                    Some((error, i2)) => if i2 < s.len() && s[i2] == '}' && i2 + 1 == s.len() {
                        Some(RespModel { id, payload: None, error: Some(error) })
                    } else {
                        None
                    },
                }
            } else {
                None
            },
        }
    }
}

/// What a request envelope's JSON bytes decode to. Bytes that are not UTF-8
/// are a decoder error.
pub open spec fn jdec_request(b: Seq<u8>) -> Option<ReqModel> {
    if valid_utf8(b) {
        jdec_chars_request(decode_utf8(b))
    } else {
        None
    }
}

/// What a response envelope's JSON bytes decode to.
pub open spec fn jdec_response(b: Seq<u8>) -> Option<RespModel> {
    if valid_utf8(b) {
        jdec_chars_response(decode_utf8(b))
    } else {
        None
    }
}

/// Every character of a number's decimal spelling is a digit.
pub proof fn lemma_dec_u64_digits(n: u64)
    ensures
        forall|k: int| 0 <= k < dec_u64(n).len() ==> is_digit(#[trigger] dec_u64(n)[k]),
    decreases n,
{
    if n < 10 {
    } else {
        lemma_dec_u64_digits(n / 10);
        let d = dec_u64(n);
        let front = dec_u64(n / 10);
        assert forall|k: int| 0 <= k < d.len() implies is_digit(#[trigger] d[k]) by {
            if k < front.len() {
                assert(d[k] == front[k]);
            }
        }
    }
}

/// A run of digits between `i` and `e`, not followed by another digit, ends
/// exactly at `e`.
proof fn lemma_run_end_of_digits(s: Seq<char>, i: int, e: int)
    requires
        0 <= i <= e <= s.len(),
        forall|k: int| i <= k < e ==> is_digit(#[trigger] s[k]),
        e == s.len() || !is_digit(s[e]),
    ensures
        digit_run_end(s, i) == e,
    decreases e - i,
{
    if i < e {
        lemma_run_end_of_digits(s, i + 1, e);
    }
}

/// The decimal spelling of a number spells that number.
pub proof fn lemma_numval_dec(n: u64)
    ensures
        numval(dec_u64(n)) == Some(n),
    decreases n,
{
    if n < 10 {
    } else {
        lemma_numval_dec(n / 10);
        let d = dec_u64(n);
        assert(d.drop_last() =~= dec_u64(n / 10));
        assert(d.last() == digit_char((n % 10) as int));
        let last = digit_val(d.last());
        assert(n / 10 <= (u64::MAX - last) / 10) by {
            lemma_fundamental_div_mod(n as int, 10);
            vstd::arithmetic::div_mod::lemma_div_is_ordered(
                10 * ((n / 10) as int),
                u64::MAX - last,
                10,
            );
            vstd::arithmetic::div_mod::lemma_div_multiples_vanish_fancy((n / 10) as int, 0, 10);
        }
        lemma_fundamental_div_mod(n as int, 10);
    }
}

/// Parsing a number whose decimal spelling stands at offset `i`, followed
/// by something that is not a digit, yields that number.
proof fn lemma_jdec_u64_at(s: Seq<char>, i: int, n: u64)
    requires
        0 <= i,
        i + dec_u64(n).len() <= s.len(),
        s.subrange(i, i + dec_u64(n).len()) == dec_u64(n),
        i + dec_u64(n).len() == s.len() || !is_digit(s[i + dec_u64(n).len()]),
    ensures
        jdec_u64(s, i) == Some((n, i + dec_u64(n).len())),
{
    let d = dec_u64(n);
    let e = i + d.len();
    lemma_dec_u64_digits(n);
    assert forall|k: int| i <= k < e implies is_digit(#[trigger] s[k]) by {
        assert(s[k] == d[k - i]);
        assert(is_digit(d[k - i]));
    }
    lemma_run_end_of_digits(s, i, e);
    lemma_numval_dec(n);
    assert(numval(s.subrange(i, e)) == Some(n));
}

/// Parsing string contents where an escaped string stands, followed by the
/// closing quote, yields the unescaped characters.
proof fn lemma_jdec_string_at(s: Seq<char>, i: int, m: Seq<char>)
    requires
        jesc_ok(m),
        0 <= i,
        i + jesc(m).len() + 1 <= s.len(),
        s.subrange(i, i + jesc(m).len()) == jesc(m),
        s[i + jesc(m).len()] == '"',
    ensures
        jdec_string(s, i) == Some((m, i + jesc(m).len() + 1)),
    decreases m.len(),
{
    let w = jesc(m);
    assert(forall|k: int| 0 <= k < w.len() ==> s[i + k] == #[trigger] w[k]);
    if m.len() == 0 {
        assert(s[i] == '"');
    } else {
        let c = m[0];
        let rest = m.drop_first();
        let ec = esc_char(c);
        let wr = jesc(rest);
        assert(forall|k: int| 0 <= k < wr.len() ==> w[ec.len() + k] == #[trigger] wr[k]);
        assert(jesc_ok(rest)) by {
            assert(forall|k: int|
                0 <= k < rest.len() ==> (#[trigger] rest[k] as u32) == (m[k + 1] as u32));
        }
        let i2 = i + ec.len();
        assert(s.subrange(i2, i2 + wr.len()) =~= wr);
        assert((m[0] as u32) >= 0x20);
        if c == '"' || c == '\\' {
            assert(s[i] == w[0]);
            assert(w[0] == '\\');
            assert(s[i + 1] == w[1]);
            assert(w[1] == c);
            lemma_jdec_string_at(s, i + 2, rest);
            assert(seq![s[i + 1]] + rest =~= m);
        } else {
            assert(s[i] == w[0]);
            assert(w[0] == c);
            lemma_jdec_string_at(s, i + 1, rest);
            assert(seq![s[i]] + rest =~= m);
        }
    }
}

/// Parsing array items where a non-empty array body stands, followed by
/// the closing bracket, yields those bytes.
proof fn lemma_jdec_items_at(s: Seq<char>, i: int, p: Seq<u8>)
    requires
        p.len() >= 1,
        0 <= i,
        i + jarr_body(p).len() + 1 <= s.len(),
        s.subrange(i, i + jarr_body(p).len()) == jarr_body(p),
        s[i + jarr_body(p).len()] == ']',
    ensures
        jdec_items(s, i) == Some((p, i + jarr_body(p).len() + 1)),
    decreases p.len(),
{
    let w = jarr_body(p);
    assert(forall|k: int| 0 <= k < w.len() ==> s[i + k] == #[trigger] w[k]);
    let d = dec_u64(p[0] as u64);
    let j = i + d.len();
    if p.len() == 1 {
        assert(s.subrange(i, j) =~= d);
        lemma_jdec_u64_at(s, i, p[0] as u64);
        assert(s[j] == ']');
        assert(seq![p[0]] =~= p);
    } else {
        let rest = p.drop_first();
        let wr = jarr_body(rest);
        assert(forall|k: int| 0 <= k < wr.len() ==> w[d.len() + 1 + k] == #[trigger] wr[k]);
        assert(s.subrange(i, j) =~= d);
        assert(s[j] == ',') by {
            assert(w[d.len() as int] == ',');
        }
        lemma_jdec_u64_at(s, i, p[0] as u64);
        assert(s.subrange(j + 1, j + 1 + wr.len()) =~= wr);
        assert(s[j + 1 + wr.len()] == ']');
        lemma_jdec_items_at(s, j + 1, rest);
        assert(seq![p[0]] + rest =~= p);
    }
}

/// Decoding an encoded request envelope yields the request back.
pub proof fn lemma_json_request_roundtrip(m: ReqModel)
    ensures
        jenc_request(m) matches Some(b) ==> jdec_request(b) == Some(m),
{
    if jesc_ok(m.method) {
        let s = jenc_chars_request(m);
        let b = encode_utf8(s);
        vstd::utf8::encode_utf8_valid_utf8(s);
        vstd::utf8::encode_utf8_decode_utf8(s);

        let c1 = lit_obj_id();
        let c2 = dec_u64(m.id);
        let c3 = lit_method();
        let c4 = jesc(m.method);
        let c6 = lit_payload();
        let c7 = jarr_body(m.payload);
        let i1: int = 6 + c2.len() as int;
        let i15: int = i1 + 11;
        let i2: int = i15 + c4.len() as int + 1;
        let i25: int = i2 + 12;
        let i3: int = i25 + c7.len() as int + 1;

        assert(s.len() == i3 + 1);
        assert(s.subrange(0int, 6int) =~= c1);
        assert(has_lit(s, 0, lit_obj_id()));

        assert(s.subrange(6int, 6 + c2.len() as int) =~= c2);
        assert(s[6 + c2.len() as int] == ',');
        lemma_jdec_u64_at(s, 6, m.id);

        assert(s.subrange(i1, i1 + 11) =~= c3);
        assert(has_lit(s, i1, lit_method()));

        assert(s.subrange(i15, i15 + c4.len()) =~= c4);
        assert(s[i15 + c4.len()] == '"');
        lemma_jdec_string_at(s, i15, m.method);

        assert(s.subrange(i2, i2 + 12) =~= c6);
        assert(has_lit(s, i2, lit_payload()));

        if m.payload.len() == 0 {
            assert(c7.len() == 0);
            assert(s[i25] == ']');
            assert(jdec_array(s, i25) == Some((Seq::<u8>::empty(), i25 + 1)));
            assert(jdec_array(s, i25) == Some((m.payload, i3)));
        } else {
            assert(s.subrange(i25, i25 + c7.len()) =~= c7);
            assert(s[i25 + c7.len()] == ']');
            lemma_jdec_items_at(s, i25, m.payload);
            assert(s[i25] == c7[0]);
            lemma_dec_u64_digits(m.payload[0] as u64);
            assert(is_digit(c7[0])) by {
                assert(c7[0] == dec_u64(m.payload[0] as u64)[0]);
            }
            assert(s[i25] != ']');
        }

        assert(s[i3] == '}');
        assert(jdec_chars_request(s) == Some(
            ReqModel { id: m.id, method: m.method, payload: m.payload },
        ));
        assert(ReqModel { id: m.id, method: m.method, payload: m.payload } =~= m);
    }
}

/// Decoding an encoded well-formed response envelope yields the response
/// back.
pub proof fn lemma_json_response_roundtrip(m: RespModel)
    requires
        m.wf(),
    ensures
        jenc_response(m) matches Some(b) ==> jdec_response(b) == Some(m),
{
    let s = jenc_chars_response(m);
    let c1 = lit_obj_id();
    let c2 = dec_u64(m.id);
    let i1: int = 6 + c2.len() as int;
    match m.payload {
        Some(p) => {
            let b = encode_utf8(s);
            vstd::utf8::encode_utf8_valid_utf8(s);
            vstd::utf8::encode_utf8_decode_utf8(s);
            let c7 = jarr_body(p);
            let i15: int = i1 + 12;
            let i2: int = i15 + c7.len() as int + 1;
            assert(s.len() == i2 + 1);
            assert(s.subrange(0int, 6int) =~= c1);
            assert(has_lit(s, 0, lit_obj_id()));
            assert(s.subrange(6int, 6 + c2.len() as int) =~= c2);
            assert(s[6 + c2.len() as int] == ',');
            lemma_jdec_u64_at(s, 6, m.id);
            assert(s.subrange(i1, i1 + 12) =~= lit_payload());
            assert(has_lit(s, i1, lit_payload()));
            if p.len() == 0 {
                assert(c7.len() == 0);
                assert(s[i15] == ']');
                assert(jdec_array(s, i15) == Some((p, i2)));
            } else {
                assert(s.subrange(i15, i15 + c7.len()) =~= c7);
                assert(s[i15 + c7.len()] == ']');
                lemma_jdec_items_at(s, i15, p);
                assert(s[i15] == c7[0]);
                lemma_dec_u64_digits(p[0] as u64);
                assert(is_digit(c7[0])) by {
                    assert(c7[0] == dec_u64(p[0] as u64)[0]);
                }
                assert(s[i15] != ']');
            }
            assert(s[i2] == '}');
            assert(jdec_chars_response(s) == Some(
                RespModel { id: m.id, payload: Some(p), error: None },
            ));
            assert(RespModel { id: m.id, payload: Some(p), error: None } =~= m);
        },
        None => {
            let e = m.error->Some_0;
            if jesc_ok(e) {
                let b = encode_utf8(s);
                vstd::utf8::encode_utf8_valid_utf8(s);
                vstd::utf8::encode_utf8_decode_utf8(s);
                let c4 = jesc(e);
                let i15: int = i1 + 10;
                let i2: int = i15 + c4.len() as int + 1;
                assert(s.len() == i2 + 1);
                assert(s.subrange(0int, 6int) =~= c1);
                assert(has_lit(s, 0, lit_obj_id()));
                assert(s.subrange(6int, 6 + c2.len() as int) =~= c2);
                assert(s[6 + c2.len() as int] == ',');
                lemma_jdec_u64_at(s, 6, m.id);
                assert(s.subrange(i1, i1 + 10) =~= lit_error());
                assert(has_lit(s, i1, lit_error()));
                assert(!has_lit(s, i1, lit_payload())) by {
                    if has_lit(s, i1, lit_payload()) {
                        assert(s.subrange(i1, i1 + 12)[2] == 'p');
                        assert(s.subrange(i1, i1 + 10)[2] == 'e');
                    }
                }
                assert(s.subrange(i15, i15 + c4.len()) =~= c4);
                assert(s[i15 + c4.len()] == '"');
                lemma_jdec_string_at(s, i15, e);
                assert(s[i2] == '}');
                assert(jdec_chars_response(s) == Some(
                    RespModel { id: m.id, payload: None, error: Some(e) },
                ));
                assert(RespModel { id: m.id, payload: None, error: Some(e) } =~= m);
            }
        },
    }
}

/// Decides [`is_digit`].
fn is_digit_read(c: char) -> (r: bool)
    ensures
        r == is_digit(c),
{
    c == '0' || c == '1' || c == '2' || c == '3' || c == '4' || c == '5' || c == '6' || c == '7'
        || c == '8' || c == '9'
}

/// Computes [`digit_val`].
fn digit_val_read(c: char) -> (r: u64)
    ensures
        r == digit_val(c),
{
    if c == '0' {
        0
    } else if c == '1' {
        1
    } else if c == '2' {
        2
    } else if c == '3' {
        3
    } else if c == '4' {
        4
    } else if c == '5' {
        5
    } else if c == '6' {
        6
    } else if c == '7' {
        7
    } else if c == '8' {
        8
    } else if c == '9' {
        9
    } else {
        0
    }
}

/// Finds the end of the digit run starting at `i`, exactly as
/// [`digit_run_end`] describes.
fn run_end_read(s: &str, n: usize, i: usize) -> (e: usize)
    requires
        n == s@.len(),
        i <= n,
    ensures
        e as int == digit_run_end(s@, i as int),
        i <= e <= n,
    decreases n - i,
{
    if i < n {
        let c = s.get_char(i);
        if is_digit_read(c) {
            return run_end_read(s, n, i + 1);
        }
    }
    i
}

/// Computes [`numval`] of the characters between `i` and `e`.
fn numval_read(s: &str, n: usize, i: usize, e: usize) -> (r: Option<u64>)
    requires
        n == s@.len(),
        i <= e <= n,
    ensures
        r == numval(s@.subrange(i as int, e as int)),
    decreases e,
{
    if e == i {
        return None;
    }
    if e - i == 1 {
        let c = s.get_char(i);
        return Some(digit_val_read(c));
    }
    proof {
        assert(s@.subrange(i as int, e as int).drop_last() =~= s@.subrange(
            i as int,
            e as int - 1,
        ));
    }
    match numval_read(s, n, i, e - 1) {
        None => None,
        Some(v) => {
            let c = s.get_char(e - 1);
            let last = digit_val_read(c);
            if v <= (u64::MAX - last) / 10 {
                proof {
                    vstd::arithmetic::mul::lemma_mul_inequality(
                        v as int,
                        ((u64::MAX - last) / 10) as int,
                        10,
                    );
                    lemma_fundamental_div_mod((u64::MAX - last) as int, 10);
                }
                Some(v * 10 + last)
            } else {
                None
            }
        },
    }
}

/// Parses a decimal number at offset `i`, exactly as [`jdec_u64`]
/// describes.
fn jdec_u64_read(s: &str, n: usize, i: usize) -> (r: Option<(u64, usize)>)
    requires
        n == s@.len(),
        i <= n,
    ensures
        match r {
            Some((v, j)) => jdec_u64(s@, i as int) == Some((v, j as int)) && i < j <= n,
            None => jdec_u64(s@, i as int) is None,
        },
{
    let e = run_end_read(s, n, i);
    if e == i {
        return None;
    }
    match numval_read(s, n, i, e) {
        None => None,
        Some(v) => Some((v, e)),
    }
}

/// Parses string contents at offset `i`, appending the UTF-8 bytes of the
/// unescaped characters to `acc`, exactly as [`jdec_string`] describes.
fn jdec_string_read(s: &str, n: usize, i: usize, acc: Vec<u8>) -> (r: Option<(Vec<u8>, usize)>)
    requires
        n == s@.len(),
        i <= n,
    ensures
        match jdec_string(s@, i as int) {
            Some((t, j)) => r matches Some(pr) && pr.1 as int == j && pr.0@ == acc@ + encode_utf8(
                t,
            ) && i < pr.1 <= n,
            None => r is None,
        },
    decreases n - i,
{
    if i == n {
        return None;
    }
    let c = s.get_char(i);
    if c == '"' {
        proof {
            assert(acc@ =~= acc@ + encode_utf8(Seq::<char>::empty()));
        }
        return Some((acc, i + 1));
    }
    if c == '\\' {
        if i + 1 >= n {
            return None;
        }
        let e = s.get_char(i + 1);
        if e == '"' || e == '\\' {
            let mut acc2 = acc;
            let ghost acc0 = acc2@;
            char_utf8_push(&mut acc2, e);
            let r = jdec_string_read(s, n, i + 2, acc2);
            proof {
                match jdec_string(s@, i as int + 2) {
                    Some((t, j)) => {
                        lemma_encode_utf8_singleton(e);
                        lemma_encode_utf8_concat(seq![e], t);
                    },
                    None => {},
                }
            }
            return r;
        }
        return None;
    }
    if (c as u32) < 0x20 {
        return None;
    }
    let mut acc2 = acc;
    let ghost acc0 = acc2@;
    char_utf8_push(&mut acc2, c);
    let r = jdec_string_read(s, n, i + 1, acc2);
    proof {
        match jdec_string(s@, i as int + 1) {
            Some((t, j)) => {
                lemma_encode_utf8_singleton(c);
                lemma_encode_utf8_concat(seq![c], t);
            },
            None => {},
        }
    }
    r
}

/// Parses the items of a non-empty byte array at offset `i`, appending them
/// to `acc`, exactly as [`jdec_items`] describes.
fn jdec_items_read(s: &str, n: usize, i: usize, acc: Vec<u8>) -> (r: Option<(Vec<u8>, usize)>)
    requires
        n == s@.len(),
        i <= n,
    ensures
        match jdec_items(s@, i as int) {
            Some((t, k)) => r matches Some(pr) && pr.1 as int == k && pr.0@ == acc@ + t && pr.1
                <= n,
            None => r is None,
        },
    decreases n - i,
{
    match jdec_u64_read(s, n, i) {
        None => None,
        Some((v, j)) => {
            if v > 255 {
                return None;
            }
            if j < n {
                let c = s.get_char(j);
                if c == ']' {
                    let mut acc2 = acc;
                    acc2.push(v as u8);
                    proof {
                        assert(acc2@ =~= acc@ + seq![v as u8]);
                    }
                    return Some((acc2, j + 1));
                }
                if c == ',' {
                    let mut acc2 = acc;
                    acc2.push(v as u8);
                    let r = jdec_items_read(s, n, j + 1, acc2);
                    proof {
                        match jdec_items(s@, j as int + 1) {
                            Some((t, k)) => {
                                assert(acc2@ + t =~= acc@ + (seq![v as u8] + t));
                            },
                            None => {},
                        }
                    }
                    return r;
                }
                return None;
            }
            None
        },
    }
}

/// Parses a byte array at offset `i`, exactly as [`jdec_array`] describes.
fn jdec_array_read(s: &str, n: usize, i: usize) -> (r: Option<(Vec<u8>, usize)>)
    requires
        n == s@.len(),
        i <= n,
    ensures
        match jdec_array(s@, i as int) {
            Some((t, k)) => r matches Some(pr) && pr.1 as int == k && pr.0@ == t && pr.1 <= n,
            None => r is None,
        },
{
    if i < n {
        let c = s.get_char(i);
        if c == ']' {
            let empty: Vec<u8> = Vec::new();
            return Some((empty, i + 1));
        }
    }
    let r = jdec_items_read(s, n, i, Vec::new());
    proof {
        match jdec_items(s@, i as int) {
            Some((t, k)) => {
                assert(Seq::<u8>::empty() + t =~= t);
            },
            None => {},
        }
    }
    r
}

/// Decides whether [`lit_obj_id`] stands at offset `i`.
fn match_obj_id(s: &str, n: usize, i: usize) -> (r: bool)
    requires
        n == s@.len(),
        i <= n,
    ensures
        r == has_lit(s@, i as int, lit_obj_id()),
{
    if n - i < 6 {
        return false;
    }
    let c0 = s.get_char(i);
    let c1 = s.get_char(i + 1);
    let c2 = s.get_char(i + 2);
    let c3 = s.get_char(i + 3);
    let c4 = s.get_char(i + 4);
    let c5 = s.get_char(i + 5);
    let r = c0 == '{' && c1 == '"' && c2 == 'i' && c3 == 'd' && c4 == '"' && c5 == ':';
    proof {
        let sub = s@.subrange(i as int, i as int + 6);
        if r {
            assert(sub =~= lit_obj_id());
        }
        if sub == lit_obj_id() {
            assert(c0 == sub[0] && c1 == sub[1] && c2 == sub[2] && c3 == sub[3] && c4 == sub[4]
                && c5 == sub[5]);
        }
    }
    r
}

/// Decides whether [`lit_method`] stands at offset `i`.
fn match_method(s: &str, n: usize, i: usize) -> (r: bool)
    requires
        n == s@.len(),
        i <= n,
    ensures
        r == has_lit(s@, i as int, lit_method()),
{
    if n - i < 11 {
        return false;
    }
    let c0 = s.get_char(i);
    let c1 = s.get_char(i + 1);
    let c2 = s.get_char(i + 2);
    let c3 = s.get_char(i + 3);
    let c4 = s.get_char(i + 4);
    let c5 = s.get_char(i + 5);
    let c6 = s.get_char(i + 6);
    let c7 = s.get_char(i + 7);
    let c8 = s.get_char(i + 8);
    let c9 = s.get_char(i + 9);
    let c10 = s.get_char(i + 10);
    let r = c0 == ',' && c1 == '"' && c2 == 'm' && c3 == 'e' && c4 == 't' && c5 == 'h' && c6
        == 'o' && c7 == 'd' && c8 == '"' && c9 == ':' && c10 == '"';
    proof {
        let sub = s@.subrange(i as int, i as int + 11);
        if r {
            assert(sub =~= lit_method());
        }
        if sub == lit_method() {
            assert(c0 == sub[0] && c1 == sub[1] && c2 == sub[2] && c3 == sub[3] && c4 == sub[4]
                && c5 == sub[5] && c6 == sub[6] && c7 == sub[7] && c8 == sub[8] && c9 == sub[9]
                && c10 == sub[10]);
        }
    }
    r
}

/// Decides whether [`lit_payload`] stands at offset `i`.
fn match_payload(s: &str, n: usize, i: usize) -> (r: bool)
    requires
        n == s@.len(),
        i <= n,
    ensures
        r == has_lit(s@, i as int, lit_payload()),
{
    if n - i < 12 {
        return false;
    }
    let c0 = s.get_char(i);
    let c1 = s.get_char(i + 1);
    let c2 = s.get_char(i + 2);
    let c3 = s.get_char(i + 3);
    let c4 = s.get_char(i + 4);
    let c5 = s.get_char(i + 5);
    let c6 = s.get_char(i + 6);
    let c7 = s.get_char(i + 7);
    let c8 = s.get_char(i + 8);
    let c9 = s.get_char(i + 9);
    let c10 = s.get_char(i + 10);
    let c11 = s.get_char(i + 11);
    let r = c0 == ',' && c1 == '"' && c2 == 'p' && c3 == 'a' && c4 == 'y' && c5 == 'l' && c6
        == 'o' && c7 == 'a' && c8 == 'd' && c9 == '"' && c10 == ':' && c11 == '[';
    proof {
        let sub = s@.subrange(i as int, i as int + 12);
        if r {
            assert(sub =~= lit_payload());
        }
        if sub == lit_payload() {
            assert(c0 == sub[0] && c1 == sub[1] && c2 == sub[2] && c3 == sub[3] && c4 == sub[4]
                && c5 == sub[5] && c6 == sub[6] && c7 == sub[7] && c8 == sub[8] && c9 == sub[9]
                && c10 == sub[10] && c11 == sub[11]);
        }
    }
    r
}

/// Decides whether [`lit_error`] stands at offset `i`.
fn match_error(s: &str, n: usize, i: usize) -> (r: bool)
    requires
        n == s@.len(),
        i <= n,
    ensures
        r == has_lit(s@, i as int, lit_error()),
{
    if n - i < 10 {
        return false;
    }
    let c0 = s.get_char(i);
    let c1 = s.get_char(i + 1);
    let c2 = s.get_char(i + 2);
    let c3 = s.get_char(i + 3);
    let c4 = s.get_char(i + 4);
    let c5 = s.get_char(i + 5);
    let c6 = s.get_char(i + 6);
    let c7 = s.get_char(i + 7);
    let c8 = s.get_char(i + 8);
    let c9 = s.get_char(i + 9);
    let r = c0 == ',' && c1 == '"' && c2 == 'e' && c3 == 'r' && c4 == 'r' && c5 == 'o' && c6
        == 'r' && c7 == '"' && c8 == ':' && c9 == '"';
    proof {
        let sub = s@.subrange(i as int, i as int + 10);
        if r {
            assert(sub =~= lit_error());
        }
        if sub == lit_error() {
            assert(c0 == sub[0] && c1 == sub[1] && c2 == sub[2] && c3 == sub[3] && c4 == sub[4]
                && c5 == sub[5] && c6 == sub[6] && c7 == sub[7] && c8 == sub[8] && c9 == sub[9]);
        }
    }
    r
}

/// Parses a request envelope from JSON bytes, exactly as [`jdec_request`]
/// describes.
pub fn jdec_request_vec(b: &Vec<u8>) -> (r: Option<Request>)
    ensures
        crate::proto::opt_req_model(r) == jdec_request(b@),
{
    let st = match string_from_utf8(b.clone()) {
        Some(st) => st,
        None => {
            return None;
        },
    };
    let s = st.as_str();
    let n = s.unicode_len();
    if !match_obj_id(s, n, 0) {
        return None;
    }
    let (id, i1) = match jdec_u64_read(s, n, 6) {
        Some(p) => p,
        None => {
            return None;
        },
    };
    if !match_method(s, n, i1) {
        return None;
    }
    let (mbytes, i2) = match jdec_string_read(s, n, i1 + 11, Vec::new()) {
        Some(p) => p,
        None => {
            return None;
        },
    };
    let ghost t = jdec_string(s@, i1 as int + 11)->Some_0.0;
    proof {
        vstd::utf8::encode_utf8_valid_utf8(t);
        vstd::utf8::encode_utf8_decode_utf8(t);
        assert(mbytes@ =~= encode_utf8(t));
    }
    let method = match string_from_utf8(mbytes) {
        Some(m) => m,
        None => {
            proof {
                assert(false);
            }
            return None;
        },
    };
    if !match_payload(s, n, i2) {
        return None;
    }
    let (payload, i3) = match jdec_array_read(s, n, i2 + 12) {
        Some(p) => p,
        None => {
            return None;
        },
    };
    if i3 < n {
        let c = s.get_char(i3);
        if c == '}' && i3 + 1 == n {
            return Some(Request { id, method, payload });
        }
    }
    None
}

/// Parses a response envelope from JSON bytes, exactly as [`jdec_response`]
/// describes.
pub fn jdec_response_vec(b: &Vec<u8>) -> (r: Option<Response>)
    ensures
        crate::proto::opt_resp_model(r) == jdec_response(b@),
{
    let st = match string_from_utf8(b.clone()) {
        Some(st) => st,
        None => {
            return None;
        },
    };
    let s = st.as_str();
    let n = s.unicode_len();
    if !match_obj_id(s, n, 0) {
        return None;
    }
    let (id, i1) = match jdec_u64_read(s, n, 6) {
        Some(p) => p,
        None => {
            return None;
        },
    };
    if match_payload(s, n, i1) {
        let (payload, i2) = match jdec_array_read(s, n, i1 + 12) {
            Some(p) => p,
            None => {
                return None;
            },
        };
        if i2 < n {
            let c = s.get_char(i2);
            if c == '}' && i2 + 1 == n {
                return Some(Response { id, payload: Some(payload), error: None });
            }
        }
        return None;
    }
    if match_error(s, n, i1) {
        let (ebytes, i2) = match jdec_string_read(s, n, i1 + 10, Vec::new()) {
            Some(p) => p,
            None => {
                return None;
            },
        };
        let ghost t = jdec_string(s@, i1 as int + 10)->Some_0.0;
        proof {
            vstd::utf8::encode_utf8_valid_utf8(t);
            vstd::utf8::encode_utf8_decode_utf8(t);
            assert(ebytes@ =~= encode_utf8(t));
        }
        let error = match string_from_utf8(ebytes) {
            Some(m) => m,
            None => {
                proof {
                    assert(false);
                }
                return None;
            },
        };
        if i2 < n {
            let c = s.get_char(i2);
            if c == '}' && i2 + 1 == n {
                return Some(Response { id, payload: None, error: Some(error) });
            }
        }
        return None;
    }
    None
}

} // verus!
