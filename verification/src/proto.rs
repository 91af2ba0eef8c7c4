//! The binary envelope encoding, in the protobuf wire style: each field is a
//! tag byte (field number and wire type) followed by a varint or a
//! length-delimited chunk.
//!
//! A request carries field 1 (`id`, varint), field 2 (`method`, UTF-8
//! bytes) and field 3 (`payload`, bytes); the encoder always writes all
//! three, in order. A response carries field 1 (`id`, varint) and exactly
//! one of field 2 (`payload`, bytes) or field 3 (`error`, UTF-8 bytes).
//! The decoder accepts fields in any order, treats missing fields as their
//! defaults, skips unknown fields, and rejects a response with neither
//! payload nor error.
use vstd::prelude::*;

use crate::strbytes::string_from_utf8;
use crate::varint::vdec;
use crate::varint::vdec_read;
use crate::varint::venc;
use crate::varint::venc_push;
use crate::wire::ReqModel;
use crate::wire::Request;
use crate::wire::RespModel;
use crate::wire::Response;
use vstd::slice::slice_subrange;
use vstd::slice::slice_to_vec;
use vstd::string::StrSliceExecFns;
use vstd::utf8::decode_utf8;
use vstd::utf8::encode_utf8;
use vstd::utf8::valid_utf8;

verus! {

/// The binary encoding of a request envelope.
pub open spec fn penc_request(m: ReqModel) -> Seq<u8> {
    let u = encode_utf8(m.method);
    seq![0x08u8] + venc(m.id) + seq![0x12u8] + venc(u.len() as u64) + u + seq![0x1Au8] + venc(
        m.payload.len() as u64,
    ) + m.payload
}

/// The binary encoding of a response envelope.
pub open spec fn penc_response(m: RespModel) -> Seq<u8>
    recommends
        m.wf(),
{
    seq![0x08u8] + venc(m.id) + (match m.payload {
        Some(p) => seq![0x12u8] + venc(p.len() as u64) + p,
        None => Seq::<u8>::empty(),
    }) + (match m.error {
        Some(e) => {
            let u = encode_utf8(e);
            seq![0x1Au8] + venc(u.len() as u64) + u
        },
        None => Seq::<u8>::empty(),
    })
}

/// Parses a length-delimited chunk at offset `i`: its bytes and the offset
/// just after them.
pub open spec fn vdec_chunk(b: Seq<u8>, i: int) -> Option<(Seq<u8>, int)> {
    match vdec(b, i) {
        None => None,
        Some((n, j)) => if j + n <= b.len() {
            Some((b.subrange(j, j + n), j + n))
        } else {
            None
        },
    }
}

/// The offset just after a field of the given wire type at offset `i`, for
/// fields the decoder does not know: varints, 64-bit and 32-bit scalars and
/// length-delimited chunks are skipped, anything else is an error.
pub open spec fn pskip(b: Seq<u8>, i: int, wire: u64) -> Option<int> {
    if wire == 0 {
        match vdec(b, i) {
            None => None,
            Some((v, j)) => Some(j),
        }
    } else if wire == 1 {
        if i + 8 <= b.len() {
            Some(i + 8)
        } else {
            None
        }
    } else if wire == 2 {
        match vdec_chunk(b, i) {
            None => None,
            Some((d, j)) => Some(j),
        }
    } else if wire == 5 {
        if i + 4 <= b.len() {
            Some(i + 4)
        } else {
            None
        }
    } else {
        None
    }
}

/// Folds the fields of a request envelope from offset `i` over the values
/// accumulated so far. Later occurrences of a field replace earlier ones.
pub open spec fn pdec_req_fields(b: Seq<u8>, i: int, acc: ReqModel) -> Option<ReqModel>
    decreases b.len() - i,
{
    if i == b.len() {
        Some(acc)
    } else {
        match vdec(b, i) {
            None => None,
            Some((tag, j)) => if !(i < j <= b.len()) {
                None
            } else if tag / 8 == 1 && tag % 8 == 0 {
                match vdec(b, j) {
                    None => None,
                    Some((v, k)) => if j < k <= b.len() {
                        pdec_req_fields(b, k, ReqModel { id: v, ..acc })
                    } else {
                        None
                    },
                }
            } else if tag / 8 == 2 && tag % 8 == 2 {
                match vdec_chunk(b, j) {
                    None => None,
                    Some((d, k)) => if j < k <= b.len() && valid_utf8(d) {
                        pdec_req_fields(b, k, ReqModel { method: decode_utf8(d), ..acc })
                    } else {
                        None
                    },
                }
            } else if tag / 8 == 3 && tag % 8 == 2 {
                match vdec_chunk(b, j) {
                    None => None,
                    Some((d, k)) => if j < k <= b.len() {
                        pdec_req_fields(b, k, ReqModel { payload: d, ..acc })
                    } else {
                        None
                    },
                }
            } else {
                match pskip(b, j, tag % 8) {
                    None => None,
                    Some(k) => if j <= k <= b.len() {
                        pdec_req_fields(b, k, acc)
                    } else {
                        None
                    },
                }
            },
        }
    }
}

/// Folds the fields of a response envelope from offset `i` over the values
/// accumulated so far.
pub open spec fn pdec_resp_fields(b: Seq<u8>, i: int, acc: RespModel) -> Option<RespModel>
    decreases b.len() - i,
{
    if i == b.len() {
        if acc.payload is None && acc.error is None {
            None
        } else {
            Some(acc)
        }
    } else {
        match vdec(b, i) {
            None => None,
            Some((tag, j)) => if !(i < j <= b.len()) {
                None
            } else if tag / 8 == 1 && tag % 8 == 0 {
                match vdec(b, j) {
                    None => None,
                    Some((v, k)) => if j < k <= b.len() {
                        pdec_resp_fields(b, k, RespModel { id: v, ..acc })
                    } else {
                        None
                    },
                }
            } else if tag / 8 == 2 && tag % 8 == 2 {
                match vdec_chunk(b, j) {
                    None => None,
                    Some((d, k)) => if j < k <= b.len() {
                        pdec_resp_fields(b, k, RespModel { payload: Some(d), ..acc })
                    } else {
                        None
                    },
                }
            } else if tag / 8 == 3 && tag % 8 == 2 {
                match vdec_chunk(b, j) {
                    None => None,
                    Some((d, k)) => if j < k <= b.len() && valid_utf8(d) {
                        pdec_resp_fields(b, k, RespModel { error: Some(decode_utf8(d)), ..acc })
                    } else {
                        None
                    },
                }
            } else {
                match pskip(b, j, tag % 8) {
                    None => None,
                    Some(k) => if j <= k <= b.len() {
                        pdec_resp_fields(b, k, acc)
                    } else {
                        None
                    },
                }
            },
        }
    }
}

/// A response the field fold accepts always carries a payload or an error.
pub proof fn lemma_pdec_resp_fields_present(b: Seq<u8>, i: int, acc: RespModel)
    requires
        pdec_resp_fields(b, i, acc) is Some,
    ensures
        pdec_resp_fields(b, i, acc)->Some_0.payload is Some || pdec_resp_fields(
            b,
            i,
            acc,
        )->Some_0.error is Some,
    decreases b.len() - i,
{
    if i == b.len() {
    } else {
        match vdec(b, i) {
            None => {},
            Some((tag, j)) => {
                if !(i < j <= b.len()) {
                } else if tag / 8 == 1 && tag % 8 == 0 {
                    match vdec(b, j) {
                        None => {},
                        Some((v, k)) => {
                            if j < k <= b.len() {
                                lemma_pdec_resp_fields_present(b, k, RespModel { id: v, ..acc });
                            }
                        },
                    }
                } else if tag / 8 == 2 && tag % 8 == 2 {
                    match vdec_chunk(b, j) {
                        None => {},
                        Some((d, k)) => {
                            if j < k <= b.len() {
                                lemma_pdec_resp_fields_present(
                                    b,
                                    k,
                                    RespModel { payload: Some(d), ..acc },
                                );
                            }
                        },
                    }
                } else if tag / 8 == 3 && tag % 8 == 2 {
                    match vdec_chunk(b, j) {
                        None => {},
                        Some((d, k)) => {
                            if j < k <= b.len() && valid_utf8(d) {
                                lemma_pdec_resp_fields_present(
                                    b,
                                    k,
                                    RespModel { error: Some(decode_utf8(d)), ..acc },
                                );
                            }
                        },
                    }
                } else {
                    match pskip(b, j, tag % 8) {
                        None => {},
                        Some(k) => {
                            if j <= k <= b.len() {
                                lemma_pdec_resp_fields_present(b, k, acc);
                            }
                        },
                    }
                }
            },
        }
    }
}

/// What a request envelope's bytes decode to: fields folded over the
/// all-default request. A decoder error is `None`.
pub open spec fn pdec_request(b: Seq<u8>) -> Option<ReqModel> {
    pdec_req_fields(b, 0, ReqModel { id: 0, method: Seq::<char>::empty(), payload: Seq::<u8>::empty() })
}

/// What a response envelope's bytes decode to. A response with neither
/// payload nor error is malformed, hence `None`.
pub open spec fn pdec_response(b: Seq<u8>) -> Option<RespModel> {
    pdec_resp_fields(b, 0, RespModel { id: 0, payload: None, error: None })
}

/// Decoding an encoded request envelope yields the request back.
pub proof fn lemma_proto_request_roundtrip(m: ReqModel)
    requires
        encode_utf8(m.method).len() <= u64::MAX,
        m.payload.len() <= u64::MAX,
    ensures
        pdec_request(penc_request(m)) == Some(m),
{
    let u = encode_utf8(m.method);
    let e1 = venc(m.id);
    let e2 = venc(u.len() as u64);
    let e3 = venc(m.payload.len() as u64);
    let p = m.payload;
    let b = penc_request(m);
    let i1: int = 1;
    let i2 = i1 + e1.len();
    let i3 = i2 + 1;
    let i4 = i3 + e2.len();
    let i5 = i4 + u.len();
    let i6 = i5 + 1;
    let i7 = i6 + e3.len();
    let end = i7 + p.len();
    assert(b.len() == end);
    let acc0 = ReqModel { id: 0, method: Seq::<char>::empty(), payload: Seq::<u8>::empty() };
    let acc1 = ReqModel { id: m.id, ..acc0 };
    let acc2 = ReqModel { method: m.method, ..acc1 };
    let acc3 = ReqModel { payload: p, ..acc2 };

    assert(b[0] == 0x08);
    assert(vdec(b, 0) == Some((8u64, 1int)));
    assert(b.subrange(i1, i1 + e1.len()) =~= e1);
    crate::varint::lemma_vdec_venc(m.id, b, i1);
    assert(pdec_req_fields(b, 0, acc0) == pdec_req_fields(b, i2, acc1));

    assert(b[i2] == 0x12);
    assert(vdec(b, i2) == Some((0x12u64, i3)));
    assert(b.subrange(i3, i3 + e2.len()) =~= e2);
    crate::varint::lemma_vdec_venc(u.len() as u64, b, i3);
    assert(b.subrange(i4, i4 + u.len()) =~= u);
    assert(vdec_chunk(b, i3) == Some((u, i5)));
    vstd::utf8::encode_utf8_valid_utf8(m.method);
    vstd::utf8::encode_utf8_decode_utf8(m.method);
    assert(pdec_req_fields(b, i2, acc1) == pdec_req_fields(b, i5, acc2));

    assert(b[i5] == 0x1A);
    assert(vdec(b, i5) == Some((0x1Au64, i6)));
    assert(b.subrange(i6, i6 + e3.len()) =~= e3);
    crate::varint::lemma_vdec_venc(p.len() as u64, b, i6);
    assert(b.subrange(i7, i7 + p.len()) =~= p);
    assert(vdec_chunk(b, i6) == Some((p, end)));
    assert(pdec_req_fields(b, i5, acc2) == pdec_req_fields(b, end, acc3));

    assert(pdec_req_fields(b, end, acc3) == Some(acc3));
    assert(acc3 =~= m);
}

/// Decoding an encoded well-formed response envelope yields the response
/// back.
pub proof fn lemma_proto_response_roundtrip(m: RespModel)
    requires
        m.wf(),
        m.payload matches Some(p) ==> p.len() <= u64::MAX,
        m.error matches Some(e) ==> encode_utf8(e).len() <= u64::MAX,
    ensures
        pdec_response(penc_response(m)) == Some(m),
{
    let e1 = venc(m.id);
    let b = penc_response(m);
    let i1: int = 1;
    let i2 = i1 + e1.len();
    let i3 = i2 + 1;
    let acc0 = RespModel { id: 0, payload: None, error: None };
    let acc1 = RespModel { id: m.id, ..acc0 };

    assert(b[0] == 0x08);
    assert(vdec(b, 0) == Some((8u64, 1int)));
    assert(b.subrange(i1, i1 + e1.len()) =~= e1);
    crate::varint::lemma_vdec_venc(m.id, b, i1);
    assert(pdec_resp_fields(b, 0, acc0) == pdec_resp_fields(b, i2, acc1));

    match m.payload {
        Some(p) => {
            let e2 = venc(p.len() as u64);
            let i4 = i3 + e2.len();
            let end = i4 + p.len();
            let acc2 = RespModel { payload: Some(p), ..acc1 };
            assert(b.len() == end);
            assert(b[i2] == 0x12);
            assert(vdec(b, i2) == Some((0x12u64, i3)));
            assert(b.subrange(i3, i3 + e2.len()) =~= e2);
            crate::varint::lemma_vdec_venc(p.len() as u64, b, i3);
            assert(b.subrange(i4, i4 + p.len()) =~= p);
            assert(vdec_chunk(b, i3) == Some((p, end)));
            assert(pdec_resp_fields(b, i2, acc1) == pdec_resp_fields(b, end, acc2));
            assert(pdec_resp_fields(b, end, acc2) == Some(acc2));
            assert(acc2 =~= m);
        },
        None => {
            let e = m.error->Some_0;
            let u = encode_utf8(e);
            let e3 = venc(u.len() as u64);
            let i4 = i3 + e3.len();
            let end = i4 + u.len();
            let acc2 = RespModel { error: Some(e), ..acc1 };
            assert(b.len() == end);
            assert(b[i2] == 0x1A);
            assert(vdec(b, i2) == Some((0x1Au64, i3)));
            assert(b.subrange(i3, i3 + e3.len()) =~= e3);
            crate::varint::lemma_vdec_venc(u.len() as u64, b, i3);
            assert(b.subrange(i4, i4 + u.len()) =~= u);
            assert(vdec_chunk(b, i3) == Some((u, end)));
            vstd::utf8::encode_utf8_valid_utf8(e);
            vstd::utf8::encode_utf8_decode_utf8(e);
            assert(pdec_resp_fields(b, i2, acc1) == pdec_resp_fields(b, end, acc2));
            assert(pdec_resp_fields(b, end, acc2) == Some(acc2));
            assert(acc2 =~= m);
        },
    }
}

/// Serializes a request envelope in the binary format.
pub fn penc_request_vec(req: &Request) -> (out: Vec<u8>)
    ensures
        out@ == penc_request(req@),
{
    let mut out: Vec<u8> = Vec::new();
    out.push(0x08);
    venc_push(&mut out, req.id);
    out.push(0x12);
    let u = req.method.as_str().as_bytes_vec();
    venc_push(&mut out, u.len() as u64);
    out.extend_from_slice(u.as_slice());
    out.push(0x1A);
    venc_push(&mut out, req.payload.len() as u64);
    out.extend_from_slice(req.payload.as_slice());
    proof {
        assert(out@ =~= penc_request(req@));
    }
    out
}

/// Serializes a response envelope in the binary format.
pub fn penc_response_vec(resp: &Response) -> (out: Vec<u8>)
    requires
        resp@.wf(),
    ensures
        out@ == penc_response(resp@),
{
    let mut out: Vec<u8> = Vec::new();
    out.push(0x08);
    venc_push(&mut out, resp.id);
    match &resp.payload {
        Some(p) => {
            out.push(0x12);
            venc_push(&mut out, p.len() as u64);
            out.extend_from_slice(p.as_slice());
        },
        None => {},
    }
    match &resp.error {
        Some(e) => {
            out.push(0x1A);
            let u = e.as_str().as_bytes_vec();
            venc_push(&mut out, u.len() as u64);
            out.extend_from_slice(u.as_slice());
        },
        None => {},
    }
    proof {
        assert(out@ =~= penc_response(resp@));
    }
    out
}

/// Reads a length-delimited chunk at offset `i`, exactly as [`vdec_chunk`]
/// describes.
fn vdec_chunk_read(b: &Vec<u8>, i: usize) -> (r: Option<(Vec<u8>, usize)>)
    ensures
        match r {
            Some((d, k)) => vdec_chunk(b@, i as int) == Some((d@, k as int)) && i < k <= b@.len(),
            None => vdec_chunk(b@, i as int) is None,
        },
{
    match vdec_read(b, i) {
        None => None,
        Some((n, j)) => {
            if n <= (b.len() - j) as u64 {
                let k = j + (n as usize);
                let d = slice_to_vec(slice_subrange(b.as_slice(), j, k));
                Some((d, k))
            } else {
                None
            }
        },
    }
}

/// Skips one unknown field of the given wire type, exactly as [`pskip`]
/// describes.
fn pskip_read(b: &Vec<u8>, i: usize, wire: u64) -> (r: Option<usize>)
    requires
        i <= b@.len(),
    ensures
        match r {
            Some(k) => pskip(b@, i as int, wire) == Some(k as int) && i <= k <= b@.len(),
            None => pskip(b@, i as int, wire) is None,
        },
{
    if wire == 0 {
        match vdec_read(b, i) {
            None => None,
            Some((v, j)) => Some(j),
        }
    } else if wire == 1 {
        if b.len() - i >= 8 {
            Some(i + 8)
        } else {
            None
        }
    } else if wire == 2 {
        match vdec_chunk_read(b, i) {
            None => None,
            Some((d, k)) => Some(k),
        }
    } else if wire == 5 {
        if b.len() - i >= 4 {
            Some(i + 4)
        } else {
            None
        }
    } else {
        None
    }
}

/// The model a decoded request carries, or `None` for a decoder error.
pub open spec fn opt_req_model(r: Option<Request>) -> Option<ReqModel> {
    match r {
        Some(q) => Some(q@),
        None => None,
    }
}

/// The model a decoded response carries, or `None` for a decoder error.
pub open spec fn opt_resp_model(r: Option<Response>) -> Option<RespModel> {
    match r {
        Some(q) => Some(q@),
        None => None,
    }
}

/// Folds the remaining request fields, exactly as [`pdec_req_fields`]
/// describes.
fn pdec_req_fields_read(b: &Vec<u8>, i: usize, id: u64, method: String, payload: Vec<u8>) -> (r:
    Option<Request>)
    requires
        i <= b@.len(),
    ensures
        opt_req_model(r) == pdec_req_fields(
            b@,
            i as int,
            ReqModel { id, method: method@, payload: payload@ },
        ),
    decreases b@.len() - i,
{
    if i == b.len() {
        return Some(Request { id, method, payload });
    }
    match vdec_read(b, i) {
        None => None,
        Some((tag, j)) => {
            if tag / 8 == 1 && tag % 8 == 0 {
                match vdec_read(b, j) {
                    None => None,
                    Some((v, k)) => pdec_req_fields_read(b, k, v, method, payload),
                }
            } else if tag / 8 == 2 && tag % 8 == 2 {
                match vdec_chunk_read(b, j) {
                    None => None,
                    Some((d, k)) => match string_from_utf8(d) {
                        None => None,
                        Some(s) => pdec_req_fields_read(b, k, id, s, payload),
                    },
                }
            } else if tag / 8 == 3 && tag % 8 == 2 {
                match vdec_chunk_read(b, j) {
                    None => None,
                    Some((d, k)) => pdec_req_fields_read(b, k, id, method, d),
                }
            } else {
                match pskip_read(b, j, tag % 8) {
                    None => None,
                    Some(k) => pdec_req_fields_read(b, k, id, method, payload),
                }
            }
        },
    }
}

/// Folds the remaining response fields, exactly as [`pdec_resp_fields`]
/// describes.
fn pdec_resp_fields_read(
    b: &Vec<u8>,
    i: usize,
    id: u64,
    payload: Option<Vec<u8>>,
    error: Option<String>,
) -> (r: Option<Response>)
    requires
        i <= b@.len(),
    ensures
        opt_resp_model(r) == pdec_resp_fields(
            b@,
            i as int,
            Response { id, payload, error }@,
        ),
    decreases b@.len() - i,
{
    if i == b.len() {
        if payload.is_none() && error.is_none() {
            return None;
        }
        return Some(Response { id, payload, error });
    }
    match vdec_read(b, i) {
        None => None,
        Some((tag, j)) => {
            if tag / 8 == 1 && tag % 8 == 0 {
                match vdec_read(b, j) {
                    None => None,
                    Some((v, k)) => pdec_resp_fields_read(b, k, v, payload, error),
                }
            } else if tag / 8 == 2 && tag % 8 == 2 {
                match vdec_chunk_read(b, j) {
                    None => None,
                    Some((d, k)) => pdec_resp_fields_read(b, k, id, Some(d), error),
                }
            } else if tag / 8 == 3 && tag % 8 == 2 {
                match vdec_chunk_read(b, j) {
                    None => None,
                    Some((d, k)) => match string_from_utf8(d) {
                        None => None,
                        Some(s) => pdec_resp_fields_read(b, k, id, payload, Some(s)),
                    },
                }
            } else {
                match pskip_read(b, j, tag % 8) {
                    None => None,
                    Some(k) => pdec_resp_fields_read(b, k, id, payload, error),
                }
            }
        },
    }
}

/// Parses a request envelope from its binary encoding, exactly as
/// [`pdec_request`] describes.
pub fn pdec_request_vec(b: &Vec<u8>) -> (r: Option<Request>)
    ensures
        opt_req_model(r) == pdec_request(b@),
{
    pdec_req_fields_read(b, 0, 0, String::new(), Vec::new())
}

/// Parses a response envelope from its binary encoding, exactly as
/// [`pdec_response`] describes.
pub fn pdec_response_vec(b: &Vec<u8>) -> (r: Option<Response>)
    ensures
        opt_resp_model(r) == pdec_response(b@),
{
    pdec_resp_fields_read(b, 0, 0, None, None)
}

} // verus!
