//! Small helpers around the runtime: parameter validation, format names,
//! method-path building, the retry backoff rule, and the trusted boundary
//! to certificate parsing and random ids.
use vstd::prelude::*;

use crate::error::Error;
use crate::wire::SerializationFormat;
use vstd::string::StrSliceExecFns;

verus! {

/// Validates connection parameters: a keep-alive below 100 ms, an idle
/// timeout below 1000 ms, or a stream limit outside 1..=1000 is rejected
/// with `InvalidConfig`.
pub fn validate_connection_params(
    keep_alive_ms: Option<u64>,
    idle_timeout_ms: Option<u64>,
    max_concurrent_streams: u64,
) -> (r: Result<(), Error>)
    ensures
        r is Ok <==> ((keep_alive_ms matches Some(k) ==> k >= 100) && (idle_timeout_ms matches
            Some(t) ==> t >= 1000) && 1 <= max_concurrent_streams <= 1000),
        r matches Err(e) ==> e matches Error::InvalidConfig(_),
{
    if let Some(keep_alive) = keep_alive_ms {
        if keep_alive < 100 {
            return Err(
                Error::InvalidConfig(
                    String::from_str("Keep-alive interval must be at least 100ms"),
                ),
            );
        }
    }
    if let Some(idle_timeout) = idle_timeout_ms {
        if idle_timeout < 1000 {
            return Err(
                Error::InvalidConfig(String::from_str("Idle timeout must be at least 1000ms")),
            );
        }
    }
    if max_concurrent_streams == 0 || max_concurrent_streams > 1000 {
        return Err(
            Error::InvalidConfig(
                String::from_str("Max concurrent streams must be between 1 and 1000"),
            ),
        );
    }
    Ok(())
}

/// Case-insensitive match of one character against a lower-case ASCII
/// letter or other exact character.
pub open spec fn eq_ignore_ascii_case(c: char, t: char) -> bool {
    c == t || ((0x61 <= t as u32 <= 0x7A) && c as u32 == t as u32 - 0x20)
}

/// Case-insensitive match of a string against a lower-case ASCII word.
pub open spec fn word_matches(s: Seq<char>, t: Seq<char>) -> bool {
    s.len() == t.len() && forall|k: int|
        0 <= k < t.len() ==> eq_ignore_ascii_case(s[k], #[trigger] t[k])
}

/// Parses a serialization format name, ASCII-case-insensitively:
/// `"protobuf"` and `"proto"` name the binary format, `"json"` the JSON
/// format; anything else is `InvalidConfig`.
pub fn parse_format(format_str: &str) -> (r: Result<SerializationFormat, Error>)
    ensures
        word_matches(format_str@, "protobuf"@) || word_matches(format_str@, "proto"@) ==> r
            == Ok::<SerializationFormat, Error>(SerializationFormat::Protobuf),
        word_matches(format_str@, "json"@) ==> r == Ok::<SerializationFormat, Error>(
            SerializationFormat::Json,
        ),
        !(word_matches(format_str@, "protobuf"@) || word_matches(format_str@, "proto"@)
            || word_matches(format_str@, "json"@)) ==> (r matches Err(e) && e matches
            Error::InvalidConfig(_)),
{
    proof {
        reveal_strlit("protobuf");
        reveal_strlit("proto");
        reveal_strlit("json");
    }
    let n = format_str.unicode_len();
    if n == 8 {
        let p0 = eq_ic_read(format_str, 0, 'p');
        let p1 = eq_ic_read(format_str, 1, 'r');
        let p2 = eq_ic_read(format_str, 2, 'o');
        let p3 = eq_ic_read(format_str, 3, 't');
        let p4 = eq_ic_read(format_str, 4, 'o');
        let p5 = eq_ic_read(format_str, 5, 'b');
        let p6 = eq_ic_read(format_str, 6, 'u');
        let p7 = eq_ic_read(format_str, 7, 'f');
        if p0 && p1 && p2 && p3 && p4 && p5 && p6 && p7 {
            return Ok(SerializationFormat::Protobuf);
        }
        proof {
            let t = "protobuf"@;
            if word_matches(format_str@, t) {
                assert(eq_ignore_ascii_case(format_str@[0], t[0]));
                assert(eq_ignore_ascii_case(format_str@[1], t[1]));
                assert(eq_ignore_ascii_case(format_str@[2], t[2]));
                assert(eq_ignore_ascii_case(format_str@[3], t[3]));
                assert(eq_ignore_ascii_case(format_str@[4], t[4]));
                assert(eq_ignore_ascii_case(format_str@[5], t[5]));
                assert(eq_ignore_ascii_case(format_str@[6], t[6]));
                assert(eq_ignore_ascii_case(format_str@[7], t[7]));
            }
        }
    } else if n == 5 {
        let p0 = eq_ic_read(format_str, 0, 'p');
        let p1 = eq_ic_read(format_str, 1, 'r');
        let p2 = eq_ic_read(format_str, 2, 'o');
        let p3 = eq_ic_read(format_str, 3, 't');
        let p4 = eq_ic_read(format_str, 4, 'o');
        if p0 && p1 && p2 && p3 && p4 {
            return Ok(SerializationFormat::Protobuf);
        }
        proof {
            let t = "proto"@;
            if word_matches(format_str@, t) {
                assert(eq_ignore_ascii_case(format_str@[0], t[0]));
                assert(eq_ignore_ascii_case(format_str@[1], t[1]));
                assert(eq_ignore_ascii_case(format_str@[2], t[2]));
                assert(eq_ignore_ascii_case(format_str@[3], t[3]));
                assert(eq_ignore_ascii_case(format_str@[4], t[4]));
            }
        }
    } else if n == 4 {
        let p0 = eq_ic_read(format_str, 0, 'j');
        let p1 = eq_ic_read(format_str, 1, 's');
        let p2 = eq_ic_read(format_str, 2, 'o');
        let p3 = eq_ic_read(format_str, 3, 'n');
        if p0 && p1 && p2 && p3 {
            return Ok(SerializationFormat::Json);
        }
        proof {
            let t = "json"@;
            if word_matches(format_str@, t) {
                assert(eq_ignore_ascii_case(format_str@[0], t[0]));
                assert(eq_ignore_ascii_case(format_str@[1], t[1]));
                assert(eq_ignore_ascii_case(format_str@[2], t[2]));
                assert(eq_ignore_ascii_case(format_str@[3], t[3]));
            }
        }
    }
    Err(Error::InvalidConfig(String::from_str("Unknown serialization format")))
}

/// Decides [`eq_ignore_ascii_case`] for the character at index `i`.
fn eq_ic_read(s: &str, i: usize, t: char) -> (r: bool)
    requires
        i < s@.len(),
    ensures
        r == eq_ignore_ascii_case(s@[i as int], t),
{
    let c = s.get_char(i);
    c == t || ((0x61 <= t as u32 && t as u32 <= 0x7A) && c as u32 == t as u32 - 0x20)
}

/// Builds the canonical method path `"<service>.<method>"`.
pub fn format_method_name(service: &str, method: &str) -> (r: String)
    ensures
        r@ == service@ + seq!['.'] + method@,
{
    proof {
        reveal_strlit(".");
        assert("."@ =~= seq!['.']);
    }
    let mut s = service.to_owned();
    s.append(".");
    s.append(method);
    s
}

/// The next delay of the retry schedule: the current delay doubled and
/// scaled by a jitter percentage, capped at the maximum.
pub fn next_backoff_delay(delay_ms: u64, max_delay_ms: u64, jitter_pct: u64) -> (r: u64)
    requires
        80 <= jitter_pct <= 120,
    ensures
        r == if delay_ms * 2 * jitter_pct / 100 > max_delay_ms {
            max_delay_ms as int
        } else {
            delay_ms * 2 * jitter_pct / 100
        },
{
    proof {
        vstd::arithmetic::mul::lemma_mul_upper_bound(
            delay_ms as int * 2,
            u64::MAX as int * 2,
            jitter_pct as int,
            120,
        );
    }
    let raw: u128 = (delay_ms as u128) * 2 * (jitter_pct as u128) / 100;
    if raw > max_delay_ms as u128 {
        max_delay_ms
    } else {
        raw as u64
    }
}

/// The parsed certificates of a PEM file: the DER bytes of each
/// certificate section, or nothing where the file is not readable as PEM.
pub uninterp spec fn pem_certs_of(pem: Seq<u8>) -> Option<Seq<Seq<u8>>>;

/// The parsed PKCS#8 private keys of a PEM file.
pub uninterp spec fn pem_pkcs8_keys_of(pem: Seq<u8>) -> Option<Seq<Seq<u8>>>;

/// Relies on `rustls_pemfile::certs`: it extracts the DER contents of the
/// certificate sections of a PEM file, a function of the bytes alone.
#[verifier::external_body]
pub fn parse_certificates(cert_data: &[u8]) -> (r: Result<Vec<Vec<u8>>, Error>)
    ensures
        r is Ok <==> pem_certs_of(cert_data@) is Some,
        r matches Ok(v) ==> pem_certs_of(cert_data@) == Some(v.deep_view()),
        r matches Err(e) ==> e matches Error::CertificateError(_),
{
    let mut rd = cert_data;
    match rustls_pemfile::certs(&mut rd) {
        Ok(v) => Ok(v),
        Err(e) => Err(Error::CertificateError(e.to_string())),
    }
}

/// Relies on `rustls_pemfile::pkcs8_private_keys`: it extracts the DER
/// contents of the PKCS#8 key sections of a PEM file, a function of the
/// bytes alone.
#[verifier::external_body]
pub fn parse_pkcs8_keys(key_data: &[u8]) -> (r: Result<Vec<Vec<u8>>, Error>)
    ensures
        r is Ok <==> pem_pkcs8_keys_of(key_data@) is Some,
        r matches Ok(v) ==> pem_pkcs8_keys_of(key_data@) == Some(v.deep_view()),
        r matches Err(e) ==> e matches Error::CertificateError(_),
{
    let mut rd = key_data;
    match rustls_pemfile::pkcs8_private_keys(&mut rd) {
        Ok(v) => Ok(v),
        Err(e) => Err(Error::CertificateError(e.to_string())),
    }
}

/// Relies on `rand::random`: a request id drawn from the thread-local
/// generator; nothing is promised of its value.
#[verifier::external_body]
pub fn generate_request_id() -> u64 {
    rand::random::<u64>()
}

} // verus!
