//! Building the signed authorization header for the sign-in collaborator's
//! token requests: percent-encoding of the protocol parameters, their
//! ordering, the signature base string, and the HMAC-SHA1 signature.
//!
//! All strings handled here are ASCII: the parameters are percent-encoded
//! before anything else touches them, and the signature is base64 text.

use vstd::prelude::*;

use crate::strutil::all_digits;
use crate::util::get_timestamp_string;
use crypto::digest::Digest;
use crypto::mac::Mac;
use rand::distributions::Alphanumeric;
use rand::{thread_rng, Rng};

verus! {

/// The HMAC-SHA1 authentication code of `data` under `key`.
pub uninterp spec fn hmac_sha1_of(key: Seq<u8>, data: Seq<u8>) -> Seq<u8>;

/// The base64 encoding of `bytes`.
pub uninterp spec fn base64_of(bytes: Seq<u8>) -> Seq<char>;

/// Relies on rand's `thread_rng`, `sample_iter` and the `Alphanumeric`
/// distribution: 32 random alphanumeric characters.
#[verifier::external_body]
fn build_nonce() -> (r: String)
    ensures
        r@.len() == 32,
{
    thread_rng().sample_iter(&Alphanumeric).take(32).map(char::from).collect::<String>()
}

/// Relies on crypto's `Hmac` over `Sha1` (`new`, `input`, `result`, `code`):
/// the authentication code is a function of the key and the data alone, and
/// SHA-1 codes are 20 bytes.
#[verifier::external_body]
fn hmac_sha1(key: &[u8], data: &[u8]) -> (r: Vec<u8>)
    ensures
        r@ == hmac_sha1_of(key@, data@),
        r@.len() == 20,
{
    let mut hmac = crypto::hmac::Hmac::new(crypto::sha1::Sha1::new(), key);
    hmac.input(data);
    hmac.result().code().to_vec()
}

/// Relies on base64's `encode` (standard alphabet, padded): the encoding is
/// a function of the bytes alone, four ASCII characters for every started
/// group of three bytes.
#[verifier::external_body]
fn base64_encode(bytes: &[u8]) -> (r: String)
    ensures
        r@ == base64_of(bytes@),
        r@.len() == 4 * ((bytes@.len() + 2) / 3),
{
    base64::encode(bytes)
}

/// Relies on `String::from_utf8`: bytes below 128 decode to the characters
/// with the same values.
#[verifier::external_body]
fn ascii_string_from_bytes(bytes: Vec<u8>) -> (r: String)
    requires
        forall|i: int| 0 <= i < bytes@.len() ==> bytes@[i] < 128,
    ensures
        r@ == bytes@.map_values(|b: u8| b as char),
{
    match String::from_utf8(bytes) {
        Ok(s) => s,
        Err(_) => String::new(),
    }
}

/// A byte the encoding leaves as it is: an ASCII letter, a digit, or one of
/// `-`, `.`, `_`, `~`.
pub open spec fn pct_unreserved(b: u8) -> bool {
    (48 <= b && b <= 57) || (65 <= b && b <= 90) || (97 <= b && b <= 122) || b == 45 || b == 46
        || b == 95 || b == 126
}

/// The upper-case hexadecimal digit of a value below 16, as a byte.
pub open spec fn hex_digit(v: u8) -> u8 {
    if v < 10 {
        (48 + v) as u8
    } else {
        (55 + v) as u8
    }
}

/// The percent-encoding of a byte string: unreserved bytes stay, every other
/// byte becomes `%` and two upper-case hexadecimal digits.
pub open spec fn pct_bytes(s: Seq<u8>) -> Seq<u8>
    decreases s.len(),
{
    if s.len() == 0 {
        Seq::empty()
    } else {
        pct_bytes(s.drop_last()) + (if pct_unreserved(s.last()) {
            seq![s.last()]
        } else {
            seq![37u8, hex_digit(s.last() / 16), hex_digit((s.last() % 16) as u8)]
        })
    }
}

/// The percent-encoding of a string, over its UTF-8 bytes, as characters.
pub open spec fn pct_encode_spec(s: Seq<char>) -> Seq<char> {
    pct_bytes(vstd::utf8::encode_utf8(s)).map_values(|b: u8| b as char)
}

proof fn lemma_pct_bytes_ascii(s: Seq<u8>)
    ensures
        forall|i: int| 0 <= i < pct_bytes(s).len() ==> #[trigger] pct_bytes(s)[i] < 128,
    decreases s.len(),
{
    if s.len() > 0 {
        lemma_pct_bytes_ascii(s.drop_last());
        let p = pct_bytes(s.drop_last());
        assert forall|i: int| 0 <= i < pct_bytes(s).len() implies #[trigger] pct_bytes(s)[i]
            < 128 by {
            if i < p.len() {
                assert(pct_bytes(s)[i] == p[i]);
            } else {
                if pct_unreserved(s.last()) {
                    assert(pct_bytes(s)[i] == s.last());
                } else {
                    assert(pct_bytes(s)[i] == seq![
                        37u8,
                        hex_digit(s.last() / 16),
                        hex_digit((s.last() % 16) as u8),
                    ][i - p.len()]);
                }
            }
        }
    }
}

/// Percent-encodes a string for the sign-in protocol: every byte outside
/// ASCII letters, digits and `-._~` becomes `%` and two upper-case
/// hexadecimal digits.
pub fn encode(src: &str) -> (r: String)
    ensures
        r@ == pct_encode_spec(src@),
{
    let bytes = src.as_bytes();
    let mut out: Vec<u8> = Vec::new();
    let mut i: usize = 0;
    while i < bytes.len()
        invariant
            0 <= i <= bytes@.len(),
            out@ == pct_bytes(bytes@.take(i as int)),
        decreases bytes@.len() - i,
    {
        let b = bytes[i];
        proof {
            assert(bytes@.take(i as int + 1).drop_last() =~= bytes@.take(i as int));
            assert(bytes@.take(i as int + 1).last() == bytes@[i as int]);
        }
        let unreserved = (48 <= b && b <= 57) || (65 <= b && b <= 90) || (97 <= b && b <= 122)
            || b == 45 || b == 46 || b == 95 || b == 126;
        let ghost before = out@;
        if unreserved {
            out.push(b);
            proof {
                assert(out@ =~= before + seq![bytes@[i as int]]);
            }
        } else {
            let hi = b / 16;
            let lo = b % 16;
            out.push(37);
            out.push(
                if hi < 10 {
                    48 + hi
                } else {
                    55 + hi
                },
            );
            out.push(
                if lo < 10 {
                    48 + lo
                } else {
                    55 + lo
                },
            );
            proof {
                assert(out@ =~= before + seq![
                    37u8,
                    hex_digit(bytes@[i as int] / 16),
                    hex_digit((bytes@[i as int] % 16) as u8),
                ]);
            }
        }
        i = i + 1;
    }
    proof {
        assert(bytes@.take(bytes@.len() as int) =~= bytes@);
        lemma_pct_bytes_ascii(bytes@);
    }
    let r = ascii_string_from_bytes(out);
    proof {
        vstd::string::is_ascii_spec_bytes(src);
        assert(r@ == pct_encode_spec(src@));
    }
    r
}

/// Signs a base string with a key: the base64 text of its HMAC-SHA1 code.
pub open spec fn sign_spec(base: Seq<char>, key: Seq<char>) -> Seq<char> {
    base64_of(hmac_sha1_of(vstd::utf8::encode_utf8(key), vstd::utf8::encode_utf8(base)))
}

/// Signs the signature base string with the signing key.
pub fn sign(base: &str, key: &str) -> (r: String)
    ensures
        r@ == sign_spec(base@, key@),
{
    let code = hmac_sha1(key.as_bytes(), base.as_bytes());
    base64_encode(code.as_slice())
}

/// Strict ordering of ASCII strings, character by character.
pub open spec fn lex_lt(a: Seq<char>, b: Seq<char>) -> bool
    decreases a.len(),
{
    if b.len() == 0 {
        false
    } else if a.len() == 0 {
        true
    } else {
        a.first() < b.first() || (a.first() == b.first() && lex_lt(
            a.drop_first(),
            b.drop_first(),
        ))
    }
}

/// Whether `a` orders strictly before `b`.
fn str_lt(a: &str, b: &str) -> (r: bool)
    ensures
        r == lex_lt(a@, b@),
    decreases a@.len(),
{
    let an = a.unicode_len();
    let bn = b.unicode_len();
    if bn == 0 {
        return false;
    }
    if an == 0 {
        return true;
    }
    let ac = a.get_char(0);
    let bc = b.get_char(0);
    if ac < bc {
        true
    } else if ac == bc {
        let r = str_lt(a.substring_char(1, an), b.substring_char(1, bn));
        proof {
            assert(a@.subrange(1, an as int) =~= a@.drop_first());
            assert(b@.subrange(1, bn as int) =~= b@.drop_first());
        }
        r
    } else {
        false
    }
}

/// Inserts a parameter into a sorted list, after any it ties with.
pub open spec fn insert_pair(
    s: Seq<(Seq<char>, Seq<char>)>,
    x: (Seq<char>, Seq<char>),
) -> Seq<(Seq<char>, Seq<char>)>
    decreases s.len(),
{
    if s.len() == 0 {
        seq![x]
    } else if lex_lt(x.0, s.last().0) {
        insert_pair(s.drop_last(), x).push(s.last())
    } else {
        s.push(x)
    }
}

/// Stable insertion sort of parameters by their names.
pub open spec fn sort_pairs(s: Seq<(Seq<char>, Seq<char>)>) -> Seq<(Seq<char>, Seq<char>)>
    decreases s.len(),
{
    if s.len() == 0 {
        Seq::empty()
    } else {
        insert_pair(sort_pairs(s.drop_last()), s.last())
    }
}

proof fn lemma_insert_pair_split(
    s: Seq<(Seq<char>, Seq<char>)>,
    x: (Seq<char>, Seq<char>),
    pos: int,
)
    requires
        0 <= pos <= s.len(),
        forall|j: int| pos <= j < s.len() ==> lex_lt(x.0, (#[trigger] s[j]).0),
        pos > 0 ==> !lex_lt(x.0, s[pos - 1].0),
    ensures
        insert_pair(s, x) == s.insert(pos, x),
    decreases s.len(),
{
    if pos == s.len() {
        assert(insert_pair(s, x) =~= s.insert(pos, x));
    } else {
        let d = s.drop_last();
        assert(lex_lt(x.0, s[s.len() - 1].0));
        assert forall|j: int| pos <= j < d.len() implies lex_lt(x.0, (#[trigger] d[j]).0) by {
            assert(d[j] == s[j]);
        }
        if pos > 0 {
            assert(d[pos - 1] == s[pos - 1]);
        }
        lemma_insert_pair_split(d, x, pos);
        assert(insert_pair(s, x) =~= s.insert(pos, x));
    }
}

/// Stable insertion sort of parameters by their names.
fn sorted_pairs(params: &Vec<(String, String)>) -> (r: Vec<(String, String)>)
    ensures
        crate::http_util::params_view(r@) == sort_pairs(crate::http_util::params_view(params@)),
{
    let mut out: Vec<(String, String)> = Vec::new();
    let mut i: usize = 0;
    while i < params.len()
        invariant
            0 <= i <= params@.len(),
            crate::http_util::params_view(out@) == sort_pairs(
                crate::http_util::params_view(params@).take(i as int),
            ),
        decreases params@.len() - i,
    {
        let ghost pview = crate::http_util::params_view(params@);
        let pair = (params[i].0.clone(), params[i].1.clone());
        proof {
            assert((pair.0@, pair.1@) == pview[i as int]);
        }
        let ghost sorted_so_far = crate::http_util::params_view(out@);
        let mut pos: usize = out.len();
        while pos > 0 && str_lt(pair.0.as_str(), out[pos - 1].0.as_str())
            invariant
                0 <= pos <= out@.len(),
                crate::http_util::params_view(out@) == sorted_so_far,
                sorted_so_far.len() == out@.len(),
                pair.0@ == pview[i as int].0 && pair.1@ == pview[i as int].1,
                i < params@.len(),
                pview == crate::http_util::params_view(params@),
                forall|j: int|
                    pos <= j < sorted_so_far.len() ==> lex_lt(
                        pview[i as int].0,
                        (#[trigger] sorted_so_far[j]).0,
                    ),
            decreases pos,
        {
            proof {
                assert(sorted_so_far[pos - 1].0 == out@[pos - 1].0@);
            }
            pos = pos - 1;
        }
        proof {
            if pos > 0 {
                assert(sorted_so_far[pos - 1].0 == out@[pos - 1].0@);
            }
            lemma_insert_pair_split(sorted_so_far, pview[i as int], pos as int);
        }
        out.insert(pos, pair);
        proof {
            assert(crate::http_util::params_view(out@) =~= sorted_so_far.insert(
                pos as int,
                pview[i as int],
            ));
            assert(pview.take(i as int + 1).drop_last() =~= pview.take(i as int));
            assert(pview.take(i as int + 1).last() == pview[i as int]);
        }
        i = i + 1;
    }
    proof {
        let pview = crate::http_util::params_view(params@);
        assert(pview.take(params@.len() as int) =~= pview);
    }
    out
}

/// One `name=value` piece of the parameter string.
pub open spec fn pair_text(p: (Seq<char>, Seq<char>)) -> Seq<char> {
    p.0 + "="@ + p.1
}

/// The parameters joined as `name=value` pieces separated by `delimiter`.
pub open spec fn concat_params_spec(
    s: Seq<(Seq<char>, Seq<char>)>,
    delimiter: Seq<char>,
) -> Seq<char>
    decreases s.len(),
{
    if s.len() == 0 {
        Seq::empty()
    } else if s.len() == 1 {
        pair_text(s.first())
    } else {
        concat_params_spec(s.drop_last(), delimiter) + delimiter + pair_text(s.last())
    }
}

/// Joins the parameters as `name=value` pieces separated by `delimiter`.
fn concat_params(params: &Vec<(String, String)>, delimiter: &str) -> (r: String)
    requires
        params@.len() > 0,
    ensures
        r@ == concat_params_spec(crate::http_util::params_view(params@), delimiter@),
{
    let ghost pview = crate::http_util::params_view(params@);
    let mut result = params[0].0.clone();
    result.append("=");
    result.append(params[0].1.as_str());
    proof {
        assert(pview.take(1).first() == pview[0]);
        assert(result@ == concat_params_spec(pview.take(1), delimiter@));
    }
    let mut i: usize = 1;
    while i < params.len()
        invariant
            1 <= i <= params@.len(),
            pview == crate::http_util::params_view(params@),
            pview.len() == params@.len(),
            result@ == concat_params_spec(pview.take(i as int), delimiter@),
        decreases params@.len() - i,
    {
        result.append(delimiter);
        result.append(params[i].0.as_str());
        result.append("=");
        result.append(params[i].1.as_str());
        proof {
            let t1 = pview.take(i as int + 1);
            assert(t1.drop_last() =~= pview.take(i as int));
            assert(t1.last() == pview[i as int]);
            assert(t1.len() > 1);
        }
        i = i + 1;
    }
    proof {
        assert(pview.take(params@.len() as int) =~= pview);
    }
    result
}

/// The five protocol parameters every request carries, given the consumer
/// key, the nonce and the timestamp, percent-encoded.
pub open spec fn base_params_spec(consumer_key: Seq<char>, nonce: Seq<char>, ts: Seq<char>) -> Seq<
    (Seq<char>, Seq<char>),
> {
    seq![
        (pct_encode_spec("oauth_consumer_key"@), pct_encode_spec(consumer_key)),
        (pct_encode_spec("oauth_nonce"@), pct_encode_spec(nonce)),
        (pct_encode_spec("oauth_signature_method"@), pct_encode_spec("HMAC-SHA1"@)),
        (pct_encode_spec("oauth_timestamp"@), pct_encode_spec(ts)),
        (pct_encode_spec("oauth_version"@), pct_encode_spec("1.0"@)),
    ]
}

/// The given parameters, percent-encoded, appended to the protocol ones.
pub open spec fn all_params_spec(
    consumer_key: Seq<char>,
    nonce: Seq<char>,
    ts: Seq<char>,
    addtl: Seq<(Seq<char>, Seq<char>)>,
) -> Seq<(Seq<char>, Seq<char>)> {
    base_params_spec(consumer_key, nonce, ts) + addtl.map_values(
        |p: (Seq<char>, Seq<char>)| (pct_encode_spec(p.0), pct_encode_spec(p.1)),
    )
}

/// The signature base string: the method, the encoded request address, and
/// the encoded sorted parameter string.
pub open spec fn signature_base_spec(
    method: Seq<char>,
    uri: Seq<char>,
    params: Seq<(Seq<char>, Seq<char>)>,
) -> Seq<char> {
    method + "&"@ + pct_encode_spec(uri) + "&"@ + pct_encode_spec(
        concat_params_spec(sort_pairs(params), "&"@),
    )
}

/// The authorization header built from the sorted parameters and the
/// signature over them.
pub open spec fn header_spec(
    sign_key: Seq<char>,
    consumer_key: Seq<char>,
    method: Seq<char>,
    uri: Seq<char>,
    addtl: Seq<(Seq<char>, Seq<char>)>,
    nonce: Seq<char>,
    ts: Seq<char>,
) -> Seq<char> {
    let params = all_params_spec(consumer_key, nonce, ts, addtl);
    let sorted = sort_pairs(params);
    let base = signature_base_spec(method, uri, params);
    let signed = sorted.push(
        (pct_encode_spec("oauth_signature"@), pct_encode_spec(sign_spec(base, sign_key))),
    );
    "OAuth "@ + concat_params_spec(signed, ", "@)
}

/// Builds the authorization header for the given nonce and timestamp: the
/// percent-encoded parameters sorted by name, signed with HMAC-SHA1 over the
/// signature base string.
#[verifier::rlimit(60)]
fn build_header_with(
    sign_key: &str,
    consumer_key: &str,
    method: &str,
    uri: &str,
    addtl_params: &Vec<(String, String)>,
    nonce: &str,
    timestamp: &str,
) -> (r: String)
    ensures
        r@ == header_spec(
            sign_key@,
            consumer_key@,
            method@,
            uri@,
            crate::http_util::params_view(addtl_params@),
            nonce@,
            timestamp@,
        ),
{
    let ghost raw_params: Seq<(Seq<char>, Seq<char>)> = seq![
        ("oauth_consumer_key"@, consumer_key@),
        ("oauth_nonce"@, nonce@),
        ("oauth_signature_method"@, "HMAC-SHA1"@),
        ("oauth_timestamp"@, timestamp@),
        ("oauth_version"@, "1.0"@),
    ] + crate::http_util::params_view(addtl_params@);
    let mut params: Vec<(String, String)> = Vec::new();
    params.push(("oauth_consumer_key".to_owned(), consumer_key.to_owned()));
    params.push(("oauth_nonce".to_owned(), nonce.to_owned()));
    params.push(("oauth_signature_method".to_owned(), "HMAC-SHA1".to_owned()));
    params.push(("oauth_timestamp".to_owned(), timestamp.to_owned()));
    params.push(("oauth_version".to_owned(), "1.0".to_owned()));
    proof {
        assert(crate::http_util::params_view(params@) =~= raw_params.take(5));
    }
    let mut i: usize = 0;
    while i < addtl_params.len()
        invariant
            0 <= i <= addtl_params@.len(),
            raw_params.len() == 5 + addtl_params@.len(),
            raw_params == seq![
                ("oauth_consumer_key"@, consumer_key@),
                ("oauth_nonce"@, nonce@),
                ("oauth_signature_method"@, "HMAC-SHA1"@),
                ("oauth_timestamp"@, timestamp@),
                ("oauth_version"@, "1.0"@),
            ] + crate::http_util::params_view(addtl_params@),
            crate::http_util::params_view(params@) == raw_params.take(5 + i as int),
        decreases addtl_params@.len() - i,
    {
        let ghost before = crate::http_util::params_view(params@);
        params.push((addtl_params[i].0.clone(), addtl_params[i].1.clone()));
        proof {
            assert(raw_params[5 + i as int] == crate::http_util::params_view(addtl_params@)[
                i as int
            ]);
            assert(crate::http_util::params_view(params@) =~= before.push(
                raw_params[5 + i as int],
            ));
            assert(before.push(raw_params[5 + i as int]) =~= raw_params.take(5 + i as int + 1));
        }
        i = i + 1;
    }
    proof {
        assert(raw_params.take(raw_params.len() as int) =~= raw_params);
    }
    // Percent-encode every parameter.
    let ghost enc = |p: (Seq<char>, Seq<char>)| (pct_encode_spec(p.0), pct_encode_spec(p.1));
    let mut encoded: Vec<(String, String)> = Vec::new();
    let mut k: usize = 0;
    while k < params.len()
        invariant
            0 <= k <= params@.len(),
            crate::http_util::params_view(params@) == raw_params,
            raw_params.len() == params@.len(),
            enc == (|p: (Seq<char>, Seq<char>)| (pct_encode_spec(p.0), pct_encode_spec(p.1))),
            crate::http_util::params_view(encoded@) == raw_params.take(k as int).map_values(enc),
        decreases params@.len() - k,
    {
        let ghost before = crate::http_util::params_view(encoded@);
        encoded.push((encode(params[k].0.as_str()), encode(params[k].1.as_str())));
        proof {
            assert(crate::http_util::params_view(encoded@) =~= before.push(
                enc(raw_params[k as int]),
            ));
            assert(raw_params.take(k as int + 1).map_values(enc) =~= raw_params.take(
                k as int,
            ).map_values(enc).push(enc(raw_params[k as int])));
        }
        k = k + 1;
    }
    let ghost all_params = all_params_spec(
        consumer_key@,
        nonce@,
        timestamp@,
        crate::http_util::params_view(addtl_params@),
    );
    proof {
        assert(raw_params.take(raw_params.len() as int) =~= raw_params);
        assert(raw_params.map_values(enc) =~= all_params);
    }
    let mut sorted = sorted_pairs(&encoded);
    proof {
        lemma_sort_pairs_len(all_params);
    }
    let parameter = concat_params(&sorted, "&");
    let mut base = method.to_owned();
    base.append("&");
    base.append(encode(uri).as_str());
    base.append("&");
    base.append(encode(parameter.as_str()).as_str());
    proof {
        assert(base@ == signature_base_spec(method@, uri@, all_params));
    }
    let signature = sign(base.as_str(), sign_key);
    let ghost sorted_view = crate::http_util::params_view(sorted@);
    sorted.push((encode("oauth_signature"), encode(signature.as_str())));
    proof {
        assert(crate::http_util::params_view(sorted@) =~= sorted_view.push(
            (
                pct_encode_spec("oauth_signature"@),
                pct_encode_spec(sign_spec(signature_base_spec(method@, uri@, all_params), sign_key@)),
            ),
        ));
    }
    let mut header = "OAuth ".to_owned();
    header.append(concat_params(&sorted, ", ").as_str());
    header
}

proof fn lemma_sort_pairs_len(s: Seq<(Seq<char>, Seq<char>)>)
    ensures
        sort_pairs(s).len() == s.len(),
    decreases s.len(),
{
    if s.len() > 0 {
        lemma_sort_pairs_len(s.drop_last());
        lemma_insert_pair_len(sort_pairs(s.drop_last()), s.last());
    }
}

proof fn lemma_insert_pair_len(s: Seq<(Seq<char>, Seq<char>)>, x: (Seq<char>, Seq<char>))
    ensures
        insert_pair(s, x).len() == s.len() + 1,
    decreases s.len(),
{
    if s.len() > 0 && lex_lt(x.0, s.last().0) {
        lemma_insert_pair_len(s.drop_last(), x);
    }
}

/// Builds the authorization header for a signed request: a fresh nonce and
/// the present time go into the percent-encoded parameters, which are
/// sorted, signed with HMAC-SHA1 over the signature base string, and joined.
pub fn build_header(
    sign_key: &str,
    consumer_key: &str,
    method: &str,
    uri: &str,
    addtl_params: &Vec<(String, String)>,
) -> (r: String)
    ensures
        exists|nonce: Seq<char>, ts: Seq<char>|
            nonce.len() == 32 && ts.len() > 0 && all_digits(ts) && r@ == header_spec(
                sign_key@,
                consumer_key@,
                method@,
                uri@,
                crate::http_util::params_view(addtl_params@),
                nonce,
                ts,
            ),
{
    let nonce = build_nonce();
    let timestamp = get_timestamp_string();
    let r = build_header_with(
        sign_key,
        consumer_key,
        method,
        uri,
        addtl_params,
        nonce.as_str(),
        timestamp.as_str(),
    );
    proof {
        assert(nonce@.len() == 32 && timestamp@.len() > 0 && all_digits(timestamp@) && r@
            == header_spec(
            sign_key@,
            consumer_key@,
            method@,
            uri@,
            crate::http_util::params_view(addtl_params@),
            nonce@,
            timestamp@,
        ));
    }
    r
}

} // verus!
