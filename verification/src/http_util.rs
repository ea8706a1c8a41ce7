//! The error type surfaced to callers, and the parsing of query-string
//! parameters and paging options.

use vstd::prelude::*;
use vstd::string::StringSliceAdditionalSpecFns;

use crate::adapters::AdapterError;
use crate::strutil::{all_digits, digits_value, parse_u16, str_eq};

verus! {

/// Largest page size a caller may request.
pub const MAX_LIMIT: u16 = 50;

/// Page size used when the caller names none.
pub const DEFAULT_LIMIT: u16 = 10;

/// Offset used when the caller names none.
pub const DEFAULT_OFFSET: u16 = 0;

/// Error surfaced to the caller. `BadRequest` carries the validation
/// message; the opaque variants may carry a message or fall back to a fixed
/// one.
#[derive(Debug)]
pub enum HttpError {
    BadRequest(Vec<u8>),
    InternalError(Option<Vec<u8>>),
    Unauthorized(Option<Vec<u8>>),
    NotFound(Option<Vec<u8>>),
}

impl HttpError {
    /// The response body and status code of the error.
    pub fn to_response_parts(self) -> (r: (Vec<u8>, u16))
        ensures
            match self {
                HttpError::BadRequest(m) => r.0@ == m@ && r.1 == 400u16,
                HttpError::InternalError(m) => r.1 == 500u16 && (match m {
                    Some(b) => r.0@ == b@,
                    None => r.0@ == "Internal server error".spec_bytes(),
                }),
                HttpError::Unauthorized(m) => r.1 == 401u16 && (match m {
                    Some(b) => r.0@ == b@,
                    None => r.0@ == "Unauthorized".spec_bytes(),
                }),
                HttpError::NotFound(m) => r.1 == 404u16 && (match m {
                    Some(b) => r.0@ == b@,
                    None => r.0@ == "The requested resource is not available".spec_bytes(),
                }),
            },
    {
        match self {
            HttpError::BadRequest(msg) => (msg, 400),
            HttpError::InternalError(msg) => {
                let body = match msg {
                    Some(b) => b,
                    None => msg_bytes("Internal server error"),
                };
                (body, 500)
            },
            HttpError::Unauthorized(msg) => {
                let body = match msg {
                    Some(b) => b,
                    None => msg_bytes("Unauthorized"),
                };
                (body, 401)
            },
            HttpError::NotFound(msg) => {
                let body = match msg {
                    Some(b) => b,
                    None => msg_bytes("The requested resource is not available"),
                };
                (body, 404)
            },
        }
    }
}

/// Whether an error is a `BadRequest` carrying exactly this message.
pub open spec fn is_bad_request(e: HttpError, msg: Seq<u8>) -> bool {
    match e {
        HttpError::BadRequest(m) => m@ == msg,
        _ => false,
    }
}

/// Whether an error is an `Unauthorized` without a message.
pub open spec fn is_unauthorized(e: HttpError) -> bool {
    match e {
        HttpError::Unauthorized(m) => m is None,
        _ => false,
    }
}

/// Whether an error is an `InternalError` without a message.
pub open spec fn is_internal(e: HttpError) -> bool {
    match e {
        HttpError::InternalError(m) => m is None,
        _ => false,
    }
}

/// Whether an error is a `NotFound` without a message.
pub open spec fn is_not_found(e: HttpError) -> bool {
    match e {
        HttpError::NotFound(m) => m is None,
        _ => false,
    }
}

/// The UTF-8 bytes of a string, as carried in error messages.
pub fn msg_bytes(s: &str) -> (r: Vec<u8>)
    ensures
        r@ == s.spec_bytes(),
{
    s.as_bytes_vec()
}

/// Maps an adapter failure onto the error surfaced to the caller: an absent
/// record is distinct from an internal failure, and a refused guarded write
/// is the caller's fault.
pub fn build_http_result<T>(result: Result<T, AdapterError>) -> (r: Result<T, HttpError>)
    ensures
        result is Ok ==> r is Ok && r->Ok_0 == result->Ok_0,
        result is Err ==> r is Err && match result->Err_0 {
            AdapterError::DocumentNotFound => r->Err_0 == HttpError::NotFound(None::<Vec<u8>>),
            AdapterError::PreconditionFailed => is_bad_request(
                r->Err_0,
                "The proposal is not pending".spec_bytes(),
            ),
            AdapterError::InternalError => r->Err_0 == HttpError::InternalError(None::<Vec<u8>>),
        },
{
    match result {
        Ok(v) => Ok(v),
        Err(AdapterError::DocumentNotFound) => Err(HttpError::NotFound(None)),
        Err(AdapterError::PreconditionFailed) => Err(
            HttpError::BadRequest(msg_bytes("The proposal is not pending")),
        ),
        Err(AdapterError::InternalError) => Err(HttpError::InternalError(None)),
    }
}

/// The view of a parameter list.
pub open spec fn params_view(v: Seq<(String, String)>) -> Seq<(Seq<char>, Seq<char>)> {
    v.map_values(|p: (String, String)| (p.0@, p.1@))
}

/// Index of the first occurrence of `c` in `s`.
pub open spec fn find_char(s: Seq<char>, c: char) -> Option<int>
    decreases s.len(),
{
    if s.len() == 0 {
        None
    } else if s.first() == c {
        Some(0)
    } else {
        match find_char(s.drop_first(), c) {
            Some(i) => Some(i + 1),
            None => None,
        }
    }
}

pub proof fn lemma_find_char_spec(s: Seq<char>, c: char)
    ensures
        match find_char(s, c) {
            None => forall|j: int| 0 <= j < s.len() ==> s[j] != c,
            Some(i) => 0 <= i < s.len() && s[i] == c && forall|j: int| 0 <= j < i ==> s[j] != c,
        },
    decreases s.len(),
{
    if s.len() > 0 && !(s.first() == c) {
        lemma_find_char_spec(s.drop_first(), c);
        match find_char(s, c) {
            None => {
                assert forall|j: int| 0 <= j < s.len() implies s[j] != c by {
                    if j > 0 {
                        assert(s.drop_first()[j - 1] == s[j]);
                    }
                }
            },
            Some(i) => {
                assert(s.drop_first()[i - 1] == s[i]);
                assert forall|j: int| 0 <= j < i implies s[j] != c by {
                    if j > 0 {
                        assert(s.drop_first()[j - 1] == s[j]);
                    }
                }
            },
        }
    }
}

/// Index of the last `'='` in a segment.
pub open spec fn last_eq_index(s: Seq<char>) -> Option<int>
    decreases s.len(),
{
    if s.len() == 0 {
        None
    } else if s.last() == '=' {
        Some(s.len() - 1)
    } else {
        last_eq_index(s.drop_last())
    }
}

proof fn lemma_last_eq_spec(s: Seq<char>)
    ensures
        match last_eq_index(s) {
            None => forall|j: int| 0 <= j < s.len() ==> s[j] != '=',
            Some(i) => 0 <= i < s.len() && s[i] == '=' && forall|j: int|
                i < j < s.len() ==> s[j] != '=',
        },
    decreases s.len(),
{
    if s.len() > 0 && !(s.last() == '=') {
        lemma_last_eq_spec(s.drop_last());
        match last_eq_index(s) {
            None => {
                assert forall|j: int| 0 <= j < s.len() implies s[j] != '=' by {
                    if j < s.len() - 1 {
                        assert(s.drop_last()[j] == s[j]);
                    }
                }
            },
            Some(i) => {
                assert(s.drop_last()[i] == s[i]);
                assert forall|j: int| i < j < s.len() implies s[j] != '=' by {
                    if j < s.len() - 1 {
                        assert(s.drop_last()[j] == s[j]);
                    }
                }
            },
        }
    }
}

/// The parameter pair a query-string segment denotes: the text before its
/// last `'='` and the text after, both non-empty; otherwise nothing.
pub open spec fn segment_pair(seg: Seq<char>) -> Seq<(Seq<char>, Seq<char>)> {
    match last_eq_index(seg) {
        Some(k) => {
            if 0 < k && k < seg.len() - 1 {
                seq![(seg.take(k), seg.skip(k + 1))]
            } else {
                Seq::empty()
            }
        },
        None => Seq::empty(),
    }
}

/// The parameter pairs of a query string: segments are separated by `'&'`,
/// and each segment with text on both sides of its last `'='` yields a pair.
pub open spec fn qs_pairs(s: Seq<char>) -> Seq<(Seq<char>, Seq<char>)>
    decreases s.len(),
    via qs_pairs_decreases
{
    match find_char(s, '&') {
        None => segment_pair(s),
        Some(i) => segment_pair(s.take(i)) + qs_pairs(s.skip(i + 1)),
    }
}

#[via_fn]
proof fn qs_pairs_decreases(s: Seq<char>) {
    lemma_find_char_spec(s, '&');
}

/// The parameter pair of one segment `s[start..end]`, as executable code.
fn parse_segment(query: &str, start: usize, end: usize) -> (r: Option<(String, String)>)
    requires
        start <= end <= query@.len(),
    ensures
        ({
            let seg = query@.subrange(start as int, end as int);
            match r {
                Some(p) => segment_pair(seg) == seq![(p.0@, p.1@)],
                None => segment_pair(seg) == Seq::<(Seq<char>, Seq<char>)>::empty(),
            }
        }),
{
    let ghost seg = query@.subrange(start as int, end as int);
    proof {
        lemma_last_eq_spec(seg);
    }
    let mut k: usize = end;
    while k > start && query.get_char(k - 1) != '='
        invariant
            start <= k <= end,
            end <= query@.len(),
            seg == query@.subrange(start as int, end as int),
            forall|j: int| k - start <= j < seg.len() ==> seg[j] != '=',
        decreases k,
    {
        proof {
            assert(seg[k - 1 - start] == query@[k - 1]);
        }
        k = k - 1;
    }
    if k == start {
        // No '=' in the segment.
        proof {
            if last_eq_index(seg) is Some {
                assert(false);
            }
        }
        return None;
    }
    // seg[k - 1 - start] == '=' is the last '='.
    proof {
        assert(seg[k - 1 - start] == query@[k - 1]);
        match last_eq_index(seg) {
            None => {
                assert(false);
            },
            Some(i) => {
                if i < k - 1 - start {
                    assert(seg[k - 1 - start] != '=');
                    assert(false);
                } else if i > k - 1 - start {
                    assert(seg[i] != '=');
                    assert(false);
                }
            },
        }
    }
    if k - 1 == start || k == end {
        return None;
    }
    let param = query.substring_char(start, k - 1).to_owned();
    let value = query.substring_char(k, end).to_owned();
    proof {
        assert(param@ =~= seg.take(k - 1 - start));
        assert(value@ =~= seg.skip(k - start));
    }
    Some((param, value))
}

/// Parses a query string into its parameters and values, in order. A later
/// occurrence of a parameter overrides an earlier one on lookup.
pub fn parse_query_string(query: &str) -> (r: Vec<(String, String)>)
    ensures
        params_view(r@) == qs_pairs(query@),
{
    let n = query.unicode_len();
    let mut pairs: Vec<(String, String)> = Vec::new();
    let mut start: usize = 0;
    proof {
        assert(params_view(pairs@) =~= Seq::<(Seq<char>, Seq<char>)>::empty());
        assert(query@.skip(0) =~= query@);
        assert(params_view(pairs@) + qs_pairs(query@.skip(0)) =~= qs_pairs(query@));
    }
    loop
        invariant_except_break
            0 <= start <= n,
            n == query@.len(),
            params_view(pairs@) + qs_pairs(query@.skip(start as int)) == qs_pairs(query@),
        ensures
            params_view(pairs@) == qs_pairs(query@),
        decreases n - start,
    {
        let ghost rest = query@.skip(start as int);
        proof {
            lemma_find_char_spec(rest, '&');
        }
        // Find the end of the current segment.
        let mut end: usize = start;
        while end < n && query.get_char(end) != '&'
            invariant
                start <= end <= n,
                n == query@.len(),
                rest == query@.skip(start as int),
                forall|j: int| 0 <= j < end - start ==> rest[j] != '&',
            decreases n - end,
        {
            proof {
                assert(rest[end - start] == query@[end as int]);
            }
            end = end + 1;
        }
        proof {
            if end < n {
                assert(rest[end - start] == query@[end as int]);
                match find_char(rest, '&') {
                    None => {
                        assert(false);
                    },
                    Some(i) => {
                        if i < end - start {
                            assert(rest[i] != '&');
                            assert(false);
                        } else if i > end - start {
                            assert(rest[end - start] != '&');
                            assert(false);
                        }
                    },
                }
                assert(find_char(rest, '&') == Some(end - start as int));
                assert(rest.take(end - start as int) =~= query@.subrange(
                    start as int,
                    end as int,
                ));
                assert(rest.skip(end - start + 1) =~= query@.skip(end + 1));
            } else {
                if find_char(rest, '&') is Some {
                    let i = find_char(rest, '&')->0;
                    assert(rest[i] == '&');
                    assert(false);
                }
                assert(rest =~= query@.subrange(start as int, end as int));
            }
        }
        let ghost before = params_view(pairs@);
        match parse_segment(query, start, end) {
            Some(pair) => {
                pairs.push(pair);
                proof {
                    assert(params_view(pairs@) =~= before + seq![(pair.0@, pair.1@)]);
                }
            },
            None => {
                proof {
                    assert(params_view(pairs@) + Seq::<(Seq<char>, Seq<char>)>::empty()
                        =~= params_view(pairs@));
                }
            },
        }
        if end == n {
            proof {
                assert(qs_pairs(rest) == segment_pair(query@.subrange(start as int, end as int)));
                assert(params_view(pairs@) =~= before + segment_pair(
                    query@.subrange(start as int, end as int),
                ));
                assert(params_view(pairs@) =~= qs_pairs(query@));
            }
            break ;
        }
        proof {
            assert(qs_pairs(rest) == segment_pair(query@.subrange(start as int, end as int))
                + qs_pairs(query@.skip(end + 1)));
            assert(params_view(pairs@) =~= before + segment_pair(
                query@.subrange(start as int, end as int),
            ));
            assert(params_view(pairs@) + qs_pairs(query@.skip(end + 1)) =~= qs_pairs(query@));
        }
        start = end + 1;
    }
    pairs
}

/// The value of the last occurrence of a parameter, if any.
pub open spec fn lookup_param(pairs: Seq<(Seq<char>, Seq<char>)>, name: Seq<char>) -> Option<
    Seq<char>,
>
    decreases pairs.len(),
{
    if pairs.len() == 0 {
        None
    } else if pairs.last().0 == name {
        Some(pairs.last().1)
    } else {
        lookup_param(pairs.drop_last(), name)
    }
}

/// Looks up the value of a parameter; a later occurrence wins.
pub fn get_param<'a>(params: &'a Vec<(String, String)>, name: &str) -> (r: Option<&'a String>)
    ensures
        match r {
            Some(v) => lookup_param(params_view(params@), name@) == Some(v@),
            None => lookup_param(params_view(params@), name@) is None,
        },
{
    let ghost pairs = params_view(params@);
    proof {
        assert(pairs.take(params@.len() as int) =~= pairs);
    }
    let mut i: usize = params.len();
    while i > 0
        invariant
            0 <= i <= params@.len(),
            pairs == params_view(params@),
            pairs.len() == params@.len(),
            lookup_param(pairs, name@) == lookup_param(pairs.take(i as int), name@),
        decreases i,
    {
        proof {
            assert(pairs.take(i as int).last() == pairs[i - 1]);
            assert(pairs.take(i as int).drop_last() =~= pairs.take(i as int - 1));
        }
        if str_eq(params[i - 1].0.as_str(), name) {
            proof {
                assert(pairs[i - 1].0 == name@);
            }
            return Some(&params[i - 1].1);
        }
        proof {
            assert(pairs[i - 1].0 != name@);
        }
        i = i - 1;
    }
    proof {
        assert(pairs.take(0) =~= Seq::<(Seq<char>, Seq<char>)>::empty());
    }
    None
}

/// Whether a parameter value denotes a `u16`.
pub open spec fn is_u16_value(s: Seq<char>) -> bool {
    s.len() > 0 && all_digits(s) && digits_value(s) <= u16::MAX
}

/// Gets the paging options from the parsed parameters: `offset` (default 0)
/// and `limit` (default 10, capped at 50). A parameter that is present but
/// not a decimal `u16` is rejected with a message naming it.
pub fn get_paging_options(query_params: &Vec<(String, String)>) -> (r: Result<(u16, u16), String>)
    ensures
        ({
            let pairs = params_view(query_params@);
            let off = lookup_param(pairs, "offset"@);
            let lim = lookup_param(pairs, "limit"@);
            if off is Some && !is_u16_value(off->0) {
                r is Err && r->Err_0@ == "Invalid integer for parameter 'offset'"@
            } else if lim is Some && !is_u16_value(lim->0) {
                r is Err && r->Err_0@ == "Invalid integer for parameter 'limit'"@
            } else {
                &&& r is Ok
                &&& r->Ok_0.0 == (match off {
                    Some(v) => digits_value(v) as u16,
                    None => DEFAULT_OFFSET,
                })
                &&& r->Ok_0.1 == (match lim {
                    Some(v) => {
                        if digits_value(v) <= MAX_LIMIT {
                            digits_value(v) as u16
                        } else {
                            MAX_LIMIT
                        }
                    },
                    None => DEFAULT_LIMIT,
                })
            }
        }),
{
    let offset: u16 = match get_param(query_params, "offset") {
        Some(v) => match parse_u16(v.as_str()) {
            Some(x) => x,
            None => {
                return Err("Invalid integer for parameter 'offset'".to_owned());
            },
        },
        None => DEFAULT_OFFSET,
    };
    let limit: u16 = match get_param(query_params, "limit") {
        Some(v) => match parse_u16(v.as_str()) {
            Some(x) => {
                if x <= MAX_LIMIT {
                    x
                } else {
                    MAX_LIMIT
                }
            },
            None => {
                return Err("Invalid integer for parameter 'limit'".to_owned());
            },
        },
        None => DEFAULT_LIMIT,
    };
    Ok((offset, limit))
}

} // verus!
