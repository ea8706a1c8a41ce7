//! Configuration of the static file service: base directories, the
//! not-found fallback, the media-type table, and the parsing of range
//! requests. Reading the files themselves is I/O and lives with the
//! unverified shell.

use vstd::prelude::*;

use crate::http_util::find_char;
use crate::strutil::{all_digits, digits_value, parse_u64, starts_with_spec, starts_with_str, str_eq};

verus! {

/// Which base directory a file request is served from.
#[derive(Debug)]
pub enum BaseDirectory {
    Content,
    Uploads,
}

/// The media type served for a file extension, from the table.
pub open spec fn mime_lookup(entries: Seq<(Seq<char>, Seq<char>)>, ext: Seq<char>) -> Seq<char>
    decreases entries.len(),
{
    if entries.len() == 0 {
        "text/plain; charset=utf-8"@
    } else if entries.first().0 == ext {
        entries.first().1
    } else {
        mime_lookup(entries.drop_first(), ext)
    }
}

/// Configuration of the file service.
pub struct ServiceConfig {
    content_dir: String,
    uploads_dir: String,
    not_found_file: String,
    mime_type_map: Vec<(String, String)>,
}

impl ServiceConfig {
    pub closed spec fn content_dir_spec(&self) -> Seq<char> {
        self.content_dir@
    }

    pub closed spec fn uploads_dir_spec(&self) -> Seq<char> {
        self.uploads_dir@
    }

    pub closed spec fn not_found_file_spec(&self) -> Seq<char> {
        self.not_found_file@
    }

    pub closed spec fn mime_entries(&self) -> Seq<(Seq<char>, Seq<char>)> {
        crate::http_util::params_view(self.mime_type_map@)
    }

    pub fn new(content_dir: String, uploads_dir: String, not_found_file: String) -> (r: Self)
        ensures
            r.content_dir_spec() == content_dir@,
            r.uploads_dir_spec() == uploads_dir@,
            r.not_found_file_spec() == not_found_file@,
    {
        let mut mime_type_map: Vec<(String, String)> = Vec::new();
        mime_type_map.push(("html".to_owned(), "text/html; charset=utf-8".to_owned()));
        mime_type_map.push(
            ("js".to_owned(), "application/javascript; charset=utf-8".to_owned()),
        );
        mime_type_map.push(("png".to_owned(), "image/png".to_owned()));
        mime_type_map.push(("jpeg".to_owned(), "image/jpeg".to_owned()));
        mime_type_map.push(("jpg".to_owned(), "image/jpeg".to_owned()));
        mime_type_map.push(("gif".to_owned(), "image/gif".to_owned()));
        mime_type_map.push(("svg".to_owned(), "image/svg+xml".to_owned()));
        mime_type_map.push(("webm".to_owned(), "video/webm".to_owned()));
        mime_type_map.push(("mp4".to_owned(), "video/mp4".to_owned()));
        Self { content_dir, uploads_dir, not_found_file, mime_type_map }
    }

    pub fn content_dir(&self) -> (r: &str)
        ensures
            r@ == self.content_dir_spec(),
    {
        self.content_dir.as_str()
    }

    pub fn uploads_dir(&self) -> (r: &str)
        ensures
            r@ == self.uploads_dir_spec(),
    {
        self.uploads_dir.as_str()
    }

    pub fn not_found_file(&self) -> (r: &str)
        ensures
            r@ == self.not_found_file_spec(),
    {
        self.not_found_file.as_str()
    }

    /// The media type served for a file extension; plain text for one the
    /// table does not know.
    pub fn get_mime_type(&self, file_extension: &str) -> (r: &str)
        ensures
            r@ == mime_lookup(self.mime_entries(), file_extension@),
    {
        let ghost entries = self.mime_entries();
        proof {
            assert(entries.skip(0) =~= entries);
        }
        let mut i: usize = 0;
        while i < self.mime_type_map.len()
            invariant
                0 <= i <= self.mime_type_map@.len(),
                entries == self.mime_entries(),
                entries.len() == self.mime_type_map@.len(),
                mime_lookup(entries, file_extension@) == mime_lookup(
                    entries.skip(i as int),
                    file_extension@,
                ),
            decreases self.mime_type_map@.len() - i,
        {
            proof {
                assert(entries.skip(i as int).first() == entries[i as int]);
                assert(entries.skip(i as int).drop_first() =~= entries.skip(i as int + 1));
            }
            if str_eq(self.mime_type_map[i].0.as_str(), file_extension) {
                return self.mime_type_map[i].1.as_str();
            }
            i = i + 1;
        }
        proof {
            assert(entries.skip(self.mime_type_map@.len() as int) =~= Seq::<(
                Seq<char>,
                Seq<char>,
            )>::empty());
        }
        "text/plain; charset=utf-8"
    }
}

/// A byte range requested for a file.
#[derive(Debug)]
pub struct RequestRange {
    pub start: u64,
    pub end: u64,
}

/// Whether a range header value has the form `bytes={start}-{end}` with two
/// decimal numbers that fit in a `u64`.
pub open spec fn range_parse_spec(s: Seq<char>) -> Option<(u64, u64)> {
    if !starts_with_spec(s, "bytes="@) {
        None
    } else {
        let rest = s.skip(6);
        match find_char(rest, '-') {
            None => None,
            Some(k) => {
                let a = rest.take(k);
                let b = rest.skip(k + 1);
                if a.len() > 0 && all_digits(a) && digits_value(a) <= u64::MAX && b.len() > 0
                    && all_digits(b) && digits_value(b) <= u64::MAX {
                    Some((digits_value(a) as u64, digits_value(b) as u64))
                } else {
                    None
                }
            },
        }
    }
}

/// Parses a range header value of the form `bytes={start}-{end}`.
pub fn parse_range(value: &str) -> (r: Option<RequestRange>)
    ensures
        match r {
            Some(range) => range_parse_spec(value@) == Some((range.start, range.end)),
            None => range_parse_spec(value@) is None,
        },
{
    if !starts_with_str(value, "bytes=") {
        proof {
            reveal_strlit("bytes=");
        }
        return None;
    }
    proof {
        reveal_strlit("bytes=");
    }
    let n = value.unicode_len();
    let ghost rest = value@.skip(6);
    proof {
        crate::http_util::lemma_find_char_spec(rest, '-');
    }
    let mut k: usize = 6;
    while k < n && value.get_char(k) != '-'
        invariant
            6 <= k <= n,
            n == value@.len(),
            n >= 6,
            rest == value@.skip(6),
            forall|j: int| 0 <= j < k - 6 ==> rest[j] != '-',
        decreases n - k,
    {
        proof {
            assert(rest[k - 6] == value@[k as int]);
        }
        k = k + 1;
    }
    if k == n {
        proof {
            if find_char(rest, '-') is Some {
                let i = find_char(rest, '-')->0;
                assert(rest[i] == '-');
                assert(false);
            }
        }
        return None;
    }
    proof {
        assert(rest[k - 6] == value@[k as int]);
        match find_char(rest, '-') {
            None => {
                assert(false);
            },
            Some(i) => {
                if i < k - 6 {
                    assert(rest[i] != '-');
                    assert(false);
                } else if i > k - 6 {
                    assert(rest[k - 6] != '-');
                    assert(false);
                }
            },
        }
        assert(rest.take(k - 6) =~= value@.subrange(6, k as int));
        assert(rest.skip(k - 6 + 1) =~= value@.subrange(k + 1, n as int));
    }
    let start_str = value.substring_char(6, k);
    let end_str = value.substring_char(k + 1, n);
    let start = match parse_u64(start_str) {
        Some(v) => v,
        None => {
            return None;
        },
    };
    let end = match parse_u64(end_str) {
        Some(v) => v,
        None => {
            return None;
        },
    };
    Some(RequestRange { start, end })
}

/// The file service: holds the configuration its file reads, which live
/// with the unverified shell, run under.
pub struct Service {
    config: ServiceConfig,
}

impl Service {
    /// Creates a new instance of the service.
    pub fn new(config: ServiceConfig) -> (r: Self)
        ensures
            r.config_spec() == config,
    {
        Self { config }
    }

    pub closed spec fn config_spec(&self) -> ServiceConfig {
        self.config
    }

    pub fn config(&self) -> (r: &ServiceConfig)
        ensures
            r == self.config_spec(),
    {
        &self.config
    }
}

} // verus!
