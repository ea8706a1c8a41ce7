//! Configuration of the upload service and the validation it applies to an
//! upload. Saving, probing and transcoding the uploaded media are process
//! work and live with the unverified shell.

use vstd::prelude::*;
use vstd::string::StringSliceAdditionalSpecFns;

use crate::http_util::{is_bad_request, HttpError};
use crate::strutil::{all_digits, digits_value, parse_u32};

verus! {

/// Configuration of the upload service.
pub struct ServiceConfig {
    publish_dir: String,
    video_tmp_dir: String,
    video_size_limit: u32,
}

impl ServiceConfig {
    pub closed spec fn publish_dir_spec(&self) -> Seq<char> {
        self.publish_dir@
    }

    pub closed spec fn video_tmp_dir_spec(&self) -> Seq<char> {
        self.video_tmp_dir@
    }

    pub closed spec fn video_size_limit_spec(&self) -> u32 {
        self.video_size_limit
    }

    pub fn new(publish_dir: String, video_tmp_dir: String, video_size_limit: u32) -> (r: Self)
        ensures
            r.publish_dir_spec() == publish_dir@,
            r.video_tmp_dir_spec() == video_tmp_dir@,
            r.video_size_limit_spec() == video_size_limit,
    {
        Self { publish_dir, video_tmp_dir, video_size_limit }
    }

    pub fn publish_dir(&self) -> (r: &str)
        ensures
            r@ == self.publish_dir_spec(),
    {
        self.publish_dir.as_str()
    }

    pub fn video_tmp_dir(&self) -> (r: &str)
        ensures
            r@ == self.video_tmp_dir_spec(),
    {
        self.video_tmp_dir.as_str()
    }

    pub fn video_size_limit(&self) -> (r: u32)
        ensures
            r == self.video_size_limit_spec(),
    {
        self.video_size_limit
    }
}

/// Parses a content-length header value as a decimal `u32`; a value that is
/// not one is the caller's fault.
pub fn parse_content_length(value: &str) -> (r: Result<u32, HttpError>)
    ensures
        r is Ok <==> value@.len() > 0 && all_digits(value@) && digits_value(value@) <= u32::MAX,
        r is Ok ==> r->Ok_0 == digits_value(value@),
        r is Err ==> is_bad_request(r->Err_0, "Invalid Content-Length value".spec_bytes()),
{
    match parse_u32(value) {
        Some(length) => Ok(length),
        None => Err(
            HttpError::BadRequest(crate::http_util::msg_bytes("Invalid Content-Length value")),
        ),
    }
}

/// The upload service: holds the configuration its media processing, which
/// lives with the unverified shell, runs under.
pub struct Service {
    config: ServiceConfig,
}

impl Service {
    /// Creates a new instance of the service.
    pub fn new(config: ServiceConfig) -> (r: Self)
        ensures
            r.config_spec() == config,
    {
        Self { config }
    }

    pub closed spec fn config_spec(&self) -> ServiceConfig {
        self.config
    }

    pub fn config(&self) -> (r: &ServiceConfig)
        ensures
            r == self.config_spec(),
    {
        &self.config
    }

    /// Whether an upload of this length is within the configured limit.
    pub fn within_size_limit(&self, length: u32) -> (r: bool)
        ensures
            r == (length <= self.config_spec().video_size_limit_spec()),
    {
        length <= self.config.video_size_limit()
    }
}

} // verus!
