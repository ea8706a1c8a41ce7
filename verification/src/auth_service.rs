//! Configuration of the authentication service. The service itself issues
//! and validates tokens at the process edge; the engine only consumes the
//! claims it decodes (see [`crate::claims`]).

use vstd::prelude::*;
use vstd::string::StringSliceAdditionalSpecFns;

verus! {

/// Credentials and callback of the sign-in collaborator.
pub struct TwitterOauthConfig {
    consumer_key: String,
    consumer_secret: String,
    callback_url: String,
}

impl TwitterOauthConfig {
    pub closed spec fn consumer_key_spec(&self) -> Seq<char> {
        self.consumer_key@
    }

    pub closed spec fn consumer_secret_spec(&self) -> Seq<char> {
        self.consumer_secret@
    }

    pub closed spec fn callback_url_spec(&self) -> Seq<char> {
        self.callback_url@
    }

    pub fn new(consumer_key: String, consumer_secret: String, callback_url: String) -> (r: Self)
        ensures
            r.consumer_key_spec() == consumer_key@,
            r.consumer_secret_spec() == consumer_secret@,
            r.callback_url_spec() == callback_url@,
    {
        Self { consumer_key, consumer_secret, callback_url }
    }

    pub fn consumer_key(&self) -> (r: &str)
        ensures
            r@ == self.consumer_key_spec(),
    {
        self.consumer_key.as_str()
    }

    pub fn consumer_secret(&self) -> (r: &str)
        ensures
            r@ == self.consumer_secret_spec(),
    {
        self.consumer_secret.as_str()
    }

    pub fn callback_url(&self) -> (r: &str)
        ensures
            r@ == self.callback_url_spec(),
    {
        self.callback_url.as_str()
    }
}

/// Configuration of the authentication service.
pub struct ServiceConfig {
    oauth: TwitterOauthConfig,
    jwt_signing_secret: String,
}

impl ServiceConfig {
    pub closed spec fn jwt_signing_secret_spec(&self) -> Seq<char> {
        self.jwt_signing_secret@
    }

    /// The signing secret as the bytes handed to the token library.
    pub closed spec fn jwt_signing_secret_bytes(&self) -> Seq<u8> {
        vstd::utf8::encode_utf8(self.jwt_signing_secret@)
    }

    pub closed spec fn twitter_oauth_spec(&self) -> TwitterOauthConfig {
        self.oauth
    }

    pub fn new(oauth: TwitterOauthConfig, jwt_signing_secret: String) -> (r: Self)
        ensures
            r.twitter_oauth_spec() == oauth,
            r.jwt_signing_secret_spec() == jwt_signing_secret@,
    {
        Self { oauth, jwt_signing_secret }
    }

    pub fn jwt_signing_secret(&self) -> (r: &[u8])
        ensures
            r@ == self.jwt_signing_secret_bytes(),
    {
        self.jwt_signing_secret.as_str().as_bytes()
    }

    pub fn twitter_oauth(&self) -> (r: &TwitterOauthConfig)
        ensures
            r == self.twitter_oauth_spec(),
    {
        &self.oauth
    }
}

/// The authentication service: holds the configuration its token and
/// sign-in operations, which live with the unverified shell, run under.
pub struct Service {
    config: ServiceConfig,
}

impl Service {
    /// Creates a new instance of the auth service.
    pub fn new(config: ServiceConfig) -> (r: Self)
        ensures
            r.config_spec() == config,
    {
        Self { config }
    }

    pub closed spec fn config_spec(&self) -> ServiceConfig {
        self.config
    }

    pub fn config(&self) -> (r: &ServiceConfig)
        ensures
            r == self.config_spec(),
    {
        &self.config
    }
}

} // verus!
