//! Configuration, and the decisions taken around the pool's life.

use vstd::prelude::*;

#[allow(unused_imports)]
use crate::outside::{header_char, url_joined};
use crate::outside::{is_header_value, url_join};
#[allow(unused_imports)]
use crate::text::decimal;
use crate::text::push_decimal;

verus! {

/// Target of the logs that the client writes about itself.
pub const INTERNAL_TARGET: &'static str = "tracing_axiom::internal";

/// What requests name as their user agent.
pub const USER_AGENT: &'static str = "tracing-axiom/0.1.0";

/// The longest event queue there can be.
pub const MAX_QUEUE_LEN: usize = usize::MAX / 8;

/// How events are sent, and where to.
pub struct Config<'a> {
    pub api_key: &'a str,
    /// Absolute URL of the Axiom edge deployment.
    pub base_url: &'a str,
    pub dataset_id: &'a str,
    /// Event queue length. Events are dropped while the queue is full.
    pub evt_que_len: usize,
    pub service_name: &'static str,
    /// Try to collect this many events before sending.
    pub collect_target: usize,
    /// Send what there is if the target was not reached after this time.
    pub collect_timeout: std::time::Duration,
    /// Max number of concurrent senders.
    pub sender_pool_size: usize,
}

/// Why a configuration cannot be used.
#[derive(Clone, Copy, PartialEq, Eq, Structural, Debug)]
pub enum ConfigError {
    /// There is no sender.
    EmptyPool,
    /// The event queue has no place, or more than there can be.
    QueueLength,
    /// Base URL and dataset make no URL.
    IngestUrl,
    /// The API key cannot stand in a header.
    ApiKey,
}

/// What requests are made with.
pub struct Startup {
    /// Where batches are posted to.
    pub ingest_url: String,
    /// The `Authorization` header of every request.
    pub bearer: String,
}

/// The path of a dataset's ingest endpoint.
pub open spec fn ingest_path(dataset_id: Seq<char>) -> Seq<char> {
    "v1/ingest/"@ + dataset_id
}

/// All characters may stand in a header.
pub open spec fn header_text(text: Seq<char>) -> bool {
    forall|i: int| 0 <= i < text.len() ==> header_char(#[trigger] text[i])
}

/// `a` followed by `b`.
fn joined(a: &str, b: &str) -> (r: String)
    ensures
        r@ == a@ + b@,
{
    let mut out = a.to_owned();
    out.append(b);
    out
}

/// Where batches of a dataset are posted to.
pub fn ingest_url(base_url: &str, dataset_id: &str) -> (r: Option<String>)
    ensures
        match r {
            Some(url) => url_joined(base_url@, ingest_path(dataset_id@)) == Some(url@),
            None => url_joined(base_url@, ingest_path(dataset_id@)) is None,
        },
{
    url_join(base_url, joined("v1/ingest/", dataset_id).as_str())
}

/// The `Authorization` header for an API key, if the key can stand in one.
pub fn bearer(api_key: &str) -> (r: Option<String>)
    ensures
        r is Some <==> header_text(api_key@),
        r matches Some(text) ==> text@ == "Bearer "@ + api_key@,
{
    let text = joined("Bearer ", api_key);
    let usable = is_header_value(text.as_str());
    proof {
        reveal_strlit("Bearer ");
        let prefix = "Bearer "@;
        assert forall|i: int| 0 <= i < prefix.len() implies header_char(#[trigger] prefix[i]) by {}
        if usable {
            assert forall|i: int| 0 <= i < api_key@.len() implies header_char(
                #[trigger] api_key@[i],
            ) by {
                assert(text@[i + prefix.len()] == api_key@[i]);
            }
        } else {
            let i = choose|i: int| 0 <= i < text@.len() && !header_char(#[trigger] text@[i]);
            if i < prefix.len() {
                assert(text@[i] == prefix[i]);
            } else {
                assert(text@[i] == api_key@[i - prefix.len()]);
            }
        }
    }
    if usable {
        Some(text)
    } else {
        None
    }
}

impl<'a> Config<'a> {
    /// The first reason, if any, why the configuration cannot be used.
    pub open spec fn fault(self) -> Option<ConfigError> {
        if self.sender_pool_size == 0 {
            Some(ConfigError::EmptyPool)
        } else if self.evt_que_len == 0 || self.evt_que_len > MAX_QUEUE_LEN {
            Some(ConfigError::QueueLength)
        } else if url_joined(self.base_url@, ingest_path(self.dataset_id@)) is None {
            Some(ConfigError::IngestUrl)
        } else if !header_text(self.api_key@) {
            Some(ConfigError::ApiKey)
        } else {
            None
        }
    }

    /// Works out what requests are made with, or why there can be none.
    pub fn prepare(&self) -> (r: Result<Startup, ConfigError>)
        ensures
            match r {
                Ok(startup) => {
                    &&& self.fault() is None
                    &&& url_joined(self.base_url@, ingest_path(self.dataset_id@)) == Some(
                        startup.ingest_url@,
                    )
                    &&& startup.bearer@ == "Bearer "@ + self.api_key@
                },
                Err(e) => self.fault() == Some(e),
            },
            r == Err::<Startup, ConfigError>(ConfigError::EmptyPool) <==> self.sender_pool_size
                == 0,
            r is Ok <==> self.sender_pool_size >= 1 && 1 <= self.evt_que_len <= MAX_QUEUE_LEN
                && url_joined(self.base_url@, "v1/ingest/"@ + self.dataset_id@) is Some && (
            forall|i: int|
                0 <= i < self.api_key@.len() ==> header_char(#[trigger] self.api_key@[i])),
    {
        if self.sender_pool_size == 0 {
            return Err(ConfigError::EmptyPool);
        }
        if self.evt_que_len == 0 || self.evt_que_len > MAX_QUEUE_LEN {
            return Err(ConfigError::QueueLength);
        }
        match ingest_url(self.base_url, self.dataset_id) {
            None => Err(ConfigError::IngestUrl),
            Some(ingest_url) => match bearer(self.api_key) {
                None => Err(ConfigError::ApiKey),
                Some(bearer) => Ok(Startup { ingest_url, bearer }),
            },
        }
    }
}

/// A redirect that would drop the request body. Following it would likely be
/// answered with success although nobody ever looked at the body, for example
/// where it leads to a login page.
#[derive(Debug)]
pub struct LossyRedirect {
    pub status: u16,
    pub to: String,
}

impl LossyRedirect {
    /// The error text.
    pub fn message(&self) -> (r: String)
        ensures
            r@ == "lossy HTTP "@ + decimal(self.status as nat) + " redirect to "@ + self.to@
                + " would cut off our body"@,
    {
        let mut out = "lossy HTTP ".to_owned();
        push_decimal(self.status, &mut out);
        out.append(" redirect to ");
        out.append(self.to.as_str());
        out.append(" would cut off our body");
        out
    }
}

/// Decides about a redirect with `status` to the URL `to`: it is refused if its
/// kind discards the body, and otherwise left to the HTTP client.
pub fn check_redirect(status: u16, to: String) -> (r: Result<(), LossyRedirect>)
    ensures
        r is Err <==> status == 302 || status == 303,
        r matches Err(e) ==> e == (LossyRedirect { status, to }),
{
    if status == 302 || status == 303 {
        Err(LossyRedirect { status, to })
    } else {
        Ok(())
    }
}

/// How many event senders besides the client's own still exist, if any do, when
/// there are `strong_count` in all. They keep the event queue open.
pub fn lingering_senders(strong_count: usize) -> (r: Option<usize>)
    requires
        strong_count >= 1,
    ensures
        r == if strong_count > 1 {
            Some((strong_count - 1) as usize)
        } else {
            None
        },
{
    let senders: usize = strong_count - 1;
    if senders > 0 {
        Some(senders)
    } else {
        None
    }
}

} // verus!
