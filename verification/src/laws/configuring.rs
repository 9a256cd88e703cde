//! Configuration, redirects and shutdown.

use vstd::prelude::*;

#[allow(unused_imports)]
use crate::config::{
    bearer, check_redirect, ingest_url, lingering_senders, Config, ConfigError, LossyRedirect,
    Startup, INTERNAL_TARGET, USER_AGENT,
};
#[allow(unused_imports)]
use crate::metrics::{PKG_VERSION, SCOPE_NAME};
#[allow(unused_imports)]
use crate::outside::url_joined;
#[allow(unused_imports)]
use crate::text::decimal;

verus! {

/// A configuration is refused for want of senders exactly if there are none; for
/// its queue exactly if there are senders, but the queue has no place or more than
/// an eighth of what a `usize` can count; for its URL exactly if these are in
/// order, but base and dataset make no URL; for its key exactly if all else is in
/// order, but some character of the key is a control character other than the tab.
/// Any other configuration is usable, whatever the numbers of senders, of queue
/// places and of events in a batch: batches go to the dataset's ingest path below
/// the base, with the key as bearer.
pub proof fn law_configuration_is_refused_for_its_faults_only(
    cfg: Config<'_>,
    r: Result<Startup, ConfigError>,
)
    requires
        call_ensures(Config::prepare, (&cfg,), r),
    ensures
        ({
            let queue = 1 <= cfg.evt_que_len <= usize::MAX / 8;
            let url = url_joined(cfg.base_url@, "v1/ingest/"@ + cfg.dataset_id@);
            let key = forall|i: int|
                0 <= i < cfg.api_key@.len() ==> #[trigger] cfg.api_key@[i] == '\t' || (
                cfg.api_key@[i] >= ' ' && cfg.api_key@[i] != '\u{7f}');
            let pool = cfg.sender_pool_size >= 1;
            &&& r == Err::<Startup, ConfigError>(ConfigError::EmptyPool) <==> !pool
            &&& r == Err::<Startup, ConfigError>(ConfigError::QueueLength) <==> pool && !queue
            &&& r == Err::<Startup, ConfigError>(ConfigError::IngestUrl) <==> pool && queue
                && url is None
            &&& r == Err::<Startup, ConfigError>(ConfigError::ApiKey) <==> pool && queue
                && url is Some && !key
            &&& r is Ok <==> pool && queue && url is Some && key
            &&& r matches Ok(startup) ==> url == Some(startup.ingest_url@) && startup.bearer@
                == "Bearer "@ + cfg.api_key@
        }),
{
    assert forall|i: int| 0 <= i < cfg.api_key@.len() implies crate::outside::header_char(
        #[trigger] cfg.api_key@[i],
    ) == (cfg.api_key@[i] == '\t' || (cfg.api_key@[i] >= ' ' && cfg.api_key@[i] != '\u{7f}')) by {}
}

/// What only concerns how events are collected has no part in whether a
/// configuration is usable, nor in what requests are made with; and two usable
/// configurations with the same base, dataset and key make the same requests.
pub proof fn law_usable_whatever_the_numbers(
    a: Config<'_>,
    b: Config<'_>,
    ra: Result<Startup, ConfigError>,
    rb: Result<Startup, ConfigError>,
)
    requires
        call_ensures(Config::prepare, (&a,), ra),
        call_ensures(Config::prepare, (&b,), rb),
        a.base_url@ == b.base_url@,
        a.dataset_id@ == b.dataset_id@,
        a.api_key@ == b.api_key@,
        a.sender_pool_size > 0,
        b.sender_pool_size > 0,
        1 <= a.evt_que_len <= usize::MAX / 8,
        1 <= b.evt_que_len <= usize::MAX / 8,
    ensures
        match (ra, rb) {
            (Ok(x), Ok(y)) => x.ingest_url@ == y.ingest_url@ && x.bearer@ == y.bearer@,
            (Err(x), Err(y)) => x == y,
            _ => false,
        },
{
    law_configuration_is_refused_for_its_faults_only(a, ra);
    law_configuration_is_refused_for_its_faults_only(b, rb);
}

/// Requests and exported metrics name this crate, each with the same version, and
/// its own logs are told from others by their target.
pub proof fn law_client_names_itself()
    ensures
        USER_AGENT@ == "tracing-axiom/"@ + PKG_VERSION@,
        "tracing-axiom/"@.is_prefix_of(SCOPE_NAME@),
        INTERNAL_TARGET@ == "tracing_axiom::internal"@,
{
    reveal_strlit("tracing-axiom/0.1.0");
    reveal_strlit("tracing-axiom/");
    reveal_strlit("0.1.0");
    reveal_strlit("tracing-axiom/spanmetrics");
    assert(USER_AGENT@ =~= "tracing-axiom/"@ + PKG_VERSION@);
    assert("tracing-axiom/"@ =~= SCOPE_NAME@.take("tracing-axiom/"@.len() as int));
}

/// The ingest URL is the base joined with the dataset's path, and is there
/// exactly if the two can be joined.
pub proof fn law_ingest_url(base_url: &str, dataset_id: &str, r: Option<String>)
    requires
        call_ensures(ingest_url, (base_url, dataset_id), r),
    ensures
        match url_joined(base_url@, "v1/ingest/"@ + dataset_id@) {
            Some(url) => r matches Some(text) && text@ == url,
            None => r is None,
        },
{
}

/// The header names the scheme, a space and the key, and is there exactly if no
/// character of the key is a control character other than the tab.
pub proof fn law_bearer(api_key: &str, r: Option<String>)
    requires
        call_ensures(bearer, (api_key,), r),
    ensures
        r is None <==> exists|i: int|
            0 <= i < api_key@.len() && (#[trigger] api_key@[i] < ' ' && api_key@[i] != '\t'
                || api_key@[i] == '\u{7f}'),
        r matches Some(text) ==> text@ == "Bearer "@ + api_key@,
{
    assert forall|i: int| 0 <= i < api_key@.len() implies crate::outside::header_char(
        #[trigger] api_key@[i],
    ) == !(api_key@[i] < ' ' && api_key@[i] != '\t' || api_key@[i] == '\u{7f}') by {}
}

/// A redirect is refused exactly if it is one of the two kinds that discard the
/// body, and the refusal says which it was and where it led.
pub proof fn law_redirect_is_refused_if_it_discards_the_body(
    status: u16,
    to: String,
    r: Result<(), LossyRedirect>,
)
    requires
        call_ensures(check_redirect, (status, to), r),
    ensures
        status == 302 || status == 303 ==> (r matches Err(e) && e.status == status && e.to@ == to@),
        status != 302 && status != 303 ==> r is Ok,
{
}

/// The message of a refused redirect names its status and where it led.
pub proof fn law_redirect_message(e: LossyRedirect, r: String)
    requires
        call_ensures(LossyRedirect::message, (&e,), r),
    ensures
        r@ == "lossy HTTP "@ + decimal(e.status as nat) + " redirect to "@ + e.to@
            + " would cut off our body"@,
{
}

/// All event senders but one are lingering: with the one they make up the count,
/// and none are reported exactly if there is no other.
pub proof fn law_lingering_senders(strong_count: usize, r: Option<usize>)
    requires
        strong_count >= 1,
        call_ensures(lingering_senders, (strong_count,), r),
    ensures
        match r {
            Some(n) => n > 0 && n + 1 == strong_count,
            None => strong_count == 1,
        },
{
}

} // verus!
