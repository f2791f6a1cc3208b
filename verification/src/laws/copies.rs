//! Copies are equal to what they were made of.

use crate::config::{CacheConfig, PersistenceConfig, RuntimeConfig, UpstreamConfig};
use crate::extract::RequestUri;
use crate::headers::header_fields;
use crate::responses_ws::ResponsesWsRequestBase;
use http::HeaderMap;
use vstd::prelude::*;

verus! {

/// A copy of a target or of a WebSocket's base holds what the first holds.
pub proof fn law_request_copies(
    uri: &RequestUri,
    uri_copy: RequestUri,
    headers: HeaderMap,
    made: ResponsesWsRequestBase,
    base: &ResponsesWsRequestBase,
    base_copy: ResponsesWsRequestBase,
)
    requires
        call_ensures(RequestUri::copy, (uri,), uri_copy),
        call_ensures(ResponsesWsRequestBase::new, (*uri, headers), made),
        call_ensures(<ResponsesWsRequestBase as Clone>::clone, (base,), base_copy),
    ensures
        uri_copy == *uri,
        made.uri == *uri && made.headers == headers,
        base_copy.uri == base.uri,
        header_fields(base_copy.headers) == header_fields(base.headers),
{
}

/// A copy of a configuration holds what the first holds.
pub proof fn law_config_copies(
    cache: &CacheConfig,
    cache_copy: CacheConfig,
    persistence: &PersistenceConfig,
    persistence_copy: PersistenceConfig,
    upstream: &UpstreamConfig,
    upstream_copy: UpstreamConfig,
    config: &RuntimeConfig,
    copy: RuntimeConfig,
)
    requires
        call_ensures(<CacheConfig as Clone>::clone, (cache,), cache_copy),
        call_ensures(<PersistenceConfig as Clone>::clone, (persistence,), persistence_copy),
        call_ensures(<UpstreamConfig as Clone>::clone, (upstream,), upstream_copy),
        call_ensures(<RuntimeConfig as Clone>::clone, (config,), copy),
    ensures
        cache_copy == *cache && persistence_copy == *persistence && upstream_copy == *upstream,
        copy.host == config.host && copy.port == config.port,
        copy.cache == config.cache && copy.persistence == config.persistence,
        copy.upstream == config.upstream && copy.instance_id == config.instance_id,
        copy.max_attempts == config.max_attempts && copy.max_in_flight == config.max_in_flight,
        copy.trusted_proxies@ == config.trusted_proxies@,
        copy.update_channel == config.update_channel,
        copy.update_data_dir == config.update_data_dir,
        copy.cors_origins@ == config.cors_origins@,
{
}

} // verus!
