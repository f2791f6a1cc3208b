//! What the configuration is built from.

use super::terms::{is_numeral, lemma_numeral};
use crate::config::{
    displayed_path, joined_path, may_resolve, sqlite_dsn_for, AbsoluteResult, CacheConfig,
    ConfigError, PersistenceConfig, PersistenceKind, RuntimeConfig, UpstreamConfig,
};
use crate::text::{decimal, is_white_space, trimmed_end, trimmed_start, white_space};
use std::path::PathBuf;
use vstd::prelude::*;

verus! {

/// The characters that Unicode counts as white space.
pub open spec fn is_blank(c: char) -> bool {
    let n = c as int;
    9 <= n <= 13 || n == 32 || n == 0x85 || n == 0xa0 || n == 0x1680 || 0x2000 <= n <= 0x200a || n
        == 0x2028 || n == 0x2029 || n == 0x202f || n == 0x205f || n == 0x3000
}

/// Whether a text is white space alone.
pub open spec fn all_blank(s: Seq<char>) -> bool {
    forall|i: int| 0 <= i < s.len() ==> is_blank(#[trigger] s[i])
}

/// Just the characters that Unicode counts as such are white space.
pub proof fn law_white_space(c: char, r: bool)
    requires
        call_ensures(is_white_space, (c,), r),
    ensures
        r == is_blank(c),
{
}

proof fn lemma_start(s: Seq<char>)
    ensures
        exists|a: Seq<char>| #[trigger] (a + trimmed_start(s)) == s && all_blank(a),
        trimmed_start(s).len() > 0 ==> !is_blank(trimmed_start(s)[0]),
    decreases s.len(),
{
    if s.len() > 0 && white_space(s[0]) {
        let t = s.drop_first();
        lemma_start(t);
        let a = choose|a: Seq<char>| #[trigger] (a + trimmed_start(t)) == t && all_blank(a);
        let b = seq![s[0]] + a;
        assert(seq![s[0]] + t =~= s);
        assert(trimmed_start(s) == trimmed_start(t));
        assert(b + trimmed_start(s) =~= seq![s[0]] + (a + trimmed_start(t)));
        assert forall|i: int| 0 <= i < b.len() implies is_blank(#[trigger] b[i]) by {
            if i > 0 {
                assert(b[i] == a[i - 1]);
            }
        }
    } else {
        let none = Seq::<char>::empty();
        assert(none + trimmed_start(s) =~= s);
    }
}

proof fn lemma_end(s: Seq<char>)
    ensures
        exists|b: Seq<char>| #[trigger] (trimmed_end(s) + b) == s && all_blank(b),
        trimmed_end(s).len() > 0 ==> !is_blank(trimmed_end(s).last()) && trimmed_end(s)[0] == s[0]
            && s.len() > 0,
    decreases s.len(),
{
    if s.len() > 0 && white_space(s.last()) {
        let t = s.drop_last();
        lemma_end(t);
        let b = choose|b: Seq<char>| #[trigger] (trimmed_end(t) + b) == t && all_blank(b);
        let c = b.push(s.last());
        assert(t.push(s.last()) =~= s);
        assert(trimmed_end(s) == trimmed_end(t));
        assert(trimmed_end(s) + c =~= (trimmed_end(t) + b).push(s.last()));
        assert forall|i: int| 0 <= i < c.len() implies is_blank(#[trigger] c[i]) by {
            if i < b.len() {
                assert(c[i] == b[i]);
            }
        }
    } else {
        let none = Seq::<char>::empty();
        assert(trimmed_end(s) + none =~= s);
    }
}

/// Whether a text is another without the white space around it.
pub open spec fn is_core(core: Seq<char>, s: Seq<char>) -> bool {
    &&& core.len() > 0 && !is_blank(core[0]) && !is_blank(core.last())
    &&& exists|a: Seq<char>, b: Seq<char>| #[trigger] (a + core + b) == s && all_blank(a)
        && all_blank(b)
}

/// A proxy is the address that was given without the white space around it, and
/// none where nothing but white space was given.
pub proof fn law_proxy(url: Option<String>, r: UpstreamConfig)
    requires
        call_ensures(UpstreamConfig::from_proxy_url, (url,), r),
    ensures
        url is None ==> r.proxy_url is None,
        url matches Some(s) ==> match r.proxy_url {
            None => all_blank(s@),
            Some(u) => is_core(u@, s@),
        },
        url matches Some(s) ==> all_blank(s@) ==> r.proxy_url is None,
{
    if let Some(s) = url {
        let t = trimmed_start(s@);
        let u = trimmed_end(t);
        lemma_start(s@);
        lemma_end(t);
        let a = choose|a: Seq<char>| #[trigger] (a + t) == s@ && all_blank(a);
        let b = choose|b: Seq<char>| #[trigger] (u + b) == t && all_blank(b);
        assert(a + u + b =~= s@);
        if u.len() > 0 {
            assert(s@[a.len() as int] == u[0]);
        } else {
            assert(s@ =~= a + b);
            assert forall|i: int| 0 <= i < s@.len() implies is_blank(#[trigger] s@[i]) by {
                if i < a.len() {
                    assert(s@[i] == a[i]);
                } else {
                    assert(s@[i] == b[i - a.len()]);
                }
            }
        }
    }
}

/// A cache is Redis at the address that was given, and memory where none was.
pub proof fn law_cache(url: Option<String>, r: CacheConfig)
    requires
        call_ensures(CacheConfig::from_url, (url,), r),
    ensures
        url matches Some(u) ==> (r matches CacheConfig::Redis { url: v } && v@ == u@),
        url is None ==> r is Memory,
{
}

/// Whether a configuration is the default database at a path that is absolute, or
/// the reason why there is none.
pub open spec fn is_default_database(
    r: Result<PersistenceConfig, ConfigError>,
    outcome: Result<PathBuf, Seq<char>>,
) -> bool {
    match outcome {
        Ok(path) => r matches Ok(PersistenceConfig::Db { dsn }) && dsn@ == "sqlite://"@
            + displayed_path(path) + "?mode=rwc"@,
        Err(reason) => r matches Err(ConfigError::DefaultDbPath { reason: e }) && e@ == reason,
    }
}

/// A database with a name keeps it, whatever it is. Without a name, and for the
/// former file backend whether or not one was given, it is the SQLite file at the
/// path that was resolved.
pub proof fn law_persistence(
    kind: PersistenceKind,
    dsn: Option<String>,
    resolved: Result<PathBuf, String>,
    r: Result<PersistenceConfig, ConfigError>,
)
    requires
        call_ensures(PersistenceConfig::from_resolved, (kind, dsn, resolved), r),
    ensures
        kind is Db && dsn is Some ==> (r matches Ok(PersistenceConfig::Db { dsn: d }) && d@
            == dsn->0@),
        kind is File || dsn is None ==> is_default_database(
            r,
            match resolved {
                Ok(path) => Ok(path),
                Err(reason) => Err(reason@),
            },
        ),
{
}

/// The default database is `gproxy.db` in the data directory, at whatever the
/// path resolves to; a given name is kept without looking.
pub proof fn law_persistence_in_data_dir(
    kind: PersistenceKind,
    data_dir: PathBuf,
    dsn: Option<String>,
    r: Result<PersistenceConfig, ConfigError>,
)
    requires
        call_ensures(PersistenceConfig::from_parts, (kind, data_dir, dsn), r),
    ensures
        kind is Db && dsn is Some ==> (r matches Ok(PersistenceConfig::Db { dsn: d }) && d@
            == dsn->0@),
        kind is File || dsn is None ==> exists|outcome: AbsoluteResult| #[trigger]
            may_resolve(joined_path(data_dir, "gproxy.db"@), outcome) && is_default_database(
                r,
                outcome,
            ),
{
    if kind is File || dsn is None {
        let outcome = choose|outcome: AbsoluteResult| #[trigger]
            may_resolve(joined_path(data_dir, "gproxy.db"@), outcome) && crate::config::dsn_result(
                r,
            ) == crate::config::resolved_dsn(kind, crate::config::given_dsn(dsn), outcome);
        assert(is_default_database(r, outcome));
    }
}

/// A data source name is the path between the scheme and the mode.
pub proof fn law_sqlite_dsn(path: &str, r: String, error: ConfigError, message: String)
    requires
        call_ensures(sqlite_dsn_for, (path,), r),
        call_ensures(ConfigError::message, (&error,), message),
    ensures
        r@ == "sqlite://"@ + path@ + "?mode=rwc"@,
        error matches ConfigError::DefaultDbPath { reason } && message@
            == "resolve default db path: "@ + reason@,
{
}

/// The address to listen on is the host, a colon and the port's numeral, and an
/// address that is none is reported with it and the reason.
pub proof fn law_bind_address(config: &RuntimeConfig, r: String, reason: &str, error: String)
    requires
        call_ensures(RuntimeConfig::bind_addr, (config,), r),
        call_ensures(RuntimeConfig::bind_error, (config, reason), error),
    ensures
        exists|n: Seq<char>| #[trigger]
            is_numeral(n, config.port as int) && r@ == config.host@ + ":"@ + n,
        error@ == "invalid bind address "@ + r@ + ": "@ + reason@,
{
    lemma_numeral(config.port as nat);
    assert(is_numeral(decimal(config.port as nat), config.port as int));
}

/// What logs show names the kind of a configuration and nothing that it carries.
pub proof fn law_shown(
    cache: &CacheConfig,
    cache_text: String,
    persistence: &PersistenceConfig,
    persistence_text: String,
    upstream: &UpstreamConfig,
    upstream_text: String,
)
    requires
        call_ensures(CacheConfig::debug_text, (cache,), cache_text),
        call_ensures(PersistenceConfig::debug_text, (persistence,), persistence_text),
        call_ensures(UpstreamConfig::debug_text, (upstream,), upstream_text),
    ensures
        cache is Memory ==> cache_text@ == "Memory"@,
        cache is Redis ==> cache_text@ == "Redis { url: <redacted> }"@,
        cache is Libsql ==> cache_text@ == "Libsql { url: <redacted> }"@,
        cache is Upstash ==> cache_text@ == "Upstash { url: <redacted> }"@,
        persistence_text@ == "Db { dsn: <redacted> }"@,
        upstream.proxy_url is Some ==> upstream_text@
            == "UpstreamConfig { proxy_url: <redacted> }"@,
        upstream.proxy_url is None ==> upstream_text@ == "UpstreamConfig { proxy_url: None }"@,
{
}

} // verus!
