//! Decision logic of the storage connection pool: DSN validation and
//! connection-string building, emulator detection, and session recycling.

use vstd::prelude::*;

use crate::db_error::{BigTableError, DbError};

verus! {

/// Default port of a `grpc://host[:port]` DSN.
pub const DEFAULT_GRPC_PORT: u16 = 8086;

/// Limit on transport message sizes, both directions.
pub const MAX_MESSAGE_LEN: i32 = 1 << 28;

/// Settings of the storage pool.
#[derive(Debug)]
pub struct BigTableDbSettings {
    /// The table health checks probe.
    pub table_name: String,
    /// Bound on the number of pooled sessions, if any.
    pub database_pool_max_size: Option<u32>,
    /// Bounded wait for a checkout, in milliseconds; zero means no bound.
    pub database_pool_connection_timeout_ms: u64,
    /// Lifetime of a session, in milliseconds; zero disables the check.
    pub database_pool_connection_ttl_ms: u64,
    /// Idle bound of a session, in milliseconds; zero disables the check.
    pub database_pool_max_idle_ms: u64,
}

impl Clone for BigTableDbSettings {
    /// A clone is equal to the original.
    fn clone(&self) -> (r: Self)
        ensures
            r == *self,
    {
        BigTableDbSettings {
            table_name: self.table_name.clone(),
            database_pool_max_size: match self.database_pool_max_size {
                Some(v) => Some(v),
                None => None,
            },
            database_pool_connection_timeout_ms: self.database_pool_connection_timeout_ms,
            database_pool_connection_ttl_ms: self.database_pool_connection_ttl_ms,
            database_pool_max_idle_ms: self.database_pool_max_idle_ms,
        }
    }
}

/// Whether `p` occurs in `s` as a contiguous substring.
pub open spec fn contains_sub(s: Seq<char>, p: Seq<char>) -> bool {
    exists|i: int| #![trigger s.subrange(i, i + p.len())] 0 <= i && i + p.len() <= s.len() && s.subrange(i, i + p.len()) == p
}

/// Relies on str::contains with a `&str` pattern: true exactly when the
/// pattern matches a sub-slice of the string.
#[verifier::external_body]
fn str_contains(s: &str, p: &str) -> (r: bool)
    ensures
        r == contains_sub(s@, p@),
{
    s.contains(p)
}

/// Emulator credential mode holds when the environment forces it or the
/// DSN points at a local host.
pub fn dsn_uses_emulator(dsn: &Option<String>, emulator_env: bool) -> (r: bool)
    ensures
        r == (emulator_env || (dsn matches Some(d) && contains_sub(d@, "localhost"@))),
{
    if emulator_env {
        return true;
    }
    match dsn {
        Some(d) => str_contains(d.as_str(), "localhost"),
        None => false,
    }
}

/// The host, port and path that URL parsing extracts from a DSN, when the
/// DSN parses at all.
pub uninterp spec fn dsn_parts(s: Seq<char>) -> Option<(Option<Seq<char>>, Option<u16>, Seq<char>)>;

/// The view of an optional string.
pub open spec fn opt_str_view(o: Option<String>) -> Option<Seq<char>> {
    match o {
        Some(x) => Some(x@),
        None => None,
    }
}

/// Relies on url::Url::parse and its accessors host_str, port and path:
/// each is a pure function of the input string, and the triple is carried
/// out as plain values.
#[verifier::external_body]
fn parse_dsn(s: &String) -> (r: Option<(Option<String>, Option<u16>, String)>)
    ensures
        r is Some <==> dsn_parts(s@) is Some,
        (r matches Some(t) ==> dsn_parts(s@) matches Some(q) && opt_str_view(t.0) == q.0 && t.1
            == q.1 && t.2@ == q.2),
{
    match url::Url::parse(s.as_str()) {
        Ok(u) => Some((u.host_str().map(|h| h.to_string()), u.port(), u.path().to_string())),
        Err(_) => None,
    }
}

/// The decimal digit `d` as a character.
pub open spec fn digit_char(d: int) -> char {
    ((48 + d) as u8) as char
}

/// The decimal digits of `n`, most significant first.
pub open spec fn dec_digits(n: int) -> Seq<char>
    decreases n,
{
    if n < 10 {
        seq![digit_char(n)]
    } else {
        dec_digits(n / 10).push(digit_char(n % 10))
    }
}

/// Relies on core's formatting of a `u16`: its decimal digits, appended to
/// the host after a colon.
#[verifier::external_body]
fn join_host_port(host: &String, port: u16) -> (r: String)
    ensures
        r@ == host@ + seq![':'] + dec_digits(port as int),
{
    format!("{}:{}", host, port)
}

/// What a valid DSN and the settings ask of the pool: the transport
/// connection string, the session bound and the checkout timeout.
#[derive(Debug)]
pub struct PoolPlan {
    /// `host:port` the transport connects to.
    pub connection: String,
    /// Bound on pooled sessions, if configured.
    pub max_size: Option<u32>,
    /// Bounded checkout wait, if configured.
    pub create_timeout_ms: Option<u64>,
}

/// Validates the DSN and computes the pool's configuration: the DSN must
/// be present, parse as a URL with a host, and carry no path; a missing
/// port falls back to the default. Exactly the invalid DSNs are rejected,
/// each with a connection error.
pub fn pool_plan(settings: &BigTableDbSettings, dsn: &Option<String>) -> (r: Result<
    PoolPlan,
    DbError,
>)
    ensures
        (dsn is None ==> (r matches Err(e) && e matches DbError::ConnectionError(_))),
        (dsn matches Some(d) ==> match dsn_parts(d@) {
            None => (r matches Err(e) && e matches DbError::ConnectionError(_)),
            Some(q) => {
                if q.0 is None || q.2.len() != 0 {
                    (r matches Err(e) && e matches DbError::ConnectionError(_))
                } else {
                    (r matches Ok(p) && (match (q.0, q.1) {
                        (Some(h), Some(port)) => p.connection@ == h + seq![':'] + dec_digits(
                            port as int,
                        ),
                        (Some(h), None) => p.connection@ == h + seq![':'] + dec_digits(
                            DEFAULT_GRPC_PORT as int,
                        ),
                        _ => false,
                    }) && p.max_size == settings.database_pool_max_size && p.create_timeout_ms
                        == (if settings.database_pool_connection_timeout_ms != 0 {
                        Some(settings.database_pool_connection_timeout_ms)
                    } else {
                        None::<u64>
                    }))
                }
            },
        }),
{
    let d = match dsn {
        Some(d) => d,
        None => {
            return Err(DbError::ConnectionError(String::from_str("No DSN specified in settings")));
        },
    };
    let parts = match parse_dsn(d) {
        Some(t) => t,
        None => {
            return Err(DbError::ConnectionError(String::from_str("Invalid DSN")));
        },
    };
    let (host_opt, port_opt, path) = parts;
    let host = match host_opt {
        Some(h) => h,
        None => {
            return Err(DbError::ConnectionError(String::from_str("Invalid DSN: unparsable host")));
        },
    };
    if path.as_str().unicode_len() != 0 {
        return Err(DbError::ConnectionError(String::from_str("Invalid DSN: table paths belong in the db settings")));
    }
    let port = match port_opt {
        Some(p) => p,
        None => DEFAULT_GRPC_PORT,
    };
    let connection = join_host_port(&host, port);
    let create_timeout_ms = if settings.database_pool_connection_timeout_ms != 0 {
        Some(settings.database_pool_connection_timeout_ms)
    } else {
        None
    };
    let max_size = match settings.database_pool_max_size {
        Some(v) => Some(v),
        None => None,
    };
    Ok(PoolPlan { connection, max_size, create_timeout_ms })
}

/// Everything needed to create a replacement session: the settings, the
/// DSN, and the connection string the plan computed.
#[derive(Debug)]
pub struct BigtableClientManager {
    pub settings: BigTableDbSettings,
    pub dsn: Option<String>,
    pub connection: String,
}

/// Whether a pooled session must be replaced: it outlived its configured
/// lifetime, sat idle past the idle bound, or failed its health check
/// (an erroring probe counts as failed).
pub open spec fn spec_should_recycle(
    settings: BigTableDbSettings,
    age_ms: u64,
    idle_ms: Option<u64>,
    healthy: Option<bool>,
) -> bool {
    ||| settings.database_pool_connection_ttl_ms != 0 && age_ms
        > settings.database_pool_connection_ttl_ms
    ||| settings.database_pool_max_idle_ms != 0 && (idle_ms matches Some(i) && i
        > settings.database_pool_max_idle_ms)
    ||| healthy != Some(true)
}

impl BigtableClientManager {
    /// Packs the settings, DSN and connection string of a manager.
    pub fn new(settings: &BigTableDbSettings, dsn: Option<String>, connection: String) -> (r:
        Result<Self, DbError>)
        ensures
            r matches Ok(m) && m.settings == *settings && m.dsn == dsn && m.connection@
                == connection@,
    {
        Ok(BigtableClientManager { settings: settings.clone(), dsn, connection })
    }

    /// The pre-checkout recycling decision, from the session's age, its
    /// time since last checkout, and the health probe's outcome. Recycling
    /// is signalled as the transport's recycle error; a kept session
    /// passes.
    pub fn recycle(&self, age_ms: u64, idle_ms: Option<u64>, healthy: Option<bool>) -> (r: Result<
        (),
        DbError,
    >)
        ensures
            r is Err <==> spec_should_recycle(self.settings, age_ms, idle_ms, healthy),
            (r matches Err(e) ==> (e matches DbError::BTError(i) && i is Recycle)),
    {
        if self.settings.database_pool_connection_ttl_ms != 0 && age_ms
            > self.settings.database_pool_connection_ttl_ms {
            return Err(DbError::BTError(BigTableError::Recycle));
        }
        if self.settings.database_pool_max_idle_ms != 0 {
            if let Some(i) = idle_ms {
                if i > self.settings.database_pool_max_idle_ms {
                    return Err(DbError::BTError(BigTableError::Recycle));
                }
            }
        }
        match healthy {
            Some(true) => Ok(()),
            _ => Err(DbError::BTError(BigTableError::Recycle)),
        }
    }
}

} // verus!
