//! Process-wide configuration, the settings of the environment, and the order in
//! which a boot checks what it was given.

use std::time::Duration;
use vstd::prelude::*;

use crate::auth::{are_tokens_of, token_file_error, AuthConfig, AuthModel, Role, TokenFileRead};
use crate::jwt::{JwtConfig, JwtModel, JwtValidator};
use crate::memory::{resolve_memory_max_bytes, resolved_ceiling, DEFAULT_MEMORY_MAX_BYTES};
use crate::span::{duration_setting, human_duration, is_readable, is_zero, nanos, setting_nanos};
use crate::text::{decimal, parse_number, parsed_number};

verus! {

/// Everything that the command line and the environment decide. Addresses and
/// paths are kept as they are written.
pub struct Config {
    pub store_uri: String,
    pub listen: String,
    /// A token that grants read-write access.
    pub auth_token: Option<String>,
    /// A file of tokens, which takes precedence over the single one.
    pub auth_tokens_file: Option<String>,
    /// The server may run without any auth.
    pub no_auth: bool,
    pub jwt: Option<JwtConfig>,
    /// A policy endpoint.
    pub pdp_url: Option<String>,
    pub flush_interval: Duration,
    pub compaction_interval: Duration,
    pub sweep_min_age: Duration,
    pub sweep_delete: bool,
    pub bolt_listen: Option<String>,
    pub bolt_max_message_bytes: usize,
    pub bolt_tx_timeout: Duration,
    pub query_timeout: Duration,
    pub write_timeout: Duration,
    pub query_row_cap: usize,
    pub compaction_l0_trigger: usize,
    pub write_stall_l0: usize,
    pub write_stall_delay: Duration,
    pub memtable_flush_bytes: usize,
    pub memtable_stall_bytes: usize,
    pub writer_lock_timeout: Duration,
    pub tls_cert: Option<String>,
    pub tls_key: Option<String>,
    pub slow_query_threshold: Duration,
    pub multi_tenant: bool,
    pub default_namespace: String,
    pub max_namespaces: usize,
    pub namespace_idle_timeout: Duration,
}

// ---------------------------------------------------------------------------
// Settings of the environment
// ---------------------------------------------------------------------------

/// The view of an optional borrowed text.
pub open spec fn option_raw(raw: Option<&str>) -> Option<Seq<char>> {
    match raw {
        Some(s) => Some(s@),
        None => None,
    }
}

/// A positive number from a setting, or the default where it is absent, zero or
/// no number.
pub open spec fn positive_setting(raw: Option<Seq<char>>, default: nat) -> nat {
    match raw {
        Some(s) => match parsed_number(s, usize::MAX as nat) {
            Ok(n) => if n > 0 {
                n
            } else {
                default
            },
            Err(_) => default,
        },
        None => default,
    }
}

/// A positive number from a setting, or the default.
fn positive_or(raw: Option<&str>, default: usize) -> (r: usize)
    ensures
        r == positive_setting(option_raw(raw), default as nat),
{
    match raw {
        Some(s) => match parse_number(s, usize::MAX as u64) {
            Ok(n) => {
                if n > 0 {
                    n as usize
                } else {
                    default
                }
            },
            Err(_) => default,
        },
        None => default,
    }
}

/// How many HTTP requests may be in flight: 1024 unless set otherwise.
pub fn http_max_concurrency(raw: Option<&str>) -> (r: usize)
    ensures
        r == positive_setting(option_raw(raw), 1024),
{
    positive_or(raw, 1024)
}

/// How many Bolt connections may be open: 1024 unless set otherwise.
pub fn bolt_max_connections(raw: Option<&str>) -> (r: usize)
    ensures
        r == positive_setting(option_raw(raw), 1024),
{
    positive_or(raw, 1024)
}

/// How long an HTTP request may take: two minutes unless set otherwise.
pub fn http_request_timeout(raw: Option<&str>) -> (r: Duration)
    requires
        raw matches Some(s) ==> is_readable(s@),
    ensures
        nanos(r) == setting_nanos(
            match raw {
                Some(s) => Some(human_duration(s@)),
                None => None,
            },
            120,
        ),
{
    duration_setting(raw, 120)
}

/// How long a Bolt transaction may live: five minutes unless set otherwise.
pub fn bolt_max_tx_lifetime(raw: Option<&str>) -> (r: Duration)
    requires
        raw matches Some(s) ==> is_readable(s@),
    ensures
        nanos(r) == setting_nanos(
            match raw {
                Some(s) => Some(human_duration(s@)),
                None => None,
            },
            300,
        ),
{
    duration_setting(raw, 300)
}

/// How many full scans may run at once, where that is bounded: four unless set
/// otherwise, and zero switches the bound off.
pub open spec fn scan_permits(raw: Option<Seq<char>>) -> Option<nat> {
    let permits = match raw {
        Some(s) => match parsed_number(s, usize::MAX as nat) {
            Ok(n) => n,
            Err(_) => 4,
        },
        None => 4,
    };
    if permits > 0 {
        Some(permits)
    } else {
        None
    }
}

/// How many full scans may run at once, where that is bounded.
pub fn scan_gate(raw: Option<&str>) -> (r: Option<usize>)
    ensures
        match r {
            Some(n) => scan_permits(option_raw(raw)) == Some(n as nat),
            None => scan_permits(option_raw(raw)) is None,
        },
{
    let permits: usize = match raw {
        Some(s) => match parse_number(s, usize::MAX as u64) {
            Ok(n) => n as usize,
            Err(_) => 4,
        },
        None => 4,
    };
    if permits > 0 {
        Some(permits)
    } else {
        None
    }
}

/// A number that is set counts if it is positive, and the default counts
/// otherwise.
pub proof fn law_positive_settings(n: nat, default: nat)
    ensures
        0 < n <= usize::MAX ==> positive_setting(Some(decimal(n)), default) == n,
        positive_setting(Some(decimal(0)), default) == default,
        positive_setting(Some(Seq::empty()), default) == default,
        positive_setting(None, default) == default,
{
    if n <= usize::MAX {
        crate::text::law_decimal_round_trip(n, usize::MAX as nat);
    }
    crate::text::law_decimal_round_trip(0, usize::MAX as nat);
}

/// As many scans run at once as are set, four unless set, and any number where
/// zero is.
pub proof fn law_scan_permits(n: nat)
    ensures
        0 < n <= usize::MAX ==> scan_permits(Some(decimal(n))) == Some(n),
        scan_permits(Some(decimal(0))) is None,
        scan_permits(None) == Some(4nat),
        scan_permits(Some(Seq::empty())) == scan_permits(None),
{
    if n <= usize::MAX {
        crate::text::law_decimal_round_trip(n, usize::MAX as nat);
    }
    crate::text::law_decimal_round_trip(0, usize::MAX as nat);
}

/// A setting of the environment.
pub enum EnvSetting {
    Absent,
    /// There, but not a text; why not, in words.
    Unreadable(String),
    Text(String),
}

/// The memory ceiling that the environment sets.
pub open spec fn memory_ceiling(setting: EnvSetting, hard_limit: Option<usize>) -> Result<
    nat,
    Seq<char>,
> {
    match setting {
        EnvSetting::Absent => Ok(DEFAULT_MEMORY_MAX_BYTES as nat),
        EnvSetting::Unreadable(e) => Err("NAMIDB_MEMORY_MAX_BYTES is not valid UTF-8: "@ + e@),
        EnvSetting::Text(raw) => resolved_ceiling(raw@, hard_limit),
    }
}

/// Without a setting there is no ceiling, a number is the ceiling, and a setting
/// that is no text is refused.
pub proof fn law_memory_setting(setting: EnvSetting, hard_limit: Option<usize>, n: nat)
    requires
        n <= usize::MAX,
    ensures
        setting is Absent ==> memory_ceiling(setting, hard_limit) == Ok::<nat, Seq<char>>(0),
        setting is Unreadable ==> memory_ceiling(setting, hard_limit) is Err,
        setting matches EnvSetting::Text(raw) ==> (crate::text::trimmed(raw@) == decimal(n)
            ==> memory_ceiling(setting, hard_limit) == Ok::<nat, Seq<char>>(n)),
{
    if let EnvSetting::Text(raw) = setting {
        crate::memory::law_ceiling_is_resolved(raw@, n, hard_limit);
    }
}

/// The memory ceiling that the environment sets.
pub fn memory_max_bytes(setting: EnvSetting, hard_limit: Option<usize>) -> (r: Result<
    usize,
    String,
>)
    ensures
        match r {
            Ok(n) => memory_ceiling(setting, hard_limit) == Ok::<nat, Seq<char>>(n as nat),
            Err(e) => memory_ceiling(setting, hard_limit) == Err::<nat, Seq<char>>(e@),
        },
{
    match setting {
        EnvSetting::Absent => Ok(DEFAULT_MEMORY_MAX_BYTES),
        EnvSetting::Unreadable(e) => {
            let mut out = "NAMIDB_MEMORY_MAX_BYTES is not valid UTF-8: ".to_owned();
            out.append(e.as_str());
            Err(out)
        },
        EnvSetting::Text(raw) => resolve_memory_max_bytes(raw.as_str(), hard_limit),
    }
}

// ---------------------------------------------------------------------------
// Boot
// ---------------------------------------------------------------------------

/// What a boot is told whose Bolt listener would accept no message.
pub const NO_BOLT_MESSAGES: &'static str =
    "NAMIDB_BOLT_MAX_MESSAGE_BYTES must be greater than zero";

/// What a boot is told that asks for Bolt and for many namespaces.
pub const BOLT_WITH_TENANTS: &'static str =
    "--bolt-listen is not supported with --multi-tenant: Bolt is single-namespace (see docs/multi-tenancy.md). Run one single-tenant server per namespace, or omit --bolt-listen / NAMIDB_BOLT_LISTEN";

/// What a boot is told whose single token is empty.
pub const EMPTY_TOKEN: &'static str =
    "--auth-token is empty; set a real secret, or pass --no-auth to run without auth on purpose";

/// What a boot is told that would serve everyone without saying so.
pub const NO_AUTH_CONFIGURED: &'static str =
    "no auth configured: set --auth-token / NAMIDB_AUTH_TOKEN or --auth-tokens-file, or pass --no-auth / NAMIDB_NO_AUTH=1 to run without auth on purpose";

/// What a boot is told that has one half of a TLS pair.
pub const HALF_TLS: &'static str =
    "set both --tls-cert and --tls-key to enable TLS, or neither";

/// How often the keys for web tokens are fetched anew, in seconds.
pub const KEY_REFRESH_SECS: u64 = 3600;

/// Where a boot stands: each phase waits for one answer.
#[derive(Debug, Clone, Copy, PartialEq, Eq, Structural)]
pub enum BootPhase {
    /// The cache settings are checked.
    Cache,
    /// The tokens file is read.
    Tokens,
    /// The keys for web tokens are fetched.
    Keys,
    /// The store address is parsed.
    Store,
    /// The writer of the one namespace is opened.
    Writer,
    /// The TLS pair is loaded.
    Tls,
    /// The listeners are started.
    Serve,
    Failed,
}

/// An answer to what a boot waits for.
pub enum BootEvent {
    CacheValid,
    CacheInvalid(String),
    TokensRead(TokenFileRead),
    KeysFetched(String),
    KeysUnreachable(String),
    StoreParsed,
    StoreInvalid(String),
    WriterOpened,
    WriterFailed(String),
    TlsLoaded,
    TlsFailed(String),
}

/// A boot on its way.
pub struct Boot {
    pub config: Config,
    pub phase: BootPhase,
    /// What the server will accept, as far as it is known.
    pub auth: AuthConfig,
    /// Why the boot failed.
    pub error: String,
}

/// A failed boot.
pub open spec fn boot_failed(error: Seq<char>) -> (BootPhase, Seq<char>) {
    (BootPhase::Failed, error)
}

impl Config {
    /// What is wrong with the listeners, if something is.
    pub open spec fn listener_error(self) -> Option<Seq<char>> {
        if self.bolt_max_message_bytes == 0 {
            Some(NO_BOLT_MESSAGES@)
        } else if self.multi_tenant && self.bolt_listen is Some {
            Some(BOLT_WITH_TENANTS@)
        } else {
            None
        }
    }

    /// What is wrong with the listeners, if something is.
    pub fn check_listeners(&self) -> (r: Option<&'static str>)
        ensures
            match r {
                Some(e) => self.listener_error() == Some(e@),
                None => self.listener_error() is None,
            },
    {
        if self.bolt_max_message_bytes == 0 {
            Some(NO_BOLT_MESSAGES)
        } else if self.multi_tenant && self.bolt_listen.is_some() {
            Some(BOLT_WITH_TENANTS)
        } else {
            None
        }
    }

    /// Where a boot goes once it is known what the server accepts: a server that
    /// asks nothing of its callers must be meant to.
    pub open spec fn after_auth(self, auth: AuthModel, error: Seq<char>) -> (BootPhase, Seq<char>) {
        if auth.is_open() && !self.no_auth {
            boot_failed(NO_AUTH_CONFIGURED@)
        } else {
            (BootPhase::Store, error)
        }
    }

    /// Where a boot goes once its static tokens are known.
    pub open spec fn after_tokens(self, auth: AuthModel, error: Seq<char>) -> (
        BootPhase,
        Seq<char>,
    ) {
        if self.jwt is Some {
            (BootPhase::Keys, error)
        } else {
            self.after_auth(auth, error)
        }
    }

    /// Where a boot goes once its namespaces are in place.
    pub open spec fn after_open(self, error: Seq<char>) -> (BootPhase, Seq<char>) {
        match (self.tls_cert, self.tls_key) {
            (Some(_), Some(_)) => (BootPhase::Tls, error),
            (None, None) => (BootPhase::Serve, error),
            _ => boot_failed(HALF_TLS@),
        }
    }

    /// The key set that a validator starts from.
    pub open spec fn blank_keys(self) -> JwtModel {
        JwtModel { config: self.jwt->Some_0, keys: Seq::empty() }
    }

    /// Which background tasks and listeners a boot starts.
    pub fn tasks(&self, memory_max_bytes: usize) -> (r: Tasks)
        ensures
            r == (Tasks {
                watchdog: memory_max_bytes > 0,
                flush: !self.multi_tenant && nanos(self.flush_interval) > 0,
                maintenance: !self.multi_tenant && nanos(self.compaction_interval) > 0,
                bolt: !self.multi_tenant && self.bolt_listen is Some,
            }),
    {
        Tasks {
            watchdog: memory_max_bytes > 0,
            flush: !self.multi_tenant && !is_zero(self.flush_interval),
            maintenance: !self.multi_tenant && !is_zero(self.compaction_interval),
            bolt: !self.multi_tenant && self.bolt_listen.is_some(),
        }
    }
}

/// The background tasks and listeners of a process.
#[derive(Debug, Clone, Copy, PartialEq, Eq, Structural)]
pub struct Tasks {
    /// Memory is watched.
    pub watchdog: bool,
    /// The memtable is flushed periodically.
    pub flush: bool,
    /// Compaction and sweep run periodically.
    pub maintenance: bool,
    /// The Bolt listener runs.
    pub bolt: bool,
}

/// Whether the caches may take as much as the whole process, which leaves the
/// memory ceiling without room.
pub fn cache_leaves_no_headroom(cache_max_bytes: usize, memory_max_bytes: usize) -> (r: bool)
    ensures
        r == (memory_max_bytes > 0 && cache_max_bytes >= memory_max_bytes),
{
    memory_max_bytes > 0 && cache_max_bytes >= memory_max_bytes
}

/// The phase after an answer, and the error if the boot failed. `auth` is what
/// the server accepts after the answer. An answer to something else changes
/// nothing.
pub open spec fn boot_next(
    config: Config,
    phase: BootPhase,
    error: Seq<char>,
    auth: AuthModel,
    event: BootEvent,
) -> (BootPhase, Seq<char>) {
    match (phase, event) {
        (BootPhase::Cache, BootEvent::CacheInvalid(e)) => boot_failed(e@),
        (BootPhase::Cache, BootEvent::CacheValid) => match config.listener_error() {
            Some(e) => boot_failed(e),
            None => match (config.auth_tokens_file, config.auth_token) {
                (Some(_), _) => (BootPhase::Tokens, error),
                (None, Some(secret)) if secret@.len() == 0 => boot_failed(EMPTY_TOKEN@),
                _ => config.after_tokens(auth, error),
            },
        },
        (BootPhase::Tokens, BootEvent::TokensRead(read)) => match token_file_error(
            config.auth_tokens_file->Some_0@,
            read,
        ) {
            Some(e) => boot_failed(e),
            None => config.after_tokens(auth, error),
        },
        (BootPhase::Keys, BootEvent::KeysUnreachable(e)) => boot_failed(e@),
        (BootPhase::Keys, BootEvent::KeysFetched(body)) => match config.blank_keys().refresh_error(
            body@,
        ) {
            Some(e) => boot_failed(e),
            None => config.after_auth(auth, error),
        },
        (BootPhase::Store, BootEvent::StoreInvalid(e)) => boot_failed("invalid --store: "@ + e@),
        (BootPhase::Store, BootEvent::StoreParsed) => if config.multi_tenant {
            config.after_open(error)
        } else {
            (BootPhase::Writer, error)
        },
        (BootPhase::Writer, BootEvent::WriterFailed(e)) => boot_failed(e@),
        (BootPhase::Writer, BootEvent::WriterOpened) => config.after_open(error),
        (BootPhase::Tls, BootEvent::TlsFailed(e)) => boot_failed(e@),
        (BootPhase::Tls, BootEvent::TlsLoaded) => (BootPhase::Serve, error),
        _ => (phase, error),
    }
}

/// What an answer makes of what the server accepts: the tokens come from the
/// file, or else from the single token, and the keys for web tokens are added.
pub open spec fn boot_auth(
    config: Config,
    phase: BootPhase,
    before: AuthModel,
    event: BootEvent,
    after: AuthModel,
) -> bool {
    match (phase, event) {
        (BootPhase::Cache, BootEvent::CacheValid) => if config.listener_error() is Some {
            after == before
        } else {
            match (config.auth_tokens_file, config.auth_token) {
                (None, Some(secret)) if secret@.len() > 0 => {
                    &&& after.jwt is None
                    &&& after.tokens.len() == 1
                    &&& after.tokens[0].secret@ == secret@
                    &&& after.tokens[0].role == Role::ReadWrite
                    &&& after.tokens[0].namespaces is None
                },
                _ => after == before,
            }
        },
        (BootPhase::Tokens, BootEvent::TokensRead(read)) => if token_file_error(
            config.auth_tokens_file->Some_0@,
            read,
        ) is None {
            are_tokens_of(after.tokens, read) && after.jwt is None
        } else {
            after == before
        },
        (BootPhase::Keys, BootEvent::KeysFetched(body)) => if config.blank_keys().refresh_error(
            body@,
        ) is None {
            &&& after.tokens == before.tokens
            &&& after.jwt matches Some(jwt) && jwt.refreshed_from(config.blank_keys(), body@)
        } else {
            after == before
        },
        _ => after == before,
    }
}

impl Boot {
    /// Whether the parts of a boot fit its phase: keys are fetched only where
    /// web tokens are configured, and a tokens file is read only where there is
    /// one.
    pub open spec fn wf(self) -> bool {
        &&& self.phase is Keys ==> self.config.jwt is Some
        &&& self.phase is Tokens ==> self.config.auth_tokens_file is Some
    }

    /// A boot that has checked nothing yet.
    pub fn start(config: Config) -> (r: Boot)
        ensures
            r.config == config,
            r.phase is Cache,
            r.auth@.is_open(),
            r.error@ == ""@,
            r.wf(),
    {
        Boot { config, phase: BootPhase::Cache, auth: AuthConfig::open(), error: "".to_owned() }
    }

    /// The boot fails.
    fn fail(&mut self, error: String)
        ensures
            final(self).config == old(self).config,
            final(self).auth == old(self).auth,
            (final(self).phase, final(self).error@) == boot_failed(error@),
    {
        self.phase = BootPhase::Failed;
        self.error = error;
    }

    /// Goes on once it is known what the server accepts.
    fn pass_auth(&mut self)
        ensures
            final(self).config == old(self).config,
            final(self).auth == old(self).auth,
            (final(self).phase, final(self).error@) == old(self).config.after_auth(
                old(self).auth@,
                old(self).error@,
            ),
    {
        if self.auth.is_open() && !self.config.no_auth {
            self.fail(NO_AUTH_CONFIGURED.to_owned());
        } else {
            self.phase = BootPhase::Store;
        }
    }

    /// Goes on once the static tokens are known.
    fn pass_tokens(&mut self)
        ensures
            final(self).config == old(self).config,
            final(self).auth == old(self).auth,
            (final(self).phase, final(self).error@) == old(self).config.after_tokens(
                old(self).auth@,
                old(self).error@,
            ),
    {
        if self.config.jwt.is_some() {
            self.phase = BootPhase::Keys;
        } else {
            self.pass_auth();
        }
    }

    /// Goes on once the namespaces are in place.
    fn pass_open(&mut self)
        ensures
            final(self).config == old(self).config,
            final(self).auth == old(self).auth,
            (final(self).phase, final(self).error@) == old(self).config.after_open(
                old(self).error@,
            ),
    {
        match (&self.config.tls_cert, &self.config.tls_key) {
            (Some(_), Some(_)) => {
                self.phase = BootPhase::Tls;
            },
            (None, None) => {
                self.phase = BootPhase::Serve;
            },
            _ => {
                self.fail(HALF_TLS.to_owned());
            },
        }
    }

    /// Checks the listeners and the single token.
    fn pass_cache(&mut self)
        requires
            old(self).phase is Cache,
        ensures
            final(self).config == old(self).config,
            (final(self).phase, final(self).error@) == boot_next(
                old(self).config,
                BootPhase::Cache,
                old(self).error@,
                final(self).auth@,
                BootEvent::CacheValid,
            ),
            boot_auth(
                old(self).config,
                BootPhase::Cache,
                old(self).auth@,
                BootEvent::CacheValid,
                final(self).auth@,
            ),
    {
        match self.config.check_listeners() {
            Some(e) => {
                self.fail(e.to_owned());
                return;
            },
            None => {},
        }
        if self.config.auth_tokens_file.is_some() {
            self.phase = BootPhase::Tokens;
            return;
        }
        let mut empty = false;
        match &self.config.auth_token {
            Some(secret) => {
                if secret.as_str().is_empty() {
                    empty = true;
                } else {
                    self.auth = AuthConfig::single_read_write(secret.as_str());
                }
            },
            None => {},
        }
        if empty {
            self.fail(EMPTY_TOKEN.to_owned());
        } else {
            self.pass_tokens();
        }
    }

    /// Takes the tokens of the file in.
    fn pass_file(&mut self, read: TokenFileRead)
        requires
            old(self).phase is Tokens,
            old(self).wf(),
        ensures
            final(self).config == old(self).config,
            (final(self).phase, final(self).error@) == boot_next(
                old(self).config,
                BootPhase::Tokens,
                old(self).error@,
                final(self).auth@,
                BootEvent::TokensRead(read),
            ),
            boot_auth(
                old(self).config,
                BootPhase::Tokens,
                old(self).auth@,
                BootEvent::TokensRead(read),
                final(self).auth@,
            ),
    {
        let loaded = match &self.config.auth_tokens_file {
            Some(path) => AuthConfig::load_file(path.as_str(), read),
            None => Ok(AuthConfig::open()),
        };
        match loaded {
            Ok(auth) => {
                self.auth = auth;
                self.pass_tokens();
            },
            Err(e) => {
                self.fail(e);
            },
        }
    }

    /// Takes the keys for web tokens in.
    fn pass_keys(&mut self, body: String)
        requires
            old(self).phase is Keys,
            old(self).wf(),
        ensures
            final(self).config == old(self).config,
            (final(self).phase, final(self).error@) == boot_next(
                old(self).config,
                BootPhase::Keys,
                old(self).error@,
                final(self).auth@,
                BootEvent::KeysFetched(body),
            ),
            boot_auth(
                old(self).config,
                BootPhase::Keys,
                old(self).auth@,
                BootEvent::KeysFetched(body),
                final(self).auth@,
            ),
    {
        let made = match &self.config.jwt {
            Some(jwt) => JwtValidator::new(jwt.copy(), body.as_str()),
            None => Err("".to_owned()),
        };
        match made {
            Ok(validator) => {
                let mut auth = AuthConfig::open();
                std::mem::swap(&mut auth, &mut self.auth);
                self.auth = auth.with_jwt(validator);
                self.pass_auth();
            },
            Err(e) => {
                self.fail(e);
            },
        }
    }

    /// Takes one answer in.
    pub fn advance(&mut self, event: BootEvent)
        requires
            old(self).wf(),
        ensures
            final(self).wf(),
            final(self).config == old(self).config,
            (final(self).phase, final(self).error@) == boot_next(
                old(self).config,
                old(self).phase,
                old(self).error@,
                final(self).auth@,
                event,
            ),
            boot_auth(old(self).config, old(self).phase, old(self).auth@, event, final(self).auth@),
    {
        match (self.phase, event) {
            (BootPhase::Cache, BootEvent::CacheInvalid(e)) => self.fail(e),
            (BootPhase::Cache, BootEvent::CacheValid) => self.pass_cache(),
            (BootPhase::Tokens, BootEvent::TokensRead(read)) => self.pass_file(read),
            (BootPhase::Keys, BootEvent::KeysUnreachable(e)) => self.fail(e),
            (BootPhase::Keys, BootEvent::KeysFetched(body)) => self.pass_keys(body),
            (BootPhase::Store, BootEvent::StoreInvalid(e)) => {
                let mut out = "invalid --store: ".to_owned();
                out.append(e.as_str());
                self.fail(out);
            },
            (BootPhase::Store, BootEvent::StoreParsed) => {
                if self.config.multi_tenant {
                    self.pass_open();
                } else {
                    self.phase = BootPhase::Writer;
                }
            },
            (BootPhase::Writer, BootEvent::WriterFailed(e)) => self.fail(e),
            (BootPhase::Writer, BootEvent::WriterOpened) => self.pass_open(),
            (BootPhase::Tls, BootEvent::TlsFailed(e)) => self.fail(e),
            (BootPhase::Tls, BootEvent::TlsLoaded) => {
                self.phase = BootPhase::Serve;
            },
            _ => {},
        }
    }
}

/// Where a boot stands after a whole series of answers, with what the server
/// accepts after each of them.
pub open spec fn boot_trace(
    config: Config,
    events: Seq<BootEvent>,
    auths: Seq<AuthModel>,
) -> (BootPhase, Seq<char>)
    decreases events.len(),
{
    if events.len() == 0 {
        (BootPhase::Cache, Seq::empty())
    } else {
        let (phase, error) = boot_trace(config, events.drop_last(), auths.drop_last());
        boot_next(config, phase, error, auths.last(), events.last())
    }
}

/// The answers that a boot took in: those that it waited for when they came.
pub open spec fn boot_heard(
    config: Config,
    events: Seq<BootEvent>,
    auths: Seq<AuthModel>,
) -> Seq<BootEvent>
    decreases events.len(),
{
    if events.len() == 0 {
        Seq::empty()
    } else {
        let before = boot_heard(config, events.drop_last(), auths.drop_last());
        let (phase, error) = boot_trace(config, events.drop_last(), auths.drop_last());
        if boot_next(config, phase, error, auths.last(), events.last()).0 == phase {
            before
        } else {
            before.push(events.last())
        }
    }
}

impl Config {
    /// How many answers a boot has taken in by the time its tokens are known.
    pub open spec fn until_tokens(self) -> int {
        if self.auth_tokens_file is Some {
            2
        } else {
            1
        }
    }

    /// How many answers a boot has taken in by the time it is known what the
    /// server accepts.
    pub open spec fn until_auth(self) -> int {
        self.until_tokens() + if self.jwt is Some {
            1int
        } else {
            0
        }
    }

    /// How many answers a boot has taken in by the time its namespaces are in
    /// place.
    pub open spec fn until_open(self) -> int {
        self.until_auth() + if self.multi_tenant {
            1int
        } else {
            2
        }
    }

    /// Whether the first `n` answers are those of a boot on which nothing went
    /// wrong: the caches fit, the tokens file was read if there is one, the keys
    /// were fetched if web tokens are accepted, the store was parsed, and the
    /// writer was opened if there is one namespace.
    pub open spec fn boots(self, heard: Seq<BootEvent>, n: int) -> bool {
        &&& heard.len() >= n
        &&& n > 0 ==> heard[0] is CacheValid
        &&& n > 1 && self.auth_tokens_file is Some ==> heard[1] is TokensRead
        &&& n > self.until_tokens() && self.jwt is Some ==> heard[self.until_tokens()]
            is KeysFetched
        &&& n > self.until_auth() ==> heard[self.until_auth()] is StoreParsed
        &&& n > self.until_auth() + 1 && !self.multi_tenant ==> heard[self.until_auth() + 1]
            is WriterOpened
    }
}

/// Over every series of answers, what a boot has been answered tells exactly how
/// far it came: it serves after everything that is configured was checked, read,
/// fetched, parsed, opened and loaded, in that order, and nothing was left out;
/// and it failed on the answer that it took in last, in the words of that answer
/// or of the check that the answer led to.
#[verifier::rlimit(60)]
#[verifier::spinoff_prover]
pub proof fn law_boot_story(config: Config, events: Seq<BootEvent>, auths: Seq<AuthModel>)
    requires
        events.len() == auths.len(),
    ensures
        ({
            let (phase, error) = boot_trace(config, events, auths);
            let heard = boot_heard(config, events, auths);
            let n = heard.len() as int;
            match phase {
                BootPhase::Cache => n == 0,
                BootPhase::Tokens => config.auth_tokens_file is Some && n == 1 && config.boots(
                    heard,
                    1,
                ),
                BootPhase::Keys => config.jwt is Some && n == config.until_tokens()
                    && config.boots(heard, n),
                BootPhase::Store => n == config.until_auth() && config.boots(heard, n),
                BootPhase::Writer => !config.multi_tenant && n == config.until_auth() + 1
                    && config.boots(heard, n),
                BootPhase::Tls => config.tls_cert is Some && config.tls_key is Some && n
                    == config.until_open() && config.boots(heard, n),
                BootPhase::Serve => config.boots(heard, config.until_open()) && if config.tls_cert
                    is Some {
                    n == config.until_open() + 1 && heard.last() is TlsLoaded
                } else {
                    n == config.until_open() && config.tls_key is None
                },
                BootPhase::Failed => n > 0 && match heard.last() {
                    BootEvent::CacheInvalid(e) => error == e@,
                    BootEvent::CacheValid => config.listener_error() == Some(error) || error
                        == EMPTY_TOKEN@ || (error == NO_AUTH_CONFIGURED@ && !config.no_auth),
                    BootEvent::TokensRead(read) => token_file_error(
                        config.auth_tokens_file->Some_0@,
                        read,
                    ) == Some(error) || (error == NO_AUTH_CONFIGURED@ && !config.no_auth),
                    BootEvent::KeysUnreachable(e) => error == e@,
                    BootEvent::KeysFetched(body) => config.blank_keys().refresh_error(body@)
                        == Some(error) || (error == NO_AUTH_CONFIGURED@ && !config.no_auth),
                    BootEvent::StoreInvalid(e) => error == "invalid --store: "@ + e@,
                    BootEvent::StoreParsed => config.multi_tenant && error == HALF_TLS@,
                    BootEvent::WriterOpened => error == HALF_TLS@,
                    BootEvent::WriterFailed(e) => error == e@,
                    BootEvent::TlsFailed(e) => error == e@,
                    BootEvent::TlsLoaded => false,
                },
            }
        }),
    decreases events.len(),
{
    if events.len() > 0 {
        law_boot_story(config, events.drop_last(), auths.drop_last());
        let heard = boot_heard(config, events.drop_last(), auths.drop_last());
        let more = heard.push(events.last());
        assert forall|i: int| 0 <= i < heard.len() implies #[trigger] more[i] == heard[i] by {}
        assert(more.last() == events.last());
    }
}

/// A boot listens to the answers to what it asked, to all of them, and to nothing
/// else.
pub proof fn law_boot_listens(
    config: Config,
    phase: BootPhase,
    error: Seq<char>,
    auth: AuthModel,
    event: BootEvent,
)
    ensures
        boot_next(config, phase, error, auth, event).0 != phase <==> match phase {
            BootPhase::Cache => event is CacheValid || event is CacheInvalid,
            BootPhase::Tokens => event is TokensRead,
            BootPhase::Keys => event is KeysFetched || event is KeysUnreachable,
            BootPhase::Store => event is StoreParsed || event is StoreInvalid,
            BootPhase::Writer => event is WriterOpened || event is WriterFailed,
            BootPhase::Tls => event is TlsLoaded || event is TlsFailed,
            BootPhase::Serve | BootPhase::Failed => false,
        },
{
}

/// What a boot refuses, and nothing else: a listener that accepts no message, or
/// that is asked for on a server of many namespaces; an empty token where no file
/// names others; no auth at all unless that was asked for; and half of a TLS pair.
pub proof fn law_boot_refusals(config: Config, error: Seq<char>, auth: AuthModel)
    ensures
        config.listener_error() is Some <==> config.bolt_max_message_bytes == 0 || (
        config.multi_tenant && config.bolt_listen is Some),
        config.after_auth(auth, error).0 is Failed <==> auth.tokens.len() == 0 && auth.jwt is None
            && !config.no_auth,
        config.after_open(error).0 is Failed <==> (config.tls_cert is Some) != (config.tls_key
            is Some),
        config.listener_error() is None ==> (boot_next(
            config,
            BootPhase::Cache,
            error,
            auth,
            BootEvent::CacheValid,
        ) == boot_failed(EMPTY_TOKEN@) <== config.auth_tokens_file is None && (
        config.auth_token matches Some(secret) && secret@.len() == 0)),
{
}

/// What is settled once a boot has come to a phase.
pub open spec fn boot_checked(config: Config, phase: BootPhase, auth: AuthModel) -> bool {
    &&& !(phase is Cache) && !(phase is Failed) ==> config.listener_error() is None
    &&& phase is Store || phase is Writer || phase is Tls || phase is Serve ==> auth.is_open()
        ==> config.no_auth
    &&& phase is Tls ==> config.tls_cert is Some && config.tls_key is Some
    &&& phase is Serve ==> (config.tls_cert is Some <==> config.tls_key is Some)
}

/// Whatever answers come, a server is started only with listeners that fit, with
/// a whole TLS pair or none, and open to everyone only where that was asked for;
/// and a boot that failed stays failed.
pub proof fn law_boot_is_checked(
    config: Config,
    phase: BootPhase,
    error: Seq<char>,
    before: AuthModel,
    event: BootEvent,
    after: AuthModel,
)
    requires
        boot_checked(config, phase, before),
        boot_auth(config, phase, before, event, after),
    ensures
        boot_checked(config, boot_next(config, phase, error, after, event).0, after),
        phase is Failed ==> boot_next(config, phase, error, after, event) == (phase, error),
        boot_checked(config, BootPhase::Cache, before),
{
}

} // verus!
