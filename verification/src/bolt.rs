//! The Bolt side of the server: who a connection speaks for, its explicit
//! transaction, the namespace that a statement is for, and how verdicts are
//! answered.

use std::time::Duration;
use vstd::prelude::*;

use crate::auth::{anonymous, option_principal, AuthConfig, AuthModel, Principal, PrincipalModel};
use crate::authz::Denied;
use crate::config::{bolt_max_connections, option_raw, positive_setting};
use crate::engine::Payload;
use crate::introspect::{normalized, procedure_of, try_introspect, Procedure};
use crate::json::{Json, JsonTree};
use crate::memory::{
    saturated, under_pressure, MemoryGovernor, MemoryHeadroomReservation,
    MemoryPressure,
};
use crate::metrics::{
    InFlightGuard, Metrics, Protocol, SlowQuery, WriterLockKind,
};
use crate::outcome::{
    denied_error, exec_failure, explain_run_outcome, failure, line_rows, lower_failure,
    map_exec_err, map_lower_err, map_schema_err, map_storage_err, memory_pressure_error,
    persistence_degraded_error, plain_model, read_run_outcome, row_trees, schema_failure,
    schema_run_outcome, show_run_outcome, write_forbidden_error, write_model, write_run_outcome,
    writer_busy_error, BackendError, ErrorClass, ErrorModel, OutcomeModel, RunOutcome,
    StatementType, DISCONNECTED, NO_TRANSACTION,
};
use crate::recovery::option_text;
use crate::cypher::HttpVerdict;
use crate::reply::{degraded_text, pressure_text, verdict_reply, WRITER_BUSY, WRITE_FORBIDDEN};
use crate::run::{tx_trace, BoltEvent, BoltVerdict, TxPhase, TxRun};
use crate::schema::{SchemaKind, SchemaVerdict};
use crate::span::{human_duration, is_readable, limit, nanos, option_nanos, parse_human};
use crate::text::{decimal, parse_number, parsed_number, push_decimal, str_eq, texts};
use crate::values::{row_columns, ValueTree};

verus! {

// ---------------------------------------------------------------------------
// Settings
// ---------------------------------------------------------------------------

/// The memory set aside for messages that are being decoded: what is configured,
/// or half of the process ceiling, or else the protocol's default.
pub open spec fn message_budget(
    memory_max_bytes: usize,
    configured: Option<Seq<char>>,
    default_bytes: usize,
) -> Result<nat, Seq<char>> {
    match configured {
        Some(raw) => match parsed_number(raw, usize::MAX as nat) {
            Err(e) => Err(
                "NAMIDB_BOLT_MEMORY_BUDGET_BYTES must be a positive integer: "@ + e.message(),
            ),
            Ok(n) => if n == 0 {
                Err("NAMIDB_BOLT_MEMORY_BUDGET_BYTES must be greater than zero"@)
            } else {
                Ok(n)
            },
        },
        None => if memory_max_bytes > 1 {
            Ok((memory_max_bytes / 2) as nat)
        } else if memory_max_bytes == 1 {
            Ok(1)
        } else {
            Ok(default_bytes as nat)
        },
    }
}

/// The memory set aside for messages that are being decoded.
pub fn bolt_message_memory_budget_bytes(
    memory_max_bytes: usize,
    configured: Option<&str>,
    default_bytes: usize,
) -> (r: Result<usize, String>)
    ensures
        ({
            let raw = match configured {
                Some(s) => Some(s@),
                None => None,
            };
            match r {
                Ok(n) => message_budget(memory_max_bytes, raw, default_bytes) == Ok::<
                    nat,
                    Seq<char>,
                >(n as nat),
                Err(e) => message_budget(memory_max_bytes, raw, default_bytes) == Err::<
                    nat,
                    Seq<char>,
                >(e@),
            }
        }),
{
    match configured {
        Some(raw) => match parse_number(raw, usize::MAX as u64) {
            Err(e) => {
                let mut out =
                    "NAMIDB_BOLT_MEMORY_BUDGET_BYTES must be a positive integer: ".to_owned();
                out.append(e.to_text().as_str());
                Err(out)
            },
            Ok(n) => {
                if n == 0 {
                    Err("NAMIDB_BOLT_MEMORY_BUDGET_BYTES must be greater than zero".to_owned())
                } else {
                    Ok(n as usize)
                }
            },
        },
        None => {
            if memory_max_bytes > 1 {
                Ok(memory_max_bytes / 2)
            } else if memory_max_bytes == 1 {
                Ok(1)
            } else {
                Ok(default_bytes)
            }
        },
    }
}

/// How long a message may take to arrive once it has begun, where that is
/// bounded: 120 seconds unless configured, and zero switches the bound off.
pub open spec fn partial_timeout(read: Option<Result<nat, Seq<char>>>) -> Result<
    Option<nat>,
    Seq<char>,
> {
    match read {
        Some(Err(e)) => Err(
            "NAMIDB_BOLT_PARTIAL_MESSAGE_TIMEOUT must be a duration such as 120s: "@ + e,
        ),
        Some(Ok(n)) => Ok(
            if n == 0 {
                None
            } else {
                Some(n)
            },
        ),
        None => Ok(Some(120_000_000_000)),
    }
}

/// A result whose success is an optional duration, by its length.
pub open spec fn timeout_model(r: Result<Option<Duration>, String>) -> Result<
    Option<nat>,
    Seq<char>,
> {
    match r {
        Ok(d) => Ok(option_nanos(d)),
        Err(e) => Err(e@),
    }
}

/// What was read of a setting, by its length.
pub open spec fn read_model(read: Option<Result<Duration, String>>) -> Option<
    Result<nat, Seq<char>>,
> {
    match read {
        Some(Ok(d)) => Some(Ok(nanos(d))),
        Some(Err(e)) => Some(Err(e@)),
        None => None,
    }
}

/// How long a message may take to arrive, from the setting as it was read.
pub fn partial_message_timeout_of(read: Option<Result<Duration, String>>) -> (r: Result<
    Option<Duration>,
    String,
>)
    ensures
        timeout_model(r) == partial_timeout(read_model(read)),
{
    match read {
        Some(Err(e)) => {
            let mut out =
                "NAMIDB_BOLT_PARTIAL_MESSAGE_TIMEOUT must be a duration such as 120s: ".to_owned();
            out.append(e.as_str());
            Err(out)
        },
        Some(Ok(d)) => Ok(limit(d)),
        None => Ok(limit(Duration::from_secs(120))),
    }
}

/// How long a message may take to arrive once it has begun.
pub fn bolt_partial_message_timeout(configured: Option<&str>) -> (r: Result<
    Option<Duration>,
    String,
>)
    requires
        configured matches Some(raw) ==> is_readable(raw@),
    ensures
        timeout_model(r) == partial_timeout(
            match configured {
                Some(raw) => Some(human_duration(raw@)),
                None => None,
            },
        ),
{
    match configured {
        Some(raw) => partial_message_timeout_of(Some(parse_human(raw))),
        None => partial_message_timeout_of(None),
    }
}

/// What a listener is told that would accept no message at all.
pub const NO_MESSAGES: &'static str = "Bolt post-auth message limit must be greater than zero";

/// The agent that the handshake names unless one is configured: drivers turn a
/// server away that does not look like this.
pub const DEFAULT_AGENT: &'static str = "Neo4j/5.13.0";

/// The bookmark of a committed state.
pub fn bookmark(manifest_version: u64) -> (out: String)
    ensures
        out@ == "namidb:v"@ + decimal(manifest_version as nat),
{
    let mut out = "namidb:v".to_owned();
    push_decimal(&mut out, manifest_version);
    out
}

// ---------------------------------------------------------------------------
// Who a connection speaks for
// ---------------------------------------------------------------------------

/// How a listener checks its callers.
#[derive(Debug, Clone, Copy, PartialEq, Eq, Structural)]
pub enum AuthPolicy {
    /// Everyone passes.
    Open,
    /// A token is asked for; the credentials are kept where namespaces are
    /// checked later.
    Tokens { keeps_credentials: bool },
}

/// How a listener checks its callers.
pub fn make_policy(auth: &AuthConfig, multi_tenant: bool) -> (r: AuthPolicy)
    ensures
        r == if auth@.is_open() {
            AuthPolicy::Open
        } else {
            AuthPolicy::Tokens { keeps_credentials: multi_tenant }
        },
{
    if auth.is_open() {
        AuthPolicy::Open
    } else {
        AuthPolicy::Tokens { keeps_credentials: multi_tenant }
    }
}

/// A member of a message that is a text.
pub open spec fn text_member(message: JsonTree, key: Seq<char>) -> Option<Seq<char>> {
    match message.field(key) {
        Some(JsonTree::Text(s)) => Some(s),
        _ => None,
    }
}

/// A member of a message that is a text.
fn text_field<'a>(message: &'a Json, key: &str) -> (r: Option<&'a str>)
    ensures
        match r {
            Some(s) => text_member(message@, key@) == Some(s@),
            None => text_member(message@, key@) is None,
        },
{
    match message.get(key) {
        Some(Json::Text(s)) => Some(s.as_str()),
        _ => None,
    }
}

/// The identity of a connection, which a logon sets.
pub struct TokenAuthenticator {
    pub principal: Option<Principal>,
    pub credentials: Option<String>,
    /// The credentials are kept, for the namespaces that are asked for later.
    pub keeps_credentials: bool,
}

/// Who a connection speaks for.
#[verifier::ext_equal]
pub struct IdentityModel {
    pub principal: Option<PrincipalModel>,
    pub credentials: Option<Seq<char>>,
    pub keeps_credentials: bool,
}

impl View for TokenAuthenticator {
    type V = IdentityModel;

    open spec fn view(&self) -> IdentityModel {
        IdentityModel {
            principal: option_principal(self.principal),
            credentials: option_text(self.credentials),
            keeps_credentials: self.keeps_credentials,
        }
    }
}

impl IdentityModel {
    /// After a logon that was accepted.
    pub open spec fn logged_on(self, p: PrincipalModel, credentials: Seq<char>) -> IdentityModel {
        IdentityModel {
            principal: Some(p),
            credentials: if self.keeps_credentials {
                Some(credentials)
            } else {
                self.credentials
            },
            ..self
        }
    }
}

/// A logon makes the caller the one that was found, and what was presented is kept
/// exactly if later namespaces are to be checked by it.
pub proof fn law_logon_is_remembered(id: IdentityModel, p: PrincipalModel, credentials: Seq<char>)
    ensures
        ({
            let next = id.logged_on(p, credentials);
            &&& next.principal == Some(p)
            &&& id.keeps_credentials ==> next.credentials == Some(credentials)
            &&& !id.keeps_credentials ==> next.credentials == id.credentials
            &&& next.keeps_credentials == id.keeps_credentials
        }),
{
}

/// The scheme that a logon names.
pub open spec fn logon_scheme(message: JsonTree) -> Seq<char> {
    match text_member(message, "scheme"@) {
        Some(s) => s,
        None => "none"@,
    }
}

/// Whether a scheme carries a token.
pub open spec fn is_token_scheme(scheme: Seq<char>) -> bool {
    scheme == "basic"@ || scheme == "bearer"@
}

/// A logon carries a token exactly if it names one of the two schemes that do; one
/// that names no scheme is told that there is none.
pub proof fn law_schemes(message: JsonTree)
    ensures
        is_token_scheme(logon_scheme(message)) <==> message.field("scheme"@) == Some(
            JsonTree::Text("basic"@),
        ) || message.field("scheme"@) == Some(JsonTree::Text("bearer"@)),
        message.field("scheme"@) is None ==> logon_scheme(message) == "none"@,
{
    reveal_strlit("none");
    reveal_strlit("basic");
    reveal_strlit("bearer");
    assert("none"@.len() != "basic"@.len());
    assert("none"@.len() != "bearer"@.len());
    assert("basic"@.len() != "bearer"@.len());
}

/// The view of a result that only succeeds or says why not.
pub open spec fn unit_result(r: Result<(), String>) -> Result<(), Seq<char>> {
    match r {
        Ok(_) => Ok(()),
        Err(e) => Err(e@),
    }
}

impl TokenAuthenticator {
    /// A connection that has not logged on.
    pub fn new(keeps_credentials: bool) -> (r: TokenAuthenticator)
        ensures
            r@ == (IdentityModel { principal: None, credentials: None, keeps_credentials }),
    {
        TokenAuthenticator { principal: None, credentials: None, keeps_credentials }
    }

    /// Takes the principal in that credentials stand for, or refuses the logon.
    pub fn settle(&mut self, found: Option<Principal>, credentials: &str) -> (r: Result<(), String>)
        ensures
            match found {
                Some(p) => unit_result(r) == Ok::<(), Seq<char>>(()) && final(self)@ == old(self)@.logged_on(p@, credentials@),
                None => unit_result(r) == Err::<(), Seq<char>>("invalid credentials"@) && final(self)@ == old(self)@,
            },
    {
        match found {
            Some(p) => {
                self.principal = Some(p);
                if self.keeps_credentials {
                    self.credentials = Some(credentials.to_owned());
                }
                Ok(())
            },
            None => Err("invalid credentials".to_owned()),
        }
    }

    /// Checks a logon.
    pub fn authenticate(&mut self, auth: &AuthConfig, extra: &Json) -> (r: Result<(), String>)
        ensures
            !is_token_scheme(logon_scheme(extra@)) ==> {
                &&& unit_result(r) == Err::<(), Seq<char>>(
                    "unsupported auth scheme `"@ + logon_scheme(extra@) + "`"@,
                )
                &&& final(self)@ == old(self)@
            },
            is_token_scheme(logon_scheme(extra@)) ==> match text_member(extra@, "credentials"@) {
                None => unit_result(r) == Err::<(), Seq<char>>("invalid credentials"@) && final(self)@ == old(self)@,
                Some(c) => match r {
                    Ok(_) => {
                        &&& final(self)@.principal matches Some(p) && auth@.may_resolve(
                            c,
                            Seq::empty(),
                            Some(p),
                        ) && final(self)@ == old(self)@.logged_on(p, c)
                    },
                    Err(e) => {
                        &&& e@ == "invalid credentials"@
                        &&& auth@.may_resolve(c, Seq::empty(), None)
                        &&& final(self)@ == old(self)@
                    },
                },
            },
    {
        let scheme = match text_field(extra, "scheme") {
            Some(s) => s,
            None => "none",
        };
        if !str_eq(scheme, "basic") && !str_eq(scheme, "bearer") {
            let mut out = "unsupported auth scheme `".to_owned();
            out.append(scheme);
            out.append("`");
            return Err(out);
        }
        match text_field(extra, "credentials") {
            Some(c) => {
                let found = auth.principal_for(c);
                self.settle(found, c)
            },
            None => Err("invalid credentials".to_owned()),
        }
    }

    /// Forgets who logged on.
    pub fn logoff(&mut self)
        ensures
            final(self)@ == (IdentityModel {
                principal: None,
                credentials: None,
                ..old(self)@
            }),
    {
        self.principal = None;
        self.credentials = None;
    }
}

// ---------------------------------------------------------------------------
// One connection to one namespace
// ---------------------------------------------------------------------------

/// An explicit transaction. From its begin to its end it holds the writer lock,
/// so that nothing else commits in the middle of it.
#[derive(Debug, Clone, Copy, PartialEq, Eq, Structural)]
pub struct TxState {
    /// A statement has staged something.
    pub staged: bool,
}

/// One connection: its principal and its transaction.
pub struct ServerBackend {
    principal: Option<Principal>,
    tx: Option<TxState>,
}

/// The state of a connection.
#[verifier::ext_equal]
pub struct SessionModel {
    pub principal: Option<PrincipalModel>,
    pub tx: Option<TxState>,
}

impl View for ServerBackend {
    type V = SessionModel;

    closed spec fn view(&self) -> SessionModel {
        SessionModel { principal: option_principal(self.principal), tx: self.tx }
    }
}

impl SessionModel {
    /// Who the connection speaks for: without a logon, the caller of an open
    /// server.
    pub open spec fn speaker(self) -> PrincipalModel {
        match self.principal {
            Some(p) => p,
            None => anonymous(),
        }
    }

    /// What an answer to a statement of a transaction changes.
    pub open spec fn statement_answered(self, run: TxRun, event: BoltEvent) -> SessionModel {
        match (run.phase, event, self.tx) {
            (TxPhase::Apply, BoltEvent::Staged, Some(_)) => SessionModel {
                tx: Some(TxState { staged: true }),
                ..self
            },
            (TxPhase::Apply, BoltEvent::Gone, Some(_)) => SessionModel {
                tx: Some(TxState { staged: false }),
                ..self
            },
            _ => self,
        }
    }
}

/// How the begin of a transaction ended.
#[derive(Debug, Clone, Copy, PartialEq, Eq, Structural)]
pub enum BeginPhase {
    /// Memory is asked for.
    Admission,
    /// The state of local persistence is read.
    Intake,
    /// The writer lock is waited for, within the foreground bound.
    Lock,
    /// The transaction is open and holds the writer lock.
    Begun,
    AlreadyOpen,
    Pressure,
    Degraded,
    Busy,
}

/// An answer on the way to a transaction.
#[derive(Debug, Clone, Copy, PartialEq, Eq, Structural)]
pub enum BeginEvent {
    Admitted,
    Refused,
    IntakeOpen,
    IntakeDegraded,
    Locked,
    LockTimedOut,
}

impl BeginPhase {
    /// The phase after an answer. An answer to something else changes nothing.
    pub open spec fn after(self, event: BeginEvent) -> BeginPhase {
        match (self, event) {
            (BeginPhase::Admission, BeginEvent::Admitted) => BeginPhase::Intake,
            (BeginPhase::Admission, BeginEvent::Refused) => BeginPhase::Pressure,
            (BeginPhase::Intake, BeginEvent::IntakeOpen) => BeginPhase::Lock,
            (BeginPhase::Intake, BeginEvent::IntakeDegraded) => BeginPhase::Degraded,
            (BeginPhase::Lock, BeginEvent::Locked) => BeginPhase::Begun,
            (BeginPhase::Lock, BeginEvent::LockTimedOut) => BeginPhase::Busy,
            (phase, _) => phase,
        }
    }
}

/// How the end of a transaction ended.
#[derive(Debug, Clone, Copy, PartialEq, Eq, Structural)]
pub enum EndVerdict {
    Committed,
    RolledBack,
    /// The commit failed; nothing of the transaction is left.
    Failed,
    NoTransaction,
}

/// Where the end of a transaction stands.
#[derive(Debug, Clone, Copy, PartialEq, Eq, Structural)]
pub enum EndPhase {
    /// The batch is committed under the writer lock.
    Commit,
    /// The committed state is published under the writer lock.
    Publish,
    /// The batch is dropped under the writer lock.
    Discard { recover: bool },
    /// The writer is reopened, if it is broken, under the writer lock.
    Recover,
    /// The writer lock is given back.
    Release { verdict: EndVerdict },
    Done { verdict: EndVerdict },
}

/// An answer on the way to the end of a transaction.
#[derive(Debug, Clone, Copy, PartialEq, Eq, Structural)]
pub enum EndEvent {
    Committed,
    CommitFailed,
    Published,
    Discarded,
    Recovered,
    Released,
}

impl EndPhase {
    /// The phase after an answer. An answer to something else changes nothing.
    pub open spec fn after(self, event: EndEvent) -> EndPhase {
        match (self, event) {
            (EndPhase::Commit, EndEvent::Committed) => EndPhase::Publish,
            (EndPhase::Commit, EndEvent::CommitFailed) => EndPhase::Discard { recover: true },
            (EndPhase::Publish, EndEvent::Published) => EndPhase::Release {
                verdict: EndVerdict::Committed,
            },
            (EndPhase::Discard { recover }, EndEvent::Discarded) => if recover {
                EndPhase::Recover
            } else {
                EndPhase::Release { verdict: EndVerdict::RolledBack }
            },
            (EndPhase::Recover, EndEvent::Recovered) => EndPhase::Release {
                verdict: EndVerdict::Failed,
            },
            (EndPhase::Release { verdict }, EndEvent::Released) => EndPhase::Done { verdict },
            (phase, _) => phase,
        }
    }

    /// Whether the writer lock of the transaction is still held.
    pub open spec fn holds_writer(self) -> bool {
        !(self is Done)
    }

    /// Takes one answer in.
    pub fn advance(self, event: EndEvent) -> (next: EndPhase)
        ensures
            next == self.after(event),
    {
        match (self, event) {
            (EndPhase::Commit, EndEvent::Committed) => EndPhase::Publish,
            (EndPhase::Commit, EndEvent::CommitFailed) => EndPhase::Discard { recover: true },
            (EndPhase::Publish, EndEvent::Published) => EndPhase::Release {
                verdict: EndVerdict::Committed,
            },
            (EndPhase::Discard { recover }, EndEvent::Discarded) => {
                if recover {
                    EndPhase::Recover
                } else {
                    EndPhase::Release { verdict: EndVerdict::RolledBack }
                }
            },
            (EndPhase::Recover, EndEvent::Recovered) => EndPhase::Release {
                verdict: EndVerdict::Failed,
            },
            (EndPhase::Release { verdict }, EndEvent::Released) => EndPhase::Done { verdict },
            (phase, _) => phase,
        }
    }
}

impl ServerBackend {
    /// A connection that speaks for a principal, or for the caller of an open
    /// server.
    pub fn new(principal: Option<Principal>) -> (r: ServerBackend)
        ensures
            r@ == (SessionModel { principal: option_principal(principal), tx: None }),
    {
        ServerBackend { principal, tx: None }
    }

    /// Who the connection speaks for.
    pub fn principal(&self) -> (r: Principal)
        ensures
            r@ == self@.speaker(),
    {
        match &self.principal {
            Some(p) => p.copy(),
            None => Principal::anonymous_rw(),
        }
    }

    /// Whether the caller may write.
    pub fn allows_write(&self) -> (r: bool)
        ensures
            r == (self@.speaker().role is ReadWrite),
    {
        self.principal().allows_write()
    }

    /// The failure of a write, if the caller may not write.
    pub fn write_forbidden(&self) -> (r: Option<BackendError>)
        ensures
            r is Some <==> !(self@.speaker().role is ReadWrite),
            r matches Some(e) ==> e@ == failure(ErrorClass::Forbidden, WRITE_FORBIDDEN@),
    {
        if self.allows_write() {
            None
        } else {
            Some(write_forbidden_error())
        }
    }

    /// Whether a transaction is open.
    pub fn in_transaction(&self) -> (r: bool)
        ensures
            r == (self@.tx is Some),
    {
        self.tx.is_some()
    }

    /// The transaction that is open, if there is one.
    pub fn tx_state(&self) -> (r: Option<TxState>)
        ensures
            r == self@.tx,
    {
        self.tx
    }

    /// Forgets who logged on.
    pub fn logoff(&mut self)
        ensures
            final(self)@ == (SessionModel { principal: None, ..old(self)@ }),
    {
        self.principal = None;
    }

    /// Begins a transaction, unless one is open.
    pub fn begin_tx(&self) -> (r: BeginPhase)
        ensures
            r == if self@.tx is Some {
                BeginPhase::AlreadyOpen
            } else {
                BeginPhase::Admission
            },
    {
        if self.tx.is_some() {
            BeginPhase::AlreadyOpen
        } else {
            BeginPhase::Admission
        }
    }

    /// Takes one answer on the way to a transaction in. `waited` is how long the
    /// writer lock was waited for; with the lock the transaction is open.
    pub fn advance_begin(
        &mut self,
        phase: BeginPhase,
        event: BeginEvent,
        waited: Duration,
        metrics: &mut Metrics,
    ) -> (next: BeginPhase)
        ensures
            next == phase.after(event),
            final(self)@ == if phase is Lock && event is Locked {
                SessionModel { tx: Some(TxState { staged: false }), ..old(self)@ }
            } else {
                old(self)@
            },
            final(metrics)@ == if phase is Lock && (event is Locked || event is LockTimedOut) {
                old(metrics)@.lock_observed(
                    WriterLockKind::BoltTransaction,
                    nanos(waited),
                    event is Locked,
                )
            } else {
                old(metrics)@
            },
    {
        match (phase, event) {
            (BeginPhase::Admission, BeginEvent::Admitted) => BeginPhase::Intake,
            (BeginPhase::Admission, BeginEvent::Refused) => BeginPhase::Pressure,
            (BeginPhase::Intake, BeginEvent::IntakeOpen) => BeginPhase::Lock,
            (BeginPhase::Intake, BeginEvent::IntakeDegraded) => BeginPhase::Degraded,
            (BeginPhase::Lock, BeginEvent::Locked) => {
                metrics.observe_writer_lock(WriterLockKind::BoltTransaction, waited, true);
                self.tx = Some(TxState { staged: false });
                BeginPhase::Begun
            },
            (BeginPhase::Lock, BeginEvent::LockTimedOut) => {
                metrics.observe_writer_lock(WriterLockKind::BoltTransaction, waited, false);
                BeginPhase::Busy
            },
            (phase, _) => phase,
        }
    }

    /// Takes one answer to a statement of the transaction in. Whether a
    /// transaction is open is answered from the connection itself.
    pub fn advance_in_tx(&mut self, run: TxRun, event: BoltEvent) -> (next: TxRun)
        ensures
            next == run.after(
                if event is Slot {
                    BoltEvent::Slot { open: old(self)@.tx is Some }
                } else {
                    event
                },
            ),
            final(self)@ == old(self)@.statement_answered(run, event),
    {
        match event {
            BoltEvent::Slot { .. } => {
                return run.advance(BoltEvent::Slot { open: self.tx.is_some() });
            },
            _ => {},
        }
        match (run.phase, event, self.tx) {
            (TxPhase::Apply, BoltEvent::Staged, Some(_)) => {
                self.tx = Some(TxState { staged: true });
            },
            (TxPhase::Apply, BoltEvent::Gone, Some(_)) => {
                self.tx = Some(TxState { staged: false });
            },
            _ => {},
        }
        run.advance(event)
    }

    /// Takes the transaction out of its slot and begins its commit.
    pub fn commit_tx(&mut self) -> (r: EndPhase)
        ensures
            r == if old(self)@.tx is Some {
                EndPhase::Commit
            } else {
                EndPhase::Done { verdict: EndVerdict::NoTransaction }
            },
            old(self)@.tx is Some ==> r == end_first(true),
            final(self)@ == (SessionModel { tx: None, ..old(self)@ }),
    {
        let open = self.tx.is_some();
        self.tx = None;
        if open {
            EndPhase::Commit
        } else {
            EndPhase::Done { verdict: EndVerdict::NoTransaction }
        }
    }

    /// Takes the transaction out of its slot and drops what it staged. Without a
    /// transaction there is nothing to do.
    pub fn rollback_tx(&mut self) -> (r: EndPhase)
        ensures
            r == if old(self)@.tx is Some {
                EndPhase::Discard { recover: false }
            } else {
                EndPhase::Done { verdict: EndVerdict::RolledBack }
            },
            old(self)@.tx is Some ==> r == end_first(false),
            final(self)@ == (SessionModel { tx: None, ..old(self)@ }),
    {
        let open = self.tx.is_some();
        self.tx = None;
        if open {
            EndPhase::Discard { recover: false }
        } else {
            EndPhase::Done { verdict: EndVerdict::RolledBack }
        }
    }
}

/// The begin after a whole series of answers.
pub open spec fn begin_trace(phase: BeginPhase, events: Seq<BeginEvent>) -> BeginPhase
    decreases events.len(),
{
    if events.len() == 0 {
        phase
    } else {
        begin_trace(phase, events.drop_last()).after(events.last())
    }
}

/// A transaction waits for the writer only once memory was granted and local
/// persistence found in order, and is open only with the writer lock.
pub proof fn law_begin_gates(events: Seq<BeginEvent>)
    ensures
        ({
            let phase = begin_trace(BeginPhase::Admission, events);
            let admitted = events.contains(BeginEvent::Admitted);
            let open = events.contains(BeginEvent::IntakeOpen);
            &&& phase is Intake ==> admitted
            &&& phase is Lock ==> admitted && open
            &&& phase is Begun ==> admitted && open && events.contains(BeginEvent::Locked)
            &&& !(phase is AlreadyOpen)
        }),
    decreases events.len(),
{
    if events.len() > 0 {
        let before = events.drop_last();
        law_begin_gates(before);
        assert forall|e: BeginEvent| before.contains(e) implies events.contains(e) by {
            let i = choose|i: int| 0 <= i < before.len() && before[i] == e;
            assert(events[i] == e);
        }
        assert(events.contains(events.last())) by {
            assert(events[events.len() - 1] == events.last());
        }
    }
}

/// A statement that is to be explained leaves the transaction as it was, whatever
/// answers come on its way: nothing is staged, and nothing that was staged is
/// lost.
pub proof fn law_explained_statement_stages_nothing(
    session: SessionModel,
    run: TxRun,
    events: Seq<BoltEvent>,
    event: BoltEvent,
)
    requires
        run.explaining(),
    ensures
        session.statement_answered(tx_trace(run, events), event) == session,
{
    crate::run::law_tx_explain_never_executes(run, events);
}

/// The end of a transaction after a whole series of answers.
pub open spec fn end_trace(phase: EndPhase, events: Seq<EndEvent>) -> EndPhase
    decreases events.len(),
{
    if events.len() == 0 {
        phase
    } else {
        end_trace(phase, events.drop_last()).after(events.last())
    }
}

/// Whatever answers come, a transaction that ends has given the writer lock
/// back, is reported committed only when its batch was committed and published,
/// and otherwise has had its batch dropped.
pub proof fn law_transaction_end(first: EndPhase, events: Seq<EndEvent>)
    requires
        first is Commit || first == (EndPhase::Discard { recover: false }),
    ensures
        ({
            let phase = end_trace(first, events);
            let committed = events.contains(EndEvent::Committed) && events.contains(
                EndEvent::Published,
            );
            let dropped = events.contains(EndEvent::Discarded);
            let settled = |v: EndVerdict|
                if v is Committed {
                    committed
                } else {
                    dropped
                };
            &&& phase is Publish ==> events.contains(EndEvent::Committed)
            &&& phase is Recover ==> dropped
            &&& phase matches EndPhase::Release { verdict } ==> settled(verdict)
            &&& phase matches EndPhase::Done { verdict } ==> settled(verdict) && events.contains(
                EndEvent::Released,
            )
        }),
    decreases events.len(),
{
    if events.len() > 0 {
        let before = events.drop_last();
        law_transaction_end(first, before);
        assert forall|e: EndEvent| before.contains(e) implies events.contains(e) by {
            let i = choose|i: int| 0 <= i < before.len() && before[i] == e;
            assert(events[i] == e);
        }
        assert(events.contains(events.last())) by {
            assert(events[events.len() - 1] == events.last());
        }
    }
}

/// The answers that the end of a transaction took in: those that it waited for
/// when they came.
pub open spec fn end_heard(phase: EndPhase, events: Seq<EndEvent>) -> Seq<EndEvent>
    decreases events.len(),
{
    if events.len() == 0 {
        Seq::empty()
    } else {
        let before = events.drop_last();
        let now = end_trace(phase, before);
        if now.after(events.last()) == now {
            end_heard(phase, before)
        } else {
            end_heard(phase, before).push(events.last())
        }
    }
}

/// What the end of a transaction has been answered when the writer lock is about
/// to be given back.
pub open spec fn end_settled(commits: bool, verdict: EndVerdict, heard: Seq<EndEvent>) -> bool {
    match verdict {
        EndVerdict::Committed => commits && heard =~= seq![
            EndEvent::Committed,
            EndEvent::Published,
        ],
        EndVerdict::Failed => commits && heard =~= seq![
            EndEvent::CommitFailed,
            EndEvent::Discarded,
            EndEvent::Recovered,
        ],
        EndVerdict::RolledBack => !commits && heard =~= seq![EndEvent::Discarded],
        EndVerdict::NoTransaction => false,
    }
}

/// What the end of a transaction has been answered, one after the other, where it
/// stands; `commits` tells a commit from a rollback.
pub open spec fn end_story(commits: bool, phase: EndPhase, heard: Seq<EndEvent>) -> bool {
    match phase {
        EndPhase::Commit => commits && heard.len() == 0,
        EndPhase::Publish => commits && heard =~= seq![EndEvent::Committed],
        EndPhase::Discard { recover } => if commits {
            recover && heard =~= seq![EndEvent::CommitFailed]
        } else {
            !recover && heard.len() == 0
        },
        EndPhase::Recover => commits && heard =~= seq![
            EndEvent::CommitFailed,
            EndEvent::Discarded,
        ],
        EndPhase::Release { verdict } => end_settled(commits, verdict, heard),
        EndPhase::Done { verdict } => {
            &&& heard.len() > 0
            &&& heard.last() == EndEvent::Released
            &&& end_settled(commits, verdict, heard.drop_last())
        },
    }
}

/// Where a commit or a rollback of an open transaction begins.
pub open spec fn end_first(commits: bool) -> EndPhase {
    if commits {
        EndPhase::Commit
    } else {
        EndPhase::Discard { recover: false }
    }
}

/// Over every series of answers, what the end of a transaction has been answered
/// tells exactly how far it came. A commit is reported committed after the batch
/// was committed and published, and failed after the commit failed, the batch was
/// dropped and the writer looked after; nothing of a committed batch is dropped.
/// A rollback drops the batch and commits nothing. Either gives the writer lock
/// back last.
pub proof fn law_end_story(commits: bool, events: Seq<EndEvent>)
    ensures
        end_story(
            commits,
            end_trace(end_first(commits), events),
            end_heard(end_first(commits), events),
        ),
    decreases events.len(),
{
    if events.len() > 0 {
        let before = events.drop_last();
        law_end_story(commits, before);
        let heard = end_heard(end_first(commits), before);
        assert(heard.push(events.last()).drop_last() =~= heard);
    }
}

/// The end of a transaction listens to the answers to what it asked, to all of
/// them, and to nothing else: no answer that it waits for is lost.
pub proof fn law_end_listens(phase: EndPhase, event: EndEvent)
    ensures
        phase.after(event) != phase <==> match phase {
            EndPhase::Commit => event is Committed || event is CommitFailed,
            EndPhase::Publish => event is Published,
            EndPhase::Discard { .. } => event is Discarded,
            EndPhase::Recover => event is Recovered,
            EndPhase::Release { .. } => event is Released,
            EndPhase::Done { .. } => false,
        },
{
}

/// What follows a first answer.
proof fn lemma_end_head(phase: EndPhase, event: EndEvent, rest: Seq<EndEvent>)
    ensures
        end_trace(phase, seq![event] + rest) == end_trace(phase.after(event), rest),
    decreases rest.len(),
{
    let all = seq![event] + rest;
    if rest.len() == 0 {
        assert(all =~= seq![event]);
        assert(all.drop_last() =~= Seq::empty());
        assert(end_trace(phase, all.drop_last()) == phase);
    } else {
        lemma_end_head(phase, event, rest.drop_last());
        assert(all.drop_last() =~= seq![event] + rest.drop_last());
    }
}

/// The answer to the commit decides how it ends, whatever answers follow. Once the
/// batch is committed the transaction can only be published, and reported
/// committed; it fails, and its batch is dropped, only when the commit failed. And
/// a commit that is published and whose lock is given back is reported.
pub proof fn law_commit_answer_decides(rest: Seq<EndEvent>)
    ensures
        ({
            let phase = end_trace(EndPhase::Commit, seq![EndEvent::Committed] + rest);
            ||| phase is Publish
            ||| phase == (EndPhase::Release { verdict: EndVerdict::Committed })
            ||| phase == (EndPhase::Done { verdict: EndVerdict::Committed })
        }),
        ({
            let phase = end_trace(EndPhase::Commit, seq![EndEvent::CommitFailed] + rest);
            ||| phase == (EndPhase::Discard { recover: true })
            ||| phase is Recover
            ||| phase == (EndPhase::Release { verdict: EndVerdict::Failed })
            ||| phase == (EndPhase::Done { verdict: EndVerdict::Failed })
        }),
        end_trace(
            EndPhase::Commit,
            seq![EndEvent::Committed, EndEvent::Published, EndEvent::Released],
        ) == (EndPhase::Done { verdict: EndVerdict::Committed }),
        end_trace(
            EndPhase::Commit,
            seq![
                EndEvent::CommitFailed,
                EndEvent::Discarded,
                EndEvent::Recovered,
                EndEvent::Released,
            ],
        ) == (EndPhase::Done { verdict: EndVerdict::Failed }),
        end_trace(
            EndPhase::Discard { recover: false },
            seq![EndEvent::Discarded, EndEvent::Released],
        ) == (EndPhase::Done { verdict: EndVerdict::RolledBack }),
    decreases rest.len(),
{
    lemma_end_head(EndPhase::Commit, EndEvent::Committed, rest);
    lemma_end_head(EndPhase::Commit, EndEvent::CommitFailed, rest);
    if rest.len() > 0 {
        law_commit_answer_decides(rest.drop_last());
        lemma_end_head(EndPhase::Commit, EndEvent::Committed, rest.drop_last());
        lemma_end_head(EndPhase::Commit, EndEvent::CommitFailed, rest.drop_last());
    } else {
        let a = seq![EndEvent::Committed, EndEvent::Published, EndEvent::Released];
        assert(a.drop_last() =~= seq![EndEvent::Committed, EndEvent::Published]);
        assert(a.drop_last().drop_last() =~= seq![EndEvent::Committed]);
        assert(a.drop_last().drop_last().drop_last() =~= Seq::empty());
        reveal_with_fuel(end_trace, 5);
        let b = seq![
            EndEvent::CommitFailed,
            EndEvent::Discarded,
            EndEvent::Recovered,
            EndEvent::Released,
        ];
        assert(b.drop_last() =~= seq![
            EndEvent::CommitFailed,
            EndEvent::Discarded,
            EndEvent::Recovered,
        ]);
        assert(b.drop_last().drop_last() =~= seq![EndEvent::CommitFailed, EndEvent::Discarded]);
        assert(b.drop_last().drop_last().drop_last() =~= seq![EndEvent::CommitFailed]);
        assert(b.drop_last().drop_last().drop_last().drop_last() =~= Seq::empty());
        let c = seq![EndEvent::Discarded, EndEvent::Released];
        assert(c.drop_last() =~= seq![EndEvent::Discarded]);
        assert(c.drop_last().drop_last() =~= Seq::empty());
    }
}

/// The failure of a commit shows in its end: over every series of answers, a
/// commit that is reported failed, or whose batch is being dropped, was answered
/// that it failed and was never answered that it was committed.
pub proof fn law_failed_commit_was_answered(events: Seq<EndEvent>)
    ensures
        ({
            let phase = end_trace(EndPhase::Commit, events);
            let heard = end_heard(EndPhase::Commit, events);
            let failed = phase is Discard || phase is Recover || phase == (EndPhase::Release {
                verdict: EndVerdict::Failed,
            }) || phase == (EndPhase::Done { verdict: EndVerdict::Failed });
            &&& failed ==> events.contains(EndEvent::CommitFailed) && !heard.contains(
                EndEvent::Committed,
            )
            &&& !failed ==> !heard.contains(EndEvent::CommitFailed)
        }),
{
    law_end_story(true, events);
    lemma_end_heard(EndPhase::Commit, events);
    let heard = end_heard(EndPhase::Commit, events);
    let phase = end_trace(EndPhase::Commit, events);
    if let EndPhase::Done { .. } = phase {
        assert forall|i: int| 0 <= i < heard.len() - 1 implies #[trigger] heard[i]
            == heard.drop_last()[i] by {}
    }
    if heard.len() > 0 {
        assert(heard.contains(heard[0]));
    }
}

/// Only what was answered is taken in.
proof fn lemma_end_heard(first: EndPhase, events: Seq<EndEvent>)
    ensures
        forall|e: EndEvent| #[trigger]
            end_heard(first, events).contains(e) ==> events.contains(e),
    decreases events.len(),
{
    if events.len() > 0 {
        let before = events.drop_last();
        lemma_end_heard(first, before);
        assert forall|e: EndEvent| #[trigger]
            end_heard(first, events).contains(e) implies events.contains(e) by {
            let heard = end_heard(first, events);
            let i = choose|i: int| 0 <= i < heard.len() && heard[i] == e;
            let early = end_heard(first, before);
            if i < early.len() {
                assert(early[i] == e);
                assert(early.contains(e));
                assert(before.contains(e));
                let j = choose|j: int| 0 <= j < before.len() && before[j] == e;
                assert(events[j] == e);
            } else {
                assert(events[events.len() - 1] == e);
            }
        }
    }
}

/// The answers that a begin took in.
pub open spec fn begin_heard(phase: BeginPhase, events: Seq<BeginEvent>) -> Seq<BeginEvent>
    decreases events.len(),
{
    if events.len() == 0 {
        Seq::empty()
    } else {
        let before = events.drop_last();
        let now = begin_trace(phase, before);
        if now.after(events.last()) == now {
            begin_heard(phase, before)
        } else {
            begin_heard(phase, before).push(events.last())
        }
    }
}

/// Over every series of answers, what a begin has been answered tells exactly how
/// far it came: the transaction is open after memory was granted, local
/// persistence found in order and the writer locked, in that order, and a begin
/// that fails names the refusal that it was answered.
pub proof fn law_begin_story(events: Seq<BeginEvent>)
    ensures
        ({
            let heard = begin_heard(BeginPhase::Admission, events);
            match begin_trace(BeginPhase::Admission, events) {
                BeginPhase::Admission => heard.len() == 0,
                BeginPhase::Intake => heard =~= seq![BeginEvent::Admitted],
                BeginPhase::Lock => heard =~= seq![BeginEvent::Admitted, BeginEvent::IntakeOpen],
                BeginPhase::Begun => heard =~= seq![
                    BeginEvent::Admitted,
                    BeginEvent::IntakeOpen,
                    BeginEvent::Locked,
                ],
                BeginPhase::AlreadyOpen => false,
                BeginPhase::Pressure => heard =~= seq![BeginEvent::Refused],
                BeginPhase::Degraded => heard =~= seq![
                    BeginEvent::Admitted,
                    BeginEvent::IntakeDegraded,
                ],
                BeginPhase::Busy => heard =~= seq![
                    BeginEvent::Admitted,
                    BeginEvent::IntakeOpen,
                    BeginEvent::LockTimedOut,
                ],
            }
        }),
    decreases events.len(),
{
    if events.len() > 0 {
        law_begin_story(events.drop_last());
    }
}

/// A begin listens to the answers to what it asked, to all of them, and to nothing
/// else.
pub proof fn law_begin_listens(phase: BeginPhase, event: BeginEvent)
    ensures
        phase.after(event) != phase <==> match phase {
            BeginPhase::Admission => event is Admitted || event is Refused,
            BeginPhase::Intake => event is IntakeOpen || event is IntakeDegraded,
            BeginPhase::Lock => event is Locked || event is LockTimedOut,
            _ => false,
        },
{
}

/// An answer to a statement opens and closes no transaction and changes nobody's
/// identity. The transaction has staged something once a write of it was staged;
/// and when the client left in the middle of a write, everything was dropped.
pub proof fn law_statement_keeps_the_transaction(
    session: SessionModel,
    run: TxRun,
    event: BoltEvent,
)
    ensures
        ({
            let next = session.statement_answered(run, event);
            &&& next.principal == session.principal
            &&& next.tx is Some <==> session.tx is Some
            &&& session.tx is Some && run.phase is Apply && event is Staged ==> next.tx == Some(
                TxState { staged: true },
            )
            &&& session.tx is Some && run.phase is Apply && event is Gone ==> next.tx == Some(
                TxState { staged: false },
            )
            &&& next != session ==> run.after(event) != run && run.phase is Apply
        }),
{
}

/// A begin is answered with a failure exactly if the transaction is not open and
/// nothing is waited for any more, and only a begin inside a transaction is the
/// caller's fault.
pub proof fn law_begin_failures(phase: BeginPhase, pressure: MemoryPressure, reason: Seq<char>)
    ensures
        begin_failure(phase, pressure, reason) is None <==> phase is Admission || phase is Intake
            || phase is Lock || phase is Begun,
        begin_failure(phase, pressure, reason) matches Some(e) ==> (e.class is Storage
            <==> !(phase is AlreadyOpen)),
        phase is Degraded ==> begin_failure(phase, pressure, reason) == Some(
            failure(ErrorClass::Storage, degraded_text(reason)),
        ),
        phase is Pressure ==> begin_failure(phase, pressure, reason) == Some(
            failure(ErrorClass::Storage, pressure_text(pressure)),
        ),
        phase is Busy ==> begin_failure(phase, pressure, reason) == Some(
            failure(ErrorClass::Storage, WRITER_BUSY@),
        ),
{
}

/// The failure that a begin is answered with, given what came back on the way.
pub open spec fn begin_failure(
    phase: BeginPhase,
    pressure: MemoryPressure,
    reason: Seq<char>,
) -> Option<ErrorModel> {
    match phase {
        BeginPhase::AlreadyOpen => Some(
            failure(ErrorClass::Other, "a transaction is already open"@),
        ),
        BeginPhase::Pressure => Some(failure(ErrorClass::Storage, pressure_text(pressure))),
        BeginPhase::Degraded => Some(failure(ErrorClass::Storage, degraded_text(reason))),
        BeginPhase::Busy => Some(failure(ErrorClass::Storage, WRITER_BUSY@)),
        _ => None,
    }
}

/// The failure that a begin is answered with, if it failed.
pub fn begin_error(
    phase: BeginPhase,
    pressure: &MemoryPressure,
    reason: &str,
) -> (r: Option<BackendError>)
    ensures
        match r {
            Some(e) => begin_failure(phase, *pressure, reason@) == Some(e@),
            None => begin_failure(phase, *pressure, reason@) is None,
        },
{
    match phase {
        BeginPhase::AlreadyOpen => Some(
            BackendError::new(ErrorClass::Other, "a transaction is already open"),
        ),
        BeginPhase::Pressure => Some(memory_pressure_error(pressure)),
        BeginPhase::Degraded => Some(persistence_degraded_error(reason)),
        BeginPhase::Busy => Some(writer_busy_error()),
        _ => None,
    }
}

/// The failure that the end of a transaction is answered with, if it failed.
pub fn end_error(verdict: EndVerdict, storage_text: &str) -> (r: Option<BackendError>)
    ensures
        match verdict {
            EndVerdict::NoTransaction => r matches Some(e) && e@ == failure(
                ErrorClass::Other,
                NO_TRANSACTION@,
            ),
            EndVerdict::Failed => r matches Some(e) && e@ == failure(
                ErrorClass::Storage,
                storage_text@,
            ),
            _ => r is None,
        },
{
    match verdict {
        EndVerdict::NoTransaction => Some(BackendError::new(ErrorClass::Other, NO_TRANSACTION)),
        EndVerdict::Failed => Some(BackendError::new(ErrorClass::Storage, storage_text)),
        _ => None,
    }
}

// ---------------------------------------------------------------------------
// Many namespaces
// ---------------------------------------------------------------------------

/// A connection to one namespace on behalf of a connection to all.
pub struct Delegate {
    pub namespace: String,
    pub backend: ServerBackend,
}

/// A connection that names a namespace with every statement. A transaction pins
/// the namespace that it began in.
pub struct MultiTenantBackend {
    pub identity: TokenAuthenticator,
    pub tx_delegate: Option<Delegate>,
}

/// The namespace that a transaction is pinned to.
pub open spec fn pinned(d: Option<Delegate>) -> Option<(Seq<char>, SessionModel)> {
    match d {
        Some(d) => Some((d.namespace@, d.backend@)),
        None => None,
    }
}

impl MultiTenantBackend {
    /// The namespace that the connection's transaction is pinned to.
    pub open spec fn transaction(self) -> Option<(Seq<char>, SessionModel)> {
        pinned(self.tx_delegate)
    }

    /// A connection with an identity and no transaction.
    pub fn new(identity: TokenAuthenticator) -> (r: MultiTenantBackend)
        ensures
            r.identity == identity,
            r.transaction() is None,
    {
        MultiTenantBackend { identity, tx_delegate: None }
    }

    /// The connection for a statement: to the namespace that it names or the
    /// default, for a caller whose credentials reach there.
    pub fn delegate_for(&self, auth: &AuthConfig, db: Option<&str>, default_namespace: &str) -> (r:
        Result<Delegate, BackendError>)
        ensures
            ({
                let namespace = match db {
                    Some(s) => s@,
                    None => default_namespace@,
                };
                delegated(auth@, self.identity@.credentials, namespace, r)
            }),
    {
        let namespace = match db {
            Some(s) => s.to_owned(),
            None => default_namespace.to_owned(),
        };
        if auth.is_open() {
            return Ok(Delegate { namespace, backend: ServerBackend::new(None) });
        }
        match &self.identity.credentials {
            None => Err(BackendError::new(ErrorClass::Forbidden, "not authenticated")),
            Some(c) => {
                let found = auth.principal_for_in(c.as_str(), namespace.as_str());
                delegate_or_refuse(found, namespace)
            },
        }
    }

    /// The connection that the transaction is pinned to.
    pub fn open_tx_delegate(&self) -> (r: Result<&Delegate, BackendError>)
        ensures
            match r {
                Ok(d) => self.transaction() == Some((d.namespace@, d.backend@)),
                Err(e) => self.transaction() is None && e@ == failure(
                    ErrorClass::Other,
                    NO_TRANSACTION@,
                ),
            },
    {
        match &self.tx_delegate {
            Some(d) => Ok(d),
            None => Err(BackendError::new(ErrorClass::Other, NO_TRANSACTION)),
        }
    }

    /// Pins the connection of a transaction that has begun.
    pub fn pin(&mut self, delegate: Delegate)
        ensures
            final(self).identity == old(self).identity,
            final(self).transaction() == Some((delegate.namespace@, delegate.backend@)),
    {
        self.tx_delegate = Some(delegate);
    }

    /// Begins the commit of the pinned transaction. The connection stays pinned
    /// through it, so that the bookmark that follows is that of its namespace.
    pub fn commit_tx(&mut self) -> (r: Result<EndPhase, BackendError>)
        ensures
            final(self).identity == old(self).identity,
            match old(self).transaction() {
                Some((namespace, session)) => {
                    &&& r == Ok::<EndPhase, BackendError>(
                        if session.tx is Some {
                            EndPhase::Commit
                        } else {
                            EndPhase::Done { verdict: EndVerdict::NoTransaction }
                        },
                    )
                    &&& final(self).transaction() == Some(
                        (namespace, SessionModel { tx: None, ..session }),
                    )
                },
                None => {
                    &&& r matches Err(e) && e@ == failure(ErrorClass::Other, NO_TRANSACTION@)
                    &&& final(self).transaction() is None
                },
            },
    {
        match self.tx_delegate.take() {
            Some(d) => {
                let mut backend = d.backend;
                let phase = backend.commit_tx();
                self.tx_delegate = Some(Delegate { namespace: d.namespace, backend });
                Ok(phase)
            },
            None => Err(BackendError::new(ErrorClass::Other, NO_TRANSACTION)),
        }
    }

    /// Takes the pinned connection away and drops what its transaction staged.
    /// Without one there is nothing to do.
    pub fn rollback_tx(&mut self) -> (r: EndPhase)
        ensures
            final(self).identity == old(self).identity,
            final(self).transaction() is None,
            r == if old(self).transaction() matches Some((_, session)) && session.tx is Some {
                EndPhase::Discard { recover: false }
            } else {
                EndPhase::Done { verdict: EndVerdict::RolledBack }
            },
    {
        match self.tx_delegate.take() {
            Some(d) => {
                let mut backend = d.backend;
                backend.rollback_tx()
            },
            None => EndPhase::Done { verdict: EndVerdict::RolledBack },
        }
    }

    /// Forgets who logged on, and drops what an open transaction staged.
    pub fn logoff(&mut self) -> (r: EndPhase)
        ensures
            final(self).identity@ == (IdentityModel {
                principal: None,
                credentials: None,
                ..old(self).identity@
            }),
            final(self).transaction() is None,
            r == if old(self).transaction() matches Some((_, session)) && session.tx is Some {
                EndPhase::Discard { recover: false }
            } else {
                EndPhase::Done { verdict: EndVerdict::RolledBack }
            },
    {
        self.identity.logoff();
        self.rollback_tx()
    }

    /// The bookmark of the namespace that a transaction is pinned to.
    pub fn current_bookmark(&self, manifest_version: u64) -> (r: Option<String>)
        ensures
            option_text(r) == if self.transaction() is Some {
                Some("namidb:v"@ + decimal(manifest_version as nat))
            } else {
                None
            },
    {
        match &self.tx_delegate {
            Some(_) => Some(bookmark(manifest_version)),
            None => None,
        }
    }
}

/// What holds of a connection that was asked for on behalf of credentials: on an
/// open server everyone gets it, without credentials no one, and otherwise who
/// the credentials stand for in that namespace.
pub open spec fn delegated(
    auth: AuthModel,
    credentials: Option<Seq<char>>,
    namespace: Seq<char>,
    r: Result<Delegate, BackendError>,
) -> bool {
    if auth.is_open() {
        r matches Ok(d) && d.namespace@ == namespace && d.backend@ == (SessionModel {
            principal: None,
            tx: None,
        })
    } else {
        match credentials {
            None => r matches Err(e) && e@ == failure(
                ErrorClass::Forbidden,
                "not authenticated"@,
            ),
            Some(c) => match r {
                Ok(d) => {
                    &&& d.namespace@ == namespace
                    &&& d.backend@.tx is None
                    &&& d.backend@.principal is Some
                    &&& auth.may_resolve(c, namespace, d.backend@.principal)
                },
                Err(e) => {
                    &&& e@ == out_of_scope(namespace)
                    &&& auth.may_resolve(c, namespace, None)
                },
            },
        }
    }
}

/// The failure of a statement for a namespace that the credentials do not reach.
pub open spec fn out_of_scope(namespace: Seq<char>) -> ErrorModel {
    failure(ErrorClass::Forbidden, "token not scoped to namespace `"@ + namespace + "`"@)
}

/// The connection for the principal that was found, or the failure.
pub fn delegate_or_refuse(found: Option<Principal>, namespace: String) -> (r: Result<
    Delegate,
    BackendError,
>)
    ensures
        match found {
            Some(p) => r matches Ok(d) && d.namespace@ == namespace@ && d.backend@ == (
            SessionModel { principal: Some(p@), tx: None }),
            None => r matches Err(e) && e@ == out_of_scope(namespace@),
        },
{
    match found {
        Some(p) => Ok(Delegate { namespace, backend: ServerBackend::new(Some(p)) }),
        None => {
            let mut message = "token not scoped to namespace `".to_owned();
            message.append(namespace.as_str());
            message.append("`");
            Err(BackendError { class: ErrorClass::Forbidden, message })
        },
    }
}

/// The failure of a statement whose namespace could not be opened.
pub fn open_error(namespace: &str, cause: &str) -> (r: BackendError)
    ensures
        r@ == failure(ErrorClass::Other, "namespace `"@ + namespace@ + "`: "@ + cause@),
{
    let mut message = "namespace `".to_owned();
    message.append(namespace);
    message.append("`: ");
    message.append(cause);
    BackendError { class: ErrorClass::Other, message }
}

/// On a server of static tokens, a statement reaches a namespace only with
/// credentials that a token with that scope accepts, and with that token's role.
pub proof fn law_delegates_are_scoped(
    auth: AuthModel,
    credentials: Seq<char>,
    namespace: Seq<char>,
    r: Result<Delegate, BackendError>,
)
    requires
        auth.jwt is None,
        !auth.is_open(),
        delegated(auth, Some(credentials), namespace, r),
    ensures
        r matches Ok(d) ==> exists|i: int|
            {
                &&& 0 <= i < auth.tokens.len()
                &&& (#[trigger] auth.tokens[i]).secret@ == credentials
                &&& auth.tokens[i].reaches(namespace)
                &&& d.backend@.principal == Some(auth.tokens[i].principal())
            },
{
    crate::auth::law_grants_are_scoped(auth.tokens, credentials, namespace);
}

/// On a server of static tokens, credentials that a token with that scope accepts
/// get their connection.
pub proof fn law_scoped_credentials_are_served(
    auth: AuthModel,
    credentials: Seq<char>,
    namespace: Seq<char>,
    i: int,
    r: Result<Delegate, BackendError>,
)
    requires
        0 <= i < auth.tokens.len(),
        auth.tokens[i].secret@ == credentials,
        auth.tokens[i].reaches(namespace),
        auth.jwt is None,
        delegated(auth, Some(credentials), namespace, r),
    ensures
        r matches Ok(d) && d.namespace@ == namespace && d.backend@.principal is Some,
{
    assert(auth.tokens[i].grants(credentials, namespace));
    crate::auth::law_last_grant_counts(auth.tokens, credentials, namespace, i);
}

// ---------------------------------------------------------------------------
// Observed statements
// ---------------------------------------------------------------------------

/// Admits a statement by memory, before anything else is done with it, or
/// refuses it and counts the refusal. `resident` is the sample after any relief.
/// A refusal that came slowly is handed back for the log as well.
pub fn admit_statement(
    memory: &mut MemoryGovernor,
    metrics: &mut Metrics,
    resident: Option<usize>,
    elapsed: Duration,
    cypher: &str,
) -> (r: (Result<(), BackendError>, Option<SlowQuery>))
    ensures
        match resident {
            Some(n) if under_pressure(n, 0, old(memory)@.max_bytes) => {
                &&& r.1 is Some <==> old(metrics)@.is_slow(nanos(elapsed))
                &&& r.1 matches Some(record) ==> record.tells(
                    Protocol::Bolt,
                    None,
                    false,
                    nanos(elapsed),
                    cypher@,
                )
                &&& r.0 matches Err(e) && e@ == failure(
                    ErrorClass::Storage,
                    pressure_text(old(memory)@.pressure(n, 0)),
                )
                &&& final(memory)@ == old(memory)@.refused()
                &&& final(metrics)@ == old(metrics)@.query_observed(
                    Protocol::Bolt,
                    None,
                    false,
                    nanos(elapsed),
                )
            },
            _ => {
                &&& r.0 is Ok
                &&& r.1 is None
                &&& final(memory)@ == old(memory)@
                &&& final(metrics)@ == old(metrics)@
            },
        },
{
    match memory.admit_query(resident) {
        Ok(_) => (Ok(()), None),
        Err(pressure) => {
            let slow = metrics.observe_query(Protocol::Bolt, None, false, elapsed, cypher);
            (Err(memory_pressure_error(&pressure)), slow)
        },
    }
}

/// Where an admitted statement goes.
pub enum Entry {
    /// It asks for the schema: it is answered from the published snapshot, and is
    /// neither parsed nor counted.
    Introspect { procedure: Procedure },
    /// It is run, and is in flight from here on.
    Run { guard: InFlightGuard },
}

/// Takes a statement in, of its own or inside a transaction. It is admitted by
/// memory first, so that a question for the schema, which goes past the parser,
/// does not go past the memory ceiling.
pub fn receive_statement(
    memory: &mut MemoryGovernor,
    metrics: &mut Metrics,
    resident: Option<usize>,
    elapsed: Duration,
    cypher: &str,
) -> (r: (Result<Entry, BackendError>, Option<SlowQuery>))
    ensures
        match resident {
            Some(n) if under_pressure(n, 0, old(memory)@.max_bytes) => {
                &&& r.1 is Some <==> old(metrics)@.is_slow(nanos(elapsed))
                &&& r.1 matches Some(record) ==> record.tells(
                    Protocol::Bolt,
                    None,
                    false,
                    nanos(elapsed),
                    cypher@,
                )
                &&& r.0 matches Err(e) && e@ == failure(
                    ErrorClass::Storage,
                    pressure_text(old(memory)@.pressure(n, 0)),
                )
                &&& final(memory)@ == old(memory)@.refused()
                &&& final(metrics)@ == old(metrics)@.query_observed(
                    Protocol::Bolt,
                    None,
                    false,
                    nanos(elapsed),
                )
            },
            _ => {
                &&& r.1 is None
                &&& final(memory)@ == old(memory)@
                &&& match procedure_of(normalized(cypher@)) {
                    Some(procedure) => {
                        &&& r.0 == Ok::<Entry, BackendError>(Entry::Introspect { procedure })
                        &&& final(metrics)@ == old(metrics)@
                    },
                    None => {
                        &&& r.0 is Ok && r.0->Ok_0 is Run
                        &&& final(metrics)@ == old(metrics)@.entered()
                    },
                }
            },
        },
{
    match admit_statement(memory, metrics, resident, elapsed, cypher) {
        (Err(e), slow) => (Err(e), slow),
        (Ok(_), _) => match try_introspect(cypher) {
            Some(procedure) => (Ok(Entry::Introspect { procedure }), None),
            None => (Ok(Entry::Run { guard: metrics.track_in_flight() }), None),
        },
    }
}

/// Reserves memory for a message that is about to be decoded. `resident` is the
/// sample after any relief and `projected` the working set that decoding takes.
pub fn admit_request_decode(
    memory: &mut MemoryGovernor,
    resident: Option<usize>,
    projected: usize,
) -> (r: Result<MemoryHeadroomReservation, BackendError>)
    ensures
        old(memory)@.max_bytes == 0 || resident is None ==> r is Ok && r->Ok_0.spec_bytes() == 0
            && final(memory)@ == old(memory)@,
        old(memory)@.max_bytes > 0 && resident is Some ==> {
            &&& r is Ok <==> old(memory)@.reservable(resident->Some_0, projected)
            &&& match r {
                Ok(guard) => {
                    &&& guard.spec_bytes() == projected
                    &&& final(memory)@ == old(memory)@.promised(projected)
                },
                Err(e) => {
                    &&& e@ == failure(
                        ErrorClass::Storage,
                        pressure_text(
                            old(memory)@.pressure(
                                resident->Some_0,
                                saturated(old(memory)@.reserved_headroom_bytes, projected),
                            ),
                        ),
                    )
                    &&& final(memory)@ == old(memory)@.refused()
                },
            }
        },
{
    match memory.reserve_query_headroom(resident, projected) {
        Ok(guard) => Ok(guard),
        Err(pressure) => Err(memory_pressure_error(&pressure)),
    }
}

/// Records a statement that ended, and takes it off the in-flight gauge. A slow
/// one is handed back for the log.
pub fn observe_statement(
    metrics: &mut Metrics,
    guard: InFlightGuard,
    verdict: BoltVerdict,
    elapsed: Duration,
    cypher: &str,
) -> (slow: Option<SlowQuery>)
    ensures
        final(metrics)@ == old(metrics)@.query_observed(
            Protocol::Bolt,
            verdict.kind_spec(),
            verdict.ok_spec(),
            nanos(elapsed),
        ).left(),
        slow is Some <==> old(metrics)@.is_slow(nanos(elapsed)),
        slow matches Some(record) ==> record.tells(
            Protocol::Bolt,
            verdict.kind_spec(),
            verdict.ok_spec(),
            nanos(elapsed),
            cypher@,
        ),
{
    let slow = metrics.observe_query(
        Protocol::Bolt,
        verdict.kind(),
        verdict.ok(),
        elapsed,
        cypher,
    );
    metrics.release_in_flight(guard);
    slow
}

// ---------------------------------------------------------------------------
// Answers
// ---------------------------------------------------------------------------

/// What a schema command inside a transaction is told.
pub open spec fn schema_in_tx_text(command: SchemaKind) -> Seq<char> {
    match command {
        SchemaKind::CreateVectorIndex => "CREATE VECTOR INDEX cannot run inside a transaction"@,
        SchemaKind::CreateFulltextIndex => "CREATE FULLTEXT INDEX cannot run inside a transaction"@,
        SchemaKind::DropVectorIndex => "DROP VECTOR INDEX cannot run inside a transaction"@,
        SchemaKind::DropFulltextIndex => "DROP INDEX cannot run inside a transaction"@,
        _ => "CREATE CONSTRAINT / CREATE INDEX cannot run inside a transaction"@,
    }
}

/// What a schema command inside a transaction is told.
pub fn schema_in_tx_message(command: SchemaKind) -> (r: &'static str)
    ensures
        r@ == schema_in_tx_text(command),
{
    match command {
        SchemaKind::CreateVectorIndex => "CREATE VECTOR INDEX cannot run inside a transaction",
        SchemaKind::CreateFulltextIndex => "CREATE FULLTEXT INDEX cannot run inside a transaction",
        SchemaKind::DropVectorIndex => "DROP VECTOR INDEX cannot run inside a transaction",
        SchemaKind::DropFulltextIndex => "DROP INDEX cannot run inside a transaction",
        _ => "CREATE CONSTRAINT / CREATE INDEX cannot run inside a transaction",
    }
}

/// What is left of a statement whose group has no committer.
pub const GROUP_LOST: &'static str = "group commit coordinator exited";

impl Payload {
    /// Whether this is what comes back on the way to the verdict.
    pub open spec fn fits_bolt(self, verdict: BoltVerdict) -> bool {
        match verdict {
            BoltVerdict::ParseError => self is ParseFailure,
            BoltVerdict::Schema { verdict } => match verdict {
                SchemaVerdict::Denied => self is Denial,
                SchemaVerdict::Degraded => self is Intake,
                SchemaVerdict::Failed { user_error } => self matches Payload::Storage(f)
                    && f.kind.is_user() == user_error,
                SchemaVerdict::Retired => false,
                _ => self is Nothing,
            },
            BoltVerdict::Shown => self is Shown,
            BoltVerdict::PlanError => self is Plan,
            BoltVerdict::Denied => self is Denial,
            BoltVerdict::Explained => self is Lines,
            BoltVerdict::WriteDegraded => self is Intake,
            BoltVerdict::Written => self is Outcome,
            BoltVerdict::WriteFailed | BoltVerdict::ReadFailed | BoltVerdict::GroupFailed => self
                is Exec,
            BoltVerdict::CommitFailed => self is Storage,
            BoltVerdict::Read => self is Rows,
            _ => self is Nothing,
        }
    }

    /// Whether this is what comes back on the way to that verdict.
    pub fn suits_bolt(&self, verdict: BoltVerdict) -> (r: bool)
        ensures
            r == self.fits_bolt(verdict),
    {
        match (self, verdict) {
            (Payload::ParseFailure { .. }, BoltVerdict::ParseError) => true,
            (Payload::Denial(_), BoltVerdict::Denied) => true,
            (Payload::Denial(_), BoltVerdict::Schema { verdict: SchemaVerdict::Denied }) => true,
            (Payload::Intake(_), BoltVerdict::WriteDegraded) => true,
            (Payload::Intake(_), BoltVerdict::Schema { verdict: SchemaVerdict::Degraded }) => true,
            (
                Payload::Storage(f),
                BoltVerdict::Schema { verdict: SchemaVerdict::Failed { user_error } },
            ) => f.is_user() == user_error,
            (Payload::Storage(_), BoltVerdict::CommitFailed) => true,
            (Payload::Shown { .. }, BoltVerdict::Shown) => true,
            (Payload::Plan(_), BoltVerdict::PlanError) => true,
            (Payload::Lines(_), BoltVerdict::Explained) => true,
            (Payload::Outcome(_), BoltVerdict::Written) => true,
            (
                Payload::Exec(_),
                BoltVerdict::WriteFailed | BoltVerdict::ReadFailed | BoltVerdict::GroupFailed,
            ) => true,
            (Payload::Rows(_), BoltVerdict::Read) => true,
            (
                Payload::Nothing,
                BoltVerdict::Schema {
                    verdict: SchemaVerdict::ReadOnly
                    | SchemaVerdict::Busy
                    | SchemaVerdict::Applied,
                },
            ) => true,
            (
                Payload::Nothing,
                BoltVerdict::Disconnected { .. }
                | BoltVerdict::SchemaInTx { .. }
                | BoltVerdict::WriteReadOnly
                | BoltVerdict::Busy
                | BoltVerdict::NoTransaction
                | BoltVerdict::GroupLost,
            ) => true,
            _ => false,
        }
    }
}

/// The view of an answer.
pub open spec fn answer(r: Result<RunOutcome, BackendError>) -> Result<OutcomeModel, ErrorModel> {
    match r {
        Ok(o) => Ok(o@),
        Err(e) => Err(e@),
    }
}

/// The answer to a schema command.
pub open spec fn schema_answer(verdict: SchemaVerdict, payload: Payload) -> Result<
    OutcomeModel,
    ErrorModel,
> {
    match verdict {
        SchemaVerdict::ReadOnly => Err(failure(ErrorClass::Forbidden, WRITE_FORBIDDEN@)),
        SchemaVerdict::Denied => Err(
            failure(ErrorClass::Forbidden, Denied::message(payload->Denial_0.reason@)),
        ),
        SchemaVerdict::Degraded => Err(
            failure(ErrorClass::Storage, degraded_text(payload->Intake_0@)),
        ),
        SchemaVerdict::Failed { .. } => Err(schema_failure(payload->Storage_0)),
        SchemaVerdict::Applied => Ok(
            plain_model(Seq::empty(), Seq::empty(), StatementType::Schema),
        ),
        _ => Err(failure(ErrorClass::Storage, WRITER_BUSY@)),
    }
}

/// The answer that a verdict is given with.
pub open spec fn verdict_answer(verdict: BoltVerdict, payload: Payload) -> Result<
    OutcomeModel,
    ErrorModel,
> {
    match verdict {
        BoltVerdict::Disconnected { .. } => Err(failure(ErrorClass::Other, DISCONNECTED@)),
        BoltVerdict::ParseError => Err(
            failure(ErrorClass::Syntax, payload->message@ + " at "@ + payload->span@),
        ),
        BoltVerdict::Schema { verdict } => schema_answer(verdict, payload),
        BoltVerdict::SchemaInTx { command } => Err(
            failure(ErrorClass::Unsupported, schema_in_tx_text(command)),
        ),
        BoltVerdict::Shown => Ok(
            plain_model(
                texts(payload->Shown_columns@),
                row_trees(payload->Shown_rows@),
                StatementType::Read,
            ),
        ),
        BoltVerdict::PlanError => Err(lower_failure(payload->Plan_0)),
        BoltVerdict::Denied => Err(
            failure(ErrorClass::Forbidden, Denied::message(payload->Denial_0.reason@)),
        ),
        BoltVerdict::Explained => Ok(
            plain_model(
                seq!["plan"@],
                line_rows(texts(payload->Lines_0@)),
                StatementType::Read,
            ),
        ),
        BoltVerdict::WriteReadOnly => Err(failure(ErrorClass::Forbidden, WRITE_FORBIDDEN@)),
        BoltVerdict::WriteDegraded => Err(
            failure(ErrorClass::Storage, degraded_text(payload->Intake_0@)),
        ),
        BoltVerdict::Busy => Err(failure(ErrorClass::Storage, WRITER_BUSY@)),
        BoltVerdict::NoTransaction => Err(failure(ErrorClass::Other, NO_TRANSACTION@)),
        BoltVerdict::WriteFailed | BoltVerdict::ReadFailed | BoltVerdict::GroupFailed => Err(
            exec_failure(payload->Exec_0),
        ),
        BoltVerdict::CommitFailed => Err(
            failure(ErrorClass::Storage, payload->Storage_0.text@),
        ),
        BoltVerdict::GroupLost => Err(failure(ErrorClass::Other, GROUP_LOST@)),
        BoltVerdict::Written => Ok(write_model(payload->Outcome_0)),
        BoltVerdict::Read => Ok(
            plain_model(
                row_columns(payload->Rows_0@),
                row_trees(payload->Rows_0@),
                StatementType::Read,
            ),
        ),
    }
}

/// The answer that a verdict is given with.
pub fn bolt_answer(verdict: BoltVerdict, payload: Payload) -> (r: Result<RunOutcome, BackendError>)
    requires
        payload.fits_bolt(verdict),
    ensures
        answer(r) == verdict_answer(verdict, payload),
{
    match payload {
        Payload::ParseFailure { message, span } => {
            let mut out = message;
            out.append(" at ");
            out.append(span.as_str());
            Err(BackendError { class: ErrorClass::Syntax, message: out })
        },
        Payload::Denial(denied) => Err(denied_error(&denied)),
        Payload::Intake(reason) => Err(persistence_degraded_error(reason.as_str())),
        Payload::Plan(e) => Err(map_lower_err(&e)),
        Payload::Storage(e) => match verdict {
            BoltVerdict::CommitFailed => Err(map_storage_err(&e)),
            _ => Err(map_schema_err(&e)),
        },
        Payload::Exec(e) => Err(map_exec_err(&e)),
        Payload::Rows(rows) => Ok(read_run_outcome(rows)),
        Payload::Shown { columns, rows } => Ok(show_run_outcome(columns, rows)),
        Payload::Lines(lines) => Ok(explain_run_outcome(&lines)),
        Payload::Outcome(outcome) => Ok(write_run_outcome(outcome)),
        _ => match verdict {
            BoltVerdict::SchemaInTx { command } => Err(
                BackendError::new(ErrorClass::Unsupported, schema_in_tx_message(command)),
            ),
            BoltVerdict::WriteReadOnly => Err(write_forbidden_error()),
            BoltVerdict::Busy => Err(writer_busy_error()),
            BoltVerdict::NoTransaction => Err(BackendError::new(ErrorClass::Other, NO_TRANSACTION)),
            BoltVerdict::GroupLost => Err(BackendError::new(ErrorClass::Other, GROUP_LOST)),
            BoltVerdict::Schema { verdict } => match verdict {
                SchemaVerdict::ReadOnly => Err(write_forbidden_error()),
                SchemaVerdict::Applied => Ok(schema_run_outcome()),
                _ => Err(writer_busy_error()),
            },
            _ => Err(BackendError::new(ErrorClass::Other, DISCONNECTED)),
        },
    }
}

/// A statement succeeds exactly when it is answered with a result.
pub proof fn law_answers_tell_success(verdict: BoltVerdict, payload: Payload)
    requires
        payload.fits_bolt(verdict),
    ensures
        verdict_answer(verdict, payload) is Ok <==> verdict.ok_spec(),
{
}

/// What a driver reads off the class of a failure: forbidden that the caller may
/// not do this, syntax that the text does not parse, unsupported that a schema
/// command stands in a transaction or a feature is not there, storage that a second
/// try may help; and the words are those that came back.
pub proof fn law_classes_tell_causes(verdict: BoltVerdict, payload: Payload)
    requires
        payload.fits_bolt(verdict),
        !verdict.ok_spec(),
    ensures
        verdict_answer(verdict, payload) is Err,
        ({
            let e = verdict_answer(verdict, payload)->Err_0;
            let exec = payload is Exec;
            &&& e.class == ErrorClass::Forbidden <==> verdict is WriteReadOnly || verdict is Denied
                || verdict == (BoltVerdict::Schema { verdict: SchemaVerdict::ReadOnly }) || verdict
                == (BoltVerdict::Schema { verdict: SchemaVerdict::Denied })
            &&& e.class == ErrorClass::Syntax <==> verdict is ParseError
            &&& !exec ==> (e.class == ErrorClass::Storage <==> verdict is WriteDegraded || verdict
                is Busy || verdict is CommitFailed || (verdict matches BoltVerdict::Schema {
                verdict: v,
            } && (v is Degraded || v is Busy || v == (SchemaVerdict::Failed {
                user_error: false,
            }))))
            &&& e.class == ErrorClass::Other <==> verdict is Disconnected || verdict
                is NoTransaction || verdict is GroupLost
            &&& payload matches Payload::ParseFailure { message, span } ==> e.message == message@
                + " at "@ + span@
            &&& payload matches Payload::Denial(denied) ==> e.message == Denied::message(
                denied.reason@,
            )
            &&& payload matches Payload::Intake(reason) ==> e.message == "namespace degraded: "@
                + reason@
            &&& payload matches Payload::Storage(f) ==> e.message == f.text@
            &&& payload matches Payload::Plan(f) ==> e.message == f.message@
            &&& payload matches Payload::Exec(f) ==> e == exec_failure(f)
            &&& verdict is Disconnected ==> e.message == DISCONNECTED@
            &&& verdict is NoTransaction ==> e.message == NO_TRANSACTION@
            &&& verdict is GroupLost ==> e.message == GROUP_LOST@
            &&& verdict is Busy ==> e.message == WRITER_BUSY@
            &&& verdict is WriteReadOnly ==> e.message == WRITE_FORBIDDEN@
        }),
{
}

/// The results that a driver gets are those that came back: the rows of a read
/// under the names that the first one binds, the rows and counters of a write, the
/// rows of a look at the schema under its own columns, and the lines of a plan, one
/// to a row.
pub proof fn law_answers_tell_results(verdict: BoltVerdict, payload: Payload, i: int)
    requires
        payload.fits_bolt(verdict),
        verdict.ok_spec(),
    ensures
        verdict_answer(verdict, payload) is Ok,
        ({
            let o = verdict_answer(verdict, payload)->Ok_0;
            &&& payload matches Payload::Outcome(w) ==> o == write_model(w)
            &&& !(payload is Outcome) ==> o.counters.len() == 0
            &&& payload matches Payload::Rows(rows) ==> o.fields == row_columns(rows@) && o.rows
                == row_trees(rows@)
            &&& payload matches Payload::Shown { columns, rows } ==> o.fields == texts(columns@)
                && o.rows == row_trees(rows@)
            &&& payload matches Payload::Lines(lines) ==> {
                &&& o.rows.len() == lines@.len()
                &&& o.fields =~= seq!["plan"@]
                &&& 0 <= i < lines@.len() ==> o.rows[i] =~= seq![
                    ("plan"@, ValueTree::Text(lines@[i]@)),
                ]
            }
            &&& payload is Nothing ==> o.rows.len() == 0 && o.fields.len() == 0
            &&& o.statement_type == StatementType::Schema <==> payload is Nothing
            &&& payload is Rows || payload is Shown || payload is Lines ==> o.statement_type
                == StatementType::Read
        }),
{
}

/// Both paths refuse alike: what a driver is told of a refusal is what an HTTP
/// client is told of the same refusal, in the same words.
pub proof fn law_paths_refuse_alike(payload: Payload)
    ensures
        payload is Denial ==> Some(
            JsonTree::Text(verdict_answer(BoltVerdict::Denied, payload)->Err_0.message),
        ) == verdict_reply(HttpVerdict::Denied, payload).body.field("error"@),
        payload is Intake ==> Some(
            JsonTree::Text(verdict_answer(BoltVerdict::WriteDegraded, payload)->Err_0.message),
        ) == verdict_reply(HttpVerdict::WriteDegraded, payload).body.field("error"@),
        payload is Nothing ==> Some(
            JsonTree::Text(verdict_answer(BoltVerdict::Busy, payload)->Err_0.message),
        ) == verdict_reply(HttpVerdict::Busy, payload).body.field("error"@),
        payload is Nothing ==> Some(
            JsonTree::Text(verdict_answer(BoltVerdict::WriteReadOnly, payload)->Err_0.message),
        ) == verdict_reply(HttpVerdict::WriteReadOnly, payload).body.field("error"@),
{
}

// ---------------------------------------------------------------------------
// The listener
// ---------------------------------------------------------------------------

/// How long a connection may take for its handshake, in seconds.
pub const HANDSHAKE_SECS: u64 = 10;

/// What a listener runs with.
pub struct ListenerSettings {
    pub post_auth_message_bytes: usize,
    pub message_memory_budget_bytes: usize,
    pub partial_message_timeout: Option<Duration>,
    /// How long an open transaction may be idle, where that is bounded.
    pub tx_idle_timeout: Option<Duration>,
    pub max_connections: usize,
    pub agent: String,
}

/// The settings of the environment that a listener reads.
pub struct ListenerEnvironment<'a> {
    pub memory_budget: Option<&'a str>,
    pub partial_message_timeout: Option<&'a str>,
    pub max_connections: Option<&'a str>,
    pub agent: Option<&'a str>,
}

/// What a listener is told whose message budget cannot hold a message of one byte.
pub open spec fn small_budget_text(budget: nat, smallest: nat) -> Seq<char> {
    "Bolt message memory budget of "@ + decimal(budget)
        + " bytes cannot decode a single byte; the smallest is "@ + decimal(smallest) + " bytes"@
}

/// Refuses a message budget below the smallest that the protocol can decode with.
pub fn check_message_budget(budget: usize, smallest: usize) -> (r: Result<(), String>)
    ensures
        unit_result(r) == if budget < smallest {
            Err::<(), Seq<char>>(small_budget_text(budget as nat, smallest as nat))
        } else {
            Ok::<(), Seq<char>>(())
        },
{
    if budget < smallest {
        let mut out = "Bolt message memory budget of ".to_owned();
        push_decimal(&mut out, budget as u64);
        out.append(" bytes cannot decode a single byte; the smallest is ");
        push_decimal(&mut out, smallest as u64);
        out.append(" bytes");
        Err(out)
    } else {
        Ok(())
    }
}

/// What keeps a listener from starting, if something does: first the message
/// limit, then the memory budget, which must be a number and not too small, then
/// the message timeout.
pub open spec fn listener_error(
    post_auth_message_bytes: usize,
    budget: Result<nat, Seq<char>>,
    smallest_budget: nat,
    partial: Result<Option<nat>, Seq<char>>,
) -> Option<Seq<char>> {
    if post_auth_message_bytes == 0 {
        Some(NO_MESSAGES@)
    } else {
        match budget {
            Err(e) => Some(e),
            Ok(n) => if n < smallest_budget {
                Some(small_budget_text(n, smallest_budget))
            } else {
                match partial {
                    Err(e) => Some(e),
                    Ok(_) => None,
                }
            },
        }
    }
}

/// A listener starts exactly if it accepts messages at all, its memory budget is a
/// number that a message can be decoded with, and its message timeout is one.
pub proof fn law_listener_starts(
    post_auth_message_bytes: usize,
    budget: Result<nat, Seq<char>>,
    smallest_budget: nat,
    partial: Result<Option<nat>, Seq<char>>,
)
    ensures
        listener_error(post_auth_message_bytes, budget, smallest_budget, partial) is None <==> {
            &&& post_auth_message_bytes > 0
            &&& budget matches Ok(n) && n >= smallest_budget
            &&& partial is Ok
        },
{
}

/// A budget that is configured is the one that is set aside, whatever the process
/// ceiling is; without one it is half of the ceiling, rounded down but never
/// nothing, and the protocol's own where there is no ceiling.
pub proof fn law_message_budget(memory_max_bytes: usize, default_bytes: usize, n: nat)
    ensures
        0 < n <= usize::MAX ==> message_budget(
            memory_max_bytes,
            Some(decimal(n)),
            default_bytes,
        ) == Ok::<nat, Seq<char>>(n),
        message_budget(memory_max_bytes, Some(decimal(0)), default_bytes) is Err,
        memory_max_bytes == 0 ==> message_budget(memory_max_bytes, None, default_bytes) == Ok::<
            nat,
            Seq<char>,
        >(default_bytes as nat),
        memory_max_bytes > 0 ==> (message_budget(memory_max_bytes, None, default_bytes) matches Ok(
            b,
        ) && 0 < b && (2 * b == memory_max_bytes || 2 * b + 1 == memory_max_bytes || (b == 1
            && memory_max_bytes == 1))),
{
    if n <= usize::MAX {
        crate::text::law_decimal_round_trip(n, usize::MAX as nat);
    }
    crate::text::law_decimal_round_trip(0, usize::MAX as nat);
}

/// A message timeout of zero is none, any other is kept, and two minutes is the
/// default.
pub proof fn law_message_timeout(n: nat)
    ensures
        partial_timeout(Some(Ok(n))) == Ok::<Option<nat>, Seq<char>>(
            if n > 0 {
                Some(n)
            } else {
                None
            },
        ),
        partial_timeout(None) == partial_timeout(Some(Ok(120 * 1_000_000_000))),
{
}

/// What a listener runs with, or what keeps it from starting. The default of the
/// message budget and the smallest one to decode with are the protocol's.
pub fn listener_settings(
    post_auth_message_bytes: usize,
    memory_max_bytes: usize,
    default_budget_bytes: usize,
    smallest_budget_bytes: usize,
    tx_timeout: Duration,
    env: &ListenerEnvironment<'_>,
) -> (r: Result<ListenerSettings, String>)
    requires
        env.partial_message_timeout matches Some(raw) ==> is_readable(raw@),
    ensures
        ({
            let budget = message_budget(
                memory_max_bytes,
                option_raw(env.memory_budget),
                default_budget_bytes,
            );
            let partial = partial_timeout(
                match env.partial_message_timeout {
                    Some(raw) => Some(human_duration(raw@)),
                    None => None,
                },
            );
            match r {
                Err(e) => listener_error(
                    post_auth_message_bytes,
                    budget,
                    smallest_budget_bytes as nat,
                    partial,
                ) == Some(e@),
                Ok(s) => {
                    &&& listener_error(
                        post_auth_message_bytes,
                        budget,
                        smallest_budget_bytes as nat,
                        partial,
                    ) is None
                    &&& s.post_auth_message_bytes == post_auth_message_bytes
                    &&& budget == Ok::<nat, Seq<char>>(s.message_memory_budget_bytes as nat)
                    &&& partial == Ok::<Option<nat>, Seq<char>>(
                        option_nanos(s.partial_message_timeout),
                    )
                    &&& option_nanos(s.tx_idle_timeout) == if nanos(tx_timeout) == 0 {
                        None
                    } else {
                        Some(nanos(tx_timeout))
                    }
                    &&& s.max_connections == positive_setting(
                        option_raw(env.max_connections),
                        1024,
                    )
                    &&& s.agent@ == match env.agent {
                        Some(a) => a@,
                        None => DEFAULT_AGENT@,
                    }
                },
            }
        }),
{
    if post_auth_message_bytes == 0 {
        return Err(NO_MESSAGES.to_owned());
    }
    let budget: usize = match bolt_message_memory_budget_bytes(
        memory_max_bytes,
        env.memory_budget,
        default_budget_bytes,
    ) {
        Ok(n) => n,
        Err(e) => {
            return Err(e);
        },
    };
    match check_message_budget(budget, smallest_budget_bytes) {
        Ok(_) => {},
        Err(e) => {
            return Err(e);
        },
    }
    let partial = match bolt_partial_message_timeout(env.partial_message_timeout) {
        Ok(d) => d,
        Err(e) => {
            return Err(e);
        },
    };
    let agent = match env.agent {
        Some(a) => a.to_owned(),
        None => DEFAULT_AGENT.to_owned(),
    };
    Ok(
        ListenerSettings {
            post_auth_message_bytes,
            message_memory_budget_bytes: budget,
            partial_message_timeout: partial,
            tx_idle_timeout: limit(tx_timeout),
            max_connections: bolt_max_connections(env.max_connections),
            agent,
        },
    )
}

/// The cap on open connections. A connection beyond it is closed at once and not
/// queued.
#[derive(Debug)]
pub struct ConnectionGate {
    pub max: usize,
    pub open: usize,
}

impl ConnectionGate {
    /// Whether no more connections are open than may be.
    pub open spec fn wf(self) -> bool {
        self.open <= self.max
    }

    /// A gate with no connection open.
    pub fn new(max: usize) -> (r: ConnectionGate)
        ensures
            r == (ConnectionGate { max, open: 0 }),
            r.wf(),
    {
        ConnectionGate { max, open: 0 }
    }

    /// Lets a connection in, if there is room.
    pub fn try_enter(&mut self) -> (r: bool)
        requires
            old(self).wf(),
        ensures
            final(self).wf(),
            r == (old(self).open < old(self).max),
            *final(self) == (ConnectionGate {
                open: if r {
                    (old(self).open + 1) as usize
                } else {
                    old(self).open
                },
                ..*old(self)
            }),
    {
        if self.open < self.max {
            self.open = self.open + 1;
            true
        } else {
            false
        }
    }

    /// Takes note that a connection that was let in is over.
    pub fn leave(&mut self)
        requires
            old(self).wf(),
            old(self).open > 0,
        ensures
            final(self).wf(),
            *final(self) == (ConnectionGate { open: (old(self).open - 1) as usize, ..*old(self) }),
    {
        self.open = self.open - 1;
    }
}

} // verus!
