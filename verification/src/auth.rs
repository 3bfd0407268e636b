//! Bearer-token authentication with per-token roles.
//!
//! A server accepts a set of tokens, each granting read-only or read-write
//! access, and optionally JSON web tokens. Without either it is open: every
//! request is served as read-write. Both serving paths resolve identities here,
//! so a read-only token cannot write over either.

use vstd::prelude::*;

use crate::jwt::{jwt_claims, token_expiry, JwtModel, JwtValidator, LEEWAY_SECS};
use crate::text::{copy_strings, decimal, list_contains, listed, push_decimal, texts};

verus! {

/// What a token may do.
#[derive(Debug, Clone, Copy, PartialEq, Eq, Structural)]
pub enum Role {
    /// Reads only; any write query is rejected.
    ReadOnly,
    /// Reads and writes.
    ReadWrite,
}

impl Role {
    /// Whether this role may write.
    pub fn allows_write(self) -> (r: bool)
        ensures
            r == (self is ReadWrite),
    {
        match self {
            Role::ReadWrite => true,
            Role::ReadOnly => false,
        }
    }
}

/// The authenticated identity behind a request.
#[derive(Debug, Clone, PartialEq)]
pub struct Principal {
    /// A static token's name, or the subject of a web token.
    pub subject: String,
    pub role: Role,
    /// Group memberships; none for static tokens.
    pub groups: Vec<String>,
}

/// Who a principal is.
#[verifier::ext_equal]
pub struct PrincipalModel {
    pub subject: Seq<char>,
    pub role: Role,
    pub groups: Seq<Seq<char>>,
}

impl View for Principal {
    type V = PrincipalModel;

    open spec fn view(&self) -> PrincipalModel {
        PrincipalModel { subject: self.subject@, role: self.role, groups: texts(self.groups@) }
    }
}

/// The view of an optional principal.
pub open spec fn option_principal(p: Option<Principal>) -> Option<PrincipalModel> {
    match p {
        Some(p) => Some(p@),
        None => None,
    }
}

/// The role of an optional principal.
pub open spec fn role_of(p: Option<PrincipalModel>) -> Option<Role> {
    match p {
        Some(p) => Some(p.role),
        None => None,
    }
}

/// The caller of a server without auth.
pub open spec fn anonymous() -> PrincipalModel {
    PrincipalModel { subject: "anonymous"@, role: Role::ReadWrite, groups: Seq::empty() }
}

impl Principal {
    /// Whether the principal may write.
    pub fn allows_write(&self) -> (r: bool)
        ensures
            r == (self@.role is ReadWrite),
    {
        self.role.allows_write()
    }

    /// The principal of a server without auth: anonymous and read-write.
    pub fn anonymous_rw() -> (r: Principal)
        ensures
            r@ == anonymous(),
    {
        let r = Principal {
            subject: "anonymous".to_owned(),
            role: Role::ReadWrite,
            groups: Vec::new(),
        };
        assert(r@ =~= anonymous());
        r
    }

    /// Whether the principal belongs to `group`.
    pub fn in_group(&self, group: &str) -> (r: bool)
        ensures
            r == self@.groups.contains(group@),
    {
        let r = list_contains(&self.groups, group);
        proof {
            if r {
                let i = choose|i: int|
                    0 <= i < self.groups@.len() && (#[trigger] self.groups@[i])@ == group@;
                assert(self@.groups[i] == group@);
            } else if self@.groups.contains(group@) {
                let i = choose|i: int| 0 <= i < self@.groups.len() && self@.groups[i] == group@;
                assert(self.groups@[i]@ == group@);
            }
        }
        r
    }

    /// A copy of the principal.
    pub fn copy(&self) -> (r: Principal)
        ensures
            r@ == self@,
    {
        Principal {
            subject: self.subject.clone(),
            role: self.role,
            groups: copy_strings(&self.groups),
        }
    }
}

/// One accepted token and the role it grants.
pub struct AuthToken {
    /// A human label.
    pub name: String,
    pub secret: String,
    pub role: Role,
    /// The namespaces that the token may reach: any, when there is no list, and
    /// none, when the list is empty.
    pub namespaces: Option<Vec<String>>,
}

impl AuthToken {
    /// Whether the token may reach `namespace`. The empty name stands for the
    /// one namespace of a server that has no other.
    pub open spec fn reaches(self, namespace: Seq<char>) -> bool {
        namespace.len() == 0 || match self.namespaces {
            None => true,
            Some(list) => listed(list@, namespace),
        }
    }

    /// Whether the token is the one presented, for that namespace.
    pub open spec fn grants(self, presented: Seq<char>, namespace: Seq<char>) -> bool {
        self.secret@ == presented && self.reaches(namespace)
    }

    /// Who the holder of the token is.
    pub open spec fn principal(self) -> PrincipalModel {
        PrincipalModel { subject: self.name@, role: self.role, groups: Seq::empty() }
    }
}

/// The principal of the last token that grants.
pub open spec fn granted(
    tokens: Seq<AuthToken>,
    presented: Seq<char>,
    namespace: Seq<char>,
) -> Option<PrincipalModel>
    decreases tokens.len(),
{
    if tokens.len() == 0 {
        None
    } else if tokens.last().grants(presented, namespace) {
        Some(tokens.last().principal())
    } else {
        granted(tokens.drop_last(), presented, namespace)
    }
}

/// Byte equality that walks every byte, wherever the first difference is. A
/// difference in length is told at once: the length is no secret.
pub fn constant_time_eq(a: &[u8], b: &[u8]) -> (r: bool)
    ensures
        r == (a@ == b@),
{
    if a.len() != b.len() {
        return false;
    }
    let mut acc: u8 = 0;
    let mut i: usize = 0;
    while i < a.len()
        invariant
            i <= a@.len(),
            a@.len() == b@.len(),
            (acc == 0) == (forall|j: int| 0 <= j < i ==> a@[j] == b@[j]),
        decreases a.len() - i,
    {
        let x: u8 = a[i];
        let y: u8 = b[i];
        let before: u8 = acc;
        acc = acc | (x ^ y);
        assert((before | (x ^ y)) == 0 <==> before == 0 && x == y) by (bit_vector);
        i = i + 1;
    }
    assert(acc == 0 ==> a@ =~= b@);
    acc == 0
}

/// Texts with the same bytes are the same text.
proof fn lemma_bytes_decide(a: Seq<char>, b: Seq<char>)
    ensures
        (vstd::utf8::encode_utf8(a) == vstd::utf8::encode_utf8(b)) == (a == b),
{
    vstd::utf8::encode_utf8_decode_utf8(a);
    vstd::utf8::encode_utf8_decode_utf8(b);
}

/// One entry of a tokens file.
pub struct TokenFileEntry {
    pub token: String,
    pub name: Option<String>,
    pub role: Option<Role>,
    pub namespaces: Option<Vec<String>>,
}

/// What came of reading a tokens file.
pub enum TokenFileRead {
    /// The file could not be read, and why.
    Unreadable(String),
    /// The file is not what it should be, and why.
    Malformed(String),
    Parsed(Vec<TokenFileEntry>),
}

/// Why an entry or a file is refused, if it is.
pub open spec fn token_file_error(path: Seq<char>, read: TokenFileRead) -> Option<Seq<char>> {
    match read {
        TokenFileRead::Unreadable(e) => Some("reading auth tokens file "@ + path + ": "@ + e@),
        TokenFileRead::Malformed(e) => Some("parsing auth tokens file "@ + path + ": "@ + e@),
        TokenFileRead::Parsed(entries) => if entries@.len() == 0 {
            Some(
                "auth tokens file "@ + path
                    + " has no tokens; add at least one, or omit --auth-tokens-file and pass --no-auth to run without auth"@,
            )
        } else {
            match empty_secret(entries@, 0) {
                Some(i) => Some(
                    "auth tokens file "@ + path + ": token #"@ + decimal(i)
                        + " has an empty secret"@,
                ),
                None => None,
            }
        },
    }
}

/// The first entry from `i` on whose secret is empty.
pub open spec fn empty_secret(entries: Seq<TokenFileEntry>, i: nat) -> Option<nat>
    decreases entries.len() - i,
{
    if i >= entries.len() {
        None
    } else if entries[i as int].token@.len() == 0 {
        Some(i)
    } else {
        empty_secret(entries, i + 1)
    }
}

/// The token that entry `i` stands for: read-write, named after its place and
/// unscoped, unless it says otherwise.
pub open spec fn is_token_of(token: AuthToken, entry: TokenFileEntry, i: nat) -> bool {
    &&& token.secret@ == entry.token@
    &&& token.name@ == match entry.name {
        Some(name) => name@,
        None => "token-"@ + decimal(i),
    }
    &&& token.role == match entry.role {
        Some(role) => role,
        None => Role::ReadWrite,
    }
    &&& match (token.namespaces, entry.namespaces) {
        (Some(a), Some(b)) => a@ == b@,
        (None, None) => true,
        _ => false,
    }
}

/// Whether `tokens` are those of a file's entries, one for one.
pub open spec fn are_tokens_of(tokens: Seq<AuthToken>, read: TokenFileRead) -> bool {
    match read {
        TokenFileRead::Parsed(entries) => {
            &&& tokens.len() == entries@.len()
            &&& forall|i: int|
                0 <= i < tokens.len() ==> is_token_of(
                    #[trigger] tokens[i],
                    entries@[i],
                    i as nat,
                )
        },
        _ => false,
    }
}

/// The process's accepted tokens, and the web-token validator if there is one.
pub struct AuthConfig {
    tokens: Vec<AuthToken>,
    jwt: Option<JwtValidator>,
}

/// What a server accepts.
pub struct AuthModel {
    pub tokens: Seq<AuthToken>,
    pub jwt: Option<JwtModel>,
}

impl View for AuthConfig {
    type V = AuthModel;

    closed spec fn view(&self) -> AuthModel {
        AuthModel {
            tokens: self.tokens@,
            jwt: match self.jwt {
                Some(v) => Some(v@),
                None => None,
            },
        }
    }
}

impl AuthModel {
    /// Whether `r` may be the principal for what is presented in a namespace: a
    /// web token is tried first, if they are accepted and this is one by its
    /// shape, and then the static tokens.
    pub open spec fn may_resolve(
        self,
        presented: Seq<char>,
        namespace: Seq<char>,
        r: Option<PrincipalModel>,
    ) -> bool {
        &&& match self.jwt {
            Some(jwt) if jwt.considers(presented) => {
                ||| r == granted(self.tokens, presented, namespace)
                ||| r matches Some(p) && jwt.may_be(presented, scope(namespace), p)
            },
            _ => r == granted(self.tokens, presented, namespace),
        }
        &&& exists|web: Option<PrincipalModel>| #[trigger]
            self.may_answer(presented, namespace, web) && r == self.resolved(
                web,
                presented,
                namespace,
            )
    }

    /// Whether the web-token validator may answer `web` to what is presented:
    /// nobody, or someone that the token may stand for, and at some second just
    /// that one. Without a validator the answer is nobody.
    pub open spec fn may_answer(
        self,
        presented: Seq<char>,
        namespace: Seq<char>,
        web: Option<PrincipalModel>,
    ) -> bool {
        &&& web matches Some(p) ==> (self.jwt matches Some(jwt) && jwt.may_be(
            presented,
            scope(namespace),
            p,
        ))
        &&& self.jwt matches Some(jwt) ==> jwt.is_holder(presented, scope(namespace), web)
    }

    /// The principal for what is presented, given what the validator answered:
    /// its principal, or else that of the static token.
    pub open spec fn resolved(
        self,
        web: Option<PrincipalModel>,
        presented: Seq<char>,
        namespace: Seq<char>,
    ) -> Option<PrincipalModel> {
        match web {
            Some(p) => Some(p),
            None => granted(self.tokens, presented, namespace),
        }
    }

    /// Nothing is asked of a caller.
    pub open spec fn is_open(self) -> bool {
        self.tokens.len() == 0 && self.jwt is None
    }
}

/// Checks a tokens file and turns its entries into tokens. Boot and reload share
/// it, so that a reload never takes what boot would refuse: in particular an
/// empty set, which would open the server, or an empty secret.
pub fn parse_tokens(path: &str, read: TokenFileRead) -> (r: Result<Vec<AuthToken>, String>)
    ensures
        match r {
            Ok(tokens) => token_file_error(path@, read) is None && are_tokens_of(tokens@, read),
            Err(e) => token_file_error(path@, read) == Some(e@),
        },
{
    let entries = match read {
        TokenFileRead::Unreadable(e) => {
            let mut out = "reading auth tokens file ".to_owned();
            out.append(path);
            out.append(": ");
            out.append(e.as_str());
            return Err(out);
        },
        TokenFileRead::Malformed(e) => {
            let mut out = "parsing auth tokens file ".to_owned();
            out.append(path);
            out.append(": ");
            out.append(e.as_str());
            return Err(out);
        },
        TokenFileRead::Parsed(entries) => entries,
    };
    if entries.len() == 0 {
        let mut out = "auth tokens file ".to_owned();
        out.append(path);
        out.append(
            " has no tokens; add at least one, or omit --auth-tokens-file and pass --no-auth to run without auth",
        );
        return Err(out);
    }
    let mut tokens: Vec<AuthToken> = Vec::new();
    let mut i: usize = 0;
    while i < entries.len()
        invariant
            i <= entries@.len(),
            entries@.len() > 0,
            read == TokenFileRead::Parsed(entries),
            tokens@.len() == i,
            empty_secret(entries@, 0) == empty_secret(entries@, i as nat),
            forall|j: int|
                0 <= j < i ==> is_token_of(#[trigger] tokens@[j], entries@[j], j as nat),
        decreases entries.len() - i,
    {
        let entry = &entries[i];
        if entry.token.as_str().is_empty() {
            let mut out = "auth tokens file ".to_owned();
            out.append(path);
            out.append(": token #");
            push_decimal(&mut out, i as u64);
            out.append(" has an empty secret");
            return Err(out);
        }
        let name = match &entry.name {
            Some(name) => name.clone(),
            None => {
                let mut name = "token-".to_owned();
                push_decimal(&mut name, i as u64);
                name
            },
        };
        let role = match entry.role {
            Some(role) => role,
            None => Role::ReadWrite,
        };
        let namespaces = match &entry.namespaces {
            Some(list) => Some(copy_strings(list)),
            None => None,
        };
        tokens.push(AuthToken { name, secret: entry.token.clone(), role, namespaces });
        i = i + 1;
    }
    Ok(tokens)
}

impl AuthConfig {
    /// No tokens: every request is served as read-write.
    pub fn open() -> (r: AuthConfig)
        ensures
            r@.tokens == Seq::<AuthToken>::empty(),
            r@.jwt is None,
            r@.is_open(),
    {
        AuthConfig { tokens: Vec::new(), jwt: None }
    }

    /// A single read-write token.
    pub fn single_read_write(secret: &str) -> (r: AuthConfig)
        ensures
            r@.jwt is None,
            r@.tokens.len() == 1,
            r@.tokens[0].name@ == "auth-token"@,
            r@.tokens[0].secret@ == secret@,
            r@.tokens[0].role == Role::ReadWrite,
            r@.tokens[0].namespaces is None,
    {
        let mut tokens: Vec<AuthToken> = Vec::new();
        tokens.push(
            AuthToken {
                name: "auth-token".to_owned(),
                secret: secret.to_owned(),
                role: Role::ReadWrite,
                namespaces: None,
            },
        );
        AuthConfig { tokens, jwt: None }
    }

    /// The given tokens.
    pub fn from_tokens(tokens: Vec<AuthToken>) -> (r: AuthConfig)
        ensures
            r@.tokens == tokens@,
            r@.jwt is None,
    {
        AuthConfig { tokens, jwt: None }
    }

    /// The tokens of a file.
    pub fn load_file(path: &str, read: TokenFileRead) -> (r: Result<AuthConfig, String>)
        ensures
            match r {
                Ok(config) => {
                    &&& token_file_error(path@, read) is None
                    &&& are_tokens_of(config@.tokens, read)
                    &&& config@.jwt is None
                },
                Err(e) => token_file_error(path@, read) == Some(e@),
            },
    {
        match parse_tokens(path, read) {
            Ok(tokens) => Ok(AuthConfig { tokens, jwt: None }),
            Err(e) => Err(e),
        }
    }

    /// Swaps the token set for that of a file. On any error the current set goes
    /// on serving: a reload can never widen access. Only the tokens change.
    pub fn reload_from(&mut self, path: &str, read: TokenFileRead) -> (r: Result<usize, String>)
        ensures
            final(self)@.jwt == old(self)@.jwt,
            match r {
                Ok(count) => {
                    &&& token_file_error(path@, read) is None
                    &&& are_tokens_of(final(self)@.tokens, read)
                    &&& count == final(self)@.tokens.len()
                },
                Err(e) => {
                    &&& token_file_error(path@, read) == Some(e@)
                    &&& final(self)@ == old(self)@
                },
            },
    {
        match parse_tokens(path, read) {
            Ok(tokens) => {
                let count: usize = tokens.len();
                self.tokens = tokens;
                Ok(count)
            },
            Err(e) => Err(e),
        }
    }

    /// Attaches a web-token validator.
    pub fn with_jwt(self, jwt: JwtValidator) -> (r: AuthConfig)
        ensures
            r@.tokens == self@.tokens,
            r@.jwt == Some(jwt@),
    {
        AuthConfig { tokens: self.tokens, jwt: Some(jwt) }
    }

    /// Replaces the keys of the validator, if there is one, by those of a key
    /// set document. A document without usable keys changes nothing.
    pub fn refresh_jwt(&mut self, body: &str) -> (r: Option<Result<(), String>>)
        ensures
            final(self)@.tokens == old(self)@.tokens,
            r is Some <==> old(self)@.jwt is Some,
            match (r, old(self)@.jwt, final(self)@.jwt) {
                (Some(Ok(_)), Some(before), Some(after)) => after.refreshed_from(before, body@),
                (Some(Err(e)), Some(before), Some(after)) => after == before
                    && before.refresh_error(body@) == Some(e@),
                (None, None, None) => true,
                _ => false,
            },
    {
        match self.jwt.take() {
            Some(mut jwt) => {
                let r = jwt.refresh(body);
                self.jwt = Some(jwt);
                Some(r)
            },
            None => None,
        }
    }

    /// Whether nothing is asked of a caller.
    pub fn is_open(&self) -> (r: bool)
        ensures
            r == self@.is_open(),
    {
        self.tokens.len() == 0 && !self.jwt_active()
    }

    /// Whether web tokens are accepted.
    pub fn jwt_active(&self) -> (r: bool)
        ensures
            r == (self@.jwt is Some),
    {
        self.jwt.is_some()
    }

    /// The number of configured tokens.
    pub fn len(&self) -> (r: usize)
        ensures
            r == self@.tokens.len(),
    {
        self.tokens.len()
    }

    /// The principal of the static token presented, for that namespace. Every
    /// secret is compared in constant time and none ends the walk.
    pub fn token_principal(&self, presented: &str, namespace: &str) -> (r: Option<Principal>)
        ensures
            option_principal(r) == granted(self@.tokens, presented@, namespace@),
    {
        let single_tenant = namespace.is_empty();
        let mut found: Option<usize> = None;
        let mut i: usize = 0;
        assert(self.tokens@.take(0) =~= Seq::<AuthToken>::empty());
        while i < self.tokens.len()
            invariant
                i <= self.tokens@.len(),
                single_tenant == (namespace@.len() == 0),
                match found {
                    Some(k) => k < i && granted(
                        self.tokens@.take(i as int),
                        presented@,
                        namespace@,
                    ) == Some(self.tokens@[k as int].principal()),
                    None => granted(self.tokens@.take(i as int), presented@, namespace@) is None,
                },
            decreases self.tokens.len() - i,
        {
            let t = &self.tokens[i];
            proof {
                assert(self.tokens@.take(i + 1).drop_last() =~= self.tokens@.take(i as int));
                lemma_bytes_decide(presented@, t.secret@);
            }
            let reaches = single_tenant || match &t.namespaces {
                Some(list) => list_contains(list, namespace),
                None => true,
            };
            if constant_time_eq(presented.as_bytes(), t.secret.as_str().as_bytes()) && reaches {
                found = Some(i);
            }
            i = i + 1;
        }
        assert(self.tokens@.take(i as int) =~= self.tokens@);
        match found {
            Some(k) => {
                let t = &self.tokens[k];
                let p = Principal { subject: t.name.clone(), role: t.role, groups: Vec::new() };
                assert(p@ =~= t.principal());
                Some(p)
            },
            None => None,
        }
    }

    /// The principal for what was presented, given what the web-token validator
    /// made of it: its principal, or else that of the static token.
    pub fn resolve(
        &self,
        web: Option<Principal>,
        presented: &str,
        namespace: &str,
    ) -> (r: Option<Principal>)
        ensures
            option_principal(r) == self@.resolved(option_principal(web), presented@, namespace@),
    {
        match web {
            Some(p) => Some(p),
            None => self.token_principal(presented, namespace),
        }
    }

    /// The role for what was presented, given what the web-token validator made
    /// of it: that of the principal.
    pub fn resolve_role(
        &self,
        web: Option<Principal>,
        presented: &str,
        namespace: &str,
    ) -> (r: Option<Role>)
        ensures
            r == role_of(self@.resolved(option_principal(web), presented@, namespace@)),
    {
        match self.resolve(web, presented, namespace) {
            Some(p) => Some(p.role),
            None => None,
        }
    }

    /// What the web-token validator makes of what was presented.
    fn web_principal(&self, presented: &str, namespace: &str) -> (web: Option<Principal>)
        ensures
            self@.may_answer(presented@, namespace@, option_principal(web)),
    {
        match &self.jwt {
            Some(jwt) => {
                if namespace.is_empty() {
                    jwt.validate_principal(presented)
                } else {
                    jwt.validate_principal_in(presented, namespace)
                }
            },
            None => None,
        }
    }

    /// The principal for what was presented, with a namespace scope: a web token
    /// first, if they are accepted, then the static tokens. The empty namespace
    /// stands for the one of a server that has no other, where scopes carry no
    /// meaning.
    pub fn principal_for_in(&self, presented: &str, namespace: &str) -> (r: Option<Principal>)
        ensures
            self@.may_resolve(presented@, namespace@, option_principal(r)),
            exists|web: Option<PrincipalModel>| #[trigger]
                self@.may_answer(presented@, namespace@, web) && option_principal(r)
                    == self@.resolved(web, presented@, namespace@),
    {
        let web = self.web_principal(presented, namespace);
        self.resolve(web, presented, namespace)
    }

    /// The principal for what was presented, whatever the namespace.
    pub fn principal_for(&self, presented: &str) -> (r: Option<Principal>)
        ensures
            self@.may_resolve(presented@, Seq::empty(), option_principal(r)),
            exists|web: Option<PrincipalModel>| #[trigger]
                self@.may_answer(presented@, Seq::empty(), web) && option_principal(r)
                    == self@.resolved(web, presented@, Seq::empty()),
    {
        proof {
            reveal_strlit("");
            assert(""@ =~= Seq::<char>::empty());
        }
        self.principal_for_in(presented, "")
    }

    /// The role for what was presented, with a namespace scope.
    pub fn role_for_in(&self, presented: &str, namespace: &str) -> (r: Option<Role>)
        ensures
            self@.jwt is None ==> r == role_of(granted(self@.tokens, presented@, namespace@)),
            self@.jwt matches Some(jwt) ==> {
                ||| r == role_of(granted(self@.tokens, presented@, namespace@))
                ||| exists|p: PrincipalModel| #[trigger]
                    jwt.may_be(presented@, scope(namespace@), p) && r == Some(p.role)
            },
            self@.jwt matches Some(jwt) ==> !jwt.considers(presented@) ==> r == role_of(
                granted(self@.tokens, presented@, namespace@),
            ),
            exists|web: Option<PrincipalModel>| #[trigger]
                self@.may_answer(presented@, namespace@, web) && r == role_of(
                    self@.resolved(web, presented@, namespace@),
                ),
    {
        let web = self.web_principal(presented, namespace);
        self.resolve_role(web, presented, namespace)
    }

    /// The role for what was presented, whatever the namespace.
    pub fn role_for(&self, presented: &str) -> (r: Option<Role>)
        ensures
            self@.jwt is None ==> r == role_of(granted(self@.tokens, presented@, Seq::empty())),
            self@.jwt matches Some(jwt) ==> {
                ||| r == role_of(granted(self@.tokens, presented@, Seq::empty()))
                ||| exists|p: PrincipalModel| #[trigger]
                    jwt.may_be(presented@, None, p) && r == Some(p.role)
            },
            self@.jwt matches Some(jwt) ==> !jwt.considers(presented@) ==> r == role_of(
                granted(self@.tokens, presented@, Seq::empty()),
            ),
            exists|web: Option<PrincipalModel>| #[trigger]
                self@.may_answer(presented@, Seq::empty(), web) && r == role_of(
                    self@.resolved(web, presented@, Seq::empty()),
                ),
    {
        proof {
            reveal_strlit("");
            assert(""@ =~= Seq::<char>::empty());
        }
        self.role_for_in(presented, "")
    }
}

/// The scope that a namespace name stands for: none, when it is empty.
pub open spec fn scope(namespace: Seq<char>) -> Option<Seq<char>> {
    if namespace.len() == 0 {
        None
    } else {
        Some(namespace)
    }
}

/// The content of a tokens file that was applied last, for a poller that
/// compares content and not times.
pub struct FileReload {
    last_applied: Option<Vec<u8>>,
}

impl View for FileReload {
    type V = Option<Seq<u8>>;

    closed spec fn view(&self) -> Option<Seq<u8>> {
        match self.last_applied {
            Some(v) => Some(v@),
            None => None,
        }
    }
}

impl FileReload {
    /// A poller that has applied nothing.
    pub fn new() -> (r: FileReload)
        ensures
            r@ is None,
    {
        FileReload { last_applied: None }
    }

    /// Whether content that was read is to be applied.
    pub fn due(&self, bytes: &Vec<u8>) -> (r: bool)
        ensures
            r == (self@ != Some(bytes@)),
    {
        match &self.last_applied {
            Some(last) => !constant_time_eq(last.as_slice(), bytes.as_slice()),
            None => true,
        }
    }

    /// Notes what came of applying content. Refused content is not noted, so
    /// that it is tried again.
    pub fn note(&mut self, bytes: Vec<u8>, applied: bool)
        ensures
            final(self)@ == if applied {
                Some(bytes@)
            } else {
                old(self)@
            },
    {
        if applied {
            self.last_applied = Some(bytes);
        }
    }
}

/// A token grants only to who presents its secret, only in the namespaces it
/// reaches, and no more than its role.
pub proof fn law_grants_are_scoped(
    tokens: Seq<AuthToken>,
    presented: Seq<char>,
    namespace: Seq<char>,
)
    ensures
        granted(tokens, presented, namespace) matches Some(p) ==> exists|i: int|
            0 <= i < tokens.len() && (#[trigger] tokens[i]).secret@ == presented
                && tokens[i].reaches(namespace) && p == tokens[i].principal(),
        (forall|i: int|
            0 <= i < tokens.len() ==> !(#[trigger] tokens[i]).grants(presented, namespace))
            ==> granted(tokens, presented, namespace) is None,
    decreases tokens.len(),
{
    if tokens.len() > 0 && !tokens.last().grants(presented, namespace) {
        law_grants_are_scoped(tokens.drop_last(), presented, namespace);
        match granted(tokens, presented, namespace) {
            Some(p) => {
                let i = choose|i: int|
                    0 <= i < tokens.drop_last().len() && (#[trigger] tokens.drop_last()[i]).secret@
                        == presented && tokens.drop_last()[i].reaches(namespace) && p
                        == tokens.drop_last()[i].principal();
                assert(tokens[i].secret@ == presented);
            },
            None => {},
        }
        assert forall|i: int| 0 <= i < tokens.drop_last().len() && (forall|k: int|
            0 <= k < tokens.len() ==> !(#[trigger] tokens[k]).grants(
                presented,
                namespace,
            )) implies !(#[trigger] tokens.drop_last()[i]).grants(presented, namespace) by {
            assert(tokens[i] == tokens.drop_last()[i]);
        }
    } else if tokens.len() > 0 {
        assert(tokens[tokens.len() - 1] == tokens.last());
    }
}

/// Over one answer of the web-token validator, the role that is given is the role
/// of the principal that is given: any two answers that name someone name the same,
/// what no validator named goes to the last static token with that secret and
/// scope, under its name and with no groups, and the empty namespace asks the
/// validator for no scope.
pub proof fn law_role_and_principal_agree(
    auth: AuthModel,
    presented: Seq<char>,
    namespace: Seq<char>,
    web: Option<PrincipalModel>,
    role: Option<Role>,
    principal: Option<PrincipalModel>,
)
    requires
        auth.may_answer(presented, namespace, web),
        role == role_of(auth.resolved(web, presented, namespace)),
        principal == auth.resolved(web, presented, namespace),
    ensures
        role == role_of(principal),
        auth.may_resolve(presented, namespace, principal),
        forall|other: Option<PrincipalModel>|
            #![trigger auth.may_answer(presented, namespace, other)]
            auth.may_answer(presented, namespace, other) && web is Some && other is Some
                ==> auth.resolved(other, presented, namespace) == principal,
        web is None ==> (principal matches Some(p) ==> p.groups.len() == 0 && exists|i: int|
            {
                &&& 0 <= i < auth.tokens.len()
                &&& (#[trigger] auth.tokens[i]).grants(presented, namespace)
                &&& p.subject == auth.tokens[i].name@
                &&& p.role == auth.tokens[i].role
                &&& forall|j: int|
                    i < j < auth.tokens.len() ==> !(#[trigger] auth.tokens[j]).grants(
                        presented,
                        namespace,
                    )
            }),
        auth.may_answer(presented, Seq::empty(), web) <==> (web matches Some(p) ==> (
        auth.jwt matches Some(jwt) && jwt.may_be(presented, None, p))) && (
        auth.jwt matches Some(jwt) ==> jwt.is_holder(presented, None, web)),
{
    if web is None && principal is Some {
        let i = lemma_last_token_grants(auth.tokens, presented, namespace);
        assert(auth.tokens[i].grants(presented, namespace));
    }
}

/// What a static token grants is granted: who presents the secret of one that
/// reaches the namespace is somebody, unless a web token says who.
pub proof fn law_granted_tokens_are_honoured(
    auth: AuthModel,
    presented: Seq<char>,
    namespace: Seq<char>,
    i: int,
    r: Option<PrincipalModel>,
)
    requires
        0 <= i < auth.tokens.len(),
        auth.tokens[i].secret@ == presented,
        namespace.len() == 0 || auth.tokens[i].namespaces is None || listed(
            auth.tokens[i].namespaces->Some_0@,
            namespace,
        ),
        auth.may_resolve(presented, namespace, r),
    ensures
        r is Some,
        auth.jwt is None ==> exists|j: int|
            {
                &&& i <= j < auth.tokens.len()
                &&& (#[trigger] auth.tokens[j]).secret@ == presented
                &&& r->Some_0.subject == auth.tokens[j].name@
                &&& r->Some_0.role == auth.tokens[j].role
            },
{
    assert(auth.tokens[i].grants(presented, namespace));
    law_last_grant_counts(auth.tokens, presented, namespace, i);
    if granted(auth.tokens, presented, namespace) is Some {
        let at = lemma_last_token_grants(auth.tokens, presented, namespace);
        if at < i {
            assert(!auth.tokens[i].grants(presented, namespace));
        }
        assert(auth.tokens[at].secret@ == presented);
    }
}

/// Where some token grants, something is granted.
pub proof fn law_last_grant_counts(
    tokens: Seq<AuthToken>,
    presented: Seq<char>,
    namespace: Seq<char>,
    i: int,
)
    requires
        0 <= i < tokens.len(),
        tokens[i].grants(presented, namespace),
    ensures
        granted(tokens, presented, namespace) is Some,
    decreases tokens.len(),
{
    if i < tokens.len() - 1 {
        assert(tokens.drop_last()[i] == tokens[i]);
        law_last_grant_counts(tokens.drop_last(), presented, namespace, i);
    }
}

/// A lasting web token is honoured: one that a key of the validator has signed,
/// that meets the rules, that no clock finds out of date and whose claims name
/// somebody in that namespace is resolved to that one, whatever static tokens
/// there are.
pub proof fn law_lasting_web_tokens_are_honoured(
    auth: AuthModel,
    jwt: JwtModel,
    presented: Seq<char>,
    namespace: Seq<char>,
    p: PrincipalModel,
    r: Option<PrincipalModel>,
)
    requires
        auth.jwt == Some(jwt),
        jwt.signed(presented),
        token_expiry(jwt_claims(presented)) matches Some(exp) && exp + LEEWAY_SECS >= u64::MAX,
        jwt.config.principal(jwt_claims(presented), scope(namespace)) == Some(p),
        auth.may_resolve(presented, namespace, r),
    ensures
        r == Some(p),
{
    let web = choose|web: Option<PrincipalModel>| #[trigger]
        auth.may_answer(presented, namespace, web) && r == auth.resolved(
            web,
            presented,
            namespace,
        );
    crate::jwt::law_lasting_tokens_are_honoured(jwt, presented, scope(namespace), web);
}

/// What is granted is granted by the last token that grants it.
proof fn lemma_last_token_grants(
    tokens: Seq<AuthToken>,
    presented: Seq<char>,
    namespace: Seq<char>,
) -> (at: int)
    requires
        granted(tokens, presented, namespace) is Some,
    ensures
        0 <= at < tokens.len(),
        tokens[at].grants(presented, namespace),
        granted(tokens, presented, namespace) == Some(tokens[at].principal()),
        forall|j: int|
            at < j < tokens.len() ==> !(#[trigger] tokens[j]).grants(presented, namespace),
    decreases tokens.len(),
{
    if tokens.last().grants(presented, namespace) {
        tokens.len() - 1
    } else {
        let at = lemma_last_token_grants(tokens.drop_last(), presented, namespace);
        assert forall|j: int| at < j < tokens.len() implies !(#[trigger] tokens[j]).grants(
            presented,
            namespace,
        ) by {
            if j < tokens.len() - 1 {
                assert(tokens.drop_last()[j] == tokens[j]);
            }
        }
        at
    }
}

/// No token file that is accepted has an empty secret, so nothing is granted to
/// who presents none.
pub proof fn law_no_empty_secret(
    path: Seq<char>,
    read: TokenFileRead,
    tokens: Seq<AuthToken>,
    namespace: Seq<char>,
)
    requires
        token_file_error(path, read) is None,
        are_tokens_of(tokens, read),
    ensures
        tokens.len() > 0,
        granted(tokens, Seq::empty(), namespace) is None,
{
    let entries = read->Parsed_0@;
    assert forall|i: int| 0 <= i < tokens.len() implies !(#[trigger] tokens[i]).grants(
        Seq::empty(),
        namespace,
    ) by {
        lemma_no_empty_secret(entries, 0, i);
        assert(is_token_of(tokens[i], entries[i], i as nat));
    }
    law_grants_are_scoped(tokens, Seq::empty(), namespace);
}

/// A tokens file is accepted exactly if it could be read, is well-formed, holds a
/// token, and no token of it has an empty secret; the first one that has is the
/// one named.
pub proof fn law_good_files_are_accepted(path: Seq<char>, read: TokenFileRead)
    ensures
        token_file_error(path, read) is None <==> (read matches TokenFileRead::Parsed(entries)
            && entries@.len() > 0 && forall|i: int|
            0 <= i < entries@.len() ==> (#[trigger] entries@[i]).token@.len() > 0),
        read matches TokenFileRead::Parsed(entries) ==> forall|i: int|
            {
                &&& 0 <= i < entries@.len()
                &&& (#[trigger] entries@[i]).token@.len() == 0
                &&& forall|j: int| 0 <= j < i ==> (#[trigger] entries@[j]).token@.len() > 0
            } ==> token_file_error(path, read) == Some(
                "auth tokens file "@ + path + ": token #"@ + decimal(i as nat)
                    + " has an empty secret"@,
            ),
{
    if let TokenFileRead::Parsed(entries) = read {
        let e = entries@;
        if token_file_error(path, read) is None {
            assert forall|i: int| 0 <= i < e.len() implies (#[trigger] e[i]).token@.len() > 0 by {
                lemma_no_empty_secret(e, 0, i);
            }
        } else if e.len() > 0 {
            lemma_empty_secret_is_first(e, 0);
        }
        assert forall|i: int|
            {
                &&& 0 <= i < e.len()
                &&& (#[trigger] e[i]).token@.len() == 0
                &&& forall|j: int| 0 <= j < i ==> (#[trigger] e[j]).token@.len() > 0
            } implies empty_secret(e, 0) == Some(i as nat) by {
            lemma_empty_secret_is_first(e, 0);
            if empty_secret(e, 0) is None {
                lemma_no_empty_secret(e, 0, i);
            }
        }
    }
}

proof fn lemma_empty_secret_is_first(entries: Seq<TokenFileEntry>, from: nat)
    ensures
        empty_secret(entries, from) matches Some(i) ==> {
            &&& from <= i < entries.len()
            &&& entries[i as int].token@.len() == 0
            &&& forall|j: int| from <= j < i ==> (#[trigger] entries[j]).token@.len() > 0
        },
    decreases entries.len() - from,
{
    if from < entries.len() && entries[from as int].token@.len() > 0 {
        lemma_empty_secret_is_first(entries, from + 1);
    }
}

/// Who presents the secret of an entry of the file is the one that the entry
/// names, or the number of its place where it names nobody, and may write unless
/// the entry says otherwise, in every namespace where it lists none.
pub proof fn law_entries_are_honoured(
    entries: Seq<TokenFileEntry>,
    read: TokenFileRead,
    tokens: Seq<AuthToken>,
    i: int,
    namespace: Seq<char>,
)
    requires
        read matches TokenFileRead::Parsed(held) && held@ == entries,
        are_tokens_of(tokens, read),
        0 <= i < entries.len(),
        forall|j: int| i < j < entries.len() ==> (#[trigger] entries[j]).token@ != entries[i].token@,
        namespace.len() == 0 || (entries[i].namespaces matches Some(list) ==> listed(
            list@,
            namespace,
        )),
    ensures
        granted(tokens, entries[i].token@, namespace) matches Some(p) && {
            &&& p.role == match entries[i].role {
                Some(role) => role,
                None => Role::ReadWrite,
            }
            &&& p.subject == match entries[i].name {
                Some(name) => name@,
                None => "token-"@ + decimal(i as nat),
            }
            &&& p.groups.len() == 0
        },
{
    let presented = entries[i].token@;
    assert(is_token_of(tokens[i], entries[i], i as nat));
    assert(tokens[i].grants(presented, namespace));
    assert forall|j: int| i < j < tokens.len() implies !(#[trigger] tokens[j]).grants(
        presented,
        namespace,
    ) by {
        assert(is_token_of(tokens[j], entries[j], j as nat));
        assert(entries[j].token@ != entries[i].token@);
    }
    lemma_last_grant(tokens, presented, namespace, i);
}

/// An entry that lists its namespaces reaches no other.
pub proof fn law_entries_reach_no_further(
    entry: TokenFileEntry,
    token: AuthToken,
    i: nat,
    namespace: Seq<char>,
)
    requires
        is_token_of(token, entry, i),
        namespace.len() > 0,
        entry.namespaces matches Some(list) && !listed(list@, namespace),
    ensures
        forall|presented: Seq<char>| !(#[trigger] token.grants(presented, namespace)),
{
}

proof fn lemma_last_grant(
    tokens: Seq<AuthToken>,
    presented: Seq<char>,
    namespace: Seq<char>,
    i: int,
)
    requires
        0 <= i < tokens.len(),
        tokens[i].grants(presented, namespace),
        forall|j: int|
            i < j < tokens.len() ==> !(#[trigger] tokens[j]).grants(presented, namespace),
    ensures
        granted(tokens, presented, namespace) == Some(tokens[i].principal()),
    decreases tokens.len(),
{
    if i < tokens.len() - 1 {
        assert(!tokens[tokens.len() - 1].grants(presented, namespace));
        let shorter = tokens.drop_last();
        assert forall|j: int| i < j < shorter.len() implies !(#[trigger] shorter[j]).grants(
            presented,
            namespace,
        ) by {
            assert(shorter[j] == tokens[j]);
        }
        lemma_last_grant(shorter, presented, namespace, i);
    }
}

proof fn lemma_no_empty_secret(entries: Seq<TokenFileEntry>, from: nat, i: int)
    requires
        empty_secret(entries, from) is None,
        from <= i < entries.len(),
    ensures
        entries[i].token@.len() > 0,
    decreases entries.len() - from,
{
    if from < i {
        lemma_no_empty_secret(entries, from + 1, i);
    }
}

} // verus!
