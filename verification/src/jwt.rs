//! Web-token validation against a published key set.
//!
//! A bearer token is checked against the keys of a key set document: signature,
//! expiry and, where they are configured, issuer and audience. A group claim is
//! then mapped to a role. Whatever fails, nothing is granted.
//!
//! Only asymmetric algorithms are accepted: a key set holds public keys, and a
//! symmetric algorithm would take one of those for a secret.

use jsonwebtoken::jwk::{Jwk, JwkSet};
use jsonwebtoken::{Algorithm, DecodingKey, Validation};
use vstd::prelude::*;

use crate::auth::{option_principal, role_of, Principal, PrincipalModel, Role};
use crate::json::{document, json_content, json_parse, member, parse, Json, JsonTree};
use crate::recovery::option_text;
use crate::text::{list_contains, listed, str_eq, texts};

verus! {

/// The clock skew that is allowed for, in seconds.
pub const LEEWAY_SECS: u64 = 30;

/// Web-token validation settings.
#[derive(Debug, Clone)]
pub struct JwtConfig {
    pub jwks_url: String,
    pub issuer: Option<String>,
    pub audience: Option<String>,
    /// The claim that holds the caller's groups.
    pub groups_claim: String,
    /// The group that grants read-write access.
    pub write_group: Option<String>,
    /// The group that grants read-only access.
    pub read_group: Option<String>,
    /// The claim that lists the namespaces a token may reach; without it a token
    /// may reach any.
    pub namespaces_claim: Option<String>,
}

/// A copy of an optional text.
fn copy_option(s: &Option<String>) -> (r: Option<String>)
    ensures
        r == *s,
{
    match s {
        Some(t) => Some(t.clone()),
        None => None,
    }
}

impl JwtConfig {
    /// A copy of the configuration.
    pub fn copy(&self) -> (r: JwtConfig)
        ensures
            r == *self,
    {
        JwtConfig {
            jwks_url: self.jwks_url.clone(),
            issuer: copy_option(&self.issuer),
            audience: copy_option(&self.audience),
            groups_claim: self.groups_claim.clone(),
            write_group: copy_option(&self.write_group),
            read_group: copy_option(&self.read_group),
            namespaces_claim: copy_option(&self.namespaces_claim),
        }
    }
}

/// The texts of a list of documents, in order; what is no text falls away.
pub open spec fn only_texts(items: Seq<JsonTree>) -> Seq<Seq<char>>
    decreases items.len(),
{
    if items.len() == 0 {
        Seq::empty()
    } else {
        let before = only_texts(items.drop_last());
        match items.last() {
            JsonTree::Text(s) => before.push(s),
            _ => before,
        }
    }
}

/// The groups that a claim names: the texts of a list, or a single text.
pub open spec fn claim_groups(claim: JsonTree) -> Option<Seq<Seq<char>>> {
    match claim {
        JsonTree::Array(items) => Some(only_texts(items)),
        JsonTree::Text(s) => Some(seq![s]),
        _ => None,
    }
}

/// The view of an optional list of strings.
pub open spec fn option_texts(v: Option<Vec<String>>) -> Option<Seq<Seq<char>>> {
    match v {
        Some(items) => Some(texts(items@)),
        None => None,
    }
}

/// The groups that a claim names.
pub fn extract_group_strings(v: &Json) -> (r: Option<Vec<String>>)
    ensures
        option_texts(r) == claim_groups(v@),
{
    match v {
        Json::Array(items) => {
            let ghost all = v@->Array_0;
            let mut out: Vec<String> = Vec::new();
            let mut i: usize = 0;
            assert(all.take(0) =~= Seq::<JsonTree>::empty());
            assert(texts(out@) =~= Seq::<Seq<char>>::empty());
            while i < items.len()
                invariant
                    i <= items@.len(),
                    *v == Json::Array(*items),
                    all == v@->Array_0,
                    all.len() == items@.len(),
                    texts(out@) == only_texts(all.take(i as int)),
                decreases items.len() - i,
            {
                proof {
                    assert(all[i as int] == items@[i as int]@);
                    assert(all.take(i + 1).drop_last() =~= all.take(i as int));
                    assert(all.take(i + 1).last() == all[i as int]);
                }
                match &items[i] {
                    Json::Text(s) => {
                        let ghost before = texts(out@);
                        out.push(s.clone());
                        assert(texts(out@) =~= before.push(s@));
                    },
                    _ => {},
                }
                i = i + 1;
            }
            assert(all.take(i as int) =~= all);
            Some(out)
        },
        Json::Text(s) => {
            let mut out: Vec<String> = Vec::new();
            out.push(s.clone());
            assert(texts(out@) =~= seq![s@]);
            Some(out)
        },
        _ => None,
    }
}

/// The groups that claim `name` names.
pub open spec fn named_groups(claims: JsonTree, name: Seq<char>) -> Option<Seq<Seq<char>>> {
    match claims.field(name) {
        Some(v) => claim_groups(v),
        None => None,
    }
}

impl JwtConfig {
    /// Whether the claims let a token into a namespace. Without a namespace to
    /// check, or without a claim to check it by, they do.
    pub open spec fn in_scope(self, claims: JsonTree, namespace: Option<Seq<char>>) -> bool {
        match (namespace, self.namespaces_claim) {
            (Some(ns), Some(claim)) => match named_groups(claims, claim@) {
                Some(allowed) => allowed.contains(ns),
                None => false,
            },
            _ => true,
        }
    }

    /// The role that a list of groups gives: the write group wins.
    pub open spec fn group_role(self, groups: Seq<Seq<char>>) -> Option<Role> {
        if self.write_group matches Some(g) && groups.contains(g@) {
            Some(Role::ReadWrite)
        } else if self.read_group matches Some(g) && groups.contains(g@) {
            Some(Role::ReadOnly)
        } else {
            None
        }
    }

    /// Who the holder of a token with these claims is, if anyone.
    pub open spec fn principal(self, claims: JsonTree, namespace: Option<Seq<char>>) -> Option<
        PrincipalModel,
    > {
        if !self.in_scope(claims, namespace) {
            None
        } else {
            match named_groups(claims, self.groups_claim@) {
                None => None,
                Some(groups) => match self.group_role(groups) {
                    None => None,
                    Some(role) => Some(
                        PrincipalModel {
                            subject: match claims.field("sub"@) {
                                Some(JsonTree::Text(s)) => s,
                                _ => "unknown"@,
                            },
                            role,
                            groups,
                        },
                    ),
                },
            }
        }
    }
}

/// The view of an optional borrowed text.
pub open spec fn option_str(s: Option<&str>) -> Option<Seq<char>> {
    match s {
        Some(t) => Some(t@),
        None => None,
    }
}

/// Being listed is being among the texts.
proof fn lemma_listed(items: Seq<String>, item: Seq<char>)
    ensures
        listed(items, item) == texts(items).contains(item),
{
    if listed(items, item) {
        let i = choose|i: int| 0 <= i < items.len() && (#[trigger] items[i])@ == item;
        assert(texts(items)[i] == item);
    }
    if texts(items).contains(item) {
        let i = choose|i: int| 0 <= i < texts(items).len() && texts(items)[i] == item;
        assert(items[i]@ == item);
    }
}

/// The groups that claim `name` names.
fn groups_named(claims: &Json, name: &str) -> (r: Option<Vec<String>>)
    ensures
        option_texts(r) == named_groups(claims@, name@),
{
    match claims.get(name) {
        Some(v) => extract_group_strings(v),
        None => None,
    }
}

/// The principal that validated claims stand for: the namespace must be in
/// scope, a configured group must be held, and the subject is named or unknown.
pub fn principal_from_claims(config: &JwtConfig, claims: &Json, namespace: Option<&str>) -> (r:
    Option<Principal>)
    ensures
        option_principal(r) == config.principal(claims@, option_str(namespace)),
{
    match (namespace, &config.namespaces_claim) {
        (Some(ns), Some(claim)) => match groups_named(claims, claim.as_str()) {
            Some(allowed) => {
                proof {
                    lemma_listed(allowed@, ns@);
                }
                if !list_contains(&allowed, ns) {
                    return None;
                }
            },
            None => {
                return None;
            },
        },
        _ => {},
    }
    let groups = match groups_named(claims, config.groups_claim.as_str()) {
        Some(groups) => groups,
        None => {
            return None;
        },
    };
    let writes = match &config.write_group {
        Some(g) => {
            proof {
                lemma_listed(groups@, g@);
            }
            list_contains(&groups, g.as_str())
        },
        None => false,
    };
    let role = if writes {
        Role::ReadWrite
    } else {
        let reads = match &config.read_group {
            Some(g) => {
                proof {
                    lemma_listed(groups@, g@);
                }
                list_contains(&groups, g.as_str())
            },
            None => false,
        };
        if reads {
            Role::ReadOnly
        } else {
            return None;
        }
    };
    let subject = match claims.get("sub") {
        Some(Json::Text(s)) => s.clone(),
        _ => "unknown".to_owned(),
    };
    Some(Principal { subject, role, groups })
}

// ---------------------------------------------------------------------------
// jsonwebtoken
// ---------------------------------------------------------------------------

/// A signature algorithm of `jsonwebtoken`.
#[verifier::external_type_specification]
#[verifier::external_body]
pub struct ExAlgorithm(Algorithm);

/// A public key of `jsonwebtoken`, ready to check signatures with.
#[verifier::external_type_specification]
#[verifier::external_body]
pub struct ExDecodingKey(DecodingKey);

/// What `jsonwebtoken` checks of a token.
#[verifier::external_type_specification]
#[verifier::external_body]
pub struct ExValidation(Validation);

/// One key of a key set document.
#[verifier::external_type_specification]
#[verifier::external_body]
pub struct ExJwk(Jwk);

/// A signature algorithm.
#[derive(Debug, Clone, Copy, PartialEq, Eq, Structural)]
pub enum TokenAlg {
    Hs256,
    Hs384,
    Hs512,
    Es256,
    Es384,
    Rs256,
    Rs384,
    Rs512,
    Ps256,
    Ps384,
    Ps512,
    EdDsa,
}

impl TokenAlg {
    /// Whether tokens signed this way are accepted.
    pub open spec fn accepted_spec(self) -> bool {
        self is Rs256 || self is Rs384 || self is Rs512 || self is Es256 || self is Es384
    }

    /// Whether tokens signed this way are accepted.
    pub fn accepted(self) -> (r: bool)
        ensures
            r == self.accepted_spec(),
    {
        match self {
            TokenAlg::Rs256 | TokenAlg::Rs384 | TokenAlg::Rs512 => true,
            TokenAlg::Es256 | TokenAlg::Es384 => true,
            _ => false,
        }
    }
}

/// What is checked of a token, besides its signature and its times.
#[verifier::ext_equal]
pub struct TokenRules {
    pub alg: TokenAlg,
    pub leeway: u64,
    pub issuer: Option<Seq<char>>,
    pub check_audience: bool,
    pub audience: Option<Seq<char>>,
}

/// Which algorithm an `Algorithm` is.
pub uninterp spec fn algorithm_tag(alg: Algorithm) -> TokenAlg;

/// The algorithm and the key name in the header of a token, if it has one that
/// can be read.
pub uninterp spec fn jwt_header(token: Seq<char>) -> Option<(TokenAlg, Option<Seq<char>>)>;

/// The claims in the payload of a token.
pub uninterp spec fn jwt_claims(token: Seq<char>) -> JsonTree;

/// What a `Validation` checks.
pub uninterp spec fn validation_rules(v: Validation) -> TokenRules;

/// Whether a token's signature is that of the key and everything but its times
/// is as the rules demand.
pub uninterp spec fn jwt_passes(token: Seq<char>, key: DecodingKey, rules: TokenRules) -> bool;

/// The keys that a key set document lists, if it lists nothing else.
pub uninterp spec fn jwk_set_read(text: Seq<char>) -> Option<Seq<Jwk>>;

/// The name of a key.
pub uninterp spec fn jwk_kid(jwk: Jwk) -> Option<Seq<char>>;

/// The public key that can be made of a key set entry, if it can.
pub uninterp spec fn jwk_key(jwk: Jwk) -> Option<DecodingKey>;

/// The second at which a token expires, if its claims name a whole one.
pub open spec fn token_expiry(claims: JsonTree) -> Option<nat> {
    match claims.field("exp"@) {
        Some(JsonTree::Integer(n)) if 0 <= n <= u64::MAX => Some(n as nat),
        _ => None,
    }
}

/// Whether a token with these claims is in date at the second `now`, with the skew
/// that is allowed for.
pub open spec fn in_date(claims: JsonTree, leeway: u64, now: u64) -> bool {
    token_expiry(claims) matches Some(exp) && now <= exp + leeway
}

/// Whether it is the clock alone that decides about a token which passes
/// everything else: `accepted` tells whether it was in date at some second. Of a
/// token that does not expire at a whole second nothing is said.
pub open spec fn clock_decides(
    claims: JsonTree,
    leeway: u64,
    passes: bool,
    accepted: bool,
) -> bool {
    token_expiry(claims) is Some ==> exists|now: u64|
        accepted <==> passes && #[trigger] in_date(claims, leeway, now)
}

/// The variants of `jsonwebtoken::Algorithm`, told apart one for one.
#[verifier::external_body]
fn algorithm_tag_of(alg: &Algorithm) -> (r: TokenAlg)
    ensures
        r == algorithm_tag(*alg),
{
    match alg {
        Algorithm::HS256 => TokenAlg::Hs256,
        Algorithm::HS384 => TokenAlg::Hs384,
        Algorithm::HS512 => TokenAlg::Hs512,
        Algorithm::ES256 => TokenAlg::Es256,
        Algorithm::ES384 => TokenAlg::Es384,
        Algorithm::RS256 => TokenAlg::Rs256,
        Algorithm::RS384 => TokenAlg::Rs384,
        Algorithm::RS512 => TokenAlg::Rs512,
        Algorithm::PS256 => TokenAlg::Ps256,
        Algorithm::PS384 => TokenAlg::Ps384,
        Algorithm::PS512 => TokenAlg::Ps512,
        Algorithm::EdDSA => TokenAlg::EdDsa,
    }
}

/// `jsonwebtoken::decode_header` reads the header of a token without checking
/// anything. The claim is that the outcome depends on the token alone; of the
/// header, the algorithm and the key name are handed on.
#[verifier::external_body]
fn token_header(token: &str) -> (r: Option<(Algorithm, Option<String>)>)
    ensures
        jwt_header(token@) == match r {
            Some((alg, kid)) => Some((algorithm_tag(alg), option_text(kid))),
            None => None::<(TokenAlg, Option<Seq<char>>)>,
        },
{
    jsonwebtoken::decode_header(token).ok().map(|h| (h.alg, h.kid))
}

/// `jsonwebtoken::Validation::new` allows the given algorithm, demands an
/// expiry, allows for a minute of clock skew, and checks an audience claim
/// against a list that is not set yet.
pub assume_specification[ Validation::new ](alg: Algorithm) -> (v: Validation)
    ensures
        validation_rules(v) == (TokenRules {
            alg: algorithm_tag(alg),
            leeway: 60,
            issuer: None,
            check_audience: true,
            audience: None,
        }),
;

/// Sets `jsonwebtoken::Validation::leeway`, the clock skew allowed for, and
/// nothing else.
#[verifier::external_body]
fn set_leeway(v: &mut Validation, secs: u64)
    ensures
        validation_rules(*final(v)) == (TokenRules {
            leeway: secs,
            ..validation_rules(*old(v))
        }),
{
    v.leeway = secs;
}

/// `jsonwebtoken::Validation::set_issuer`, with a list of one, makes that one
/// the only issuer that a token may name, and changes nothing else.
#[verifier::external_body]
fn set_issuer(v: &mut Validation, issuer: &str)
    ensures
        validation_rules(*final(v)) == (TokenRules {
            issuer: Some(issuer@),
            ..validation_rules(*old(v))
        }),
{
    v.set_issuer(&[issuer]);
}

/// Sets `jsonwebtoken::Validation::validate_aud`, whether an audience claim is
/// checked at all, and nothing else.
#[verifier::external_body]
fn set_check_audience(v: &mut Validation, on: bool)
    ensures
        validation_rules(*final(v)) == (TokenRules {
            check_audience: on,
            ..validation_rules(*old(v))
        }),
{
    v.validate_aud = on;
}

/// `jsonwebtoken::Validation::set_audience`, with a list of one, makes that one
/// the only audience that a token may name, and changes nothing else.
#[verifier::external_body]
fn set_audience(v: &mut Validation, audience: &str)
    ensures
        validation_rules(*final(v)) == (TokenRules {
            audience: Some(audience@),
            ..validation_rules(*old(v))
        }),
{
    v.set_audience(&[audience]);
}

/// `jsonwebtoken::decode` checks a token and hands its claims out. It reads the
/// clock, so success is not promised outright. What is claimed of a success: the
/// claims are those in the token's payload, the signature is that of the key, and
/// the rules are met. And where the token expires at a whole second, what is
/// claimed of every outcome: it succeeds exactly if the signature is that of the
/// key, the rules are met, and the token is in date at the second that the clock
/// showed. The skew is bounded so that it cannot reach before the epoch.
#[verifier::external_body]
fn decode_claims(token: &str, key: &DecodingKey, v: &Validation) -> (r: Option<serde_json::Value>)
    requires
        validation_rules(*v).leeway <= 60,
    ensures
        r matches Some(claims) ==> {
            &&& json_content(claims) == jwt_claims(token@)
            &&& jwt_passes(token@, *key, validation_rules(*v))
        },
        clock_decides(
            jwt_claims(token@),
            validation_rules(*v).leeway,
            jwt_passes(token@, *key, validation_rules(*v)),
            r is Some,
        ),
{
    jsonwebtoken::decode::<serde_json::Value>(token, key, v).ok().map(|data| data.claims)
}

/// `serde_json::from_str` reads a key set document into a
/// `jsonwebtoken::jwk::JwkSet`. The claim is that the outcome depends on the text
/// alone.
#[verifier::external_body]
fn read_jwk_set(text: &str) -> (r: Option<Vec<Jwk>>)
    ensures
        jwk_set_read(text@) == match r {
            Some(keys) => Some(keys@),
            None => None,
        },
{
    serde_json::from_str::<JwkSet>(text).ok().map(|set| set.keys)
}

/// The `key_id` of a `jsonwebtoken::jwk::Jwk`.
#[verifier::external_body]
fn key_id(jwk: &Jwk) -> (r: Option<String>)
    ensures
        option_text(r) == jwk_kid(*jwk),
{
    jwk.common.key_id.clone()
}

/// `jsonwebtoken::DecodingKey::from_jwk` makes a public key of a key set entry,
/// unless its parts cannot be decoded. The claim is that the outcome depends on
/// the entry alone.
#[verifier::external_body]
fn decoding_key(jwk: &Jwk) -> (r: Option<DecodingKey>)
    ensures
        r == jwk_key(*jwk),
{
    DecodingKey::from_jwk(jwk).ok()
}

// ---------------------------------------------------------------------------
// Key sets
// ---------------------------------------------------------------------------

/// The keys by their names.
pub type KeySeq = Seq<(Seq<char>, DecodingKey)>;

/// The place of the last key of that name.
pub open spec fn key_at(keys: KeySeq, kid: Seq<char>) -> Option<int>
    decreases keys.len(),
{
    if keys.len() == 0 {
        None
    } else if keys.last().0 == kid {
        Some(keys.len() - 1)
    } else {
        key_at(keys.drop_last(), kid)
    }
}

/// The keys with one more, which takes the place of one of the same name.
pub open spec fn with_key(keys: KeySeq, kid: Seq<char>, key: DecodingKey) -> KeySeq {
    match key_at(keys, kid) {
        Some(i) => keys.update(i, (kid, key)),
        None => keys.push((kid, key)),
    }
}

/// The usable keys among those listed, by name; a key without a name has the
/// empty one.
pub open spec fn usable_keys(listed: Seq<Jwk>) -> KeySeq
    decreases listed.len(),
{
    if listed.len() == 0 {
        Seq::empty()
    } else {
        let before = usable_keys(listed.drop_last());
        match jwk_key(listed.last()) {
            Some(key) => with_key(
                before,
                match jwk_kid(listed.last()) {
                    Some(kid) => kid,
                    None => Seq::empty(),
                },
                key,
            ),
            None => before,
        }
    }
}

/// The places of the keys to try a token with, in order: the key that its header
/// names, if there is one, and after it every key.
pub open spec fn attempt_order(keys: KeySeq, kid: Option<Seq<char>>) -> Seq<int> {
    let every = Seq::new(keys.len(), |i: int| i);
    match kid {
        Some(name) => match key_at(keys, name) {
            Some(i) => seq![i] + every,
            None => every,
        },
        None => every,
    }
}

/// Places as they are counted in contracts.
pub open spec fn places(at: Seq<usize>) -> Seq<int> {
    at.map_values(|i: usize| i as int)
}

/// The first principal that an attempt has found.
pub open spec fn first_found(attempts: Seq<Option<Principal>>) -> Option<PrincipalModel>
    decreases attempts.len(),
{
    if attempts.len() == 0 {
        None
    } else {
        match attempts[0] {
            Some(p) => Some(p@),
            None => first_found(attempts.skip(1)),
        }
    }
}

/// What is found first is what some attempt has found.
proof fn lemma_found_by_an_attempt(attempts: Seq<Option<Principal>>) -> (at: int)
    requires
        first_found(attempts) is Some,
    ensures
        0 <= at < attempts.len(),
        attempts[at] is Some,
        attempts[at]->Some_0@ == first_found(attempts)->Some_0,
    decreases attempts.len(),
{
    match attempts[0] {
        Some(_) => 0,
        None => lemma_found_by_an_attempt(attempts.skip(1)) + 1,
    }
}

/// What no attempt has found is not found.
proof fn lemma_found_by_no_attempt(attempts: Seq<Option<Principal>>, j: int)
    requires
        first_found(attempts) is None,
        0 <= j < attempts.len(),
    ensures
        attempts[j] is None,
    decreases attempts.len(),
{
    if j > 0 {
        lemma_found_by_no_attempt(attempts.skip(1), j - 1);
        assert(attempts.skip(1)[j - 1] == attempts[j]);
    }
}

/// Every key is among those to try.
proof fn lemma_every_key_is_tried(keys: KeySeq, kid: Option<Seq<char>>, i: int) -> (j: int)
    requires
        0 <= i < keys.len(),
    ensures
        0 <= j < attempt_order(keys, kid).len(),
        attempt_order(keys, kid)[j] == i,
{
    match kid {
        Some(name) => match key_at(keys, name) {
            Some(_) => i + 1,
            None => i,
        },
        None => i,
    }
}

/// Whom a token stands for, from what the attempts with its keys have found: the
/// first principal found, and nobody if none was.
pub fn first_holder(attempts: &Vec<Option<Principal>>) -> (r: Option<Principal>)
    ensures
        option_principal(r) == first_found(attempts@),
{
    let mut i: usize = 0;
    assert(attempts@.skip(0) =~= attempts@);
    while i < attempts.len()
        invariant
            i <= attempts@.len(),
            first_found(attempts@) == first_found(attempts@.skip(i as int)),
        decreases attempts.len() - i,
    {
        assert(attempts@.skip(i as int).skip(1) =~= attempts@.skip(i + 1));
        match &attempts[i] {
            Some(p) => {
                return Some(p.copy());
            },
            None => {},
        }
        i = i + 1;
    }
    None
}

/// Whether a document has no list of keys at all.
pub open spec fn lists_nothing(doc: JsonTree) -> bool {
    match doc {
        JsonTree::Object(members) => member(members, "keys"@) is None,
        JsonTree::Array(items) => items.len() == 0,
        _ => false,
    }
}

/// The keys that a key set document lists: none when it has no list of them.
/// What has something else in the place of the list, or in the list, is no key
/// set.
pub open spec fn key_set(body: Seq<char>) -> Option<Seq<Jwk>> {
    match jwk_set_read(body) {
        Some(listed) => Some(listed),
        None => match json_parse(body) {
            Ok(doc) if lists_nothing(doc) => Some(Seq::empty()),
            _ => None,
        },
    }
}

/// What a validator knows.
pub struct JwtModel {
    pub config: JwtConfig,
    pub keys: KeySeq,
}

impl JwtModel {
    /// Why a key set document is refused, if it is.
    pub open spec fn refresh_error(self, body: Seq<char>) -> Option<Seq<char>> {
        match key_set(body) {
            None => Some("JWKS at "@ + self.config.jwks_url@ + " is not a key set"@),
            Some(entries) => if usable_keys(entries).len() == 0 {
                Some(
                    "JWKS at "@ + self.config.jwks_url@
                        + " parsed but yielded no usable signing keys"@,
                )
            } else {
                None
            },
        }
    }

    /// Whether this is `before` with the keys of a key set document.
    pub open spec fn refreshed_from(self, before: JwtModel, body: Seq<char>) -> bool {
        &&& before.refresh_error(body) is None
        &&& self.config == before.config
        &&& self.keys == usable_keys(key_set(body)->Some_0)
    }

    /// What is checked of a token signed with `alg`: an issuer and an audience
    /// only where they are configured.
    pub open spec fn rules(self, alg: TokenAlg) -> TokenRules {
        TokenRules {
            alg,
            leeway: LEEWAY_SECS,
            issuer: option_text(self.config.issuer),
            check_audience: self.config.audience is Some,
            audience: option_text(self.config.audience),
        }
    }

    /// Whether a token is looked at beyond its header.
    pub open spec fn considers(self, token: Seq<char>) -> bool {
        jwt_header(token) matches Some((alg, _)) && alg.accepted_spec() && self.keys.len() > 0
    }

    /// Whether the holder of the token may be `p`: one of the keys has signed
    /// it, the rules are met, and its claims stand for `p`.
    pub open spec fn may_be(
        self,
        token: Seq<char>,
        namespace: Option<Seq<char>>,
        p: PrincipalModel,
    ) -> bool {
        &&& self.considers(token)
        &&& exists|i: int|
            0 <= i < self.keys.len() && jwt_passes(
                token,
                (#[trigger] self.keys[i]).1,
                self.rules(jwt_header(token)->Some_0.0),
            )
        &&& self.config.principal(jwt_claims(token), namespace) == Some(p)
    }

    /// Whether one of the keys has signed the token, and the rules are met.
    pub open spec fn signed(self, token: Seq<char>) -> bool {
        &&& self.considers(token)
        &&& exists|i: int|
            0 <= i < self.keys.len() && jwt_passes(
                token,
                (#[trigger] self.keys[i]).1,
                self.rules(jwt_header(token)->Some_0.0),
            )
    }

    /// Whether `r` is what the key at place `at` makes of the token at some second.
    pub open spec fn tried(
        self,
        token: Seq<char>,
        namespace: Option<Seq<char>>,
        at: int,
        rules: TokenRules,
        r: Option<PrincipalModel>,
    ) -> bool {
        exists|now: u64|
            r == #[trigger] found_at(
                self.config,
                token,
                namespace,
                jwt_passes(token, self.keys[at].1, rules),
                rules.leeway,
                now,
            )
    }

    /// Who the holder of the token is at the second `now`: whom its claims stand
    /// for, if one of the keys has signed it, the rules are met and it is in date.
    pub open spec fn holder_at(
        self,
        token: Seq<char>,
        namespace: Option<Seq<char>>,
        now: u64,
    ) -> Option<PrincipalModel> {
        if self.signed(token) && in_date(jwt_claims(token), LEEWAY_SECS, now) {
            self.config.principal(jwt_claims(token), namespace)
        } else {
            None
        }
    }

    /// Whether `r` is who the holder of the token is at some second, as far as the
    /// token expires at a whole one.
    pub open spec fn is_holder(
        self,
        token: Seq<char>,
        namespace: Option<Seq<char>>,
        r: Option<PrincipalModel>,
    ) -> bool {
        token_expiry(jwt_claims(token)) is Some ==> exists|now: u64|
            r == #[trigger] self.holder_at(token, namespace, now)
    }
}

/// What one key makes of a token at the second `now`.
pub open spec fn found_at(
    config: JwtConfig,
    token: Seq<char>,
    namespace: Option<Seq<char>>,
    passes: bool,
    leeway: u64,
    now: u64,
) -> Option<PrincipalModel> {
    if passes && in_date(jwt_claims(token), leeway, now) {
        config.principal(jwt_claims(token), namespace)
    } else {
        None
    }
}

/// A key set and the rules that tokens are held to.
pub struct JwtValidator {
    config: JwtConfig,
    keys: Vec<(String, DecodingKey)>,
}

/// The views of a list of keys.
pub open spec fn key_views(keys: Seq<(String, DecodingKey)>) -> KeySeq {
    keys.map_values(|k: (String, DecodingKey)| (k.0@, k.1))
}

impl View for JwtValidator {
    type V = JwtModel;

    closed spec fn view(&self) -> JwtModel {
        JwtModel { config: self.config, keys: key_views(self.keys@) }
    }
}

/// Adds a key, or puts it in the place of one of the same name.
fn put_key(keys: &mut Vec<(String, DecodingKey)>, kid: String, key: DecodingKey)
    ensures
        key_views(final(keys)@) == with_key(key_views(old(keys)@), kid@, key),
{
    let ghost all = key_views(keys@);
    let mut i: usize = keys.len();
    assert(all.take(i as int) =~= all);
    while i > 0
        invariant
            i <= keys@.len(),
            keys@ == old(keys)@,
            all == key_views(keys@),
            key_at(all, kid@) == key_at(all.take(i as int), kid@),
        decreases i,
    {
        proof {
            assert(all[i - 1].0 == keys@[i - 1].0@);
            assert(all.take(i as int).drop_last() =~= all.take(i - 1));
        }
        if str_eq(keys[i - 1].0.as_str(), kid.as_str()) {
            let ghost item = (kid@, key);
            let at: usize = i - 1;
            keys[at] = (kid, key);
            assert(key_views(keys@) =~= all.update(at as int, item));
            return;
        }
        i = i - 1;
    }
    let ghost item = (kid@, key);
    keys.push((kid, key));
    assert(key_views(keys@) =~= all.push(item));
}

/// The keys that a key set document lists.
fn listed_keys(body: &str) -> (r: Option<Vec<Jwk>>)
    ensures
        key_set(body@) == match r {
            Some(keys) => Some(keys@),
            None => None,
        },
{
    match read_jwk_set(body) {
        Some(keys) => Some(keys),
        None => {
            let nothing = match parse(body) {
                Ok(doc) => match &doc {
                    Json::Object(_) => doc.get("keys").is_none(),
                    Json::Array(items) => items.len() == 0,
                    _ => false,
                },
                Err(_) => false,
            };
            if nothing {
                let none: Vec<Jwk> = Vec::new();
                assert(none@ =~= Seq::<Jwk>::empty());
                Some(none)
            } else {
                None
            }
        },
    }
}

/// The usable keys of a key set document, unless it is none.
fn keys_of(body: &str) -> (r: Option<Vec<(String, DecodingKey)>>)
    ensures
        match r {
            Some(keys) => key_set(body@) matches Some(listed) && key_views(keys@) == usable_keys(
                listed,
            ),
            None => key_set(body@) is None,
        },
{
    let listed = match listed_keys(body) {
        Some(listed) => listed,
        None => {
            return None;
        },
    };
    let mut keys: Vec<(String, DecodingKey)> = Vec::new();
    let mut i: usize = 0;
    assert(listed@.take(0) =~= Seq::<Jwk>::empty());
    assert(key_views(keys@) =~= Seq::<(Seq<char>, DecodingKey)>::empty());
    while i < listed.len()
        invariant
            i <= listed@.len(),
            key_views(keys@) == usable_keys(listed@.take(i as int)),
        decreases listed.len() - i,
    {
        proof {
            assert(listed@.take(i + 1).drop_last() =~= listed@.take(i as int));
            assert(listed@.take(i + 1).last() == listed@[i as int]);
        }
        match decoding_key(&listed[i]) {
            Some(key) => {
                let kid = match key_id(&listed[i]) {
                    Some(kid) => kid,
                    None => String::new(),
                };
                put_key(&mut keys, kid, key);
            },
            None => {},
        }
        i = i + 1;
    }
    assert(listed@.take(i as int) =~= listed@);
    Some(keys)
}

impl JwtValidator {
    /// A validator with the keys of a key set document.
    pub fn new(config: JwtConfig, body: &str) -> (r: Result<JwtValidator, String>)
        ensures
            ({
                let blank = JwtModel { config, keys: Seq::empty() };
                match r {
                    Ok(v) => v@.refreshed_from(blank, body@),
                    Err(e) => blank.refresh_error(body@) == Some(e@),
                }
            }),
    {
        let mut v = JwtValidator { config, keys: Vec::new() };
        assert(v@.keys =~= Seq::<(Seq<char>, DecodingKey)>::empty());
        match v.refresh(body) {
            Ok(_) => Ok(v),
            Err(e) => Err(e),
        }
    }

    /// A validator with the given keys.
    pub fn with_keys(config: JwtConfig, keys: Vec<(String, DecodingKey)>) -> (r: JwtValidator)
        ensures
            r@.config == config,
            r@.keys == key_views(keys@),
    {
        JwtValidator { config, keys }
    }

    /// Swaps the keys for those of a key set document. A document without usable
    /// keys changes nothing.
    pub fn refresh(&mut self, body: &str) -> (r: Result<(), String>)
        ensures
            match r {
                Ok(_) => final(self)@.refreshed_from(old(self)@, body@),
                Err(e) => {
                    &&& final(self)@ == old(self)@
                    &&& old(self)@.refresh_error(body@) == Some(e@)
                },
            },
    {
        match keys_of(body) {
            None => {
                let mut out = "JWKS at ".to_owned();
                out.append(self.config.jwks_url.as_str());
                out.append(" is not a key set");
                Err(out)
            },
            Some(keys) => {
                if keys.len() == 0 {
                    let mut out = "JWKS at ".to_owned();
                    out.append(self.config.jwks_url.as_str());
                    out.append(" parsed but yielded no usable signing keys");
                    Err(out)
                } else {
                    self.keys = keys;
                    Ok(())
                }
            },
        }
    }

    /// What is checked of a token.
    fn validation_for(&self, alg: Algorithm) -> (v: Validation)
        ensures
            validation_rules(v) == self@.rules(algorithm_tag(alg)),
    {
        let mut v = Validation::new(alg);
        set_leeway(&mut v, LEEWAY_SECS);
        match &self.config.issuer {
            Some(issuer) => set_issuer(&mut v, issuer.as_str()),
            None => {},
        }
        set_check_audience(&mut v, self.config.audience.is_some());
        match &self.config.audience {
            Some(audience) => set_audience(&mut v, audience.as_str()),
            None => {},
        }
        v
    }

    /// Tries one key; a token that it has signed is mapped to a principal.
    fn try_decode(
        &self,
        token: &str,
        key: &DecodingKey,
        validation: &Validation,
        namespace: Option<&str>,
    ) -> (r: Option<Principal>)
        requires
            validation_rules(*validation).leeway <= 60,
        ensures
            r matches Some(p) ==> {
                &&& jwt_passes(token@, *key, validation_rules(*validation))
                &&& self@.config.principal(jwt_claims(token@), option_str(namespace)) == Some(p@)
            },
            token_expiry(jwt_claims(token@)) is Some ==> exists|now: u64|
                option_principal(r) == #[trigger] found_at(
                    self@.config,
                    token@,
                    option_str(namespace),
                    jwt_passes(token@, *key, validation_rules(*validation)),
                    validation_rules(*validation).leeway,
                    now,
                ),
    {
        let decoded = decode_claims(token, key, validation);
        let ghost passes = jwt_passes(token@, *key, validation_rules(*validation));
        let ghost leeway = validation_rules(*validation).leeway;
        let ghost now = choose|now: u64|
            decoded is Some <==> passes && #[trigger] in_date(jwt_claims(token@), leeway, now);
        let r = match decoded {
            Some(claims) => {
                let claims = document(&claims);
                principal_from_claims(&self.config, &claims, namespace)
            },
            None => None,
        };
        proof {
            if token_expiry(jwt_claims(token@)) is Some {
                assert(option_principal(r) == found_at(
                    self@.config,
                    token@,
                    option_str(namespace),
                    passes,
                    leeway,
                    now,
                ));
            }
        }
        r
    }

    /// The place of the key of that name.
    fn place_of(&self, kid: &str) -> (r: Option<usize>)
        ensures
            match r {
                Some(i) => i < self@.keys.len() && key_at(self@.keys, kid@) == Some(i as int),
                None => key_at(self@.keys, kid@) is None,
            },
    {
        let ghost all = self@.keys;
        let mut i: usize = self.keys.len();
        assert(all.take(i as int) =~= all);
        while i > 0
            invariant
                i <= self.keys@.len(),
                all == self@.keys,
                key_at(all, kid@) == key_at(all.take(i as int), kid@),
            decreases i,
        {
            proof {
                assert(all[i - 1].0 == self.keys@[i - 1].0@);
                assert(all.take(i as int).drop_last() =~= all.take(i - 1));
            }
            if str_eq(self.keys[i - 1].0.as_str(), kid) {
                return Some(i - 1);
            }
            i = i - 1;
        }
        None
    }

    /// The places of the keys to try a token with: the key that its header names
    /// comes first, and after it every key, so that a name that is wrong or
    /// unknown costs a token nothing.
    pub fn keys_to_try(&self, kid: Option<&str>) -> (r: Vec<usize>)
        ensures
            places(r@) == attempt_order(self@.keys, option_str(kid)),
            forall|j: int| 0 <= j < r@.len() ==> #[trigger] r@[j] < self@.keys.len(),
    {
        let mut order: Vec<usize> = Vec::new();
        match kid {
            Some(kid) => match self.place_of(kid) {
                Some(i) => order.push(i),
                None => {},
            },
            None => {},
        }
        let ghost named = order@;
        let mut i: usize = 0;
        while i < self.keys.len()
            invariant
                i <= self.keys@.len(),
                self@.keys.len() == self.keys@.len(),
                order@ == named + Seq::new(i as nat, |j: int| j as usize),
                forall|j: int| 0 <= j < named.len() ==> #[trigger] named[j] < self@.keys.len(),
            decreases self.keys.len() - i,
        {
            order.push(i);
            i = i + 1;
            assert(order@ =~= named + Seq::new(i as nat, |j: int| j as usize));
        }
        assert(places(order@) =~= attempt_order(self@.keys, option_str(kid)));
        order
    }

    /// Tries keys in order, up to the first that finds a principal.
    fn attempts(
        &self,
        token: &str,
        order: &Vec<usize>,
        validation: &Validation,
        namespace: Option<&str>,
    ) -> (r: Vec<Option<Principal>>)
        requires
            validation_rules(*validation).leeway <= 60,
            forall|j: int| 0 <= j < order@.len() ==> #[trigger] order@[j] < self@.keys.len(),
        ensures
            r@.len() <= order@.len(),
            r@.len() < order@.len() ==> r@.len() > 0 && r@.last() is Some,
            forall|j: int|
                0 <= j < r@.len() ==> ((#[trigger] r@[j]) matches Some(p) ==> {
                    &&& jwt_passes(
                        token@,
                        self@.keys[order@[j] as int].1,
                        validation_rules(*validation),
                    )
                    &&& self@.config.principal(jwt_claims(token@), option_str(namespace)) == Some(
                        p@,
                    )
                }),
            token_expiry(jwt_claims(token@)) is Some ==> forall|j: int|
                0 <= j < r@.len() ==> self@.tried(
                    token@,
                    option_str(namespace),
                    order@[j] as int,
                    validation_rules(*validation),
                    option_principal(#[trigger] r@[j]),
                ),
    {
        let mut out: Vec<Option<Principal>> = Vec::new();
        let mut i: usize = 0;
        while i < order.len()
            invariant
                i <= order@.len(),
                out@.len() == i,
                validation_rules(*validation).leeway <= 60,
                forall|j: int| 0 <= j < order@.len() ==> #[trigger] order@[j] < self@.keys.len(),
                forall|j: int|
                    0 <= j < i ==> ((#[trigger] out@[j]) matches Some(p) ==> {
                        &&& jwt_passes(
                            token@,
                            self@.keys[order@[j] as int].1,
                            validation_rules(*validation),
                        )
                        &&& self@.config.principal(jwt_claims(token@), option_str(namespace))
                            == Some(p@)
                    }),
                token_expiry(jwt_claims(token@)) is Some ==> forall|j: int|
                    0 <= j < i ==> self@.tried(
                        token@,
                        option_str(namespace),
                        order@[j] as int,
                        validation_rules(*validation),
                        option_principal(#[trigger] out@[j]),
                    ),
            decreases order.len() - i,
        {
            assert(order@[i as int] < self@.keys.len());
            let at: usize = order[i];
            assert(self@.keys[at as int].1 == self.keys@[at as int].1);
            let found = self.try_decode(token, &self.keys[at].1, validation, namespace);
            let over = found.is_some();
            out.push(found);
            if over {
                return out;
            }
            i = i + 1;
        }
        out
    }

    /// The principal behind a token: the key that its header names is tried
    /// first, then every key. A token that cannot be read, or is signed in a way
    /// that is not accepted, is nobody's.
    fn validate_inner(&self, token: &str, namespace: Option<&str>) -> (r: Option<Principal>)
        ensures
            r matches Some(p) ==> self@.may_be(token@, option_str(namespace), p@),
            !self@.considers(token@) ==> r is None,
            self@.is_holder(token@, option_str(namespace), option_principal(r)),
    {
        let (alg, kid) = match token_header(token) {
            Some(h) => h,
            None => {
                assert(self@.holder_at(token@, option_str(namespace), 0) is None);
                return None;
            },
        };
        if !algorithm_tag_of(&alg).accepted() {
            assert(self@.holder_at(token@, option_str(namespace), 0) is None);
            return None;
        }
        let validation = self.validation_for(alg);
        let order = match &kid {
            Some(kid) => self.keys_to_try(Some(kid.as_str())),
            None => self.keys_to_try(None),
        };
        let attempts = self.attempts(token, &order, &validation, namespace);
        proof {
            if first_found(attempts@) is Some {
                let at = lemma_found_by_an_attempt(attempts@);
                assert(order@[at] < self@.keys.len());
                assert(jwt_passes(
                    token@,
                    self@.keys[order@[at] as int].1,
                    self@.rules(jwt_header(token@)->Some_0.0),
                ));
            }
            if token_expiry(jwt_claims(token@)) is Some {
                self.lemma_attempts_settle(token, namespace, kid, order@, attempts@);
            }
        }
        first_holder(&attempts)
    }

    /// What the attempts with every key have found is who the holder of the token
    /// is at some second.
    proof fn lemma_attempts_settle(
        &self,
        token: &str,
        namespace: Option<&str>,
        kid: Option<String>,
        order: Seq<usize>,
        attempts: Seq<Option<Principal>>,
    )
        requires
            jwt_header(token@) matches Some((alg, _)) && alg.accepted_spec(),
            places(order) == attempt_order(self@.keys, option_text(kid)),
            attempts.len() <= order.len(),
            attempts.len() < order.len() ==> attempts.len() > 0 && attempts.last() is Some,
            forall|j: int|
                0 <= j < attempts.len() ==> self@.tried(
                    token@,
                    option_str(namespace),
                    order[j] as int,
                    self@.rules(jwt_header(token@)->Some_0.0),
                    option_principal(#[trigger] attempts[j]),
                ),
            forall|j: int| 0 <= j < order.len() ==> #[trigger] order[j] < self@.keys.len(),
        ensures
            self@.is_holder(token@, option_str(namespace), first_found(attempts)),
    {
        let m = self@;
        let ns = option_str(namespace);
        let rules = m.rules(jwt_header(token@)->Some_0.0);
        if first_found(attempts) is Some {
            let at = lemma_found_by_an_attempt(attempts);
            let place = order[at] as int;
            assert(m.tried(token@, ns, place, rules, option_principal(attempts[at])));
            let passes = jwt_passes(token@, m.keys[place].1, rules);
            let now = choose|now: u64|
                option_principal(attempts[at]) == #[trigger] found_at(
                    m.config,
                    token@,
                    ns,
                    passes,
                    rules.leeway,
                    now,
                );
            assert(order[at] < m.keys.len());
            assert(m.signed(token@));
            assert(first_found(attempts) == m.holder_at(token@, ns, now));
        } else if m.signed(token@) {
            let i = choose|i: int|
                0 <= i < m.keys.len() && jwt_passes(token@, (#[trigger] m.keys[i]).1, rules);
            let j = lemma_every_key_is_tried(m.keys, option_text(kid), i);
            assert(places(order)[j] == order[j] as int);
            if attempts.len() < order.len() {
                lemma_found_by_no_attempt(attempts, attempts.len() - 1);
            }
            lemma_found_by_no_attempt(attempts, j);
            assert(m.tried(token@, ns, order[j] as int, rules, option_principal(attempts[j])));
            let now = choose|now: u64|
                option_principal(attempts[j]) == #[trigger] found_at(
                    m.config,
                    token@,
                    ns,
                    jwt_passes(token@, m.keys[i].1, rules),
                    rules.leeway,
                    now,
                );
            assert(first_found(attempts) == m.holder_at(token@, ns, now));
        } else {
            assert(first_found(attempts) == m.holder_at(token@, ns, 0));
        }
    }

    /// The principal behind a token, whatever the namespace.
    pub fn validate_principal(&self, token: &str) -> (r: Option<Principal>)
        ensures
            r matches Some(p) ==> self@.may_be(token@, None, p@),
            !self@.considers(token@) ==> r is None,
            self@.is_holder(token@, None, option_principal(r)),
    {
        self.validate_inner(token, None)
    }

    /// The principal behind a token, if it may reach the namespace.
    pub fn validate_principal_in(&self, token: &str, namespace: &str) -> (r: Option<Principal>)
        ensures
            r matches Some(p) ==> self@.may_be(token@, Some(namespace@), p@),
            !self@.considers(token@) ==> r is None,
            self@.is_holder(token@, Some(namespace@), option_principal(r)),
    {
        self.validate_inner(token, Some(namespace))
    }

    /// The role behind a token, whatever the namespace.
    pub fn validate(&self, token: &str) -> (r: Option<Role>)
        ensures
            r matches Some(role) ==> exists|p: PrincipalModel| #[trigger]
                self@.may_be(token@, None, p) && p.role == role,
            !self@.considers(token@) ==> r is None,
            exists|p: Option<PrincipalModel>| #[trigger]
                self@.is_holder(token@, None, p) && r == role_of(p),
    {
        let found = self.validate_principal(token);
        assert(self@.is_holder(token@, None, option_principal(found)));
        match found {
            Some(p) => Some(p.role),
            None => None,
        }
    }

    /// The role behind a token, if it may reach the namespace.
    pub fn validate_in(&self, token: &str, namespace: &str) -> (r: Option<Role>)
        ensures
            r matches Some(role) ==> exists|p: PrincipalModel| #[trigger]
                self@.may_be(token@, Some(namespace@), p) && p.role == role,
            !self@.considers(token@) ==> r is None,
            exists|p: Option<PrincipalModel>| #[trigger]
                self@.is_holder(token@, Some(namespace@), p) && r == role_of(p),
    {
        let found = self.validate_principal_in(token, namespace);
        assert(self@.is_holder(token@, Some(namespace@), option_principal(found)));
        match found {
            Some(p) => Some(p.role),
            None => None,
        }
    }
}

/// Two principals that one token may stand for in one namespace are the same.
pub proof fn law_token_has_one_holder(
    v: JwtModel,
    token: Seq<char>,
    namespace: Option<Seq<char>>,
    p: PrincipalModel,
    q: PrincipalModel,
)
    requires
        v.may_be(token, namespace, p),
        v.may_be(token, namespace, q),
    ensures
        p == q,
{
}

/// A token signed with a symmetric or any other algorithm that is not accepted
/// stands for nobody, whatever it claims.
pub proof fn law_unaccepted_algorithms_stand_for_nobody(
    v: JwtModel,
    token: Seq<char>,
    namespace: Option<Seq<char>>,
    p: PrincipalModel,
)
    requires
        jwt_header(token) matches Some((alg, _)) && !alg.accepted_spec(),
    ensures
        !v.may_be(token, namespace, p),
{
}

/// The scope of a token only ever narrows: a token that stands for someone without
/// a namespace stands for the same one in a namespace if no claim is configured to
/// scope tokens, or if that claim lists the namespace, at the same second; and if
/// the claim does not list it, it stands for nobody there.
pub proof fn law_scope_only_narrows(
    v: JwtModel,
    token: Seq<char>,
    namespace: Seq<char>,
    now: u64,
)
    ensures
        ({
            let anywhere = v.holder_at(token, None, now);
            let there = v.holder_at(token, Some(namespace), now);
            match v.config.namespaces_claim {
                None => there == anywhere,
                Some(claim) => match named_groups(jwt_claims(token), claim@) {
                    Some(allowed) => if allowed.contains(namespace) {
                        there == anywhere
                    } else {
                        there is None
                    },
                    None => there is None,
                },
            }
        }),
{
}

/// A token that one of the keys has signed, that meets the rules and that no clock
/// finds out of date stands for whom its claims name, whenever it is presented:
/// the validator may answer nothing else. In particular it is never refused.
pub proof fn law_lasting_tokens_are_honoured(
    v: JwtModel,
    token: Seq<char>,
    namespace: Option<Seq<char>>,
    r: Option<PrincipalModel>,
)
    requires
        v.signed(token),
        token_expiry(jwt_claims(token)) matches Some(exp) && exp + LEEWAY_SECS >= u64::MAX,
        v.is_holder(token, namespace, r),
    ensures
        r == v.config.principal(jwt_claims(token), namespace),
{
}

/// A token is honoured until it expires, with the skew allowed for, and at no
/// second after.
pub proof fn law_tokens_expire(
    v: JwtModel,
    token: Seq<char>,
    namespace: Option<Seq<char>>,
    exp: nat,
    now: u64,
)
    requires
        v.signed(token),
        jwt_claims(token).field("exp"@) == Some(JsonTree::Integer(exp as int)),
        exp <= u64::MAX,
    ensures
        now <= exp + 30 ==> v.holder_at(token, namespace, now) == v.config.principal(
            jwt_claims(token),
            namespace,
        ),
        now > exp + 30 ==> v.holder_at(token, namespace, now) is None,
{
}

/// Whoever holds a group that is configured has a role, and whoever holds none has
/// none: the write group gives the right to write, the read group alone the right
/// to read. The subject is the one that the claims name.
pub proof fn law_members_have_roles(
    config: JwtConfig,
    claims: JsonTree,
    groups: Seq<Seq<char>>,
)
    requires
        named_groups(claims, config.groups_claim@) == Some(groups),
    ensures
        ({
            let writes = config.write_group matches Some(g) && groups.contains(g@);
            let reads = config.read_group matches Some(g) && groups.contains(g@);
            let p = config.principal(claims, None);
            &&& p is Some <==> writes || reads
            &&& p matches Some(who) ==> {
                &&& who.groups == groups
                &&& who.role == if writes {
                    Role::ReadWrite
                } else {
                    Role::ReadOnly
                }
                &&& claims.field("sub"@) matches Some(JsonTree::Text(name)) ==> who.subject == name
                &&& !(claims.field("sub"@) matches Some(JsonTree::Text(_))) ==> who.subject
                    == "unknown"@
            }
        }),
{
}

/// The texts of a list claim are groups, whatever else the list holds; a text
/// claim is one group; and any other claim names none.
pub proof fn law_claims_name_groups(claim: JsonTree, group: Seq<char>)
    ensures
        claim matches JsonTree::Array(items) ==> (claim_groups(claim) matches Some(groups)
            && groups.len() <= items.len() && (groups.contains(group) <==> items.contains(
            JsonTree::Text(group),
        ))),
        claim matches JsonTree::Text(s) ==> (claim_groups(claim) matches Some(groups)
            && groups.len() == 1 && (groups.contains(group) <==> group == s)),
        !(claim is Array) && !(claim is Text) ==> claim_groups(claim) is None,
{
    match claim {
        JsonTree::Array(items) => {
            lemma_only_texts(items, group);
        },
        JsonTree::Text(s) => {
            assert(seq![s][0] == s);
        },
        _ => {},
    }
}

proof fn lemma_only_texts(items: Seq<JsonTree>, group: Seq<char>)
    ensures
        only_texts(items).len() <= items.len(),
        only_texts(items).contains(group) <==> items.contains(JsonTree::Text(group)),
    decreases items.len(),
{
    if items.len() > 0 {
        let rest = items.drop_last();
        let found = only_texts(rest);
        lemma_only_texts(rest, group);
        assert(items =~= rest.push(items.last()));
        if rest.contains(JsonTree::Text(group)) {
            let i = choose|i: int| 0 <= i < rest.len() && rest[i] == JsonTree::Text(group);
            assert(items[i] == JsonTree::Text(group));
            let j = choose|j: int| 0 <= j < found.len() && found[j] == group;
            assert(only_texts(items)[j] == group);
        }
        if items.last() == JsonTree::Text(group) {
            assert(items[items.len() - 1] == JsonTree::Text(group));
            assert(only_texts(items)[found.len() as int] == group);
        }
        if items.contains(JsonTree::Text(group)) && items.last() != JsonTree::Text(group) {
            let i = choose|i: int| 0 <= i < items.len() && items[i] == JsonTree::Text(group);
            assert(rest[i] == JsonTree::Text(group));
        }
        if only_texts(items).contains(group) {
            let j = choose|j: int| 0 <= j < only_texts(items).len() && only_texts(items)[j] == group;
            if j < found.len() {
                assert(found[j] == group);
            } else {
                assert(items.last() == JsonTree::Text(group));
            }
        }
    }
}

/// Tokens are accepted by RSA and elliptic-curve signatures, and by no other:
/// never by a shared secret.
pub proof fn law_accepted_algorithms(alg: TokenAlg)
    ensures
        alg.accepted_spec() <==> !(alg is Hs256 || alg is Hs384 || alg is Hs512 || alg is Ps256
            || alg is Ps384 || alg is Ps512 || alg is EdDsa),
{
}

/// A token is checked by its own algorithm with half a minute of skew, and its
/// issuer and its audience are checked exactly where they are configured.
pub proof fn law_rules_follow_the_configuration(v: JwtModel, alg: TokenAlg)
    ensures
        v.rules(alg).alg == alg,
        v.rules(alg).leeway == 30,
        match v.config.issuer {
            Some(issuer) => v.rules(alg).issuer == Some(issuer@),
            None => v.rules(alg).issuer is None,
        },
        match v.config.audience {
            Some(audience) => v.rules(alg).check_audience && v.rules(alg).audience == Some(
                audience@,
            ),
            None => !v.rules(alg).check_audience && v.rules(alg).audience is None,
        },
{
}

/// The key that is added last under a name is the one of that name, and every
/// other name keeps its key.
pub proof fn law_last_key_counts(keys: KeySeq, kid: Seq<char>, key: DecodingKey, other: Seq<char>)
    ensures
        key_at(with_key(keys, kid, key), kid) matches Some(i) && 0 <= i < with_key(
            keys,
            kid,
            key,
        ).len() && with_key(keys, kid, key)[i] == (kid, key),
        other != kid ==> key_at(with_key(keys, kid, key), other) == key_at(keys, other),
        other != kid && key_at(keys, other) is Some ==> with_key(keys, kid, key)[key_at(
            keys,
            other,
        )->Some_0] == keys[key_at(keys, other)->Some_0],
{
    let after = with_key(keys, kid, key);
    lemma_key_at(keys, kid);
    lemma_key_at(keys, other);
    match key_at(keys, kid) {
        Some(i) => {
            lemma_key_at_update(keys, i, kid, key, kid);
            lemma_key_at_update(keys, i, kid, key, other);
        },
        None => {
            assert(after.drop_last() =~= keys);
        },
    }
}

proof fn lemma_key_at(keys: KeySeq, kid: Seq<char>)
    ensures
        key_at(keys, kid) matches Some(i) ==> 0 <= i < keys.len() && keys[i].0 == kid,
    decreases keys.len(),
{
    if keys.len() > 0 && keys.last().0 != kid {
        lemma_key_at(keys.drop_last(), kid);
    }
}

proof fn lemma_key_at_update(
    keys: KeySeq,
    i: int,
    kid: Seq<char>,
    key: DecodingKey,
    name: Seq<char>,
)
    requires
        0 <= i < keys.len(),
        keys[i].0 == kid,
    ensures
        key_at(keys.update(i, (kid, key)), name) == key_at(keys, name),
    decreases keys.len(),
{
    let after = keys.update(i, (kid, key));
    if i < keys.len() - 1 {
        lemma_key_at_update(keys.drop_last(), i, kid, key, name);
        assert(after.drop_last() =~= keys.drop_last().update(i, (kid, key)));
    } else {
        assert(after.drop_last() =~= keys.drop_last());
    }
}

/// A usable key that is listed is known by its name, or by the empty one, unless
/// a later one takes that name; a key that cannot be used is not known.
pub proof fn law_listed_keys_are_known(listed: Seq<Jwk>, at: int, name: Seq<char>)
    requires
        -1 <= at < listed.len(),
        0 <= at ==> jwk_key(listed[at]) is Some && known_name(listed[at]) == name,
        forall|j: int|
            at < j < listed.len() && jwk_key(#[trigger] listed[j]) is Some ==> known_name(listed[j])
                != name,
    ensures
        at == -1 ==> key_at(usable_keys(listed), name) is None,
        0 <= at ==> (key_at(usable_keys(listed), name) matches Some(i) && 0 <= i < usable_keys(
            listed,
        ).len() && usable_keys(listed)[i] == (name, jwk_key(listed[at])->Some_0)),
    decreases listed.len(),
{
    if listed.len() > 0 {
        let rest = listed.drop_last();
        let last = listed.last();
        if at < listed.len() - 1 {
            assert(listed[listed.len() - 1] == last);
            assert forall|j: int|
                at < j < rest.len() && jwk_key(#[trigger] rest[j]) is Some implies known_name(
                rest[j],
            ) != name by {
                assert(rest[j] == listed[j]);
            }
            if 0 <= at {
                assert(rest[at] == listed[at]);
            }
            law_listed_keys_are_known(rest, at, name);
            if let Some(key) = jwk_key(last) {
                let keys = usable_keys(rest);
                assert(known_name(last) != name);
                lemma_key_at(keys, name);
                lemma_key_at(keys, known_name(last));
                law_last_key_counts(keys, known_name(last), key, name);
                assert(usable_keys(listed) == with_key(keys, known_name(last), key));
                assert(with_key(keys, known_name(last), key).len() >= keys.len());
            }
        } else {
            law_last_key_counts(
                usable_keys(rest),
                known_name(last),
                jwk_key(last)->Some_0,
                name,
            );
        }
    }
}

/// The name that a listed key is known by.
pub open spec fn known_name(jwk: Jwk) -> Seq<char> {
    match jwk_kid(jwk) {
        Some(kid) => kid,
        None => Seq::empty(),
    }
}

/// The key that a token names is tried first, and every key is tried.
pub proof fn law_every_key_is_tried(keys: KeySeq, kid: Option<Seq<char>>, i: int)
    requires
        0 <= i < keys.len(),
    ensures
        attempt_order(keys, kid).contains(i),
        kid matches Some(name) ==> (key_at(keys, name) matches Some(at) ==> attempt_order(
            keys,
            kid,
        )[0] == at),
{
    let j = lemma_every_key_is_tried(keys, kid, i);
    assert(attempt_order(keys, kid)[j] == i);
}

/// Without a configured group among its groups a token stands for nobody, and
/// the write group wins over the read group.
pub proof fn law_groups_decide(
    config: JwtConfig,
    claims: JsonTree,
    namespace: Option<Seq<char>>,
)
    ensures
        config.principal(claims, namespace) matches Some(p) ==> {
            &&& named_groups(claims, config.groups_claim@) == Some(p.groups)
            &&& p.role is ReadWrite <==> (config.write_group matches Some(g) && p.groups.contains(
                g@,
            ))
            &&& p.role is ReadOnly ==> (config.read_group matches Some(g) && p.groups.contains(
                g@,
            ))
        },
        config.write_group is None && config.read_group is None ==> config.principal(
            claims,
            namespace,
        ) is None,
{
}

} // verus!
