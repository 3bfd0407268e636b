use base64::engine::general_purpose::URL_SAFE_NO_PAD;
use base64::Engine;
use jsonwebtoken::{encode, Algorithm, DecodingKey, EncodingKey, Header};
use namidb_server::auth::{AuthConfig, AuthToken, Principal, Role};
use namidb_server::json::{parse, Json};
use namidb_server::jwt::{
    extract_group_strings, first_holder, principal_from_claims, JwtConfig, JwtValidator,
};

/// A throwaway RSA-2048 key pair, made anew for every token. Its primes follow a
/// plain pattern, so it keeps nothing secret and is fit for these tests alone:
/// one is 2^1024 - 384237, the other a third of twice that plus one.
struct TestKey {
    /// The modulus, big-endian.
    modulus: Vec<u8>,
    /// The whole pair, as PKCS#1 writes it.
    pair: Vec<u8>,
}

const EXPONENT: u64 = 65537;
const EXPONENT_BYTES: [u8; 3] = [1, 0, 1];

/// `m * k + 1`, all big-endian.
fn scaled_plus_one(m: &[u8], k: u64) -> Vec<u8> {
    let mut out = vec![0; m.len() + 4];
    let mut carry: u64 = 1;
    for i in (0..out.len()).rev() {
        let digit = if i >= 4 { u64::from(m[i - 4]) } else { 0 };
        carry += digit * k;
        out[i] = (carry % 256) as u8;
        carry /= 256;
    }
    out
}

/// `m / by` and what remains.
fn divided(m: &[u8], by: u64) -> (Vec<u8>, u64) {
    let mut rest: u64 = 0;
    let mut out = Vec::new();
    for digit in m {
        rest = rest * 256 + u64::from(*digit);
        out.push((rest / by) as u8);
        rest %= by;
    }
    (out, rest)
}

fn product(a: &[u8], b: &[u8]) -> Vec<u8> {
    let mut out = vec![0; a.len() + b.len()];
    for i in (0..a.len()).rev() {
        let mut carry: u64 = 0;
        for j in (0..b.len()).rev() {
            carry += u64::from(out[i + j + 1]) + u64::from(a[i]) * u64::from(b[j]);
            out[i + j + 1] = (carry % 256) as u8;
            carry /= 256;
        }
        out[i] = carry as u8;
    }
    out
}

/// `m` without its leading zeros.
fn trimmed(m: Vec<u8>) -> Vec<u8> {
    m.into_iter().skip_while(|digit| *digit == 0).collect()
}

/// An odd `m`, less one.
fn less_one(m: &[u8]) -> Vec<u8> {
    let mut out = m.to_vec();
    let last = out.len() - 1;
    out[last] -= 1;
    out
}

/// What undoes the public exponent modulo `m`.
fn undoing_exponent(m: &[u8]) -> Vec<u8> {
    let rest = divided(m, EXPONENT).1;
    let k = (1..EXPONENT)
        .find(|k| (k * rest + 1) % EXPONENT == 0)
        .unwrap();
    trimmed(divided(&scaled_plus_one(m, k), EXPONENT).0)
}

/// A DER element.
fn element(tag: u8, content: &[u8]) -> Vec<u8> {
    let size = (content.len() as u16).to_be_bytes();
    let mut out = vec![tag];
    match content.len() {
        0..=127 => out.push(size[1]),
        128..=255 => out.extend_from_slice(&[0x81, size[1]]),
        _ => out.extend_from_slice(&[0x82, size[0], size[1]]),
    }
    out.extend_from_slice(content);
    out
}

/// A DER integer that is not negative.
fn integer(m: &[u8]) -> Vec<u8> {
    let mut content = m.to_vec();
    if content[0] >= 0x80 {
        content.insert(0, 0);
    }
    element(2, &content)
}

fn test_key() -> TestKey {
    let mut p = vec![0xff; 124];
    p.extend_from_slice(&(u32::MAX - 384_237 + 1).to_be_bytes());
    let q = trimmed(divided(&scaled_plus_one(&p, 2), 3).0);
    let modulus = product(&p, &q);
    let (p_less, q_less) = (less_one(&p), less_one(&q));
    let content: Vec<u8> = vec![
        integer(&[0]),
        integer(&modulus),
        integer(&EXPONENT_BYTES),
        integer(&undoing_exponent(&product(&p_less, &q_less))),
        integer(&p),
        integer(&q),
        integer(&undoing_exponent(&p_less)),
        integer(&undoing_exponent(&q_less)),
        // Three times the second prime is one more than twice the first.
        integer(&[3]),
    ]
    .concat();
    TestKey {
        modulus,
        pair: element(0x30, &content),
    }
}

fn now_plus(secs: u64) -> u64 {
    std::time::SystemTime::now()
        .duration_since(std::time::UNIX_EPOCH)
        .unwrap()
        .as_secs()
        + secs
}

fn quoted_list(items: &[&str]) -> String {
    let inner: Vec<String> = items.iter().map(|s| format!("\"{}\"", s)).collect();
    format!("[{}]", inner.join(","))
}

fn mint_with(claims: &str, kid: &str) -> String {
    let key = EncodingKey::from_rsa_der(&test_key().pair);
    let value: serde_json::Value = serde_json::from_str(claims).unwrap();
    let mut header = Header::new(Algorithm::RS256);
    header.kid = Some(kid.to_string());
    encode(&header, &value, &key).unwrap()
}

fn mint(groups: &[&str]) -> String {
    let claims = format!(
        "{{\"exp\":{},\"iss\":\"test-iss\",\"aud\":\"test-aud\",\"sub\":\"alice\",\"groups\":{}}}",
        now_plus(3600),
        quoted_list(groups)
    );
    mint_with(&claims, "test-key")
}

fn config(
    write_group: Option<&str>,
    read_group: Option<&str>,
    issuer: Option<&str>,
    audience: Option<&str>,
) -> JwtConfig {
    JwtConfig {
        jwks_url: String::new(),
        issuer: issuer.map(String::from),
        audience: audience.map(String::from),
        groups_claim: "groups".to_string(),
        write_group: write_group.map(String::from),
        read_group: read_group.map(String::from),
        namespaces_claim: None,
    }
}

fn validator(
    write_group: Option<&str>,
    read_group: Option<&str>,
    issuer: Option<&str>,
    audience: Option<&str>,
) -> JwtValidator {
    let dk = DecodingKey::from_rsa_raw_components(&test_key().modulus, &EXPONENT_BYTES);
    JwtValidator::with_keys(
        config(write_group, read_group, issuer, audience),
        vec![("test-key".to_string(), dk)],
    )
}

#[test]
fn write_group_token_is_read_write() {
    let v = validator(Some("admins"), Some("readers"), None, None);
    assert_eq!(v.validate(&mint(&["admins"])), Some(Role::ReadWrite));
}

#[test]
fn read_group_token_is_read_only() {
    let v = validator(Some("admins"), Some("readers"), None, None);
    assert_eq!(v.validate(&mint(&["readers"])), Some(Role::ReadOnly));
}

#[test]
fn write_group_wins_over_read_group() {
    let v = validator(Some("admins"), Some("readers"), None, None);
    assert_eq!(v.validate(&mint(&["readers", "admins"])), Some(Role::ReadWrite));
}

#[test]
fn no_matching_group_is_denied() {
    let v = validator(Some("admins"), Some("readers"), None, None);
    assert_eq!(v.validate(&mint(&["other"])), None);
}

#[test]
fn wrong_issuer_is_denied() {
    let v = validator(Some("admins"), None, Some("expected-iss"), None);
    assert_eq!(v.validate(&mint(&["admins"])), None);
}

#[test]
fn wrong_audience_is_denied() {
    let v = validator(Some("admins"), None, None, Some("expected-aud"));
    assert_eq!(v.validate(&mint(&["admins"])), None);
}

#[test]
fn expected_issuer_and_audience_pass() {
    let v = validator(Some("admins"), None, Some("test-iss"), Some("test-aud"));
    assert_eq!(v.validate(&mint(&["admins"])), Some(Role::ReadWrite));
}

#[test]
fn tampered_signature_is_denied() {
    let v = validator(Some("admins"), None, None, None);
    let mut tok = mint(&["admins"]);
    if let Some(last) = tok.pop() {
        tok.push(if last == 'A' { 'B' } else { 'A' });
    }
    assert_eq!(v.validate(&tok), None);
}

#[test]
fn garbage_is_denied() {
    let v = validator(Some("admins"), None, None, None);
    assert_eq!(v.validate("not.a.jwt"), None);
    assert_eq!(v.validate(""), None);
}

#[test]
fn symmetric_algorithms_are_refused() {
    let claims = format!("{{\"exp\":{},\"groups\":[\"admins\"]}}", now_plus(3600));
    let value: serde_json::Value = serde_json::from_str(&claims).unwrap();
    let mut header = Header::new(Algorithm::HS256);
    header.kid = Some("test-key".to_string());
    let key = EncodingKey::from_secret(&test_key().modulus);
    let token = encode(&header, &value, &key).unwrap();
    let v = validator(Some("admins"), None, None, None);
    assert_eq!(v.validate(&token), None);
}

#[test]
fn expired_token_is_denied() {
    let v = validator(Some("admins"), None, None, None);
    let claims = "{\"exp\":1000,\"iss\":\"i\",\"aud\":\"a\",\"groups\":[\"admins\"]}";
    assert_eq!(v.validate(&mint_with(claims, "test-key")), None);
}

#[test]
fn an_unknown_key_id_falls_back_to_every_key() {
    let v = validator(Some("admins"), None, None, None);
    let claims = format!("{{\"exp\":{},\"groups\":[\"admins\"]}}", now_plus(3600));
    assert_eq!(
        v.validate(&mint_with(&claims, "other-key")),
        Some(Role::ReadWrite)
    );
    let none = JwtValidator::with_keys(config(Some("admins"), None, None, None), vec![]);
    assert_eq!(none.validate(&mint_with(&claims, "test-key")), None);
}

#[test]
fn the_named_key_is_tried_before_every_key() {
    let key = || DecodingKey::from_rsa_raw_components(&test_key().modulus, &EXPONENT_BYTES);
    let v = JwtValidator::with_keys(
        config(Some("admins"), None, None, None),
        vec![("a".to_string(), key()), ("b".to_string(), key())],
    );
    assert_eq!(v.keys_to_try(Some("b")), vec![1, 0, 1]);
    assert_eq!(v.keys_to_try(Some("c")), vec![0, 1]);
    assert_eq!(v.keys_to_try(None), vec![0, 1]);
}

#[test]
fn the_first_attempt_that_finds_someone_decides() {
    let someone = |subject: &str| {
        Some(Principal {
            subject: subject.to_string(),
            role: Role::ReadOnly,
            groups: vec![],
        })
    };
    assert_eq!(first_holder(&vec![]), None);
    assert_eq!(first_holder(&vec![None, None]), None);
    assert_eq!(
        first_holder(&vec![None, someone("alice"), someone("bob")]),
        someone("alice")
    );
}

#[test]
fn a_token_is_found_by_a_later_key() {
    let mut other = test_key().modulus;
    let last = other.len() - 1;
    other[last] ^= 2;
    let key = |modulus: &[u8]| DecodingKey::from_rsa_raw_components(modulus, &EXPONENT_BYTES);
    let v = JwtValidator::with_keys(
        config(Some("admins"), None, None, None),
        vec![
            ("test-key".to_string(), key(&other)),
            ("rotated".to_string(), key(&test_key().modulus)),
        ],
    );
    assert_eq!(v.validate(&mint(&["admins"])), Some(Role::ReadWrite));
    assert_eq!(v.validate(&mint(&["other"])), None);
}

#[test]
fn principal_carries_subject_and_groups() {
    let v = validator(Some("admins"), None, None, None);
    let p = v.validate_principal(&mint(&["eng", "admins"])).unwrap();
    assert_eq!(p.subject, "alice");
    assert_eq!(p.groups, vec!["eng".to_string(), "admins".to_string()]);
    assert!(p.allows_write());
}

#[test]
fn extract_group_strings_shapes() {
    assert_eq!(
        extract_group_strings(&parse("[\"a\", \"b\"]").unwrap()),
        Some(vec!["a".to_string(), "b".to_string()])
    );
    assert_eq!(
        extract_group_strings(&Json::text("solo")),
        Some(vec!["solo".to_string()])
    );
    assert_eq!(extract_group_strings(&Json::number(42)), None);
}

#[test]
fn namespaces_claim_scopes_a_token() {
    let mut c = config(Some("admins"), None, None, None);
    c.namespaces_claim = Some("ns".to_string());
    let claims = parse("{\"sub\":\"bob\",\"groups\":[\"admins\"],\"ns\":[\"acme\"]}").unwrap();
    assert!(principal_from_claims(&c, &claims, Some("acme")).is_some());
    assert!(principal_from_claims(&c, &claims, Some("beta")).is_none());
    assert!(principal_from_claims(&c, &claims, None).is_some());
}

#[test]
fn web_token_comes_before_the_static_tokens() {
    let auth = AuthConfig::from_tokens(vec![AuthToken {
        name: "static".to_string(),
        secret: "k".to_string(),
        role: Role::ReadOnly,
        namespaces: None,
    }])
    .with_jwt(validator(Some("admins"), None, None, None));
    assert!(auth.jwt_active());
    assert!(!auth.is_open());
    assert_eq!(auth.role_for(&mint(&["admins"])), Some(Role::ReadWrite));
    assert_eq!(auth.role_for("k"), Some(Role::ReadOnly));
    assert_eq!(auth.role_for("other"), None);
}

/// The public half of the key, as an entry of a key set.
fn key_entry(kid: &str) -> String {
    format!(
        "{{\"kty\":\"RSA\",\"alg\":\"RS256\",\"use\":\"sig\",\"kid\":\"{}\",\"n\":\"{}\",\"e\":\"AQAB\"}}",
        kid,
        URL_SAFE_NO_PAD.encode(test_key().modulus)
    )
}

fn error_of(r: Result<JwtValidator, String>) -> String {
    match r {
        Ok(_) => panic!("a refusal"),
        Err(e) => e,
    }
}

#[test]
fn keys_of_a_document_check_tokens() {
    let body = format!("{{\"keys\":[{}]}}", key_entry("test-key"));
    let v = JwtValidator::new(config(Some("admins"), None, None, None), &body).unwrap();
    assert_eq!(v.validate(&mint(&["admins"])), Some(Role::ReadWrite));
    assert_eq!(v.validate(&mint(&["readers"])), None);
}

#[test]
fn key_set_without_usable_keys_is_refused() {
    let mut c = config(Some("admins"), None, None, None);
    c.jwks_url = "http://idp/keys".to_string();
    let unusable = "JWKS at http://idp/keys parsed but yielded no usable signing keys";
    let no_set = "JWKS at http://idp/keys is not a key set";
    let error = |body: &str| error_of(JwtValidator::new(c.clone(), body));
    assert_eq!(error("{\"keys\":[]}"), unusable);
    assert_eq!(error("{}"), unusable);
    assert_eq!(error("[]"), unusable);
    assert_eq!(error("not json"), no_set);
    assert_eq!(error("{\"keys\":7}"), no_set);
    assert_eq!(error("{\"keys\":[{\"kty\":\"unheard of\"}]}"), no_set);
    let twice = format!("{{\"keys\":[{}],\"keys\":[]}}", key_entry("a"));
    assert_eq!(error(&twice), no_set);
}

#[test]
fn a_refused_refresh_keeps_the_last_good_keys() {
    let mut v = validator(Some("admins"), None, None, None);
    assert!(v.refresh("{\"keys\":[]}").is_err());
    assert_eq!(v.validate(&mint(&["admins"])), Some(Role::ReadWrite));
    let body = format!("{{\"keys\":[{}]}}", key_entry("rotated"));
    assert!(v.refresh(&body).is_ok());
    assert_eq!(v.validate(&mint(&["admins"])), Some(Role::ReadWrite));
}
