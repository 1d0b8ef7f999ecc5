//! Authentication of requests to the administration interface.

use crate::addr::IpAddress;
use crate::admin_api::{action_permission, AdminRequestAction};
use crate::admin_policy::{
    admin_permission_name, permission_name, AdminPermission, CompiledAdminAuthPolicy,
    CompiledAdminPolicy, PermissionSet,
};
use crate::digest::{request_body_digest, sha256, sha256_digest, sha256_hex};
use crate::named_map::{ordered_names, NamedMap};
use crate::secrets::{resolve_secret_material, secret_material, SecretReadings};
use crate::text::{
    blank, decimal, decimal_text, hex_bytes, is_blank, lowered, parse_unsigned, str_eq, text,
    to_lower, unsigned,
};
use vstd::prelude::*;
use vstd::string::*;
use vstd::utf8::{encode_utf8, encode_utf8_decode_utf8};

verus! {

/// A header field of a request.
#[derive(Debug)]
pub struct HeaderField {
    pub name: String,
    pub value: String,
}

/// What is read of a request before its body.
#[derive(Debug)]
pub struct RequestHead {
    pub method: String,
    pub target: String,
    /// The token of an `Authorization: Bearer` header.
    pub authorization_bearer: Option<String>,
    pub headers: Vec<HeaderField>,
}

/// The value of the first header field with a name, in any case.
pub open spec fn header_named(headers: Seq<HeaderField>, name: Seq<char>) -> Option<Seq<char>>
    decreases headers.len(),
{
    if headers.len() == 0 {
        None
    } else if lowered(headers[0].name@) == lowered(name) {
        Some(headers[0].value@)
    } else {
        header_named(headers.drop_first(), name)
    }
}

impl RequestHead {
    /// The value of the first header field with a name, in any case.
    pub fn header_value(&self, name: &str) -> (r: Option<&str>)
        ensures
            match header_named(self.headers@, name@) {
                Some(value) => r matches Some(v) && v@ == value,
                None => r is None,
            },
    {
        let wanted = to_lower(name);
        let mut i: usize = 0;
        proof {
            assert(self.headers@.skip(0) =~= self.headers@);
        }
        while i < self.headers.len()
            invariant
                i <= self.headers@.len(),
                wanted@ == lowered(name@),
                header_named(self.headers@, name@) == header_named(
                    self.headers@.skip(i as int),
                    name@,
                ),
            decreases self.headers@.len() - i,
        {
            let found = to_lower(self.headers[i].name.as_str());
            if str_eq(found.as_str(), wanted.as_str()) {
                return Some(self.headers[i].value.as_str());
            }
            proof {
                assert(self.headers@.skip(i as int).drop_first() =~= self.headers@.skip(i + 1));
            }
            i = i + 1;
        }
        None
    }
}

/// Compares bytes in a time that depends on their number alone.
pub fn constant_time_eq(a: &[u8], b: &[u8]) -> (r: bool)
    ensures
        r == (a@ == b@),
{
    if a.len() != b.len() {
        return false;
    }
    let mut difference: u8 = 0;
    let mut i: usize = 0;
    while i < a.len()
        invariant
            a@.len() == b@.len(),
            i <= a@.len(),
            difference == 0 <==> forall|j: int| 0 <= j < i ==> a@[j] == b@[j],
        decreases a@.len() - i,
    {
        let x: u8 = a[i];
        let y: u8 = b[i];
        let before: u8 = difference;
        difference = before | (x ^ y);
        proof {
            assert((before | (x ^ y)) == 0 <==> (before == 0 && x == y)) by (bit_vector);
        }
        i = i + 1;
    }
    proof {
        if difference == 0 {
            assert(a@ =~= b@);
        }
    }
    difference == 0
}

/// Who asks, and how that is known.
#[derive(Debug)]
pub struct AdminRequestContext {
    pub request_id: String,
    pub actor: String,
    pub auth_mode: String,
    pub source: IpAddress,
}

/// Who asks, and how that is known.
pub struct ContextView {
    pub request_id: Seq<char>,
    pub actor: Seq<char>,
    pub auth_mode: Seq<char>,
    pub source: IpAddress,
}

impl View for AdminRequestContext {
    type V = ContextView;

    open spec fn view(&self) -> ContextView {
        ContextView {
            request_id: self.request_id@,
            actor: self.actor@,
            auth_mode: self.auth_mode@,
            source: self.source,
        }
    }
}

/// Why a request was not admitted, and how it is answered.
#[derive(Debug)]
pub struct AdminAuthFailure {
    pub status: &'static str,
    /// Whether the answer asks for a bearer token.
    pub challenge: bool,
    pub body: &'static str,
    pub actor: String,
    pub auth_mode: &'static str,
    pub outcome: &'static str,
    pub detail: String,
}

/// Why a request was not admitted, and how it is answered.
pub struct FailureView {
    pub status: Seq<char>,
    pub challenge: bool,
    pub body: Seq<char>,
    pub actor: Seq<char>,
    pub auth_mode: Seq<char>,
    pub outcome: Seq<char>,
    pub detail: Seq<char>,
}

impl View for AdminAuthFailure {
    type V = FailureView;

    open spec fn view(&self) -> FailureView {
        FailureView {
            status: self.status@,
            challenge: self.challenge,
            body: self.body@,
            actor: self.actor@,
            auth_mode: self.auth_mode@,
            outcome: self.outcome@,
            detail: self.detail@,
        }
    }
}

/// The header that asks for a bearer token.
pub open spec fn challenge_headers(challenge: bool) -> Seq<Seq<char>> {
    if challenge {
        seq!["WWW-Authenticate: Bearer"@]
    } else {
        Seq::empty()
    }
}

impl AdminAuthFailure {
    /// The header fields of the answer.
    pub fn headers(&self) -> (r: Vec<&'static str>)
        ensures
            r@.map_values(|h: &'static str| h@) == challenge_headers(self.challenge),
    {
        let mut out: Vec<&'static str> = Vec::new();
        if self.challenge {
            out.push("WWW-Authenticate: Bearer");
        }
        proof {
            assert(out@.map_values(|h: &'static str| h@) =~= challenge_headers(self.challenge));
        }
        out
    }
}

/// The reasons for which an administration request is answered with an error.
#[derive(Debug, Clone, Copy, PartialEq, Eq, Structural)]
pub enum AdminApiErrorCode {
    Misconfigured,
    ReplayRejected,
    Forbidden,
    Unauthorized,
    RateLimited,
    UnsupportedApiVersion,
    ValidationFailed,
    UnsupportedMutation,
    ReloadFailed,
    NotFound,
}

/// The code that stands for an answer's status, and whether asking again may help.
pub open spec fn auth_error_code(status: Seq<char>) -> (AdminApiErrorCode, bool) {
    if status == "503 Service Unavailable"@ {
        (AdminApiErrorCode::Misconfigured, false)
    } else if status == "409 Conflict"@ {
        (AdminApiErrorCode::ReplayRejected, false)
    } else if status == "403 Forbidden"@ {
        (AdminApiErrorCode::Forbidden, false)
    } else {
        (AdminApiErrorCode::Unauthorized, false)
    }
}

/// The code that stands for a refusal, and whether asking again may help.
pub fn admin_auth_error_contract(error: &AdminAuthFailure) -> (r: (AdminApiErrorCode, bool))
    ensures
        r == auth_error_code(error.status@),
{
    if str_eq(error.status, "503 Service Unavailable") {
        (AdminApiErrorCode::Misconfigured, false)
    } else if str_eq(error.status, "409 Conflict") {
        (AdminApiErrorCode::ReplayRejected, false)
    } else if str_eq(error.status, "403 Forbidden") {
        (AdminApiErrorCode::Forbidden, false)
    } else {
        (AdminApiErrorCode::Unauthorized, false)
    }
}

/// The secret of an operator.
#[derive(Debug)]
pub struct ResolvedAdminSecret {
    pub value: String,
    pub actor: String,
    pub auth_mode: &'static str,
}

/// The refusal of a request whose secret cannot be found.
pub open spec fn misconfigured(actor: Seq<char>, auth_mode: Seq<char>, detail: Seq<char>) -> FailureView {
    FailureView {
        status: "503 Service Unavailable"@,
        challenge: false,
        body: "admin authorization unavailable\n"@,
        actor,
        auth_mode,
        outcome: "misconfigured"@,
        detail,
    }
}

/// Finds the secret of an operator.
pub fn resolve_admin_secret(
    secret_env: &str,
    legacy_admin_secret: &str,
    auth_mode: &'static str,
    actor: &str,
    readings: &SecretReadings,
) -> (r: Result<ResolvedAdminSecret, AdminAuthFailure>)
    ensures
        match secret_material(secret_env@, legacy_admin_secret@, *readings) {
            Ok(material) => {
                &&& r matches Ok(secret)
                &&& secret.value@ == material.value
                &&& secret.actor@ == actor@
                &&& secret.auth_mode@ == auth_mode@
            },
            Err(error) => {
                &&& r matches Err(failure)
                &&& failure@ == misconfigured(actor@, auth_mode@, error.detail)
            },
        },
{
    match resolve_secret_material(secret_env, legacy_admin_secret, readings) {
        Ok(material) => Ok(
            ResolvedAdminSecret { value: material.value, actor: text(actor), auth_mode },
        ),
        Err(error) => Err(
            AdminAuthFailure {
                status: "503 Service Unavailable",
                challenge: false,
                body: "admin authorization unavailable\n",
                actor: text(actor),
                auth_mode,
                outcome: "misconfigured",
                detail: error.detail,
            },
        ),
    }
}

/// The key of the keyed digest: a long secret is replaced by its digest, and the key is filled up
/// with zeros to the length of a block.
pub open spec fn key_block(secret: Seq<u8>) -> Seq<u8> {
    let key = if secret.len() > 64 {
        sha256(secret)
    } else {
        secret
    };
    Seq::new(
        64,
        |i: int|
            if i < key.len() {
                key[i]
            } else {
                0u8
            },
    )
}

/// A key with every byte combined with `byte`.
pub open spec fn masked(key: Seq<u8>, byte: u8) -> Seq<u8> {
    key.map_values(|k: u8| byte ^ k)
}

/// The keyed digest of bytes under a secret.
pub open spec fn keyed_digest(secret: Seq<u8>, message: Seq<u8>) -> Seq<u8> {
    let key = key_block(secret);
    sha256(masked(key, 0x5c) + sha256(masked(key, 0x36) + message))
}

/// What an operator signs: one line each for the operator, the method, the target, the time, the
/// nonce and the digest of the body.
pub open spec fn signed_payload(
    actor: Seq<char>,
    method: Seq<char>,
    target: Seq<char>,
    timestamp: u64,
    nonce: Seq<char>,
    body: Seq<u8>,
) -> Seq<char> {
    actor + "\n"@ + method + "\n"@ + target + "\n"@ + decimal(timestamp as nat) + "\n"@ + nonce
        + "\n"@ + hex_bytes(sha256(body)) + "\n"@
}

/// The signature of a request.
pub open spec fn request_signature(
    secret: Seq<char>,
    actor: Seq<char>,
    method: Seq<char>,
    target: Seq<char>,
    timestamp: u64,
    nonce: Seq<char>,
    body: Seq<u8>,
) -> Seq<char> {
    hex_bytes(
        keyed_digest(
            encode_utf8(secret),
            encode_utf8(signed_payload(actor, method, target, timestamp, nonce, body)),
        ),
    )
}

fn fill_key_block(secret: &[u8]) -> (r: Vec<u8>)
    ensures
        r@ == key_block(secret@),
{
    let long = secret.len() > 64;
    let digest = if long {
        sha256_digest(secret)
    } else {
        Vec::new()
    };
    let mut out: Vec<u8> = Vec::new();
    let mut i: usize = 0;
    while i < 64
        invariant
            i <= 64,
            long == (secret@.len() > 64),
            long ==> digest@ == sha256(secret@),
            out@ == key_block(secret@).take(i as int),
        decreases 64 - i,
    {
        let byte: u8 = if long {
            if i < digest.len() {
                digest[i]
            } else {
                0
            }
        } else if i < secret.len() {
            secret[i]
        } else {
            0
        };
        out.push(byte);
        i = i + 1;
        proof {
            assert(out@ =~= key_block(secret@).take(i as int));
        }
    }
    proof {
        assert(key_block(secret@).take(64) =~= key_block(secret@));
    }
    out
}

fn mask_key(key: &Vec<u8>, byte: u8) -> (r: Vec<u8>)
    ensures
        r@ == masked(key@, byte),
{
    let mut out: Vec<u8> = Vec::new();
    let mut i: usize = 0;
    while i < key.len()
        invariant
            i <= key@.len(),
            out@ == masked(key@.take(i as int), byte),
        decreases key@.len() - i,
    {
        out.push(byte ^ key[i]);
        i = i + 1;
        proof {
            assert(out@ =~= masked(key@.take(i as int), byte));
        }
    }
    proof {
        assert(key@.take(key@.len() as int) =~= key@);
    }
    out
}

fn append_bytes(out: &mut Vec<u8>, more: &[u8])
    ensures
        final(out)@ == old(out)@ + more@,
{
    let ghost before = out@;
    let mut i: usize = 0;
    while i < more.len()
        invariant
            i <= more@.len(),
            out@ == before + more@.take(i as int),
        decreases more@.len() - i,
    {
        out.push(more[i]);
        i = i + 1;
        proof {
            assert(out@ =~= before + more@.take(i as int));
        }
    }
    proof {
        assert(more@.take(more@.len() as int) =~= more@);
    }
}

/// Signs a request.
pub fn sign_admin_request(
    secret: &str,
    actor: &str,
    method: &str,
    target: &str,
    timestamp: u64,
    nonce: &str,
    body: &[u8],
) -> (r: String)
    ensures
        r@ == request_signature(secret@, actor@, method@, target@, timestamp, nonce@, body@),
        r@.len() == 64,
{
    let key = fill_key_block(secret.as_bytes());
    let mut payload = text(actor);
    payload.append("\n");
    payload.append(method);
    payload.append("\n");
    payload.append(target);
    payload.append("\n");
    let time = decimal_text(timestamp);
    payload.append(time.as_str());
    payload.append("\n");
    payload.append(nonce);
    payload.append("\n");
    let digest = request_body_digest(body);
    payload.append(digest.as_str());
    payload.append("\n");
    let mut inner = mask_key(&key, 0x36);
    append_bytes(&mut inner, payload.as_str().as_bytes());
    let inner_digest = sha256_digest(inner.as_slice());
    let mut outer = mask_key(&key, 0x5c);
    append_bytes(&mut outer, inner_digest.as_slice());
    sha256_hex(outer.as_slice())
}

/// The nonces that signed requests have used, each with the time at which it was seen. Times are
/// nanoseconds of a clock that does not run backwards.
#[derive(Debug)]
pub struct AdminReplayState {
    pub nonces: NamedMap<u128>,
}

/// Whether a nonce that was seen at `seen_at` is still remembered at `now`.
pub open spec fn remembered(seen_at: u128, now: u128, ttl_secs: u64) -> bool {
    now - seen_at <= ttl_secs * 1_000_000_000
}

/// The nonces that are still remembered at `now`.
pub open spec fn remembered_nonces(
    nonces: Map<Seq<char>, u128>,
    now: u128,
    ttl_secs: u64,
) -> Map<Seq<char>, u128> {
    nonces.restrict(
        Set::new(|k: Seq<char>| nonces.contains_key(k) && remembered(nonces[k], now, ttl_secs)),
    )
}

impl AdminReplayState {
    /// No nonce has been used.
    pub fn new() -> (r: Self)
        ensures
            r.nonces@ == Map::<Seq<char>, u128>::empty(),
    {
        AdminReplayState { nonces: NamedMap::new() }
    }

    /// Forgets the nonces that are too old.
    pub fn forget_old(&mut self, now: u128, ttl_secs: u64)
        ensures
            final(self).nonces@ == remembered_nonces(old(self).nonces@, now, ttl_secs),
    {
        let ghost before = self.nonces@;
        let mut kept: NamedMap<u128> = NamedMap::new();
        let ttl: u128 = ttl_secs as u128 * 1_000_000_000;
        let total: usize = self.nonces.len();
        let mut i: usize = 0;
        let ghost names = self.nonces.names();
        while i < total
            invariant
                self.nonces@ == before,
                self.nonces.names() == names,
                ordered_names(before, names),
                total == names.len(),
                i <= total,
                ttl == ttl_secs * 1_000_000_000,
                forall|k: Seq<char>| #[trigger]
                    kept@.contains_key(k) <==> names.take(i as int).contains(k) && remembered(
                        before[k],
                        now,
                        ttl_secs,
                    ),
                forall|k: Seq<char>| #[trigger] kept@.contains_key(k) ==> kept@[k] == before[k],
            decreases total - i,
        {
            let name = self.nonces.name_at(i).clone();
            let seen_at: u128 = *self.nonces.value_at(i);
            proof {
                let t = names.take(i + 1);
                assert(t =~= names.take(i as int).push(names[i as int]));
                assert forall|k: Seq<char>| t.contains(k) <==> (names.take(i as int).contains(k)
                    || k == names[i as int]) by {
                    if names.take(i as int).contains(k) {
                        let j = choose|j: int|
                            0 <= j < names.take(i as int).len() && names.take(i as int)[j] == k;
                        assert(t[j] == k);
                    }
                    if k == names[i as int] {
                        assert(t[i as int] == k);
                    }
                }
            }
            if now < seen_at || now - seen_at <= ttl {
                kept.insert(name, seen_at);
            }
            i = i + 1;
        }
        proof {
            assert(names.take(names.len() as int) =~= names);
            assert(kept@ =~= remembered_nonces(before, now, ttl_secs));
        }
        self.nonces = kept;
    }
}

/// A refusal of the signed-header mode.
pub open spec fn signed_refusal(
    status: Seq<char>,
    body: Seq<char>,
    actor: Seq<char>,
    outcome: Seq<char>,
    detail: Seq<char>,
) -> FailureView {
    FailureView {
        status,
        challenge: false,
        body,
        actor,
        auth_mode: "signed_headers"@,
        outcome,
        detail,
    }
}

/// A refusal because a signed request lacks something or does not fit.
pub open spec fn signed_required(actor: Seq<char>, detail: Seq<char>) -> FailureView {
    signed_refusal(
        "401 Unauthorized"@,
        "signed admin authorization required\n"@,
        actor,
        "unauthenticated"@,
        detail,
    )
}

/// A refusal of the bearer mode for want of the right token.
pub open spec fn bearer_required(actor: Seq<char>, detail: Seq<char>) -> FailureView {
    FailureView {
        status: "401 Unauthorized"@,
        challenge: true,
        body: "admin authorization required\n"@,
        actor,
        auth_mode: "bearer"@,
        outcome: "unauthenticated"@,
        detail,
    }
}

fn refuse_signed(actor: &str, detail: &str) -> (r: AdminAuthFailure)
    ensures
        r@ == signed_required(actor@, detail@),
{
    AdminAuthFailure {
        status: "401 Unauthorized",
        challenge: false,
        body: "signed admin authorization required\n",
        actor: text(actor),
        auth_mode: "signed_headers",
        outcome: "unauthenticated",
        detail: text(detail),
    }
}

fn refuse_bearer(actor: &str, detail: &str) -> (r: AdminAuthFailure)
    ensures
        r@ == bearer_required(actor@, detail@),
{
    AdminAuthFailure {
        status: "401 Unauthorized",
        challenge: true,
        body: "admin authorization required\n",
        actor: text(actor),
        auth_mode: "bearer",
        outcome: "unauthenticated",
        detail: text(detail),
    }
}

/// A request with what is needed to judge it.
pub struct AuthInput {
    pub head: RequestHead,
    pub body: Seq<u8>,
    pub permission: AdminPermission,
    pub source: IpAddress,
    pub legacy_secret: Seq<char>,
    pub request_id: Seq<char>,
    pub readings: SecretReadings,
    pub now_secs: u64,
}

/// How a bearer request is judged.
pub open spec fn judge_bearer(
    input: AuthInput,
    secret_env: Seq<char>,
    permissions: PermissionSet,
) -> Result<ContextView, FailureView> {
    match input.head.authorization_bearer {
        None => Err(bearer_required("anonymous"@, "missing bearer token"@)),
        Some(token) => match secret_material(secret_env, input.legacy_secret, input.readings) {
            Err(error) => Err(misconfigured("shared-bearer"@, "bearer"@, error.detail)),
            Ok(material) => if token@ != material.value {
                Err(bearer_required("shared-bearer"@, "bearer token mismatch"@))
            } else if !permissions.has(input.permission) {
                Err(
                    FailureView {
                        status: "403 Forbidden"@,
                        challenge: false,
                        body: "admin action not permitted\n"@,
                        actor: "shared-bearer"@,
                        auth_mode: "bearer"@,
                        outcome: "forbidden"@,
                        detail: "shared bearer lacks "@ + permission_name(input.permission)
                            + " permission"@,
                    },
                )
            } else {
                Ok(
                    ContextView {
                        request_id: input.request_id,
                        actor: "shared-bearer"@,
                        auth_mode: "bearer"@,
                        source: input.source,
                    },
                )
            },
        },
    }
}

/// A header field of a request that is there and not blank.
pub open spec fn filled_header(head: RequestHead, name: Seq<char>) -> Option<Seq<char>> {
    match header_named(head.headers@, name) {
        Some(value) => if is_blank(value) {
            None
        } else {
            Some(value)
        },
        None => None,
    }
}

/// How far two times lie apart.
pub open spec fn apart(a: u64, b: u64) -> int {
    if a >= b {
        a - b
    } else {
        b - a
    }
}

/// How the signature of a request by a known operator is judged.
pub open spec fn judge_signature(
    input: AuthInput,
    actor: Seq<char>,
    secret_env: Seq<char>,
    max_clock_skew_secs: u64,
) -> Result<Seq<char>, FailureView> {
    match header_named(input.head.headers@, "x-lb-admin-timestamp"@) {
        None => Err(signed_required(actor, "missing x-lb-admin-timestamp header"@)),
        Some(stamp) => match unsigned(stamp, 10, u64::MAX as nat) {
            None => Err(signed_required(actor, "invalid x-lb-admin-timestamp header"@)),
            Some(timestamp) => if apart(input.now_secs, timestamp as u64) > max_clock_skew_secs {
                Err(
                    signed_refusal(
                        "401 Unauthorized"@,
                        "signed admin timestamp rejected\n"@,
                        actor,
                        "rejected"@,
                        "signed admin timestamp exceeded clock skew allowance"@,
                    ),
                )
            } else {
                match filled_header(input.head, "x-lb-admin-nonce"@) {
                    None => Err(signed_required(actor, "missing x-lb-admin-nonce header"@)),
                    Some(nonce) => match filled_header(input.head, "x-lb-admin-signature"@) {
                        None => Err(signed_required(actor, "missing x-lb-admin-signature header"@)),
                        Some(signature) => match secret_material(
                            secret_env,
                            input.legacy_secret,
                            input.readings,
                        ) {
                            Err(error) => Err(
                                misconfigured(actor, "signed_headers"@, error.detail),
                            ),
                            Ok(material) => if signature != request_signature(
                                material.value,
                                actor,
                                input.head.method@,
                                input.head.target@,
                                timestamp as u64,
                                nonce,
                                input.body,
                            ) {
                                Err(signed_required(actor, "signed admin signature mismatch"@))
                            } else {
                                Ok(nonce)
                            },
                        },
                    },
                }
            },
        },
    }
}

/// How a request under a policy is judged before its nonce is looked up: the operator and the
/// nonce of a signed request, or neither for a bearer request.
pub open spec fn judge_identity(
    input: AuthInput,
    policy: CompiledAdminPolicy,
) -> Result<(ContextView, Option<Seq<char>>), FailureView> {
    match policy.auth {
        CompiledAdminAuthPolicy::Bearer { secret_env, permissions } => match judge_bearer(
            input,
            secret_env@,
            permissions,
        ) {
            Ok(context) => Ok((context, None)),
            Err(failure) => Err(failure),
        },
        CompiledAdminAuthPolicy::SignedHeaders { operators, max_clock_skew_secs, nonce_ttl_secs } => {
            match filled_header(input.head, "x-lb-admin-actor"@) {
                None => Err(signed_required("anonymous"@, "missing x-lb-admin-actor header"@)),
                Some(actor) => if !operators@.contains_key(actor) {
                    Err(signed_required(actor, "unknown admin operator"@))
                } else if !operators@[actor].permissions.has(input.permission) {
                    Err(
                        signed_refusal(
                            "403 Forbidden"@,
                            "admin action not permitted\n"@,
                            actor,
                            "forbidden"@,
                            "operator lacks "@ + permission_name(input.permission)
                                + " permission"@,
                        ),
                    )
                } else {
                    match judge_signature(
                        input,
                        actor,
                        operators@[actor].secret_env@,
                        max_clock_skew_secs,
                    ) {
                        Err(failure) => Err(failure),
                        Ok(nonce) => Ok(
                            (
                                ContextView {
                                    request_id: input.request_id,
                                    actor,
                                    auth_mode: "signed_headers"@,
                                    source: input.source,
                                },
                                Some(actor + ":"@ + nonce),
                            ),
                        ),
                    }
                },
            }
        },
    }
}

/// How long a policy remembers nonces.
pub open spec fn nonce_ttl(policy: CompiledAdminPolicy) -> u64 {
    match policy.auth {
        CompiledAdminAuthPolicy::SignedHeaders { nonce_ttl_secs, .. } => nonce_ttl_secs,
        _ => 0,
    }
}

/// How a request is judged when the given nonces are on record, and which are afterwards.
pub open spec fn judge(
    input: AuthInput,
    policy: CompiledAdminPolicy,
    nonces: Map<Seq<char>, u128>,
    now: u128,
) -> (Result<ContextView, FailureView>, Map<Seq<char>, u128>) {
    match judge_identity(input, policy) {
        Err(failure) => (Err(failure), nonces),
        Ok((context, None)) => (Ok(context), nonces),
        Ok((context, Some(key))) => {
            let recent = remembered_nonces(nonces, now, nonce_ttl(policy));
            if recent.contains_key(key) {
                (
                    Err(
                        signed_refusal(
                            "409 Conflict"@,
                            "admin command replay rejected\n"@,
                            context.actor,
                            "replay_rejected"@,
                            "signed admin nonce has already been used"@,
                        ),
                    ),
                    recent,
                )
            } else {
                (Ok(context), recent.insert(key, now))
            }
        },
    }
}

fn filled_header_value<'a>(head: &'a RequestHead, name: &str) -> (r: Option<&'a str>)
    ensures
        match filled_header(*head, name@) {
            Some(value) => r matches Some(v) && v@ == value,
            None => r is None,
        },
{
    match head.header_value(name) {
        Some(value) => {
            if blank(value) {
                None
            } else {
                Some(value)
            }
        },
        None => None,
    }
}

fn equal_texts(a: &str, b: &str) -> (r: bool)
    ensures
        r == (a@ == b@),
{
    proof {
        encode_utf8_decode_utf8(a@);
        encode_utf8_decode_utf8(b@);
    }
    constant_time_eq(a.as_bytes(), b.as_bytes())
}

fn authenticate_bearer(
    request: &RequestHead,
    permission: AdminPermission,
    source_ip: IpAddress,
    secret_env: &str,
    permissions: &PermissionSet,
    legacy_admin_secret: &str,
    request_id: &str,
    readings: &SecretReadings,
    Ghost(input): Ghost<AuthInput>,
) -> (r: Result<AdminRequestContext, AdminAuthFailure>)
    requires
        input.head == *request,
        input.permission == permission,
        input.source == source_ip,
        input.legacy_secret == legacy_admin_secret@,
        input.request_id == request_id@,
        input.readings == *readings,
    ensures
        match judge_bearer(input, secret_env@, *permissions) {
            Ok(context) => r matches Ok(c) && c@ == context,
            Err(failure) => r matches Err(f) && f@ == failure,
        },
{
    let token = match &request.authorization_bearer {
        Some(token) => token,
        None => {
            return Err(refuse_bearer("anonymous", "missing bearer token"));
        },
    };
    let expected = match resolve_admin_secret(
        secret_env,
        legacy_admin_secret,
        "bearer",
        "shared-bearer",
        readings,
    ) {
        Ok(secret) => secret,
        Err(failure) => {
            return Err(failure);
        },
    };
    if !equal_texts(token.as_str(), expected.value.as_str()) {
        return Err(refuse_bearer("shared-bearer", "bearer token mismatch"));
    }
    if !permissions.contains(permission) {
        let mut detail = text("shared bearer lacks ");
        detail.append(admin_permission_name(permission));
        detail.append(" permission");
        return Err(
            AdminAuthFailure {
                status: "403 Forbidden",
                challenge: false,
                body: "admin action not permitted\n",
                actor: text("shared-bearer"),
                auth_mode: "bearer",
                outcome: "forbidden",
                detail,
            },
        );
    }
    Ok(
        AdminRequestContext {
            request_id: text(request_id),
            actor: expected.actor,
            auth_mode: text(expected.auth_mode),
            source: source_ip,
        },
    )
}

fn check_signature(
    request: &RequestHead,
    request_body: &[u8],
    actor: &str,
    secret_env: &str,
    max_clock_skew_secs: u64,
    legacy_admin_secret: &str,
    readings: &SecretReadings,
    now_secs: u64,
    Ghost(input): Ghost<AuthInput>,
) -> (r: Result<String, AdminAuthFailure>)
    requires
        input.head == *request,
        input.body == request_body@,
        input.legacy_secret == legacy_admin_secret@,
        input.readings == *readings,
        input.now_secs == now_secs,
    ensures
        match judge_signature(input, actor@, secret_env@, max_clock_skew_secs) {
            Ok(nonce) => r matches Ok(n) && n@ == nonce,
            Err(failure) => r matches Err(f) && f@ == failure,
        },
{
    let stamp = match request.header_value("x-lb-admin-timestamp") {
        Some(stamp) => stamp,
        None => {
            return Err(refuse_signed(actor, "missing x-lb-admin-timestamp header"));
        },
    };
    let timestamp: u64 = match parse_unsigned(stamp, 10, u64::MAX) {
        Some(timestamp) => timestamp,
        None => {
            return Err(refuse_signed(actor, "invalid x-lb-admin-timestamp header"));
        },
    };
    let skew: u64 = if now_secs >= timestamp {
        now_secs - timestamp
    } else {
        timestamp - now_secs
    };
    if skew > max_clock_skew_secs {
        return Err(
            AdminAuthFailure {
                status: "401 Unauthorized",
                challenge: false,
                body: "signed admin timestamp rejected\n",
                actor: text(actor),
                auth_mode: "signed_headers",
                outcome: "rejected",
                detail: text("signed admin timestamp exceeded clock skew allowance"),
            },
        );
    }
    let nonce = match filled_header_value(request, "x-lb-admin-nonce") {
        Some(nonce) => nonce,
        None => {
            return Err(refuse_signed(actor, "missing x-lb-admin-nonce header"));
        },
    };
    let signature = match filled_header_value(request, "x-lb-admin-signature") {
        Some(signature) => signature,
        None => {
            return Err(refuse_signed(actor, "missing x-lb-admin-signature header"));
        },
    };
    let secret = match resolve_admin_secret(
        secret_env,
        legacy_admin_secret,
        "signed_headers",
        actor,
        readings,
    ) {
        Ok(secret) => secret,
        Err(failure) => {
            return Err(failure);
        },
    };
    let expected = sign_admin_request(
        secret.value.as_str(),
        actor,
        request.method.as_str(),
        request.target.as_str(),
        timestamp,
        nonce,
        request_body,
    );
    if !equal_texts(signature, expected.as_str()) {
        return Err(refuse_signed(actor, "signed admin signature mismatch"));
    }
    Ok(text(nonce))
}

/// Judges a request for an action, and takes its nonce on record if it is admitted.
/// `now_secs` is the unix time and `now` a reading of the clock that nonces are timed by.
pub fn authenticate_admin_request(
    request: &RequestHead,
    request_body: &[u8],
    action: AdminRequestAction,
    source_ip: IpAddress,
    policy: &CompiledAdminPolicy,
    replay_state: &mut AdminReplayState,
    legacy_admin_secret: &str,
    request_id: &str,
    readings: &SecretReadings,
    now_secs: u64,
    now: u128,
) -> (r: Result<AdminRequestContext, AdminAuthFailure>)
    ensures
        ({
            let input = AuthInput {
                head: *request,
                body: request_body@,
                permission: action_permission(action),
                source: source_ip,
                legacy_secret: legacy_admin_secret@,
                request_id: request_id@,
                readings: *readings,
                now_secs,
            };
            let judged = judge(input, *policy, old(replay_state).nonces@, now);
            &&& final(replay_state).nonces@ == judged.1
            &&& match judged.0 {
                Ok(context) => r matches Ok(c) && c@ == context,
                Err(failure) => r matches Err(f) && f@ == failure,
            }
        }),
{
    let permission = action.permission();
    let ghost input = AuthInput {
        head: *request,
        body: request_body@,
        permission,
        source: source_ip,
        legacy_secret: legacy_admin_secret@,
        request_id: request_id@,
        readings: *readings,
        now_secs,
    };
    match &policy.auth {
        CompiledAdminAuthPolicy::Bearer { secret_env, permissions } => {
            authenticate_bearer(
                request,
                permission,
                source_ip,
                secret_env.as_str(),
                permissions,
                legacy_admin_secret,
                request_id,
                readings,
                Ghost(input),
            )
        },
        CompiledAdminAuthPolicy::SignedHeaders { operators, max_clock_skew_secs, nonce_ttl_secs } => {
            let actor = match filled_header_value(request, "x-lb-admin-actor") {
                Some(actor) => actor,
                None => {
                    return Err(refuse_signed("anonymous", "missing x-lb-admin-actor header"));
                },
            };
            let operator = match operators.get(actor) {
                Some(operator) => operator,
                None => {
                    return Err(refuse_signed(actor, "unknown admin operator"));
                },
            };
            if !operator.permissions.contains(permission) {
                let mut detail = text("operator lacks ");
                detail.append(admin_permission_name(permission));
                detail.append(" permission");
                return Err(
                    AdminAuthFailure {
                        status: "403 Forbidden",
                        challenge: false,
                        body: "admin action not permitted\n",
                        actor: text(actor),
                        auth_mode: "signed_headers",
                        outcome: "forbidden",
                        detail,
                    },
                );
            }
            let nonce = match check_signature(
                request,
                request_body,
                actor,
                operator.secret_env.as_str(),
                *max_clock_skew_secs,
                legacy_admin_secret,
                readings,
                now_secs,
                Ghost(input),
            ) {
                Ok(nonce) => nonce,
                Err(failure) => {
                    return Err(failure);
                },
            };
            let mut nonce_key = text(actor);
            nonce_key.append(":");
            nonce_key.append(nonce.as_str());
            replay_state.forget_old(now, *nonce_ttl_secs);
            if replay_state.nonces.contains_key(nonce_key.as_str()) {
                return Err(
                    AdminAuthFailure {
                        status: "409 Conflict",
                        challenge: false,
                        body: "admin command replay rejected\n",
                        actor: text(actor),
                        auth_mode: "signed_headers",
                        outcome: "replay_rejected",
                        detail: text("signed admin nonce has already been used"),
                    },
                );
            }
            replay_state.nonces.insert(nonce_key, now);
            Ok(
                AdminRequestContext {
                    request_id: text(request_id),
                    actor: text(actor),
                    auth_mode: text("signed_headers"),
                    source: source_ip,
                },
            )
        },
    }
}

/// The environment variable that names the secret a request is judged by, where its judgement
/// comes to that.
pub open spec fn secret_asked_for(policy: CompiledAdminPolicy, head: RequestHead) -> Option<Seq<char>> {
    match policy.auth {
        CompiledAdminAuthPolicy::Bearer { secret_env, .. } => Some(secret_env@),
        CompiledAdminAuthPolicy::SignedHeaders { operators, .. } => match filled_header(
            head,
            "x-lb-admin-actor"@,
        ) {
            Some(actor) => if operators@.contains_key(actor) {
                Some(operators@[actor].secret_env@)
            } else {
                None
            },
            None => None,
        },
    }
}

/// Finds the environment variable that names the secret a request is judged by.
pub fn find_secret_env<'a>(policy: &'a CompiledAdminPolicy, request: &RequestHead) -> (r: Option<&'a str>)
    ensures
        match secret_asked_for(*policy, *request) {
            Some(name) => r matches Some(n) && n@ == name,
            None => r is None,
        },
{
    match &policy.auth {
        CompiledAdminAuthPolicy::Bearer { secret_env, .. } => Some(secret_env.as_str()),
        CompiledAdminAuthPolicy::SignedHeaders { operators, .. } => match filled_header_value(
            request,
            "x-lb-admin-actor",
        ) {
            Some(actor) => match operators.get(actor) {
                Some(operator) => Some(operator.secret_env.as_str()),
                None => None,
            },
            None => None,
        },
    }
}

/// Where a request asks for no secret, it does not matter for its judgement what is read of any.
pub proof fn unasked_secrets_do_not_matter(
    one: AuthInput,
    other: AuthInput,
    policy: CompiledAdminPolicy,
    nonces: Map<Seq<char>, u128>,
    now: u128,
)
    requires
        other == (AuthInput { readings: other.readings, ..one }),
        secret_asked_for(policy, one.head) is None,
    ensures
        judge(one, policy, nonces, now) == judge(other, policy, nonces, now),
{
}

/// The permissions that a policy gives to the maker of a request.
pub open spec fn permissions_of(policy: CompiledAdminPolicy, actor: Seq<char>) -> PermissionSet {
    match policy.auth {
        CompiledAdminAuthPolicy::Bearer { permissions, .. } => permissions,
        CompiledAdminAuthPolicy::SignedHeaders { operators, .. } => operators@[actor].permissions,
    }
}

/// A request is admitted only if its maker has the permission that it needs.
pub proof fn admission_needs_permission(
    input: AuthInput,
    policy: CompiledAdminPolicy,
    nonces: Map<Seq<char>, u128>,
    now: u128,
)
    requires
        judge(input, policy, nonces, now).0 is Ok,
    ensures
        permissions_of(policy, judge(input, policy, nonces, now).0->Ok_0.actor).has(input.permission),
{
}

/// A request that is judged under a policy at a time.
pub struct TimedRequest {
    pub input: AuthInput,
    pub policy: CompiledAdminPolicy,
    pub now: u128,
}

/// The nonces on record after requests are judged one after the other.
pub open spec fn record_after(
    requests: Seq<TimedRequest>,
    nonces: Map<Seq<char>, u128>,
) -> Map<Seq<char>, u128>
    decreases requests.len(),
{
    if requests.len() == 0 {
        nonces
    } else {
        let last = requests.last();
        judge(last.input, last.policy, record_after(requests.drop_last(), nonces), last.now).1
    }
}

/// A nonce stays on record, with the time at which it was seen, through any number of judged
/// requests, as long as each of their policies that is for signed requests remembers it at the
/// time of the request.
pub proof fn nonces_stay_on_record(
    requests: Seq<TimedRequest>,
    nonces: Map<Seq<char>, u128>,
    key: Seq<char>,
)
    requires
        nonces.contains_key(key),
        forall|i: int|
            0 <= i < requests.len() && (#[trigger] requests[i]).policy.auth is SignedHeaders
                ==> remembered(nonces[key], requests[i].now, nonce_ttl(requests[i].policy)),
    ensures
        record_after(requests, nonces).contains_key(key),
        record_after(requests, nonces)[key] == nonces[key],
    decreases requests.len(),
{
    if requests.len() > 0 {
        let before = requests.drop_last();
        assert forall|i: int|
            0 <= i < before.len() && (#[trigger] before[i]).policy.auth is SignedHeaders implies
            remembered(nonces[key], before[i].now, nonce_ttl(before[i].policy)) by {
            assert(before[i] == requests[i]);
        }
        nonces_stay_on_record(before, nonces, key);
        assert(requests.last() == requests[requests.len() - 1]);
    }
}

/// A signed request that was admitted is refused as a replay when it comes again while its nonce
/// is remembered, at whatever time of day and under whatever request number, and whatever
/// requests were judged in between, none of them later than the second one.
pub proof fn replays_are_refused(
    first: AuthInput,
    between: Seq<TimedRequest>,
    second: AuthInput,
    policy: CompiledAdminPolicy,
    nonces: Map<Seq<char>, u128>,
    first_now: u128,
    second_now: u128,
)
    requires
        policy.auth is SignedHeaders,
        judge(first, policy, nonces, first_now).0 is Ok,
        judge_identity(second, policy) matches Ok((context, Some(key))) && judge_identity(
            first,
            policy,
        ) matches Ok((other, Some(same))) && key == same,
        forall|i: int|
            0 <= i < between.len() ==> (#[trigger] between[i]).policy == policy && between[i].now
                <= second_now,
        second_now - first_now <= nonce_ttl(policy) * 1_000_000_000,
    ensures
        ({
            let after = record_after(between, judge(first, policy, nonces, first_now).1);
            let judged = judge(second, policy, after, second_now);
            &&& judged.0 matches Err(failure)
            &&& failure.status == "409 Conflict"@
            &&& failure.outcome == "replay_rejected"@
        }),
{
    let key = (judge_identity(first, policy)->Ok_0).1->0;
    let recorded = judge(first, policy, nonces, first_now).1;
    assert(recorded.contains_key(key) && recorded[key] == first_now);
    nonces_stay_on_record(between, recorded, key);
}

/// A request that is refused for any reason but a replay leaves the record of nonces as it was.
pub proof fn refusals_keep_the_record(
    input: AuthInput,
    policy: CompiledAdminPolicy,
    nonces: Map<Seq<char>, u128>,
    now: u128,
)
    requires
        judge_identity(input, policy) is Err,
    ensures
        judge(input, policy, nonces, now).1 == nonces,
        judge(input, policy, nonces, now).0 is Err,
{
}

/// A signed request is admitted only with the signature of a known operator over its own method,
/// target, time, nonce and body, and only within the allowed clock skew.
pub proof fn admission_needs_a_signature(
    input: AuthInput,
    policy: CompiledAdminPolicy,
    nonces: Map<Seq<char>, u128>,
    now: u128,
)
    requires
        policy.auth is SignedHeaders,
        judge(input, policy, nonces, now).0 is Ok,
    ensures
        ({
            let actor = filled_header(input.head, "x-lb-admin-actor"@);
            let stamp = header_named(input.head.headers@, "x-lb-admin-timestamp"@);
            let nonce = filled_header(input.head, "x-lb-admin-nonce"@);
            let operators = policy.auth->operators@;
            &&& actor is Some && operators.contains_key(actor->0)
            &&& operators[actor->0].permissions.has(input.permission)
            &&& stamp is Some && unsigned(stamp->0, 10, u64::MAX as nat) is Some
            &&& apart(input.now_secs, (unsigned(stamp->0, 10, u64::MAX as nat)->0) as u64)
                <= policy.auth->max_clock_skew_secs
            &&& nonce is Some
            &&& secret_material(
                operators[actor->0].secret_env@,
                input.legacy_secret,
                input.readings,
            ) matches Ok(material) && filled_header(input.head, "x-lb-admin-signature"@) == Some(
                request_signature(
                    material.value,
                    actor->0,
                    input.head.method@,
                    input.head.target@,
                    (unsigned(stamp->0, 10, u64::MAX as nat)->0) as u64,
                    nonce->0,
                    input.body,
                ),
            )
        }),
{
}

} // verus!
