//! What holds of all administration requests: which action each asks for, who is admitted, and
//! where secrets come from.

use crate::addr::IpAddress;
use crate::admin_api::{
    action_name, action_of, action_permission, header_version, negotiated_mode, normalized_version,
    slash_at, version_parts, ModeView,
};
use crate::admin_auth::{
    auth_error_code, filled_header, header_named, judge, key_block, masked, request_signature,
    AdminApiErrorCode, AuthInput, ContextView, FailureView, HeaderField, RequestHead,
};
use crate::admin_policy::{
    grants, scope_permission, AdminPermission, CompiledAdminPolicy, PermissionSet,
};
use crate::admin_rate_limit::{fresh_only, AdminTokenBucket};
use crate::config::AdminAuthorizationScopeConfig;
use crate::digest::sha256;
use crate::secrets::{named_file, secret_material, without_line_end, SecretReadings};
use crate::text::{
    decimal, hex_bytes, is_space, lowered, trimmed, trimmed_end, trimmed_start, unsigned,
};
use vstd::prelude::*;
use vstd::string::*;
use vstd::utf8::encode_utf8;

verus! {

#[verifier::rlimit(40)]
proof fn lemma_request_words()
    ensures
        "GET"@ != "POST"@,
        "/healthz"@ != "/readyz"@,
        "/healthz"@ != "/status"@,
        "/healthz"@ != "/validate"@,
        "/healthz"@ != "/audit"@,
        "/readyz"@ != "/status"@,
        "/readyz"@ != "/validate"@,
        "/readyz"@ != "/audit"@,
        "/status"@ != "/validate"@,
        "/status"@ != "/audit"@,
        "/validate"@ != "/audit"@,
        "/reload"@ != "/restart"@,
        "/reload"@ != "/cache/purge"@,
        "/reload"@ != "/cache/invalidate"@,
        "/restart"@ != "/cache/purge"@,
        "/restart"@ != "/cache/invalidate"@,
        "/cache/purge"@ != "/cache/invalidate"@,
{
    reveal_strlit("GET");
    reveal_strlit("POST");
    reveal_strlit("/healthz");
    reveal_strlit("/readyz");
    reveal_strlit("/status");
    reveal_strlit("/validate");
    reveal_strlit("/audit");
    reveal_strlit("/reload");
    reveal_strlit("/restart");
    reveal_strlit("/cache/purge");
    reveal_strlit("/cache/invalidate");
    assert("GET"@.len() == 3 && "POST"@.len() == 4);
    assert("/healthz"@.len() == 8 && "/readyz"@.len() == 7 && "/status"@.len() == 7);
    assert("/validate"@.len() == 9 && "/audit"@.len() == 6);
    assert("/reload"@.len() == 7 && "/restart"@.len() == 8);
    assert("/cache/purge"@.len() == 12 && "/cache/invalidate"@.len() == 17);
    assert("/readyz"@[1] == 'r' && "/status"@[1] == 's');
}

/// Every action is asked for by one request of its own and by no other; whatever else is asked is
/// unknown.
pub proof fn each_action_has_its_own_request(method: Seq<char>, target: Seq<char>)
    ensures
        ({
            let action = action_of(method, target);
            let get = method == "GET"@;
            let post = method == "POST"@;
            &&& action is Healthz <==> get && target == "/healthz"@
            &&& action is Readyz <==> get && target == "/readyz"@
            &&& action is Status <==> get && target == "/status"@
            &&& action is Validate <==> get && target == "/validate"@
            &&& action is Audit <==> get && target == "/audit"@
            &&& action is Reload <==> post && target == "/reload"@
            &&& action is Restart <==> post && target == "/restart"@
            &&& action is CachePurge <==> post && target == "/cache/purge"@
            &&& action is CacheInvalidate <==> post && target == "/cache/invalidate"@
        }),
{
    lemma_request_words();
}

/// The name of an action is that of the path that asks for it.
#[verifier::rlimit(40)]
pub proof fn actions_are_named_after_their_paths(method: Seq<char>, target: Seq<char>)
    ensures
        ({
            let action = action_of(method, target);
            &&& !(action is Unknown || action is CachePurge || action is CacheInvalidate)
                ==> target == "/"@ + action_name(action)
            &&& action is CachePurge ==> action_name(action) == "cache_purge"@
            &&& action is CacheInvalidate ==> action_name(action) == "cache_invalidate"@
        }),
{
    reveal_strlit("/");
    reveal_strlit("/healthz");
    reveal_strlit("healthz");
    reveal_strlit("/readyz");
    reveal_strlit("readyz");
    reveal_strlit("/status");
    reveal_strlit("status");
    reveal_strlit("/validate");
    reveal_strlit("validate");
    reveal_strlit("/audit");
    reveal_strlit("audit");
    reveal_strlit("/reload");
    reveal_strlit("reload");
    reveal_strlit("/restart");
    reveal_strlit("restart");
    assert("/healthz"@ =~= "/"@ + "healthz"@);
    assert("/readyz"@ =~= "/"@ + "readyz"@);
    assert("/status"@ =~= "/"@ + "status"@);
    assert("/validate"@ =~= "/"@ + "validate"@);
    assert("/audit"@ =~= "/"@ + "audit"@);
    assert("/reload"@ =~= "/"@ + "reload"@);
    assert("/restart"@ =~= "/"@ + "restart"@);
}

/// Exactly the requests that change something need the permission to write: none with `GET` does,
/// and all with `POST` that are known do. Only the record of events needs the permission to audit.
pub proof fn changes_need_the_permission_to_write(method: Seq<char>, target: Seq<char>)
    ensures
        ({
            let action = action_of(method, target);
            let needed = action_permission(action);
            &&& needed is Write <==> method == "POST"@ && !(action is Unknown)
            &&& needed is Audit <==> method == "GET"@ && target == "/audit"@
            &&& method == "GET"@ ==> !(needed is Write)
        }),
{
    lemma_request_words();
}

proof fn lemma_slash(target: Seq<char>, from: int, end: int)
    requires
        0 <= from <= end <= target.len(),
        forall|i: int| from <= i < end ==> #[trigger] target[i] != '/',
        end < target.len() ==> target[end] == '/',
    ensures
        slash_at(target, from) == end,
    decreases end - from,
{
    if from < end {
        assert(target[from] != '/');
        lemma_slash(target, from + 1, end);
    }
}

/// Whether a text is one or more decimal digits.
pub open spec fn is_number(s: Seq<char>) -> bool {
    s.len() > 0 && forall|i: int| 0 <= i < s.len() ==> '0' <= #[trigger] s[i] <= '9'
}

/// A path behind a version is taken apart into the version and the path; a version alone stands
/// for the root.
#[verifier::rlimit(40)]
pub proof fn versions_come_off_their_paths(number: Seq<char>, path: Seq<char>)
    requires
        is_number(number),
        path.len() == 0 || path[0] == '/',
    ensures
        version_parts("/v"@ + number + path) == Some(
            (
                "v"@ + number,
                if path.len() == 0 {
                    "/"@
                } else {
                    path
                },
            ),
        ),
{
    reveal_strlit("/v");
    reveal_strlit("v");
    let target = "/v"@ + number + path;
    let end = 2 + number.len() as int;
    assert forall|i: int| 1 <= i < end implies #[trigger] target[i] != '/' by {
        if i >= 2 {
            assert(target[i] == number[i - 2]);
        }
    }
    if end < target.len() {
        assert(target[end] == path[0]);
    }
    lemma_slash(target, 1, end);
    let segment = target.subrange(1, end);
    assert(segment =~= "v"@ + number);
    assert forall|i: int| 1 <= i < segment.len() implies '0' <= #[trigger] segment[i]
        && segment[i] <= '9' by {
        assert(segment[i] == number[i - 1]);
    }
    assert(target.skip(end) =~= path);
}

/// The first version is served, asked for in the path or in the header or in both; every other
/// version is refused; where path and header disagree, the request is refused; and a request that
/// asks for no version is served as it is.
pub proof fn versions_are_negotiated(head: RequestHead, number: Seq<char>, path: Seq<char>)
    requires
        is_number(number),
        path.len() > 0 && path[0] == '/',
        head.target@ == "/v"@ + number + path,
    ensures
        ({
            let mode = negotiated_mode(head);
            let asked = header_version(head);
            let first = number == "1"@;
            &&& mode.canonical() == path
            &&& first && (asked is None || asked == Some("v1"@)) ==> mode == (ModeView::V1 {
                target: path,
            })
            &&& !first ==> mode is UnsupportedVersion
            &&& asked is Some && asked != Some("v"@ + number) ==> mode is UnsupportedVersion
        }),
{
    versions_come_off_their_paths(number, path);
    reveal_strlit("v");
    reveal_strlit("1");
    reveal_strlit("v1");
    assert("v1"@ =~= "v"@ + "1"@);
    if "v"@ + number == "v1"@ {
        assert(number =~= ("v"@ + number).skip(1));
        assert("1"@ =~= "v1"@.skip(1));
    }
}

/// A request whose path names no version is served as it is where no header names one, in the
/// first version where the header names that, and is refused where it names another.
pub proof fn unversioned_paths_are_served_as_they_are(head: RequestHead)
    requires
        version_parts(head.target@) is None,
    ensures
        ({
            let mode = negotiated_mode(head);
            &&& mode.canonical() == head.target@
            &&& mode is Legacy <==> header_version(head) is None
            &&& mode is V1 <==> header_version(head) == Some("v1"@)
        }),
{
}

/// Whether a header field is the first with a name, in any case.
pub open spec fn is_first_header(headers: Seq<HeaderField>, i: int, name: Seq<char>) -> bool {
    &&& 0 <= i < headers.len()
    &&& lowered(headers[i].name@) == lowered(name)
    &&& forall|k: int| 0 <= k < i ==> lowered((#[trigger] headers[k]).name@) != lowered(name)
}

/// A name stands for the first header field that has it, in any case, and for none where there is
/// no such field.
#[verifier::rlimit(40)]
pub proof fn headers_are_found_in_any_case(headers: Seq<HeaderField>, name: Seq<char>)
    ensures
        forall|i: int| #[trigger]
            is_first_header(headers, i, name) ==> header_named(headers, name) == Some(
                headers[i].value@,
            ),
        header_named(headers, name) is None <==> forall|i: int|
            0 <= i < headers.len() ==> lowered((#[trigger] headers[i]).name@) != lowered(name),
    decreases headers.len(),
{
    if headers.len() > 0 {
        let rest = headers.drop_first();
        headers_are_found_in_any_case(rest, name);
        assert forall|i: int| #[trigger] is_first_header(headers, i, name) implies header_named(
            headers,
            name,
        ) == Some(headers[i].value@) by {
            if i > 0 {
                assert(lowered(headers[0].name@) != lowered(name));
                assert forall|k: int| 0 <= k < i - 1 implies lowered((#[trigger] rest[k]).name@)
                    != lowered(name) by {
                    assert(rest[k] == headers[k + 1]);
                }
                assert(is_first_header(rest, i - 1, name));
            }
        }
        if header_named(headers, name) is None {
            assert forall|i: int| 0 <= i < headers.len() implies lowered(
                (#[trigger] headers[i]).name@,
            ) != lowered(name) by {
                if i > 0 {
                    assert(rest[i - 1] == headers[i]);
                }
            }
        } else if lowered(headers[0].name@) != lowered(name) {
            let i = choose|i: int|
                0 <= i < rest.len() && lowered((#[trigger] rest[i]).name@) == lowered(name);
            assert(lowered(headers[i + 1].name@) == lowered(name));
        }
    }
}

/// A request with the shared secret is admitted exactly where it bears the secret and the holder
/// of the secret has the permission. Without a token or with a wrong one it is asked for one; with
/// the right one and without the permission it is forbidden; and where the secret is not to be
/// found, the service is not available. No nonce is taken on record.
pub proof fn bearers_of_the_secret_are_admitted(
    input: AuthInput,
    policy: CompiledAdminPolicy,
    nonces: Map<Seq<char>, u128>,
    now: u128,
)
    requires
        policy.auth is Bearer,
    ensures
        ({
            let token = input.head.authorization_bearer;
            let found = secret_material(
                (policy.auth->Bearer_secret_env)@,
                input.legacy_secret,
                input.readings,
            );
            let (judged, after) = judge(input, policy, nonces, now);
            let right = token is Some && found is Ok && token->0@ == (found->Ok_0).value;
            let permitted = (policy.auth->Bearer_permissions).has(input.permission);
            &&& after == nonces
            &&& judged is Ok <==> right && permitted
            &&& judged matches Ok(context) ==> {
                &&& context.request_id == input.request_id
                &&& context.source == input.source
                &&& context.actor == "shared-bearer"@
                &&& context.auth_mode == "bearer"@
            }
            &&& judged matches Err(failure) ==> {
                &&& failure.auth_mode == "bearer"@
                &&& token is None ==> failure.status == "401 Unauthorized"@ && failure.challenge
                    && failure.outcome == "unauthenticated"@
                &&& token is Some && found is Err ==> failure.status
                    == "503 Service Unavailable"@ && failure.outcome == "misconfigured"@
                &&& token is Some && found is Ok && !right ==> failure.status
                    == "401 Unauthorized"@ && failure.challenge && failure.outcome
                    == "unauthenticated"@
                &&& right ==> failure.status == "403 Forbidden"@ && !failure.challenge
                    && failure.outcome == "forbidden"@
            }
        }),
{
}

/// A request that a known operator signed in time, with the permission and a nonce that is not
/// remembered, is admitted as that operator's, and its nonce is on record at its time.
pub proof fn signed_requests_are_admitted(
    input: AuthInput,
    policy: CompiledAdminPolicy,
    nonces: Map<Seq<char>, u128>,
    now: u128,
    actor: Seq<char>,
    timestamp: u64,
    nonce: Seq<char>,
)
    requires
        policy.auth is SignedHeaders,
        filled_header(input.head, "x-lb-admin-actor"@) == Some(actor),
        (policy.auth->operators)@.contains_key(actor),
        (policy.auth->operators)@[actor].permissions.has(input.permission),
        header_named(input.head.headers@, "x-lb-admin-timestamp"@) matches Some(stamp) && unsigned(
            stamp,
            10,
            u64::MAX as nat,
        ) == Some(timestamp as nat),
        timestamp <= input.now_secs ==> input.now_secs - timestamp
            <= policy.auth->max_clock_skew_secs,
        timestamp > input.now_secs ==> timestamp - input.now_secs
            <= policy.auth->max_clock_skew_secs,
        filled_header(input.head, "x-lb-admin-nonce"@) == Some(nonce),
        secret_material(
            (policy.auth->operators)@[actor].secret_env@,
            input.legacy_secret,
            input.readings,
        ) matches Ok(material) && filled_header(input.head, "x-lb-admin-signature"@) == Some(
            request_signature(
                material.value,
                actor,
                input.head.method@,
                input.head.target@,
                timestamp,
                nonce,
                input.body,
            ),
        ),
        nonces.contains_key(actor + ":"@ + nonce) ==> now - nonces[actor + ":"@ + nonce]
            > policy.auth->nonce_ttl_secs * 1_000_000_000,
    ensures
        ({
            let (judged, after) = judge(input, policy, nonces, now);
            &&& judged == Ok::<ContextView, FailureView>(
                ContextView {
                    request_id: input.request_id,
                    actor,
                    auth_mode: "signed_headers"@,
                    source: input.source,
                },
            )
            &&& after.contains_key(actor + ":"@ + nonce)
            &&& after[actor + ":"@ + nonce] == now
        }),
{
}

/// A signed request is refused for what is wrong with it: an operator without the permission is
/// forbidden, one whose clock is off is rejected, and one whose secret is not to be found is told
/// that the service is not available. None of these takes a nonce on record.
pub proof fn signed_requests_are_refused_for_a_reason(
    input: AuthInput,
    policy: CompiledAdminPolicy,
    nonces: Map<Seq<char>, u128>,
    now: u128,
    actor: Seq<char>,
)
    requires
        policy.auth is SignedHeaders,
        filled_header(input.head, "x-lb-admin-actor"@) == Some(actor),
    ensures
        ({
            let (judged, after) = judge(input, policy, nonces, now);
            let operators = (policy.auth->operators)@;
            let stamp = header_named(input.head.headers@, "x-lb-admin-timestamp"@);
            let known = operators.contains_key(actor);
            let permitted = known && operators[actor].permissions.has(input.permission);
            let time = unsigned(stamp->0, 10, u64::MAX as nat);
            let timed = permitted && stamp is Some && time is Some;
            let off = timed && (time->0 > input.now_secs + policy.auth->max_clock_skew_secs
                || time->0 + policy.auth->max_clock_skew_secs < input.now_secs);
            let lacks = filled_header(input.head, "x-lb-admin-nonce"@) is None || filled_header(
                input.head,
                "x-lb-admin-signature"@,
            ) is None;
            let found = secret_material(
                operators[actor].secret_env@,
                input.legacy_secret,
                input.readings,
            );
            &&& !known ==> judged is Err && judged->Err_0.status == "401 Unauthorized"@ && after
                == nonces
            &&& known && !permitted ==> judged is Err && judged->Err_0.status == "403 Forbidden"@
                && judged->Err_0.outcome == "forbidden"@ && after == nonces
            &&& permitted && !timed ==> judged is Err && judged->Err_0.status
                == "401 Unauthorized"@ && after == nonces
            &&& off ==> judged is Err && judged->Err_0.status == "401 Unauthorized"@
                && judged->Err_0.outcome == "rejected"@ && after == nonces
            &&& timed && !off && lacks ==> judged is Err && judged->Err_0.status
                == "401 Unauthorized"@ && after == nonces
            &&& timed && !off && !lacks && found is Err ==> judged is Err && judged->Err_0.status
                == "503 Service Unavailable"@ && judged->Err_0.outcome == "misconfigured"@ && after
                == nonces
            &&& judged matches Err(failure) ==> failure.auth_mode == "signed_headers"@
                && failure.actor == actor && !failure.challenge
        }),
{
}

/// A signed request that does not say who makes it is refused.
pub proof fn nameless_requests_are_refused(
    input: AuthInput,
    policy: CompiledAdminPolicy,
    nonces: Map<Seq<char>, u128>,
    now: u128,
)
    requires
        policy.auth is SignedHeaders,
        filled_header(input.head, "x-lb-admin-actor"@) is None,
    ensures
        judge(input, policy, nonces, now).0 is Err,
        judge(input, policy, nonces, now).0->Err_0.status == "401 Unauthorized"@,
        judge(input, policy, nonces, now).1 == nonces,
{
}

#[verifier::rlimit(40)]
proof fn lemma_line_end(s: Seq<char>)
    ensures
        ({
            let kept = without_line_end(s);
            &&& kept.len() <= s.len()
            &&& kept == s.take(kept.len() as int)
            &&& kept.len() > 0 ==> kept.last() != '\r' && kept.last() != '\n'
            &&& forall|i: int| kept.len() <= i < s.len() ==> #[trigger] s[i] == '\r' || s[i] == '\n'
        }),
    decreases s.len(),
{
    if s.len() > 0 && (s.last() == '\r' || s.last() == '\n') {
        let front = s.drop_last();
        lemma_line_end(front);
        let kept = without_line_end(front);
        assert(front.take(kept.len() as int) =~= s.take(kept.len() as int));
        assert forall|i: int| kept.len() <= i < s.len() implies #[trigger] s[i] == '\r' || s[i]
            == '\n' by {
            if i < front.len() {
                assert(front[i] == s[i]);
            }
        }
    } else {
        assert(s.take(s.len() as int) =~= s);
    }
}

/// A secret from a file is what the file holds but for the line ends at its end, and nothing else
/// is taken away.
pub proof fn only_line_ends_are_cut_off(s: Seq<char>)
    ensures
        ({
            let kept = without_line_end(s);
            &&& kept.len() <= s.len()
            &&& kept == s.take(kept.len() as int)
            &&& kept.len() > 0 ==> kept.last() != '\r' && kept.last() != '\n'
            &&& forall|i: int| kept.len() <= i < s.len() ==> #[trigger] s[i] == '\r' || s[i] == '\n'
        }),
{
    lemma_line_end(s);
}

/// Where a file is named for a secret, the file alone decides: neither the variable nor the older
/// secret makes good for it. Such a secret can change while the listener runs.
pub proof fn named_files_decide(
    secret_env: Seq<char>,
    one_legacy: Seq<char>,
    other_legacy: Seq<char>,
    one: SecretReadings,
    other: SecretReadings,
)
    requires
        named_file(one) is Some,
        one.file_variable == other.file_variable,
        one.file_contents == other.file_contents,
    ensures
        secret_material(secret_env, one_legacy, one) == secret_material(
            secret_env,
            other_legacy,
            other,
        ),
        ({
            let found = secret_material(secret_env, one_legacy, one);
            &&& found is Ok <==> one.file_contents is Ok && without_line_end(
                (one.file_contents->Ok_0)@,
            ).len() > 0
            &&& found matches Ok(material) ==> {
                &&& material.value == without_line_end((one.file_contents->Ok_0)@)
                &&& material.source_kind == "file"@
                &&& Some(material.source_reference) == named_file(one)
                &&& material.supports_rotation_without_reload
            }
            &&& found matches Err(error) ==> {
                &&& error.source_kind == "file"@
                &&& error.state == (if one.file_contents is Err {
                    "read_failed"@
                } else {
                    "empty"@
                })
            }
        }),
{
}

/// Where no file is named for a secret, its variable decides. The older secret stands in only for
/// the variable that bears its name, and only where that is not set. No secret is empty.
pub proof fn variables_decide_without_a_file(
    secret_env: Seq<char>,
    legacy: Seq<char>,
    readings: SecretReadings,
)
    requires
        named_file(readings) is None,
    ensures
        ({
            let found = secret_material(secret_env, legacy, readings);
            let own = secret_env == "LB_CTL_ADMIN_SECRET"@;
            &&& readings.variable matches Some(value) ==> {
                &&& found is Ok <==> value@.len() > 0
                &&& found is Ok ==> (found->Ok_0).value == value@
            }
            &&& readings.variable is None && own ==> {
                &&& found is Ok <==> legacy.len() > 0
                &&& found is Ok ==> (found->Ok_0).value == legacy
            }
            &&& readings.variable is None && !own ==> found is Err
            &&& found matches Ok(material) ==> {
                &&& material.value.len() > 0
                &&& material.source_kind == "env"@
                &&& material.source_reference == secret_env
                &&& !material.supports_rotation_without_reload
            }
            &&& found matches Err(error) ==> error.source_kind == "env"@ && error.state
                == "missing"@
        }),
{
}

#[verifier::rlimit(40)]
proof fn lemma_trimmed_end(s: Seq<char>)
    ensures
        ({
            let t = trimmed_end(s);
            &&& t.len() <= s.len()
            &&& t == s.take(t.len() as int)
            &&& t.len() > 0 ==> !is_space(t.last())
            &&& forall|i: int| t.len() <= i < s.len() ==> is_space(#[trigger] s[i])
        }),
    decreases s.len(),
{
    if s.len() > 0 && is_space(s.last()) {
        let front = s.drop_last();
        lemma_trimmed_end(front);
        let t = trimmed_end(front);
        assert(front.take(t.len() as int) =~= s.take(t.len() as int));
        assert forall|i: int| t.len() <= i < s.len() implies is_space(#[trigger] s[i]) by {
            if i < front.len() {
                assert(front[i] == s[i]);
            }
        }
    } else {
        assert(s.take(s.len() as int) =~= s);
    }
}

#[verifier::rlimit(40)]
proof fn lemma_trimmed_start(s: Seq<char>)
    ensures
        ({
            let t = trimmed_start(s);
            &&& t.len() <= s.len()
            &&& t == s.skip(s.len() - t.len())
            &&& t.len() > 0 ==> !is_space(t.first())
            &&& forall|i: int| 0 <= i < s.len() - t.len() ==> is_space(#[trigger] s[i])
        }),
    decreases s.len(),
{
    if s.len() > 0 && is_space(s.first()) {
        let rest = s.drop_first();
        lemma_trimmed_start(rest);
        let t = trimmed_start(rest);
        assert(rest.skip(rest.len() - t.len()) =~= s.skip(s.len() - t.len()));
        assert forall|i: int| 0 <= i < s.len() - t.len() implies is_space(#[trigger] s[i]) by {
            if i > 0 {
                assert(rest[i - 1] == s[i]);
            }
        }
    } else {
        assert(s.skip(0) =~= s);
    }
}

/// Trimming a text takes the white space from its two ends, all of it and nothing else.
#[verifier::rlimit(40)]
pub proof fn only_white_space_is_trimmed(s: Seq<char>) -> (from: int)
    ensures
        0 <= from,
        from + trimmed(s).len() <= s.len(),
        trimmed(s) == s.subrange(from, from + trimmed(s).len()),
        forall|i: int| 0 <= i < from ==> is_space(#[trigger] s[i]),
        forall|i: int| from + trimmed(s).len() <= i < s.len() ==> is_space(#[trigger] s[i]),
        trimmed(s).len() > 0 ==> !is_space(trimmed(s).first()) && !is_space(trimmed(s).last()),
{
    lemma_trimmed_start(s);
    let t = trimmed_start(s);
    lemma_trimmed_end(t);
    let u = trimmed_end(t);
    let from = s.len() - t.len();
    assert(u =~= s.subrange(from, from + u.len()));
    assert forall|i: int| from + u.len() <= i < s.len() implies is_space(#[trigger] s[i]) by {
        assert(t[i - from] == s[i]);
    }
    if u.len() > 0 {
        assert(u.first() == t.first());
    }
    from
}

/// The file that is named for a secret is the variable without the white space at its ends, and
/// none is named by white space alone.
pub proof fn files_are_named_without_white_space(readings: SecretReadings)
    ensures
        named_file(readings) is Some <==> readings.file_variable is Some && exists|i: int|
            0 <= i < (readings.file_variable->0)@.len() && !is_space(
                #[trigger] (readings.file_variable->0)@[i],
            ),
        named_file(readings) matches Some(path) ==> path == trimmed((readings.file_variable->0)@),
{
    if readings.file_variable is Some {
        let s = (readings.file_variable->0)@;
        let from = only_white_space_is_trimmed(s);
        if trimmed(s).len() > 0 {
            assert(!is_space(s[from]));
        }
    }
}

/// A bucket is kept for ten minutes after it was last asked for, and is forgotten afterwards; no
/// bucket is changed by that, and none is made.
pub proof fn buckets_are_kept_for_ten_minutes(
    buckets: Map<(IpAddress, Seq<char>, Seq<char>), AdminTokenBucket>,
    now: u128,
    key: (IpAddress, Seq<char>, Seq<char>),
)
    ensures
        ({
            let kept = fresh_only(buckets, now);
            &&& kept.contains_key(key) <==> buckets.contains_key(key) && now
                - buckets[key].last_refill <= 10 * 60 * 1_000_000_000
            &&& kept.contains_key(key) ==> kept[key] == buckets[key]
        }),
{
}

/// A signed request whose nonce was seen no longer ago than the policy remembers nonces is refused
/// as a replay, and the nonce stays on record as it was.
pub proof fn remembered_nonces_are_refused(
    input: AuthInput,
    policy: CompiledAdminPolicy,
    nonces: Map<Seq<char>, u128>,
    now: u128,
    actor: Seq<char>,
    nonce: Seq<char>,
)
    requires
        policy.auth is SignedHeaders,
        judge(input, policy, Map::empty(), now).0 is Ok,
        filled_header(input.head, "x-lb-admin-actor"@) == Some(actor),
        filled_header(input.head, "x-lb-admin-nonce"@) == Some(nonce),
        nonces.contains_key(actor + ":"@ + nonce),
        now - nonces[actor + ":"@ + nonce] <= policy.auth->nonce_ttl_secs * 1_000_000_000,
    ensures
        ({
            let (judged, after) = judge(input, policy, nonces, now);
            &&& judged matches Err(failure)
            &&& failure.status == "409 Conflict"@
            &&& failure.outcome == "replay_rejected"@
            &&& failure.actor == actor
            &&& after.contains_key(actor + ":"@ + nonce)
            &&& after[actor + ":"@ + nonce] == nonces[actor + ":"@ + nonce]
        }),
{
}

/// A signature is the keyed digest of the lines that say who asks for what, when, once, and with
/// which body: the digest of the outer key and of the digest of the inner key and the lines, in
/// hexadecimal digits. The keys are the secret, or its digest where it is longer than a block,
/// filled up with zeros, each byte combined with one of its own.
pub proof fn signatures_are_keyed_digests(
    secret: Seq<char>,
    actor: Seq<char>,
    method: Seq<char>,
    target: Seq<char>,
    timestamp: u64,
    nonce: Seq<char>,
    body: Seq<u8>,
    key: Seq<u8>,
    inner: Seq<u8>,
    outer: Seq<u8>,
)
    requires
        key == (if encode_utf8(secret).len() > 64 {
            sha256(encode_utf8(secret))
        } else {
            encode_utf8(secret)
        }),
        inner.len() == 64,
        outer.len() == 64,
        forall|i: int|
            0 <= i < 64 ==> #[trigger] inner[i] == 0x36 ^ (if i < key.len() {
                key[i]
            } else {
                0u8
            }),
        forall|i: int|
            0 <= i < 64 ==> #[trigger] outer[i] == 0x5c ^ (if i < key.len() {
                key[i]
            } else {
                0u8
            }),
    ensures
        ({
            let lines = actor + "\n"@ + method + "\n"@ + target + "\n"@ + decimal(timestamp as nat)
                + "\n"@ + nonce + "\n"@ + hex_bytes(sha256(body)) + "\n"@;
            request_signature(secret, actor, method, target, timestamp, nonce, body) == hex_bytes(
                sha256(outer + sha256(inner + encode_utf8(lines))),
            )
        }),
{
    let block = key_block(encode_utf8(secret));
    assert(masked(block, 0x36) =~= inner);
    assert(masked(block, 0x5c) =~= outer);
}

/// The code of a refusal is that of its status, and asking again does not help.
pub proof fn refusals_have_the_code_of_their_status(status: Seq<char>)
    ensures
        auth_error_code("503 Service Unavailable"@) == (AdminApiErrorCode::Misconfigured, false),
        auth_error_code("409 Conflict"@) == (AdminApiErrorCode::ReplayRejected, false),
        auth_error_code("403 Forbidden"@) == (AdminApiErrorCode::Forbidden, false),
        auth_error_code("401 Unauthorized"@) == (AdminApiErrorCode::Unauthorized, false),
        !auth_error_code(status).1,
{
    reveal_strlit("503 Service Unavailable");
    reveal_strlit("409 Conflict");
    reveal_strlit("403 Forbidden");
    reveal_strlit("401 Unauthorized");
    assert("503 Service Unavailable"@.len() == 23 && "409 Conflict"@.len() == 12);
    assert("403 Forbidden"@.len() == 13 && "401 Unauthorized"@.len() == 16);
}

/// A scope of the configuration grants the permission of its name, and permissions are granted by
/// nothing else.
#[verifier::rlimit(40)]
pub proof fn scopes_grant_their_permission(
    scopes: Seq<AdminAuthorizationScopeConfig>,
    permissions: PermissionSet,
)
    requires
        grants(scopes, permissions),
    ensures
        permissions.has(AdminPermission::Read) <==> exists|i: int|
            0 <= i < scopes.len() && #[trigger] scopes[i] == AdminAuthorizationScopeConfig::Read,
        permissions.has(AdminPermission::Audit) <==> exists|i: int|
            0 <= i < scopes.len() && #[trigger] scopes[i] == AdminAuthorizationScopeConfig::Audit,
        permissions.has(AdminPermission::Write) <==> exists|i: int|
            0 <= i < scopes.len() && #[trigger] scopes[i] == AdminAuthorizationScopeConfig::Write,
        permissions.read == permissions.has(AdminPermission::Read),
        permissions.audit == permissions.has(AdminPermission::Audit),
        permissions.write == permissions.has(AdminPermission::Write),
{
    assert forall|i: int| 0 <= i < scopes.len() implies permissions.has(
        #[trigger] scope_permission(scopes[i]),
    ) by {}
    if permissions.has(AdminPermission::Read) {
        let i = choose|i: int|
            0 <= i < scopes.len() && scope_permission(#[trigger] scopes[i]) == AdminPermission::Read;
        assert(scopes[i] == AdminAuthorizationScopeConfig::Read);
    }
    if permissions.has(AdminPermission::Audit) {
        let i = choose|i: int|
            0 <= i < scopes.len() && scope_permission(#[trigger] scopes[i])
                == AdminPermission::Audit;
        assert(scopes[i] == AdminAuthorizationScopeConfig::Audit);
    }
    if permissions.has(AdminPermission::Write) {
        let i = choose|i: int|
            0 <= i < scopes.len() && scope_permission(#[trigger] scopes[i])
                == AdminPermission::Write;
        assert(scopes[i] == AdminAuthorizationScopeConfig::Write);
    }
}

proof fn lemma_slash_bounds(target: Seq<char>, from: int)
    requires
        0 <= from <= target.len(),
    ensures
        from <= slash_at(target, from) <= target.len(),
        slash_at(target, from) < target.len() ==> target[slash_at(target, from)] == '/',
    decreases target.len() - from,
{
    if from < target.len() && target[from] != '/' {
        lemma_slash_bounds(target, from + 1);
    }
}

/// A path that is taken to name a version starts with the version: a slash, the letter and a number.
/// What is left is the path behind it, or the root.
pub proof fn only_versions_come_off_paths(target: Seq<char>) -> (rest: Seq<char>)
    requires
        version_parts(target) is Some,
    ensures
        ({
            let (version, path) = version_parts(target)->0;
            let number = version.skip(1);
            &&& is_number(number)
            &&& version == "v"@ + number
            &&& target == "/v"@ + number + rest
            &&& rest.len() > 0 ==> rest[0] == '/' && path == rest
            &&& rest.len() == 0 ==> path == "/"@
        }),
{
    reveal_strlit("v");
    reveal_strlit("/v");
    lemma_slash_bounds(target, 1);
    let end = slash_at(target, 1);
    let version = target.subrange(1, end);
    let number = version.skip(1);
    let rest = target.skip(end);
    assert(version =~= "v"@ + number);
    assert forall|i: int| 0 <= i < number.len() implies '0' <= #[trigger] number[i]
        && number[i] <= '9' by {
        assert(number[i] == version[i + 1]);
    }
    assert(target =~= "/v"@ + number + rest);
    rest
}

/// A header names a version with or without the letter before its number, in either case and with
/// white space around it; one that is blank names none.
pub proof fn headers_name_versions(value: Seq<char>, head: RequestHead)
    ensures
        ({
            let v = lowered(trimmed(value));
            &&& v.len() == 0 ==> normalized_version(value) is None
            &&& v.len() > 0 && v[0] == 'v' ==> normalized_version(value) == Some(v)
            &&& v.len() > 0 && v[0] != 'v' ==> normalized_version(value) == Some("v"@ + v)
            &&& header_named(head.headers@, "x-lb-admin-api-version"@) is None ==> header_version(
                head,
            ) is None
            &&& header_named(head.headers@, "x-lb-admin-api-version"@) == Some(value)
                ==> header_version(head) == normalized_version(value)
        }),
{
}

/// A request for a version that is not served is told which one it asked for, and one whose path and
/// header disagree is told both.
pub proof fn refused_versions_are_named(head: RequestHead, number: Seq<char>, path: Seq<char>)
    requires
        is_number(number),
        path.len() > 0 && path[0] == '/',
        head.target@ == "/v"@ + number + path,
    ensures
        ({
            let version = "v"@ + number;
            let mode = negotiated_mode(head);
            let asked = header_version(head);
            &&& version != "v1"@ && (asked is None || asked == Some(version)) ==> mode == (
            ModeView::UnsupportedVersion {
                target: path,
                requested_version: version,
                detail: "unsupported admin api version "@ + version,
            })
            &&& asked is Some && asked != Some(version) ==> mode == (
            ModeView::UnsupportedVersion {
                target: path,
                requested_version: asked->0,
                detail: "conflicting admin api versions requested in path ("@ + version
                    + ") and header ("@ + asked->0 + ")"@,
            })
        }),
{
    versions_come_off_their_paths(number, path);
}

} // verus!
