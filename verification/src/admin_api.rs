//! Which action an administration request asks for, and in which version of the interface.

use crate::admin_auth::{header_named, RequestHead};
use crate::admin_policy::AdminPermission;
use crate::text::{chars_of, lowered, str_eq, text, text_of, to_lower, trim, trimmed};
use vstd::prelude::*;
use vstd::string::*;

verus! {

/// The version of the interface whose answers do not change.
pub open spec fn stable_version() -> Seq<char> {
    "v1"@
}

/// In which version of the interface a request is made.
#[derive(Debug)]
pub enum AdminApiRequestMode {
    Legacy { canonical_target: String },
    V1 { canonical_target: String },
    UnsupportedVersion { canonical_target: String, requested_version: String, detail: String },
}

/// In which version of the interface a request is made.
pub enum ModeView {
    Legacy { target: Seq<char> },
    V1 { target: Seq<char> },
    UnsupportedVersion { target: Seq<char>, requested_version: Seq<char>, detail: Seq<char> },
}

impl View for AdminApiRequestMode {
    type V = ModeView;

    open spec fn view(&self) -> ModeView {
        match self {
            AdminApiRequestMode::Legacy { canonical_target } => ModeView::Legacy {
                target: canonical_target@,
            },
            AdminApiRequestMode::V1 { canonical_target } => ModeView::V1 {
                target: canonical_target@,
            },
            AdminApiRequestMode::UnsupportedVersion {
                canonical_target,
                requested_version,
                detail,
            } => ModeView::UnsupportedVersion {
                target: canonical_target@,
                requested_version: requested_version@,
                detail: detail@,
            },
        }
    }
}

impl ModeView {
    /// The target without its version.
    pub open spec fn canonical(self) -> Seq<char> {
        match self {
            ModeView::Legacy { target } => target,
            ModeView::V1 { target } => target,
            ModeView::UnsupportedVersion { target, .. } => target,
        }
    }
}

impl AdminApiRequestMode {
    /// The target without its version.
    pub fn canonical_target(&self) -> (r: &str)
        ensures
            r@ == self@.canonical(),
    {
        match self {
            AdminApiRequestMode::Legacy { canonical_target } => canonical_target.as_str(),
            AdminApiRequestMode::V1 { canonical_target } => canonical_target.as_str(),
            AdminApiRequestMode::UnsupportedVersion { canonical_target, .. } => {
                canonical_target.as_str()
            },
        }
    }

    /// Whether answers are wrapped in the envelope of the versioned interface.
    pub fn uses_versioned_contract(&self) -> (r: bool)
        ensures
            r == !(self is Legacy),
    {
        match self {
            AdminApiRequestMode::Legacy { .. } => false,
            _ => true,
        }
    }
}

/// What an administration request asks for.
#[derive(Debug, Clone, Copy, PartialEq, Eq, Structural)]
pub enum AdminRequestAction {
    Healthz,
    Readyz,
    Status,
    Validate,
    Audit,
    Reload,
    Restart,
    CachePurge,
    CacheInvalidate,
    Unknown,
}

/// The permission that an action needs.
pub open spec fn action_permission(action: AdminRequestAction) -> AdminPermission {
    match action {
        AdminRequestAction::Audit => AdminPermission::Audit,
        AdminRequestAction::Reload => AdminPermission::Write,
        AdminRequestAction::Restart => AdminPermission::Write,
        AdminRequestAction::CachePurge => AdminPermission::Write,
        AdminRequestAction::CacheInvalidate => AdminPermission::Write,
        _ => AdminPermission::Read,
    }
}

/// The action in words.
pub open spec fn action_name(action: AdminRequestAction) -> Seq<char> {
    match action {
        AdminRequestAction::Healthz => "healthz"@,
        AdminRequestAction::Readyz => "readyz"@,
        AdminRequestAction::Status => "status"@,
        AdminRequestAction::Validate => "validate"@,
        AdminRequestAction::Audit => "audit"@,
        AdminRequestAction::Reload => "reload"@,
        AdminRequestAction::Restart => "restart"@,
        AdminRequestAction::CachePurge => "cache_purge"@,
        AdminRequestAction::CacheInvalidate => "cache_invalidate"@,
        AdminRequestAction::Unknown => "unknown"@,
    }
}

impl AdminRequestAction {
    /// The permission that the action needs.
    pub fn permission(self) -> (r: AdminPermission)
        ensures
            r == action_permission(self),
    {
        match self {
            AdminRequestAction::Audit => AdminPermission::Audit,
            AdminRequestAction::Reload => AdminPermission::Write,
            AdminRequestAction::Restart => AdminPermission::Write,
            AdminRequestAction::CachePurge => AdminPermission::Write,
            AdminRequestAction::CacheInvalidate => AdminPermission::Write,
            _ => AdminPermission::Read,
        }
    }

    /// The action in words.
    pub fn as_str(self) -> (r: &'static str)
        ensures
            r@ == action_name(self),
    {
        match self {
            AdminRequestAction::Healthz => "healthz",
            AdminRequestAction::Readyz => "readyz",
            AdminRequestAction::Status => "status",
            AdminRequestAction::Validate => "validate",
            AdminRequestAction::Audit => "audit",
            AdminRequestAction::Reload => "reload",
            AdminRequestAction::Restart => "restart",
            AdminRequestAction::CachePurge => "cache_purge",
            AdminRequestAction::CacheInvalidate => "cache_invalidate",
            AdminRequestAction::Unknown => "unknown",
        }
    }
}

/// The action that a method and a target ask for.
pub open spec fn action_of(method: Seq<char>, target: Seq<char>) -> AdminRequestAction {
    if method == "GET"@ && target == "/healthz"@ {
        AdminRequestAction::Healthz
    } else if method == "GET"@ && target == "/readyz"@ {
        AdminRequestAction::Readyz
    } else if method == "GET"@ && target == "/status"@ {
        AdminRequestAction::Status
    } else if method == "GET"@ && target == "/validate"@ {
        AdminRequestAction::Validate
    } else if method == "GET"@ && target == "/audit"@ {
        AdminRequestAction::Audit
    } else if method == "POST"@ && target == "/reload"@ {
        AdminRequestAction::Reload
    } else if method == "POST"@ && target == "/restart"@ {
        AdminRequestAction::Restart
    } else if method == "POST"@ && target == "/cache/purge"@ {
        AdminRequestAction::CachePurge
    } else if method == "POST"@ && target == "/cache/invalidate"@ {
        AdminRequestAction::CacheInvalidate
    } else {
        AdminRequestAction::Unknown
    }
}

/// The action that a method and a target ask for.
pub fn classify_admin_request_action(method: &str, target: &str) -> (r: AdminRequestAction)
    ensures
        r == action_of(method@, target@),
{
    let get = str_eq(method, "GET");
    let post = str_eq(method, "POST");
    if get && str_eq(target, "/healthz") {
        AdminRequestAction::Healthz
    } else if get && str_eq(target, "/readyz") {
        AdminRequestAction::Readyz
    } else if get && str_eq(target, "/status") {
        AdminRequestAction::Status
    } else if get && str_eq(target, "/validate") {
        AdminRequestAction::Validate
    } else if get && str_eq(target, "/audit") {
        AdminRequestAction::Audit
    } else if post && str_eq(target, "/reload") {
        AdminRequestAction::Reload
    } else if post && str_eq(target, "/restart") {
        AdminRequestAction::Restart
    } else if post && str_eq(target, "/cache/purge") {
        AdminRequestAction::CachePurge
    } else if post && str_eq(target, "/cache/invalidate") {
        AdminRequestAction::CacheInvalidate
    } else {
        AdminRequestAction::Unknown
    }
}

/// The code under which an action and its outcome are recorded.
pub fn admin_audit_code(action: &str, outcome: &str) -> (r: String)
    ensures
        r@ == action@ + "_"@ + outcome@,
{
    let mut out = text(action);
    out.append("_");
    out.append(outcome);
    out
}

/// Where the first slash at or after `from` stands; the end where there is none.
pub open spec fn slash_at(s: Seq<char>, from: int) -> int
    decreases s.len() - from,
{
    if from < 0 || from >= s.len() {
        s.len() as int
    } else if s[from] == '/' {
        from
    } else {
        slash_at(s, from + 1)
    }
}

/// Whether a path segment names a version: the letter v and at least one digit.
pub open spec fn names_version(segment: Seq<char>) -> bool {
    &&& segment.len() >= 2
    &&& segment[0] == 'v'
    &&& forall|i: int| 1 <= i < segment.len() ==> '0' <= #[trigger] segment[i] && segment[i] <= '9'
}

/// The version and the rest of a target that starts with a version.
pub open spec fn version_parts(target: Seq<char>) -> Option<(Seq<char>, Seq<char>)> {
    if target.len() == 0 || target[0] != '/' {
        None
    } else {
        let end = slash_at(target, 1);
        let segment = target.subrange(1, end);
        if names_version(segment) {
            Some(
                (
                    segment,
                    if end < target.len() {
                        target.skip(end)
                    } else {
                        "/"@
                    },
                ),
            )
        } else {
            None
        }
    }
}

/// The version and the rest of a target that starts with a version.
pub fn versioned_admin_target_parts(target: &str) -> (r: Option<(String, String)>)
    ensures
        match version_parts(target@) {
            Some((version, rest)) => r matches Some((v, t)) && v@ == version && t@ == rest,
            None => r is None,
        },
{
    let chars = chars_of(target);
    let total: usize = chars.len();
    if total == 0 || chars[0] != '/' {
        return None;
    }
    let mut end: usize = 1;
    while end < total && chars[end] != '/'
        invariant
            chars@ == target@,
            total == chars@.len(),
            1 <= end <= total,
            slash_at(target@, 1) == slash_at(target@, end as int),
        decreases total - end,
    {
        end = end + 1;
    }
    let ghost segment = target@.subrange(1, end as int);
    if end < 3 || chars[1] != 'v' {
        return None;
    }
    let mut i: usize = 2;
    while i < end
        invariant
            chars@ == target@,
            2 <= i <= end <= chars@.len(),
            segment == target@.subrange(1, end as int),
            end == slash_at(target@, 1),
            target@[0] == '/',
            forall|j: int| 1 <= j < i - 1 ==> '0' <= #[trigger] segment[j] && segment[j] <= '9',
        decreases end - i,
    {
        let c = chars[i];
        proof {
            assert(segment[i - 1] == c);
        }
        if !('0' <= c && c <= '9') {
            return None;
        }
        i = i + 1;
    }
    let version = text_of(&chars, 1, end);
    let rest = if end < total {
        proof {
            assert(target@.skip(end as int) =~= target@.subrange(end as int, total as int));
        }
        text_of(&chars, end, total)
    } else {
        text("/")
    };
    Some((version, rest))
}

/// The version that a header names, with the letter v put before it where it is missing.
pub open spec fn normalized_version(value: Seq<char>) -> Option<Seq<char>> {
    let v = lowered(trimmed(value));
    if v.len() == 0 {
        None
    } else if v[0] == 'v' {
        Some(v)
    } else {
        Some("v"@ + v)
    }
}

/// The version that a header names.
pub fn normalize_admin_api_version(value: &str) -> (r: Option<String>)
    ensures
        match normalized_version(value@) {
            Some(version) => r matches Some(v) && v@ == version,
            None => r is None,
        },
{
    let inner = trim(value);
    let normalized = to_lower(inner.as_str());
    let chars = chars_of(normalized.as_str());
    if chars.len() == 0 {
        return None;
    }
    if chars[0] == 'v' {
        return Some(normalized);
    }
    let mut out = text("v");
    out.append(normalized.as_str());
    Some(out)
}

/// How a request for a version is taken.
pub open spec fn mode_for(version: Seq<char>, target: Seq<char>) -> ModeView {
    if version == stable_version() {
        ModeView::V1 { target }
    } else {
        ModeView::UnsupportedVersion {
            target,
            requested_version: version,
            detail: "unsupported admin api version "@ + version,
        }
    }
}

/// How a request for a version is taken.
pub fn admin_api_request_mode_for_version(version: String, canonical_target: String) -> (r:
    AdminApiRequestMode)
    ensures
        r@ == mode_for(version@, canonical_target@),
{
    if str_eq(version.as_str(), "v1") {
        AdminApiRequestMode::V1 { canonical_target }
    } else {
        let mut detail = text("unsupported admin api version ");
        detail.append(version.as_str());
        AdminApiRequestMode::UnsupportedVersion {
            canonical_target,
            requested_version: version,
            detail,
        }
    }
}

/// The version that a request names in its header.
pub open spec fn header_version(head: RequestHead) -> Option<Seq<char>> {
    match header_named(head.headers@, "x-lb-admin-api-version"@) {
        Some(value) => normalized_version(value),
        None => None,
    }
}

/// The version in which a request is made, by its path and its header.
pub open spec fn negotiated_mode(head: RequestHead) -> ModeView {
    match (version_parts(head.target@), header_version(head)) {
        (None, None) => ModeView::Legacy { target: head.target@ },
        (Some((version, target)), None) => mode_for(version, target),
        (None, Some(version)) => mode_for(version, head.target@),
        (Some((path_version, target)), Some(header_version)) => if path_version == header_version {
            mode_for(path_version, target)
        } else {
            ModeView::UnsupportedVersion {
                target,
                requested_version: header_version,
                detail: "conflicting admin api versions requested in path ("@ + path_version
                    + ") and header ("@ + header_version + ")"@,
            }
        },
    }
}

/// The version in which a request is made, by its path and its header.
pub fn negotiate_admin_api_request(request: &RequestHead) -> (r: AdminApiRequestMode)
    ensures
        r@ == negotiated_mode(*request),
{
    let path_version = versioned_admin_target_parts(request.target.as_str());
    let header_version = match request.header_value("x-lb-admin-api-version") {
        Some(value) => normalize_admin_api_version(value),
        None => None,
    };
    match (path_version, header_version) {
        (None, None) => AdminApiRequestMode::Legacy { canonical_target: request.target.clone() },
        (Some((version, target)), None) => admin_api_request_mode_for_version(version, target),
        (None, Some(version)) => admin_api_request_mode_for_version(
            version,
            request.target.clone(),
        ),
        (Some((path_version, target)), Some(header_version)) => {
            if str_eq(path_version.as_str(), header_version.as_str()) {
                admin_api_request_mode_for_version(path_version, target)
            } else {
                let mut detail = text("conflicting admin api versions requested in path (");
                detail.append(path_version.as_str());
                detail.append(") and header (");
                detail.append(header_version.as_str());
                detail.append(")");
                AdminApiRequestMode::UnsupportedVersion {
                    canonical_target: target,
                    requested_version: header_version,
                    detail,
                }
            }
        },
    }
}

/// The texts of a list of header lines.
pub open spec fn header_lines(list: Seq<&'static str>) -> Seq<Seq<char>> {
    list.map_values(|h: &'static str| h@)
}

/// The header lines of an answer of the versioned interface.
pub fn versioned_admin_response_headers(extra_headers: &Vec<&'static str>) -> (r: Vec<
    &'static str,
>)
    ensures
        header_lines(r@) == seq!["X-LB-Admin-Api-Version: v1"@] + header_lines(extra_headers@),
{
    let mut out: Vec<&'static str> = Vec::new();
    out.push("X-LB-Admin-Api-Version: v1");
    let mut i: usize = 0;
    while i < extra_headers.len()
        invariant
            i <= extra_headers@.len(),
            out@.len() == i + 1,
            out@[0]@ == "X-LB-Admin-Api-Version: v1"@,
            forall|j: int| 1 <= j < out@.len() ==> #[trigger] out@[j] == extra_headers@[j - 1],
        decreases extra_headers@.len() - i,
    {
        out.push(extra_headers[i]);
        i = i + 1;
    }
    proof {
        assert(header_lines(out@) =~= seq!["X-LB-Admin-Api-Version: v1"@] + header_lines(
            extra_headers@,
        ));
    }
    out
}

} // verus!
