//! Records of what was done through the administration interface, and of which configuration
//! is in force.

use crate::json::{escaped, put_escaped};
use crate::text::text;
use vstd::prelude::*;
use vstd::string::*;

verus! {

/// One action that was asked for through the administration interface.
#[derive(Debug)]
pub struct AdminAuditEvent {
    pub observed_at_unix_ms: u64,
    pub request_id: String,
    pub listener: String,
    pub actor: String,
    pub auth_mode: String,
    pub action: String,
    pub code: String,
    pub source: String,
    pub outcome: String,
    pub detail: String,
}

impl Clone for AdminAuditEvent {
    fn clone(&self) -> (r: Self)
        ensures
            r == *self,
    {
        AdminAuditEvent {
            observed_at_unix_ms: self.observed_at_unix_ms,
            request_id: self.request_id.clone(),
            listener: self.listener.clone(),
            actor: self.actor.clone(),
            auth_mode: self.auth_mode.clone(),
            action: self.action.clone(),
            code: self.code.clone(),
            source: self.source.clone(),
            outcome: self.outcome.clone(),
            detail: self.detail.clone(),
        }
    }
}

/// What a compiled configuration says of itself.
#[derive(Debug)]
pub struct SnapshotMetadata {
    pub digest_sha256: String,
    /// The name of the configuration language's version, where it has one.
    pub api_version: Option<String>,
    pub format_version: String,
}

/// Which configuration a record speaks of.
#[derive(Debug)]
pub struct DurableSnapshotIdentity {
    pub source_label: String,
    pub digest_sha256: String,
    pub api_version: String,
    pub snapshot_format_version: String,
}

impl Clone for DurableSnapshotIdentity {
    fn clone(&self) -> (r: Self)
        ensures
            r == *self,
    {
        DurableSnapshotIdentity {
            source_label: self.source_label.clone(),
            digest_sha256: self.digest_sha256.clone(),
            api_version: self.api_version.clone(),
            snapshot_format_version: self.snapshot_format_version.clone(),
        }
    }
}

impl DurableSnapshotIdentity {
    /// The identity of a compiled configuration that came from `source_label`.
    pub fn from_snapshot(source_label: &str, metadata: &SnapshotMetadata) -> (r: Self)
        ensures
            r.source_label@ == source_label@,
            r.digest_sha256 == metadata.digest_sha256,
            match metadata.api_version {
                Some(version) => r.api_version == version,
                None => r.api_version@ == "unknown"@,
            },
            r.snapshot_format_version == metadata.format_version,
    {
        DurableSnapshotIdentity {
            source_label: text(source_label),
            digest_sha256: metadata.digest_sha256.clone(),
            api_version: match &metadata.api_version {
                Some(version) => version.clone(),
                None => text("unknown"),
            },
            snapshot_format_version: metadata.format_version.clone(),
        }
    }

    /// The identity as a JSON object.
    pub open spec fn json(self) -> Seq<char> {
        "{\"source_label\":\""@ + escaped(self.source_label@) + "\",\"digest_sha256\":\""@
            + escaped(self.digest_sha256@) + "\",\"api_version\":\""@ + escaped(self.api_version@)
            + "\",\"snapshot_format_version\":\""@ + escaped(self.snapshot_format_version@)
            + "\"}"@
    }

    /// The identity as a JSON object.
    pub fn to_json(&self) -> (r: String)
        ensures
            r@ == self.json(),
    {
        let mut out = text("{\"source_label\":\"");
        put_escaped(&mut out, self.source_label.as_str());
        out.append("\",\"digest_sha256\":\"");
        put_escaped(&mut out, self.digest_sha256.as_str());
        out.append("\",\"api_version\":\"");
        put_escaped(&mut out, self.api_version.as_str());
        out.append("\",\"snapshot_format_version\":\"");
        put_escaped(&mut out, self.snapshot_format_version.as_str());
        out.append("\"}");
        out
    }
}

/// An identity that may be missing, as a JSON object or `null`.
pub open spec fn optional_identity_json(identity: Option<DurableSnapshotIdentity>) -> Seq<char> {
    match identity {
        Some(identity) => identity.json(),
        None => "null"@,
    }
}

/// Appends an identity that may be missing.
pub fn put_optional_identity(out: &mut String, identity: &Option<DurableSnapshotIdentity>)
    ensures
        final(out)@ == old(out)@ + optional_identity_json(*identity),
{
    match identity {
        Some(identity) => {
            let json = identity.to_json();
            out.append(json.as_str());
        },
        None => {
            out.append("null");
        },
    }
}

} // verus!
