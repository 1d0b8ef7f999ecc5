//! Where the secrets of the administration interface come from.

use crate::admin_policy::CompiledAdminAuthPolicy;
use crate::json::{bool_json, optional_view, put_bool, put_serde_string, serde_string};
use crate::named_map::name_order;
use crate::text::{chars_of, join, joined, str_eq, text, text_of, texts, trim, trimmed};
use vstd::prelude::*;
use vstd::string::*;

verus! {

/// What the environment holds for a secret.
#[derive(Debug)]
pub struct SecretReadings {
    /// The variable that may name a file with the secret.
    pub file_variable: Option<String>,
    /// The contents of that file, or the words of the error in reading it. It is looked at only
    /// where the variable names a file.
    pub file_contents: Result<String, String>,
    /// The variable that may hold the secret itself.
    pub variable: Option<String>,
}

/// The file that the environment names for a secret.
pub open spec fn named_file(readings: SecretReadings) -> Option<Seq<char>> {
    match readings.file_variable {
        Some(path) => if trimmed(path@).len() > 0 {
            Some(trimmed(path@))
        } else {
            None
        },
        None => None,
    }
}

/// The file that a variable names for a secret.
pub fn secret_file_path(file_variable: &Option<String>) -> (r: Option<String>)
    ensures
        match file_variable {
            Some(path) => if trimmed(path@).len() > 0 {
                r matches Some(p) && p@ == trimmed(path@)
            } else {
                r is None
            },
            None => r is None,
        },
{
    match file_variable {
        Some(path) => {
            let path = trim(path.as_str());
            let c = chars_of(path.as_str());
            if c.len() > 0 {
                Some(path)
            } else {
                None
            }
        },
        None => None,
    }
}

/// A secret that was found.
#[derive(Debug)]
pub struct ResolvedSecretMaterial {
    pub value: String,
    pub source_kind: &'static str,
    pub source_reference: String,
    pub supports_rotation_without_reload: bool,
}

/// Why no secret was found.
#[derive(Debug)]
pub struct SecretMaterialResolutionError {
    pub source_kind: &'static str,
    pub source_reference: String,
    pub state: &'static str,
    pub detail: String,
}

/// A secret that was found.
pub struct MaterialView {
    pub value: Seq<char>,
    pub source_kind: Seq<char>,
    pub source_reference: Seq<char>,
    pub supports_rotation_without_reload: bool,
}

/// Why no secret was found.
pub struct SecretErrorView {
    pub source_kind: Seq<char>,
    pub source_reference: Seq<char>,
    pub state: Seq<char>,
    pub detail: Seq<char>,
}

impl View for ResolvedSecretMaterial {
    type V = MaterialView;

    open spec fn view(&self) -> MaterialView {
        MaterialView {
            value: self.value@,
            source_kind: self.source_kind@,
            source_reference: self.source_reference@,
            supports_rotation_without_reload: self.supports_rotation_without_reload,
        }
    }
}

impl View for SecretMaterialResolutionError {
    type V = SecretErrorView;

    open spec fn view(&self) -> SecretErrorView {
        SecretErrorView {
            source_kind: self.source_kind@,
            source_reference: self.source_reference@,
            state: self.state@,
            detail: self.detail@,
        }
    }
}

/// A text without the line ends at its end.
pub open spec fn without_line_end(s: Seq<char>) -> Seq<char>
    decreases s.len(),
{
    if s.len() > 0 && (s.last() == '\r' || s.last() == '\n') {
        without_line_end(s.drop_last())
    } else {
        s
    }
}

/// A secret without the line ends at its end.
pub fn trim_secret_material(value: &str) -> (r: String)
    ensures
        r@ == without_line_end(value@),
{
    let chars = chars_of(value);
    let mut to: usize = chars.len();
    proof {
        assert(value@.take(to as int) =~= value@);
    }
    while to > 0 && (chars[to - 1] == '\r' || chars[to - 1] == '\n')
        invariant
            chars@ == value@,
            to <= chars@.len(),
            without_line_end(value@) == without_line_end(value@.take(to as int)),
        decreases to,
    {
        proof {
            assert(value@.take(to as int).drop_last() =~= value@.take(to - 1));
        }
        to = to - 1;
    }
    proof {
        assert(value@.subrange(0, to as int) =~= value@.take(to as int));
    }
    text_of(&chars, 0, to)
}

/// What the variable of a secret gives: where it is not set, the older secret stands in for the
/// variable of that name and nothing for any other.
pub open spec fn variable_value(secret_env: Seq<char>, legacy: Seq<char>, variable: Option<Seq<char>>) -> Seq<
    char,
> {
    match variable {
        Some(value) => value,
        None => if secret_env == "LB_CTL_ADMIN_SECRET"@ {
            legacy
        } else {
            Seq::empty()
        },
    }
}

/// The secret that the environment gives: a file that it names comes first, and failing to read
/// that file is not made good by the variable.
pub open spec fn secret_material(
    secret_env: Seq<char>,
    legacy: Seq<char>,
    readings: SecretReadings,
) -> Result<MaterialView, SecretErrorView> {
    let file_env = secret_env + "_FILE"@;
    match named_file(readings) {
        Some(path) => match readings.file_contents {
            Err(error) => Err(
                SecretErrorView {
                    source_kind: "file"@,
                    source_reference: path,
                    state: "read_failed"@,
                    detail: "admin secret file "@ + path + " from "@ + file_env
                        + " could not be read: "@ + error@,
                },
            ),
            Ok(contents) => if without_line_end(contents@).len() == 0 {
                Err(
                    SecretErrorView {
                        source_kind: "file"@,
                        source_reference: path,
                        state: "empty"@,
                        detail: "admin secret file configured via "@ + file_env + " was empty"@,
                    },
                )
            } else {
                Ok(
                    MaterialView {
                        value: without_line_end(contents@),
                        source_kind: "file"@,
                        source_reference: path,
                        supports_rotation_without_reload: true,
                    },
                )
            },
        },
        None => {
            let value = variable_value(secret_env, legacy, optional_view(readings.variable));
            if value.len() == 0 {
                Err(
                    SecretErrorView {
                        source_kind: "env"@,
                        source_reference: secret_env,
                        state: "missing"@,
                        detail: "admin secret env "@ + secret_env + " is not configured"@,
                    },
                )
            } else {
                Ok(
                    MaterialView {
                        value,
                        source_kind: "env"@,
                        source_reference: secret_env,
                        supports_rotation_without_reload: false,
                    },
                )
            }
        },
    }
}

fn is_empty(s: &str) -> (r: bool)
    ensures
        r == (s@.len() == 0),
{
    let c = chars_of(s);
    c.len() == 0
}

/// Finds the secret that the environment gives.
pub fn resolve_secret_material(
    secret_env: &str,
    legacy_admin_secret: &str,
    readings: &SecretReadings,
) -> (r: Result<ResolvedSecretMaterial, SecretMaterialResolutionError>)
    ensures
        match secret_material(secret_env@, legacy_admin_secret@, *readings) {
            Ok(material) => r matches Ok(m) && m@ == material,
            Err(error) => r matches Err(e) && e@ == error,
        },
{
    let mut file_env = text(secret_env);
    file_env.append("_FILE");
    match secret_file_path(&readings.file_variable) {
        Some(path) => {
            match &readings.file_contents {
                Err(error) => {
                    let mut detail = text("admin secret file ");
                    detail.append(path.as_str());
                    detail.append(" from ");
                    detail.append(file_env.as_str());
                    detail.append(" could not be read: ");
                    detail.append(error.as_str());
                    Err(
                        SecretMaterialResolutionError {
                            source_kind: "file",
                            source_reference: path,
                            state: "read_failed",
                            detail,
                        },
                    )
                },
                Ok(contents) => {
                    let value = trim_secret_material(contents.as_str());
                    if is_empty(value.as_str()) {
                        let mut detail = text("admin secret file configured via ");
                        detail.append(file_env.as_str());
                        detail.append(" was empty");
                        return Err(
                            SecretMaterialResolutionError {
                                source_kind: "file",
                                source_reference: path,
                                state: "empty",
                                detail,
                            },
                        );
                    }
                    Ok(
                        ResolvedSecretMaterial {
                            value,
                            source_kind: "file",
                            source_reference: path,
                            supports_rotation_without_reload: true,
                        },
                    )
                },
            }
        },
        None => {
            let value = match &readings.variable {
                Some(value) => value.clone(),
                None => {
                    if str_eq(secret_env, "LB_CTL_ADMIN_SECRET") {
                        text(legacy_admin_secret)
                    } else {
                        let nothing = String::new();
                        proof {
                            assert(nothing@ =~= Seq::<char>::empty());
                        }
                        nothing
                    }
                },
            };
            if is_empty(value.as_str()) {
                let mut detail = text("admin secret env ");
                detail.append(secret_env);
                detail.append(" is not configured");
                return Err(
                    SecretMaterialResolutionError {
                        source_kind: "env",
                        source_reference: text(secret_env),
                        state: "missing",
                        detail,
                    },
                );
            }
            Ok(
                ResolvedSecretMaterial {
                    value,
                    source_kind: "env",
                    source_reference: text(secret_env),
                    supports_rotation_without_reload: false,
                },
            )
        },
    }
}

/// A report on where a secret comes from.
#[derive(Debug)]
pub struct AdminSecretHealthStatus {
    pub listener: String,
    pub actor: String,
    pub auth_mode: String,
    pub secret_env: String,
    pub source_kind: String,
    pub source_reference: String,
    pub supports_rotation_without_reload: bool,
    pub healthy: bool,
    pub state: String,
    pub detail: String,
}

impl AdminSecretHealthStatus {
    /// Whether this is the report on a secret, for the given listener, actor and mode.
    pub open spec fn reports(
        self,
        owner: (Seq<char>, Seq<char>, Seq<char>),
        secret_env: Seq<char>,
        legacy: Seq<char>,
        readings: SecretReadings,
    ) -> bool {
        &&& self.listener@ == owner.0
        &&& self.actor@ == owner.1
        &&& self.auth_mode@ == owner.2
        &&& self.secret_env@ == secret_env
        &&& match secret_material(secret_env, legacy, readings) {
            Ok(material) => {
                &&& self.source_kind@ == material.source_kind
                &&& self.source_reference@ == material.source_reference
                &&& self.supports_rotation_without_reload
                    == material.supports_rotation_without_reload
                &&& self.healthy
                &&& self.state@ == "loaded"@
                &&& self.detail@ == "secret material loaded"@
            },
            Err(error) => {
                &&& self.source_kind@ == error.source_kind
                &&& self.source_reference@ == error.source_reference
                &&& self.supports_rotation_without_reload == (error.source_kind == "file"@)
                &&& !self.healthy
                &&& self.state@ == error.state
                &&& self.detail@ == error.detail
            },
        }
    }

    /// The report as a JSON object.
    pub open spec fn json(self) -> Seq<char> {
        "{\"listener\":"@ + serde_string(self.listener@) + ",\"actor\":"@ + serde_string(self.actor@)
            + ",\"auth_mode\":"@ + serde_string(self.auth_mode@) + ",\"secret_env\":"@
            + serde_string(self.secret_env@) + ",\"source_kind\":"@ + serde_string(
            self.source_kind@,
        ) + ",\"source_reference\":"@ + serde_string(self.source_reference@)
            + ",\"supports_rotation_without_reload\":"@ + bool_json(
            self.supports_rotation_without_reload,
        ) + ",\"healthy\":"@ + bool_json(self.healthy) + ",\"state\":"@ + serde_string(self.state@)
            + ",\"detail\":"@ + serde_string(self.detail@) + "}"@
    }

    /// The report as a JSON object.
    pub fn to_json(&self) -> (r: String)
        ensures
            r@ == self.json(),
    {
        let mut out = text("{\"listener\":");
        put_serde_string(&mut out, self.listener.as_str());
        out.append(",\"actor\":");
        put_serde_string(&mut out, self.actor.as_str());
        out.append(",\"auth_mode\":");
        put_serde_string(&mut out, self.auth_mode.as_str());
        out.append(",\"secret_env\":");
        put_serde_string(&mut out, self.secret_env.as_str());
        out.append(",\"source_kind\":");
        put_serde_string(&mut out, self.source_kind.as_str());
        out.append(",\"source_reference\":");
        put_serde_string(&mut out, self.source_reference.as_str());
        out.append(",\"supports_rotation_without_reload\":");
        put_bool(&mut out, self.supports_rotation_without_reload);
        out.append(",\"healthy\":");
        put_bool(&mut out, self.healthy);
        out.append(",\"state\":");
        put_serde_string(&mut out, self.state.as_str());
        out.append(",\"detail\":");
        put_serde_string(&mut out, self.detail.as_str());
        out.append("}");
        out
    }
}

/// Reports on a secret without saying whose it is.
pub fn inspect_secret_material(
    secret_env: &str,
    legacy_admin_secret: &str,
    readings: &SecretReadings,
) -> (r: AdminSecretHealthStatus)
    ensures
        r.reports(
            (Seq::empty(), Seq::empty(), Seq::empty()),
            secret_env@,
            legacy_admin_secret@,
            *readings,
        ),
{
    let listener = String::new();
    let actor = String::new();
    let auth_mode = String::new();
    proof {
        assert(listener@ =~= Seq::<char>::empty());
        assert(actor@ =~= Seq::<char>::empty());
        assert(auth_mode@ =~= Seq::<char>::empty());
    }
    match resolve_secret_material(secret_env, legacy_admin_secret, readings) {
        Ok(material) => AdminSecretHealthStatus {
            listener,
            actor,
            auth_mode,
            secret_env: text(secret_env),
            source_kind: text(material.source_kind),
            source_reference: material.source_reference,
            supports_rotation_without_reload: material.supports_rotation_without_reload,
            healthy: true,
            state: text("loaded"),
            detail: text("secret material loaded"),
        },
        Err(error) => AdminSecretHealthStatus {
            listener,
            actor,
            auth_mode,
            secret_env: text(secret_env),
            source_kind: text(error.source_kind),
            source_reference: error.source_reference,
            supports_rotation_without_reload: str_eq(error.source_kind, "file"),
            healthy: false,
            state: text(error.state),
            detail: error.detail,
        },
    }
}

/// Who needs a secret.
#[derive(Debug)]
pub struct SecretOwner {
    pub listener: String,
    pub actor: String,
    pub auth_mode: &'static str,
    pub secret_env: String,
}

impl DeepView for SecretOwner {
    type V = ((Seq<char>, Seq<char>, Seq<char>), Seq<char>);

    open spec fn deep_view(&self) -> ((Seq<char>, Seq<char>, Seq<char>), Seq<char>) {
        ((self.listener@, self.actor@, self.auth_mode@), self.secret_env@)
    }
}

/// What an administration policy needs secrets for, on a listener.
pub open spec fn policy_owners(listener: Seq<char>, auth: CompiledAdminAuthPolicy) -> Seq<
    ((Seq<char>, Seq<char>, Seq<char>), Seq<char>),
> {
    match auth {
        CompiledAdminAuthPolicy::Bearer { secret_env, .. } => seq![
            ((listener, "shared-bearer"@, "bearer"@), secret_env@),
        ],
        CompiledAdminAuthPolicy::SignedHeaders { operators, .. } => name_order(
            operators@,
        ).map_values(
            |actor: Seq<char>|
                ((listener, actor, "signed_headers"@), operators@[actor].secret_env@),
        ),
    }
}

/// Lists what an administration policy needs secrets for, on a listener: operators in the order of
/// their names.
pub fn secret_owners(listener: &str, auth: &CompiledAdminAuthPolicy) -> (r: Vec<SecretOwner>)
    ensures
        r.deep_view() == policy_owners(listener@, *auth),
{
    let mut out: Vec<SecretOwner> = Vec::new();
    match auth {
        CompiledAdminAuthPolicy::Bearer { secret_env, .. } => {
            out.push(
                SecretOwner {
                    listener: text(listener),
                    actor: text("shared-bearer"),
                    auth_mode: "bearer",
                    secret_env: secret_env.clone(),
                },
            );
        },
        CompiledAdminAuthPolicy::SignedHeaders { operators, .. } => {
            let ghost names = operators.names();
            let total: usize = operators.len();
            let mut i: usize = 0;
            while i < total
                invariant
                    total == names.len(),
                    names == operators.names(),
                    i <= total,
                    out@.len() == i,
                    forall|j: int|
                        0 <= j < i ==> (#[trigger] out@[j]).deep_view() == (
                            (listener@, names[j], "signed_headers"@),
                            operators@[names[j]].secret_env@,
                        ),
                decreases total - i,
            {
                let actor = operators.name_at(i);
                let operator = operators.value_at(i);
                out.push(
                    SecretOwner {
                        listener: text(listener),
                        actor: actor.clone(),
                        auth_mode: "signed_headers",
                        secret_env: operator.secret_env.clone(),
                    },
                );
                i = i + 1;
            }
        },
    }
    proof {
        assert(out.deep_view() =~= policy_owners(listener@, *auth));
    }
    out
}

/// Reports on the secret that someone needs.
pub fn report_secret(
    owner: &SecretOwner,
    legacy_admin_secret: &str,
    readings: &SecretReadings,
) -> (r: AdminSecretHealthStatus)
    ensures
        r.reports(
            owner.deep_view().0,
            owner.secret_env@,
            legacy_admin_secret@,
            *readings,
        ),
{
    let status = inspect_secret_material(
        owner.secret_env.as_str(),
        legacy_admin_secret,
        readings,
    );
    AdminSecretHealthStatus {
        listener: owner.listener.clone(),
        actor: owner.actor.clone(),
        auth_mode: text(owner.auth_mode),
        ..status
    }
}

/// Reports on secrets.
#[derive(Debug)]
pub struct AdminAuthStatus {
    pub secret_sources: Vec<AdminSecretHealthStatus>,
}

impl AdminAuthStatus {
    /// The reports as a JSON object.
    pub open spec fn json(self) -> Seq<char> {
        "{\"secret_sources\":["@ + joined(
            self.secret_sources@.map_values(|status: AdminSecretHealthStatus| status.json()),
            ","@,
        ) + "]}"@
    }

    /// The reports as a JSON object.
    pub fn to_json(&self) -> (r: String)
        ensures
            r@ == self.json(),
    {
        let mut items: Vec<String> = Vec::new();
        let mut i: usize = 0;
        while i < self.secret_sources.len()
            invariant
                i <= self.secret_sources@.len(),
                items@.len() == i,
                forall|j: int|
                    0 <= j < i ==> (#[trigger] items@[j])@ == self.secret_sources@[j].json(),
            decreases self.secret_sources@.len() - i,
        {
            items.push(self.secret_sources[i].to_json());
            i = i + 1;
        }
        proof {
            assert(texts(items@) =~= self.secret_sources@.map_values(
                |status: AdminSecretHealthStatus| status.json(),
            ));
        }
        let all = join(&items, ",");
        let mut out = text("{\"secret_sources\":[");
        out.append(all.as_str());
        out.append("]}");
        out
    }
}

} // verus!
