//! Who may call what: identities of the console, tokens of internal callers,
//! and what of a list each of them may see.
use crate::control::billing_projection::{date, date_at, Date};
use crate::control::clusters::{audit, AuditDraft, AuditPayload};
use crate::control::error::{internal, invalid, refused, Fault, ServiceError, ServiceResult};
use crate::crypto::{digest, same_bytes, sha256};
use crate::domain::routing::RoutePolicy;
use crate::domain::{
    fits_i64, ApiKey, BillingOrder, BillingSummary, Invoice, LedgerTransaction, Payment,
    PlatformUser, Project, ProjectBilling, Refund, TenantMembership, Timestamp,
};
use crate::headers::{first_visible, header, header_values};
use crate::json::{document, json_of, parse, text, Json, Record};
use crate::text::{
    byte_len, bytes_of, is_listed, join, listed, same, starts_with, strip_prefix, trim,
    trim_slashes, trimmed, without_slashes,
};
use crate::time::{datable, day_start, start_of, LAST_YEAR};
use vstd::prelude::*;

verus! {

/// The user of a console request.
pub struct UserContext {
    pub user: PlatformUser,
    /// Whether the console runs without authentication, as in development.
    pub auth_disabled: bool,
}

pub open spec fn member_of(m: TenantMembership, tenant: Seq<char>) -> bool {
    m.tenant_id@ == tenant
}

pub open spec fn owner_of(m: TenantMembership, tenant: Seq<char>) -> bool {
    m.tenant_id@ == tenant && m.role@ == "owner"@
}

impl UserContext {
    /// The user belongs to the tenant.
    pub open spec fn accesses(self, tenant: Seq<char>) -> bool {
        self.auth_disabled || exists|i: int|
            0 <= i < self.user.memberships@.len() && member_of(
                #[trigger] self.user.memberships@[i],
                tenant,
            )
    }

    /// The user owns some tenant.
    pub open spec fn owns(self) -> bool {
        self.auth_disabled || exists|i: int|
            0 <= i < self.user.memberships@.len() && (
            #[trigger] self.user.memberships@[i]).role@ == "owner"@
    }

    /// The user owns the tenant.
    pub open spec fn manages(self, tenant: Seq<char>) -> bool {
        self.auth_disabled || exists|i: int|
            0 <= i < self.user.memberships@.len() && owner_of(
                #[trigger] self.user.memberships@[i],
                tenant,
            )
    }

    pub fn can_access(&self, tenant_id: &str) -> (r: bool)
        ensures
            r == self.accesses(tenant_id@),
    {
        if self.auth_disabled {
            return true;
        }
        let memberships = &self.user.memberships;
        let mut i: usize = 0;
        while i < memberships.len()
            invariant
                i <= memberships@.len(),
                memberships@ == self.user.memberships@,
                !self.auth_disabled,
                forall|j: int| 0 <= j < i ==> !member_of(#[trigger] memberships@[j], tenant_id@),
            decreases memberships.len() - i,
        {
            if same(memberships[i].tenant_id.as_str(), tenant_id) {
                assert(member_of(self.user.memberships@[i as int], tenant_id@));
                return true;
            }
            i += 1;
        }
        false
    }

    pub fn is_owner(&self) -> (r: bool)
        ensures
            r == self.owns(),
    {
        if self.auth_disabled {
            return true;
        }
        let memberships = &self.user.memberships;
        let mut i: usize = 0;
        while i < memberships.len()
            invariant
                i <= memberships@.len(),
                memberships@ == self.user.memberships@,
                !self.auth_disabled,
                forall|j: int| 0 <= j < i ==> (#[trigger] memberships@[j]).role@ != "owner"@,
            decreases memberships.len() - i,
        {
            if same(memberships[i].role.as_str(), "owner") {
                assert(self.user.memberships@[i as int].role@ == "owner"@);
                return true;
            }
            i += 1;
        }
        false
    }

    pub fn can_manage(&self, tenant_id: &str) -> (r: bool)
        ensures
            r == self.manages(tenant_id@),
    {
        if self.auth_disabled {
            return true;
        }
        let memberships = &self.user.memberships;
        let mut i: usize = 0;
        while i < memberships.len()
            invariant
                i <= memberships@.len(),
                memberships@ == self.user.memberships@,
                !self.auth_disabled,
                forall|j: int| 0 <= j < i ==> !owner_of(#[trigger] memberships@[j], tenant_id@),
            decreases memberships.len() - i,
        {
            if same(memberships[i].tenant_id.as_str(), tenant_id) && same(
                memberships[i].role.as_str(),
                "owner",
            ) {
                assert(owner_of(self.user.memberships@[i as int], tenant_id@));
                return true;
            }
            i += 1;
        }
        false
    }
}

pub open spec fn forbidden_unless(allowed: bool) -> Option<Fault> {
    if allowed {
        None
    } else {
        Some(Fault::Forbidden)
    }
}

fn allow(allowed: bool) -> (r: ServiceResult<()>)
    ensures
        refused(r, forbidden_unless(allowed)),
{
    if allowed {
        Ok(())
    } else {
        Err(ServiceError::Forbidden)
    }
}

/// Platform administrators are named by their subjects.
pub fn platform_admin(subjects: &Vec<String>, context: &UserContext) -> (r: ServiceResult<()>)
    ensures
        refused(
            r,
            forbidden_unless(
                context.auth_disabled || listed(subjects@, context.user.external_subject@),
            ),
        ),
{
    allow(context.auth_disabled || is_listed(subjects, context.user.external_subject.as_str()))
}

/// Those who may decide billing cases are named by their subjects. Without authentication there
/// is none.
pub fn is_billing_reviewer(subjects: &Vec<String>, context: &UserContext) -> (r: bool)
    ensures
        r == (!context.auth_disabled && listed(subjects@, context.user.external_subject@)),
{
    !context.auth_disabled && is_listed(subjects, context.user.external_subject.as_str())
}

/// A loss is waived, and a case decided, by those who are named for it only: never by
/// a customer.
pub fn require_billing_reviewer(subjects: &Vec<String>, context: &UserContext) -> (r: ServiceResult<
    (),
>)
    ensures
        refused(
            r,
            forbidden_unless(
                !context.auth_disabled && listed(subjects@, context.user.external_subject@),
            ),
        ),
{
    allow(is_billing_reviewer(subjects, context))
}

pub fn require_tenant(context: &UserContext, tenant_id: &str) -> (r: ServiceResult<()>)
    ensures
        refused(r, forbidden_unless(context.accesses(tenant_id@))),
{
    allow(context.can_access(tenant_id))
}

pub fn require_owner(context: &UserContext) -> (r: ServiceResult<()>)
    ensures
        refused(r, forbidden_unless(context.owns())),
{
    allow(context.is_owner())
}

pub fn require_tenant_owner(context: &UserContext, tenant_id: &str) -> (r: ServiceResult<()>)
    ensures
        refused(r, forbidden_unless(context.manages(tenant_id@))),
{
    allow(context.can_manage(tenant_id))
}

/// The tenant of a project, by the first project of its name.
pub open spec fn project_tenant(projects: Seq<Project>, id: Seq<char>) -> Option<Seq<char>>
    decreases projects.len(),
{
    if projects.len() == 0 {
        None
    } else if projects[0].id@ == id {
        Some(projects[0].tenant_id@)
    } else {
        project_tenant(projects.skip(1), id)
    }
}

pub(crate) fn find_project(projects: &Vec<Project>, id: &str) -> (r: Option<usize>)
    ensures
        match r {
            Some(i) => i < projects@.len() && project_tenant(projects@, id@) == Some(
                projects@[i as int].tenant_id@,
            ),
            None => project_tenant(projects@, id@) is None,
        },
{
    let mut i: usize = 0;
    assert(projects@.skip(0) =~= projects@);
    while i < projects.len()
        invariant
            i <= projects@.len(),
            project_tenant(projects@, id@) == project_tenant(projects@.skip(i as int), id@),
        decreases projects.len() - i,
    {
        assert(projects@.skip(i as int)[0] == projects@[i as int]);
        assert(projects@.skip(i as int).skip(1) =~= projects@.skip(i as int + 1));
        if same(projects[i].id.as_str(), id) {
            return Some(i);
        }
        i += 1;
    }
    None
}

/// Whether the user may see a project. One that is not there is said to be
/// missing.
pub fn authorize_project(projects: &Vec<Project>, context: &UserContext, project_id: &str) -> (r:
    ServiceResult<()>)
    ensures
        refused(
            r,
            match project_tenant(projects@, project_id@) {
                None => Some(Fault::NotFound),
                Some(tenant) => forbidden_unless(context.accesses(tenant)),
            },
        ),
{
    match find_project(projects, project_id) {
        None => Err(ServiceError::NotFound),
        Some(i) => require_tenant(context, projects[i].tenant_id.as_str()),
    }
}

/// Whether the user owns the tenant of a project.
pub fn authorize_project_owner(
    projects: &Vec<Project>,
    context: &UserContext,
    project_id: &str,
) -> (r: ServiceResult<()>)
    ensures
        refused(
            r,
            match project_tenant(projects@, project_id@) {
                None => Some(Fault::NotFound),
                Some(tenant) => forbidden_unless(context.manages(tenant)),
            },
        ),
{
    match find_project(projects, project_id) {
        None => Err(ServiceError::NotFound),
        Some(i) => require_tenant_owner(context, projects[i].tenant_id.as_str()),
    }
}

/// Evidence for a case comes from an owner of the project who is known by name: nobody is
/// without authentication.
pub fn authorize_evidence(projects: &Vec<Project>, context: &UserContext, project_id: &str) -> (r:
    ServiceResult<()>)
    ensures
        refused(
            r,
            if context.auth_disabled {
                Some(Fault::Forbidden)
            } else {
                match project_tenant(projects@, project_id@) {
                    None => Some(Fault::NotFound),
                    Some(tenant) => forbidden_unless(context.manages(tenant)),
                }
            },
        ),
{
    if context.auth_disabled {
        return Err(ServiceError::Forbidden);
    }
    authorize_project_owner(projects, context, project_id)
}

/// Those who decide billing cases read the cases of every project, owners those of their own.
pub fn authorize_billing_review_read(
    subjects: &Vec<String>,
    projects: &Vec<Project>,
    context: &UserContext,
    project_id: &str,
) -> (r: ServiceResult<()>)
    ensures
        refused(
            r,
            if !context.auth_disabled && listed(subjects@, context.user.external_subject@) {
                None
            } else {
                match project_tenant(projects@, project_id@) {
                    None => Some(Fault::NotFound),
                    Some(tenant) => forbidden_unless(context.manages(tenant)),
                }
            },
        ),
{
    if is_billing_reviewer(subjects, context) {
        return Ok(());
    }
    authorize_project_owner(projects, context, project_id)
}

/// The first of some headers that shows a text that is not blank, trimmed.
pub open spec fn first_of(
    values: Map<Seq<char>, Seq<Seq<u8>>>,
    names: Seq<&'static str>,
) -> Option<Seq<char>>
    decreases names.len(),
{
    if names.len() == 0 {
        None
    } else {
        match first_visible(values, names[0]@) {
            Some(text) if trimmed(text).len() > 0 => Some(trimmed(text)),
            _ => first_of(values, names.skip(1)),
        }
    }
}

pub fn first_header(
    headers: &http::HeaderMap<http::HeaderValue>,
    names: &Vec<&'static str>,
) -> (r: Option<String>)
    ensures
        match r {
            Some(text) => first_of(header_values(*headers), names@) == Some(text@),
            None => first_of(header_values(*headers), names@) is None,
        },
{
    let mut i: usize = 0;
    assert(names@.skip(0) =~= names@);
    while i < names.len()
        invariant
            i <= names@.len(),
            first_of(header_values(*headers), names@) == first_of(
                header_values(*headers),
                names@.skip(i as int),
            ),
        decreases names.len() - i,
    {
        assert(names@.skip(i as int)[0] == names@[i as int]);
        assert(names@.skip(i as int).skip(1) =~= names@.skip(i as int + 1));
        if let Some(text) = header(headers, names[i]) {
            let text = trim(text);
            if !text.is_empty() {
                return Some(text.to_owned());
            }
        }
        i += 1;
    }
    None
}

/// Who the user of a console request is, and the role that a first login gets
/// in the default tenant.
pub struct ConsoleSubject {
    pub subject: String,
    pub username: String,
    pub email: String,
    pub auth_disabled: bool,
    pub default_role: Option<&'static str>,
}

/// How the console is set up.
pub struct ConsoleSettings {
    /// Whether identities come from headers that a trusted proxy sets.
    pub console_auth: bool,
    pub bootstrap_admin_users: Vec<String>,
    pub auto_join_default_tenant: bool,
}

pub open spec fn user_names() -> Seq<&'static str> {
    seq![
        "x-auth-request-preferred-username",
        "x-forwarded-preferred-username",
        "x-auth-request-user",
        "x-forwarded-user",
    ]
}

pub open spec fn email_names() -> Seq<&'static str> {
    seq!["x-auth-request-email", "x-forwarded-email"]
}

pub open spec fn subject_names() -> Seq<&'static str> {
    seq!["x-auth-request-sub", "x-forwarded-sub", "x-auth-request-user", "x-forwarded-user"]
}

pub open spec fn identified(values: Map<Seq<char>, Seq<Seq<u8>>>, s: ConsoleSubject) -> bool {
    &&& first_of(values, user_names()) == Some(s.username@)
    &&& s.email@ == match first_of(values, email_names()) {
        Some(email) => email,
        None => ""@,
    }
    &&& s.subject@ == match first_of(values, subject_names()) {
        Some(subject) => subject,
        None => s.username@,
    }
    &&& !s.auth_disabled
}

/// Identifies the user of a console request. With authentication, the name of
/// the user must be in a header; without, everyone is the developer.
pub fn console_identity(
    settings: &ConsoleSettings,
    headers: &http::HeaderMap<http::HeaderValue>,
) -> (r: ServiceResult<ConsoleSubject>)
    ensures
        refused(
            r,
            if settings.console_auth && first_of(header_values(*headers), user_names()) is None {
                Some(Fault::Unauthorized)
            } else {
                None
            },
        ),
        r matches Ok(s) ==> {
            let admin = s.auth_disabled || listed(
                settings.bootstrap_admin_users@,
                s.username@,
            ) || listed(settings.bootstrap_admin_users@, s.email@);
            &&& if settings.console_auth {
                identified(header_values(*headers), s)
            } else {
                &&& s.subject@ == "development-user"@
                &&& s.username@ == "development-user"@
                &&& s.email@ == "development@local.xscope"@
                &&& s.auth_disabled
            }
            &&& match s.default_role {
                Some(role) => role@ == if admin {
                    "owner"@
                } else {
                    "member"@
                } && (admin || settings.auto_join_default_tenant),
                None => !admin && !settings.auto_join_default_tenant,
            }
        },
{
    let (subject, username, email, auth_disabled) = if settings.console_auth {
        let users: Vec<&'static str> = vec![
            "x-auth-request-preferred-username",
            "x-forwarded-preferred-username",
            "x-auth-request-user",
            "x-forwarded-user",
        ];
        assert(users@ =~= user_names());
        let username = match first_header(headers, &users) {
            Some(username) => username,
            None => return Err(ServiceError::Unauthorized),
        };
        let emails: Vec<&'static str> = vec!["x-auth-request-email", "x-forwarded-email"];
        assert(emails@ =~= email_names());
        let email = match first_header(headers, &emails) {
            Some(email) => email,
            None => "".to_owned(),
        };
        let subjects: Vec<&'static str> = vec![
            "x-auth-request-sub",
            "x-forwarded-sub",
            "x-auth-request-user",
            "x-forwarded-user",
        ];
        assert(subjects@ =~= subject_names());
        let subject = match first_header(headers, &subjects) {
            Some(subject) => subject,
            None => username.clone(),
        };
        (subject, username, email, false)
    } else {
        (
            "development-user".to_owned(),
            "development-user".to_owned(),
            "development@local.xscope".to_owned(),
            true,
        )
    };
    let admin = auth_disabled || is_listed(&settings.bootstrap_admin_users, username.as_str())
        || is_listed(&settings.bootstrap_admin_users, email.as_str());
    let default_role = if admin {
        Some("owner")
    } else if settings.auto_join_default_tenant {
        Some("member")
    } else {
        None
    };
    Ok(ConsoleSubject { subject, username, email, auth_disabled, default_role })
}

pub open spec fn mutation_text(method: Seq<char>) -> bool {
    method == "POST"@ || method == "PUT"@ || method == "PATCH"@ || method == "DELETE"@
}

/// Whether a request may change something. The intent of such a request is
/// recorded before it runs.
pub fn is_mutation(method: &str) -> (r: bool)
    ensures
        r == mutation_text(method@),
{
    same(method, "POST") || same(method, "PUT") || same(method, "PATCH") || same(method, "DELETE")
}

/// The route of a request, or the name of there being none.
pub open spec fn route_text(route: Option<&str>) -> Seq<char> {
    match route {
        Some(route) => route@,
        None => "unmatched"@,
    }
}

fn route_name<'a>(route: Option<&'a str>) -> (r: &'a str)
    ensures
        r@ == route_text(route),
{
    match route {
        Some(route) => route,
        None => "unmatched",
    }
}

/// What is recorded of a request before it runs: the intent of each that may
/// change something, and of no other.
pub fn console_intent(actor: &str, method: &str, route: Option<&str>) -> (r: Option<AuditDraft>)
    ensures
        match r {
            Some(draft) => {
                &&& mutation_text(method@)
                &&& draft.actor_id@ == actor@
                &&& draft.action@ == "console.intent"@
                &&& draft.resource_id@ == route_text(route)
                &&& draft.payload matches AuditPayload::Intended { method: named } && named@
                    == method@
            },
            None => !mutation_text(method@),
        },
{
    if !is_mutation(method) {
        return None;
    }
    Some(
        audit(
            actor,
            "console.intent",
            route_name(route),
            AuditPayload::Intended { method: method.to_owned() },
        ),
    )
}

/// What is recorded of a request after it ran: how it was answered, under the
/// name of its intent.
pub fn console_completion(actor: &str, route: Option<&str>, intent_id: &str, status: u16) -> (r:
    AuditDraft)
    ensures
        r.actor_id@ == actor@,
        r.action@ == "console.completed"@,
        r.resource_id@ == route_text(route),
        r.payload matches AuditPayload::Completed { intent_id: id, status: answered } && id@
            == intent_id@ && answered == status,
{
    audit(
        actor,
        "console.completed",
        route_name(route),
        AuditPayload::Completed { intent_id: intent_id.to_owned(), status },
    )
}

/// The text of the authorization header, or nothing.
pub open spec fn authorization(values: Map<Seq<char>, Seq<Seq<u8>>>) -> Seq<char> {
    match first_visible(values, "authorization"@) {
        Some(text) => text,
        None => ""@,
    }
}

/// The token behind `Bearer` in the authorization header.
pub open spec fn bearer(values: Map<Seq<char>, Seq<Seq<u8>>>) -> Option<Seq<char>> {
    match first_visible(values, "authorization"@) {
        Some(text) if "Bearer "@.is_prefix_of(text) => Some(text.skip("Bearer "@.len() as int)),
        _ => None,
    }
}

fn bearer_token<'a>(headers: &'a http::HeaderMap<http::HeaderValue>) -> (r: Option<&'a str>)
    ensures
        match r {
            Some(token) => bearer(header_values(*headers)) == Some(token@),
            None => bearer(header_values(*headers)) is None,
        },
{
    match header(headers, "authorization") {
        Some(text) => strip_prefix(text, "Bearer "),
        None => None,
    }
}

/// The credential of a cluster, which always has the same length.
pub fn cluster_bearer<'a>(headers: &'a http::HeaderMap<http::HeaderValue>) -> (r: ServiceResult<
    &'a str,
>)
    ensures
        refused(
            r,
            match bearer(header_values(*headers)) {
                Some(token) if bytes_of(token).len() == 43 => None,
                _ => Some(Fault::Unauthorized),
            },
        ),
        r matches Ok(token) ==> bearer(header_values(*headers)) == Some(token@),
{
    match bearer_token(headers) {
        Some(token) => if byte_len(token) == 43 {
            Ok(token)
        } else {
            Err(ServiceError::Unauthorized)
        },
        None => Err(ServiceError::Unauthorized),
    }
}

pub open spec fn internal_auth_fault(
    token: Seq<char>,
    values: Map<Seq<char>, Seq<Seq<u8>>>,
) -> Option<Fault> {
    if token.len() == 0 {
        Some(Fault::InternalAuthUnavailable)
    } else if sha256(bytes_of("Bearer "@ + token)) == sha256(bytes_of(authorization(values))) {
        None
    } else {
        Some(Fault::InvalidInternalToken)
    }
}

/// Authenticates an internal caller by the token that all of them share. The
/// digests are compared, in the same time whatever they hold.
pub fn internal_auth(token: &str, headers: &http::HeaderMap<http::HeaderValue>) -> (r: ServiceResult<
    (),
>)
    ensures
        refused(r, internal_auth_fault(token@, header_values(*headers))),
{
    if token.is_empty() {
        return Err(ServiceError::InternalAuthUnavailable);
    }
    let expected = digest(join("Bearer ", token).as_str().as_bytes());
    let supplied = match header(headers, "authorization") {
        Some(text) => text,
        None => "",
    };
    let candidate = digest(supplied.as_bytes());
    if same_bytes(&expected, &candidate) {
        Ok(())
    } else {
        Err(ServiceError::InvalidInternalToken)
    }
}

pub open spec fn alert_fault(
    token: Option<String>,
    values: Map<Seq<char>, Seq<Seq<u8>>>,
    size: int,
) -> Option<Fault> {
    if token is None {
        Some(Fault::InternalAuthUnavailable)
    } else if !(bearer(values) matches Some(supplied) && bytes_of(supplied) == bytes_of(token->0@)) {
        Some(Fault::Unauthorized)
    } else if size > 262_144 {
        Some(Fault::Invalid("alert payload too large"@))
    } else {
        None
    }
}

/// Lets an alert notification in, before its body is parsed. `token` is the
/// one that is configured.
pub fn admit_alerts(
    token: &Option<String>,
    headers: &http::HeaderMap<http::HeaderValue>,
    body: &[u8],
) -> (r: ServiceResult<()>)
    ensures
        refused(r, alert_fault(*token, header_values(*headers), body@.len() as int)),
{
    let token = match token {
        Some(token) => token,
        None => return Err(ServiceError::InternalAuthUnavailable),
    };
    let supplied = match bearer_token(headers) {
        Some(supplied) => supplied,
        None => return Err(ServiceError::Unauthorized),
    };
    if !same_bytes(token.as_str().as_bytes(), supplied.as_bytes()) {
        return Err(ServiceError::Unauthorized);
    }
    if body.len() > 262_144 {
        return Err(invalid("alert payload too large"));
    }
    Ok(())
}

/// The key under which a repeated request is recognised.
pub fn require_idempotency_key(headers: &http::HeaderMap<http::HeaderValue>) -> (r: ServiceResult<
    String,
>)
    ensures
        ({
            let key = match first_visible(header_values(*headers), "idempotency-key"@) {
                Some(text) => text,
                None => ""@,
            };
            &&& refused(
                r,
                if 16 <= bytes_of(key).len() <= 128 {
                    None
                } else {
                    Some(Fault::Invalid("Idempotency-Key must be 16 to 128 bytes"@))
                },
            )
            &&& r matches Ok(text) ==> text@ == key
        }),
{
    let key = match header(headers, "idempotency-key") {
        Some(text) => text,
        None => "",
    };
    if byte_len(key) < 16 || byte_len(key) > 128 {
        return Err(invalid("Idempotency-Key must be 16 to 128 bytes"));
    }
    Ok(key.to_owned())
}

/// Lets a payment notification in, before it is verified.
pub fn alipay_notify(headers: &http::HeaderMap<http::HeaderValue>, body: &[u8]) -> (r: ServiceResult<
    (),
>)
    ensures
        refused(
            r,
            if body@.len() <= 65_536 && (first_visible(header_values(*headers), "content-type"@) matches
                Some(text) && "application/x-www-form-urlencoded"@.is_prefix_of(text)) {
                None
            } else {
                Some(Fault::Invalid("invalid payment notification format"@))
            },
        ),
{
    let form = match header(headers, "content-type") {
        Some(text) => starts_with(text, "application/x-www-form-urlencoded"),
        None => false,
    };
    if body.len() > 65_536 || !form {
        return Err(invalid("invalid payment notification format"));
    }
    Ok(())
}

/// Whether a payment may be captured by hand. That is for development alone,
/// and never proof of a payment.
pub fn manual_capture(console_auth: bool, provider_configured: bool, provider: &str) -> (r:
    ServiceResult<()>)
    ensures
        refused(
            r,
            forbidden_unless(
                !console_auth && !provider_configured && provider@ == "manual-test"@,
            ),
        ),
{
    allow(!console_auth && !provider_configured && same(provider, "manual-test"))
}

/// Something that belongs to a tenant.
pub trait TenantOwned: Sized {
    spec fn tenant(self) -> Seq<char>;

    fn owner_id(&self) -> (r: &str)
        ensures
            r@ == self.tenant(),
    ;
}

impl TenantOwned for Project {
    open spec fn tenant(self) -> Seq<char> {
        self.tenant_id@
    }

    fn owner_id(&self) -> &str {
        self.tenant_id.as_str()
    }
}

impl TenantOwned for RoutePolicy {
    open spec fn tenant(self) -> Seq<char> {
        self.tenant_id@
    }

    fn owner_id(&self) -> &str {
        self.tenant_id.as_str()
    }
}

impl TenantOwned for ApiKey {
    open spec fn tenant(self) -> Seq<char> {
        self.tenant_id@
    }

    fn owner_id(&self) -> &str {
        self.tenant_id.as_str()
    }
}

impl TenantOwned for BillingOrder {
    open spec fn tenant(self) -> Seq<char> {
        self.tenant_id@
    }

    fn owner_id(&self) -> &str {
        self.tenant_id.as_str()
    }
}

impl TenantOwned for LedgerTransaction {
    open spec fn tenant(self) -> Seq<char> {
        self.tenant_id@
    }

    fn owner_id(&self) -> &str {
        self.tenant_id.as_str()
    }
}

impl TenantOwned for Invoice {
    open spec fn tenant(self) -> Seq<char> {
        self.tenant_id@
    }

    fn owner_id(&self) -> &str {
        self.tenant_id.as_str()
    }
}

/// One step of dropping what does not pass a filter, in place.
proof fn lemma_retain<T>(all: Seq<T>, keep: spec_fn(T) -> bool, k: int, now: Seq<T>)
    requires
        0 <= k < all.len(),
        now == all.take(k).filter(keep) + all.skip(k),
    ensures
        now[all.take(k).filter(keep).len() as int] == all[k],
        keep(all[k]) ==> now == all.take(k + 1).filter(keep) + all.skip(k + 1)
            && all.take(k + 1).filter(keep).len() == all.take(k).filter(keep).len() + 1,
        !keep(all[k]) ==> now.remove(all.take(k).filter(keep).len() as int) == all.take(
            k + 1,
        ).filter(keep) + all.skip(k + 1) && all.take(k + 1).filter(keep) == all.take(k).filter(
            keep,
        ),
{
    broadcast use Seq::lemma_filter_push;

    let kept = all.take(k).filter(keep);
    assert(all.take(k + 1) =~= all.take(k).push(all[k]));
    if keep(all[k]) {
        assert(now =~= kept.push(all[k]) + all.skip(k + 1));
    } else {
        assert(now.remove(kept.len() as int) =~= kept + all.skip(k + 1));
    }
}

/// Drops what belongs to tenants that the user is no member of.
pub fn retain_accessible<T: TenantOwned>(context: &UserContext, items: &mut Vec<T>)
    ensures
        final(items)@ == old(items)@.filter(|t: T| context.accesses(t.tenant())),
{
    let ghost all = items@;
    let ghost keep = |t: T| context.accesses(t.tenant());
    let ghost mut k: int = 0;
    let mut i: usize = 0;
    proof {
        assert(all.take(0).filter(keep) =~= Seq::empty());
        assert(items@ =~= all.take(0).filter(keep) + all.skip(0));
    }
    while i < items.len()
        invariant
            0 <= k <= all.len(),
            keep == (|t: T| context.accesses(t.tenant())),
            items@ == all.take(k).filter(keep) + all.skip(k),
            i == all.take(k).filter(keep).len(),
        decreases all.len() - k,
    {
        proof {
            lemma_retain(all, keep, k, items@);
        }
        if context.can_access(items[i].owner_id()) {
            i += 1;
        } else {
            let _ = items.remove(i);
        }
        proof {
            k = k + 1;
        }
    }
    assert(all.take(k) =~= all);
    assert(items@ =~= all.filter(keep));
}

/// Drops what belongs to tenants that the user does not own.
pub fn retain_managed<T: TenantOwned>(context: &UserContext, items: &mut Vec<T>)
    ensures
        final(items)@ == old(items)@.filter(|t: T| context.manages(t.tenant())),
{
    let ghost all = items@;
    let ghost keep = |t: T| context.manages(t.tenant());
    let ghost mut k: int = 0;
    let mut i: usize = 0;
    proof {
        assert(all.take(0).filter(keep) =~= Seq::empty());
        assert(items@ =~= all.take(0).filter(keep) + all.skip(0));
    }
    while i < items.len()
        invariant
            0 <= k <= all.len(),
            keep == (|t: T| context.manages(t.tenant())),
            items@ == all.take(k).filter(keep) + all.skip(k),
            i == all.take(k).filter(keep).len(),
        decreases all.len() - k,
    {
        proof {
            lemma_retain(all, keep, k, items@);
        }
        if context.can_manage(items[i].owner_id()) {
            i += 1;
        } else {
            let _ = items.remove(i);
        }
        proof {
            k = k + 1;
        }
    }
    assert(all.take(k) =~= all);
    assert(items@ =~= all.filter(keep));
}

/// One of the orders is this one, and the user owns its tenant.
pub open spec fn order_managed(
    context: UserContext,
    orders: Seq<BillingOrder>,
    id: Seq<char>,
) -> bool {
    exists|i: int|
        0 <= i < orders.len() && (#[trigger] orders[i]).id@ == id && context.manages(
            orders[i].tenant_id@,
        )
}

fn is_order_managed(context: &UserContext, orders: &Vec<BillingOrder>, id: &str) -> (r: bool)
    ensures
        r == order_managed(*context, orders@, id@),
{
    let mut i: usize = 0;
    while i < orders.len()
        invariant
            i <= orders@.len(),
            forall|j: int|
                0 <= j < i ==> !((#[trigger] orders@[j]).id@ == id@ && context.manages(
                    orders@[j].tenant_id@,
                )),
        decreases orders.len() - i,
    {
        if same(orders[i].id.as_str(), id) && context.can_manage(orders[i].tenant_id.as_str()) {
            assert(orders@[i as int].id@ == id@);
            return true;
        }
        i += 1;
    }
    false
}

/// The tenant of an order, by the first order of its name.
pub open spec fn order_tenant(orders: Seq<BillingOrder>, id: Seq<char>) -> Option<Seq<char>>
    decreases orders.len(),
{
    if orders.len() == 0 {
        None
    } else if orders[0].id@ == id {
        Some(orders[0].tenant_id@)
    } else {
        order_tenant(orders.skip(1), id)
    }
}

/// Whether the user may act on an order. One that is not there is said to be
/// missing.
pub fn authorize_order(orders: &Vec<BillingOrder>, context: &UserContext, order_id: &str) -> (r:
    ServiceResult<()>)
    ensures
        refused(
            r,
            match order_tenant(orders@, order_id@) {
                None => Some(Fault::NotFound),
                Some(tenant) => forbidden_unless(context.manages(tenant)),
            },
        ),
{
    let mut i: usize = 0;
    assert(orders@.skip(0) =~= orders@);
    while i < orders.len()
        invariant
            i <= orders@.len(),
            order_tenant(orders@, order_id@) == order_tenant(orders@.skip(i as int), order_id@),
        decreases orders.len() - i,
    {
        assert(orders@.skip(i as int)[0] == orders@[i as int]);
        assert(orders@.skip(i as int).skip(1) =~= orders@.skip(i as int + 1));
        if same(orders[i].id.as_str(), order_id) {
            return require_tenant_owner(context, orders[i].tenant_id.as_str());
        }
        i += 1;
    }
    Err(ServiceError::NotFound)
}

/// The order of a payment, by the first payment of its name.
pub open spec fn payment_order(payments: Seq<Payment>, id: Seq<char>) -> Option<Seq<char>>
    decreases payments.len(),
{
    if payments.len() == 0 {
        None
    } else if payments[0].id@ == id {
        Some(payments[0].order_id@)
    } else {
        payment_order(payments.skip(1), id)
    }
}

/// Whether the user may refund a payment: only where they own the tenant of its
/// order.
pub fn authorize_refund(
    payments: &Vec<Payment>,
    orders: &Vec<BillingOrder>,
    context: &UserContext,
    payment_id: &str,
) -> (r: ServiceResult<()>)
    ensures
        refused(
            r,
            match payment_order(payments@, payment_id@) {
                None => Some(Fault::NotFound),
                Some(order) => match order_tenant(orders@, order) {
                    None => Some(Fault::NotFound),
                    Some(tenant) => forbidden_unless(context.manages(tenant)),
                },
            },
        ),
{
    let mut i: usize = 0;
    assert(payments@.skip(0) =~= payments@);
    while i < payments.len()
        invariant
            i <= payments@.len(),
            payment_order(payments@, payment_id@) == payment_order(
                payments@.skip(i as int),
                payment_id@,
            ),
        decreases payments.len() - i,
    {
        assert(payments@.skip(i as int)[0] == payments@[i as int]);
        assert(payments@.skip(i as int).skip(1) =~= payments@.skip(i as int + 1));
        if same(payments[i].id.as_str(), payment_id) {
            return authorize_order(orders, context, payments[i].order_id.as_str());
        }
        i += 1;
    }
    Err(ServiceError::NotFound)
}

/// Drops payments of orders that the user does not manage.
pub fn retain_payments(
    context: &UserContext,
    orders: &Vec<BillingOrder>,
    payments: &mut Vec<Payment>,
)
    ensures
        final(payments)@ == old(payments)@.filter(
            |p: Payment| order_managed(*context, orders@, p.order_id@),
        ),
{
    let ghost all = payments@;
    let ghost keep = |p: Payment| order_managed(*context, orders@, p.order_id@);
    let ghost mut k: int = 0;
    let mut i: usize = 0;
    proof {
        assert(all.take(0).filter(keep) =~= Seq::empty());
        assert(payments@ =~= all.take(0).filter(keep) + all.skip(0));
    }
    while i < payments.len()
        invariant
            0 <= k <= all.len(),
            keep == (|p: Payment| order_managed(*context, orders@, p.order_id@)),
            payments@ == all.take(k).filter(keep) + all.skip(k),
            i == all.take(k).filter(keep).len(),
        decreases all.len() - k,
    {
        proof {
            lemma_retain(all, keep, k, payments@);
        }
        if is_order_managed(context, orders, payments[i].order_id.as_str()) {
            i += 1;
        } else {
            let _ = payments.remove(i);
        }
        proof {
            k = k + 1;
        }
    }
    assert(all.take(k) =~= all);
    assert(payments@ =~= all.filter(keep));
}

/// One of the payments is this one.
pub open spec fn paid_by(payments: Seq<Payment>, id: Seq<char>) -> bool {
    exists|i: int| 0 <= i < payments.len() && (#[trigger] payments[i]).id@ == id
}

fn is_paid_by(payments: &Vec<Payment>, id: &str) -> (r: bool)
    ensures
        r == paid_by(payments@, id@),
{
    let mut i: usize = 0;
    while i < payments.len()
        invariant
            i <= payments@.len(),
            forall|j: int| 0 <= j < i ==> (#[trigger] payments@[j]).id@ != id@,
        decreases payments.len() - i,
    {
        if same(payments[i].id.as_str(), id) {
            return true;
        }
        i += 1;
    }
    false
}

/// Drops refunds of payments that are not among the given ones, which are
/// those that `retain_payments` left.
pub fn retain_refunds(payments: &Vec<Payment>, refunds: &mut Vec<Refund>)
    ensures
        final(refunds)@ == old(refunds)@.filter(|f: Refund| paid_by(payments@, f.payment_id@)),
{
    let ghost all = refunds@;
    let ghost keep = |f: Refund| paid_by(payments@, f.payment_id@);
    let ghost mut k: int = 0;
    let mut i: usize = 0;
    proof {
        assert(all.take(0).filter(keep) =~= Seq::empty());
        assert(refunds@ =~= all.take(0).filter(keep) + all.skip(0));
    }
    while i < refunds.len()
        invariant
            0 <= k <= all.len(),
            keep == (|f: Refund| paid_by(payments@, f.payment_id@)),
            refunds@ == all.take(k).filter(keep) + all.skip(k),
            i == all.take(k).filter(keep).len(),
        decreases all.len() - k,
    {
        proof {
            lemma_retain(all, keep, k, refunds@);
        }
        if is_paid_by(payments, refunds[i].payment_id.as_str()) {
            i += 1;
        } else {
            let _ = refunds.remove(i);
        }
        proof {
            k = k + 1;
        }
    }
    assert(all.take(k) =~= all);
    assert(refunds@ =~= all.filter(keep));
}

/// The memberships of a user that another may manage.
pub open spec fn managed_memberships(
    context: UserContext,
    memberships: Seq<TenantMembership>,
) -> Seq<TenantMembership> {
    memberships.filter(|m: TenantMembership| context.manages(m.tenant_id@))
}

/// Drops the memberships of a user that the caller may not manage. A user of
/// whom none is left is not shown.
pub fn retain_memberships(context: &UserContext, user: &mut PlatformUser) -> (r: bool)
    ensures
        final(user).memberships@ == managed_memberships(*context, old(user).memberships@),
        *final(user) == (PlatformUser { memberships: final(user).memberships, ..*old(user) }),
        r == (final(user).memberships@.len() > 0),
{
    let ghost all = user.memberships@;
    let ghost keep = |m: TenantMembership| context.manages(m.tenant_id@);
    let ghost mut k: int = 0;
    let mut i: usize = 0;
    proof {
        assert(all.take(0).filter(keep) =~= Seq::empty());
        assert(user.memberships@ =~= all.take(0).filter(keep) + all.skip(0));
    }
    while i < user.memberships.len()
        invariant
            0 <= k <= all.len(),
            keep == (|m: TenantMembership| context.manages(m.tenant_id@)),
            user.memberships@ == all.take(k).filter(keep) + all.skip(k),
            i == all.take(k).filter(keep).len(),
            *user == (PlatformUser { memberships: user.memberships, ..*old(user) }),
        decreases all.len() - k,
    {
        proof {
            lemma_retain(all, keep, k, user.memberships@);
        }
        if context.can_manage(user.memberships[i].tenant_id.as_str()) {
            i += 1;
        } else {
            let _ = user.memberships.remove(i);
        }
        proof {
            k = k + 1;
        }
    }
    assert(all.take(k) =~= all);
    assert(user.memberships@ =~= all.filter(keep));
    user.memberships.len() > 0
}

/// The first day of the month after that of a day.
pub open spec fn next_month(day: Date) -> Date {
    if day.month == 12 {
        Date { year: (day.year + 1) as i32, month: 1, day: 1 }
    } else {
        Date { year: day.year, month: (day.month + 1) as u32, day: 1 }
    }
}

/// Where a billing period starts: at the given time, or with the month of `now`.
pub open spec fn period_start(from: Option<Timestamp>, now: Timestamp) -> Timestamp {
    match from {
        Some(time) => time,
        None => day_start(date_at(now).year, date_at(now).month, 1)->0,
    }
}

/// The period of a billing summary: from the given start, or the start of the
/// month of `now`, up to the given end, or the start of the month after the
/// start.
pub fn billing_period(from: Option<Timestamp>, to: Option<Timestamp>, now: Timestamp) -> (r:
    ServiceResult<(Timestamp, Timestamp)>)
    requires
        datable(now),
        from matches Some(time) ==> datable(time),
    ensures
        ({
            let start = period_start(from, now);
            let next = next_month(date_at(start));
            &&& refused(
                r,
                if to is None && next.year > LAST_YEAR {
                    Some(Fault::Internal("could not construct next month"@))
                } else {
                    None
                },
            )
            &&& r matches Ok(period) ==> period.0 == start && period.1 == match to {
                Some(time) => time,
                None => day_start(next.year, next.month, 1)->0,
            }
            &&& from is None ==> date_at(start) == (Date { day: 1, ..date_at(now) })
            &&& r matches Ok(period) ==> to is None ==> date_at(period.1) == next
        }),
{
    let start: i64 = match from {
        Some(time) => time,
        None => {
            let today = date(now);
            start_of(today.year, today.month, 1).unwrap()
        },
    };
    if let Some(end) = to {
        return Ok((start, end));
    }
    let day = date(start);
    if day.month == 12 && day.year >= LAST_YEAR {
        return Err(internal("could not construct next month"));
    }
    let end: i64 = if day.month == 12 {
        start_of(day.year + 1, 1, 1).unwrap()
    } else {
        start_of(day.year, day.month + 1, 1).unwrap()
    };
    Ok((start, end))
}

/// The project is one that the user may see.
pub open spec fn project_allowed(
    context: UserContext,
    projects: Seq<Project>,
    id: Seq<char>,
) -> bool {
    exists|i: int|
        0 <= i < projects.len() && (#[trigger] projects[i]).id@ == id && context.accesses(
            projects[i].tenant_id@,
        )
}

fn is_project_allowed(context: &UserContext, projects: &Vec<Project>, id: &str) -> (r: bool)
    ensures
        r == project_allowed(*context, projects@, id@),
{
    let mut i: usize = 0;
    while i < projects.len()
        invariant
            i <= projects@.len(),
            forall|j: int|
                0 <= j < i ==> !((#[trigger] projects@[j]).id@ == id@ && context.accesses(
                    projects@[j].tenant_id@,
                )),
        decreases projects.len() - i,
    {
        if same(projects[i].id.as_str(), id) && context.can_access(
            projects[i].tenant_id.as_str(),
        ) {
            assert(projects@[i as int].id@ == id@);
            return true;
        }
        i += 1;
    }
    false
}

/// What the projects of a summary add up to.
pub struct Totals {
    pub requests: int,
    pub input_tokens: int,
    pub output_tokens: int,
    pub cost: int,
}

pub open spec fn totals(items: Seq<ProjectBilling>) -> Totals
    decreases items.len(),
{
    if items.len() == 0 {
        Totals { requests: 0, input_tokens: 0, output_tokens: 0, cost: 0 }
    } else {
        let before = totals(items.drop_last());
        let last = items.last();
        Totals {
            requests: before.requests + last.requests,
            input_tokens: before.input_tokens + last.input_tokens,
            output_tokens: before.output_tokens + last.output_tokens,
            cost: before.cost + last.cost.amount,
        }
    }
}

pub open spec fn totals_fit(items: Seq<ProjectBilling>) -> bool {
    &&& fits_i64(totals(items).requests)
    &&& fits_i64(totals(items).input_tokens)
    &&& fits_i64(totals(items).output_tokens)
    &&& fits_i64(totals(items).cost)
}

pub open spec fn allowed_items(
    context: UserContext,
    projects: Seq<Project>,
    items: Seq<ProjectBilling>,
) -> Seq<ProjectBilling> {
    items.filter(|b: ProjectBilling| project_allowed(context, projects, b.project_id@))
}

/// Restricts a summary to the projects that the user may see, and adds up what
/// is left.
pub fn restrict_summary(
    context: &UserContext,
    projects: &Vec<Project>,
    summary: &mut BillingSummary,
)
    requires
        forall|n: int|
            0 <= n <= allowed_items(*context, projects@, old(summary).projects@).len()
                ==> totals_fit(
                (#[trigger] allowed_items(*context, projects@, old(summary).projects@).take(n)),
            ),
    ensures
        ({
            let items = allowed_items(*context, projects@, old(summary).projects@);
            let sums = totals(items);
            &&& final(summary).projects@ == items
            &&& final(summary).requests == sums.requests
            &&& final(summary).input_tokens == sums.input_tokens
            &&& final(summary).output_tokens == sums.output_tokens
            &&& final(summary).total.amount == sums.cost
            &&& final(summary).total.currency == old(summary).total.currency
            &&& final(summary).period_start == old(summary).period_start
            &&& final(summary).period_end == old(summary).period_end
        }),
{
    let ghost all = summary.projects@;
    let ghost keep = |b: ProjectBilling| project_allowed(*context, projects@, b.project_id@);
    let ghost mut k: int = 0;
    let mut i: usize = 0;
    proof {
        assert(all.take(0).filter(keep) =~= Seq::empty());
        assert(summary.projects@ =~= all.take(0).filter(keep) + all.skip(0));
    }
    while i < summary.projects.len()
        invariant
            0 <= k <= all.len(),
            keep == (|b: ProjectBilling| project_allowed(*context, projects@, b.project_id@)),
            summary.projects@ == all.take(k).filter(keep) + all.skip(k),
            i == all.take(k).filter(keep).len(),
            summary.total == old(summary).total,
            summary.period_start == old(summary).period_start,
            summary.period_end == old(summary).period_end,
        decreases all.len() - k,
    {
        proof {
            lemma_retain(all, keep, k, summary.projects@);
        }
        if is_project_allowed(context, projects, summary.projects[i].project_id.as_str()) {
            i += 1;
        } else {
            let _ = summary.projects.remove(i);
        }
        proof {
            k = k + 1;
        }
    }
    let ghost items = allowed_items(*context, projects@, all);
    proof {
        assert(all.take(k) =~= all);
        assert(summary.projects@ =~= items);
    }
    let mut requests: i64 = 0;
    let mut input_tokens: i64 = 0;
    let mut output_tokens: i64 = 0;
    let mut cost: i64 = 0;
    let mut n: usize = 0;
    assert(items.take(0) =~= Seq::empty());
    while n < summary.projects.len()
        invariant
            n <= items.len(),
            summary.projects@ == items,
            items == allowed_items(*context, projects@, old(summary).projects@),
            forall|m: int|
                0 <= m <= items.len() ==> totals_fit((#[trigger] items.take(m))),
            requests == totals(items.take(n as int)).requests,
            input_tokens == totals(items.take(n as int)).input_tokens,
            output_tokens == totals(items.take(n as int)).output_tokens,
            cost == totals(items.take(n as int)).cost,
        decreases items.len() - n,
    {
        proof {
            assert(items.take(n as int + 1).drop_last() =~= items.take(n as int));
            assert(totals_fit(items.take(n as int + 1)));
        }
        let item = &summary.projects[n];
        requests = requests + item.requests;
        input_tokens = input_tokens + item.input_tokens;
        output_tokens = output_tokens + item.output_tokens;
        cost = cost + item.cost.amount;
        n += 1;
    }
    assert(items.take(n as int) =~= items);
    summary.requests = requests;
    summary.input_tokens = input_tokens;
    summary.output_tokens = output_tokens;
    summary.total.amount = cost;
}

/// The address of a request that is passed on to the agent of a cluster: what
/// stands before the API version is dropped.
pub open spec fn agent_path(path: Seq<char>) -> Seq<char> {
    let inner = if "/api"@.is_prefix_of(path) {
        path.skip("/api"@.len() as int)
    } else {
        path
    };
    if "/admin"@.is_prefix_of(inner) {
        inner.skip("/admin"@.len() as int)
    } else {
        inner
    }
}

/// The address to which a console request for a cluster is passed on.
pub fn cluster_proxy(base: &str, path: &str, query: Option<&str>) -> (r: String)
    ensures
        r@ == without_slashes(base@) + agent_path(path@) + match query {
            Some(query) => "?"@ + query@,
            None => Seq::<char>::empty(),
        },
{
    let inner = match strip_prefix(path, "/api") {
        Some(inner) => inner,
        None => path,
    };
    let inner = match strip_prefix(inner, "/admin") {
        Some(inner) => inner,
        None => inner,
    };
    let mut target = join(trim_slashes(base), inner);
    if let Some(query) = query {
        let ghost before = target@;
        target.append("?");
        target.append(query);
        assert(target@ =~= before + ("?"@ + query@));
    } else {
        assert(target@ =~= target@ + Seq::<char>::empty());
    }
    target
}

/// A route whose requests are traced: all but those that ask for health.
pub fn is_observed(route: &str) -> (r: bool)
    ensures
        r == !(route@ == "/healthz"@ || route@ == "/readyz"@ || route@ == "/api/healthz"@ || route@
            == "/api/readyz"@),
{
    !(same(route, "/healthz") || same(route, "/readyz") || same(route, "/api/healthz") || same(
        route,
        "/api/readyz",
    ))
}

/// How a response is counted.
pub fn outcome(status: u16) -> (r: &'static str)
    ensures
        r@ == if status >= 500 {
            "provider_error"@
        } else if status >= 400 {
            "rejected"@
        } else {
            "succeeded"@
        },
{
    if status >= 500 {
        "provider_error"
    } else if status >= 400 {
        "rejected"
    } else {
        "succeeded"
    }
}

/// The status of a recorded usage event: a repeated one is not created again.
pub fn recorded_status(created: bool) -> (r: u16)
    ensures
        r == if created {
            201u16
        } else {
            200u16
        },
{
    if created {
        201
    } else {
        200
    }
}

/// The reason of an unresolved reservation, where it is one that the console
/// shows.
pub fn shown_reason<'a>(reason: Option<&'a str>) -> (r: Option<&'a str>)
    ensures
        r == if reason is Some && (reason->0@ == "usage_missing"@ || reason->0@
            == "usage_over_limit"@) {
            reason
        } else {
            None
        },
{
    match reason {
        Some(text) => if same(text, "usage_missing") || same(text, "usage_over_limit") {
            Some(text)
        } else {
            None
        },
        None => None,
    }
}

/// Whoever manages a tenant also has access to it.
pub proof fn law_managing_implies_access(context: UserContext, tenant: Seq<char>)
    requires
        context.manages(tenant),
    ensures
        context.accesses(tenant),
        context.owns(),
{
    if !context.auth_disabled {
        let i = choose|i: int|
            0 <= i < context.user.memberships@.len() && owner_of(
                #[trigger] context.user.memberships@[i],
                tenant,
            );
        assert(member_of(context.user.memberships@[i], tenant));
        assert(context.user.memberships@[i].role@ == "owner"@);
    }
}

/// What a component says of its health: its answer, or that it is well where the
/// answer is no document.
pub fn component_answer(name: &str, body: &str) -> (r: serde_json::Value)
    ensures
        json_of(r) == match document(bytes_of(body@)) {
            Some(json) => json,
            None => Json::Object(
                map!["status"@ => Json::Text("ok"@), "component"@ => Json::Text(name@)],
            ),
        },
{
    match parse(body.as_bytes()) {
        Some(value) => value,
        None => Record::new().with("status", text("ok")).with("component", text(name)).done(),
    }
}

/// Whoever is no member of a tenant does not access it, and whoever is no owner of it does not
/// manage it, whatever they own elsewhere; only a console without authentication lets
/// everybody in.
pub proof fn law_only_members_get_in(context: UserContext, tenant: Seq<char>)
    requires
        !context.auth_disabled,
    ensures
        context.accesses(tenant) <==> exists|i: int|
            0 <= i < context.user.memberships@.len() && (
            #[trigger] context.user.memberships@[i]).tenant_id@ == tenant,
        context.manages(tenant) <==> exists|i: int|
            0 <= i < context.user.memberships@.len() && (
            #[trigger] context.user.memberships@[i]).tenant_id@ == tenant
                && context.user.memberships@[i].role@ == "owner"@,
        context.owns() <==> exists|i: int|
            0 <= i < context.user.memberships@.len() && (
            #[trigger] context.user.memberships@[i]).role@ == "owner"@,
        context.user.memberships@.len() == 0 ==> !context.accesses(tenant) && !context.manages(
            tenant,
        ) && !context.owns(),
{
    let all = context.user.memberships@;
    if context.accesses(tenant) {
        let i = choose|i: int| 0 <= i < all.len() && member_of(#[trigger] all[i], tenant);
        assert(all[i].tenant_id@ == tenant);
    }
    if exists|i: int| 0 <= i < all.len() && (#[trigger] all[i]).tenant_id@ == tenant {
        let i = choose|i: int| 0 <= i < all.len() && (#[trigger] all[i]).tenant_id@ == tenant;
        assert(member_of(all[i], tenant));
    }
    if context.manages(tenant) {
        let i = choose|i: int| 0 <= i < all.len() && owner_of(#[trigger] all[i], tenant);
        assert(all[i].tenant_id@ == tenant && all[i].role@ == "owner"@);
    }
    if exists|i: int|
        0 <= i < all.len() && (#[trigger] all[i]).tenant_id@ == tenant && all[i].role@
            == "owner"@ {
        let i = choose|i: int|
            0 <= i < all.len() && (#[trigger] all[i]).tenant_id@ == tenant && all[i].role@
                == "owner"@;
        assert(owner_of(all[i], tenant));
    }
}

/// What is not allowed is forbidden, and what is allowed is not.
pub proof fn law_what_is_not_allowed_is_forbidden(allowed: bool)
    ensures
        forbidden_unless(allowed) is None <==> allowed,
        forbidden_unless(false) == Some(Fault::Forbidden),
{
}

/// The bill that somebody sees holds the projects of their own tenants and no other.
pub proof fn law_bills_show_projects_of_ones_own(
    context: UserContext,
    projects: Seq<Project>,
    items: Seq<ProjectBilling>,
    i: int,
)
    requires
        0 <= i < allowed_items(context, projects, items).len(),
    ensures
        exists|k: int|
            0 <= k < projects.len() && (#[trigger] projects[k]).id@ == allowed_items(
                context,
                projects,
                items,
            )[i].project_id@ && context.accesses(projects[k].tenant_id@),
{
    let keep = |b: ProjectBilling| project_allowed(context, projects, b.project_id@);
    assert(allowed_items(context, projects, items) == items.filter(keep));
    items.lemma_filter_pred(keep, i);
}

/// Totals add up over two lists of projects.
pub proof fn law_bills_add_up(items: Seq<ProjectBilling>, more: Seq<ProjectBilling>)
    ensures
        totals(items + more).requests == totals(items).requests + totals(more).requests,
        totals(items + more).input_tokens == totals(items).input_tokens + totals(more).input_tokens,
        totals(items + more).output_tokens == totals(items).output_tokens + totals(
            more,
        ).output_tokens,
        totals(items + more).cost == totals(items).cost + totals(more).cost,
        more.len() == 1 ==> totals(more).cost == more[0].cost.amount && totals(more).requests
            == more[0].requests && totals(more).input_tokens == more[0].input_tokens && totals(
            more,
        ).output_tokens == more[0].output_tokens,
    decreases more.len(),
{
    reveal_with_fuel(totals, 2);
    if more.len() == 0 {
        assert(items + more =~= items);
    } else {
        assert((items + more).drop_last() =~= items + more.drop_last());
        assert((items + more).last() == more.last());
        law_bills_add_up(items, more.drop_last());
    }
}

/// An internal request is let in by the digest of its whole authorization, and never without
/// a token that was configured.
pub proof fn law_internal_requests_carry_the_token(
    token: Seq<char>,
    values: Map<Seq<char>, Seq<Seq<u8>>>,
)
    ensures
        internal_auth_fault(token, values) is None ==> token.len() > 0 && sha256(
            bytes_of(authorization(values)),
        ) == sha256(bytes_of("Bearer "@ + token)),
        token.len() > 0 && authorization(values) == "Bearer "@ + token ==> internal_auth_fault(
            token,
            values,
        ) is None,
        token.len() == 0 ==> internal_auth_fault(token, values) == Some(
            Fault::InternalAuthUnavailable,
        ),
{
}

/// Alerts are taken under their own token, in payloads of up to 256 KiB.
pub proof fn law_alerts_carry_the_token(
    token: Option<String>,
    values: Map<Seq<char>, Seq<Seq<u8>>>,
    size: int,
)
    ensures
        alert_fault(token, values, size) is None ==> token is Some && bearer(values) is Some
            && bytes_of(bearer(values)->0) == bytes_of(token->0@) && size <= 256 * 1024,
        token is Some && bearer(values) is Some && bearer(values)->0 == token->0@ && size <= 256
            * 1024 ==> alert_fault(token, values, size) is None,
        token is None ==> alert_fault(token, values, size) == Some(Fault::InternalAuthUnavailable),
{
}

/// What changes something is a mutation, and reading is not: no method but the four that
/// write is one.
pub proof fn law_reads_are_no_mutations(method: Seq<char>)
    ensures
        mutation_text(method) ==> method != "GET"@ && method != "HEAD"@ && method != "OPTIONS"@,
        method == "POST"@ || method == "PUT"@ || method == "PATCH"@ || method == "DELETE"@
            ==> mutation_text(method),
        mutation_text(method) ==> 3 <= method.len() <= 6,
{
    reveal_strlit("POST");
    reveal_strlit("PUT");
    reveal_strlit("PATCH");
    reveal_strlit("DELETE");
    reveal_strlit("GET");
    reveal_strlit("HEAD");
    reveal_strlit("OPTIONS");
    assert("GET"@.len() == 3 && "HEAD"@.len() == 4 && "OPTIONS"@.len() == 7);
    assert("POST"@.len() == 4 && "PUT"@.len() == 3 && "PATCH"@.len() == 5 && "DELETE"@.len() == 6);
    assert("GET"@[0] != "PUT"@[0] && "HEAD"@[0] != "POST"@[0]);
}

/// The project of a name is the first of that name, and its tenant is the tenant of that
/// project.
pub proof fn law_projects_belong_to_their_tenant(projects: Seq<Project>, id: Seq<char>)
    ensures
        project_tenant(projects, id) is None <==> forall|i: int|
            0 <= i < projects.len() ==> (#[trigger] projects[i]).id@ != id,
        project_tenant(projects, id) is Some ==> exists|i: int|
            0 <= i < projects.len() && (#[trigger] projects[i]).id@ == id
                && projects[i].tenant_id@ == project_tenant(projects, id)->0,
    decreases projects.len(),
{
    if projects.len() > 0 && projects[0].id@ != id {
        let rest = projects.skip(1);
        law_projects_belong_to_their_tenant(rest, id);
        assert forall|i: int| 0 <= i < rest.len() implies rest[i] == projects[i + 1] by {}
        if project_tenant(projects, id) is Some {
            let i = choose|i: int|
                0 <= i < rest.len() && (#[trigger] rest[i]).id@ == id && rest[i].tenant_id@
                    == project_tenant(rest, id)->0;
            assert(projects[i + 1].id@ == id);
        } else {
            assert forall|i: int| 0 <= i < projects.len() implies (#[trigger] projects[i]).id@
                != id by {
                if i > 0 {
                    assert(rest[i - 1].id@ != id);
                }
            }
        }
        if forall|i: int| 0 <= i < projects.len() ==> (#[trigger] projects[i]).id@ != id {
            assert forall|i: int| 0 <= i < rest.len() implies (#[trigger] rest[i]).id@ != id by {
                assert(projects[i + 1].id@ != id);
            }
        }
    }
}

/// The month after the current one starts on its first day, and twelve of them make a year.
pub proof fn law_the_next_month_starts_on_its_first_day(day: Date)
    requires
        1 <= day.month <= 12,
        day.year < i32::MAX,
    ensures
        next_month(day).day == 1,
        1 <= next_month(day).month <= 12,
        next_month(day).year * 12 + next_month(day).month == day.year * 12 + day.month + 1,
{
}

} // verus!
