//! An outbound member: one writer per cluster, which fetches what the cluster
//! should run. No credential of the cluster leaves it.
use crate::agent::cycle::member_answer;
use crate::crypto::{fingerprint, fresh_uuid, uuid_text};
use crate::domain::cluster::{
    canonical, delivered_under, ClusterDelivery, DesiredDeployment, DESIRED_BYTES,
};
use crate::domain::Timestamp;
use crate::json::{
    as_array, does_say, document, elements, get, inner, json_of, member, says, Json,
};
use crate::text::{
    byte_len, bytes_of, decimal, int_text, is_made_of, join, made_of, nat_text, parse_i64,
    parse_u64, same, signed_value, split_once, starts_with, strip_suffix, trim, trim_slashes,
    trimmed, unsigned_decimal, unsigned_value, without_slashes,
};
use vstd::prelude::*;

verus! {

/// The label of the cluster that owns a deployment.
pub const OWNER: &'static str = "platform.xscope.io/desired-cluster";

/// The annotation of the version that a deployment was written with.
pub const VERSION: &'static str = "platform.xscope.io/desired-version";

/// The annotation of the digest that a deployment was written with.
pub const DIGEST: &'static str = "platform.xscope.io/desired-sha256";

pub struct Config {
    pub prometheus_url: Option<String>,
    pub cluster_id: String,
    pub namespace: String,
    pub control_url: String,
    pub credential_file: String,
    pub allow_local_http: bool,
}

/// Draws the name under which a member asks for the lease of the writer.
pub fn fresh_holder() -> (r: String)
    ensures
        "member-"@.is_prefix_of(r@),
        uuid_text(r@.skip("member-"@.len() as int)),
{
    let uuid = fresh_uuid();
    let holder = join("member-", uuid.as_str());
    proof {
        assert(holder@.subrange(0, "member-"@.len() as int) =~= "member-"@);
        assert(holder@.skip("member-"@.len() as int) =~= uuid@);
    }
    holder
}

/// The parts of a URL that are looked at.
pub struct UrlParts {
    pub scheme: String,
    pub username: String,
    pub has_password: bool,
    pub has_query: bool,
    pub has_fragment: bool,
    pub host: Option<String>,
}

/// The parts of a URL with their texts spelled out.
pub ghost struct UrlShape {
    pub scheme: Seq<char>,
    pub username: Seq<char>,
    pub has_password: bool,
    pub has_query: bool,
    pub has_fragment: bool,
    pub host: Option<Seq<char>>,
}

impl View for UrlParts {
    type V = UrlShape;

    open spec fn view(&self) -> UrlShape {
        UrlShape {
            scheme: self.scheme@,
            username: self.username@,
            has_password: self.has_password,
            has_query: self.has_query,
            has_fragment: self.has_fragment,
            host: match self.host {
                Some(host) => Some(host@),
                None => None,
            },
        }
    }
}

/// The parts of the URL that a text is, if it is one.
pub uninterp spec fn url_shape(text: Seq<char>) -> Option<UrlShape>;

/// `reqwest::Url::parse`, and what its accessors say of the URL.
#[verifier::external_body]
fn parse_url(text: &str) -> (r: Option<UrlParts>)
    ensures
        match r {
            Some(parts) => url_shape(text@) == Some(parts@),
            None => url_shape(text@) is None,
        },
{
    reqwest::Url::parse(text).ok().map(
        |url|
            UrlParts {
                scheme: url.scheme().to_owned(),
                username: url.username().to_owned(),
                has_password: url.password().is_some(),
                has_query: url.query().is_some(),
                has_fragment: url.fragment().is_some(),
                host: url.host_str().map(str::to_owned),
            },
    )
}

/// What stands before the first dot.
pub open spec fn before_dot(s: Seq<char>) -> Seq<char> {
    s.take(s.index_of_first('.')->0)
}

/// What stands behind the first dot.
pub open spec fn after_dot(s: Seq<char>) -> Seq<char> {
    s.skip(s.index_of_first('.')->0 + 1)
}

/// A number from 0 to 255, written without leading zeros.
pub open spec fn octet_text(s: Seq<char>) -> bool {
    unsigned_value(s) matches Some(n) && n <= 255 && s == nat_text(n)
}

/// An IPv4 address of the loopback network. An IPv6 address stands in brackets
/// in a URL and is none.
pub open spec fn loopback_text(host: Seq<char>) -> bool {
    let second = after_dot(host);
    let third = after_dot(second);
    &&& host.contains('.')
    &&& second.contains('.')
    &&& third.contains('.')
    &&& before_dot(host) == "127"@
    &&& octet_text(before_dot(second))
    &&& octet_text(before_dot(third))
    &&& octet_text(after_dot(third))
}

fn is_octet(s: &str) -> (r: bool)
    ensures
        r == octet_text(s@),
{
    match parse_u64(s) {
        Some(n) => n <= 255 && same(unsigned_decimal(n).as_str(), s),
        None => false,
    }
}

/// Cuts a text at its first dot.
fn cut(s: &str) -> (r: Option<(&str, &str)>)
    ensures
        match r {
            Some((head, tail)) => s@.contains('.') && head@ == before_dot(s@) && tail@
                == after_dot(s@),
            None => !s@.contains('.'),
        },
{
    match split_once(s, '.') {
        Some((head, tail)) => {
            proof {
                s@.index_of_first_ensures('.');
                let first = s@.index_of_first('.')->0;
                assert(s@[head@.len() as int] == '.');
                assert(s@.contains('.'));
                assert(first == head@.len()) by {
                    if first < head@.len() {
                        assert(head@[first] == '.');
                        assert(head@.contains('.'));
                    }
                }
                assert(s@.take(first) =~= head@);
                assert(s@.skip(first + 1) =~= tail@);
            }
            Some((head, tail))
        },
        None => None,
    }
}

fn is_loopback(host: &str) -> (r: bool)
    ensures
        r == loopback_text(host@),
{
    let (first, second) = match cut(host) {
        Some(parts) => parts,
        None => return false,
    };
    let (a, third) = match cut(second) {
        Some(parts) => parts,
        None => return false,
    };
    let (b, c) = match cut(third) {
        Some(parts) => parts,
        None => return false,
    };
    same(first, "127") && is_octet(a) && is_octet(b) && is_octet(c)
}

/// A host of the cluster itself, or of this machine.
pub open spec fn local_host(host: Option<Seq<char>>) -> bool {
    match host {
        Some(host) => {
            ||| host == "localhost"@
            ||| ".svc"@.is_suffix_of(host)
            ||| ".svc.cluster.local"@.is_suffix_of(host)
            ||| loopback_text(host)
        },
        None => false,
    }
}

fn has_suffix(s: &str, suffix: &str) -> (r: bool)
    ensures
        r == suffix@.is_suffix_of(s@),
{
    match strip_suffix(s, suffix) {
        Some(rest) => {
            assert(s@.subrange(rest@.len() as int, s@.len() as int) =~= suffix@);
            true
        },
        None => false,
    }
}

fn is_local(host: &Option<String>) -> (r: bool)
    ensures
        r == local_host(
            match *host {
                Some(host) => Some(host@),
                None => None,
            },
        ),
{
    match host {
        Some(host) => same(host.as_str(), "localhost") || has_suffix(host.as_str(), ".svc")
            || has_suffix(host.as_str(), ".svc.cluster.local") || is_loopback(host.as_str()),
        None => false,
    }
}

/// A URL that carries nothing but an address: no credentials, no query and no
/// fragment.
pub open spec fn plain_url(url: UrlShape) -> bool {
    url.username.len() == 0 && !url.has_password && !url.has_query && !url.has_fragment
}

/// HTTPS, or HTTP within the cluster where that was allowed.
pub open spec fn guarded_url(url: UrlShape, allow_local_http: bool) -> bool {
    plain_url(url) && (url.scheme == "https"@ || (allow_local_http && url.scheme == "http"@
        && local_host(url.host)))
}

fn is_guarded(url: &UrlParts, allow_local_http: bool) -> (r: bool)
    ensures
        r == guarded_url(url@, allow_local_http),
{
    url.username.as_str().is_empty() && !url.has_password && !url.has_query && !url.has_fragment
        && (same(url.scheme.as_str(), "https") || (allow_local_http && same(
        url.scheme.as_str(),
        "http",
    ) && is_local(&url.host)))
}

/// What is wrong with a configuration of `bytes` bytes. The names are those of
/// the cluster and of the namespace, with what is wrong with each.
pub open spec fn config_fault(
    bytes: usize,
    parsed: Option<Config>,
    cluster_name: Option<Seq<char>>,
    namespace_name: Option<Seq<char>>,
) -> Option<Seq<char>> {
    if bytes > 8192 {
        Some("cluster pull configuration exceeds size limit"@)
    } else {
        match parsed {
            None => Some("invalid cluster pull configuration"@),
            Some(config) => if cluster_name is Some {
                cluster_name
            } else if config.prometheus_url is Some && url_shape(
                config.prometheus_url->0@,
            ) is None {
                Some("invalid Prometheus URL"@)
            } else if config.prometheus_url is Some && !guarded_url(
                url_shape(config.prometheus_url->0@)->0,
                config.allow_local_http,
            ) {
                Some("Prometheus requires HTTPS or explicitly allowed cluster-local HTTP"@)
            } else if namespace_name is Some {
                namespace_name
            } else if url_shape(config.control_url@) is None {
                Some("invalid control URL"@)
            } else if !guarded_url(
                url_shape(config.control_url@)->0,
                config.allow_local_http,
            ) || !"/"@.is_prefix_of(config.credential_file@) {
                Some(
                    "cluster pull requires HTTPS without URL credentials and an absolute credential file"@,
                )
            } else {
                None
            },
        }
    }
}

pub open spec fn failure_text(result: Result<(), String>) -> Option<Seq<char>> {
    match result {
        Ok(()) => None,
        Err(message) => Some(message@),
    }
}

impl Config {
    /// Checks a configuration that was read from a file of `bytes` bytes, where
    /// the file holds one. The results are those of checking the names of the
    /// cluster and of the namespace.
    pub fn check(
        bytes: usize,
        parsed: Option<Config>,
        cluster_name: Result<(), String>,
        namespace_name: Result<(), String>,
    ) -> (r: Result<Config, String>)
        ensures
            match r {
                Ok(config) => config_fault(
                    bytes,
                    parsed,
                    failure_text(cluster_name),
                    failure_text(namespace_name),
                ) is None && parsed == Some(config),
                Err(message) => config_fault(
                    bytes,
                    parsed,
                    failure_text(cluster_name),
                    failure_text(namespace_name),
                ) == Some(message@),
            },
    {
        if bytes > 8192 {
            return Err("cluster pull configuration exceeds size limit".to_owned());
        }
        let config = match parsed {
            Some(config) => config,
            None => return Err("invalid cluster pull configuration".to_owned()),
        };
        if let Err(message) = cluster_name {
            return Err(message);
        }
        if let Some(base) = &config.prometheus_url {
            match parse_url(base.as_str()) {
                None => return Err("invalid Prometheus URL".to_owned()),
                Some(url) => if !is_guarded(&url, config.allow_local_http) {
                    return Err(
                        "Prometheus requires HTTPS or explicitly allowed cluster-local HTTP".to_owned(),
                    );
                },
            }
        }
        if let Err(message) = namespace_name {
            return Err(message);
        }
        match parse_url(config.control_url.as_str()) {
            None => return Err("invalid control URL".to_owned()),
            Some(url) => if !is_guarded(&url, config.allow_local_http) || !starts_with(
                config.credential_file.as_str(),
                "/",
            ) {
                return Err(
                    "cluster pull requires HTTPS without URL credentials and an absolute credential file".to_owned(),
                );
            },
        }
        Ok(config)
    }

    /// Where the control plane serves this cluster.
    pub fn base_url(&self) -> (r: String)
        ensures
            r@ == without_slashes(self.control_url@) + "/internal/v1/clusters/"@
                + self.cluster_id@,
    {
        let mut url = join(trim_slashes(self.control_url.as_str()), "/internal/v1/clusters/");
        url.append(self.cluster_id.as_str());
        url
    }
}

/// A credential: 43 letters, digits, underscores and hyphens.
pub open spec fn credential_text(s: Seq<char>) -> bool {
    bytes_of(s).len() == 43 && made_of(s, seq![0x5fu8, 0x2du8])
}

/// The credential that a file holds, without the whitespace around it. The text
/// is that of the file, where it is one.
pub fn credential(text: Option<&str>) -> (r: Result<String, &'static str>)
    ensures
        match r {
            Ok(value) => text is Some && value@ == trimmed(text->0@) && credential_text(value@),
            Err(message) => (text is None || !credential_text(trimmed(text->0@))) && message@
                == "invalid cluster credential"@,
        },
{
    let text = match text {
        Some(text) => text,
        None => return Err("invalid cluster credential"),
    };
    let value = trim(text);
    let extra: [u8; 2] = [0x5f, 0x2d];
    assert(extra@ =~= seq![0x5fu8, 0x2du8]);
    if byte_len(value) != 43 || !is_made_of(value, &extra) {
        return Err("invalid cluster credential");
    }
    Ok(value.to_owned())
}

/// What was found out about a deployment of a delivery: whether its name can
/// stand, and whether its specification is one.
#[derive(Clone, Copy, Debug, PartialEq, Eq, Structural)]
pub struct ItemCheck {
    pub name_valid: bool,
    pub spec_valid: bool,
}

/// A deployment that can be applied: to be written as specified, or to be
/// deleted by its identity, under a name of its own.
pub open spec fn item_sound(
    deployments: Seq<DesiredDeployment>,
    checks: Seq<ItemCheck>,
    i: int,
) -> bool {
    let item = deployments[i];
    &&& checks[i].name_valid
    &&& forall|j: int| 0 <= j < i ==> #[trigger] deployments[j].name@ != item.name@
    &&& match item.spec {
        Some(_) => item.delete_uid is None && checks[i].spec_valid,
        None => item.delete_uid matches Some(uid) && uid@.len() > 0 && bytes_of(uid@).len() <= 128,
    }
}

/// A delivery for this cluster, whole and as it was signed off.
pub open spec fn delivery_sound(
    config: Config,
    delivery: ClusterDelivery,
    checks: Seq<ItemCheck>,
) -> bool {
    &&& delivered_under(delivery.deployments@, delivery.sha256@)
    &&& delivery.cluster_id@ == config.cluster_id@
    &&& delivery.namespace@ == config.namespace@
    &&& delivery.version > 0
    &&& delivery.lease_seconds == 60
    &&& delivery.deployments@.len() <= 100
    &&& forall|i: int|
        0 <= i < delivery.deployments@.len() ==> #[trigger] item_sound(
            delivery.deployments@,
            checks,
            i,
        )
}

/// Checks a whole delivery before anything of it is applied.
pub fn validate_delivery(
    config: &Config,
    delivery: &ClusterDelivery,
    checks: &Vec<ItemCheck>,
) -> (r: Result<(), &'static str>)
    requires
        checks@.len() == delivery.deployments@.len(),
    ensures
        match r {
            Ok(()) => delivery_sound(*config, *delivery, checks@),
            Err(message) => !delivery_sound(*config, *delivery, checks@) && message@
                == "invalid_spec"@,
        },
{
    let bytes = match canonical(&delivery.deployments) {
        Some(bytes) => bytes,
        None => return Err("invalid_spec"),
    };
    if !same(delivery.cluster_id.as_str(), config.cluster_id.as_str()) || !same(
        delivery.namespace.as_str(),
        config.namespace.as_str(),
    ) || delivery.version <= 0 || delivery.lease_seconds != 60 || delivery.deployments.len() > 100
        || bytes.len() > DESIRED_BYTES || !same(
        fingerprint(bytes.as_slice()).as_str(),
        delivery.sha256.as_str(),
    ) {
        return Err("invalid_spec");
    }
    let mut i: usize = 0;
    while i < delivery.deployments.len()
        invariant
            i <= delivery.deployments@.len(),
            checks@.len() == delivery.deployments@.len(),
            forall|k: int|
                0 <= k < i ==> #[trigger] item_sound(delivery.deployments@, checks@, k),
        decreases delivery.deployments@.len() - i,
    {
        if !is_item_sound(&delivery.deployments, checks, i) {
            assert(!item_sound(delivery.deployments@, checks@, i as int));
            return Err("invalid_spec");
        }
        i += 1;
    }
    Ok(())
}

fn is_item_sound(deployments: &Vec<DesiredDeployment>, checks: &Vec<ItemCheck>, i: usize) -> (r:
    bool)
    requires
        i < deployments@.len(),
        checks@.len() == deployments@.len(),
    ensures
        r == item_sound(deployments@, checks@, i as int),
{
    let item = &deployments[i];
    if !checks[i].name_valid {
        return false;
    }
    let mut j: usize = 0;
    while j < i
        invariant
            j <= i < deployments@.len(),
            *item == deployments@[i as int],
            forall|k: int| 0 <= k < j ==> #[trigger] deployments@[k].name@ != item.name@,
        decreases i - j,
    {
        if same(deployments[j].name.as_str(), item.name.as_str()) {
            assert(!item_sound(deployments@, checks@, i as int));
            return false;
        }
        j += 1;
    }
    match &item.spec {
        Some(_) => item.delete_uid.is_none() && checks[i].spec_valid,
        None => match &item.delete_uid {
            Some(uid) => !uid.as_str().is_empty() && byte_len(uid.as_str()) <= 128,
            None => false,
        },
    }
}

/// What the cluster holds under the name of a deployment.
#[derive(Clone, Debug)]
pub struct Existing {
    pub uid: Option<String>,
    pub resource_version: Option<String>,
    pub owner: Option<String>,
    pub version: Option<String>,
    pub digest: Option<String>,
}

/// What is done to a deployment. What is written carries whose it is and which
/// delivery it came with.
#[derive(Debug)]
pub enum Action {
    Create { owner: String, version: String, digest: String },
    Replace { owner: String, version: String, digest: String },
    Delete { uid: Option<String>, resource_version: Option<String> },
    Nothing,
}

pub open spec fn reads(value: Option<String>, text: Seq<char>) -> bool {
    value matches Some(s) && s@ == text
}

fn does_read(value: &Option<String>, text: &str) -> (r: bool)
    ensures
        r == reads(*value, text@),
{
    match value {
        Some(s) => same(s.as_str(), text),
        None => false,
    }
}

/// The version that an object was written with.
pub open spec fn written_version(current: Existing) -> Option<i64> {
    match current.version {
        Some(text) => match signed_value(text@) {
            Some(n) if i64::MIN <= n <= i64::MAX => Some(n as i64),
            _ => None,
        },
        None => None,
    }
}

/// The object is of this cluster, and of no later delivery or another one of the
/// same version.
pub open spec fn owned(config: Config, delivery: ClusterDelivery, current: Existing) -> bool {
    &&& reads(current.owner, config.cluster_id@)
    &&& written_version(current) matches Some(version) && version <= delivery.version && (version
        == delivery.version ==> reads(current.digest, delivery.sha256@))
}

/// Two optional identities that are the same.
pub open spec fn same_identity(a: Option<String>, b: Option<String>) -> bool {
    match (a, b) {
        (Some(x), Some(y)) => x@ == y@,
        (None, None) => true,
        _ => false,
    }
}

/// Why a deployment is not applied.
pub open spec fn apply_fault(
    config: Config,
    delivery: ClusterDelivery,
    item: DesiredDeployment,
    current: Option<Existing>,
) -> Option<Seq<char>> {
    if item.expected_uid matches Some(uid) && !(current matches Some(object) && reads(
        object.uid,
        uid@,
    )) {
        Some("identity_mismatch"@)
    } else {
        match current {
            None => None,
            Some(object) => if !owned(config, delivery, object) {
                Some("ownership_conflict"@)
            } else if item.spec is None && !same_identity(object.uid, item.delete_uid) {
                Some("ownership_conflict"@)
            } else {
                None
            },
        }
    }
}

/// What is written of a delivery into what it makes.
pub open spec fn marks(
    config: Config,
    delivery: ClusterDelivery,
    owner: String,
    version: String,
    digest: String,
) -> bool {
    owner@ == config.cluster_id@ && version@ == int_text(delivery.version as int) && digest@
        == delivery.sha256@
}

/// Decides what is done to a deployment of a sound delivery. What is there is
/// replaced or deleted only where it is of this cluster; a delete that was
/// applied before has nothing left to do.
pub fn apply(
    config: &Config,
    delivery: &ClusterDelivery,
    item: &DesiredDeployment,
    current: &Option<Existing>,
) -> (r: Result<Action, &'static str>)
    ensures
        match r {
            Err(message) => apply_fault(*config, *delivery, *item, *current) == Some(message@),
            Ok(action) => {
                &&& apply_fault(*config, *delivery, *item, *current) is None
                &&& match (item.spec, *current) {
                    (Some(_), Some(_)) => action matches Action::Replace {
                        owner,
                        version,
                        digest,
                    } && marks(*config, *delivery, owner, version, digest),
                    (Some(_), None) => action matches Action::Create { owner, version, digest }
                        && marks(*config, *delivery, owner, version, digest),
                    (None, Some(object)) => action == (Action::Delete {
                        uid: object.uid,
                        resource_version: object.resource_version,
                    }),
                    (None, None) => action is Nothing,
                }
            },
        },
{
    if let Some(uid) = &item.expected_uid {
        let matching = match current {
            Some(object) => does_read(&object.uid, uid.as_str()),
            None => false,
        };
        if !matching {
            return Err("identity_mismatch");
        }
    }
    if let Some(object) = current {
        if !does_read(&object.owner, config.cluster_id.as_str()) {
            return Err("ownership_conflict");
        }
        let version: Option<i64> = match &object.version {
            Some(text) => parse_i64(text.as_str()),
            None => None,
        };
        match version {
            None => return Err("ownership_conflict"),
            Some(version) => if version > delivery.version || (version == delivery.version
                && !does_read(&object.digest, delivery.sha256.as_str())) {
                return Err("ownership_conflict");
            },
        }
    }
    if item.spec.is_some() {
        let owner = config.cluster_id.clone();
        let version = decimal(delivery.version);
        let digest = delivery.sha256.clone();
        return match current {
            Some(_) => Ok(Action::Replace { owner, version, digest }),
            None => Ok(Action::Create { owner, version, digest }),
        };
    }
    match current {
        Some(object) => {
            let matching = match (&object.uid, &item.delete_uid) {
                (Some(a), Some(b)) => same(a.as_str(), b.as_str()),
                (None, None) => true,
                _ => false,
            };
            if !matching {
                return Err("ownership_conflict");
            }
            Ok(
                Action::Delete {
                    uid: crate::text::copy_option(&object.uid),
                    resource_version: crate::text::copy_option(&object.resource_version),
                },
            )
        },
        None => Ok(Action::Nothing),
    }
}

/// Where a provider is asked.
pub fn query_url(base: &str) -> (r: String)
    ensures
        r@ == without_slashes(base@) + "/api/v1/query"@,
{
    join(trim_slashes(base), "/api/v1/query")
}

/// The answer of a provider that has nothing in flight: a vector of one sample,
/// whose value is the text of zero.
pub open spec fn idle_json(json: Json) -> bool {
    let data = member(json, "data"@);
    &&& says(member(json, "status"@), "success"@)
    &&& says(inner(data, "resultType"@), "vector"@)
    &&& inner(data, "result"@) matches Some(Json::Array(samples)) && samples.len() == 1
        && zero_sample(samples[0])
}

/// A sample: a time, and the text of zero behind it.
pub open spec fn zero_sample(sample: Json) -> bool {
    member(sample, "value"@) matches Some(Json::Array(pair)) && pair.len() > 1 && pair[1]
        == Json::Text("0"@)
}

/// Whether the answer of a provider says that nothing is in flight.
pub fn provider_idle(answer: &serde_json::Value) -> (r: bool)
    ensures
        r == idle_json(json_of(*answer)),
{
    if !does_say(get(answer, "status"), "success") {
        return false;
    }
    let data = match get(answer, "data") {
        Some(data) => data,
        None => return false,
    };
    if !does_say(get(data, "resultType"), "vector") {
        return false;
    }
    let result = match get(data, "result") {
        Some(result) => result,
        None => return false,
    };
    let samples = match as_array(result) {
        Some(samples) => samples,
        None => return false,
    };
    if samples.len() != 1 {
        assert(elements(samples@).len() == samples@.len());
        return false;
    }
    assert(elements(samples@)[0] == json_of(samples@[0]));
    let value = match get(&samples[0], "value") {
        Some(value) => value,
        None => return false,
    };
    let pair = match as_array(value) {
        Some(pair) => pair,
        None => return false,
    };
    if pair.len() < 2 {
        assert(elements(pair@).len() == pair@.len());
        return false;
    }
    assert(elements(pair@)[1] == json_of(pair@[1]));
    does_say(Some(&pair[1]), "0")
}

/// Whether the bytes of a provider's answer say that nothing is in flight.
pub fn idle_answer(bytes: &[u8]) -> (r: bool)
    ensures
        r == (document(bytes@) matches Some(json) && idle_json(json)),
{
    match member_answer(bytes) {
        Ok(answer) => provider_idle(&answer),
        Err(_) => false,
    }
}

/// What a provider is asked about a pool.
#[derive(Debug)]
pub struct IdleQuestion {
    pub url: String,
    /// Since when nothing may have been in flight.
    pub after: Timestamp,
}

/// What is asked about the pool of an observation: only where the control plane
/// wants it known and a provider is configured.
pub fn idle_question(config: &Config, idle_after: Option<Timestamp>) -> (r: Option<IdleQuestion>)
    ensures
        match (idle_after, config.prometheus_url) {
            (Some(after), Some(base)) => r matches Some(question) && question.after == after
                && question.url@ == without_slashes(base@) + "/api/v1/query"@,
            _ => r is None,
        },
{
    match (idle_after, &config.prometheus_url) {
        (Some(after), Some(base)) => Some(IdleQuestion { url: query_url(base.as_str()), after }),
        _ => None,
    }
}

/// What an observation says of the pool being idle. The answer to a question
/// decides, and no answer means that the pool is not known to be idle; without a
/// question it is what was observed.
pub fn observed_idle(
    question: &Option<IdleQuestion>,
    observed: bool,
    answer: Option<&Vec<u8>>,
) -> (r: bool)
    ensures
        r == match *question {
            Some(_) => answer is Some && (document(answer->0@) matches Some(json) && idle_json(
                json,
            )),
            None => observed,
        },
{
    match question {
        Some(_) => match answer {
            Some(bytes) => idle_answer(bytes.as_slice()),
            None => false,
        },
        None => observed,
    }
}

/// What is not of this cluster is never touched: an object of another owner, or
/// of none, is neither replaced nor deleted.
pub proof fn law_foreign_objects_are_never_touched(
    config: Config,
    delivery: ClusterDelivery,
    item: DesiredDeployment,
    object: Existing,
)
    requires
        !reads(object.owner, config.cluster_id@),
    ensures
        apply_fault(config, delivery, item, Some(object)) is Some,
{
}

/// An older delivery never overwrites what a later one wrote.
pub proof fn law_later_deliveries_win(
    config: Config,
    delivery: ClusterDelivery,
    item: DesiredDeployment,
    object: Existing,
)
    requires
        written_version(object) matches Some(version) && version > delivery.version,
    ensures
        apply_fault(config, delivery, item, Some(object)) is Some,
{
}

/// What a delivery wrote, it may write again: the marks that it leaves are those
/// of its owner, version and digest.
pub proof fn law_deliveries_can_be_repeated(
    config: Config,
    delivery: ClusterDelivery,
    object: Existing,
)
    requires
        reads(object.owner, config.cluster_id@),
        written_version(object) == Some(delivery.version),
        reads(object.digest, delivery.sha256@),
    ensures
        owned(config, delivery, object),
{
}

/// A delete names the object that it is for: one of another identity stays.
pub proof fn law_deletes_are_bound_to_an_identity(
    config: Config,
    delivery: ClusterDelivery,
    item: DesiredDeployment,
    object: Existing,
)
    requires
        item.spec is None,
        !same_identity(object.uid, item.delete_uid),
    ensures
        apply_fault(config, delivery, item, Some(object)) is Some,
{
}

/// The agent talks over HTTPS, or over HTTP to a host of its own cluster or machine where that
/// is allowed, and never with credentials, a query or a fragment in the address.
pub proof fn law_addresses_are_guarded(url: UrlShape, allow_local_http: bool)
    requires
        guarded_url(url, allow_local_http),
    ensures
        url.username.len() == 0 && !url.has_password && !url.has_query && !url.has_fragment,
        url.scheme == "https"@ || url.scheme == "http"@,
        url.scheme != "https"@ ==> allow_local_http && url.host is Some && (url.host->0
            == "localhost"@ || ".svc"@.is_suffix_of(url.host->0)
            || ".svc.cluster.local"@.is_suffix_of(url.host->0) || loopback_text(url.host->0)),
        !allow_local_http ==> url.scheme == "https"@,
{
}

/// A configuration is taken only if it is small, its addresses are guarded, its names are sound
/// and its credential file is named from the root.
pub proof fn law_agents_are_configured_safely(
    bytes: usize,
    parsed: Option<Config>,
    cluster_name: Option<Seq<char>>,
    namespace_name: Option<Seq<char>>,
)
    requires
        config_fault(bytes, parsed, cluster_name, namespace_name) is None,
    ensures
        bytes < 8193,
        parsed is Some,
        cluster_name is None && namespace_name is None,
        url_shape(parsed->0.control_url@) is Some,
        guarded_url(url_shape(parsed->0.control_url@)->0, parsed->0.allow_local_http),
        "/"@.is_prefix_of(parsed->0.credential_file@),
        parsed->0.prometheus_url is Some ==> url_shape(parsed->0.prometheus_url->0@) is Some
            && guarded_url(
            url_shape(parsed->0.prometheus_url->0@)->0,
            parsed->0.allow_local_http,
        ),
{
}

/// A delivery is taken only if it is meant for this cluster and namespace, carries its digest,
/// and names each deployment once, with what it is to be or the identity that is to go.
pub proof fn law_deliveries_are_for_this_cluster(
    config: Config,
    delivery: ClusterDelivery,
    checks: Seq<ItemCheck>,
    i: int,
    j: int,
)
    requires
        delivery_sound(config, delivery, checks),
    ensures
        delivery.cluster_id@ == config.cluster_id@,
        delivery.namespace@ == config.namespace@,
        delivery.version > 0,
        delivery.lease_seconds == 60,
        delivery.deployments@.len() < 101,
        crate::domain::cluster::deployments_bytes(delivery.deployments@) is Some
            && crate::crypto::fingerprint_text(
            crate::domain::cluster::deployments_bytes(delivery.deployments@)->0,
        ) == delivery.sha256@,
        0 <= i < j < delivery.deployments@.len() ==> delivery.deployments@[i].name@
            != delivery.deployments@[j].name@,
        0 <= i < delivery.deployments@.len() && delivery.deployments@[i].spec is None
            ==> delivery.deployments@[i].delete_uid is Some
            && delivery.deployments@[i].delete_uid->0@.len() > 0,
        0 <= i < delivery.deployments@.len() && delivery.deployments@[i].spec is Some
            ==> delivery.deployments@[i].delete_uid is None && checks[i].spec_valid,
        0 <= i < delivery.deployments@.len() ==> checks[i].name_valid,
{
    if 0 <= i < delivery.deployments@.len() {
        assert(item_sound(delivery.deployments@, checks, i));
    }
    if 0 <= i < j < delivery.deployments@.len() {
        assert(item_sound(delivery.deployments@, checks, j));
        assert(delivery.deployments@[i].name@ == delivery.deployments@[i].name@);
    }
}

/// An object is changed only if this cluster owns it, no later delivery has written it, and it
/// is the one that was expected; a delivery that wrote it before must be the same.
pub proof fn law_only_owned_objects_are_changed(
    config: Config,
    delivery: ClusterDelivery,
    item: DesiredDeployment,
    current: Option<Existing>,
)
    requires
        apply_fault(config, delivery, item, current) is None,
    ensures
        item.expected_uid is Some ==> current is Some && current->0.uid is Some
            && current->0.uid->0@ == item.expected_uid->0@,
        current is Some ==> current->0.owner is Some && current->0.owner->0@ == config.cluster_id@,
        current is Some ==> written_version(current->0) is Some && written_version(current->0)->0
            <= delivery.version,
        current is Some && written_version(current->0)->0 == delivery.version
            ==> current->0.digest is Some && current->0.digest->0@ == delivery.sha256@,
        current is Some && item.spec is None && item.delete_uid is Some ==> current->0.uid is Some
            && current->0.uid->0@ == item.delete_uid->0@,
{
}

/// What the agent writes on an object is what it reads back from it: the owner, the version and
/// the digest of the delivery, so that the same delivery can be made again.
pub proof fn law_marks_are_read_back(
    config: Config,
    delivery: ClusterDelivery,
    owner: String,
    version: String,
    digest: String,
    object: Existing,
)
    requires
        marks(config, delivery, owner, version, digest),
        object.owner == Some(owner),
        object.version == Some(version),
        object.digest == Some(digest),
    ensures
        written_version(object) == Some(delivery.version),
        owned(config, delivery, object),
{
    crate::text::law_signed_numbers_read_back(delivery.version as int);
}

/// A pool is idle only on a single sample that reads zero.
pub proof fn law_idleness_is_one_zero_sample(json: Json)
    requires
        idle_json(json),
    ensures
        member(json, "data"@) is Some,
        inner(member(json, "data"@), "result"@) is Some,
        inner(member(json, "data"@), "result"@)->0 is Array,
        ({
            let samples = inner(member(json, "data"@), "result"@)->0->Array_0;
            &&& samples.len() == 1
            &&& member(samples[0], "value"@) matches Some(Json::Array(pair)) && pair.len() >= 2
                && pair[1] == Json::Text("0"@)
        }),
{
}

/// A host of the loopback network is the number 127 and three octets behind it, each after a
/// dot.
pub proof fn law_loopback_hosts_are_four_octets(host: Seq<char>)
    ensures
        loopback_text(host) <==> {
            &&& host.contains('.') && before_dot(host) == "127"@
            &&& after_dot(host).contains('.') && octet_text(before_dot(after_dot(host)))
            &&& after_dot(after_dot(host)).contains('.') && octet_text(
                before_dot(after_dot(after_dot(host))),
            )
            &&& octet_text(after_dot(after_dot(after_dot(host))))
        },
{
}

/// A configuration is read up to 8 KiB, and one that is larger is refused for its size whatever
/// it says.
pub proof fn law_configurations_are_bounded(
    bytes: usize,
    parsed: Option<Config>,
    cluster_name: Option<Seq<char>>,
    namespace_name: Option<Seq<char>>,
)
    ensures
        bytes >= 8193 ==> config_fault(bytes, parsed, cluster_name, namespace_name) == Some(
            "cluster pull configuration exceeds size limit"@,
        ),
        bytes < 8193 && parsed is None ==> config_fault(bytes, parsed, cluster_name, namespace_name)
            == Some("invalid cluster pull configuration"@),
        bytes < 8193 ==> config_fault(bytes, parsed, cluster_name, namespace_name) == config_fault(
            0,
            parsed,
            cluster_name,
            namespace_name,
        ),
{
}

/// A provider is idle only if it answered with success, with one sample of a vector.
pub proof fn law_idle_providers_answer_with_success(json: Json)
    requires
        idle_json(json),
    ensures
        says(member(json, "status"@), "success"@),
        says(inner(member(json, "data"@), "resultType"@), "vector"@),
{
}

} // verus!
