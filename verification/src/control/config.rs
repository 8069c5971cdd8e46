//! The configuration of the control plane, as it stands in the environment.
use crate::domain::routing::RoutePool;
use crate::text::{
    blank, byte_len, bytes_of, is_blank, join, parse_u64, same, split_once, trim,
    trim_slashes, trimmed, unsigned_value, without_slashes,
};
use vstd::prelude::*;

verus! {

#[derive(Clone, Debug)]
pub enum ConfigError {
    Missing(&'static str),
    Invalid { name: &'static str, message: String },
}

/// A configuration error with its texts spelled out.
pub enum ConfigFault {
    Missing(Seq<char>),
    Invalid(Seq<char>, Seq<char>),
}

impl View for ConfigError {
    type V = ConfigFault;

    open spec fn view(&self) -> ConfigFault {
        match self {
            ConfigError::Missing(name) => ConfigFault::Missing(name@),
            ConfigError::Invalid { name, message } => ConfigFault::Invalid(name@, message@),
        }
    }
}

impl ConfigError {
    /// The error as it is shown.
    pub fn message(&self) -> (r: String)
        ensures
            r@ == match self@ {
                ConfigFault::Missing(name) => name + " must be set"@,
                ConfigFault::Invalid(name, message) => name + " is invalid: "@ + message,
            },
    {
        match self {
            ConfigError::Missing(name) => join(name, " must be set"),
            ConfigError::Invalid { name, message } => join(
                join(name, " is invalid: ").as_str(),
                message.as_str(),
            ),
        }
    }
}

#[derive(Clone, Copy, Debug, PartialEq, Eq, Structural)]
pub struct DatabasePool {
    pub max: u32,
    pub min: u32,
    pub acquire_ms: u64,
}

/// A number of the environment: the fallback where it is not set, and nothing
/// where it is not a number in range.
pub open spec fn number_of(
    value: Option<Seq<char>>,
    fallback: int,
    min: int,
    max: int,
) -> Option<int> {
    let n: Option<int> = match value {
        None => Some(fallback),
        Some(text) => match unsigned_value(text) {
            Some(n) if n <= u32::MAX => Some(n as int),
            _ => None,
        },
    };
    if n is Some && min <= n->0 <= max {
        n
    } else {
        None
    }
}

pub open spec fn text_of(value: Option<String>) -> Option<Seq<char>> {
    match value {
        Some(text) => Some(text@),
        None => None,
    }
}

fn number(
    name: &'static str,
    value: &Option<String>,
    fallback: u32,
    min: u32,
    max: u32,
) -> (r: Result<u32, ConfigError>)
    ensures
        match r {
            Ok(n) => number_of(text_of(*value), fallback as int, min as int, max as int) == Some(
                n as int,
            ),
            Err(e) => number_of(text_of(*value), fallback as int, min as int, max as int) is None
                && e@ == ConfigFault::Invalid(name@, "outside supported range"@),
        },
{
    let n: Option<u64> = match value {
        Some(text) => parse_u64(text.as_str()),
        None => Some(fallback as u64),
    };
    match n {
        Some(n) => if n <= u32::MAX as u64 && n >= min as u64 && n <= max as u64 {
            return Ok(n as u32);
        },
        None => {},
    }
    Err(ConfigError::Invalid { name, message: "outside supported range".to_owned() })
}

/// What the three values of a database pool make.
pub open spec fn pool_of(
    max: Option<Seq<char>>,
    min: Option<Seq<char>>,
    wait: Option<Seq<char>>,
) -> Result<DatabasePool, ConfigFault> {
    let bad = "outside supported range"@;
    match number_of(max, 4, 1, 128) {
        None => Err(ConfigFault::Invalid("XSCOPE_DB_MAX_CONNECTIONS"@, bad)),
        Some(most) => match number_of(min, 0, 0, most) {
            None => Err(ConfigFault::Invalid("XSCOPE_DB_MIN_CONNECTIONS"@, bad)),
            Some(least) => match number_of(wait, 2000, 100, 30000) {
                None => Err(ConfigFault::Invalid("XSCOPE_DB_ACQUIRE_TIMEOUT_MS"@, bad)),
                Some(ms) => Ok(
                    DatabasePool { max: most as u32, min: least as u32, acquire_ms: ms as u64 },
                ),
            },
        },
    }
}

pub open spec fn agrees<T>(r: Result<T, ConfigError>, expected: Result<T, ConfigFault>) -> bool {
    match r {
        Ok(value) => expected == Ok::<T, ConfigFault>(value),
        Err(e) => expected == Err::<T, ConfigFault>(e@),
    }
}

impl DatabasePool {
    fn from_values(max: &Option<String>, min: &Option<String>, wait: &Option<String>) -> (r: Result<
        Self,
        ConfigError,
    >)
        ensures
            agrees(r, pool_of(text_of(*max), text_of(*min), text_of(*wait))),
    {
        let max = match number("XSCOPE_DB_MAX_CONNECTIONS", max, 4, 1, 128) {
            Ok(n) => n,
            Err(e) => return Err(e),
        };
        let min = match number("XSCOPE_DB_MIN_CONNECTIONS", min, 0, 0, max) {
            Ok(n) => n,
            Err(e) => return Err(e),
        };
        let wait = match number("XSCOPE_DB_ACQUIRE_TIMEOUT_MS", wait, 2000, 100, 30000) {
            Ok(n) => n,
            Err(e) => return Err(e),
        };
        Ok(DatabasePool { max, min, acquire_ms: wait as u64 })
    }

    /// Reads the pool from what `get` finds under the names of its values.
    pub fn parse(get: impl Fn(&str) -> Option<String>) -> (r: Result<Self, ConfigError>)
        requires
            forall|key: &str| call_requires(get, (key,)),
        ensures
            exists|max: Option<String>, min: Option<String>, wait: Option<String>|
                {
                    &&& #[trigger] call_ensures(get, ("XSCOPE_DB_MAX_CONNECTIONS",), max)
                    &&& #[trigger] call_ensures(get, ("XSCOPE_DB_MIN_CONNECTIONS",), min)
                    &&& #[trigger] call_ensures(get, ("XSCOPE_DB_ACQUIRE_TIMEOUT_MS",), wait)
                    &&& agrees(r, pool_of(text_of(max), text_of(min), text_of(wait)))
                },
    {
        let max = get("XSCOPE_DB_MAX_CONNECTIONS");
        let min = get("XSCOPE_DB_MIN_CONNECTIONS");
        let wait = get("XSCOPE_DB_ACQUIRE_TIMEOUT_MS");
        Self::from_values(&max, &min, &wait)
    }
}

/// The trimmed parts of a list between commas, without the empty ones.
pub open spec fn items(raw: Seq<char>) -> Seq<Seq<char>>
    decreases raw.len(),
{
    let head = if raw.contains(',') {
        raw.take(raw.index_of_first(',')->0)
    } else {
        raw
    };
    let first = if trimmed(head).len() > 0 {
        seq![trimmed(head)]
    } else {
        seq![]
    };
    if raw.contains(',') {
        proof {
            raw.index_of_first_ensures(',');
        }
        first + items(raw.skip(raw.index_of_first(',')->0 + 1))
    } else {
        first
    }
}

/// Reads a list between commas.
pub fn list(raw: &str) -> (r: Vec<String>)
    ensures
        r@.len() == items(raw@).len(),
        forall|i: int| 0 <= i < r@.len() ==> (#[trigger] r@[i])@ == items(raw@)[i],
{
    let mut out: Vec<String> = Vec::new();
    let mut rest: Option<&str> = Some(raw);
    while rest.is_some()
        invariant
            ({
                let tail = match rest {
                    Some(text) => items(text@),
                    None => seq![],
                };
                &&& out@.len() + tail.len() == items(raw@).len()
                &&& items(raw@).skip(out@.len() as int) == tail
            }),
            forall|i: int| 0 <= i < out@.len() ==> (#[trigger] out@[i])@ == items(raw@)[i],
        decreases (if rest is Some { rest->0@.len() + 1 } else { 0 }),
    {
        let text = match rest {
            Some(text) => text,
            None => "",
        };
        let ghost all = items(raw@);
        let ghost before = out@;
        let (head, next) = match split_once(text, ',') {
            Some((head, tail)) => {
                proof {
                    lemma_first_comma(text@, head@, tail@);
                }
                (head, Some(tail))
            },
            None => (text, None),
        };
        let item = trim(head);
        if !item.is_empty() {
            out.push(item.to_owned());
            proof {
                assert(items(text@)[0] == trimmed(head@));
                assert(all.skip(before.len() as int)[0] == all[before.len() as int]);
                assert(all.skip(before.len() as int + 1) =~= all.skip(before.len() as int).skip(1));
            }
        }
        proof {
            let tail = match next {
                Some(t) => items(t@),
                None => seq![],
            };
            if trimmed(head@).len() > 0 {
                assert(items(text@) =~= seq![trimmed(head@)] + tail);
                assert(items(text@).skip(1) =~= tail);
            } else {
                assert(items(text@) =~= tail);
            }
        }
        rest = next;
    }
    out
}

/// A text that is cut at its first comma.
proof fn lemma_first_comma(text: Seq<char>, head: Seq<char>, tail: Seq<char>)
    requires
        text == head.push(',') + tail,
        !head.contains(','),
    ensures
        text.contains(','),
        text.take(text.index_of_first(',')->0) == head,
        text.skip(text.index_of_first(',')->0 + 1) == tail,
{
    assert(text[head.len() as int] == ',');
    text.index_of_first_ensures(',');
    let i = text.index_of_first(',')->0;
    if i < head.len() {
        assert(head[i] == ',');
    }
    assert(i == head.len());
    assert(text.take(i) =~= head);
    assert(text.skip(i + 1) =~= tail);
}

/// What the environment holds for the control plane.
pub struct Environment {
    pub database_url: Option<String>,
    pub internal_token: Option<String>,
    pub db_max_connections: Option<String>,
    pub db_min_connections: Option<String>,
    pub db_acquire_timeout_ms: Option<String>,
    pub alert_webhook_token: Option<String>,
    pub console_auth: Option<String>,
    pub cluster_agent_url: Option<String>,
    pub default_tenant_id: Option<String>,
    pub auto_join_default_tenant: Option<String>,
    pub bootstrap_admin_users: Option<String>,
    pub platform_admin_subjects: Option<String>,
    pub billing_reviewer_subjects: Option<String>,
    pub gateway_health_url: Option<String>,
    pub runtime_health_url: Option<String>,
    pub operator_health_url: Option<String>,
}

impl Environment {
    /// Reads the environment: `get` finds what it holds under a name.
    pub fn read(get: impl Fn(&str) -> Option<String>) -> (r: Self)
        requires
            forall|name: &str| call_requires(get, (name,)),
        ensures
            call_ensures(get, ("XSCOPE_DATABASE_URL",), r.database_url),
            call_ensures(get, ("XSCOPE_INTERNAL_TOKEN",), r.internal_token),
            call_ensures(get, ("XSCOPE_DB_MAX_CONNECTIONS",), r.db_max_connections),
            call_ensures(get, ("XSCOPE_DB_MIN_CONNECTIONS",), r.db_min_connections),
            call_ensures(get, ("XSCOPE_DB_ACQUIRE_TIMEOUT_MS",), r.db_acquire_timeout_ms),
            call_ensures(get, ("XSCOPE_ALERT_WEBHOOK_TOKEN",), r.alert_webhook_token),
            call_ensures(get, ("XSCOPE_CONSOLE_AUTH",), r.console_auth),
            call_ensures(get, ("XSCOPE_CLUSTER_AGENT_URL",), r.cluster_agent_url),
            call_ensures(get, ("XSCOPE_DEFAULT_TENANT_ID",), r.default_tenant_id),
            call_ensures(get, ("XSCOPE_AUTO_JOIN_DEFAULT_TENANT",), r.auto_join_default_tenant),
            call_ensures(get, ("XSCOPE_BOOTSTRAP_ADMIN_USERS",), r.bootstrap_admin_users),
            call_ensures(get, ("XSCOPE_PLATFORM_ADMIN_SUBJECTS",), r.platform_admin_subjects),
            call_ensures(get, ("XSCOPE_BILLING_REVIEWER_SUBJECTS",), r.billing_reviewer_subjects),
            call_ensures(get, ("XSCOPE_GATEWAY_HEALTH_URL",), r.gateway_health_url),
            call_ensures(get, ("XSCOPE_RUNTIME_HEALTH_URL",), r.runtime_health_url),
            call_ensures(get, ("XSCOPE_OPERATOR_HEALTH_URL",), r.operator_health_url),
    {
        Environment {
            database_url: get("XSCOPE_DATABASE_URL"),
            internal_token: get("XSCOPE_INTERNAL_TOKEN"),
            db_max_connections: get("XSCOPE_DB_MAX_CONNECTIONS"),
            db_min_connections: get("XSCOPE_DB_MIN_CONNECTIONS"),
            db_acquire_timeout_ms: get("XSCOPE_DB_ACQUIRE_TIMEOUT_MS"),
            alert_webhook_token: get("XSCOPE_ALERT_WEBHOOK_TOKEN"),
            console_auth: get("XSCOPE_CONSOLE_AUTH"),
            cluster_agent_url: get("XSCOPE_CLUSTER_AGENT_URL"),
            default_tenant_id: get("XSCOPE_DEFAULT_TENANT_ID"),
            auto_join_default_tenant: get("XSCOPE_AUTO_JOIN_DEFAULT_TENANT"),
            bootstrap_admin_users: get("XSCOPE_BOOTSTRAP_ADMIN_USERS"),
            platform_admin_subjects: get("XSCOPE_PLATFORM_ADMIN_SUBJECTS"),
            billing_reviewer_subjects: get("XSCOPE_BILLING_REVIEWER_SUBJECTS"),
            gateway_health_url: get("XSCOPE_GATEWAY_HEALTH_URL"),
            runtime_health_url: get("XSCOPE_RUNTIME_HEALTH_URL"),
            operator_health_url: get("XSCOPE_OPERATOR_HEALTH_URL"),
        }
    }
}

/// What was read of it elsewhere: the pools that the platform starts with and
/// the two addresses it listens on, or what was wrong with them.
pub struct Parsed {
    pub route_pools: Result<Vec<RoutePool>, String>,
    pub public_address: Result<(), String>,
    pub internal_address: Result<(), String>,
}

/// The configuration of the control plane. What is only handed on is not in
/// it.
pub struct Config {
    pub database_url: String,
    pub database_pool: DatabasePool,
    pub internal_token: String,
    pub alert_webhook_token: Option<String>,
    pub console_auth: bool,
    pub cluster_agent_url: String,
    pub default_tenant_id: String,
    pub auto_join_default_tenant: bool,
    pub bootstrap_admin_users: Vec<String>,
    pub platform_admin_subjects: Vec<String>,
    pub billing_reviewer_subjects: Vec<String>,
    pub component_targets: Vec<(String, String)>,
    pub route_pools: Vec<RoutePool>,
}

pub open spec fn text_or(value: Option<String>, fallback: Seq<char>) -> Seq<char> {
    match value {
        Some(text) => text@,
        None => fallback,
    }
}

fn env_or(value: &Option<String>, fallback: &str) -> (r: String)
    ensures
        r@ == text_or(*value, fallback@),
{
    match value {
        Some(text) => text.clone(),
        None => fallback.to_owned(),
    }
}

/// The value is there and not blank.
pub open spec fn given(value: Option<String>) -> bool {
    value matches Some(text) && !blank(text@)
}

fn required(name: &'static str, value: &Option<String>) -> (r: Result<String, ConfigError>)
    ensures
        match r {
            Ok(text) => given(*value) && *value == Some(text),
            Err(e) => !given(*value) && e@ == ConfigFault::Missing(name@),
        },
{
    match value {
        Some(text) => if !is_blank(text.as_str()) {
            return Ok(text.clone());
        },
        None => {},
    }
    Err(ConfigError::Missing(name))
}

pub open spec fn list_is(v: Vec<String>, raw: Seq<char>) -> bool {
    &&& v@.len() == items(raw).len()
    &&& forall|i: int| 0 <= i < v@.len() ==> (#[trigger] v@[i])@ == items(raw)[i]
}

pub open spec fn pool_settings(e: Environment) -> Result<DatabasePool, ConfigFault> {
    pool_of(
        text_of(e.db_max_connections),
        text_of(e.db_min_connections),
        text_of(e.db_acquire_timeout_ms),
    )
}

pub open spec fn config_fault(e: Environment, p: Parsed) -> Option<ConfigFault> {
    if !given(e.database_url) {
        Some(ConfigFault::Missing("XSCOPE_DATABASE_URL"@))
    } else if !given(e.internal_token) {
        Some(ConfigFault::Missing("XSCOPE_INTERNAL_TOKEN"@))
    } else if p.route_pools is Err {
        Some(ConfigFault::Invalid("XSCOPE_ROUTE_POOLS_JSON"@, p.route_pools->Err_0@))
    } else if p.public_address is Err {
        Some(ConfigFault::Invalid("XSCOPE_CONTROL_ADDRESS"@, p.public_address->Err_0@))
    } else if p.internal_address is Err {
        Some(
            ConfigFault::Invalid("XSCOPE_CONTROL_INTERNAL_ADDRESS"@, p.internal_address->Err_0@),
        )
    } else if pool_settings(e) is Err {
        Some(pool_settings(e)->Err_0)
    } else {
        None
    }
}

pub open spec fn target_is(t: (String, String), name: Seq<char>, url: Seq<char>) -> bool {
    t.0@ == name && t.1@ == url
}

pub open spec fn agent_url(e: Environment) -> Seq<char> {
    text_or(e.cluster_agent_url, "http://cluster-agent:8083"@)
}

/// The configuration that an environment makes.
pub open spec fn configured(e: Environment, p: Parsed, c: Config) -> bool {
    &&& e.database_url == Some(c.database_url)
    &&& e.internal_token == Some(c.internal_token)
    &&& pool_settings(e) == Ok::<DatabasePool, ConfigFault>(c.database_pool)
    &&& c.alert_webhook_token == match e.alert_webhook_token {
        Some(token) if bytes_of(token@).len() >= 32 => Some(token),
        _ => None,
    }
    &&& c.console_auth == (text_or(e.console_auth, "disabled"@) == "trusted-headers"@)
    &&& c.cluster_agent_url@ == agent_url(e)
    &&& c.default_tenant_id@ == text_or(e.default_tenant_id, "tenant-local"@)
    &&& c.auto_join_default_tenant == (text_or(e.auto_join_default_tenant, "false"@) == "true"@)
    &&& list_is(
        c.bootstrap_admin_users,
        text_or(e.bootstrap_admin_users, "platform-admin"@),
    )
    &&& list_is(c.platform_admin_subjects, text_or(e.platform_admin_subjects, ""@))
    &&& list_is(c.billing_reviewer_subjects, text_or(e.billing_reviewer_subjects, ""@))
    &&& c.component_targets@.len() == 4
    &&& target_is(
        c.component_targets@[0],
        "gateway"@,
        text_or(e.gateway_health_url, "http://gateway:80/healthz"@),
    )
    &&& target_is(
        c.component_targets@[1],
        "runtime"@,
        text_or(e.runtime_health_url, "http://runtime:8090/healthz"@),
    )
    &&& target_is(
        c.component_targets@[2],
        "operator"@,
        text_or(e.operator_health_url, "http://operator:8082/healthz"@),
    )
    &&& target_is(
        c.component_targets@[3],
        "cluster-agent"@,
        without_slashes(agent_url(e)) + "/healthz"@,
    )
    &&& p.route_pools == Ok::<Vec<RoutePool>, String>(c.route_pools)
}

impl Config {
    /// Makes the configuration out of what the environment holds.
    pub fn from_env(env: &Environment, parsed: Parsed) -> (r: Result<Self, ConfigError>)
        ensures
            match r {
                Ok(c) => config_fault(*env, parsed) is None && configured(*env, parsed, c),
                Err(e) => config_fault(*env, parsed) == Some(e@),
            },
    {
        let database_url = match required("XSCOPE_DATABASE_URL", &env.database_url) {
            Ok(text) => text,
            Err(e) => return Err(e),
        };
        let internal_token = match required("XSCOPE_INTERNAL_TOKEN", &env.internal_token) {
            Ok(text) => text,
            Err(e) => return Err(e),
        };
        let route_pools = match parsed.route_pools {
            Ok(pools) => pools,
            Err(message) => {
                return Err(ConfigError::Invalid { name: "XSCOPE_ROUTE_POOLS_JSON", message })
            },
        };
        if let Err(message) = parsed.public_address {
            return Err(ConfigError::Invalid { name: "XSCOPE_CONTROL_ADDRESS", message });
        }
        if let Err(message) = parsed.internal_address {
            return Err(ConfigError::Invalid { name: "XSCOPE_CONTROL_INTERNAL_ADDRESS", message });
        }
        let database_pool = match DatabasePool::from_values(
            &env.db_max_connections,
            &env.db_min_connections,
            &env.db_acquire_timeout_ms,
        ) {
            Ok(pool) => pool,
            Err(e) => return Err(e),
        };
        let alert_webhook_token = match &env.alert_webhook_token {
            Some(token) => if byte_len(token.as_str()) >= 32 {
                Some(token.clone())
            } else {
                None
            },
            None => None,
        };
        let cluster_agent_url = env_or(&env.cluster_agent_url, "http://cluster-agent:8083");
        let mut component_targets: Vec<(String, String)> = Vec::new();
        component_targets.push(
            (
                "gateway".to_owned(),
                env_or(&env.gateway_health_url, "http://gateway:80/healthz"),
            ),
        );
        component_targets.push(
            (
                "runtime".to_owned(),
                env_or(&env.runtime_health_url, "http://runtime:8090/healthz"),
            ),
        );
        component_targets.push(
            (
                "operator".to_owned(),
                env_or(&env.operator_health_url, "http://operator:8082/healthz"),
            ),
        );
        component_targets.push(
            (
                "cluster-agent".to_owned(),
                join(trim_slashes(cluster_agent_url.as_str()), "/healthz"),
            ),
        );
        Ok(
            Config {
                database_url,
                database_pool,
                internal_token,
                alert_webhook_token,
                console_auth: same(
                    env_or(&env.console_auth, "disabled").as_str(),
                    "trusted-headers",
                ),
                cluster_agent_url,
                default_tenant_id: env_or(&env.default_tenant_id, "tenant-local"),
                auto_join_default_tenant: same(
                    env_or(&env.auto_join_default_tenant, "false").as_str(),
                    "true",
                ),
                bootstrap_admin_users: list(
                    env_or(&env.bootstrap_admin_users, "platform-admin").as_str(),
                ),
                platform_admin_subjects: list(env_or(&env.platform_admin_subjects, "").as_str()),
                billing_reviewer_subjects: list(
                    env_or(&env.billing_reviewer_subjects, "").as_str(),
                ),
                component_targets,
                route_pools,
            },
        )
    }
}

/// A number that is configured is taken as it is if it is in range, and is an error otherwise;
/// one that is not is the default.
pub proof fn law_numbers_are_taken_or_refused(
    value: Option<Seq<char>>,
    fallback: int,
    min: int,
    max: int,
)
    requires
        min <= fallback <= max,
    ensures
        value is None ==> number_of(value, fallback, min, max) == Some(fallback),
        number_of(value, fallback, min, max) matches Some(n) ==> min <= n <= max && (value is Some
            ==> unsigned_value(value->0) is Some && unsigned_value(value->0)->0 == n),
        value is Some && unsigned_value(value->0) is None ==> number_of(value, fallback, min, max)
            is None,
{
}

/// A pool of connections has one at least and 128 at most, keeps no more than it may have, and
/// waits between a tenth of a second and half a minute.
pub proof fn law_connection_pools_are_bounded(
    max: Option<Seq<char>>,
    min: Option<Seq<char>>,
    wait: Option<Seq<char>>,
)
    ensures
        pool_of(max, min, wait) matches Ok(pool) ==> 0 < pool.max < 129 && pool.min <= pool.max
            && 99 < pool.acquire_ms < 30_001,
        pool_of(None, None, None) is Ok,
        pool_of(None, None, None)->Ok_0.max == 4 && pool_of(None, None, None)->Ok_0.min == 0
            && pool_of(None, None, None)->Ok_0.acquire_ms == 2_000,
{
}

/// Nothing runs without a database and a token of its own; authentication is trusted to a
/// proxy, and users join the default tenant, only where that is asked for; and a webhook token
/// of less than 32 bytes is none.
pub proof fn law_configurations_are_closed_by_default(e: Environment, p: Parsed, c: Config)
    requires
        configured(e, p, c),
    ensures
        e.console_auth is None ==> !c.console_auth,
        c.console_auth <==> e.console_auth is Some && e.console_auth->0@ == "trusted-headers"@,
        c.auto_join_default_tenant <==> e.auto_join_default_tenant is Some
            && e.auto_join_default_tenant->0@ == "true"@,
        c.alert_webhook_token is Some ==> e.alert_webhook_token == c.alert_webhook_token
            && bytes_of(c.alert_webhook_token->0@).len() > 31,
        e.alert_webhook_token is Some && bytes_of(e.alert_webhook_token->0@).len() > 31
            ==> c.alert_webhook_token == e.alert_webhook_token,
        !given(e.database_url) || !given(e.internal_token) ==> config_fault(e, p) is Some,
{
    reveal_strlit("disabled");
    reveal_strlit("trusted-headers");
    reveal_strlit("false");
    reveal_strlit("true");
    assert("disabled"@.len() != "trusted-headers"@.len());
    assert("false"@.len() != "true"@.len());
}

/// A list of names is what stands between its commas, without the space around it; nothing in
/// it is empty.
pub proof fn law_lists_have_no_empty_names(raw: Seq<char>, i: int)
    requires
        0 <= i < items(raw).len(),
    ensures
        items(raw)[i].len() > 0,
    decreases raw.len(),
{
    let head = if raw.contains(',') {
        raw.take(raw.index_of_first(',')->0)
    } else {
        raw
    };
    let first = if trimmed(head).len() > 0 {
        seq![trimmed(head)]
    } else {
        seq![]
    };
    if raw.contains(',') {
        raw.index_of_first_ensures(',');
        let rest = raw.skip(raw.index_of_first(',')->0 + 1);
        if i >= first.len() {
            law_lists_have_no_empty_names(rest, i - first.len());
        }
    }
}

} // verus!
