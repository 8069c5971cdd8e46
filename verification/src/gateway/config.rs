//! The configuration of the gateway, as it stands in the environment.
use crate::domain::traffic::{managed, managed_name};
use crate::headers::{header_text, is_header_text};
use crate::text::{
    blank, byte_len, bytes_of, is_blank, join, parse_i64, parse_u64, same, signed_value,
    unsigned_value,
};
use crate::json::{
    as_array, as_bool, as_str, elements, into_object, is_without_members, json_of, members_of,
    part, part_of, remove, says, Json,
};
use vstd::prelude::*;

verus! {

#[derive(Clone)]
pub struct ApiKeyConfig {
    pub id: String,
    pub tenant_id: String,
    pub project_id: String,
    pub secret: String,
}

#[derive(Clone, Debug)]
pub struct ServingConfig {
    pub id: String,
    pub model: String,
    pub address: String,
    pub revision: String,
    pub tls: bool,
    pub server_name: String,
}

#[derive(Clone)]
pub struct Settings {
    pub listen: String,
    pub region: String,
    pub model_revision: String,
    pub price_version: String,
    pub api_keys: Vec<ApiKeyConfig>,
    pub serving: ServingConfig,
    pub additional_serving: Vec<ServingConfig>,
    pub control_internal_url: String,
    pub internal_token: String,
    pub policy_refresh_seconds: u64,
    pub redis_url: String,
    pub billing_reservations: bool,
    pub model_context_tokens: i64,
}

#[derive(Clone, Debug)]
pub enum SettingsError {
    InvalidUsageMode,
    MissingUsageReporter,
    InvalidBilling,
    Json { name: &'static str, source: String },
    LegacyUpstreams,
    InvalidServingEntry,
    InvalidServingPools,
}

/// A configuration error with its texts spelled out.
pub ghost enum SettingsFault {
    InvalidUsageMode,
    MissingUsageReporter,
    InvalidBilling,
    Json(Seq<char>, Seq<char>),
    LegacyUpstreams,
    InvalidServingEntry,
    InvalidServingPools,
}

impl View for SettingsError {
    type V = SettingsFault;

    open spec fn view(&self) -> SettingsFault {
        match self {
            SettingsError::InvalidUsageMode => SettingsFault::InvalidUsageMode,
            SettingsError::MissingUsageReporter => SettingsFault::MissingUsageReporter,
            SettingsError::InvalidBilling => SettingsFault::InvalidBilling,
            SettingsError::Json { name, source } => SettingsFault::Json(name@, source@),
            SettingsError::LegacyUpstreams => SettingsFault::LegacyUpstreams,
            SettingsError::InvalidServingEntry => SettingsFault::InvalidServingEntry,
            SettingsError::InvalidServingPools => SettingsFault::InvalidServingPools,
        }
    }
}

impl SettingsError {
    /// The error as it is shown.
    pub fn message(&self) -> (r: String)
        ensures
            r@ == match self@ {
                SettingsFault::InvalidUsageMode => "WAL mode was removed; XSCOPE_USAGE_MODE may only be memory"@,
                SettingsFault::MissingUsageReporter => "HTTP usage reporting requires XSCOPE_CONTROL_INTERNAL_URL and XSCOPE_INTERNAL_TOKEN"@,
                SettingsFault::InvalidBilling => "billing reservations require an internal URL/token and a positive model context; XSCOPE_BILLING_RESERVATIONS must be true or false"@,
                SettingsFault::Json(name, source) => name + " contains invalid JSON: "@ + source,
                SettingsFault::LegacyUpstreams => "XSCOPE_UPSTREAMS_JSON is obsolete; configure one serving entry with XSCOPE_SERVING_ENTRY_JSON"@,
                SettingsFault::InvalidServingEntry => "serving entry id, model and address must be nonempty"@,
                SettingsFault::InvalidServingPools => "serving pool IDs must be unique and revisions must be nonempty"@,
            },
    {
        match self {
            SettingsError::InvalidUsageMode => "WAL mode was removed; XSCOPE_USAGE_MODE may only be memory".to_owned(),
            SettingsError::MissingUsageReporter => "HTTP usage reporting requires XSCOPE_CONTROL_INTERNAL_URL and XSCOPE_INTERNAL_TOKEN".to_owned(),
            SettingsError::InvalidBilling => "billing reservations require an internal URL/token and a positive model context; XSCOPE_BILLING_RESERVATIONS must be true or false".to_owned(),
            SettingsError::Json { name, source } => join(
                join(name, " contains invalid JSON: ").as_str(),
                source.as_str(),
            ),
            SettingsError::LegacyUpstreams => "XSCOPE_UPSTREAMS_JSON is obsolete; configure one serving entry with XSCOPE_SERVING_ENTRY_JSON".to_owned(),
            SettingsError::InvalidServingEntry => "serving entry id, model and address must be nonempty".to_owned(),
            SettingsError::InvalidServingPools => "serving pool IDs must be unique and revisions must be nonempty".to_owned(),
        }
    }
}

/// A text of at most 128 bytes that can stand in a header.
pub open spec fn label_text(s: Seq<char>) -> bool {
    bytes_of(s).len() <= 128 && header_text(s)
}

/// An entry that can serve: it is not managed, it says what it is, and its name
/// and revision can stand in a header.
pub open spec fn serving_sound(entry: ServingConfig) -> bool {
    &&& !managed_name(entry.id@)
    &&& !blank(entry.id@)
    &&& !blank(entry.model@)
    &&& !blank(entry.address@)
    &&& label_text(entry.id@)
    &&& label_text(entry.revision@)
}

fn is_label(s: &str) -> (r: bool)
    ensures
        r == label_text(s@),
{
    byte_len(s) <= 128 && is_header_text(s)
}

/// The members that a serving entry may have.
pub open spec fn entry_member(name: Seq<char>) -> bool {
    ||| name == "id"@
    ||| name == "model"@
    ||| name == "address"@
    ||| name == "revision"@
    ||| name == "tls"@
    ||| name == "server_name"@
}

/// The text of a field that may be missing, and is empty where it is.
pub open spec fn defaulted_text(json: Json, position: int, name: Seq<char>) -> Option<Seq<char>> {
    match part_of(json, position, name) {
        None => Some(Seq::empty()),
        Some(Json::Text(text)) => Some(text),
        Some(_) => None,
    }
}

/// A switch that may be missing, and is off where it is.
pub open spec fn defaulted_switch(json: Json, position: int, name: Seq<char>) -> Option<bool> {
    match part_of(json, position, name) {
        None => Some(false),
        Some(Json::Bool(b)) => Some(b),
        Some(_) => None,
    }
}

pub open spec fn only_entry_members(members: Map<Seq<char>, Json>) -> bool {
    forall|name: Seq<char>| #[trigger] members.dom().contains(name) ==> entry_member(name)
}

/// An object with the members of a serving entry and no others, or an array of the
/// fields in their order.
pub open spec fn entry_readable(json: Json) -> bool {
    &&& match json {
        Json::Object(members) => only_entry_members(members),
        Json::Array(values) => values.len() <= 6,
        _ => false,
    }
    &&& part_of(json, 0, "id"@) matches Some(Json::Text(_))
    &&& part_of(json, 1, "model"@) matches Some(Json::Text(_))
    &&& part_of(json, 2, "address"@) matches Some(Json::Text(_))
    &&& defaulted_text(json, 3, "revision"@) is Some
    &&& defaulted_switch(json, 4, "tls"@) is Some
    &&& defaulted_text(json, 5, "server_name"@) is Some
}

fn read_text(value: &serde_json::Value, position: usize, name: &str) -> (r: Option<String>)
    ensures
        match r {
            Some(text) => part_of(json_of(*value), position as int, name@) == Some(
                Json::Text(text@),
            ),
            None => !(part_of(json_of(*value), position as int, name@) matches Some(Json::Text(_))),
        },
{
    match part(value, position, name) {
        Some(found) => match as_str(found) {
            Some(text) => Some(text.to_owned()),
            None => None,
        },
        None => None,
    }
}

fn read_defaulted(value: &serde_json::Value, position: usize, name: &str) -> (r: Option<String>)
    ensures
        match r {
            Some(text) => defaulted_text(json_of(*value), position as int, name@) == Some(text@),
            None => defaulted_text(json_of(*value), position as int, name@) is None,
        },
{
    match part(value, position, name) {
        Some(_) => read_text(value, position, name),
        None => {
            let none = String::new();
            assert(none@ =~= Seq::<char>::empty());
            Some(none)
        },
    }
}

fn has_only_entry_members(value: &serde_json::Value) -> (r: bool)
    ensures
        r == (json_of(*value) is Object && only_entry_members(json_of(*value)->Object_0)),
{
    let mut members = match into_object(value.clone()) {
        Some(members) => members,
        None => return false,
    };
    let ghost all = members_of(members);
    let _ = remove(&mut members, "id");
    let _ = remove(&mut members, "model");
    let _ = remove(&mut members, "address");
    let _ = remove(&mut members, "revision");
    let _ = remove(&mut members, "tls");
    let _ = remove(&mut members, "server_name");
    proof {
        let left = members_of(members);
        if only_entry_members(all) {
            assert(left.dom() =~= Set::<Seq<char>>::empty());
        } else {
            let name = choose|name: Seq<char>| #[trigger]
                all.dom().contains(name) && !entry_member(name);
            assert(left.dom().contains(name));
        }
    }
    is_without_members(&members)
}

impl ServingConfig {
    /// Reads a serving entry. One with an unknown member is none: a weight, for
    /// one, is a policy and does not belong in it.
    pub fn from_json(value: &serde_json::Value) -> (r: Option<ServingConfig>)
        ensures
            match r {
                None => !entry_readable(json_of(*value)),
                Some(c) => {
                    let json = json_of(*value);
                    &&& entry_readable(json)
                    &&& says(part_of(json, 0, "id"@), c.id@)
                    &&& says(part_of(json, 1, "model"@), c.model@)
                    &&& says(part_of(json, 2, "address"@), c.address@)
                    &&& defaulted_text(json, 3, "revision"@) == Some(c.revision@)
                    &&& defaulted_switch(json, 4, "tls"@) == Some(c.tls)
                    &&& defaulted_text(json, 5, "server_name"@) == Some(c.server_name@)
                },
            },
    {
        match as_array(value) {
            Some(values) => {
                assert(elements(values@).len() == values@.len());
                if values.len() > 6 {
                    return None;
                }
            },
            None => if !has_only_entry_members(value) {
                return None;
            },
        }
        let tls = match part(value, 4, "tls") {
            Some(found) => match as_bool(found) {
                Some(b) => b,
                None => return None,
            },
            None => false,
        };
        match (
            read_text(value, 0, "id"),
            read_text(value, 1, "model"),
            read_text(value, 2, "address"),
            read_defaulted(value, 3, "revision"),
            read_defaulted(value, 5, "server_name"),
        ) {
            (Some(id), Some(model), Some(address), Some(revision), Some(server_name)) => Some(
                ServingConfig { id, model, address, revision, tls, server_name },
            ),
            _ => None,
        }
    }

    pub fn validate(&self) -> (r: Result<(), SettingsError>)
        ensures
            match r {
                Ok(()) => serving_sound(*self),
                Err(e) => !serving_sound(*self) && e@ == SettingsFault::InvalidServingEntry,
            },
    {
        if managed(self.id.as_str()) || is_blank(self.id.as_str()) || is_blank(self.model.as_str())
            || is_blank(self.address.as_str()) || !is_label(self.id.as_str()) || !is_label(
            self.revision.as_str(),
        ) {
            return Err(SettingsError::InvalidServingEntry);
        }
        Ok(())
    }
}

/// What the environment holds. The JSON documents in it are read beforehand; a
/// document that is not what it should be is the text of what is wrong with it.
pub struct Environment {
    pub api_keys: Result<Vec<ApiKeyConfig>, String>,
    pub upstreams_set: bool,
    pub serving: Result<ServingConfig, String>,
    pub additional_serving: Result<Vec<ServingConfig>, String>,
    pub model_revision: Option<String>,
    pub control_internal_url: Option<String>,
    pub internal_token: Option<String>,
    pub usage_mode: Option<String>,
    pub billing_reservations: Option<String>,
    pub model_context_tokens: Option<String>,
    pub listen: Option<String>,
    pub region: Option<String>,
    pub price_version: Option<String>,
    pub policy_refresh_seconds: Option<String>,
    pub redis_url: Option<String>,
}

impl Environment {
    /// Reads the environment: `get` finds what it holds under a name. The documents
    /// in it are handed over as they were read.
    pub fn read(
        get: impl Fn(&str) -> Option<String>,
        api_keys: Result<Vec<ApiKeyConfig>, String>,
        serving: Result<ServingConfig, String>,
        additional_serving: Result<Vec<ServingConfig>, String>,
    ) -> (r: Self)
        requires
            forall|name: &str| call_requires(get, (name,)),
        ensures
            call_ensures(get, ("XSCOPE_MODEL_REVISION",), r.model_revision),
            call_ensures(get, ("XSCOPE_CONTROL_INTERNAL_URL",), r.control_internal_url),
            call_ensures(get, ("XSCOPE_INTERNAL_TOKEN",), r.internal_token),
            call_ensures(get, ("XSCOPE_USAGE_MODE",), r.usage_mode),
            call_ensures(get, ("XSCOPE_BILLING_RESERVATIONS",), r.billing_reservations),
            call_ensures(get, ("XSCOPE_MODEL_CONTEXT_TOKENS",), r.model_context_tokens),
            call_ensures(get, ("XSCOPE_GATEWAY_ADDRESS",), r.listen),
            call_ensures(get, ("XSCOPE_REGION",), r.region),
            call_ensures(get, ("XSCOPE_PRICE_VERSION",), r.price_version),
            call_ensures(get, ("XSCOPE_POLICY_REFRESH_SECONDS",), r.policy_refresh_seconds),
            call_ensures(get, ("XSCOPE_REDIS_URL",), r.redis_url),
            r.api_keys == api_keys,
            r.serving == serving,
            r.additional_serving == additional_serving,
            exists|found: Option<String>| #[trigger]
                call_ensures(get, ("XSCOPE_UPSTREAMS_JSON",), found) && r.upstreams_set == (found is Some),
    {
        Environment {
            model_revision: get("XSCOPE_MODEL_REVISION"),
            control_internal_url: get("XSCOPE_CONTROL_INTERNAL_URL"),
            internal_token: get("XSCOPE_INTERNAL_TOKEN"),
            usage_mode: get("XSCOPE_USAGE_MODE"),
            billing_reservations: get("XSCOPE_BILLING_RESERVATIONS"),
            model_context_tokens: get("XSCOPE_MODEL_CONTEXT_TOKENS"),
            listen: get("XSCOPE_GATEWAY_ADDRESS"),
            region: get("XSCOPE_REGION"),
            price_version: get("XSCOPE_PRICE_VERSION"),
            policy_refresh_seconds: get("XSCOPE_POLICY_REFRESH_SECONDS"),
            redis_url: get("XSCOPE_REDIS_URL"),
            upstreams_set: get("XSCOPE_UPSTREAMS_JSON").is_some(),
            api_keys,
            serving,
            additional_serving,
        }
    }
}

/// A variable of the environment, or what stands for it where it is not set.
pub open spec fn value_or(value: Option<String>, fallback: Seq<char>) -> Seq<char> {
    match value {
        Some(text) => text@,
        None => fallback,
    }
}

fn or(value: Option<String>, fallback: &str) -> (r: String)
    ensures
        r@ == value_or(value, fallback@),
{
    match value {
        Some(text) => text,
        None => fallback.to_owned(),
    }
}

/// The serving entry with the revision that it has where it states none.
pub open spec fn revised(entry: ServingConfig, revision: Seq<char>, r: ServingConfig) -> bool {
    &&& r.id == entry.id
    &&& r.model == entry.model
    &&& r.address == entry.address
    &&& r.tls == entry.tls
    &&& r.server_name == entry.server_name
    &&& r.revision@ == if entry.revision@.len() == 0 {
        revision
    } else {
        entry.revision@
    }
}

/// Another pool is sound, states its revision, and has a name of its own.
pub open spec fn pool_sound(serving: Seq<char>, pools: Seq<ServingConfig>, i: int) -> bool {
    &&& serving_sound(pools[i])
    &&& !blank(pools[i].revision@)
    &&& pools[i].id@ != serving
    &&& forall|j: int| 0 <= j < i ==> #[trigger] pools[j].id@ != pools[i].id@
}

/// What is wrong with the first pool that is not sound.
pub open spec fn pools_fault(
    serving: Seq<char>,
    pools: Seq<ServingConfig>,
    i: int,
) -> Option<SettingsFault>
    decreases pools.len() - i,
{
    if i < 0 || i >= pools.len() {
        None
    } else if !serving_sound(pools[i]) {
        Some(SettingsFault::InvalidServingEntry)
    } else if !pool_sound(serving, pools, i) {
        Some(SettingsFault::InvalidServingPools)
    } else {
        pools_fault(serving, pools, i + 1)
    }
}

fn check_pools(serving: &str, pools: &Vec<ServingConfig>) -> (r: Result<(), SettingsError>)
    ensures
        match r {
            Ok(()) => pools_fault(serving@, pools@, 0) is None,
            Err(e) => pools_fault(serving@, pools@, 0) == Some(e@),
        },
{
    let mut i: usize = 0;
    while i < pools.len()
        invariant
            i <= pools.len(),
            pools_fault(serving@, pools@, 0) == pools_fault(serving@, pools@, i as int),
        decreases pools.len() - i,
    {
        let pool = &pools[i];
        pool.validate()?;
        if is_blank(pool.revision.as_str()) || same(pool.id.as_str(), serving) {
            return Err(SettingsError::InvalidServingPools);
        }
        let mut j: usize = 0;
        while j < i
            invariant
                j <= i < pools@.len(),
                *pool == pools@[i as int],
                serving_sound(*pool),
                pools_fault(serving@, pools@, 0) == pools_fault(serving@, pools@, i as int),
                forall|k: int| 0 <= k < j ==> #[trigger] pools@[k].id@ != pool.id@,
            decreases i - j,
        {
            if same(pools[j].id.as_str(), pool.id.as_str()) {
                return Err(SettingsError::InvalidServingPools);
            }
            j += 1;
        }
        i += 1;
    }
    Ok(())
}

/// What a text reads as a truth value.
pub open spec fn truth_value(s: Seq<char>) -> Option<bool> {
    if s == "true"@ {
        Some(true)
    } else if s == "false"@ {
        Some(false)
    } else {
        None
    }
}

fn parse_truth(s: &str) -> (r: Option<bool>)
    ensures
        r == truth_value(s@),
{
    if same(s, "true") {
        Some(true)
    } else if same(s, "false") {
        Some(false)
    } else {
        None
    }
}

/// A positive number of tokens.
pub open spec fn context_value(s: Seq<char>) -> Option<i64> {
    match signed_value(s) {
        Some(n) if 0 < n <= i64::MAX => Some(n as i64),
        _ => None,
    }
}

pub open spec fn refresh_value(s: Seq<char>) -> u64 {
    match unsigned_value(s) {
        Some(n) if n <= u64::MAX => if n == 0 {
            1
        } else {
            n as u64
        },
        _ => 5,
    }
}

/// What is wrong with the environment, the first of it first.
pub open spec fn settings_fault(env: Environment) -> Option<SettingsFault> {
    if env.api_keys is Err {
        Some(SettingsFault::Json("XSCOPE_API_KEYS_JSON"@, env.api_keys->Err_0@))
    } else if env.upstreams_set {
        Some(SettingsFault::LegacyUpstreams)
    } else if env.serving is Err {
        Some(SettingsFault::Json("XSCOPE_SERVING_ENTRY_JSON"@, env.serving->Err_0@))
    } else if !entry_sound(env.serving->Ok_0, value_or(env.model_revision, "development"@)) {
        Some(SettingsFault::InvalidServingEntry)
    } else if env.additional_serving is Err {
        Some(
            SettingsFault::Json(
                "XSCOPE_ADDITIONAL_SERVING_JSON"@,
                env.additional_serving->Err_0@,
            ),
        )
    } else if pools_fault(env.serving->Ok_0.id@, env.additional_serving->Ok_0@, 0) is Some {
        pools_fault(env.serving->Ok_0.id@, env.additional_serving->Ok_0@, 0)
    } else if value_or(env.usage_mode, "memory"@) != "memory"@ {
        Some(SettingsFault::InvalidUsageMode)
    } else if value_or(env.control_internal_url, ""@).len() == 0 || value_or(
        env.internal_token,
        ""@,
    ).len() == 0 {
        Some(SettingsFault::MissingUsageReporter)
    } else if truth_value(value_or(env.billing_reservations, "false"@)) is None || context_value(
        value_or(env.model_context_tokens, "32768"@),
    ) is None {
        Some(SettingsFault::InvalidBilling)
    } else {
        None
    }
}

/// The serving entry is sound once it has its revision.
pub open spec fn entry_sound(entry: ServingConfig, revision: Seq<char>) -> bool {
    &&& !managed_name(entry.id@)
    &&& !blank(entry.id@)
    &&& !blank(entry.model@)
    &&& !blank(entry.address@)
    &&& label_text(entry.id@)
    &&& label_text(
        if entry.revision@.len() == 0 {
            revision
        } else {
            entry.revision@
        },
    )
}

/// The settings that an environment without a fault makes.
pub open spec fn settings_of(env: Environment, s: Settings) -> bool {
    let revision = value_or(env.model_revision, "development"@);
    &&& s.listen@ == value_or(env.listen, "0.0.0.0:8080"@)
    &&& s.region@ == value_or(env.region, "local"@)
    &&& s.model_revision@ == revision
    &&& s.price_version@ == value_or(env.price_version, "2026-09-01"@)
    &&& s.api_keys == env.api_keys->Ok_0
    &&& revised(env.serving->Ok_0, revision, s.serving)
    &&& s.additional_serving == env.additional_serving->Ok_0
    &&& s.control_internal_url@ == value_or(env.control_internal_url, ""@)
    &&& s.internal_token@ == value_or(env.internal_token, ""@)
    &&& s.policy_refresh_seconds == refresh_value(value_or(env.policy_refresh_seconds, "5"@))
    &&& s.redis_url@ == value_or(env.redis_url, ""@)
    &&& Some(s.billing_reservations) == truth_value(value_or(env.billing_reservations, "false"@))
    &&& Some(s.model_context_tokens) == context_value(
        value_or(env.model_context_tokens, "32768"@),
    )
}

impl Settings {
    /// Makes the settings of the gateway out of its environment.
    pub fn from_env(env: Environment) -> (r: Result<Self, SettingsError>)
        ensures
            match r {
                Ok(s) => settings_fault(env) is None && settings_of(env, s),
                Err(e) => settings_fault(env) == Some(e@),
            },
    {
        let api_keys = match env.api_keys {
            Ok(api_keys) => api_keys,
            Err(source) => return Err(
                SettingsError::Json { name: "XSCOPE_API_KEYS_JSON", source },
            ),
        };
        if env.upstreams_set {
            return Err(SettingsError::LegacyUpstreams);
        }
        let entry = match env.serving {
            Ok(entry) => entry,
            Err(source) => return Err(
                SettingsError::Json { name: "XSCOPE_SERVING_ENTRY_JSON", source },
            ),
        };
        let model_revision = or(env.model_revision, "development");
        let serving = if entry.revision.as_str().is_empty() {
            ServingConfig { revision: model_revision.clone(), ..entry }
        } else {
            entry
        };
        serving.validate()?;
        let additional_serving = match env.additional_serving {
            Ok(pools) => pools,
            Err(source) => return Err(
                SettingsError::Json { name: "XSCOPE_ADDITIONAL_SERVING_JSON", source },
            ),
        };
        check_pools(serving.id.as_str(), &additional_serving)?;
        let control_internal_url = or(env.control_internal_url, "");
        let internal_token = or(env.internal_token, "");
        let usage_mode = or(env.usage_mode, "memory");
        // Stale manifests are refused instead of silently changing what they
        // promise of durability.
        if !same(usage_mode.as_str(), "memory") {
            return Err(SettingsError::InvalidUsageMode);
        }
        if control_internal_url.as_str().is_empty() || internal_token.as_str().is_empty() {
            return Err(SettingsError::MissingUsageReporter);
        }
        let reservations = or(env.billing_reservations, "false");
        let billing_reservations = match parse_truth(reservations.as_str()) {
            Some(b) => b,
            None => return Err(SettingsError::InvalidBilling),
        };
        let context = or(env.model_context_tokens, "32768");
        let model_context_tokens: i64 = match parse_i64(context.as_str()) {
            Some(n) => n,
            None => return Err(SettingsError::InvalidBilling),
        };
        if model_context_tokens <= 0 {
            return Err(SettingsError::InvalidBilling);
        }
        let refresh = or(env.policy_refresh_seconds, "5");
        let policy_refresh_seconds: u64 = match parse_u64(refresh.as_str()) {
            Some(n) => if n == 0 {
                1
            } else {
                n
            },
            None => 5,
        };
        Ok(
            Settings {
                listen: or(env.listen, "0.0.0.0:8080"),
                region: or(env.region, "local"),
                model_revision,
                price_version: or(env.price_version, "2026-09-01"),
                api_keys,
                serving,
                additional_serving,
                control_internal_url,
                internal_token,
                policy_refresh_seconds,
                redis_url: or(env.redis_url, ""),
                billing_reservations,
                model_context_tokens,
            },
        )
    }
}

/// Requests are reported and paid for: nothing runs without a control plane and its token, with
/// another way to keep usage, or with more entries under one name.
pub proof fn law_settings_are_complete(env: Environment, s: Settings, i: int, j: int)
    requires
        settings_fault(env) is None,
        settings_of(env, s),
    ensures
        s.control_internal_url@.len() > 0,
        s.internal_token@.len() > 0,
        s.policy_refresh_seconds > 0,
        s.model_context_tokens > 0,
        env.billing_reservations is Some ==> s.billing_reservations
            == (env.billing_reservations->0@ == "true"@),
        !env.upstreams_set,
        env.usage_mode is Some ==> env.usage_mode->0@ == "memory"@,
        !"managed-"@.is_prefix_of(s.serving.id@),
        0 <= i < s.additional_serving@.len() ==> s.additional_serving@[i].id@ != s.serving.id@
            && !"managed-"@.is_prefix_of(s.additional_serving@[i].id@),
        0 <= i < j < s.additional_serving@.len() ==> s.additional_serving@[i].id@
            != s.additional_serving@[j].id@,
{
    reveal_strlit("true");
    reveal_strlit("false");
    assert("true"@.len() != "false"@.len());
    let pools = env.additional_serving->Ok_0@;
    let serving = env.serving->Ok_0.id@;
    if 0 <= i < pools.len() {
        lemma_sound_pools(serving, pools, 0, i);
    }
    if 0 <= i < j < pools.len() {
        lemma_sound_pools(serving, pools, 0, j);
        assert(pools[i].id@ != pools[j].id@);
    }
}

/// Where no pool is at fault, each of them is sound.
proof fn lemma_sound_pools(serving: Seq<char>, pools: Seq<ServingConfig>, from: int, i: int)
    requires
        pools_fault(serving, pools, from) is None,
        0 <= from <= i < pools.len(),
    ensures
        pool_sound(serving, pools, i),
    decreases i - from,
{
    if from < i {
        lemma_sound_pools(serving, pools, from + 1, i);
    }
}

} // verus!
