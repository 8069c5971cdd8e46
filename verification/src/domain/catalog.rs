//! Versioned public model definitions. Transport addresses are internal-only.
use crate::domain::{fits_i64, Model};
use crate::text::{
    bytes_of, byte_len, blank, is_blank, is_made_of, last_position, lemma_last_position, made_of, parse_u64, rsplit_once,
    same, unsigned_value,
};
use vstd::prelude::*;

verus! {

#[derive(Clone, Debug, PartialEq, Eq)]
pub struct CatalogModel {
    pub revision: i64,
    pub enabled: bool,
    pub default_pool: Option<String>,
    pub model: Model,
}

#[derive(Clone, Debug)]
pub struct PutModel {
    pub expected_revision: i64,
    pub enabled: bool,
    pub default_pool: Option<String>,
    pub model: Model,
}

#[derive(Clone, Debug, PartialEq, Eq)]
pub struct ServingEndpoint {
    pub id: String,
    pub model: String,
    pub revision: String,
    /// Entry service, never the address of a model replica.
    pub address: String,
    pub tls: bool,
    pub server_name: String,
}

#[derive(Clone, Debug)]
pub struct CatalogSnapshot {
    pub models: Vec<CatalogModel>,
    pub endpoints: Vec<ServingEndpoint>,
}

impl Default for CatalogSnapshot {
    fn default() -> (r: Self)
        ensures
            r.models@.len() == 0,
            r.endpoints@.len() == 0,
    {
        CatalogSnapshot { models: Vec::new(), endpoints: Vec::new() }
    }
}

/// A nonempty text of at most 128 bytes, made of letters, digits, dots,
/// underscores and hyphens.
pub open spec fn identifier_text(s: Seq<char>) -> bool {
    &&& s.len() > 0
    &&& bytes_of(s).len() <= 128
    &&& made_of(s, seq![0x2eu8, 0x5fu8, 0x2du8])
}

pub fn identifier(value: &str) -> (r: bool)
    ensures
        r == identifier_text(value@),
{
    let extra: [u8; 3] = [0x2e, 0x5f, 0x2d];
    assert(extra@ =~= seq![0x2eu8, 0x5fu8, 0x2du8]);
    !value.is_empty() && byte_len(value) <= 128 && is_made_of(value, &extra)
}

/// A price that stays in range over a whole context window.
pub open spec fn sound_price(price: crate::domain::Money, context: int) -> bool {
    &&& price.currency@ == "CNY"@
    &&& price.amount >= 0
    &&& fits_i64(price.amount * context)
}

/// Why a model definition is refused.
pub open spec fn model_fault(m: Model) -> Option<Seq<char>> {
    if !identifier_text(m.id@) || !identifier_text(m.price_version@) || blank(m.display_name@)
        || bytes_of(m.display_name@).len() > 256 || !(1 <= m.max_context_tokens <= 16_777_216) {
        Some("invalid model identity, display name or context limit"@)
    } else if !sound_price(m.input_per_million_tokens, m.max_context_tokens as int) || !sound_price(
        m.output_per_million_tokens,
        m.max_context_tokens as int,
    ) {
        Some("model prices require nonnegative CNY amounts within integer bounds"@)
    } else {
        None
    }
}

fn price_is_sound(price: &crate::domain::Money, context: i64) -> (r: bool)
    ensures
        r == sound_price(*price, context as int),
{
    same(price.currency.as_str(), "CNY") && price.amount >= 0 && price.amount.checked_mul(
        context,
    ).is_some()
}

impl Model {
    /// Validates a model definition before it is published.
    pub fn validate(&self) -> (r: Result<(), String>)
        ensures
            match r {
                Ok(()) => model_fault(*self) is None,
                Err(e) => model_fault(*self) == Some(e@),
            },
    {
        if !identifier(self.id.as_str()) || !identifier(self.price_version.as_str()) || is_blank(
            self.display_name.as_str(),
        ) || byte_len(self.display_name.as_str()) > 256 || self.max_context_tokens < 1
            || self.max_context_tokens > 16_777_216 {
            return Err("invalid model identity, display name or context limit".to_owned());
        }
        if !price_is_sound(&self.input_per_million_tokens, self.max_context_tokens)
            || !price_is_sound(&self.output_per_million_tokens, self.max_context_tokens) {
            return Err(
                "model prices require nonnegative CNY amounts within integer bounds".to_owned(),
            );
        }
        Ok(())
    }
}

/// A host of letters, digits, dots, hyphens, brackets and colons.
pub open spec fn host_text(s: Seq<char>) -> bool {
    &&& s.len() > 0
    &&& bytes_of(s).len() <= 253
    &&& made_of(s, seq![0x2eu8, 0x2du8, 0x5bu8, 0x5du8, 0x3au8])
}

/// A port number that is not zero.
pub open spec fn port_text(s: Seq<char>) -> bool {
    unsigned_value(s) matches Some(n) && 0 < n <= 65535
}

/// A server name of letters, digits, dots and hyphens; TLS needs one.
pub open spec fn server_name_text(s: Seq<char>, tls: bool) -> bool {
    &&& bytes_of(s).len() <= 253
    &&& made_of(s, seq![0x2eu8, 0x2du8])
    &&& tls ==> s.len() > 0
}

/// What stands before the last colon of an address.
pub open spec fn address_host(address: Seq<char>) -> Seq<char> {
    address.take(last_position(address, ':'))
}

/// What stands after the last colon of an address.
pub open spec fn address_port(address: Seq<char>) -> Seq<char> {
    address.skip(last_position(address, ':') + 1)
}

/// Why a serving entry is refused.
pub open spec fn entry_fault(
    id: Seq<char>,
    model: Seq<char>,
    revision: Seq<char>,
    address: Seq<char>,
    tls: bool,
    server_name: Seq<char>,
) -> Option<Seq<char>> {
    if !identifier_text(id) || !identifier_text(model) || !identifier_text(revision) {
        Some("invalid serving endpoint identity"@)
    } else if !address.contains(':') {
        Some("entry address requires host:port"@)
    } else if !host_text(address_host(address)) || !port_text(address_port(address))
        || !server_name_text(server_name, tls) {
        Some("invalid serving Service address or TLS name"@)
    } else {
        None
    }
}

/// Why a serving endpoint is refused.
pub open spec fn endpoint_fault(e: ServingEndpoint) -> Option<Seq<char>> {
    entry_fault(e.id@, e.model@, e.revision@, e.address@, e.tls, e.server_name@)
}

impl ServingEndpoint {
    /// Validates the identity and transport of a serving entry.
    pub fn validate(&self) -> (r: Result<(), String>)
        ensures
            match r {
                Ok(()) => endpoint_fault(*self) is None,
                Err(e) => endpoint_fault(*self) == Some(e@),
            },
    {
        if !identifier(self.id.as_str()) || !identifier(self.model.as_str()) || !identifier(
            self.revision.as_str(),
        ) {
            return Err("invalid serving endpoint identity".to_owned());
        }
        let (host, port) = match rsplit_once(self.address.as_str(), ':') {
            Some(parts) => parts,
            None => return Err("entry address requires host:port".to_owned()),
        };
        proof {
            lemma_last_position(self.address@, host@, port@, ':');
        }
        let host_extra: [u8; 5] = [0x2e, 0x2d, 0x5b, 0x5d, 0x3a];
        assert(host_extra@ =~= seq![0x2eu8, 0x2du8, 0x5bu8, 0x5du8, 0x3au8]);
        let name_extra: [u8; 2] = [0x2e, 0x2d];
        assert(name_extra@ =~= seq![0x2eu8, 0x2du8]);
        let port_valid = match parse_u64(port) {
            Some(n) => n > 0 && n <= 65535,
            None => false,
        };
        if host.is_empty() || byte_len(host) > 253 || !is_made_of(host, &host_extra) || !port_valid
            || byte_len(self.server_name.as_str()) > 253 || !is_made_of(
            self.server_name.as_str(),
            &name_extra,
        ) || (self.tls && self.server_name.as_str().is_empty()) {
            return Err("invalid serving Service address or TLS name".to_owned());
        }
        Ok(())
    }

    pub(crate) fn copy(&self) -> (r: Self)
        ensures
            r == *self,
    {
        ServingEndpoint {
            id: self.id.clone(),
            model: self.model.clone(),
            revision: self.revision.clone(),
            address: self.address.clone(),
            tls: self.tls,
            server_name: self.server_name.clone(),
        }
    }
}

/// The model is in one of the first `n` entries.
pub open spec fn model_before(models: Seq<CatalogModel>, n: int, id: Seq<char>) -> bool {
    exists|j: int| 0 <= j < n && #[trigger] models[j].model.id@ == id
}

pub open spec fn endpoint_before(endpoints: Seq<ServingEndpoint>, n: int, id: Seq<char>) -> bool {
    exists|j: int| 0 <= j < n && #[trigger] endpoints[j].id@ == id
}

/// Why the entry at `i` is refused, given the entries before it.
pub open spec fn catalog_entry_fault(models: Seq<CatalogModel>, i: int) -> Option<Seq<char>> {
    let entry = models[i];
    if model_fault(entry.model) is Some {
        model_fault(entry.model)
    } else if entry.revision <= 0 || model_before(models, i, entry.model.id@) || (entry.default_pool
        matches Some(pool) && !identifier_text(pool@)) {
        Some("invalid or duplicate catalog model"@)
    } else {
        None
    }
}

pub open spec fn catalog_endpoint_fault(c: CatalogSnapshot, i: int) -> Option<Seq<char>> {
    let endpoint = c.endpoints@[i];
    if endpoint_fault(endpoint) is Some {
        endpoint_fault(endpoint)
    } else if !model_before(c.models@, c.models@.len() as int, endpoint.model@) || endpoint_before(
        c.endpoints@,
        i,
        endpoint.id@,
    ) {
        Some("duplicate endpoint or unregistered model"@)
    } else {
        None
    }
}

pub open spec fn models_sound(models: Seq<CatalogModel>, n: int) -> bool {
    forall|i: int| 0 <= i < n ==> #[trigger] catalog_entry_fault(models, i) is None
}

pub open spec fn endpoints_sound(c: CatalogSnapshot, n: int) -> bool {
    forall|i: int| 0 <= i < n ==> #[trigger] catalog_endpoint_fault(c, i) is None
}

/// The first thing wrong with a catalog is `message`.
pub open spec fn catalog_fault(c: CatalogSnapshot, message: Seq<char>) -> bool {
    ||| exists|i: int|
        0 <= i < c.models@.len() && models_sound(c.models@, i) && #[trigger] catalog_entry_fault(
            c.models@,
            i,
        ) == Some(message)
    ||| models_sound(c.models@, c.models@.len() as int) && exists|i: int|
        0 <= i < c.endpoints@.len() && endpoints_sound(c, i) && #[trigger] catalog_endpoint_fault(
            c,
            i,
        ) == Some(message)
}

pub open spec fn catalog_sound(c: CatalogSnapshot) -> bool {
    models_sound(c.models@, c.models@.len() as int) && endpoints_sound(
        c,
        c.endpoints@.len() as int,
    )
}

fn has_model_before(models: &Vec<CatalogModel>, n: usize, id: &str) -> (r: bool)
    requires
        n <= models.len(),
    ensures
        r == model_before(models@, n as int, id@),
{
    let mut i: usize = 0;
    while i < n
        invariant
            i <= n <= models.len(),
            forall|j: int| 0 <= j < i ==> #[trigger] models@[j].model.id@ != id@,
        decreases n - i,
    {
        if same(models[i].model.id.as_str(), id) {
            return true;
        }
        i += 1;
    }
    false
}

fn has_endpoint_before(endpoints: &Vec<ServingEndpoint>, n: usize, id: &str) -> (r: bool)
    requires
        n <= endpoints.len(),
    ensures
        r == endpoint_before(endpoints@, n as int, id@),
{
    let mut i: usize = 0;
    while i < n
        invariant
            i <= n <= endpoints.len(),
            forall|j: int| 0 <= j < i ==> #[trigger] endpoints@[j].id@ != id@,
        decreases n - i,
    {
        if same(endpoints[i].id.as_str(), id) {
            return true;
        }
        i += 1;
    }
    false
}

impl CatalogSnapshot {
    /// Every model and endpoint is valid and named once, and every endpoint
    /// serves a model of the catalog.
    pub fn validate(&self) -> (r: Result<(), String>)
        ensures
            r is Ok <==> catalog_sound(*self),
            r matches Err(e) ==> catalog_fault(*self, e@),
    {
        let mut i: usize = 0;
        while i < self.models.len()
            invariant
                i <= self.models.len(),
                models_sound(self.models@, i as int),
            decreases self.models.len() - i,
        {
            let entry = &self.models[i];
            if let Err(e) = entry.model.validate() {
                assert(catalog_entry_fault(self.models@, i as int) == Some(e@));
                return Err(e);
            }
            let pool_invalid = match &entry.default_pool {
                Some(pool) => !identifier(pool.as_str()),
                None => false,
            };
            if entry.revision <= 0 || has_model_before(&self.models, i, entry.model.id.as_str())
                || pool_invalid {
                assert(catalog_entry_fault(self.models@, i as int) == Some(
                    "invalid or duplicate catalog model"@,
                ));
                return Err("invalid or duplicate catalog model".to_owned());
            }
            assert(catalog_entry_fault(self.models@, i as int) is None);
            i += 1;
        }
        let mut k: usize = 0;
        while k < self.endpoints.len()
            invariant
                k <= self.endpoints.len(),
                models_sound(self.models@, self.models@.len() as int),
                endpoints_sound(*self, k as int),
            decreases self.endpoints.len() - k,
        {
            let endpoint = &self.endpoints[k];
            if let Err(e) = endpoint.validate() {
                assert(catalog_endpoint_fault(*self, k as int) == Some(e@));
                return Err(e);
            }
            if !has_model_before(&self.models, self.models.len(), endpoint.model.as_str())
                || has_endpoint_before(&self.endpoints, k, endpoint.id.as_str()) {
                assert(catalog_endpoint_fault(*self, k as int) == Some(
                    "duplicate endpoint or unregistered model"@,
                ));
                return Err("duplicate endpoint or unregistered model".to_owned());
            }
            assert(catalog_endpoint_fault(*self, k as int) is None);
            k += 1;
        }
        Ok(())
    }
}

/// The cost of a full window of a sound model can be counted, and is not negative.
pub proof fn law_full_windows_can_be_priced(m: Model, input: int, output: int)
    requires
        model_fault(m) is None,
        0 <= input,
        0 <= output,
        input <= m.max_context_tokens,
        output <= m.max_context_tokens,
    ensures
        0 <= input * m.input_per_million_tokens.amount <= i64::MAX,
        0 <= output * m.output_per_million_tokens.amount <= i64::MAX,
        m.input_per_million_tokens.currency@ == "CNY"@,
        m.output_per_million_tokens.currency@ == "CNY"@,
        0 < m.max_context_tokens < 16_777_217,
{
    let a = m.input_per_million_tokens.amount as int;
    let b = m.output_per_million_tokens.amount as int;
    let c = m.max_context_tokens as int;
    assert(0 <= input * a <= a * c) by (nonlinear_arith)
        requires
            0 <= input <= c,
            0 <= a,
    ;
    assert(0 <= output * b <= b * c) by (nonlinear_arith)
        requires
            0 <= output <= c,
            0 <= b,
    ;
}

/// In a sound catalog every name is given once, every revision is positive, and every entry
/// serves a model of the catalog.
pub proof fn law_catalogs_name_everything_once(c: CatalogSnapshot, i: int, j: int)
    requires
        catalog_sound(c),
    ensures
        0 <= i < j < c.models@.len() ==> c.models@[i].model.id@ != c.models@[j].model.id@,
        0 <= i < j < c.endpoints@.len() ==> c.endpoints@[i].id@ != c.endpoints@[j].id@,
        0 <= i < c.models@.len() ==> c.models@[i].revision > 0 && model_fault(c.models@[i].model)
            is None,
        0 <= i < c.endpoints@.len() ==> exists|k: int|
            0 <= k < c.models@.len() && (#[trigger] c.models@[k]).model.id@
                == c.endpoints@[i].model@,
{
    if 0 <= i < j < c.models@.len() {
        assert(catalog_entry_fault(c.models@, j) is None);
    }
    if 0 <= i < j < c.endpoints@.len() {
        assert(catalog_endpoint_fault(c, j) is None);
    }
    if 0 <= i < c.models@.len() {
        assert(catalog_entry_fault(c.models@, i) is None);
    }
    if 0 <= i < c.endpoints@.len() {
        assert(catalog_endpoint_fault(c, i) is None);
        let k = choose|k: int|
            0 <= k < c.models@.len() && #[trigger] c.models@[k].model.id@ == c.endpoints@[i].model@;
        assert(c.models@[k].model.id@ == c.endpoints@[i].model@);
    }
}

/// An entry is an address of a host and a port behind the last colon, and one that is reached
/// over TLS has a server name.
pub proof fn law_entries_are_host_and_port(e: ServingEndpoint, host: Seq<char>, port: Seq<char>)
    requires
        endpoint_fault(e) is None,
        e.address@ == host + seq![':'] + port,
        !port.contains(':'),
    ensures
        host_text(host),
        unsigned_value(port) matches Some(n) && 1 <= n < 65_536,
        e.tls ==> e.server_name@.len() > 0,
        bytes_of(host).len() < 254,
        bytes_of(e.server_name@).len() < 254,
{
    assert(e.address@ =~= host.push(':') + port);
    lemma_last_position(e.address@, host, port, ':');
}

/// A model is sound exactly if it is named, its window has one token at least and 16 Mi at most,
/// and its prices are amounts whose cost of a full window can be counted.
pub proof fn law_models_are_bounded(m: Model)
    ensures
        model_fault(m) is None <==> {
            &&& identifier_text(m.id@) && identifier_text(m.price_version@)
            &&& !blank(m.display_name@) && bytes_of(m.display_name@).len() < 257
            &&& 0 < m.max_context_tokens < 16_777_217
            &&& m.input_per_million_tokens.currency@ == "CNY"@
                && m.output_per_million_tokens.currency@ == "CNY"@
            &&& m.input_per_million_tokens.amount >= 0 && m.output_per_million_tokens.amount >= 0
            &&& m.input_per_million_tokens.amount * m.max_context_tokens <= i64::MAX
                && m.output_per_million_tokens.amount * m.max_context_tokens <= i64::MAX
        },
{
    let a = m.input_per_million_tokens.amount as int;
    let b = m.output_per_million_tokens.amount as int;
    let c = m.max_context_tokens as int;
    if a >= 0 && b >= 0 && c > 0 {
        assert(a * c >= 0 && b * c >= 0) by (nonlinear_arith)
            requires
                a >= 0,
                b >= 0,
                c > 0,
        ;
    }
}

} // verus!
