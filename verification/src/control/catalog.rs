//! The catalog of models and serving entries. Writes name the revision that
//! they replace; the definition of a price version never changes.
use crate::collections::TextMap;
use crate::control::error::{conflict, invalid, refused, Fault, ServiceError, ServiceResult};
use crate::control::managed_pools::{any_entry_clash, has_entry_clash};
use crate::domain::catalog::{
    endpoint_fault, identifier, identifier_text, model_fault, CatalogModel, CatalogSnapshot,
    PutModel, ServingEndpoint,
};
use crate::domain::routing::RoutePool;
use crate::domain::traffic::{managed, managed_name};
use crate::domain::{demo_model, Model};
use crate::text::same;
use vstd::prelude::*;

verus! {

/// Why a model cannot be used.
pub open spec fn inactive_model(row: Option<CatalogModel>) -> Option<Fault> {
    match row {
        Some(row) if row.enabled => None,
        _ => Some(Fault::Invalid("model is unknown or disabled"@)),
    }
}

/// The entry that a fresh installation starts with. One that is there already
/// is never written over.
pub fn bootstrap_catalog() -> (r: CatalogModel)
    ensures
        r.revision == 1,
        r.enabled,
        r.default_pool is Some && r.default_pool->0@ == "demo-pool"@,
        demo_model(r.model),
{
    CatalogModel {
        revision: 1,
        enabled: true,
        default_pool: Some("demo-pool".to_owned()),
        model: Model::default(),
    }
}

/// The definition of a model that is offered.
pub fn active_model(row: Option<CatalogModel>) -> (r: ServiceResult<Model>)
    ensures
        refused(r, inactive_model(row)),
        r matches Ok(model) ==> model == row->0.model,
{
    match row {
        Some(row) => if row.enabled {
            Ok(row.model)
        } else {
            Err(invalid("model is unknown or disabled"))
        },
        None => Err(invalid("model is unknown or disabled")),
    }
}

/// The models that are offered, in the order of the catalog.
pub open spec fn enabled_models(rows: Seq<CatalogModel>) -> Seq<CatalogModel> {
    rows.filter(|row: CatalogModel| row.enabled)
}

/// The definitions of the models that are offered.
pub fn models(rows: &Vec<CatalogModel>) -> (r: Vec<Model>)
    ensures
        r@.len() == enabled_models(rows@).len(),
        forall|i: int| 0 <= i < r@.len() ==> #[trigger] r@[i] == enabled_models(rows@)[i].model,
{
    let ghost keep = |row: CatalogModel| row.enabled;
    let mut out: Vec<Model> = Vec::new();
    let mut i: usize = 0;
    assert(rows@.take(0).filter(keep) =~= Seq::empty());
    while i < rows.len()
        invariant
            i <= rows@.len(),
            keep == (|row: CatalogModel| row.enabled),
            out@.len() == rows@.take(i as int).filter(keep).len(),
            forall|j: int|
                0 <= j < out@.len() ==> #[trigger] out@[j] == rows@.take(i as int).filter(
                    keep,
                )[j].model,
        decreases rows.len() - i,
    {
        let ghost kept = rows@.take(i as int).filter(keep);
        proof {
            broadcast use Seq::lemma_filter_push;

            assert(rows@.take(i as int + 1) == rows@.take(i as int).push(rows@[i as int]));
        }
        if rows[i].enabled {
            assert(keep(rows@[i as int]));
            out.push(rows[i].model.copy());
        }
        i += 1;
    }
    assert(rows@.take(i as int) =~= rows@);
    out
}

pub open spec fn same_model_view(a: Model, b: Model) -> bool {
    &&& a.id@ == b.id@
    &&& a.display_name@ == b.display_name@
    &&& a.max_context_tokens == b.max_context_tokens
    &&& a.input_per_million_tokens.currency@ == b.input_per_million_tokens.currency@
    &&& a.input_per_million_tokens.amount == b.input_per_million_tokens.amount
    &&& a.output_per_million_tokens.currency@ == b.output_per_million_tokens.currency@
    &&& a.output_per_million_tokens.amount == b.output_per_million_tokens.amount
    &&& a.price_version@ == b.price_version@
}

fn same_model(a: &Model, b: &Model) -> (r: bool)
    ensures
        r == same_model_view(*a, *b),
{
    same(a.id.as_str(), b.id.as_str()) && same(a.display_name.as_str(), b.display_name.as_str())
        && a.max_context_tokens == b.max_context_tokens && same(
        a.input_per_million_tokens.currency.as_str(),
        b.input_per_million_tokens.currency.as_str(),
    ) && a.input_per_million_tokens.amount == b.input_per_million_tokens.amount && same(
        a.output_per_million_tokens.currency.as_str(),
        b.output_per_million_tokens.currency.as_str(),
    ) && a.output_per_million_tokens.amount == b.output_per_million_tokens.amount && same(
        a.price_version.as_str(),
        b.price_version.as_str(),
    )
}

/// What a written model leads to. `inserted` tells a new entry from one that
/// is replaced, `new_price` whether its price version is to be kept.
pub struct ModelWritten {
    pub entry: CatalogModel,
    pub inserted: bool,
    pub new_price: bool,
}

pub open spec fn put_model_fault(
    id: Seq<char>,
    q: PutModel,
    current: Option<i64>,
    price: Option<Model>,
) -> Option<Fault> {
    if model_fault(q.model) is Some {
        Some(Fault::Invalid(model_fault(q.model)->0))
    } else if id != q.model.id@ || !(0 <= q.expected_revision < i64::MAX) || (q.default_pool matches
        Some(pool) && !identifier_text(pool@)) {
        Some(Fault::Invalid("invalid model ID, pool or revision"@))
    } else if q.expected_revision == 0 && current is Some {
        Some(Fault::Conflict("resource already exists"@))
    } else if q.expected_revision > 0 && current != Some(q.expected_revision) {
        Some(Fault::Conflict("model revision changed; reload before saving"@))
    } else if price is Some && !same_model_view(price->0, q.model) {
        Some(Fault::Conflict("price version is immutable; use a new version"@))
    } else {
        None
    }
}

/// Writes a model. `current` is the revision of the entry that is there, and
/// `price` the definition under which the price version was published before.
/// A new entry whose name is taken is refused.
pub fn put_model(id: &str, request: PutModel, current: Option<i64>, price: Option<&Model>) -> (r:
    ServiceResult<ModelWritten>)
    ensures
        refused(
            r,
            put_model_fault(
                id@,
                request,
                current,
                match price {
                    Some(p) => Some(*p),
                    None => None,
                },
            ),
        ),
        r matches Ok(w) ==> w.entry == (CatalogModel {
            revision: (request.expected_revision + 1) as i64,
            enabled: request.enabled,
            default_pool: request.default_pool,
            model: request.model,
        }) && w.inserted == (request.expected_revision == 0) && w.new_price == (price is None),
{
    if let Err(message) = request.model.validate() {
        return Err(ServiceError::Invalid(message));
    }
    let pool_fits = match &request.default_pool {
        Some(pool) => identifier(pool.as_str()),
        None => true,
    };
    if !same(id, request.model.id.as_str()) || request.expected_revision < 0
        || request.expected_revision == i64::MAX || !pool_fits {
        return Err(invalid("invalid model ID, pool or revision"));
    }
    if request.expected_revision == 0 && current.is_some() {
        return Err(conflict("resource already exists"));
    }
    if request.expected_revision > 0 {
        let unchanged = match current {
            Some(revision) => revision == request.expected_revision,
            None => false,
        };
        if !unchanged {
            return Err(conflict("model revision changed; reload before saving"));
        }
    }
    if let Some(price) = price {
        if !same_model(price, &request.model) {
            return Err(conflict("price version is immutable; use a new version"));
        }
    }
    Ok(
        ModelWritten {
            inserted: request.expected_revision == 0,
            new_price: price.is_none(),
            entry: CatalogModel {
                revision: request.expected_revision + 1,
                enabled: request.enabled,
                default_pool: request.default_pool,
                model: request.model,
            },
        },
    )
}

/// A stored serving entry with its generation.
pub struct EndpointRow {
    pub generation: i64,
    pub endpoint: ServingEndpoint,
}

pub open spec fn put_endpoint_fault(
    id: Seq<char>,
    expected: i64,
    value: ServingEndpoint,
    guard_found: bool,
    model: Option<CatalogModel>,
    pools: Seq<ServingEndpoint>,
    previous: Option<EndpointRow>,
) -> Option<Fault> {
    if endpoint_fault(value) is Some {
        Some(Fault::Invalid(endpoint_fault(value)->0))
    } else if value.id@ != id || managed_name(id) || !(0 <= expected < i64::MAX) {
        Some(Fault::Invalid("invalid endpoint ID or generation"@))
    } else if !guard_found {
        Some(Fault::Conflict("traffic registry guard missing"@))
    } else if inactive_model(model) is Some {
        inactive_model(model)
    } else if any_entry_clash(pools, value.address@, value.model@, value.revision@) {
        Some(
            Fault::Conflict("managed serving entries cannot be aliased through legacy routing"@),
        )
    } else if expected == 0 {
        if previous is Some {
            Some(Fault::Conflict("resource already exists"@))
        } else {
            None
        }
    } else if previous is None {
        Some(Fault::NotFound)
    } else if previous->0.generation != expected || previous->0.endpoint.model@ != value.model@
        || previous->0.endpoint.revision@ != value.revision@ {
        Some(Fault::Conflict("endpoint generation or immutable model revision changed"@))
    } else {
        None
    }
}

/// Writes a serving entry under its next generation. What it serves never
/// changes: a new model revision gets a new entry. `pools` holds the entries
/// of the managed pools, and the caller holds the guard of the registry.
pub fn put_serving_endpoint(
    id: &str,
    expected: i64,
    value: &ServingEndpoint,
    guard_found: bool,
    model: Option<CatalogModel>,
    pools: &Vec<ServingEndpoint>,
    previous: &Option<EndpointRow>,
) -> (r: ServiceResult<i64>)
    ensures
        refused(
            r,
            put_endpoint_fault(id@, expected, *value, guard_found, model, pools@, *previous),
        ),
        r matches Ok(generation) ==> generation == expected + 1,
{
    if let Err(message) = value.validate() {
        return Err(ServiceError::Invalid(message));
    }
    if !same(value.id.as_str(), id) || managed(id) || expected < 0 || expected == i64::MAX {
        return Err(invalid("invalid endpoint ID or generation"));
    }
    if !guard_found {
        return Err(conflict("traffic registry guard missing"));
    }
    let _ = active_model(model)?;
    if has_entry_clash(pools, value) {
        return Err(conflict("managed serving entries cannot be aliased through legacy routing"));
    }
    if expected == 0 {
        if previous.is_some() {
            return Err(conflict("resource already exists"));
        }
    } else {
        match previous {
            None => return Err(ServiceError::NotFound),
            Some(previous) => {
                if previous.generation != expected || !same(
                    previous.endpoint.model.as_str(),
                    value.model.as_str(),
                ) || !same(previous.endpoint.revision.as_str(), value.revision.as_str()) {
                    return Err(
                        conflict("endpoint generation or immutable model revision changed"),
                    );
                }
            },
        }
    }
    Ok(expected + 1)
}

/// The catalog as gateways see it.
pub fn catalog_snapshot(models: Vec<CatalogModel>, endpoints: Vec<ServingEndpoint>) -> (r:
    CatalogSnapshot)
    ensures
        r == (CatalogSnapshot { models, endpoints }),
{
    CatalogSnapshot { models, endpoints }
}

/// What a pool stands for in the routing rules.
pub open spec fn pool_of(e: ServingEndpoint) -> RoutePool {
    RoutePool { id: e.id, model: e.model, revision: e.revision }
}

pub open spec fn with_pools(m: Map<Seq<char>, RoutePool>, pools: Seq<RoutePool>) -> Map<
    Seq<char>,
    RoutePool,
>
    decreases pools.len(),
{
    if pools.len() == 0 {
        m
    } else {
        with_pools(m, pools.drop_last()).insert(pools.last().id@, pools.last())
    }
}

pub open spec fn with_entries(m: Map<Seq<char>, RoutePool>, entries: Seq<ServingEndpoint>) -> Map<
    Seq<char>,
    RoutePool,
>
    decreases entries.len(),
{
    if entries.len() == 0 {
        m
    } else {
        with_entries(m, entries.drop_last()).insert(entries.last().id@, pool_of(entries.last()))
    }
}

fn add_entries(pools: &mut TextMap<RoutePool>, entries: &Vec<ServingEndpoint>)
    requires
        old(pools).wf(),
    ensures
        final(pools).wf(),
        final(pools)@ == with_entries(old(pools)@, entries@),
{
    let ghost first = pools@;
    let mut i: usize = 0;
    assert(entries@.take(0) =~= Seq::empty());
    while i < entries.len()
        invariant
            i <= entries@.len(),
            pools.wf(),
            pools@ == with_entries(first, entries@.take(i as int)),
        decreases entries.len() - i,
    {
        assert(entries@.take(i as int + 1).drop_last() =~= entries@.take(i as int));
        let e = &entries[i];
        pools.insert(
            e.id.as_str(),
            RoutePool { id: e.id.clone(), model: e.model.clone(), revision: e.revision.clone() },
        );
        i += 1;
    }
    assert(entries@.take(i as int) =~= entries@);
}

/// The pools that routes may name, one of each name in ascending order:
/// serving entries take the place of the pools of the same name that the
/// platform started with, and managed pools the place of both. `managed`
/// holds the entries of the managed pools that are not retired.
pub fn route_pools(
    bootstrap: &Vec<RoutePool>,
    endpoints: &Vec<ServingEndpoint>,
    managed: &Vec<ServingEndpoint>,
) -> (r: TextMap<RoutePool>)
    ensures
        r.wf(),
        r@ == with_entries(
            with_entries(
                with_pools(Map::<Seq<char>, RoutePool>::empty(), bootstrap@),
                endpoints@,
            ),
            managed@,
        ),
{
    let mut pools: TextMap<RoutePool> = TextMap::new();
    let ghost first = pools@;
    let mut i: usize = 0;
    assert(bootstrap@.take(0) =~= Seq::empty());
    while i < bootstrap.len()
        invariant
            i <= bootstrap@.len(),
            pools.wf(),
            pools@ == with_pools(first, bootstrap@.take(i as int)),
        decreases bootstrap.len() - i,
    {
        assert(bootstrap@.take(i as int + 1).drop_last() =~= bootstrap@.take(i as int));
        let p = &bootstrap[i];
        pools.insert(
            p.id.as_str(),
            RoutePool { id: p.id.clone(), model: p.model.clone(), revision: p.revision.clone() },
        );
        i += 1;
    }
    assert(bootstrap@.take(i as int) =~= bootstrap@);
    add_entries(&mut pools, endpoints);
    add_entries(&mut pools, managed);
    pools
}

/// A price version that was published under one definition is never published
/// under another.
pub proof fn law_prices_are_immutable(
    id: Seq<char>,
    q: PutModel,
    current: Option<i64>,
    published: Model,
)
    requires
        put_model_fault(id, q, current, Some(published)) is None,
    ensures
        same_model_view(published, q.model),
{
}

/// What a serving entry serves never changes, and its generation only grows.
pub proof fn law_entries_keep_what_they_serve(
    id: Seq<char>,
    expected: i64,
    value: ServingEndpoint,
    guard_found: bool,
    model: Option<CatalogModel>,
    pools: Seq<ServingEndpoint>,
    previous: EndpointRow,
)
    requires
        put_endpoint_fault(id, expected, value, guard_found, model, pools, Some(previous)) is None,
    ensures
        value.model@ == previous.endpoint.model@,
        value.revision@ == previous.endpoint.revision@,
        expected + 1 > previous.generation,
{
}

/// A price version that was published keeps its prices, its window and its name, whoever saves
/// the model again.
pub proof fn law_published_prices_do_not_change(
    id: Seq<char>,
    q: PutModel,
    current: Option<i64>,
    published: Model,
)
    requires
        put_model_fault(id, q, current, Some(published)) is None,
    ensures
        q.model.input_per_million_tokens.amount == published.input_per_million_tokens.amount,
        q.model.output_per_million_tokens.amount == published.output_per_million_tokens.amount,
        q.model.input_per_million_tokens.currency@ == published.input_per_million_tokens.currency@,
        q.model.output_per_million_tokens.currency@
            == published.output_per_million_tokens.currency@,
        q.model.max_context_tokens == published.max_context_tokens,
        q.model.display_name@ == published.display_name@,
        q.model.price_version@ == published.price_version@,
        q.model.id@ == published.id@,
{
}

/// A model that was changed in between is not overwritten: it is made where there is none, and
/// changed only from the revision that is current.
pub proof fn law_changed_models_are_not_overwritten(
    id: Seq<char>,
    q: PutModel,
    current: Option<i64>,
    price: Option<Model>,
)
    requires
        put_model_fault(id, q, current, price) is None,
    ensures
        q.model.id@ == id,
        q.expected_revision == 0 ==> current is None,
        q.expected_revision != 0 ==> current == Some(q.expected_revision),
        0 <= q.expected_revision < i64::MAX,
        q.model.input_per_million_tokens.amount >= 0,
        q.model.output_per_million_tokens.amount >= 0,
        0 < q.model.max_context_tokens < 16_777_217,
{
}

/// A sound model at its current revision, under a new price version, can be saved.
pub proof fn law_sound_models_can_be_saved(id: Seq<char>, q: PutModel, current: Option<i64>)
    requires
        model_fault(q.model) is None,
        q.model.id@ == id,
        q.default_pool is None,
        0 <= q.expected_revision < i64::MAX,
        q.expected_revision == 0 ==> current is None,
        q.expected_revision > 0 ==> current == Some(q.expected_revision),
    ensures
        put_model_fault(id, q, current, None) is None,
{
}

/// Exactly the models that are enabled are offered.
pub proof fn law_disabled_models_are_not_offered(rows: Seq<CatalogModel>, row: CatalogModel)
    ensures
        inactive_model(Some(row)) is None <==> row.enabled,
        inactive_model(None) is Some,
        enabled_models(rows).contains(row) ==> row.enabled,
        rows.contains(row) && row.enabled ==> enabled_models(rows).contains(row),
{
    let keep = |row: CatalogModel| row.enabled;
    assert(enabled_models(rows) == rows.filter(keep));
    if enabled_models(rows).contains(row) {
        let i = choose|i: int| 0 <= i < rows.filter(keep).len() && rows.filter(keep)[i] == row;
        rows.lemma_filter_pred(keep, i);
    }
    if rows.contains(row) && row.enabled {
        let i = choose|i: int| 0 <= i < rows.len() && rows[i] == row;
        assert(keep(rows[i]));
        rows.lemma_filter_contains(keep, i);
    }
}

/// An entry that was changed in between is not overwritten, and no entry is registered under a
/// managed name, for a model that is not offered, or in the place of a managed pool.
pub proof fn law_entries_are_registered_in_their_own_right(
    id: Seq<char>,
    expected: i64,
    value: ServingEndpoint,
    guard_found: bool,
    model: Option<CatalogModel>,
    pools: Seq<ServingEndpoint>,
    previous: Option<EndpointRow>,
)
    requires
        put_endpoint_fault(id, expected, value, guard_found, model, pools, previous) is None,
    ensures
        value.id@ == id,
        !managed_name(id),
        guard_found,
        model is Some && model->0.enabled,
        !any_entry_clash(pools, value.address@, value.model@, value.revision@),
        expected == 0 ==> previous is None,
        expected > 0 ==> previous is Some && previous->0.generation == expected,
{
}

} // verus!
