//! Compares what the platform captured with what a payment provider settled.
use crate::collections::{
    ascending, entries_map, has_key, holds_key, lemma_entry, lemma_unique_key, text_before, TextMap,
};
use crate::control::error::{from_domain, invalid, Fault, ServiceResult};
use crate::domain::{
    fits_i64, money_fault, validate_money, Money, ProviderSettlement, ReconcileRequest,
    ReconciliationReport, Timestamp,
};
use crate::text::{blank, is_blank};
use vstd::prelude::*;

verus! {

/// A payment that the platform captured.
#[derive(Clone, Debug)]
pub struct CapturedAmount {
    pub provider_reference: String,
    pub amount: i64,
}

/// The captured amounts by reference; a later row replaces an earlier one.
pub open spec fn captured_amounts(rows: Seq<CapturedAmount>) -> Map<Seq<char>, i64>
    decreases rows.len(),
{
    if rows.len() == 0 {
        Map::empty()
    } else {
        captured_amounts(rows.drop_last()).insert(
            rows.last().provider_reference@,
            rows.last().amount,
        )
    }
}

/// The settled amounts by reference; a later row replaces an earlier one.
pub open spec fn settled_amounts(rows: Seq<ProviderSettlement>) -> Map<Seq<char>, i64>
    decreases rows.len(),
{
    if rows.len() == 0 {
        Map::empty()
    } else {
        settled_amounts(rows.drop_last()).insert(
            rows.last().provider_reference@,
            rows.last().amount.amount,
        )
    }
}

/// The settlement at `i` is the first with an amount that is refused.
pub open spec fn first_bad_amount(rows: Seq<ProviderSettlement>, i: int) -> bool {
    &&& 0 <= i < rows.len()
    &&& money_fault(rows[i].amount) is Some
    &&& forall|j: int| 0 <= j < i ==> money_fault((#[trigger] rows[j]).amount) is None
}

pub open spec fn amounts_sound(rows: Seq<ProviderSettlement>) -> bool {
    forall|j: int| 0 <= j < rows.len() ==> money_fault((#[trigger] rows[j]).amount) is None
}

/// The entries whose reference the other side lacks.
pub open spec fn missing_in(
    entries: Seq<(String, i64)>,
    other: Map<Seq<char>, i64>,
) -> Seq<(String, i64)> {
    entries.filter(|e: (String, i64)| !other.dom().contains(e.0@))
}

/// The entries that the other side has with the same amount.
pub open spec fn equal_in(
    entries: Seq<(String, i64)>,
    other: Map<Seq<char>, i64>,
) -> Seq<(String, i64)> {
    entries.filter(|e: (String, i64)| other.dom().contains(e.0@) && other[e.0@] == e.1)
}

/// The entries that the other side has with another amount.
pub open spec fn unequal_in(
    entries: Seq<(String, i64)>,
    other: Map<Seq<char>, i64>,
) -> Seq<(String, i64)> {
    entries.filter(|e: (String, i64)| other.dom().contains(e.0@) && other[e.0@] != e.1)
}

pub open spec fn references(list: Seq<String>, entries: Seq<(String, i64)>) -> bool {
    list == entries.map_values(|e: (String, i64)| e.0)
}

/// Each mismatch with the amount by which the provider settled more.
pub open spec fn differences(
    list: Seq<(String, Money)>,
    entries: Seq<(String, i64)>,
    other: Map<Seq<char>, i64>,
) -> bool {
    &&& list.len() == entries.len()
    &&& forall|i: int|
        0 <= i < list.len() ==> (#[trigger] list[i]).0 == entries[i].0 && list[i].1.currency@
            == "CNY"@ && list[i].1.amount == other[entries[i].0@] - entries[i].1
}

/// The report lists, in the order of the references, what only one side has
/// and what both have with different amounts.
pub open spec fn report_of(
    r: ReconciliationReport,
    platform: Seq<(String, i64)>,
    provider: Seq<(String, i64)>,
) -> bool {
    let p = entries_map(platform);
    let q = entries_map(provider);
    &&& references(r.platform_only@, missing_in(platform, q))
    &&& references(r.provider_only@, missing_in(provider, p))
    &&& r.matched == equal_in(platform, q).len()
    &&& differences(r.amount_mismatches@, unequal_in(platform, q), q)
}

/// `platform` and `provider` list the two sides in ascending order.
pub open spec fn both_sides(
    captured: Seq<CapturedAmount>,
    settlements: Seq<ProviderSettlement>,
    platform: Seq<(String, i64)>,
    provider: Seq<(String, i64)>,
) -> bool {
    &&& ascending(platform)
    &&& entries_map(platform) == captured_amounts(captured)
    &&& ascending(provider)
    &&& entries_map(provider) == settled_amounts(settlements)
}

pub open spec fn reconciled(
    r: ReconciliationReport,
    captured: Seq<CapturedAmount>,
    settlements: Seq<ProviderSettlement>,
) -> bool {
    exists|platform: Seq<(String, i64)>, provider: Seq<(String, i64)>| #[trigger]
        both_sides(captured, settlements, platform, provider) && report_of(r, platform, provider)
}

fn collect_missing(entries: &TextMap<i64>, other: &TextMap<i64>) -> (r: Vec<String>)
    requires
        entries.wf(),
        other.wf(),
    ensures
        references(r@, missing_in(entries.entries@, other@)),
{
    let ghost keep = |e: (String, i64)| !other@.dom().contains(e.0@);
    let ghost name = |e: (String, i64)| e.0;
    let ghost all = entries.entries@;
    let mut out: Vec<String> = Vec::new();
    let mut i: usize = 0;
    assert(all.take(0).filter(keep) =~= Seq::empty());
    assert(out@ =~= all.take(0).filter(keep).map_values(name));
    while i < entries.entries.len()
        invariant
            i <= entries.entries@.len(),
            other.wf(),
            all == entries.entries@,
            keep == (|e: (String, i64)| !other@.dom().contains(e.0@)),
            name == (|e: (String, i64)| e.0),
            out@ == all.take(i as int).filter(keep).map_values(name),
        decreases entries.entries@.len() - i,
    {
        let entry = &entries.entries[i];
        let ghost kept = all.take(i as int).filter(keep);
        proof {
            broadcast use Seq::lemma_filter_push;

            assert(all.take(i as int + 1) == all.take(i as int).push(all[i as int]));
        }
        if other.get(entry.0.as_str()).is_none() {
            out.push(entry.0.clone());
            assert(keep(all[i as int]));
            assert(kept.push(all[i as int]).map_values(name) =~= kept.map_values(name).push(
                all[i as int].0,
            ));
        } else {
            assert(!keep(all[i as int]));
        }
        i += 1;
    }
    assert(all.take(all.len() as int) == all);
    out
}

fn platform_side(captured: &Vec<CapturedAmount>) -> (r: TextMap<i64>)
    ensures
        r.wf(),
        r@ == captured_amounts(captured@),
        r.entries@.len() <= captured@.len(),
{
    let mut platform: TextMap<i64> = TextMap::new();
    let mut i: usize = 0;
    assert(captured@.take(0) =~= Seq::empty());
    while i < captured.len()
        invariant
            i <= captured.len(),
            platform.wf(),
            platform@ == captured_amounts(captured@.take(i as int)),
            platform.entries@.len() <= i,
        decreases captured.len() - i,
    {
        proof {
            assert(captured@.take(i as int + 1).drop_last() =~= captured@.take(i as int));
        }
        platform.insert(captured[i].provider_reference.as_str(), captured[i].amount);
        i += 1;
    }
    assert(captured@.take(captured@.len() as int) =~= captured@);
    platform
}

fn provider_side(settlements: &Vec<ProviderSettlement>) -> (r: ServiceResult<TextMap<i64>>)
    ensures
        match r {
            Ok(provider) => amounts_sound(settlements@) && provider.wf() && provider@
                == settled_amounts(settlements@),
            Err(e) => !amounts_sound(settlements@) && exists|i: int|
                #[trigger] first_bad_amount(settlements@, i) && e@ == Fault::Invalid(
                    money_fault(settlements@[i].amount)->0.text(),
                ),
        },
{
    let mut provider: TextMap<i64> = TextMap::new();
    let mut n: usize = 0;
    assert(settlements@.take(0) =~= Seq::empty());
    while n < settlements.len()
        invariant
            n <= settlements.len(),
            provider.wf(),
            provider@ == settled_amounts(settlements@.take(n as int)),
            forall|j: int|
                0 <= j < n ==> money_fault((#[trigger] settlements@[j]).amount) is None,
        decreases settlements.len() - n,
    {
        let settlement = &settlements[n];
        if let Err(e) = validate_money(&settlement.amount) {
            assert(first_bad_amount(settlements@, n as int));
            return Err(from_domain(e));
        }
        proof {
            assert(settlements@.take(n as int + 1).drop_last() =~= settlements@.take(n as int));
        }
        provider.insert(settlement.provider_reference.as_str(), settlement.amount.amount);
        n += 1;
    }
    assert(settlements@.take(settlements@.len() as int) =~= settlements@);
    Ok(provider)
}

/// The difference between the amounts of both sides can be written down, wherever there is
/// one to be written.
pub open spec fn reconcile_in_range(request: ReconcileRequest, captured: Seq<CapturedAmount>) -> bool {
    !blank(request.tenant_id@) && !blank(request.provider@) && amounts_sound(request.settlements@)
        ==> {
        let platform = captured_amounts(captured);
        let provider = settled_amounts(request.settlements@);
        forall|k: Seq<char>| #[trigger]
            platform.dom().contains(k) && provider.dom().contains(k) ==> fits_i64(
                provider[k] - platform[k],
            )
    }
}

/// Whether the differences that a reconciliation reports stay in range.
pub fn reconciles_in_range(request: &ReconcileRequest, captured: &Vec<CapturedAmount>) -> (r: bool)
    ensures
        r == reconcile_in_range(*request, captured@),
{
    if is_blank(request.tenant_id.as_str()) || is_blank(request.provider.as_str()) {
        return true;
    }
    let platform = platform_side(captured);
    let provider = match provider_side(&request.settlements) {
        Ok(provider) => provider,
        Err(_) => return true,
    };
    let ghost all = platform.entries@;
    let mut k: usize = 0;
    while k < platform.entries.len()
        invariant
            k <= platform.entries@.len(),
            platform.wf(),
            provider.wf(),
            all == platform.entries@,
            platform@ == captured_amounts(captured@),
            provider@ == settled_amounts(request.settlements@),
            amounts_sound(request.settlements@),
            !blank(request.tenant_id@) && !blank(request.provider@),
            forall|j: int|
                0 <= j < k && provider@.dom().contains((#[trigger] all[j]).0@) ==> fits_i64(
                    provider@[all[j].0@] - all[j].1,
                ),
        decreases platform.entries@.len() - k,
    {
        let entry = &platform.entries[k];
        proof {
            lemma_entry(all, k as int);
        }
        if let Some(settled) = provider.get(entry.0.as_str()) {
            if settled.checked_sub(entry.1).is_none() {
                assert(platform@.dom().contains(all[k as int].0@));
                return false;
            }
        }
        k += 1;
    }
    assert forall|key: Seq<char>| #[trigger]
        platform@.dom().contains(key) && provider@.dom().contains(key) implies fits_i64(
        provider@[key] - platform@[key],
    ) by {
        assert(has_key(all, key));
        let j = choose|j: int| #[trigger] holds_key(all, key, j);
        lemma_entry(all, j);
        assert(all[j].0@ == key);
    }
    true
}

/// Reconciles the captured payments of a tenant with a list of settlements.
pub fn reconcile(
    request: ReconcileRequest,
    captured: &Vec<CapturedAmount>,
    now: Timestamp,
) -> (r: ServiceResult<ReconciliationReport>)
    requires
        captured@.len() <= i64::MAX,
        reconcile_in_range(request, captured@),
    ensures
        blank(request.tenant_id@) || blank(request.provider@) ==> (r matches Err(e) && e@
            == Fault::Invalid("tenant_id and provider are required"@)),
        !blank(request.tenant_id@) && !blank(request.provider@) ==> match r {
            Ok(report) => {
                &&& amounts_sound(request.settlements@)
                &&& report.generated_at == now
                &&& report.provider == request.provider
                &&& reconciled(report, captured@, request.settlements@)
            },
            Err(e) => exists|i: int|
                #[trigger] first_bad_amount(request.settlements@, i) && e@ == Fault::Invalid(
                    money_fault(request.settlements@[i].amount)->0.text(),
                ),
        },
{
    if is_blank(request.tenant_id.as_str()) || is_blank(request.provider.as_str()) {
        return Err(invalid("tenant_id and provider are required"));
    }
    let platform = platform_side(captured);
    let provider = match provider_side(&request.settlements) {
        Ok(provider) => provider,
        Err(e) => return Err(e),
    };
    let platform_only = collect_missing(&platform, &provider);
    let provider_only = collect_missing(&provider, &platform);
    let ghost all = platform.entries@;
    let ghost equal = |e: (String, i64)| provider@.dom().contains(e.0@) && provider@[e.0@] == e.1;
    let ghost unequal = |e: (String, i64)| provider@.dom().contains(e.0@) && provider@[e.0@] != e.1;
    let mut matched: i64 = 0;
    let mut amount_mismatches: Vec<(String, Money)> = Vec::new();
    let mut k: usize = 0;
    assert(all.take(0).filter(equal) =~= Seq::empty());
    assert(all.take(0).filter(unequal) =~= Seq::empty());
    while k < platform.entries.len()
        invariant
            k <= platform.entries@.len(),
            platform.wf(),
            provider.wf(),
            all == platform.entries@,
            equal == (|e: (String, i64)|
                provider@.dom().contains(e.0@) && provider@[e.0@] == e.1),
            unequal == (|e: (String, i64)|
                provider@.dom().contains(e.0@) && provider@[e.0@] != e.1),
            forall|key: Seq<char>| #[trigger]
                platform@.dom().contains(key) && provider@.dom().contains(key) ==> fits_i64(
                    provider@[key] - platform@[key],
                ),
            platform.entries@.len() <= i64::MAX,
            0 <= matched <= k,
            matched == all.take(k as int).filter(equal).len(),
            differences(amount_mismatches@, all.take(k as int).filter(unequal), provider@),
        decreases platform.entries@.len() - k,
    {
        let entry = &platform.entries[k];
        let ghost kept = all.take(k as int).filter(unequal);
        proof {
            broadcast use Seq::lemma_filter_push;

            assert(all.take(k as int + 1) == all.take(k as int).push(all[k as int]));
            lemma_entry(all, k as int);
            assert(platform@.dom().contains(all[k as int].0@));
        }
        if let Some(settled) = provider.get(entry.0.as_str()) {
            if *settled == entry.1 {
                assert(equal(all[k as int]));
                assert(!unequal(all[k as int]));
                matched = matched + 1;
            } else {
                assert(!equal(all[k as int]));
                assert(unequal(all[k as int]));
                amount_mismatches.push((entry.0.clone(), Money::cny(*settled - entry.1)));
                assert(all.take(k as int + 1).filter(unequal) == kept.push(all[k as int]));
            }
        } else {
            assert(!equal(all[k as int]));
            assert(!unequal(all[k as int]));
        }
        k += 1;
    }
    assert(all.take(all.len() as int) == all);
    let report = ReconciliationReport {
        generated_at: now,
        provider: request.provider,
        matched,
        platform_only,
        provider_only,
        amount_mismatches,
    };
    assert(entries_map(platform.entries@) == platform@);
    assert(entries_map(provider.entries@) == provider@);
    assert(report_of(report, platform.entries@, provider.entries@));
    assert(both_sides(captured@, request.settlements@, platform.entries@, provider.entries@));
    assert(reconciled(report, captured@, request.settlements@));
    Ok(report)
}

/// Filtering keeps the order of the entries, and keeps exactly those that it is to keep.
proof fn lemma_kept(entries: Seq<(String, i64)>, keep: spec_fn((String, i64)) -> bool)
    requires
        ascending(entries),
    ensures
        ascending(entries.filter(keep)),
        forall|i: int|
            0 <= i < entries.filter(keep).len() ==> keep(#[trigger] entries.filter(keep)[i])
                && entries.contains(entries.filter(keep)[i]),
        forall|j: int|
            0 <= j < entries.len() && keep(entries[j]) ==> entries.filter(keep).contains(
                #[trigger] entries[j],
            ),
    decreases entries.len(),
{
    reveal(Seq::filter);
    if entries.len() > 0 {
        let rest = entries.drop_last();
        let kept = rest.filter(keep);
        let all = entries.filter(keep);
        assert forall|i: int, j: int| 0 <= i < j < rest.len() implies text_before(
            #[trigger] rest[i].0@,
            #[trigger] rest[j].0@,
        ) by {
            assert(text_before(entries[i].0@, entries[j].0@));
        }
        lemma_kept(rest, keep);
        assert forall|i: int| 0 <= i < kept.len() implies exists|j: int|
            0 <= j < rest.len() && entries[j] == #[trigger] kept[i] by {
            assert(rest.contains(kept[i]));
            let j = choose|j: int| 0 <= j < rest.len() && rest[j] == kept[i];
            assert(entries[j] == kept[i]);
        }
        assert forall|i: int| 0 <= i < all.len() implies keep(#[trigger] all[i])
            && entries.contains(all[i]) by {
            if i < kept.len() {
                assert(all[i] == kept[i]);
            } else {
                assert(all[i] == entries.last());
                assert(entries[entries.len() - 1] == all[i]);
            }
        }
        assert forall|i: int, j: int| 0 <= i < j < all.len() implies text_before(
            #[trigger] all[i].0@,
            #[trigger] all[j].0@,
        ) by {
            assert(all[i] == kept[i]);
            if j < kept.len() {
                assert(text_before(kept[i].0@, kept[j].0@));
            } else {
                let k = choose|k: int| 0 <= k < rest.len() && entries[k] == kept[i];
                assert(text_before(entries[k].0@, entries[entries.len() - 1].0@));
            }
        }
        assert forall|j: int| 0 <= j < entries.len() && keep(entries[j]) implies all.contains(
            #[trigger] entries[j],
        ) by {
            if j < rest.len() {
                assert(rest[j] == entries[j]);
                assert(kept.contains(rest[j]));
                let i = choose|i: int| 0 <= i < kept.len() && kept[i] == rest[j];
                assert(all[i] == entries[j]);
            } else {
                assert(all[all.len() - 1] == entries[j]);
            }
        }
    }
}

/// The references of a list of entries.
pub open spec fn names_of(entries: Seq<(String, i64)>) -> Set<Seq<char>> {
    Set::new(|k: Seq<char>| has_key(entries, k))
}

/// A list in ascending order names as many references as it has entries.
proof fn lemma_names(entries: Seq<(String, i64)>)
    requires
        ascending(entries),
    ensures
        names_of(entries).finite(),
        names_of(entries).len() == entries.len(),
    decreases entries.len(),
{
    if entries.len() == 0 {
        assert(names_of(entries) =~= Set::empty());
    } else {
        let rest = entries.drop_last();
        assert forall|i: int, j: int| 0 <= i < j < rest.len() implies text_before(
            #[trigger] rest[i].0@,
            #[trigger] rest[j].0@,
        ) by {
            assert(text_before(entries[i].0@, entries[j].0@));
        }
        lemma_names(rest);
        let k = entries.last().0@;
        assert(names_of(entries) =~= names_of(rest).insert(k)) by {
            assert forall|key: Seq<char>| names_of(entries).contains(key) == names_of(rest).insert(
                k,
            ).contains(key) by {
                if has_key(entries, key) {
                    let i = choose|i: int| #[trigger] holds_key(entries, key, i);
                    if i < rest.len() {
                        assert(holds_key(rest, key, i));
                    }
                }
                if has_key(rest, key) {
                    let i = choose|i: int| #[trigger] holds_key(rest, key, i);
                    assert(holds_key(entries, key, i));
                }
                if key == k {
                    assert(holds_key(entries, key, entries.len() - 1));
                }
            }
        }
        if has_key(rest, k) {
            let i = choose|i: int| #[trigger] holds_key(rest, k, i);
            lemma_unique_key(entries, i, entries.len() - 1);
        }
    }
}

/// A filtered list names the references whose entries are kept.
proof fn lemma_kept_names(entries: Seq<(String, i64)>, keep: spec_fn((String, i64)) -> bool)
    requires
        ascending(entries),
    ensures
        forall|k: Seq<char>| #[trigger]
            has_key(entries.filter(keep), k) <==> exists|j: int| #[trigger]
                holds_key(entries, k, j) && keep(entries[j]),
{
    lemma_kept(entries, keep);
    let kept = entries.filter(keep);
    assert forall|k: Seq<char>| #[trigger] has_key(kept, k) <==> exists|j: int| #[trigger]
        holds_key(entries, k, j) && keep(entries[j]) by {
        if has_key(kept, k) {
            let i = choose|i: int| #[trigger] holds_key(kept, k, i);
            assert(keep(kept[i]) && entries.contains(kept[i]));
            let j = choose|j: int| 0 <= j < entries.len() && entries[j] == kept[i];
            assert(holds_key(entries, k, j) && keep(entries[j]));
        }
        if exists|j: int| #[trigger] holds_key(entries, k, j) && keep(entries[j]) {
            let j = choose|j: int| #[trigger] holds_key(entries, k, j) && keep(entries[j]);
            assert(kept.contains(entries[j]));
            let i = choose|i: int| 0 <= i < kept.len() && kept[i] == entries[j];
            assert(holds_key(kept, k, i));
        }
    }
}

/// What a report says of one reference.
proof fn lemma_reported(
    r: ReconciliationReport,
    platform: Seq<(String, i64)>,
    provider: Seq<(String, i64)>,
    k: Seq<char>,
)
    requires
        ascending(platform),
        ascending(provider),
        report_of(r, platform, provider),
    ensures
        ({
            let p = entries_map(platform);
            let q = entries_map(provider);
            &&& named(r.platform_only@, k) <==> p.dom().contains(k) && !q.dom().contains(k)
            &&& named(r.provider_only@, k) <==> q.dom().contains(k) && !p.dom().contains(k)
            &&& has_key(equal_in(platform, q), k) <==> p.dom().contains(k) && q.dom().contains(k)
                && p[k] == q[k]
            &&& has_key(unequal_in(platform, q), k) <==> p.dom().contains(k) && q.dom().contains(k)
                && p[k] != q[k]
        }),
{
    let p = entries_map(platform);
    let q = entries_map(provider);
    let absent = |e: (String, i64)| !q.dom().contains(e.0@);
    let foreign = |e: (String, i64)| !p.dom().contains(e.0@);
    let equal = |e: (String, i64)| q.dom().contains(e.0@) && q[e.0@] == e.1;
    let unequal = |e: (String, i64)| q.dom().contains(e.0@) && q[e.0@] != e.1;
    assert(missing_in(platform, q) == platform.filter(absent));
    assert(missing_in(provider, p) == provider.filter(foreign));
    assert(equal_in(platform, q) == platform.filter(equal));
    assert(unequal_in(platform, q) == platform.filter(unequal));
    lemma_kept_names(platform, absent);
    lemma_kept_names(provider, foreign);
    lemma_kept_names(platform, equal);
    lemma_kept_names(platform, unequal);
    lemma_named(r.platform_only@, missing_in(platform, q), k);
    lemma_named(r.provider_only@, missing_in(provider, p), k);
    assert(has_key(platform, k) == p.dom().contains(k));
    assert(has_key(provider, k) == q.dom().contains(k));
    if has_key(platform, k) {
        let j = choose|j: int| #[trigger] holds_key(platform, k, j);
        lemma_entry(platform, j);
        assert forall|i: int| #[trigger] holds_key(platform, k, i) implies i == j by {
            lemma_unique_key(platform, i, j);
        }
    }
    if has_key(provider, k) {
        let j = choose|j: int| #[trigger] holds_key(provider, k, j);
        lemma_entry(provider, j);
        assert forall|i: int| #[trigger] holds_key(provider, k, i) implies i == j by {
            lemma_unique_key(provider, i, j);
        }
    }
}

/// A list of references names this one.
pub open spec fn named(list: Seq<String>, k: Seq<char>) -> bool {
    exists|i: int| 0 <= i < list.len() && (#[trigger] list[i])@ == k
}

/// A list of mismatches names this reference.
pub open spec fn mismatched(list: Seq<(String, Money)>, k: Seq<char>) -> bool {
    exists|i: int| 0 <= i < list.len() && (#[trigger] list[i]).0@ == k
}

proof fn lemma_named(list: Seq<String>, entries: Seq<(String, i64)>, k: Seq<char>)
    requires
        references(list, entries),
    ensures
        named(list, k) <==> has_key(entries, k),
{
    if named(list, k) {
        let i = choose|i: int| 0 <= i < list.len() && (#[trigger] list[i])@ == k;
        assert(holds_key(entries, k, i));
    }
    if has_key(entries, k) {
        let i = choose|i: int| #[trigger] holds_key(entries, k, i);
        assert(list[i]@ == k);
    }
}

proof fn lemma_mismatched(
    list: Seq<(String, Money)>,
    entries: Seq<(String, i64)>,
    other: Map<Seq<char>, i64>,
    k: Seq<char>,
)
    requires
        differences(list, entries, other),
    ensures
        mismatched(list, k) <==> has_key(entries, k),
{
    if mismatched(list, k) {
        let i = choose|i: int| 0 <= i < list.len() && (#[trigger] list[i]).0@ == k;
        assert(holds_key(entries, k, i));
    }
    if has_key(entries, k) {
        let i = choose|i: int| #[trigger] holds_key(entries, k, i);
        assert(list[i].0@ == k);
    }
}

/// A reference that both sides have is a mismatch exactly if the amounts differ, by as much as
/// the provider settled more; one that a single side has is listed on that side, and nothing
/// else is listed anywhere.
pub proof fn law_every_reference_is_listed_where_it_belongs(
    r: ReconciliationReport,
    captured: Seq<CapturedAmount>,
    settlements: Seq<ProviderSettlement>,
    k: Seq<char>,
)
    requires
        reconciled(r, captured, settlements),
    ensures
        ({
            let p = captured_amounts(captured);
            let q = settled_amounts(settlements);
            &&& named(r.platform_only@, k) <==> p.dom().contains(k) && !q.dom().contains(k)
            &&& named(r.provider_only@, k) <==> q.dom().contains(k) && !p.dom().contains(k)
            &&& mismatched(r.amount_mismatches@, k) <==> p.dom().contains(k) && q.dom().contains(k)
                && p[k] != q[k]
            &&& forall|i: int|
                0 <= i < r.amount_mismatches@.len() && (#[trigger] r.amount_mismatches@[i]).0@ == k
                    ==> r.amount_mismatches@[i].1.amount == q[k] - p[k]
                    && r.amount_mismatches@[i].1.amount != 0
        }),
{
    let (platform, provider) = choose|platform: Seq<(String, i64)>, provider: Seq<(String, i64)>|
        #[trigger]
        both_sides(captured, settlements, platform, provider) && report_of(r, platform, provider);
    let p = entries_map(platform);
    let q = entries_map(provider);
    lemma_reported(r, platform, provider, k);
    lemma_mismatched(r.amount_mismatches@, unequal_in(platform, q), q, k);
    let unequal = |e: (String, i64)| q.dom().contains(e.0@) && q[e.0@] != e.1;
    assert(unequal_in(platform, q) == platform.filter(unequal));
    lemma_kept(platform, unequal);
    assert forall|i: int|
        0 <= i < r.amount_mismatches@.len() && (#[trigger] r.amount_mismatches@[i]).0@ == k implies
        r.amount_mismatches@[i].1.amount == q[k] - p[k] && r.amount_mismatches@[i].1.amount != 0 by {
        let e = unequal_in(platform, q)[i];
        assert(unequal(e) && platform.contains(e));
        let j = choose|j: int| 0 <= j < platform.len() && platform[j] == e;
        lemma_entry(platform, j);
    }
}

/// The references that both sides have with the same amount.
pub open spec fn agreed(p: Map<Seq<char>, i64>, q: Map<Seq<char>, i64>) -> Set<Seq<char>> {
    Set::new(|k: Seq<char>| p.dom().contains(k) && q.dom().contains(k) && p[k] == q[k])
}

/// The references that both sides have with different amounts.
pub open spec fn disagreed(p: Map<Seq<char>, i64>, q: Map<Seq<char>, i64>) -> Set<Seq<char>> {
    Set::new(|k: Seq<char>| p.dom().contains(k) && q.dom().contains(k) && p[k] != q[k])
}

/// Each reference that both sides have with the same amount counts as matched, once, and no
/// other does; each side's references are matched, mismatched or its own alone.
pub proof fn law_every_reference_is_counted_once(
    r: ReconciliationReport,
    captured: Seq<CapturedAmount>,
    settlements: Seq<ProviderSettlement>,
)
    requires
        reconciled(r, captured, settlements),
    ensures
        ({
            let p = captured_amounts(captured);
            let q = settled_amounts(settlements);
            &&& r.matched == agreed(p, q).len()
            &&& r.amount_mismatches@.len() == disagreed(p, q).len()
            &&& p.dom().len() == r.matched + r.amount_mismatches@.len() + r.platform_only@.len()
            &&& q.dom().len() == r.matched + r.amount_mismatches@.len() + r.provider_only@.len()
        }),
{
    let (platform, provider) = choose|platform: Seq<(String, i64)>, provider: Seq<(String, i64)>|
        #[trigger]
        both_sides(captured, settlements, platform, provider) && report_of(r, platform, provider);
    let p = entries_map(platform);
    let q = entries_map(provider);
    let absent = |e: (String, i64)| !q.dom().contains(e.0@);
    let foreign = |e: (String, i64)| !p.dom().contains(e.0@);
    let equal = |e: (String, i64)| q.dom().contains(e.0@) && q[e.0@] == e.1;
    let unequal = |e: (String, i64)| q.dom().contains(e.0@) && q[e.0@] != e.1;
    let matched = platform.filter(equal);
    let unmatched = platform.filter(unequal);
    let alone = platform.filter(absent);
    let others = provider.filter(foreign);
    assert(missing_in(platform, q) == alone);
    assert(missing_in(provider, p) == others);
    assert(equal_in(platform, q) == matched);
    assert(unequal_in(platform, q) == unmatched);
    lemma_kept(platform, equal);
    lemma_kept(platform, unequal);
    lemma_kept(platform, absent);
    lemma_kept(provider, foreign);
    lemma_names(matched);
    lemma_names(unmatched);
    lemma_names(alone);
    lemma_names(others);
    lemma_names(platform);
    lemma_names(provider);
    assert forall|k: Seq<char>| names_of(matched).contains(k) == agreed(p, q).contains(k) by {
        lemma_reported(r, platform, provider, k);
    }
    assert forall|k: Seq<char>| names_of(unmatched).contains(k) == disagreed(p, q).contains(k) by {
        lemma_reported(r, platform, provider, k);
    }
    assert forall|k: Seq<char>|
        names_of(alone).contains(k) == (p.dom().contains(k) && !q.dom().contains(k)) by {
        lemma_reported(r, platform, provider, k);
        lemma_named(r.platform_only@, alone, k);
    }
    assert forall|k: Seq<char>|
        names_of(others).contains(k) == (q.dom().contains(k) && !p.dom().contains(k)) by {
        lemma_reported(r, platform, provider, k);
        lemma_named(r.provider_only@, others, k);
    }
    assert(names_of(matched) =~= agreed(p, q));
    assert(names_of(unmatched) =~= disagreed(p, q));
    let both = agreed(p, q).union(disagreed(p, q));
    vstd::set_lib::lemma_set_disjoint_lens(agreed(p, q), disagreed(p, q));
    vstd::set_lib::lemma_set_disjoint_lens(both, names_of(alone));
    vstd::set_lib::lemma_set_disjoint_lens(both, names_of(others));
    assert(p.dom() =~= both + names_of(alone));
    assert(q.dom() =~= both + names_of(others));
}

/// Whichever side is called the platform, as many references match and the same ones do not,
/// each by the opposite amount; what is only on the one side is only on the other.
pub proof fn law_the_sides_can_be_exchanged(
    r: ReconciliationReport,
    captured: Seq<CapturedAmount>,
    settlements: Seq<ProviderSettlement>,
    s: ReconciliationReport,
    settled: Seq<CapturedAmount>,
    capturing: Seq<ProviderSettlement>,
    k: Seq<char>,
)
    requires
        reconciled(r, captured, settlements),
        reconciled(s, settled, capturing),
        captured_amounts(captured) == settled_amounts(capturing),
        settled_amounts(settlements) == captured_amounts(settled),
    ensures
        r.matched == s.matched,
        mismatched(r.amount_mismatches@, k) <==> mismatched(s.amount_mismatches@, k),
        forall|i: int, j: int|
            0 <= i < r.amount_mismatches@.len() && 0 <= j < s.amount_mismatches@.len() && (
            #[trigger] r.amount_mismatches@[i]).0@ == k && (#[trigger] s.amount_mismatches@[j]).0@
                == k ==> r.amount_mismatches@[i].1.amount == -s.amount_mismatches@[j].1.amount,
        named(r.platform_only@, k) <==> named(s.provider_only@, k),
        named(r.provider_only@, k) <==> named(s.platform_only@, k),
{
    law_every_reference_is_listed_where_it_belongs(r, captured, settlements, k);
    law_every_reference_is_listed_where_it_belongs(s, settled, capturing, k);
    law_every_reference_is_counted_once(r, captured, settlements);
    law_every_reference_is_counted_once(s, settled, capturing);
    let p = captured_amounts(captured);
    let q = settled_amounts(settlements);
    assert(agreed(p, q) =~= agreed(q, p));
}

/// Of several rows with one reference the last counts, on either side, and a side has no
/// reference that no row of it has.
pub proof fn law_the_last_row_of_a_reference_counts(
    captured: Seq<CapturedAmount>,
    settlements: Seq<ProviderSettlement>,
    k: Seq<char>,
)
    ensures
        captured_amounts(captured).dom().contains(k) <==> exists|i: int|
            0 <= i < captured.len() && (#[trigger] captured[i]).provider_reference@ == k,
        settled_amounts(settlements).dom().contains(k) <==> exists|i: int|
            0 <= i < settlements.len() && (#[trigger] settlements[i]).provider_reference@ == k,
        forall|i: int|
            0 <= i < captured.len() && (#[trigger] captured[i]).provider_reference@ == k && (forall|
                j: int,
            |
                i < j < captured.len() ==> (#[trigger] captured[j]).provider_reference@ != k)
                ==> captured_amounts(captured)[k] == captured[i].amount,
        forall|i: int|
            0 <= i < settlements.len() && (#[trigger] settlements[i]).provider_reference@ == k && (
            forall|j: int|
                i < j < settlements.len() ==> (#[trigger] settlements[j]).provider_reference@ != k)
                ==> settled_amounts(settlements)[k] == settlements[i].amount.amount,
    decreases captured.len() + settlements.len(),
{
    if captured.len() > 0 {
        let rest = captured.drop_last();
        law_the_last_row_of_a_reference_counts(rest, settlements, k);
        assert forall|i: int| 0 <= i < rest.len() implies rest[i] == captured[i] by {}
        let last = captured.len() - 1;
        assert(captured[last] == captured.last());
        if exists|i: int| 0 <= i < rest.len() && (#[trigger] rest[i]).provider_reference@ == k {
            let i = choose|i: int| 0 <= i < rest.len() && (#[trigger] rest[i]).provider_reference@
                == k;
            assert(captured[i].provider_reference@ == k);
        }
        assert forall|i: int|
            0 <= i < captured.len() && (#[trigger] captured[i]).provider_reference@ == k && (forall|
                j: int,
            |
                i < j < captured.len() ==> (#[trigger] captured[j]).provider_reference@
                    != k) implies captured_amounts(captured)[k] == captured[i].amount by {
            if i < last {
                assert(captured[last].provider_reference@ != k);
                assert(rest[i].provider_reference@ == k);
            }
        }
        if captured_amounts(captured).dom().contains(k) && captured[last].provider_reference@ != k {
            let i = choose|i: int| 0 <= i < rest.len() && (#[trigger] rest[i]).provider_reference@
                == k;
            assert(captured[i].provider_reference@ == k);
        }
    } else if settlements.len() > 0 {
        let rest = settlements.drop_last();
        law_the_last_row_of_a_reference_counts(captured, rest, k);
        let last = settlements.len() - 1;
        assert(settlements[last] == settlements.last());
        if exists|i: int| 0 <= i < rest.len() && (#[trigger] rest[i]).provider_reference@ == k {
            let i = choose|i: int| 0 <= i < rest.len() && (#[trigger] rest[i]).provider_reference@
                == k;
            assert(settlements[i].provider_reference@ == k);
        }
        assert forall|i: int|
            0 <= i < settlements.len() && (#[trigger] settlements[i]).provider_reference@ == k && (
            forall|j: int|
                i < j < settlements.len() ==> (#[trigger] settlements[j]).provider_reference@
                    != k) implies settled_amounts(settlements)[k] == settlements[i].amount.amount by {
            if i < last {
                assert(settlements[last].provider_reference@ != k);
                assert(rest[i].provider_reference@ == k);
            }
        }
        assert forall|i: int| 0 <= i < rest.len() implies rest[i] == settlements[i] by {}
    }
}

} // verus!
