//! Releases of routes by hand: pausing, promoting and rolling back. Each is a
//! write that names the revision it replaces, not proof that every gateway has
//! taken it up.
use crate::control::error::{conflict, invalid, refused, Fault, ServiceError, ServiceResult};
use crate::control::repository::{put_policy_fault, put_route_policy};
use crate::domain::routing::{
    pools_sound, stable_rules, PutRoutePolicy, ReleaseAction, RoutePolicy, RoutePolicySpec,
    RoutePool,
};
use crate::domain::Project;
use vstd::prelude::*;

verus! {

#[derive(Clone, Copy, Debug)]
pub struct HistoryQuery {
    pub before: Option<i64>,
    pub limit: Option<u64>,
}

/// A recorded revision of a route.
pub struct RouteRevision {
    pub revision: i64,
    pub spec: RoutePolicySpec,
}

/// The limit of a page of the history, where the request is sound.
pub fn route_history(query: &HistoryQuery) -> (r: ServiceResult<u64>)
    ensures
        ({
            let limit: u64 = match query.limit {
                Some(n) => n,
                None => 20,
            };
            &&& refused(
                r,
                if !(1 <= limit <= 100) || (query.before matches Some(before) && before <= 0) {
                    Some(Fault::Invalid("invalid release history page"@))
                } else {
                    None
                },
            )
            &&& r matches Ok(n) ==> n == limit
        }),
{
    let limit: u64 = match query.limit {
        Some(n) => n,
        None => 20,
    };
    let before_fits = match query.before {
        Some(before) => before > 0,
        None => true,
    };
    if limit < 1 || limit > 100 || !before_fits {
        return Err(invalid("invalid release history page"));
    }
    Ok(limit)
}

/// Cuts fetched revisions down to a page. `rows` holds up to one row more than
/// the limit; the cursor of the next page is the last row that stays.
pub fn history_page(rows: &mut Vec<RouteRevision>, limit: u64) -> (r: Option<i64>)
    requires
        limit >= 1,
        old(rows)@.len() <= limit + 1,
    ensures
        final(rows)@ == if old(rows)@.len() > limit {
            old(rows)@.drop_last()
        } else {
            old(rows)@
        },
        r == if old(rows)@.len() > limit {
            Some(final(rows)@.last().revision)
        } else {
            None
        },
{
    if rows.len() as u64 > limit {
        let ghost before = rows@;
        let _ = rows.pop();
        assert(rows@ =~= before.drop_last());
        Some(rows[rows.len() - 1].revision)
    } else {
        None
    }
}

/// Why an action is refused before what it leads to is looked at.
pub open spec fn release_fault(
    current: Option<RouteRevision>,
    action: ReleaseAction,
    target: Option<RoutePolicySpec>,
) -> Option<Fault> {
    if current is None {
        Some(Fault::NotFound)
    } else if action.revision() <= 0 || action.revision() != current->0.revision {
        Some(Fault::Conflict("route policy revision changed"@))
    } else {
        match action {
            ReleaseAction::Pause { .. } => None,
            ReleaseAction::Promote { .. } => if current->0.spec.canary_pool is None {
                Some(Fault::Invalid("no canary pool to promote"@))
            } else {
                None
            },
            ReleaseAction::Rollback { expected_revision, target_revision } => if !(0
                < target_revision < expected_revision) {
                Some(Fault::Invalid("rollback requires an earlier recorded revision"@))
            } else if target is None {
                Some(Fault::NotFound)
            } else {
                None
            },
        }
    }
}

/// `next` is what the action makes of the policy.
pub open spec fn released(
    spec: RoutePolicySpec,
    action: ReleaseAction,
    target: Option<RoutePolicySpec>,
    next: RoutePolicySpec,
) -> bool {
    match action {
        ReleaseAction::Pause { .. } => {
            &&& next.stable_pool == spec.stable_pool
            &&& next.canary_pool == spec.canary_pool
            &&& next.canary_percent == 0
            &&& next.headers@ == stable_rules(spec.headers@)
        },
        ReleaseAction::Promote { .. } => {
            &&& spec.canary_pool == Some(next.stable_pool)
            &&& next.canary_pool is None
            &&& next.canary_percent == 0
            &&& next.headers@.len() == 0
        },
        ReleaseAction::Rollback { .. } => target == Some(next),
    }
}

/// The policy that an action leads to is written like any other.
pub open spec fn release_written(
    project: Project,
    model: Seq<char>,
    model_known: bool,
    expected: i64,
    pools: Seq<RoutePool>,
    next: RoutePolicySpec,
    r: ServiceResult<RoutePolicy>,
) -> bool {
    match r {
        Ok(p) => {
            &&& pools_sound(next, model, pools) && model_known && expected < i64::MAX
            &&& p.tenant_id == project.tenant_id
            &&& p.project_id == project.id
            &&& p.model@ == model
            &&& p.revision == expected + 1
            &&& p.spec == next
        },
        Err(e) => put_policy_fault(
            PutRoutePolicy { expected_revision: expected, spec: next },
            model,
            model_known,
            pools,
            Some(expected),
            e@,
        ),
    }
}

/// Pauses, promotes or rolls back the route of a project's model. The write is
/// fenced by the revision, also against a plain write at the same time.
/// `target` is the recorded revision that a rollback names.
pub fn release_action(
    project: &Project,
    model: &str,
    model_known: bool,
    action: &ReleaseAction,
    current: Option<RouteRevision>,
    target: Option<RoutePolicySpec>,
    pools: &[RoutePool],
) -> (r: ServiceResult<RoutePolicy>)
    ensures
        release_fault(current, *action, target) is Some ==> r is Err && Some(r->Err_0@)
            == release_fault(current, *action, target),
        release_fault(current, *action, target) is None ==> exists|next: RoutePolicySpec|
            #[trigger] released(current->0.spec, *action, target, next) && release_written(
                *project,
                model@,
                model_known,
                action.revision(),
                pools@,
                next,
                r,
            ),
{
    let expected = action.expected_revision();
    let current = match current {
        Some(current) => current,
        None => return Err(ServiceError::NotFound),
    };
    if expected <= 0 || expected != current.revision {
        return Err(conflict("route policy revision changed"));
    }
    let next = match action {
        ReleaseAction::Pause { .. } => current.spec.pause(),
        ReleaseAction::Promote { .. } => match current.spec.promote() {
            Ok(next) => next,
            Err(message) => return Err(ServiceError::Invalid(message)),
        },
        ReleaseAction::Rollback { target_revision, .. } => {
            if *target_revision <= 0 || *target_revision >= expected {
                return Err(invalid("rollback requires an earlier recorded revision"));
            }
            match target {
                Some(target) => target,
                None => return Err(ServiceError::NotFound),
            }
        },
    };
    assert(released(current.spec, *action, target, next));
    put_route_policy(
        project,
        model,
        model_known,
        PutRoutePolicy { expected_revision: expected, spec: next },
        pools,
        Some(expected),
    )
}

/// After a release was paused, no request reaches the canary pool by weight or
/// by a rule.
pub proof fn law_pausing_stops_the_canary(
    spec: RoutePolicySpec,
    expected_revision: i64,
    next: RoutePolicySpec,
)
    requires
        released(spec, ReleaseAction::Pause { expected_revision }, None, next),
    ensures
        next.canary_percent == 0,
        forall|i: int|
            0 <= i < next.headers@.len() ==> (#[trigger] next.headers@[i]).target
                == crate::domain::routing::RouteTarget::Stable,
{
    let keep = |h: crate::domain::routing::HeaderRoute|
        h.target == crate::domain::routing::RouteTarget::Stable;
    spec.headers@.filter_lemma(keep);
    assert forall|i: int| 0 <= i < next.headers@.len() implies (#[trigger] next.headers@[i]).target
        == crate::domain::routing::RouteTarget::Stable by {
        assert(keep(spec.headers@.filter(keep)[i]));
    }
}

/// A release starts from the revision that is current, and a rollback goes to an earlier one
/// that was recorded; a promotion needs a canary.
pub proof fn law_releases_start_from_the_current_revision(
    current: Option<RouteRevision>,
    action: ReleaseAction,
    target: Option<RoutePolicySpec>,
)
    requires
        release_fault(current, action, target) is None,
    ensures
        current is Some,
        match action {
            ReleaseAction::Pause { expected_revision } => expected_revision
                == current->0.revision && expected_revision > 0,
            ReleaseAction::Promote { expected_revision } => expected_revision
                == current->0.revision && expected_revision > 0 && current->0.spec.canary_pool
                is Some,
            ReleaseAction::Rollback { expected_revision, target_revision } => expected_revision
                == current->0.revision && 0 < target_revision < expected_revision && target is Some,
        },
{
}

/// A pause leaves the stable pool and the named canary as they are and sends nothing to the
/// canary; a promotion serves everything from what was the canary; a rollback restores the
/// earlier rules to the letter.
pub proof fn law_releases_do_what_they_say(
    spec: RoutePolicySpec,
    action: ReleaseAction,
    target: Option<RoutePolicySpec>,
    next: RoutePolicySpec,
)
    requires
        released(spec, action, target, next),
    ensures
        action is Pause ==> next.stable_pool == spec.stable_pool && next.canary_pool
            == spec.canary_pool && next.canary_percent == 0,
        action is Promote ==> Some(next.stable_pool) == spec.canary_pool && next.canary_pool is None
            && next.canary_percent == 0 && next.headers@.len() == 0,
        action is Rollback ==> target == Some(next),
{
}

/// A release that is written is one revision later, for the same model of the same project, and
/// only over pools that serve the model.
pub proof fn law_releases_are_new_revisions(
    project: Project,
    model: Seq<char>,
    expected: i64,
    pools: Seq<RoutePool>,
    next: RoutePolicySpec,
    r: ServiceResult<RoutePolicy>,
)
    requires
        release_written(project, model, true, expected, pools, next, r),
        0 < expected < i64::MAX,
    ensures
        r is Ok <==> pools_sound(next, model, pools),
        r is Ok ==> r->Ok_0.revision == expected + 1 && r->Ok_0.project_id == project.id
            && r->Ok_0.tenant_id == project.tenant_id && r->Ok_0.model@ == model && r->Ok_0.spec
            == next,
{
}

} // verus!
