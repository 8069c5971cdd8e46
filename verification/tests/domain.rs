use xscope::domain::catalog::{CatalogModel, CatalogSnapshot, ServingEndpoint};
use xscope::domain::routing::{
    HeaderRoute, ReleaseAction, RoutePolicySpec, RoutePool, RouteTarget,
};
use xscope::domain::traffic::{legacy_protocol, managed};
use xscope::domain::{
    ceil_minor_units, usage_cost_microunits, DomainError, Model, Money,
};

fn spec() -> RoutePolicySpec {
    RoutePolicySpec {
        stable_pool: "stable".into(),
        canary_pool: Some("canary".into()),
        canary_percent: 10,
        headers: vec![],
    }
}

#[test]
fn weights_and_header_precedence() {
    let mut policy = spec();
    assert_eq!(
        (0..100)
            .filter(|roll| policy.select(|_| false, *roll).0 == "canary")
            .count(),
        10
    );
    policy.canary_percent = 0;
    assert_eq!(policy.select(|_| false, 0).0, "stable");
    policy.canary_percent = 100;
    assert_eq!(policy.select(|_| false, 99).0, "canary");
    policy.headers.push(HeaderRoute {
        name: "x-route-cohort".into(),
        value: "stable".into(),
        target: RouteTarget::Stable,
    });
    assert_eq!(policy.select(|_| true, 0), ("stable", "header"));
}

#[test]
fn pause_removes_header_bypass_and_promote_is_a_new_stable() {
    let mut policy = spec();
    policy.headers.push(HeaderRoute {
        name: "x-route-cohort".into(),
        value: "test".into(),
        target: RouteTarget::Canary,
    });
    let paused = policy.pause();
    assert!(paused.validate().is_ok());
    assert!((0..100).all(|roll| paused.select(|_| true, roll).0 == "stable"));
    let promoted = policy.promote().ok();
    assert!(promoted.as_ref().is_some_and(|p| p.stable_pool == "canary"
        && p.canary_pool.is_none()
        && p.headers.is_empty()));
    assert!(promoted.is_some_and(|p| p.promote().is_err()));
}

#[test]
fn reject_invalid_or_unregistered_routes() {
    let mut policy = spec();
    assert!(policy.validate().is_ok());
    assert!(policy.validate_pools("model", &[]).is_err());
    policy.canary_pool = None;
    assert!(policy.validate().is_err());
    policy.canary_percent = 0;
    assert!(policy.validate().is_ok());
    for name in [
        "authorization",
        "x-envoy-cluster",
        "x-gateway-destination-endpoint",
        "x-route-",
        "x-route-\r\n",
    ] {
        policy.headers = vec![HeaderRoute {
            name: name.into(),
            value: "qa".into(),
            target: RouteTarget::Stable,
        }];
        assert!(policy.validate().is_err(), "{name}");
    }
}

#[test]
fn routes_say_what_is_wrong_with_them() {
    let mut policy = spec();
    policy.stable_pool = "  ".into();
    assert_eq!(
        policy.validate(),
        Err("stable_pool must be a registered pool ID".to_owned())
    );
    let mut policy = spec();
    policy.canary_pool = Some("stable".into());
    assert_eq!(
        policy.validate(),
        Err("canary_pool must be nonempty and distinct from stable_pool".to_owned())
    );
    let mut policy = spec();
    policy.canary_percent = 101;
    assert_eq!(
        policy.validate(),
        Err("canary_percent must be 0..100 and at most 16 header rules are allowed".to_owned())
    );
    let rule = HeaderRoute {
        name: "x-route-cohort".into(),
        value: "qa".into(),
        target: RouteTarget::Stable,
    };
    let mut policy = spec();
    policy.headers = vec![rule.clone(), rule];
    assert_eq!(policy.validate(), Err("duplicate header match".to_owned()));
    let pools = [RoutePool {
        id: "stable".into(),
        model: "model".into(),
        revision: "r1".into(),
    }];
    assert_eq!(
        spec().validate_pools("model", &pools),
        Err("pool canary is not registered for model model".to_owned())
    );
}

#[test]
fn rules_can_be_dropped_and_moved_about() {
    let rule = |value: &str, target| HeaderRoute {
        name: "x-route-cohort".into(),
        value: value.into(),
        target,
    };
    let mut policy = spec();
    policy.headers = vec![
        rule("a", RouteTarget::Canary),
        rule("b", RouteTarget::Stable),
        rule("c", RouteTarget::Canary),
    ];
    assert!(policy.validate().is_ok());
    policy.headers.reverse();
    assert!(policy.validate().is_ok());
    policy.headers.remove(1);
    assert!(policy.validate().is_ok());
    policy.headers.push(rule("c", RouteTarget::Stable));
    assert!(policy.validate().is_err());
    policy.headers.reverse();
    assert!(policy.validate().is_err());
}

#[test]
fn release_actions_name_themselves_and_their_revision() {
    let pause = ReleaseAction::Pause {
        expected_revision: 7,
    };
    assert_eq!((pause.name(), pause.expected_revision()), ("pause", 7));
    let promote = ReleaseAction::Promote {
        expected_revision: 8,
    };
    assert_eq!((promote.name(), promote.expected_revision()), ("promote", 8));
}

#[test]
fn reject_invalid_prices_and_duplicate_models() {
    let mut model = Model::default();
    assert!(model.validate().is_ok());
    model.output_per_million_tokens.amount = i64::MAX;
    assert!(model.validate().is_err());
    let entry = CatalogModel {
        revision: 1,
        enabled: true,
        default_pool: None,
        model: Model::default(),
    };
    assert!(
        CatalogSnapshot {
            models: vec![entry.clone(), entry],
            endpoints: vec![]
        }
        .validate()
        .is_err()
    );
}

#[test]
fn endpoints_need_an_address_with_a_port_and_a_name_for_tls() {
    let endpoint = ServingEndpoint {
        id: "pool-a".into(),
        model: "demo".into(),
        revision: "r1".into(),
        address: "serving.example:8443".into(),
        tls: true,
        server_name: "serving.example".into(),
    };
    assert!(endpoint.validate().is_ok());
    for address in ["serving.example", "serving.example:0", ":80", "a b:80", "h:65536"] {
        let broken = ServingEndpoint {
            address: address.into(),
            ..endpoint.clone()
        };
        assert!(broken.validate().is_err(), "{address}");
    }
    let unnamed = ServingEndpoint {
        server_name: String::new(),
        ..endpoint
    };
    assert!(unnamed.validate().is_err());
}

#[test]
fn usage_cost_is_precise_before_display_rounding() {
    let cost = usage_cost_microunits(&Model::default(), 7, 13).unwrap();
    assert_eq!(cost, 33_000);
    assert_eq!(ceil_minor_units(cost), 1);
}

#[test]
fn costs_refuse_what_they_cannot_hold() {
    let model = Model::default();
    assert_eq!(
        usage_cost_microunits(&model, -1, 0),
        Err(DomainError::NegativeTokens)
    );
    assert_eq!(
        usage_cost_microunits(&model, i64::MAX, i64::MAX),
        Err(DomainError::CostOverflow)
    );
    assert_eq!(usage_cost_microunits(&model, 0, 0), Ok(0));
    assert_eq!(ceil_minor_units(0), 0);
    assert_eq!(ceil_minor_units(1_000_000), 1);
    assert_eq!(ceil_minor_units(1_000_001), 2);
}

#[test]
fn money_and_names_of_the_platform() {
    let money = Money::cny(5);
    assert_eq!((money.currency.as_str(), money.amount), ("CNY", 5));
    assert!(managed("managed-a"));
    assert!(!managed("pool-managed-a"));
    assert_eq!(legacy_protocol(), 1);
}
