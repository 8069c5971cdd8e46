use sha2::Digest;
use xscope::agent::api::{
    authenticate, check_replicas, check_target, create, fence_update, into_response, is_traced,
    listing_order, manual_scale, namespace_or_default, removed, traced_outcome, with_namespace,
    AgentError, KubeError, Metadata,
};
use xscope::agent::cycle::{
    after_observation, after_observation_report, after_observations, after_poll, after_proof,
    after_proof_report, after_proofs, after_report, extend_response, lease_action, member_answer, next_delay,
    report_of, Fault, LeaseAction, Listed, Phase, Polled, Writer, MAX_RESPONSE_BYTES, MAX_TASKS,
};
use xscope::agent::pull::{
    apply, credential, fresh_holder, idle_answer, idle_question, observed_idle, provider_idle, query_url, validate_delivery, Action, Config, Existing,
    ItemCheck,
};
use xscope::domain::cluster::{canonical, ClusterDelivery, DeploymentSpec, DesiredDeployment};

fn config() -> Config {
    Config {
        prometheus_url: None,
        cluster_id: "cluster-a".into(),
        namespace: "serving".into(),
        control_url: "https://control.example".into(),
        credential_file: "/var/run/credential".into(),
        allow_local_http: false,
    }
}

#[test]
fn members_ask_for_the_lease_under_names_of_their_own() {
    let holder = fresh_holder();
    assert!(holder.starts_with("member-") && holder.len() == 43);
    assert_ne!(holder, fresh_holder());
}

fn item(name: &str) -> DesiredDeployment {
    DesiredDeployment {
        name: name.into(),
        spec: Some(DeploymentSpec {
            value: serde_json::from_str(r#"{"replicas":1}"#).unwrap(),
        }),
        delete_uid: None,
        expected_uid: None,
    }
}

fn delivery(version: i64) -> ClusterDelivery {
    ClusterDelivery {
        cluster_id: "cluster-a".into(),
        namespace: "serving".into(),
        version,
        sha256: "4f53cda18c2baa0c0354bb5f9a3ecbe5ed12ab4d8e11ba873c2f11161202b945".into(),
        lease: "0190b6a4-0000-7000-8000-000000000000".into(),
        lease_seconds: 60,
        deployments: vec![],
    }
}

fn checked(allow_local_http: bool, control_url: &str) -> Result<Config, String> {
    Config::check(
        100,
        Some(Config {
            control_url: control_url.into(),
            allow_local_http,
            ..config()
        }),
        Ok(()),
        Ok(()),
    )
}

#[test]
fn the_control_plane_is_reached_over_tls() {
    assert!(checked(false, "https://control.example").is_ok());
    assert!(checked(false, "http://control.example").is_err());
    assert!(checked(true, "http://control.example").is_err());
    assert!(checked(true, "http://127.0.0.1:8080").is_ok());
    assert!(checked(false, "https://user:pw@control.example").is_err());
    assert!(checked(false, "https://control.example/?a=b").is_err());
    assert!(checked(false, "https://control.example/#top").is_err());
    assert!(checked(false, "not a url").is_err());
    assert!(Config::check(100, None, Ok(()), Ok(())).is_err());
    let c = checked(false, "https://control.example/").unwrap();
    assert_eq!(
        c.base_url(),
        "https://control.example/internal/v1/clusters/cluster-a"
    );
}

#[test]
fn credentials_are_one_token() {
    assert!(credential(None).is_err());
    assert!(credential(Some("")).is_err());
    assert!(credential(Some("short")).is_err());
    let token = "a".repeat(43);
    assert_eq!(credential(Some(&format!("{token}\n"))).unwrap(), token);
}

#[test]
fn deliveries_match_their_digest() {
    let d = delivery(1);
    assert!(validate_delivery(&config(), &d, &vec![]).is_ok());
    let other = ClusterDelivery {
        cluster_id: "cluster-b".into(),
        ..delivery(1)
    };
    assert!(validate_delivery(&config(), &other, &vec![]).is_err());
    let checks = |name_valid, spec_valid| {
        vec![ItemCheck {
            name_valid,
            spec_valid,
        }]
    };
    let mut one = delivery(1);
    one.deployments = vec![item("a")];
    assert_eq!(validate_delivery(&config(), &one, &checks(true, true)), Err("invalid_spec"));
    one.sha256 = digest_of(r#"[{"delete_uid":null,"name":"a","spec":{"replicas":1}}]"#);
    assert!(validate_delivery(&config(), &one, &checks(true, true)).is_ok());
    assert!(validate_delivery(&config(), &one, &checks(false, true)).is_err());
    assert!(validate_delivery(&config(), &one, &checks(true, false)).is_err());
}

#[test]
fn deployments_have_one_encoding() {
    let deletion = DesiredDeployment {
        spec: None,
        delete_uid: Some("u".into()),
        ..item("b")
    };
    let bound = DesiredDeployment {
        expected_uid: Some("e".into()),
        ..item("a")
    };
    assert_eq!(
        String::from_utf8(canonical(&vec![bound, deletion]).unwrap()).unwrap(),
        [
            r#"[{"delete_uid":null,"expected_uid":"e","name":"a","spec":{"replicas":1}},"#,
            r#"{"delete_uid":"u","name":"b","spec":null}]"#,
        ]
        .concat()
    );
    assert_eq!(canonical(&vec![]).unwrap(), b"[]");
}

fn digest_of(text: &str) -> String {
    format!("{:x}", sha2::Sha256::digest(text.as_bytes()))
}

#[test]
fn providers_are_asked_only_where_it_is_wanted() {
    let provider = Config {
        prometheus_url: Some("http://provider/".into()),
        ..config()
    };
    let none = Config {
        prometheus_url: None,
        ..config()
    };
    assert!(idle_question(&provider, None).is_none());
    assert!(idle_question(&none, Some(5)).is_none());
    let question = idle_question(&provider, Some(5));
    let asked = question.as_ref().unwrap();
    assert_eq!((asked.url.as_str(), asked.after), ("http://provider/api/v1/query", 5));
    let idle =
        br#"{"status":"success","data":{"resultType":"vector","result":[{"value":[1,"0"]}]}}"#
            .to_vec();
    let busy = br#"{"status":"error"}"#.to_vec();
    assert!(observed_idle(&question, false, Some(&idle)));
    assert!(!observed_idle(&question, true, Some(&busy)));
    assert!(!observed_idle(&question, true, Some(&b"nothing".to_vec())));
    assert!(!observed_idle(&question, true, None));
    assert!(observed_idle(&None, true, None));
    assert!(!observed_idle(&None, false, Some(&idle)));
}

fn existing(owner: Option<&str>, version: &str) -> Existing {
    Existing {
        uid: Some("uid-1".into()),
        resource_version: Some("7".into()),
        owner: owner.map(Into::into),
        version: Some(version.into()),
        digest: Some(delivery(1).sha256),
    }
}

#[test]
fn objects_of_others_are_left_alone() {
    let foreign = Some(existing(None, "1"));
    assert!(apply(&config(), &delivery(2), &item("a"), &foreign).is_err());
    let foreign = Some(existing(Some("cluster-b"), "1"));
    assert!(apply(&config(), &delivery(2), &item("a"), &foreign).is_err());
}

#[test]
fn later_deliveries_win_and_can_be_repeated() {
    let made = apply(&config(), &delivery(1), &item("a"), &None).unwrap();
    assert!(matches!(
        made,
        Action::Create { owner, version, digest }
            if owner == "cluster-a" && version == "1" && digest == delivery(1).sha256
    ));
    let own = Some(existing(Some("cluster-a"), "1"));
    assert!(matches!(
        apply(&config(), &delivery(2), &item("a"), &own),
        Ok(Action::Replace { version, .. }) if version == "2"
    ));
    assert!(matches!(
        apply(&config(), &delivery(1), &item("a"), &own),
        Ok(Action::Replace { .. })
    ));
    let newer = Some(existing(Some("cluster-a"), "3"));
    assert!(apply(&config(), &delivery(2), &item("a"), &newer).is_err());
}

#[test]
fn deletions_are_bound_to_an_identity() {
    let gone = DesiredDeployment {
        spec: None,
        delete_uid: Some("uid-1".into()),
        ..item("a")
    };
    let own = Some(existing(Some("cluster-a"), "1"));
    assert!(matches!(
        apply(&config(), &delivery(2), &gone, &own),
        Ok(Action::Delete { uid, .. }) if uid.as_deref() == Some("uid-1")
    ));
    let wrong = DesiredDeployment {
        delete_uid: Some("uid-2".into()),
        ..gone.clone()
    };
    assert!(apply(&config(), &delivery(2), &wrong, &own).is_err());
    assert!(matches!(
        apply(&config(), &delivery(2), &gone, &None),
        Ok(Action::Nothing)
    ));
}

#[test]
fn a_provider_is_idle_only_at_zero() {
    let idle = |json: &str| provider_idle(&serde_json::from_str(json).unwrap());
    let answer = |value: &str| {
        format!(
            r#"{{"status":"success","data":{{"resultType":"vector","result":[{{"metric":{{}},"value":[1,{value}]}}]}}}}"#
        )
    };
    assert!(idle(&answer("\"0\"")));
    assert!(!idle(&answer("\"1\"")));
    assert!(!idle(&answer("0")));
    assert!(!idle(r#"{"status":"success","data":{"resultType":"vector","result":[]}}"#));
    assert!(!idle(r#"{"status":"error"}"#));
    assert!(idle_answer(answer("\"0\"").as_bytes()));
    assert!(!idle_answer(answer("\"1\"").as_bytes()));
    assert!(!idle_answer(b"{"));
    let read = member_answer(br#"{"tasks":[1]}"#).unwrap();
    assert_eq!(read["tasks"][0], 1);
    assert!(matches!(member_answer(b"{"), Err(Fault::Unreadable)));
    assert_eq!(query_url("http://prom:9090//"), "http://prom:9090/api/v1/query");
}

#[test]
fn a_cycle_runs_from_poll_to_proofs() {
    assert_eq!(after_poll(Ok(Polled::Delivery)), Ok(Phase::Apply));
    assert_eq!(after_poll(Ok(Polled::Nothing)), Ok(Phase::Observations));
    assert!(after_poll(Ok(Polled::Malformed)).is_err());
    assert!(after_poll(Err(Fault::Rejected)).is_err());
    assert_eq!(after_report(Ok(())), Ok(Phase::Observations));
    assert_eq!(after_observations(Ok(Listed::NotFound)), Ok(Phase::Finished));
    assert_eq!(
        after_observations(Ok(Listed::Tasks(2))),
        Ok(Phase::Observe { task: 0, tasks: 2 })
    );
    assert!(after_observations(Ok(Listed::Tasks(MAX_TASKS + 1))).is_err());
    assert_eq!(
        after_observation(0, 2, true),
        Ok(Phase::ReportObservation { task: 0, tasks: 2 })
    );
    assert_eq!(
        after_observation_report(0, 2, Ok(())),
        Ok(Phase::Observe { task: 1, tasks: 2 })
    );
    assert_eq!(after_observation_report(1, 2, Ok(())), Ok(Phase::Proofs));
    assert_eq!(
        after_proofs(Ok(Listed::Tasks(1))),
        Ok(Phase::Prove { task: 0, tasks: 1 })
    );
    assert_eq!(
        after_proof(0, 1, true),
        Ok(Phase::ReportProof { task: 0, tasks: 1 })
    );
    assert_eq!(after_proof_report(0, 1, Ok(())), Ok(Phase::Finished));
}

#[test]
fn delays_double_up_to_a_minute() {
    assert_eq!(next_delay(60, true), 15);
    assert_eq!(next_delay(15, false), 30);
    let mut delay = 15;
    for _ in 0..10 {
        delay = next_delay(delay, false);
    }
    assert_eq!(delay, 60);
    assert_eq!(lease_action(true, Writer::Absent), LeaseAction::Start);
    assert_eq!(lease_action(true, Writer::Running), LeaseAction::Keep);
    assert_eq!(lease_action(false, Writer::Running), LeaseAction::Stop);
}

#[test]
fn responses_are_bounded() {
    let mut bytes = vec![0; MAX_RESPONSE_BYTES - 1];
    assert_eq!(extend_response(&mut bytes, b"a"), Ok(()));
    assert_eq!(extend_response(&mut bytes, b"a"), Err(Fault::Oversized));
    assert_eq!(bytes.len(), MAX_RESPONSE_BYTES);
}

#[test]
fn reports_name_what_went_wrong() {
    let d = delivery(4);
    let done = report_of(&d, Some(Ok(())));
    assert_eq!((done.version, done.outcome.as_str()), (4, "applied"));
    assert_eq!(done.lease, d.lease);
    assert!(done.error_code.is_none());
    let failed = report_of(&d, Some(Err("foreign_object")));
    assert_eq!(failed.outcome, "rejected");
    assert_eq!(failed.error_code.as_deref(), Some("foreign_object"));
    let late = report_of(&d, None);
    assert_eq!(late.outcome, "rejected");
    assert!(late.error_code.is_some());
}

#[test]
fn callers_show_the_token() {
    assert!(authenticate("secret-token", Some(b"Bearer secret-token")).is_ok());
    assert_eq!(authenticate("secret-token", Some(b"Bearer other")).unwrap_err().status, 401);
    assert_eq!(authenticate("secret-token", None).unwrap_err().status, 401);
    assert!(!is_traced("/healthz"));
    assert!(is_traced("/v1/deployments"));
    assert_eq!(traced_outcome(200), "succeeded");
    assert_eq!(traced_outcome(404), "rejected");
    assert_eq!(traced_outcome(500), "provider_error");
}

#[test]
fn failures_have_a_status_and_a_code() {
    let reply = into_response(AgentError::Invalid("x".into()));
    assert_eq!(reply.status, 400);
    let reply = into_response(AgentError::Conflict("x".into()));
    assert_eq!(reply.status, 409);
    let reply = into_response(AgentError::Kube(KubeError::Api {
        code: 404,
        message: "missing".into(),
    }));
    assert_eq!(reply.status, 404);
    assert_ne!(into_response(AgentError::Kube(KubeError::Unreachable)).status, 200);
}

#[test]
fn listings_are_newest_first() {
    assert_eq!(listing_order(&vec![Some(1), None, Some(3), Some(2)]), vec![2, 3, 0, 1]);
}

#[test]
fn objects_are_created_bare() {
    let bare = Metadata {
        namespace: None,
        uid: None,
        resource_version: None,
        has_owners: false,
        has_managed_fields: false,
        has_status: false,
    };
    assert_eq!(namespace_or_default(None), "xscope-system");
    assert_eq!(namespace_or_default(Some("a".into())), "a");
    assert_eq!(with_namespace(bare.clone()).namespace.as_deref(), Some("xscope-system"));
    let made = create(
        Metadata {
            namespace: Some("serving".into()),
            uid: Some("u".into()),
            has_status: true,
            ..bare.clone()
        },
        Ok(()),
    )
    .unwrap();
    assert!(made.uid.is_none() && !made.has_status);
    assert!(create(bare, Err(AgentError::Invalid("bad".into()))).is_err());
}

#[test]
fn updates_are_fenced() {
    assert!(fence_update("7", &Some("7".into())).is_ok());
    assert!(matches!(
        fence_update("6", &Some("7".into())),
        Err(AgentError::Conflict(_))
    ));
    assert!(check_target(true, Ok(()), Ok(())).is_ok());
    assert!(check_target(true, Err("bad".into()), Ok(())).is_err());
    assert!(check_target(false, Ok(()), Ok(())).is_err());
    assert!(check_replicas(0).is_ok());
    assert!(check_replicas(-1).is_err());
    assert!(manual_scale(false).is_ok());
    assert!(manual_scale(true).is_err());
    assert!(removed(Ok(())).is_ok());
}
