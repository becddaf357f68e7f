use cloudflare_ddns::{
    resolve_scope, submit, Command, DdnsConfig, DeliveryMode, Dispatch, DomainError, IpType,
    ServiceFactory, UpdateResponse, UpdateScope, UpdateSpecificRequest,
};

fn config(zone: &str, record: &str, name: &str) -> DdnsConfig {
    DdnsConfig {
        api_token: "token".to_string(),
        zone_id: zone.to_string(),
        record_id: record.to_string(),
        record_name: name.to_string(),
        update_interval: 60,
        ip_type: IpType::IPv4,
    }
}

fn running(configs: &[DdnsConfig]) -> ServiceFactory {
    let mut reg = ServiceFactory::new();
    for c in configs {
        reg.create_ddns_service(c.clone());
    }
    reg
}

#[test]
fn unknown_domain_is_not_found() {
    let configs = vec![config("z1", "r1", "a.example.com")];
    let mut reg = running(&configs);
    let before = reg.list_ddns_services();
    let cmd = Command::ForceUpdate(UpdateScope::ByDomainName("home.example.com".to_string()));
    let r = submit(&mut reg, &configs, &cmd);
    assert!(matches!(r, Err(DomainError::NotFound(_))));
    assert_eq!(reg.list_ddns_services(), before);
    let resp = UpdateResponse::not_found(Some("home.example.com".to_string()));
    assert!(!resp.success);
    assert!(!resp.updated);
}

#[test]
fn domain_scope_picks_first_running_match() {
    let configs = vec![
        config("z1", "r1", "a.example.com"),
        config("z2", "r2", "b.example.com"),
        config("z3", "r3", "b.example.com"),
    ];
    let reg = running(&configs[..1]);
    let r = resolve_scope(&reg, &configs, &UpdateScope::ByDomainName("b.example.com".to_string()));
    assert!(matches!(r, Err(DomainError::NotFound(_))));
    let reg = running(&configs[1..]);
    let r = resolve_scope(&reg, &configs, &UpdateScope::ByDomainName("b.example.com".to_string()));
    assert_eq!(r.unwrap(), vec!["z2-r2".to_string()]);
}

#[test]
fn record_id_scope_matches_record_id() {
    let configs = vec![
        config("z1", "r1", "a.example.com"),
        config("z2", "r2", "b.example.com"),
    ];
    let reg = running(&configs);
    let r = resolve_scope(&reg, &configs, &UpdateScope::ByRecordId("r2".to_string()));
    assert_eq!(r.unwrap(), vec!["z2-r2".to_string()]);
    let r = resolve_scope(&reg, &configs, &UpdateScope::ByRecordId("r9".to_string()));
    assert!(matches!(r, Err(DomainError::NotFound(_))));
}

#[test]
fn all_scope_lists_running_records_in_order() {
    let configs = vec![
        config("z1", "r1", "a.example.com"),
        config("z2", "r2", "b.example.com"),
        config("z3", "r3", "c.example.com"),
    ];
    let reg = running(&[configs[2].clone(), configs[0].clone()]);
    let r = resolve_scope(&reg, &configs, &UpdateScope::All).unwrap();
    assert_eq!(r, vec!["z1-r1".to_string(), "z3-r3".to_string()]);
    let empty = ServiceFactory::new();
    assert_eq!(resolve_scope(&empty, &configs, &UpdateScope::All).unwrap(), Vec::<String>::new());
}

#[test]
fn submit_restart_rebuilds_services() {
    let configs = vec![config("z1", "r1", "a.example.com")];
    let mut reg = running(&configs);
    let g = reg.list_ddns_services()[0].1;
    match submit(&mut reg, &configs, &Command::RestartAll).unwrap() {
        Dispatch::Restarted(retired) => assert_eq!(retired, vec![g]),
        other => panic!("expected a restart, got {:?}", other),
    }
    assert_ne!(reg.list_ddns_services()[0].1, g);
}

#[test]
fn submit_force_update_all() {
    let configs = vec![config("z1", "r1", "a.example.com")];
    let mut reg = running(&configs);
    match submit(&mut reg, &configs, &Command::ForceUpdate(UpdateScope::All)).unwrap() {
        Dispatch::RunPasses(ids) => assert_eq!(ids, vec!["z1-r1".to_string()]),
        other => panic!("expected passes, got {:?}", other),
    }
}

#[test]
fn request_scope_and_mode() {
    let req = UpdateSpecificRequest {
        domain: Some("a.example.com".to_string()),
        record_id: Some("r1".to_string()),
        wait_for_result: Some(true),
    };
    assert!(matches!(req.scope(), UpdateScope::ByDomainName(d) if d == "a.example.com"));
    assert_eq!(req.mode(), DeliveryMode::Synchronous);
    let req = UpdateSpecificRequest { domain: None, record_id: Some("r1".to_string()), wait_for_result: None };
    assert!(matches!(req.scope(), UpdateScope::ByRecordId(r) if r == "r1"));
    assert_eq!(req.mode(), DeliveryMode::FireAndForget);
    let req = UpdateSpecificRequest { domain: None, record_id: None, wait_for_result: Some(false) };
    assert!(matches!(req.scope(), UpdateScope::All));
    assert_eq!(req.mode(), DeliveryMode::FireAndForget);
}

#[test]
fn responses_for_force_updates() {
    let ok = UpdateResponse::from_force_update(
        "a.example.com".to_string(),
        Ok(("a.example.com".to_string(), "192.0.2.1".to_string())),
    );
    assert!(ok.success && ok.updated);
    assert_eq!(ok.ip_address, Some("192.0.2.1".to_string()));
    assert_eq!(ok.domain, Some("a.example.com".to_string()));
    let err = UpdateResponse::from_force_update(
        "a.example.com".to_string(),
        Err(DomainError::Provider("rejected".to_string())),
    );
    assert!(!err.success && !err.updated);
    assert_eq!(err.message, "rejected");
    let acc = UpdateResponse::accepted(Some("a.example.com".to_string()), None);
    assert!(acc.success && !acc.updated);
    let rs = UpdateResponse::restart_requested();
    assert!(rs.success && !rs.updated);
}

#[test]
fn responses_for_all_records() {
    let none = UpdateResponse::from_all(&vec![]);
    assert!(none.success && !none.updated);
    let good = UpdateResponse::from_all(&vec![Ok(("a".to_string(), "1".to_string()))]);
    assert!(good.success && good.updated);
    let mixed = UpdateResponse::from_all(&vec![
        Ok(("a".to_string(), "1".to_string())),
        Err(DomainError::Resolution("down".to_string())),
    ]);
    assert!(!mixed.success && !mixed.updated);
}
