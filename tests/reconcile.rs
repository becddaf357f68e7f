use cloudflare_ddns::{
    DdnsApplicationService, DdnsConfig, DnsRecord, DnsUpdateResult, DomainError, IpType,
    StateStore, UpdatePlan, RECORD_TTL,
};

fn config(ip_type: IpType) -> DdnsConfig {
    DdnsConfig {
        api_token: "token".to_string(),
        zone_id: "zone1".to_string(),
        record_id: "rec1".to_string(),
        record_name: "home.example.com".to_string(),
        update_interval: 300,
        ip_type,
    }
}

fn written(record: DnsRecord, updated: bool) -> Result<DnsUpdateResult, DomainError> {
    Ok(DnsUpdateResult { record, updated })
}

#[test]
fn empty_store_writes_a_record() {
    let svc = DdnsApplicationService::new(config(IpType::IPv4), 0);
    let mut store = StateStore::new();
    let ip = "203.0.113.5".to_string();
    let plan = svc.plan_dns_update(&store, Ok(ip.clone()));
    let record = match plan {
        UpdatePlan::Write(rec) => rec,
        other => panic!("expected a write, got {:?}", other),
    };
    assert_eq!(record.record_type, "A");
    assert_eq!(record.content, "203.0.113.5");
    assert_eq!(record.name, "home.example.com");
    assert_eq!(record.id, Some("rec1".to_string()));
    assert_eq!(record.ttl, RECORD_TTL);
    assert!(!record.proxied);
    let result = svc.update_dns_record(&mut store, &ip, written(record, true), 1_700_000_000);
    assert!(result.unwrap().updated);
    let id = svc.config_id();
    assert_eq!(id, "zone1-rec1");
    assert_eq!(store.get_last_ip(&id), Some("203.0.113.5".to_string()));
    assert_eq!(store.get_last_update_time(&id), Some(1_700_000_000));
}

#[test]
fn stored_address_is_not_written_again() {
    let svc = DdnsApplicationService::new(config(IpType::IPv4), 0);
    let mut store = StateStore::new();
    store.set_last_ip(&"zone1-rec1".to_string(), &"203.0.113.5".to_string());
    let plan = svc.plan_dns_update(&store, Ok("203.0.113.5".to_string()));
    match plan {
        UpdatePlan::Unchanged(res) => {
            assert!(!res.updated);
            assert_eq!(res.record.content, "203.0.113.5");
            assert_eq!(res.record.record_type, "A");
        }
        other => panic!("expected no write, got {:?}", other),
    }
}

#[test]
fn suppression_repeats_while_address_is_unchanged() {
    let svc = DdnsApplicationService::new(config(IpType::IPv4), 0);
    let mut store = StateStore::new();
    store.set_last_ip(&"zone1-rec1".to_string(), &"198.51.100.7".to_string());
    for _ in 0..3 {
        match svc.plan_dns_update(&store, Ok("198.51.100.7".to_string())) {
            UpdatePlan::Unchanged(res) => {
                assert!(!res.updated);
                assert_eq!(res.record.content, "198.51.100.7");
            }
            other => panic!("expected no write, got {:?}", other),
        }
    }
    assert_eq!(
        store.get_last_ip(&"zone1-rec1".to_string()),
        Some("198.51.100.7".to_string())
    );
}

#[test]
fn first_pass_writes_even_when_another_record_holds_the_address() {
    let svc = DdnsApplicationService::new(config(IpType::IPv4), 0);
    let mut store = StateStore::new();
    store.set_last_ip(&"zone9-rec9".to_string(), &"203.0.113.5".to_string());
    let plan = svc.plan_dns_update(&store, Ok("203.0.113.5".to_string()));
    assert!(matches!(plan, UpdatePlan::Write(_)));
}

#[test]
fn changed_address_writes_aaaa_for_ipv6() {
    let svc = DdnsApplicationService::new(config(IpType::IPv6), 0);
    let mut store = StateStore::new();
    store.set_last_ip(&"zone1-rec1".to_string(), &"2001:db8::1".to_string());
    match svc.plan_dns_update(&store, Ok("2001:db8::2".to_string())) {
        UpdatePlan::Write(rec) => {
            assert_eq!(rec.record_type, "AAAA");
            assert_eq!(rec.content, "2001:db8::2");
        }
        other => panic!("expected a write, got {:?}", other),
    }
}

#[test]
fn address_comparison_is_case_sensitive() {
    let svc = DdnsApplicationService::new(config(IpType::IPv6), 0);
    let mut store = StateStore::new();
    store.set_last_ip(&"zone1-rec1".to_string(), &"2001:DB8::1".to_string());
    assert!(svc.is_ip_changed(&store, &"2001:db8::1".to_string()));
    assert!(!svc.is_ip_changed(&store, &"2001:DB8::1".to_string()));
}

#[test]
fn resolver_error_ends_the_pass() {
    let svc = DdnsApplicationService::new(config(IpType::IPv4), 0);
    let store = StateStore::new();
    let plan = svc.plan_dns_update(&store, Err(DomainError::Resolution("timeout".to_string())));
    match plan {
        UpdatePlan::Failed(DomainError::Resolution(m)) => assert_eq!(m, "timeout"),
        other => panic!("expected the resolver error, got {:?}", other),
    }
}

#[test]
fn unconfirmed_write_leaves_state_unchanged() {
    let svc = DdnsApplicationService::new(config(IpType::IPv4), 0);
    let mut store = StateStore::new();
    let id = "zone1-rec1".to_string();
    store.set_last_ip(&id, &"203.0.113.5".to_string());
    store.set_last_update_time(&id, 100);
    let ip = "203.0.113.9".to_string();
    let rec = match svc.plan_dns_update(&store, Ok(ip.clone())) {
        UpdatePlan::Write(rec) => rec,
        other => panic!("expected a write, got {:?}", other),
    };
    let r = svc.update_dns_record(&mut store, &ip, written(rec, false), 200);
    assert!(!r.unwrap().updated);
    assert_eq!(store.get_last_ip(&id), Some("203.0.113.5".to_string()));
    assert_eq!(store.get_last_update_time(&id), Some(100));
}

#[test]
fn provider_error_leaves_state_unchanged_and_propagates() {
    let svc = DdnsApplicationService::new(config(IpType::IPv4), 0);
    let mut store = StateStore::new();
    let ip = "203.0.113.9".to_string();
    let r = svc.update_dns_record(
        &mut store,
        &ip,
        Err(DomainError::Provider("rejected".to_string())),
        200,
    );
    assert!(matches!(r, Err(DomainError::Provider(_))));
    assert_eq!(store.get_last_ip(&"zone1-rec1".to_string()), None);
    assert_eq!(store.get_last_update_time(&"zone1-rec1".to_string()), None);
}

#[test]
fn force_update_reports_domain_and_content() {
    let svc = DdnsApplicationService::new(config(IpType::IPv4), 0);
    let store = StateStore::new();
    let res = match svc.plan_dns_update(&store, Ok("192.0.2.1".to_string())) {
        UpdatePlan::Write(rec) => DnsUpdateResult { record: rec, updated: true },
        other => panic!("expected a write, got {:?}", other),
    };
    let out = svc.force_update(Ok(res)).unwrap();
    assert_eq!(out, ("home.example.com".to_string(), "192.0.2.1".to_string()));
    let err = svc.force_update(Err(DomainError::State("disk".to_string())));
    assert!(matches!(err, Err(DomainError::State(_))));
}

#[test]
fn last_or_current_ip_prefers_the_stored_address() {
    let svc = DdnsApplicationService::new(config(IpType::IPv4), 0);
    let mut store = StateStore::new();
    assert_eq!(svc.get_last_or_current_ip(&store), None);
    store.set_last_ip(&"zone1-rec1".to_string(), &"192.0.2.4".to_string());
    assert_eq!(svc.get_last_or_current_ip(&store), Some("192.0.2.4".to_string()));
}

#[test]
fn service_keeps_its_config_and_generation() {
    let svc = DdnsApplicationService::new(config(IpType::IPv6), 7);
    assert_eq!(svc.generation(), 7);
    assert_eq!(svc.config().record_name, "home.example.com");
    assert_eq!(svc.config().ip_type, IpType::IPv6);
}
