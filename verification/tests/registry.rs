use lnv2_core::errors::ApiError;
use lnv2_core::federation::Federation;
use lnv2_core::gateway::{Gateway, GuardianRegistry};
use lnv2_core::invoice::Invoice;

fn gw(addr: &str) -> Gateway {
    Gateway { addr: addr.to_string() }
}

fn addrs(gateways: &[Gateway]) -> Vec<String> {
    gateways.iter().map(|g| g.addr.clone()).collect()
}

#[test]
fn add_is_idempotent_per_guardian() {
    let mut reg = GuardianRegistry::new();
    assert!(reg.add(gw("https://gw-a.example")));
    assert!(reg.add(gw("https://gw-a.example")));
    assert_eq!(reg.list().len(), 1);
    assert_eq!(reg.list()[0].addr, "https://gw-a.example");
}

#[test]
fn remove_of_absent_gateway_succeeds() {
    let mut reg = GuardianRegistry::new();
    assert!(reg.add(gw("https://gw-a.example")));
    assert!(reg.remove(&"https://gw-b.example".to_string()));
    assert_eq!(reg.list().len(), 1);
    assert!(reg.remove(&"https://gw-a.example".to_string()));
    assert!(reg.remove(&"https://gw-a.example".to_string()));
    assert!(reg.list().is_empty());
}

#[test]
fn empty_address_is_rejected() {
    let mut reg = GuardianRegistry::new();
    assert!(!reg.add(gw("")));
    assert!(!reg.remove(&String::new()));
    assert!(reg.list().is_empty());
}

#[test]
fn registration_with_all_guardians_converges() {
    // A federation with t = 1 has 4 guardians; register two gateways with
    // every guardian, as a federation-wide registration does.
    let mut fed = Federation::new(1);
    assert_eq!(fed.num_guardians(), 4);
    let gateways = ["https://gw-lnd.example", "https://gw-ldk.example"];
    for gateway in &gateways {
        for peer in 0..fed.num_guardians() {
            assert!(fed.add_gateway(peer, gw(gateway)));
        }
    }

    let agreed = fed.list_gateways(None).expect("all guardians agree");
    assert_eq!(agreed.len(), 2);
    let listed = addrs(&agreed);
    assert!(listed.contains(&gateways[0].to_string()));
    assert!(listed.contains(&gateways[1].to_string()));

    let peer_view = fed.list_gateways(Some(0)).expect("single peer answers");
    assert_eq!(addrs(&peer_view), listed);

    // Remove the first gateway from every guardian; only the second stays.
    for peer in 0..fed.num_guardians() {
        assert!(fed.remove_gateway(peer, &gateways[0].to_string()));
    }
    let agreed = fed.list_gateways(None).expect("all guardians agree");
    assert_eq!(agreed.len(), 1);
    assert_eq!(agreed[0].addr, gateways[1]);

    for peer in 0..fed.num_guardians() {
        assert!(fed.remove_gateway(peer, &gateways[1].to_string()));
    }
    assert!(fed.list_gateways(None).expect("agreement on empty").is_empty());
    assert!(fed.list_gateways(Some(0)).expect("peer answers").is_empty());
}

#[test]
fn federation_wide_registration_reports_a_count() {
    let mut fed = Federation::new(1);
    assert_eq!(fed.register_with_all(&gw("https://gw-a.example")), 4);
    assert_eq!(fed.register_with_all(&gw("")), 0);
    assert_eq!(fed.list_gateways(None).map(|l| l.len()), Ok(1));
    assert_eq!(fed.remove_from_all(&"https://gw-a.example".to_string()), 4);
    assert_eq!(fed.remove_from_all(&String::new()), 0);
    assert_eq!(fed.list_gateways(None).map(|l| l.len()), Ok(0));
}

#[test]
fn partial_registration_reports_no_consensus() {
    let mut fed = Federation::new(1);
    // Register with only one guardian out of four: the other three still
    // form a quorum on the old, empty registry, so the agreed view does
    // not show the gateway yet.
    assert!(fed.add_gateway(0, gw("https://gw-a.example")));
    assert_eq!(fed.list_gateways(None).map(|l| l.len()), Ok(0));
    // Two against two: no set of three guardians agrees on anything.
    assert!(fed.add_gateway(1, gw("https://gw-a.example")));
    assert_eq!(fed.list_gateways(None).map(|l| l.len()), Err(ApiError::NoConsensus));
    // The third guardian completes the quorum even though the fourth
    // disagrees: the federation tolerates t = 1 divergent member.
    assert!(fed.add_gateway(2, gw("https://gw-a.example")));
    let agreed = fed.list_gateways(None).expect("quorum of three");
    assert_eq!(agreed.len(), 1);
    assert_eq!(agreed[0].addr, "https://gw-a.example");
}

#[test]
fn select_without_invoice_is_deterministic() {
    let mut fed = Federation::new(1);
    for gateway in ["https://gw-a.example", "https://gw-b.example"] {
        for peer in 0..fed.num_guardians() {
            assert!(fed.add_gateway(peer, gw(gateway)));
        }
    }
    let first = fed.select_gateway(None).expect("registry not empty");
    for _ in 0..10 {
        let again = fed.select_gateway(None).expect("registry not empty");
        assert_eq!(again.addr, first.addr);
    }
}

#[test]
fn select_with_invoice_prefers_the_issuer() {
    let mut fed = Federation::new(1);
    for gateway in ["https://gw-a.example", "https://gw-b.example"] {
        for peer in 0..fed.num_guardians() {
            assert!(fed.add_gateway(peer, gw(gateway)));
        }
    }
    for issuer in ["https://gw-a.example", "https://gw-b.example"] {
        let invoice = Invoice {
            amount: 1_000_000,
            payment_hash: vec![0u8; 32],
            expiry_secs: 86400,
            gateway_hint: issuer.to_string(),
        };
        let chosen = fed.select_gateway(Some(&invoice)).expect("registry not empty");
        assert_eq!(chosen.addr, issuer);
    }
}

#[test]
fn select_falls_back_when_the_issuer_left() {
    let mut fed = Federation::new(1);
    for gateway in ["https://gw-a.example", "https://gw-b.example"] {
        for peer in 0..fed.num_guardians() {
            assert!(fed.add_gateway(peer, gw(gateway)));
        }
    }
    let invoice = Invoice {
        amount: 5_000,
        payment_hash: vec![7u8; 32],
        expiry_secs: 86400,
        gateway_hint: "https://gw-gone.example".to_string(),
    };
    let chosen = fed.select_gateway(Some(&invoice)).expect("registry not empty");
    // The hinted gateway is not registered; selection falls back to the
    // deterministic no-invoice pick.
    let default_pick = fed.select_gateway(None).expect("registry not empty");
    assert_eq!(chosen.addr, default_pick.addr);
}

#[test]
fn select_on_empty_registry_fails() {
    let fed = Federation::new(1);
    assert_eq!(
        fed.select_gateway(None).map(|g| g.addr),
        Err(ApiError::NoGatewaysAvailable)
    );
}
