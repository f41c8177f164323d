use balancebeam::health::{HealthPhase};
use balancebeam::state::ProxyState;

fn addresses(n: usize) -> Vec<String> {
    (0..n).map(|i| format!("10.0.0.{}:80", i)).collect()
}

#[test]
fn a_proxy_without_upstreams_has_no_state() {
    assert!(ProxyState::new(Vec::new(), 10, "/".to_string(), 0).is_none());
}

#[test]
fn a_new_state_has_every_upstream_alive_and_no_client() {
    let state = ProxyState::new(addresses(3), 10, "/".to_string(), 5).unwrap();
    assert_eq!(state.upstreams().len(), 3);
    for (i, upstream) in state.upstreams().iter().enumerate() {
        assert!(upstream.is_alive());
        assert_eq!(upstream.get_addr(), &format!("10.0.0.{}:80", i));
    }
    assert_eq!(state.rates().threshold(), 5);
    assert_eq!(state.rates().count(&"1.2.3.4".to_string()), None);
    assert!(state.limits_rates());
}

#[test]
fn a_threshold_of_zero_limits_nothing() {
    let state = ProxyState::new(addresses(1), 10, "/".to_string(), 0).unwrap();
    assert!(!state.limits_rates());
    assert!(!state.rates().is_enabled());
}

#[test]
fn into_parts_hands_out_the_configuration() {
    let state = ProxyState::new(addresses(2), 15, "/status".to_string(), 9).unwrap();
    let (upstreams, rates, checker) = state.into_parts();
    assert_eq!(upstreams.len(), 2);
    assert_eq!(upstreams[1].get_addr(), "10.0.0.1:80");
    assert_eq!(rates.threshold(), 9);
    assert_eq!(checker.interval(), 15);
    assert_eq!(checker.path(), "/status");
    assert_eq!(checker.phase(), HealthPhase::Sleeping);
}
