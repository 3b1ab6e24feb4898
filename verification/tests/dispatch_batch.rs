use link_guardian::classify::ProbeOutcome;
use link_guardian::dispatch::Dispatcher;
use link_guardian::status::{LinkStatus, VerifierConfig};

fn ok_outcome() -> ProbeOutcome {
    ProbeOutcome::Response { status: 200, location: None }
}

#[test]
fn bounded_concurrency_never_exceeds_limit() {
    let urls: Vec<String> = (0..200).map(|i| format!("https://example.com/{}", i)).collect();
    let mut d = Dispatcher::new(urls, 50);

    let mut outstanding: Vec<String> = Vec::new();
    let mut max_seen: usize = 0;
    while !d.is_done() {
        // start as many checks as the dispatcher allows
        while let Some(u) = d.dispatch() {
            outstanding.push(u);
            assert!(d.in_flight_count() <= 50);
            if d.in_flight_count() > max_seen {
                max_seen = d.in_flight_count();
            }
        }
        // finish one outstanding check, freeing a slot
        let u = outstanding.pop().expect("a check must be outstanding");
        assert!(d.complete(u.as_str(), ok_outcome()));
    }
    assert_eq!(max_seen, 50);
    assert_eq!(d.results.len(), 200);
}

#[test]
fn every_url_gets_exactly_one_result() {
    let urls = vec![
        "https://a.example/".to_string(),
        "https://b.example/".to_string(),
        "https://a.example/".to_string(), // a duplicate is checked twice
    ];
    let mut d = Dispatcher::new(urls.clone(), 2);

    let mut outstanding: Vec<String> = Vec::new();
    while !d.is_done() {
        while let Some(u) = d.dispatch() {
            outstanding.push(u);
        }
        let u = outstanding.remove(0);
        assert!(d.complete(u.as_str(), ok_outcome()));
    }
    assert_eq!(d.results.len(), 3);
    let mut result_urls: Vec<String> = d.results.iter().map(|r| r.url.clone()).collect();
    let mut expected = urls.clone();
    result_urls.sort();
    expected.sort();
    assert_eq!(result_urls, expected);
}

#[test]
fn default_config_bounds_the_batch_at_fifty() {
    let urls: Vec<String> = (0..60).map(|i| format!("https://example.com/{}", i)).collect();
    let mut d = Dispatcher::with_config(urls, &VerifierConfig::default());
    let mut handed: usize = 0;
    while d.dispatch().is_some() {
        handed += 1;
    }
    assert_eq!(handed, 50);
    assert_eq!(d.in_flight_count(), 50);
}

#[test]
fn completion_of_unknown_url_changes_nothing() {
    let urls = vec!["https://a.example/".to_string()];
    let mut d = Dispatcher::new(urls, 1);
    assert!(!d.complete("https://never-dispatched.example/", ok_outcome()));
    assert_eq!(d.results.len(), 0);
    assert_eq!(d.pending.len(), 1);
}

#[test]
fn results_carry_classified_statuses() {
    let urls = vec!["https://a.example/".to_string()];
    let mut d = Dispatcher::new(urls, 1);
    let u = d.dispatch().expect("one url is pending");
    assert!(d.dispatch().is_none()); // the single slot is taken
    assert!(d.complete(
        u.as_str(),
        ProbeOutcome::Response { status: 404, location: None },
    ));
    assert!(d.is_done());
    assert_eq!(d.results.len(), 1);
    assert!(matches!(d.results[0].status, LinkStatus::Broken));
    assert!(!d.results[0].is_ok());
}
