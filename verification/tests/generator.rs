use proxyrs::filter::ProxyFilter;
use proxyrs::provider::{ListError, ListStep, Provider};
use proxyrs::providers::proxyscrape::ProxyScrape;
use proxyrs::proxy::{Proxy, ProxyMetadata, ProxyType};
use proxyrs::proxy_generator::{
    harvest_pause, select, Job, WorkerStep, BATCH_LIMIT, JOB_QUEUE_CAPACITY, OUTPUT_CAPACITY,
};
use proxyrs::time::Span;
use proxyrs::ProxyGenerator;

fn candidate(addr: &str, kind: ProxyType, country: &str) -> ProxyMetadata {
    ProxyMetadata { addr: addr.to_string(), kind, country: country.to_string() }
}

fn numbered(count: usize) -> Vec<ProxyMetadata> {
    (0..count).map(|i| candidate(&format!("1.2.3.{}:80", i), ProxyType::Http, "US")).collect()
}

fn addresses(jobs: &[Job]) -> Vec<String> {
    jobs.iter().map(|j| j.metadata.addr.clone()).collect()
}

#[test]
fn limits_are_as_documented() {
    assert_eq!(JOB_QUEUE_CAPACITY, 100);
    assert_eq!(OUTPUT_CAPACITY, 100);
    assert_eq!(BATCH_LIMIT, 10);
    assert_eq!(harvest_pause(), Span::from_secs(1));
}

#[test]
fn one_candidate_is_verified_and_delivered() {
    let mut engine = ProxyGenerator::new();
    assert_eq!(engine.upstream(), "");
    let batch = vec![candidate("1.2.3.4:80", ProxyType::Http, "US")];
    let mut jobs = engine.harvest("source", Ok(batch));
    assert_eq!(jobs.len(), 1);
    let job = jobs.pop().unwrap();
    assert_eq!(job.provider, "source");
    assert_eq!(job.metadata.addr, "1.2.3.4:80");
    assert_eq!(engine.lookup("1.2.3.4:80", Span::zero()), WorkerStep::Verify);
    let latency = Span::from_millis(100);
    engine.record("1.2.3.4:80".to_string(), Some(latency), Span::zero());
    let proxy = engine.qualify(job, latency).unwrap();
    assert_eq!(proxy.addr, "1.2.3.4:80");
    assert_eq!(proxy.kind, ProxyType::Http);
    assert_eq!(proxy.country, "US");
    assert_eq!(proxy.provider, "source");
    assert_eq!(proxy.latency, Span::from_millis(100));
    let handed = engine.get(Some(proxy)).unwrap();
    assert_eq!(handed.addr, "1.2.3.4:80");
    assert_eq!(handed.latency, Span::from_millis(100));
    assert_eq!(engine.upstream(), "1.2.3.4:80");
    assert!(engine.get(None).is_none());
    assert_eq!(engine.upstream(), "1.2.3.4:80");
}

#[test]
fn type_filter_drops_candidates_before_verification() {
    let mut engine = ProxyGenerator::new();
    engine.set_filter(ProxyFilter::new().with_proxy_types(vec![ProxyType::Https]));
    let jobs = engine.harvest("source", Ok(vec![candidate("1.2.3.4:80", ProxyType::Http, "US")]));
    assert!(jobs.is_empty());
    let jobs = engine.harvest(
        "source",
        Ok(vec![
            candidate("1.2.3.4:80", ProxyType::Http, "US"),
            candidate("5.6.7.8:80", ProxyType::Https, "US"),
        ]),
    );
    assert_eq!(addresses(&jobs), vec!["5.6.7.8:80"]);
}

#[test]
fn slow_proxies_are_dropped_after_verification() {
    let mut engine = ProxyGenerator::new();
    engine.set_filter(ProxyFilter::new().with_max_latency(Span::from_secs(2)));
    let mut jobs = engine.harvest("source", Ok(vec![candidate("1.2.3.4:80", ProxyType::Http, "US")]));
    assert_eq!(jobs.len(), 1);
    assert!(engine.qualify(jobs.pop().unwrap(), Span::from_millis(3000)).is_none());
    let mut jobs = engine.harvest("source", Ok(vec![candidate("1.2.3.4:80", ProxyType::Http, "US")]));
    assert!(engine.qualify(jobs.pop().unwrap(), Span::from_millis(2000)).is_some());
}

#[test]
fn repeated_address_is_verified_once() {
    let mut engine = ProxyGenerator::new();
    let batch: Vec<ProxyMetadata> =
        (0..50).map(|_| candidate("1.2.3.4:80", ProxyType::Http, "US")).collect();
    let jobs = engine.harvest("source", Ok(batch));
    assert_eq!(jobs.len(), 10);
    let mut verifications = 0;
    let mut delivered = 0;
    let mut now = Span::zero();
    for job in jobs {
        let latency = match engine.lookup(&job.metadata.addr, now) {
            WorkerStep::Verify => {
                verifications += 1;
                let found = Some(Span::from_millis(10));
                engine.record(job.metadata.addr.clone(), found, now);
                found
            }
            WorkerStep::Use(latency) => Some(latency),
            WorkerStep::Skip => None,
        };
        if let Some(latency) = latency {
            assert_eq!(latency, Span::from_millis(10));
            if engine.qualify(job, latency).is_some() {
                delivered += 1;
            }
        }
        now = Span::from_secs(now.as_nanos() as u64 / 1_000_000_000 + 60);
    }
    assert_eq!(verifications, 1);
    assert_eq!(delivered, 10);
}

#[test]
fn failed_verification_is_remembered_too() {
    let mut engine = ProxyGenerator::new();
    engine.record("1.2.3.4:80".to_string(), None, Span::from_secs(5));
    assert_eq!(engine.lookup("1.2.3.4:80", Span::from_secs(5)), WorkerStep::Skip);
    assert_eq!(engine.lookup("1.2.3.4:80", Span::from_secs(1204)), WorkerStep::Skip);
    assert_eq!(engine.lookup("1.2.3.4:80", Span::from_secs(1205)), WorkerStep::Verify);
    assert_eq!(engine.lookup("5.6.7.8:80", Span::from_secs(5)), WorkerStep::Verify);
}

#[test]
fn failed_listing_queues_nothing_and_forgets_the_upstream() {
    let mut engine = ProxyGenerator::new();
    let proxy = Proxy {
        addr: "9.9.9.9:80".to_string(),
        kind: ProxyType::Http,
        country: "US".to_string(),
        provider: "source".to_string(),
        latency: Span::from_millis(10),
    };
    engine.get(Some(proxy.clone()));
    assert_eq!(engine.upstream(), "9.9.9.9:80");
    assert!(engine.harvest("source", Err(ListError::Transport)).is_empty());
    assert_eq!(engine.upstream(), "");
    engine.get(Some(proxy.clone()));
    assert!(engine.harvest("source", Err(ListError::IpNotFound)).is_empty());
    assert_eq!(engine.upstream(), "");
    let jobs = engine.harvest("source", Ok(vec![candidate("1.2.3.4:80", ProxyType::Http, "US")]));
    assert_eq!(addresses(&jobs), vec!["1.2.3.4:80"]);
}

#[test]
fn good_listing_keeps_the_upstream() {
    let mut engine = ProxyGenerator::new();
    let proxy = Proxy {
        addr: "9.9.9.9:80".to_string(),
        kind: ProxyType::Http,
        country: "US".to_string(),
        provider: "source".to_string(),
        latency: Span::from_millis(10),
    };
    engine.get(Some(proxy.clone()));
    engine.harvest("source", Ok(Vec::new()));
    assert_eq!(engine.upstream(), "9.9.9.9:80");
}

#[test]
fn harvest_cuts_the_batch_to_ten() {
    let mut engine = ProxyGenerator::new();
    for count in [0usize, 1, 9, 10, 11, 25, 100] {
        let jobs = engine.harvest("source", Ok(numbered(count)));
        assert_eq!(jobs.len(), count.min(10));
        let mut seen = addresses(&jobs);
        seen.sort();
        seen.dedup();
        assert_eq!(seen.len(), jobs.len());
        let all: Vec<String> = numbered(count).into_iter().map(|m| m.addr).collect();
        for job in &jobs {
            assert!(all.contains(&job.metadata.addr));
            assert_eq!(job.provider, "source");
            assert_eq!(job.metadata.kind, ProxyType::Http);
            assert_eq!(job.metadata.country, "US");
        }
    }
}

#[test]
fn harvest_queues_a_whole_small_batch() {
    let mut engine = ProxyGenerator::new();
    let jobs = engine.harvest("source", Ok(numbered(7)));
    let mut seen = addresses(&jobs);
    seen.sort();
    let mut all: Vec<String> = numbered(7).into_iter().map(|m| m.addr).collect();
    all.sort();
    assert_eq!(seen, all);
}

#[test]
fn harvest_does_not_always_take_the_first_ten() {
    let mut engine = ProxyGenerator::new();
    let first: Vec<String> = numbered(10).into_iter().map(|m| m.addr).collect();
    let mut beyond = false;
    for _ in 0..40 {
        let jobs = engine.harvest("source", Ok(numbered(50)));
        if jobs.iter().any(|j| !first.contains(&j.metadata.addr)) {
            beyond = true;
        }
    }
    assert!(beyond);
}

#[test]
fn select_keeps_order_and_accepted_only() {
    let filter = ProxyFilter::new().with_exclude_countries(vec!["jp".to_string()]);
    let batch = vec![
        candidate("a:1", ProxyType::Http, "US"),
        candidate("b:2", ProxyType::Http, "JP"),
        candidate("c:3", ProxyType::Https, "DE"),
        candidate("d:4", ProxyType::Http, "Jp"),
    ];
    let kept: Vec<String> = select(&filter, &batch).into_iter().map(|m| m.addr).collect();
    assert_eq!(kept, vec!["a:1", "c:3"]);
    assert!(select(&filter, &Vec::new()).is_empty());
}

#[test]
fn filter_in_force_at_each_step_decides() {
    let mut engine = ProxyGenerator::new();
    let mut jobs = engine.harvest("source", Ok(vec![candidate("1.2.3.4:80", ProxyType::Http, "US")]));
    engine.set_filter(ProxyFilter::new().with_include_countries(vec!["JP".to_string()]));
    assert!(engine.qualify(jobs.pop().unwrap(), Span::from_millis(1)).is_none());
    assert!(engine.harvest("source", Ok(vec![candidate("1.2.3.4:80", ProxyType::Http, "US")])).is_empty());
    engine.set_filter(ProxyFilter::new());
    let mut jobs = engine.harvest("source", Ok(vec![candidate("1.2.3.4:80", ProxyType::Http, "US")]));
    assert!(engine.qualify(jobs.pop().unwrap(), Span::from_millis(1)).is_some());
}

#[test]
fn sources_are_asked_through_the_last_delivered_proxy() {
    let mut engine = ProxyGenerator::new();
    let mut source = ProxyScrape::new();
    source.set_proxy("7.7.7.7:80".to_string());
    engine.prepare(&mut source);
    match source.start_listing(Span::zero()) {
        ListStep::Fetch(request) => assert_eq!(request.upstream, ""),
        ListStep::Cached(_) => panic!("nothing is cached yet"),
    }
    let proxy = Proxy {
        addr: "9.9.9.9:80".to_string(),
        kind: ProxyType::Http,
        country: "US".to_string(),
        provider: "source".to_string(),
        latency: Span::from_millis(10),
    };
    engine.get(Some(proxy.clone()));
    engine.prepare(&mut source);
    match source.start_listing(Span::zero()) {
        ListStep::Fetch(request) => assert_eq!(request.upstream, "9.9.9.9:80"),
        ListStep::Cached(_) => panic!("nothing is cached yet"),
    }
}
