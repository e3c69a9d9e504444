use proxyrs::cache::VerificationCache;
use proxyrs::time::Span;

const TTL_SECS: u64 = 20 * 60;

fn at(secs: u64) -> Span {
    Span::from_secs(secs)
}

fn ms(millis: u64) -> Option<Span> {
    Some(Span::from_millis(millis))
}

#[test]
fn new_cache_is_empty_and_keeps_twenty_minutes() {
    let cache = VerificationCache::new();
    assert_eq!(cache.ttl(), Span::from_secs(1200));
    assert_eq!(cache.len(), 0);
    assert_eq!(cache.get("1.2.3.4:80", at(0)), None);
    assert_eq!(VerificationCache::with_ttl(at(5)).ttl(), at(5));
}

#[test]
fn put_then_get_returns_the_value() {
    let mut cache = VerificationCache::new();
    cache.put("1.2.3.4:80".to_string(), ms(100), at(10));
    assert_eq!(cache.get("1.2.3.4:80", at(10)), Some(ms(100)));
    cache.put("5.6.7.8:80".to_string(), None, at(10));
    assert_eq!(cache.get("5.6.7.8:80", at(10)), Some(None));
    assert_eq!(cache.get("1.2.3.4:80", at(10)), Some(ms(100)));
    assert_eq!(cache.len(), 2);
}

#[test]
fn entry_is_kept_until_ttl_is_up() {
    let mut cache = VerificationCache::new();
    cache.put("1.2.3.4:80".to_string(), ms(100), at(10));
    assert_eq!(cache.get("1.2.3.4:80", at(10 + TTL_SECS - 1)), Some(ms(100)));
    assert_eq!(cache.get("1.2.3.4:80", Span::from_nanos(1_210_000_000_000 - 1)), Some(ms(100)));
    assert_eq!(cache.get("1.2.3.4:80", at(10 + TTL_SECS)), None);
    assert_eq!(cache.get("1.2.3.4:80", at(10 + TTL_SECS + 1)), None);
    assert_eq!(cache.get("1.2.3.4:80", at(1_000_000)), None);
}

#[test]
fn failures_expire_like_successes() {
    let mut cache = VerificationCache::new();
    cache.put("1.2.3.4:80".to_string(), None, at(0));
    assert_eq!(cache.get("1.2.3.4:80", at(TTL_SECS - 1)), Some(None));
    assert_eq!(cache.get("1.2.3.4:80", at(TTL_SECS)), None);
}

#[test]
fn a_clock_that_runs_backwards_counts_as_no_time() {
    let mut cache = VerificationCache::new();
    cache.put("1.2.3.4:80".to_string(), ms(1), at(100));
    assert_eq!(cache.get("1.2.3.4:80", at(50)), Some(ms(1)));
}

#[test]
fn put_replaces_and_restarts_the_time() {
    let mut cache = VerificationCache::new();
    cache.put("1.2.3.4:80".to_string(), ms(100), at(0));
    cache.put("1.2.3.4:80".to_string(), ms(200), at(600));
    assert_eq!(cache.len(), 1);
    assert_eq!(cache.get("1.2.3.4:80", at(600)), Some(ms(200)));
    assert_eq!(cache.get("1.2.3.4:80", at(TTL_SECS + 599)), Some(ms(200)));
    assert_eq!(cache.get("1.2.3.4:80", at(TTL_SECS + 600)), None);
    cache.put("1.2.3.4:80".to_string(), None, at(700));
    assert_eq!(cache.get("1.2.3.4:80", at(700)), Some(None));
}

#[test]
fn put_leaves_other_addresses_alone() {
    let mut cache = VerificationCache::new();
    cache.put("a:1".to_string(), ms(1), at(0));
    cache.put("b:2".to_string(), ms(2), at(100));
    cache.put("c:3".to_string(), None, at(200));
    assert_eq!(cache.get("a:1", at(200)), Some(ms(1)));
    assert_eq!(cache.get("b:2", at(200)), Some(ms(2)));
    assert_eq!(cache.get("c:3", at(200)), Some(None));
    assert_eq!(cache.get("d:4", at(200)), None);
    assert_eq!(cache.get("A:1", at(200)), None);
}

#[test]
fn put_drops_what_is_no_longer_kept() {
    let mut cache = VerificationCache::new();
    cache.put("a:1".to_string(), ms(1), at(0));
    cache.put("b:2".to_string(), ms(2), at(100));
    assert_eq!(cache.len(), 2);
    cache.put("c:3".to_string(), ms(3), at(TTL_SECS));
    assert_eq!(cache.len(), 2);
    assert_eq!(cache.get("a:1", at(TTL_SECS)), None);
    assert_eq!(cache.get("b:2", at(TTL_SECS)), Some(ms(2)));
    assert_eq!(cache.get("c:3", at(TTL_SECS)), Some(ms(3)));
    cache.put("d:4".to_string(), ms(4), at(10 * TTL_SECS));
    assert_eq!(cache.len(), 1);
}

#[test]
fn short_ttl_is_honoured() {
    let mut cache = VerificationCache::with_ttl(Span::from_millis(1));
    cache.put("a:1".to_string(), ms(1), Span::zero());
    assert_eq!(cache.get("a:1", Span::from_nanos(999_999)), Some(ms(1)));
    assert_eq!(cache.get("a:1", Span::from_nanos(1_000_000)), None);
    let mut never = VerificationCache::with_ttl(Span::zero());
    never.put("a:1".to_string(), ms(1), Span::zero());
    assert_eq!(never.get("a:1", Span::zero()), None);
}
