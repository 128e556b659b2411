use std::time::Duration;

use clank_cli::rate_limit::{RateLimitConfig, RatePeriod, parse_rate_limit};
use clank_cli::rate_limiter::{RateLimiter, RateLimiterError};

#[test]
fn parse_rate_limit_accepts_second_minute_and_hour() {
    assert_eq!(
        parse_rate_limit("100/s").unwrap(),
        RateLimitConfig {
            rate: 100,
            period: RatePeriod::Second,
        }
    );

    assert_eq!(
        parse_rate_limit("5000/m").unwrap(),
        RateLimitConfig {
            rate: 5000,
            period: RatePeriod::Minute,
        }
    );

    assert_eq!(
        parse_rate_limit("10000/h").unwrap(),
        RateLimitConfig {
            rate: 10000,
            period: RatePeriod::Hour,
        }
    );
}

#[test]
fn parse_rate_limit_rejects_invalid_values() {
    assert!(parse_rate_limit("").is_err());
    assert!(parse_rate_limit("0/s").is_err());
    assert!(parse_rate_limit("abc/s").is_err());
    assert!(parse_rate_limit("100").is_err());
    assert!(parse_rate_limit("100/d").is_err());
}

#[test]
fn parse_rate_limit_error_messages() {
    assert_eq!(parse_rate_limit("").unwrap_err().to_string(), "rate limit cannot be empty");
    assert_eq!(
        parse_rate_limit("0/s").unwrap_err().to_string(),
        "rate limit must be greater than 0"
    );
    assert_eq!(
        parse_rate_limit("100/d").unwrap_err().to_string(),
        "unsupported rate limit period: d. Supported periods: s, m, h"
    );
}

#[test]
fn rate_limit_config_formats_display_string() {
    assert_eq!(
        RateLimitConfig {
            rate: 100,
            period: RatePeriod::Second,
        }
        .as_display_string(),
        "100/s"
    );

    assert_eq!(
        RateLimitConfig {
            rate: 5000,
            period: RatePeriod::Minute,
        }
        .as_display_string(),
        "5000/m"
    );

    assert_eq!(
        RateLimitConfig {
            rate: 10000,
            period: RatePeriod::Hour,
        }
        .as_display_string(),
        "10000/h"
    );
}

#[test]
fn rate_limit_display_parses_back() {
    let config = RateLimitConfig { rate: 250, period: RatePeriod::Minute };

    assert_eq!(parse_rate_limit(&config.as_display_string()).unwrap(), config);
}

#[test]
fn rate_period_lengths_and_suffixes() {
    assert_eq!(RatePeriod::Second.duration(), 1);
    assert_eq!(RatePeriod::Minute.duration(), 60);
    assert_eq!(RatePeriod::Hour.duration(), 3600);
    assert_eq!(RatePeriod::Hour.suffix(), "h");
}

#[test]
fn new_rejects_zero_permits() {
    assert!(RateLimiter::new(0, Duration::from_secs(1).as_nanos() as u64).is_err());
}

#[test]
fn new_rejects_zero_interval() {
    assert!(RateLimiter::new(1, Duration::ZERO.as_nanos() as u64).is_err());
}

#[test]
fn new_errors_name_the_fault() {
    assert_eq!(
        RateLimiter::new(0, 1).err().unwrap().to_string(),
        "rate limiter permits must be greater than 0"
    );
    assert_eq!(
        RateLimiter::new(1, 0).err().unwrap(),
        RateLimiterError::ZeroInterval
    );
}

#[test]
fn from_config_uses_rate_and_period() {
    let limiter = RateLimiter::from_config(RateLimitConfig {
        rate: 5000,
        period: RatePeriod::Minute,
    })
    .ok()
    .unwrap();

    assert_eq!(limiter.permits(), 5000);
    assert_eq!(Duration::from_nanos(limiter.interval()), Duration::from_secs(60));
}

#[test]
fn limiter_starts_with_one_token_and_paces_the_rest() {
    let second = 1_000_000_000u64;
    let mut limiter = RateLimiter::new(5, second).ok().unwrap();

    assert_eq!(limiter.try_acquire(0), Ok(()));
    let wait = limiter.try_acquire(0).unwrap_err();
    assert_eq!(wait, 200_000_000);
    assert!(limiter.try_acquire(wait - 1).is_err());
    assert_eq!(limiter.try_acquire(wait), Ok(()));
}

#[test]
fn limiter_never_holds_more_than_its_permits() {
    let second = 1_000_000_000u64;
    let mut limiter = RateLimiter::new(3, second).ok().unwrap();

    for _ in 0..3 {
        assert_eq!(limiter.try_acquire(100 * second), Ok(()));
    }
    assert!(limiter.try_acquire(100 * second).is_err());
}

#[test]
fn limiter_grants_about_rate_tokens_over_a_window() {
    let second = 1_000_000_000u64;
    let mut limiter = RateLimiter::new(10, second).ok().unwrap();
    let mut granted = 0;
    let mut now = 0u64;

    while now <= second {
        match limiter.try_acquire(now) {
            Ok(()) => granted += 1,
            Err(wait) => now += wait,
        }
    }

    assert_eq!(granted, 11);
}
