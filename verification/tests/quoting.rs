use swap_sync::error::SwapError;
use swap_sync::quotes::{
    after_lookup, eta_minutes, kyc_required, rank_by_estimate, CacheDecision, QUOTE_TTL_SECS,
};
use swap_sync::retry::{RetryState, RetryStep};
use swap_sync::swap::{http_status, open_swap, record_swap, Endpoint, SwapStatus};

#[test]
fn cached_value_is_served() {
    let d = after_lookup(Some(Ok(Some(5u8))));
    assert!(matches!(d, CacheDecision::Serve(5)));
}

#[test]
fn miss_failure_and_missing_cache_lead_to_a_fetch() {
    assert!(matches!(after_lookup::<u8>(Some(Ok(None))), CacheDecision::Fetch));
    assert!(matches!(
        after_lookup::<u8>(Some(Err("connection refused".to_string()))),
        CacheDecision::Fetch
    ));
    assert!(matches!(after_lookup::<u8>(None), CacheDecision::Fetch));
}

#[test]
fn quotes_live_thirty_seconds() {
    assert_eq!(QUOTE_TTL_SECS, 30);
}

#[test]
fn only_the_best_rating_needs_no_kyc() {
    assert!(!kyc_required(Some("A")));
    assert!(kyc_required(Some("B")));
    assert!(kyc_required(Some("a")));
    assert!(kyc_required(Some("")));
    assert!(kyc_required(None));
}

#[test]
fn missing_eta_is_fifteen_minutes() {
    assert_eq!(eta_minutes(None), 15);
    assert_eq!(eta_minutes(Some(0)), 0);
    assert_eq!(eta_minutes(Some(42)), 42);
}

#[test]
fn ranking_is_descending() {
    assert_eq!(rank_by_estimate(&vec![10, 30, 20]), vec![1, 2, 0]);
    assert_eq!(rank_by_estimate(&vec![-5, i64::MAX, i64::MIN, 0]), vec![1, 3, 0, 2]);
}

#[test]
fn ranking_keeps_the_order_of_equal_estimates() {
    assert_eq!(rank_by_estimate(&vec![7, 9, 7, 9, 7]), vec![1, 3, 0, 2, 4]);
    assert_eq!(rank_by_estimate(&vec![1, 1, 1]), vec![0, 1, 2]);
}

#[test]
fn estimate_keys_order_as_the_estimates_do() {
    let key = |x: f64| swap_sync::quotes::estimate_key(x.to_bits());
    assert_eq!(key(0.0), 0);
    assert_eq!(key(-0.0), 0);
    assert_eq!(key(1.0), 0x3ff0_0000_0000_0000);
    assert_eq!(key(-1.0), -0x3ff0_0000_0000_0000);
    assert_eq!(swap_sync::quotes::estimate_key(u64::MAX), -i64::MAX);
    let ascending = [f64::NEG_INFINITY, -2.5, -1.0, -1e-300, 0.0, 1e-300, 0.5, 1.0, 2.5, f64::INFINITY];
    for pair in ascending.windows(2) {
        assert!(key(pair[0]) < key(pair[1]));
    }
}

#[test]
fn quotes_are_ranked_by_their_estimates() {
    let estimates: Vec<i64> = [0.48, 0.51, -0.0, 0.0, 0.505]
        .iter()
        .map(|x: &f64| swap_sync::quotes::estimate_key(x.to_bits()))
        .collect();
    assert_eq!(rank_by_estimate(&estimates), vec![1, 4, 0, 2, 3]);
}

#[test]
fn ranking_of_nothing_and_of_one() {
    assert_eq!(rank_by_estimate(&vec![]), Vec::<usize>::new());
    assert_eq!(rank_by_estimate(&vec![4]), vec![0]);
}

#[test]
fn quote_after_two_rate_limit_answers_comes_back_ranked() {
    // Estimates of the quotes of the answer that succeeds, in the provider's order.
    let answers: Vec<Result<Vec<i64>, String>> = vec![
        Err("HTTP 429".to_string()),
        Err("HTTP 429".to_string()),
        Ok(vec![1_500, 1_720, 1_610]),
    ];
    let mut state = RetryState::new();
    let mut slept: u64 = 0;
    let mut outcome = None;
    for answer in answers {
        match state.next(answer) {
            RetryStep::Backoff { delay_secs, next } => {
                slept += delay_secs;
                state = next;
            }
            RetryStep::Finished(result) => {
                outcome = Some(result);
                break;
            }
        }
    }
    assert_eq!(slept, 3);
    match outcome {
        Some(Ok(estimates)) => assert_eq!(rank_by_estimate(&estimates), vec![1, 2, 0]),
        _ => panic!("expected the quotes of the third answer"),
    }
}

#[test]
fn provider_words_for_states() {
    assert_eq!(SwapStatus::from_provider("new"), SwapStatus::Waiting);
    assert_eq!(SwapStatus::from_provider("waiting"), SwapStatus::Waiting);
    assert_eq!(SwapStatus::from_provider("confirming"), SwapStatus::Confirming);
    assert_eq!(SwapStatus::from_provider("sending"), SwapStatus::Sending);
    assert_eq!(SwapStatus::from_provider("finished"), SwapStatus::Completed);
    assert_eq!(SwapStatus::from_provider("failed"), SwapStatus::Failed);
    assert_eq!(SwapStatus::from_provider("halted"), SwapStatus::Failed);
    assert_eq!(SwapStatus::from_provider("refunded"), SwapStatus::Refunded);
    assert_eq!(SwapStatus::from_provider("expired"), SwapStatus::Expired);
    assert_eq!(SwapStatus::from_provider("Finished"), SwapStatus::Waiting);
    assert_eq!(SwapStatus::from_provider(""), SwapStatus::Waiting);
}

#[test]
fn recorded_swap_expires_after_an_hour() {
    let swap = record_swap("abc".to_string(), "sending", 1_700_000_000);
    assert_eq!(swap.swap_id, "abc");
    assert_eq!(swap.status, SwapStatus::Sending);
    assert_eq!(swap.expires_at, 1_700_003_600);
}

#[test]
fn opened_swap_gets_a_fresh_identifier() {
    let a = open_swap("new", 0);
    let b = open_swap("new", 0);
    assert_eq!(a.swap_id.chars().count(), 36);
    assert_eq!(b.swap_id.chars().count(), 36);
    assert_ne!(a.swap_id, b.swap_id);
    assert_eq!(a.status, SwapStatus::Waiting);
    assert_eq!(a.expires_at, 3_600);
}

#[test]
fn failures_map_to_http_statuses() {
    let range = SwapError::AmountOutOfRange { min: "1".to_string(), max: "2".to_string() };
    let api = SwapError::ExternalApiError("x".to_string());
    let db = SwapError::DatabaseError("x".to_string());
    assert_eq!(http_status(Endpoint::CreateSwap, &range), 400);
    assert_eq!(http_status(Endpoint::CreateSwap, &SwapError::InvalidAddress), 400);
    assert_eq!(http_status(Endpoint::CreateSwap, &api), 500);
    assert_eq!(http_status(Endpoint::Currencies, &db), 500);
    assert_eq!(http_status(Endpoint::Providers, &db), 500);
    assert_eq!(http_status(Endpoint::Rates, &api), 502);
    assert_eq!(http_status(Endpoint::Rates, &db), 502);
    assert_eq!(http_status(Endpoint::SwapStatus, &SwapError::SwapNotFound), 404);
    assert_eq!(http_status(Endpoint::SwapStatus, &db), 500);
    assert_eq!(http_status(Endpoint::SwapStatus, &api), 502);
    assert_eq!(http_status(Endpoint::SwapStatus, &range), 500);
    assert_eq!(http_status(Endpoint::ValidateAddress, &SwapError::InvalidAddress), 400);
    assert_eq!(http_status(Endpoint::ValidateAddress, &api), 502);
    assert_eq!(http_status(Endpoint::ValidateAddress, &db), 500);
    let limited = SwapError::RateLimited("429".to_string());
    assert_eq!(http_status(Endpoint::CreateSwap, &limited), 500);
    assert_eq!(http_status(Endpoint::Rates, &limited), 502);
    assert_eq!(http_status(Endpoint::SwapStatus, &limited), 502);
    assert_eq!(http_status(Endpoint::ValidateAddress, &limited), 502);
}
