use buongiorno_caffe_bot::greeting::Greeting;
use buongiorno_caffe_bot::providers::{Providers, ScrapeError};
use buongiorno_caffe_bot::resolver::{resolve_with_outcomes, NoProviderAvailable, Resolution};

type Outcome = Result<Vec<String>, ScrapeError>;

fn all_providers() -> Vec<Providers> {
    Providers::all()
}

fn urls(list: &[&str]) -> Outcome {
    Ok(list.iter().map(|s| s.to_string()).collect())
}

#[test]
fn fallback_to_baseline_supplies_an_image() {
    // every provider reports the requested category unsupported, but the
    // third one serves the baseline category
    let order = all_providers();
    let req: Vec<Outcome> = vec![
        Err(ScrapeError::UnsupportedGreeting),
        Err(ScrapeError::UnsupportedGreeting),
        Err(ScrapeError::UnsupportedGreeting),
        Err(ScrapeError::UnsupportedGreeting),
    ];
    let base: Vec<Outcome> = vec![
        Err(ScrapeError::NetworkError),
        Err(ScrapeError::UnsupportedGreeting),
        urls(&["https://example.org/a.jpg", "https://example.org/b.jpg"]),
        Err(ScrapeError::NetworkError),
    ];
    let result = resolve_with_outcomes(order.clone(), Greeting::Compleanno, &req, &base);
    let image = result.expect("baseline fallback must supply an image");
    assert_eq!(image.provider, order[2]);
    assert!(
        image.url == "https://example.org/a.jpg" || image.url == "https://example.org/b.jpg"
    );
}

#[test]
fn exhaustion_reports_no_provider_available() {
    let order = all_providers();
    let req: Vec<Outcome> = vec![
        Err(ScrapeError::UnsupportedGreeting),
        Err(ScrapeError::NetworkError),
        Err(ScrapeError::UnsupportedGreeting),
        Err(ScrapeError::UnsupportedGreeting),
    ];
    let base: Vec<Outcome> = vec![
        Err(ScrapeError::NetworkError),
        Err(ScrapeError::EmptyResult),
        Err(ScrapeError::NetworkError),
        Err(ScrapeError::NetworkError),
    ];
    let result = resolve_with_outcomes(order, Greeting::Compleanno, &req, &base);
    assert_eq!(
        result.unwrap_err(),
        NoProviderAvailable {
            last_error: Some(ScrapeError::NetworkError)
        }
    );
}

#[test]
fn first_successful_provider_wins() {
    let order = all_providers();
    let req: Vec<Outcome> = vec![
        Err(ScrapeError::EmptyResult),
        urls(&["https://example.org/second.jpg"]),
        urls(&["https://example.org/third.jpg"]),
        Err(ScrapeError::NetworkError),
    ];
    let base: Vec<Outcome> = vec![
        Err(ScrapeError::NetworkError),
        Err(ScrapeError::NetworkError),
        Err(ScrapeError::NetworkError),
        Err(ScrapeError::NetworkError),
    ];
    let result = resolve_with_outcomes(order.clone(), Greeting::BuonaNotte, &req, &base);
    let image = result.unwrap();
    assert_eq!(image.provider, order[1]);
    assert_eq!(image.url, "https://example.org/second.jpg");
}

#[test]
fn baseline_request_is_not_retried_as_baseline() {
    // a request for the baseline category itself fails after one pass
    let order = all_providers();
    let req: Vec<Outcome> = vec![
        Err(ScrapeError::NetworkError),
        Err(ScrapeError::NetworkError),
        Err(ScrapeError::NetworkError),
        Err(ScrapeError::EmptyResult),
    ];
    let base: Vec<Outcome> = vec![
        urls(&["https://example.org/never.jpg"]),
        urls(&["https://example.org/never.jpg"]),
        urls(&["https://example.org/never.jpg"]),
        urls(&["https://example.org/never.jpg"]),
    ];
    let result = resolve_with_outcomes(order, Greeting::BuonGiorno, &req, &base);
    assert_eq!(
        result.unwrap_err(),
        NoProviderAvailable {
            last_error: Some(ScrapeError::EmptyResult)
        }
    );
}

#[test]
fn empty_success_counts_as_empty_result() {
    let order = vec![Providers::Augurando];
    let req: Vec<Outcome> = vec![Ok(Vec::new())];
    let base: Vec<Outcome> = vec![Err(ScrapeError::UnsupportedGreeting)];
    let result = resolve_with_outcomes(order, Greeting::Compleanno, &req, &base);
    assert_eq!(
        result.unwrap_err(),
        NoProviderAvailable {
            last_error: Some(ScrapeError::EmptyResult)
        }
    );
}

#[test]
fn resolution_without_providers_fails_at_once() {
    let mut resolution = Resolution::new(Vec::new(), Greeting::BuonaNotte);
    assert!(resolution.is_done());
    assert!(resolution.pending().is_none());
    assert_eq!(
        resolution.into_result().unwrap_err(),
        NoProviderAvailable { last_error: None }
    );
    resolution = Resolution::new(all_providers(), Greeting::BuonaNotte);
    assert!(!resolution.is_done());
    assert_eq!(
        resolution.pending(),
        Some((Providers::BuongiornissimoCaffe, Greeting::BuonaNotte))
    );
}

#[test]
fn unsupported_steers_into_baseline_pass() {
    let order = vec![Providers::TiCondivido];
    let mut resolution = Resolution::new(order, Greeting::Compleanno);
    resolution.report(&Err(ScrapeError::UnsupportedGreeting));
    // the requested pass is exhausted; the baseline pass begins
    assert!(!resolution.is_done());
    assert_eq!(
        resolution.pending(),
        Some((Providers::TiCondivido, Greeting::BuonGiorno))
    );
    resolution.report(&Ok(vec!["https://example.org/x.jpg".to_string()]));
    assert!(resolution.is_done());
    let image = resolution.into_result().unwrap();
    assert_eq!(image.url, "https://example.org/x.jpg");
    assert_eq!(image.provider, Providers::TiCondivido);
}

#[test]
fn shuffled_providers_is_a_permutation() {
    let shuffled = Providers::shuffled();
    assert_eq!(shuffled.len(), 4);
    for p in Providers::all() {
        assert!(shuffled.contains(&p));
    }
}
