use inappbrowser::controlled::{ControlledBrowsers, WaitRegistration, MAX_RETAINED_CLOSED};
use inappbrowser::error::Error;
use inappbrowser::models::OpenControlledRequest;
use inappbrowser::waiting::{finish_wait, WaitEnd};

fn request(url: &str, prefixes: &[&str], close_on_intercept: bool) -> OpenControlledRequest {
    OpenControlledRequest {
        url: url.to_string(),
        intercept_prefixes: prefixes.iter().map(|p| p.to_string()).collect(),
        close_on_intercept,
        ..OpenControlledRequest::default()
    }
}

#[test]
fn new_registry_is_empty() {
    let b: ControlledBrowsers<u32> = ControlledBrowsers::new();
    assert_eq!(b.ids_handed_out(), 0);
    assert!(!b.contains(0));
    assert!(!b.contains(1));
    assert!(!b.is_open(1));
    assert_eq!(b.current_url(1), None);
}

#[test]
fn allocate_hands_out_increasing_ids() {
    let mut b: ControlledBrowsers<u32> = ControlledBrowsers::new();
    let r = request("https://a.example/login", &["myapp://"], false);
    assert_eq!(b.allocate(&r), 1);
    assert_eq!(b.allocate(&r), 2);
    assert_eq!(b.allocate(&r), 3);
    assert_eq!(b.ids_handed_out(), 3);
    assert!(b.contains(2));
    assert!(b.is_open(2));
    assert_eq!(b.current_url(2), Some("https://a.example/login".to_string()));
}

#[test]
fn record_url_is_read_back() {
    let mut b: ControlledBrowsers<u32> = ControlledBrowsers::new();
    let id = b.allocate(&request("https://a.example/", &[], false));
    b.record_url(id, "https://a.example/next");
    assert_eq!(b.current_url(id), Some("https://a.example/next".to_string()));
    assert_eq!(b.current_url_result(id), Ok("https://a.example/next".to_string()));
    b.record_url(99, "https://elsewhere/");
    assert!(!b.contains(99));
    assert_eq!(b.current_url_result(99), Err(Error::BrowserNotFound(99)));
}

#[test]
fn navigation_matching_a_prefix_is_intercepted() {
    let mut b: ControlledBrowsers<u32> = ControlledBrowsers::new();
    let id = b.allocate(&request("https://a.example/", &["https://cb.example/", "myapp://"], false));
    assert!(b.should_intercept(id, "https://a.example/page").is_none());
    assert_eq!(b.current_url(id), Some("https://a.example/page".to_string()));
    let wake = b.should_intercept(id, "myapp://oauth?code=42").expect("intercepted");
    assert!(wake.waiters.is_empty());
    assert_eq!(wake.outcome, Ok("myapp://oauth?code=42".to_string()));
    assert_eq!(b.current_url(id), Some("myapp://oauth?code=42".to_string()));
    // an intercepted browser stays open until it is closed
    assert!(b.is_open(id));
}

#[test]
fn empty_prefix_never_intercepts() {
    let mut b: ControlledBrowsers<u32> = ControlledBrowsers::new();
    let id = b.allocate(&request("https://a.example/", &[""], false));
    assert!(b.should_intercept(id, "https://a.example/x").is_none());
    assert!(b.should_intercept(id, "").is_none());
}

#[test]
fn prefix_longer_than_url_does_not_match() {
    let mut b: ControlledBrowsers<u32> = ControlledBrowsers::new();
    let id = b.allocate(&request("https://a.example/", &["myapp://oauth"], false));
    assert!(b.should_intercept(id, "myapp://").is_none());
    assert!(b.should_intercept(id, "myapp://oauth").is_some());
}

#[test]
fn unknown_browser_is_never_intercepted() {
    let mut b: ControlledBrowsers<u32> = ControlledBrowsers::new();
    assert!(b.should_intercept(5, "myapp://x").is_none());
    let wake = b.record_intercepted(5, "myapp://x");
    assert!(wake.waiters.is_empty());
    assert!(!b.contains(5));
    assert!(!b.should_close_on_intercept(5));
}

#[test]
fn pending_waiters_are_woken_in_order_by_interception() {
    let mut b: ControlledBrowsers<u32> = ControlledBrowsers::new();
    let id = b.allocate(&request("https://a.example/", &["myapp://"], false));
    assert!(matches!(b.wait(id, 10), Ok(WaitRegistration::Pending)));
    assert!(matches!(b.wait(id, 11), Ok(WaitRegistration::Pending)));
    let wake = b.should_intercept(id, "myapp://done").expect("intercepted");
    assert_eq!(wake.waiters, vec![10, 11]);
    assert_eq!(wake.outcome, Ok("myapp://done".to_string()));
    // nobody is left waiting: a close wakes nobody
    let wake = b.mark_closed(id);
    assert!(wake.waiters.is_empty());
}

#[test]
fn wait_after_interception_is_answered_at_once() {
    let mut b: ControlledBrowsers<u32> = ControlledBrowsers::new();
    let id = b.allocate(&request("https://a.example/", &[], false));
    b.record_intercepted(id, "myapp://done");
    match b.wait(id, 7) {
        Ok(WaitRegistration::Ready { waiter, outcome }) => {
            assert_eq!(waiter, 7);
            assert_eq!(outcome, Ok("myapp://done".to_string()));
        }
        _ => panic!("expected an immediate answer"),
    }
    assert!(b.mark_closed(id).waiters.is_empty());
}

#[test]
fn close_without_interception_tells_waiters_it_closed() {
    let mut b: ControlledBrowsers<u32> = ControlledBrowsers::new();
    let id = b.allocate(&request("https://a.example/", &["myapp://"], false));
    assert!(matches!(b.wait(id, 1), Ok(WaitRegistration::Pending)));
    let wake = b.mark_closed(id);
    assert_eq!(wake.waiters, vec![1]);
    assert_eq!(wake.outcome, Err("browser was closed".to_string()));
    assert!(b.contains(id));
    assert!(!b.is_open(id));
    match b.wait(id, 2) {
        Ok(WaitRegistration::Ready { waiter, outcome }) => {
            assert_eq!(waiter, 2);
            assert_eq!(outcome, Err("browser was closed".to_string()));
        }
        _ => panic!("expected an immediate answer"),
    }
}

#[test]
fn close_after_interception_keeps_the_url() {
    let mut b: ControlledBrowsers<u32> = ControlledBrowsers::new();
    let id = b.allocate(&request("https://a.example/", &["myapp://"], true));
    assert!(b.should_close_on_intercept(id));
    b.should_intercept(id, "myapp://cb?code=1").expect("intercepted");
    let wake = b.mark_closed(id);
    assert_eq!(wake.outcome, Ok("myapp://cb?code=1".to_string()));
    match b.wait(id, 3) {
        Ok(WaitRegistration::Ready { outcome, .. }) => {
            assert_eq!(outcome, Ok("myapp://cb?code=1".to_string()))
        }
        _ => panic!("expected an immediate answer"),
    }
}

#[test]
fn wait_on_unknown_browser_is_refused() {
    let mut b: ControlledBrowsers<u32> = ControlledBrowsers::new();
    assert!(matches!(b.wait(7, 1), Err(ref m) if m == "browser 7 not found"));
    assert!(matches!(b.begin_wait(7, 1), Err(Error::BrowserNotFound(7))));
}

#[test]
fn begin_wait_registers_or_answers() {
    let mut b: ControlledBrowsers<u32> = ControlledBrowsers::new();
    let id = b.allocate(&request("https://a.example/", &["myapp://"], false));
    assert!(matches!(b.begin_wait(id, 4), Ok(WaitRegistration::Pending)));
    let wake = b.record_intercepted(id, "myapp://x");
    assert_eq!(wake.waiters, vec![4]);
    assert!(matches!(b.begin_wait(id, 5), Ok(WaitRegistration::Ready { waiter: 5, .. })));
}

#[test]
fn allocation_keeps_only_the_most_recent_closed_browsers() {
    let mut b: ControlledBrowsers<u32> = ControlledBrowsers::new();
    let r = request("https://a.example/", &[], false);
    for _ in 0..41 {
        b.allocate(&r);
    }
    // browser 41 stays open; 1..=40 are closed
    for id in 1..=40 {
        b.mark_closed(id);
    }
    let new_id = b.allocate(&r);
    assert_eq!(new_id, 42);
    for id in 1..=8 {
        assert!(!b.contains(id), "browser {id} should have been dropped");
    }
    for id in 9..=40 {
        assert!(b.contains(id), "browser {id} should be kept");
        assert!(!b.is_open(id));
    }
    assert!(b.is_open(41));
    assert!(b.is_open(42));
    assert_eq!(40 - 8, MAX_RETAINED_CLOSED as u32);
}

#[test]
fn allocation_with_few_closed_browsers_drops_none() {
    let mut b: ControlledBrowsers<u32> = ControlledBrowsers::new();
    let r = request("https://a.example/", &[], false);
    for _ in 0..32 {
        b.allocate(&r);
    }
    for id in 1..=32 {
        b.mark_closed(id);
    }
    b.allocate(&r);
    for id in 1..=32 {
        assert!(b.contains(id));
    }
}

#[test]
fn late_waiter_after_automatic_close_gets_the_url() {
    let mut b: ControlledBrowsers<u32> = ControlledBrowsers::new();
    let id = b.allocate(&request("https://a.example/", &["myapp://"], true));
    b.should_intercept(id, "myapp://x").expect("intercepted");
    b.mark_closed(id);
    let end = match b.begin_wait(id, 0) {
        Ok(WaitRegistration::Ready { outcome, .. }) => WaitEnd::Delivered(outcome),
        _ => panic!("expected an immediate answer"),
    };
    assert_eq!(finish_wait(end), Ok("myapp://x".to_string()));
}

#[test]
fn finish_wait_covers_every_ending() {
    assert_eq!(finish_wait(WaitEnd::Delivered(Ok("u".to_string()))), Ok("u".to_string()));
    assert_eq!(
        finish_wait(WaitEnd::Delivered(Err("browser was closed".to_string()))),
        Err(Error::Browser("browser was closed".to_string()))
    );
    assert_eq!(finish_wait(WaitEnd::Dropped), Err(Error::Browser("browser was dropped".to_string())));
    assert_eq!(finish_wait(WaitEnd::TimedOut), Err(Error::Browser("timed out".to_string())));
}

#[test]
fn pending_waiter_survives_unrelated_operations() {
    let mut b: ControlledBrowsers<u32> = ControlledBrowsers::new();
    let id = b.allocate(&request("https://a.example/", &["myapp://"], false));
    let other = b.allocate(&request("https://b.example/", &["myapp://"], false));
    assert!(matches!(b.wait(id, 1), Ok(WaitRegistration::Pending)));
    b.record_url(id, "https://a.example/2");
    assert!(b.should_intercept(id, "https://a.example/3").is_none());
    assert!(b.should_intercept(other, "myapp://other").is_some());
    assert!(b.mark_closed(other).waiters.is_empty());
    b.allocate(&request("https://c.example/", &[], false));
    assert!(matches!(b.wait(id, 2), Ok(WaitRegistration::Pending)));
    assert!(b.is_open(id));
    let wake = b.should_intercept(id, "myapp://done").expect("intercepted");
    assert_eq!(wake.waiters, vec![1, 2]);
    assert_eq!(wake.outcome, Ok("myapp://done".to_string()));
    assert!(b.mark_closed(id).waiters.is_empty());
}

#[test]
fn closed_browser_never_reopens_and_ids_are_not_reused() {
    let mut b: ControlledBrowsers<u32> = ControlledBrowsers::new();
    let r = request("https://a.example/", &["myapp://"], true);
    let first = b.allocate(&r);
    b.mark_closed(first);
    b.record_url(first, "https://a.example/again");
    b.record_intercepted(first, "myapp://late");
    assert!(matches!(b.wait(first, 0), Ok(WaitRegistration::Ready { .. })));
    assert!(!b.is_open(first));
    for _ in 0..40 {
        let id = b.allocate(&r);
        assert!(id > first);
        b.mark_closed(id);
    }
    assert!(!b.contains(first));
    assert!(!b.is_open(first));
    assert!(b.allocate(&r) > 41);
}

#[test]
fn configuration_stays_as_opened() {
    let mut b: ControlledBrowsers<u32> = ControlledBrowsers::new();
    let id = b.allocate(&request("https://a.example/", &["myapp://"], true));
    b.record_url(id, "https://a.example/x");
    b.should_intercept(id, "myapp://1").expect("intercepted");
    assert!(b.should_close_on_intercept(id));
    assert!(b.should_intercept(id, "myapp://2").is_some());
    b.mark_closed(id);
    assert!(b.should_close_on_intercept(id));
}
