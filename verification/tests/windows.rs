use inappbrowser::controlled::{ControlledBrowsers, WaitRegistration};
use inappbrowser::desktop::window_label;
use inappbrowser::error::Error;
use inappbrowser::models::{BrowserEventKind, OpenControlledRequest};

#[test]
fn window_labels() {
    assert_eq!(window_label(0), "astrobox-inappbrowser-0");
    assert_eq!(window_label(17), "astrobox-inappbrowser-17");
}

#[test]
fn plan_open_uses_defaults() {
    let mut b: ControlledBrowsers<u32> = ControlledBrowsers::new();
    let plan = b
        .plan_open(OpenControlledRequest {
            url: "https://login.example.com/".to_string(),
            ..OpenControlledRequest::default()
        })
        .expect("opens");
    assert_eq!(plan.id, 1);
    assert_eq!(plan.label, "astrobox-inappbrowser-1");
    assert_eq!(plan.title, "");
    assert_eq!((plan.width, plan.height), (480, 720));
    assert!(!plan.incognito);
    assert_eq!(plan.user_agent, None);
    assert_eq!(plan.url.into_url().as_str(), "https://login.example.com/");
    assert!(b.is_open(1));
}

#[test]
fn plan_open_takes_what_the_request_gives() {
    let mut b: ControlledBrowsers<u32> = ControlledBrowsers::new();
    let plan = b
        .plan_open(OpenControlledRequest {
            url: "http://a.example/".to_string(),
            title: Some("Sign in".to_string()),
            user_agent: Some("UA/1".to_string()),
            ephemeral: true,
            width: Some(800),
            height: Some(600),
            ..OpenControlledRequest::default()
        })
        .expect("opens");
    assert_eq!(plan.title, "Sign in");
    assert_eq!((plan.width, plan.height), (800, 600));
    assert!(plan.incognito);
    assert_eq!(plan.user_agent.as_deref(), Some("UA/1"));
}

#[test]
fn plan_open_refuses_other_schemes_without_allocating() {
    let mut b: ControlledBrowsers<u32> = ControlledBrowsers::new();
    let r = b.plan_open(OpenControlledRequest {
        url: "file:///etc/passwd".to_string(),
        ..OpenControlledRequest::default()
    });
    assert!(matches!(r, Err(Error::InvalidUrl)));
    assert_eq!(b.ids_handed_out(), 0);
}

#[test]
fn desktop_navigation_flow() {
    let mut b: ControlledBrowsers<u32> = ControlledBrowsers::new();
    let plan = b
        .plan_open(OpenControlledRequest {
            url: "https://login.example.com/".to_string(),
            intercept_prefixes: vec!["myapp://".to_string()],
            close_on_intercept: true,
            ..OpenControlledRequest::default()
        })
        .expect("opens");
    let id = plan.id;
    let d = b.handle_navigation(id, "https://login.example.com/form");
    assert!(d.allow);
    assert!(!d.close_window);
    assert!(d.wakeup.is_none());
    assert_eq!(d.event.kind, BrowserEventKind::Navigated);
    assert_eq!(d.event.url, "https://login.example.com/form");

    assert!(matches!(b.wait(id, 9), Ok(WaitRegistration::Pending)));
    let d = b.handle_navigation(id, "myapp://oauth?code=7");
    assert!(!d.allow);
    assert!(d.close_window);
    assert_eq!(d.event.kind, BrowserEventKind::Intercepted);
    assert_eq!(d.event.id, id);
    let wake = d.wakeup.expect("wakes waiters");
    assert_eq!(wake.waiters, vec![9]);
    assert_eq!(wake.outcome, Ok("myapp://oauth?code=7".to_string()));

    let ev = b.handle_page_load(id, "https://login.example.com/done");
    assert_eq!(ev.kind, BrowserEventKind::LoadFinished);
    assert_eq!(b.current_url(id), Some("https://login.example.com/done".to_string()));

    let (ev, wake) = b.handle_window_destroyed(id);
    assert_eq!(ev.kind, BrowserEventKind::Closed);
    assert_eq!(ev.url, "");
    assert!(wake.waiters.is_empty());
    assert_eq!(wake.outcome, Ok("myapp://oauth?code=7".to_string()));
    assert!(!b.is_open(id));
}

#[test]
fn navigation_without_close_flag_keeps_window() {
    let mut b: ControlledBrowsers<u32> = ControlledBrowsers::new();
    let id = b.allocate(&OpenControlledRequest {
        url: "https://a.example/".to_string(),
        intercept_prefixes: vec!["https://cb.example/".to_string()],
        ..OpenControlledRequest::default()
    });
    let d = b.handle_navigation(id, "https://cb.example/?ok");
    assert!(!d.allow);
    assert!(!d.close_window);
}

#[test]
fn navigation_of_unknown_window_goes_ahead() {
    let mut b: ControlledBrowsers<u32> = ControlledBrowsers::new();
    let d = b.handle_navigation(3, "myapp://x");
    assert!(d.allow);
    assert_eq!(d.event.kind, BrowserEventKind::Navigated);
}

#[test]
fn native_events_fold_into_the_registry() {
    let mut b: ControlledBrowsers<u32> = ControlledBrowsers::new();
    let id = b.allocate(&OpenControlledRequest {
        url: "https://a.example/".to_string(),
        ..OpenControlledRequest::default()
    });
    let e = b.handle_native_event(id, "navigated", "https://a.example/1".to_string()).unwrap();
    assert_eq!(e.event.kind, BrowserEventKind::Navigated);
    assert!(e.wakeup.is_none());
    assert_eq!(b.current_url(id), Some("https://a.example/1".to_string()));

    let e = b.handle_native_event(id, "load-finished", "https://a.example/2".to_string()).unwrap();
    assert_eq!(e.event.kind, BrowserEventKind::LoadFinished);
    assert_eq!(b.current_url(id), Some("https://a.example/2".to_string()));

    assert!(b.handle_native_event(id, "exploded", "x".to_string()).is_none());
    assert_eq!(b.current_url(id), Some("https://a.example/2".to_string()));

    assert!(matches!(b.wait(id, 5), Ok(WaitRegistration::Pending)));
    let e = b.handle_native_event(id, "intercepted", "myapp://cb".to_string()).unwrap();
    assert_eq!(e.event.kind, BrowserEventKind::Intercepted);
    let wake = e.wakeup.unwrap();
    assert_eq!(wake.waiters, vec![5]);
    assert_eq!(wake.outcome, Ok("myapp://cb".to_string()));

    let e = b.handle_native_event(id, "closed", String::new()).unwrap();
    assert_eq!(e.event.kind, BrowserEventKind::Closed);
    assert_eq!(e.wakeup.unwrap().outcome, Ok("myapp://cb".to_string()));
    assert!(!b.is_open(id));
}
