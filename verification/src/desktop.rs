//! Decisions of the desktop windows (one webview window per controllable browser).
//!
//! The window itself is the host's; these functions decide its label, how it is set
//! up, what each navigation, page load and destruction does to the registry, and
//! which event is broadcast.
use vstd::prelude::*;
use vstd::string::*;
use crate::controlled::{ControlledBrowsers, Wakeup, outcome_view};
use crate::error::{Error, ErrorView};
use crate::models::{
    BrowserEvent, BrowserEventKind, BrowserEventView, OpenControlledRequest, text_or_empty,
};
use crate::text::{decimal, law_decimal_distinct, law_decimal_reads_back, push_decimal};
use crate::urls::{ParsedUrl, is_web_url, parse_web_url};

verus! {

broadcast use vstd::string::group_string_axioms;

/// The label of the window of browser `id`.
pub open spec fn window_label_text(id: u32) -> Seq<char> {
    "astrobox-inappbrowser-"@ + decimal(id as nat)
}

/// The label of the window of browser `id`.
pub fn window_label(id: u32) -> (label: String)
    ensures
        label@ == window_label_text(id),
{
    let mut label = "astrobox-inappbrowser-".to_owned();
    push_decimal(&mut label, id);
    label
}

/// Default window width, when the request names none.
pub const DEFAULT_WIDTH: u32 = 480;

/// Default window height, when the request names none.
pub const DEFAULT_HEIGHT: u32 = 720;

/// How to build the window of a newly opened browser.
pub struct OpenPlan {
    pub id: u32,
    pub label: String,
    pub url: ParsedUrl,
    pub title: String,
    pub width: u32,
    pub height: u32,
    /// Whether the window keeps no browsing data.
    pub incognito: bool,
    pub user_agent: Option<String>,
}

/// What to do about one navigation of a desktop window.
pub struct NavigationDecision<W> {
    /// Whether the navigation goes ahead (false: it is cancelled).
    pub allow: bool,
    pub event: BrowserEvent,
    /// Whether the window is to be destroyed.
    pub close_window: bool,
    /// The waiters to wake, when the navigation was intercepted.
    pub wakeup: Option<Wakeup<W>>,
}

impl<W> ControlledBrowsers<W> {
    /// Opens a browser for `request` on the desktop: the URL must be an http or https
    /// URL (else `InvalidUrl`, and nothing changes); then an id is allocated and the
    /// window is described: its label, the title (empty when absent), the size (480 by
    /// 720 unless given), incognito when the request is ephemeral, and the user agent.
    pub fn plan_open(&mut self, request: OpenControlledRequest) -> (r: Result<OpenPlan, Error>)
        requires
            old(self)@.wf(),
            old(self)@.next_id < u32::MAX,
        ensures
            final(self)@.wf(),
            !is_web_url(request.url@) ==> (r matches Err(e) && e@ == ErrorView::InvalidUrl
                && final(self)@ == old(self)@),
            is_web_url(request.url@) ==> (r matches Ok(plan) && plan.id == old(self)@.next_id + 1
                && final(self)@ == old(self)@.after_allocate(request@) && plan.label@
                == window_label_text(plan.id) && plan.url.source() == request.url@ && plan.title@
                == text_or_empty(request@.title) && plan.width == request.width.unwrap_or(
                DEFAULT_WIDTH,
            ) && plan.height == request.height.unwrap_or(DEFAULT_HEIGHT) && plan.incognito
                == request.ephemeral && plan.user_agent.deep_view() == request@.user_agent),
    {
        let url = parse_web_url(request.url.as_str())?;
        let id = self.allocate(&request);
        let title = match request.title {
            Some(t) => t,
            None => String::new(),
        };
        Ok(OpenPlan {
            id,
            label: window_label(id),
            url,
            title,
            width: request.width.unwrap_or(DEFAULT_WIDTH),
            height: request.height.unwrap_or(DEFAULT_HEIGHT),
            incognito: request.ephemeral,
            user_agent: request.user_agent,
        })
    }

    /// Decides a navigation of the window of browser `id` to `url`: an intercepted one
    /// is cancelled and reported (and the window destroyed if the browser closes on
    /// interception); any other goes ahead and is reported as navigated.
    pub fn handle_navigation(&mut self, id: u32, url: &str) -> (d: NavigationDecision<W>)
        requires
            old(self)@.wf(),
        ensures
            final(self)@ == old(self)@.after_navigation(id, url@),
            final(self)@.wf(),
            d.allow == !old(self)@.intercepts(id, url@),
            d.event@ == (BrowserEventView {
                id,
                kind: if old(self)@.intercepts(id, url@) {
                    BrowserEventKind::Intercepted
                } else {
                    BrowserEventKind::Navigated
                },
                url: url@,
            }),
            d.close_window == (old(self)@.intercepts(id, url@)
                && old(self)@.slots[id].close_on_intercept),
            d.wakeup is Some == old(self)@.intercepts(id, url@),
            d.wakeup matches Some(wake) ==> wake.waiters@ == old(self)@.waiters_of(id)
                && outcome_view(wake.outcome) == Ok::<Seq<char>, Seq<char>>(url@),
    {
        let wakeup = self.should_intercept(id, url);
        match wakeup {
            Some(wake) => {
                let close_window = self.should_close_on_intercept(id);
                NavigationDecision {
                    allow: false,
                    event: BrowserEvent {
                        id,
                        kind: BrowserEventKind::Intercepted,
                        url: url.to_owned(),
                    },
                    close_window,
                    wakeup: Some(wake),
                }
            },
            None => NavigationDecision {
                allow: true,
                event: BrowserEvent { id, kind: BrowserEventKind::Navigated, url: url.to_owned() },
                close_window: false,
                wakeup: None,
            },
        }
    }

    /// A page of browser `id` finished loading at `url`: the URL is recorded and the
    /// load is reported.
    pub fn handle_page_load(&mut self, id: u32, url: &str) -> (event: BrowserEvent)
        requires
            old(self)@.wf(),
        ensures
            final(self)@ == old(self)@.after_record_url(id, url@),
            final(self)@.wf(),
            event@ == (BrowserEventView { id, kind: BrowserEventKind::LoadFinished, url: url@ }),
    {
        self.record_url(id, url);
        BrowserEvent { id, kind: BrowserEventKind::LoadFinished, url: url.to_owned() }
    }

    /// The window of browser `id` was destroyed (also when the user closed it): the
    /// browser is marked closed, its waiters are woken, and the close is reported.
    pub fn handle_window_destroyed(&mut self, id: u32) -> (r: (BrowserEvent, Wakeup<W>))
        requires
            old(self)@.wf(),
        ensures
            final(self)@ == old(self)@.after_mark_closed(id),
            final(self)@.wf(),
            r.0@ == (BrowserEventView {
                id,
                kind: BrowserEventKind::Closed,
                url: Seq::empty(),
            }),
            r.1.waiters@ == old(self)@.waiters_of(id),
            outcome_view(r.1.outcome) == old(self)@.close_outcome(id),
    {
        let wake = self.mark_closed(id);
        (BrowserEvent { id, kind: BrowserEventKind::Closed, url: String::new() }, wake)
    }
}

/// Different browsers get different window labels, each the fixed label prefix
/// followed by the browser id in decimal digits.
pub proof fn law_window_labels_distinct(a: u32, b: u32)
    ensures
        window_label_text(a) == window_label_text(b) ==> a == b,
        window_label_text(a).len() > "astrobox-inappbrowser-"@.len(),
        window_label_text(a).subrange(0, "astrobox-inappbrowser-"@.len() as int)
            == "astrobox-inappbrowser-"@,
{
    let p = "astrobox-inappbrowser-"@;
    law_decimal_reads_back(a as nat);
    assert(window_label_text(a).subrange(0, p.len() as int) =~= p);
    if window_label_text(a) == window_label_text(b) {
        assert(decimal(a as nat) =~= window_label_text(a).subrange(
            p.len() as int,
            window_label_text(a).len() as int,
        ));
        assert(decimal(b as nat) =~= window_label_text(b).subrange(
            p.len() as int,
            window_label_text(b).len() as int,
        ));
        law_decimal_distinct(a as nat, b as nat);
    }
}

} // verus!
