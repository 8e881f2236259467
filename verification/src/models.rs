//! The plain values that pass between the host application and the browser windows.
use vstd::prelude::*;
use vstd::string::*;
use crate::text::text_eq;

verus! {

broadcast use vstd::string::group_string_axioms;

/// A request to open a page in the platform's system in-app browser (an http/https URL).
#[derive(Debug, Clone)]
pub struct OpenRequest {
    pub url: String,
}

/// A request to open a controllable browser window.
#[derive(Debug, Clone, Default)]
pub struct OpenControlledRequest {
    pub url: String,
    pub title: Option<String>,
    pub user_agent: Option<String>,
    /// A navigation to a URL that starts with any of these (non-empty) prefixes is
    /// cancelled and reported as an interception.
    pub intercept_prefixes: Vec<String>,
    pub close_on_intercept: bool,
    pub ephemeral: bool,
    pub width: Option<u32>,
    pub height: Option<u32>,
}

/// The mathematical content of an [`OpenControlledRequest`].
pub struct OpenControlledRequestView {
    pub url: Seq<char>,
    pub title: Option<Seq<char>>,
    pub user_agent: Option<Seq<char>>,
    pub intercept_prefixes: Seq<Seq<char>>,
    pub close_on_intercept: bool,
    pub ephemeral: bool,
    pub width: Option<u32>,
    pub height: Option<u32>,
}

impl View for OpenControlledRequest {
    type V = OpenControlledRequestView;

    open spec fn view(&self) -> OpenControlledRequestView {
        OpenControlledRequestView {
            url: self.url@,
            title: self.title.deep_view(),
            user_agent: self.user_agent.deep_view(),
            intercept_prefixes: self.intercept_prefixes.deep_view(),
            close_on_intercept: self.close_on_intercept,
            ephemeral: self.ephemeral,
            width: self.width,
            height: self.height,
        }
    }
}

/// A cookie that a browser window holds for some URL.
#[derive(Debug, Clone)]
pub struct BrowserCookie {
    pub name: String,
    pub value: String,
    pub domain: String,
    pub path: String,
}

/// The text of an optional attribute, empty when it is absent.
pub open spec fn text_or_empty(s: Option<Seq<char>>) -> Seq<char> {
    match s {
        Some(t) => t,
        None => Seq::empty(),
    }
}

impl BrowserCookie {
    /// Builds a cookie from its parts; an absent domain or path becomes the empty text.
    pub fn from_parts(name: &str, value: &str, domain: Option<&str>, path: Option<&str>) -> (c:
        BrowserCookie)
        ensures
            c.name@ == name@,
            c.value@ == value@,
            c.domain@ == text_or_empty(domain.deep_view()),
            c.path@ == text_or_empty(path.deep_view()),
    {
        let domain = match domain {
            Some(d) => d.to_owned(),
            None => String::new(),
        };
        let path = match path {
            Some(p) => p.to_owned(),
            None => String::new(),
        };
        BrowserCookie { name: name.to_owned(), value: value.to_owned(), domain, path }
    }
}

/// What happened in a browser window.
#[derive(Debug, Clone, Copy, PartialEq, Eq, Structural)]
pub enum BrowserEventKind {
    Navigated,
    Intercepted,
    LoadFinished,
    Closed,
}

/// The name of each event kind on the wire (kebab case).
pub open spec fn event_kind_name(kind: BrowserEventKind) -> Seq<char> {
    match kind {
        BrowserEventKind::Navigated => "navigated"@,
        BrowserEventKind::Intercepted => "intercepted"@,
        BrowserEventKind::LoadFinished => "load-finished"@,
        BrowserEventKind::Closed => "closed"@,
    }
}

/// The event kind that a wire name stands for, if any.
pub open spec fn event_kind_from_name(name: Seq<char>) -> Option<BrowserEventKind> {
    if name == "navigated"@ {
        Some(BrowserEventKind::Navigated)
    } else if name == "intercepted"@ {
        Some(BrowserEventKind::Intercepted)
    } else if name == "load-finished"@ {
        Some(BrowserEventKind::LoadFinished)
    } else if name == "closed"@ {
        Some(BrowserEventKind::Closed)
    } else {
        None
    }
}

impl BrowserEventKind {
    /// The name of this kind on the wire.
    pub fn name(&self) -> (s: &'static str)
        ensures
            s@ == event_kind_name(*self),
    {
        match self {
            BrowserEventKind::Navigated => "navigated",
            BrowserEventKind::Intercepted => "intercepted",
            BrowserEventKind::LoadFinished => "load-finished",
            BrowserEventKind::Closed => "closed",
        }
    }

    /// Reads a wire name; an unknown name gives `None`.
    pub fn from_name(name: &str) -> (k: Option<BrowserEventKind>)
        ensures
            k == event_kind_from_name(name@),
    {
        if text_eq(name, "navigated") {
            Some(BrowserEventKind::Navigated)
        } else if text_eq(name, "intercepted") {
            Some(BrowserEventKind::Intercepted)
        } else if text_eq(name, "load-finished") {
            Some(BrowserEventKind::LoadFinished)
        } else if text_eq(name, "closed") {
            Some(BrowserEventKind::Closed)
        } else {
            None
        }
    }
}

/// An event of one browser window, as it is broadcast to the host.
#[derive(Debug, Clone)]
pub struct BrowserEvent {
    pub id: u32,
    pub kind: BrowserEventKind,
    pub url: String,
}

/// The mathematical content of a [`BrowserEvent`].
pub struct BrowserEventView {
    pub id: u32,
    pub kind: BrowserEventKind,
    pub url: Seq<char>,
}

impl View for BrowserEvent {
    type V = BrowserEventView;

    open spec fn view(&self) -> BrowserEventView {
        BrowserEventView { id: self.id, kind: self.kind, url: self.url@ }
    }
}

/// Reading back the wire name of any event kind gives that kind.
pub proof fn law_event_kind_name_round_trip(kind: BrowserEventKind)
    ensures
        event_kind_from_name(event_kind_name(kind)) == Some(kind),
{
    reveal_strlit("navigated");
    reveal_strlit("intercepted");
    reveal_strlit("load-finished");
    reveal_strlit("closed");
    assert("intercepted"@[0] != "navigated"@[0]);
    assert("load-finished"@[0] != "navigated"@[0]);
    assert("load-finished"@[0] != "intercepted"@[0]);
    assert("closed"@[0] != "navigated"@[0]);
    assert("closed"@[0] != "intercepted"@[0]);
    assert("closed"@[0] != "load-finished"@[0]);
}

/// A cookie attribute that is present is kept as it is; an absent one is empty.
pub proof fn law_text_or_empty(text: Seq<char>)
    ensures
        text_or_empty(Some(text)) == text,
        text_or_empty(None).len() == 0,
{
}

} // verus!
