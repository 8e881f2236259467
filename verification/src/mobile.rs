//! Decisions of the mobile bridge. On iOS and Android the native side decides about
//! interception itself (a navigation callback has to answer at once) and reports each
//! event back; these functions fold such a report into the registry.
use vstd::prelude::*;
use vstd::string::*;
use crate::controlled::{ControlledBrowsers, RegistryView, Wakeup, outcome_view};
use crate::models::{BrowserEvent, BrowserEventKind, BrowserEventView, event_kind_from_name};

verus! {

broadcast use vstd::string::group_string_axioms;

/// What a native event does: the event to broadcast, and the waiters to wake (after an
/// interception or a close).
pub struct NativeEffect<W> {
    pub event: BrowserEvent,
    pub wakeup: Option<Wakeup<W>>,
}

/// The registry after a native event of `kind` for browser `id` at `url`.
pub open spec fn after_native_event<W>(
    r: RegistryView<W>,
    id: u32,
    kind: BrowserEventKind,
    url: Seq<char>,
) -> RegistryView<W> {
    match kind {
        BrowserEventKind::Intercepted => r.after_record_intercepted(id, url),
        BrowserEventKind::Closed => r.after_mark_closed(id),
        _ => r.after_record_url(id, url),
    }
}

impl<W> ControlledBrowsers<W> {
    /// Folds a native event (`kind` as named on the wire) into the registry. An event of
    /// an unknown kind is ignored (`None`). An interception records its URL and wakes the
    /// waiters with it; a close marks the browser closed and wakes the waiters; any
    /// other event records the URL. The event is then broadcast as it came.
    pub fn handle_native_event(&mut self, id: u32, kind: &str, url: String) -> (r: Option<
        NativeEffect<W>,
    >)
        requires
            old(self)@.wf(),
        ensures
            final(self)@.wf(),
            match event_kind_from_name(kind@) {
                None => r is None && final(self)@ == old(self)@,
                Some(k) => r matches Some(effect) && effect.event@ == (BrowserEventView {
                    id,
                    kind: k,
                    url: url@,
                }) && final(self)@ == after_native_event(old(self)@, id, k, url@) && match k {
                    BrowserEventKind::Intercepted => effect.wakeup matches Some(wake)
                        && wake.waiters@ == old(self)@.waiters_of(id) && outcome_view(wake.outcome)
                        == Ok::<Seq<char>, Seq<char>>(url@),
                    BrowserEventKind::Closed => effect.wakeup matches Some(wake)
                        && wake.waiters@ == old(self)@.waiters_of(id) && outcome_view(wake.outcome)
                        == old(self)@.close_outcome(id),
                    _ => effect.wakeup is None,
                },
            },
    {
        let kind = match BrowserEventKind::from_name(kind) {
            Some(k) => k,
            None => return None,
        };
        let wakeup = match kind {
            BrowserEventKind::Intercepted => Some(self.record_intercepted(id, url.as_str())),
            BrowserEventKind::Closed => Some(self.mark_closed(id)),
            _ => {
                self.record_url(id, url.as_str());
                None
            },
        };
        Some(NativeEffect { event: BrowserEvent { id, kind, url }, wakeup })
    }
}

} // verus!
