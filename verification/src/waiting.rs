//! Waiting for an interception: how a wait starts and what its result becomes.
//!
//! The wait itself (a channel and an optional timeout) is the host's; these functions
//! decide what the registry does when a wait starts and what the caller is told for
//! each way the wait can end.
use vstd::prelude::*;
use vstd::string::*;
use crate::controlled::{ControlledBrowsers, WaitRegistration, outcome_view};
use crate::error::{Error, ErrorView};

verus! {

broadcast use vstd::string::group_string_axioms;

/// How a wait for an interception ended.
pub enum WaitEnd {
    /// The registry delivered an outcome: the intercepted URL, or why there is none.
    Delivered(Result<String, String>),
    /// The registry let go of the waiter without an outcome.
    Dropped,
    /// The caller's time limit ran out first.
    TimedOut,
}

/// The text view of how a wait ended.
pub enum WaitEndView {
    Delivered(Result<Seq<char>, Seq<char>>),
    Dropped,
    TimedOut,
}

impl View for WaitEnd {
    type V = WaitEndView;

    open spec fn view(&self) -> WaitEndView {
        match self {
            WaitEnd::Delivered(outcome) => WaitEndView::Delivered(outcome_view(*outcome)),
            WaitEnd::Dropped => WaitEndView::Dropped,
            WaitEnd::TimedOut => WaitEndView::TimedOut,
        }
    }
}

/// What the caller of a wait is told for each way it ended.
pub open spec fn wait_result(end: WaitEndView) -> Result<Seq<char>, ErrorView> {
    match end {
        WaitEndView::Delivered(Ok(url)) => Ok(url),
        WaitEndView::Delivered(Err(reason)) => Err(ErrorView::Browser(reason)),
        WaitEndView::Dropped => Err(ErrorView::Browser("browser was dropped"@)),
        WaitEndView::TimedOut => Err(ErrorView::Browser("timed out"@)),
    }
}

/// The text view of a wait's result.
pub open spec fn wait_result_view(r: Result<String, Error>) -> Result<Seq<char>, ErrorView> {
    match r {
        Ok(url) => Ok(url@),
        Err(e) => Err(e@),
    }
}

impl<W> ControlledBrowsers<W> {
    /// Starts a wait on browser `id`: an unknown id is refused with `BrowserNotFound`;
    /// otherwise the registry answers at once or keeps the waiter.
    pub fn begin_wait(&mut self, id: u32, waiter: W) -> (r: Result<WaitRegistration<W>, Error>)
        requires
            old(self)@.wf(),
        ensures
            final(self)@ == old(self)@.after_wait(id, waiter),
            final(self)@.wf(),
            !old(self)@.contains(id) ==> (r matches Err(e) && e@ == ErrorView::BrowserNotFound(id)),
            old(self)@.contains(id) ==> match old(self)@.slots[id].ready_outcome() {
                Some(outcome) => r matches Ok(WaitRegistration::Ready { waiter: w, outcome: o })
                    && w == waiter && outcome_view(o) == outcome,
                None => r matches Ok(WaitRegistration::Pending),
            },
    {
        if !self.contains(id) {
            return Err(Error::BrowserNotFound(id));
        }
        match self.wait(id, waiter) {
            Ok(registration) => Ok(registration),
            Err(reason) => Err(Error::Browser(reason)),
        }
    }
}

/// What the caller of a wait is told: the intercepted URL, or a browser error.
pub fn finish_wait(end: WaitEnd) -> (r: Result<String, Error>)
    ensures
        wait_result_view(r) == wait_result(end@),
{
    match end {
        WaitEnd::Delivered(Ok(url)) => Ok(url),
        WaitEnd::Delivered(Err(reason)) => Err(Error::Browser(reason)),
        WaitEnd::Dropped => Err(Error::Browser("browser was dropped".to_owned())),
        WaitEnd::TimedOut => Err(Error::Browser("timed out".to_owned())),
    }
}

/// A wait ends well only when the registry delivered an intercepted URL, and then the
/// caller gets exactly that URL; a delivered reason is passed on as a browser error.
pub proof fn law_wait_result_passes_outcome_through(end: WaitEndView, url: Seq<char>, reason: Seq<char>)
    ensures
        wait_result(end) is Ok <==> end matches WaitEndView::Delivered(Ok(_)),
        wait_result(WaitEndView::Delivered(Ok(url))) == Ok::<Seq<char>, ErrorView>(url),
        wait_result(WaitEndView::Delivered(Err(reason))) == Err::<Seq<char>, ErrorView>(
            ErrorView::Browser(reason),
        ),
{
}

} // verus!
