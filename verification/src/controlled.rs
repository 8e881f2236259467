//! The registry of controllable browsers shared by all platforms.
//!
//! Each platform only opens, navigates, reads and closes windows; the registry allocates
//! ids, decides which navigations are intercepted (by URL prefix), remembers the
//! intercepted URL, and hands back the callers that wait for it together with what
//! each of them is owed. A closed browser is kept (up to a bound) so that a caller
//! that asks after an automatic close-on-intercept still gets its URL.
//!
//! The registry is generic over the waiter type `W`: whatever a caller leaves behind
//! to be woken (a channel sender in the host application).
use std::collections::HashMap;
use vstd::prelude::*;
use vstd::string::*;
use vstd::std_specs::iter::IteratorSpec;
use crate::models::{OpenControlledRequest, OpenControlledRequestView};
use crate::error::{Error, ErrorView};
use crate::text::{decimal, push_decimal, text_starts_with};

verus! {

broadcast use {
    vstd::std_specs::hash::group_hash_axioms,
    vstd::string::group_string_axioms,
    vstd::set::group_set_axioms,
    vstd::seq_lib::seq_to_set_is_finite,
};

/// How many closed browsers are kept at most when a new one is allocated.
///
/// Closing only marks a browser: the usual close-on-intercept flow closes the window
/// right after the callback URL was caught, and the caller may come to wait for the
/// result only after that. The oldest closed browsers beyond this bound are dropped.
pub const MAX_RETAINED_CLOSED: usize = 32;

/// What a caller waiting on an interception is told when a browser closes without one.
pub open spec fn closed_text() -> Seq<char> {
    "browser was closed"@
}

/// What `wait` answers for an unknown id.
pub open spec fn not_found_text(id: u32) -> Seq<char> {
    "browser "@ + decimal(id as nat) + " not found"@
}

/// Whether an interception prefix catches a URL: an empty prefix never does.
pub open spec fn prefix_catches(prefix: Seq<char>, url: Seq<char>) -> bool {
    prefix.len() > 0 && prefix.is_prefix_of(url)
}

/// The mathematical content of one browser's shared state.
pub struct SlotView<W> {
    pub intercept_prefixes: Seq<Seq<char>>,
    pub close_on_intercept: bool,
    /// The URL caught by an interception, if one happened.
    pub intercepted: Option<Seq<char>>,
    pub closed: bool,
    /// The callers waiting for an interception, in the order they came.
    pub waiters: Seq<W>,
    pub last_url: Seq<char>,
}

impl<W> SlotView<W> {
    /// Whether a navigation to `url` is to be cancelled and reported.
    pub open spec fn matches(self, url: Seq<char>) -> bool {
        exists|i: int|
            0 <= i < self.intercept_prefixes.len() && #[trigger] prefix_catches(
                self.intercept_prefixes[i],
                url,
            )
    }

    /// Nobody waits on a browser whose outcome is already known.
    pub open spec fn settled(self) -> bool {
        (self.closed || self.intercepted is Some) ==> self.waiters.len() == 0
    }

    /// What the waiters get when the browser closes.
    pub open spec fn closing_outcome(self) -> Result<Seq<char>, Seq<char>> {
        match self.intercepted {
            Some(url) => Ok(url),
            None => Err(closed_text()),
        }
    }

    /// What a new waiter gets at once, or `None` if it has to wait.
    pub open spec fn ready_outcome(self) -> Option<Result<Seq<char>, Seq<char>>> {
        match self.intercepted {
            Some(url) => Some(Ok(url)),
            None => if self.closed {
                Some(Err(closed_text()))
            } else {
                None
            },
        }
    }
}

/// The state of a browser that was just opened with `request`.
pub open spec fn fresh_slot<W>(request: OpenControlledRequestView) -> SlotView<W> {
    SlotView {
        intercept_prefixes: request.intercept_prefixes,
        close_on_intercept: request.close_on_intercept,
        intercepted: None,
        closed: false,
        waiters: Seq::empty(),
        last_url: request.url,
    }
}

/// The text view of the outcome handed to a waiter.
pub open spec fn outcome_view(outcome: Result<String, String>) -> Result<Seq<char>, Seq<char>> {
    match outcome {
        Ok(url) => Ok(url@),
        Err(reason) => Err(reason@),
    }
}

/// The mathematical content of the registry: the browsers by id, and how many ids
/// were handed out so far.
pub struct RegistryView<W> {
    pub slots: Map<u32, SlotView<W>>,
    pub next_id: nat,
}

impl<W> RegistryView<W> {
    /// The registry's invariant: finitely many browsers, each with an id that was
    /// handed out, and no waiter on a browser whose outcome is known.
    pub open spec fn wf(self) -> bool {
        &&& self.slots.dom().finite()
        &&& forall|k: u32| #[trigger]
            self.slots.contains_key(k) ==> 1 <= k <= self.next_id && self.slots[k].settled()
    }

    pub open spec fn contains(self, id: u32) -> bool {
        self.slots.contains_key(id)
    }

    pub open spec fn is_open(self, id: u32) -> bool {
        self.slots.contains_key(id) && !self.slots[id].closed
    }

    /// The ids of the closed browsers.
    pub open spec fn closed_ids(self) -> Set<u32> {
        self.slots.dom().filter(|k: u32| self.slots[k].closed)
    }

    /// The closed browsers that were opened after browser `id`.
    pub open spec fn newer_closed(self, id: u32) -> Set<u32> {
        self.closed_ids().filter(|j: u32| j > id)
    }

    /// The closed browsers that are dropped at the next allocation: all but the
    /// `MAX_RETAINED_CLOSED` most recently opened closed ones.
    pub open spec fn stale_ids(self) -> Set<u32> {
        self.closed_ids().filter(|k: u32| self.newer_closed(k).len() >= MAX_RETAINED_CLOSED)
    }

    pub open spec fn with_slot(self, id: u32, slot: SlotView<W>) -> Self {
        RegistryView { slots: self.slots.insert(id, slot), next_id: self.next_id }
    }

    /// The registry after a browser is opened with `request`.
    pub open spec fn after_allocate(self, request: OpenControlledRequestView) -> Self {
        RegistryView {
            slots: self.slots.remove_keys(self.stale_ids()).insert(
                (self.next_id + 1) as u32,
                fresh_slot(request),
            ),
            next_id: self.next_id + 1,
        }
    }

    /// The waiters of browser `id` (none for an unknown id).
    pub open spec fn waiters_of(self, id: u32) -> Seq<W> {
        if self.contains(id) {
            self.slots[id].waiters
        } else {
            Seq::empty()
        }
    }

    pub open spec fn after_record_url(self, id: u32, url: Seq<char>) -> Self {
        if self.contains(id) {
            self.with_slot(id, SlotView { last_url: url, ..self.slots[id] })
        } else {
            self
        }
    }

    pub open spec fn after_record_intercepted(self, id: u32, url: Seq<char>) -> Self {
        if self.contains(id) {
            self.with_slot(
                id,
                SlotView {
                    intercepted: Some(url),
                    last_url: url,
                    waiters: Seq::empty(),
                    ..self.slots[id]
                },
            )
        } else {
            self
        }
    }

    pub open spec fn after_mark_closed(self, id: u32) -> Self {
        if self.contains(id) {
            self.with_slot(id, SlotView { closed: true, waiters: Seq::empty(), ..self.slots[id] })
        } else {
            self
        }
    }

    /// What the waiters of browser `id` get when it closes.
    pub open spec fn close_outcome(self, id: u32) -> Result<Seq<char>, Seq<char>> {
        if self.contains(id) {
            self.slots[id].closing_outcome()
        } else {
            Err(closed_text())
        }
    }

    /// Whether a navigation of browser `id` to `url` is intercepted.
    pub open spec fn intercepts(self, id: u32, url: Seq<char>) -> bool {
        self.contains(id) && self.slots[id].matches(url)
    }

    /// The registry after browser `id` navigates to `url`.
    pub open spec fn after_navigation(self, id: u32, url: Seq<char>) -> Self {
        if self.intercepts(id, url) {
            self.after_record_intercepted(id, url)
        } else {
            self.after_record_url(id, url)
        }
    }

    /// The registry after a caller starts to wait on browser `id`.
    pub open spec fn after_wait(self, id: u32, waiter: W) -> Self {
        if self.contains(id) && self.slots[id].ready_outcome() is None {
            self.with_slot(
                id,
                SlotView { waiters: self.slots[id].waiters.push(waiter), ..self.slots[id] },
            )
        } else {
            self
        }
    }
}

/// The callers to wake, and what each of them is owed.
pub struct Wakeup<W> {
    pub waiters: Vec<W>,
    pub outcome: Result<String, String>,
}

/// How a wait starts: answered at once, or left to a later interception or close.
pub enum WaitRegistration<W> {
    Ready { waiter: W, outcome: Result<String, String> },
    Pending,
}

/// One browser's shared state.
pub struct BrowserSlot<W> {
    intercept_prefixes: Vec<String>,
    close_on_intercept: bool,
    intercepted: Option<String>,
    closed: bool,
    waiters: Vec<W>,
    last_url: String,
}

impl<W> View for BrowserSlot<W> {
    type V = SlotView<W>;

    closed spec fn view(&self) -> SlotView<W> {
        SlotView {
            intercept_prefixes: self.intercept_prefixes.deep_view(),
            close_on_intercept: self.close_on_intercept,
            intercepted: self.intercepted.deep_view(),
            closed: self.closed,
            waiters: self.waiters@,
            last_url: self.last_url@,
        }
    }
}

impl<W> BrowserSlot<W> {
    /// Whether some non-empty interception prefix starts `url`.
    fn matches(&self, url: &str) -> (r: bool)
        ensures
            r == self@.matches(url@),
    {
        let n = self.intercept_prefixes.len();
        let mut i: usize = 0;
        while i < n
            invariant
                n == self.intercept_prefixes@.len(),
                i <= n,
                forall|j: int|
                    0 <= j < i ==> !#[trigger] prefix_catches(self@.intercept_prefixes[j], url@),
            decreases n - i,
        {
            let prefix = self.intercept_prefixes[i].as_str();
            assert(prefix@ == self@.intercept_prefixes[i as int]);
            if !prefix.is_empty() && text_starts_with(url, prefix) {
                assert(prefix_catches(self@.intercept_prefixes[i as int], url@));
                return true;
            }
            i = i + 1;
        }
        false
    }
}

/// How many of the (distinct) ids in `ids` are greater than `id`.
fn count_newer(ids: &Vec<u32>, id: u32) -> (n: usize)
    requires
        ids@.no_duplicates(),
    ensures
        n as nat == ids@.to_set().filter(|j: u32| j > id).len(),
{
    let mut n: usize = 0;
    let mut i: usize = 0;
    assert(ids@.take(0).to_set().filter(|j: u32| j > id) =~= Set::empty());
    while i < ids.len()
        invariant
            i <= ids@.len(),
            n <= i,
            ids@.no_duplicates(),
            n as nat == ids@.take(i as int).to_set().filter(|j: u32| j > id).len(),
        decreases ids@.len() - i,
    {
        let ghost prev = ids@.take(i as int).to_set();
        assert(ids@.take(i as int + 1).to_set() =~= prev.insert(ids@[i as int])) by {
            assert(ids@.take(i as int + 1) =~= ids@.take(i as int).push(ids@[i as int]));
            ids@.take(i as int).lemma_push_to_set_commute(ids@[i as int]);
        }
        assert(!prev.contains(ids@[i as int])) by {
            if prev.contains(ids@[i as int]) {
                let k = choose|k: int| 0 <= k < i && ids@.take(i as int)[k] == ids@[i as int];
                assert(ids@[k] == ids@[i as int]);
            }
        }
        if ids[i] > id {
            assert(prev.insert(ids@[i as int]).filter(|j: u32| j > id) =~= prev.filter(
                |j: u32| j > id,
            ).insert(ids@[i as int]));
            n = n + 1;
        } else {
            assert(prev.insert(ids@[i as int]).filter(|j: u32| j > id) =~= prev.filter(
                |j: u32| j > id,
            ));
        }
        i = i + 1;
    }
    assert(ids@.take(ids@.len() as int) =~= ids@);
    n
}

/// The registry of controllable browsers.
pub struct ControlledBrowsers<W> {
    slots: HashMap<u32, BrowserSlot<W>>,
    next_id: u32,
}

impl<W> View for ControlledBrowsers<W> {
    type V = RegistryView<W>;

    closed spec fn view(&self) -> RegistryView<W> {
        RegistryView {
            slots: self.slots@.map_values(|s: BrowserSlot<W>| s@),
            next_id: self.next_id as nat,
        }
    }
}

impl<W> ControlledBrowsers<W> {
    proof fn lemma_finite(&self)
        ensures
            self@.slots.dom().finite(),
    {
        assert(self.slots@.dom().finite());
        assert(self@.slots.dom() =~= self.slots@.dom());
    }

    /// An empty registry that has handed out no id.
    pub fn new() -> (b: Self)
        ensures
            b@.slots == Map::<u32, SlotView<W>>::empty(),
            b@.next_id == 0,
            b@.wf(),
    {
        let b = ControlledBrowsers { slots: HashMap::new(), next_id: 0 };
        assert(b@.slots =~= Map::<u32, SlotView<W>>::empty());
        b
    }

    /// How many ids were handed out so far (the last id handed out, or 0).
    pub fn ids_handed_out(&self) -> (n: u32)
        ensures
            n == self@.next_id,
    {
        self.next_id
    }

    /// Whether a browser with this id is known (open or closed but retained).
    pub fn contains(&self, id: u32) -> (r: bool)
        ensures
            r == self@.contains(id),
    {
        self.slots.contains_key(&id)
    }

    /// Whether the browser is known and not closed; navigation and script evaluation
    /// need this.
    pub fn is_open(&self, id: u32) -> (r: bool)
        ensures
            r == self@.is_open(id),
    {
        match self.slots.get(&id) {
            Some(slot) => !slot.closed,
            None => false,
        }
    }

    /// Whether the browser closes itself after an interception (false for an unknown id).
    pub fn should_close_on_intercept(&self, id: u32) -> (r: bool)
        ensures
            r == (self@.contains(id) && self@.slots[id].close_on_intercept),
    {
        match self.slots.get(&id) {
            Some(slot) => slot.close_on_intercept,
            None => false,
        }
    }

    /// The URL the browser was last seen at.
    pub fn current_url(&self, id: u32) -> (r: Option<String>)
        ensures
            r.deep_view() == (if self@.contains(id) {
                Some(self@.slots[id].last_url)
            } else {
                None
            }),
    {
        match self.slots.get(&id) {
            Some(slot) => Some(slot.last_url.clone()),
            None => None,
        }
    }

    /// The ids of the closed browsers, each once.
    fn closed_id_list(&self) -> (ids: Vec<u32>)
        ensures
            ids@.no_duplicates(),
            ids@.to_set() == self@.closed_ids(),
    {
        let mut ids: Vec<u32> = Vec::new();
        let keys = self.slots.keys();
        let ghost all = keys.remaining();
        for key in it: keys
            invariant
                it.seq() == all,
                it.seq().unref().to_set() == self.slots@.dom(),
                it.seq().no_duplicates(),
                ids@.no_duplicates(),
                forall|x: u32| #[trigger]
                    ids@.contains(x) ==> self@.closed_ids().contains(x) && exists|i: int|
                        0 <= i < it.index() && *it.seq()[i] == x,
                forall|i: int|
                    0 <= i < it.index() && self@.closed_ids().contains(*it.seq()[i])
                        ==> ids@.contains(#[trigger] *it.seq()[i]),
        {
            let ghost idx = it.index();
            let ghost before = ids@;
            assert(*key == *it.seq()[idx]);
            let slot = self.slots.get(key).unwrap();
            assert(slot.closed == self@.closed_ids().contains(*key));
            if slot.closed {
                proof {
                    if ids@.contains(*key) {
                        let i = choose|i: int| 0 <= i < idx && *it.seq()[i] == *key;
                        assert(it.seq()[i] == it.seq()[idx]);
                    }
                }
                ids.push(*key);
            }
            proof {
                assert forall|x: u32| #[trigger] ids@.contains(x) implies self@.closed_ids().contains(
                    x,
                ) && exists|i: int| 0 <= i < idx + 1 && *it.seq()[i] == x by {
                    if before.contains(x) {
                        let j = choose|j: int| 0 <= j < idx && *it.seq()[j] == x;
                        assert(0 <= j < idx + 1 && *it.seq()[j] == x);
                    } else {
                        let k = choose|k: int| 0 <= k < ids@.len() && ids@[k] == x;
                        assert(k == before.len());
                        assert(*it.seq()[idx] == x);
                    }
                }
                assert forall|i: int|
                    0 <= i < idx + 1 && self@.closed_ids().contains(*it.seq()[i]) implies ids@.contains(
                    #[trigger] *it.seq()[i],
                ) by {
                    if i < idx {
                        let k = choose|k: int| 0 <= k < before.len() && before[k] == *it.seq()[i];
                        assert(ids@[k] == before[k]);
                    } else {
                        assert(ids@[ids@.len() - 1] == *key);
                    }
                }
            }
        }
        proof {
            assert forall|x: u32| self@.closed_ids().contains(x) implies ids@.contains(x) by {
                assert(all.unref().to_set().contains(x));
                let i = choose|i: int| 0 <= i < all.unref().len() && all.unref()[i] == x;
                assert(*all[i] == x);
            }
            assert(ids@.to_set() =~= self@.closed_ids());
        }
        ids
    }

    /// Drops the closed browsers beyond the `MAX_RETAINED_CLOSED` most recently opened.
    fn prune_closed(&mut self)
        requires
            old(self)@.wf(),
        ensures
            final(self)@.slots == old(self)@.slots.remove_keys(old(self)@.stale_ids()),
            final(self)@.next_id == old(self)@.next_id,
    {
        let ghost start = self@;
        let closed = self.closed_id_list();
        let ghost stale_pred = |k: u32| start.newer_closed(k).len() >= MAX_RETAINED_CLOSED;
        let ghost mut removed: Set<u32> = Set::empty();
        let mut i: usize = 0;
        assert(closed@.take(0).to_set().filter(stale_pred) =~= Set::empty());
        assert(self@.slots =~= start.slots.remove_keys(removed));
        while i < closed.len()
            invariant
                i <= closed@.len(),
                closed@.no_duplicates(),
                closed@.to_set() == start.closed_ids(),
                stale_pred == (|k: u32| start.newer_closed(k).len() >= MAX_RETAINED_CLOSED),
                removed == closed@.take(i as int).to_set().filter(stale_pred),
                self@.slots == start.slots.remove_keys(removed),
                self@.next_id == start.next_id,
            decreases closed@.len() - i,
        {
            let id = closed[i];
            let newer = count_newer(&closed, id);
            assert(closed@.to_set().filter(|j: u32| j > id) =~= start.newer_closed(id));
            let ghost prev = closed@.take(i as int).to_set();
            assert(closed@.take(i as int + 1).to_set() =~= prev.insert(id)) by {
                assert(closed@.take(i as int + 1) =~= closed@.take(i as int).push(id));
                closed@.take(i as int).lemma_push_to_set_commute(id);
            }
            if newer >= MAX_RETAINED_CLOSED {
                let ghost before = self@;
                self.slots.remove(&id);
                proof {
                    assert(self@.slots =~= before.slots.remove(id));
                    removed = removed.insert(id);
                    assert(prev.insert(id).filter(stale_pred) =~= prev.filter(stale_pred).insert(id));
                    assert(self@.slots =~= start.slots.remove_keys(removed));
                }
            } else {
                assert(prev.insert(id).filter(stale_pred) =~= prev.filter(stale_pred));
            }
            i = i + 1;
        }
        proof {
            assert(closed@.take(closed@.len() as int) =~= closed@);
            assert(removed =~= start.stale_ids());
        }
    }

    /// Opens a new browser for `request` and returns its id: one more than the number
    /// of ids handed out so far, so never one in use. Closed browsers beyond the most
    /// recent `MAX_RETAINED_CLOSED` are dropped first.
    pub fn allocate(&mut self, request: &OpenControlledRequest) -> (id: u32)
        requires
            old(self)@.wf(),
            old(self)@.next_id < u32::MAX,
        ensures
            id == old(self)@.next_id + 1,
            !old(self)@.contains(id),
            final(self)@ == old(self)@.after_allocate(request@),
            final(self)@.wf(),
            final(self)@.closed_ids().len() <= MAX_RETAINED_CLOSED,
            final(self)@.slots[id].close_on_intercept == request.close_on_intercept,
            final(self)@.slots[id].intercept_prefixes == request@.intercept_prefixes,
    {
        let ghost start = self@;
        proof {
            crate::laws::law_allocate_bounds_closed(start, request@);
        }
        self.prune_closed();
        let id = self.next_id + 1;
        self.next_id = id;
        let prefixes = request.intercept_prefixes.clone();
        assert(prefixes.deep_view() =~= request.intercept_prefixes.deep_view()) by {
            assert forall|i: int| 0 <= i < prefixes@.len() implies prefixes@[i]@
                == request.intercept_prefixes@[i]@ by {
                assert(cloned::<String>(request.intercept_prefixes@[i], prefixes@[i]));
            }
        }
        self.slots.insert(
            id,
            BrowserSlot {
                intercept_prefixes: prefixes,
                close_on_intercept: request.close_on_intercept,
                intercepted: None,
                closed: false,
                waiters: Vec::new(),
                last_url: request.url.clone(),
            },
        );
        assert(self@.slots =~= start.after_allocate(request@).slots);
        proof {
            self.lemma_finite();
        }
        id
    }

    /// The URL the browser was last seen at; an unknown id is `BrowserNotFound`.
    pub fn current_url_result(&self, id: u32) -> (r: Result<String, Error>)
        ensures
            self@.contains(id) ==> (r matches Ok(url) && url@ == self@.slots[id].last_url),
            !self@.contains(id) ==> (r matches Err(e) && e@ == ErrorView::BrowserNotFound(id)),
    {
        match self.current_url(id) {
            Some(url) => Ok(url),
            None => Err(Error::BrowserNotFound(id)),
        }
    }

    /// Records the URL the browser is now at.
    pub fn record_url(&mut self, id: u32, url: &str)
        requires
            old(self)@.wf(),
        ensures
            final(self)@ == old(self)@.after_record_url(id, url@),
            final(self)@.wf(),
    {
        let ghost before = self@;
        match self.slots.remove(&id) {
            None => {
                assert(self@.slots =~= before.slots);
            },
            Some(slot) => {
                let BrowserSlot {
                    intercept_prefixes,
                    close_on_intercept,
                    intercepted,
                    closed,
                    waiters,
                    last_url: _,
                } = slot;
                self.slots.insert(
                    id,
                    BrowserSlot {
                        intercept_prefixes,
                        close_on_intercept,
                        intercepted,
                        closed,
                        waiters,
                        last_url: url.to_owned(),
                    },
                );
                assert(self@.slots =~= before.after_record_url(id, url@).slots);
            },
        }
    }

    /// Records an interception that already happened (on mobile the native side
    /// decides) and hands back every waiter, each owed the intercepted URL.
    pub fn record_intercepted(&mut self, id: u32, url: &str) -> (wake: Wakeup<W>)
        requires
            old(self)@.wf(),
        ensures
            final(self)@ == old(self)@.after_record_intercepted(id, url@),
            final(self)@.wf(),
            wake.waiters@ == old(self)@.waiters_of(id),
            outcome_view(wake.outcome) == Ok::<Seq<char>, Seq<char>>(url@),
    {
        let ghost before = self@;
        match self.slots.remove(&id) {
            None => {
                assert(self@.slots =~= before.slots);
                Wakeup { waiters: Vec::new(), outcome: Ok(url.to_owned()) }
            },
            Some(slot) => {
                let BrowserSlot {
                    intercept_prefixes,
                    close_on_intercept,
                    intercepted: _,
                    closed,
                    waiters,
                    last_url: _,
                } = slot;
                self.slots.insert(
                    id,
                    BrowserSlot {
                        intercept_prefixes,
                        close_on_intercept,
                        intercepted: Some(url.to_owned()),
                        closed,
                        waiters: Vec::new(),
                        last_url: url.to_owned(),
                    },
                );
                assert(self@.slots =~= before.after_record_intercepted(id, url@).slots);
                Wakeup { waiters, outcome: Ok(url.to_owned()) }
            },
        }
    }

    /// Marks the browser closed and hands back every waiter. If an interception was
    /// caught before the close, the waiters are still owed its URL: closing after the
    /// callback was caught is the success path.
    pub fn mark_closed(&mut self, id: u32) -> (wake: Wakeup<W>)
        requires
            old(self)@.wf(),
        ensures
            final(self)@ == old(self)@.after_mark_closed(id),
            final(self)@.wf(),
            wake.waiters@ == old(self)@.waiters_of(id),
            outcome_view(wake.outcome) == old(self)@.close_outcome(id),
            old(self)@.contains(id) ==> final(self)@.slots[id].intercepted == old(
                self,
            )@.slots[id].intercepted && final(self)@.slots[id].closed,
    {
        let ghost before = self@;
        match self.slots.remove(&id) {
            None => {
                assert(self@.slots =~= before.slots);
                Wakeup { waiters: Vec::new(), outcome: Err("browser was closed".to_owned()) }
            },
            Some(slot) => {
                let BrowserSlot {
                    intercept_prefixes,
                    close_on_intercept,
                    intercepted,
                    closed: _,
                    waiters,
                    last_url,
                } = slot;
                let outcome = match &intercepted {
                    Some(url) => Ok(url.clone()),
                    None => Err("browser was closed".to_owned()),
                };
                self.slots.insert(
                    id,
                    BrowserSlot {
                        intercept_prefixes,
                        close_on_intercept,
                        intercepted,
                        closed: true,
                        waiters: Vec::new(),
                        last_url,
                    },
                );
                assert(self@.slots =~= before.after_mark_closed(id).slots);
                Wakeup { waiters, outcome }
            },
        }
    }

    /// Starts a wait for the interception of browser `id`. If the outcome is already
    /// known (the interception may come before anyone waits, above all with
    /// close-on-intercept) the waiter is answered at once; otherwise it is kept until
    /// an interception or a close wakes it.
    pub fn wait(&mut self, id: u32, waiter: W) -> (r: Result<WaitRegistration<W>, String>)
        requires
            old(self)@.wf(),
        ensures
            final(self)@ == old(self)@.after_wait(id, waiter),
            final(self)@.wf(),
            !old(self)@.contains(id) ==> (r matches Err(reason) && reason@ == not_found_text(id)),
            old(self)@.contains(id) ==> match old(self)@.slots[id].ready_outcome() {
                Some(outcome) => r matches Ok(WaitRegistration::Ready { waiter: w, outcome: o })
                    && w == waiter && outcome_view(o) == outcome,
                None => r matches Ok(WaitRegistration::Pending),
            },
            old(self)@.contains(id) && old(self)@.slots[id].intercepted is Some ==> (r matches Ok(
                WaitRegistration::Ready { outcome: o, .. },
            ) && outcome_view(o) == Ok::<Seq<char>, Seq<char>>(
                old(self)@.slots[id].intercepted->0,
            )),
    {
        let ghost before = self@;
        match self.slots.remove(&id) {
            None => {
                assert(self@.slots =~= before.slots);
                let mut reason = "browser ".to_owned();
                push_decimal(&mut reason, id);
                reason.append(" not found");
                Err(reason)
            },
            Some(slot) => {
                let BrowserSlot {
                    intercept_prefixes,
                    close_on_intercept,
                    intercepted,
                    closed,
                    mut waiters,
                    last_url,
                } = slot;
                let answer = match &intercepted {
                    Some(url) => Some(Ok(url.clone())),
                    None => if closed {
                        Some(Err("browser was closed".to_owned()))
                    } else {
                        None
                    },
                };
                let registration = match answer {
                    Some(outcome) => WaitRegistration::Ready { waiter, outcome },
                    None => {
                        waiters.push(waiter);
                        WaitRegistration::Pending
                    },
                };
                self.slots.insert(
                    id,
                    BrowserSlot {
                        intercept_prefixes,
                        close_on_intercept,
                        intercepted,
                        closed,
                        waiters,
                        last_url,
                    },
                );
                assert(self@.slots =~= before.after_wait(id, waiter).slots);
                Ok(registration)
            },
        }
    }

    /// Decides whether a navigation of browser `id` to `url` is intercepted (the
    /// desktop window asks this before each navigation; `Some` means cancel it). The
    /// URL is recorded either way, and an interception wakes the waiters.
    pub fn should_intercept(&mut self, id: u32, url: &str) -> (r: Option<Wakeup<W>>)
        requires
            old(self)@.wf(),
        ensures
            r is Some == old(self)@.intercepts(id, url@),
            final(self)@ == old(self)@.after_navigation(id, url@),
            final(self)@.wf(),
            r matches Some(wake) ==> wake.waiters@ == old(self)@.waiters_of(id) && outcome_view(
                wake.outcome,
            ) == Ok::<Seq<char>, Seq<char>>(url@),
    {
        let matched = match self.slots.get(&id) {
            Some(slot) => slot.matches(url),
            None => false,
        };
        if matched {
            Some(self.record_intercepted(id, url))
        } else {
            self.record_url(id, url);
            None
        }
    }
}

} // verus!
