//! Properties of the registry that span several operations, stated over the
//! registry's view and the transitions that the operations' contracts use.
use vstd::prelude::*;
use crate::controlled::{
    MAX_RETAINED_CLOSED, RegistryView, SlotView, closed_text, fresh_slot, prefix_catches,
};
use crate::urls::{is_web_url, scheme_text, url_parse_accepts};
use crate::models::OpenControlledRequestView;
use crate::waiting::{WaitEndView, wait_result};
use crate::error::ErrorView;

verus! {

broadcast use vstd::set::group_set_axioms;

/// Every operation keeps the registry's invariant (ids were handed out, and nobody waits
/// on a browser whose outcome is known).
pub proof fn law_operations_keep_invariant<W>(
    r: RegistryView<W>,
    id: u32,
    url: Seq<char>,
    waiter: W,
    request: OpenControlledRequestView,
)
    requires
        r.wf(),
    ensures
        r.after_record_url(id, url).wf(),
        r.after_record_intercepted(id, url).wf(),
        r.after_mark_closed(id).wf(),
        r.after_navigation(id, url).wf(),
        r.after_wait(id, waiter).wf(),
        r.next_id < u32::MAX ==> r.after_allocate(request).wf(),
{
    if r.next_id < u32::MAX {
        let a = r.after_allocate(request);
        assert(a.slots.dom() =~= r.slots.dom().filter(|k: u32| !r.stale_ids().contains(k)).insert(
            (r.next_id + 1) as u32,
        ));
    }
}

/// An interception that happens before anyone waits is not lost: a wait that starts
/// afterwards is answered at once with the intercepted URL, and keeps no waiter.
pub proof fn law_wait_after_interception_gets_url<W>(
    r: RegistryView<W>,
    id: u32,
    url: Seq<char>,
    waiter: W,
)
    requires
        r.wf(),
        r.contains(id),
    ensures
        r.after_record_intercepted(id, url).slots[id].ready_outcome() == Some(
            Ok::<Seq<char>, Seq<char>>(url),
        ),
        r.after_record_intercepted(id, url).after_wait(id, waiter) == r.after_record_intercepted(
            id,
            url,
        ),
{
}

/// Closing after an interception (close-on-intercept) is the success path: the waiters
/// woken by the close get the intercepted URL, the closed browser is kept, and a wait
/// that starts after the close still gets the URL.
pub proof fn law_close_after_interception_keeps_url<W>(r: RegistryView<W>, id: u32, url: Seq<char>)
    requires
        r.wf(),
        r.contains(id),
    ensures
        r.after_record_intercepted(id, url).close_outcome(id) == Ok::<Seq<char>, Seq<char>>(url),
        r.after_record_intercepted(id, url).after_mark_closed(id).contains(id),
        !r.after_record_intercepted(id, url).after_mark_closed(id).is_open(id),
        r.after_record_intercepted(id, url).after_mark_closed(id).slots[id].ready_outcome()
            == Some(Ok::<Seq<char>, Seq<char>>(url)),
{
}

/// A caller that has to wait is kept, behind those that came before it, and is handed
/// out by the next interception (with its URL) or close (with the close outcome), after
/// which nobody waits on that browser any more.
pub proof fn law_pending_waiter_is_woken<W>(r: RegistryView<W>, id: u32, url: Seq<char>, waiter: W)
    requires
        r.wf(),
        r.contains(id),
        r.slots[id].ready_outcome() is None,
    ensures
        r.after_wait(id, waiter).waiters_of(id) == r.waiters_of(id).push(waiter),
        r.after_wait(id, waiter).after_record_intercepted(id, url).waiters_of(id).len() == 0,
        r.after_wait(id, waiter).after_mark_closed(id).waiters_of(id).len() == 0,
        r.after_wait(id, waiter).close_outcome(id) == Err::<Seq<char>, Seq<char>>(closed_text()),
{
}

/// A waiter on a browser that closed without an interception is told that it closed.
pub proof fn law_close_without_interception<W>(r: RegistryView<W>, id: u32, waiter: W)
    requires
        r.wf(),
        r.contains(id),
        r.slots[id].intercepted is None,
    ensures
        r.close_outcome(id) == Err::<Seq<char>, Seq<char>>(closed_text()),
        r.after_mark_closed(id).slots[id].ready_outcome() == Some(
            Err::<Seq<char>, Seq<char>>(closed_text()),
        ),
{
}

/// What is recorded is what is read back: after a navigation or page load the browser's
/// current URL is the new one.
pub proof fn law_current_url_is_last_recorded<W>(r: RegistryView<W>, id: u32, url: Seq<char>)
    requires
        r.wf(),
        r.contains(id),
    ensures
        r.after_record_url(id, url).slots[id].last_url == url,
        r.after_navigation(id, url).slots[id].last_url == url,
        r.after_record_intercepted(id, url).slots[id].last_url == url,
{
}

/// Operations on one browser leave every other browser as it was.
pub proof fn law_other_browsers_untouched<W>(
    r: RegistryView<W>,
    id: u32,
    other: u32,
    url: Seq<char>,
    waiter: W,
)
    requires
        r.wf(),
        id != other,
    ensures
        r.after_record_url(id, url).slots.contains_key(other) == r.slots.contains_key(other),
        r.after_navigation(id, url).slots.contains_key(other) == r.slots.contains_key(other),
        r.after_mark_closed(id).slots.contains_key(other) == r.slots.contains_key(other),
        r.after_wait(id, waiter).slots.contains_key(other) == r.slots.contains_key(other),
        r.slots.contains_key(other) ==> {
            &&& r.after_record_url(id, url).slots[other] == r.slots[other]
            &&& r.after_navigation(id, url).slots[other] == r.slots[other]
            &&& r.after_mark_closed(id).slots[other] == r.slots[other]
            &&& r.after_wait(id, waiter).slots[other] == r.slots[other]
        },
{
}

/// Opening a browser gives it an id never handed out before, larger than every id in
/// use; the new browser is open, at the requested URL, with no interception yet, and it
/// intercepts exactly the URLs that one of the requested non-empty prefixes starts.
pub proof fn law_allocate_fresh_browser<W>(
    r: RegistryView<W>,
    request: OpenControlledRequestView,
    url: Seq<char>,
)
    requires
        r.wf(),
        r.next_id < u32::MAX,
    ensures
        ({
            let id = (r.next_id + 1) as u32;
            let a = r.after_allocate(request);
            &&& !r.contains(id)
            &&& forall|k: u32| r.contains(k) ==> k < id
            &&& a.is_open(id)
            &&& a.slots[id].last_url == request.url
            &&& a.slots[id].intercepted is None
            &&& a.slots[id].waiters.len() == 0
            &&& a.intercepts(id, url) == exists|i: int|
                0 <= i < request.intercept_prefixes.len() && #[trigger] prefix_catches(
                    request.intercept_prefixes[i],
                    url,
                )
        }),
{
    let id = (r.next_id + 1) as u32;
    let a = r.after_allocate(request);
    assert(a.slots[id] == fresh_slot::<W>(request));
    assert(forall|k: u32| r.contains(k) ==> k < id) by {
        assert forall|k: u32| r.contains(k) implies k < id by {
            assert(r.slots.contains_key(k));
        }
    }
    assert(a.is_open(id));
    assert(a.slots[id].last_url == request.url);
    assert(a.intercepts(id, url) == a.slots[id].matches(url));
    assert(a.slots[id].intercept_prefixes == request.intercept_prefixes);
}

/// Opening a browser never drops an open browser, nor one of the most recently opened
/// `MAX_RETAINED_CLOSED` closed browsers; it drops the other closed ones.
pub proof fn law_allocate_keeps_open_and_recent<W>(
    r: RegistryView<W>,
    request: OpenControlledRequestView,
    k: u32,
)
    requires
        r.wf(),
        r.next_id < u32::MAX,
        r.contains(k),
    ensures
        r.is_open(k) ==> r.after_allocate(request).slots[k] == r.slots[k],
        !r.is_open(k) ==> (r.after_allocate(request).contains(k) <==> r.newer_closed(k).len()
            < MAX_RETAINED_CLOSED),
        r.after_allocate(request).contains(k) ==> r.after_allocate(request).slots[k] == r.slots[k],
{
}

/// A non-empty finite set of ids has a least element.
proof fn lemma_least_id(s: Set<u32>) -> (m: u32)
    requires
        s.finite(),
        s.len() > 0,
    ensures
        s.contains(m),
        forall|x: u32| #[trigger] s.contains(x) ==> m <= x,
    decreases s.len(),
{
    let x = s.choose();
    let rest = s.remove(x);
    if rest.len() == 0 {
        assert forall|y: u32| #[trigger] s.contains(y) implies x <= y by {
            if y != x {
                assert(rest.contains(y));
            }
        }
        x
    } else {
        let m = lemma_least_id(rest);
        if x < m {
            x
        } else {
            m
        }
    }
}

/// After a browser is opened at most `MAX_RETAINED_CLOSED` closed browsers remain.
pub proof fn law_allocate_bounds_closed<W>(r: RegistryView<W>, request: OpenControlledRequestView)
    requires
        r.wf(),
        r.next_id < u32::MAX,
    ensures
        r.after_allocate(request).closed_ids().len() <= MAX_RETAINED_CLOSED,
{
    let a = r.after_allocate(request);
    let c = r.closed_ids();
    let kept = c.filter(|k: u32| r.newer_closed(k).len() < MAX_RETAINED_CLOSED);
    assert(a.closed_ids() =~= kept);
    if kept.len() > MAX_RETAINED_CLOSED {
        let m = lemma_least_id(kept);
        assert(kept.remove(m).subset_of(r.newer_closed(m)));
        vstd::set_lib::lemma_len_subset(kept.remove(m), r.newer_closed(m));
        assert(false);
    }
}


/// One operation on the registry, as the registry's methods perform it (`plan_open`
/// allocates, a page load records a URL, a destroyed window or a native close marks
/// the browser closed, `begin_wait` waits).
pub enum RegistryOp<W> {
    RecordUrl(u32, Seq<char>),
    Navigate(u32, Seq<char>),
    RecordIntercepted(u32, Seq<char>),
    MarkClosed(u32),
    Wait(u32, W),
    Allocate(OpenControlledRequestView),
}

/// The registry after one operation. An allocation is only possible while ids are
/// left; without one, the registry stays as it is.
pub open spec fn step<W>(r: RegistryView<W>, op: RegistryOp<W>) -> RegistryView<W> {
    match op {
        RegistryOp::RecordUrl(id, url) => r.after_record_url(id, url),
        RegistryOp::Navigate(id, url) => r.after_navigation(id, url),
        RegistryOp::RecordIntercepted(id, url) => r.after_record_intercepted(id, url),
        RegistryOp::MarkClosed(id) => r.after_mark_closed(id),
        RegistryOp::Wait(id, waiter) => r.after_wait(id, waiter),
        RegistryOp::Allocate(request) => if r.next_id < u32::MAX {
            r.after_allocate(request)
        } else {
            r
        },
    }
}

/// The registry after a sequence of operations, in order.
pub open spec fn run<W>(r: RegistryView<W>, ops: Seq<RegistryOp<W>>) -> RegistryView<W>
    decreases ops.len(),
{
    if ops.len() == 0 {
        r
    } else {
        run(step(r, ops[0]), ops.drop_first())
    }
}

/// Whether an operation, in the state `r` it meets, settles browser `id`: an
/// interception of it, or its close.
pub open spec fn settles<W>(r: RegistryView<W>, op: RegistryOp<W>, id: u32) -> bool {
    match op {
        RegistryOp::RecordIntercepted(i, _) => i == id,
        RegistryOp::Navigate(i, url) => i == id && r.intercepts(id, url),
        RegistryOp::MarkClosed(i) => i == id,
        _ => false,
    }
}

/// Whether none of `ops`, each in the state it meets, settles browser `id`.
pub open spec fn never_settles<W>(r: RegistryView<W>, ops: Seq<RegistryOp<W>>, id: u32) -> bool
    decreases ops.len(),
{
    ops.len() == 0 || (!settles(r, ops[0], id) && never_settles(step(r, ops[0]), ops.drop_first(), id))
}

proof fn lemma_step_keeps_invariant<W>(r: RegistryView<W>, op: RegistryOp<W>)
    requires
        r.wf(),
    ensures
        step(r, op).wf(),
        step(r, op).next_id >= r.next_id,
{
    match op {
        RegistryOp::RecordUrl(id, url) => law_operations_keep_invariant(r, id, url, arbitrary(), arbitrary()),
        RegistryOp::Navigate(id, url) => law_operations_keep_invariant(r, id, url, arbitrary(), arbitrary()),
        RegistryOp::RecordIntercepted(id, url) => law_operations_keep_invariant(r, id, url, arbitrary(), arbitrary()),
        RegistryOp::MarkClosed(id) => law_operations_keep_invariant(r, id, arbitrary(), arbitrary(), arbitrary()),
        RegistryOp::Wait(id, waiter) => law_operations_keep_invariant(r, id, arbitrary(), waiter, arbitrary()),
        RegistryOp::Allocate(request) => law_operations_keep_invariant(r, 0, arbitrary(), arbitrary(), request),
    }
}

/// Every sequence of operations keeps the registry's invariant, and the count of ids
/// handed out never goes down.
pub proof fn law_run_keeps_invariant<W>(r: RegistryView<W>, ops: Seq<RegistryOp<W>>)
    requires
        r.wf(),
    ensures
        run(r, ops).wf(),
        run(r, ops).next_id >= r.next_id,
    decreases ops.len(),
{
    if ops.len() > 0 {
        lemma_step_keeps_invariant(r, ops[0]);
        law_run_keeps_invariant(step(r, ops[0]), ops.drop_first());
    }
}

proof fn lemma_step_keeps_dropped_out<W>(r: RegistryView<W>, op: RegistryOp<W>, id: u32)
    requires
        r.wf(),
        id <= r.next_id,
        !r.contains(id),
    ensures
        !step(r, op).contains(id),
{
}

/// An id that was handed out and is no longer known never comes back.
pub proof fn law_dropped_id_never_returns<W>(r: RegistryView<W>, ops: Seq<RegistryOp<W>>, id: u32)
    requires
        r.wf(),
        id <= r.next_id,
        !r.contains(id),
    ensures
        !run(r, ops).contains(id),
    decreases ops.len(),
{
    if ops.len() > 0 {
        lemma_step_keeps_dropped_out(r, ops[0], id);
        lemma_step_keeps_invariant(r, ops[0]);
        law_dropped_id_never_returns(step(r, ops[0]), ops.drop_first(), id);
    }
}

/// A browser that was handed out and is not open (closed, or dropped) is never open
/// again, whatever follows: ids are not reused, and a closed browser stays closed. Ids
/// handed out later are all greater than every id handed out so far.
pub proof fn law_closed_never_reopens<W>(r: RegistryView<W>, ops: Seq<RegistryOp<W>>, id: u32)
    requires
        r.wf(),
        1 <= id <= r.next_id,
        !r.is_open(id),
    ensures
        !run(r, ops).is_open(id),
        run(r, ops).next_id >= r.next_id,
        forall|k: u32| #[trigger] run(r, ops).contains(k) && !r.contains(k) ==> k > r.next_id,
    decreases ops.len(),
{
    law_run_keeps_invariant(r, ops);
    assert forall|k: u32| #[trigger] run(r, ops).contains(k) && !r.contains(k) implies k
        > r.next_id by {
        if k <= r.next_id {
            law_dropped_id_never_returns(r, ops, k);
        }
    }
    if ops.len() > 0 {
        let r1 = step(r, ops[0]);
        lemma_step_keeps_invariant(r, ops[0]);
        if r.contains(id) {
            assert(!r1.is_open(id));
        } else {
            lemma_step_keeps_dropped_out(r, ops[0], id);
        }
        law_closed_never_reopens(r1, ops.drop_first(), id);
    }
}

/// A browser's interception prefixes and close-on-intercept flag never change after it
/// is opened: as long as it is known, they are what they were.
pub proof fn law_configuration_never_changes<W>(
    r: RegistryView<W>,
    ops: Seq<RegistryOp<W>>,
    id: u32,
)
    requires
        r.wf(),
        r.contains(id),
        run(r, ops).contains(id),
    ensures
        run(r, ops).slots[id].intercept_prefixes == r.slots[id].intercept_prefixes,
        run(r, ops).slots[id].close_on_intercept == r.slots[id].close_on_intercept,
    decreases ops.len(),
{
    if ops.len() > 0 {
        let r1 = step(r, ops[0]);
        lemma_step_keeps_invariant(r, ops[0]);
        if r1.contains(id) {
            assert(r1.slots[id].intercept_prefixes == r.slots[id].intercept_prefixes);
            assert(r1.slots[id].close_on_intercept == r.slots[id].close_on_intercept);
            law_configuration_never_changes(r1, ops.drop_first(), id);
        } else {
            law_dropped_id_never_returns(r1, ops.drop_first(), id);
        }
    }
}

proof fn lemma_step_keeps_pending<W>(r: RegistryView<W>, op: RegistryOp<W>, id: u32, waiter: W)
    requires
        r.wf(),
        r.is_open(id),
        r.slots[id].intercepted is None,
        r.waiters_of(id).contains(waiter),
        !settles(r, op, id),
    ensures
        step(r, op).is_open(id),
        step(r, op).slots[id].intercepted is None,
        step(r, op).waiters_of(id).contains(waiter),
{
    match op {
        RegistryOp::Wait(i, w) => {
            if i == id {
                let ws = r.slots[id].waiters;
                let k = choose|k: int| 0 <= k < ws.len() && ws[k] == waiter;
                assert(ws.push(w)[k] == waiter);
            }
        },
        RegistryOp::Allocate(request) => {
            if r.next_id < u32::MAX {
                assert(!r.stale_ids().contains(id));
            }
        },
        _ => {},
    }
}

/// A caller that has to wait stays waiting, on a browser that stays open and without
/// an interception, through any operations that neither intercept nor close that
/// browser: recorded URLs, navigations that are not intercepted, other waits, new
/// browsers, and anything done to other browsers. The next interception or close then
/// hands it out: an interception with its URL (even if a close follows at once, the
/// caller is no longer waiting), a close with "browser was closed".
pub proof fn law_pending_waiter_until_settled<W>(
    r: RegistryView<W>,
    id: u32,
    waiter: W,
    ops: Seq<RegistryOp<W>>,
    url: Seq<char>,
)
    requires
        r.wf(),
        r.is_open(id),
        r.slots[id].intercepted is None,
        never_settles(r.after_wait(id, waiter), ops, id),
    ensures
        ({
            let later = run(r.after_wait(id, waiter), ops);
            &&& later.is_open(id)
            &&& later.slots[id].intercepted is None
            &&& later.waiters_of(id).contains(waiter)
            &&& later.after_record_intercepted(id, url).waiters_of(id).len() == 0
            &&& later.after_record_intercepted(id, url).after_mark_closed(id).waiters_of(id).len()
                == 0
            &&& later.after_mark_closed(id).waiters_of(id).len() == 0
            &&& wait_result(WaitEndView::Delivered(Ok(url))) == Ok::<Seq<char>, ErrorView>(url)
            &&& later.close_outcome(id) == Err::<Seq<char>, Seq<char>>(closed_text())
            &&& wait_result(WaitEndView::Delivered(later.close_outcome(id))) == Err::<
                Seq<char>,
                ErrorView,
            >(ErrorView::Browser(closed_text()))
        }),
{
    let r0 = r.after_wait(id, waiter);
    assert(r0.waiters_of(id) == r.slots[id].waiters.push(waiter));
    assert(r0.waiters_of(id)[r0.waiters_of(id).len() - 1] == waiter);
    lemma_pending_through(r0, ops, id, waiter);
}

proof fn lemma_pending_through<W>(r: RegistryView<W>, ops: Seq<RegistryOp<W>>, id: u32, waiter: W)
    requires
        r.wf(),
        r.is_open(id),
        r.slots[id].intercepted is None,
        r.waiters_of(id).contains(waiter),
        never_settles(r, ops, id),
    ensures
        run(r, ops).wf(),
        run(r, ops).is_open(id),
        run(r, ops).slots[id].intercepted is None,
        run(r, ops).waiters_of(id).contains(waiter),
    decreases ops.len(),
{
    if ops.len() > 0 {
        lemma_step_keeps_pending(r, ops[0], id, waiter);
        lemma_step_keeps_invariant(r, ops[0]);
        lemma_pending_through(step(r, ops[0]), ops.drop_first(), id, waiter);
    }
}


/// A prefix catches a URL exactly when it is non-empty and the URL begins with it,
/// character by character: containing the prefix somewhere else does not count.
pub proof fn law_prefix_catches_only_at_start(prefix: Seq<char>, url: Seq<char>)
    ensures
        prefix_catches(prefix, url) <==> (0 < prefix.len() <= url.len() && forall|i: int|
            0 <= i < prefix.len() ==> prefix[i] == url[i]),
        prefix.len() > 0 && url.len() > 0 && prefix[0] != url[0] ==> !prefix_catches(prefix, url),
        prefix.len() > url.len() ==> !prefix_catches(prefix, url),
{
}

/// A browser intercepts a navigation exactly when one of its non-empty prefixes starts
/// the URL; in particular a URL whose first character starts none of the prefixes is
/// never intercepted, and a browser without non-empty prefixes intercepts nothing.
pub proof fn law_interception_by_leading_prefix<W>(r: RegistryView<W>, id: u32, url: Seq<char>)
    requires
        r.contains(id),
    ensures
        r.intercepts(id, url) <==> exists|i: int|
            0 <= i < r.slots[id].intercept_prefixes.len() && {
                let p = #[trigger] r.slots[id].intercept_prefixes[i];
                0 < p.len() <= url.len() && forall|j: int| 0 <= j < p.len() ==> p[j] == url[j]
            },
        url.len() > 0 && (forall|i: int|
            0 <= i < r.slots[id].intercept_prefixes.len() ==> {
                let p = #[trigger] r.slots[id].intercept_prefixes[i];
                p.len() == 0 || p[0] != url[0]
            }) ==> !r.intercepts(id, url),
        (forall|i: int|
            0 <= i < r.slots[id].intercept_prefixes.len() ==> #[trigger] r.slots[id].intercept_prefixes[i].len() == 0)
            ==> !r.intercepts(id, url),
{
    let ps = r.slots[id].intercept_prefixes;
    if r.intercepts(id, url) {
        let i = choose|i: int| 0 <= i < ps.len() && #[trigger] prefix_catches(ps[i], url);
        law_prefix_catches_only_at_start(ps[i], url);
    }
    assert forall|i: int| 0 <= i < ps.len() && ({
        let p = #[trigger] ps[i];
        0 < p.len() <= url.len() && forall|j: int| 0 <= j < p.len() ==> p[j] == url[j]
    }) implies r.intercepts(id, url) by {
        law_prefix_catches_only_at_start(ps[i], url);
        assert(prefix_catches(ps[i], url));
    }
}

/// What a new waiter is told depends only on the interception and the close: the
/// intercepted URL when there is one (whatever URL was seen after it), else "browser
/// was closed" when closed, else nothing yet. A close hands the waiters the same.
pub proof fn law_ready_outcome_is_the_interception<W>(slot: SlotView<W>, url: Seq<char>)
    ensures
        slot.intercepted == Some(url) ==> slot.ready_outcome() == Some(
            Ok::<Seq<char>, Seq<char>>(url),
        ) && slot.closing_outcome() == Ok::<Seq<char>, Seq<char>>(url),
        slot.intercepted is None && slot.closed ==> slot.ready_outcome() == Some(
            Err::<Seq<char>, Seq<char>>("browser was closed"@),
        ),
        slot.intercepted is None ==> slot.closing_outcome() == Err::<Seq<char>, Seq<char>>(
            "browser was closed"@,
        ),
        slot.intercepted is None && !slot.closed ==> slot.ready_outcome() is None,
        forall|other: Seq<char>| #[trigger]
            (SlotView { last_url: other, ..slot }).ready_outcome() == slot.ready_outcome(),
{
}

/// URLs recorded after an interception do not replace it: after an interception of
/// `url` and any later recorded URL `seen`, a wait is answered with `url`, a close
/// hands the waiters `url`, and a wait after that close is still answered with `url`.
pub proof fn law_interception_outlives_later_urls<W>(
    r: RegistryView<W>,
    id: u32,
    url: Seq<char>,
    seen: Seq<char>,
)
    requires
        r.contains(id),
    ensures
        ({
            let later = r.after_record_intercepted(id, url).after_record_url(id, seen);
            &&& later.slots[id].intercepted == Some(url)
            &&& later.slots[id].last_url == seen
            &&& later.slots[id].ready_outcome() == Some(Ok::<Seq<char>, Seq<char>>(url))
            &&& later.close_outcome(id) == Ok::<Seq<char>, Seq<char>>(url)
            &&& later.after_mark_closed(id).slots[id].ready_outcome() == Some(
                Ok::<Seq<char>, Seq<char>>(url),
            )
        }),
{
}

/// Each operation changes exactly what it is for and keeps the rest of the browser:
/// recording a URL changes only the current URL; an interception sets the intercepted
/// and current URL and hands out the waiters; a close only marks the browser closed and
/// hands out the waiters, keeping its interception, URL and configuration; a wait that
/// is not answered at once only adds the waiter at the end.
pub proof fn law_each_operation_changes_only_its_part<W>(
    r: RegistryView<W>,
    id: u32,
    url: Seq<char>,
    waiter: W,
)
    requires
        r.contains(id),
    ensures
        ({
            let s = r.slots[id];
            let a = r.after_record_url(id, url).slots[id];
            let b = r.after_record_intercepted(id, url).slots[id];
            let c = r.after_mark_closed(id).slots[id];
            let d = r.after_wait(id, waiter).slots[id];
            &&& a.last_url == url && a.intercepted == s.intercepted && a.closed == s.closed
                && a.waiters == s.waiters && a.intercept_prefixes == s.intercept_prefixes
                && a.close_on_intercept == s.close_on_intercept
            &&& b.intercepted == Some(url) && b.last_url == url && b.closed == s.closed
                && b.waiters.len() == 0 && b.intercept_prefixes == s.intercept_prefixes
                && b.close_on_intercept == s.close_on_intercept
            &&& c.closed && c.intercepted == s.intercepted && c.last_url == s.last_url
                && c.waiters.len() == 0 && c.intercept_prefixes == s.intercept_prefixes
                && c.close_on_intercept == s.close_on_intercept
            &&& (s.intercepted is None && !s.closed) ==> (d.waiters == s.waiters.push(waiter)
                && d.intercepted == s.intercepted && d.closed == s.closed && d.last_url
                == s.last_url && d.intercept_prefixes == s.intercept_prefixes
                && d.close_on_intercept == s.close_on_intercept)
            &&& !(s.intercepted is None && !s.closed) ==> d == s
            &&& r.after_navigation(id, url).slots[id].last_url == url
            &&& r.intercepts(id, url) ==> r.after_navigation(id, url).slots[id].intercepted
                == Some(url)
            &&& !r.intercepts(id, url) ==> r.after_navigation(id, url).slots[id].intercepted
                == s.intercepted
        }),
{
}

/// A newly opened browser takes its configuration from its request alone: its
/// interception prefixes are the requested ones, and it closes on interception exactly
/// when the request asks for it (whatever else the request says, such as ephemeral).
pub proof fn law_allocate_takes_configuration_from_request<W>(
    r: RegistryView<W>,
    request: OpenControlledRequestView,
)
    requires
        r.wf(),
        r.next_id < u32::MAX,
    ensures
        ({
            let id = (r.next_id + 1) as u32;
            let slot = r.after_allocate(request).slots[id];
            &&& slot.close_on_intercept == request.close_on_intercept
            &&& slot.intercept_prefixes == request.intercept_prefixes
            &&& slot.last_url == request.url
            &&& !slot.closed
            &&& slot.intercepted is None
            &&& forall|other: OpenControlledRequestView|
                other.close_on_intercept == request.close_on_intercept && other.intercept_prefixes
                    == request.intercept_prefixes && other.url == request.url
                    ==> #[trigger] r.after_allocate(other) == r.after_allocate(request)
        }),
{
    let id = (r.next_id + 1) as u32;
    assert forall|other: OpenControlledRequestView|
        other.close_on_intercept == request.close_on_intercept && other.intercept_prefixes
            == request.intercept_prefixes && other.url == request.url
            implies #[trigger] r.after_allocate(other) == r.after_allocate(request) by {
        assert(fresh_slot::<W>(other) == fresh_slot::<W>(request));
        assert(r.after_allocate(other).slots =~= r.after_allocate(request).slots);
    }
}

/// A browser window may open a URL exactly when the URL parses and its scheme is `http`
/// or `https`: nothing else about the URL (its length, host, path or query) counts.
pub proof fn law_web_url_is_parse_and_scheme(input: Seq<char>, other: Seq<char>)
    ensures
        is_web_url(input) <==> (url_parse_accepts(input) && (scheme_text(input) == "http"@
            || scheme_text(input) == "https"@)),
        url_parse_accepts(input) == url_parse_accepts(other) && scheme_text(input) == scheme_text(
            other,
        ) ==> is_web_url(input) == is_web_url(other),
{
}

} // verus!
