//! Recovery of timers that elapsed outside the live wheel.

use std::time::Duration;

use vstd::prelude::*;
use vstd::string::*;

use crate::engine::handles::{first_place, first_place_in_range, of_workflow, own_recorders, HandleView};
use crate::error::{StoreError, StoreErrorView, TimerServiceError, TimerServiceErrorView};
use crate::event::{EventBody, EventView};
use crate::ids::{TimerIdView, WorkflowId};
use crate::order::{enumerates, in_order, listing_length, lists};
use crate::recorder::next_event;
use crate::runtime::timer_bridge::{BridgeView, TimerNifBridge};
use crate::seam::{residency_in, MailboxDelivery, MailboxMessageView, WorkflowResidency};
use crate::store::{
    appended_events_are_read_back, due_timers, failing, history_in, timer_views, EventStore,
    StoreCall, TimerEntry, TimerEntryView,
};
use crate::text::joined;
use crate::time::service::{
    fired_timer, is_settled, recorded_end_settles, settled_timer,
    settled_timers_stay_settled, settles, DeliveryView, TimerService,
};
use crate::timestamp::Timestamp;

verus! {

/// Failure of a recovery sweep.
#[derive(Debug, PartialEq, Eq)]
pub enum TimerRecoveryError {
    /// The due timers could not be read.
    Store(StoreError),
    /// A due timer could not be fired.
    Timer(TimerServiceError),
}

/// Mathematical value of a [`TimerRecoveryError`].
pub enum TimerRecoveryErrorView {
    /// The due timers could not be read.
    Store(StoreErrorView),
    /// A due timer could not be fired.
    Timer(TimerServiceErrorView),
}

impl View for TimerRecoveryError {
    type V = TimerRecoveryErrorView;

    open spec fn view(&self) -> TimerRecoveryErrorView {
        match self {
            TimerRecoveryError::Store(error) => TimerRecoveryErrorView::Store(error@),
            TimerRecoveryError::Timer(error) => TimerRecoveryErrorView::Timer(error@),
        }
    }
}

impl TimerRecoveryErrorView {
    /// The text under which the failure is reported.
    pub open spec fn text(self) -> Seq<char> {
        match self {
            TimerRecoveryErrorView::Store(error) => "timer recovery store operation failed: "@
                + error.text(),
            TimerRecoveryErrorView::Timer(error) => "timer recovery fire operation failed: "@
                + error.text(),
        }
    }
}

impl TimerRecoveryError {
    /// The text under which the failure is reported.
    pub fn to_string(&self) -> (text: String)
        ensures
            text@ == self@.text(),
    {
        match self {
            TimerRecoveryError::Store(error) => joined(
                "timer recovery store operation failed: ",
                error.to_string().as_str(),
            ),
            TimerRecoveryError::Timer(error) => joined(
                "timer recovery fire operation failed: ",
                error.to_string().as_str(),
            ),
        }
    }
}

/// What firing a list of timers comes to: the bridge, the messages to deliver, and the failure that
/// stopped the sweep, if any.
pub struct SweepView {
    /// The bridge behind the sweep.
    pub bridge: BridgeView,
    /// Messages to deliver, in order.
    pub deliveries: Seq<DeliveryView>,
    /// How the sweep ended.
    pub outcome: Result<(), TimerServiceErrorView>,
}

/// Fires timers one after the other, up to the first failure.
pub open spec fn sweep(
    bridge: BridgeView,
    recorded_at: Timestamp,
    due: Seq<TimerEntryView>,
) -> SweepView
    decreases due.len(),
{
    if due.len() == 0 {
        SweepView { bridge, deliveries: Seq::empty(), outcome: Ok(()) }
    } else {
        let earlier = sweep(bridge, recorded_at, due.drop_last());
        if earlier.outcome is Err {
            earlier
        } else {
            let entry = due.last();
            let (after, fired) = fired_timer(
                earlier.bridge,
                recorded_at,
                entry.workflow_id,
                entry.timer_id,
                entry.fire_at,
            );
            SweepView {
                bridge: after,
                deliveries: match fired {
                    Ok(Some(delivery)) => earlier.deliveries.push(delivery),
                    _ => earlier.deliveries,
                },
                outcome: match fired {
                    Ok(_) => Ok(()),
                    Err(error) => Err(error),
                },
            }
        }
    }
}

/// Mathematical values of a list of deliveries.
pub open spec fn mailbox_views(deliveries: Seq<MailboxDelivery>) -> Seq<DeliveryView> {
    deliveries.map_values(|delivery: MailboxDelivery| delivery@)
}

/// A sweep over the timers that are due, in their order.
pub open spec fn swept(
    before: BridgeView,
    after: BridgeView,
    recorded_at: Timestamp,
    now: Timestamp,
    handed_out: Seq<DeliveryView>,
    recovered: Result<usize, TimerRecoveryErrorView>,
) -> bool {
    match failing(before.failures, StoreCall::ExpiredTimers { as_of: now }) {
        Some(error) => {
            &&& after == before
            &&& handed_out == Seq::<DeliveryView>::empty()
            &&& recovered == Err::<usize, TimerRecoveryErrorView>(
                TimerRecoveryErrorView::Store(error),
            )
        },
        None => exists|due: Seq<TimerEntry>|
            #![trigger timer_views(due)]
            {
                let done = sweep(before, recorded_at, timer_views(due));
                &&& lists(timer_views(due), due_timers(before.timers, now))
                &&& in_order(due)
                &&& after == done.bridge
                &&& handed_out == done.deliveries
                &&& match done.outcome {
                    Ok(()) => recovered matches Ok(count) && count == due.len(),
                    Err(error) => recovered == Err::<usize, TimerRecoveryErrorView>(
                        TimerRecoveryErrorView::Timer(error),
                    ),
                }
            },
    }
}

/// Mathematical value of what a sweep returns.
pub open spec fn recovery_view(recovered: Result<usize, TimerRecoveryError>) -> Result<
    usize,
    TimerRecoveryErrorView,
> {
    match recovered {
        Ok(count) => Ok(count),
        Err(error) => Err(error@),
    }
}

/// Recovery service for durable timers that elapsed outside the live wheel.
#[derive(Debug)]
pub struct TimerRecovery {
    timer_service: TimerService,
    recovery_interval: Duration,
}

impl TimerRecovery {
    /// The service that fires timers.
    pub closed spec fn service(&self) -> TimerService {
        self.timer_service
    }

    /// The configured cadence.
    pub closed spec fn cadence(&self) -> Duration {
        self.recovery_interval
    }

    /// A recovery service with the given cadence.
    pub fn new(timer_service: TimerService, recovery_interval: Duration) -> (recovery: Self)
        ensures
            recovery.service() == timer_service,
            recovery.cadence() == recovery_interval,
    {
        TimerRecovery { timer_service, recovery_interval }
    }

    /// The cadence at which [`Self::tick`] is to be called.
    pub fn recovery_interval(&self) -> (interval: Duration)
        ensures
            interval == self.cadence(),
    {
        self.recovery_interval
    }

    /// Fires the timers that are due at startup; the messages to deliver are appended to
    /// `deliveries`, and the number of due timers is returned.
    pub fn recover_on_startup<S: EventStore>(
        &self,
        bridge: &mut TimerNifBridge<S>,
        now: Timestamp,
        deliveries: &mut Vec<MailboxDelivery>,
    ) -> (recovered: Result<usize, TimerRecoveryError>)
        ensures
            exists|handed_out: Seq<DeliveryView>| #[trigger]
                swept(
                    old(bridge)@,
                    final(bridge)@,
                    self.service().recorded_at,
                    now,
                    handed_out,
                    recovery_view(recovered),
                ) && mailbox_views(final(deliveries)@) == mailbox_views(old(deliveries)@)
                    + handed_out,
            recovered matches Ok(count) ==> count == due_timers(old(bridge)@.timers, now).len()
                && fired_once(old(bridge)@, final(bridge)@, now),
            own_recorders(old(bridge)@.handles),
            own_recorders(final(bridge)@.handles),
    {
        self.recover_due(bridge, now, deliveries)
    }

    /// Runs one recovery tick at the given time of the clock.
    pub fn tick<S: EventStore>(
        &self,
        bridge: &mut TimerNifBridge<S>,
        now: Timestamp,
        deliveries: &mut Vec<MailboxDelivery>,
    ) -> (recovered: Result<usize, TimerRecoveryError>)
        ensures
            exists|handed_out: Seq<DeliveryView>| #[trigger]
                swept(
                    old(bridge)@,
                    final(bridge)@,
                    self.service().recorded_at,
                    now,
                    handed_out,
                    recovery_view(recovered),
                ) && mailbox_views(final(deliveries)@) == mailbox_views(old(deliveries)@)
                    + handed_out,
            recovered matches Ok(count) ==> count == due_timers(old(bridge)@.timers, now).len()
                && fired_once(old(bridge)@, final(bridge)@, now),
            own_recorders(old(bridge)@.handles),
            own_recorders(final(bridge)@.handles),
    {
        self.recover_due(bridge, now, deliveries)
    }

    /// Fires the timers that are due, each at its own due time and in their order, up to the first
    /// failure; the messages to deliver are appended to `deliveries`, and the number of due timers is
    /// returned. Behind a sweep that succeeds every due timer has fired once, or was settled before.
    pub fn recover_due<S: EventStore>(
        &self,
        bridge: &mut TimerNifBridge<S>,
        now: Timestamp,
        deliveries: &mut Vec<MailboxDelivery>,
    ) -> (recovered: Result<usize, TimerRecoveryError>)
        ensures
            exists|handed_out: Seq<DeliveryView>| #[trigger]
                swept(
                    old(bridge)@,
                    final(bridge)@,
                    self.service().recorded_at,
                    now,
                    handed_out,
                    recovery_view(recovered),
                ) && mailbox_views(final(deliveries)@) == mailbox_views(old(deliveries)@)
                    + handed_out,
            recovered matches Ok(count) ==> count == due_timers(old(bridge)@.timers, now).len()
                && fired_once(old(bridge)@, final(bridge)@, now),
            own_recorders(old(bridge)@.handles),
            own_recorders(final(bridge)@.handles),
    {
        proof {
            use_type_invariant(&bridge.registry);
        }
        let ghost before = bridge@;
        let ghost recorded_at = self.service().recorded_at;
        let recovered = self.fire_due(bridge, now, deliveries);
        proof {
            use_type_invariant(&bridge.registry);
            if let Ok(count) = recovered {
                let handed_out = choose|handed_out: Seq<DeliveryView>| #[trigger]
                    swept(
                        before,
                        bridge@,
                        recorded_at,
                        now,
                        handed_out,
                        recovery_view(recovered),
                    );
                due_timers_fire_once(before, bridge@, recorded_at, now, handed_out, count);
            }
        }
        recovered
    }

    fn fire_due<S: EventStore>(
        &self,
        bridge: &mut TimerNifBridge<S>,
        now: Timestamp,
        deliveries: &mut Vec<MailboxDelivery>,
    ) -> (recovered: Result<usize, TimerRecoveryError>)
        ensures
            exists|handed_out: Seq<DeliveryView>| #[trigger]
                swept(
                    old(bridge)@,
                    final(bridge)@,
                    self.service().recorded_at,
                    now,
                    handed_out,
                    recovery_view(recovered),
                ) && mailbox_views(final(deliveries)@) == mailbox_views(old(deliveries)@)
                    + handed_out,
    {
        let ghost before = bridge@;
        let ghost earlier = mailbox_views(deliveries@);
        let ghost recorded_at = self.service().recorded_at;
        let due = match bridge.store.expired_timers(now) {
            Ok(due) => due,
            Err(error) => {
                proof {
                    assert(earlier + Seq::<DeliveryView>::empty() =~= earlier);
                    assert(swept(
                        before,
                        bridge@,
                        recorded_at,
                        now,
                        Seq::empty(),
                        Err(TimerRecoveryErrorView::Store(error@)),
                    ));
                }
                return Err(TimerRecoveryError::Store(error));
            },
        };
        let ghost entries = timer_views(due@);
        let mut i: usize = 0;
        proof {
            assert(entries.take(0) =~= Seq::empty());
            assert(earlier + Seq::<DeliveryView>::empty() =~= earlier);
        }
        while i < due.len()
            invariant
                i <= due.len(),
                before == old(bridge)@,
                earlier == mailbox_views(old(deliveries)@),
                failing(before.failures, StoreCall::ExpiredTimers { as_of: now }) is None,
                entries == timer_views(due@),
                lists(entries, due_timers(before.timers, now)),
                in_order(due@),
                recorded_at == self.service().recorded_at,
                bridge@ == sweep(before, recorded_at, entries.take(i as int)).bridge,
                sweep(before, recorded_at, entries.take(i as int)).outcome is Ok,
                mailbox_views(deliveries@) == earlier + sweep(
                    before,
                    recorded_at,
                    entries.take(i as int),
                ).deliveries,
            decreases due.len() - i,
        {
            let ghost step = sweep(before, recorded_at, entries.take(i as int));
            let ghost next = sweep(before, recorded_at, entries.take(i + 1));
            proof {
                assert(entries.take(i + 1).drop_last() =~= entries.take(i as int));
                assert(entries.take(i + 1).last() == due@[i as int]@);
            }
            let fired = self.timer_service.fire_timer(
                bridge,
                &due[i].workflow_id,
                &due[i].timer_id,
                due[i].fire_at,
            );
            match fired {
                Ok(Some(delivery)) => {
                    let ghost so_far = deliveries@;
                    deliveries.push(delivery);
                    proof {
                        assert(mailbox_views(deliveries@) =~= mailbox_views(so_far).push(
                            delivery@,
                        ));
                        assert(earlier + step.deliveries.push(delivery@) =~= (earlier
                            + step.deliveries).push(delivery@));
                    }
                },
                Ok(None) => {},
                Err(error) => {
                    proof {
                        let k = i + 1;
                        sweep_stops(before, recorded_at, entries, k);
                        assert(swept(
                            before,
                            bridge@,
                            recorded_at,
                            now,
                            next.deliveries,
                            Err(TimerRecoveryErrorView::Timer(error@)),
                        ));
                    }
                    return Err(TimerRecoveryError::Timer(error));
                },
            }
            i += 1;
        }
        proof {
            assert(entries.take(i as int) =~= entries);
            assert(swept(
                before,
                bridge@,
                recorded_at,
                now,
                sweep(before, recorded_at, entries).deliveries,
                Ok(due@.len() as usize),
            ));
        }
        Ok(due.len())
    }
}

/// A sweep that fails goes no further.
proof fn sweep_stops(
    bridge: BridgeView,
    recorded_at: Timestamp,
    due: Seq<TimerEntryView>,
    done: int,
)
    requires
        0 <= done <= due.len(),
        sweep(bridge, recorded_at, due.take(done)).outcome is Err,
    ensures
        sweep(bridge, recorded_at, due) == sweep(bridge, recorded_at, due.take(done)),
    decreases due.len(),
{
    if done < due.len() {
        assert(due.drop_last().take(done) =~= due.take(done));
        sweep_stops(bridge, recorded_at, due.drop_last(), done);
    } else {
        assert(due.take(done) =~= due);
    }
}

/// Firing a timer keeps what was settled settled and recorders with their own workflows; if it
/// succeeds the timer itself is settled.
proof fn firing_keeps_settled(
    bridge: BridgeView,
    recorded_at: Timestamp,
    entry: TimerEntryView,
    workflow_id: WorkflowId,
    timer_id: TimerIdView,
)
    requires
        own_recorders(bridge.handles),
    ensures
        ({
            let (after, fired) = fired_timer(
                bridge,
                recorded_at,
                entry.workflow_id,
                entry.timer_id,
                entry.fire_at,
            );
            &&& own_recorders(after.handles)
            &&& after.failures == bridge.failures
            &&& is_settled(history_in(bridge.histories, workflow_id), timer_id) ==> is_settled(
                history_in(after.histories, workflow_id),
                timer_id,
            )
            &&& fired is Ok ==> is_settled(
                history_in(after.histories, entry.workflow_id),
                entry.timer_id,
            )
            &&& fired is Ok ==> failing(
                bridge.failures,
                StoreCall::ReadHistory { workflow_id: entry.workflow_id },
            ) is None
        }),
{
    let body = EventBody::TimerFired { timer_id: entry.timer_id };
    if failing(
        bridge.failures,
        StoreCall::ReadHistory { workflow_id: entry.workflow_id },
    ) is None && !is_settled(
        history_in(bridge.histories, entry.workflow_id),
        entry.timer_id,
    ) {
        let (after, outcome) = settled_timer(bridge, entry.workflow_id, recorded_at, body);
        let place = first_place(bridge.handles, of_workflow(entry.workflow_id));
        first_place_in_range(bridge.handles, of_workflow(entry.workflow_id));
        if place < bridge.handles.len() {
            let recorder = bridge.handles[place].recorder;
            assert forall|i: int| 0 <= i < after.handles.len() implies (
            #[trigger] after.handles[i]).recorder.workflow_id == after.handles[i].workflow_id by {
                assert(bridge.handles[i].recorder.workflow_id == bridge.handles[i].workflow_id);
            }
            if outcome is Ok {
                let event = next_event(recorder, recorded_at, body);
                recorded_end_settles(
                    bridge,
                    entry.workflow_id,
                    recorded_at,
                    body,
                    entry.timer_id,
                );
                appended_events_are_read_back(
                    bridge.histories,
                    recorder.workflow_id,
                    workflow_id,
                    seq![event],
                );
                if is_settled(history_in(bridge.histories, workflow_id), timer_id) {
                    settled_timers_stay_settled(
                        history_in(bridge.histories, workflow_id),
                        seq![event],
                        timer_id,
                    );
                }
            }
        }
    }
}

proof fn sweep_settles(bridge: BridgeView, recorded_at: Timestamp, due: Seq<TimerEntryView>)
    requires
        own_recorders(bridge.handles),
        sweep(bridge, recorded_at, due).outcome is Ok,
    ensures
        own_recorders(sweep(bridge, recorded_at, due).bridge.handles),
        sweep(bridge, recorded_at, due).bridge.failures == bridge.failures,
        forall|i: int|
            0 <= i < due.len() ==> failing(
                bridge.failures,
                StoreCall::ReadHistory { workflow_id: (#[trigger] due[i]).workflow_id },
            ) is None,
        forall|i: int|
            0 <= i < due.len() ==> is_settled(
                history_in(
                    sweep(bridge, recorded_at, due).bridge.histories,
                    (#[trigger] due[i]).workflow_id,
                ),
                due[i].timer_id,
            ),
    decreases due.len(),
{
    if due.len() > 0 {
        let rest = due.drop_last();
        sweep_settles(bridge, recorded_at, rest);
        let earlier = sweep(bridge, recorded_at, rest);
        let done = sweep(bridge, recorded_at, due);
        firing_keeps_settled(
            earlier.bridge,
            recorded_at,
            due.last(),
            due.last().workflow_id,
            due.last().timer_id,
        );
        assert forall|i: int| 0 <= i < due.len() implies failing(
            bridge.failures,
            StoreCall::ReadHistory { workflow_id: (#[trigger] due[i]).workflow_id },
        ) is None by {
            if i < rest.len() {
                assert(rest[i] == due[i]);
            }
        }
        assert forall|i: int| 0 <= i < due.len() implies is_settled(
            history_in(done.bridge.histories, (#[trigger] due[i]).workflow_id),
            due[i].timer_id,
        ) by {
            firing_keeps_settled(
                earlier.bridge,
                recorded_at,
                due.last(),
                due[i].workflow_id,
                due[i].timer_id,
            );
            if i < rest.len() {
                assert(rest[i] == due[i]);
            }
        }
    }
}

/// Sweeping again over timers that a sweep already went through records and delivers nothing: each
/// due timer fires once in total.
pub proof fn sweeping_twice_fires_once(
    bridge: BridgeView,
    recorded_at: Timestamp,
    later: Timestamp,
    due: Seq<TimerEntryView>,
    again: Seq<TimerEntryView>,
)
    requires
        own_recorders(bridge.handles),
        sweep(bridge, recorded_at, due).outcome is Ok,
        forall|i: int| 0 <= i < again.len() ==> due.contains(#[trigger] again[i]),
    ensures
        sweep(sweep(bridge, recorded_at, due).bridge, later, again) == (SweepView {
            bridge: sweep(bridge, recorded_at, due).bridge,
            deliveries: Seq::empty(),
            outcome: Ok(()),
        }),
    decreases again.len(),
{
    let done = sweep(bridge, recorded_at, due).bridge;
    sweep_settles(bridge, recorded_at, due);
    if again.len() > 0 {
        let rest = again.drop_last();
        assert forall|i: int| 0 <= i < rest.len() implies due.contains(#[trigger] rest[i]) by {
            assert(rest[i] == again[i]);
        }
        sweeping_twice_fires_once(bridge, recorded_at, later, due, rest);
        assert(due.contains(again[again.len() - 1]));
        let k = choose|k: int| 0 <= k < due.len() && due[k] == again.last();
        assert(is_settled(history_in(done.histories, due[k].workflow_id), due[k].timer_id));
    }
}

/// How often a history says that a timer fired.
pub open spec fn fired_count(history: Seq<EventView>, timer_id: TimerIdView) -> nat
    decreases history.len(),
{
    if history.len() == 0 {
        0
    } else {
        fired_count(history.drop_last(), timer_id) + (if history.last().body
            == (EventBody::TimerFired { timer_id }) {
            1nat
        } else {
            0nat
        })
    }
}

/// The messages for timers that were settled neither before nor twice: one for each timer of a
/// resident workflow, with the due time of its own.
pub open spec fn owed_deliveries(bridge: BridgeView, due: Seq<TimerEntryView>) -> Seq<DeliveryView>
    decreases due.len(),
{
    if due.len() == 0 {
        Seq::empty()
    } else {
        let earlier = owed_deliveries(bridge, due.drop_last());
        let entry = due.last();
        match residency_in(bridge.handles, entry.workflow_id) {
            WorkflowResidency::Resident(process) if !is_settled(
                history_in(bridge.histories, entry.workflow_id),
                entry.timer_id,
            ) => earlier.push(
                DeliveryView {
                    process,
                    message: MailboxMessageView::TimerFired {
                        timer_id: entry.timer_id,
                        fire_at: entry.fire_at,
                    },
                },
            ),
            _ => earlier,
        }
    }
}

/// The entry is of the timer.
pub open spec fn is_entry_of(
    entry: TimerEntryView,
    workflow_id: WorkflowId,
    timer_id: TimerIdView,
) -> bool {
    entry.workflow_id == workflow_id && entry.timer_id == timer_id
}

/// No timer is listed twice.
pub open spec fn distinct_timers(due: Seq<TimerEntryView>) -> bool {
    forall|i: int, j: int|
        #![trigger due[i], due[j]]
        0 <= i < j < due.len() ==> !is_entry_of(due[i], due[j].workflow_id, due[j].timer_id)
}

proof fn listed_timers_are_distinct(
    due: Seq<TimerEntryView>,
    timers: Map<(WorkflowId, TimerIdView), Timestamp>,
    now: Timestamp,
)
    requires
        lists(due, due_timers(timers, now)),
    ensures
        distinct_timers(due),
        forall|key: (WorkflowId, TimerIdView)| #[trigger]
            due_timers(timers, now).contains_key(key) ==> exists|i: int|
                0 <= i < due.len() && is_entry_of(#[trigger] due[i], key.0, key.1),
        forall|i: int|
            0 <= i < due.len() ==> due_timers(timers, now).contains_key(
                ((#[trigger] due[i]).workflow_id, due[i].timer_id),
            ) && due_timers(timers, now)[(due[i].workflow_id, due[i].timer_id)] == due[i],
{
    let wanted = due_timers(timers, now);
    let keys = choose|keys: Seq<(WorkflowId, TimerIdView)>| #[trigger]
        enumerates(keys, due, wanted);
    assert forall|i: int| 0 <= i < due.len() implies wanted.contains_key(
        ((#[trigger] due[i]).workflow_id, due[i].timer_id),
    ) && wanted[(due[i].workflow_id, due[i].timer_id)] == due[i] && keys[i] == (
        due[i].workflow_id,
        due[i].timer_id,
    ) by {
        assert(keys.contains(keys[i]));
        assert(due[i] == wanted[keys[i]]);
    }
    assert forall|key: (WorkflowId, TimerIdView)| #[trigger] wanted.contains_key(key) implies exists|
        i: int,
    | 0 <= i < due.len() && is_entry_of(#[trigger] due[i], key.0, key.1) by {
        assert(keys.contains(key));
        let i = choose|i: int| 0 <= i < keys.len() && keys[i] == key;
        assert(is_entry_of(due[i], key.0, key.1));
    }
}

proof fn same_first_place(
    a: Seq<HandleView>,
    b: Seq<HandleView>,
    wanted: spec_fn(HandleView) -> bool,
)
    requires
        a.len() == b.len(),
        forall|i: int| 0 <= i < a.len() ==> wanted(#[trigger] a[i]) == wanted(b[i]),
    ensures
        first_place(a, wanted) == first_place(b, wanted),
    decreases a.len(),
{
    if a.len() > 0 {
        assert(wanted(a[0]) == wanted(b[0]));
        let x = a.drop_first();
        let y = b.drop_first();
        assert forall|i: int| 0 <= i < x.len() implies wanted(#[trigger] x[i]) == wanted(y[i]) by {
            assert(x[i] == a[i + 1]);
        }
        same_first_place(x, y, wanted);
    }
}

proof fn counted_once_more(history: Seq<EventView>, event: EventView, timer_id: TimerIdView)
    ensures
        fired_count(history + seq![event], timer_id) == fired_count(history, timer_id) + (
        if event.body == (EventBody::TimerFired { timer_id }) {
            1nat
        } else {
            0nat
        }),
        !settles(event.body, timer_id) ==> (is_settled(history + seq![event], timer_id)
            <==> is_settled(history, timer_id)),
{
    let grown = history + seq![event];
    assert(grown.drop_last() =~= history);
    assert(grown.last() == event);
    if is_settled(history, timer_id) {
        settled_timers_stay_settled(history, seq![event], timer_id);
    }
    if !settles(event.body, timer_id) && is_settled(grown, timer_id) {
        let i = choose|i: int|
            0 <= i < grown.len() && settles((#[trigger] grown[i]).body, timer_id);
        assert(grown[i] == history[i]);
    }
}

/// Firing a timer leaves every other timer, and where workflows are, as it was, and counts once
/// unless the timer was settled.
proof fn firing_changes_nothing_else(
    bridge: BridgeView,
    recorded_at: Timestamp,
    entry: TimerEntryView,
    workflow_id: WorkflowId,
    timer_id: TimerIdView,
)
    requires
        own_recorders(bridge.handles),
    ensures
        ({
            let (after, fired) = fired_timer(
                bridge,
                recorded_at,
                entry.workflow_id,
                entry.timer_id,
                entry.fire_at,
            );
            let history = history_in(bridge.histories, workflow_id);
            let later = history_in(after.histories, workflow_id);
            &&& after.timers == bridge.timers
            &&& residency_in(after.handles, workflow_id) == residency_in(
                bridge.handles,
                workflow_id,
            )
            &&& !is_entry_of(entry, workflow_id, timer_id) ==> is_settled(later, timer_id)
                == is_settled(history, timer_id) && fired_count(later, timer_id) == fired_count(
                history,
                timer_id,
            )
            &&& is_entry_of(entry, workflow_id, timer_id) && fired is Ok ==> fired_count(
                later,
                timer_id,
            ) == fired_count(history, timer_id) + (if is_settled(history, timer_id) {
                0nat
            } else {
                1nat
            })
        }),
{
    let body = EventBody::TimerFired { timer_id: entry.timer_id };
    if failing(
        bridge.failures,
        StoreCall::ReadHistory { workflow_id: entry.workflow_id },
    ) is None && !is_settled(
        history_in(bridge.histories, entry.workflow_id),
        entry.timer_id,
    ) {
        let (after, outcome) = settled_timer(bridge, entry.workflow_id, recorded_at, body);
        let place = first_place(bridge.handles, of_workflow(entry.workflow_id));
        first_place_in_range(bridge.handles, of_workflow(entry.workflow_id));
        if place < bridge.handles.len() {
            let recorder = bridge.handles[place].recorder;
            assert(recorder.workflow_id == entry.workflow_id);
            same_first_place(after.handles, bridge.handles, of_workflow(workflow_id));
            first_place_in_range(bridge.handles, of_workflow(workflow_id));
            let event = next_event(recorder, recorded_at, body);
            appended_events_are_read_back(
                bridge.histories,
                recorder.workflow_id,
                workflow_id,
                seq![event],
            );
            counted_once_more(history_in(bridge.histories, workflow_id), event, timer_id);
        }
    }
}

proof fn sweep_goes_by_its_start(
    bridge: BridgeView,
    recorded_at: Timestamp,
    due: Seq<TimerEntryView>,
    workflow_id: WorkflowId,
    timer_id: TimerIdView,
)
    requires
        own_recorders(bridge.handles),
        distinct_timers(due),
        sweep(bridge, recorded_at, due).outcome is Ok,
    ensures
        ({
            let done = sweep(bridge, recorded_at, due);
            let history = history_in(bridge.histories, workflow_id);
            let later = history_in(done.bridge.histories, workflow_id);
            let listed = exists|i: int|
                0 <= i < due.len() && is_entry_of(#[trigger] due[i], workflow_id, timer_id);
            &&& done.deliveries == owed_deliveries(bridge, due)
            &&& done.bridge.timers == bridge.timers
            &&& residency_in(done.bridge.handles, workflow_id) == residency_in(
                bridge.handles,
                workflow_id,
            )
            &&& !listed ==> is_settled(later, timer_id) == is_settled(history, timer_id)
                && fired_count(later, timer_id) == fired_count(history, timer_id)
            &&& listed ==> fired_count(later, timer_id) == fired_count(history, timer_id) + (
            if is_settled(history, timer_id) {
                0nat
            } else {
                1nat
            })
        }),
    decreases due.len(),
{
    if due.len() > 0 {
        let rest = due.drop_last();
        let entry = due.last();
        let earlier = sweep(bridge, recorded_at, rest);
        assert forall|i: int, j: int|
            #![trigger rest[i], rest[j]]
            0 <= i < j < rest.len() implies !is_entry_of(
            rest[i],
            rest[j].workflow_id,
            rest[j].timer_id,
        ) by {
            assert(rest[i] == due[i] && rest[j] == due[j]);
        }
        sweep_goes_by_its_start(bridge, recorded_at, rest, workflow_id, timer_id);
        sweep_goes_by_its_start(bridge, recorded_at, rest, entry.workflow_id, entry.timer_id);
        sweep_settles(bridge, recorded_at, rest);
        assert forall|i: int| 0 <= i < rest.len() implies !is_entry_of(
            #[trigger] rest[i],
            entry.workflow_id,
            entry.timer_id,
        ) by {
            assert(rest[i] == due[i]);
            assert(due[due.len() - 1] == entry);
        }
        firing_changes_nothing_else(earlier.bridge, recorded_at, entry, workflow_id, timer_id);
        if is_entry_of(entry, workflow_id, timer_id) {
            assert(is_entry_of(due[due.len() - 1], workflow_id, timer_id));
        } else if exists|i: int|
            0 <= i < rest.len() && is_entry_of(#[trigger] rest[i], workflow_id, timer_id) {
            let i = choose|i: int|
                0 <= i < rest.len() && is_entry_of(#[trigger] rest[i], workflow_id, timer_id);
            assert(due[i] == rest[i]);
        } else {
            assert forall|i: int| 0 <= i < due.len() implies !is_entry_of(
                #[trigger] due[i],
                workflow_id,
                timer_id,
            ) by {
                if i < rest.len() {
                    assert(rest[i] == due[i]);
                }
            }
        }
    }
}

/// Behind a sweep every timer that was due is settled: one that was not settled before is recorded
/// as fired once more, and one that was, such as a cancelled one, not at all.
pub open spec fn fired_once(before: BridgeView, after: BridgeView, now: Timestamp) -> bool {
    forall|key: (WorkflowId, TimerIdView)| #[trigger]
        due_timers(before.timers, now).contains_key(key) ==> is_settled(
            history_in(after.histories, key.0),
            key.1,
        ) && fired_count(history_in(after.histories, key.0), key.1) == fired_count(
            history_in(before.histories, key.0),
            key.1,
        ) + (if is_settled(history_in(before.histories, key.0), key.1) {
            0nat
        } else {
            1nat
        })
}

/// A sweep that succeeds counts the due timers, hands out one message for every due timer of a
/// resident workflow that was not settled, and none for any other, and fires each due timer once.
pub proof fn due_timers_fire_once(
    before: BridgeView,
    after: BridgeView,
    recorded_at: Timestamp,
    now: Timestamp,
    handed_out: Seq<DeliveryView>,
    count: usize,
)
    requires
        own_recorders(before.handles),
        swept(before, after, recorded_at, now, handed_out, Ok(count)),
    ensures
        count == due_timers(before.timers, now).len(),
        after.timers == before.timers,
        own_recorders(after.handles),
        fired_once(before, after, now),
        exists|due: Seq<TimerEntryView>|
            #![trigger owed_deliveries(before, due)]
            lists(due, due_timers(before.timers, now)) && handed_out == owed_deliveries(
                before,
                due,
            ),
{
    let due = choose|due: Seq<TimerEntry>|
        #![trigger timer_views(due)]
        {
            let done = sweep(before, recorded_at, timer_views(due));
            &&& lists(timer_views(due), due_timers(before.timers, now))
            &&& after == done.bridge
            &&& handed_out == done.deliveries
            &&& done.outcome is Ok
            &&& count == due.len()
        };
    let entries = timer_views(due);
    listed_timers_are_distinct(entries, before.timers, now);
    listing_length(entries, due_timers(before.timers, now));
    sweep_settles(before, recorded_at, entries);
    sweep_goes_by_its_start(
        before,
        recorded_at,
        entries,
        WorkflowId { value: 0 },
        TimerIdView::Anonymous(0),
    );
    assert(handed_out == owed_deliveries(before, entries));
    assert forall|key: (WorkflowId, TimerIdView)| #[trigger]
        due_timers(before.timers, now).contains_key(key) implies is_settled(
        history_in(after.histories, key.0),
        key.1,
    ) && fired_count(history_in(after.histories, key.0), key.1) == fired_count(
        history_in(before.histories, key.0),
        key.1,
    ) + (if is_settled(history_in(before.histories, key.0), key.1) {
        0nat
    } else {
        1nat
    }) by {
        sweep_goes_by_its_start(before, recorded_at, entries, key.0, key.1);
        let i = choose|i: int|
            0 <= i < entries.len() && is_entry_of(#[trigger] entries[i], key.0, key.1);
        assert(is_settled(
            history_in(after.histories, entries[i].workflow_id),
            entries[i].timer_id,
        ));
    }
}

/// A sweep that succeeds hands out one message for every due timer of a resident workflow that was
/// not settled, and none for any other. Every due timer that was not settled is recorded as fired
/// once, and one that was settled, such as a cancelled one, not at all. A second sweep at the same
/// time finds as many timers due, and records and hands out nothing.
pub proof fn due_timers_fire_once_over_two_sweeps(
    before: BridgeView,
    between: BridgeView,
    after: BridgeView,
    recorded_at: Timestamp,
    later: Timestamp,
    now: Timestamp,
    first: Seq<DeliveryView>,
    second: Seq<DeliveryView>,
    count: usize,
    again: Result<usize, TimerRecoveryErrorView>,
)
    requires
        own_recorders(before.handles),
        swept(before, between, recorded_at, now, first, Ok(count)),
        swept(between, after, later, now, second, again),
    ensures
        again == Ok::<usize, TimerRecoveryErrorView>(count),
        after == between,
        second == Seq::<DeliveryView>::empty(),
        exists|due: Seq<TimerEntryView>|
            #![trigger owed_deliveries(before, due)]
            lists(due, due_timers(before.timers, now)) && due.len() == count && first
                == owed_deliveries(before, due),
        fired_once(before, after, now),
        count == due_timers(before.timers, now).len(),
{
    let due = choose|due: Seq<TimerEntry>|
        #![trigger timer_views(due)]
        {
            let done = sweep(before, recorded_at, timer_views(due));
            &&& lists(timer_views(due), due_timers(before.timers, now))
            &&& in_order(due)
            &&& between == done.bridge
            &&& first == done.deliveries
            &&& match done.outcome {
                Ok(()) => count == due.len(),
                Err(error) => false,
            }
        };
    let entries = timer_views(due);
    listed_timers_are_distinct(entries, before.timers, now);
    sweep_settles(before, recorded_at, entries);
    sweep_goes_by_its_start(
        before,
        recorded_at,
        entries,
        WorkflowId { value: 0 },
        TimerIdView::Anonymous(0),
    );
    assert(between.timers == before.timers);
    assert(entries.len() == count);
    assert(first == owed_deliveries(before, entries));
    let rest = choose|rest: Seq<TimerEntry>|
        #![trigger timer_views(rest)]
        {
            let done = sweep(between, later, timer_views(rest));
            &&& lists(timer_views(rest), due_timers(between.timers, now))
            &&& in_order(rest)
            &&& after == done.bridge
            &&& second == done.deliveries
            &&& match done.outcome {
                Ok(()) => again matches Ok(n) && n == rest.len(),
                Err(error) => again == Err::<usize, TimerRecoveryErrorView>(
                    TimerRecoveryErrorView::Timer(error),
                ),
            }
        };
    let repeated = timer_views(rest);
    listed_timers_are_distinct(repeated, before.timers, now);
    assert forall|i: int| 0 <= i < repeated.len() implies entries.contains(
        #[trigger] repeated[i],
    ) by {
        let key = (repeated[i].workflow_id, repeated[i].timer_id);
        assert(due_timers(before.timers, now).contains_key(key));
        let j = choose|j: int|
            0 <= j < entries.len() && is_entry_of(#[trigger] entries[j], key.0, key.1);
        assert(entries[j] == repeated[i]);
    }
    sweeping_twice_fires_once(before, recorded_at, later, entries, repeated);
    listing_length(entries, due_timers(before.timers, now));
    listing_length(repeated, due_timers(before.timers, now));
    assert(repeated.len() == rest.len());
    due_timers_fire_once(before, between, recorded_at, now, first, count);
}

/// A sweep fires its timers one behind the other, each with its own due time: it goes on with a timer
/// only behind timers that all fired, adds the message that firing it hands out, and ends with the
/// failure of firing it.
pub proof fn sweeps_go_one_timer_at_a_time(
    bridge: BridgeView,
    recorded_at: Timestamp,
    due: Seq<TimerEntryView>,
    entry: TimerEntryView,
)
    ensures
        ({
            let earlier = sweep(bridge, recorded_at, due);
            let done = sweep(bridge, recorded_at, due.push(entry));
            let (after, fired) = fired_timer(
                earlier.bridge,
                recorded_at,
                entry.workflow_id,
                entry.timer_id,
                entry.fire_at,
            );
            &&& earlier.outcome is Err ==> done == earlier
            &&& earlier.outcome is Ok ==> {
                &&& done.bridge == after
                &&& done.outcome is Ok <==> fired is Ok
                &&& fired matches Err(error) ==> done.outcome == Err::<(), TimerServiceErrorView>(
                    error,
                )
                &&& fired matches Ok(Some(delivery)) ==> done.deliveries
                    == earlier.deliveries.push(delivery)
                &&& !(fired matches Ok(Some(_))) ==> done.deliveries == earlier.deliveries
            }
        }),
{
    assert(due.push(entry).drop_last() =~= due);
}

/// A sweep whose due timers cannot be read fires nothing and tells the failure of the store.
pub proof fn unread_timers_are_not_fired(
    before: BridgeView,
    after: BridgeView,
    recorded_at: Timestamp,
    now: Timestamp,
    handed_out: Seq<DeliveryView>,
    recovered: Result<usize, TimerRecoveryErrorView>,
)
    requires
        swept(before, after, recorded_at, now, handed_out, recovered),
        failing(before.failures, StoreCall::ExpiredTimers { as_of: now }) is Some,
    ensures
        after == before,
        handed_out.len() == 0,
        recovered == Err::<usize, TimerRecoveryErrorView>(
            TimerRecoveryErrorView::Store(
                failing(before.failures, StoreCall::ExpiredTimers { as_of: now })->Some_0,
            ),
        ),
{
}

/// A sweep over timers that could be read fails only with the failure of firing one of them.
pub proof fn failed_sweeps_tell_the_failed_timer(
    before: BridgeView,
    after: BridgeView,
    recorded_at: Timestamp,
    now: Timestamp,
    handed_out: Seq<DeliveryView>,
    error: TimerRecoveryErrorView,
)
    requires
        swept(before, after, recorded_at, now, handed_out, Err(error)),
        failing(before.failures, StoreCall::ExpiredTimers { as_of: now }) is None,
    ensures
        error matches TimerRecoveryErrorView::Timer(failure) && exists|due: Seq<TimerEntryView>|
            lists(due, due_timers(before.timers, now)) && #[trigger] sweep(
                before,
                recorded_at,
                due,
            ).outcome == Err::<(), TimerServiceErrorView>(failure),
{
    let due = choose|due: Seq<TimerEntry>|
        #![trigger timer_views(due)]
        {
            let done = sweep(before, recorded_at, timer_views(due));
            &&& lists(timer_views(due), due_timers(before.timers, now))
            &&& done.outcome matches Err(failure) && error == TimerRecoveryErrorView::Timer(failure)
        };
    assert(lists(timer_views(due), due_timers(before.timers, now)));
    assert(sweep(before, recorded_at, timer_views(due)).outcome is Err);
}

/// The text of a failed sweep says whether reading or firing failed, followed by the reason.
pub proof fn failed_sweeps_say_what_failed(store: StoreErrorView, timer: TimerServiceErrorView)
    ensures
        TimerRecoveryErrorView::Store(store).text() == "timer recovery store operation failed: "@
            + store.text(),
        TimerRecoveryErrorView::Timer(timer).text() == "timer recovery fire operation failed: "@
            + timer.text(),
{
}

/// Behind a sweep that fired what was due, every due timer has fired or was cancelled, and a firing was
/// added to its workflow's history exactly where it had done neither before.
pub proof fn fired_once_means_once(
    before: BridgeView,
    after: BridgeView,
    now: Timestamp,
    workflow_id: WorkflowId,
    timer_id: TimerIdView,
)
    requires
        fired_once(before, after, now),
        before.timers.contains_key((workflow_id, timer_id)),
        before.timers[(workflow_id, timer_id)].at_most(now),
    ensures
        is_settled(history_in(after.histories, workflow_id), timer_id),
        ({
            let fired = fired_count(history_in(before.histories, workflow_id), timer_id);
            let later = fired_count(history_in(after.histories, workflow_id), timer_id);
            &&& is_settled(history_in(before.histories, workflow_id), timer_id) ==> later == fired
            &&& !is_settled(history_in(before.histories, workflow_id), timer_id) ==> later == fired
                + 1
        }),
{
    assert(due_timers(before.timers, now).contains_key((workflow_id, timer_id)));
}

/// The firings of a timer are counted one by one, and no other event counts.
pub proof fn firings_are_counted(history: Seq<EventView>, event: EventView, timer_id: TimerIdView)
    ensures
        fired_count(Seq::empty(), timer_id) == 0,
        event.body == (EventBody::TimerFired { timer_id }) ==> fired_count(
            history.push(event),
            timer_id,
        ) == fired_count(history, timer_id) + 1,
        event.body != (EventBody::TimerFired { timer_id }) ==> fired_count(
            history.push(event),
            timer_id,
        ) == fired_count(history, timer_id),
{
    assert(history.push(event).drop_last() =~= history);
}

} // verus!
