//! Fan-out of one text to every registered connection.

use crate::registry::{without_dead, ConnId, Registry};
use vstd::prelude::*;

verus! {

/// One push that the transport is asked to make: `payload`, as one text
/// frame, to the connection `to`.
#[derive(Debug, PartialEq, Eq)]
pub struct Delivery {
    pub to: ConnId,
    pub payload: String,
}

/// A [`Delivery`] as contracts see it.
pub struct DeliveryView {
    pub to: ConnId,
    pub payload: Seq<char>,
}

impl View for Delivery {
    type V = DeliveryView;

    open spec fn view(&self) -> DeliveryView {
        DeliveryView { to: self.to, payload: self.payload@ }
    }
}

impl DeepView for Delivery {
    type V = DeliveryView;

    open spec fn deep_view(&self) -> DeliveryView {
        self@
    }
}

impl Clone for Delivery {
    fn clone(&self) -> (copy: Delivery)
        ensures
            copy@ == self@,
    {
        Delivery { to: self.to, payload: self.payload.clone() }
    }
}

/// The delivery of `text` to one handle, as a function of the handle.
pub open spec fn addressed(text: Seq<char>) -> spec_fn(ConnId) -> DeliveryView {
    |to: ConnId| DeliveryView { to, payload: text }
}

/// The pushes that a broadcast of `text` to `handles` consists of: one for
/// each entry of `handles`, in that order, each with `text` as it is.
pub open spec fn fan_out_of(handles: Seq<ConnId>, text: Seq<char>) -> Seq<DeliveryView> {
    handles.map_values(addressed(text))
}

/// The pushes that bring `text` to every handle of `snapshot`.
///
/// Every entry of the snapshot gets its push, whatever becomes of the
/// others: the pushes are independent values, and the caller makes each of
/// them without regard to how the ones before it ended.
pub fn fan_out(snapshot: &Vec<ConnId>, text: &str) -> (plan: Vec<Delivery>)
    ensures
        plan.deep_view() == fan_out_of(snapshot@, text@),
{
    let mut plan: Vec<Delivery> = Vec::new();
    let mut i: usize = 0;
    while i < snapshot.len()
        invariant
            i <= snapshot.len(),
            plan.deep_view() == fan_out_of(snapshot@.take(i as int), text@),
        decreases snapshot.len() - i,
    {
        let ghost before = plan.deep_view();
        plan.push(Delivery { to: snapshot[i], payload: text.to_owned() });
        proof {
            let next = DeliveryView { to: snapshot@[i as int], payload: text@ };
            assert(plan.deep_view() =~= before.push(next));
            assert(snapshot@.take(i + 1) =~= snapshot@.take(i as int).push(snapshot@[i as int]));
            assert(fan_out_of(snapshot@.take(i + 1), text@) =~= before.push(next));
        }
        i += 1;
    }
    proof {
        assert(snapshot@.take(i as int) =~= snapshot@);
    }
    plan
}

/// Broadcasts `text`: takes a snapshot of `registry` and returns the pushes
/// that bring the text to every connection in it.
///
/// The registry is read once, for the snapshot, and is free again before
/// the first push is made. The call cannot fail; a push that fails later
/// concerns its recipient alone and is nothing the broadcaster hears of.
pub fn broadcast(registry: &Registry, text: &str) -> (plan: Vec<Delivery>)
    ensures
        plan.deep_view() == fan_out_of(registry@, text@),
{
    let snapshot = registry.snapshot();
    fan_out(&snapshot, text)
}

/// The test that a push passes when its recipient is not among the
/// connections `broken`, whose channel does not work.
pub open spec fn arrives(broken: Set<ConnId>) -> spec_fn(DeliveryView) -> bool {
    |push: DeliveryView| !broken.contains(push.to)
}

/// The pushes of `plan` that reach their recipient when the channels of
/// the connections `broken`, and of no others, do not work.
pub open spec fn arrivals(plan: Seq<DeliveryView>, broken: Set<ConnId>) -> Seq<DeliveryView> {
    plan.filter(arrives(broken))
}

/// The test that a handle passes when it is among `broken`.
pub open spec fn fails(broken: Set<ConnId>) -> spec_fn(ConnId) -> bool {
    |handle: ConnId| broken.contains(handle)
}

/// The entries of `handles` whose connection is among `broken`.
pub open spec fn broken_among(handles: Seq<ConnId>, broken: Set<ConnId>) -> Seq<ConnId> {
    handles.filter(fails(broken))
}

/// The test that a push passes when it goes to `handle`.
pub open spec fn goes_to(handle: ConnId) -> spec_fn(DeliveryView) -> bool {
    |push: DeliveryView| push.to == handle
}

/// The pushes of `plan` that go to `handle`.
pub open spec fn deliveries_to(plan: Seq<DeliveryView>, handle: ConnId) -> Seq<DeliveryView> {
    plan.filter(goes_to(handle))
}

/// A broadcast to N registered connections of which k are broken makes N
/// pushes, and exactly the N - k pushes to the live connections arrive: each
/// live entry gets its push of `text`, in the order of the registry, as if
/// the broken ones had been swept out before. With none broken, all N
/// arrive.
pub proof fn lemma_broadcast_reaches_the_live(
    handles: Seq<ConnId>,
    text: Seq<char>,
    broken: Set<ConnId>,
)
    ensures
        fan_out_of(handles, text).len() == handles.len(),
        arrivals(fan_out_of(handles, text), broken) == fan_out_of(
            without_dead(handles, broken),
            text,
        ),
        arrivals(fan_out_of(handles, text), broken).len() == handles.len() - broken_among(
            handles,
            broken,
        ).len(),
        broken_among(handles, broken).len() == 0 ==> arrivals(fan_out_of(handles, text), broken)
            == fan_out_of(handles, text),
    decreases handles.len(),
{
    reveal(Seq::filter);
    let plan = fan_out_of(handles, text);
    if handles.len() == 0 {
        assert(arrivals(plan, broken) =~= fan_out_of(without_dead(handles, broken), text));
    } else {
        let front = handles.drop_last();
        let last = handles.last();
        let push = DeliveryView { to: last, payload: text };
        lemma_broadcast_reaches_the_live(front, text, broken);
        assert(plan.drop_last() =~= fan_out_of(front, text));
        assert(plan.last() == push);
        let live = without_dead(front, broken);
        if broken.contains(last) {
            assert(arrivals(plan, broken) == arrivals(fan_out_of(front, text), broken));
            assert(without_dead(handles, broken) == live);
            assert(broken_among(handles, broken) == broken_among(front, broken).push(last));
        } else {
            assert(arrivals(plan, broken) == arrivals(fan_out_of(front, text), broken).push(push));
            assert(without_dead(handles, broken) == live.push(last));
            assert(fan_out_of(live.push(last), text) =~= fan_out_of(live, text).push(push));
            assert(broken_among(handles, broken) == broken_among(front, broken));
        }
        if broken_among(handles, broken).len() == 0 {
            assert(arrivals(plan, broken) =~= plan);
        }
    }
}

/// Every registration is served: a handle that is registered once more
/// gets one more push of each broadcast, behind those it got before.
pub proof fn lemma_each_registration_is_served(
    handles: Seq<ConnId>,
    connection: ConnId,
    text: Seq<char>,
)
    ensures
        deliveries_to(fan_out_of(handles.push(connection), text), connection) == deliveries_to(
            fan_out_of(handles, text),
            connection,
        ).push(DeliveryView { to: connection, payload: text }),
{
    let push = DeliveryView { to: connection, payload: text };
    let plan = fan_out_of(handles, text);
    assert(fan_out_of(handles.push(connection), text) =~= plan.push(push));
    plan.lemma_filter_push(push, goes_to(connection));
}

/// No push goes to a handle that is not registered.
pub proof fn lemma_unregistered_gets_nothing(
    handles: Seq<ConnId>,
    connection: ConnId,
    text: Seq<char>,
)
    requires
        !handles.contains(connection),
    ensures
        deliveries_to(fan_out_of(handles, text), connection) == Seq::<DeliveryView>::empty(),
{
    let plan = fan_out_of(handles, text);
    let got = deliveries_to(plan, connection);
    if got.len() > 0 {
        plan.lemma_filter_pred(goes_to(connection), 0);
        plan.lemma_filter_contains_rev(goes_to(connection), got[0]);
        let i = choose|i: int| 0 <= i < plan.len() && plan[i] == got[0];
        assert(handles[i] == connection);
    }
    assert(got =~= Seq::<DeliveryView>::empty());
}

/// A session that registers twice is served twice: each broadcast brings
/// it two pushes of the text, one for each entry.
pub proof fn lemma_registered_twice_is_served_twice(
    handles: Seq<ConnId>,
    connection: ConnId,
    text: Seq<char>,
)
    requires
        !handles.contains(connection),
    ensures
        deliveries_to(
            fan_out_of(handles.push(connection).push(connection), text),
            connection,
        ) == seq![
            DeliveryView { to: connection, payload: text },
            DeliveryView { to: connection, payload: text },
        ],
{
    let push = DeliveryView { to: connection, payload: text };
    lemma_unregistered_gets_nothing(handles, connection, text);
    lemma_each_registration_is_served(handles, connection, text);
    lemma_each_registration_is_served(handles.push(connection), connection, text);
    assert(Seq::<DeliveryView>::empty().push(push).push(push) =~= seq![push, push]);
}

} // verus!
