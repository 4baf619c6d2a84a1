//! A test environment for load-balancing policies.
//!
//! A policy under test drives a fake channel. What it does there (create a subchannel, publish a
//! picker, schedule work) becomes an event on one queue, and a test takes the events off that queue
//! in the order in which they happened.
use std::collections::VecDeque;
use std::sync::Arc;

use vstd::pervasive::unreached;
use vstd::prelude::*;

use crate::load_balancing::{
    state_name, Address, ConnectivityState, Endpoint, LbPolicy, LbState, ResolverUpdate,
    SubchannelState,
};
use crate::metadata::RequestHeaders;
use crate::sharing::share;

verus! {

/// The headers of a request of which nothing is known.
pub fn new_request_headers() -> (r: RequestHeaders)
    ensures
        r.method_name@.len() == 0,
        r.metadata.entries@.len() == 0,
{
    RequestHeaders::default()
}

/// A subchannel of a fake channel: it never connects, it only reports that it was asked to.
///
/// `W` is the type of the work scheduler that the creating policy provides.
#[derive(Debug)]
pub struct TestSubchannel<W> {
    /// Tells this subchannel from the others of its controller.
    pub id: u64,
    pub address: Address,
    /// Delivers updates of this subchannel's state to the policy that created it. There is none
    /// where the subchannel was not created through a channel controller.
    pub work_scheduler: Option<Arc<W>>,
}

/// A change of a subchannel's state, on its way to the policy that created the subchannel.
#[derive(Debug)]
pub struct SubchannelUpdate<W> {
    pub subchannel: Arc<TestSubchannel<W>>,
    pub state: SubchannelState,
}

/// The data that comes with scheduled work: an update of a subchannel's state, or something that
/// only the policy understands.
#[derive(Debug)]
pub enum WorkData<W, D> {
    SubchannelUpdate(SubchannelUpdate<W>),
    Other(D),
}

/// Something that a policy did to the fake channel.
pub enum TestEvent<W, K, D> {
    /// It created this subchannel.
    NewSubchannel(Arc<TestSubchannel<W>>),
    /// It published this state.
    UpdatePicker(LbState<K>),
    /// It asked for the name to be resolved again.
    RequestResolution,
    /// It asked the subchannel with this address to connect.
    Connect(Address),
    /// It scheduled work, with this data.
    ScheduleWork(Option<WorkData<W, D>>),
}

/// The queue between a policy's actions and the test that looks at them.
pub struct EventQueue<W, K, D> {
    /// The events that were not yet taken, oldest first.
    pub events: VecDeque<TestEvent<W, K, D>>,
    /// Whether the test still listens.
    pub listening: bool,
}

impl<W, K, D> View for EventQueue<W, K, D> {
    type V = Seq<TestEvent<W, K, D>>;

    /// The events that were not yet taken, oldest first.
    open spec fn view(&self) -> Seq<TestEvent<W, K, D>> {
        self.events@
    }
}

impl<W, K, D> EventQueue<W, K, D> {
    /// Whether `post` is `self` after an attempt to send `event`: it is there, behind all others,
    /// if the test still listens.
    pub open spec fn sends(self, event: TestEvent<W, K, D>, post: Self) -> bool {
        &&& post.listening == self.listening
        &&& post@ == if self.listening {
            self@.push(event)
        } else {
            self@
        }
    }

    /// An empty queue that a test listens to.
    pub fn new() -> (r: Self)
        ensures
            r@ == Seq::<TestEvent<W, K, D>>::empty(),
            r.listening,
    {
        EventQueue { events: VecDeque::new(), listening: true }
    }

    /// Adds an event behind all others, and gives it back where the test no longer listens.
    pub fn send(&mut self, event: TestEvent<W, K, D>) -> (r: Result<(), TestEvent<W, K, D>>)
        ensures
            old(self).sends(event, *final(self)),
            match r {
                Ok(_) => old(self).listening,
                Err(e) => !old(self).listening && e == event,
            },
    {
        if self.listening {
            self.events.push_back(event);
            Ok(())
        } else {
            Err(event)
        }
    }

    /// Takes the oldest event, if there is one.
    pub fn try_recv(&mut self) -> (r: Option<TestEvent<W, K, D>>)
        ensures
            final(self).listening == old(self).listening,
            match r {
                Some(event) => old(self)@.len() > 0 && event == old(self)@[0] && final(self)@
                    == old(self)@.drop_first(),
                None => old(self)@.len() == 0 && final(self)@ == old(self)@,
            },
    {
        let r = self.events.pop_front();
        proof {
            if r is Some {
                assert(self@ =~= old(self)@.drop_first());
            }
        }
        r
    }
}

/// A way for a policy to have its `work` method called.
pub trait WorkScheduler<K, D>: Sized {
    /// Whether `schedule_work` can turn the queue `before` into `after`.
    open spec fn schedules(
        self,
        data: Option<WorkData<Self, D>>,
        before: EventQueue<Self, K, D>,
        after: EventQueue<Self, K, D>,
    ) -> bool {
        true
    }

    /// Schedules work that comes with the given data.
    fn schedule_work(
        &self,
        data: Option<WorkData<Self, D>>,
        events: &mut EventQueue<Self, K, D>,
    )
        ensures
            self.schedules(data, *old(events), *final(events)),
    ;
}

/// A scheduler that runs nothing: it only reports that work was scheduled.
#[derive(Debug)]
pub struct TestWorkScheduler {}

impl<K, D> WorkScheduler<K, D> for TestWorkScheduler {
    open spec fn schedules(
        self,
        data: Option<WorkData<Self, D>>,
        before: EventQueue<Self, K, D>,
        after: EventQueue<Self, K, D>,
    ) -> bool {
        before.sends(TestEvent::ScheduleWork(data), after)
    }

    /// Work can still be scheduled when the test has stopped listening; it is dropped then.
    fn schedule_work(
        &self,
        data: Option<WorkData<Self, D>>,
        events: &mut EventQueue<Self, K, D>,
    ) {
        let _ = events.send(TestEvent::ScheduleWork(data));
    }
}

impl<W> TestSubchannel<W> {
    /// A subchannel that belongs to no policy.
    pub fn new(id: u64, address: Address) -> (r: Self)
        ensures
            r == (TestSubchannel { id, address, work_scheduler: None::<Arc<W>> }),
    {
        TestSubchannel { id, address, work_scheduler: None }
    }

    /// A subchannel of the policy that provides `work_scheduler`.
    pub fn new_with_work_scheduler(id: u64, address: Address, work_scheduler: Arc<W>) -> (r: Self)
        ensures
            r == (TestSubchannel { id, address, work_scheduler: Some(work_scheduler) }),
    {
        TestSubchannel { id, address, work_scheduler: Some(work_scheduler) }
    }

    /// The address that this subchannel connects to.
    pub fn address(&self) -> (r: Address)
        ensures
            r == self.address,
    {
        self.address.clone()
    }

    /// Asks the subchannel to connect.
    pub fn connect<K, D>(&self, events: &mut EventQueue<W, K, D>)
        requires
            old(events).listening,
        ensures
            old(events).sends(TestEvent::Connect(self.address), *final(events)),
    {
        let _ = events.send(TestEvent::Connect(self.address.clone()));
    }
}

/// `std::ptr::eq` on two subchannels: whether they are one object, in which case they are one value.
/// (A subchannel takes up memory, so that no two of them lie at one place.) That it holds of a
/// subchannel and itself is not stated: to the verifier a reference is the value that it points to,
/// and two objects can have one value.
#[verifier::external_body]
pub fn same_object<W>(a: &TestSubchannel<W>, b: &TestSubchannel<W>) -> (r: bool)
    ensures
        r ==> *a == *b,
{
    std::ptr::eq(a, b)
}

impl<W> PartialEq for TestSubchannel<W> {
    /// Only one and the same object is equal to itself: the result is that of `same_object`.
    fn eq(&self, other: &Self) -> (r: bool)
        ensures
            call_ensures(same_object::<W>, (self, other), r),
            r ==> *self == *other,
    {
        let compare = same_object::<W>;
        compare(self, other)
    }
}

impl<W> vstd::std_specs::cmp::PartialEqSpecImpl for TestSubchannel<W> {
    /// No: values do not decide whether two subchannels are one object.
    open spec fn obeys_eq_spec() -> bool {
        false
    }

    open spec fn eq_spec(&self, other: &Self) -> bool {
        *self == *other
    }
}

impl<W> Eq for TestSubchannel<W> {

}

/// `Hash::hash` of a `String`: feeds the text to a hasher. Of what that does to the hasher nothing
/// is said.
#[verifier::external_body]
pub fn feed_hasher<H: std::hash::Hasher>(text: &String, state: &mut H) {
    std::hash::Hash::hash(text, state)
}

impl<W> std::hash::Hash for TestSubchannel<W> {
    /// Feeds the address to the hasher, and nothing else: subchannels with one address hash alike.
    fn hash<H: std::hash::Hasher>(&self, state: &mut H)
        ensures
            exists|s: &mut H| #[trigger]
                call_ensures(feed_hasher::<H>, (&self.address.address, s), ()) && *s == *old(state)
                    && *final(s) == *final(state),
    {
        let feed = feed_hasher::<H>;
        feed(&self.address.address, state);
    }
}

/// Simulates a change of `subchannel`'s state: schedules the update on the scheduler of the policy
/// that created the subchannel, as a channel would.
pub fn schedule_subchannel_update<W: WorkScheduler<K, D>, K, D>(
    subchannel: &Arc<TestSubchannel<W>>,
    state: SubchannelState,
    events: &mut EventQueue<W, K, D>,
)
    requires
        subchannel.work_scheduler is Some,
    ensures
        (*subchannel.work_scheduler->0).schedules(
            Some(
                WorkData::SubchannelUpdate(
                    (SubchannelUpdate { subchannel: *subchannel, state }),
                ),
            ),
            *old(events),
            *final(events),
        ),
{
    if let Some(work_scheduler) = &subchannel.work_scheduler {
        let update = SubchannelUpdate { subchannel: share(subchannel), state };
        work_scheduler.schedule_work(Some(WorkData::SubchannelUpdate(update)), events);
    }
}

/// The text of a string, quoted and escaped as `{:?}` prints it.
pub uninterp spec fn quoted(text: Seq<char>) -> Seq<char>;

/// `format!` with `{:?}` on a string.
#[verifier::external_body]
fn quote_text(text: &String) -> (r: String)
    ensures
        r@ == quoted(text@),
{
    format!("{:?}", text)
}

/// How an event is shown to people.
pub open spec fn event_text<W, K, D>(event: TestEvent<W, K, D>) -> Seq<char> {
    match event {
        TestEvent::NewSubchannel(sc) => "NewSubchannel("@ + sc.address.label@ + ")"@,
        TestEvent::UpdatePicker(state) => "UpdatePicker("@ + state_name(state.connectivity_state)
            + ")"@,
        TestEvent::RequestResolution => "RequestResolution"@,
        TestEvent::Connect(address) => "Connect("@ + quoted(address.address@) + ")"@,
        TestEvent::ScheduleWork(None) => "ScheduleWork(None)"@,
        TestEvent::ScheduleWork(Some(_)) => "ScheduleWork(Some(Any { .. }))"@,
    }
}

/// `text` between `open` and a closing bracket.
fn bracketed(open: &str, text: &str) -> (r: String)
    ensures
        r@ == open@ + text@ + ")"@,
{
    let mut r = open.to_owned();
    r.append(text);
    r.append(")");
    r
}

impl<W, K, D> TestEvent<W, K, D> {
    /// This event, as it is shown to people.
    pub fn fmt(&self) -> (r: String)
        ensures
            r@ == event_text(*self),
    {
        match self {
            TestEvent::NewSubchannel(sc) => bracketed(
                "NewSubchannel(",
                sc.address.label.as_str(),
            ),
            TestEvent::UpdatePicker(state) => bracketed(
                "UpdatePicker(",
                state.connectivity_state.name(),
            ),
            TestEvent::RequestResolution => "RequestResolution".to_owned(),
            TestEvent::Connect(address) => bracketed(
                "Connect(",
                quote_text(&address.address).as_str(),
            ),
            TestEvent::ScheduleWork(None) => "ScheduleWork(None)".to_owned(),
            TestEvent::ScheduleWork(Some(_)) => "ScheduleWork(Some(Any { .. }))".to_owned(),
        }
    }
}

/// Where events can be taken from, oldest first.
pub trait EventSource<E>: Sized {
    /// The events that were not yet taken, oldest first.
    spec fn pending(self) -> Seq<E>;

    /// Whether this source is `other` but for the events that are pending.
    spec fn same_but_pending(self, other: Self) -> bool;

    /// A source is itself, but for the events that are pending.
    proof fn same_but_pending_reflexive(self)
        ensures
            self.same_but_pending(self),
    ;

    /// Where only pending events changed, and changed again, only pending events changed.
    proof fn same_but_pending_transitive(self, mid: Self, other: Self)
        requires
            self.same_but_pending(mid),
            mid.same_but_pending(other),
        ensures
            self.same_but_pending(other),
    ;

    /// Takes the oldest event, if there is one.
    fn try_recv(&mut self) -> (r: Option<E>)
        ensures
            final(self).same_but_pending(*old(self)),
            match r {
                Some(event) => old(self).pending().len() > 0 && event == old(self).pending()[0]
                    && final(self).pending() == old(self).pending().drop_first(),
                None => old(self).pending().len() == 0
                    && final(self).pending() == old(self).pending(),
            },
    ;
}

/// A channel controller that does nothing but report what it was asked to do.
pub struct TestChannelController<W, K, D> {
    pub events: EventQueue<W, K, D>,
    /// The `id` of the next subchannel.
    pub next_id: u64,
}

impl<W, K, D> EventSource<TestEvent<W, K, D>> for TestChannelController<W, K, D> {
    open spec fn pending(self) -> Seq<TestEvent<W, K, D>> {
        self.events@
    }

    open spec fn same_but_pending(self, other: Self) -> bool {
        self.next_id == other.next_id && self.events.listening == other.events.listening
    }

    proof fn same_but_pending_reflexive(self) {
    }

    proof fn same_but_pending_transitive(self, mid: Self, other: Self) {
    }

    fn try_recv(&mut self) -> (r: Option<TestEvent<W, K, D>>) {
        self.events.try_recv()
    }
}

impl<W, K, D> TestChannelController<W, K, D> {
    /// Whether `new_subchannel` turns `self` into `post` and returns `subchannel` and `state`: a
    /// subchannel with an `id` of its own, idle, and reported.
    pub open spec fn creates(
        self,
        address: Address,
        work_scheduler: Arc<W>,
        post: Self,
        subchannel: Arc<TestSubchannel<W>>,
        state: SubchannelState,
    ) -> bool {
        &&& *subchannel == (TestSubchannel {
            id: self.next_id,
            address,
            work_scheduler: Some(work_scheduler),
        })
        &&& state.is_idle()
        &&& post.next_id == self.next_id + 1
        &&& self.events.sends(TestEvent::NewSubchannel(subchannel), post.events)
    }

    /// A controller of a channel that has no subchannels yet.
    pub fn new() -> (r: Self)
        ensures
            r.events@ == Seq::<TestEvent<W, K, D>>::empty(),
            r.events.listening,
            r.next_id == 0,
    {
        TestChannelController { events: EventQueue::new(), next_id: 0 }
    }

    /// Creates a subchannel for the policy that provides `work_scheduler`.
    pub fn new_subchannel(&mut self, address: &Address, work_scheduler: Arc<W>) -> (r: (
        Arc<TestSubchannel<W>>,
        SubchannelState,
    ))
        requires
            old(self).events.listening,
            old(self).next_id < u64::MAX,
        ensures
            old(self).creates(*address, work_scheduler, *final(self), r.0, r.1),
    {
        let subchannel = Arc::new(
            TestSubchannel::new_with_work_scheduler(self.next_id, address.clone(), work_scheduler),
        );
        self.next_id = self.next_id + 1;
        let _ = self.events.send(TestEvent::NewSubchannel(share(&subchannel)));
        (subchannel, SubchannelState::idle())
    }

    /// Publishes the policy's state.
    pub fn update_picker(&mut self, update: LbState<K>)
        requires
            old(self).events.listening,
        ensures
            old(self).events.sends(TestEvent::UpdatePicker(update), final(self).events),
            final(self).next_id == old(self).next_id,
    {
        let _ = self.events.send(TestEvent::UpdatePicker(update));
    }

    /// Asks for the name to be resolved again.
    pub fn request_resolution(&mut self)
        requires
            old(self).events.listening,
        ensures
            old(self).events.sends(TestEvent::RequestResolution, final(self).events),
            final(self).next_id == old(self).next_id,
    {
        let _ = self.events.send(TestEvent::RequestResolution);
    }
}

/// The data of the work among `events`, in order.
pub open spec fn work_items<W, K, D>(events: Seq<TestEvent<W, K, D>>) -> Seq<
    Option<WorkData<W, D>>,
>
    decreases events.len(),
{
    if events.len() == 0 {
        Seq::empty()
    } else {
        match events.last() {
            TestEvent::ScheduleWork(data) => work_items(events.drop_last()).push(data),
            _ => work_items(events.drop_last()),
        }
    }
}

/// Whether delivering `items` one after the other can turn policy `p0` and controller `c0` into `p`
/// and `c`.
pub open spec fn delivers<P: LbPolicy<C, Work, G>, C, Work, G>(
    p0: P,
    c0: C,
    items: Seq<Option<Work>>,
    p: P,
    c: C,
) -> bool
    decreases items.len(),
{
    if items.len() == 0 {
        p == p0 && c == c0
    } else {
        exists|pm: P, cm: C|
            delivers::<P, C, Work, G>(p0, c0, items.drop_last(), pm, cm) && #[trigger] P::works(
                pm,
                items.last(),
                cm,
                p,
                c,
            )
    }
}

/// Whether one round can turn `p0` and `c0` into `p` and `c`: all pending events are taken, there is
/// work among them, and it is delivered in order.
pub open spec fn is_round<
    P: LbPolicy<C, WorkData<W, D>, G>,
    C: EventSource<TestEvent<W, K, D>>,
    W,
    K,
    D,
    G,
>(p0: P, c0: C, p: P, c: C) -> bool {
    &&& work_items(c0.pending()).len() > 0
    &&& exists|taken: C|
        #![trigger taken.same_but_pending(c0)]
        taken.same_but_pending(c0) && taken.pending().len() == 0 && delivers::<
            P,
            C,
            WorkData<W, D>,
            G,
        >(p0, taken, work_items(c0.pending()), p, c)
}

/// Whether `n` rounds can turn `p0` and `c0` into `p` and `c`.
pub open spec fn are_rounds<
    P: LbPolicy<C, WorkData<W, D>, G>,
    C: EventSource<TestEvent<W, K, D>>,
    W,
    K,
    D,
    G,
>(p0: P, c0: C, n: nat, p: P, c: C) -> bool
    decreases n,
{
    if n == 0 {
        p == p0 && c == c0
    } else {
        exists|pm: P, cm: C|
            are_rounds::<P, C, W, K, D, G>(p0, c0, (n - 1) as nat, pm, cm) && #[trigger] is_round::<
                P,
                C,
                W,
                K,
                D,
                G,
            >(pm, cm, p, c)
    }
}

/// Whether delivering all work, and all work that results from it, can turn `p0` and `c0` into `p`
/// and `c`: some rounds, and then no work among the pending events, which are taken.
pub open spec fn runs_work<
    P: LbPolicy<C, WorkData<W, D>, G>,
    C: EventSource<TestEvent<W, K, D>>,
    W,
    K,
    D,
    G,
>(p0: P, c0: C, p: P, c: C) -> bool {
    exists|n: nat, cm: C| #[trigger]
        are_rounds::<P, C, W, K, D, G>(p0, c0, n, p, cm) && work_items(cm.pending()).len() == 0
            && c.same_but_pending(cm) && c.pending().len() == 0
}

/// Whether `rank` bounds the rounds that can still follow when the policy and the controller are `p0`
/// and `c0`: every round leads on to a smaller rank.
pub open spec fn settles_by<
    P: LbPolicy<C, WorkData<W, D>, G>,
    C: EventSource<TestEvent<W, K, D>>,
    W,
    K,
    D,
    G,
>(rank: spec_fn(P, C) -> Option<nat>, p0: P, c0: C) -> bool {
    &&& rank(p0, c0) is Some
    &&& forall|p: P, c: C, p2: P, c2: C|
        rank(p, c) is Some && #[trigger] is_round::<P, C, W, K, D, G>(p, c, p2, c2) ==> {
            &&& rank(p2, c2) is Some
            &&& rank(p2, c2)->0 < rank(p, c)->0
        }
}

/// Whether only finitely much work can follow when the policy and the controller are `p0` and `c0`.
pub open spec fn settles<
    P: LbPolicy<C, WorkData<W, D>, G>,
    C: EventSource<TestEvent<W, K, D>>,
    W,
    K,
    D,
    G,
>(p0: P, c0: C) -> bool {
    exists|rank: spec_fn(P, C) -> Option<nat>| #[trigger]
        settles_by::<P, C, W, K, D, G>(rank, p0, c0)
}

/// The work among `events`, when the first of them was looked at.
proof fn work_items_drop_first<W, K, D>(events: Seq<TestEvent<W, K, D>>)
    requires
        events.len() > 0,
    ensures
        work_items(events) == match events.first() {
            TestEvent::ScheduleWork(data) => seq![data] + work_items(events.drop_first()),
            _ => work_items(events.drop_first()),
        },
    decreases events.len(),
{
    let looked_at = match events.first() {
        TestEvent::ScheduleWork(data) => seq![data] + work_items(events.drop_first()),
        _ => work_items(events.drop_first()),
    };
    if events.len() == 1 {
        assert(events.drop_last() =~= Seq::empty());
        assert(events.drop_first() =~= Seq::empty());
        reveal_with_fuel(work_items, 2);
        assert(events.first() == events.last());
    } else {
        work_items_drop_first(events.drop_last());
        assert(events.drop_last().drop_first() =~= events.drop_first().drop_last());
    }
    assert(work_items(events) =~= looked_at);
}

/// Takes all pending events, and returns the data of the work among them, in order.
fn take_pending_work<C: EventSource<TestEvent<W, K, D>>, W, K, D>(source: &mut C) -> (r: VecDeque<
    Option<WorkData<W, D>>,
>)
    ensures
        r@ == work_items(old(source).pending()),
        final(source).pending().len() == 0,
        final(source).same_but_pending(*old(source)),
{
    let mut work: VecDeque<Option<WorkData<W, D>>> = VecDeque::new();
    proof {
        old(source).same_but_pending_reflexive();
        assert(work@ + work_items(source.pending()) =~= work_items(source.pending()));
    }
    loop
        invariant
            work@ + work_items(source.pending()) == work_items(old(source).pending()),
            source.same_but_pending(*old(source)),
        ensures
            source.pending().len() == 0,
        decreases source.pending().len(),
    {
        let ghost before = *source;
        let ghost taken = work@;
        match source.try_recv() {
            Some(event) => {
                proof {
                    source.same_but_pending_transitive(before, *old(source));
                    work_items_drop_first(before.pending());
                }
                match event {
                    TestEvent::ScheduleWork(data) => {
                        work.push_back(data);
                        assert(work@ + work_items(source.pending()) =~= taken + work_items(
                            before.pending(),
                        ));
                    },
                    _ => {},
                }
            },
            None => {
                proof {
                    source.same_but_pending_transitive(before, *old(source));
                }
                break;
            },
        }
    }
    assert(work@ =~= work@ + work_items(source.pending()));
    work
}

/// Delivers all work that is pending to `policy`, along with any work that results from it, until no
/// work is left, which has to come about at some time. Events that are not work are dropped.
pub fn run_pending_work<
    P: LbPolicy<C, WorkData<W, D>, G>,
    C: EventSource<TestEvent<W, K, D>>,
    W,
    K,
    D,
    G,
>(policy: &mut P, channel_controller: &mut C)
    requires
        settles::<P, C, W, K, D, G>(*old(policy), *old(channel_controller)),
    ensures
        runs_work::<P, C, W, K, D, G>(
            *old(policy),
            *old(channel_controller),
            *final(policy),
            *final(channel_controller),
        ),
{
    let ghost rank = choose|rank: spec_fn(P, C) -> Option<nat>| #[trigger]
        settles_by::<P, C, W, K, D, G>(rank, *old(policy), *old(channel_controller));
    let ghost mut n: nat = 0;
    loop
        invariant
            settles_by::<P, C, W, K, D, G>(rank, *old(policy), *old(channel_controller)),
            rank(*policy, *channel_controller) is Some,
            are_rounds::<P, C, W, K, D, G>(
                *old(policy),
                *old(channel_controller),
                n,
                *policy,
                *channel_controller,
            ),
        decreases rank(*policy, *channel_controller)->0,
    {
        let ghost p0 = *policy;
        let ghost c0 = *channel_controller;
        let mut work = take_pending_work(channel_controller);
        if work.len() == 0 {
            return;
        }
        let ghost items = work@;
        let ghost taken = *channel_controller;
        let ghost mut done: nat = 0;
        assert(items.take(0) =~= Seq::empty());
        while work.len() > 0
            invariant
                done <= items.len(),
                work@ == items.skip(done as int),
                delivers::<P, C, WorkData<W, D>, G>(
                    p0,
                    taken,
                    items.take(done as int),
                    *policy,
                    *channel_controller,
                ),
            decreases work@.len(),
        {
            let ghost pm = *policy;
            let ghost cm = *channel_controller;
            if let Some(data) = work.pop_front() {
                policy.work(data, channel_controller);
                proof {
                    let next = items.take(done as int + 1);
                    assert(next.drop_last() =~= items.take(done as int));
                    assert(next.last() == data);
                    assert(delivers::<P, C, WorkData<W, D>, G>(
                        p0,
                        taken,
                        next.drop_last(),
                        pm,
                        cm,
                    ));
                    done = done + 1;
                    assert(work@ =~= items.skip(done as int));
                }
            }
        }
        proof {
            assert(items.take(done as int) =~= items);
            assert(taken.same_but_pending(c0));
            assert(is_round::<P, C, W, K, D, G>(p0, c0, *policy, *channel_controller));
            n = n + 1;
            assert(are_rounds::<P, C, W, K, D, G>(
                *old(policy),
                *old(channel_controller),
                (n - 1) as nat,
                p0,
                c0,
            ));
        }
    }
}

/// The test environment of a policy `P`: the policy, and the fake channel that it acts on.
///
/// The `expect_` methods take events off the channel's queue in order.
pub struct TestHarness<P, W, K, D> {
    pub policy: P,
    pub tcc: TestChannelController<W, K, D>,
}

impl<P, K, D> TestHarness<P, TestWorkScheduler, K, D> {
    /// A fake channel with a policy built by `build_policy`, which is given the scheduler that the
    /// policy should use and the queue that work goes to. Work scheduled there is not run but
    /// reported, also while the policy is being built.
    pub fn new<
        F: FnOnce(Arc<TestWorkScheduler>, &mut EventQueue<TestWorkScheduler, K, D>) -> P,
    >(build_policy: F) -> (r: Self)
        requires
            forall|
                scheduler: Arc<TestWorkScheduler>,
                events: &mut EventQueue<TestWorkScheduler, K, D>,
            | #[trigger]
                build_policy.requires((scheduler, events)),
        ensures
            exists|events: &mut EventQueue<TestWorkScheduler, K, D>|
                {
                    &&& #[trigger] build_policy.ensures(
                        (Arc::new(TestWorkScheduler {  }), events),
                        r.policy,
                    )
                    &&& events@ == Seq::<TestEvent<TestWorkScheduler, K, D>>::empty()
                    &&& events.listening
                    &&& *final(events) == r.tcc.events
                },
            r.tcc.next_id == 0,
    {
        let mut queue = EventQueue::new();
        let policy = build_policy(Arc::new(TestWorkScheduler {  }), &mut queue);
        let ghost after = queue;
        assert(exists|events: &mut EventQueue<TestWorkScheduler, K, D>|
            {
                &&& #[trigger] build_policy.ensures(
                    (Arc::new(TestWorkScheduler {  }), events),
                    policy,
                )
                &&& events@ == Seq::<TestEvent<TestWorkScheduler, K, D>>::empty()
                &&& events.listening
                &&& *final(events) == after
            });
        let r = TestHarness { policy, tcc: TestChannelController { events: queue, next_id: 0 } };
        assert(r.policy == policy && r.tcc.events == after);
        r
    }
}

impl<P, W, K, D> TestHarness<P, W, K, D> {
    /// The oldest event that was not yet taken.
    pub open spec fn next(self) -> TestEvent<W, K, D> {
        self.tcc.events@[0]
    }

    /// Whether `post` is this environment with the oldest event taken.
    pub open spec fn takes(self, post: Self) -> bool {
        &&& post.policy == self.policy
        &&& post.tcc.same_but_pending(self.tcc)
        &&& post.tcc.events@ == self.tcc.events@.drop_first()
    }

    /// Takes the oldest event, which is to be a `want` event.
    pub fn next_event(&mut self, _want: &str) -> (r: TestEvent<W, K, D>)
        requires
            old(self).tcc.events@.len() > 0,
        ensures
            r == old(self).next(),
            old(self).takes(*final(self)),
    {
        match self.tcc.events.try_recv() {
            Some(event) => event,
            None => unreached(),
        }
    }

    /// Takes the oldest event, which reports a new subchannel, and returns that subchannel.
    pub fn expect_new_subchannel(&mut self) -> (r: Arc<TestSubchannel<W>>)
        requires
            old(self).tcc.events@.len() > 0,
            old(self).next() is NewSubchannel,
        ensures
            old(self).next() == TestEvent::<W, K, D>::NewSubchannel(r),
            old(self).takes(*final(self)),
    {
        let event = self.next_event("NewSubchannel");
        match event {
            TestEvent::NewSubchannel(sc) => sc,
            _ => unreached(),
        }
    }

    /// Takes the oldest event, which reports that a subchannel was asked to connect, and returns the
    /// address of that subchannel.
    pub fn expect_connect(&mut self) -> (r: Address)
        requires
            old(self).tcc.events@.len() > 0,
            old(self).next() is Connect,
        ensures
            old(self).next() == TestEvent::<W, K, D>::Connect(r),
            old(self).takes(*final(self)),
    {
        let event = self.next_event("Connect");
        match event {
            TestEvent::Connect(address) => address,
            _ => unreached(),
        }
    }

    /// Takes the oldest event, which reports that the policy published a state, and returns that
    /// state.
    pub fn expect_picker_update(&mut self) -> (r: LbState<K>)
        requires
            old(self).tcc.events@.len() > 0,
            old(self).next() is UpdatePicker,
        ensures
            old(self).next() == TestEvent::<W, K, D>::UpdatePicker(r),
            old(self).takes(*final(self)),
    {
        let event = self.next_event("UpdatePicker");
        match event {
            TestEvent::UpdatePicker(state) => state,
            _ => unreached(),
        }
    }

    /// Takes the oldest event, which reports that the name is to be resolved again.
    pub fn expect_request_resolution(&mut self)
        requires
            old(self).tcc.events@.len() > 0,
            old(self).next() is RequestResolution,
        ensures
            old(self).takes(*final(self)),
    {
        let _event = self.next_event("RequestResolution");
    }

    /// Takes the oldest event, which reports that work was scheduled, and returns the data that it
    /// was scheduled with.
    pub fn expect_schedule_work(&mut self) -> (r: Option<WorkData<W, D>>)
        requires
            old(self).tcc.events@.len() > 0,
            old(self).next() is ScheduleWork,
        ensures
            old(self).next() == TestEvent::<W, K, D>::ScheduleWork(r),
            old(self).takes(*final(self)),
    {
        let event = self.next_event("ScheduleWork");
        match event {
            TestEvent::ScheduleWork(data) => data,
            _ => unreached(),
        }
    }

    /// Looks for a further event, of which there is none.
    pub fn expect_no_events(&mut self)
        requires
            old(self).tcc.events@.len() == 0,
        ensures
            final(self).policy == old(self).policy,
            final(self).tcc.same_but_pending(old(self).tcc),
            final(self).tcc.events@.len() == 0,
    {
        if let Some(_event) = self.tcc.events.try_recv() {
            unreached()
        }
    }

    /// Tells the policy that the name resolver found `endpoints`.
    pub fn send_resolver_update<G>(&mut self, endpoints: Vec<Endpoint>) -> (r: Result<
        (),
        String,
    >) where P: LbPolicy<TestChannelController<W, K, D>, WorkData<W, D>, G>
        ensures
            P::updates(
                old(self).policy,
                ResolverUpdate { endpoints: Ok(endpoints) },
                None,
                old(self).tcc,
                final(self).policy,
                final(self).tcc,
                r,
            ),
    {
        let update = ResolverUpdate { endpoints: Ok(endpoints) };
        self.policy.resolver_update(update, None, &mut self.tcc)
    }

    /// Tells the policy that the name resolver failed.
    pub fn send_resolver_error<G>(&mut self, err: String) -> (r: Result<(), String>) where
        P: LbPolicy<TestChannelController<W, K, D>, WorkData<W, D>, G>,

        ensures
            P::updates(
                old(self).policy,
                ResolverUpdate { endpoints: Err(err) },
                None,
                old(self).tcc,
                final(self).policy,
                final(self).tcc,
                r,
            ),
    {
        let update = ResolverUpdate { endpoints: Err(err) };
        self.policy.resolver_update(update, None, &mut self.tcc)
    }

    /// Whether the work scheduled by `subchannel`'s scheduler for a change to `state` can turn the
    /// queue of this environment into `mid`.
    pub open spec fn schedules_update(
        self,
        subchannel: Arc<TestSubchannel<W>>,
        state: SubchannelState,
        mid: EventQueue<W, K, D>,
    ) -> bool where W: WorkScheduler<K, D> {
        (*subchannel.work_scheduler->0).schedules(
            Some(WorkData::SubchannelUpdate(SubchannelUpdate { subchannel, state })),
            self.tcc.events,
            mid,
        )
    }

    /// Simulates a change of `subchannel`'s state, and delivers it to the policy as a channel does:
    /// the update is scheduled, and the data of the oldest event, which reports work, is given to
    /// the policy.
    pub fn send_subchannel_update<G>(
        &mut self,
        subchannel: &Arc<TestSubchannel<W>>,
        state: &SubchannelState,
    ) where
        W: WorkScheduler<K, D>,
        P: LbPolicy<TestChannelController<W, K, D>, WorkData<W, D>, G>,

        requires
            subchannel.work_scheduler is Some,
            forall|mid: EventQueue<W, K, D>| #[trigger]
                old(self).schedules_update(*subchannel, *state, mid) ==> mid@.len() > 0
                    && mid@[0] is ScheduleWork,
        ensures
            exists|
                mid: EventQueue<W, K, D>,
                data: Option<WorkData<W, D>>,
                taken: TestChannelController<W, K, D>,
            |
                {
                    &&& #[trigger] old(self).schedules_update(*subchannel, *state, mid)
                    &&& mid@[0] == TestEvent::<W, K, D>::ScheduleWork(data)
                    &&& taken.events@ == mid@.drop_first()
                    &&& taken.events.listening == mid.listening
                    &&& taken.next_id == old(self).tcc.next_id
                    &&& #[trigger] P::works(
                        old(self).policy,
                        data,
                        taken,
                        final(self).policy,
                        final(self).tcc,
                    )
                },
    {
        schedule_subchannel_update(subchannel, state.clone(), &mut self.tcc.events);
        let ghost mid = self.tcc.events;
        assert(old(self).schedules_update(*subchannel, *state, mid));
        let data = self.expect_schedule_work();
        let ghost taken = self.tcc;
        self.policy.work(data, &mut self.tcc);
        assert(P::works(old(self).policy, data, taken, self.policy, self.tcc));
    }

    /// Delivers all work that is pending to the policy, along with any work that results from it,
    /// until none is left. Events that are not work are dropped.
    pub fn run_work<G>(&mut self) where
        P: LbPolicy<TestChannelController<W, K, D>, WorkData<W, D>, G>,

        requires
            settles::<P, TestChannelController<W, K, D>, W, K, D, G>(
                old(self).policy,
                old(self).tcc,
            ),
        ensures
            runs_work::<P, TestChannelController<W, K, D>, W, K, D, G>(
                old(self).policy,
                old(self).tcc,
                final(self).policy,
                final(self).tcc,
            ),
    {
        run_pending_work::<P, TestChannelController<W, K, D>, W, K, D, G>(
            &mut self.policy,
            &mut self.tcc,
        );
    }
}

/// Events are taken in the order in which they were sent: when `sent` are sent one after the other on
/// a queue that the test listens to, they stand there in that order, behind what was there before.
pub proof fn events_keep_their_order<W, K, D>(
    queues: Seq<EventQueue<W, K, D>>,
    sent: Seq<TestEvent<W, K, D>>,
)
    requires
        queues.len() == sent.len() + 1,
        queues[0].listening,
        forall|i: int|
            #![trigger sent[i]]
            0 <= i < sent.len() ==> queues[i].sends(sent[i], queues[i + 1]),
    ensures
        queues.last()@ == queues[0]@ + sent,
        queues.last().listening,
    decreases sent.len(),
{
    if sent.len() == 0 {
        assert(queues[0]@ + sent =~= queues[0]@);
    } else {
        let n = sent.len() - 1;
        assert forall|i: int| #![trigger sent.drop_last()[i]] 0 <= i < n implies queues.drop_last()[
            i].sends(sent.drop_last()[i], queues.drop_last()[i + 1]) by {
            assert(sent[i] == sent.drop_last()[i]);
        }
        events_keep_their_order(queues.drop_last(), sent.drop_last());
        assert(queues[n].sends(sent[n], queues[n + 1]));
        assert(queues.last()@ =~= queues[0]@ + sent);
    }
}

/// The subchannels that a controller creates are expected in the order of their creation: of
/// `subchannels` that are created one after the other while nothing else is pending, each call of
/// `expect_new_subchannel` takes the next one, and behind the last one nothing is left.
pub proof fn created_subchannels_are_expected_in_order<P, W, K, D>(
    controllers: Seq<TestChannelController<W, K, D>>,
    addresses: Seq<Address>,
    schedulers: Seq<Arc<W>>,
    subchannels: Seq<Arc<TestSubchannel<W>>>,
    states: Seq<SubchannelState>,
    harnesses: Seq<TestHarness<P, W, K, D>>,
)
    requires
        controllers.len() == subchannels.len() + 1,
        controllers[0].events@.len() == 0,
        controllers[0].events.listening,
        forall|i: int|
            #![trigger subchannels[i]]
            0 <= i < subchannels.len() ==> controllers[i].creates(
                addresses[i],
                schedulers[i],
                controllers[i + 1],
                subchannels[i],
                states[i],
            ),
        harnesses.len() == subchannels.len() + 1,
        harnesses[0].tcc == controllers.last(),
        forall|i: int|
            #![trigger harnesses[i]]
            0 <= i < subchannels.len() ==> harnesses[i].takes(harnesses[i + 1]),
    ensures
        forall|i: int|
            #![trigger subchannels[i]]
            0 <= i < subchannels.len() ==> harnesses[i].next() == TestEvent::<
                W,
                K,
                D,
            >::NewSubchannel(subchannels[i]),
        harnesses.last().tcc.events@.len() == 0,
{
    let queues = controllers.map_values(|c: TestChannelController<W, K, D>| c.events);
    let sent = subchannels.map_values(
        |s: Arc<TestSubchannel<W>>| TestEvent::<W, K, D>::NewSubchannel(s),
    );
    assert forall|i: int| #![trigger sent[i]] 0 <= i < sent.len() implies queues[i].sends(
        sent[i],
        queues[i + 1],
    ) by {
        let subchannel = subchannels[i];
        assert(controllers[i].creates(
            addresses[i],
            schedulers[i],
            controllers[i + 1],
            subchannel,
            states[i],
        ));
    }
    events_keep_their_order(queues, sent);
    assert(harnesses[0].tcc.events@ =~= sent);
    events_are_taken_in_order(harnesses, sent);
    assert forall|i: int| #![trigger subchannels[i]] 0 <= i < subchannels.len() implies harnesses[
        i].next() == TestEvent::<W, K, D>::NewSubchannel(subchannels[i]) by {
        assert(sent[i] == TestEvent::<W, K, D>::NewSubchannel(subchannels[i]));
    }
}

/// Events are taken one by one, the oldest first, until none is left.
pub proof fn events_are_taken_in_order<P, W, K, D>(
    harnesses: Seq<TestHarness<P, W, K, D>>,
    events: Seq<TestEvent<W, K, D>>,
)
    requires
        harnesses.len() == events.len() + 1,
        harnesses[0].tcc.events@ == events,
        forall|i: int|
            #![trigger harnesses[i]]
            0 <= i < events.len() ==> harnesses[i].takes(harnesses[i + 1]),
    ensures
        forall|i: int|
            #![trigger events[i]]
            0 <= i < events.len() ==> harnesses[i].next() == events[i],
        harnesses.last().tcc.events@.len() == 0,
    decreases events.len(),
{
    if events.len() > 0 {
        let more = harnesses.drop_first();
        let rest = events.drop_first();
        assert(harnesses[0].takes(harnesses[1]));
        assert forall|i: int| #![trigger more[i]] 0 <= i < rest.len() implies more[i].takes(
            more[i + 1],
        ) by {
            assert(more[i] == harnesses[i + 1]);
        }
        events_are_taken_in_order(more, rest);
        assert forall|i: int| #![trigger events[i]] 0 <= i < events.len() implies harnesses[i].next()
            == events[i] by {
            if i > 0 {
                assert(rest[i - 1] == events[i]);
                assert(more[i - 1].next() == rest[i - 1]);
            }
        }
        assert(more.last() == harnesses.last());
    }
}

/// Two subchannels that one controller creates differ, even where they have one address and one
/// scheduler, so that no comparison finds them equal.
pub proof fn created_subchannels_are_distinct<W, K, D>(
    c0: TestChannelController<W, K, D>,
    first: (Address, Arc<W>, Arc<TestSubchannel<W>>, SubchannelState),
    c1: TestChannelController<W, K, D>,
    c2: TestChannelController<W, K, D>,
    second: (Address, Arc<W>, Arc<TestSubchannel<W>>, SubchannelState),
    c3: TestChannelController<W, K, D>,
)
    requires
        c0.creates(first.0, first.1, c1, first.2, first.3),
        c1.next_id <= c2.next_id,
        c2.creates(second.0, second.1, c3, second.2, second.3),
    ensures
        *first.2 != *second.2,
{
}

/// An update that is scheduled while no event is pending is what the policy is given: nothing else is
/// pending then.
pub proof fn update_is_the_only_event<P, K, D>(
    harness: TestHarness<P, TestWorkScheduler, K, D>,
    subchannel: Arc<TestSubchannel<TestWorkScheduler>>,
    state: SubchannelState,
    mid: EventQueue<TestWorkScheduler, K, D>,
)
    requires
        harness.tcc.events.listening,
        harness.tcc.events@.len() == 0,
        harness.schedules_update(subchannel, state, mid),
    ensures
        mid@ == seq![
            TestEvent::<TestWorkScheduler, K, D>::ScheduleWork(
                Some(WorkData::SubchannelUpdate(SubchannelUpdate { subchannel, state })),
            ),
        ],
{
    assert(mid@ =~= seq![
        TestEvent::<TestWorkScheduler, K, D>::ScheduleWork(
            Some(WorkData::SubchannelUpdate(SubchannelUpdate { subchannel, state })),
        ),
    ]);
}

/// Once all work was run, nothing is pending; and where no work was pending, the policy was not asked
/// to do any.
pub proof fn running_work_leaves_nothing<
    P: LbPolicy<C, WorkData<W, D>, G>,
    C: EventSource<TestEvent<W, K, D>>,
    W,
    K,
    D,
    G,
>(p0: P, c0: C, p: P, c: C)
    requires
        runs_work::<P, C, W, K, D, G>(p0, c0, p, c),
    ensures
        c.pending().len() == 0,
        work_items(c0.pending()).len() == 0 ==> p == p0,
{
    if work_items(c0.pending()).len() == 0 {
        let (n, cm) = choose|n: nat, cm: C| #[trigger]
            are_rounds::<P, C, W, K, D, G>(p0, c0, n, p, cm) && work_items(cm.pending()).len() == 0
                && c.same_but_pending(cm) && c.pending().len() == 0;
        no_rounds_without_work::<P, C, W, K, D, G>(p0, c0, n, p, cm);
    }
}

/// Where no work is pending there is no round.
proof fn no_rounds_without_work<
    P: LbPolicy<C, WorkData<W, D>, G>,
    C: EventSource<TestEvent<W, K, D>>,
    W,
    K,
    D,
    G,
>(p0: P, c0: C, n: nat, p: P, c: C)
    requires
        work_items(c0.pending()).len() == 0,
        are_rounds::<P, C, W, K, D, G>(p0, c0, n, p, c),
    ensures
        n == 0,
    decreases n,
{
    if n > 0 {
        let (pm, cm) = choose|pm: P, cm: C|
            are_rounds::<P, C, W, K, D, G>(p0, c0, (n - 1) as nat, pm, cm) && #[trigger] is_round::<
                P,
                C,
                W,
                K,
                D,
                G,
            >(pm, cm, p, c);
        no_rounds_without_work::<P, C, W, K, D, G>(p0, c0, (n - 1) as nat, pm, cm);
        assert(cm == c0);
    }
}

/// An event that is sent stands behind all others, where the test listens; where it does not, nothing
/// changes. Sending never changes whether the test listens.
pub proof fn a_sent_event_stands_last<W, K, D>(
    before: EventQueue<W, K, D>,
    event: TestEvent<W, K, D>,
    after: EventQueue<W, K, D>,
)
    requires
        before.sends(event, after),
    ensures
        before.listening ==> after@.len() == before@.len() + 1 && after@.last() == event
            && after@.drop_last() == before@,
        !before.listening ==> after@ == before@,
        after.listening == before.listening,
{
    assert(before.listening ==> after@.drop_last() =~= before@);
}

/// The events of a queue and of a controller are those that were not yet taken.
pub proof fn pending_events_are_those_of_the_queue<W, K, D>(
    controller: TestChannelController<W, K, D>,
    other: TestChannelController<W, K, D>,
)
    ensures
        controller.events@ == controller.events.events@,
        controller.pending() == controller.events.events@,
        controller.same_but_pending(other) <==> controller.next_id == other.next_id
            && controller.events.listening == other.events.listening,
{
}

/// Work that is scheduled is reported with its data, behind all others, where the test listens, and is
/// dropped where it does not.
pub proof fn scheduled_work_is_reported<K, D>(
    scheduler: TestWorkScheduler,
    data: Option<WorkData<TestWorkScheduler, D>>,
    before: EventQueue<TestWorkScheduler, K, D>,
    after: EventQueue<TestWorkScheduler, K, D>,
)
    requires
        scheduler.schedules(data, before, after),
    ensures
        before.listening ==> after@ == before@.push(
            TestEvent::<TestWorkScheduler, K, D>::ScheduleWork(data),
        ),
        !before.listening ==> after@ == before@,
        after.listening == before.listening,
{
}

/// An update of a subchannel's state is scheduled with that subchannel and that state, behind all that
/// is pending.
pub proof fn an_update_is_scheduled_as_it_is<P, K, D>(
    harness: TestHarness<P, TestWorkScheduler, K, D>,
    subchannel: Arc<TestSubchannel<TestWorkScheduler>>,
    state: SubchannelState,
    mid: EventQueue<TestWorkScheduler, K, D>,
)
    requires
        harness.tcc.events.listening,
        harness.schedules_update(subchannel, state, mid),
    ensures
        mid@ == harness.tcc.events@.push(
            TestEvent::<TestWorkScheduler, K, D>::ScheduleWork(
                Some(WorkData::SubchannelUpdate(SubchannelUpdate { subchannel, state })),
            ),
        ),
        mid.listening,
{
}

/// A created subchannel has the address and the scheduler that it was asked with, is idle, and is
/// reported as the last event; the controller only counts on.
pub proof fn a_created_subchannel_is_as_asked<W, K, D>(
    before: TestChannelController<W, K, D>,
    address: Address,
    work_scheduler: Arc<W>,
    after: TestChannelController<W, K, D>,
    subchannel: Arc<TestSubchannel<W>>,
    state: SubchannelState,
)
    requires
        before.creates(address, work_scheduler, after, subchannel, state),
    ensures
        subchannel.address == address,
        subchannel.work_scheduler == Some(work_scheduler),
        subchannel.id == before.next_id,
        after.next_id == before.next_id + 1,
        state.connectivity_state == ConnectivityState::Idle,
        state.last_connection_error is None,
        before.events.listening ==> after.events@ == before.events@.push(
            TestEvent::<W, K, D>::NewSubchannel(subchannel),
        ),
        !before.events.listening ==> after.events@ == before.events@,
        after.events.listening == before.events.listening,
{
}

/// An event that is taken is the oldest one, and taking it changes nothing else.
pub proof fn taking_changes_nothing_else<P, W, K, D>(
    before: TestHarness<P, W, K, D>,
    after: TestHarness<P, W, K, D>,
)
    requires
        before.tcc.events@.len() > 0,
        before.takes(after),
    ensures
        before.tcc.events@ == seq![before.next()] + after.tcc.events@,
        after.policy == before.policy,
        after.tcc.next_id == before.tcc.next_id,
        after.tcc.events.listening == before.tcc.events.listening,
{
    assert(before.tcc.events@ =~= seq![before.next()] + after.tcc.events@);
}

/// The work among events is what their `ScheduleWork` events carry, with data or without, in order, and
/// nothing that other events carry.
pub proof fn work_is_what_was_scheduled<W, K, D>(
    first: Seq<TestEvent<W, K, D>>,
    event: TestEvent<W, K, D>,
    rest: Seq<TestEvent<W, K, D>>,
)
    ensures
        work_items(Seq::<TestEvent<W, K, D>>::empty()).len() == 0,
        event matches TestEvent::ScheduleWork(data) ==> work_items(first + seq![event] + rest)
            == work_items(first) + seq![data] + work_items(rest),
        !(event is ScheduleWork) ==> work_items(first + seq![event] + rest) == work_items(first)
            + work_items(rest),
    decreases rest.len(),
{
    let all = first + seq![event] + rest;
    if rest.len() == 0 {
        assert(all.drop_last() =~= first);
        assert(all.last() == event);
        assert(work_items(first) + work_items(rest) =~= work_items(first));
        if let TestEvent::ScheduleWork(data) = event {
            assert(work_items(first).push(data) =~= work_items(first) + seq![data] + work_items(
                rest,
            ));
        }
    } else {
        work_is_what_was_scheduled(first, event, rest.drop_last());
        assert(all.drop_last() =~= first + seq![event] + rest.drop_last());
        assert(all.last() == rest.last());
        if let TestEvent::ScheduleWork(data) = event {
            assert(work_items(all) =~= work_items(first) + seq![data] + work_items(rest));
        } else {
            assert(work_items(all) =~= work_items(first) + work_items(rest));
        }
    }
}

/// Delivering work is having the policy work on one item after the other, each of them once and in
/// order: nothing for no items, one call of `work` for one item, and for several the first ones and
/// then, from where those left the policy and the controller, the rest.
pub proof fn work_is_delivered_item_by_item<P: LbPolicy<C, Work, G>, C, Work, G>(
    p0: P,
    c0: C,
    first: Seq<Option<Work>>,
    item: Option<Work>,
    p: P,
    c: C,
)
    ensures
        delivers::<P, C, Work, G>(p0, c0, Seq::empty(), p, c) <==> p == p0 && c == c0,
        delivers::<P, C, Work, G>(p0, c0, seq![item], p, c) <==> P::works(p0, item, c0, p, c),
        delivers::<P, C, Work, G>(p0, c0, first.push(item), p, c) <==> exists|pm: P, cm: C|
            delivers::<P, C, Work, G>(p0, c0, first, pm, cm) && #[trigger] P::works(
                pm,
                item,
                cm,
                p,
                c,
            ),
{
    let all = first.push(item);
    assert(all.drop_last() =~= first);
    assert(all.last() == item);
    if delivers::<P, C, Work, G>(p0, c0, all, p, c) {
        let (pm, cm) = choose|pm: P, cm: C|
            delivers::<P, C, Work, G>(p0, c0, all.drop_last(), pm, cm) && #[trigger] P::works(
                pm,
                all.last(),
                cm,
                p,
                c,
            );
        assert(delivers::<P, C, Work, G>(p0, c0, first, pm, cm) && P::works(pm, item, cm, p, c));
    }
    if exists|pm: P, cm: C|
        delivers::<P, C, Work, G>(p0, c0, first, pm, cm) && #[trigger] P::works(pm, item, cm, p, c) {
        let (pm, cm) = choose|pm: P, cm: C|
            delivers::<P, C, Work, G>(p0, c0, first, pm, cm) && #[trigger] P::works(
                pm,
                item,
                cm,
                p,
                c,
            );
        assert(delivers::<P, C, Work, G>(p0, c0, all.drop_last(), pm, cm) && P::works(
            pm,
            all.last(),
            cm,
            p,
            c,
        ));
    }
    let one = seq![item];
    assert(one.drop_last() =~= Seq::empty());
    assert(one.last() == item);
    assert(delivers::<P, C, Work, G>(p0, c0, one.drop_last(), p0, c0));
    if delivers::<P, C, Work, G>(p0, c0, one, p, c) {
        let (pm, cm) = choose|pm: P, cm: C|
            delivers::<P, C, Work, G>(p0, c0, one.drop_last(), pm, cm) && #[trigger] P::works(
                pm,
                one.last(),
                cm,
                p,
                c,
            );
        assert(pm == p0 && cm == c0);
    }
}

/// Running work takes all that is pending, delivers every piece of work among it, and then runs what
/// that has led to. Where there is no work, the policy is left alone.
pub proof fn all_pending_work_is_run<
    P: LbPolicy<C, WorkData<W, D>, G>,
    C: EventSource<TestEvent<W, K, D>>,
    W,
    K,
    D,
    G,
>(p0: P, c0: C, p: P, c: C)
    requires
        runs_work::<P, C, W, K, D, G>(p0, c0, p, c),
    ensures
        work_items(c0.pending()).len() > 0 ==> exists|taken: C, p1: P, c1: C|
            {
                &&& #[trigger] taken.same_but_pending(c0)
                &&& taken.pending().len() == 0
                &&& delivers::<P, C, WorkData<W, D>, G>(
                    p0,
                    taken,
                    work_items(c0.pending()),
                    p1,
                    c1,
                )
                &&& #[trigger] runs_work::<P, C, W, K, D, G>(p1, c1, p, c)
            },
        work_items(c0.pending()).len() == 0 ==> p == p0 && c.same_but_pending(c0),
        c.pending().len() == 0,
{
    let (n, cm) = choose|n: nat, cm: C| #[trigger]
        are_rounds::<P, C, W, K, D, G>(p0, c0, n, p, cm) && work_items(cm.pending()).len() == 0
            && c.same_but_pending(cm) && c.pending().len() == 0;
    if work_items(c0.pending()).len() == 0 {
        no_rounds_without_work::<P, C, W, K, D, G>(p0, c0, n, p, cm);
    } else {
        assert(n > 0);
        let (p1, c1) = first_round::<P, C, W, K, D, G>(p0, c0, n, p, cm);
        assert(are_rounds::<P, C, W, K, D, G>(p1, c1, (n - 1) as nat, p, cm));
        assert(runs_work::<P, C, W, K, D, G>(p1, c1, p, c));
        let taken = choose|taken: C|
            #![trigger taken.same_but_pending(c0)]
            taken.same_but_pending(c0) && taken.pending().len() == 0 && delivers::<
                P,
                C,
                WorkData<W, D>,
                G,
            >(p0, taken, work_items(c0.pending()), p1, c1);
        assert(taken.same_but_pending(c0));
    }
}

/// Rounds start with a first one.
proof fn first_round<
    P: LbPolicy<C, WorkData<W, D>, G>,
    C: EventSource<TestEvent<W, K, D>>,
    W,
    K,
    D,
    G,
>(p0: P, c0: C, n: nat, p: P, c: C) -> (r: (P, C))
    requires
        n > 0,
        are_rounds::<P, C, W, K, D, G>(p0, c0, n, p, c),
    ensures
        is_round::<P, C, W, K, D, G>(p0, c0, r.0, r.1),
        are_rounds::<P, C, W, K, D, G>(r.0, r.1, (n - 1) as nat, p, c),
    decreases n,
{
    let (pm, cm) = choose|pm: P, cm: C|
        are_rounds::<P, C, W, K, D, G>(p0, c0, (n - 1) as nat, pm, cm) && #[trigger] is_round::<
            P,
            C,
            W,
            K,
            D,
            G,
        >(pm, cm, p, c);
    if n == 1 {
        assert(pm == p0 && cm == c0);
        (p, c)
    } else {
        let r = first_round::<P, C, W, K, D, G>(p0, c0, (n - 1) as nat, pm, cm);
        assert(are_rounds::<P, C, W, K, D, G>(r.0, r.1, (n - 2) as nat, pm, cm));
        r
    }
}

/// An event is shown by its kind, and by what it is about: a subchannel by how its address is shown, a
/// published state by the name of its connectivity state, a request to connect by the address in quotes,
/// and work by whether it comes with data.
pub proof fn events_are_shown_with_what_they_are_about<W, K, D>(event: TestEvent<W, K, D>)
    ensures
        event matches TestEvent::NewSubchannel(sc) ==> event_text(event) == "NewSubchannel("@
            + sc.address.label@ + ")"@,
        event matches TestEvent::UpdatePicker(state) ==> event_text(event) == "UpdatePicker("@
            + state_name(state.connectivity_state) + ")"@,
        event is RequestResolution ==> event_text(event) == "RequestResolution"@,
        event matches TestEvent::Connect(address) ==> event_text(event) == "Connect("@ + quoted(
            address.address@,
        ) + ")"@,
        event matches TestEvent::ScheduleWork(None) ==> event_text(event) == "ScheduleWork(None)"@,
        event matches TestEvent::ScheduleWork(Some(_)) ==> event_text(event)
            == "ScheduleWork(Some(Any { .. }))"@,
{
}

} // verus!
