use std::collections::hash_map::DefaultHasher;
use std::hash::{Hash, Hasher};
use std::sync::Arc;

use tonic_grpc::load_balancing::{
    Address, ConnectivityState, Endpoint, LbPolicy, LbState, ResolverUpdate, SubchannelState,
};
use tonic_grpc::stub_policy::MockConfig;
use tonic_grpc::test_utils::{
    new_request_headers, run_pending_work, schedule_subchannel_update, EventQueue,
    SubchannelUpdate, TestChannelController, TestEvent, TestHarness, TestSubchannel,
    TestWorkScheduler, WorkData, WorkScheduler,
};

type Controller = TestChannelController<TestWorkScheduler, &'static str, u32>;
type Event = TestEvent<TestWorkScheduler, &'static str, u32>;
type Queue = EventQueue<TestWorkScheduler, &'static str, u32>;
type Work = WorkData<TestWorkScheduler, u32>;
type Harness = TestHarness<Recorder, TestWorkScheduler, &'static str, u32>;

fn address(address: &str) -> Address {
    Address { address: address.to_string(), label: format!("tcp:{address}") }
}

/// A policy that keeps what it was told. Work that comes with a number schedules work with the
/// number before it, down to zero.
struct Recorder {
    scheduler: Arc<TestWorkScheduler>,
    seen: Vec<String>,
}

impl LbPolicy<Controller, Work, MockConfig> for Recorder {
    fn resolver_update(
        &mut self,
        update: ResolverUpdate,
        config: Option<&MockConfig>,
        channel_controller: &mut Controller,
    ) -> Result<(), String> {
        assert!(config.is_none());
        let endpoints = match update.endpoints {
            Ok(endpoints) => endpoints,
            Err(e) => {
                channel_controller.request_resolution();
                return Err(format!("resolver: {e}"));
            }
        };
        for endpoint in &endpoints {
            for address in &endpoint.addresses {
                let (subchannel, state) =
                    channel_controller.new_subchannel(address, self.scheduler.clone());
                assert_eq!(state.connectivity_state, ConnectivityState::Idle);
                assert!(state.last_connection_error.is_none());
                subchannel.connect(&mut channel_controller.events);
            }
        }
        channel_controller.update_picker(LbState {
            connectivity_state: ConnectivityState::Connecting,
            picker: "queue",
        });
        Ok(())
    }

    fn exit_idle(&mut self, _channel_controller: &mut Controller) {
        self.seen.push("exit_idle".to_string());
    }

    fn work(&mut self, data: Option<Work>, channel_controller: &mut Controller) {
        match data {
            None => self.seen.push("none".to_string()),
            Some(WorkData::Other(n)) => {
                self.seen.push(n.to_string());
                if n > 0 {
                    self.scheduler
                        .schedule_work(Some(WorkData::Other(n - 1)), &mut channel_controller.events);
                    channel_controller.request_resolution();
                }
            }
            Some(WorkData::SubchannelUpdate(update)) => self.seen.push(format!(
                "{} {}",
                update.subchannel.address().address,
                update.state.connectivity_state.name()
            )),
        }
    }
}

fn harness() -> Harness {
    TestHarness::new(|scheduler, _events| Recorder { scheduler, seen: vec![] })
}

fn endpoint(addresses: &[&str]) -> Endpoint {
    Endpoint { addresses: addresses.iter().map(|a| address(a)).collect() }
}

fn state(connectivity_state: ConnectivityState) -> SubchannelState {
    SubchannelState { connectivity_state, last_connection_error: None }
}

#[test]
fn request_headers_are_empty() {
    let headers = new_request_headers();
    assert_eq!(headers.method_name, "");
    assert!(headers.metadata.entries.is_empty());
}

#[test]
fn subchannels_keep_what_they_are_made_of() {
    let plain: TestSubchannel<TestWorkScheduler> = TestSubchannel::new(7, address("a:1"));
    assert_eq!(plain.id, 7);
    assert_eq!(plain.address().address, "a:1");
    assert_eq!(plain.address().label, "tcp:a:1");
    assert!(plain.work_scheduler.is_none());

    let scheduler = Arc::new(TestWorkScheduler {});
    let owned = TestSubchannel::new_with_work_scheduler(8, address("a:1"), scheduler.clone());
    assert!(Arc::ptr_eq(owned.work_scheduler.as_ref().unwrap(), &scheduler));
}

#[test]
fn subchannels_are_equal_to_themselves_only() {
    let a: TestSubchannel<TestWorkScheduler> = TestSubchannel::new(1, address("a:1"));
    let b: TestSubchannel<TestWorkScheduler> = TestSubchannel::new(1, address("a:1"));
    let c: TestSubchannel<TestWorkScheduler> = TestSubchannel::new(2, address("a:1"));
    assert!(a == a);
    assert!(b == b);
    assert!(a != b);
    assert!(b != a);
    assert!(a != c);
}

#[test]
fn subchannels_hash_by_address() {
    let hash = |id: u64, text: &str| {
        let subchannel: TestSubchannel<TestWorkScheduler> = TestSubchannel::new(id, address(text));
        let mut hasher = DefaultHasher::new();
        subchannel.hash(&mut hasher);
        hasher.finish()
    };
    assert_eq!(hash(1, "a:1"), hash(2, "a:1"));
    assert_ne!(hash(1, "a:1"), hash(1, "b:1"));
    let mut hasher = DefaultHasher::new();
    "a:1".to_string().hash(&mut hasher);
    assert_eq!(hash(1, "a:1"), hasher.finish());
}

#[test]
fn connecting_is_reported() {
    let mut events = Queue::new();
    let subchannel = TestSubchannel::new(1, address("a:1"));
    subchannel.connect(&mut events);
    match events.try_recv() {
        Some(TestEvent::Connect(address)) => assert_eq!(address.address, "a:1"),
        _ => panic!("no Connect event"),
    }
    assert!(events.try_recv().is_none());
}

#[test]
fn events_are_taken_in_the_order_they_were_sent() {
    let mut events = Queue::new();
    assert!(events.send(TestEvent::RequestResolution).is_ok());
    assert!(events.send(TestEvent::Connect(address("a:1"))).is_ok());
    assert!(events.send(TestEvent::ScheduleWork(None)).is_ok());
    let mut texts = vec![];
    while let Some(event) = events.try_recv() {
        texts.push(event.fmt());
    }
    assert_eq!(texts, vec!["RequestResolution", "Connect(\"a:1\")", "ScheduleWork(None)"]);
}

#[test]
fn events_are_given_back_where_nobody_listens() {
    let mut events = Queue::new();
    events.listening = false;
    match events.send(TestEvent::Connect(address("a:1"))) {
        Err(TestEvent::Connect(address)) => assert_eq!(address.address, "a:1"),
        _ => panic!("the event was not given back"),
    }
    assert!(events.try_recv().is_none());
}

#[test]
fn work_can_be_scheduled_where_nobody_listens() {
    let mut events = Queue::new();
    events.listening = false;
    TestWorkScheduler {}.schedule_work(Some(WorkData::Other(1)), &mut events);
    assert!(events.try_recv().is_none());
}

#[test]
fn events_are_shown_to_people() {
    let scheduler = Arc::new(TestWorkScheduler {});
    let subchannel =
        Arc::new(TestSubchannel::new_with_work_scheduler(0, address("a:1"), scheduler));
    let update = SubchannelUpdate {
        subchannel: subchannel.clone(),
        state: state(ConnectivityState::Ready),
    };
    let new: Event = TestEvent::NewSubchannel(subchannel);
    assert_eq!(new.fmt(), "NewSubchannel(tcp:a:1)");
    for (connectivity_state, text) in [
        (ConnectivityState::Idle, "UpdatePicker(IDLE)"),
        (ConnectivityState::Connecting, "UpdatePicker(CONNECTING)"),
        (ConnectivityState::Ready, "UpdatePicker(READY)"),
        (ConnectivityState::TransientFailure, "UpdatePicker(TRANSIENT_FAILURE)"),
    ] {
        let event: Event = TestEvent::UpdatePicker(LbState { connectivity_state, picker: "" });
        assert_eq!(event.fmt(), text);
    }
    let event: Event = TestEvent::RequestResolution;
    assert_eq!(event.fmt(), "RequestResolution");
    let event: Event = TestEvent::Connect(address("a\"\\\n"));
    assert_eq!(event.fmt(), "Connect(\"a\\\"\\\\\\n\")");
    let event: Event = TestEvent::ScheduleWork(None);
    assert_eq!(event.fmt(), "ScheduleWork(None)");
    let event: Event = TestEvent::ScheduleWork(Some(WorkData::Other(3)));
    assert_eq!(event.fmt(), "ScheduleWork(Some(Any { .. }))");
    let event: Event = TestEvent::ScheduleWork(Some(WorkData::SubchannelUpdate(update)));
    assert_eq!(event.fmt(), "ScheduleWork(Some(Any { .. }))");
}

#[test]
fn controllers_report_what_they_are_asked_to_do() {
    let scheduler = Arc::new(TestWorkScheduler {});
    let mut controller = Controller::new();
    let (subchannel, state) = controller.new_subchannel(&address("a:1"), scheduler.clone());
    assert_eq!(state.connectivity_state, ConnectivityState::Idle);
    controller.update_picker(LbState {
        connectivity_state: ConnectivityState::Ready,
        picker: "pick",
    });
    controller.request_resolution();
    match controller.events.try_recv() {
        Some(TestEvent::NewSubchannel(reported)) => assert!(Arc::ptr_eq(&reported, &subchannel)),
        _ => panic!("no NewSubchannel event"),
    }
    match controller.events.try_recv() {
        Some(TestEvent::UpdatePicker(state)) => assert_eq!(state.picker, "pick"),
        _ => panic!("no UpdatePicker event"),
    }
    assert!(matches!(controller.events.try_recv(), Some(TestEvent::RequestResolution)));
    assert!(controller.events.try_recv().is_none());
}

#[test]
fn created_subchannels_are_distinct() {
    let scheduler = Arc::new(TestWorkScheduler {});
    let mut controller = Controller::new();
    let (a, _) = controller.new_subchannel(&address("a:1"), scheduler.clone());
    let (b, _) = controller.new_subchannel(&address("a:1"), scheduler.clone());
    assert!(*a != *b);
    assert!(*a == *a.clone());
    let (c, _) = Controller::new().new_subchannel(&address("a:1"), scheduler.clone());
    assert!(*a != *c);
    assert!(Arc::ptr_eq(b.work_scheduler.as_ref().unwrap(), &scheduler));
}

#[test]
fn updates_of_subchannels_are_scheduled_as_work() {
    let scheduler = Arc::new(TestWorkScheduler {});
    let mut controller = Controller::new();
    let (subchannel, _) = controller.new_subchannel(&address("a:1"), scheduler);
    let _ = controller.events.try_recv();
    let failure = SubchannelState {
        connectivity_state: ConnectivityState::TransientFailure,
        last_connection_error: Some("refused".to_string()),
    };
    schedule_subchannel_update(&subchannel, failure, &mut controller.events);
    match controller.events.try_recv() {
        Some(TestEvent::ScheduleWork(Some(WorkData::SubchannelUpdate(update)))) => {
            assert!(Arc::ptr_eq(&update.subchannel, &subchannel));
            assert_eq!(
                update.state.connectivity_state,
                ConnectivityState::TransientFailure
            );
            assert_eq!(update.state.last_connection_error.as_deref(), Some("refused"));
        }
        _ => panic!("no update was scheduled"),
    }
}

#[test]
fn harness_starts_without_events() {
    let mut harness = harness();
    harness.expect_no_events();
    assert!(harness.policy.seen.is_empty());
}

#[test]
fn resolver_updates_reach_the_policy() {
    let mut harness = harness();
    let endpoints = vec![endpoint(&["a:1", "b:2"]), endpoint(&["c:3"])];
    assert_eq!(harness.send_resolver_update(endpoints), Ok(()));
    for expected in ["a:1", "b:2", "c:3"] {
        let subchannel = harness.expect_new_subchannel();
        assert_eq!(subchannel.address().address, expected);
        assert_eq!(harness.expect_connect().address, expected);
    }
    let published = harness.expect_picker_update();
    assert_eq!(published.connectivity_state, ConnectivityState::Connecting);
    assert_eq!(published.picker, "queue");
    harness.expect_no_events();
}

#[test]
fn resolver_errors_reach_the_policy() {
    let mut harness = harness();
    let result = harness.send_resolver_error("no such host".to_string());
    assert_eq!(result, Err("resolver: no such host".to_string()));
    harness.expect_request_resolution();
    harness.expect_no_events();
}

#[test]
fn subchannel_updates_reach_the_policy() {
    let mut harness = harness();
    harness.send_resolver_update(vec![endpoint(&["a:1"])]).unwrap();
    let subchannel = harness.expect_new_subchannel();
    harness.expect_connect();
    harness.expect_picker_update();
    harness.send_subchannel_update(&subchannel, &state(ConnectivityState::Ready));
    assert_eq!(harness.policy.seen, vec!["a:1 READY"]);
    harness.expect_no_events();
}

#[test]
fn scheduled_work_is_returned_and_not_run() {
    let mut harness = harness();
    let scheduler = harness.policy.scheduler.clone();
    scheduler.schedule_work(Some(WorkData::Other(4)), &mut harness.tcc.events);
    scheduler.schedule_work(None, &mut harness.tcc.events);
    assert!(matches!(harness.expect_schedule_work(), Some(WorkData::Other(4))));
    assert!(harness.expect_schedule_work().is_none());
    harness.expect_no_events();
    assert!(harness.policy.seen.is_empty());
}

#[test]
fn next_event_is_the_oldest() {
    let mut harness = harness();
    harness.tcc.request_resolution();
    harness.tcc.update_picker(LbState {
        connectivity_state: ConnectivityState::Ready,
        picker: "pick",
    });
    assert_eq!(harness.next_event("RequestResolution").fmt(), "RequestResolution");
    assert_eq!(harness.next_event("UpdatePicker").fmt(), "UpdatePicker(READY)");
}

#[test]
fn work_is_run_until_none_is_left() {
    let mut harness = harness();
    let scheduler = harness.policy.scheduler.clone();
    scheduler.schedule_work(Some(WorkData::Other(2)), &mut harness.tcc.events);
    harness.tcc.request_resolution();
    scheduler.schedule_work(None, &mut harness.tcc.events);
    scheduler.schedule_work(Some(WorkData::Other(1)), &mut harness.tcc.events);
    harness.run_work();
    assert_eq!(harness.policy.seen, vec!["2", "none", "1", "1", "0", "0"]);
    harness.expect_no_events();
}

#[test]
fn running_work_takes_all_events_and_changes_nothing_without_work() {
    let mut harness = harness();
    harness.tcc.request_resolution();
    harness.run_work();
    harness.expect_no_events();
    assert!(harness.policy.seen.is_empty());
}

#[test]
fn pending_work_can_be_run_without_a_harness() {
    let scheduler = Arc::new(TestWorkScheduler {});
    let mut policy = Recorder { scheduler: scheduler.clone(), seen: vec![] };
    let mut controller = Controller::new();
    scheduler.schedule_work(Some(WorkData::Other(1)), &mut controller.events);
    run_pending_work::<Recorder, Controller, TestWorkScheduler, &'static str, u32, MockConfig>(
        &mut policy,
        &mut controller,
    );
    assert_eq!(policy.seen, vec!["1", "0"]);
    assert!(controller.events.try_recv().is_none());
}

#[test]
fn work_scheduled_while_the_policy_is_built_is_reported() {
    let mut harness: Harness = TestHarness::new(|scheduler, events| {
        scheduler.schedule_work(Some(WorkData::Other(8)), events);
        scheduler.schedule_work(None, events);
        Recorder { scheduler, seen: vec![] }
    });
    harness.tcc.request_resolution();
    assert!(harness.policy.seen.is_empty());
    assert!(matches!(harness.expect_schedule_work(), Some(WorkData::Other(8))));
    assert!(harness.expect_schedule_work().is_none());
    harness.expect_request_resolution();
    harness.expect_no_events();
}

#[test]
fn created_subchannels_are_expected_in_order() {
    let mut harness = harness();
    let scheduler = harness.policy.scheduler.clone();
    let created: Vec<_> = ["a:1", "b:2", "a:1"]
        .iter()
        .map(|text| harness.tcc.new_subchannel(&address(text), scheduler.clone()).0)
        .collect();
    for subchannel in &created {
        assert!(Arc::ptr_eq(&harness.expect_new_subchannel(), subchannel));
    }
    harness.expect_no_events();
}
