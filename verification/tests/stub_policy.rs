use std::sync::Arc;

use tonic_grpc::load_balancing::{
    Address, ConnectivityState, Endpoint, LbPolicy, ResolverUpdate, SubchannelState,
};
use tonic_grpc::stub_policy::{
    reg_stub_policy, ExitIdleFn, LbPolicyOptions, MockConfig, ResolverUpdateFn, StubPolicy,
    StubPolicyBuilder, StubPolicyData, StubPolicyFuncs, SubchannelUpdateFn, WorkFn,
};
use tonic_grpc::test_utils::{
    SubchannelUpdate, TestChannelController, TestHarness, TestSubchannel, TestWorkScheduler,
    WorkData, WorkScheduler,
};

type Controller = TestChannelController<TestWorkScheduler, (), u32>;
type Work = WorkData<TestWorkScheduler, u32>;
type Data = StubPolicyData<TestWorkScheduler, Vec<String>>;
type Funcs = StubPolicyFuncs<OnUpdate, OnSubchannel, OnExitIdle, OnWork>;
type Policy =
    StubPolicy<OnUpdate, OnSubchannel, OnExitIdle, OnWork, TestWorkScheduler, Vec<String>>;

struct OnUpdate {}

struct OnSubchannel {}

struct OnExitIdle {}

struct OnWork {}

fn note(data: &mut Data, text: String) {
    data.test_data.get_or_insert_with(Vec::new).push(text);
}

impl ResolverUpdateFn<Data, Controller, MockConfig> for OnUpdate {
    fn call(
        &self,
        data: &mut Data,
        update: ResolverUpdate,
        config: Option<&MockConfig>,
        channel_controller: &mut Controller,
    ) -> Result<(), String> {
        channel_controller.request_resolution();
        let found = update.endpoints?.len();
        note(data, format!("update {found} {:?}", config.map(|c| c.shuffle_address_list)));
        Ok(())
    }
}

impl SubchannelUpdateFn<Data, Controller, TestWorkScheduler> for OnSubchannel {
    fn call(
        &self,
        data: &mut Data,
        subchannel: Arc<TestSubchannel<TestWorkScheduler>>,
        state: &SubchannelState,
        _channel_controller: &mut Controller,
    ) {
        let address = subchannel.address().address;
        note(data, format!("subchannel {address} {}", state.connectivity_state.name()));
    }
}

impl ExitIdleFn<Data, Controller> for OnExitIdle {
    fn call(&self, data: &mut Data, channel_controller: &mut Controller) {
        channel_controller.request_resolution();
        note(data, "exit_idle".to_string());
    }
}

impl WorkFn<Data, Controller, Work> for OnWork {
    fn call(&self, data: &mut Data, work: Option<Work>, _channel_controller: &mut Controller) {
        let text = match work {
            None => "work none".to_string(),
            Some(WorkData::Other(n)) => format!("work {n}"),
            Some(WorkData::SubchannelUpdate(update)) => {
                format!("work {}", update.subchannel.address().address)
            }
        };
        note(data, text);
    }
}

fn all() -> Funcs {
    StubPolicyFuncs {
        resolver_update: Some(Arc::new(OnUpdate {})),
        subchannel_update: Some(Arc::new(OnSubchannel {})),
        exit_idle: Some(Arc::new(OnExitIdle {})),
        work: Some(Arc::new(OnWork {})),
    }
}

fn options() -> LbPolicyOptions<TestWorkScheduler> {
    LbPolicyOptions { work_scheduler: Arc::new(TestWorkScheduler {}) }
}

fn update() -> Work {
    let address = Address { address: "a:1".to_string(), label: "tcp:a:1".to_string() };
    let scheduler = Arc::new(TestWorkScheduler {});
    WorkData::SubchannelUpdate(SubchannelUpdate {
        subchannel: Arc::new(TestSubchannel::new_with_work_scheduler(0, address, scheduler)),
        state: SubchannelState {
            connectivity_state: ConnectivityState::Ready,
            last_connection_error: None,
        },
    })
}

fn work(policy: &mut Policy, data: Option<Work>, controller: &mut Controller) {
    LbPolicy::<Controller, Work, MockConfig>::work(policy, data, controller);
}

fn seen(policy: &Policy) -> Vec<String> {
    policy.data.test_data.clone().unwrap_or_default()
}

#[test]
fn data_is_empty_at_first() {
    let options = options();
    let scheduler = options.work_scheduler.clone();
    let data: Data = StubPolicyData::new(options);
    assert!(data.test_data.is_none());
    assert!(Arc::ptr_eq(&data.lb_policy_options.work_scheduler, &scheduler));
}

#[test]
fn funcs_are_none_by_default() {
    let funcs = Funcs::default();
    assert!(funcs.resolver_update.is_none());
    assert!(funcs.subchannel_update.is_none());
    assert!(funcs.exit_idle.is_none());
    assert!(funcs.work.is_none());
}

#[test]
fn funcs_are_shared_by_their_clones() {
    let funcs = all();
    let clone = funcs.clone();
    assert!(Arc::ptr_eq(funcs.work.as_ref().unwrap(), clone.work.as_ref().unwrap()));
    assert!(Arc::ptr_eq(
        funcs.exit_idle.as_ref().unwrap(),
        clone.exit_idle.as_ref().unwrap()
    ));
    assert!(Funcs::default().clone().work.is_none());
}

#[test]
fn funcs_are_shown_to_people() {
    assert_eq!(all().fmt(), "stub funcs");
}

#[test]
fn resolver_updates_go_to_their_function() {
    let mut policy: Policy = StubPolicy::new(all(), options());
    let mut controller = Controller::new();
    let config = MockConfig { shuffle_address_list: Some(true) };
    let endpoints = Ok(vec![Endpoint { addresses: vec![] }]);
    let result = policy.resolver_update(
        ResolverUpdate { endpoints },
        Some(&config),
        &mut controller,
    );
    assert_eq!(result, Ok(()));
    assert_eq!(seen(&policy), vec!["update 1 Some(Some(true))"]);
    assert_eq!(controller.events.try_recv().unwrap().fmt(), "RequestResolution");

    let endpoints = Err("gone".to_string());
    let result = policy.resolver_update(
        ResolverUpdate { endpoints },
        None::<&MockConfig>,
        &mut controller,
    );
    assert_eq!(result, Err("gone".to_string()));
}

#[test]
fn resolver_updates_without_a_function_do_nothing() {
    let mut policy: Policy = StubPolicy::new(Funcs::default(), options());
    let mut controller = Controller::new();
    let endpoints = Err("gone".to_string());
    let result = policy.resolver_update(
        ResolverUpdate { endpoints },
        None::<&MockConfig>,
        &mut controller,
    );
    assert_eq!(result, Ok(()));
    assert!(policy.data.test_data.is_none());
    assert!(controller.events.try_recv().is_none());
}

#[test]
fn leaving_the_idle_state_goes_to_its_function() {
    let mut controller = Controller::new();
    let mut policy: Policy = StubPolicy::new(all(), options());
    LbPolicy::<Controller, Work, MockConfig>::exit_idle(&mut policy, &mut controller);
    assert_eq!(seen(&policy), vec!["exit_idle"]);
    assert_eq!(controller.events.try_recv().unwrap().fmt(), "RequestResolution");

    let mut policy: Policy = StubPolicy::new(Funcs::default(), options());
    LbPolicy::<Controller, Work, MockConfig>::exit_idle(&mut policy, &mut controller);
    assert!(policy.data.test_data.is_none());
    assert!(controller.events.try_recv().is_none());
}

#[test]
fn work_goes_to_the_function_that_takes_it() {
    let mut controller = Controller::new();
    let mut policy: Policy = StubPolicy::new(all(), options());
    work(&mut policy, Some(update()), &mut controller);
    work(&mut policy, Some(WorkData::Other(5)), &mut controller);
    work(&mut policy, None, &mut controller);
    assert_eq!(seen(&policy), vec!["subchannel a:1 READY", "work 5", "work none"]);
}

#[test]
fn updates_that_no_function_takes_are_work() {
    let mut controller = Controller::new();
    let funcs = StubPolicyFuncs { subchannel_update: None, ..all() };
    let mut policy: Policy = StubPolicy::new(funcs, options());
    work(&mut policy, Some(update()), &mut controller);
    assert_eq!(seen(&policy), vec!["work a:1"]);
}

#[test]
fn work_that_no_function_takes_does_nothing() {
    let mut controller = Controller::new();
    let funcs = StubPolicyFuncs { work: None, ..all() };
    let mut policy: Policy = StubPolicy::new(funcs, options());
    work(&mut policy, Some(WorkData::Other(5)), &mut controller);
    work(&mut policy, None, &mut controller);
    assert!(policy.data.test_data.is_none());
    work(&mut policy, Some(update()), &mut controller);
    assert_eq!(seen(&policy), vec!["subchannel a:1 READY"]);
}

#[test]
fn stub_without_work_functions_settles() {
    let funcs = StubPolicyFuncs { subchannel_update: None, work: None, ..all() };
    let mut harness: TestHarness<Policy, TestWorkScheduler, (), u32> =
        TestHarness::new(|scheduler, _events| {
            StubPolicy::new(funcs, LbPolicyOptions { work_scheduler: scheduler })
        });
    let scheduler = harness.policy.data.lb_policy_options.work_scheduler.clone();
    scheduler.schedule_work(Some(update()), &mut harness.tcc.events);
    scheduler.schedule_work(Some(WorkData::Other(3)), &mut harness.tcc.events);
    harness.run_work::<MockConfig>();
    harness.expect_no_events();
    assert!(harness.policy.data.test_data.is_none());
}

#[test]
fn builders_build_policies_with_their_functions() {
    let builder = StubPolicyBuilder { name: "stub", funcs: all() };
    assert_eq!(builder.name(), "stub");
    let mut policy: Policy = builder.build(options());
    assert!(policy.data.test_data.is_none());
    work(&mut policy, Some(WorkData::Other(1)), &mut Controller::new());
    assert_eq!(seen(&policy), vec!["work 1"]);
}

#[test]
fn converted_configurations_are_kept() {
    let builder = StubPolicyBuilder { name: "stub", funcs: all() };
    for shuffle_address_list in [None, Some(false), Some(true)] {
        let parsed = builder.parse_config(Ok(MockConfig { shuffle_address_list }));
        assert_eq!(parsed.unwrap().unwrap().shuffle_address_list, shuffle_address_list);
    }
}

#[test]
fn configurations_that_cannot_be_converted_are_refused() {
    let builder = StubPolicyBuilder { name: "stub", funcs: all() };
    let parsed = builder.parse_config(Err("expected a boolean".to_string()));
    assert_eq!(
        parsed.unwrap_err(),
        "failed to parse JSON config: expected a boolean"
    );
}

#[test]
fn registered_builders_follow_each_other() {
    let mut registry = vec![];
    reg_stub_policy(&mut registry, "first", all());
    reg_stub_policy(&mut registry, "second", Funcs::default());
    let names: Vec<&str> = registry.iter().map(|builder| builder.name()).collect();
    assert_eq!(names, vec!["first", "second"]);
    assert!(registry[0].funcs.work.is_some());
    assert!(registry[1].funcs.work.is_none());
}
