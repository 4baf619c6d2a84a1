//! A load-balancing policy that leaves everything to functions that a test provides.
use std::sync::Arc;

use vstd::prelude::*;

use crate::load_balancing::{LbPolicy, ResolverUpdate, SubchannelState};
use crate::sharing::share;
use crate::test_utils::{
    delivers, is_round, settles, settles_by, work_items, EventSource, SubchannelUpdate, TestEvent,
    TestSubchannel, WorkData,
};

verus! {

/// What a policy is built with: the scheduler `W` that it should use.
#[derive(Debug)]
pub struct LbPolicyOptions<W> {
    pub work_scheduler: Arc<W>,
}

/// What a stub policy keeps for the functions that a test provides.
#[derive(Debug)]
pub struct StubPolicyData<W, T> {
    pub lb_policy_options: LbPolicyOptions<W>,
    /// Whatever the test's functions want to keep.
    pub test_data: Option<T>,
}

impl<W, T> StubPolicyData<W, T> {
    /// The data of a policy that was built with the given options.
    pub fn new(lb_policy_options: LbPolicyOptions<W>) -> (r: Self)
        ensures
            r == (StubPolicyData { lb_policy_options, test_data: None::<T> }),
    {
        StubPolicyData { test_data: None, lb_policy_options }
    }
}

/// What a stub policy does on an update from the name resolver.
pub trait ResolverUpdateFn<A, C, G> {
    /// Whether `call` can turn `pre` and `before` into `post` and `after`, with `r`.
    open spec fn calls(
        &self,
        pre: A,
        update: ResolverUpdate,
        config: Option<&G>,
        before: C,
        post: A,
        after: C,
        r: Result<(), String>,
    ) -> bool {
        true
    }

    /// Handles the update.
    fn call(
        &self,
        data: &mut A,
        update: ResolverUpdate,
        config: Option<&G>,
        channel_controller: &mut C,
    ) -> (r: Result<(), String>)
        ensures
            self.calls(
                *old(data),
                update,
                config,
                *old(channel_controller),
                *final(data),
                *final(channel_controller),
                r,
            ),
    ;
}

/// What a stub policy does on a change of a subchannel's state.
pub trait SubchannelUpdateFn<A, C, W> {
    /// Whether `call` can turn `pre` and `before` into `post` and `after`.
    open spec fn calls(
        &self,
        pre: A,
        subchannel: Arc<TestSubchannel<W>>,
        state: SubchannelState,
        before: C,
        post: A,
        after: C,
    ) -> bool {
        true
    }

    /// Handles the change.
    fn call(
        &self,
        data: &mut A,
        subchannel: Arc<TestSubchannel<W>>,
        state: &SubchannelState,
        channel_controller: &mut C,
    )
        ensures
            self.calls(
                *old(data),
                subchannel,
                *state,
                *old(channel_controller),
                *final(data),
                *final(channel_controller),
            ),
    ;
}

/// What a stub policy does when it is to leave the idle state.
pub trait ExitIdleFn<A, C> {
    /// Whether `call` can turn `pre` and `before` into `post` and `after`.
    open spec fn calls(&self, pre: A, before: C, post: A, after: C) -> bool {
        true
    }

    /// Leaves the idle state.
    fn call(&self, data: &mut A, channel_controller: &mut C)
        ensures
            self.calls(
                *old(data),
                *old(channel_controller),
                *final(data),
                *final(channel_controller),
            ),
    ;
}

/// What a stub policy does with work.
pub trait WorkFn<A, C, Work> {
    /// Whether `call` can turn `pre` and `before` into `post` and `after`.
    open spec fn calls(&self, pre: A, work: Option<Work>, before: C, post: A, after: C) -> bool {
        true
    }

    /// Does the work.
    fn call(&self, data: &mut A, work: Option<Work>, channel_controller: &mut C)
        ensures
            self.calls(
                *old(data),
                work,
                *old(channel_controller),
                *final(data),
                *final(channel_controller),
            ),
    ;
}

/// The functions that a test provides for a stub policy, as far as it does.
pub struct StubPolicyFuncs<FR, FS, FE, FW> {
    pub resolver_update: Option<Arc<FR>>,
    pub subchannel_update: Option<Arc<FS>>,
    pub exit_idle: Option<Arc<FE>>,
    pub work: Option<Arc<FW>>,
}

/// Another handle on a function, if there is one.
fn share_opt<F>(f: &Option<Arc<F>>) -> (r: Option<Arc<F>>)
    ensures
        r == *f,
{
    match f {
        Some(f) => Some(share(f)),
        None => None,
    }
}

impl<FR, FS, FE, FW> Clone for StubPolicyFuncs<FR, FS, FE, FW> {
    fn clone(&self) -> (r: Self)
        ensures
            r == *self,
    {
        StubPolicyFuncs {
            resolver_update: share_opt(&self.resolver_update),
            subchannel_update: share_opt(&self.subchannel_update),
            exit_idle: share_opt(&self.exit_idle),
            work: share_opt(&self.work),
        }
    }
}

impl<FR, FS, FE, FW> Default for StubPolicyFuncs<FR, FS, FE, FW> {
    /// No functions at all.
    fn default() -> (r: Self)
        ensures
            r.resolver_update is None,
            r.subchannel_update is None,
            r.exit_idle is None,
            r.work is None,
    {
        StubPolicyFuncs { resolver_update: None, subchannel_update: None, exit_idle: None, work: None }
    }
}

impl<FR, FS, FE, FW> StubPolicyFuncs<FR, FS, FE, FW> {
    /// How the functions are shown to people.
    pub fn fmt(&self) -> (r: String)
        ensures
            r@ == "stub funcs"@,
    {
        "stub funcs".to_owned()
    }
}

/// A policy that calls the functions that a test provides, and does nothing where there is none.
pub struct StubPolicy<FR, FS, FE, FW, W, T> {
    pub funcs: StubPolicyFuncs<FR, FS, FE, FW>,
    pub data: StubPolicyData<W, T>,
}

impl<FR, FS, FE, FW, W, T> StubPolicy<FR, FS, FE, FW, W, T> {
    /// A policy with the given functions and options.
    pub fn new(funcs: StubPolicyFuncs<FR, FS, FE, FW>, options: LbPolicyOptions<W>) -> (r: Self)
        ensures
            r == (StubPolicy {
                funcs,
                data: StubPolicyData { lb_policy_options: options, test_data: None::<T> },
            }),
    {
        StubPolicy { funcs, data: StubPolicyData::new(options) }
    }
}

impl<FR, FS, FE, FW, W, T, C, D, G> LbPolicy<C, WorkData<W, D>, G> for StubPolicy<
    FR,
    FS,
    FE,
    FW,
    W,
    T,
> where
    FR: ResolverUpdateFn<StubPolicyData<W, T>, C, G>,
    FS: SubchannelUpdateFn<StubPolicyData<W, T>, C, W>,
    FE: ExitIdleFn<StubPolicyData<W, T>, C>,
    FW: WorkFn<StubPolicyData<W, T>, C, WorkData<W, D>>,
 {
    /// The function for updates decides; without one, nothing happens.
    open spec fn updates(
        pre: Self,
        update: ResolverUpdate,
        config: Option<&G>,
        before: C,
        post: Self,
        after: C,
        r: Result<(), String>,
    ) -> bool {
        &&& post.funcs == pre.funcs
        &&& match pre.funcs.resolver_update {
            Some(f) => f.calls(pre.data, update, config, before, post.data, after, r),
            None => post.data == pre.data && after == before && r is Ok,
        }
    }

    /// The function for leaving the idle state decides; without one, nothing happens.
    open spec fn exits_idle(pre: Self, before: C, post: Self, after: C) -> bool {
        &&& post.funcs == pre.funcs
        &&& match pre.funcs.exit_idle {
            Some(f) => f.calls(pre.data, before, post.data, after),
            None => post.data == pre.data && after == before,
        }
    }

    /// Updates of a subchannel's state go to the function for them, if there is one. All other work,
    /// and updates that no such function takes, go to the function for work; without one, nothing
    /// happens.
    open spec fn works(
        pre: Self,
        data: Option<WorkData<W, D>>,
        before: C,
        post: Self,
        after: C,
    ) -> bool {
        &&& post.funcs == pre.funcs
        &&& match (data, pre.funcs.subchannel_update) {
            (Some(WorkData::SubchannelUpdate(update)), Some(f)) => f.calls(
                pre.data,
                update.subchannel,
                update.state,
                before,
                post.data,
                after,
            ),
            _ => match pre.funcs.work {
                Some(f) => f.calls(pre.data, data, before, post.data, after),
                None => post.data == pre.data && after == before,
            },
        }
    }

    fn resolver_update(
        &mut self,
        update: ResolverUpdate,
        config: Option<&G>,
        channel_controller: &mut C,
    ) -> (r: Result<(), String>) {
        if let Some(f) = &self.funcs.resolver_update {
            return f.call(&mut self.data, update, config, channel_controller);
        }
        Ok(())
    }

    fn exit_idle(&mut self, channel_controller: &mut C) {
        if let Some(f) = &self.funcs.exit_idle {
            f.call(&mut self.data, channel_controller);
        }
    }

    fn work(&mut self, data: Option<WorkData<W, D>>, channel_controller: &mut C) {
        let data: Option<WorkData<W, D>> = match data {
            Some(WorkData::SubchannelUpdate(update)) => {
                if let Some(f) = &self.funcs.subchannel_update {
                    let SubchannelUpdate { subchannel, state } = update;
                    f.call(&mut self.data, subchannel, &state, channel_controller);
                    return;
                }
                Some(WorkData::SubchannelUpdate(update))
            },
            other => other,
        };
        if let Some(f) = &self.funcs.work {
            f.call(&mut self.data, data, channel_controller);
        }
    }
}

/// The configuration of a stub policy.
#[derive(Clone, Copy, Debug, PartialEq, Eq, Structural)]
pub struct MockConfig {
    pub shuffle_address_list: Option<bool>,
}

/// Builds stub policies.
pub struct StubPolicyBuilder<FR, FS, FE, FW> {
    pub name: &'static str,
    pub funcs: StubPolicyFuncs<FR, FS, FE, FW>,
}

impl<FR, FS, FE, FW> StubPolicyBuilder<FR, FS, FE, FW> {
    /// A policy with this builder's functions and the given options.
    pub fn build<W, T>(&self, options: LbPolicyOptions<W>) -> (r: StubPolicy<FR, FS, FE, FW, W, T>)
        ensures
            r == (StubPolicy {
                funcs: self.funcs,
                data: StubPolicyData { lb_policy_options: options, test_data: None::<T> },
            }),
    {
        let data = StubPolicyData::new(options);
        StubPolicy { funcs: self.funcs.clone(), data }
    }

    /// The name of the policies that this builder builds.
    pub fn name(&self) -> (r: &'static str)
        ensures
            r == self.name,
    {
        self.name
    }

    /// The configuration that a JSON configuration was converted to, or why it could not be.
    pub fn parse_config(&self, converted: Result<MockConfig, String>) -> (r: Result<
        Option<Arc<MockConfig>>,
        String,
    >)
        ensures
            match converted {
                Ok(config) => r matches Ok(Some(c)) && *c == config,
                Err(e) => r matches Err(m) && m@ == "failed to parse JSON config: "@ + e@,
            },
    {
        match converted {
            Ok(config) => Ok(Some(Arc::new(config))),
            Err(e) => {
                let mut message = "failed to parse JSON config: ".to_owned();
                message.append(e.as_str());
                Err(message)
            },
        }
    }
}

/// Adds a builder of stub policies to `registry`, behind all others.
pub fn reg_stub_policy<FR, FS, FE, FW>(
    registry: &mut Vec<Arc<StubPolicyBuilder<FR, FS, FE, FW>>>,
    name: &'static str,
    funcs: StubPolicyFuncs<FR, FS, FE, FW>,
)
    ensures
        final(registry)@ == old(registry)@.push(Arc::new(StubPolicyBuilder { name, funcs })),
{
    registry.push(Arc::new(StubPolicyBuilder { name, funcs }));
}

/// Work that is delivered to a stub policy without functions for work changes nothing.
proof fn delivery_without_work_functions<FR, FS, FE, FW, W, T, C, D, G>(
    p0: StubPolicy<FR, FS, FE, FW, W, T>,
    c0: C,
    items: Seq<Option<WorkData<W, D>>>,
    p: StubPolicy<FR, FS, FE, FW, W, T>,
    c: C,
) where
    FR: ResolverUpdateFn<StubPolicyData<W, T>, C, G>,
    FS: SubchannelUpdateFn<StubPolicyData<W, T>, C, W>,
    FE: ExitIdleFn<StubPolicyData<W, T>, C>,
    FW: WorkFn<StubPolicyData<W, T>, C, WorkData<W, D>>,

    requires
        p0.funcs.subchannel_update is None,
        p0.funcs.work is None,
        delivers::<StubPolicy<FR, FS, FE, FW, W, T>, C, WorkData<W, D>, G>(p0, c0, items, p, c),
    ensures
        p == p0,
        c == c0,
    decreases items.len(),
{
    if items.len() > 0 {
        let (pm, cm) = choose|pm: StubPolicy<FR, FS, FE, FW, W, T>, cm: C|
            delivers::<StubPolicy<FR, FS, FE, FW, W, T>, C, WorkData<W, D>, G>(
                p0,
                c0,
                items.drop_last(),
                pm,
                cm,
            ) && #[trigger] <StubPolicy<FR, FS, FE, FW, W, T> as LbPolicy<
                C,
                WorkData<W, D>,
                G,
            >>::works(pm, items.last(), cm, p, c);
        delivery_without_work_functions::<FR, FS, FE, FW, W, T, C, D, G>(
            p0,
            c0,
            items.drop_last(),
            pm,
            cm,
        );
    }
}

/// A stub policy that has no functions for work causes none, whatever is delivered to it.
pub proof fn stub_without_work_functions_settles<FR, FS, FE, FW, W, T, C, K, D, G>(
    policy: StubPolicy<FR, FS, FE, FW, W, T>,
    channel_controller: C,
) where
    FR: ResolverUpdateFn<StubPolicyData<W, T>, C, G>,
    FS: SubchannelUpdateFn<StubPolicyData<W, T>, C, W>,
    FE: ExitIdleFn<StubPolicyData<W, T>, C>,
    FW: WorkFn<StubPolicyData<W, T>, C, WorkData<W, D>>,
    C: EventSource<TestEvent<W, K, D>>,

    requires
        policy.funcs.subchannel_update is None,
        policy.funcs.work is None,
    ensures
        settles::<StubPolicy<FR, FS, FE, FW, W, T>, C, W, K, D, G>(policy, channel_controller),
{
    let rank = |p: StubPolicy<FR, FS, FE, FW, W, T>, c: C|
        if p.funcs.subchannel_update is None && p.funcs.work is None {
            Some(work_items(c.pending()).len())
        } else {
            None
        };
    assert forall|
        p: StubPolicy<FR, FS, FE, FW, W, T>,
        c: C,
        p2: StubPolicy<FR, FS, FE, FW, W, T>,
        c2: C,
    |
        rank(p, c) is Some && #[trigger] is_round::<
            StubPolicy<FR, FS, FE, FW, W, T>,
            C,
            W,
            K,
            D,
            G,
        >(p, c, p2, c2) implies rank(p2, c2) is Some && rank(p2, c2)->0 < rank(p, c)->0 by {
        let items = work_items(c.pending());
        let taken = choose|taken: C|
            #![trigger taken.same_but_pending(c)]
            taken.same_but_pending(c) && taken.pending().len() == 0 && delivers::<
                StubPolicy<FR, FS, FE, FW, W, T>,
                C,
                WorkData<W, D>,
                G,
            >(p, taken, items, p2, c2);
        delivery_without_work_functions::<FR, FS, FE, FW, W, T, C, D, G>(p, taken, items, p2, c2);
    }
    assert(settles_by::<StubPolicy<FR, FS, FE, FW, W, T>, C, W, K, D, G>(
        rank,
        policy,
        channel_controller,
    ));
}

/// A stub policy that has a function for updates from the name resolver calls it on every such update,
/// with that update and that configuration, and returns what it returns. Without that function nothing
/// happens. The policy keeps its functions.
pub proof fn updates_go_to_their_function<FR, FS, FE, FW, W, T, C, D, G>(
    pre: StubPolicy<FR, FS, FE, FW, W, T>,
    update: ResolverUpdate,
    config: Option<&G>,
    before: C,
    post: StubPolicy<FR, FS, FE, FW, W, T>,
    after: C,
    r: Result<(), String>,
) where
    FR: ResolverUpdateFn<StubPolicyData<W, T>, C, G>,
    FS: SubchannelUpdateFn<StubPolicyData<W, T>, C, W>,
    FE: ExitIdleFn<StubPolicyData<W, T>, C>,
    FW: WorkFn<StubPolicyData<W, T>, C, WorkData<W, D>>,

    requires
        <StubPolicy<FR, FS, FE, FW, W, T> as LbPolicy<C, WorkData<W, D>, G>>::updates(
            pre,
            update,
            config,
            before,
            post,
            after,
            r,
        ),
    ensures
        pre.funcs.resolver_update matches Some(f) ==> f.calls(
            pre.data,
            update,
            config,
            before,
            post.data,
            after,
            r,
        ),
        pre.funcs.resolver_update is None ==> post == pre && after == before && r is Ok,
        post.funcs == pre.funcs,
{
}

/// A stub policy that has a function for leaving the idle state calls it whenever it is to leave that
/// state. Without that function nothing happens. The policy keeps its functions.
pub proof fn leaving_idle_goes_to_its_function<FR, FS, FE, FW, W, T, C, D, G>(
    pre: StubPolicy<FR, FS, FE, FW, W, T>,
    before: C,
    post: StubPolicy<FR, FS, FE, FW, W, T>,
    after: C,
) where
    FR: ResolverUpdateFn<StubPolicyData<W, T>, C, G>,
    FS: SubchannelUpdateFn<StubPolicyData<W, T>, C, W>,
    FE: ExitIdleFn<StubPolicyData<W, T>, C>,
    FW: WorkFn<StubPolicyData<W, T>, C, WorkData<W, D>>,

    requires
        <StubPolicy<FR, FS, FE, FW, W, T> as LbPolicy<C, WorkData<W, D>, G>>::exits_idle(
            pre,
            before,
            post,
            after,
        ),
    ensures
        pre.funcs.exit_idle matches Some(f) ==> f.calls(pre.data, before, post.data, after),
        pre.funcs.exit_idle is None ==> post == pre && after == before,
        post.funcs == pre.funcs,
{
}

/// Every update of a subchannel's state goes to the function for such updates, with that subchannel and
/// that state, where there is one. All other work, and updates where there is none, goes to the function
/// for work, with its data. Where there is no function for it, work does nothing. The policy keeps its
/// functions.
pub proof fn work_goes_to_its_function<FR, FS, FE, FW, W, T, C, D, G>(
    pre: StubPolicy<FR, FS, FE, FW, W, T>,
    data: Option<WorkData<W, D>>,
    before: C,
    post: StubPolicy<FR, FS, FE, FW, W, T>,
    after: C,
) where
    FR: ResolverUpdateFn<StubPolicyData<W, T>, C, G>,
    FS: SubchannelUpdateFn<StubPolicyData<W, T>, C, W>,
    FE: ExitIdleFn<StubPolicyData<W, T>, C>,
    FW: WorkFn<StubPolicyData<W, T>, C, WorkData<W, D>>,

    requires
        <StubPolicy<FR, FS, FE, FW, W, T> as LbPolicy<C, WorkData<W, D>, G>>::works(
            pre,
            data,
            before,
            post,
            after,
        ),
    ensures
        data matches Some(WorkData::SubchannelUpdate(update)) ==> (
        pre.funcs.subchannel_update matches Some(f) ==> f.calls(
            pre.data,
            update.subchannel,
            update.state,
            before,
            post.data,
            after,
        )),
        pre.funcs.subchannel_update is None || !(data matches Some(WorkData::SubchannelUpdate(_)))
            ==> {
            &&& pre.funcs.work matches Some(f) ==> f.calls(pre.data, data, before, post.data, after)
            &&& pre.funcs.work is None ==> post == pre && after == before
        },
        post.funcs == pre.funcs,
{
}

} // verus!
