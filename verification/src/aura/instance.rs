//! Instances of agents, each with an engine of its own, and the manager that
//! keeps a bounded number of them.

use vstd::prelude::*;
use vstd::string::*;

use crate::aura::calendar::{date_of, iso8601, moment};
use crate::aura::protocol::{
    build_provider, info_of, provider_info, unavailable, InstanceId, InstanceInfo,
    InstanceInfoView, InstanceSpec, InstanceSpecView, InstanceState, ServerError, ServerErrorView,
    SessionInfo, SessionInfoView, ERR_INSTANCE_FULL, ERR_INSTANCE_NOT_FOUND, ERR_INVALID_SPEC,
};
use crate::budget::BudgetConfig;
use crate::cache::CacheView;
use crate::engine::reply::{EngineStartError, SessionPhase};
use crate::engine::{
    all_interrupted, id_of, interrupted, session_key, Engine, EngineConfigView, EngineView,
    ProviderInfo, ProviderInfoView,
};
use crate::provider::{joined, Message, MessageView};
use crate::session::message::{id_text, ChatPayload, SessionId};
use crate::session::{RoundStart, RoundStartView, SessionConfigView, SessionView};
use crate::table::{
    distinct, drop_key, law_lookup_put, lemma_absent, lemma_at, lemma_found, lookup, put, Held,
    KeyView, Table,
};
use crate::text::{decimal, decimal_text, join, join_text, trim, trim_text};
use crate::tool::executor::{ExecutorConfig, ToolExecutor};
use crate::tool::registry::{name_key, named, ToolRegistry, ToolRegistryView};

verus! {

broadcast use vstd::string::group_string_axioms;

/// Whether an instance takes requests.
#[derive(Debug, Clone, Copy, PartialEq, Eq, Structural)]
pub enum InstanceStatus {
    Running,
    Stopped,
}

// ---------------------------------------------------------------------------
// The system prompt

/// The sections that say something, without the space around them.
pub open spec fn said(sections: Seq<Seq<char>>) -> Seq<Seq<char>>
    decreases sections.len(),
{
    if sections.len() == 0 {
        Seq::empty()
    } else {
        let before = said(sections.drop_last());
        let text = trim(sections.last());
        if text.len() > 0 {
            before.push(text)
        } else {
            before
        }
    }
}

/// The system prompt that sections make: those that say something, with an empty
/// line between.
pub open spec fn prompt_text(sections: Seq<Seq<char>>) -> Seq<char> {
    join(said(sections), "\n\n"@)
}

/// The system prompt that sections make.
pub fn bind_agent(sections: &Vec<String>) -> (r: String)
    ensures
        r@ == prompt_text(sections.deep_view()),
{
    let ghost all = sections.deep_view();
    let mut out: Vec<String> = Vec::new();
    let mut i: usize = 0;
    proof {
        assert(out.deep_view() =~= said(all.take(0)));
    }
    while i < sections.len()
        invariant
            i <= sections@.len(),
            all == sections.deep_view(),
            out.deep_view() == said(all.take(i as int)),
        decreases sections@.len() - i,
    {
        let ghost before = out.deep_view();
        proof {
            assert(all.take(i + 1).drop_last() =~= all.take(i as int));
            assert(all.take(i + 1).last() == all[i as int]);
        }
        let text = trim_text(sections[i].as_str());
        if !text.as_str().is_empty() {
            let ghost tv = text@;
            out.push(text);
            proof {
                assert(out.deep_view() =~= before.push(tv));
            }
        }
        i = i + 1;
    }
    proof {
        assert(all.take(all.len() as int) =~= all);
    }
    join_text(&out, "\n\n")
}

// ---------------------------------------------------------------------------
// One instance

/// An agent with an engine of its own.
pub struct Instance {
    id: InstanceId,
    model: String,
    engine: Engine,
    status: InstanceStatus,
    created_at: u64,
}

pub struct InstanceView {
    pub id: Seq<char>,
    pub model: Seq<char>,
    pub engine: EngineView,
    pub status: InstanceStatus,
    /// When it was made, in seconds after the first of 1970.
    pub created_at: u64,
}

impl DeepView for Instance {
    type V = InstanceView;

    closed spec fn deep_view(&self) -> InstanceView {
        InstanceView {
            id: self.id.deep_view(),
            model: self.model@,
            engine: self.engine.deep_view(),
            status: self.status,
            created_at: self.created_at,
        }
    }
}

impl Held for Instance {
    open spec fn sound(&self) -> bool {
        self.wf()
    }
}

/// The configuration of an engine with a system prompt, where there is one.
pub open spec fn prompted(config: EngineConfigView, prompt: Seq<char>) -> EngineConfigView {
    EngineConfigView {
        session: SessionConfigView {
            default_system_prompt: if prompt.len() == 0 {
                None
            } else {
                Some(prompt)
            },
            ..config.session
        },
        ..config
    }
}

/// A session at one moment, for whoever looks on.
pub open spec fn info_of_session(entry: (KeyView, SessionView)) -> SessionInfoView {
    SessionInfoView {
        id: id_text(id_of(entry.0)),
        messages: entry.1.window().len() as usize,
        phase: match SessionPhase::of_state(entry.1.state) {
            SessionPhase::Idle => "idle"@,
            SessionPhase::Thinking => "thinking"@,
            SessionPhase::AwaitingCalls => "awaiting_calls"@,
        },
        consumed_tokens: entry.1.consumed_tokens,
    }
}

impl InstanceView {
    /// A new instance.
    pub open spec fn fresh(
        spec: InstanceSpecView,
        id: Seq<char>,
        provider: ProviderInfoView,
        used: u64,
        now: u64,
    ) -> InstanceView {
        InstanceView {
            id,
            model: spec.model,
            engine: EngineView {
                sessions: Seq::empty(),
                provider,
                config: prompted(spec.engine, prompt_text(spec.sections)),
                tools: Some(ToolRegistryView { tools: Seq::empty(), max_tools: 64 }),
                executor: Some(ExecutorConfig::usual()),
                total: used,
                cache: if spec.engine.cache.enabled {
                    Some(
                        CacheView {
                            entries: Seq::empty(),
                            capacity: spec.engine.cache.capacity,
                            ttl: spec.engine.cache.ttl,
                        },
                    )
                } else {
                    None
                },
            },
            status: InstanceStatus::Running,
            created_at: now,
        }
    }

    /// The instance once it was stopped: every round under way is told to stop.
    pub open spec fn stopped(self) -> InstanceView {
        InstanceView {
            engine: EngineView {
                sessions: all_interrupted(self.engine.sessions),
                ..self.engine
            },
            status: InstanceStatus::Stopped,
            ..self
        }
    }

    /// The instance at this moment, for whoever looks on.
    pub open spec fn info(self) -> InstanceInfoView {
        InstanceInfoView {
            id: self.id,
            model: self.model,
            state: match self.status {
                InstanceStatus::Running => InstanceState::Running,
                InstanceStatus::Stopped => InstanceState::Stopped,
            },
            sessions: self.engine.sessions.len() as usize,
            max_sessions: self.engine.config.max_sessions,
            consumed_tokens: self.engine.total,
            cache_entries: match self.engine.cache {
                Some(c) => c.entries.len() as usize,
                None => 0,
            },
            created_at: moment(
                date_of(self.created_at as int / 86_400),
                self.created_at as int % 86_400,
            ),
        }
    }
}

impl Instance {
    /// The engine is in order.
    pub closed spec fn wf(self) -> bool {
        self.engine.wf()
    }

    /// The bounds of the engine hold.
    pub proof fn lemma_wf(&self)
        requires
            self.wf(),
        ensures
            self.deep_view().engine.wf(),
    {
        self.engine.lemma_wf();
    }

    /// An instance of a specification, with the tokens counted that others have
    /// used of a shared budget.
    pub fn create(
        spec: InstanceSpec,
        id: InstanceId,
        provider: ProviderInfo,
        global_used: u64,
        now: u64,
    ) -> (r: Instance)
        requires
            spec.engine.cache.ttl.wf(),
        ensures
            r.wf(),
            r.deep_view() == InstanceView::fresh(
                spec.deep_view(),
                id.deep_view(),
                provider.deep_view(),
                global_used,
                now,
            ),
    {
        let prompt = bind_agent(&spec.sections);
        let mut config = spec.engine;
        config.session.default_system_prompt = if prompt.as_str().is_empty() {
            None
        } else {
            Some(prompt)
        };
        let engine = Engine::new(provider, config).with_tools(
            ToolRegistry::with_defaults(),
            ToolExecutor::with_defaults(),
        ).with_global_budget(global_used);
        Instance {
            id,
            model: spec.model,
            engine,
            status: InstanceStatus::Running,
            created_at: now,
        }
    }

    pub fn id(&self) -> (r: &InstanceId)
        ensures
            r.deep_view() == self.deep_view().id,
    {
        &self.id
    }

    pub fn status(&self) -> (r: InstanceStatus)
        ensures
            r == self.deep_view().status,
    {
        self.status
    }

    /// The engine, to look at.
    pub fn engine(&self) -> (r: &Engine)
        ensures
            r.deep_view() == self.deep_view().engine,
            self.wf() ==> r.wf(),
    {
        &self.engine
    }

    /// The engine, to be driven.
    pub fn engine_mut(&mut self) -> (r: &mut Engine)
        requires
            old(self).wf(),
        ensures
            r.wf(),
            r.deep_view() == old(self).deep_view().engine,
            final(r).wf() ==> final(self).wf(),
            final(self).deep_view() == (InstanceView {
                engine: final(r).deep_view(),
                ..old(self).deep_view()
            }),
    {
        &mut self.engine
    }

    /// Begins a chat in a session.
    pub fn chat(&mut self, session_id: SessionId, payload: ChatPayload, now: u64) -> (r: Result<
        RoundStart,
        EngineStartError,
    >)
        requires
            old(self).wf(),
        ensures
            final(self).wf(),
            ({
                let (e, answer) = old(self).deep_view().engine.begun(
                    session_id,
                    payload.message.deep_view(),
                    payload.options.deep_view(),
                    payload.peer_depth,
                    now,
                );
                &&& final(self).deep_view() == (InstanceView {
                    engine: e,
                    ..old(self).deep_view()
                })
                &&& match r {
                    Ok(round) => answer == Ok::<RoundStartView, EngineStartError>(
                        round.deep_view(),
                    ),
                    Err(x) => answer == Err::<RoundStartView, EngineStartError>(x),
                }
            }),
    {
        self.engine.prepare_round(session_id, payload, now)
    }

    /// Tells a session to stop. Says whether there was a round to stop.
    pub fn interrupt(&mut self, session_id: SessionId) -> (r: bool)
        requires
            old(self).wf(),
        ensures
            final(self).wf(),
            r <==> (old(self).deep_view().engine.session(session_id) matches Some(s) && s.busy()),
            final(self).deep_view() == (InstanceView {
                engine: if r {
                    old(self).deep_view().engine.with_session(
                        session_id,
                        interrupted(old(self).deep_view().engine.session(session_id)->0),
                    )
                } else {
                    old(self).deep_view().engine
                },
                ..old(self).deep_view()
            }),
    {
        self.engine.interrupt(session_id)
    }

    /// Puts messages back into a session's record.
    pub fn replay_history(&mut self, session_id: SessionId, msgs: Vec<Message>, now: u64) -> (r:
        Result<usize, String>)
        requires
            old(self).wf(),
        ensures
            final(self).wf(),
            final(self).deep_view() == (InstanceView {
                engine: old(self).deep_view().engine.restored(
                    session_id,
                    msgs.deep_view(),
                    now,
                ).0,
                ..old(self).deep_view()
            }),
            match old(self).deep_view().engine.restored(session_id, msgs.deep_view(), now).1 {
                Some(n) => r matches Ok(x) && x == n,
                None => r matches Err(t) && t@ == "state conflict: "@ + "max sessions reached"@,
            },
    {
        self.engine.replay_history(session_id, msgs, now)
    }

    /// Stops the instance: every round under way is told to stop. The instance
    /// stays to be looked at.
    pub fn stop(&mut self)
        requires
            old(self).wf(),
        ensures
            final(self).wf(),
            final(self).deep_view() == old(self).deep_view().stopped(),
    {
        self.engine.interrupt_all();
        self.status = InstanceStatus::Stopped;
    }

    /// The instance at this moment.
    pub fn snapshot(&self) -> (r: InstanceInfo)
        ensures
            r.deep_view() == self.deep_view().info(),
    {
        InstanceInfo {
            id: self.id.clone(),
            model: self.model.clone(),
            state: match self.status {
                InstanceStatus::Running => InstanceState::Running,
                InstanceStatus::Stopped => InstanceState::Stopped,
            },
            sessions: self.engine.session_count(),
            max_sessions: self.engine.config().max_sessions,
            consumed_tokens: self.engine.total_consumed_tokens(),
            cache_entries: self.engine.cache_len(),
            created_at: iso8601(self.created_at),
        }
    }

    /// The sessions at this moment.
    pub fn session_infos(&self) -> (r: Vec<SessionInfo>)
        requires
            self.wf(),
        ensures
            r.deep_view() == self.deep_view().engine.sessions.map_values(
                |e: (KeyView, SessionView)| info_of_session(e),
            ),
    {
        let ghost items = self.engine.deep_view().sessions;
        let ghost wanted = items.map_values(|e: (KeyView, SessionView)| info_of_session(e));
        let ids = self.engine.list_sessions();
        let mut out: Vec<SessionInfo> = Vec::new();
        let mut i: usize = 0;
        proof {
            self.engine.lemma_wf();
            assert(out.deep_view() =~= wanted.take(0));
        }
        while i < ids.len()
            invariant
                i <= ids@.len(),
                self.wf(),
                items == self.engine.deep_view().sessions,
                self.engine.deep_view().wf(),
                ids@ == items.map_values(|e: (KeyView, SessionView)| id_of(e.0)),
                wanted == items.map_values(|e: (KeyView, SessionView)| info_of_session(e)),
                out.deep_view() == wanted.take(i as int),
            decreases ids@.len() - i,
        {
            let ghost before = out.deep_view();
            proof {
                lemma_at(items, i as int);
                assert(items[i as int].0 == session_key(ids@[i as int]));
            }
            if let Some(snap) = self.engine.session_info(ids[i]) {
                let info = SessionInfo {
                    id: ids[i].to_text(),
                    messages: snap.history_len,
                    phase: snap.state.name().to_owned(),
                    consumed_tokens: snap.consumed_tokens,
                };
                out.push(info);
                proof {
                    assert(out.deep_view() =~= before.push(info.deep_view()));
                    assert(wanted.take(i + 1) =~= wanted.take(i as int).push(wanted[i as int]));
                }
            }
            i = i + 1;
        }
        proof {
            assert(wanted.take(wanted.len() as int) =~= wanted);
        }
        out
    }
}

// ---------------------------------------------------------------------------
// All instances

/// The bounds of a manager.
#[derive(Debug, Clone, Copy, PartialEq, Eq, Structural)]
pub struct InstanceManagerConfig {
    pub max_instances: usize,
    pub max_sessions_per_instance: usize,
    /// How many tokens all instances may use; zero is no limit.
    pub global_budget_limit: u64,
}

impl Default for InstanceManagerConfig {
    fn default() -> (r: Self)
        ensures
            r == (InstanceManagerConfig {
                max_instances: 64,
                max_sessions_per_instance: 100,
                global_budget_limit: 0,
            }),
    {
        InstanceManagerConfig {
            max_instances: 64,
            max_sessions_per_instance: 100,
            global_budget_limit: 0,
        }
    }
}

/// The instances, and the budget that they share.
pub struct InstanceManager {
    instances: Table<Instance>,
    config: InstanceManagerConfig,
    global_used: u64,
}

pub struct ManagerView {
    pub instances: Seq<(KeyView, InstanceView)>,
    pub config: InstanceManagerConfig,
    /// How many tokens all instances have used.
    pub used: u64,
}

impl DeepView for InstanceManager {
    type V = ManagerView;

    closed spec fn deep_view(&self) -> ManagerView {
        ManagerView {
            instances: self.instances.deep_view(),
            config: self.config,
            used: self.global_used,
        }
    }
}

/// What could not be recovered, and why.
#[derive(Debug)]
pub struct BrokenEntry {
    pub path: String,
    pub reason: String,
}

impl DeepView for BrokenEntry {
    type V = (Seq<char>, Seq<char>);

    open spec fn deep_view(&self) -> (Seq<char>, Seq<char>) {
        (self.path@, self.reason@)
    }
}

/// What was recovered.
#[derive(Debug)]
pub struct RecoveryResult {
    pub recovered_instances: usize,
    /// How many messages were put back.
    pub recovered_sessions: usize,
    pub broken: Vec<BrokenEntry>,
}

pub struct RecoveryView {
    pub instances: usize,
    pub sessions: usize,
    pub broken: Seq<(Seq<char>, Seq<char>)>,
}

impl DeepView for RecoveryResult {
    type V = RecoveryView;

    open spec fn deep_view(&self) -> RecoveryView {
        RecoveryView {
            instances: self.recovered_instances,
            sessions: self.recovered_sessions,
            broken: self.broken.deep_view(),
        }
    }
}

impl Default for RecoveryResult {
    fn default() -> (r: Self)
        ensures
            r.deep_view() == (RecoveryView { instances: 0, sessions: 0, broken: Seq::empty() }),
    {
        let broken: Vec<BrokenEntry> = Vec::new();
        proof {
            assert(broken.deep_view() =~= Seq::empty());
        }
        RecoveryResult { recovered_instances: 0, recovered_sessions: 0, broken }
    }
}

/// One more, as far as numbers go.
pub open spec fn more(n: usize, k: int) -> usize {
    if n + k <= usize::MAX {
        (n + k) as usize
    } else {
        usize::MAX
    }
}

impl RecoveryView {
    /// One more thing that could not be recovered.
    pub open spec fn and_broken(self, path: Seq<char>, reason: Seq<char>) -> RecoveryView {
        RecoveryView { broken: self.broken.push((path, reason)), ..self }
    }
}

/// The specification with the limit of the shared budget, where there is one.
pub open spec fn limited(spec: InstanceSpecView, limit: u64) -> InstanceSpecView {
    if limit > 0 {
        InstanceSpecView {
            engine: EngineConfigView {
                budget: BudgetConfig { global_limit: limit, ..spec.engine.budget },
                ..spec.engine
            },
            ..spec
        }
    } else {
        spec
    }
}

impl ManagerView {
    /// There are no more instances than there may be.
    pub open spec fn wf(self) -> bool {
        distinct(self.instances) && self.instances.len() <= self.config.max_instances
    }

    /// The instance of a name.
    pub open spec fn instance(self, id: Seq<char>) -> Option<InstanceView> {
        lookup(self.instances, named(id))
    }

    /// Why an instance is not made, if it is not: its name is no name or taken,
    /// there is no room, or its vendor cannot be asked.
    pub open spec fn refusal(
        self,
        id: Result<Seq<char>, Seq<char>>,
        spec: InstanceSpecView,
        given: bool,
    ) -> Option<ServerErrorView> {
        match id {
            Err(why) => Some(ServerErrorView { code: ERR_INVALID_SPEC, message: why }),
            Ok(name) => if self.instance(name) is Some {
                Some(
                    ServerErrorView {
                        code: ERR_INVALID_SPEC,
                        message: "instance id '"@ + name + "' already exists"@,
                    },
                )
            } else if self.instances.len() >= self.config.max_instances {
                Some(
                    ServerErrorView {
                        code: ERR_INSTANCE_FULL,
                        message: "max instances ("@ + decimal(self.config.max_instances as nat)
                            + ") reached"@,
                    },
                )
            } else {
                match unavailable(spec.provider) {
                    Some(why) if !given => Some(
                        ServerErrorView { code: ERR_INVALID_SPEC, message: why },
                    ),
                    _ => None,
                }
            },
        }
    }

    /// The instance that is made.
    pub open spec fn made(
        self,
        name: Seq<char>,
        spec: InstanceSpecView,
        provider: Option<ProviderInfoView>,
        now: u64,
    ) -> InstanceView {
        InstanceView::fresh(
            limited(spec, self.config.global_budget_limit),
            name,
            match provider {
                Some(p) => p,
                None => info_of(spec.provider),
            },
            self.used,
            now,
        )
    }

    /// The manager with an instance under its name.
    pub open spec fn with_instance(self, i: InstanceView) -> ManagerView {
        ManagerView { instances: put(self.instances, named(i.id), i), ..self }
    }

    /// What comes of an attempt to make an instance of a name.
    pub open spec fn created(self, name: Seq<char>, spec: InstanceSpecView, now: u64) -> (
        ManagerView,
        Option<ServerErrorView>,
    ) {
        match self.refusal(Ok(name), spec, false) {
            Some(e) => (self, Some(e)),
            None => (self.with_instance(self.made(name, spec, None, now)), None),
        }
    }

    /// The manager once an instance knows how many tokens all have used.
    pub open spec fn lent(self, i: int) -> ManagerView {
        let (key, it) = self.instances[i];
        ManagerView {
            instances: self.instances.update(
                i,
                (key, InstanceView { engine: EngineView { total: self.used, ..it.engine }, ..it }),
            ),
            ..self
        }
    }

    /// The manager once it knows from an instance how many tokens all have used.
    pub open spec fn collected(self, i: int) -> ManagerView {
        ManagerView { used: self.instances[i].1.engine.total, ..self }
    }

    /// The manager with instances recovered, one after the other.
    pub open spec fn recovered(
        self,
        specs: Seq<(Seq<char>, InstanceSpecView)>,
        now: u64,
        result: RecoveryView,
    ) -> (ManagerView, RecoveryView)
        decreases specs.len(),
    {
        if specs.len() == 0 {
            (self, result)
        } else {
            let (m, r) = self.recovered(specs.drop_last(), now, result);
            match m.created(specs.last().0, specs.last().1, now) {
                (next, None) => (next, RecoveryView { instances: more(r.instances, 1), ..r }),
                (next, Some(e)) => (next, r.and_broken(specs.last().0, e.message)),
            }
        }
    }
}

/// An instance with the records of sessions put back, one after the other.
pub open spec fn replayed(
    i: InstanceView,
    sessions: Seq<(SessionId, Seq<MessageView>)>,
    now: u64,
    result: RecoveryView,
) -> (InstanceView, RecoveryView)
    decreases sessions.len(),
{
    if sessions.len() == 0 {
        (i, result)
    } else {
        let (j, r) = replayed(i, sessions.drop_last(), now, result);
        let (id, msgs) = sessions.last();
        let (e, n) = j.engine.restored(id, msgs, now);
        (
            InstanceView { engine: e, ..j },
            match n {
                Some(k) => RecoveryView { sessions: more(r.sessions, k), ..r },
                None => r.and_broken(
                    i.id + "/"@ + id_text(id),
                    "state conflict: "@ + "max sessions reached"@,
                ),
            },
        )
    }
}

/// A table with one more key, or with another value under one, has no key twice.
proof fn lemma_put_distinct(items: Seq<(KeyView, InstanceView)>, key: KeyView, v: InstanceView)
    requires
        distinct(items),
    ensures
        distinct(put(items, key, v)),
        put(items, key, v).len() == (if lookup(items, key) is Some {
            items.len()
        } else {
            items.len() + 1
        }),
{
    let after = put(items, key, v);
    if lookup(items, key) is Some {
        let i = lemma_found(items, key);
        lemma_at(items, i);
        assert forall|a: int, b: int| 0 <= a < b < after.len() implies (#[trigger] after[a]).0
            != (#[trigger] after[b]).0 by {
            assert(after[a].0 == items[a].0 && after[b].0 == items[b].0);
        }
    } else {
        assert forall|j: int| 0 <= j < items.len() implies (#[trigger] items[j]).0 != key by {
            if items[j].0 == key {
                lemma_at(items, j);
            }
        }
        lemma_absent(items, key);
        assert forall|a: int, b: int| 0 <= a < b < after.len() implies (#[trigger] after[a]).0
            != (#[trigger] after[b]).0 by {
            assert(after[a] == items[a]);
            if b < items.len() {
                assert(after[b] == items[b]);
            }
        }
    }
}

/// The result of an attempt, of views alone.
pub open spec fn id_view(id: Result<InstanceId, String>) -> Result<Seq<char>, Seq<char>> {
    match id {
        Ok(i) => Ok(i.deep_view()),
        Err(e) => Err(e@),
    }
}

impl InstanceManager {
    /// There are no more instances than there may be, and every engine is in
    /// order.
    pub closed spec fn wf(self) -> bool {
        self.instances.wf() && self.deep_view().wf()
    }

    /// There are no more instances than there may be.
    pub proof fn lemma_wf(&self)
        requires
            self.wf(),
        ensures
            self.deep_view().wf(),
    {
    }

    pub fn new(config: InstanceManagerConfig) -> (r: InstanceManager)
        ensures
            r.wf(),
            r.deep_view() == (ManagerView { instances: Seq::empty(), config, used: 0 }),
    {
        InstanceManager { instances: Table::new(), config, global_used: 0 }
    }

    /// Makes an instance, of a name that was read or generated, without keeping
    /// it.
    pub fn prepare(
        &self,
        id: Result<InstanceId, String>,
        spec: InstanceSpec,
        provider: Option<ProviderInfo>,
        now: u64,
    ) -> (r: Result<Instance, ServerError>)
        requires
            self.wf(),
            spec.engine.cache.ttl.wf(),
        ensures
            match self.deep_view().refusal(id_view(id), spec.deep_view(), provider is Some) {
                Some(e) => r matches Err(x) && x.deep_view() == e,
                None => r matches Ok(i) && i.wf() && i.deep_view() == self.deep_view().made(
                    id_view(id)->Ok_0,
                    spec.deep_view(),
                    provider.deep_view(),
                    now,
                ),
            },
    {
        let id = match id {
            Ok(i) => i,
            Err(e) => {
                return Err(ServerError::new(ERR_INVALID_SPEC, e));
            },
        };
        if self.instances.place(&name_key(id.as_str())).is_some() {
            let mut t = joined("instance id '", id.as_str());
            t.append("' already exists");
            return Err(ServerError::new(ERR_INVALID_SPEC, t));
        }
        if self.instances.len() >= self.config.max_instances {
            let mut t = joined(
                "max instances (",
                decimal_text(self.config.max_instances as u64).as_str(),
            );
            t.append(") reached");
            return Err(ServerError::new(ERR_INSTANCE_FULL, t));
        }
        let info = match provider {
            Some(p) => p,
            None => match build_provider(&spec.provider) {
                Ok(p) => provider_info(&p),
                Err(e) => {
                    return Err(e);
                },
            },
        };
        let mut spec = spec;
        if self.config.global_budget_limit > 0 {
            spec.engine.budget.global_limit = self.config.global_budget_limit;
        }
        Ok(Instance::create(spec, id, info, self.global_used, now))
    }

    /// Keeps an instance that was made.
    pub fn insert(&mut self, instance: Instance)
        requires
            old(self).wf(),
            instance.wf(),
            old(self).deep_view().instance(instance.deep_view().id) is Some || old(
                self).deep_view().instances.len() < old(self).deep_view().config.max_instances,
        ensures
            final(self).wf(),
            final(self).deep_view() == old(self).deep_view().with_instance(instance.deep_view()),
    {
        proof {
            lemma_put_distinct(
                self.deep_view().instances,
                named(instance.deep_view().id),
                instance.deep_view(),
            );
        }
        let key = name_key(instance.id().as_str());
        self.instances.insert(key, instance);
    }

    /// Makes an instance and keeps it; its vendor is the one that the
    /// specification names, unless one is given.
    pub fn create_with_provider(
        &mut self,
        id: Result<InstanceId, String>,
        spec: InstanceSpec,
        provider: Option<ProviderInfo>,
        now: u64,
    ) -> (r: Result<InstanceId, ServerError>)
        requires
            old(self).wf(),
            spec.engine.cache.ttl.wf(),
        ensures
            final(self).wf(),
            match old(self).deep_view().refusal(id_view(id), spec.deep_view(), provider is Some) {
                Some(e) => (r matches Err(x) && x.deep_view() == e) && final(self).deep_view()
                    == old(self).deep_view(),
                None => (r matches Ok(name) && name.deep_view() == id_view(id)->Ok_0) && final(
                    self).deep_view() == old(self).deep_view().with_instance(
                    old(self).deep_view().made(
                        id_view(id)->Ok_0,
                        spec.deep_view(),
                        provider.deep_view(),
                        now,
                    ),
                ),
            },
    {
        match self.prepare(id, spec, provider, now) {
            Ok(i) => {
                let name = i.id().clone();
                self.insert(i);
                Ok(name)
            },
            Err(e) => Err(e),
        }
    }

    /// Makes an instance and keeps it.
    pub fn create(&mut self, id: Result<InstanceId, String>, spec: InstanceSpec, now: u64) -> (r:
        Result<InstanceId, ServerError>)
        requires
            old(self).wf(),
            spec.engine.cache.ttl.wf(),
        ensures
            final(self).wf(),
            match old(self).deep_view().refusal(id_view(id), spec.deep_view(), false) {
                Some(e) => (r matches Err(x) && x.deep_view() == e) && final(self).deep_view()
                    == old(self).deep_view(),
                None => (r matches Ok(name) && name.deep_view() == id_view(id)->Ok_0) && final(
                    self).deep_view() == old(self).deep_view().with_instance(
                    old(self).deep_view().made(id_view(id)->Ok_0, spec.deep_view(), None, now),
                ),
            },
    {
        self.create_with_provider(id, spec, None, now)
    }

    /// All instances at this moment.
    pub fn list(&self) -> (r: Vec<InstanceInfo>)
        ensures
            r.deep_view() == self.deep_view().instances.map_values(
                |e: (KeyView, InstanceView)| e.1.info(),
            ),
    {
        let ghost wanted = self.deep_view().instances.map_values(
            |e: (KeyView, InstanceView)| e.1.info(),
        );
        let mut out: Vec<InstanceInfo> = Vec::new();
        let mut i: usize = 0;
        proof {
            assert(out.deep_view() =~= wanted.take(0));
        }
        while i < self.instances.len()
            invariant
                i <= self.instances.deep_view().len(),
                wanted == self.instances.deep_view().map_values(
                    |e: (KeyView, InstanceView)| e.1.info(),
                ),
                out.deep_view() == wanted.take(i as int),
            decreases self.instances.deep_view().len() - i,
        {
            let ghost before = out.deep_view();
            let info = self.instances.at(i).snapshot();
            out.push(info);
            proof {
                assert(out.deep_view() =~= before.push(info.deep_view()));
                assert(wanted.take(i + 1) =~= wanted.take(i as int).push(wanted[i as int]));
            }
            i = i + 1;
        }
        proof {
            assert(wanted.take(wanted.len() as int) =~= wanted);
        }
        out
    }

    /// The names of all instances.
    pub fn iter(&self) -> (r: Vec<InstanceId>)
        ensures
            r.deep_view() == self.deep_view().instances.map_values(
                |e: (KeyView, InstanceView)| e.0.0,
            ),
    {
        let ghost wanted = self.deep_view().instances.map_values(
            |e: (KeyView, InstanceView)| e.0.0,
        );
        let mut out: Vec<InstanceId> = Vec::new();
        let mut i: usize = 0;
        proof {
            assert(out.deep_view() =~= wanted.take(0));
        }
        while i < self.instances.len()
            invariant
                i <= self.instances.deep_view().len(),
                wanted == self.instances.deep_view().map_values(
                    |e: (KeyView, InstanceView)| e.0.0,
                ),
                out.deep_view() == wanted.take(i as int),
            decreases self.instances.deep_view().len() - i,
        {
            let ghost before = out.deep_view();
            let id = InstanceId { name: self.instances.key_at(i).0.clone() };
            out.push(id);
            proof {
                assert(out.deep_view() =~= before.push(id.deep_view()));
                assert(wanted.take(i + 1) =~= wanted.take(i as int).push(wanted[i as int]));
            }
            i = i + 1;
        }
        proof {
            assert(wanted.take(wanted.len() as int) =~= wanted);
        }
        out
    }

    /// What is said of an instance that is not there.
    pub open spec fn missing(id: Seq<char>) -> ServerErrorView {
        ServerErrorView {
            code: ERR_INSTANCE_NOT_FOUND,
            message: "instance '"@ + id + "' not found"@,
        }
    }

    fn not_found(id: &InstanceId) -> (r: ServerError)
        ensures
            r.deep_view() == InstanceManager::missing(id.deep_view()),
    {
        let mut t = joined("instance '", id.as_str());
        t.append("' not found");
        ServerError::new(ERR_INSTANCE_NOT_FOUND, t)
    }

    /// The instance of a name.
    pub fn get(&self, id: &InstanceId) -> (r: Result<&Instance, ServerError>)
        requires
            self.wf(),
        ensures
            match r {
                Ok(i) => i.wf() && self.deep_view().instance(id.deep_view()) == Some(
                    i.deep_view(),
                ),
                Err(e) => self.deep_view().instance(id.deep_view()) is None && e.deep_view()
                    == InstanceManager::missing(id.deep_view()),
            },
    {
        match self.instances.get(&name_key(id.as_str())) {
            Some(i) => Ok(i),
            None => Err(InstanceManager::not_found(id)),
        }
    }

    /// Where the instance of a name stands.
    pub fn place(&self, id: &InstanceId) -> (r: Option<usize>)
        requires
            self.wf(),
        ensures
            r is Some <==> self.deep_view().instance(id.deep_view()) is Some,
            r matches Some(i) ==> i < self.deep_view().instances.len()
                && self.deep_view().instances[i as int].0 == named(id.deep_view())
                && self.deep_view().instance(id.deep_view()) == Some(
                self.deep_view().instances[i as int].1,
            ),
    {
        self.instances.place(&name_key(id.as_str()))
    }

    /// The instance at a place, to be driven.
    pub fn at_mut(&mut self, i: usize) -> (r: &mut Instance)
        requires
            old(self).wf(),
            i < old(self).deep_view().instances.len(),
        ensures
            r.wf(),
            r.deep_view() == old(self).deep_view().instances[i as int].1,
            final(r).wf() ==> final(self).wf(),
            final(self).deep_view() == (ManagerView {
                instances: old(self).deep_view().instances.update(
                    i as int,
                    (old(self).deep_view().instances[i as int].0, final(r).deep_view()),
                ),
                ..old(self).deep_view()
            }),
    {
        proof {
            let items = self.deep_view().instances;
            assert forall|v: InstanceView| #[trigger]
                distinct(items.update(i as int, (items[i as int].0, v))) by {
                let after = items.update(i as int, (items[i as int].0, v));
                assert forall|a: int, b: int| 0 <= a < b < after.len() implies (
                #[trigger] after[a]).0 != (#[trigger] after[b]).0 by {
                    assert(after[a].0 == items[a].0 && after[b].0 == items[b].0);
                }
            }
        }
        self.instances.at_mut(i)
    }

    /// Stops an instance and takes it out.
    pub fn remove(&mut self, id: &InstanceId) -> (r: Result<InstanceInfo, ServerError>)
        requires
            old(self).wf(),
        ensures
            final(self).wf(),
            match old(self).deep_view().instance(id.deep_view()) {
                None => (r matches Err(e) && e.deep_view() == InstanceManager::missing(
                    id.deep_view(),
                )) && final(self).deep_view() == old(self).deep_view(),
                Some(i) => (r matches Ok(info) && info.deep_view() == i.stopped().info()) && final(
                    self).deep_view() == (ManagerView {
                    instances: drop_key(
                        old(self).deep_view().instances,
                        named(id.deep_view()),
                    ),
                    ..old(self).deep_view()
                }),
            },
    {
        let key = name_key(id.as_str());
        let ghost items = self.deep_view().instances;
        proof {
            if lookup(items, key.deep_view()) is Some {
                let i = lemma_found(items, key.deep_view());
                lemma_at(items, i);
                let after = items.remove(i);
                assert forall|a: int, b: int| 0 <= a < b < after.len() implies (
                #[trigger] after[a]).0 != (#[trigger] after[b]).0 by {
                    let p = if a < i {
                        a
                    } else {
                        a + 1
                    };
                    let q = if b < i {
                        b
                    } else {
                        b + 1
                    };
                    assert(after[a] == items[p] && after[b] == items[q]);
                }
            } else {
                assert forall|j: int| 0 <= j < items.len() implies (#[trigger] items[j]).0
                    != key.deep_view() by {
                    if items[j].0 == key.deep_view() {
                        lemma_at(items, j);
                    }
                }
                lemma_absent(items, key.deep_view());
            }
        }
        match self.instances.remove(&key) {
            Some(instance) => {
                let mut i = instance;
                i.stop();
                Ok(i.snapshot())
            },
            None => Err(InstanceManager::not_found(id)),
        }
    }

    /// Lets an instance know how many tokens all have used.
    pub fn lend_budget(&mut self, i: usize)
        requires
            old(self).wf(),
            i < old(self).deep_view().instances.len(),
        ensures
            final(self).wf(),
            final(self).deep_view() == old(self).deep_view().lent(i as int),
    {
        let used: u64 = self.global_used;
        let instance = self.at_mut(i);
        let engine = instance.engine_mut();
        engine.set_global_used(used);
    }

    /// Learns from an instance how many tokens all have used.
    pub fn collect_budget(&mut self, i: usize)
        requires
            old(self).wf(),
            i < old(self).deep_view().instances.len(),
        ensures
            final(self).wf(),
            final(self).deep_view() == old(self).deep_view().collected(i as int),
    {
        self.global_used = self.instances.at(i).engine().total_consumed_tokens();
    }

    /// Makes the instances again that were there before. One that cannot be made
    /// is written down and holds nothing up.
    pub fn recover(
        &mut self,
        specs: Vec<(InstanceId, InstanceSpec)>,
        now: u64,
        result: &mut RecoveryResult,
    )
        requires
            old(self).wf(),
            forall|i: int|
                0 <= i < specs@.len() ==> (#[trigger] specs@[i]).1.engine.cache.ttl.wf(),
        ensures
            final(self).wf(),
            ({
                let (m, r) = old(self).deep_view().recovered(
                    specs.deep_view(),
                    now,
                    old(result).deep_view(),
                );
                final(self).deep_view() == m && final(result).deep_view() == r
            }),
    {
        let ghost start = self.deep_view();
        let ghost first = result.deep_view();
        let ghost all = specs.deep_view();
        let ghost kept = specs@;
        let mut rest = specs;
        let n: usize = rest.len();
        let mut i: usize = 0;
        proof {
            assert(all.take(0) =~= Seq::empty());
            assert(kept.skip(0) =~= kept);
        }
        while i < n
            invariant
                i <= n,
                n == kept.len(),
                self.wf(),
                rest@ == kept.skip(i as int),
                all == specs.deep_view(),
                kept == specs@,
                forall|j: int|
                    0 <= j < kept.len() ==> (#[trigger] kept[j]).1.engine.cache.ttl.wf(),
                start.recovered(all.take(i as int), now, first) == (
                    self.deep_view(),
                    result.deep_view(),
                ),
            decreases n - i,
        {
            let (id, spec) = rest.remove(0);
            proof {
                assert((id, spec) == kept[i as int]);
                assert(rest@ =~= kept.skip(i + 1));
                assert(all.take(i + 1).drop_last() =~= all.take(i as int));
                assert(all.take(i + 1).last() == all[i as int]);
            }
            let ghost broken = result.broken.deep_view();
            let path = id.as_str().to_owned();
            match self.create(Ok(id), spec, now) {
                Ok(_) => {
                    result.recovered_instances = result.recovered_instances.saturating_add(1);
                },
                Err(e) => {
                    let entry = BrokenEntry { path, reason: e.message };
                    result.broken.push(entry);
                    proof {
                        assert(result.broken.deep_view() =~= broken.push(entry.deep_view()));
                    }
                },
            }
            i = i + 1;
        }
        proof {
            assert(all.take(all.len() as int) =~= all);
        }
    }

    /// Puts the records of sessions back into an instance. One that there is no
    /// room for is written down and holds nothing up.
    pub fn recover_sessions(
        &mut self,
        i: usize,
        sessions: Vec<(SessionId, Vec<Message>)>,
        now: u64,
        result: &mut RecoveryResult,
    )
        requires
            old(self).wf(),
            i < old(self).deep_view().instances.len(),
        ensures
            final(self).wf(),
            ({
                let m = old(self).deep_view();
                let (key, it) = m.instances[i as int];
                let (after, r) = replayed(
                    it,
                    records(sessions@),
                    now,
                    old(result).deep_view(),
                );
                &&& final(self).deep_view() == (ManagerView {
                    instances: m.instances.update(i as int, (key, after)),
                    ..m
                })
                &&& final(result).deep_view() == r
            }),
    {
        let instance = self.at_mut(i);
        replay_sessions(instance, sessions, now, result);
    }
}

/// The records of sessions, as values.
pub open spec fn records(sessions: Seq<(SessionId, Vec<Message>)>) -> Seq<
    (SessionId, Seq<MessageView>),
> {
    sessions.map_values(|s: (SessionId, Vec<Message>)| (s.0, s.1.deep_view()))
}

/// Puts the records of sessions back into an instance.
pub fn replay_sessions(
    instance: &mut Instance,
    sessions: Vec<(SessionId, Vec<Message>)>,
    now: u64,
    result: &mut RecoveryResult,
)
    requires
        old(instance).wf(),
    ensures
        final(instance).wf(),
        replayed(
            old(instance).deep_view(),
            records(sessions@),
            now,
            old(result).deep_view(),
        ) == (final(instance).deep_view(), final(result).deep_view()),
{
    let ghost start = instance.deep_view();
    let ghost first = result.deep_view();
    let ghost kept = sessions@;
    let ghost all = records(kept);
    let mut rest = sessions;
    let n: usize = rest.len();
    let mut i: usize = 0;
    proof {
        assert(all.take(0) =~= Seq::empty());
        assert(kept.skip(0) =~= kept);
    }
    while i < n
        invariant
            i <= n,
            n == kept.len(),
            instance.wf(),
            instance.deep_view().id == start.id,
            rest@ == kept.skip(i as int),
            all == records(kept),
            replayed(start, all.take(i as int), now, first) == (
                instance.deep_view(),
                result.deep_view(),
            ),
        decreases n - i,
    {
        let (id, msgs) = rest.remove(0);
        proof {
            assert((id, msgs) == kept[i as int]);
            assert(rest@ =~= kept.skip(i + 1));
            assert(all.take(i + 1).drop_last() =~= all.take(i as int));
            assert(all.take(i + 1).last() == all[i as int]);
        }
        let ghost broken = result.broken.deep_view();
        match instance.replay_history(id, msgs, now) {
            Ok(k) => {
                result.recovered_sessions = result.recovered_sessions.saturating_add(k);
            },
            Err(e) => {
                let mut path = joined(instance.id().as_str(), "/");
                path.append(id.to_text().as_str());
                let entry = BrokenEntry { path, reason: e };
                result.broken.push(entry);
                proof {
                    assert(result.broken.deep_view() =~= broken.push(entry.deep_view()));
                }
            },
        }
        i = i + 1;
    }
    proof {
        assert(all.take(all.len() as int) =~= all);
    }
}

// ---------------------------------------------------------------------------
// Laws

/// Making an instance touches no other.
pub proof fn law_instances_are_apart(
    m: ManagerView,
    name: Seq<char>,
    spec: InstanceSpecView,
    now: u64,
    other: Seq<char>,
)
    requires
        other != name,
    ensures
        m.created(name, spec, now).0.instance(other) == m.instance(other),
{
    law_lookup_put(m.instances, named(name), m.made(name, spec, None, now), named(other));
}

/// The instances never grow beyond their bound.
pub proof fn law_instances_are_bounded(
    m: ManagerView,
    name: Seq<char>,
    spec: InstanceSpecView,
    now: u64,
)
    requires
        m.wf(),
    ensures
        m.created(name, spec, now).0.wf(),
        m.instances.len() >= m.config.max_instances ==> m.created(name, spec, now).1 is Some,
{
    lemma_put_distinct(m.instances, named(name), m.made(name, spec, None, now));
}

/// A stopped instance has told every round under way to stop.
pub proof fn law_stop_reaches_every_round(i: InstanceView, k: int)
    requires
        0 <= k < i.engine.sessions.len(),
        i.engine.sessions[k].1.busy(),
    ensures
        i.stopped().engine.sessions[k].1.interrupt,
        i.stopped().engine.sessions[k].0 == i.engine.sessions[k].0,
{
}

/// What one instance has used counts for the others: once its count is
/// collected, every instance that is lent the budget goes on from it.
pub proof fn law_budget_is_shared(m: ManagerView, i: int, j: int)
    requires
        0 <= i < m.instances.len(),
        0 <= j < m.instances.len(),
    ensures
        m.collected(i).lent(j).instances[j].1.engine.total == m.instances[i].1.engine.total,
{
}

/// What was made is recovered: an instance whose name is free, for which there
/// is room and whose vendor can be asked is there again.
pub proof fn law_recovered_is_there(
    m: ManagerView,
    specs: Seq<(Seq<char>, InstanceSpecView)>,
    now: u64,
    result: RecoveryView,
)
    requires
        specs.len() > 0,
        m.recovered(specs.drop_last(), now, result).0.refusal(
            Ok(specs.last().0),
            specs.last().1,
            false,
        ) is None,
    ensures
        m.recovered(specs, now, result).0.instance(specs.last().0) is Some,
{
    let (before, _) = m.recovered(specs.drop_last(), now, result);
    let made = before.made(specs.last().0, specs.last().1, None, now);
    law_lookup_put(before.instances, named(specs.last().0), made, named(specs.last().0));
}

} // verus!
