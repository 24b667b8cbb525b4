//! The views of the library's values say what their fields hold, each under its own name.

use vstd::prelude::*;
use vstd::string::*;

use crate::aura::args::Args;
use crate::aura::instance::{BrokenEntry, RecoveryResult};
use crate::aura::protocol::{InstanceInfo, InstanceSpec, ProviderConfig, ProviderConfigView, ServerError, SessionInfo};
use crate::aura::tools::{FsToolConfig, InstanceTools};
use crate::aura::tui::app::{App, ChatEvent, ChatEventView, ChatLine, CreateForm};
use crate::cache::{CacheEntry, CacheKey};
use crate::engine::{ChatStep, ChatStepView, EngineConfig, ProviderInfo, ToolRound};
use crate::engine::stream::{DeltaEvent, DeltaEventView, StreamAccumulator};
use crate::observe::Metric;
use crate::prompt::{PromptFragment, PromptFragmentView, PromptParts, SystemSection};
use crate::provider::chunks::ChunkState;
use crate::provider::draft::Draft;
use crate::provider::registry::ProviderStatus;
use crate::provider::sse::MappedEvent;
use crate::session::{OutcomeView, RoundStart, SessionConfig, SessionState, StateView, TurnOutcome};
use crate::session::log::SessionLog;
use crate::session::message::{ChatOptions, ChatPayload, MessageError, MessageErrorView, SessionMessage, SessionMessageView, SessionReply, SessionReplyView};
use crate::store::StoredValue;
use crate::tool::definition::{ToolError, ToolErrorView, ToolInfo};
use crate::tool::executor::{ExecutedTool, ToolEnd, ToolEndView};
use crate::aura::tui::keys::{Request, RequestView};
use crate::engine::reply::{EngineError, EngineErrorView, EngineReply, EngineReplyView};
use crate::tool::registry::{RegistryError, RegistryErrorView};

verus! {

/// What the view of the settings of a run says.
pub proof fn law_args_view(x: Args)
    ensures
        x.deep_view().state_dir == x.state_dir.deep_view(),
        x.deep_view().bind == x.bind.deep_view(),
        x.deep_view().http_bind == x.http_bind.deep_view(),
        x.deep_view().max_instances == x.max_instances,
        x.deep_view().max_sessions == x.max_sessions,
{
}

/// What the view of the recovery result says.
pub proof fn law_recovery_result_view(x: RecoveryResult)
    ensures
        x.deep_view().instances == x.recovered_instances,
        x.deep_view().sessions == x.recovered_sessions,
        x.deep_view().broken == x.broken.deep_view(),
{
}

/// What the view of the server error says.
pub proof fn law_server_error_view(x: ServerError)
    ensures
        x.deep_view().code == x.code,
        x.deep_view().message == x.message@,
{
}

/// What the view of the instance info says.
pub proof fn law_instance_info_view(x: InstanceInfo)
    ensures
        x.deep_view().id == x.id.deep_view(),
        x.deep_view().model == x.model@,
        x.deep_view().state == x.state,
        x.deep_view().sessions == x.sessions,
        x.deep_view().max_sessions == x.max_sessions,
        x.deep_view().consumed_tokens == x.consumed_tokens,
        x.deep_view().cache_entries == x.cache_entries,
        x.deep_view().created_at == x.created_at@,
{
}

/// What the view of the session info says.
pub proof fn law_session_info_view(x: SessionInfo)
    ensures
        x.deep_view().id == x.id@,
        x.deep_view().messages == x.messages,
        x.deep_view().phase == x.phase@,
        x.deep_view().consumed_tokens == x.consumed_tokens,
{
}

/// What the view of the instance spec says.
pub proof fn law_instance_spec_view(x: InstanceSpec)
    ensures
        x.deep_view().model == x.model@,
        x.deep_view().sections == x.sections.deep_view(),
        x.deep_view().engine == x.engine.deep_view(),
        x.deep_view().provider == x.provider.deep_view(),
{
}

/// What the view of the file tools' settings says.
pub proof fn law_fs_tool_config_view(x: FsToolConfig)
    ensures
        x.deep_view().root == x.root.deep_view(),
        x.deep_view().max_file_bytes == x.max_file_bytes,
        x.deep_view().default_limit_chars == x.default_limit_chars,
{
}

/// What the view of the instance tools says.
pub proof fn law_instance_tools_view(x: InstanceTools)
    ensures
        x.deep_view().fs == x.fs.deep_view(),
        x.deep_view().artifact == x.artifact,
{
}

/// What the view of the chat line says.
pub proof fn law_chat_line_view(x: ChatLine)
    ensures
        x.deep_view().role == x.role,
        x.deep_view().text == x.text@,
        x.deep_view().reasoning == x.reasoning@,
        x.deep_view().show_thinking == x.show_thinking,
{
}

/// What the view of the create form says.
pub proof fn law_create_form_view(x: CreateForm)
    ensures
        x.deep_view().id == x.id@,
        x.deep_view().description == x.description@,
        x.deep_view().model == x.model@,
        x.deep_view().template == x.template@,
        x.deep_view().provider == x.provider@,
        x.deep_view().api_key == x.api_key@,
        x.deep_view().root == x.root@,
{
}

/// What the view of the screen says.
pub proof fn law_app_view(x: App)
    ensures
        x.deep_view().should_quit == x.should_quit,
        x.deep_view().status == x.status@,
        x.deep_view().status_error == x.status_error,
        x.deep_view().modal == x.modal,
        x.deep_view().needs_refresh == x.needs_refresh,
        x.deep_view().tick == x.tick,
        x.deep_view().cwd == x.cwd@,
        x.deep_view().instances == x.instances.deep_view(),
        x.deep_view().instance_selected == x.instance_selected,
        x.deep_view().instance_id == x.instance_id@,
        x.deep_view().instance_model == x.instance_model@,
        x.deep_view().consumed_tokens == x.consumed_tokens,
        x.deep_view().sessions == x.sessions.deep_view(),
        x.deep_view().session_selected == x.session_selected,
        x.deep_view().session_id == x.session_id@,
        x.deep_view().chat_lines == x.chat_lines.deep_view(),
        x.deep_view().chat_input == x.chat_input@,
        x.deep_view().input_cursor == x.input_cursor,
        x.deep_view().chat_history == x.chat_history.deep_view(),
        x.deep_view().history_index == x.history_index,
        x.deep_view().chat_scroll == x.chat_scroll,
        x.deep_view().chat_active == x.chat_active,
        x.deep_view().chat_open == x.chat_open,
        x.deep_view().form == x.form.deep_view(),
        x.deep_view().form_field == x.form_field,
        x.deep_view().templates == x.templates.deep_view(),
{
}

/// What the view of the cache entry says.
pub proof fn law_cache_entry_view(x: CacheEntry)
    ensures
        x.deep_view().response == x.response.deep_view(),
        x.deep_view().created_at == x.created_at,
{
}

/// What the view of the provider info says.
pub proof fn law_provider_info_view(x: ProviderInfo)
    ensures
        x.deep_view().id == x.id.deep_view(),
        x.deep_view().capabilities == x.capabilities,
        x.deep_view().model_spec == x.model_spec,
{
}

/// What the view of the engine config says.
pub proof fn law_engine_config_view(x: EngineConfig)
    ensures
        x.deep_view().session == x.session.deep_view(),
        x.deep_view().budget == x.budget,
        x.deep_view().cache == x.cache,
        x.deep_view().max_sessions == x.max_sessions,
        x.deep_view().max_subagent_depth == x.max_subagent_depth,
        x.deep_view().max_retries == x.max_retries,
{
}

/// What the view of the tool round says.
pub proof fn law_tool_round_view(x: ToolRound)
    ensures
        x.deep_view().turn_id == x.turn_id,
        x.deep_view().response == x.response.deep_view(),
        x.deep_view().waiting == x.waiting.deep_view(),
        x.deep_view().dispatched == x.dispatched.deep_view(),
        x.deep_view().refused == x.refused,
        x.deep_view().depth == x.depth,
        x.deep_view().serial == x.serial,
{
}

/// What the view of the stream accumulator says.
pub proof fn law_stream_accumulator_view(x: StreamAccumulator)
    ensures
        x.deep_view().draft == x.draft.deep_view(),
{
}

/// What the view of a metric says.
pub proof fn law_metric_view(x: Metric)
    ensures
        x.deep_view().name == x.name@,
{
}

/// What the view of the prompt parts says.
pub proof fn law_prompt_parts_view(x: PromptParts)
    ensures
        x.deep_view().system == x.system.deep_view(),
        x.deep_view().tools == x.tools.deep_view(),
        x.deep_view().history == x.history.deep_view(),
        x.deep_view().memory == x.memory.deep_view(),
        x.deep_view().artifacts == x.artifacts.deep_view(),
        x.deep_view().temperature == x.temperature.deep_view(),
        x.deep_view().max_tokens == x.max_tokens,
        x.deep_view().thinking == x.thinking,
        x.deep_view().prompt_budget == x.prompt_budget,
{
}

/// What the view of the system section says.
pub proof fn law_system_section_view(x: SystemSection)
    ensures
        x.deep_view().stable == x.stable,
        x.deep_view().text == x.text@,
        x.deep_view().omit_if_empty == x.omit_if_empty,
{
}

/// What the view of the chunk state says.
pub proof fn law_chunk_state_view(x: ChunkState)
    ensures
        x.deep_view().pending_finish == x.pending_finish.deep_view(),
        x.deep_view().pending_usage == x.pending_usage,
        x.deep_view().finish_emitted == x.finish_emitted,
{
}

/// What the view of the draft says.
pub proof fn law_draft_view(x: Draft)
    ensures
        x.deep_view().content == x.content@,
        x.deep_view().reasoning == x.reasoning@,
        x.deep_view().role == x.role,
        x.deep_view().calls == x.calls.deep_view(),
{
}

/// What the view of the provider status says.
pub proof fn law_provider_status_view(x: ProviderStatus)
    ensures
        x.deep_view().id == x.id.deep_view(),
        x.deep_view().healthy == x.healthy,
        x.deep_view().error == x.error.deep_view(),
{
}

/// What the view of the mapped event says.
pub proof fn law_mapped_event_view(x: MappedEvent)
    ensures
        x.deep_view().meta == x.meta.deep_view(),
{
}

/// What the view of the session log says.
pub proof fn law_session_log_view(x: SessionLog)
    ensures
        x.deep_view().facts == x.facts.deep_view(),
        x.deep_view().max_events == x.max_events,
{
}

/// What the view of the chat options says.
pub proof fn law_chat_options_view(x: ChatOptions)
    ensures
        x.deep_view().tools == x.tools.deep_view(),
        x.deep_view().temperature == x.temperature.deep_view(),
        x.deep_view().max_tokens == x.max_tokens,
        x.deep_view().thinking == x.thinking,
        x.deep_view().system_prompt == x.system_prompt.deep_view(),
{
}

/// What the view of the chat payload says.
pub proof fn law_chat_payload_view(x: ChatPayload)
    ensures
        x.deep_view().message == x.message.deep_view(),
        x.deep_view().options == x.options.deep_view(),
        x.deep_view().peer_depth == x.peer_depth,
{
}

/// What the view of the session config says.
pub proof fn law_session_config_view(x: SessionConfig)
    ensures
        x.deep_view().max_history == x.max_history,
        x.deep_view().max_events == x.max_events,
        x.deep_view().timeout == x.timeout,
        x.deep_view().default_temperature == x.default_temperature.deep_view(),
        x.deep_view().default_max_tokens == x.default_max_tokens,
        x.deep_view().prompt_budget_tokens == x.prompt_budget_tokens,
        x.deep_view().default_system_prompt == x.default_system_prompt.deep_view(),
        x.deep_view().idle_timeout == x.idle_timeout,
        x.deep_view().max_rounds_per_chat == x.max_rounds_per_chat,
{
}

/// What the view of the round start says.
pub proof fn law_round_start_view(x: RoundStart)
    ensures
        x.deep_view().turn_id == x.turn_id,
        x.deep_view().request == x.request.deep_view(),
{
}

/// What the view of the stored value says.
pub proof fn law_stored_value_view(x: StoredValue)
    ensures
        x.deep_view().content_type == x.content_type@,
        x.deep_view().bytes == x.bytes@,
        x.deep_view().created_at == x.created_at,
{
}

/// What the view of the tool info says.
pub proof fn law_tool_info_view(x: ToolInfo)
    ensures
        x.deep_view().name == x.name@,
        x.deep_view().description == x.description@,
        x.deep_view().input_schema == x.input_schema.deep_view(),
        x.deep_view().default_wait == x.default_wait,
        x.deep_view().terminal == x.terminal,
        x.deep_view().depth_limited == x.depth_limited,
        x.deep_view().category == x.category,
{
}

/// What the view of the executed tool says.
pub proof fn law_executed_tool_view(x: ExecutedTool)
    ensures
        x.deep_view().tool_call_id == x.tool_call_id@,
        x.deep_view().tool_name == x.tool_name@,
        x.deep_view().result == x.result@,
        x.deep_view().outcome == x.outcome,
        x.deep_view().failed == x.failed,
        x.deep_view().duration_ms == x.duration_ms,
{
}

/// What the view of a provider's settings says.
pub proof fn law_provider_config_view(x: ProviderConfig)
    ensures
        x matches ProviderConfig::DeepSeek { api_key, base_url, model } ==> x.deep_view()
            == ProviderConfigView::DeepSeek(api_key@, base_url.deep_view(), model.deep_view()),
        x matches ProviderConfig::XiaoMi { api_key, base_url } ==> x.deep_view()
            == ProviderConfigView::XiaoMi(api_key@, base_url.deep_view()),
        x matches ProviderConfig::OpenAI { api_key, base_url, model } ==> x.deep_view()
            == ProviderConfigView::OpenAI(api_key@, base_url.deep_view(), model@),
{
}

/// What the view of a broken entry, and of a key of the cache, says.
pub proof fn law_entry_views(b: BrokenEntry, k: CacheKey)
    ensures
        b.deep_view().0 == b.path@,
        b.deep_view().1 == b.reason@,
        k.deep_view().0 == k.provider@,
        k.deep_view().1 == k.content_hash,
        k.deep_view().2 == k.params_hash,
{
}

/// What the view of a chat event says.
pub proof fn law_chat_event_view(x: ChatEvent)
    ensures
        x matches ChatEvent::Delta { content, reasoning } ==> x.deep_view()
            == ChatEventView::Delta(content@, reasoning@),
        x matches ChatEvent::Finish { reason } ==> x.deep_view() == ChatEventView::Finish(reason@),
        x matches ChatEvent::Error { message } ==> x.deep_view() == ChatEventView::Error(message@),
{
}

/// What the view of a request of the screen says.
pub proof fn law_request_view(x: Request)
    ensures
        x is Nothing <==> x.deep_view() is Nothing,
        x is Interrupt <==> x.deep_view() is Interrupt,
        x is Instances <==> x.deep_view() is Instances,
        x is Sessions <==> x.deep_view() is Sessions,
        x is Attach <==> x.deep_view() is Attach,
        x matches Request::Create(j) ==> x.deep_view() == RequestView::Create(j.deep_view()),
        x matches Request::Chat(s) ==> x.deep_view() == RequestView::Chat(s@),
{
}

/// What the view of a step of a chat says.
pub proof fn law_chat_step_view(x: ChatStep)
    ensures
        x matches ChatStep::Call { turn_id, request, key } ==> x.deep_view() == ChatStepView::Call(
            turn_id,
            request.deep_view(),
            key.deep_view(),
        ),
        x matches ChatStep::Tools(t) ==> x.deep_view() == ChatStepView::Tools(t.deep_view()),
        x matches ChatStep::Done(r) ==> x.deep_view() == ChatStepView::Done(r.deep_view()),
{
}

/// What the view of an engine's error says.
pub proof fn law_engine_error_view(x: EngineError)
    ensures
        x matches EngineError::Llm(e) ==> x.deep_view() == EngineErrorView::Llm(e.deep_view()),
        x matches EngineError::StateConflict(s) ==> x.deep_view() == EngineErrorView::StateConflict(
            s@,
        ),
        x is TurnIncomplete <==> x.deep_view() is TurnIncomplete,
        x is ChannelClosed <==> x.deep_view() is ChannelClosed,
        x matches EngineError::MaxRoundsExceeded { rounds } ==> x.deep_view()
            == EngineErrorView::MaxRoundsExceeded(rounds),
{
}

/// What the view of an engine's reply says.
pub proof fn law_engine_reply_view(x: EngineReply)
    ensures
        x matches EngineReply::Success(r) ==> x.deep_view() == EngineReplyView::Success(
            r.deep_view(),
        ),
        x is Streaming <==> x.deep_view() is Streaming,
        x matches EngineReply::Busy { turn_id } ==> x.deep_view() == EngineReplyView::Busy(turn_id),
        x matches EngineReply::Error(e) ==> x.deep_view() == EngineReplyView::Error(e.deep_view()),
        x is Cancelled <==> x.deep_view() is Cancelled,
        x is Timeout <==> x.deep_view() is Timeout,
{
}

/// What the view of a streamed event says: what was thought is told apart from what was
/// said.
pub proof fn law_delta_event_view(x: DeltaEvent)
    ensures
        x matches DeltaEvent::Thinking(s) ==> x.deep_view() == DeltaEventView::Thinking(s@),
        x matches DeltaEvent::Text(s) ==> x.deep_view() == DeltaEventView::Text(s@),
{
}

/// What the view of a fragment of a prompt says.
pub proof fn law_prompt_fragment_view(x: PromptFragment)
    ensures
        x matches PromptFragment::System(m) ==> x.deep_view() == PromptFragmentView::System(
            m.deep_view(),
        ),
        x matches PromptFragment::Tools(t) ==> x.deep_view() == PromptFragmentView::Tools(
            t.deep_view(),
        ),
        x matches PromptFragment::History(m) ==> x.deep_view() == PromptFragmentView::History(
            m.deep_view(),
        ),
        x matches PromptFragment::Memory(m) ==> x.deep_view() == PromptFragmentView::Memory(
            m.deep_view(),
        ),
        x matches PromptFragment::Artifacts(m) ==> x.deep_view() == PromptFragmentView::Artifacts(
            m.deep_view(),
        ),
{
}

/// What the view of what is asked of a session says.
pub proof fn law_session_message_view(x: SessionMessage)
    ensures
        x matches SessionMessage::Chat { session_id, payload } ==> x.deep_view()
            == SessionMessageView::Chat(session_id, payload.deep_view()),
        x matches SessionMessage::Interrupt { session_id } ==> x.deep_view()
            == SessionMessageView::Interrupt(session_id),
        x matches SessionMessage::ToolResult { session_id, turn_id, tool_call_id, result }
            ==> x.deep_view() == SessionMessageView::ToolResult(
            session_id,
            turn_id,
            tool_call_id@,
            result@,
        ),
        x matches SessionMessage::Resume { session_id, turn_id } ==> x.deep_view()
            == SessionMessageView::Resume(session_id, turn_id),
{
}

/// What the view of an answer of a session says.
pub proof fn law_session_reply_view(x: SessionReply)
    ensures
        x matches SessionReply::Success { id, model, message, finish_reason, usage } ==> (
        x.deep_view() matches SessionReplyView::Success(r) && r.id == id@ && r.model == model@
            && r.message == message.deep_view() && r.finish_reason == finish_reason.deep_view()
            && r.usage == usage),
        x matches SessionReply::Busy { turn_id } ==> x.deep_view() == SessionReplyView::Busy(
            turn_id,
        ),
        x matches SessionReply::Error { message, kind, retry_after_ms } ==> x.deep_view()
            == SessionReplyView::Error(message@, kind, retry_after_ms),
        x is Cancelled <==> x.deep_view() is Cancelled,
        x matches SessionReply::Unhandled { reason } ==> x.deep_view()
            == SessionReplyView::Unhandled(reason@),
{
}

/// What the view of what is wrong with a kept message says.
pub proof fn law_message_error_view(x: MessageError)
    ensures
        x matches MessageError::MissingKey(k) ==> x.deep_view() == MessageErrorView::MissingKey(k@),
        x matches MessageError::Decode(e) ==> x.deep_view() == MessageErrorView::Decode(e@),
{
}

/// What the view of a session's state says.
pub proof fn law_session_state_view(x: SessionState)
    ensures
        x is Idle <==> x.deep_view() is Idle,
        x matches SessionState::Thinking { turn_id, cancel } ==> (
        x.deep_view() matches StateView::Thinking { turn_id: t, cancel: c } && t == turn_id && c
            == cancel),
        x matches SessionState::AwaitingCalls { turn_id, pending, tool_results } ==> (
        x.deep_view() matches StateView::AwaitingCalls { turn_id: t, pending: p, tool_results: r }
            && t == turn_id && p == pending.deep_view() && r == tool_results.deep_view()),
{
}

/// What the view of the outcome of a turn says.
pub proof fn law_turn_outcome_view(x: TurnOutcome)
    ensures
        x matches TurnOutcome::Success(r) ==> x.deep_view() == OutcomeView::Success(r.deep_view()),
        x matches TurnOutcome::Cached(r) ==> x.deep_view() == OutcomeView::Cached(r.deep_view()),
        x matches TurnOutcome::Error(e) ==> x.deep_view() == OutcomeView::Error(e.deep_view()),
        x is Cancelled <==> x.deep_view() is Cancelled,
        x is Timeout <==> x.deep_view() is Timeout,
        x matches TurnOutcome::Panic(s) ==> x.deep_view() == OutcomeView::Panic(s@),
{
}

/// What the view of a tool's error, and of how a tool ended, says.
pub proof fn law_tool_end_view(e: ToolError, x: ToolEnd)
    ensures
        e matches ToolError::Execution(s) ==> e.deep_view() == ToolErrorView::Execution(s@),
        e is Timeout <==> e.deep_view() is Timeout,
        e matches ToolError::Panic(s) ==> e.deep_view() == ToolErrorView::Panic(s@),
        x matches ToolEnd::Output(s) ==> x.deep_view() == ToolEndView::Output(s@),
        x matches ToolEnd::Failed(f) ==> x.deep_view() == ToolEndView::Failed(f.deep_view()),
        x is TimedOut <==> x.deep_view() is TimedOut,
        x matches ToolEnd::Panicked(s) ==> x.deep_view() == ToolEndView::Panicked(s@),
        x is PanickedBefore <==> x.deep_view() is PanickedBefore,
        x is NotFound <==> x.deep_view() is NotFound,
        x is NoPermit <==> x.deep_view() is NoPermit,
{
}

/// What the view of a registry's error says.
pub proof fn law_registry_error_view(x: RegistryError)
    ensures
        x matches RegistryError::Duplicate(s) ==> x.deep_view() == RegistryErrorView::Duplicate(s@),
        x matches RegistryError::Full(n) ==> x.deep_view() == RegistryErrorView::Full(n),
        x is NotEnabled <==> x.deep_view() is NotEnabled,
        x matches RegistryError::TerminalRequiresWait(s) ==> x.deep_view()
            == RegistryErrorView::TerminalRequiresWait(s@),
{
}

} // verus!
