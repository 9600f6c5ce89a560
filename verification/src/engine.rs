//! The hybrid routing engine: a strict four-stage fallback chain — on-device
//! inference with a temperature ladder, keyword heuristic, cloud fallback
//! with bounded retries, and a final degraded guess — driven as a state
//! machine.  The machine makes every decision; the host performs the
//! outside work each action asks for (an inference attempt, a tool
//! execution, a cloud call) and feeds the outcome back as an event.

use vstd::prelude::*;
use vstd::string::StringExecFns;
use crate::heuristic::args_match;
use crate::heuristic::heuristic_model;
use crate::heuristic::local_route;
use crate::registry::ModuleRegistry;
use crate::registry::module_name_model;
use crate::registry::modules_tools_model;
use crate::registry::scoped_tools_model;
use crate::schema::ArgPair;
use crate::schema::ArgVal;
use crate::schema::ArgValue;
use crate::schema::FunctionCall;
use crate::schema::ToolDefinition;
use crate::schema::ToolModel;
use crate::schema::ToolResult;
use crate::schema::arg_model;
use crate::schema::call_model;
use crate::schema::calls_model;
use crate::schema::escalates_model;
use crate::schema::result_model;
use crate::schema::tools_model;
use crate::text::views_of;
use crate::validate::validate_spec;
use crate::validate::validate_local_result;

verus! {

/// One chat message handed to the inference capability.
pub struct ChatMessage {
    pub role: String,
    pub content: String,
}

/// Sampling options for one on-device attempt; temperature in hundredths.
pub struct InferenceOptions {
    pub force_tools: bool,
    pub max_tokens: u32,
    pub temperature: u32,
    pub stop_sequences: Vec<String>,
    pub tool_rag_top_k: u32,
}

/// One request to the on-device capability: reset its conversational
/// state, then run one completion.
pub struct InferenceRequest {
    pub messages: Vec<ChatMessage>,
    pub options: InferenceOptions,
    pub tools: Vec<ToolDefinition>,
}

/// A parsed on-device reply: a confidence in hundredths and the proposed
/// calls.
pub struct OnDeviceReply {
    pub confidence: u32,
    pub calls: Vec<FunctionCall>,
}

/// The outcome of one cloud attempt.
pub enum CloudOutcome {
    /// The cloud answered with zero or more calls.
    Answered(Vec<FunctionCall>),
    /// No credential is configured: do not retry.
    Unavailable,
    /// The attempt failed in transport or decoding: retry with backoff.
    TransportFailed,
}

/// What the machine asks the host to do next.
pub enum RouteAction {
    /// Reset the on-device capability and run one completion.
    Infer(InferenceRequest),
    /// Execute the named tool.
    ExecuteTool { name: String, arguments: ArgValue },
    /// Wait `delay_ms` milliseconds, then call the cloud capability once.
    CallCloud { delay_ms: u64 },
    /// The chain has terminated.
    Done(RouteResult),
}

/// What the host reports back after performing an action.
pub enum RouteEvent {
    /// The on-device reply, parsed; `None` for a failed or unusable attempt.
    InferReply(Option<OnDeviceReply>),
    /// The executed tool's result.
    ToolDone(ToolResult),
    /// The outcome of the cloud attempt.
    CloudReply(CloudOutcome),
}

/// The terminal outcome of routing one query.
pub struct RouteResult {
    pub tool_name: String,
    pub arguments: ArgValue,
    /// "on-device" or "cloud (fallback)".
    pub source: String,
    /// Confidence in hundredths.
    pub confidence: u32,
    /// The executed tool's result; absent only when every stage was
    /// exhausted and the heuristic's guess is returned un-executed.
    pub tool_result: Option<ToolResult>,
}

/// The heuristic's guess, kept for the fallback stages.
pub struct KwGuess {
    pub name: String,
    pub args: ArgValue,
    pub confidence: u32,
}

/// Where the chain stands: which event it is waiting for.
pub enum Phase {
    /// Waiting for the on-device reply at rung `idx` of the ladder.
    Infer { idx: usize },
    /// Waiting for the result of the on-device stage's accepted call.
    ExecOnDevice { name: String, args: ArgValue, confidence: u32 },
    /// Waiting for the result of the heuristic's call.
    ExecHeuristic,
    /// Waiting for the cloud attempt number `attempt`.
    Cloud { attempt: u32 },
    /// Waiting for the result of the cloud's call.
    ExecCloud { name: String, args: ArgValue },
    /// A decision has been returned.
    Finished,
}

/// The ascending temperature ladder, in hundredths.
pub open spec fn ladder() -> Seq<int> {
    seq![0, 30, 70]
}

/// The number of cloud attempts before giving up.
pub open spec fn cloud_attempts() -> int {
    3
}

/// The fixed system instruction of the on-device stage.
pub open spec fn system_prompt() -> Seq<char> {
    "You are a function calling AI assistant. Analyze the user request and call the appropriate function with the correct arguments. Always respond with a function call."@
}

/// One routing request in flight.
pub struct RouteSession {
    pub text: String,
    pub scope: Option<String>,
    pub tools: Vec<ToolDefinition>,
    pub phase: Phase,
    pub kw: Option<KwGuess>,
    pub cloud_unavailable: bool,
}

/// The scope as a mathematical value.
pub open spec fn scope_view(s: RouteSession) -> Option<Seq<char>> {
    match s.scope {
        Some(m) => Some(m@),
        None => None,
    }
}

/// A tool is allowed under the scope: it belongs to the scoped module when
/// a scope is set, else it simply is registered.
pub open spec fn allowed_spec(reg: ModuleRegistry, scope: Option<Seq<char>>, name: Seq<char>) -> bool {
    match scope {
        Some(mn) => match reg.owner_of(name) {
            Some(o) => module_name_model(reg.modules_view()[o]) == mn,
            None => false,
        },
        None => reg.has_tool_spec(name),
    }
}

/// The stored heuristic guess realises the heuristic's decision for the text.
pub open spec fn kw_matches(k: KwGuess, text: Seq<char>) -> bool {
    &&& k.name@ == heuristic_model(text).name
    &&& args_match(arg_model(k.args), heuristic_model(text).args)
    &&& k.confidence as int == heuristic_model(text).confidence
}

impl RouteSession {
    /// The session's structural invariant: the ladder index is on the
    /// ladder, and each stage past the heuristic keeps the heuristic's
    /// guess, which realises the heuristic's decision for the text.
    pub open spec fn wf(&self) -> bool {
        &&& match self.phase {
            Phase::Infer { idx } => idx < ladder().len(),
            _ => true,
        }
        &&& match self.phase {
            Phase::ExecHeuristic | Phase::Cloud { .. } | Phase::ExecCloud { .. } => self.kw
                is Some,
            _ => true,
        }
        &&& match self.kw {
            Some(k) => kw_matches(k, self.text@),
            None => true,
        }
        &&& match self.phase {
            Phase::Cloud { attempt } => attempt < cloud_attempts(),
            _ => true,
        }
    }

    /// The phase accepts this event.
    pub open spec fn expects(&self, e: RouteEvent) -> bool {
        match self.phase {
            Phase::Infer { .. } => e is InferReply,
            Phase::ExecOnDevice { .. } => e is ToolDone,
            Phase::ExecHeuristic => e is ToolDone,
            Phase::Cloud { .. } => e is CloudReply,
            Phase::ExecCloud { .. } => e is ToolDone,
            Phase::Finished => false,
        }
    }
}

/// The Validator accepts the reply against the session's tool universe and
/// original text.
pub open spec fn accepted_reply(s: RouteSession, rep: OnDeviceReply) -> bool {
    validate_spec(calls_model(rep.calls@), rep.confidence as int, s.tools@, s.text@)
}

/// The request the machine builds for rung `temperature`.
pub open spec fn request_matches(
    req: InferenceRequest,
    temperature: int,
    text: Seq<char>,
    tools: Seq<ToolModel>,
) -> bool {
    &&& req.messages@.len() == 2
    &&& req.messages@[0].role@ == "system"@
    &&& req.messages@[0].content@ == system_prompt()
    &&& req.messages@[1].role@ == "user"@
    &&& req.messages@[1].content@ == text
    &&& req.options.force_tools == true
    &&& req.options.max_tokens == 256
    &&& req.options.temperature as int == temperature
    &&& views_of(req.options.stop_sequences@) == seq!["<|im_end|>"@, "<end_of_turn>"@]
    &&& req.options.tool_rag_top_k == 2
    &&& tools_model(req.tools@) == tools
}

/// The session's fields other than phase, guess and the credential flag
/// are unchanged.
pub open spec fn frame_ok(pre: RouteSession, post: RouteSession) -> bool {
    &&& post.text@ == pre.text@
    &&& scope_view(post) == scope_view(pre)
    &&& post.tools == pre.tools
}

/// Entering the heuristic stage: the guess is computed and kept; with
/// confidence above 0.50 and an allowed tool it is executed, else the
/// chain moves to the cloud stage.
pub open spec fn heuristic_entry(
    pre: RouteSession,
    reg: ModuleRegistry,
    post: RouteSession,
    action: RouteAction,
) -> bool {
    let g = heuristic_model(pre.text@);
    &&& frame_ok(pre, post)
    &&& post.cloud_unavailable == pre.cloud_unavailable
    &&& post.kw matches Some(k) && kw_matches(k, pre.text@)
    &&& if g.confidence > 50 && allowed_spec(reg, scope_view(pre), g.name) {
        &&& post.phase is ExecHeuristic
        &&& action matches RouteAction::ExecuteTool { name, arguments } && name@ == g.name
            && args_match(arg_model(arguments), g.args)
    } else {
        &&& post.phase matches Phase::Cloud { attempt } && attempt == 0
        &&& action matches RouteAction::CallCloud { delay_ms } && delay_ms == 0
    }
}

/// The degraded terminal decision: the heuristic's own guess, un-executed,
/// tagged as cloud fallback, annotated when no cloud credential was
/// configured.
pub open spec fn exhausted_done(
    pre: RouteSession,
    post: RouteSession,
    action: RouteAction,
    no_key: bool,
) -> bool {
    let g = heuristic_model(pre.text@);
    &&& frame_ok(pre, post)
    &&& post.phase is Finished
    &&& post.cloud_unavailable == no_key
    &&& action matches RouteAction::Done(rr) && rr.tool_name@ == g.name && rr.source@ == "cloud (fallback)"@
        && rr.confidence as int == g.confidence && rr.tool_result is None && arg_model(
        rr.arguments,
    ) == annotate_no_key(g.args, no_key)
}

/// The exhausted decision's arguments: the guess's bindings, with a
/// `no_api_key` mark appended when no cloud credential was configured.
pub open spec fn annotate_no_key(args: Seq<(Seq<char>, Seq<char>)>, no_key: bool) -> ArgVal {
    let entries = args.map_values(|p: (Seq<char>, Seq<char>)| (p.0, ArgVal::Text(p.1)));
    if no_key {
        ArgVal::Obj(entries.push(("no_api_key"@, ArgVal::Bool(true))))
    } else {
        ArgVal::Obj(entries)
    }
}

/// The complete transition relation of the chain: what each event does to
/// the session, and which action comes back.
pub open spec fn step_relation(
    pre: RouteSession,
    reg: ModuleRegistry,
    event: RouteEvent,
    post: RouteSession,
    action: RouteAction,
) -> bool {
    match pre.phase {
        Phase::Infer { idx } => match event {
            RouteEvent::InferReply(orep) => {
                if orep matches Some(rep) && accepted_reply(pre, rep) && allowed_spec(
                    reg,
                    scope_view(pre),
                    call_model(rep.calls@[0]).name,
                ) {
                    let c0 = call_model(orep->0.calls@[0]);
                    &&& frame_ok(pre, post)
                    &&& post.cloud_unavailable == pre.cloud_unavailable
                    &&& post.kw == pre.kw
                    &&& post.phase matches Phase::ExecOnDevice { name, args, confidence }
                        && name@ == c0.name && arg_model(args) == c0.args && confidence
                        == orep->0.confidence
                    &&& action matches RouteAction::ExecuteTool { name, arguments } && name@
                        == c0.name && arg_model(arguments) == c0.args
                } else if orep matches Some(rep) && accepted_reply(pre, rep) {
                    // accepted but not allowed under the scope: fall through
                    heuristic_entry(pre, reg, post, action)
                } else if idx + 1 < ladder().len() {
                    &&& frame_ok(pre, post)
                    &&& post.cloud_unavailable == pre.cloud_unavailable
                    &&& post.kw == pre.kw
                    &&& post.phase matches Phase::Infer { idx: j } && j == idx + 1
                    &&& action matches RouteAction::Infer(req) && request_matches(
                        req,
                        ladder()[idx + 1],
                        pre.text@,
                        tools_model(pre.tools@),
                    )
                } else {
                    heuristic_entry(pre, reg, post, action)
                }
            },
            _ => false,
        },
        Phase::ExecOnDevice { name, args, confidence } => match event {
            RouteEvent::ToolDone(res) => {
                if !escalates_model(result_model(res)) {
                    &&& frame_ok(pre, post)
                    &&& post.phase is Finished
                    &&& action matches RouteAction::Done(rr) && rr.tool_name@ == name@
                        && arg_model(rr.arguments) == arg_model(args) && rr.source@ == "on-device"@
                        && rr.confidence == confidence && (rr.tool_result matches Some(t)
                        && result_model(t) == result_model(res))
                } else {
                    // the tool asked to escalate: fall through to the
                    // heuristic stage
                    heuristic_entry(pre, reg, post, action)
                }
            },
            _ => false,
        },
        Phase::ExecHeuristic => match event {
            RouteEvent::ToolDone(res) => {
                let g = heuristic_model(pre.text@);
                &&& frame_ok(pre, post)
                &&& post.phase is Finished
                &&& action matches RouteAction::Done(rr) && rr.tool_name@ == g.name && args_match(
                    arg_model(rr.arguments),
                    g.args,
                ) && rr.source@ == "on-device"@ && rr.confidence as int == g.confidence && (
                rr.tool_result matches Some(t) && result_model(t) == result_model(res))
            },
            _ => false,
        },
        Phase::Cloud { attempt } => match event {
            RouteEvent::CloudReply(outcome) => match outcome {
                CloudOutcome::Answered(calls) => {
                    if calls@.len() > 0 && allowed_spec(
                        reg,
                        scope_view(pre),
                        call_model(calls@[0]).name,
                    ) {
                        let c0 = call_model(calls@[0]);
                        &&& frame_ok(pre, post)
                        &&& post.cloud_unavailable == pre.cloud_unavailable
                        &&& post.phase matches Phase::ExecCloud { name, args } && name@ == c0.name
                            && arg_model(args) == c0.args
                        &&& action matches RouteAction::ExecuteTool { name, arguments } && name@
                            == c0.name && arg_model(arguments) == c0.args
                    } else {
                        exhausted_done(pre, post, action, pre.cloud_unavailable)
                    }
                },
                CloudOutcome::Unavailable => exhausted_done(pre, post, action, true),
                CloudOutcome::TransportFailed => {
                    if attempt + 1 < cloud_attempts() {
                        &&& frame_ok(pre, post)
                        &&& post.cloud_unavailable == pre.cloud_unavailable
                        &&& post.kw == pre.kw
                        &&& post.phase matches Phase::Cloud { attempt: a } && a == attempt + 1
                        &&& action matches RouteAction::CallCloud { delay_ms } && delay_ms == (
                        attempt + 1) * 1000
                    } else {
                        exhausted_done(pre, post, action, pre.cloud_unavailable)
                    }
                },
            },
            _ => false,
        },
        Phase::ExecCloud { name, args } => match event {
            RouteEvent::ToolDone(res) => {
                &&& frame_ok(pre, post)
                &&& post.phase is Finished
                &&& action matches RouteAction::Done(rr) && rr.tool_name@ == name@ && arg_model(
                    rr.arguments,
                ) == arg_model(args) && rr.source@ == "cloud (fallback)"@ && rr.confidence == 100
                    && (rr.tool_result matches Some(t) && result_model(t) == result_model(res))
            },
            _ => false,
        },
        Phase::Finished => false,
    }
}

/// A bounded measure of how much of the chain is still ahead.
pub open spec fn chain_rank(s: RouteSession) -> int {
    match s.phase {
        Phase::Infer { idx } => 20 - idx,
        Phase::ExecOnDevice { .. } => 15,
        Phase::ExecHeuristic => 12,
        Phase::Cloud { attempt } => 10 - attempt,
        Phase::ExecCloud { .. } => 5,
        Phase::Finished => 0,
    }
}

/// The chain always terminates: every step either returns the terminal
/// decision or strictly decreases a rank bounded below, so only finitely
/// many events can ever be asked for.
pub proof fn lemma_chain_terminates(
    pre: RouteSession,
    reg: ModuleRegistry,
    event: RouteEvent,
    post: RouteSession,
    action: RouteAction,
)
    requires
        pre.wf(),
        step_relation(pre, reg, event, post, action),
    ensures
        (action is Done && post.phase is Finished) || 0 <= chain_rank(post) < chain_rank(pre),
{
}

/// Orchestrator short-circuiting: when an on-device attempt yields a
/// Validator-accepted reply whose first call is allowed under the scope,
/// and executing that call does not ask for cloud escalation, the chain
/// terminates on-device in exactly two steps — neither step's action is a
/// cloud call, so the cloud capability is never invoked.
pub proof fn lemma_on_device_short_circuit(
    pre: RouteSession,
    reg: ModuleRegistry,
    rep: OnDeviceReply,
    mid: RouteSession,
    a1: RouteAction,
    res: ToolResult,
    post: RouteSession,
    a2: RouteAction,
)
    requires
        pre.phase matches Phase::Infer { .. },
        accepted_reply(pre, rep),
        allowed_spec(reg, scope_view(pre), call_model(rep.calls@[0]).name),
        step_relation(pre, reg, RouteEvent::InferReply(Some(rep)), mid, a1),
        !escalates_model(result_model(res)),
        step_relation(mid, reg, RouteEvent::ToolDone(res), post, a2),
    ensures
        a1 is ExecuteTool,
        a2 matches RouteAction::Done(rr) && rr.source@ == "on-device"@ && (rr.tool_result
            matches Some(t) && result_model(t) == result_model(res)),
        post.phase is Finished,
{
}

/// The engine: the registry plus the routing entry point.  Routing is one
/// session per request: the host performs the outside work of each action
/// and feeds the outcome back with `RouteSession::step`.
pub struct HybridEngine {
    pub registry: ModuleRegistry,
}

impl HybridEngine {
    /// Create a new engine over a module registry.
    pub fn new(registry: ModuleRegistry) -> (r: Self)
        ensures
            r.registry == registry,
    {
        HybridEngine { registry }
    }

    /// Begin routing a query through the full hybrid chain, scoped to one
    /// module's tools when a filter is given.
    pub fn route(&self, user_input: String, module_filter: Option<String>) -> (r: (
        RouteSession,
        RouteAction,
    ))
        requires
            self.registry.wf(),
        ensures
            r.0.wf(),
            r.0.text@ == user_input@,
            scope_view(r.0) == match module_filter {
                Some(m) => Some(m@),
                None => None::<Seq<char>>,
            },
            tools_model(r.0.tools@) == match module_filter {
                Some(m) => scoped_tools_model(self.registry.modules_view(), m@),
                None => modules_tools_model(self.registry.modules_view()),
            },
            r.0.phase matches Phase::Infer { idx } && idx == 0,
            r.0.kw is None,
            r.0.cloud_unavailable == false,
            r.1 matches RouteAction::Infer(req) && request_matches(
                req,
                ladder()[0],
                user_input@,
                tools_model(r.0.tools@),
            ),
    {
        RouteSession::start(&self.registry, user_input, module_filter)
    }
}

/// Build the inference request for one rung of the ladder.
fn build_request(text: &String, tools: &Vec<ToolDefinition>, temperature: u32) -> (r:
    InferenceRequest)
    ensures
        request_matches(r, temperature as int, text@, tools_model(tools@)),
{
    let mut messages: Vec<ChatMessage> = Vec::new();
    messages.push(
        ChatMessage {
            role: String::from_str("system"),
            content: String::from_str(
                "You are a function calling AI assistant. Analyze the user request and call the appropriate function with the correct arguments. Always respond with a function call.",
            ),
        },
    );
    messages.push(ChatMessage { role: String::from_str("user"), content: text.clone() });
    let mut stop_sequences: Vec<String> = Vec::new();
    stop_sequences.push(String::from_str("<|im_end|>"));
    stop_sequences.push(String::from_str("<end_of_turn>"));
    let options = InferenceOptions {
        force_tools: true,
        max_tokens: 256,
        temperature,
        stop_sequences,
        tool_rag_top_k: 2,
    };
    let mut dup_tools: Vec<ToolDefinition> = Vec::new();
    let mut i: usize = 0;
    while i < tools.len()
        invariant
            i <= tools@.len(),
            dup_tools@.len() == i,
            forall|j: int|
                0 <= j < i ==> crate::schema::tool_model(#[trigger] dup_tools@[j])
                    == crate::schema::tool_model(tools@[j]),
        decreases tools@.len() - i,
    {
        dup_tools.push(tools[i].duplicate());
        i = i + 1;
    }
    let r = InferenceRequest { messages, options, tools: dup_tools };
    proof {
        assert(views_of(r.options.stop_sequences@) =~= seq!["<|im_end|>"@, "<end_of_turn>"@]);
        assert(tools_model(r.tools@) =~~= tools_model(tools@));
    }
    r
}

impl RouteSession {
    /// Is this tool allowed under the session's scope?
    fn tool_allowed(&self, registry: &ModuleRegistry, name: &str) -> (r: bool)
        requires
            registry.wf(),
        ensures
            r == allowed_spec(*registry, scope_view(*self), name@),
    {
        match &self.scope {
            Some(m) => registry.tool_belongs_to_module(name, m.as_str()),
            None => registry.has_tool(name),
        }
    }

    /// Run the heuristic, keep its guess, and either execute it or move on
    /// to the cloud stage.
    fn enter_heuristic(&mut self, registry: &ModuleRegistry) -> (action: RouteAction)
        requires
            registry.wf(),
        ensures
            final(self).wf(),
            heuristic_entry(*old(self), *registry, *final(self), action),
    {
        let (kw_name, kw_args, kw_conf) = local_route(self.text.as_str());
        let allowed = self.tool_allowed(registry, kw_name.as_str());
        if kw_conf > 50 && allowed {
            let action = RouteAction::ExecuteTool {
                name: kw_name.clone(),
                arguments: kw_args.duplicate(),
            };
            self.kw = Some(KwGuess { name: kw_name, args: kw_args, confidence: kw_conf });
            self.phase = Phase::ExecHeuristic;
            action
        } else {
            self.kw = Some(KwGuess { name: kw_name, args: kw_args, confidence: kw_conf });
            self.phase = Phase::Cloud { attempt: 0 };
            RouteAction::CallCloud { delay_ms: 0 }
        }
    }

    /// Return the degraded terminal decision of the exhausted chain.
    fn finish_exhausted(&mut self, no_key: bool) -> (action: RouteAction)
        requires
            old(self).wf(),
            old(self).kw is Some,
        ensures
            final(self).wf(),
            exhausted_done(*old(self), *final(self), action, no_key),
    {
        self.cloud_unavailable = no_key;
        let k = self.kw.as_ref().unwrap();
        let name = k.name.clone();
        let confidence = k.confidence;
        let mut args = k.args.duplicate();
        let ghost g = heuristic_model(self.text@);
        let ghost m0 = arg_model(args);
        if no_key {
            args = match args {
                ArgValue::Obj(mut pairs) => {
                    pairs.push(
                        ArgPair {
                            key: String::from_str("no_api_key"),
                            value: ArgValue::Bool(true),
                        },
                    );
                    ArgValue::Obj(pairs)
                },
                other => other,
            };
            proof {
                reveal_with_fuel(arg_model, 2);
                assert(arg_model(args)->Obj_0 =~~= m0->Obj_0.push(
                    ("no_api_key"@, ArgVal::Bool(true)),
                ));
            }
        }
        proof {
            assert(m0->Obj_0 =~~= g.args.map_values(
                |p: (Seq<char>, Seq<char>)| (p.0, ArgVal::Text(p.1)),
            ));
            assert(arg_model(args) =~~= annotate_no_key(g.args, no_key));
        }
        self.phase = Phase::Finished;
        RouteAction::Done(
            RouteResult {
                tool_name: name,
                arguments: args,
                source: String::from_str("cloud (fallback)"),
                confidence,
                tool_result: None,
            },
        )
    }

    /// Start routing a query: compute the tool universe under the optional
    /// module scope, and ask for the first on-device attempt.
    pub fn start(registry: &ModuleRegistry, text: String, module_filter: Option<String>) -> (r: (
        RouteSession,
        RouteAction,
    ))
        requires
            registry.wf(),
        ensures
            r.0.wf(),
            r.0.text@ == text@,
            scope_view(r.0) == match module_filter {
                Some(m) => Some(m@),
                None => None::<Seq<char>>,
            },
            tools_model(r.0.tools@) == match module_filter {
                Some(m) => scoped_tools_model(registry.modules_view(), m@),
                None => modules_tools_model(registry.modules_view()),
            },
            r.0.phase matches Phase::Infer { idx } && idx == 0,
            r.0.kw is None,
            r.0.cloud_unavailable == false,
            r.1 matches RouteAction::Infer(req) && request_matches(
                req,
                ladder()[0],
                text@,
                tools_model(r.0.tools@),
            ),
    {
        let tools = match &module_filter {
            Some(m) => registry.module_tools(m.as_str()),
            None => registry.all_tools(),
        };
        let request = build_request(&text, &tools, 0);
        let session = RouteSession {
            text,
            scope: module_filter,
            tools,
            phase: Phase::Infer { idx: 0 },
            kw: None,
            cloud_unavailable: false,
        };
        (session, RouteAction::Infer(request))
    }

    /// Feed the outcome of the last action back into the chain and get the
    /// next action.  The chain always terminates: every path ends in a
    /// `Done` action after finitely many steps.
    pub fn step(&mut self, registry: &ModuleRegistry, event: RouteEvent) -> (action: RouteAction)
        requires
            old(self).wf(),
            registry.wf(),
            old(self).expects(event),
        ensures
            final(self).wf(),
            step_relation(*old(self), *registry, event, *final(self), action),
    {
        let mut phase = Phase::Finished;
        core::mem::swap(&mut phase, &mut self.phase);
        match (phase, event) {
            (Phase::Infer { idx }, RouteEvent::InferReply(orep)) => {
                match orep {
                    Some(rep) => {
                        let valid = validate_local_result(
                            &rep.calls,
                            rep.confidence,
                            &self.tools,
                            self.text.as_str(),
                        );
                        if valid {
                            proof {
                                assert(rep.calls@.len() > 0);
                                assert(calls_model(rep.calls@)[0] == call_model(rep.calls@[0]));
                            }
                            let first = &rep.calls[0];
                            if self.tool_allowed(registry, first.name.as_str()) {
                                let name = first.name.clone();
                                let args = first.arguments.duplicate();
                                let action = RouteAction::ExecuteTool {
                                    name: name.clone(),
                                    arguments: args.duplicate(),
                                };
                                self.phase = Phase::ExecOnDevice {
                                    name,
                                    args,
                                    confidence: rep.confidence,
                                };
                                action
                            } else {
                                self.enter_heuristic(registry)
                            }
                        } else {
                            if idx + 1 < 3 {
                                self.phase = Phase::Infer { idx: idx + 1 };
                                let temperature: u32 = if idx + 1 == 1 {
                                    30
                                } else {
                                    70
                                };
                                RouteAction::Infer(
                                    build_request(&self.text, &self.tools, temperature),
                                )
                            } else {
                                self.enter_heuristic(registry)
                            }
                        }
                    },
                    None => {
                        if idx + 1 < 3 {
                            self.phase = Phase::Infer { idx: idx + 1 };
                            let temperature: u32 = if idx + 1 == 1 {
                                30
                            } else {
                                70
                            };
                            RouteAction::Infer(build_request(&self.text, &self.tools, temperature))
                        } else {
                            self.enter_heuristic(registry)
                        }
                    },
                }
            },
            (Phase::ExecOnDevice { name, args, confidence }, RouteEvent::ToolDone(res)) => {
                if !crate::schema::escalates(&res) {
                    self.phase = Phase::Finished;
                    RouteAction::Done(
                        RouteResult {
                            tool_name: name,
                            arguments: args,
                            source: String::from_str("on-device"),
                            confidence,
                            tool_result: Some(res),
                        },
                    )
                } else {
                    self.enter_heuristic(registry)
                }
            },
            (Phase::ExecHeuristic, RouteEvent::ToolDone(res)) => {
                let k = self.kw.as_ref().unwrap();
                let tool_name = k.name.clone();
                let arguments = k.args.duplicate();
                let confidence = k.confidence;
                self.phase = Phase::Finished;
                RouteAction::Done(
                    RouteResult {
                        tool_name,
                        arguments,
                        source: String::from_str("on-device"),
                        confidence,
                        tool_result: Some(res),
                    },
                )
            },
            (Phase::Cloud { attempt }, RouteEvent::CloudReply(outcome)) => {
                match outcome {
                    CloudOutcome::Answered(calls) => {
                        if calls.len() > 0 {
                            let first = &calls[0];
                            if self.tool_allowed(registry, first.name.as_str()) {
                                let name = first.name.clone();
                                let args = first.arguments.duplicate();
                                let action = RouteAction::ExecuteTool {
                                    name: name.clone(),
                                    arguments: args.duplicate(),
                                };
                                self.phase = Phase::ExecCloud { name, args };
                                return action;
                            }
                        }
                        let flag = self.cloud_unavailable;
                        self.finish_exhausted(flag)
                    },
                    CloudOutcome::Unavailable => self.finish_exhausted(true),
                    CloudOutcome::TransportFailed => {
                        if attempt + 1 < 3 {
                            self.phase = Phase::Cloud { attempt: attempt + 1 };
                            RouteAction::CallCloud { delay_ms: (attempt as u64 + 1) * 1000 }
                        } else {
                            let flag = self.cloud_unavailable;
                            self.finish_exhausted(flag)
                        }
                    },
                }
            },
            (Phase::ExecCloud { name, args }, RouteEvent::ToolDone(res)) => {
                self.phase = Phase::Finished;
                RouteAction::Done(
                    RouteResult {
                        tool_name: name,
                        arguments: args,
                        source: String::from_str("cloud (fallback)"),
                        confidence: 100,
                        tool_result: Some(res),
                    },
                )
            },
            _ => {
                proof {
                    assert(false);
                }
                RouteAction::CallCloud { delay_ms: 0 }
            },
        }
    }
}

} // verus!
