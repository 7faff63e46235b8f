//! The door to the skills: which may run, and what is reported of those
//! that did not.

use super::dead_letter::{DeadLetterRecord, DeadLetterSource, RecordView};
use super::mailbox::{at_least_one, SendOutcome};
use crate::config::ActorToolingConfig;
use crate::ids::{is_uuid_text, new_id};
use crate::llm::types::ToolDefinition;
use crate::text::{
    ascii_lowercase, chars_of, contains, has_prefix, has_text, occurs_at, same, starts_with,
    string_of, to_ascii_lower, what_is_held_stands_inside,
};
use crate::text_map::TextMap;
use crate::time::{Duration, NANOS_PER_MILLI, NANOS_PER_SEC};
use vstd::prelude::*;
use vstd::string::*;

verus! {

/// For whom a skill runs, and where memory is.
#[derive(Debug)]
pub struct SkillContext {
    pub jid: String,
    pub base_path: String,
}

impl Clone for SkillContext {
    fn clone(&self) -> (r: Self)
        ensures
            r == *self,
    {
        SkillContext { jid: self.jid.clone(), base_path: self.base_path.clone() }
    }
}

/// Why a skill gave no result.
#[derive(Debug, Clone, Copy, PartialEq, Eq, Structural)]
pub enum SkillErrorClass {
    Timeout,
    PolicyDenied,
    ExecutionError,
    UnknownTool,
}

/// The outcome of a skill.
#[derive(Debug)]
pub struct SkillExecution {
    pub content: String,
    pub error_class: Option<SkillErrorClass>,
}

/// The model of [`SkillExecution`].
pub ghost struct ExecutionView {
    pub content: Seq<char>,
    pub error_class: Option<SkillErrorClass>,
}

impl DeepView for SkillExecution {
    type V = ExecutionView;

    open spec fn deep_view(&self) -> ExecutionView {
        ExecutionView { content: self.content@, error_class: self.error_class }
    }
}

impl SkillExecution {
    /// A result.
    pub fn success(content: String) -> (r: Self)
        ensures
            r.deep_view() == (ExecutionView { content: content@, error_class: None }),
    {
        SkillExecution { content, error_class: None }
    }

    /// No result, and why.
    pub fn error(content: String, error_class: SkillErrorClass) -> (r: Self)
        ensures
            r.deep_view() == (ExecutionView {
                content: content@,
                error_class: Some(error_class),
            }),
    {
        SkillExecution { content, error_class: Some(error_class) }
    }
}

/// Whether a rule allows a capability: the wildcard allows all, a rule that
/// ends in a star what starts like it, any other rule what it names.
pub open spec fn rule_allows(capability: Seq<char>, rule: Seq<char>) -> bool {
    if rule == "*"@ {
        true
    } else if rule.len() > 0 && rule.last() == '*' {
        has_prefix(capability, rule.drop_last())
    } else {
        capability == rule
    }
}

/// Whether a rule allows a capability.
pub fn capability_matches_rule(required_capability: &str, allow_rule: &str) -> (r: bool)
    ensures
        r == rule_allows(required_capability@, allow_rule@),
{
    if same(allow_rule, "*") {
        return true;
    }
    let v = chars_of(allow_rule);
    if v.len() > 0 && v[v.len() - 1] == '*' {
        let prefix = string_of(&v, 0, v.len() - 1);
        assert(prefix@ =~= allow_rule@.drop_last());
        return starts_with(required_capability, prefix.as_str());
    }
    same(required_capability, allow_rule)
}

/// Whether some rule allows a capability.
pub open spec fn allowed(capability: Seq<char>, rules: Seq<Seq<char>>) -> bool {
    exists|i: int| 0 <= i < rules.len() && rule_allows(capability, #[trigger] rules[i])
}

/// The first capability at or behind `i` that no rule allows.
pub open spec fn first_denied(required: Seq<Seq<char>>, rules: Seq<Seq<char>>, i: int) -> Option<
    int,
>
    decreases required.len() - i,
{
    if i >= required.len() {
        None
    } else if !allowed(required[i], rules) {
        Some(i)
    } else {
        first_denied(required, rules, i + 1)
    }
}

/// The class of an error message, in letters of either case.
pub open spec fn error_class_of(message: Seq<char>) -> SkillErrorClass {
    let m = ascii_lowercase(message);
    if has_text(m, "timeout"@) {
        SkillErrorClass::Timeout
    } else if has_text(m, "policy_denied"@) || has_text(m, "policy denied"@) {
        SkillErrorClass::PolicyDenied
    } else {
        SkillErrorClass::ExecutionError
    }
}

/// The class of an error message.
pub fn classify_skill_error(message: &str) -> (r: SkillErrorClass)
    ensures
        r == error_class_of(message@),
{
    let normalized = to_ascii_lower(message);
    if contains(normalized.as_str(), "timeout") {
        SkillErrorClass::Timeout
    } else if contains(normalized.as_str(), "policy_denied") || contains(
        normalized.as_str(),
        "policy denied",
    ) {
        SkillErrorClass::PolicyDenied
    } else {
        SkillErrorClass::ExecutionError
    }
}

/// How waiting for a turn to run ended.
#[derive(Clone, Copy, PartialEq, Eq, Structural, Debug)]
pub enum PermitOutcome {
    Granted,
    Closed,
    TimedOut,
}

/// The door to the skills: the capabilities that each needs, by its name.
pub struct SkillRouterActor {
    pub tool_definitions: Vec<ToolDefinition>,
    pub required: TextMap<Vec<String>>,
    pub allowed_capabilities: Vec<String>,
    pub max_parallel_skills: usize,
    pub skill_queue_timeout: Duration,
    pub skill_timeout: Option<Duration>,
}

/// What is said of a tool that is not there.
pub open spec fn unknown_tool(name: Seq<char>) -> ExecutionView {
    ExecutionView {
        content: "Error: unknown tool '"@ + name + "'"@,
        error_class: Some(SkillErrorClass::UnknownTool),
    }
}

/// What is said of a tool that needs a capability which no rule allows.
pub open spec fn denied(capability: Seq<char>) -> ExecutionView {
    ExecutionView {
        content: "Error: policy_denied (missing capability '"@ + capability + "')"@,
        error_class: Some(SkillErrorClass::PolicyDenied),
    }
}

/// What stands in the way of a skill, if anything: it is not there, or it
/// needs a capability that no rule allows.
pub open spec fn obstacle(
    skills: Map<Seq<char>, Seq<Seq<char>>>,
    rules: Seq<Seq<char>>,
    name: Seq<char>,
) -> Option<ExecutionView> {
    if !skills.contains_key(name) {
        Some(unknown_tool(name))
    } else {
        match first_denied(skills[name], rules, 0) {
            Some(i) => Some(denied(skills[name][i])),
            None => None,
        }
    }
}

/// What is said of a skill that did not get its turn; why it is a dead letter;
/// and what is counted.
pub open spec fn no_turn(outcome: PermitOutcome) -> Option<(ExecutionView, Seq<char>, Seq<char>)> {
    match outcome {
        PermitOutcome::Granted => None,
        PermitOutcome::Closed => Some(
            (
                ExecutionView {
                    content: "Error: execution_error"@,
                    error_class: Some(SkillErrorClass::ExecutionError),
                },
                "skill_permit_closed"@,
                "overflow.skill.permit_closed"@,
            ),
        ),
        PermitOutcome::TimedOut => Some(
            (
                ExecutionView {
                    content: "Error: timeout"@,
                    error_class: Some(SkillErrorClass::Timeout),
                },
                "skill_queue_timeout"@,
                "overflow.skill.queue_timeout"@,
            ),
        ),
    }
}

/// Why a request did not get into the mailbox of its skill; why it is a dead
/// letter; and what is counted.
pub open spec fn not_taken(outcome: SendOutcome) -> Option<(Seq<char>, Seq<char>, Seq<char>)> {
    match outcome {
        SendOutcome::Sent => None,
        SendOutcome::Closed => Some(
            ("execution_error"@, "skill_mailbox_closed"@, "overflow.skill.unavailable"@),
        ),
        SendOutcome::TimedOut => Some(
            ("timeout"@, "skill_enqueue_timeout"@, "overflow.skill.enqueue_timeout"@),
        ),
    }
}

/// What is said of a skill that ran.
pub open spec fn ran(result: Result<Seq<char>, Seq<char>>) -> ExecutionView {
    match result {
        Ok(output) => ExecutionView { content: output, error_class: None },
        Err(message) => ExecutionView {
            content: "Error: "@ + message,
            error_class: Some(error_class_of(message)),
        },
    }
}

/// The model of a skill's result.
pub open spec fn result_view(r: Result<String, String>) -> Result<Seq<char>, Seq<char>> {
    match r {
        Ok(s) => Ok(s@),
        Err(e) => Err(e@),
    }
}

/// What comes in while a skill is called, in this order.
#[derive(Debug)]
pub enum SkillEvent {
    /// The skill is called.
    Called,
    /// Waiting for a turn has ended.
    Turn(PermitOutcome),
    /// The request was offered to the skill; its result, where there is one.
    Asked { outcome: SendOutcome, reply: Option<Result<String, String>> },
}

/// The model of [`SkillEvent`].
pub ghost enum SkillEventView {
    Called,
    Turn(PermitOutcome),
    Asked(SendOutcome, Option<Result<Seq<char>, Seq<char>>>),
}

impl DeepView for SkillEvent {
    type V = SkillEventView;

    open spec fn deep_view(&self) -> SkillEventView {
        match self {
            SkillEvent::Called => SkillEventView::Called,
            SkillEvent::Turn(o) => SkillEventView::Turn(*o),
            SkillEvent::Asked { outcome, reply } => SkillEventView::Asked(
                *outcome,
                match reply {
                    Some(r) => Some(result_view(*r)),
                    None => None,
                },
            ),
        }
    }
}

/// What the call of a skill does next.
#[derive(Debug)]
pub enum SkillStep {
    /// It waits for a turn.
    AwaitTurn,
    /// It asks the skill.
    Ask,
    /// It is over. It may be a dead letter, and this is counted.
    Finished {
        execution: SkillExecution,
        dead_letter_reason: Option<&'static str>,
        counted: Vec<&'static str>,
    },
}

/// The model of [`SkillStep`].
pub ghost enum SkillStepView {
    AwaitTurn,
    Ask,
    Finished {
        execution: ExecutionView,
        dead_letter_reason: Option<Seq<char>>,
        counted: Seq<Seq<char>>,
    },
}

impl DeepView for SkillStep {
    type V = SkillStepView;

    open spec fn deep_view(&self) -> SkillStepView {
        match self {
            SkillStep::AwaitTurn => SkillStepView::AwaitTurn,
            SkillStep::Ask => SkillStepView::Ask,
            SkillStep::Finished { execution, dead_letter_reason, counted } => {
                SkillStepView::Finished {
                    execution: execution.deep_view(),
                    dead_letter_reason: dead_letter_reason.deep_view(),
                    counted: counted.deep_view(),
                }
            },
        }
    }
}

/// What is counted where a skill may not run.
pub open spec fn obstacle_counter(class: Option<SkillErrorClass>) -> Seq<char> {
    if class == Some(SkillErrorClass::UnknownTool) {
        "error.skill.unknown_tool"@
    } else {
        "error.skill.policy_denied"@
    }
}

/// What the call of a skill does next. It is over where something stands in
/// its way, and where it gets no turn; else it asks the skill, and is over
/// with the skill's result. A skill that was not reached or gave no result has
/// failed.
pub open spec fn skill_step(
    skills: Map<Seq<char>, Seq<Seq<char>>>,
    rules: Seq<Seq<char>>,
    name: Seq<char>,
    event: SkillEventView,
) -> SkillStepView {
    match event {
        SkillEventView::Called => match obstacle(skills, rules, name) {
            Some(execution) => SkillStepView::Finished {
                execution,
                dead_letter_reason: None,
                counted: seq![obstacle_counter(execution.error_class)],
            },
            None => SkillStepView::AwaitTurn,
        },
        SkillEventView::Turn(outcome) => match no_turn(outcome) {
            Some((execution, reason, counter)) => SkillStepView::Finished {
                execution,
                dead_letter_reason: Some(reason),
                counted: seq![counter],
            },
            None => SkillStepView::Ask,
        },
        SkillEventView::Asked(outcome, reply) => match not_taken(outcome) {
            Some((message, reason, counter)) => SkillStepView::Finished {
                execution: ran(Err(message)),
                dead_letter_reason: Some(reason),
                counted: seq![counter, "error.skill.execution"@],
            },
            None => match reply {
                Some(Ok(output)) => SkillStepView::Finished {
                    execution: ran(Ok(output)),
                    dead_letter_reason: None,
                    counted: Seq::empty(),
                },
                Some(Err(message)) => SkillStepView::Finished {
                    execution: ran(Err(message)),
                    dead_letter_reason: None,
                    counted: seq!["error.skill.execution"@],
                },
                None => SkillStepView::Finished {
                    execution: ran(Err("execution_error"@)),
                    dead_letter_reason: None,
                    counted: seq!["error.skill.execution"@],
                },
            },
        },
    }
}

fn one_counter(name: &'static str) -> (r: Vec<&'static str>)
    ensures
        r.deep_view() == seq![name@],
{
    let mut r: Vec<&'static str> = Vec::new();
    r.push(name);
    assert(r.deep_view() =~= seq![name@]);
    r
}

impl SkillRouterActor {
    /// The door to the given skills: at least one runs at a time, and a time
    /// limit of zero is none.
    pub fn new(
        tool_definitions: Vec<ToolDefinition>,
        required: TextMap<Vec<String>>,
        config: &ActorToolingConfig,
    ) -> (r: Self)
        ensures
            r.tool_definitions == tool_definitions,
            r.required == required,
            r.allowed_capabilities.deep_view() == config.allowed_capabilities.deep_view(),
            r.max_parallel_skills == (if config.max_parallel_skills == 0 {
                1
            } else {
                config.max_parallel_skills
            }),
            r.skill_queue_timeout.nanos == config.skill_queue_timeout_ms * NANOS_PER_MILLI,
            match r.skill_timeout {
                Some(d) => config.skill_timeout_secs > 0 && d.nanos == config.skill_timeout_secs
                    * NANOS_PER_SEC,
                None => config.skill_timeout_secs == 0,
            },
    {
        let allowed_capabilities = config.allowed_capabilities.clone();
        assert(allowed_capabilities.deep_view() =~= config.allowed_capabilities.deep_view());
        SkillRouterActor {
            tool_definitions,
            required,
            allowed_capabilities,
            max_parallel_skills: at_least_one(config.max_parallel_skills),
            skill_queue_timeout: Duration::from_millis(config.skill_queue_timeout_ms),
            skill_timeout: if config.skill_timeout_secs == 0 {
                None
            } else {
                Some(Duration::from_secs(config.skill_timeout_secs))
            },
        }
    }

    /// Whether there is no tool.
    pub fn is_empty(&self) -> (r: bool)
        ensures
            r == (self.tool_definitions@.len() == 0),
    {
        self.tool_definitions.len() == 0
    }

    /// The tools that a language model is told of.
    pub fn tool_definitions(&self) -> (r: Vec<ToolDefinition>)
        ensures
            r.deep_view() == self.tool_definitions.deep_view(),
    {
        let r = self.tool_definitions.clone();
        assert(r.deep_view() =~= self.tool_definitions.deep_view());
        r
    }

    fn is_capability_allowed(&self, capability: &str) -> (r: bool)
        ensures
            r == allowed(capability@, self.allowed_capabilities.deep_view()),
    {
        let ghost rules = self.allowed_capabilities.deep_view();
        let mut i: usize = 0;
        while i < self.allowed_capabilities.len()
            invariant
                rules == self.allowed_capabilities.deep_view(),
                0 <= i <= self.allowed_capabilities@.len(),
                forall|j: int| 0 <= j < i ==> !rule_allows(capability@, #[trigger] rules[j]),
            decreases self.allowed_capabilities@.len() - i,
        {
            if capability_matches_rule(capability, self.allowed_capabilities[i].as_str()) {
                assert(rule_allows(capability@, rules[i as int]));
                return true;
            }
            i = i + 1;
        }
        false
    }

    /// What stands in the way of a skill, if anything.
    pub fn check(&self, skill_name: &str) -> (r: Option<SkillExecution>)
        ensures
            r.deep_view() == obstacle(
                self.required.deep_view(),
                self.allowed_capabilities.deep_view(),
                skill_name@,
            ),
    {
        match self.required.get(skill_name) {
            None => {
                let mut s = "Error: unknown tool '".to_owned();
                s.append(skill_name);
                s.append("'");
                Some(SkillExecution::error(s, SkillErrorClass::UnknownTool))
            },
            Some(needs) => {
                let ghost required = needs.deep_view();
                let ghost rules = self.allowed_capabilities.deep_view();
                let mut i: usize = 0;
                while i < needs.len()
                    invariant
                        required == needs.deep_view(),
                        rules == self.allowed_capabilities.deep_view(),
                        self.required@.contains_key(skill_name@),
                        *needs == self.required@[skill_name@],
                        0 <= i <= needs@.len(),
                        first_denied(required, rules, 0) == first_denied(
                            required,
                            rules,
                            i as int,
                        ),
                    decreases needs@.len() - i,
                {
                    assert(required[i as int] == needs@[i as int]@);
                    if !self.is_capability_allowed(needs[i].as_str()) {
                        let mut s = "Error: policy_denied (missing capability '".to_owned();
                        s.append(needs[i].as_str());
                        s.append("')");
                        return Some(SkillExecution::error(s, SkillErrorClass::PolicyDenied));
                    }
                    i = i + 1;
                }
                None
            },
        }
    }

    fn after_permit(outcome: PermitOutcome) -> (r: SkillStep)
        ensures
            r.deep_view() == match no_turn(outcome) {
                Some((execution, reason, counter)) => SkillStepView::Finished {
                    execution,
                    dead_letter_reason: Some(reason),
                    counted: seq![counter],
                },
                None => SkillStepView::Ask,
            },
    {
        match outcome {
            PermitOutcome::Granted => SkillStep::Ask,
            PermitOutcome::Closed => SkillStep::Finished {
                execution: SkillExecution::error(
                    "Error: execution_error".to_owned(),
                    SkillErrorClass::ExecutionError,
                ),
                dead_letter_reason: Some("skill_permit_closed"),
                counted: one_counter("overflow.skill.permit_closed"),
            },
            PermitOutcome::TimedOut => SkillStep::Finished {
                execution: SkillExecution::error(
                    "Error: timeout".to_owned(),
                    SkillErrorClass::Timeout,
                ),
                dead_letter_reason: Some("skill_queue_timeout"),
                counted: one_counter("overflow.skill.queue_timeout"),
            },
        }
    }

    /// What the call of a skill does next.
    pub fn execute(&self, skill_name: &str, event: SkillEvent) -> (r: SkillStep)
        ensures
            r.deep_view() == skill_step(
                self.required.deep_view(),
                self.allowed_capabilities.deep_view(),
                skill_name@,
                event.deep_view(),
            ),
    {
        match event {
            SkillEvent::Called => match self.check(skill_name) {
                Some(execution) => {
                    let unknown = match execution.error_class {
                        Some(SkillErrorClass::UnknownTool) => true,
                        _ => false,
                    };
                    SkillStep::Finished {
                        execution,
                        dead_letter_reason: None,
                        counted: one_counter(
                            if unknown {
                                "error.skill.unknown_tool"
                            } else {
                                "error.skill.policy_denied"
                            },
                        ),
                    }
                },
                None => SkillStep::AwaitTurn,
            },
            SkillEvent::Turn(outcome) => Self::after_permit(outcome),
            SkillEvent::Asked { outcome, reply } => {
                if let Some(missed) = SkillActor::execute(outcome) {
                    let mut counted = one_counter(missed.counter);
                    let ghost first = counted.deep_view();
                    counted.push("error.skill.execution");
                    assert(counted.deep_view() =~= first.push("error.skill.execution"@));
                    assert(counted.deep_view() =~= seq![
                        missed.counter@,
                        "error.skill.execution"@,
                    ]);
                    return SkillStep::Finished {
                        execution: Self::after_run(Err(missed.message.to_owned())),
                        dead_letter_reason: Some(missed.dead_letter_reason),
                        counted,
                    };
                }
                match reply {
                    Some(Ok(output)) => {
                        let counted: Vec<&'static str> = Vec::new();
                        assert(counted.deep_view() =~= Seq::<Seq<char>>::empty());
                        SkillStep::Finished {
                            execution: Self::after_run(Ok(output)),
                            dead_letter_reason: None,
                            counted,
                        }
                    },
                    Some(Err(message)) => SkillStep::Finished {
                        execution: Self::after_run(Err(message)),
                        dead_letter_reason: None,
                        counted: one_counter("error.skill.execution"),
                    },
                    None => SkillStep::Finished {
                        execution: Self::after_run(Err("execution_error".to_owned())),
                        dead_letter_reason: None,
                        counted: one_counter("error.skill.execution"),
                    },
                }
            },
        }
    }

    /// What is reported of a skill that ran.
    pub fn after_run(result: Result<String, String>) -> (r: SkillExecution)
        ensures
            r.deep_view() == ran(result_view(result)),
    {
        match result {
            Ok(output) => SkillExecution::success(output),
            Err(message) => {
                let class = classify_skill_error(message.as_str());
                let mut s = "Error: ".to_owned();
                s.append(message.as_str());
                SkillExecution::error(s, class)
            },
        }
    }

    /// The dead letter of a skill that could not run.
    pub fn record_dead_letter(
        reason: &str,
        skill_name: &str,
        context: &SkillContext,
        payload: Option<serde_json::Value>,
    ) -> (r: DeadLetterRecord)
        ensures
            is_uuid_text(r.correlation_id@),
            r.timestamp_ms >= 0,
            r.deep_view() == (RecordView {
                timestamp_ms: r.timestamp_ms,
                source: DeadLetterSource::SkillRouter,
                reason: reason@,
                correlation_id: r.correlation_id@,
                conversation_id: Some(context.jid@),
                payload_kind: skill_name@,
                destination: None,
                attempts: None,
                received_at_ms: None,
                busy_response: None,
                payload,
            }),
    {
        DeadLetterRecord::skill_router_with_payload(
            reason,
            context.jid.clone(),
            new_id(),
            skill_name,
            payload,
        )
    }
}

/// The mailbox of a skill.
#[derive(Debug)]
pub struct SkillActor {
    pub skill_name: String,
    pub gauge_name: String,
    pub mailbox_size: usize,
}

/// Why a request did not get into the mailbox of its skill; why it is a dead
/// letter; and what is counted.
#[derive(Debug)]
pub struct NotTaken {
    pub message: &'static str,
    pub dead_letter_reason: &'static str,
    pub counter: &'static str,
}

impl SkillActor {
    /// The mailbox of a skill, with the name of its gauge; it has at least one
    /// place.
    pub fn new(skill_name: String, mailbox_size: usize) -> (r: Self)
        ensures
            r.skill_name@ == skill_name@,
            r.gauge_name@ == "mailbox.skill."@ + skill_name@ + ".depth"@,
            r.mailbox_size == (if mailbox_size == 0 {
                1
            } else {
                mailbox_size
            }),
    {
        let mut gauge_name = "mailbox.skill.".to_owned();
        gauge_name.append(skill_name.as_str());
        gauge_name.append(".depth");
        SkillActor { skill_name, gauge_name, mailbox_size: at_least_one(mailbox_size) }
    }

    /// What follows where a request did not get into the mailbox.
    pub fn execute(outcome: SendOutcome) -> (r: Option<NotTaken>)
        ensures
            match not_taken(outcome) {
                Some((message, reason, counter)) => r is Some && r->0.message@ == message
                    && r->0.dead_letter_reason@ == reason && r->0.counter@ == counter,
                None => r is None,
            },
    {
        match outcome {
            SendOutcome::Sent => None,
            SendOutcome::Closed => Some(
                NotTaken {
                    message: "execution_error",
                    dead_letter_reason: "skill_mailbox_closed",
                    counter: "overflow.skill.unavailable",
                },
            ),
            SendOutcome::TimedOut => Some(
                NotTaken {
                    message: "timeout",
                    dead_letter_reason: "skill_enqueue_timeout",
                    counter: "overflow.skill.enqueue_timeout",
                },
            ),
        }
    }
}

// ---- laws --------------------------------------------------------------

/// With the wildcard among the rules every known skill may run.
pub proof fn wildcard_allows_every_skill(
    skills: Map<Seq<char>, Seq<Seq<char>>>,
    rules: Seq<Seq<char>>,
    name: Seq<char>,
)
    requires
        skills.contains_key(name),
        rules.contains("*"@),
    ensures
        obstacle(skills, rules, name) is None,
{
    let k = choose|k: int| 0 <= k < rules.len() && rules[k] == "*"@;
    assert forall|c: Seq<char>| allowed(c, rules) by {
        assert(rule_allows(c, rules[k]));
    }
    lemma_none_denied(skills[name], rules, 0);
}

proof fn lemma_none_denied(required: Seq<Seq<char>>, rules: Seq<Seq<char>>, i: int)
    requires
        0 <= i,
        forall|c: Seq<char>| allowed(c, rules),
    ensures
        first_denied(required, rules, i) is None,
    decreases required.len() - i,
{
    if i < required.len() {
        lemma_none_denied(required, rules, i + 1);
    }
}

/// A known skill may run exactly where every capability that it needs is
/// allowed.
pub proof fn skills_run_only_with_all_capabilities(
    skills: Map<Seq<char>, Seq<Seq<char>>>,
    rules: Seq<Seq<char>>,
    name: Seq<char>,
)
    requires
        skills.contains_key(name),
    ensures
        obstacle(skills, rules, name) is None <==> forall|i: int|
            0 <= i < skills[name].len() ==> allowed(#[trigger] skills[name][i], rules),
{
    lemma_first_denied(skills[name], rules, 0);
}

proof fn lemma_first_denied(required: Seq<Seq<char>>, rules: Seq<Seq<char>>, i: int)
    requires
        0 <= i,
    ensures
        match first_denied(required, rules, i) {
            Some(k) => i <= k < required.len() && !allowed(required[k], rules),
            None => forall|j: int| i <= j < required.len() ==> allowed(#[trigger] required[j], rules),
        },
    decreases required.len() - i,
{
    if i < required.len() && allowed(required[i], rules) {
        lemma_first_denied(required, rules, i + 1);
    }
}

/// Without rules a skill that needs any capability may not run.
pub proof fn no_rules_allow_nothing(capability: Seq<char>)
    ensures
        !allowed(capability, Seq::empty()),
{
}

/// A skill is asked only after it got its turn, and waits for a turn only where
/// nothing stands in its way.
pub proof fn only_allowed_skills_wait(
    skills: Map<Seq<char>, Seq<Seq<char>>>,
    rules: Seq<Seq<char>>,
    name: Seq<char>,
    event: SkillEventView,
)
    ensures
        skill_step(skills, rules, name, event) is AwaitTurn ==> obstacle(skills, rules, name)
            is None,
        skill_step(skills, rules, name, event) is Ask ==> event == SkillEventView::Turn(
            PermitOutcome::Granted,
        ),
{
}

/// Whatever goes wrong with a skill is told: a failure has a class, and its
/// text says that it is an error. What becomes a dead letter is a failure.
pub proof fn failures_are_told(
    skills: Map<Seq<char>, Seq<Seq<char>>>,
    rules: Seq<Seq<char>>,
    name: Seq<char>,
    event: SkillEventView,
)
    ensures
        match skill_step(skills, rules, name, event) {
            SkillStepView::Finished { execution, dead_letter_reason, counted } => {
                &&& execution.error_class is Some ==> has_prefix(execution.content, "Error: "@)
                &&& execution.error_class is Some <==> counted.len() > 0
                &&& dead_letter_reason is Some ==> execution.error_class is Some
            },
            _ => true,
        },
{
    let e = "Error: "@;
    reveal_strlit("Error: ");
    reveal_strlit("Error: execution_error");
    reveal_strlit("Error: timeout");
    reveal_strlit("Error: unknown tool '");
    reveal_strlit("Error: policy_denied (missing capability '");
    assert("Error: execution_error"@.subrange(0, 7) =~= e);
    assert("Error: timeout"@.subrange(0, 7) =~= e);
    match skill_step(skills, rules, name, event) {
        SkillStepView::Finished { execution, .. } => {
            if execution.error_class is Some {
                assert(execution.content.subrange(0, 7) =~= e);
            }
        },
        _ => {},
    }
}

/// A rule allows the capability that it names; one that ends in a star allows
/// every capability that starts with what stands before the star, and no other.
pub proof fn rules_name_capabilities(capability: Seq<char>, rule: Seq<char>, rest: Seq<char>)
    ensures
        rule.len() == 0 || rule.last() != '*' ==> (rule_allows(capability, rule) <==> capability
            == rule),
        rule_allows(rule + rest, rule + seq!['*']),
        rule_allows(capability, rule + seq!['*']) ==> capability == rule + capability.skip(
            rule.len() as int,
        ),
        rule_allows(capability, "*"@),
{
    reveal_strlit("*");
    assert("*"@[0] == '*');
    let starred = rule + seq!['*'];
    assert(starred.drop_last() =~= rule);
    what_is_held_stands_inside(rule, rule, rest, capability);
    if starred == "*"@ {
        assert(rule =~= Seq::empty());
        assert(capability =~= rule + capability.skip(0));
    }
}

/// What stands in the way of a skill is named: a tool that nobody knows by its
/// name, and otherwise the first capability that is not allowed.
pub proof fn obstacles_are_named(
    skills: Map<Seq<char>, Seq<Seq<char>>>,
    rules: Seq<Seq<char>>,
    name: Seq<char>,
    i: int,
)
    ensures
        !skills.contains_key(name) ==> obstacle(skills, rules, name) == Some(
            ExecutionView {
                content: "Error: unknown tool '"@ + name + "'"@,
                error_class: Some(SkillErrorClass::UnknownTool),
            },
        ),
        skills.contains_key(name) && 0 <= i < skills[name].len() && !allowed(skills[name][i], rules)
            && (forall|j: int| 0 <= j < i ==> allowed(#[trigger] skills[name][j], rules))
            ==> obstacle(skills, rules, name) == Some(
            ExecutionView {
                content: "Error: policy_denied (missing capability '"@ + skills[name][i] + "')"@,
                error_class: Some(SkillErrorClass::PolicyDenied),
            },
        ),
{
    if skills.contains_key(name) && 0 <= i < skills[name].len() && !allowed(skills[name][i], rules)
        && (forall|j: int| 0 <= j < i ==> allowed(#[trigger] skills[name][j], rules)) {
        lemma_denied_at(skills[name], rules, 0, i);
    }
}

proof fn lemma_denied_at(required: Seq<Seq<char>>, rules: Seq<Seq<char>>, from: int, i: int)
    requires
        0 <= from <= i < required.len(),
        !allowed(required[i], rules),
        forall|j: int| 0 <= j < i ==> allowed(#[trigger] required[j], rules),
    ensures
        first_denied(required, rules, from) == Some(i),
    decreases i - from,
{
    if from < i {
        assert(allowed(required[from], rules));
        lemma_denied_at(required, rules, from + 1, i);
    }
}

/// What a skill gives back is handed on as it is, without an error, a dead
/// letter or a count; what it complains of is handed on as an error.
pub proof fn outputs_are_handed_on(
    skills: Map<Seq<char>, Seq<Seq<char>>>,
    rules: Seq<Seq<char>>,
    name: Seq<char>,
    output: Seq<char>,
)
    ensures
        skill_step(
            skills,
            rules,
            name,
            SkillEventView::Asked(SendOutcome::Sent, Some(Ok(output))),
        ) == (SkillStepView::Finished {
            execution: ExecutionView { content: output, error_class: None },
            dead_letter_reason: None,
            counted: Seq::empty(),
        }),
        match skill_step(
            skills,
            rules,
            name,
            SkillEventView::Asked(SendOutcome::Sent, Some(Err(output))),
        ) {
            SkillStepView::Finished { execution, dead_letter_reason, counted } => {
                &&& execution.content == "Error: "@ + output
                &&& execution.error_class is Some
                &&& dead_letter_reason is None
                &&& counted == seq!["error.skill.execution"@]
            },
            _ => false,
        },
{
}

/// A skill that may run waits for its turn, and is asked once it has it; one
/// that may not is finished at once, without a turn and without a dead letter.
pub proof fn skills_wait_and_are_asked(
    skills: Map<Seq<char>, Seq<Seq<char>>>,
    rules: Seq<Seq<char>>,
    name: Seq<char>,
)
    ensures
        obstacle(skills, rules, name) is None <==> skill_step(
            skills,
            rules,
            name,
            SkillEventView::Called,
        ) is AwaitTurn,
        skill_step(skills, rules, name, SkillEventView::Turn(PermitOutcome::Granted)) is Ask,
        skill_step(skills, rules, name, SkillEventView::Called) matches SkillStepView::Finished {
            execution,
            dead_letter_reason,
            counted,
        } ==> obstacle(skills, rules, name) == Some(execution) && dead_letter_reason is None,
{
}

/// Every skill that does not get its turn, or is not taken, becomes a dead
/// letter under what went wrong, and is a timeout exactly where it took too
/// long.
pub proof fn overloads_become_dead_letters(
    skills: Map<Seq<char>, Seq<Seq<char>>>,
    rules: Seq<Seq<char>>,
    name: Seq<char>,
    reply: Option<Result<Seq<char>, Seq<char>>>,
)
    ensures
        ({
            let of = |event: SkillEventView, reason: Seq<char>, late: bool|
                match skill_step(skills, rules, name, event) {
                    SkillStepView::Finished { execution, dead_letter_reason, counted } => {
                        &&& dead_letter_reason == Some(reason)
                        &&& execution.error_class == Some(
                            if late {
                                SkillErrorClass::Timeout
                            } else {
                                SkillErrorClass::ExecutionError
                            },
                        )
                    },
                    _ => false,
                };
            &&& of(SkillEventView::Turn(PermitOutcome::Closed), "skill_permit_closed"@, false)
            &&& of(SkillEventView::Turn(PermitOutcome::TimedOut), "skill_queue_timeout"@, true)
            &&& of(
                SkillEventView::Asked(SendOutcome::Closed, reply),
                "skill_mailbox_closed"@,
                false,
            )
            &&& of(
                SkillEventView::Asked(SendOutcome::TimedOut, reply),
                "skill_enqueue_timeout"@,
                true,
            )
        }),
{
    reveal_strlit("timeout");
    reveal_strlit("execution_error");
    reveal_strlit("policy_denied");
    reveal_strlit("policy denied");
    let late = ascii_lowercase("timeout"@);
    assert(late =~= "timeout"@);
    assert(late.subrange(0, 7) =~= "timeout"@);
    assert(occurs_at(late, "timeout"@, 0));
    let other = ascii_lowercase("execution_error"@);
    assert(other =~= "execution_error"@);
    assert forall|i: int| !#[trigger] occurs_at(other, "timeout"@, i) by {
        if occurs_at(other, "timeout"@, i) {
            assert(other.subrange(i, i + 7)[2] == 'm');
            assert(other[i + 2] == 'm');
        }
    }
    assert forall|i: int| !#[trigger] occurs_at(other, "policy_denied"@, i) by {
        if occurs_at(other, "policy_denied"@, i) {
            assert(other.subrange(i, i + 13)[0] == 'p');
            assert(other[i] == 'p');
        }
    }
    assert forall|i: int| !#[trigger] occurs_at(other, "policy denied"@, i) by {
        if occurs_at(other, "policy denied"@, i) {
            assert(other.subrange(i, i + 13)[0] == 'p');
            assert(other[i] == 'p');
        }
    }
}

/// A complaint that speaks of a timeout, in letters of either case, is one; one
/// that speaks of a denied policy is that, unless it speaks of a timeout too.
pub proof fn complaints_are_classed(
    message: Seq<char>,
    head: Seq<char>,
    tail: Seq<char>,
)
    ensures
        ascii_lowercase(message) == head + "timeout"@ + tail ==> error_class_of(message)
            == SkillErrorClass::Timeout,
        (ascii_lowercase(message) == head + "policy_denied"@ + tail || ascii_lowercase(message)
            == head + "policy denied"@ + tail) && error_class_of(message)
            != SkillErrorClass::Timeout ==> error_class_of(message)
            == SkillErrorClass::PolicyDenied,
        message.len() < 7 ==> error_class_of(message) == SkillErrorClass::ExecutionError,
{
    what_is_held_stands_inside(head, "timeout"@, tail, message);
    what_is_held_stands_inside(head, "policy_denied"@, tail, message);
    what_is_held_stands_inside(head, "policy denied"@, tail, message);
    reveal_strlit("timeout");
    reveal_strlit("policy_denied");
    reveal_strlit("policy denied");
}

/// Whatever goes wrong with a skill is counted under its own name, and what was
/// not taken as a failed execution too.
pub proof fn what_goes_wrong_is_counted(
    skills: Map<Seq<char>, Seq<Seq<char>>>,
    rules: Seq<Seq<char>>,
    name: Seq<char>,
    reply: Option<Result<Seq<char>, Seq<char>>>,
)
    ensures
        ({
            let counted = |event: SkillEventView|
                match skill_step(skills, rules, name, event) {
                    SkillStepView::Finished { execution, dead_letter_reason, counted } => counted,
                    _ => Seq::empty(),
                };
            let failed = "error.skill.execution"@;
            &&& !skills.contains_key(name) ==> counted(SkillEventView::Called) == seq![
                "error.skill.unknown_tool"@,
            ]
            &&& skills.contains_key(name) && obstacle(skills, rules, name) is Some ==> counted(
                SkillEventView::Called,
            ) == seq!["error.skill.policy_denied"@]
            &&& counted(SkillEventView::Turn(PermitOutcome::Closed)) == seq![
                "overflow.skill.permit_closed"@,
            ]
            &&& counted(SkillEventView::Turn(PermitOutcome::TimedOut)) == seq![
                "overflow.skill.queue_timeout"@,
            ]
            &&& counted(SkillEventView::Asked(SendOutcome::Closed, reply)) == seq![
                "overflow.skill.unavailable"@,
                failed,
            ]
            &&& counted(SkillEventView::Asked(SendOutcome::TimedOut, reply)) == seq![
                "overflow.skill.enqueue_timeout"@,
                failed,
            ]
            &&& counted(SkillEventView::Asked(SendOutcome::Sent, None)) == seq![failed]
        }),
{
}

/// What the model is told of a skill that did not run is why, in a word.
pub proof fn the_model_is_told_why(
    skills: Map<Seq<char>, Seq<Seq<char>>>,
    rules: Seq<Seq<char>>,
    name: Seq<char>,
    reply: Option<Result<Seq<char>, Seq<char>>>,
)
    ensures
        ({
            let told = |event: SkillEventView|
                match skill_step(skills, rules, name, event) {
                    SkillStepView::Finished { execution, .. } => execution.content,
                    _ => Seq::empty(),
                };
            &&& told(SkillEventView::Turn(PermitOutcome::Closed)) == "Error: "@
                + "execution_error"@
            &&& told(SkillEventView::Turn(PermitOutcome::TimedOut)) == "Error: "@ + "timeout"@
            &&& told(SkillEventView::Asked(SendOutcome::Closed, reply)) == "Error: "@
                + "execution_error"@
            &&& told(SkillEventView::Asked(SendOutcome::TimedOut, reply)) == "Error: "@
                + "timeout"@
            &&& told(SkillEventView::Asked(SendOutcome::Sent, None)) == "Error: "@
                + "execution_error"@
        }),
{
    reveal_strlit("Error: ");
    reveal_strlit("execution_error");
    reveal_strlit("timeout");
    reveal_strlit("Error: execution_error");
    reveal_strlit("Error: timeout");
    assert("Error: execution_error"@ =~= "Error: "@ + "execution_error"@);
    assert("Error: timeout"@ =~= "Error: "@ + "timeout"@);
}

} // verus!
