//! What a turn makes of the result that the child reports for it.

use vstd::prelude::*;

use crate::json::{has_text, reads_text, strings_in, JsonSpec, NumberSpec};
use crate::strs::{contains_text, joined};
use crate::turn::{is_autonomous, no_usage, DeferredSettle, EventSpec, FailureKind, MachineSpec, StopReason, TurnSpec, Usage};

verus! {

/// Whether a turn is in flight that nothing stands in the way of: it has no
/// result yet, was not cancelled and awaits no subagent.
pub open spec fn in_flight(m: MachineSpec) -> bool {
    &&& m.active matches Some(t) && !t.settled && t.deferred is None
        && forall|id: Seq<char>| #[trigger]
        t.spawned.contains(id) ==> !(m.live.contains_key(id) && m.live[id])
    &&& !m.cancelled
}

/// Whether a result came of itself: the child says that no prompt asked for it.
pub open spec fn came_of_itself(frame: JsonSpec) -> bool {
    frame.get("origin"@) matches Some(origin) && {
        ||| has_text(origin, "kind"@, "task-notification"@)
        ||| has_text(origin, "kind"@, "peer"@)
        ||| has_text(origin, "kind"@, "coordinator"@)
        ||| has_text(origin, "kind"@, "observer"@)
        ||| has_text(origin, "kind"@, "observer-activity"@)
    }
}

/// Whether a result says that the user has to log in.
pub open spec fn asks_to_log_in(frame: JsonSpec) -> bool {
    frame.get("result"@) matches Some(JsonSpec::Str(text)) && contains_text(
        text,
        "Please run /login"@,
    )
}

/// Whether a result says that it is an error.
pub open spec fn says_error(frame: JsonSpec) -> bool {
    frame.get("is_error"@) == Some(JsonSpec::Bool(true))
}

/// Tells the words apart, by their lengths and letters.
proof fn lemma_result_words()
    ensures
        "Please run /login"@.len() == 17,
        "error_during_execution"@.len() == 22,
        "error_max_budget_usd"@.len() == 20,
        "error_max_structured_output_retries"@.len() == 35,
        "error_max_turns"@.len() == 15,
        "max_tokens"@.len() == 10,
        "refusal"@.len() == 7 && "refusal"@[0] == 'r',
        "success"@.len() == 7 && "success"@[0] == 's',
{
    reveal_strlit("Please run /login");
    reveal_strlit("error_during_execution");
    reveal_strlit("error_max_budget_usd");
    reveal_strlit("error_max_structured_output_retries");
    reveal_strlit("error_max_turns");
    reveal_strlit("max_tokens");
    reveal_strlit("refusal");
    reveal_strlit("success");
}

/// A result belongs to no prompt exactly when the child gives it one of the five
/// origins of its own.
pub proof fn law_origins_of_their_own(frame: JsonSpec)
    ensures
        is_autonomous(frame) <==> came_of_itself(frame),
{
}

/// A turn whose answer ran into the token limit ends for that reason, whether or
/// not the result is called an error: a success that does not ask to log in, and a
/// failed execution alike.
pub proof fn law_token_limit_is_reported(m: MachineSpec, frame: JsonSpec, delivered: bool)
    requires
        in_flight(m),
        !came_of_itself(frame),
        has_text(frame, "stop_reason"@, "max_tokens"@),
        has_text(frame, "subtype"@, "error_during_execution"@) || (has_text(
            frame,
            "subtype"@,
            "success"@,
        ) && !asks_to_log_in(frame)),
    ensures
        m.result(frame, delivered).1 == seq![
            EventSpec::Settled {
                uuid: m.active->0.uuid,
                stop_reason: StopReason::MaxTokens,
                usage: m.result(frame, delivered).0.usage,
                had_usage: true,
            },
        ],
        m.result(frame, delivered).0.active is None,
{
    lemma_result_words();
    lemma_no_login(Seq::empty());
}

/// A turn that the model refused ends as refused, whatever else the result says.
pub proof fn law_refusal_is_reported(m: MachineSpec, frame: JsonSpec, delivered: bool)
    requires
        in_flight(m),
        !came_of_itself(frame),
        has_text(frame, "stop_reason"@, "refusal"@),
    ensures
        m.result(frame, delivered).1 == seq![
            EventSpec::Settled {
                uuid: m.active->0.uuid,
                stop_reason: StopReason::Refusal,
                usage: m.result(frame, delivered).0.usage,
                had_usage: true,
            },
        ],
        m.result(frame, delivered).0.active is None,
{
}

proof fn lemma_no_login(s: Seq<char>)
    ensures
        s.len() == 0 ==> !contains_text(s, "Please run /login"@),
{
    reveal_strlit("Please run /login");
}

/// A success that was neither refused, cut off, an error nor a demand to log in
/// ends the turn normally. Its text is told before that exactly if it was not
/// shown before: for a command that no model answers, or where nothing was shown
/// and the model wrote nothing.
pub proof fn law_success_ends_the_turn(
    m: MachineSpec,
    frame: JsonSpec,
    delivered: bool,
    text: Seq<char>,
)
    requires
        in_flight(m),
        !came_of_itself(frame),
        has_text(frame, "subtype"@, "success"@),
        !has_text(frame, "stop_reason"@, "refusal"@),
        !has_text(frame, "stop_reason"@, "max_tokens"@),
        !asks_to_log_in(frame),
        !says_error(frame),
        reads_text(frame, "result"@, text),
    ensures
        ({
            let (after, events) = m.result(frame, delivered);
            let end = EventSpec::Settled {
                uuid: m.active->0.uuid,
                stop_reason: StopReason::EndTurn,
                usage: after.usage,
                had_usage: true,
            };
            let unseen = m.active->0.local_only || (!delivered && !wrote_something(frame));
            &&& after.active is None
            &&& unseen && text.len() > 0 ==> events == seq![EventSpec::FinalText { text }, end]
            &&& !unseen || text.len() == 0 ==> events == seq![end]
        }),
{
    lemma_result_words();
    lemma_no_login(Seq::empty());
}

/// Whether a result reports tokens that the model wrote.
pub open spec fn wrote_something(frame: JsonSpec) -> bool {
    frame.get("usage"@) matches Some(usage) && usage.get("output_tokens"@) matches Some(
        JsonSpec::Number(NumberSpec::Pos(n)),
    ) && n > 0
}

/// A turn ends normally only if its result was neither refused, nor cut off by the
/// token limit, nor an error, nor a demand to log in, nor one of the other limits.
pub proof fn law_normal_end_has_no_other_cause(
    m: MachineSpec,
    frame: JsonSpec,
    delivered: bool,
    i: int,
)
    requires
        in_flight(m),
        !came_of_itself(frame),
        0 <= i < m.result(frame, delivered).1.len(),
        m.result(frame, delivered).1[i] matches EventSpec::Settled { stop_reason, .. }
            && stop_reason
            == StopReason::EndTurn,
    ensures
        !has_text(frame, "stop_reason"@, "refusal"@),
        has_text(frame, "subtype"@, "success"@) ==> !has_text(frame, "stop_reason"@, "max_tokens"@)
            && !asks_to_log_in(frame) && !says_error(frame),
        has_text(frame, "subtype"@, "error_during_execution"@) ==> !has_text(
            frame,
            "stop_reason"@,
            "max_tokens"@,
        ) && !says_error(frame),
        !has_text(frame, "subtype"@, "error_max_budget_usd"@),
        !has_text(frame, "subtype"@, "error_max_turns"@),
        !has_text(frame, "subtype"@, "error_max_structured_output_retries"@),
{
    lemma_result_words();
    lemma_no_login(Seq::empty());
}

/// A success that asks to log in fails the turn as such, with the text as the
/// message, even if it was cut off or is an error. Only a refusal goes before it.
pub proof fn law_login_is_demanded(
    m: MachineSpec,
    frame: JsonSpec,
    delivered: bool,
    text: Seq<char>,
)
    requires
        in_flight(m),
        !came_of_itself(frame),
        has_text(frame, "subtype"@, "success"@),
        !has_text(frame, "stop_reason"@, "refusal"@),
        has_text(frame, "result"@, text),
        contains_text(text, "Please run /login"@),
    ensures
        m.result(frame, delivered).1 == seq![
            EventSpec::Failed {
                uuid: m.active->0.uuid,
                kind: FailureKind::AuthRequired,
                message: text,
            },
        ],
        m.result(frame, delivered).0.active is None,
{
    lemma_result_words();
}

/// A success that is an error fails the turn with the text as the message.
pub proof fn law_error_fails_the_turn(
    m: MachineSpec,
    frame: JsonSpec,
    delivered: bool,
    text: Seq<char>,
)
    requires
        in_flight(m),
        !came_of_itself(frame),
        has_text(frame, "subtype"@, "success"@),
        !has_text(frame, "stop_reason"@, "refusal"@),
        !has_text(frame, "stop_reason"@, "max_tokens"@),
        says_error(frame),
        reads_text(frame, "result"@, text),
        !contains_text(text, "Please run /login"@),
    ensures
        m.result(frame, delivered).1 == seq![
            EventSpec::Failed {
                uuid: m.active->0.uuid,
                kind: FailureKind::ProviderError,
                message: text,
            },
        ],
        m.result(frame, delivered).0.active is None,
{
    lemma_result_words();
}

/// The failure that a subtype of a result stands for, where it is an error.
pub open spec fn stands_for(subtype: Seq<char>, kind: FailureKind) -> bool {
    ||| subtype == "error_during_execution"@ && kind is ProviderError
    ||| subtype == "error_max_budget_usd"@ && kind is BudgetExhausted
    ||| subtype == "error_max_turns"@ && kind is ContextExhausted
    ||| subtype == "error_max_structured_output_retries"@ && kind is ProviderError
}

/// A failed execution, and a limit that is an error, fail the turn as their subtype
/// says. The message is the texts of the errors with commas between them, or the
/// subtype where there are none. An execution that was cut off by the token limit
/// is left out.
pub proof fn law_failed_execution_fails_the_turn(
    m: MachineSpec,
    frame: JsonSpec,
    delivered: bool,
    subtype: Seq<char>,
    kind: FailureKind,
    errors: Seq<JsonSpec>,
)
    requires
        in_flight(m),
        !came_of_itself(frame),
        has_text(frame, "subtype"@, subtype),
        stands_for(subtype, kind),
        says_error(frame),
        !has_text(frame, "stop_reason"@, "refusal"@),
        subtype == "error_during_execution"@ ==> !has_text(frame, "stop_reason"@, "max_tokens"@),
        frame.get("errors"@) == Some(JsonSpec::Array(errors))
            || (!(frame.get("errors"@) matches Some(
            JsonSpec::Array(_),
        )) && errors == Seq::<JsonSpec>::empty()),
    ensures
        m.result(frame, delivered).1 == seq![
            EventSpec::Failed {
                uuid: m.active->0.uuid,
                kind: kind,
                message: if joined(strings_in(errors), ", "@).len() == 0 {
                    subtype
                } else {
                    joined(strings_in(errors), ", "@)
                },
            },
        ],
        m.result(frame, delivered).0.active is None,
{
    lemma_result_words();
    assert(strings_in(Seq::<JsonSpec>::empty()) =~= Seq::<Seq<char>>::empty());
    assert(joined(Seq::<Seq<char>>::empty(), ", "@) =~= Seq::<char>::empty());
}

/// Texts are listed in order, each once, with the separator between two of them and
/// nowhere else.
pub proof fn law_joined_texts(parts: Seq<Seq<char>>, last: Seq<char>, sep: Seq<char>)
    ensures
        joined(seq![last], sep) == last,
        parts.len() > 0 ==> joined(parts.push(last), sep) == joined(parts, sep) + sep + last,
{
    assert(parts.push(last).drop_last() =~= parts);
}

/// A failed execution that is no error, and was not cut off, ends the turn
/// normally; a limit that is no error ends it for having asked too often.
pub proof fn law_limit_without_error_ends_the_turn(
    m: MachineSpec,
    frame: JsonSpec,
    delivered: bool,
    subtype: Seq<char>,
    kind: FailureKind,
)
    requires
        in_flight(m),
        !came_of_itself(frame),
        has_text(frame, "subtype"@, subtype),
        stands_for(subtype, kind),
        !says_error(frame),
        !has_text(frame, "stop_reason"@, "refusal"@),
        subtype == "error_during_execution"@ ==> !has_text(frame, "stop_reason"@, "max_tokens"@),
    ensures
        m.result(frame, delivered).1 == seq![
            EventSpec::Settled {
                uuid: m.active->0.uuid,
                stop_reason: if subtype == "error_during_execution"@ {
                    StopReason::EndTurn
                } else {
                    StopReason::MaxTurnRequests
                },
                usage: m.result(frame, delivered).0.usage,
                had_usage: true,
            },
        ],
        m.result(frame, delivered).0.active is None,
{
    lemma_result_words();
}

/// A result of another kind, that was not refused, ends the turn normally.
pub proof fn law_other_result_ends_the_turn(m: MachineSpec, frame: JsonSpec, delivered: bool)
    requires
        in_flight(m),
        !came_of_itself(frame),
        !has_text(frame, "stop_reason"@, "refusal"@),
        !has_text(frame, "subtype"@, "success"@),
        forall|kind: FailureKind, subtype: Seq<char>|
            #[trigger] has_text(frame, "subtype"@, subtype) ==> !#[trigger] stands_for(
                subtype,
                kind,
            ),
    ensures
        m.result(frame, delivered).1 == seq![
            EventSpec::Settled {
                uuid: m.active->0.uuid,
                stop_reason: StopReason::EndTurn,
                usage: m.result(frame, delivered).0.usage,
                had_usage: true,
            },
        ],
        m.result(frame, delivered).0.active is None,
{
    lemma_result_words();
    if let Some(JsonSpec::Str(subtype)) = frame.get("subtype"@) {
        assert(has_text(frame, "subtype"@, subtype));
        assert(!stands_for(subtype, FailureKind::ProviderError));
        assert(!stands_for(subtype, FailureKind::BudgetExhausted));
        assert(!stands_for(subtype, FailureKind::ContextExhausted));
    }
}

/// How many tokens a result reports under a name; none if it reports none.
pub open spec fn reports(frame: JsonSpec, key: Seq<char>, n: u64) -> bool {
    match frame.get("usage"@) {
        Some(usage) => match usage.get(key) {
            Some(JsonSpec::Number(NumberSpec::Pos(k))) => k == n,
            _ => n == 0,
        },
        None => n == 0,
    }
}

/// What a result reports is added to what the turn used so far, each count to its
/// own. That holds of a cancelled turn too.
pub proof fn law_result_adds_its_tokens(
    m: MachineSpec,
    frame: JsonSpec,
    delivered: bool,
    input: u64,
    output: u64,
    read: u64,
    written: u64,
)
    requires
        m.active matches Some(t) && !t.settled && t.deferred is None,
        !came_of_itself(frame),
        reports(frame, "input_tokens"@, input),
        reports(frame, "output_tokens"@, output),
        reports(frame, "cache_read_input_tokens"@, read),
        reports(frame, "cache_creation_input_tokens"@, written),
        m.usage.input_tokens + input <= u64::MAX,
        m.usage.output_tokens + output <= u64::MAX,
        m.usage.cached_read_tokens + read <= u64::MAX,
        m.usage.cached_write_tokens + written <= u64::MAX,
    ensures
        m.result(frame, delivered).0.usage == (Usage {
            input_tokens: (m.usage.input_tokens + input) as u64,
            output_tokens: (m.usage.output_tokens + output) as u64,
            cached_read_tokens: (m.usage.cached_read_tokens + read) as u64,
            cached_write_tokens: (m.usage.cached_write_tokens + written) as u64,
        }),
{
}

/// A turn that awaits a subagent takes the same outcome from a result as one that
/// awaits none. A failure fails it at once; any other outcome is kept, with the
/// tokens used so far, and the turn stays in flight.
pub proof fn law_subagents_only_delay_the_outcome(m: MachineSpec, frame: JsonSpec, delivered: bool)
    requires
        m.active matches Some(t) && !t.settled && t.deferred is None,
        m.awaiting(m.active->0),
        !m.cancelled,
        !came_of_itself(frame),
    ensures
        ({
            let alone = MachineSpec { live: Map::empty(), ..m };
            let (after, events) = m.result(frame, delivered);
            let (settled, outcome) = alone.result(frame, delivered);
            &&& outcome.len() > 0
            &&& outcome.last() is Failed ==> events == outcome && after == (MachineSpec {
                live: m.live,
                ..settled
            })
            &&& outcome.last() matches EventSpec::Settled { stop_reason, usage, .. } ==> {
                &&& events == outcome.drop_last()
                &&& after == (MachineSpec {
                    live: m.live,
                    active: Some(
                        TurnSpec {
                            deferred: Some(DeferredSettle { stop_reason, usage }),
                            ..m.active->0
                        },
                    ),
                    ..settled
                })
            }
            &&& outcome.last() is Failed || outcome.last() is Settled
        }),
{
    let alone = MachineSpec { live: Map::empty(), ..m };
    assert(!alone.awaiting(m.active->0));
    let (after, events) = m.result(frame, delivered);
    let (settled, outcome) = alone.result(frame, delivered);
    if outcome.last() is Settled {
        assert(events =~= outcome.drop_last());
    }
}

/// A result that comes while no turn is in flight, and that is not owed to a
/// cancelled prompt, is that of the prompt that waited longest: it is activated and
/// takes the result as if it had been in flight, with nothing counted before.
pub proof fn law_result_without_echo_goes_to_the_first(
    m: MachineSpec,
    frame: JsonSpec,
    delivered: bool,
)
    requires
        m.active is None,
        m.orphan_results == 0,
        m.queue.len() > 0,
        !m.queue[0].settled,
        !came_of_itself(frame),
        m.queue[0].deferred is None,
    ensures
        ({
            let taken = MachineSpec {
                active: Some(m.queue[0]),
                queue: m.queue.skip(1),
                orphaned: Seq::empty(),
                cancelled: false,
                usage: no_usage(),
                ..m
            };
            let (after, events) = taken.result(frame, delivered);
            &&& m.result(frame, delivered).0 == after
            &&& m.result(frame, delivered).1
                == seq![EventSpec::Activated { uuid: m.queue[0].uuid }] + events
        }),
{
    assert(m.queue.remove(0) =~= m.queue.skip(1));
    assert(Seq::<EventSpec>::empty() + seq![EventSpec::Activated { uuid: m.queue[0].uuid }]
        =~= seq![EventSpec::Activated { uuid: m.queue[0].uuid }]);
    let taken = MachineSpec {
        active: Some(m.queue[0]),
        queue: m.queue.skip(1),
        orphaned: Seq::empty(),
        cancelled: false,
        usage: no_usage(),
        ..m
    };
    assert(taken.ensure_active() == (taken, Seq::<EventSpec>::empty()));
    assert(Seq::<EventSpec>::empty() + taken.result(frame, delivered).1 =~= taken.result(
        frame,
        delivered,
    ).1);
    let n = taken.owing().counting(crate::turn::reported_usage(frame)).judged(frame, delivered);
    assert(taken.result(frame, delivered).1 =~= n.1);
}

/// A result that comes while a turn only awaits its subagents belongs to a later
/// prompt: the turn is settled as its own result recorded, and the new one is taken as
/// if no turn had been in flight.
pub proof fn law_next_result_settles_the_held_turn(
    m: MachineSpec,
    frame: JsonSpec,
    delivered: bool,
    outcome: DeferredSettle,
)
    requires
        m.active matches Some(t) && !t.settled && t.deferred == Some(outcome),
        !came_of_itself(frame),
    ensures
        ({
            let (after, events) = MachineSpec { active: None, ..m }.result(frame, delivered);
            &&& m.result(frame, delivered).0 == after
            &&& m.result(frame, delivered).1 == seq![
                EventSpec::Settled {
                    uuid: m.active->0.uuid,
                    stop_reason: outcome.stop_reason,
                    usage: outcome.usage,
                    had_usage: true,
                },
            ] + events
        }),
{
    let alone = MachineSpec { active: None, ..m };
    let settled = seq![
        EventSpec::Settled {
            uuid: m.active->0.uuid,
            stop_reason: outcome.stop_reason,
            usage: outcome.usage,
            had_usage: true,
        },
    ];
    let (a, e) = alone.ensure_active();
    assert(m.ensure_active().0 == a);
    assert(m.ensure_active().1 =~= settled + e);
    assert(settled + alone.result(frame, delivered).1 =~= m.result(frame, delivered).1);
}

/// A result without a turn to take it shows and answers nothing.
pub proof fn law_result_without_a_turn_answers_nothing(
    m: MachineSpec,
    frame: JsonSpec,
    delivered: bool,
    i: int,
)
    requires
        m.active is None,
        m.queue.len() == 0,
        0 <= i < m.result(frame, delivered).1.len(),
    ensures
        !(m.result(frame, delivered).1[i] is Settled),
        !(m.result(frame, delivered).1[i] is Failed),
        !(m.result(frame, delivered).1[i] is Activated),
{
}

/// Every result owes the session an idle, which comes behind it; one of a
/// cancelled turn does not, as that idle settles the turn.
pub proof fn law_result_owes_an_idle(m: MachineSpec, frame: JsonSpec, delivered: bool)
    requires
        m.active matches Some(t) && !t.settled && t.deferred is None,
    ensures
        m.result(frame, delivered).0.owed_idles == (if m.cancelled && !came_of_itself(frame) {
            m.owed_idles
        } else {
            m.owed_idles + 1
        }),
        m.result(frame, delivered).0.queue == m.queue,
        m.result(frame, delivered).0.live == m.live,
        m.result(frame, delivered).0.state == m.state,
{
}

/// A result that no turn in flight takes owes an idle too, whatever was cancelled.
pub proof fn law_stray_result_owes_an_idle(m: MachineSpec, frame: JsonSpec, delivered: bool)
    requires
        m.active is None,
    ensures
        m.result(frame, delivered).0.owed_idles == m.owed_idles + 1,
{
}

/// The message of a failure that has none of its own.
pub proof fn law_failures_have_messages()
    ensures
        FailureKind::AuthRequired.message() == "Authentication required. Please run /login."@,
        FailureKind::ProviderError.message() == "The model provider returned an error."@,
        FailureKind::BudgetExhausted.message() == "The turn exceeded its budget."@,
        FailureKind::ContextExhausted.message() == "The context window was exhausted."@,
        FailureKind::NoResult.message()
            == "The turn ended without a result: the agent went idle while this prompt was still in flight (e.g. the model stream dropped mid-turn). Any partial output may be incomplete; please retry."@,
        contains_text(FailureKind::AuthRequired.message(), "Please run /login"@),
{
    reveal_strlit("Authentication required. Please run /login.");
    reveal_strlit("Please run /login");
    let hay = FailureKind::AuthRequired.message();
    let needle = "Please run /login"@;
    assert(hay.subrange(25, 42) =~= needle);
    assert(crate::strs::occurs_at(hay, needle, 25));
}

} // verus!
