//! The command executor: the work done for one submitted input line, less
//! the transport call itself. Parsing, gating, validation and the shape of
//! the emitted response event are all decided here; the embedding program
//! only carries the one named request and feeds its outcome back.

use vstd::prelude::*;
use crate::errors::{spec_error_line, ChatErrorWithMsg, ChatErrorView};
use crate::handlers::{spec_prepare, HandlerAction, prepare};
use crate::parse::{parse_input, spec_parse_input};
use crate::registry::{spec_decide, DispatchDecision, DispatchDecisionView, HandlerKind, PluginRegistry};
use crate::session::{spec_create_message, SessionState, SessionView};
use crate::types::{Endpoint, Message, MessageView, Response, ResponseView};

verus! {

/// The message one raw input line turns into for this session.
pub open spec fn spec_input_message(s: SessionView, input: Seq<char>) -> MessageView {
    spec_create_message(
        s,
        Seq::<char>::empty(),
        spec_parse_input(input).0,
        spec_parse_input(input).1,
        Seq::<char>::empty(),
    )
}

/// Parses one raw input line into a dispatchable message: the keyword and
/// content from the parser, the sender and id from the session.
pub fn parse_input_to_message(session: &SessionState, input: &str) -> (r: Message)
    ensures
        r@ == spec_input_message(session@, input@),
{
    let (plugin, content) = parse_input(input);
    session.create_message(String::new(), plugin, content, String::new())
}

/// The response event emitted for a handler result: the result as content,
/// no error.
pub open spec fn spec_ok_response(content: Seq<char>) -> ResponseView {
    ResponseView {
        client_id: Seq::<char>::empty(),
        rsp_name: Seq::<char>::empty(),
        content,
        err: Seq::<char>::empty(),
    }
}

/// The response event emitted for a failed command: no content, the
/// rendered `kind: message` line as the error.
pub open spec fn spec_err_response(e: ChatErrorView) -> ResponseView {
    ResponseView {
        client_id: Seq::<char>::empty(),
        rsp_name: Seq::<char>::empty(),
        content: Seq::<char>::empty(),
        err: spec_error_line(e),
    }
}

/// Turns a dispatch outcome into the one response event the consumer sees:
/// a success carries the result and an empty error, a failure carries an
/// empty content and the rendered error, never both.
pub fn outcome_to_response(outcome: Result<String, ChatErrorWithMsg>) -> (r: Response)
    ensures
        match outcome {
            Result::Ok(s) => r@ == spec_ok_response(s@),
            Result::Err(e) => r@ == spec_err_response(e@),
        },
{
    match outcome {
        Result::Ok(content) => Response {
            client_id: String::new(),
            rsp_name: String::new(),
            content,
            err: String::new(),
        },
        Result::Err(e) => Response {
            client_id: String::new(),
            rsp_name: String::new(),
            content: String::new(),
            err: e.formatted(),
        },
    }
}

/// What one submitted command comes to before any transport work: either
/// the response event to emit at once, or the one remote call to make.
pub enum ExecutorStep {
    Emit(Response),
    Call { kind: HandlerKind, endpoint: Endpoint, message: Message },
}

/// The mathematical content of an [`ExecutorStep`].
pub enum ExecutorStepView {
    Emit(ResponseView),
    Call { kind: HandlerKind, endpoint: Endpoint, message: MessageView },
}

impl View for ExecutorStep {
    type V = ExecutorStepView;

    open spec fn view(&self) -> ExecutorStepView {
        match self {
            ExecutorStep::Emit(rsp) => ExecutorStepView::Emit(rsp@),
            ExecutorStep::Call { kind, endpoint, message } => ExecutorStepView::Call {
                kind: *kind,
                endpoint: *endpoint,
                message: message@,
            },
        }
    }
}

/// The executor's plan for one message: a rejected or trivially empty
/// command is answered at once; a command whose handler fails validation is
/// answered at once with that error, before any transport work; everything
/// else becomes the handler's one remote call.
pub open spec fn spec_plan(registered: bool, s: SessionView, msg: MessageView) -> ExecutorStepView {
    match spec_decide(registered, msg) {
        DispatchDecisionView::Reject(e) => ExecutorStepView::Emit(spec_err_response(e)),
        DispatchDecisionView::NoOp => ExecutorStepView::Emit(
            spec_ok_response(Seq::<char>::empty()),
        ),
        DispatchDecisionView::Run(kind) => match spec_prepare(kind, s, msg) {
            crate::handlers::HandlerActionView::Fail(e) => ExecutorStepView::Emit(
                spec_err_response(e),
            ),
            crate::handlers::HandlerActionView::Call { endpoint, message } => ExecutorStepView::Call {
                kind,
                endpoint,
                message,
            },
        },
    }
}

/// Plans one message against the registration rule, the mapping and the
/// handler's validation, as [`spec_plan`] states.
pub fn plan(registry: &PluginRegistry, session: &SessionState, msg: Message) -> (r: ExecutorStep)
    requires
        registry.wf(),
    ensures
        r@ == spec_plan(session@.registered, session@, msg@),
{
    match registry.decide(session.is_registered(), &msg) {
        DispatchDecision::Reject(e) => ExecutorStep::Emit(outcome_to_response(Result::Err(e))),
        DispatchDecision::NoOp => ExecutorStep::Emit(outcome_to_response(Result::Ok(String::new()))),
        DispatchDecision::Run(kind) => match prepare(kind, session, msg) {
            HandlerAction::Fail(e) => ExecutorStep::Emit(outcome_to_response(Result::Err(e))),
            HandlerAction::Call { endpoint, message } => ExecutorStep::Call {
                kind,
                endpoint,
                message,
            },
        },
    }
}

/// Plans one raw input line: parses it into a message and plans that
/// message.
pub fn plan_input(registry: &PluginRegistry, session: &SessionState, input: &str) -> (r:
    ExecutorStep)
    requires
        registry.wf(),
    ensures
        r@ == spec_plan(session@.registered, session@, spec_input_message(session@, input@)),
{
    let msg = parse_input_to_message(session, input);
    plan(registry, session, msg)
}

} // verus!
