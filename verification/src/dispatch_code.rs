//! The code by which a mediator hands a message to its handlers, and what the code does when it
//! runs.

use vstd::prelude::*;

use crate::error;
use crate::registration::RegistrationKind;

verus! {

/// Lines of code, one behind the other.
#[derive(Debug)]
pub enum Code {
    /// No further line.
    End,
    /// A line, and what stands behind it.
    Line(String, Box<Code>),
    /// A head, what stands in its braces, and what stands behind them.
    Block(String, Box<Code>, Box<Code>),
}

/// Mathematical model of [`Code`].
pub enum CodeView {
    End,
    Line(Seq<char>, Box<CodeView>),
    Block(Seq<char>, Box<CodeView>, Box<CodeView>),
}

/// The model of code.
pub open spec fn code_view(code: Code) -> CodeView
    decreases code,
{
    match code {
        Code::End => CodeView::End,
        Code::Line(text, rest) => CodeView::Line(text@, Box::new(code_view(*rest))),
        Code::Block(head, body, rest) => CodeView::Block(
            head@,
            Box::new(code_view(*body)),
            Box::new(code_view(*rest)),
        ),
    }
}

impl View for Code {
    type V = CodeView;

    open spec fn view(&self) -> CodeView {
        code_view(*self)
    }
}

/// How code is written.
pub open spec fn written(code: CodeView) -> Seq<char>
    decreases code,
{
    match code {
        CodeView::End => Seq::empty(),
        CodeView::Line(text, rest) => text + written(*rest),
        CodeView::Block(head, body, rest) => head + "{ "@ + written(*body) + "} "@ + written(*rest),
    }
}

fn line(text: &str, rest: Code) -> (result: Code)
    ensures
        result@ == CodeView::Line(text@, Box::new(rest@)),
{
    Code::Line(text.to_owned(), Box::new(rest))
}

fn block(head: &str, body: Code, rest: Code) -> (result: Code)
    ensures
        result@ == CodeView::Block(head@, Box::new(body@), Box::new(rest@)),
{
    Code::Block(head.to_owned(), Box::new(body), Box::new(rest))
}

impl Code {
    /// Writes the code behind a text.
    pub fn write(&self, output: &mut String)
        ensures
            final(output)@ == old(output)@ + written(self@),
        decreases self,
    {
        let ghost before = output@;
        match self {
            Code::End => {},
            Code::Line(text, rest) => {
                output.append(text.as_str());
                rest.write(output);
            },
            Code::Block(head, body, rest) => {
                output.append(head.as_str());
                output.append("{ ");
                body.write(output);
                output.append("} ");
                rest.write(output);
            },
        }
        assert(output@ =~= before + written(self@));
    }
}

/// The code that keeps the first failure.
pub open spec fn failure_code() -> CodeView {
    CodeView::Block(
        "if first_error.is_none() "@,
        Box::new(
            CodeView::Line(
                "first_error = ::std::option::Option::Some(error); "@,
                Box::new(CodeView::End),
            ),
        ),
        Box::new(CodeView::End),
    )
}

/// The code that hands an event to one more handler of those in front of the last.
pub open spec fn repeated_code() -> CodeView {
    CodeView::Block(
        "if let ::std::result::Result::Err(error) = ::catga_core::EventHandler::handle(handler, event.clone()).await "@,
        Box::new(failure_code()),
        Box::new(CodeView::End),
    )
}

/// The code that hands an event to the last handler and returns the first failure.
pub open spec fn last_code() -> CodeView {
    CodeView::Block(
        "if let ::std::result::Result::Err(error) = ::catga_core::EventHandler::handle(last, event).await "@,
        Box::new(failure_code()),
        Box::new(
            CodeView::Block(
                "if let ::std::option::Option::Some(error) = first_error "@,
                Box::new(
                    CodeView::Line(
                        "return ::std::result::Result::Err(error); "@,
                        Box::new(CodeView::End),
                    ),
                ),
                Box::new(CodeView::End),
            ),
        ),
    )
}

/// The code that hands an event to some handlers.
pub open spec fn handlers_code() -> CodeView {
    CodeView::Line(
        "let mut first_error = ::std::option::Option::None; "@,
        Box::new(
            CodeView::Block(
                "for handler in preceding "@,
                Box::new(repeated_code()),
                Box::new(last_code()),
            ),
        ),
    )
}

/// The code that hands an event to the handlers of a field.
pub open spec fn event_code(field: Seq<char>) -> CodeView {
    CodeView::Line(
        "let handlers = &self."@ + field + "; "@,
        Box::new(
            CodeView::Block(
                "if let Some((last, preceding)) = handlers.split_last() "@,
                Box::new(handlers_code()),
                Box::new(
                    CodeView::Line("::std::result::Result::Ok(()) "@, Box::new(CodeView::End)),
                ),
            ),
        ),
    )
}

/// The code that hands a request to the handler of a field.
pub open spec fn request_code(field: Seq<char>) -> CodeView {
    CodeView::Line(
        "::catga_core::Handler::handle(&self."@ + field + ", message).await "@,
        Box::new(CodeView::End),
    )
}

/// The code that hands a command to the handler of a field.
pub open spec fn command_code(field: Seq<char>) -> CodeView {
    CodeView::Line(
        "::catga_core::CommandHandler::handle(&self."@ + field + ", command).await "@,
        Box::new(CodeView::End),
    )
}

fn keep_failure() -> (result: Code)
    ensures
        result@ == failure_code(),
{
    block(
        "if first_error.is_none() ",
        line("first_error = ::std::option::Option::Some(error); ", Code::End),
        Code::End,
    )
}

fn hand_to_each() -> (result: Code)
    ensures
        result@ == repeated_code(),
{
    block(
        "if let ::std::result::Result::Err(error) = ::catga_core::EventHandler::handle(handler, event.clone()).await ",
        keep_failure(),
        Code::End,
    )
}

fn hand_to_last() -> (result: Code)
    ensures
        result@ == last_code(),
{
    block(
        "if let ::std::result::Result::Err(error) = ::catga_core::EventHandler::handle(last, event).await ",
        keep_failure(),
        block(
            "if let ::std::option::Option::Some(error) = first_error ",
            line("return ::std::result::Result::Err(error); ", Code::End),
            Code::End,
        ),
    )
}

/// Returns the code that hands an event to the handlers of a field.
pub fn hand_event(field: &str) -> (result: Code)
    ensures
        result@ == event_code(field@),
{
    let mut first: String = "let handlers = &self.".to_owned();
    first.append(field);
    first.append("; ");
    line(
        first.as_str(),
        block(
            "if let Some((last, preceding)) = handlers.split_last() ",
            line(
                "let mut first_error = ::std::option::Option::None; ",
                block("for handler in preceding ", hand_to_each(), hand_to_last()),
            ),
            line("::std::result::Result::Ok(()) ", Code::End),
        ),
    )
}

/// Returns the code that hands a request to the handler of a field.
pub fn hand_request(field: &str) -> (result: Code)
    ensures
        result@ == request_code(field@),
{
    let mut text: String = "::catga_core::Handler::handle(&self.".to_owned();
    text.append(field);
    text.append(", message).await ");
    line(text.as_str(), Code::End)
}

/// Returns the code that hands a command to the handler of a field.
pub fn hand_command(field: &str) -> (result: Code)
    ensures
        result@ == command_code(field@),
{
    let mut text: String = "::catga_core::CommandHandler::handle(&self.".to_owned();
    text.append(field);
    text.append(", command).await ");
    line(text.as_str(), Code::End)
}

/// The variables of running code, and what it has done.
#[verifier::ext_equal]
pub struct CodeState {
    /// What is handed over: `message` is a request, `command` a command and `event` an event.
    pub kind: RegistrationKind,
    /// Whether `handlers` stands for the handlers of the field.
    pub handlers: bool,
    /// Whether `last` stands for the last handler and `preceding` for those in front of it.
    pub split: bool,
    /// The place of the handler that `handler` stands for.
    pub handler: Option<int>,
    /// The failure that `error` stands for.
    pub error: Option<error::ErrorView>,
    /// What `first_error` holds, where it is declared.
    pub first_error: Option<Option<error::ErrorView>>,
    /// Whether the message was given away.
    pub given: bool,
    /// The places of the handlers that were called, in order.
    pub calls: Seq<int>,
    /// What was returned.
    pub returned: Option<Result<(), error::ErrorView>>,
    /// Whether the code has no meaning from here on.
    pub stuck: bool,
}

/// The state in which code starts.
pub open spec fn fresh(kind: RegistrationKind) -> CodeState {
    CodeState {
        kind,
        handlers: false,
        split: false,
        handler: None,
        error: None,
        first_error: None,
        given: false,
        calls: Seq::empty(),
        returned: None,
        stuck: false,
    }
}

/// The state after a handler was called, whatever it returned.
pub open spec fn called(state: CodeState, place: int, gives: bool) -> CodeState {
    CodeState { calls: state.calls.push(place), given: gives, ..state }
}

/// The state of code without meaning.
pub open spec fn meaningless(state: CodeState) -> CodeState {
    CodeState { stuck: true, ..state }
}

/// What a line does, read as Rust, where each handler of a field returns its outcome.
pub open spec fn line_run(
    text: Seq<char>,
    field: Seq<char>,
    outcomes: Seq<Result<(), error::ErrorView>>,
    state: CodeState,
) -> CodeState {
    if text == "let handlers = &self."@ + field + "; "@ {
        CodeState { handlers: true, ..state }
    } else if text == "let mut first_error = ::std::option::Option::None; "@ {
        CodeState { first_error: Some(None), ..state }
    } else if text == "first_error = ::std::option::Option::Some(error); "@ && state.error is Some
        && state.first_error is Some {
        CodeState { first_error: Some(state.error), ..state }
    } else if text == "return ::std::result::Result::Err(error); "@ && state.error is Some {
        CodeState { returned: Some(Err(state.error->0)), ..state }
    } else if text == "::std::result::Result::Ok(()) "@ {
        CodeState { returned: Some(Ok(())), ..state }
    } else if ((text == "::catga_core::Handler::handle(&self."@ + field + ", message).await "@
        && state.kind == RegistrationKind::Request) || (text
        == "::catga_core::CommandHandler::handle(&self."@ + field + ", command).await "@
        && state.kind == RegistrationKind::Command)) && outcomes.len() == 1 && !state.given {
        CodeState { returned: Some(outcomes[0]), ..called(state, 0, true) }
    } else {
        meaningless(state)
    }
}

/// What code does, read as Rust, where each handler of a field returns its outcome.
pub open spec fn code_run(
    code: CodeView,
    field: Seq<char>,
    outcomes: Seq<Result<(), error::ErrorView>>,
    state: CodeState,
) -> CodeState
    decreases code, 0int, 0int,
{
    if state.returned is Some || state.stuck {
        state
    } else {
        match code {
            CodeView::End => state,
            CodeView::Line(text, rest) => code_run(
                *rest,
                field,
                outcomes,
                line_run(text, field, outcomes, state),
            ),
            CodeView::Block(head, body, rest) => code_run(
                *rest,
                field,
                outcomes,
                block_run(head, *body, field, outcomes, state),
            ),
        }
    }
}

/// What code in braces does behind a head, read as Rust. What the head declares ends with the
/// braces.
pub open spec fn block_run(
    head: Seq<char>,
    body: CodeView,
    field: Seq<char>,
    outcomes: Seq<Result<(), error::ErrorView>>,
    state: CodeState,
) -> CodeState
    decreases body, 2int, 0int,
{
    if head == "if let Some((last, preceding)) = handlers.split_last() "@ && state.handlers {
        if outcomes.len() == 0 {
            state
        } else {
            let inner = code_run(body, field, outcomes, CodeState { split: true, ..state });
            CodeState { split: false, first_error: state.first_error, ..inner }
        }
    } else if head == "for handler in preceding "@ && state.split {
        loop_run(body, field, outcomes, state, 0)
    } else if head
        == "if let ::std::result::Result::Err(error) = ::catga_core::EventHandler::handle(handler, event.clone()).await "@
        && state.kind == RegistrationKind::Event && state.handler is Some && !state.given {
        failure_run(body, field, outcomes, called(state, state.handler->0, false), state.handler->0)
    } else if head
        == "if let ::std::result::Result::Err(error) = ::catga_core::EventHandler::handle(last, event).await "@
        && state.kind == RegistrationKind::Event && state.split && !state.given {
        failure_run(
            body,
            field,
            outcomes,
            called(state, outcomes.len() - 1, true),
            outcomes.len() - 1,
        )
    } else if head == "if first_error.is_none() "@ && state.first_error is Some {
        if state.first_error->0 is None {
            code_run(body, field, outcomes, state)
        } else {
            state
        }
    } else if head == "if let ::std::option::Option::Some(error) = first_error "@
        && state.first_error is Some {
        match state.first_error->0 {
            Some(error) => {
                let inner = code_run(body, field, outcomes, CodeState { error: Some(error), ..state });
                CodeState { error: state.error, ..inner }
            },
            None => state,
        }
    } else {
        meaningless(state)
    }
}

/// What code does with the failure of a handler that was called, where it failed.
pub open spec fn failure_run(
    body: CodeView,
    field: Seq<char>,
    outcomes: Seq<Result<(), error::ErrorView>>,
    state: CodeState,
    place: int,
) -> CodeState
    decreases body, 1int, 0int,
{
    match outcomes[place] {
        Ok(_) => state,
        Err(failure) => {
            let inner = code_run(body, field, outcomes, CodeState { error: Some(failure), ..state });
            CodeState { error: state.error, ..inner }
        },
    }
}

/// What code does once for each handler in front of the last, from a place on.
pub open spec fn loop_run(
    body: CodeView,
    field: Seq<char>,
    outcomes: Seq<Result<(), error::ErrorView>>,
    state: CodeState,
    place: int,
) -> CodeState
    decreases body, 1int, outcomes.len() - place,
{
    if state.returned is Some || state.stuck || place >= outcomes.len() - 1 {
        state
    } else {
        let inner = code_run(body, field, outcomes, CodeState { handler: Some(place), ..state });
        loop_run(
            body,
            field,
            outcomes,
            CodeState { handler: state.handler, ..inner },
            place + 1,
        )
    }
}

proof fn lemma_lines_differ(field: Seq<char>)
    ensures
        "let mut first_error = ::std::option::Option::None; "@ != "let handlers = &self."@ + field
            + "; "@,
        "first_error = ::std::option::Option::Some(error); "@ != "let handlers = &self."@ + field
            + "; "@,
        "first_error = ::std::option::Option::Some(error); "@
            != "let mut first_error = ::std::option::Option::None; "@,
        "return ::std::result::Result::Err(error); "@ != "let handlers = &self."@ + field + "; "@,
        "return ::std::result::Result::Err(error); "@
            != "let mut first_error = ::std::option::Option::None; "@,
        "return ::std::result::Result::Err(error); "@
            != "first_error = ::std::option::Option::Some(error); "@,
        "::std::result::Result::Ok(()) "@ != "let handlers = &self."@ + field + "; "@,
        "::std::result::Result::Ok(()) "@ != "let mut first_error = ::std::option::Option::None; "@,
        "::std::result::Result::Ok(()) "@ != "first_error = ::std::option::Option::Some(error); "@,
        "::std::result::Result::Ok(()) "@ != "return ::std::result::Result::Err(error); "@,
{
    reveal_strlit("let handlers = &self.");
    reveal_strlit("let mut first_error = ::std::option::Option::None; ");
    reveal_strlit("first_error = ::std::option::Option::Some(error); ");
    reveal_strlit("return ::std::result::Result::Err(error); ");
    reveal_strlit("::std::result::Result::Ok(()) ");
    let bound = "let handlers = &self."@ + field + "; "@;
    assert(bound[0] == 'l' && bound[4] == 'h');
    assert("let mut first_error = ::std::option::Option::None; "@[4] == 'm');
    assert("let mut first_error = ::std::option::Option::None; "@[0] == 'l');
    assert("first_error = ::std::option::Option::Some(error); "@[0] == 'f');
    assert("return ::std::result::Result::Err(error); "@[0] == 'r');
    assert("::std::result::Result::Ok(()) "@[0] == ':');
}

proof fn lemma_heads_differ()
    ensures
        "for handler in preceding "@ != "if let Some((last, preceding)) = handlers.split_last() "@,
        "if let ::std::result::Result::Err(error) = ::catga_core::EventHandler::handle(handler, event.clone()).await "@
            != "if let Some((last, preceding)) = handlers.split_last() "@,
        "if let ::std::result::Result::Err(error) = ::catga_core::EventHandler::handle(handler, event.clone()).await "@
            != "for handler in preceding "@,
        "if let ::std::result::Result::Err(error) = ::catga_core::EventHandler::handle(last, event).await "@
            != "if let Some((last, preceding)) = handlers.split_last() "@,
        "if let ::std::result::Result::Err(error) = ::catga_core::EventHandler::handle(last, event).await "@
            != "for handler in preceding "@,
        "if let ::std::result::Result::Err(error) = ::catga_core::EventHandler::handle(last, event).await "@
            != "if let ::std::result::Result::Err(error) = ::catga_core::EventHandler::handle(handler, event.clone()).await "@,
        "if first_error.is_none() "@ != "if let Some((last, preceding)) = handlers.split_last() "@,
        "if first_error.is_none() "@ != "for handler in preceding "@,
        "if first_error.is_none() "@
            != "if let ::std::result::Result::Err(error) = ::catga_core::EventHandler::handle(handler, event.clone()).await "@,
        "if first_error.is_none() "@
            != "if let ::std::result::Result::Err(error) = ::catga_core::EventHandler::handle(last, event).await "@,
        "if let ::std::option::Option::Some(error) = first_error "@
            != "if let Some((last, preceding)) = handlers.split_last() "@,
        "if let ::std::option::Option::Some(error) = first_error "@ != "for handler in preceding "@,
        "if let ::std::option::Option::Some(error) = first_error "@
            != "if let ::std::result::Result::Err(error) = ::catga_core::EventHandler::handle(handler, event.clone()).await "@,
        "if let ::std::option::Option::Some(error) = first_error "@
            != "if let ::std::result::Result::Err(error) = ::catga_core::EventHandler::handle(last, event).await "@,
        "if let ::std::option::Option::Some(error) = first_error "@ != "if first_error.is_none() "@,
{
    reveal_strlit("if let Some((last, preceding)) = handlers.split_last() ");
    reveal_strlit("for handler in preceding ");
    reveal_strlit(
        "if let ::std::result::Result::Err(error) = ::catga_core::EventHandler::handle(handler, event.clone()).await ",
    );
    reveal_strlit(
        "if let ::std::result::Result::Err(error) = ::catga_core::EventHandler::handle(last, event).await ",
    );
    reveal_strlit("if first_error.is_none() ");
    reveal_strlit("if let ::std::option::Option::Some(error) = first_error ");
    assert("if let Some((last, preceding)) = handlers.split_last() "@.len() == 55);
    assert("for handler in preceding "@.len() == 25);
    assert("if first_error.is_none() "@.len() == 25);
    assert("for handler in preceding "@[0] == 'f');
    assert("if first_error.is_none() "@[0] == 'i');
    assert("if let ::std::option::Option::Some(error) = first_error "@.len() == 56);
    assert("if let ::std::result::Result::Err(error) = ::catga_core::EventHandler::handle(last, event).await "@.len()
        == 97);
    assert("if let ::std::result::Result::Err(error) = ::catga_core::EventHandler::handle(handler, event.clone()).await "@.len()
        == 108);
}

/// The failure that the first of some handlers to fail returned.
pub open spec fn earliest(outcomes: Seq<Result<(), error::ErrorView>>, count: int) -> Option<
    error::ErrorView,
>
    decreases count,
{
    if count <= 0 {
        None
    } else {
        match earliest(outcomes, count - 1) {
            Some(failure) => Some(failure),
            None => match outcomes[count - 1] {
                Err(failure) => Some(failure),
                Ok(_) => None,
            },
        }
    }
}

/// The places from 0 up to a number.
pub open spec fn places(count: nat) -> Seq<int> {
    Seq::new(count, |i: int| i)
}

/// The state of the code between two calls of handlers.
spec fn between_calls(outcomes: Seq<Result<(), error::ErrorView>>, count: int) -> CodeState {
    CodeState {
        handlers: true,
        split: true,
        first_error: Some(earliest(outcomes, count)),
        calls: places(count as nat),
        ..fresh(RegistrationKind::Event)
    }
}

proof fn lemma_failures_are_kept(
    field: Seq<char>,
    outcomes: Seq<Result<(), error::ErrorView>>,
    state: CodeState,
    place: int,
)
    requires
        0 <= place < outcomes.len(),
        !state.stuck,
        state.returned is None,
        state.first_error == Some(earliest(outcomes, place)),
    ensures
        failure_run(failure_code(), field, outcomes, state, place) == (CodeState {
            first_error: Some(earliest(outcomes, place + 1)),
            ..state
        }),
{
    lemma_lines_differ(field);
    lemma_heads_differ();
    if let Err(failure) = outcomes[place] {
        let failed = CodeState { error: Some(failure), ..state };
        let keeping = CodeView::Line(
            "first_error = ::std::option::Option::Some(error); "@,
            Box::new(CodeView::End),
        );
        let kept = CodeState { first_error: Some(Some(failure)), ..failed };
        assert(code_run(CodeView::End, field, outcomes, kept) == kept);
        assert(code_run(keeping, field, outcomes, failed) == code_run(
            CodeView::End,
            field,
            outcomes,
            line_run(
                "first_error = ::std::option::Option::Some(error); "@,
                field,
                outcomes,
                failed,
            ),
        ));
        let inner = block_run("if first_error.is_none() "@, keeping, field, outcomes, failed);
        assert(inner == if earliest(outcomes, place) is None {
            kept
        } else {
            failed
        });
        assert(code_run(CodeView::End, field, outcomes, inner) == inner);
        assert(code_run(failure_code(), field, outcomes, failed) == inner);
    }
}

proof fn lemma_preceding_handlers_are_called(
    field: Seq<char>,
    outcomes: Seq<Result<(), error::ErrorView>>,
    place: int,
)
    requires
        0 <= place < outcomes.len(),
    ensures
        loop_run(repeated_code(), field, outcomes, between_calls(outcomes, place), place)
            == between_calls(outcomes, outcomes.len() - 1),
    decreases outcomes.len() - place,
{
    if place < outcomes.len() - 1 {
        let state = between_calls(outcomes, place);
        let start = CodeState { handler: Some(place), ..state };
        let after = called(start, place, false);
        lemma_heads_differ();
        lemma_failures_are_kept(field, outcomes, after, place);
        reveal_with_fuel(code_run, 2);
        let inner = code_run(repeated_code(), field, outcomes, start);
        let end = failure_run(failure_code(), field, outcomes, after, place);
        assert(inner == end);
        assert(places(place as nat).push(place) =~= places((place + 1) as nat));
        assert((CodeState { handler: state.handler, ..inner }) =~= between_calls(
            outcomes,
            place + 1,
        ));
        lemma_preceding_handlers_are_called(field, outcomes, place + 1);
    }
}

/// The code of an event calls every handler of its field exactly once, in the order of the field and
/// whatever the handlers before it returned, and returns the failure of the first that failed, or
/// success where none failed.
pub proof fn lemma_every_handler_receives_the_event(
    field: Seq<char>,
    outcomes: Seq<Result<(), error::ErrorView>>,
)
    ensures
        ({
            let end = code_run(event_code(field), field, outcomes, fresh(RegistrationKind::Event));
            &&& !end.stuck
            &&& end.calls.len() == outcomes.len()
            &&& forall|i: int| 0 <= i < end.calls.len() ==> #[trigger] end.calls[i] == i
            &&& end.returned is Some
            &&& match end.returned->0 {
                Ok(_) => forall|i: int| 0 <= i < outcomes.len() ==> #[trigger] outcomes[i] is Ok,
                Err(failure) => exists|first: int|
                    {
                        &&& 0 <= first < outcomes.len()
                        &&& #[trigger] outcomes[first] == Err::<(), error::ErrorView>(failure)
                        &&& forall|i: int| 0 <= i < first ==> #[trigger] outcomes[i] is Ok
                    },
            }
        }),
{
    lemma_lines_differ(field);
    lemma_heads_differ();
    let count = outcomes.len() as int;
    let bound = CodeState { handlers: true, ..fresh(RegistrationKind::Event) };
    lemma_earliest(outcomes, count);
    let ending = CodeView::Line("::std::result::Result::Ok(()) "@, Box::new(CodeView::End));
    let code = CodeView::Block(
        "if let Some((last, preceding)) = handlers.split_last() "@,
        Box::new(handlers_code()),
        Box::new(ending),
    );
    let end = code_run(event_code(field), field, outcomes, fresh(RegistrationKind::Event));
    assert(end == code_run(code, field, outcomes, bound));
    let split = block_run(
        "if let Some((last, preceding)) = handlers.split_last() "@,
        handlers_code(),
        field,
        outcomes,
        bound,
    );
    assert(end == code_run(ending, field, outcomes, split));
    if count > 0 {
        let opened = CodeState { split: true, ..bound };
        assert(places(0) =~= Seq::<int>::empty());
        assert((CodeState { first_error: Some(None), ..opened }) =~= between_calls(outcomes, 0));
        lemma_preceding_handlers_are_called(field, outcomes, 0);
        let looping = CodeView::Block(
            "for handler in preceding "@,
            Box::new(repeated_code()),
            Box::new(last_code()),
        );
        let inner = code_run(handlers_code(), field, outcomes, opened);
        assert(inner == code_run(looping, field, outcomes, between_calls(outcomes, 0)));
        let looped = block_run(
            "for handler in preceding "@,
            repeated_code(),
            field,
            outcomes,
            between_calls(outcomes, 0),
        );
        assert(looped == loop_run(
            repeated_code(),
            field,
            outcomes,
            between_calls(outcomes, 0),
            0,
        ));
        assert(looped == between_calls(outcomes, count - 1));
        assert(inner == code_run(last_code(), field, outcomes, looped));
        lemma_last_handler_is_called(field, outcomes);
    }
    if split.returned is None {
        let done = CodeState { returned: Some(Ok(())), ..split };
        assert(code_run(CodeView::End, field, outcomes, done) == done);
        assert(end == done);
    }
}

proof fn lemma_last_handler_is_called(
    field: Seq<char>,
    outcomes: Seq<Result<(), error::ErrorView>>,
)
    requires
        outcomes.len() > 0,
    ensures
        code_run(last_code(), field, outcomes, between_calls(outcomes, outcomes.len() - 1)) == (
        CodeState {
            given: true,
            calls: places(outcomes.len()),
            first_error: Some(earliest(outcomes, outcomes.len() as int)),
            returned: match earliest(outcomes, outcomes.len() as int) {
                Some(failure) => Some(Err(failure)),
                None => None,
            },
            ..between_calls(outcomes, outcomes.len() - 1)
        }),
{
    lemma_lines_differ(field);
    lemma_heads_differ();
    let count = outcomes.len() as int;
    let looped = between_calls(outcomes, count - 1);
    let after = called(looped, count - 1, true);
    lemma_failures_are_kept(field, outcomes, after, count - 1);
    let kept = CodeState { first_error: Some(earliest(outcomes, count)), ..after };
    assert(places((count - 1) as nat).push(count - 1) =~= places(count as nat));
    let returning = CodeView::Line(
        "return ::std::result::Result::Err(error); "@,
        Box::new(CodeView::End),
    );
    let last = CodeView::Block(
        "if let ::std::option::Option::Some(error) = first_error "@,
        Box::new(returning),
        Box::new(CodeView::End),
    );
    let handed = block_run(
        "if let ::std::result::Result::Err(error) = ::catga_core::EventHandler::handle(last, event).await "@,
        failure_code(),
        field,
        outcomes,
        looped,
    );
    assert(handed == failure_run(failure_code(), field, outcomes, after, count - 1));
    assert(handed == kept);
    assert(code_run(last_code(), field, outcomes, looped) == code_run(last, field, outcomes, kept));
    let end = block_run(
        "if let ::std::option::Option::Some(error) = first_error "@,
        returning,
        field,
        outcomes,
        kept,
    );
    assert(code_run(last, field, outcomes, kept) == code_run(CodeView::End, field, outcomes, end));
    assert(code_run(CodeView::End, field, outcomes, end) == end);
    if let Some(failure) = earliest(outcomes, count) {
        let named = CodeState { error: Some(failure), ..kept };
        let returned = CodeState { returned: Some(Err(failure)), ..named };
        assert(code_run(CodeView::End, field, outcomes, returned) == returned);
        assert(code_run(returning, field, outcomes, named) == returned);
    }
}

proof fn lemma_earliest(outcomes: Seq<Result<(), error::ErrorView>>, count: int)
    requires
        0 <= count <= outcomes.len(),
    ensures
        match earliest(outcomes, count) {
            None => forall|i: int| 0 <= i < count ==> #[trigger] outcomes[i] is Ok,
            Some(failure) => exists|first: int|
                {
                    &&& 0 <= first < count
                    &&& #[trigger] outcomes[first] == Err::<(), error::ErrorView>(failure)
                    &&& forall|i: int| 0 <= i < first ==> #[trigger] outcomes[i] is Ok
                },
        },
    decreases count,
{
    if count > 0 {
        lemma_earliest(outcomes, count - 1);
        assert(outcomes[count - 1] == outcomes[count - 1]);
    }
}

/// The code of a request or a command calls the one handler of its field once and returns what that
/// handler returned.
pub proof fn lemma_one_handler_answers(field: Seq<char>, outcome: Result<(), error::ErrorView>)
    ensures
        ({
            let requested = code_run(
                request_code(field),
                field,
                seq![outcome],
                fresh(RegistrationKind::Request),
            );
            &&& !requested.stuck
            &&& requested.calls == seq![0int]
            &&& requested.returned == Some(outcome)
        }),
        ({
            let commanded = code_run(
                command_code(field),
                field,
                seq![outcome],
                fresh(RegistrationKind::Command),
            );
            &&& !commanded.stuck
            &&& commanded.calls == seq![0int]
            &&& commanded.returned == Some(outcome)
        }),
{
    reveal_strlit("let handlers = &self.");
    reveal_strlit("let mut first_error = ::std::option::Option::None; ");
    reveal_strlit("first_error = ::std::option::Option::Some(error); ");
    reveal_strlit("return ::std::result::Result::Err(error); ");
    reveal_strlit("::std::result::Result::Ok(()) ");
    reveal_strlit("::catga_core::Handler::handle(&self.");
    reveal_strlit("::catga_core::CommandHandler::handle(&self.");
    let bound = "let handlers = &self."@ + field + "; "@;
    let request = "::catga_core::Handler::handle(&self."@ + field + ", message).await "@;
    let command = "::catga_core::CommandHandler::handle(&self."@ + field + ", command).await "@;
    assert(bound[0] == 'l' && request[0] == ':' && request[2] == 'c');
    assert(command[0] == ':' && command[2] == 'c');
    assert("let mut first_error = ::std::option::Option::None; "@[0] == 'l');
    assert("first_error = ::std::option::Option::Some(error); "@[0] == 'f');
    assert("return ::std::result::Result::Err(error); "@[0] == 'r');
    assert("::std::result::Result::Ok(()) "@[2] == 's');
    reveal_with_fuel(code_run, 2);
    assert(Seq::<int>::empty().push(0) =~= seq![0int]);
}

} // verus!
