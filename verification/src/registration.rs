//! Handler registrations: `request Message => handler;`, `command Message => handler;` and
//! `event Message => [handler, ...];`.

use vstd::prelude::*;

use crate::search;
use crate::syntax;
use crate::syntax::{parse_elements, parse_expression, parse_identifier, parse_path, Token};
use crate::text::same_text;

verus! {

/// What a registration registers handlers for.
#[derive(Clone, Copy, Debug, PartialEq, Eq, Structural)]
pub enum RegistrationKind {
    /// A request, answered by one handler.
    Request,
    /// A command, carried out by one handler.
    Command,
    /// An event, observed by one handler or more.
    Event,
}

/// The handlers of one message.
#[derive(Debug)]
pub struct Registration {
    /// What the message is.
    pub kind: RegistrationKind,
    /// How the message type is written.
    pub message: String,
    /// How the handlers are written, in their order.
    pub handlers: Vec<String>,
}

/// Mathematical model of a [`Registration`].
pub struct RegistrationView {
    pub kind: RegistrationKind,
    pub message: Seq<char>,
    pub handlers: Seq<Seq<char>>,
}

impl View for Registration {
    type V = RegistrationView;

    open spec fn view(&self) -> RegistrationView {
        RegistrationView {
            kind: self.kind,
            message: self.message@,
            handlers: self.handlers.deep_view(),
        }
    }
}

impl DeepView for Registration {
    type V = RegistrationView;

    open spec fn deep_view(&self) -> RegistrationView {
        self@
    }
}

/// How tokens are written: a space follows each token that is not joined to the next.
pub open spec fn spelled(tokens: Seq<syntax::TokenView>) -> Seq<char>
    decreases tokens.len(),
{
    if tokens.len() == 0 {
        Seq::empty()
    } else {
        spelled(tokens.drop_last()) + tokens.last().text + if tokens.last().joint {
            Seq::empty()
        } else {
            " "@
        }
    }
}

/// Writes the tokens of a range.
pub fn spell(tokens: &Vec<Token>, start: usize, end: usize) -> (result: String)
    requires
        start <= end <= tokens@.len(),
    ensures
        result@ == spelled(tokens.deep_view().subrange(start as int, end as int)),
{
    let ghost model = tokens.deep_view();
    let mut result: String = String::new();
    let mut index: usize = start;
    assert(model.subrange(start as int, start as int) =~= Seq::empty());
    while index < end
        invariant
            start <= index <= end <= tokens@.len(),
            model == tokens.deep_view(),
            result@ == spelled(model.subrange(start as int, index as int)),
        decreases end - index,
    {
        proof {
            let next = model.subrange(start as int, index + 1);
            assert(next.drop_last() =~= model.subrange(start as int, index as int));
            assert(next.last() == tokens@[index as int]@);
        }
        result.append(tokens[index].text.as_str());
        if !tokens[index].joint {
            result.append(" ");
        }
        assert(result@ =~= spelled(model.subrange(start as int, index + 1)));
        index = index + 1;
    }
    result
}

/// The property of being a semicolon.
pub open spec fn semicolon() -> spec_fn(syntax::TokenView) -> bool {
    |token: syntax::TokenView| token.text == ";"@
}

/// The places at which the declarations between semicolons start and end.
pub open spec fn declarations_from(tokens: Seq<syntax::TokenView>, start: int) -> Seq<(int, int)>
    decreases tokens.len() - start,
{
    if start < 0 || start >= tokens.len() {
        Seq::empty()
    } else {
        match search::first_where(tokens.skip(start), semicolon()) {
            Some(length) => if 0 <= length < tokens.len() - start {
                seq![(start, start + length)] + declarations_from(tokens, start + length + 1)
            } else {
                Seq::empty()
            },
            None => seq![(start, tokens.len() as int)],
        }
    }
}

/// The places of declarations as numbers.
pub open spec fn places(ranges: Seq<(usize, usize)>) -> Seq<(int, int)> {
    ranges.map_values(|range: (usize, usize)| (range.0 as int, range.1 as int))
}

/// Finds the declarations between semicolons, of which the last needs none.
pub fn declarations(tokens: &Vec<Token>, start: usize) -> (result: Vec<(usize, usize)>)
    requires
        start <= tokens@.len(),
    ensures
        places(result@) == declarations_from(tokens.deep_view(), start as int),
{
    let ghost model = tokens.deep_view();
    let count: usize = tokens.len();
    let mut result: Vec<(usize, usize)> = Vec::new();
    let mut from: usize = start;
    let mut index: usize = start;
    while index < count
        invariant
            count == tokens@.len(),
            model == tokens.deep_view(),
            start <= from <= index <= count,
            forall|i: int| from <= i < index ==> !semicolon()(#[trigger] model[i]),
            places(result@) + declarations_from(model, from as int) == declarations_from(
                model,
                start as int,
            ),
        decreases count - index,
    {
        assert(model[index as int] == tokens@[index as int]@);
        if same_text(tokens[index].text.as_str(), ";") {
            let ghost before = places(result@);
            result.push((from, index));
            proof {
                let rest = model.skip(from as int);
                assert forall|i: int| 0 <= i < index - from implies !#[trigger] semicolon()(
                    rest[i],
                ) by {
                    assert(rest[i] == model[from + i]);
                }
                assert(rest[index - from] == model[index as int]);
                search::lemma_first(rest, semicolon(), Some(index - from));
                assert(places(result@) =~= before.push((from as int, index as int)));
                assert(before + (seq![(from as int, index as int)] + declarations_from(
                    model,
                    index + 1,
                )) =~= places(result@) + declarations_from(model, index + 1));
            }
            from = index + 1;
        }
        index = index + 1;
    }
    if from < count {
        let ghost before = places(result@);
        result.push((from, count));
        proof {
            let rest = model.skip(from as int);
            assert forall|i: int| 0 <= i < rest.len() implies !#[trigger] semicolon()(rest[i]) by {
                assert(rest[i] == model[from + i]);
            }
            search::lemma_first(rest, semicolon(), None);
            assert(places(result@) =~= before.push((from as int, count as int)));
            assert(before + seq![(from as int, count as int)] =~= places(result@));
        }
    }
    assert(places(result@) + Seq::<(int, int)>::empty() =~= places(result@));
    result
}

/// Whether the arrow `=>` stands at a place.
pub open spec fn is_arrow(tokens: Seq<syntax::TokenView>, place: int) -> bool {
    &&& 0 <= place
    &&& place + 1 < tokens.len()
    &&& tokens[place].text == "="@
    &&& tokens[place].joint
    &&& tokens[place + 1].text == ">"@
}

/// The place of the first arrow of a range, from its start on.
pub open spec fn arrow_from(tokens: Seq<syntax::TokenView>, start: int) -> Option<int>
    decreases tokens.len() - start,
{
    if start < 0 || start >= tokens.len() {
        None
    } else if is_arrow(tokens, start) {
        Some(start)
    } else {
        arrow_from(tokens, start + 1)
    }
}

/// How the three parts of a registration are written.
#[derive(Debug)]
pub struct RegistrationText {
    /// The word in front.
    pub kind: String,
    /// What stands between that word and the arrow.
    pub message: String,
    /// What stands behind the arrow.
    pub handlers: String,
}

/// Mathematical model of a [`RegistrationText`].
pub struct RegistrationTextView {
    pub kind: Seq<char>,
    pub message: Seq<char>,
    pub handlers: Seq<char>,
}

impl View for RegistrationText {
    type V = RegistrationTextView;

    open spec fn view(&self) -> RegistrationTextView {
        RegistrationTextView {
            kind: self.kind@,
            message: self.message@,
            handlers: self.handlers@,
        }
    }
}

/// The parts of a registration: the first token, what stands before the arrow and what behind it.
pub open spec fn registration_text(tokens: Seq<syntax::TokenView>) -> Result<
    RegistrationTextView,
    Seq<char>,
> {
    if tokens.len() == 0 {
        Err("expected identifier"@)
    } else {
        match arrow_from(tokens, 1) {
            None => Err("expected `=>`"@),
            Some(place) => Ok(
                RegistrationTextView {
                    kind: tokens[0].text,
                    message: spelled(tokens.subrange(1, place)),
                    handlers: spelled(tokens.skip(place + 2)),
                },
            ),
        }
    }
}

/// The model of the parts of a registration.
pub open spec fn registration_text_result(result: Result<RegistrationText, String>) -> Result<
    RegistrationTextView,
    Seq<char>,
> {
    match result {
        Ok(parts) => Ok(parts@),
        Err(reason) => Err(reason@),
    }
}

/// Takes the registration between two places apart.
pub fn split_registration(tokens: &Vec<Token>, start: usize, end: usize) -> (result: Result<
    RegistrationText,
    String,
>)
    requires
        start <= end <= tokens@.len(),
    ensures
        registration_text_result(result) == registration_text(
            tokens.deep_view().subrange(start as int, end as int),
        ),
{
    let ghost model = tokens.deep_view();
    let ghost piece = model.subrange(start as int, end as int);
    if start == end {
        return Err("expected identifier".to_owned());
    }
    let mut index: usize = start + 1;
    while index < end && end - index > 1
        invariant
            start < index <= end <= tokens@.len(),
            model == tokens.deep_view(),
            piece == model.subrange(start as int, end as int),
            arrow_from(piece, index - start) == arrow_from(piece, 1),
        decreases end - index,
    {
        assert(piece[index - start] == tokens@[index as int]@);
        assert(piece[index + 1 - start] == tokens@[index + 1]@);
        if tokens[index].joint && same_text(tokens[index].text.as_str(), "=") && same_text(
            tokens[index + 1].text.as_str(),
            ">",
        ) {
            assert(is_arrow(piece, index - start));
            assert(piece[0] == tokens@[start as int]@);
            assert(piece.subrange(1, index - start) =~= model.subrange(start + 1, index as int));
            assert(piece.skip(index - start + 2) =~= model.subrange(index + 2, end as int));
            return Ok(
                RegistrationText {
                    kind: tokens[start].text.clone(),
                    message: spell(tokens, start + 1, index),
                    handlers: spell(tokens, index + 2, end),
                },
            );
        }
        assert(!is_arrow(piece, index - start));
        index = index + 1;
    }
    assert(arrow_from(piece, index - start) is None) by {
        if index < end {
            assert(!is_arrow(piece, index - start));
            assert(arrow_from(piece, index - start + 1) is None);
        }
    }
    Err("expected `=>`".to_owned())
}

/// The registration that three parts make.
///
/// The word in front must be an identifier and the message a path; a request or a command has one
/// expression behind the arrow, an event a list of them in square brackets.
pub open spec fn registration_of(parts: RegistrationTextView) -> Result<
    RegistrationView,
    Seq<char>,
> {
    match (syntax::identifier_of(parts.kind), syntax::path_of(parts.message)) {
        (Err(reason), _) => Err(reason),
        (_, Err(reason)) => Err(reason),
        (Ok(kind), Ok(message)) => if kind == "request"@ {
            single_handler(RegistrationKind::Request, message.text, parts.handlers)
        } else if kind == "command"@ {
            single_handler(RegistrationKind::Command, message.text, parts.handlers)
        } else if kind == "event"@ {
            match syntax::elements_of(parts.handlers) {
                Ok(handlers) => Ok(
                    RegistrationView {
                        kind: RegistrationKind::Event,
                        message: message.text,
                        handlers,
                    },
                ),
                Err(reason) => Err(reason),
            }
        } else {
            Err("expected `request`, `command`, or `event`"@)
        },
    }
}

/// The registration of one handler.
pub open spec fn single_handler(
    kind: RegistrationKind,
    message: Seq<char>,
    handler: Seq<char>,
) -> Result<RegistrationView, Seq<char>> {
    match syntax::expression_of(handler) {
        Ok(handler) => Ok(RegistrationView { kind, message, handlers: seq![handler] }),
        Err(reason) => Err(reason),
    }
}

/// The model of a registration that was read.
pub open spec fn registration_result(result: Result<Registration, String>) -> Result<
    RegistrationView,
    Seq<char>,
> {
    match result {
        Ok(registration) => Ok(registration@),
        Err(reason) => Err(reason@),
    }
}

fn read_single(kind: RegistrationKind, message: String, handler: &str) -> (result: Result<
    Registration,
    String,
>)
    ensures
        registration_result(result) == single_handler(kind, message@, handler@),
{
    match parse_expression(handler) {
        Ok(handler) => {
            let handlers: Vec<String> = vec![handler];
            assert(handlers.deep_view() =~= seq![handler@]);
            Ok(Registration { kind, message, handlers })
        },
        Err(reason) => Err(reason),
    }
}

/// Reads a registration from its three parts.
pub fn read_registration(parts: &RegistrationText) -> (result: Result<Registration, String>)
    ensures
        registration_result(result) == registration_of(parts@),
{
    let kind: String = match parse_identifier(parts.kind.as_str()) {
        Ok(kind) => kind,
        Err(reason) => return Err(reason),
    };
    let message: String = match parse_path(parts.message.as_str()) {
        Ok(path) => path.text,
        Err(reason) => return Err(reason),
    };
    if same_text(kind.as_str(), "request") {
        read_single(RegistrationKind::Request, message, parts.handlers.as_str())
    } else if same_text(kind.as_str(), "command") {
        read_single(RegistrationKind::Command, message, parts.handlers.as_str())
    } else if same_text(kind.as_str(), "event") {
        match parse_elements(parts.handlers.as_str()) {
            Ok(handlers) => Ok(Registration { kind: RegistrationKind::Event, message, handlers }),
            Err(reason) => Err(reason),
        }
    } else {
        Err("expected `request`, `command`, or `event`".to_owned())
    }
}

/// The registration in a range of tokens.
pub open spec fn registration_in(tokens: Seq<syntax::TokenView>, range: (int, int)) -> Result<
    RegistrationView,
    Seq<char>,
> {
    match registration_text(tokens.subrange(range.0, range.1)) {
        Ok(parts) => registration_of(parts),
        Err(reason) => Err(reason),
    }
}

/// The registrations in several ranges of tokens, or what is wrong with the first that is none.
pub open spec fn registrations_in(
    tokens: Seq<syntax::TokenView>,
    ranges: Seq<(int, int)>,
) -> Result<Seq<RegistrationView>, Seq<char>>
    decreases ranges.len(),
{
    if ranges.len() == 0 {
        Ok(Seq::empty())
    } else {
        match registrations_in(tokens, ranges.drop_last()) {
            Err(reason) => Err(reason),
            Ok(before) => match registration_in(tokens, ranges.last()) {
                Err(reason) => Err(reason),
                Ok(registration) => Ok(before.push(registration)),
            },
        }
    }
}

/// The registrations that tokens declare from a place on.
pub open spec fn registrations_from(tokens: Seq<syntax::TokenView>, start: int) -> Result<
    Seq<RegistrationView>,
    Seq<char>,
> {
    registrations_in(tokens, declarations_from(tokens, start))
}

/// The model of registrations that were read.
pub open spec fn registrations_result(result: Result<Vec<Registration>, String>) -> Result<
    Seq<RegistrationView>,
    Seq<char>,
> {
    match result {
        Ok(registrations) => Ok(registrations.deep_view()),
        Err(reason) => Err(reason@),
    }
}

proof fn lemma_ranges_are_within(tokens: Seq<syntax::TokenView>, start: int)
    ensures
        forall|i: int|
            0 <= i < declarations_from(tokens, start).len() ==> 0 <= (
            #[trigger] declarations_from(tokens, start)[i]).0 <= declarations_from(
                tokens,
                start,
            )[i].1 <= tokens.len(),
    decreases tokens.len() - start,
{
    if 0 <= start < tokens.len() {
        let found = search::first_where(tokens.skip(start), semicolon());
        search::lemma_first(tokens.skip(start), semicolon(), found);
        if let Some(length) = found {
            let rest = declarations_from(tokens, start + length + 1);
            lemma_ranges_are_within(tokens, start + length + 1);
            let all = declarations_from(tokens, start);
            assert forall|i: int| 0 <= i < all.len() implies 0 <= (#[trigger] all[i]).0 <= all[i].1
                <= tokens.len() by {
                if i > 0 {
                    assert(all[i] == rest[i - 1]);
                }
            }
        }
    }
}

/// A failure of one registration is the failure of all.
proof fn lemma_first_failure_remains(
    tokens: Seq<syntax::TokenView>,
    ranges: Seq<(int, int)>,
    count: int,
)
    requires
        0 <= count <= ranges.len(),
        registrations_in(tokens, ranges.take(count)) is Err,
    ensures
        registrations_in(tokens, ranges) == registrations_in(tokens, ranges.take(count)),
    decreases ranges.len() - count,
{
    if count < ranges.len() {
        let next = ranges.take(count + 1);
        assert(next.drop_last() =~= ranges.take(count));
        lemma_first_failure_remains(tokens, ranges, count + 1);
    } else {
        assert(ranges.take(count) =~= ranges);
    }
}

/// Reads the registrations that tokens declare from a place on.
pub fn read_registrations(tokens: &Vec<Token>, start: usize) -> (result: Result<
    Vec<Registration>,
    String,
>)
    requires
        start <= tokens@.len(),
    ensures
        registrations_result(result) == registrations_from(tokens.deep_view(), start as int),
{
    let ghost model = tokens.deep_view();
    let ghost all = declarations_from(model, start as int);
    let ranges: Vec<(usize, usize)> = declarations(tokens, start);
    proof {
        lemma_ranges_are_within(model, start as int);
    }
    let mut result: Vec<Registration> = Vec::new();
    let mut index: usize = 0;
    assert(all.take(0) =~= Seq::empty());
    assert(result.deep_view() =~= Seq::empty());
    while index < ranges.len()
        invariant
            index <= ranges@.len(),
            model == tokens.deep_view(),
            all == declarations_from(model, start as int),
            all == places(ranges@),
            forall|i: int|
                0 <= i < all.len() ==> 0 <= (#[trigger] all[i]).0 <= all[i].1 <= model.len(),
            registrations_in(model, all.take(index as int)) == Ok::<
                Seq<RegistrationView>,
                Seq<char>,
            >(result.deep_view()),
        decreases ranges@.len() - index,
    {
        let range: (usize, usize) = ranges[index];
        proof {
            assert(all[index as int] == (range.0 as int, range.1 as int));
            let next = all.take(index + 1);
            assert(next.drop_last() =~= all.take(index as int));
            assert(next.last() == all[index as int]);
        }
        let parts: RegistrationText = match split_registration(tokens, range.0, range.1) {
            Ok(parts) => parts,
            Err(reason) => {
                proof {
                    lemma_first_failure_remains(model, all, index + 1);
                }
                return Err(reason);
            },
        };
        match read_registration(&parts) {
            Ok(registration) => {
                let ghost before = result.deep_view();
                result.push(registration);
                assert(result.deep_view() =~= before.push(registration@));
            },
            Err(reason) => {
                proof {
                    lemma_first_failure_remains(model, all, index + 1);
                }
                return Err(reason);
            },
        }
        index = index + 1;
    }
    assert(all.take(index as int) =~= all);
    Ok(result)
}

/// Whether a registration before a place is of one kind and for one message.
pub open spec fn registered_before(
    registrations: Seq<RegistrationView>,
    place: int,
    kind: RegistrationKind,
    message: Seq<char>,
) -> bool {
    exists|i: int|
        0 <= i < place && (#[trigger] registrations[i]).kind == kind && registrations[i].message
            == message
}

/// What is wrong with the registration at a place, given those before it.
pub open spec fn problem_at(registrations: Seq<RegistrationView>, place: int) -> Option<Seq<char>> {
    let registration = registrations[place];
    match registration.kind {
        RegistrationKind::Request => if registered_before(
            registrations,
            place,
            RegistrationKind::Request,
            registration.message,
        ) {
            Some("duplicate request handler registration"@)
        } else {
            None
        },
        RegistrationKind::Command => if registered_before(
            registrations,
            place,
            RegistrationKind::Command,
            registration.message,
        ) {
            Some("duplicate command handler registration"@)
        } else {
            None
        },
        RegistrationKind::Event => if registration.handlers.len() == 0 {
            Some("event registration requires at least one handler"@)
        } else {
            None
        },
    }
}

/// What is wrong with the first registration, from a place on, that is wrong.
pub open spec fn problem_from(registrations: Seq<RegistrationView>, place: int) -> Option<Seq<char>>
    decreases registrations.len() - place,
{
    if place < 0 || place >= registrations.len() {
        None
    } else {
        match problem_at(registrations, place) {
            Some(problem) => Some(problem),
            None => problem_from(registrations, place + 1),
        }
    }
}

fn is_registered_before(
    registrations: &Vec<Registration>,
    place: usize,
    kind: RegistrationKind,
    message: &str,
) -> (result: bool)
    requires
        place <= registrations@.len(),
    ensures
        result == registered_before(
            registrations.deep_view(),
            place as int,
            kind,
            message@,
        ),
{
    let ghost model = registrations.deep_view();
    let mut index: usize = 0;
    while index < place
        invariant
            index <= place <= registrations@.len(),
            model == registrations.deep_view(),
            !registered_before(model, index as int, kind, message@),
        decreases place - index,
    {
        assert(model[index as int] == registrations@[index as int]@);
        if registrations[index].kind == kind && same_text(
            registrations[index].message.as_str(),
            message,
        ) {
            return true;
        }
        index = index + 1;
    }
    false
}

/// Rejects a message with two request handlers or two command handlers, and an event without any.
pub fn validate_registrations(registrations: &Vec<Registration>) -> (result: Result<(), String>)
    ensures
        match result {
            Ok(_) => problem_from(registrations.deep_view(), 0) is None,
            Err(reason) => problem_from(registrations.deep_view(), 0) == Some(reason@),
        },
{
    let ghost model = registrations.deep_view();
    let mut index: usize = 0;
    while index < registrations.len()
        invariant
            index <= registrations@.len(),
            model == registrations.deep_view(),
            problem_from(model, index as int) == problem_from(model, 0),
        decreases registrations@.len() - index,
    {
        assert(model[index as int] == registrations@[index as int]@);
        let registration: &Registration = &registrations[index];
        match registration.kind {
            RegistrationKind::Request => {
                if is_registered_before(
                    registrations,
                    index,
                    RegistrationKind::Request,
                    registration.message.as_str(),
                ) {
                    return Err("duplicate request handler registration".to_owned());
                }
            },
            RegistrationKind::Command => {
                if is_registered_before(
                    registrations,
                    index,
                    RegistrationKind::Command,
                    registration.message.as_str(),
                ) {
                    return Err("duplicate command handler registration".to_owned());
                }
            },
            RegistrationKind::Event => {
                if registration.handlers.len() == 0 {
                    return Err("event registration requires at least one handler".to_owned());
                }
            },
        }
        index = index + 1;
    }
    Ok(())
}

/// Accepted registrations register each request and each command once.
pub proof fn lemma_messages_are_registered_once(
    registrations: Seq<RegistrationView>,
    first: int,
    second: int,
)
    requires
        problem_from(registrations, 0) is None,
        0 <= first < second < registrations.len(),
        registrations[first].kind == registrations[second].kind,
        registrations[first].kind != RegistrationKind::Event,
    ensures
        registrations[first].message != registrations[second].message,
{
    lemma_no_problem(registrations, 0, second);
}

/// Accepted registrations give every event a handler.
pub proof fn lemma_events_have_handlers(registrations: Seq<RegistrationView>, place: int)
    requires
        problem_from(registrations, 0) is None,
        0 <= place < registrations.len(),
        registrations[place].kind == RegistrationKind::Event,
    ensures
        registrations[place].handlers.len() > 0,
{
    lemma_no_problem(registrations, 0, place);
}

proof fn lemma_no_problem(registrations: Seq<RegistrationView>, start: int, place: int)
    requires
        problem_from(registrations, start) is None,
        0 <= start <= place < registrations.len(),
    ensures
        problem_at(registrations, place) is None,
    decreases place - start,
{
    if start < place {
        lemma_no_problem(registrations, start + 1, place);
    }
}

} // verus!
