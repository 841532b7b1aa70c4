//! Source text of a mediator that holds each handler in a typed field.

use vstd::prelude::*;

use crate::dispatch_code;
use crate::dispatch_code::{hand_command, hand_event, hand_request};
use crate::error;
use crate::handlers;
use crate::handlers::finish_expansion;
use crate::registration;
use crate::registration::{
    read_registrations, spell, validate_registrations, Registration, RegistrationKind,
};
use crate::search;
use crate::syntax;
use crate::syntax::{lex, parse_identifier, parse_visibility, Token};
use crate::text;
use crate::text::{concat, decimal_text, join, same_text, separate};

verus! {

/// A declared mediator.
#[derive(Debug)]
pub struct MediatorDeclaration {
    /// How the visibility of the mediator is written.
    pub visibility: String,
    /// The name of the mediator.
    pub name: String,
    /// The handlers that the mediator dispatches to, in the order of declaration.
    pub registrations: Vec<Registration>,
}

/// Mathematical model of a [`MediatorDeclaration`].
pub struct MediatorView {
    pub visibility: Seq<char>,
    pub name: Seq<char>,
    pub registrations: Seq<registration::RegistrationView>,
}

impl View for MediatorDeclaration {
    type V = MediatorView;

    open spec fn view(&self) -> MediatorView {
        MediatorView {
            visibility: self.visibility@,
            name: self.name@,
            registrations: self.registrations.deep_view(),
        }
    }
}

/// The property of being the word `struct`.
pub open spec fn struct_word() -> spec_fn(syntax::TokenView) -> bool {
    |token: syntax::TokenView| token.text == "struct"@
}

/// The parts in front of the registrations: how the visibility and the name are written, and the
/// place at which the registrations start.
pub open spec fn mediator_head(tokens: Seq<syntax::TokenView>) -> Result<
    (Seq<char>, Seq<char>, int),
    Seq<char>,
> {
    match search::first_where(tokens, struct_word()) {
        None => Err("expected `struct`"@),
        Some(place) => if place + 1 >= tokens.len() {
            Err("expected identifier"@)
        } else if place + 2 >= tokens.len() || tokens[place + 2].text != ";"@ {
            Err("expected `;`"@)
        } else {
            Ok(
                (
                    registration::spelled(tokens.take(place)),
                    tokens[place + 1].text,
                    place + 3,
                ),
            )
        },
    }
}

/// The model of the parts in front of the registrations.
pub open spec fn head_result(result: Result<(String, String, usize), String>) -> Result<
    (Seq<char>, Seq<char>, int),
    Seq<char>,
> {
    match result {
        Ok((visibility, name, start)) => Ok((visibility@, name@, start as int)),
        Err(reason) => Err(reason@),
    }
}

/// Finds the parts in front of the registrations.
pub fn split_head(tokens: &Vec<Token>) -> (result: Result<(String, String, usize), String>)
    ensures
        head_result(result) == mediator_head(tokens.deep_view()),
        result matches Ok(head) ==> head.2 <= tokens@.len(),
{
    let ghost model = tokens.deep_view();
    let count: usize = tokens.len();
    let mut place: usize = 0;
    while place < count && !same_text(tokens[place].text.as_str(), "struct")
        invariant
            place <= count == tokens@.len(),
            model == tokens.deep_view(),
            forall|i: int| 0 <= i < place ==> !struct_word()(#[trigger] model[i]),
        decreases count - place,
    {
        assert(model[place as int] == tokens@[place as int]@);
        place = place + 1;
    }
    if place == count {
        proof {
            search::lemma_first(model, struct_word(), None);
        }
        return Err("expected `struct`".to_owned());
    }
    proof {
        assert(model[place as int] == tokens@[place as int]@);
        search::lemma_first(model, struct_word(), Some(place as int));
    }
    if count - place <= 1 {
        return Err("expected identifier".to_owned());
    }
    if count - place <= 2 {
        return Err("expected `;`".to_owned());
    }
    assert(model[place + 1] == tokens@[place + 1]@);
    assert(model[place + 2] == tokens@[place + 2]@);
    if !same_text(tokens[place + 2].text.as_str(), ";") {
        return Err("expected `;`".to_owned());
    }
    assert(model.subrange(0, place as int) =~= model.take(place as int));
    Ok((spell(tokens, 0, place), tokens[place + 1].text.clone(), place + 3))
}

/// The mediator that tokens declare: a visibility, `struct`, a name, a semicolon and the
/// registrations.
pub open spec fn mediator_in(tokens: Seq<syntax::TokenView>) -> Result<MediatorView, Seq<char>> {
    match mediator_head(tokens) {
        Err(reason) => Err(reason),
        Ok((visibility, name, start)) => match (
            syntax::visibility_of(visibility),
            syntax::identifier_of(name),
            registration::registrations_from(tokens, start),
        ) {
            (Err(reason), _, _) => Err(reason),
            (_, Err(reason), _) => Err(reason),
            (_, _, Err(reason)) => Err(reason),
            (Ok(visibility), Ok(name), Ok(registrations)) => Ok(
                MediatorView { visibility, name, registrations },
            ),
        },
    }
}

/// Reads the mediator that tokens declare.
pub fn read_mediator(tokens: &Vec<Token>) -> (result: Result<MediatorDeclaration, String>)
    ensures
        match result {
            Ok(mediator) => mediator_in(tokens.deep_view()) == Ok::<MediatorView, Seq<char>>(
                mediator@,
            ),
            Err(reason) => mediator_in(tokens.deep_view()) == Err::<MediatorView, Seq<char>>(
                reason@,
            ),
        },
{
    let (visibility, name, start): (String, String, usize) = match split_head(tokens) {
        Ok(head) => head,
        Err(reason) => return Err(reason),
    };
    let visibility: String = match parse_visibility(visibility.as_str()) {
        Ok(visibility) => visibility,
        Err(reason) => return Err(reason),
    };
    let name: String = match parse_identifier(name.as_str()) {
        Ok(name) => name,
        Err(reason) => return Err(reason),
    };
    match read_registrations(tokens, start) {
        Ok(registrations) => Ok(MediatorDeclaration { visibility, name, registrations }),
        Err(reason) => Err(reason),
    }
}

/// The name of the type parameter for a handler.
pub open spec fn handler_type(place: int) -> Seq<char> {
    "Handler"@ + text::decimal(place as nat)
}

/// The name of the field that holds a handler.
pub open spec fn handler_field(place: int) -> Seq<char> {
    "__handler_"@ + text::decimal(place as nat)
}

fn render_type(place: usize) -> (result: String)
    ensures
        result@ == handler_type(place as int),
{
    join("Handler", decimal_text(place as u64).as_str())
}

fn render_field(place: usize) -> (result: String)
    ensures
        result@ == handler_field(place as int),
{
    join("__handler_", decimal_text(place as u64).as_str())
}

/// The type parameters of a mediator.
pub open spec fn handler_types(count: nat) -> Seq<Seq<char>> {
    Seq::new(count, |i: int| handler_type(i))
}

/// The type parameters of a mediator, each with what sharing between threads asks of it.
pub open spec fn shared_types(count: nat) -> Seq<Seq<char>> {
    Seq::new(count, |i: int| handler_type(i) + ": ::std::marker::Send + ::std::marker::Sync"@)
}

/// The fields of a mediator.
pub open spec fn handler_fields(count: nat) -> Seq<Seq<char>> {
    Seq::new(count, |i: int| handler_field(i))
}

/// What a field of a mediator holds: a handler, or for an event as many as it has.
pub open spec fn typed_field(registration: registration::RegistrationView, place: int) -> Seq<
    char,
> {
    match registration.kind {
        RegistrationKind::Event => text::concatenated(
            seq![
                handler_field(place),
                ": ["@,
                handler_type(place),
                "; "@,
                text::decimal(registration.handlers.len()),
                "usize]"@,
            ],
        ),
        _ => text::concatenated(seq![handler_field(place), ": "@, handler_type(place)]),
    }
}

/// What a mediator asks of the type of a handler.
pub open spec fn handler_bound(registration: registration::RegistrationView, place: int) -> Seq<
    char,
> {
    match registration.kind {
        RegistrationKind::Request => text::concatenated(
            seq![handler_type(place), ": ::catga_core::Handler<"@, registration.message, ">, "@],
        ),
        RegistrationKind::Command => text::concatenated(
            seq![
                handler_type(place),
                ": ::catga_core::CommandHandler<"@,
                registration.message,
                ">, "@,
            ],
        ),
        RegistrationKind::Event => text::concatenated(
            seq![
                handler_type(place),
                ": ::catga_core::EventHandler<"@,
                registration.message,
                "> + ::std::clone::Clone, "@,
            ],
        ),
    }
}

/// The fields of a mediator with what they hold.
pub open spec fn typed_fields(registrations: Seq<registration::RegistrationView>) -> Seq<
    Seq<char>,
> {
    Seq::new(registrations.len(), |i: int| typed_field(registrations[i], i))
}

/// What a mediator asks of the types of its handlers.
pub open spec fn handler_bounds(registrations: Seq<registration::RegistrationView>) -> Seq<
    Seq<char>,
> {
    Seq::new(registrations.len(), |i: int| handler_bound(registrations[i], i))
}

fn render_types(count: usize) -> (result: Vec<String>)
    ensures
        result.deep_view() == handler_types(count as nat),
{
    let mut result: Vec<String> = Vec::new();
    while result.len() < count
        invariant
            result@.len() <= count,
            forall|i: int| 0 <= i < result@.len() ==> (#[trigger] result@[i])@ == handler_type(i),
        decreases count - result@.len(),
    {
        let place: usize = result.len();
        result.push(render_type(place));
    }
    assert(result.deep_view() =~= handler_types(count as nat));
    result
}

fn render_shared_types(count: usize) -> (result: Vec<String>)
    ensures
        result.deep_view() == shared_types(count as nat),
{
    let mut result: Vec<String> = Vec::new();
    while result.len() < count
        invariant
            result@.len() <= count,
            forall|i: int|
                0 <= i < result@.len() ==> (#[trigger] result@[i])@ == handler_type(i)
                    + ": ::std::marker::Send + ::std::marker::Sync"@,
        decreases count - result@.len(),
    {
        let place: usize = result.len();
        result.push(
            join(render_type(place).as_str(), ": ::std::marker::Send + ::std::marker::Sync"),
        );
    }
    assert(result.deep_view() =~= shared_types(count as nat));
    result
}

fn render_fields(count: usize) -> (result: Vec<String>)
    ensures
        result.deep_view() == handler_fields(count as nat),
{
    let mut result: Vec<String> = Vec::new();
    while result.len() < count
        invariant
            result@.len() <= count,
            forall|i: int| 0 <= i < result@.len() ==> (#[trigger] result@[i])@ == handler_field(i),
        decreases count - result@.len(),
    {
        let place: usize = result.len();
        result.push(render_field(place));
    }
    assert(result.deep_view() =~= handler_fields(count as nat));
    result
}

fn render_typed_field(registration: &Registration, place: usize) -> (result: String)
    ensures
        result@ == typed_field(registration@, place as int),
{
    let field: String = render_field(place);
    let kind: String = render_type(place);
    match registration.kind {
        RegistrationKind::Event => {
            let count: String = decimal_text(registration.handlers.len() as u64);
            let parts: Vec<&str> = vec![
                field.as_str(),
                ": [",
                kind.as_str(),
                "; ",
                count.as_str(),
                "usize]",
            ];
            assert(text::views(parts@) =~= seq![
                field@,
                ": ["@,
                kind@,
                "; "@,
                count@,
                "usize]"@,
            ]);
            concat(&parts)
        },
        _ => {
            let parts: Vec<&str> = vec![field.as_str(), ": ", kind.as_str()];
            assert(text::views(parts@) =~= seq![field@, ": "@, kind@]);
            concat(&parts)
        },
    }
}

fn render_typed_fields(registrations: &Vec<Registration>) -> (result: Vec<String>)
    ensures
        result.deep_view() == typed_fields(registrations.deep_view()),
{
    let ghost model = registrations.deep_view();
    let mut result: Vec<String> = Vec::new();
    while result.len() < registrations.len()
        invariant
            result@.len() <= registrations@.len(),
            model == registrations.deep_view(),
            forall|i: int|
                0 <= i < result@.len() ==> (#[trigger] result@[i])@ == typed_field(model[i], i),
        decreases registrations@.len() - result@.len(),
    {
        let place: usize = result.len();
        result.push(render_typed_field(&registrations[place], place));
    }
    assert(result.deep_view() =~= typed_fields(model));
    result
}

fn render_bound(registration: &Registration, place: usize) -> (result: String)
    ensures
        result@ == handler_bound(registration@, place as int),
{
    let kind: String = render_type(place);
    let (start, end): (&str, &str) = match registration.kind {
        RegistrationKind::Request => (": ::catga_core::Handler<", ">, "),
        RegistrationKind::Command => (": ::catga_core::CommandHandler<", ">, "),
        RegistrationKind::Event => (
            ": ::catga_core::EventHandler<",
            "> + ::std::clone::Clone, ",
        ),
    };
    let parts: Vec<&str> = vec![kind.as_str(), start, registration.message.as_str(), end];
    assert(text::views(parts@) =~= seq![kind@, start@, registration.message@, end@]);
    concat(&parts)
}

fn render_bounds(registrations: &Vec<Registration>) -> (result: Vec<String>)
    ensures
        result.deep_view() == handler_bounds(registrations.deep_view()),
{
    let ghost model = registrations.deep_view();
    let mut result: Vec<String> = Vec::new();
    while result.len() < registrations.len()
        invariant
            result@.len() <= registrations@.len(),
            model == registrations.deep_view(),
            forall|i: int|
                0 <= i < result@.len() ==> (#[trigger] result@[i])@ == handler_bound(model[i], i),
        decreases registrations@.len() - result@.len(),
    {
        let place: usize = result.len();
        result.push(render_bound(&registrations[place], place));
    }
    assert(result.deep_view() =~= handler_bounds(model));
    result
}

/// The trait that dispatches a message to a handler, the head of the method that does so, and what
/// the method does.
pub open spec fn dispatch_parts(registration: registration::RegistrationView, field: Seq<char>) -> (
    Seq<char>,
    Seq<char>,
    Seq<char>,
) {
    match registration.kind {
        RegistrationKind::Request => (
            "SealedRequestDispatch"@,
            text::concatenated(
                seq![
                    "async fn __dispatch_request(&self, message: "@,
                    registration.message,
                    ") -> ::catga_core::CatgaResult<<"@,
                    registration.message,
                    " as ::catga_core::Request>::Response> "@,
                ],
            ),
            "{ "@ + dispatch_code::written(dispatch_code::request_code(field)) + "} } "@,
        ),
        RegistrationKind::Command => (
            "SealedCommandDispatch"@,
            text::concatenated(
                seq![
                    "async fn __dispatch_command(&self, command: "@,
                    registration.message,
                    ") -> ::catga_core::CatgaResult<()> "@,
                ],
            ),
            "{ "@ + dispatch_code::written(dispatch_code::command_code(field)) + "} } "@,
        ),
        RegistrationKind::Event => (
            "SealedEventDispatch"@,
            text::concatenated(
                seq![
                    "async fn __dispatch_event(&self, event: "@,
                    registration.message,
                    ") -> ::catga_core::CatgaResult<()> "@,
                ],
            ),
            "{ "@ + dispatch_code::written(dispatch_code::event_code(field)) + "} } "@,
        ),
    }
}

/// The implementation that dispatches the message of one registration.
pub open spec fn dispatch_impl(mediator: MediatorView, place: int) -> Seq<char> {
    let registration = mediator.registrations[place];
    let parts = dispatch_parts(registration, handler_field(place));
    text::concatenated(
        seq![
            "impl<"@,
            text::separated(shared_types(mediator.registrations.len()), ", "@),
            "> ::catga_core::sealed_dispatch::"@,
            parts.0,
            "<"@,
            registration.message,
            "> for "@,
            mediator.name,
            "<"@,
            text::separated(handler_types(mediator.registrations.len()), ", "@),
            "> where "@,
            text::separated(handler_bounds(mediator.registrations), ""@),
            "{ "@,
            parts.1,
            parts.2,
        ],
    )
}

/// The implementations that dispatch the messages of one kind among the first registrations.
pub open spec fn dispatch_impls(
    mediator: MediatorView,
    kind: RegistrationKind,
    count: int,
) -> Seq<Seq<char>>
    decreases count,
{
    if count <= 0 {
        Seq::empty()
    } else {
        let before = dispatch_impls(mediator, kind, count - 1);
        if mediator.registrations[count - 1].kind == kind {
            before.push(dispatch_impl(mediator, count - 1))
        } else {
            before
        }
    }
}

/// All implementations that dispatch the messages of one kind.
pub open spec fn dispatch_source(mediator: MediatorView, kind: RegistrationKind) -> Seq<char> {
    text::separated(
        dispatch_impls(mediator, kind, mediator.registrations.len() as int),
        ""@,
    )
}

/// The definition of the mediator type.
pub open spec fn struct_source(mediator: MediatorView) -> Seq<char> {
    text::concatenated(
        seq![
            "#[doc = \" A compile-time monomorphized mediator generated by \
             `catga_typed_mediator!`.\\n\\n Dispatch is fully typed: each registered handler is \
             stored as a concrete struct field\\n and invoked through sealed traits that the \
             compiler monomorphizes per message type.\\n This eliminates `Box<dyn Any>`, \
             `downcast`, and vtable indirection on the hot path,\\n achieving ~20 M msg/s \
             sequential and ~44 M msg/s concurrent on modern hardware.\\n\\n Use [`"@,
            mediator.name,
            "::new`] to construct with explicit handler values, then call\\n \
             [`send`](Self::send), [`send_command`](Self::send_command), or \
             [`publish`](Self::publish).\\n Attempting to send an unregistered message type is a \
             compile-time error.\"] "@,
            mediator.visibility,
            " struct "@,
            mediator.name,
            "<"@,
            text::separated(handler_types(mediator.registrations.len()), ", "@),
            "> { "@,
            text::separated(typed_fields(mediator.registrations), ", "@),
            " } "@,
        ],
    )
}

/// The constructor and the three ways to dispatch a message.
pub open spec fn methods_source(mediator: MediatorView) -> Seq<char> {
    text::concatenated(
        seq![
            "impl<"@,
            text::separated(handler_types(mediator.registrations.len()), ", "@),
            "> "@,
            mediator.name,
            "<"@,
            text::separated(handler_types(mediator.registrations.len()), ", "@),
            "> where "@,
            text::separated(handler_bounds(mediator.registrations), ""@),
            "{ #[doc = \" Creates a new `"@,
            mediator.name,
            "` with the given handler instances.\\n\\n Handlers are moved into the struct and \
             stored as typed fields. Event handlers\\n are stored as fixed-size arrays matching \
             the registration order.\"] "@,
            mediator.visibility,
            " fn new("@,
            text::separated(typed_fields(mediator.registrations), ", "@),
            ") -> Self { Self { "@,
            text::separated(handler_fields(mediator.registrations.len()), ", "@),
            " } } #[doc = \" Dispatches a request to its registered handler with zero heap \
             allocation.\"] #[doc = \"\"] #[doc = \" The compiler monomorphizes this call per \
             message type `__M`, producing a\"] #[doc = \" direct function call to the concrete \
             handler with no type erasure.\"] #[doc = \" Sending a message type not registered \
             in `catga_typed_mediator!` is a\"] #[doc = \" compile-time error (the \
             `SealedRequestDispatch` bound is unsatisfied).\"] "@,
            mediator.visibility,
            " async fn send<__M: ::catga_core::Request>(&self, message: __M) -> \
             ::catga_core::CatgaResult<__M::Response> where Self: \
             ::catga_core::sealed_dispatch::SealedRequestDispatch<__M>, { \
             ::catga_core::sealed_dispatch::SealedRequestDispatch::__dispatch_request(self, \
             message).await } #[doc = \" Dispatches a command to its registered handler with \
             zero heap allocation.\"] #[doc = \"\"] #[doc = \" Like [`send`](Self::send), \
             dispatch is monomorphized per command type.\"] #[doc = \" Commands have no response \
             value; success is indicated by `Ok(())`.\"] "@,
            mediator.visibility,
            " async fn send_command<__C: ::catga_core::Command>(&self, command: __C) -> \
             ::catga_core::CatgaResult<()> where Self: \
             ::catga_core::sealed_dispatch::SealedCommandDispatch<__C>, { \
             ::catga_core::sealed_dispatch::SealedCommandDispatch::__dispatch_command(self, \
             command).await } #[doc = \" Publishes an event to all registered handlers with zero \
             heap allocation.\"] #[doc = \"\"] #[doc = \" Handlers are invoked sequentially in \
             registration order. Every handler\"] #[doc = \" receives the event even if an \
             earlier handler fails; the first observed\"] #[doc = \" error is returned after \
             fan-out completes.\"] "@,
            mediator.visibility,
            " async fn publish<__E: ::catga_core::Event>(&self, event: __E) -> \
             ::catga_core::CatgaResult<()> where Self: \
             ::catga_core::sealed_dispatch::SealedEventDispatch<__E>, { \
             ::catga_core::sealed_dispatch::SealedEventDispatch::__dispatch_event(self, \
             event).await } } "@,
        ],
    )
}

/// The whole source text of a mediator: its type, its methods, and the dispatch of requests, of
/// commands and of events.
pub open spec fn mediator_source(mediator: MediatorView) -> Seq<char> {
    text::concatenated(
        seq![
            struct_source(mediator),
            methods_source(mediator),
            dispatch_source(mediator, RegistrationKind::Request),
            dispatch_source(mediator, RegistrationKind::Command),
            dispatch_source(mediator, RegistrationKind::Event),
        ],
    )
}

fn render_dispatch(registration: &Registration, field: &str) -> (result: (
    &'static str,
    String,
    String,
))
    ensures
        (result.0@, result.1@, result.2@) == dispatch_parts(registration@, field@),
{
    let message: &str = registration.message.as_str();
    let mut body: String = "{ ".to_owned();
    match registration.kind {
        RegistrationKind::Request => {
            let head: Vec<&str> = vec![
                "async fn __dispatch_request(&self, message: ",
                message,
                ") -> ::catga_core::CatgaResult<<",
                message,
                " as ::catga_core::Request>::Response> ",
            ];
            assert(text::views(head@) =~= seq![
                "async fn __dispatch_request(&self, message: "@,
                message@,
                ") -> ::catga_core::CatgaResult<<"@,
                message@,
                " as ::catga_core::Request>::Response> "@,
            ]);
            hand_request(field).write(&mut body);
            body.append("} } ");
            ("SealedRequestDispatch", concat(&head), body)
        },
        RegistrationKind::Command => {
            let head: Vec<&str> = vec![
                "async fn __dispatch_command(&self, command: ",
                message,
                ") -> ::catga_core::CatgaResult<()> ",
            ];
            assert(text::views(head@) =~= seq![
                "async fn __dispatch_command(&self, command: "@,
                message@,
                ") -> ::catga_core::CatgaResult<()> "@,
            ]);
            hand_command(field).write(&mut body);
            body.append("} } ");
            ("SealedCommandDispatch", concat(&head), body)
        },
        RegistrationKind::Event => {
            let head: Vec<&str> = vec![
                "async fn __dispatch_event(&self, event: ",
                message,
                ") -> ::catga_core::CatgaResult<()> ",
            ];
            assert(text::views(head@) =~= seq![
                "async fn __dispatch_event(&self, event: "@,
                message@,
                ") -> ::catga_core::CatgaResult<()> "@,
            ]);
            hand_event(field).write(&mut body);
            body.append("} } ");
            ("SealedEventDispatch", concat(&head), body)
        },
    }
}

impl MediatorDeclaration {
    fn render_impl(&self, place: usize) -> (result: String)
        requires
            place < self@.registrations.len(),
        ensures
            result@ == dispatch_impl(self@, place as int),
    {
        let registration: &Registration = &self.registrations[place];
        let count: usize = self.registrations.len();
        let (kind, head, body): (&str, String, String) = render_dispatch(
            registration,
            render_field(place).as_str(),
        );
        let shared: String = separate(&render_shared_types(count), ", ");
        let types: String = separate(&render_types(count), ", ");
        let bounds: String = separate(&render_bounds(&self.registrations), "");
        let parts: Vec<&str> = vec![
            "impl<",
            shared.as_str(),
            "> ::catga_core::sealed_dispatch::",
            kind,
            "<",
            registration.message.as_str(),
            "> for ",
            self.name.as_str(),
            "<",
            types.as_str(),
            "> where ",
            bounds.as_str(),
            "{ ",
            head.as_str(),
            body.as_str(),
        ];
        assert(text::views(parts@) =~= seq![
            "impl<"@,
            shared@,
            "> ::catga_core::sealed_dispatch::"@,
            kind@,
            "<"@,
            registration.message@,
            "> for "@,
            self.name@,
            "<"@,
            types@,
            "> where "@,
            bounds@,
            "{ "@,
            head@,
            body@,
        ]);
        concat(&parts)
    }

    fn render_impls(&self, kind: RegistrationKind) -> (result: String)
        ensures
            result@ == dispatch_source(self@, kind),
    {
        let mut impls: Vec<String> = Vec::new();
        let mut place: usize = 0;
        assert(impls.deep_view() =~= Seq::empty());
        while place < self.registrations.len()
            invariant
                place <= self.registrations@.len(),
                impls.deep_view() == dispatch_impls(self@, kind, place as int),
            decreases self.registrations@.len() - place,
        {
            let ghost before = impls.deep_view();
            if self.registrations[place].kind == kind {
                let source: String = self.render_impl(place);
                impls.push(source);
                assert(impls.deep_view() =~= before.push(source@));
            }
            place = place + 1;
        }
        separate(&impls, "")
    }

    fn render_struct(&self) -> (result: String)
        ensures
            result@ == struct_source(self@),
    {
        let types: String = separate(&render_types(self.registrations.len()), ", ");
        let fields: String = separate(&render_typed_fields(&self.registrations), ", ");
        let parts: Vec<&str> = vec![
            "#[doc = \" A compile-time monomorphized mediator generated by \
             `catga_typed_mediator!`.\\n\\n Dispatch is fully typed: each registered handler is \
             stored as a concrete struct field\\n and invoked through sealed traits that the \
             compiler monomorphizes per message type.\\n This eliminates `Box<dyn Any>`, \
             `downcast`, and vtable indirection on the hot path,\\n achieving ~20 M msg/s \
             sequential and ~44 M msg/s concurrent on modern hardware.\\n\\n Use [`",
            self.name.as_str(),
            "::new`] to construct with explicit handler values, then call\\n \
             [`send`](Self::send), [`send_command`](Self::send_command), or \
             [`publish`](Self::publish).\\n Attempting to send an unregistered message type is a \
             compile-time error.\"] ",
            self.visibility.as_str(),
            " struct ",
            self.name.as_str(),
            "<",
            types.as_str(),
            "> { ",
            fields.as_str(),
            " } ",
        ];
        assert(text::views(parts@) =~= seq![
            "#[doc = \" A compile-time monomorphized mediator generated by \
             `catga_typed_mediator!`.\\n\\n Dispatch is fully typed: each registered handler is \
             stored as a concrete struct field\\n and invoked through sealed traits that the \
             compiler monomorphizes per message type.\\n This eliminates `Box<dyn Any>`, \
             `downcast`, and vtable indirection on the hot path,\\n achieving ~20 M msg/s \
             sequential and ~44 M msg/s concurrent on modern hardware.\\n\\n Use [`"@,
            self.name@,
            "::new`] to construct with explicit handler values, then call\\n \
             [`send`](Self::send), [`send_command`](Self::send_command), or \
             [`publish`](Self::publish).\\n Attempting to send an unregistered message type is a \
             compile-time error.\"] "@,
            self.visibility@,
            " struct "@,
            self.name@,
            "<"@,
            types@,
            "> { "@,
            fields@,
            " } "@,
        ]);
        concat(&parts)
    }

    fn render_methods(&self) -> (result: String)
        ensures
            result@ == methods_source(self@),
    {
        let types: String = separate(&render_types(self.registrations.len()), ", ");
        let fields: String = separate(&render_typed_fields(&self.registrations), ", ");
        let bounds: String = separate(&render_bounds(&self.registrations), "");
        let names: String = separate(&render_fields(self.registrations.len()), ", ");
        let parts: Vec<&str> = vec![
            "impl<",
            types.as_str(),
            "> ",
            self.name.as_str(),
            "<",
            types.as_str(),
            "> where ",
            bounds.as_str(),
            "{ #[doc = \" Creates a new `",
            self.name.as_str(),
            "` with the given handler instances.\\n\\n Handlers are moved into the struct and \
             stored as typed fields. Event handlers\\n are stored as fixed-size arrays matching \
             the registration order.\"] ",
            self.visibility.as_str(),
            " fn new(",
            fields.as_str(),
            ") -> Self { Self { ",
            names.as_str(),
            " } } #[doc = \" Dispatches a request to its registered handler with zero heap \
             allocation.\"] #[doc = \"\"] #[doc = \" The compiler monomorphizes this call per \
             message type `__M`, producing a\"] #[doc = \" direct function call to the concrete \
             handler with no type erasure.\"] #[doc = \" Sending a message type not registered \
             in `catga_typed_mediator!` is a\"] #[doc = \" compile-time error (the \
             `SealedRequestDispatch` bound is unsatisfied).\"] ",
            self.visibility.as_str(),
            " async fn send<__M: ::catga_core::Request>(&self, message: __M) -> \
             ::catga_core::CatgaResult<__M::Response> where Self: \
             ::catga_core::sealed_dispatch::SealedRequestDispatch<__M>, { \
             ::catga_core::sealed_dispatch::SealedRequestDispatch::__dispatch_request(self, \
             message).await } #[doc = \" Dispatches a command to its registered handler with \
             zero heap allocation.\"] #[doc = \"\"] #[doc = \" Like [`send`](Self::send), \
             dispatch is monomorphized per command type.\"] #[doc = \" Commands have no response \
             value; success is indicated by `Ok(())`.\"] ",
            self.visibility.as_str(),
            " async fn send_command<__C: ::catga_core::Command>(&self, command: __C) -> \
             ::catga_core::CatgaResult<()> where Self: \
             ::catga_core::sealed_dispatch::SealedCommandDispatch<__C>, { \
             ::catga_core::sealed_dispatch::SealedCommandDispatch::__dispatch_command(self, \
             command).await } #[doc = \" Publishes an event to all registered handlers with zero \
             heap allocation.\"] #[doc = \"\"] #[doc = \" Handlers are invoked sequentially in \
             registration order. Every handler\"] #[doc = \" receives the event even if an \
             earlier handler fails; the first observed\"] #[doc = \" error is returned after \
             fan-out completes.\"] ",
            self.visibility.as_str(),
            " async fn publish<__E: ::catga_core::Event>(&self, event: __E) -> \
             ::catga_core::CatgaResult<()> where Self: \
             ::catga_core::sealed_dispatch::SealedEventDispatch<__E>, { \
             ::catga_core::sealed_dispatch::SealedEventDispatch::__dispatch_event(self, \
             event).await } } ",
        ];
        assert(text::views(parts@) =~= seq![
            "impl<"@,
            types@,
            "> "@,
            self.name@,
            "<"@,
            types@,
            "> where "@,
            bounds@,
            "{ #[doc = \" Creates a new `"@,
            self.name@,
            "` with the given handler instances.\\n\\n Handlers are moved into the struct and \
             stored as typed fields. Event handlers\\n are stored as fixed-size arrays matching \
             the registration order.\"] "@,
            self.visibility@,
            " fn new("@,
            fields@,
            ") -> Self { Self { "@,
            names@,
            " } } #[doc = \" Dispatches a request to its registered handler with zero heap \
             allocation.\"] #[doc = \"\"] #[doc = \" The compiler monomorphizes this call per \
             message type `__M`, producing a\"] #[doc = \" direct function call to the concrete \
             handler with no type erasure.\"] #[doc = \" Sending a message type not registered \
             in `catga_typed_mediator!` is a\"] #[doc = \" compile-time error (the \
             `SealedRequestDispatch` bound is unsatisfied).\"] "@,
            self.visibility@,
            " async fn send<__M: ::catga_core::Request>(&self, message: __M) -> \
             ::catga_core::CatgaResult<__M::Response> where Self: \
             ::catga_core::sealed_dispatch::SealedRequestDispatch<__M>, { \
             ::catga_core::sealed_dispatch::SealedRequestDispatch::__dispatch_request(self, \
             message).await } #[doc = \" Dispatches a command to its registered handler with \
             zero heap allocation.\"] #[doc = \"\"] #[doc = \" Like [`send`](Self::send), \
             dispatch is monomorphized per command type.\"] #[doc = \" Commands have no response \
             value; success is indicated by `Ok(())`.\"] "@,
            self.visibility@,
            " async fn send_command<__C: ::catga_core::Command>(&self, command: __C) -> \
             ::catga_core::CatgaResult<()> where Self: \
             ::catga_core::sealed_dispatch::SealedCommandDispatch<__C>, { \
             ::catga_core::sealed_dispatch::SealedCommandDispatch::__dispatch_command(self, \
             command).await } #[doc = \" Publishes an event to all registered handlers with zero \
             heap allocation.\"] #[doc = \"\"] #[doc = \" Handlers are invoked sequentially in \
             registration order. Every handler\"] #[doc = \" receives the event even if an \
             earlier handler fails; the first observed\"] #[doc = \" error is returned after \
             fan-out completes.\"] "@,
            self.visibility@,
            " async fn publish<__E: ::catga_core::Event>(&self, event: __E) -> \
             ::catga_core::CatgaResult<()> where Self: \
             ::catga_core::sealed_dispatch::SealedEventDispatch<__E>, { \
             ::catga_core::sealed_dispatch::SealedEventDispatch::__dispatch_event(self, \
             event).await } } "@,
        ]);
        concat(&parts)
    }

    /// Writes the source text of the mediator.
    pub fn render(&self) -> (result: String)
        ensures
            result@ == mediator_source(self@),
    {
        let kind: String = self.render_struct();
        let methods: String = self.render_methods();
        let requests: String = self.render_impls(RegistrationKind::Request);
        let commands: String = self.render_impls(RegistrationKind::Command);
        let events: String = self.render_impls(RegistrationKind::Event);
        let parts: Vec<&str> = vec![
            kind.as_str(),
            methods.as_str(),
            requests.as_str(),
            commands.as_str(),
            events.as_str(),
        ];
        assert(text::views(parts@) =~= seq![kind@, methods@, requests@, commands@, events@]);
        concat(&parts)
    }
}

/// The source text of the mediator that a text declares, or why there is none.
pub open spec fn typed_mediator_source(input: Seq<char>) -> Result<Seq<char>, Seq<char>> {
    match syntax::lexed(input) {
        Err(reason) => Err(reason),
        Ok(tokens) => match mediator_in(tokens) {
            Err(reason) => Err(reason),
            Ok(mediator) => match registration::problem_from(mediator.registrations, 0) {
                Some(problem) => Err(problem),
                None => Ok(mediator_source(mediator)),
            },
        },
    }
}

/// Writes the source text of the mediator that a text declares.
pub fn expand_typed_mediator(input: &str) -> (result: Result<String, String>)
    ensures
        syntax::text_result(result) == typed_mediator_source(input@),
{
    let tokens: Vec<Token> = match lex(input) {
        Ok(tokens) => tokens,
        Err(reason) => return Err(reason),
    };
    let mediator: MediatorDeclaration = match read_mediator(&tokens) {
        Ok(mediator) => mediator,
        Err(reason) => return Err(reason),
    };
    match validate_registrations(&mediator.registrations) {
        Ok(_) => Ok(mediator.render()),
        Err(reason) => Err(reason),
    }
}

/// Generates a mediator that holds each handler in a field of its own type.
pub fn catga_typed_mediator(input: &str) -> (result: String)
    ensures
        result@ == handlers::expansion(typed_mediator_source(input@)),
{
    finish_expansion(expand_typed_mediator(input))
}

/// Different handlers have different fields and different type parameters.
pub proof fn lemma_handlers_have_their_own_names(first: int, second: int)
    requires
        0 <= first < second,
    ensures
        handler_field(first) != handler_field(second),
        handler_type(first) != handler_type(second),
{
    let (a, b) = (text::decimal(first as nat), text::decimal(second as nat));
    if handler_field(first) == handler_field(second) {
        let prefix = "__handler_"@.len() as int;
        assert(a =~= handler_field(first).skip(prefix));
        assert(b =~= handler_field(second).skip(prefix));
        text::lemma_decimal_injective(first as nat, second as nat);
    }
    if handler_type(first) == handler_type(second) {
        let prefix = "Handler"@.len() as int;
        assert(a =~= handler_type(first).skip(prefix));
        assert(b =~= handler_type(second).skip(prefix));
        text::lemma_decimal_injective(first as nat, second as nat);
    }
}

/// Whether a text, between its braces, is code that calls every handler of a field exactly once, in
/// the order of the field and whatever the handlers before it returned, and that returns the failure
/// of the first that failed, or success where none failed.
pub open spec fn calls_every_handler(
    source: Seq<char>,
    kind: RegistrationKind,
    field: Seq<char>,
    count: nat,
) -> bool {
    exists|code: dispatch_code::CodeView|
        {
            &&& source == "{ "@ + #[trigger] dispatch_code::written(code) + "} } "@
            &&& forall|outcomes: Seq<Result<(), error::ErrorView>>|
                outcomes.len() == count ==> answers_for_all(
                    #[trigger] dispatch_code::code_run(
                        code,
                        field,
                        outcomes,
                        dispatch_code::fresh(kind),
                    ),
                    outcomes,
                )
        }
}

/// Whether code that ran has called every handler once, in order, and returned the first failure.
pub open spec fn answers_for_all(
    end: dispatch_code::CodeState,
    outcomes: Seq<Result<(), error::ErrorView>>,
) -> bool {
    &&& !end.stuck
    &&& end.calls.len() == outcomes.len()
    &&& forall|i: int| 0 <= i < end.calls.len() ==> #[trigger] end.calls[i] == i
    &&& end.returned is Some
    &&& match end.returned->0 {
        Ok(_) => forall|i: int| 0 <= i < outcomes.len() ==> #[trigger] outcomes[i] is Ok,
        Err(failure) => exists|first: int|
            {
                &&& 0 <= first < outcomes.len()
                &&& #[trigger] outcomes[first] == Err::<(), error::ErrorView>(failure)
                &&& forall|i: int| 0 <= i < first ==> #[trigger] outcomes[i] is Ok
            },
    }
}

/// The method that dispatches a message, read as a program over the handlers of its field, calls
/// every handler exactly once in the order of registration, whatever earlier calls returned, and
/// returns the first failure, or success where no handler failed. A request and a command have one
/// handler, and an event any number of them.
pub proof fn lemma_dispatch_reaches_every_handler(
    registration: registration::RegistrationView,
    field: Seq<char>,
    count: nat,
)
    requires
        registration.kind == RegistrationKind::Event || count == 1,
    ensures
        calls_every_handler(
            dispatch_parts(registration, field).2,
            registration.kind,
            field,
            count,
        ),
{
    let kind = registration.kind;
    let code = match kind {
        RegistrationKind::Request => dispatch_code::request_code(field),
        RegistrationKind::Command => dispatch_code::command_code(field),
        RegistrationKind::Event => dispatch_code::event_code(field),
    };
    assert(dispatch_parts(registration, field).2 == "{ "@ + dispatch_code::written(code) + "} } "@);
    assert forall|outcomes: Seq<Result<(), error::ErrorView>>| outcomes.len() == count implies
        answers_for_all(
        #[trigger] dispatch_code::code_run(code, field, outcomes, dispatch_code::fresh(kind)),
        outcomes,
    ) by {
        if kind == RegistrationKind::Event {
            dispatch_code::lemma_every_handler_receives_the_event(field, outcomes);
        } else {
            dispatch_code::lemma_one_handler_answers(field, outcomes[0]);
            assert(outcomes =~= seq![outcomes[0]]);
            assert(outcomes[0] == outcomes[0]);
        }
    }
}

/// Each registration of a kind is dispatched by one implementation of its own, in the order of
/// registration, and there is no other implementation of that kind.
pub proof fn lemma_every_registration_is_dispatched(
    mediator: MediatorView,
    kind: RegistrationKind,
    count: int,
    place: int,
)
    requires
        0 <= place < count <= mediator.registrations.len(),
        mediator.registrations[place].kind == kind,
    ensures
        ({
            let impls = dispatch_impls(mediator, kind, count);
            let before = dispatch_impls(mediator, kind, place).len() as int;
            &&& before < impls.len()
            &&& impls[before] == dispatch_impl(mediator, place)
            &&& impls.len() == mediator.registrations.take(count).filter(
                |registration: registration::RegistrationView| registration.kind == kind,
            ).len()
        }),
    decreases count,
{
    lemma_dispatch_count(mediator, kind, count);
    if place < count - 1 {
        lemma_every_registration_is_dispatched(mediator, kind, count - 1, place);
    }
}

proof fn lemma_dispatch_count(mediator: MediatorView, kind: RegistrationKind, count: int)
    requires
        0 <= count <= mediator.registrations.len(),
    ensures
        dispatch_impls(mediator, kind, count).len() == mediator.registrations.take(count).filter(
            |registration: registration::RegistrationView| registration.kind == kind,
        ).len(),
    decreases count,
{
    reveal(Seq::filter);
    if count > 0 {
        let taken = mediator.registrations.take(count);
        assert(taken.drop_last() =~= mediator.registrations.take(count - 1));
        assert(taken.last() == mediator.registrations[count - 1]);
        lemma_dispatch_count(mediator, kind, count - 1);
    }
}

/// The method that a mediator calls for a kind of message is the one that the implementations of
/// that kind define, under the name by which their code knows the message.
pub proof fn lemma_dispatch_methods_have_the_names_that_are_called(
    registration: registration::RegistrationView,
    field: Seq<char>,
)
    ensures
        ({
            let (name, head, _) = dispatch_parts(registration, field);
            let (expected, start) = match registration.kind {
                RegistrationKind::Request => (
                    "SealedRequestDispatch"@,
                    "async fn __dispatch_request(&self, message: "@,
                ),
                RegistrationKind::Command => (
                    "SealedCommandDispatch"@,
                    "async fn __dispatch_command(&self, command: "@,
                ),
                RegistrationKind::Event => (
                    "SealedEventDispatch"@,
                    "async fn __dispatch_event(&self, event: "@,
                ),
            };
            &&& name == expected
            &&& start + registration.message + ")"@ == head.take(
                (start.len() + registration.message.len() + 1) as int,
            )
        }),
{
    reveal_strlit(")");
    reveal_strlit(") -> ::catga_core::CatgaResult<<");
    reveal_strlit(") -> ::catga_core::CatgaResult<()> ");
    reveal_with_fuel(text::concatenated, 6);
    let (_, head, _) = dispatch_parts(registration, field);
    let start = match registration.kind {
        RegistrationKind::Request => "async fn __dispatch_request(&self, message: "@,
        RegistrationKind::Command => "async fn __dispatch_command(&self, command: "@,
        RegistrationKind::Event => "async fn __dispatch_event(&self, event: "@,
    };
    assert(start + registration.message + ")"@ =~= head.take(
        (start.len() + registration.message.len() + 1) as int,
    ));
}

} // verus!
