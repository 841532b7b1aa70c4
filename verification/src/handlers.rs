//! Registration code for a registry of handlers.

use vstd::prelude::*;

use crate::registration;
use crate::registration::{
    read_registrations, validate_registrations, Registration, RegistrationKind,
};
use crate::syntax;
use crate::syntax::{error_source, lex, Token};
use crate::text;
use crate::text::{concat, separate};

verus! {

/// The call that registers one handler.
pub open spec fn handler_entry(
    kind: RegistrationKind,
    message: Seq<char>,
    handler: Seq<char>,
) -> Seq<char> {
    match kind {
        RegistrationKind::Request => text::concatenated(
            seq!["registry.register_request::<"@, message, ", _>("@, handler, ")?; "@],
        ),
        RegistrationKind::Command => text::concatenated(
            seq!["registry.register_command::<"@, message, ", _>("@, handler, ")?; "@],
        ),
        RegistrationKind::Event => text::concatenated(
            seq!["registry.register_event::<"@, message, ", _>("@, handler, "); "@],
        ),
    }
}

/// The calls that register the handlers of one message, in their order.
pub open spec fn registration_entries(registration: registration::RegistrationView) -> Seq<
    Seq<char>,
> {
    Seq::new(
        registration.handlers.len(),
        |i: int|
            handler_entry(registration.kind, registration.message, registration.handlers[i]),
    )
}

/// The calls that register the handlers of several messages, in the order of declaration.
pub open spec fn all_entries(registrations: Seq<registration::RegistrationView>) -> Seq<Seq<char>>
    decreases registrations.len(),
{
    if registrations.len() == 0 {
        Seq::empty()
    } else {
        all_entries(registrations.drop_last()) + registration_entries(registrations.last())
    }
}

/// The expression that builds a registry with the handlers of some registrations.
pub open spec fn registry_source(registrations: Seq<registration::RegistrationView>) -> Seq<char> {
    text::concatenated(
        seq![
            "{ (|| -> ::catga_core::CatgaResult<::catga_core::Registry> { \
             let mut registry = ::catga_core::Registry::new(); "@,
            text::separated(all_entries(registrations), ""@),
            "Ok(registry) })() }"@,
        ],
    )
}

fn entry(kind: RegistrationKind, message: &str, handler: &str) -> (result: String)
    ensures
        result@ == handler_entry(kind, message@, handler@),
{
    let (start, end): (&str, &str) = match kind {
        RegistrationKind::Request => ("registry.register_request::<", ")?; "),
        RegistrationKind::Command => ("registry.register_command::<", ")?; "),
        RegistrationKind::Event => ("registry.register_event::<", "); "),
    };
    let parts: Vec<&str> = vec![start, message, ", _>(", handler, end];
    assert(text::views(parts@) =~= seq![start@, message@, ", _>("@, handler@, end@]);
    concat(&parts)
}

/// Writes the expression that builds a registry with the handlers of some registrations.
pub fn render_registry(registrations: &Vec<Registration>) -> (result: String)
    ensures
        result@ == registry_source(registrations.deep_view()),
{
    let ghost model = registrations.deep_view();
    let mut entries: Vec<String> = Vec::new();
    let mut index: usize = 0;
    assert(model.take(0) =~= Seq::empty());
    assert(entries.deep_view() =~= Seq::empty());
    while index < registrations.len()
        invariant
            index <= registrations@.len(),
            model == registrations.deep_view(),
            entries.deep_view() == all_entries(model.take(index as int)),
        decreases registrations@.len() - index,
    {
        let registration: &Registration = &registrations[index];
        let ghost before = entries.deep_view();
        let ghost own = registration_entries(registration@);
        let mut place: usize = 0;
        assert(own.take(0) =~= Seq::empty());
        assert(before + own.take(0) =~= before);
        while place < registration.handlers.len()
            invariant
                place <= registration.handlers@.len(),
                own == registration_entries(registration@),
                entries.deep_view() == before + own.take(place as int),
            decreases registration.handlers@.len() - place,
        {
            let ghost sofar = entries.deep_view();
            let line: String = entry(
                registration.kind,
                registration.message.as_str(),
                registration.handlers[place].as_str(),
            );
            proof {
                assert(own[place as int] == line@);
                assert(own.take(place + 1) =~= own.take(place as int).push(line@));
            }
            entries.push(line);
            assert(entries.deep_view() =~= sofar.push(line@));
            assert(sofar.push(line@) =~= before + own.take(place + 1));
            place = place + 1;
        }
        proof {
            assert(own.take(place as int) =~= own);
            let next = model.take(index + 1);
            assert(next.drop_last() =~= model.take(index as int));
            assert(next.last() == registration@);
        }
        index = index + 1;
    }
    assert(model.take(index as int) =~= model);
    let body: String = separate(&entries, "");
    let parts: Vec<&str> = vec![
        "{ (|| -> ::catga_core::CatgaResult<::catga_core::Registry> { \
         let mut registry = ::catga_core::Registry::new(); ",
        body.as_str(),
        "Ok(registry) })() }",
    ];
    assert(text::views(parts@) =~= seq![
        "{ (|| -> ::catga_core::CatgaResult<::catga_core::Registry> { \
         let mut registry = ::catga_core::Registry::new(); "@,
        body@,
        "Ok(registry) })() }"@,
    ]);
    concat(&parts)
}

/// The expression that builds the registry that a text declares, or why there is none.
pub open spec fn handlers_source(input: Seq<char>) -> Result<Seq<char>, Seq<char>> {
    match syntax::lexed(input) {
        Err(reason) => Err(reason),
        Ok(tokens) => match registration::registrations_from(tokens, 0) {
            Err(reason) => Err(reason),
            Ok(registrations) => match registration::problem_from(registrations, 0) {
                Some(problem) => Err(problem),
                None => Ok(registry_source(registrations)),
            },
        },
    }
}

/// Writes the expression that builds the registry that a text declares.
pub fn expand_handlers(input: &str) -> (result: Result<String, String>)
    ensures
        syntax::text_result(result) == handlers_source(input@),
{
    let tokens: Vec<Token> = match lex(input) {
        Ok(tokens) => tokens,
        Err(reason) => return Err(reason),
    };
    let registrations: Vec<Registration> = match read_registrations(&tokens, 0) {
        Ok(registrations) => registrations,
        Err(reason) => return Err(reason),
    };
    match validate_registrations(&registrations) {
        Ok(_) => Ok(render_registry(&registrations)),
        Err(reason) => Err(reason),
    }
}

/// The source text of an expansion: what it generates, or what makes the compiler report its
/// failure.
pub open spec fn expansion(result: Result<Seq<char>, Seq<char>>) -> Seq<char> {
    match result {
        Ok(source) => source,
        Err(reason) => syntax::error_source_of(reason),
    }
}

/// Writes what an expansion generates, or what makes the compiler report its failure.
pub fn finish_expansion(result: Result<String, String>) -> (source: String)
    ensures
        source@ == expansion(syntax::text_result(result)),
{
    match result {
        Ok(source) => source,
        Err(reason) => error_source(reason.as_str()),
    }
}

/// Builds a registry from typed request, command and event handlers.
///
/// Each request or command may be registered once; an event may have several handlers. A handler
/// is any expression.
pub fn catga_handlers(input: &str) -> (result: String)
    ensures
        result@ == expansion(handlers_source(input@)),
{
    finish_expansion(expand_handlers(input))
}

} // verus!
