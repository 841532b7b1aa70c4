//! Trait implementations for message types, and the application entry point.

use vstd::prelude::*;

use crate::handlers;
use crate::handlers::finish_expansion;
use crate::registration;
use crate::registration::spell;
use crate::syntax;
use crate::syntax::{
    lex, parse_definition, parse_function, parse_type, split_generics, Definition, Function,
    SplitGenerics, Token,
};
use crate::text;
use crate::text::{concat, join, same_text, separate};

verus! {

/// A type for which traits are implemented.
#[derive(Debug)]
pub struct ImplTarget {
    /// The name of the type.
    pub name: String,
    /// How the generic parameters are written behind `impl`.
    pub impl_generics: String,
    /// How the generic arguments are written behind the name.
    pub type_generics: String,
    /// The names of the type parameters.
    pub type_parameters: Vec<String>,
    /// How the predicates of the `where` clause are written.
    pub predicates: Vec<String>,
}

/// Mathematical model of an [`ImplTarget`].
pub struct TargetView {
    pub name: Seq<char>,
    pub impl_generics: Seq<char>,
    pub type_generics: Seq<char>,
    pub type_parameters: Seq<Seq<char>>,
    pub predicates: Seq<Seq<char>>,
}

impl View for ImplTarget {
    type V = TargetView;

    open spec fn view(&self) -> TargetView {
        TargetView {
            name: self.name@,
            impl_generics: self.impl_generics@,
            type_generics: self.type_generics@,
            type_parameters: self.type_parameters.deep_view(),
            predicates: self.predicates.deep_view(),
        }
    }
}

/// A defined type, with its generics split for implementations.
pub open spec fn split_target(
    defined: syntax::DefinitionView,
    split: syntax::SplitGenericsView,
) -> TargetView {
    TargetView {
        name: defined.name,
        impl_generics: split.impl_generics,
        type_generics: split.type_generics,
        type_parameters: defined.type_parameters,
        predicates: defined.predicates,
    }
}

/// The type that a text defines, or why there is none.
pub open spec fn target_of(text: Seq<char>) -> Result<TargetView, Seq<char>> {
    match syntax::definition_of(text) {
        Err(reason) => Err(reason),
        Ok(defined) => match syntax::split_generics_of(defined.generics) {
            Err(reason) => Err(reason),
            Ok(split) => Ok(split_target(defined, split)),
        },
    }
}

/// Puts a type definition and its split generics together.
pub fn join_target(defined: Definition, split: SplitGenerics) -> (result: ImplTarget)
    ensures
        result@ == split_target(defined@, split@),
{
    ImplTarget {
        name: defined.name,
        impl_generics: split.impl_generics,
        type_generics: split.type_generics,
        type_parameters: defined.type_parameters,
        predicates: defined.predicates,
    }
}

pub(crate) fn read_target(text: &str) -> (result: Result<ImplTarget, String>)
    ensures
        match result {
            Ok(target) => target_of(text@) == Ok::<TargetView, Seq<char>>(target@),
            Err(reason) => target_of(text@) == Err::<TargetView, Seq<char>>(reason@),
        },
{
    let defined: Definition = match parse_definition(text) {
        Ok(defined) => defined,
        Err(reason) => return Err(reason),
    };
    match split_generics(defined.generics.as_str()) {
        Ok(split) => Ok(join_target(defined, split)),
        Err(reason) => Err(reason),
    }
}

/// The predicates of a `where` clause with a bound on each type parameter behind those that were
/// there.
pub open spec fn bounded_predicates(
    target: TargetView,
    bound: Seq<char>,
) -> Seq<Seq<char>> {
    target.predicates + Seq::new(
        target.type_parameters.len(),
        |i: int| target.type_parameters[i] + bound,
    )
}

/// A `where` clause; without predicates there is none.
pub open spec fn where_clause(predicates: Seq<Seq<char>>) -> Seq<char> {
    if predicates.len() == 0 {
        Seq::empty()
    } else {
        "where "@ + text::separated(predicates, ", "@) + " "@
    }
}

/// An implementation of a trait for a defined type, up to its body.
pub open spec fn impl_head(
    target: TargetView,
    name: Seq<char>,
    predicates: Seq<Seq<char>>,
) -> Seq<char> {
    text::concatenated(
        seq![
            "impl "@,
            target.impl_generics,
            " ::catga_core::"@,
            name,
            " for "@,
            target.name,
            " "@,
            target.type_generics,
            " "@,
            where_clause(predicates),
        ],
    )
}

pub(crate) fn render_predicates(target: &ImplTarget, bound: &str) -> (result: Vec<String>)
    ensures
        result.deep_view() == bounded_predicates(target@, bound@),
{
    let ghost model = bounded_predicates(target@, bound@);
    let mut result: Vec<String> = Vec::new();
    while result.len() < target.predicates.len()
        invariant
            result@.len() <= target.predicates@.len(),
            model == bounded_predicates(target@, bound@),
            forall|i: int| 0 <= i < result@.len() ==> (#[trigger] result@[i])@ == model[i],
        decreases target.predicates@.len() - result@.len(),
    {
        let place: usize = result.len();
        assert(model[place as int] == target.predicates@[place as int]@);
        result.push(target.predicates[place].clone());
    }
    let mut place: usize = 0;
    while place < target.type_parameters.len()
        invariant
            place <= target.type_parameters@.len(),
            result@.len() == target.predicates@.len() + place,
            model == bounded_predicates(target@, bound@),
            forall|i: int| 0 <= i < result@.len() ==> (#[trigger] result@[i])@ == model[i],
        decreases target.type_parameters@.len() - place,
    {
        assert(model[target.predicates@.len() + place]
            == target.type_parameters@[place as int]@ + bound@);
        result.push(join(target.type_parameters[place].as_str(), bound));
        place = place + 1;
    }
    assert(result.deep_view() =~= model);
    result
}

fn render_where(predicates: &Vec<String>) -> (result: String)
    ensures
        result@ == where_clause(predicates.deep_view()),
{
    if predicates.len() == 0 {
        return String::new();
    }
    let list: String = separate(predicates, ", ");
    join(join("where ", list.as_str()).as_str(), " ")
}

pub(crate) fn render_head(target: &ImplTarget, name: &str, predicates: &Vec<String>) -> (result: String)
    ensures
        result@ == impl_head(target@, name@, predicates.deep_view()),
{
    let clause: String = render_where(predicates);
    let parts: Vec<&str> = vec![
        "impl ",
        target.impl_generics.as_str(),
        " ::catga_core::",
        name,
        " for ",
        target.name.as_str(),
        " ",
        target.type_generics.as_str(),
        " ",
        clause.as_str(),
    ];
    assert(text::views(parts@) =~= seq![
        "impl "@,
        target.impl_generics@,
        " ::catga_core::"@,
        name@,
        " for "@,
        target.name@,
        " "@,
        target.type_generics@,
        " "@,
        clause@,
    ]);
    concat(&parts)
}

/// The implementations of `Message` and of one further trait without members.
pub open spec fn marker_source(
    target: TargetView,
    name: Seq<char>,
    bound: Seq<char>,
) -> Seq<char> {
    let predicates = bounded_predicates(target, bound);
    text::concatenated(
        seq![
            impl_head(target, "Message"@, predicates),
            "{} "@,
            impl_head(target, name, predicates),
            "{}"@,
        ],
    )
}

fn render_marker(target: &ImplTarget, name: &str, bound: &str) -> (result: String)
    ensures
        result@ == marker_source(target@, name@, bound@),
{
    let predicates: Vec<String> = render_predicates(target, bound);
    let message: String = render_head(target, "Message", &predicates);
    let other: String = render_head(target, name, &predicates);
    let parts: Vec<&str> = vec![message.as_str(), "{} ", other.as_str(), "{}"];
    assert(text::views(parts@) =~= seq![message@, "{} "@, other@, "{}"@]);
    concat(&parts)
}

/// The implementations that make a type a command.
pub open spec fn command_impls(target: TargetView) -> Seq<char> {
    marker_source(target, "Command"@, ": Clone"@)
}

/// Writes the implementations that make a type a command.
///
/// Each type parameter must be `Clone`.
pub fn render_command(target: &ImplTarget) -> (result: String)
    ensures
        result@ == command_impls(target@),
{
    render_marker(target, "Command", ": Clone")
}

/// The implementations that make a type an event.
pub open spec fn event_impls(target: TargetView) -> Seq<char> {
    marker_source(target, "Event"@, ": Clone + Send + Sync + 'static"@)
}

/// Writes the implementations that make a type an event.
///
/// Each type parameter must be `Clone` and shareable between threads.
pub fn render_event(target: &ImplTarget) -> (result: String)
    ensures
        result@ == event_impls(target@),
{
    render_marker(target, "Event", ": Clone + Send + Sync + 'static")
}

/// The implementations that make the type in a text a command, or why there are none.
pub open spec fn command_source(input: Seq<char>) -> Result<Seq<char>, Seq<char>> {
    match target_of(input) {
        Ok(target) => Ok(command_impls(target)),
        Err(reason) => Err(reason),
    }
}

/// Writes the implementations that make the type in a text a command.
pub fn expand_derive_command(input: &str) -> (result: Result<String, String>)
    ensures
        syntax::text_result(result) == command_source(input@),
{
    match read_target(input) {
        Ok(target) => Ok(render_command(&target)),
        Err(reason) => Err(reason),
    }
}

/// Makes a type a message and a command.
pub fn derive_command(input: &str) -> (result: String)
    ensures
        result@ == handlers::expansion(command_source(input@)),
{
    finish_expansion(expand_derive_command(input))
}

/// The implementations that make the type in a text an event, or why there are none.
pub open spec fn event_source(input: Seq<char>) -> Result<Seq<char>, Seq<char>> {
    match target_of(input) {
        Ok(target) => Ok(event_impls(target)),
        Err(reason) => Err(reason),
    }
}

/// Writes the implementations that make the type in a text an event.
pub fn expand_derive_event(input: &str) -> (result: Result<String, String>)
    ensures
        syntax::text_result(result) == event_source(input@),
{
    match read_target(input) {
        Ok(target) => Ok(render_event(&target)),
        Err(reason) => Err(reason),
    }
}

/// Makes a type a message and an event.
pub fn derive_event(input: &str) -> (result: String)
    ensures
        result@ == handlers::expansion(event_source(input@)),
{
    finish_expansion(expand_derive_event(input))
}

/// How the response type is written in `response = Type`, or why there is none.
pub open spec fn response_text(tokens: Seq<syntax::TokenView>) -> Result<Seq<char>, Seq<char>> {
    if tokens.len() == 0 || tokens[0].text != "response"@ {
        Err("expected `response`"@)
    } else if tokens.len() == 1 || tokens[1].text != "="@ {
        Err("expected `=`"@)
    } else {
        Ok(registration::spelled(tokens.skip(2)))
    }
}

/// Finds how the response type is written.
pub fn split_response(tokens: &Vec<Token>) -> (result: Result<String, String>)
    ensures
        syntax::text_result(result) == response_text(tokens.deep_view()),
{
    let ghost model = tokens.deep_view();
    let count: usize = tokens.len();
    if count == 0 {
        return Err("expected `response`".to_owned());
    }
    assert(model[0] == tokens@[0]@);
    if !same_text(tokens[0].text.as_str(), "response") {
        return Err("expected `response`".to_owned());
    }
    if count == 1 {
        return Err("expected `=`".to_owned());
    }
    assert(model[1] == tokens@[1]@);
    if !same_text(tokens[1].text.as_str(), "=") {
        return Err("expected `=`".to_owned());
    }
    assert(model.subrange(2, count as int) =~= model.skip(2));
    Ok(spell(tokens, 2, count))
}

/// A type definition with the implementations that make the type a request.
pub open spec fn request_impls(
    item: Seq<char>,
    target: TargetView,
    response: Seq<char>,
) -> Seq<char> {
    text::concatenated(
        seq![
            item,
            " "@,
            impl_head(target, "Message"@, target.predicates),
            "{} "@,
            impl_head(target, "Request"@, target.predicates),
            "{ type Response = "@,
            response,
            "; }"@,
        ],
    )
}

/// Writes a type definition with the implementations that make the type a request.
pub fn render_request(item: &str, target: &ImplTarget, response: &str) -> (result: String)
    ensures
        result@ == request_impls(item@, target@, response@),
{
    let message: String = render_head(target, "Message", &target.predicates);
    let request: String = render_head(target, "Request", &target.predicates);
    let parts: Vec<&str> = vec![
        item,
        " ",
        message.as_str(),
        "{} ",
        request.as_str(),
        "{ type Response = ",
        response,
        "; }",
    ];
    assert(text::views(parts@) =~= seq![
        item@,
        " "@,
        message@,
        "{} "@,
        request@,
        "{ type Response = "@,
        response@,
        "; }"@,
    ]);
    concat(&parts)
}

/// The type definition in a text with the implementations that make the type a request, or why
/// there are none.
pub open spec fn request_source(attribute: Seq<char>, item: Seq<char>) -> Result<
    Seq<char>,
    Seq<char>,
> {
    match syntax::lexed(attribute) {
        Err(reason) => Err(reason),
        Ok(tokens) => match response_text(tokens) {
            Err(reason) => Err(reason),
            Ok(response) => match (syntax::type_of(response), target_of(item)) {
                (Err(reason), _) => Err(reason),
                (_, Err(reason)) => Err(reason),
                (Ok(response), Ok(target)) => Ok(request_impls(item, target, response)),
            },
        },
    }
}

/// Writes the type definition in a text with the implementations that make the type a request.
pub fn expand_catga_request(attribute: &str, item: &str) -> (result: Result<String, String>)
    ensures
        syntax::text_result(result) == request_source(attribute@, item@),
{
    let tokens: Vec<Token> = match lex(attribute) {
        Ok(tokens) => tokens,
        Err(reason) => return Err(reason),
    };
    let written: String = match split_response(&tokens) {
        Ok(written) => written,
        Err(reason) => return Err(reason),
    };
    let response: String = match parse_type(written.as_str()) {
        Ok(response) => response,
        Err(reason) => return Err(reason),
    };
    match read_target(item) {
        Ok(target) => Ok(render_request(item, &target, response.as_str())),
        Err(reason) => Err(reason),
    }
}

/// Makes a type a message and a request with the response type that `response = Type` names.
pub fn catga_request(attribute: &str, item: &str) -> (result: String)
    ensures
        result@ == handlers::expansion(request_source(attribute@, item@)),
{
    finish_expansion(expand_catga_request(attribute, item))
}

/// An entry point that runs the body of a function.
pub open spec fn entry_point(function: syntax::FunctionView) -> Seq<char> {
    text::concatenated(
        seq![
            function.visibility,
            if function.is_async {
                " async fn "@
            } else {
                " fn "@
            },
            function.name,
            "("@,
            text::separated(function.parameters, ", "@),
            ") "@,
            function.output,
            " { "@,
            function.body,
            " }"@,
        ],
    )
}

/// Writes an entry point that runs the body of a function.
pub fn render_entry_point(function: &Function) -> (result: String)
    ensures
        result@ == entry_point(function@),
{
    let parameters: String = separate(&function.parameters, ", ");
    let word: &str = if function.is_async {
        " async fn "
    } else {
        " fn "
    };
    let parts: Vec<&str> = vec![
        function.visibility.as_str(),
        word,
        function.name.as_str(),
        "(",
        parameters.as_str(),
        ") ",
        function.output.as_str(),
        " { ",
        function.body.as_str(),
        " }",
    ];
    assert(text::views(parts@) =~= seq![
        function.visibility@,
        word@,
        function.name@,
        "("@,
        parameters@,
        ") "@,
        function.output@,
        " { "@,
        function.body@,
        " }"@,
    ]);
    concat(&parts)
}

/// The entry point for the function in a text, or why there is none.
pub open spec fn main_source(input: Seq<char>) -> Result<Seq<char>, Seq<char>> {
    match syntax::function_of(input) {
        Ok(function) => Ok(entry_point(function)),
        Err(reason) => Err(reason),
    }
}

/// Writes the entry point for the function in a text.
pub fn expand_catga_main(input: &str) -> (result: Result<String, String>)
    ensures
        syntax::text_result(result) == main_source(input@),
{
    match parse_function(input) {
        Ok(function) => Ok(render_entry_point(&function)),
        Err(reason) => Err(reason),
    }
}

/// Makes a function the entry point of an application.
pub fn catga_main(input: &str) -> (result: String)
    ensures
        result@ == handlers::expansion(main_source(input@)),
{
    finish_expansion(expand_catga_main(input))
}

} // verus!
