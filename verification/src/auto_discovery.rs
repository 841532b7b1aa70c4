//! Discovery of the handlers that a module defines.

use vstd::prelude::*;
use vstd::string::StringExecFns;

use crate::error;
use crate::error::clone_text_option;
use crate::handlers;
use crate::handlers::finish_expansion;
use crate::registration::RegistrationKind;
use crate::syntax;
use crate::syntax::{
    parse_function, parse_generic_arguments, parse_impl_block, parse_module, parse_parameter,
    parse_path, Function, GenericArgument, ImplBlock, Module, Segment,
};
use crate::text;
use crate::text::{concat, same_text, separate};

verus! {

/// The kind of handler that implementing a trait makes, by the last segment of its path.
pub open spec fn handler_kind_of(segments: Seq<syntax::SegmentView>) -> Option<RegistrationKind> {
    if segments.len() == 0 {
        None
    } else if segments.last().name == "Handler"@ {
        Some(RegistrationKind::Request)
    } else if segments.last().name == "CommandHandler"@ {
        Some(RegistrationKind::Command)
    } else if segments.last().name == "EventHandler"@ {
        Some(RegistrationKind::Event)
    } else {
        None
    }
}

/// Returns the kind of handler that implementing a trait makes.
pub fn handler_kind(segments: &Vec<Segment>) -> (result: Option<RegistrationKind>)
    ensures
        result == handler_kind_of(segments.deep_view()),
{
    let count: usize = segments.len();
    if count == 0 {
        return None;
    }
    let last: &Segment = &segments[count - 1];
    assert(segments.deep_view().last() == last@);
    let name: &str = last.name.as_str();
    if same_text(name, "Handler") {
        Some(RegistrationKind::Request)
    } else if same_text(name, "CommandHandler") {
        Some(RegistrationKind::Command)
    } else if same_text(name, "EventHandler") {
        Some(RegistrationKind::Event)
    } else {
        None
    }
}

/// The first generic argument, where it is a type.
pub open spec fn first_type_of(arguments: Seq<syntax::GenericArgumentView>) -> Option<Seq<char>> {
    if arguments.len() > 0 && arguments[0].is_type {
        Some(arguments[0].text)
    } else {
        None
    }
}

/// Returns the first generic argument, where it is a type.
pub fn first_type(arguments: &Vec<GenericArgument>) -> (result: Option<String>)
    ensures
        error::text_option(result) == first_type_of(arguments.deep_view()),
{
    if arguments.len() > 0 {
        assert(arguments.deep_view()[0] == arguments@[0]@);
        if arguments[0].is_type {
            return Some(arguments[0].text.clone());
        }
    }
    None
}

/// An `impl` block, seen as the definition of a handler.
#[derive(Debug)]
pub struct HandlerImpl {
    /// How the whole block is written.
    pub text: String,
    /// How the path of the implemented trait is written, where the block implements one.
    pub trait_path: Option<String>,
    /// What the trait makes of the type, where it is a trait of handlers.
    pub kind: Option<RegistrationKind>,
    /// The message type, where the trait has a type as its first argument.
    pub message: Option<String>,
    /// How the implementing type is written.
    pub self_type: String,
}

/// Mathematical model of a [`HandlerImpl`].
pub struct HandlerImplView {
    pub text: Seq<char>,
    pub trait_path: Option<Seq<char>>,
    pub kind: Option<RegistrationKind>,
    pub message: Option<Seq<char>>,
    pub self_type: Seq<char>,
}

impl View for HandlerImpl {
    type V = HandlerImplView;

    open spec fn view(&self) -> HandlerImplView {
        HandlerImplView {
            text: self.text@,
            trait_path: error::text_option(self.trait_path),
            kind: self.kind,
            message: error::text_option(self.message),
            self_type: self.self_type@,
        }
    }
}

/// The segments of the path of a trait; a text that is no path has none.
pub open spec fn trait_segments(path: Option<Seq<char>>) -> Seq<syntax::SegmentView> {
    match path {
        Some(path) => match syntax::path_of(path) {
            Ok(path) => path.segments,
            Err(_) => Seq::empty(),
        },
        None => Seq::empty(),
    }
}

/// The first generic argument of the last segment of a path, where it is a type.
pub open spec fn message_of(segments: Seq<syntax::SegmentView>) -> Option<Seq<char>> {
    if segments.len() == 0 {
        None
    } else {
        match syntax::generic_arguments_of(segments.last().arguments) {
            Ok(arguments) => first_type_of(arguments),
            Err(_) => None,
        }
    }
}

/// What an `impl` block defines.
pub open spec fn handler_impl_of(block: syntax::ImplBlockView) -> HandlerImplView {
    HandlerImplView {
        text: block.text,
        trait_path: block.trait_path,
        kind: handler_kind_of(trait_segments(block.trait_path)),
        message: message_of(trait_segments(block.trait_path)),
        self_type: block.self_type,
    }
}

/// Reads what an `impl` block defines.
pub fn read_handler_impl(block: &ImplBlock) -> (result: HandlerImpl)
    ensures
        result@ == handler_impl_of(block@),
{
    let segments: Vec<Segment> = match &block.trait_path {
        Some(path) => match parse_path(path.as_str()) {
            Ok(path) => path.segments,
            Err(_) => Vec::new(),
        },
        None => Vec::new(),
    };
    assert(segments.deep_view() =~= trait_segments(block@.trait_path));
    let count: usize = segments.len();
    let message: Option<String> = if count == 0 {
        None
    } else {
        assert(segments.deep_view().last() == segments@[count - 1]@);
        match parse_generic_arguments(segments[count - 1].arguments.as_str()) {
            Ok(arguments) => first_type(&arguments),
            Err(_) => None,
        }
    };
    HandlerImpl {
        text: block.text.clone(),
        trait_path: clone_text_option(&block.trait_path),
        kind: handler_kind(&segments),
        message,
        self_type: block.self_type.clone(),
    }
}

/// Whether a character separates the parts of a type and cannot stand in a name.
pub open spec fn separates(character: char) -> bool {
    character == '<' || character == '>' || character == ' ' || character == ',' || character == ':'
        || character == '&' || character == '(' || character == ')' || character == '['
        || character == ']'
}

/// A type, written as the end of a name.
pub open spec fn as_name(kind: Seq<char>) -> Seq<char> {
    kind.map_values(
        |character: char|
            if separates(character) {
                '_'
            } else {
                character
            },
    )
}

fn render_name(kind: &str) -> (result: String)
    ensures
        result@ == as_name(kind@),
{
    let length: usize = kind.unicode_len();
    let mut result: String = String::new();
    let mut index: usize = 0;
    proof {
        reveal_strlit("_");
    }
    assert(result@ =~= as_name(kind@).take(0));
    while index < length
        invariant
            index <= length,
            length == kind@.len(),
            "_"@ == seq!['_'],
            result@ == as_name(kind@).take(index as int),
        decreases length - index,
    {
        let character: char = kind.get_char(index);
        if character == '<' || character == '>' || character == ' ' || character == ','
            || character == ':' || character == '&' || character == '(' || character == ')'
            || character == '[' || character == ']' {
            result.append("_");
        } else {
            result.append(kind.substring_char(index, index + 1));
        }
        assert(result@ =~= as_name(kind@).take(index + 1));
        index = index + 1;
    }
    assert(as_name(kind@).take(index as int) =~= as_name(kind@));
    result
}

/// The source text for an `impl` block that is marked as a handler, or why it cannot be one.
pub open spec fn marked_source(block: HandlerImplView) -> Result<Seq<char>, Seq<char>> {
    match (block.trait_path, block.kind, block.message) {
        (None, _, _) => Err(
            "`#[catga_handler]` requires a trait impl block (`impl Handler<M> for T` etc.)"@,
        ),
        (Some(path), None, _) => Err(
            text::concatenated(
                seq![
                    "`#[catga_handler]` only supports `Handler`, `CommandHandler`, or \
                     `EventHandler`, not `"@,
                    path,
                    "` (impl for `"@,
                    block.self_type,
                    "`)"@,
                ],
            ),
        ),
        (Some(_), Some(_), None) => Err(
            "`#[catga_handler]` requires a typed trait impl (`impl Handler<M>`)"@,
        ),
        (Some(_), Some(_), Some(_)) => {
            let name = "__CatgaHandler_"@ + as_name(block.self_type);
            Ok(
                text::concatenated(
                    seq![
                        "{ struct "@,
                        name,
                        "; impl "@,
                        block.text,
                        " "@,
                        name,
                        " } ::catga_core::CatgaResult::<()>"@,
                    ],
                ),
            )
        },
    }
}

/// Writes the source text for an `impl` block that is marked as a handler.
pub fn render_marked(block: &HandlerImpl) -> (result: Result<String, String>)
    ensures
        syntax::text_result(result) == marked_source(block@),
{
    let path: &String = match &block.trait_path {
        Some(path) => path,
        None => return Err(
            "`#[catga_handler]` requires a trait impl block (`impl Handler<M> for T` etc.)"
                .to_owned(),
        ),
    };
    if block.kind.is_none() {
        let parts: Vec<&str> = vec![
            "`#[catga_handler]` only supports `Handler`, `CommandHandler`, or \
             `EventHandler`, not `",
            path.as_str(),
            "` (impl for `",
            block.self_type.as_str(),
            "`)",
        ];
        assert(text::views(parts@) =~= seq![
            "`#[catga_handler]` only supports `Handler`, `CommandHandler`, or \
             `EventHandler`, not `"@,
            path@,
            "` (impl for `"@,
            block.self_type@,
            "`)"@,
        ]);
        return Err(concat(&parts));
    }
    if block.message.is_none() {
        return Err(
            "`#[catga_handler]` requires a typed trait impl (`impl Handler<M>`)".to_owned(),
        );
    }
    let name: String = text::join(
        "__CatgaHandler_",
        render_name(block.self_type.as_str()).as_str(),
    );
    let parts: Vec<&str> = vec![
        "{ struct ",
        name.as_str(),
        "; impl ",
        block.text.as_str(),
        " ",
        name.as_str(),
        " } ::catga_core::CatgaResult::<()>",
    ];
    assert(text::views(parts@) =~= seq![
        "{ struct "@,
        name@,
        "; impl "@,
        block.text@,
        " "@,
        name@,
        " } ::catga_core::CatgaResult::<()>"@,
    ]);
    Ok(concat(&parts))
}

/// The source text for an `impl` block that is marked as a handler.
pub open spec fn handler_source(input: Seq<char>) -> Result<Seq<char>, Seq<char>> {
    match syntax::impl_block_of(input) {
        Err(reason) => Err(reason),
        Ok(block) => marked_source(handler_impl_of(block)),
    }
}

/// Writes the source text for an `impl` block that is marked as a handler.
pub fn expand_handler(input: &str) -> (result: Result<String, String>)
    ensures
        syntax::text_result(result) == handler_source(input@),
{
    match parse_impl_block(input) {
        Ok(block) => render_marked(&read_handler_impl(&block)),
        Err(reason) => Err(reason),
    }
}

/// Marks an `impl` block of a handler trait for registration.
pub fn catga_handler(input: &str) -> (result: String)
    ensures
        result@ == handlers::expansion(handler_source(input@)),
{
    finish_expansion(expand_handler(input))
}

/// An item of a module, as far as discovery looks at it.
#[derive(Debug)]
pub enum ModuleItem {
    /// An `impl` block.
    Block(HandlerImpl),
    /// A function: its name, and the type of the message where it can handle one.
    Function {
        /// The name of the function.
        name: String,
        /// The type of the message.
        message: Option<String>,
    },
    /// Any other item.
    Other,
}

/// Mathematical model of a [`ModuleItem`].
pub enum ModuleItemView {
    Block(HandlerImplView),
    Function { name: Seq<char>, message: Option<Seq<char>> },
    Other,
}

impl View for ModuleItem {
    type V = ModuleItemView;

    open spec fn view(&self) -> ModuleItemView {
        match self {
            ModuleItem::Block(block) => ModuleItemView::Block(block@),
            ModuleItem::Function { name, message } => ModuleItemView::Function {
                name: name@,
                message: error::text_option(*message),
            },
            ModuleItem::Other => ModuleItemView::Other,
        }
    }
}

impl DeepView for ModuleItem {
    type V = ModuleItemView;

    open spec fn deep_view(&self) -> ModuleItemView {
        self@
    }
}

/// The pattern and the type of a parameter; a receiver has none, nor has what is no parameter.
pub open spec fn typed_parameter(parameters: Seq<Seq<char>>, place: int) -> Option<
    (Seq<char>, Seq<char>),
> {
    if 0 <= place < parameters.len() {
        match syntax::parameter_of(parameters[place]) {
            Ok(typed) => typed,
            Err(_) => None,
        }
    } else {
        None
    }
}

/// The type of the message that a function handles: that of its first parameter, or of the second
/// where the first is a typed `self`. Only an asynchronous function handles messages.
pub open spec fn handled_message(function: syntax::FunctionView) -> Option<Seq<char>> {
    if !function.is_async {
        None
    } else {
        match typed_parameter(function.parameters, 0) {
            None => None,
            Some((pattern, first)) => if pattern == "self"@ {
                match typed_parameter(function.parameters, 1) {
                    Some((_, second)) => Some(second),
                    None => None,
                }
            } else {
                Some(first)
            },
        }
    }
}

fn read_parameter(parameters: &Vec<String>, place: usize) -> (result: Option<(String, String)>)
    ensures
        match result {
            Some((pattern, kind)) => typed_parameter(parameters.deep_view(), place as int) == Some(
                (pattern@, kind@),
            ),
            None => typed_parameter(parameters.deep_view(), place as int) is None,
        },
{
    if place < parameters.len() {
        assert(parameters.deep_view()[place as int] == parameters@[place as int]@);
        match parse_parameter(parameters[place].as_str()) {
            Ok(typed) => typed,
            Err(_) => None,
        }
    } else {
        None
    }
}

/// Returns the type of the message that a function handles.
pub fn function_message(function: &Function) -> (result: Option<String>)
    ensures
        error::text_option(result) == handled_message(function@),
{
    if !function.is_async {
        return None;
    }
    match read_parameter(&function.parameters, 0) {
        Some((pattern, first)) => if same_text(pattern.as_str(), "self") {
            match read_parameter(&function.parameters, 1) {
                Some((_, second)) => Some(second),
                None => None,
            }
        } else {
            Some(first)
        },
        None => None,
    }
}

/// What discovery sees in the text of an item.
pub open spec fn item_of(source: Seq<char>) -> ModuleItemView {
    match syntax::impl_block_of(source) {
        Ok(block) => ModuleItemView::Block(handler_impl_of(block)),
        Err(_) => match syntax::function_of(source) {
            Ok(function) => ModuleItemView::Function {
                name: function.name,
                message: handled_message(function),
            },
            Err(_) => ModuleItemView::Other,
        },
    }
}

/// Reads an item of a module.
pub fn read_item(source: &str) -> (result: ModuleItem)
    ensures
        result@ == item_of(source@),
{
    match parse_impl_block(source) {
        Ok(block) => ModuleItem::Block(read_handler_impl(&block)),
        Err(_) => match parse_function(source) {
            Ok(function) => {
                let message: Option<String> = function_message(&function);
                ModuleItem::Function { name: function.name, message }
            },
            Err(_) => ModuleItem::Other,
        },
    }
}

/// The call that registers the handler that an item defines, where it defines one, or why it
/// cannot be registered.
pub open spec fn item_registration(item: ModuleItemView) -> Result<Option<Seq<char>>, Seq<char>> {
    match item {
        ModuleItemView::Block(block) => match (block.kind, block.message) {
            (None, _) => Ok(None),
            (Some(_), None) => Err(
                "`impl Handler<M>` requires a typed trait impl (`impl Handler<M>`)"@,
            ),
            (Some(kind), Some(message)) => Ok(
                Some(
                    match kind {
                        RegistrationKind::Request => text::concatenated(
                            seq![
                                "__catga_auto_registry.register_request::<"@,
                                message,
                                ", _>("@,
                                block.self_type,
                                " {})?; "@,
                            ],
                        ),
                        RegistrationKind::Command => text::concatenated(
                            seq![
                                "__catga_auto_registry.register_command::<"@,
                                message,
                                ", _>("@,
                                block.self_type,
                                " {})?; "@,
                            ],
                        ),
                        RegistrationKind::Event => text::concatenated(
                            seq![
                                "__catga_auto_registry.register_event::<"@,
                                message,
                                ", _>("@,
                                block.self_type,
                                " {}); "@,
                            ],
                        ),
                    },
                ),
            ),
        },
        ModuleItemView::Function { name, message } => match message {
            None => Ok(None),
            Some(message) => Ok(
                Some(
                    text::concatenated(
                        seq![
                            "__catga_auto_registry.register_request::<"@,
                            message,
                            ", _>("@,
                            name,
                            ")?; "@,
                        ],
                    ),
                ),
            ),
        },
        ModuleItemView::Other => Ok(None),
    }
}

/// The model of the registration of an item.
pub open spec fn item_result(result: Result<Option<String>, String>) -> Result<
    Option<Seq<char>>,
    Seq<char>,
> {
    match result {
        Ok(call) => Ok(error::text_option(call)),
        Err(reason) => Err(reason@),
    }
}

fn render_call(start: &str, message: &str, handler: &str, end: &str) -> (result: String)
    ensures
        result@ == text::concatenated(seq![start@, message@, ", _>("@, handler@, end@]),
{
    let parts: Vec<&str> = vec![start, message, ", _>(", handler, end];
    assert(text::views(parts@) =~= seq![start@, message@, ", _>("@, handler@, end@]);
    concat(&parts)
}

/// Writes the call that registers the handler that an item defines, where it defines one.
pub fn render_item(item: &ModuleItem) -> (result: Result<Option<String>, String>)
    ensures
        item_result(result) == item_registration(item@),
{
    match item {
        ModuleItem::Block(block) => {
            let kind: RegistrationKind = match block.kind {
                Some(kind) => kind,
                None => return Ok(None),
            };
            let message: &str = match &block.message {
                Some(message) => message.as_str(),
                None => return Err(
                    "`impl Handler<M>` requires a typed trait impl (`impl Handler<M>`)".to_owned(),
                ),
            };
            let handler: &str = block.self_type.as_str();
            Ok(
                Some(
                    match kind {
                        RegistrationKind::Request => render_call(
                            "__catga_auto_registry.register_request::<",
                            message,
                            handler,
                            " {})?; ",
                        ),
                        RegistrationKind::Command => render_call(
                            "__catga_auto_registry.register_command::<",
                            message,
                            handler,
                            " {})?; ",
                        ),
                        RegistrationKind::Event => render_call(
                            "__catga_auto_registry.register_event::<",
                            message,
                            handler,
                            " {}); ",
                        ),
                    },
                ),
            )
        },
        ModuleItem::Function { name, message } => match message {
            Some(message) => Ok(
                Some(
                    render_call(
                        "__catga_auto_registry.register_request::<",
                        message.as_str(),
                        name.as_str(),
                        ")?; ",
                    ),
                ),
            ),
            None => Ok(None),
        },
        ModuleItem::Other => Ok(None),
    }
}

/// The calls that register the handlers that items define, in their order, or why the first that
/// cannot be registered cannot.
pub open spec fn discovered(items: Seq<ModuleItemView>) -> Result<Seq<Seq<char>>, Seq<char>>
    decreases items.len(),
{
    if items.len() == 0 {
        Ok(Seq::empty())
    } else {
        match discovered(items.drop_last()) {
            Err(reason) => Err(reason),
            Ok(before) => match item_registration(items.last()) {
                Err(reason) => Err(reason),
                Ok(None) => Ok(before),
                Ok(Some(call)) => Ok(before.push(call)),
            },
        }
    }
}

proof fn lemma_discovery_failure_remains(items: Seq<ModuleItemView>, count: int)
    requires
        0 <= count <= items.len(),
        discovered(items.take(count)) is Err,
    ensures
        discovered(items) == discovered(items.take(count)),
    decreases items.len() - count,
{
    if count < items.len() {
        let next = items.take(count + 1);
        assert(next.drop_last() =~= items.take(count));
        lemma_discovery_failure_remains(items, count + 1);
    } else {
        assert(items.take(count) =~= items);
    }
}

/// Writes the calls that register the handlers that items define.
pub fn discover(items: &Vec<ModuleItem>) -> (result: Result<Vec<String>, String>)
    ensures
        syntax::list_result(result) == discovered(items.deep_view()),
{
    let ghost model = items.deep_view();
    let mut calls: Vec<String> = Vec::new();
    let mut index: usize = 0;
    assert(model.take(0) =~= Seq::empty());
    assert(calls.deep_view() =~= Seq::empty());
    while index < items.len()
        invariant
            index <= items@.len(),
            model == items.deep_view(),
            discovered(model.take(index as int)) == Ok::<Seq<Seq<char>>, Seq<char>>(
                calls.deep_view(),
            ),
        decreases items@.len() - index,
    {
        proof {
            let next = model.take(index + 1);
            assert(next.drop_last() =~= model.take(index as int));
            assert(next.last() == items@[index as int]@);
        }
        match render_item(&items[index]) {
            Ok(Some(call)) => {
                let ghost before = calls.deep_view();
                calls.push(call);
                assert(calls.deep_view() =~= before.push(call@));
            },
            Ok(None) => {},
            Err(reason) => {
                proof {
                    lemma_discovery_failure_remains(model, index + 1);
                }
                return Err(reason);
            },
        }
        index = index + 1;
    }
    assert(model.take(index as int) =~= model);
    Ok(calls)
}

/// The source text of a module with a function that registers its handlers, or why there is none.
pub open spec fn discovery_source(
    visibility: Seq<char>,
    name: Seq<char>,
    sources: Seq<Seq<char>>,
    items: Seq<ModuleItemView>,
) -> Result<Seq<char>, Seq<char>> {
    match discovered(items) {
        Err(reason) => Err(reason),
        Ok(calls) => if calls.len() == 0 {
            Err("#[catga_auto] module contains no handlers"@)
        } else {
            Ok(
                text::concatenated(
                    seq![
                        visibility,
                        " mod "@,
                        name,
                        " { use super::*; "@,
                        text::separated(sources, " "@),
                        " pub fn __catga_auto_register(mut __catga_auto_registry: \
                         ::catga_core::Registry) -> \
                         ::catga_core::CatgaResult<::catga_core::Registry> { "@,
                        text::separated(calls, ""@),
                        "Ok(__catga_auto_registry) } }"@,
                    ],
                ),
            )
        },
    }
}

/// Writes a module with a function that registers its handlers.
pub fn render_discovery(
    visibility: &str,
    name: &str,
    sources: &Vec<String>,
    items: &Vec<ModuleItem>,
) -> (result: Result<String, String>)
    ensures
        syntax::text_result(result) == discovery_source(
            visibility@,
            name@,
            sources.deep_view(),
            items.deep_view(),
        ),
{
    let calls: Vec<String> = match discover(items) {
        Ok(calls) => calls,
        Err(reason) => return Err(reason),
    };
    if calls.len() == 0 {
        return Err("#[catga_auto] module contains no handlers".to_owned());
    }
    let body: String = separate(sources, " ");
    let registration: String = separate(&calls, "");
    let parts: Vec<&str> = vec![
        visibility,
        " mod ",
        name,
        " { use super::*; ",
        body.as_str(),
        " pub fn __catga_auto_register(mut __catga_auto_registry: \
         ::catga_core::Registry) -> \
         ::catga_core::CatgaResult<::catga_core::Registry> { ",
        registration.as_str(),
        "Ok(__catga_auto_registry) } }",
    ];
    assert(text::views(parts@) =~= seq![
        visibility@,
        " mod "@,
        name@,
        " { use super::*; "@,
        body@,
        " pub fn __catga_auto_register(mut __catga_auto_registry: \
         ::catga_core::Registry) -> \
         ::catga_core::CatgaResult<::catga_core::Registry> { "@,
        registration@,
        "Ok(__catga_auto_registry) } }"@,
    ]);
    Ok(concat(&parts))
}

/// What discovery sees in the items of a module.
pub open spec fn items_of(sources: Seq<Seq<char>>) -> Seq<ModuleItemView> {
    Seq::new(sources.len(), |i: int| item_of(sources[i]))
}

/// The items of a module; one in another file has none here.
pub open spec fn module_sources(module: syntax::ModuleView) -> Seq<Seq<char>> {
    match module.items {
        Some(items) => items,
        None => Seq::empty(),
    }
}

/// The source text of the module in a text with a function that registers its handlers, or why
/// there is none.
pub open spec fn auto_source(input: Seq<char>) -> Result<Seq<char>, Seq<char>> {
    match syntax::module_of(input) {
        Err(reason) => Err(reason),
        Ok(module) => discovery_source(
            module.visibility,
            module.name,
            module_sources(module),
            items_of(module_sources(module)),
        ),
    }
}

fn read_items(sources: &Vec<String>) -> (result: Vec<ModuleItem>)
    ensures
        result.deep_view() == items_of(sources.deep_view()),
{
    let ghost model = sources.deep_view();
    let mut result: Vec<ModuleItem> = Vec::new();
    while result.len() < sources.len()
        invariant
            result@.len() <= sources@.len(),
            model == sources.deep_view(),
            forall|i: int| 0 <= i < result@.len() ==> (#[trigger] result@[i])@ == item_of(model[i]),
        decreases sources@.len() - result@.len(),
    {
        let place: usize = result.len();
        result.push(read_item(sources[place].as_str()));
    }
    assert(result.deep_view() =~= items_of(model));
    result
}

/// Writes the module in a text with a function that registers its handlers.
pub fn expand_auto(input: &str) -> (result: Result<String, String>)
    ensures
        syntax::text_result(result) == auto_source(input@),
{
    let module: Module = match parse_module(input) {
        Ok(module) => module,
        Err(reason) => return Err(reason),
    };
    let sources: Vec<String> = match module.items {
        Some(items) => items,
        None => Vec::new(),
    };
    assert(sources.deep_view() =~= module_sources(module@));
    let items: Vec<ModuleItem> = read_items(&sources);
    render_discovery(module.visibility.as_str(), module.name.as_str(), &sources, &items)
}

/// Adds to a module a function that registers the handlers that the module defines.
///
/// Handlers are `impl` blocks of the three handler traits and asynchronous functions that take a
/// message.
pub fn catga_auto(input: &str) -> (result: String)
    ensures
        result@ == handlers::expansion(auto_source(input@)),
{
    finish_expansion(expand_auto(input))
}

/// Discovery never generates a registration function that registers nothing.
pub proof fn lemma_discovery_finds_a_handler(
    visibility: Seq<char>,
    name: Seq<char>,
    sources: Seq<Seq<char>>,
    items: Seq<ModuleItemView>,
)
    requires
        discovery_source(visibility, name, sources, items) is Ok,
    ensures
        exists|i: int|
            0 <= i < items.len() && item_registration(#[trigger] items[i]) matches Ok(Some(_)),
{
    lemma_calls_have_items(items);
}

proof fn lemma_calls_have_items(items: Seq<ModuleItemView>)
    requires
        discovered(items) matches Ok(calls) && calls.len() > 0,
    ensures
        exists|i: int|
            0 <= i < items.len() && item_registration(#[trigger] items[i]) matches Ok(Some(_)),
    decreases items.len(),
{
    let init = items.drop_last();
    if item_registration(items.last()) matches Ok(Some(_)) {
        assert(items[items.len() - 1] == items.last());
    } else {
        lemma_calls_have_items(init);
        let i = choose|i: int|
            0 <= i < init.len() && item_registration(#[trigger] init[i]) matches Ok(Some(_));
        assert(items[i] == init[i]);
    }
}

} // verus!
