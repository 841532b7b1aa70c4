//! Rust source text: what the `proc_macro2` lexer and the `syn` parser make of it.
//!
//! Where a compiler expands a macro, `proc_macro2` would hand lexing and printing to that compiler.
//! Each function here calls `proc_macro2::fallback::force` first, so that `proc_macro2` lexes and
//! prints by itself everywhere, and what is read from a text depends on the text alone.

use vstd::prelude::*;

use quote::ToTokens;
use syn::{Data, DataStruct, Fields};

use crate::error;

verus! {

/// One token tree of a source text.
#[derive(Debug)]
pub struct Token {
    /// How the token is written; a group is written with its delimiters and all that it holds.
    pub text: String,
    /// Whether the token is punctuation that the next character of punctuation continues.
    pub joint: bool,
}

/// Mathematical model of a [`Token`].
pub struct TokenView {
    pub text: Seq<char>,
    pub joint: bool,
}

impl View for Token {
    type V = TokenView;

    open spec fn view(&self) -> TokenView {
        TokenView { text: self.text@, joint: self.joint }
    }
}

impl DeepView for Token {
    type V = TokenView;

    open spec fn deep_view(&self) -> TokenView {
        self@
    }
}

/// The model of a text that was read, or of the reason why it was not.
pub open spec fn text_result(result: Result<String, String>) -> Result<Seq<char>, Seq<char>> {
    match result {
        Ok(text) => Ok(text@),
        Err(reason) => Err(reason@),
    }
}

/// The model of several texts that were read.
pub open spec fn list_result(result: Result<Vec<String>, String>) -> Result<
    Seq<Seq<char>>,
    Seq<char>,
> {
    match result {
        Ok(texts) => Ok(texts.deep_view()),
        Err(reason) => Err(reason@),
    }
}

/// The token trees that the lexer of `proc_macro2` finds in a text, or why it finds none.
pub uninterp spec fn lexed(text: Seq<char>) -> Result<Seq<TokenView>, Seq<char>>;

/// Splits a text into token trees.
///
/// Calls `TokenStream::from_str` of `proc_macro2`. Each token tree is turned into its text and
/// whether it is punctuation joined to what follows; an error is turned into its message.
#[verifier::external_body]
pub(crate) fn lex(text: &str) -> (result: Result<Vec<Token>, String>)
    ensures
        match result {
            Ok(tokens) => lexed(text@) == Ok::<Seq<TokenView>, Seq<char>>(tokens.deep_view()),
            Err(reason) => lexed(text@) == Err::<Seq<TokenView>, Seq<char>>(reason@),
        },
{
    proc_macro2::fallback::force();
    let stream: proc_macro2::TokenStream = text.parse().map_err(
        |error: proc_macro2::LexError| error.to_string(),
    )?;
    Ok(stream.into_iter().map(|tree| Token {
        text: tree.to_string(),
        joint: match tree {
            proc_macro2::TokenTree::Punct(mark) => mark.spacing() == proc_macro2::Spacing::Joint,
            _ => false,
        },
    }).collect())
}

/// The identifier that `syn` reads from a text, or why there is none.
pub uninterp spec fn identifier_of(text: Seq<char>) -> Result<Seq<char>, Seq<char>>;

/// Reads an identifier that is no keyword.
///
/// Calls `syn::parse_str` for a `syn::Ident`. The identifier is turned into its text and an error
/// into its message.
#[verifier::external_body]
pub(crate) fn parse_identifier(text: &str) -> (result: Result<String, String>)
    ensures
        text_result(result) == identifier_of(text@),
{
    proc_macro2::fallback::force();
    match syn::parse_str::<syn::Ident>(text) {
        Ok(identifier) => Ok(identifier.to_string()),
        Err(error) => Err(error.to_string()),
    }
}

/// The expression that `syn` reads from a text, as it prints it, or why there is none.
pub uninterp spec fn expression_of(text: Seq<char>) -> Result<Seq<char>, Seq<char>>;

/// Reads an expression.
///
/// Calls `syn::parse_str` for a `syn::Expr`. The expression is turned into the text that it prints
/// as and an error into its message.
#[verifier::external_body]
pub(crate) fn parse_expression(text: &str) -> (result: Result<String, String>)
    ensures
        text_result(result) == expression_of(text@),
{
    proc_macro2::fallback::force();
    match syn::parse_str::<syn::Expr>(text) {
        Ok(expression) => Ok(expression.to_token_stream().to_string()),
        Err(error) => Err(error.to_string()),
    }
}

/// The expressions that `syn` reads from a list in square brackets, as it prints them, or why
/// there are none.
pub uninterp spec fn elements_of(text: Seq<char>) -> Result<Seq<Seq<char>>, Seq<char>>;

/// Reads a list of expressions in square brackets.
///
/// Calls `syn::parse_str` for a `syn::ExprArray`. Each element is turned into the text that it
/// prints as and an error into its message.
#[verifier::external_body]
pub(crate) fn parse_elements(text: &str) -> (result: Result<Vec<String>, String>)
    ensures
        list_result(result) == elements_of(text@),
{
    proc_macro2::fallback::force();
    match syn::parse_str::<syn::ExprArray>(text) {
        Ok(list) => Ok(
            list.elems.iter().map(|element| element.to_token_stream().to_string()).collect(),
        ),
        Err(error) => Err(error.to_string()),
    }
}

/// The visibility that `syn` reads from a text, as it prints it, or why there is none.
pub uninterp spec fn visibility_of(text: Seq<char>) -> Result<Seq<char>, Seq<char>>;

/// Reads a visibility; an empty text is the inherited one.
///
/// Calls `syn::parse_str` for a `syn::Visibility`. The visibility is turned into the text that it
/// prints as and an error into its message.
#[verifier::external_body]
pub(crate) fn parse_visibility(text: &str) -> (result: Result<String, String>)
    ensures
        text_result(result) == visibility_of(text@),
{
    proc_macro2::fallback::force();
    match syn::parse_str::<syn::Visibility>(text) {
        Ok(visibility) => Ok(visibility.to_token_stream().to_string()),
        Err(error) => Err(error.to_string()),
    }
}

/// The type that `syn` reads from a text, as it prints it, or why there is none.
pub uninterp spec fn type_of(text: Seq<char>) -> Result<Seq<char>, Seq<char>>;

/// Reads a type.
///
/// Calls `syn::parse_str` for a `syn::Type`. The type is turned into the text that it prints as
/// and an error into its message.
#[verifier::external_body]
pub(crate) fn parse_type(text: &str) -> (result: Result<String, String>)
    ensures
        text_result(result) == type_of(text@),
{
    proc_macro2::fallback::force();
    match syn::parse_str::<syn::Type>(text) {
        Ok(read) => Ok(read.to_token_stream().to_string()),
        Err(error) => Err(error.to_string()),
    }
}

/// One segment of a path.
#[derive(Debug)]
pub struct Segment {
    /// The name of the segment.
    pub name: String,
    /// How the generic arguments of the segment are written, brackets included.
    pub arguments: String,
}

/// Mathematical model of a [`Segment`].
pub struct SegmentView {
    pub name: Seq<char>,
    pub arguments: Seq<char>,
}

impl View for Segment {
    type V = SegmentView;

    open spec fn view(&self) -> SegmentView {
        SegmentView { name: self.name@, arguments: self.arguments@ }
    }
}

impl DeepView for Segment {
    type V = SegmentView;

    open spec fn deep_view(&self) -> SegmentView {
        self@
    }
}

/// A path.
#[derive(Debug)]
pub struct Path {
    /// How the path is written.
    pub text: String,
    /// The segments of the path.
    pub segments: Vec<Segment>,
}

/// Mathematical model of a [`Path`].
pub struct PathView {
    pub text: Seq<char>,
    pub segments: Seq<SegmentView>,
}

impl View for Path {
    type V = PathView;

    open spec fn view(&self) -> PathView {
        PathView { text: self.text@, segments: self.segments.deep_view() }
    }
}

/// The path that `syn` reads from a text, or why there is none.
pub uninterp spec fn path_of(text: Seq<char>) -> Result<PathView, Seq<char>>;

/// Reads a path.
///
/// Calls `syn::parse_str` for a `syn::Path`. The path is turned into the text that it prints as,
/// each segment into its name and the text that its arguments print as, and an error into its
/// message.
#[verifier::external_body]
pub(crate) fn parse_path(text: &str) -> (result: Result<Path, String>)
    ensures
        match result {
            Ok(path) => path_of(text@) == Ok::<PathView, Seq<char>>(path@),
            Err(reason) => path_of(text@) == Err::<PathView, Seq<char>>(reason@),
        },
{
    proc_macro2::fallback::force();
    match syn::parse_str::<syn::Path>(text) {
        Ok(path) => Ok(Path {
            text: path.to_token_stream().to_string(),
            segments: path.segments.iter().map(|segment| Segment {
                name: segment.ident.to_string(),
                arguments: segment.arguments.to_token_stream().to_string(),
            }).collect(),
        }),
        Err(error) => Err(error.to_string()),
    }
}

/// One generic argument.
#[derive(Debug)]
pub struct GenericArgument {
    /// How the argument is written.
    pub text: String,
    /// Whether the argument is a type.
    pub is_type: bool,
}

/// Mathematical model of a [`GenericArgument`].
pub struct GenericArgumentView {
    pub text: Seq<char>,
    pub is_type: bool,
}

impl View for GenericArgument {
    type V = GenericArgumentView;

    open spec fn view(&self) -> GenericArgumentView {
        GenericArgumentView { text: self.text@, is_type: self.is_type }
    }
}

impl DeepView for GenericArgument {
    type V = GenericArgumentView;

    open spec fn deep_view(&self) -> GenericArgumentView {
        self@
    }
}

/// The generic arguments that `syn` reads from a list in angle brackets, or why there are none.
pub uninterp spec fn generic_arguments_of(text: Seq<char>) -> Result<
    Seq<GenericArgumentView>,
    Seq<char>,
>;

/// Reads generic arguments in angle brackets.
///
/// Calls `syn::parse_str` for a `syn::AngleBracketedGenericArguments`. Each argument is turned
/// into the text that it prints as and whether it is a type, and an error into its message.
#[verifier::external_body]
pub(crate) fn parse_generic_arguments(text: &str) -> (result: Result<Vec<GenericArgument>, String>)
    ensures
        match result {
            Ok(arguments) => generic_arguments_of(text@) == Ok::<
                Seq<GenericArgumentView>,
                Seq<char>,
            >(arguments.deep_view()),
            Err(reason) => generic_arguments_of(text@) == Err::<
                Seq<GenericArgumentView>,
                Seq<char>,
            >(reason@),
        },
{
    proc_macro2::fallback::force();
    match syn::parse_str::<syn::AngleBracketedGenericArguments>(text) {
        Ok(list) => Ok(list.args.iter().map(|argument| GenericArgument {
            text: argument.to_token_stream().to_string(),
            is_type: matches!(argument, syn::GenericArgument::Type(_)),
        }).collect()),
        Err(error) => Err(error.to_string()),
    }
}

/// The head of an `impl` block.
#[derive(Debug)]
pub struct ImplBlock {
    /// How the whole block is written.
    pub text: String,
    /// How the path of the implemented trait is written, where the block implements one.
    pub trait_path: Option<String>,
    /// How the implementing type is written.
    pub self_type: String,
}

/// Mathematical model of an [`ImplBlock`].
pub struct ImplBlockView {
    pub text: Seq<char>,
    pub trait_path: Option<Seq<char>>,
    pub self_type: Seq<char>,
}

impl View for ImplBlock {
    type V = ImplBlockView;

    open spec fn view(&self) -> ImplBlockView {
        ImplBlockView {
            text: self.text@,
            trait_path: error::text_option(self.trait_path),
            self_type: self.self_type@,
        }
    }
}

/// The `impl` block that `syn` reads from a text, or why there is none.
pub uninterp spec fn impl_block_of(text: Seq<char>) -> Result<ImplBlockView, Seq<char>>;

/// Reads an `impl` block.
///
/// Calls `syn::parse_str` for a `syn::ItemImpl`. The block, the path of its trait and its type are
/// turned into the texts that they print as and an error into its message.
#[verifier::external_body]
pub(crate) fn parse_impl_block(text: &str) -> (result: Result<ImplBlock, String>)
    ensures
        match result {
            Ok(block) => impl_block_of(text@) == Ok::<ImplBlockView, Seq<char>>(block@),
            Err(reason) => impl_block_of(text@) == Err::<ImplBlockView, Seq<char>>(reason@),
        },
{
    proc_macro2::fallback::force();
    match syn::parse_str::<syn::ItemImpl>(text) {
        Ok(block) => Ok(ImplBlock {
            text: block.to_token_stream().to_string(),
            trait_path: block.trait_.map(|entry| entry.0.to_token_stream().to_string()),
            self_type: block.self_ty.to_token_stream().to_string(),
        }),
        Err(error) => Err(error.to_string()),
    }
}

/// The pattern and the type of the function parameter that `syn` reads from a text, as it prints
/// them, or why there is no parameter; a receiver has neither.
pub uninterp spec fn parameter_of(text: Seq<char>) -> Result<
    Option<(Seq<char>, Seq<char>)>,
    Seq<char>,
>;

/// The model of a parameter that was read.
pub open spec fn parameter_result(
    result: Result<Option<(String, String)>, String>,
) -> Result<Option<(Seq<char>, Seq<char>)>, Seq<char>> {
    match result {
        Ok(Some((pattern, kind))) => Ok(Some((pattern@, kind@))),
        Ok(None) => Ok(None),
        Err(reason) => Err(reason@),
    }
}

/// Reads a parameter of a function.
///
/// Calls `syn::parse_str` for a `syn::FnArg`. The pattern and the type of a typed parameter are
/// turned into the texts that they print as and an error into its message.
#[verifier::external_body]
pub(crate) fn parse_parameter(text: &str) -> (result: Result<Option<(String, String)>, String>)
    ensures
        parameter_result(result) == parameter_of(text@),
{
    proc_macro2::fallback::force();
    match syn::parse_str::<syn::FnArg>(text) {
        Ok(syn::FnArg::Typed(typed)) => Ok(
            Some((typed.pat.to_token_stream().to_string(), typed.ty.to_token_stream().to_string())),
        ),
        Ok(syn::FnArg::Receiver(_)) => Ok(None),
        Err(error) => Err(error.to_string()),
    }
}

/// The parts of a function.
#[derive(Debug)]
pub struct Function {
    /// How the visibility is written.
    pub visibility: String,
    /// Whether the function is asynchronous.
    pub is_async: bool,
    /// The name of the function.
    pub name: String,
    /// How the parameters are written, in their order.
    pub parameters: Vec<String>,
    /// How the return type is written, arrow included.
    pub output: String,
    /// How the body is written, braces included.
    pub body: String,
}

/// Mathematical model of a [`Function`].
pub struct FunctionView {
    pub visibility: Seq<char>,
    pub is_async: bool,
    pub name: Seq<char>,
    pub parameters: Seq<Seq<char>>,
    pub output: Seq<char>,
    pub body: Seq<char>,
}

impl View for Function {
    type V = FunctionView;

    open spec fn view(&self) -> FunctionView {
        FunctionView {
            visibility: self.visibility@,
            is_async: self.is_async,
            name: self.name@,
            parameters: self.parameters.deep_view(),
            output: self.output@,
            body: self.body@,
        }
    }
}

/// The function that `syn` reads from a text, or why there is none.
pub uninterp spec fn function_of(text: Seq<char>) -> Result<FunctionView, Seq<char>>;

/// Reads a function.
///
/// Calls `syn::parse_str` for a `syn::ItemFn`. Its parts are turned into the texts that they print
/// as and an error into its message.
#[verifier::external_body]
pub(crate) fn parse_function(text: &str) -> (result: Result<Function, String>)
    ensures
        match result {
            Ok(function) => function_of(text@) == Ok::<FunctionView, Seq<char>>(function@),
            Err(reason) => function_of(text@) == Err::<FunctionView, Seq<char>>(reason@),
        },
{
    proc_macro2::fallback::force();
    match syn::parse_str::<syn::ItemFn>(text) {
        Ok(item) => Ok(Function {
            visibility: item.vis.to_token_stream().to_string(),
            is_async: item.sig.asyncness.is_some(),
            name: item.sig.ident.to_string(),
            parameters: item.sig.inputs.iter().map(|input| input.to_token_stream().to_string())
                .collect(),
            output: item.sig.output.to_token_stream().to_string(),
            body: item.block.to_token_stream().to_string(),
        }),
        Err(error) => Err(error.to_string()),
    }
}

/// The parts of a module.
#[derive(Debug)]
pub struct Module {
    /// How the visibility is written.
    pub visibility: String,
    /// The name of the module.
    pub name: String,
    /// How the items of the module are written; a module in another file has none here.
    pub items: Option<Vec<String>>,
}

/// Mathematical model of a [`Module`].
pub struct ModuleView {
    pub visibility: Seq<char>,
    pub name: Seq<char>,
    pub items: Option<Seq<Seq<char>>>,
}

impl View for Module {
    type V = ModuleView;

    open spec fn view(&self) -> ModuleView {
        ModuleView {
            visibility: self.visibility@,
            name: self.name@,
            items: match self.items {
                Some(items) => Some(items.deep_view()),
                None => None,
            },
        }
    }
}

/// The module that `syn` reads from a text, or why there is none.
pub uninterp spec fn module_of(text: Seq<char>) -> Result<ModuleView, Seq<char>>;

/// Reads a module.
///
/// Calls `syn::parse_str` for a `syn::ItemMod`. Its parts are turned into the texts that they
/// print as and an error into its message.
#[verifier::external_body]
pub(crate) fn parse_module(text: &str) -> (result: Result<Module, String>)
    ensures
        match result {
            Ok(module) => module_of(text@) == Ok::<ModuleView, Seq<char>>(module@),
            Err(reason) => module_of(text@) == Err::<ModuleView, Seq<char>>(reason@),
        },
{
    proc_macro2::fallback::force();
    match syn::parse_str::<syn::ItemMod>(text) {
        Ok(module) => Ok(Module {
            visibility: module.vis.to_token_stream().to_string(),
            name: module.ident.to_string(),
            items: module.content.map(
                |content| content.1.iter().map(|item| item.to_token_stream().to_string()).collect(),
            ),
        }),
        Err(error) => Err(error.to_string()),
    }
}

/// The parts of a type definition that its trait implementations repeat.
#[derive(Debug)]
pub struct Definition {
    /// The name of the type.
    pub name: String,
    /// How the generic parameters are written, brackets included.
    pub generics: String,
    /// The names of the type parameters.
    pub type_parameters: Vec<String>,
    /// How the predicates of the `where` clause are written.
    pub predicates: Vec<String>,
}

/// Mathematical model of a [`Definition`].
pub struct DefinitionView {
    pub name: Seq<char>,
    pub generics: Seq<char>,
    pub type_parameters: Seq<Seq<char>>,
    pub predicates: Seq<Seq<char>>,
}

impl View for Definition {
    type V = DefinitionView;

    open spec fn view(&self) -> DefinitionView {
        DefinitionView {
            name: self.name@,
            generics: self.generics@,
            type_parameters: self.type_parameters.deep_view(),
            predicates: self.predicates.deep_view(),
        }
    }
}

/// The type definition that `syn` reads from a text, or why there is none.
pub uninterp spec fn definition_of(text: Seq<char>) -> Result<DefinitionView, Seq<char>>;

/// Reads a type definition.
///
/// Calls `syn::parse_str` for a `syn::DeriveInput`. The parts are turned into the texts that they
/// print as and an error into its message.
#[verifier::external_body]
pub(crate) fn parse_definition(text: &str) -> (result: Result<Definition, String>)
    ensures
        match result {
            Ok(definition) => definition_of(text@) == Ok::<DefinitionView, Seq<char>>(definition@),
            Err(reason) => definition_of(text@) == Err::<DefinitionView, Seq<char>>(reason@),
        },
{
    proc_macro2::fallback::force();
    let input = syn::parse_str::<syn::DeriveInput>(text).map_err(|error| error.to_string())?;
    Ok(Definition {
        name: input.ident.to_string(),
        generics: input.generics.to_token_stream().to_string(),
        type_parameters: input.generics.type_params().map(|entry| entry.ident.to_string())
            .collect(),
        predicates: input.generics.where_clause.iter().flat_map(|clause| clause.predicates.iter())
            .map(|predicate| predicate.to_token_stream().to_string()).collect(),
    })
}

/// The two places of generic parameters in an implementation.
#[derive(Debug)]
pub struct SplitGenerics {
    /// How the generic parameters are written behind `impl`.
    pub impl_generics: String,
    /// How the generic arguments are written behind the name of the type.
    pub type_generics: String,
}

/// Mathematical model of [`SplitGenerics`].
pub struct SplitGenericsView {
    pub impl_generics: Seq<char>,
    pub type_generics: Seq<char>,
}

impl View for SplitGenerics {
    type V = SplitGenericsView;

    open spec fn view(&self) -> SplitGenericsView {
        SplitGenericsView {
            impl_generics: self.impl_generics@,
            type_generics: self.type_generics@,
        }
    }
}

/// How `syn` splits the generic parameters in a text for an implementation, or why it finds none.
pub uninterp spec fn split_generics_of(text: Seq<char>) -> Result<SplitGenericsView, Seq<char>>;

/// Splits generic parameters for an implementation.
///
/// Calls `syn::Generics::split_for_impl` on the parameters that the text stands for. Both places
/// are turned into the texts that they print as; the error of a text that stands for no parameters
/// is turned into its message.
#[verifier::external_body]
pub(crate) fn split_generics(text: &str) -> (result: Result<SplitGenerics, String>)
    ensures
        match result {
            Ok(split) => split_generics_of(text@) == Ok::<SplitGenericsView, Seq<char>>(split@),
            Err(reason) => split_generics_of(text@) == Err::<SplitGenericsView, Seq<char>>(reason@),
        },
{
    proc_macro2::fallback::force();
    let generics = syn::parse_str::<syn::Generics>(text).map_err(|error| error.to_string())?;
    let (impl_generics, type_generics, _) = generics.split_for_impl();
    Ok(SplitGenerics {
        impl_generics: impl_generics.to_token_stream().to_string(),
        type_generics: type_generics.to_token_stream().to_string(),
    })
}

/// A named field of a type definition.
#[derive(Debug)]
pub struct MessageField {
    /// The name of the field.
    pub name: String,
    /// Whether the field is public.
    pub is_public: bool,
    /// How the attributes of the field are written, without `#` and brackets.
    pub attributes: Vec<String>,
}

/// Mathematical model of a [`MessageField`].
pub struct MessageFieldView {
    pub name: Seq<char>,
    pub is_public: bool,
    pub attributes: Seq<Seq<char>>,
}

impl View for MessageField {
    type V = MessageFieldView;

    open spec fn view(&self) -> MessageFieldView {
        MessageFieldView {
            name: self.name@,
            is_public: self.is_public,
            attributes: self.attributes.deep_view(),
        }
    }
}

impl DeepView for MessageField {
    type V = MessageFieldView;

    open spec fn deep_view(&self) -> MessageFieldView {
        self@
    }
}

/// The attributes of a type definition and of its named fields.
#[derive(Debug)]
pub struct MessageItem {
    /// How the attributes of the type are written, without `#` and brackets.
    pub attributes: Vec<String>,
    /// The named fields of a struct; another type has none.
    pub fields: Vec<MessageField>,
}

/// Mathematical model of a [`MessageItem`].
pub struct MessageItemView {
    pub attributes: Seq<Seq<char>>,
    pub fields: Seq<MessageFieldView>,
}

impl View for MessageItem {
    type V = MessageItemView;

    open spec fn view(&self) -> MessageItemView {
        MessageItemView {
            attributes: self.attributes.deep_view(),
            fields: self.fields.deep_view(),
        }
    }
}

/// The attributes of the type definition that `syn` reads from a text and of its named fields, or
/// why there is none.
pub uninterp spec fn message_item_of(text: Seq<char>) -> Result<MessageItemView, Seq<char>>;

/// Reads the attributes of a type definition and of its named fields.
///
/// Calls `syn::parse_str` for a `syn::DeriveInput`. The attributes and the names of the fields are
/// turned into the texts that they print as, a visibility into whether it is `pub` and an error
/// into its message.
#[verifier::external_body]
pub(crate) fn parse_message_item(text: &str) -> (result: Result<MessageItem, String>)
    ensures
        match result {
            Ok(item) => message_item_of(text@) == Ok::<MessageItemView, Seq<char>>(item@),
            Err(reason) => message_item_of(text@) == Err::<MessageItemView, Seq<char>>(reason@),
        },
{
    proc_macro2::fallback::force();
    let input = syn::parse_str::<syn::DeriveInput>(text).map_err(|error| error.to_string())?;
    let written = |entry: &syn::Attribute| entry.meta.to_token_stream().to_string();
    let fields = match &input.data {
        Data::Struct(DataStruct { fields: Fields::Named(list), .. }) =>
            list.named.iter().map(|field| MessageField {
                name: field.ident.to_token_stream().to_string(),
                is_public: matches!(field.vis, syn::Visibility::Public(_)),
                attributes: field.attrs.iter().map(written).collect(),
            }).collect(),
        _ => Vec::new(),
    };
    Ok(MessageItem { attributes: input.attrs.iter().map(written).collect(), fields })
}

/// The text that the string literal stands for which `syn` reads from a text, or why there is
/// none.
pub uninterp spec fn string_value_of(text: Seq<char>) -> Result<Seq<char>, Seq<char>>;

/// Reads a string literal.
///
/// Calls `syn::LitStr::value` on the literal that the text is. The error of a text that is no
/// string literal is turned into its message.
#[verifier::external_body]
pub(crate) fn parse_string(text: &str) -> (result: Result<String, String>)
    ensures
        text_result(result) == string_value_of(text@),
{
    proc_macro2::fallback::force();
    match syn::parse_str::<syn::LitStr>(text) {
        Ok(literal) => Ok(literal.value()),
        Err(error) => Err(error.to_string()),
    }
}

/// The number that the integer literal stands for which `syn` reads from a text, or why there is
/// none that 64 bits hold.
pub uninterp spec fn integer_value_of(text: Seq<char>) -> Result<u64, Seq<char>>;

/// The model of a number that was read.
pub open spec fn number_result(result: Result<u64, String>) -> Result<u64, Seq<char>> {
    match result {
        Ok(value) => Ok(value),
        Err(reason) => Err(reason@),
    }
}

/// Reads an integer literal.
///
/// Calls `syn::LitInt::base10_parse` for a `u64` on the literal that the text is. The error of a
/// text that is no integer literal, or of a number that does not fit, is turned into its message.
#[verifier::external_body]
pub(crate) fn parse_integer(text: &str) -> (result: Result<u64, String>)
    ensures
        number_result(result) == integer_value_of(text@),
{
    proc_macro2::fallback::force();
    match syn::parse_str::<syn::LitInt>(text) {
        Ok(literal) => literal.base10_parse::<u64>().map_err(|error| error.to_string()),
        Err(error) => Err(error.to_string()),
    }
}

/// The source text by which `syn` makes the compiler report a message.
pub uninterp spec fn error_source_of(message: Seq<char>) -> Seq<char>;

/// Writes the source text that makes the compiler report a message.
///
/// Calls `syn::Error::new` and `syn::Error::into_compile_error`, and prints the tokens that come
/// back.
#[verifier::external_body]
pub(crate) fn error_source(message: &str) -> (result: String)
    ensures
        result@ == error_source_of(message@),
{
    proc_macro2::fallback::force();
    syn::Error::new(proc_macro2::Span::call_site(), message).into_compile_error().to_string()
}

} // verus!
