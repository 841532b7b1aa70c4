//! Messages as their source text declares them, and the implementations that make them messages.

use vstd::prelude::*;

use crate::derives;
use crate::derives::{read_target, render_head, render_predicates, ImplTarget};
use crate::handlers;
use crate::handlers::finish_expansion;
use crate::message_options;
use crate::message_options::{
    trace_tags, MessageAttribute, MessageOptions, MessagePriority, TraceField, TraceTag,
};
use crate::message_syntax;
use crate::message_syntax::{
    mark_field, parse_entries, read_message_attribute, read_own_arguments, OptionEntry,
};
use crate::syntax;
use crate::syntax::{lex, parse_message_item, MessageField, MessageItem};
use crate::text;
use crate::text::concat;

verus! {

/// What the text of a `catga` attribute holds in its brackets; another attribute holds nothing for
/// a message.
pub open spec fn own_arguments_of(attribute: Seq<char>) -> Result<Option<Seq<char>>, Seq<char>> {
    match syntax::lexed(attribute) {
        Err(reason) => Err(reason),
        Ok(tokens) => message_syntax::own_arguments(tokens),
    }
}

fn parse_own_arguments(attribute: &str) -> (result: Result<Option<String>, String>)
    ensures
        message_syntax::arguments_result(result) == own_arguments_of(attribute@),
{
    match lex(attribute) {
        Ok(tokens) => read_own_arguments(&tokens),
        Err(reason) => Err(reason),
    }
}

/// The options of a message type in the text of one attribute.
pub open spec fn attributes_of(attribute: Seq<char>) -> Result<
    Seq<message_options::MessageAttributeView>,
    Seq<char>,
> {
    match own_arguments_of(attribute) {
        Err(reason) => Err(reason),
        Ok(None) => Ok(Seq::empty()),
        Ok(Some(list)) => match syntax::lexed(list) {
            Err(reason) => Err(reason),
            Ok(tokens) => message_syntax::attributes_in(tokens),
        },
    }
}

fn parse_attributes(attribute: &str) -> (result: Result<Vec<MessageAttribute>, String>)
    ensures
        message_syntax::attributes_result(result) == attributes_of(attribute@),
{
    match parse_own_arguments(attribute) {
        Err(reason) => Err(reason),
        Ok(None) => {
            let none: Vec<MessageAttribute> = Vec::new();
            assert(none.deep_view() =~= Seq::empty());
            Ok(none)
        },
        Ok(Some(list)) => match lex(list.as_str()) {
            Ok(tokens) => read_message_attribute(&tokens),
            Err(reason) => Err(reason),
        },
    }
}

/// The options of a message type in its attributes from a place on.
pub open spec fn all_attributes_from(attributes: Seq<Seq<char>>, start: int) -> Result<
    Seq<message_options::MessageAttributeView>,
    Seq<char>,
>
    decreases attributes.len() - start,
{
    if start < 0 || start >= attributes.len() {
        Ok(Seq::empty())
    } else {
        match attributes_of(attributes[start]) {
            Err(reason) => Err(reason),
            Ok(read) => message_syntax::followed_by(
                read,
                all_attributes_from(attributes, start + 1),
            ),
        }
    }
}

fn parse_all_attributes(attributes: &Vec<String>) -> (result: Result<Vec<MessageAttribute>, String>)
    ensures
        message_syntax::attributes_result(result) == all_attributes_from(attributes.deep_view(), 0),
{
    let ghost model = attributes.deep_view();
    let mut all: Vec<MessageAttribute> = Vec::new();
    let mut index: usize = 0;
    proof {
        assert(all.deep_view() =~= Seq::empty());
        message_syntax::lemma_followed_twice(
            Seq::empty(),
            Seq::empty(),
            all_attributes_from(model, 0),
        );
    }
    while index < attributes.len()
        invariant
            index <= attributes@.len(),
            model == attributes.deep_view(),
            all_attributes_from(model, 0) == message_syntax::followed_by(
                all.deep_view(),
                all_attributes_from(model, index as int),
            ),
        decreases attributes@.len() - index,
    {
        assert(model[index as int] == attributes@[index as int]@);
        let mut read: Vec<MessageAttribute> = match parse_attributes(attributes[index].as_str()) {
            Ok(read) => read,
            Err(reason) => return Err(reason),
        };
        let ghost before = all.deep_view();
        let ghost more = read.deep_view();
        all.append(&mut read);
        proof {
            assert(all.deep_view() =~= before + more);
            message_syntax::lemma_followed_twice(
                before,
                more,
                all_attributes_from(model, index + 1),
            );
        }
        index = index + 1;
    }
    assert(all.deep_view() + Seq::empty() =~= all.deep_view());
    Ok(all)
}

/// The options in the text of one attribute of a field.
pub open spec fn field_entries_of(attribute: Seq<char>) -> Result<
    Seq<message_syntax::OptionEntryView>,
    Seq<char>,
> {
    match own_arguments_of(attribute) {
        Err(reason) => Err(reason),
        Ok(None) => Ok(Seq::empty()),
        Ok(Some(list)) => message_syntax::entries_in(list),
    }
}

fn parse_field_entries(attribute: &str) -> (result: Result<Vec<OptionEntry>, String>)
    ensures
        message_syntax::entries_result(result) == field_entries_of(attribute@),
{
    match parse_own_arguments(attribute) {
        Err(reason) => Err(reason),
        Ok(None) => {
            let none: Vec<OptionEntry> = Vec::new();
            assert(none.deep_view() =~= Seq::empty());
            Ok(none)
        },
        Ok(Some(list)) => parse_entries(list.as_str()),
    }
}

/// The options in the attributes of a field from a place on.
pub open spec fn all_field_entries_from(attributes: Seq<Seq<char>>, start: int) -> Result<
    Seq<message_syntax::OptionEntryView>,
    Seq<char>,
>
    decreases attributes.len() - start,
{
    if start < 0 || start >= attributes.len() {
        Ok(Seq::empty())
    } else {
        match field_entries_of(attributes[start]) {
            Err(reason) => Err(reason),
            Ok(read) => message_syntax::followed_by(
                read,
                all_field_entries_from(attributes, start + 1),
            ),
        }
    }
}

fn parse_all_field_entries(attributes: &Vec<String>) -> (result: Result<Vec<OptionEntry>, String>)
    ensures
        message_syntax::entries_result(result) == all_field_entries_from(attributes.deep_view(), 0),
{
    let ghost model = attributes.deep_view();
    let mut all: Vec<OptionEntry> = Vec::new();
    let mut index: usize = 0;
    proof {
        assert(all.deep_view() =~= Seq::empty());
        message_syntax::lemma_followed_twice(
            Seq::empty(),
            Seq::empty(),
            all_field_entries_from(model, 0),
        );
    }
    while index < attributes.len()
        invariant
            index <= attributes@.len(),
            model == attributes.deep_view(),
            all_field_entries_from(model, 0) == message_syntax::followed_by(
                all.deep_view(),
                all_field_entries_from(model, index as int),
            ),
        decreases attributes@.len() - index,
    {
        assert(model[index as int] == attributes@[index as int]@);
        let mut read: Vec<OptionEntry> = match parse_field_entries(attributes[index].as_str()) {
            Ok(read) => read,
            Err(reason) => return Err(reason),
        };
        let ghost before = all.deep_view();
        let ghost more = read.deep_view();
        all.append(&mut read);
        proof {
            assert(all.deep_view() =~= before + more);
            message_syntax::lemma_followed_twice(
                before,
                more,
                all_field_entries_from(model, index + 1),
            );
        }
        index = index + 1;
    }
    assert(all.deep_view() + Seq::empty() =~= all.deep_view());
    Ok(all)
}

/// A field as its attributes mark it.
pub open spec fn trace_field_of(field: syntax::MessageFieldView) -> Result<
    message_options::TraceFieldView,
    Seq<char>,
> {
    match all_field_entries_from(field.attributes, 0) {
        Err(reason) => Err(reason),
        Ok(entries) => message_syntax::marked_field(field.name, field.is_public, entries),
    }
}

fn parse_trace_field(field: &MessageField) -> (result: Result<TraceField, String>)
    ensures
        message_syntax::field_result(result) == trace_field_of(field@),
{
    match parse_all_field_entries(&field.attributes) {
        Ok(entries) => mark_field(field.name.as_str(), field.is_public, &entries),
        Err(reason) => Err(reason),
    }
}

/// The fields from a place on, as their attributes mark them.
pub open spec fn trace_fields_from(fields: Seq<syntax::MessageFieldView>, start: int) -> Result<
    Seq<message_options::TraceFieldView>,
    Seq<char>,
>
    decreases fields.len() - start,
{
    if start < 0 || start >= fields.len() {
        Ok(Seq::empty())
    } else {
        match trace_field_of(fields[start]) {
            Err(reason) => Err(reason),
            Ok(field) => message_syntax::followed_by(
                seq![field],
                trace_fields_from(fields, start + 1),
            ),
        }
    }
}

/// The model of fields that were read.
pub open spec fn fields_result(result: Result<Vec<TraceField>, String>) -> Result<
    Seq<message_options::TraceFieldView>,
    Seq<char>,
> {
    match result {
        Ok(fields) => Ok(fields.deep_view()),
        Err(reason) => Err(reason@),
    }
}

fn parse_trace_fields(fields: &Vec<MessageField>) -> (result: Result<Vec<TraceField>, String>)
    ensures
        fields_result(result) == trace_fields_from(fields.deep_view(), 0),
{
    let ghost model = fields.deep_view();
    let mut all: Vec<TraceField> = Vec::new();
    let mut index: usize = 0;
    proof {
        assert(all.deep_view() =~= Seq::empty());
        message_syntax::lemma_followed_twice(
            Seq::empty(),
            Seq::empty(),
            trace_fields_from(model, 0),
        );
    }
    while index < fields.len()
        invariant
            index <= fields@.len(),
            model == fields.deep_view(),
            trace_fields_from(model, 0) == message_syntax::followed_by(
                all.deep_view(),
                trace_fields_from(model, index as int),
            ),
        decreases fields@.len() - index,
    {
        assert(model[index as int] == fields@[index as int]@);
        let field: TraceField = match parse_trace_field(&fields[index]) {
            Ok(field) => field,
            Err(reason) => return Err(reason),
        };
        let ghost before = all.deep_view();
        all.push(field);
        proof {
            assert(all.deep_view() =~= before + seq![field@]);
            message_syntax::lemma_followed_twice(
                before,
                seq![field@],
                trace_fields_from(model, index + 1),
            );
        }
        index = index + 1;
    }
    assert(all.deep_view() + Seq::empty() =~= all.deep_view());
    Ok(all)
}

/// What a message type declares.
#[derive(Debug)]
pub struct MessageDeclaration {
    /// The options of the message.
    pub options: MessageOptions,
    /// The fields that are traced, and the tags under which they are.
    pub tags: Vec<TraceTag>,
}

/// Mathematical model of a [`MessageDeclaration`].
pub struct DeclarationView {
    pub options: message_options::MessageOptionsView,
    pub tags: Seq<message_options::TraceTagView>,
}

impl View for MessageDeclaration {
    type V = DeclarationView;

    open spec fn view(&self) -> DeclarationView {
        DeclarationView { options: self.options@, tags: self.tags.deep_view() }
    }
}

/// The names of fields.
pub open spec fn field_names(fields: Seq<message_options::TraceFieldView>) -> Seq<Seq<char>> {
    fields.map_values(|field: message_options::TraceFieldView| field.name)
}

/// What options and fields declare, or what is wrong with them.
pub open spec fn declared(
    attributes: Seq<message_options::MessageAttributeView>,
    fields: Seq<message_options::TraceFieldView>,
) -> Result<DeclarationView, Seq<char>> {
    match message_options::message_options(attributes, field_names(fields)) {
        Err(failure) => Err(message_options::failure_text(failure)),
        Ok(options) => match message_options::trace_tags_of(fields, options.trace_tags) {
            Err(failure) => Err(message_options::failure_text(failure)),
            Ok(tags) => Ok(DeclarationView { options, tags }),
        },
    }
}

/// The model of a declaration that was read.
pub open spec fn declaration_result(result: Result<MessageDeclaration, String>) -> Result<
    DeclarationView,
    Seq<char>,
> {
    match result {
        Ok(declaration) => Ok(declaration@),
        Err(reason) => Err(reason@),
    }
}

/// Returns what options and fields declare.
pub fn declare_message(attributes: &Vec<MessageAttribute>, fields: &Vec<TraceField>) -> (result:
    Result<MessageDeclaration, String>)
    ensures
        declaration_result(result) == declared(attributes.deep_view(), fields.deep_view()),
{
    let mut names: Vec<String> = Vec::new();
    while names.len() < fields.len()
        invariant
            names@.len() <= fields@.len(),
            forall|i: int| 0 <= i < names@.len() ==> (#[trigger] names@[i])@ == fields@[i]@.name,
        decreases fields@.len() - names@.len(),
    {
        let place: usize = names.len();
        names.push(fields[place].name.clone());
    }
    assert(names.deep_view() =~= field_names(fields.deep_view()));
    let options: MessageOptions = match MessageOptions::read(attributes, &names) {
        Ok(options) => options,
        Err(failure) => return Err(failure.message().to_owned()),
    };
    match trace_tags(fields, options.trace_tags()) {
        Ok(tags) => Ok(MessageDeclaration { options, tags }),
        Err(failure) => Err(failure.message().to_owned()),
    }
}

/// What the attributes of a type and of its fields declare, or what is wrong with them.
pub open spec fn item_declaration(item: syntax::MessageItemView) -> Result<
    DeclarationView,
    Seq<char>,
> {
    match all_attributes_from(item.attributes, 0) {
        Err(reason) => Err(reason),
        Ok(attributes) => match trace_fields_from(item.fields, 0) {
            Err(reason) => Err(reason),
            Ok(fields) => declared(attributes, fields),
        },
    }
}

/// Returns what the attributes of a type and of its fields declare.
pub fn declare_item(item: &MessageItem) -> (result: Result<MessageDeclaration, String>)
    ensures
        declaration_result(result) == item_declaration(item@),
{
    let attributes: Vec<MessageAttribute> = match parse_all_attributes(&item.attributes) {
        Ok(attributes) => attributes,
        Err(reason) => return Err(reason),
    };
    match parse_trace_fields(&item.fields) {
        Ok(fields) => declare_message(&attributes, &fields),
        Err(reason) => Err(reason),
    }
}

/// What the type definition in a text declares as a message, or what is wrong with it.
pub open spec fn message_declaration(input: Seq<char>) -> Result<DeclarationView, Seq<char>> {
    match syntax::message_item_of(input) {
        Err(reason) => Err(reason),
        Ok(item) => item_declaration(item),
    }
}

/// Reads what a type definition declares as a message.
pub fn read_message(input: &str) -> (result: Result<MessageDeclaration, String>)
    ensures
        declaration_result(result) == message_declaration(input@),
{
    match parse_message_item(input) {
        Ok(item) => declare_item(&item),
        Err(reason) => Err(reason),
    }
}

/// The name of a priority.
pub open spec fn priority_name(priority: MessagePriority) -> Seq<char> {
    match priority {
        MessagePriority::Low => "Low"@,
        MessagePriority::Normal => "Normal"@,
        MessagePriority::High => "High"@,
        MessagePriority::Critical => "Critical"@,
    }
}

/// The member by which a message has a priority; without one the message keeps the default.
pub open spec fn priority_member(priority: Option<MessagePriority>) -> Seq<char> {
    match priority {
        None => Seq::empty(),
        Some(priority) => text::concatenated(
            seq![
                "fn priority(&self) -> ::catga_core::MessagePriority { "@,
                "::catga_core::MessagePriority::"@,
                priority_name(priority),
                " } "@,
            ],
        ),
    }
}

fn render_priority(priority: Option<MessagePriority>) -> (result: String)
    ensures
        result@ == priority_member(priority),
{
    let name: &str = match priority {
        None => return String::new(),
        Some(MessagePriority::Low) => "Low",
        Some(MessagePriority::Normal) => "Normal",
        Some(MessagePriority::High) => "High",
        Some(MessagePriority::Critical) => "Critical",
    };
    let parts: Vec<&str> = vec![
        "fn priority(&self) -> ::catga_core::MessagePriority { ",
        "::catga_core::MessagePriority::",
        name,
        " } ",
    ];
    assert(text::views(parts@) =~= seq![
        "fn priority(&self) -> ::catga_core::MessagePriority { "@,
        "::catga_core::MessagePriority::"@,
        name@,
        " } "@,
    ]);
    concat(&parts)
}

/// The implementation that makes a type a message.
pub open spec fn message_impl(
    target: derives::TargetView,
    declaration: DeclarationView,
) -> Seq<char> {
    text::concatenated(
        seq![
            derives::impl_head(
                target,
                "Message"@,
                derives::bounded_predicates(target, ": Send + Sync + 'static"@),
            ),
            "{ "@,
            priority_member(declaration.options.priority),
            "}"@,
        ],
    )
}

/// Writes the implementation that makes a type a message.
///
/// Each type parameter must be shareable between threads.
pub fn render_message(target: &ImplTarget, declaration: &MessageDeclaration) -> (result: String)
    ensures
        result@ == message_impl(target@, declaration@),
{
    let predicates: Vec<String> = render_predicates(target, ": Send + Sync + 'static");
    let head: String = render_head(target, "Message", &predicates);
    let member: String = render_priority(declaration.options.priority());
    let parts: Vec<&str> = vec![head.as_str(), "{ ", member.as_str(), "}"];
    assert(text::views(parts@) =~= seq![head@, "{ "@, member@, "}"@]);
    concat(&parts)
}

/// The implementation that makes the type in a text a message, or why there is none.
pub open spec fn message_source(input: Seq<char>) -> Result<Seq<char>, Seq<char>> {
    match (message_declaration(input), derives::target_of(input)) {
        (Err(reason), _) => Err(reason),
        (_, Err(reason)) => Err(reason),
        (Ok(declaration), Ok(target)) => Ok(message_impl(target, declaration)),
    }
}

/// Writes the implementation that makes the type in a text a message.
pub fn expand_message(input: &str) -> (result: Result<String, String>)
    ensures
        syntax::text_result(result) == message_source(input@),
{
    let declaration: MessageDeclaration = match read_message(input) {
        Ok(declaration) => declaration,
        Err(reason) => return Err(reason),
    };
    match read_target(input) {
        Ok(target) => Ok(render_message(&target, &declaration)),
        Err(reason) => Err(reason),
    }
}

/// Makes a type a message with the options that its `catga` attributes give it.
pub fn derive_message(input: &str) -> (result: String)
    ensures
        result@ == handlers::expansion(message_source(input@)),
{
    finish_expansion(expand_message(input))
}

proof fn lemma_attribute_failure_is_kept(attributes: Seq<Seq<char>>, start: int, place: int)
    requires
        0 <= start <= place < attributes.len(),
        attributes_of(attributes[place]) is Err,
    ensures
        all_attributes_from(attributes, start) is Err,
    decreases place - start,
{
    if start < place {
        lemma_attribute_failure_is_kept(attributes, start + 1, place);
    }
}

proof fn lemma_field_failure_is_kept(
    fields: Seq<syntax::MessageFieldView>,
    start: int,
    place: int,
)
    requires
        0 <= start <= place < fields.len(),
        trace_field_of(fields[place]) is Err,
    ensures
        trace_fields_from(fields, start) is Err,
    decreases place - start,
{
    if start < place {
        lemma_field_failure_is_kept(fields, start + 1, place);
    }
}

/// A message is rejected where any attribute of its type is malformed, wherever the attribute
/// stands and whatever the others say.
pub proof fn lemma_malformed_attributes_are_rejected(
    input: Seq<char>,
    item: syntax::MessageItemView,
    place: int,
)
    requires
        syntax::message_item_of(input) == Ok::<syntax::MessageItemView, Seq<char>>(item),
        0 <= place < item.attributes.len(),
        attributes_of(item.attributes[place]) is Err,
    ensures
        message_declaration(input) is Err,
        message_source(input) is Err,
{
    lemma_attribute_failure_is_kept(item.attributes, 0, place);
}

/// A message is rejected where any field is marked in a malformed way, wherever the field stands.
pub proof fn lemma_malformed_fields_are_rejected(
    input: Seq<char>,
    item: syntax::MessageItemView,
    place: int,
)
    requires
        syntax::message_item_of(input) == Ok::<syntax::MessageItemView, Seq<char>>(item),
        0 <= place < item.fields.len(),
        trace_field_of(item.fields[place]) is Err,
    ensures
        message_declaration(input) is Err,
        message_source(input) is Err,
{
    lemma_field_failure_is_kept(item.fields, 0, place);
}

/// Whether options are such as a message may have: the version and the batching options that are
/// given are positive, and the batch key is one of the named fields.
pub open spec fn valid_options(
    options: message_options::MessageOptionsView,
    fields: Seq<Seq<char>>,
) -> bool {
    &&& options.version != Some(0u64)
    &&& options.batch matches Some(batch) ==> positive_settings(batch)
    &&& options.batch_key matches Some(key) ==> key.len() > 0 && fields.contains(key)
}

/// Whether the batching options that are given are positive.
pub open spec fn positive_settings(batch: message_options::BatchSettings) -> bool {
    &&& batch.max_batch_size != Some(0u64)
    &&& batch.timeout_ms != Some(0u64)
    &&& batch.max_queue_length != Some(0u64)
    &&& batch.max_shards != Some(0u64)
    &&& batch.flush_concurrency != Some(0u64)
}

proof fn lemma_read_settings_are_positive(options: Seq<(Seq<char>, u64)>)
    ensures
        message_options::batch_settings(options) matches Ok(batch) ==> positive_settings(batch),
    decreases options.len(),
{
    if options.len() > 0 {
        lemma_read_settings_are_positive(options.drop_last());
    }
}

proof fn lemma_read_options_are_positive(attributes: Seq<message_options::MessageAttributeView>)
    ensures
        message_options::with_attributes(attributes) matches Ok(options) ==> {
            &&& options.version != Some(0u64)
            &&& options.batch matches Some(batch) ==> positive_settings(batch)
            &&& options.batch_key matches Some(key) ==> key.len() > 0
        },
    decreases attributes.len(),
{
    if attributes.len() > 0 {
        lemma_read_options_are_positive(attributes.drop_last());
        if let message_options::MessageAttributeView::Batch(entries) = attributes.last() {
            lemma_read_settings_are_positive(entries);
        }
    }
}

/// A message that is accepted has valid options: an attribute that breaks one of the rules for
/// versions, batching or the batch key is never accepted.
pub proof fn lemma_accepted_messages_are_valid(
    input: Seq<char>,
    item: syntax::MessageItemView,
    declaration: DeclarationView,
)
    requires
        syntax::message_item_of(input) == Ok::<syntax::MessageItemView, Seq<char>>(item),
        message_declaration(input) == Ok::<DeclarationView, Seq<char>>(declaration),
    ensures
        valid_options(
            declaration.options,
            item.fields.map_values(|field: syntax::MessageFieldView| field.name),
        ),
{
    let attributes = all_attributes_from(item.attributes, 0)->Ok_0;
    let fields = trace_fields_from(item.fields, 0)->Ok_0;
    lemma_read_options_are_positive(attributes);
    lemma_fields_keep_their_names(item.fields, 0);
    assert(item.fields.skip(0) =~= item.fields);
    assert(field_names(fields) =~= item.fields.map_values(
        |field: syntax::MessageFieldView| field.name,
    ));
}

proof fn lemma_fields_keep_their_names(fields: Seq<syntax::MessageFieldView>, start: int)
    requires
        0 <= start <= fields.len(),
    ensures
        trace_fields_from(fields, start) matches Ok(read) ==> {
            &&& read.len() == fields.len() - start
            &&& forall|i: int| 0 <= i < read.len() ==> (#[trigger] read[i]).name == fields[start
                + i].name
        },
    decreases fields.len() - start,
{
    if start < fields.len() {
        lemma_fields_keep_their_names(fields, start + 1);
        if let Ok(read) = trace_fields_from(fields, start) {
            let rest = trace_fields_from(fields, start + 1)->Ok_0;
            assert forall|i: int| 0 <= i < read.len() implies (#[trigger] read[i]).name == fields[
                start + i].name by {
                if i > 0 {
                    assert(read[i] == rest[i - 1]);
                }
            }
        }
    }
}

} // verus!
