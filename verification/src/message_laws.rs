//! What holds of every message declaration: each option that is given is kept as it was given,
//! nothing else is set, and the derived code says what was declared.

use vstd::prelude::*;

use crate::derives;
use crate::message_derive;
use crate::message_options;
use crate::message_options::MessagePriority;
use crate::message_syntax;
use crate::registration;
use crate::syntax;
use crate::text;

verus! {

/// Whether options hold what an attribute asks for.
pub open spec fn holds_attribute(
    options: message_options::MessageOptionsView,
    attribute: message_options::MessageAttributeView,
) -> bool {
    match attribute {
        message_options::MessageAttributeView::Version(version) => version > 0 && options.version
            == Some(version),
        message_options::MessageAttributeView::Priority(word) => {
            &&& options.priority is Some
            &&& options.priority->0 == MessagePriority::Low <==> word == "low"@
            &&& options.priority->0 == MessagePriority::Normal <==> word == "normal"@
            &&& options.priority->0 == MessagePriority::High <==> word == "high"@
            &&& options.priority->0 == MessagePriority::Critical <==> word == "critical"@
        },
        message_options::MessageAttributeView::Authorize => options.authorize,
        message_options::MessageAttributeView::Roles(roles) => options.authorize && forall|i: int|
            0 <= i < roles.len() ==> options.roles.contains(#[trigger] roles[i]),
        message_options::MessageAttributeView::Policy(policy) => options.policy == Some(policy),
        message_options::MessageAttributeView::BatchKey(key) => key.len() > 0 && options.batch_key
            == Some(key),
        message_options::MessageAttributeView::Batch(entries) => options.batch is Some
            && message_options::batch_settings(entries) == Ok::<
            message_options::BatchSettings,
            message_options::MessageOptionError,
        >(options.batch->0),
        message_options::MessageAttributeView::TraceTags(entries) => options.trace_tags == Some(
            entries,
        ),
    }
}

proof fn lemma_priority_words()
    ensures
        "low"@ != "normal"@,
        "low"@ != "high"@,
        "low"@ != "critical"@,
        "normal"@ != "high"@,
        "normal"@ != "critical"@,
        "high"@ != "critical"@,
{
    reveal_strlit("low");
    reveal_strlit("normal");
    reveal_strlit("high");
    reveal_strlit("critical");
    assert("low"@.len() == 3 && "normal"@.len() == 6);
    assert("high"@.len() == 4 && "critical"@.len() == 8);
}

/// Every option that is given is kept as it was given.
pub proof fn lemma_given_options_are_kept(
    attributes: Seq<message_options::MessageAttributeView>,
    place: int,
)
    requires
        message_options::with_attributes(attributes) is Ok,
        0 <= place < attributes.len(),
    ensures
        holds_attribute(message_options::with_attributes(attributes)->Ok_0, attributes[place]),
    decreases attributes.len(),
{
    lemma_priority_words();
    let init = attributes.drop_last();
    let before = message_options::with_attributes(init)->Ok_0;
    let after = message_options::with_attributes(attributes)->Ok_0;
    if place < init.len() {
        lemma_given_options_are_kept(init, place);
        assert(init[place] == attributes[place]);
        if let message_options::MessageAttributeView::Roles(roles) = attributes[place] {
            assert forall|i: int| 0 <= i < roles.len() implies after.roles.contains(
                #[trigger] roles[i],
            ) by {
                assert(before.roles.contains(roles[i]));
                let k = choose|k: int| 0 <= k < before.roles.len() && before.roles[k] == roles[i];
                assert(after.roles[k] == roles[i]);
            }
        }
    } else {
        assert(attributes[place] == attributes.last());
        if let message_options::MessageAttributeView::Roles(roles) = attributes[place] {
            assert forall|i: int| 0 <= i < roles.len() implies after.roles.contains(
                #[trigger] roles[i],
            ) by {
                assert(after.roles[before.roles.len() + i] == roles[i]);
            }
        }
    }
}

/// An option that is not given is not set.
pub proof fn lemma_options_that_are_not_given_are_not_set(
    attributes: Seq<message_options::MessageAttributeView>,
)
    requires
        message_options::with_attributes(attributes) is Ok,
    ensures
        ({
            let options = message_options::with_attributes(attributes)->Ok_0;
            &&& options.version is Some ==> exists|i: int|
                0 <= i < attributes.len() && (#[trigger] attributes[i]) is Version
            &&& options.priority is Some ==> exists|i: int|
                0 <= i < attributes.len() && (#[trigger] attributes[i]) is Priority
            &&& options.authorize ==> exists|i: int|
                0 <= i < attributes.len() && ((#[trigger] attributes[i]) is Authorize
                    || attributes[i] is Roles)
            &&& options.policy is Some ==> exists|i: int|
                0 <= i < attributes.len() && (#[trigger] attributes[i]) is Policy
            &&& options.batch_key is Some ==> exists|i: int|
                0 <= i < attributes.len() && (#[trigger] attributes[i]) is BatchKey
            &&& options.batch is Some ==> exists|i: int|
                0 <= i < attributes.len() && (#[trigger] attributes[i]) is Batch
            &&& options.trace_tags is Some ==> exists|i: int|
                0 <= i < attributes.len() && (#[trigger] attributes[i]) is TraceTags
            &&& forall|k: int|
                0 <= k < options.roles.len() ==> is_listed(attributes, #[trigger] options.roles[k])
        }),
    decreases attributes.len(),
{
    if attributes.len() > 0 {
        let init = attributes.drop_last();
        lemma_options_that_are_not_given_are_not_set(init);
        let before = message_options::with_attributes(init)->Ok_0;
        let after = message_options::with_attributes(attributes)->Ok_0;
        let last = attributes.len() - 1;
        assert(attributes[last] == attributes.last());
        if before.version is Some {
            let i = choose|i: int| 0 <= i < init.len() && (#[trigger] init[i]) is Version;
            assert(attributes[i] is Version);
        }
        if before.priority is Some {
            let i = choose|i: int| 0 <= i < init.len() && (#[trigger] init[i]) is Priority;
            assert(attributes[i] is Priority);
        }
        if before.authorize {
            let i = choose|i: int|
                0 <= i < init.len() && ((#[trigger] init[i]) is Authorize || init[i] is Roles);
            assert(attributes[i] is Authorize || attributes[i] is Roles);
        }
        if before.policy is Some {
            let i = choose|i: int| 0 <= i < init.len() && (#[trigger] init[i]) is Policy;
            assert(attributes[i] is Policy);
        }
        if before.batch_key is Some {
            let i = choose|i: int| 0 <= i < init.len() && (#[trigger] init[i]) is BatchKey;
            assert(attributes[i] is BatchKey);
        }
        if before.batch is Some {
            let i = choose|i: int| 0 <= i < init.len() && (#[trigger] init[i]) is Batch;
            assert(attributes[i] is Batch);
        }
        if before.trace_tags is Some {
            let i = choose|i: int| 0 <= i < init.len() && (#[trigger] init[i]) is TraceTags;
            assert(attributes[i] is TraceTags);
        }
        assert forall|k: int| 0 <= k < after.roles.len() implies is_listed(
            attributes,
            #[trigger] after.roles[k],
        ) by {
            if k < before.roles.len() {
                assert(after.roles[k] == before.roles[k]);
                assert(is_listed(init, before.roles[k]));
                let (i, j) = choose|i: int, j: int|
                    0 <= i < init.len() && #[trigger] lists_role(init[i], j, before.roles[k]);
                assert(lists_role(attributes[i], j, after.roles[k]));
            } else {
                assert(lists_role(attributes[last], k - before.roles.len(), after.roles[k]));
            }
        }
    }
}

/// Whether an attribute lists a role at a place.
pub open spec fn lists_role(
    attribute: message_options::MessageAttributeView,
    place: int,
    role: Seq<char>,
) -> bool {
    attribute matches message_options::MessageAttributeView::Roles(roles) && 0 <= place
        < roles.len() && roles[place] == role
}

/// Whether some attribute lists a role.
pub open spec fn is_listed(
    attributes: Seq<message_options::MessageAttributeView>,
    role: Seq<char>,
) -> bool {
    exists|i: int, j: int|
        0 <= i < attributes.len() && #[trigger] lists_role(attributes[i], j, role)
}

/// Whether two attributes give the same option, which can be given once.
pub open spec fn repeats(
    first: message_options::MessageAttributeView,
    second: message_options::MessageAttributeView,
) -> bool {
    ||| first is Version && second is Version
    ||| first is Priority && second is Priority
    ||| first is Policy && second is Policy
    ||| first is BatchKey && second is BatchKey
    ||| first is Batch && second is Batch
    ||| first is TraceTags && second is TraceTags
}

/// An option that can be given once is refused where it is given twice, wherever the two stand.
pub proof fn lemma_repeated_options_are_refused(
    attributes: Seq<message_options::MessageAttributeView>,
    first: int,
    second: int,
)
    requires
        0 <= first < second < attributes.len(),
        repeats(attributes[first], attributes[second]),
    ensures
        message_options::with_attributes(attributes) is Err,
    decreases attributes.len(),
{
    let init = attributes.drop_last();
    if second < init.len() {
        assert(init[first] == attributes[first] && init[second] == attributes[second]);
        lemma_repeated_options_are_refused(init, first, second);
    } else if message_options::with_attributes(init) is Ok {
        lemma_given_options_are_kept(init, first);
        assert(init[first] == attributes[first]);
        assert(attributes.last() == attributes[second]);
    }
}

/// The value of a batching option, by its name.
pub open spec fn batch_value(
    settings: message_options::BatchSettings,
    name: Seq<char>,
) -> Option<u64> {
    if name == "max_batch_size"@ {
        settings.max_batch_size
    } else if name == "timeout_ms"@ {
        settings.timeout_ms
    } else if name == "max_queue_length"@ {
        settings.max_queue_length
    } else if name == "max_shards"@ {
        settings.max_shards
    } else if name == "flush_concurrency"@ {
        settings.flush_concurrency
    } else {
        None
    }
}

proof fn lemma_batch_names()
    ensures
        "max_batch_size"@ != "timeout_ms"@,
        "max_batch_size"@ != "max_queue_length"@,
        "max_batch_size"@ != "max_shards"@,
        "max_batch_size"@ != "flush_concurrency"@,
        "timeout_ms"@ != "max_queue_length"@,
        "timeout_ms"@ != "max_shards"@,
        "timeout_ms"@ != "flush_concurrency"@,
        "max_queue_length"@ != "max_shards"@,
        "max_queue_length"@ != "flush_concurrency"@,
        "max_shards"@ != "flush_concurrency"@,
{
    reveal_strlit("max_batch_size");
    reveal_strlit("timeout_ms");
    reveal_strlit("max_queue_length");
    reveal_strlit("max_shards");
    reveal_strlit("flush_concurrency");
    assert("max_batch_size"@.len() == 14 && "max_queue_length"@.len() == 16);
    assert("flush_concurrency"@.len() == 17);
    assert("timeout_ms"@.len() == 10 && "max_shards"@.len() == 10);
    assert("timeout_ms"@[0] == 't' && "max_shards"@[0] == 'm');
}

/// Batching options are kept under their names, each given once and positive; names that are none of
/// the five are refused, and an option that is not given is not set.
pub proof fn lemma_batch_options_are_kept(options: Seq<(Seq<char>, u64)>, place: int)
    requires
        message_options::batch_settings(options) is Ok,
        0 <= place < options.len(),
    ensures
        ({
            let settings = message_options::batch_settings(options)->Ok_0;
            &&& options[place].1 > 0
            &&& batch_value(settings, options[place].0) == Some(options[place].1)
            &&& forall|i: int|
                0 <= i < options.len() && i != place ==> (#[trigger] options[i]).0
                    != options[place].0
        }),
    decreases options.len(),
{
    lemma_batch_names();
    let init = options.drop_last();
    let before = message_options::batch_settings(init)->Ok_0;
    if place < init.len() {
        lemma_batch_options_are_kept(init, place);
        assert(init[place] == options[place]);
        assert forall|i: int| 0 <= i < options.len() && i != place implies (
        #[trigger] options[i]).0 != options[place].0 by {
            if i < init.len() {
                assert(init[i] == options[i]);
            } else {
                assert(options[i] == options.last());
                assert(batch_value(before, options[place].0) is Some);
            }
        }
    } else {
        assert(options[place] == options.last());
        assert(batch_value(before, options[place].0) is None);
        assert forall|i: int| 0 <= i < options.len() && i != place implies (
        #[trigger] options[i]).0 != options[place].0 by {
            lemma_batch_options_are_kept(init, i);
            assert(init[i] == options[i]);
        }
    }
}

/// A batching option that is not given is not set.
pub proof fn lemma_batch_options_that_are_not_given_are_not_set(
    options: Seq<(Seq<char>, u64)>,
    name: Seq<char>,
)
    requires
        message_options::batch_settings(options) is Ok,
        forall|i: int| 0 <= i < options.len() ==> (#[trigger] options[i]).0 != name,
    ensures
        batch_value(message_options::batch_settings(options)->Ok_0, name) is None,
    decreases options.len(),
{
    lemma_batch_names();
    if options.len() > 0 {
        let init = options.drop_last();
        assert forall|i: int| 0 <= i < init.len() implies (#[trigger] init[i]).0 != name by {
            assert(init[i] == options[i]);
        }
        lemma_batch_options_that_are_not_given_are_not_set(init, name);
        assert(options.last() == options[options.len() - 1]);
    }
}

/// A field is traced under its own tag where it has one. Otherwise it is traced, under the prefix and
/// its name, exactly where the options do not exclude it and either include it or, without a list,
/// take all public fields and it is public.
pub proof fn lemma_fields_are_traced_as_asked(
    fields: Seq<message_options::TraceFieldView>,
    options: message_options::TraceTagOptionsView,
    tags: Seq<message_options::TraceTagView>,
    place: int,
)
    requires
        message_options::trace_tags_of(fields, Some(options)) == Ok::<
            Seq<message_options::TraceTagView>,
            message_options::MessageOptionError,
        >(tags),
        0 <= place < fields.len(),
    ensures
        fields[place].tag matches Some(name) ==> tags.contains(
            message_options::TraceTagView { name, field: fields[place].name },
        ),
        fields[place].tag is None && !options.excluded.contains(fields[place].name) && (
        options.included matches Some(names) && names.contains(fields[place].name)
            || options.included is None && options.all_public && fields[place].is_public)
            ==> tags.contains(
            message_options::TraceTagView {
                name: (if options.prefix is Some {
                    options.prefix->0
                } else {
                    "catga.message."@
                }) + fields[place].name,
                field: fields[place].name,
            },
        ),
{
    let marked = message_options::marked_tags(fields);
    let selected = message_options::selected_tags(fields, options);
    lemma_tags_are_listed(fields, options, place);
    if let Some(name) = fields[place].tag {
        let tag = message_options::TraceTagView { name, field: fields[place].name };
        let k = choose|k: int| 0 <= k < marked.len() && marked[k] == tag;
        assert(tags[k] == tag);
    } else if options.selects(fields[place]) {
        let tag = message_options::TraceTagView {
            name: options.tag_prefix() + fields[place].name,
            field: fields[place].name,
        };
        let k = choose|k: int| 0 <= k < selected.len() && selected[k] == tag;
        assert(tags[marked.len() + k] == tag);
    }
}

proof fn lemma_tags_are_listed(
    fields: Seq<message_options::TraceFieldView>,
    options: message_options::TraceTagOptionsView,
    place: int,
)
    requires
        0 <= place < fields.len(),
    ensures
        fields[place].tag matches Some(name) ==> message_options::marked_tags(fields).contains(
            message_options::TraceTagView { name, field: fields[place].name },
        ),
        options.selects(fields[place]) ==> message_options::selected_tags(
            fields,
            options,
        ).contains(
            message_options::TraceTagView {
                name: options.tag_prefix() + fields[place].name,
                field: fields[place].name,
            },
        ),
    decreases fields.len(),
{
    let init = fields.drop_last();
    let marked = message_options::marked_tags(fields);
    let selected = message_options::selected_tags(fields, options);
    let marked_before = message_options::marked_tags(init);
    let selected_before = message_options::selected_tags(init, options);
    if place < init.len() {
        lemma_tags_are_listed(init, options, place);
        assert(init[place] == fields[place]);
        if let Some(name) = fields[place].tag {
            let tag = message_options::TraceTagView { name, field: fields[place].name };
            let k = choose|k: int| 0 <= k < marked_before.len() && marked_before[k] == tag;
            assert(marked[k] == tag);
        }
        if options.selects(fields[place]) {
            let tag = message_options::TraceTagView {
                name: options.tag_prefix() + fields[place].name,
                field: fields[place].name,
            };
            let k = choose|k: int| 0 <= k < selected_before.len() && selected_before[k] == tag;
            assert(selected[k] == tag);
        }
    } else {
        assert(fields[place] == fields.last());
        if fields[place].tag is Some {
            assert(marked[marked_before.len() as int] == marked.last());
        }
        if options.selects(fields[place]) {
            assert(selected[selected_before.len() as int] == selected.last());
        }
    }
}

/// Every tag is that of a field that asks for it: its own tag, or one that the options select. Without
/// options only the fields with a tag of their own are traced.
pub proof fn lemma_tags_belong_to_fields(
    fields: Seq<message_options::TraceFieldView>,
    options: Option<message_options::TraceTagOptionsView>,
    tags: Seq<message_options::TraceTagView>,
    index: int,
)
    requires
        message_options::trace_tags_of(fields, options) == Ok::<
            Seq<message_options::TraceTagView>,
            message_options::MessageOptionError,
        >(tags),
        0 <= index < tags.len(),
    ensures
        exists|place: int|
            {
                &&& 0 <= place < fields.len()
                &&& (#[trigger] fields[place]).name == tags[index].field
                &&& fields[place].tag == Some(tags[index].name) || (fields[place].tag is None
                    && options is Some && !options->0.excluded.contains(fields[place].name)
                    && (options->0.included is None ==> fields[place].is_public
                    && options->0.all_public))
            },
{
    let marked = message_options::marked_tags(fields);
    if index < marked.len() {
        assert(tags[index] == marked[index]);
        lemma_marked_tag_has_a_field(fields, index);
    } else {
        let given = options->0;
        let selected = message_options::selected_tags(fields, given);
        assert(tags[index] == selected[index - marked.len()]);
        lemma_selected_tag_has_a_field(fields, given, index - marked.len());
    }
}

proof fn lemma_marked_tag_has_a_field(fields: Seq<message_options::TraceFieldView>, index: int)
    requires
        0 <= index < message_options::marked_tags(fields).len(),
    ensures
        exists|place: int|
            0 <= place < fields.len() && (#[trigger] fields[place]).name
                == message_options::marked_tags(fields)[index].field && fields[place].tag == Some(
                message_options::marked_tags(fields)[index].name,
            ),
    decreases fields.len(),
{
    let init = fields.drop_last();
    let before = message_options::marked_tags(init);
    let all = message_options::marked_tags(fields);
    if index < before.len() {
        lemma_marked_tag_has_a_field(init, index);
        assert(all[index] == before[index]);
        let place = choose|place: int|
            0 <= place < init.len() && (#[trigger] init[place]).name == before[index].field
                && init[place].tag == Some(before[index].name);
        assert(fields[place] == init[place]);
    } else {
        assert(fields[fields.len() - 1] == fields.last());
    }
}

proof fn lemma_selected_tag_has_a_field(
    fields: Seq<message_options::TraceFieldView>,
    options: message_options::TraceTagOptionsView,
    index: int,
)
    requires
        0 <= index < message_options::selected_tags(fields, options).len(),
    ensures
        exists|place: int|
            0 <= place < fields.len() && (#[trigger] fields[place]).name
                == message_options::selected_tags(fields, options)[index].field && options.selects(
                fields[place],
            ),
    decreases fields.len(),
{
    let init = fields.drop_last();
    let before = message_options::selected_tags(init, options);
    let all = message_options::selected_tags(fields, options);
    if index < before.len() {
        lemma_selected_tag_has_a_field(init, options, index);
        assert(all[index] == before[index]);
        let place = choose|place: int|
            0 <= place < init.len() && (#[trigger] init[place]).name == before[index].field
                && options.selects(init[place]);
        assert(fields[place] == init[place]);
    } else {
        assert(fields[fields.len() - 1] == fields.last());
    }
}

/// Trace options are kept under their names; without a word on public fields all of them are traced,
/// and without an exclusion none is excluded.
pub proof fn lemma_trace_options_have_their_defaults(draft: message_syntax::TraceTagDraftView)
    ensures
        ({
            let options = message_syntax::settled(draft);
            &&& options.prefix == draft.prefix
            &&& options.included == draft.included
            &&& draft.excluded is None ==> options.excluded.len() == 0
            &&& draft.excluded matches Some(names) ==> options.excluded == names
            &&& draft.all_public is None ==> options.all_public
            &&& draft.all_public matches Some(flag) ==> options.all_public == flag
        }),
        message_syntax::empty_draft().prefix is None,
        message_syntax::empty_draft().included is None,
        message_syntax::empty_draft().excluded is None,
        message_syntax::empty_draft().all_public is None,
{
}

/// A field without options is traced only where the message asks for it; a mark without a value names
/// the field after itself, and a mark with a value after that value.
pub proof fn lemma_field_marks_name_their_tag(
    name: Seq<char>,
    is_public: bool,
    literal: Seq<char>,
    value: Seq<char>,
)
    requires
        syntax::string_value_of(literal) == Ok::<Seq<char>, Seq<char>>(value),
    ensures
        ({
            let unmarked = message_syntax::marked_field(name, is_public, Seq::empty());
            &&& unmarked is Ok
            &&& unmarked->Ok_0.name == name
            &&& unmarked->Ok_0.is_public == is_public
            &&& unmarked->Ok_0.tag is None
        }),
        ({
            let entry = message_syntax::OptionEntryView {
                name: "trace_tag"@,
                argument: message_syntax::OptionArgumentView::Absent,
            };
            let marked = message_syntax::marked_field(name, is_public, seq![entry]);
            &&& marked is Ok
            &&& marked->Ok_0.name == name
            &&& marked->Ok_0.is_public == is_public
            &&& marked->Ok_0.tag == Some("catga.message."@ + name)
        }),
        ({
            let entry = message_syntax::OptionEntryView {
                name: "trace_tag"@,
                argument: message_syntax::OptionArgumentView::Value(literal),
            };
            let marked = message_syntax::marked_field(name, is_public, seq![entry]);
            &&& marked is Ok
            &&& marked->Ok_0.name == name
            &&& marked->Ok_0.is_public == is_public
            &&& marked->Ok_0.tag == Some(value)
        }),
{
}

/// The bounds of derived code are those of the definition and, behind them, one for each of its type
/// parameters.
pub proof fn lemma_every_type_parameter_is_bound(
    target: derives::TargetView,
    bound: Seq<char>,
    place: int,
)
    requires
        0 <= place < target.type_parameters.len(),
    ensures
        ({
            let predicates = derives::bounded_predicates(target, bound);
            &&& predicates.len() == target.predicates.len() + target.type_parameters.len()
            &&& predicates.take(target.predicates.len() as int) =~= target.predicates
            &&& predicates[target.predicates.len() + place] == target.type_parameters[place] + bound
        }),
        derives::where_clause(Seq::empty()).len() == 0,
{
}

/// A derived command is a message and a command, its type parameters bound by `Clone`; a derived event
/// is a message and an event, its type parameters bound as those of a shared value.
pub proof fn lemma_derived_code_implements_both_traits(target: derives::TargetView)
    ensures
        ({
            let bounds = derives::bounded_predicates(target, ": Clone"@);
            derives::command_impls(target) == derives::impl_head(target, "Message"@, bounds)
                + "{} "@ + derives::impl_head(target, "Command"@, bounds) + "{}"@
        }),
        ({
            let bounds = derives::bounded_predicates(target, ": Clone + Send + Sync + 'static"@);
            derives::event_impls(target) == derives::impl_head(target, "Message"@, bounds)
                + "{} "@ + derives::impl_head(target, "Event"@, bounds) + "{}"@
        }),
{
    let commands = derives::bounded_predicates(target, ": Clone"@);
    let events = derives::bounded_predicates(target, ": Clone + Send + Sync + 'static"@);
    lemma_four_parts(
        derives::impl_head(target, "Message"@, commands),
        "{} "@,
        derives::impl_head(target, "Command"@, commands),
        "{}"@,
    );
    lemma_four_parts(
        derives::impl_head(target, "Message"@, events),
        "{} "@,
        derives::impl_head(target, "Event"@, events),
        "{}"@,
    );
}

proof fn lemma_four_parts(
    first: Seq<char>,
    second: Seq<char>,
    third: Seq<char>,
    fourth: Seq<char>,
)
    ensures
        text::concatenated(seq![first, second, third, fourth]) == first + second + third + fourth,
{
    let parts = seq![first, second, third, fourth];
    reveal_with_fuel(text::concatenated, 5);
    assert(parts.drop_last() =~= seq![first, second, third]);
    assert(parts.drop_last().drop_last() =~= seq![first, second]);
    assert(parts.drop_last().drop_last().drop_last() =~= seq![first]);
    assert(parts.drop_last().drop_last().drop_last().drop_last() =~= Seq::empty());
    assert(text::concatenated(parts) =~= first + second + third + fourth);
}

/// A derived message says its priority exactly where one was declared, and says the declared one.
pub proof fn lemma_derived_messages_say_their_priority(
    target: derives::TargetView,
    declaration: message_derive::DeclarationView,
)
    ensures
        ({
            let bounds = derives::bounded_predicates(target, ": Send + Sync + 'static"@);
            let head = derives::impl_head(target, "Message"@, bounds) + "{ "@;
            let start =
                "fn priority(&self) -> ::catga_core::MessagePriority { "@
                + "::catga_core::MessagePriority::"@;
            let code = message_derive::message_impl(target, declaration);
            &&& declaration.options.priority is None ==> code == head + "}"@
            &&& declaration.options.priority == Some(MessagePriority::Low) ==> code == head
                + start + "Low"@ + " } "@ + "}"@
            &&& declaration.options.priority == Some(MessagePriority::Normal) ==> code == head
                + start + "Normal"@ + " } "@ + "}"@
            &&& declaration.options.priority == Some(MessagePriority::High) ==> code == head
                + start + "High"@ + " } "@ + "}"@
            &&& declaration.options.priority == Some(MessagePriority::Critical) ==> code == head
                + start + "Critical"@ + " } "@ + "}"@
        }),
{
    let bounds = derives::bounded_predicates(target, ": Send + Sync + 'static"@);
    let head = derives::impl_head(target, "Message"@, bounds);
    let member = message_derive::priority_member(declaration.options.priority);
    lemma_four_parts(head, "{ "@, member, "}"@);
    let code = message_derive::message_impl(target, declaration);
    assert(code =~= head + "{ "@ + member + "}"@);
    if let Some(priority) = declaration.options.priority {
        let name = message_derive::priority_name(priority);
        let first = "fn priority(&self) -> ::catga_core::MessagePriority { "@;
        let second = "::catga_core::MessagePriority::"@;
        lemma_four_parts(first, second, name, " } "@);
        assert(code =~= head + "{ "@ + (first + second) + name + " } "@ + "}"@);
    } else {
        assert(code =~= head + "{ "@ + "}"@);
    }
}

proof fn lemma_pushed(parts: Seq<Seq<char>>, last: Seq<char>)
    ensures
        text::concatenated(parts.push(last)) == text::concatenated(parts) + last,
{
    assert(parts.push(last).drop_last() =~= parts);
}

/// Derived code implements the named trait for the named type, with its generics and its bounds.
pub proof fn lemma_derived_code_names_its_type(
    target: derives::TargetView,
    name: Seq<char>,
    predicates: Seq<Seq<char>>,
)
    ensures
        derives::impl_head(target, name, predicates) == "impl "@ + target.impl_generics
            + " ::catga_core::"@ + name + " for "@ + target.name + " "@ + target.type_generics
            + " "@ + derives::where_clause(predicates),
        predicates.len() > 0 ==> derives::where_clause(predicates) == "where "@ + text::separated(
            predicates,
            ", "@,
        ) + " "@,
        predicates.len() == 0 ==> derives::where_clause(predicates).len() == 0,
{
    let four = seq!["impl "@, target.impl_generics, " ::catga_core::"@, name];
    let bounds = derives::where_clause(predicates);
    lemma_four_parts("impl "@, target.impl_generics, " ::catga_core::"@, name);
    lemma_pushed(four, " for "@);
    lemma_pushed(four.push(" for "@), target.name);
    lemma_pushed(four.push(" for "@).push(target.name), " "@);
    lemma_pushed(four.push(" for "@).push(target.name).push(" "@), target.type_generics);
    let eight = four.push(" for "@).push(target.name).push(" "@).push(target.type_generics);
    lemma_pushed(eight, " "@);
    lemma_pushed(eight.push(" "@), bounds);
    assert(seq![
        "impl "@,
        target.impl_generics,
        " ::catga_core::"@,
        name,
        " for "@,
        target.name,
        " "@,
        target.type_generics,
        " "@,
        bounds,
    ] =~= eight.push(" "@).push(bounds));
}

/// A request is kept as it was written, and is a message and a request with the given response; its own
/// bounds are all it asks for.
pub proof fn lemma_requests_have_their_response(
    item: Seq<char>,
    target: derives::TargetView,
    response: Seq<char>,
)
    ensures
        derives::request_impls(item, target, response) == item + " "@ + derives::impl_head(
            target,
            "Message"@,
            target.predicates,
        ) + "{} "@ + derives::impl_head(target, "Request"@, target.predicates)
            + "{ type Response = "@ + response + "; }"@,
{
    let message = derives::impl_head(target, "Message"@, target.predicates);
    let request = derives::impl_head(target, "Request"@, target.predicates);
    let four = seq![item, " "@, message, "{} "@];
    lemma_four_parts(item, " "@, message, "{} "@);
    lemma_pushed(four, request);
    lemma_pushed(four.push(request), "{ type Response = "@);
    lemma_pushed(four.push(request).push("{ type Response = "@), response);
    let seven = four.push(request).push("{ type Response = "@).push(response);
    lemma_pushed(seven, "; }"@);
    assert(seq![item, " "@, message, "{} "@, request, "{ type Response = "@, response, "; }"@]
        =~= seven.push("; }"@));
}

/// The response of a request is what stands behind `response =`; anything else is refused.
pub proof fn lemma_responses_stand_behind_their_word(tokens: Seq<syntax::TokenView>)
    ensures
        ({
            let response = derives::response_text(tokens);
            let given = tokens.len() >= 2 && tokens[0].text == "response"@ && tokens[1].text
                == "="@;
            &&& response is Ok <==> given
            &&& given ==> response->Ok_0 == registration::spelled(
                tokens.subrange(2, tokens.len() as int),
            )
        }),
{
    if tokens.len() >= 2 {
        assert(tokens.skip(2) =~= tokens.subrange(2, tokens.len() as int));
    }
}

/// Options stand behind each other with commas between them: an option is a name, a name with an equals
/// sign and a value, or a name with a list in round brackets, and those behind the next comma follow.
pub proof fn lemma_options_stand_between_commas(
    tokens: Seq<syntax::TokenView>,
    start: int,
    list: Seq<char>,
)
    requires
        0 <= start < tokens.len(),
    ensures
        ({
            let rest = tokens.len() - start;
            let named = message_syntax::OptionEntryView {
                name: tokens[start].text,
                argument: message_syntax::OptionArgumentView::Absent,
            };
            &&& rest == 1 ==> message_syntax::entries_from(tokens, start) == Ok::<
                Seq<message_syntax::OptionEntryView>,
                Seq<char>,
            >(seq![named])
            &&& rest == 3 && tokens[start + 1].text == "="@ ==> message_syntax::entries_from(
                tokens,
                start,
            ) == Ok::<Seq<message_syntax::OptionEntryView>, Seq<char>>(
                seq![
                    message_syntax::OptionEntryView {
                        name: tokens[start].text,
                        argument: message_syntax::OptionArgumentView::Value(
                            tokens[start + 2].text,
                        ),
                    },
                ],
            )
            &&& rest == 2 && tokens[start + 1].text != "="@ && tokens[start + 1].text == seq!['(']
                + list + seq![')'] ==> message_syntax::entries_from(tokens, start) == Ok::<
                Seq<message_syntax::OptionEntryView>,
                Seq<char>,
            >(
                seq![
                    message_syntax::OptionEntryView {
                        name: tokens[start].text,
                        argument: message_syntax::OptionArgumentView::List(list),
                    },
                ],
            )
            &&& rest >= 2 && tokens[start + 1].text == ","@ ==> message_syntax::entries_from(
                tokens,
                start,
            ) == match message_syntax::entries_from(tokens, start + 2) {
                Ok(entries) => Ok(seq![named] + entries),
                Err(reason) => Err(reason),
            }
        }),
{
    reveal_strlit("=");
    reveal_strlit(",");
    assert("="@.len() == 1 && ","@.len() == 1 && "="@[0] == '=' && ","@[0] == ',');
    if tokens.len() - start == 2 && tokens[start + 1].text == seq!['('] + list + seq![')'] {
        let piece = tokens[start + 1].text;
        assert(piece[0] == '(');
        assert(piece.last() == ')');
        assert(piece.subrange(1, piece.len() - 1) =~= list);
    }
    reveal_with_fuel(message_syntax::entries_from, 2);
}

/// Attributes with the own name of the library hold its options in round brackets; attributes with
/// another name hold none.
pub proof fn lemma_only_own_attributes_are_read(tokens: Seq<syntax::TokenView>, list: Seq<char>)
    ensures
        tokens.len() > 0 && tokens[0].text != "catga"@ ==> message_syntax::own_arguments(tokens)
            == Ok::<Option<Seq<char>>, Seq<char>>(None),
        tokens.len() > 1 && tokens[0].text == "catga"@ && tokens[1].text == seq!['('] + list
            + seq![')'] ==> message_syntax::own_arguments(tokens) == Ok::<
            Option<Seq<char>>,
            Seq<char>,
        >(Some(list)),
        tokens.len() == 1 && tokens[0].text == "catga"@ ==> message_syntax::own_arguments(
            tokens,
        ) is Err,
{
    reveal_strlit("=");
    if tokens.len() > 1 && tokens[1].text == seq!['('] + list + seq![')'] {
        let piece = tokens[1].text;
        assert("="@.len() == 1 && piece.len() >= 2);
        assert(piece[0] == '(');
        assert(piece.last() == ')');
        assert(piece.subrange(1, piece.len() - 1) =~= list);
    }
}

/// An option with a literal value: the version is its number, the priority its word, and a batch key its
/// text; `authorize` stands alone.
pub proof fn lemma_option_names_choose_the_attribute(
    value: Seq<char>,
    number: u64,
    words: Seq<char>,
)
    requires
        syntax::integer_value_of(value) == Ok::<u64, Seq<char>>(number),
        syntax::string_value_of(value) == Ok::<Seq<char>, Seq<char>>(words),
    ensures
        ({
            let given = message_syntax::OptionArgumentView::Value(value);
            let version = message_syntax::OptionEntryView { name: "version"@, argument: given };
            let priority = message_syntax::OptionEntryView { name: "priority"@, argument: given };
            let key = message_syntax::OptionEntryView { name: "batch_key"@, argument: given };
            let authorize = message_syntax::OptionEntryView {
                name: "authorize"@,
                argument: message_syntax::OptionArgumentView::Absent,
            };
            &&& message_syntax::attribute_of(version) == Ok::<
                message_options::MessageAttributeView,
                Seq<char>,
            >(message_options::MessageAttributeView::Version(number))
            &&& message_syntax::attribute_of(priority) == Ok::<
                message_options::MessageAttributeView,
                Seq<char>,
            >(message_options::MessageAttributeView::Priority(value))
            &&& message_syntax::attribute_of(key) == Ok::<
                message_options::MessageAttributeView,
                Seq<char>,
            >(message_options::MessageAttributeView::BatchKey(words))
            &&& message_syntax::attribute_of(authorize) == Ok::<
                message_options::MessageAttributeView,
                Seq<char>,
            >(message_options::MessageAttributeView::Authorize)
        }),
{
    lemma_option_names();
}

proof fn lemma_option_names()
    ensures
        "priority"@ != "version"@,
        "authorize"@ != "version"@,
        "authorize"@ != "priority"@,
        "roles"@ != "version"@,
        "roles"@ != "priority"@,
        "roles"@ != "authorize"@,
        "policy"@ != "version"@,
        "policy"@ != "priority"@,
        "policy"@ != "authorize"@,
        "policy"@ != "roles"@,
        "batch_key"@ != "version"@,
        "batch_key"@ != "priority"@,
        "batch_key"@ != "authorize"@,
        "batch_key"@ != "roles"@,
        "batch_key"@ != "policy"@,
{
    reveal_strlit("version");
    reveal_strlit("priority");
    reveal_strlit("authorize");
    reveal_strlit("roles");
    reveal_strlit("policy");
    reveal_strlit("batch_key");
    assert("version"@.len() == 7 && "priority"@.len() == 8 && "authorize"@.len() == 9);
    assert("roles"@.len() == 5 && "policy"@.len() == 6 && "batch_key"@.len() == 9);
    assert("authorize"@[0] == 'a' && "batch_key"@[0] == 'b');
}

/// Roles are all the texts of their list, and a policy is the one text of its list.
pub proof fn lemma_lists_give_roles_and_a_policy(list: Seq<char>, texts: Seq<Seq<char>>)
    requires
        message_syntax::strings_in(list) == Ok::<Seq<Seq<char>>, Seq<char>>(texts),
    ensures
        ({
            let given = message_syntax::OptionArgumentView::List(list);
            let roles = message_syntax::OptionEntryView { name: "roles"@, argument: given };
            let policy = message_syntax::OptionEntryView { name: "policy"@, argument: given };
            &&& message_syntax::attribute_of(roles) == Ok::<
                message_options::MessageAttributeView,
                Seq<char>,
            >(message_options::MessageAttributeView::Roles(texts))
            &&& texts.len() == 1 ==> message_syntax::attribute_of(policy) == Ok::<
                message_options::MessageAttributeView,
                Seq<char>,
            >(message_options::MessageAttributeView::Policy(texts[0]))
            &&& texts.len() != 1 ==> message_syntax::attribute_of(policy) is Err
        }),
{
    lemma_option_names();
}

/// The options for trace tags are told apart by their names; each sets its own part and no other.
pub proof fn lemma_trace_option_names_choose_the_part(
    draft: message_syntax::TraceTagDraftView,
    value: Seq<char>,
    words: Seq<char>,
    list: Seq<char>,
    names: Seq<Seq<char>>,
)
    requires
        draft.prefix is None && draft.included is None,
        draft.excluded is None && draft.all_public is None,
        syntax::string_value_of(value) == Ok::<Seq<char>, Seq<char>>(words),
        message_syntax::strings_in(list) == Ok::<Seq<Seq<char>>, Seq<char>>(names),
    ensures
        ({
            let text = message_syntax::OptionArgumentView::Value(value);
            let listed = message_syntax::OptionArgumentView::Value(seq!['['] + list + seq![']']);
            let yes = message_syntax::OptionArgumentView::Value("true"@);
            let no = message_syntax::OptionArgumentView::Value("false"@);
            let prefix = message_syntax::with_trace_option(
                draft,
                message_syntax::OptionEntryView { name: "prefix"@, argument: text },
            );
            let included = message_syntax::with_trace_option(
                draft,
                message_syntax::OptionEntryView { name: "include"@, argument: listed },
            );
            let excluded = message_syntax::with_trace_option(
                draft,
                message_syntax::OptionEntryView { name: "exclude"@, argument: listed },
            );
            let all = message_syntax::with_trace_option(
                draft,
                message_syntax::OptionEntryView { name: "all_public"@, argument: yes },
            );
            let none = message_syntax::with_trace_option(
                draft,
                message_syntax::OptionEntryView { name: "all_public"@, argument: no },
            );
            &&& prefix is Ok && prefix->Ok_0 == (message_syntax::TraceTagDraftView {
                prefix: Some(words),
                included: None,
                excluded: None,
                all_public: None,
            })
            &&& included is Ok && included->Ok_0 == (message_syntax::TraceTagDraftView {
                prefix: None,
                included: Some(names),
                excluded: None,
                all_public: None,
            })
            &&& excluded is Ok && excluded->Ok_0 == (message_syntax::TraceTagDraftView {
                prefix: None,
                included: None,
                excluded: Some(names),
                all_public: None,
            })
            &&& all is Ok && all->Ok_0 == (message_syntax::TraceTagDraftView {
                prefix: None,
                included: None,
                excluded: None,
                all_public: Some(true),
            })
            &&& none is Ok && none->Ok_0 == (message_syntax::TraceTagDraftView {
                prefix: None,
                included: None,
                excluded: None,
                all_public: Some(false),
            })
        }),
{
    reveal_strlit("prefix");
    reveal_strlit("include");
    reveal_strlit("exclude");
    reveal_strlit("all_public");
    reveal_strlit("true");
    reveal_strlit("false");
    assert("prefix"@.len() == 6 && "include"@.len() == 7 && "exclude"@.len() == 7);
    assert("all_public"@.len() == 10 && "include"@[0] == 'i' && "exclude"@[0] == 'e');
    assert("true"@.len() == 4 && "false"@.len() == 5);
    let bracketed = seq!['['] + list + seq![']'];
    assert(bracketed[0] == '[');
    assert(bracketed.last() == ']');
    assert(bracketed.subrange(1, bracketed.len() - 1) =~= list);
}

/// Texts stand behind each other with commas between them.
pub proof fn lemma_texts_stand_between_commas(
    tokens: Seq<syntax::TokenView>,
    start: int,
    value: Seq<char>,
)
    requires
        0 <= start < tokens.len(),
        syntax::string_value_of(tokens[start].text) == Ok::<Seq<char>, Seq<char>>(value),
    ensures
        tokens.len() - start == 1 ==> message_syntax::strings_from(tokens, start) == Ok::<
            Seq<Seq<char>>,
            Seq<char>,
        >(seq![value]),
        tokens.len() - start > 1 && tokens[start + 1].text == ","@ ==> match (
            message_syntax::strings_from(tokens, start),
            message_syntax::strings_from(tokens, start + 2),
        ) {
            (Ok(all), Ok(rest)) => {
                &&& all.len() == rest.len() + 1
                &&& all[0] == value
                &&& all.drop_first() =~= rest
            },
            (Err(_), Err(_)) => true,
            _ => false,
        },
        tokens.len() - start > 1 && tokens[start + 1].text != ","@
            ==> message_syntax::strings_from(tokens, start) is Err,
{
}

/// The numbers of a list of options are those that were written behind their names, in order.
pub proof fn lemma_numbers_are_read_under_their_names(
    entries: Seq<message_syntax::OptionEntryView>,
    start: int,
    place: int,
)
    requires
        0 <= start <= place < entries.len(),
        message_syntax::numbers_from(entries, start) is Ok,
    ensures
        ({
            let numbers = message_syntax::numbers_from(entries, start)->Ok_0;
            let (name, value) = numbers[place - start];
            &&& numbers.len() == entries.len() - start
            &&& name == entries[place].name
            &&& entries[place].argument is Value
            &&& syntax::integer_value_of(entries[place].argument->Value_0) == Ok::<
                u64,
                Seq<char>,
            >(value)
        }),
    decreases entries.len() - start,
{
    if start < place {
        lemma_numbers_are_read_under_their_names(entries, start + 1, place);
    } else if start + 1 < entries.len() {
        lemma_numbers_are_read_under_their_names(entries, start + 1, start + 1);
    }
}

/// Every option of an attribute is read, in order.
pub proof fn lemma_every_option_is_read(
    entries: Seq<message_syntax::OptionEntryView>,
    start: int,
    place: int,
)
    requires
        0 <= start <= place < entries.len(),
        message_syntax::attributes_from(entries, start) is Ok,
    ensures
        ({
            let read = message_syntax::attributes_from(entries, start)->Ok_0;
            &&& read.len() == entries.len() - start
            &&& message_syntax::attribute_of(entries[place]) == Ok::<
                message_options::MessageAttributeView,
                Seq<char>,
            >(read[place - start])
        }),
    decreases entries.len() - start,
{
    if start < place {
        lemma_every_option_is_read(entries, start + 1, place);
    } else if start + 1 < entries.len() {
        lemma_every_option_is_read(entries, start + 1, start + 1);
    }
}

/// Every option of every attribute of a message is read.
pub proof fn lemma_every_attribute_is_read(
    attributes: Seq<Seq<char>>,
    start: int,
    place: int,
    index: int,
)
    requires
        0 <= start <= place < attributes.len(),
        message_derive::all_attributes_from(attributes, start) is Ok,
        0 <= index < message_derive::attributes_of(attributes[place])->Ok_0.len(),
    ensures
        message_derive::attributes_of(attributes[place]) is Ok,
        message_derive::all_attributes_from(attributes, start)->Ok_0.contains(
            message_derive::attributes_of(attributes[place])->Ok_0[index],
        ),
    decreases place - start,
{
    let own = message_derive::attributes_of(attributes[start])->Ok_0;
    let rest = message_derive::all_attributes_from(attributes, start + 1)->Ok_0;
    let all = message_derive::all_attributes_from(attributes, start)->Ok_0;
    assert(all == own + rest);
    if start < place {
        lemma_every_attribute_is_read(attributes, start + 1, place, index);
        let wanted = message_derive::attributes_of(attributes[place])->Ok_0[index];
        let k = choose|k: int| 0 <= k < rest.len() && rest[k] == wanted;
        assert(all[own.len() + k] == wanted);
    } else {
        assert(all[index] == own[index]);
    }
}

/// Every field of a message is read, in order.
pub proof fn lemma_every_field_is_read(
    fields: Seq<syntax::MessageFieldView>,
    start: int,
    place: int,
)
    requires
        0 <= start <= place < fields.len(),
        message_derive::trace_fields_from(fields, start) is Ok,
    ensures
        ({
            let read = message_derive::trace_fields_from(fields, start)->Ok_0;
            &&& read.len() == fields.len() - start
            &&& message_derive::trace_field_of(fields[place]) == Ok::<
                message_options::TraceFieldView,
                Seq<char>,
            >(read[place - start])
        }),
    decreases fields.len() - start,
{
    if start < place {
        lemma_every_field_is_read(fields, start + 1, place);
    } else if start + 1 < fields.len() {
        lemma_every_field_is_read(fields, start + 1, start + 1);
    }
}

/// A declaration holds the options that its attributes give and the tags of its fields; it is refused
/// where its batch key names no field.
pub proof fn lemma_declarations_hold_options_and_tags(
    attributes: Seq<message_options::MessageAttributeView>,
    fields: Seq<message_options::TraceFieldView>,
    options: message_options::MessageOptionsView,
    tags: Seq<message_options::TraceTagView>,
)
    requires
        message_options::with_attributes(attributes) == Ok::<
            message_options::MessageOptionsView,
            message_options::MessageOptionError,
        >(options),
        message_options::trace_tags_of(fields, options.trace_tags) == Ok::<
            Seq<message_options::TraceTagView>,
            message_options::MessageOptionError,
        >(tags),
    ensures
        ({
            let made = message_derive::declared(attributes, fields);
            let keyed = options.batch_key matches Some(key) ==> exists|i: int|
                0 <= i < fields.len() && (#[trigger] fields[i]).name == key;
            &&& made is Ok <==> keyed
            &&& made is Ok ==> made->Ok_0.options == options && made->Ok_0.tags == tags
        }),
{
    let names = message_derive::field_names(fields);
    if let Some(key) = options.batch_key {
        if names.contains(key) {
            let i = choose|i: int| 0 <= i < names.len() && names[i] == key;
            assert(fields[i].name == key);
        }
        if exists|i: int| 0 <= i < fields.len() && (#[trigger] fields[i]).name == key {
            let i = choose|i: int| 0 <= i < fields.len() && (#[trigger] fields[i]).name == key;
            assert(names[i] == key);
        }
    }
}

/// A definition that can be read is derived for its own name, generics, parameters and bounds, each
/// derive with the code of its own traits; one that cannot be read is refused.
pub proof fn lemma_derives_write_their_own_code(
    input: Seq<char>,
    defined: syntax::DefinitionView,
    split: syntax::SplitGenericsView,
    declaration: message_derive::DeclarationView,
)
    requires
        syntax::definition_of(input) == Ok::<syntax::DefinitionView, Seq<char>>(defined),
        syntax::split_generics_of(defined.generics) == Ok::<
            syntax::SplitGenericsView,
            Seq<char>,
        >(split),
    ensures
        ({
            let target = derives::TargetView {
                name: defined.name,
                impl_generics: split.impl_generics,
                type_generics: split.type_generics,
                type_parameters: defined.type_parameters,
                predicates: defined.predicates,
            };
            &&& derives::target_of(input) == Ok::<derives::TargetView, Seq<char>>(target)
            &&& derives::command_source(input) == Ok::<Seq<char>, Seq<char>>(
                derives::command_impls(target),
            )
            &&& derives::event_source(input) == Ok::<Seq<char>, Seq<char>>(
                derives::event_impls(target),
            )
            &&& message_derive::message_declaration(input) == Ok::<
                message_derive::DeclarationView,
                Seq<char>,
            >(declaration) ==> message_derive::message_source(input) == Ok::<
                Seq<char>,
                Seq<char>,
            >(message_derive::message_impl(target, declaration))
        }),
{
}

/// A request is derived for the type that was read behind `response =`, and refused where that is no
/// type or the definition cannot be read.
pub proof fn lemma_requests_are_written_for_their_response(
    attribute: Seq<char>,
    item: Seq<char>,
    tokens: Seq<syntax::TokenView>,
    written: Seq<char>,
)
    requires
        syntax::lexed(attribute) == Ok::<Seq<syntax::TokenView>, Seq<char>>(tokens),
        derives::response_text(tokens) == Ok::<Seq<char>, Seq<char>>(written),
    ensures
        ({
            let code = derives::request_source(attribute, item);
            let response = syntax::type_of(written);
            let target = derives::target_of(item);
            &&& code is Ok <==> response is Ok && target is Ok
            &&& code is Ok ==> code->Ok_0 == derives::request_impls(
                item,
                target->Ok_0,
                response->Ok_0,
            )
        }),
{
}

/// The entry point is the function as it was written: its visibility, its name, its parameters, its
/// result and its body, asynchronous exactly where it was.
pub proof fn lemma_entry_points_keep_their_function(
    input: Seq<char>,
    function: syntax::FunctionView,
)
    requires
        syntax::function_of(input) == Ok::<syntax::FunctionView, Seq<char>>(function),
    ensures
        derives::main_source(input) == Ok::<Seq<char>, Seq<char>>(
            function.visibility + (if function.is_async {
                " async fn "@
            } else {
                " fn "@
            }) + function.name + "("@ + text::separated(function.parameters, ", "@) + ") "@
                + function.output + " { "@ + function.body + " }"@,
        ),
{
    let word = if function.is_async {
        " async fn "@
    } else {
        " fn "@
    };
    let parameters = text::separated(function.parameters, ", "@);
    let four = seq![function.visibility, word, function.name, "("@];
    lemma_four_parts(function.visibility, word, function.name, "("@);
    lemma_pushed(four, parameters);
    lemma_pushed(four.push(parameters), ") "@);
    let six = four.push(parameters).push(") "@);
    lemma_pushed(six, function.output);
    lemma_pushed(six.push(function.output), " { "@);
    let eight = six.push(function.output).push(" { "@);
    lemma_pushed(eight, function.body);
    lemma_pushed(eight.push(function.body), " }"@);
    assert(seq![
        function.visibility,
        word,
        function.name,
        "("@,
        parameters,
        ") "@,
        function.output,
        " { "@,
        function.body,
        " }"@,
    ] =~= eight.push(function.body).push(" }"@));
}

} // verus!
