//! What holds of all registrations, written by hand or discovered in a module: none is lost, none
//! is made up, and they keep their order.

use vstd::prelude::*;

use crate::auto_discovery;
use crate::handlers;
use crate::registration;
use crate::registration::RegistrationKind;
use crate::search;
use crate::syntax;
use crate::text;

verus! {

/// Number of handlers of the first registrations.
pub open spec fn handlers_before(
    registrations: Seq<registration::RegistrationView>,
    place: int,
) -> nat
    decreases place,
{
    if place <= 0 {
        0
    } else {
        handlers_before(registrations, place - 1) + registrations[place - 1].handlers.len()
    }
}

proof fn lemma_entry_places(
    registrations: Seq<registration::RegistrationView>,
    place: int,
    index: int,
)
    requires
        0 <= place < registrations.len(),
        0 <= index < registrations[place].handlers.len(),
    ensures
        handlers::all_entries(registrations).len() == handlers_before(
            registrations,
            registrations.len() as int,
        ),
        handlers_before(registrations, place) + index < handlers::all_entries(registrations).len(),
        handlers::all_entries(registrations)[handlers_before(registrations, place) + index]
            == handlers::handler_entry(
            registrations[place].kind,
            registrations[place].message,
            registrations[place].handlers[index],
        ),
    decreases registrations.len(),
{
    let init = registrations.drop_last();
    lemma_handlers_before_prefix(registrations, init.len() as int);
    if place < init.len() {
        lemma_entry_places(init, place, index);
        lemma_handlers_before_prefix(registrations, place);
        assert(init[place] == registrations[place]);
    } else {
        lemma_entry_count(init);
    }
}

proof fn lemma_handlers_before_prefix(
    registrations: Seq<registration::RegistrationView>,
    place: int,
)
    requires
        registrations.len() > 0,
        0 <= place <= registrations.len() - 1,
    ensures
        handlers_before(registrations, place) == handlers_before(registrations.drop_last(), place),
    decreases place,
{
    if place > 0 {
        lemma_handlers_before_prefix(registrations, place - 1);
    }
}

proof fn lemma_entry_count(registrations: Seq<registration::RegistrationView>)
    ensures
        handlers::all_entries(registrations).len() == handlers_before(
            registrations,
            registrations.len() as int,
        ),
    decreases registrations.len(),
{
    if registrations.len() > 0 {
        let init = registrations.drop_last();
        lemma_entry_count(init);
        lemma_handlers_before_prefix(registrations, init.len() as int);
    }
}

/// The code for a registry has one entry for each handler of each registration, behind those of all
/// earlier registrations and of the earlier handlers of the same one, and no entry besides.
pub proof fn lemma_every_handler_has_its_entry(
    registrations: Seq<registration::RegistrationView>,
    place: int,
    index: int,
)
    requires
        0 <= place < registrations.len(),
        0 <= index < registrations[place].handlers.len(),
    ensures
        ({
            let entries = handlers::all_entries(registrations);
            let registration = registrations[place];
            let own = handlers_before(registrations, place) + index;
            &&& entries.len() == handlers_before(registrations, registrations.len() as int)
            &&& 0 <= own < entries.len()
            &&& registration.kind == RegistrationKind::Request ==> entries[own]
                == "registry.register_request::<"@ + registration.message + ", _>("@
                + registration.handlers[index] + ")?; "@
            &&& registration.kind == RegistrationKind::Command ==> entries[own]
                == "registry.register_command::<"@ + registration.message + ", _>("@
                + registration.handlers[index] + ")?; "@
            &&& registration.kind == RegistrationKind::Event ==> entries[own]
                == "registry.register_event::<"@ + registration.message + ", _>("@
                + registration.handlers[index] + "); "@
        }),
{
    lemma_entry_places(registrations, place, index);
    let registration = registrations[place];
    let handler = registration.handlers[index];
    lemma_five_parts(
        "registry.register_request::<"@,
        registration.message,
        ", _>("@,
        handler,
        ")?; "@,
    );
    lemma_five_parts(
        "registry.register_command::<"@,
        registration.message,
        ", _>("@,
        handler,
        ")?; "@,
    );
    lemma_five_parts(
        "registry.register_event::<"@,
        registration.message,
        ", _>("@,
        handler,
        "); "@,
    );
}

proof fn lemma_five_parts(
    first: Seq<char>,
    second: Seq<char>,
    third: Seq<char>,
    fourth: Seq<char>,
    fifth: Seq<char>,
)
    ensures
        text::concatenated(seq![first, second, third, fourth, fifth]) == first + second + third
            + fourth + fifth,
{
    let parts = seq![first, second, third, fourth, fifth];
    reveal_with_fuel(text::concatenated, 6);
    assert(parts.drop_last() =~= seq![first, second, third, fourth]);
    assert(parts.drop_last().drop_last() =~= seq![first, second, third]);
    assert(parts.drop_last().drop_last().drop_last() =~= seq![first, second]);
    assert(parts.drop_last().drop_last().drop_last().drop_last() =~= seq![first]);
    assert(parts.drop_last().drop_last().drop_last().drop_last().drop_last() =~= Seq::empty());
    assert(text::concatenated(parts) =~= first + second + third + fourth + fifth);
}

/// Declarations stand between semicolons: none holds one, each but the last ends at one and is
/// followed by the next declaration, and together with the semicolons they hold every token.
pub proof fn lemma_declarations_stand_between_semicolons(
    tokens: Seq<syntax::TokenView>,
    start: int,
)
    requires
        0 <= start <= tokens.len(),
    ensures
        ({
            let ranges = registration::declarations_from(tokens, start);
            &&& start < tokens.len() ==> ranges.len() > 0 && ranges[0].0 == start
            &&& start == tokens.len() ==> ranges.len() == 0
            &&& forall|i: int|
                0 <= i < ranges.len() ==> start <= (#[trigger] ranges[i]).0 <= ranges[i].1
                    <= tokens.len()
            &&& forall|i: int, k: int|
                0 <= i < ranges.len() && ranges[i].0 <= k < ranges[i].1 ==> (
                #[trigger] tokens[k]).text != ";"@ || (#[trigger] ranges[i]).0 > k
            &&& forall|i: int|
                0 <= i < ranges.len() && (#[trigger] ranges[i]).1 < tokens.len()
                    ==> tokens[ranges[i].1].text == ";"@
            &&& forall|i: int|
                0 <= i < ranges.len() - 1 ==> (#[trigger] ranges[i]).1 + 1 == ranges[i + 1].0
            &&& ranges.len() > 0 ==> ranges.last().1 + 1 >= tokens.len()
        }),
    decreases tokens.len() - start,
{
    if start < tokens.len() {
        let rest = tokens.skip(start);
        let found = search::first_where(rest, registration::semicolon());
        search::lemma_first(rest, registration::semicolon(), found);
        let ranges = registration::declarations_from(tokens, start);
        match found {
            Some(length) => {
                let tail = registration::declarations_from(tokens, start + length + 1);
                lemma_declarations_stand_between_semicolons(tokens, start + length + 1);
                assert(ranges =~= seq![(start, start + length)] + tail);
                assert(rest[length] == tokens[start + length]);
                assert forall|i: int|
                    0 <= i < ranges.len() implies start <= (#[trigger] ranges[i]).0 <= ranges[i].1
                    <= tokens.len() by {
                    if i > 0 {
                        assert(ranges[i] == tail[i - 1]);
                    }
                }
                assert forall|i: int, k: int|
                    0 <= i < ranges.len() && ranges[i].0 <= k < ranges[i].1 implies (
                #[trigger] tokens[k]).text != ";"@ || (#[trigger] ranges[i]).0 > k by {
                    if i > 0 {
                        assert(ranges[i] == tail[i - 1]);
                    } else {
                        assert(rest[k - start] == tokens[k]);
                        assert(!registration::semicolon()(rest[k - start]));
                    }
                }
                assert forall|i: int|
                    0 <= i < ranges.len() && (#[trigger] ranges[i]).1 < tokens.len() implies
                    tokens[ranges[i].1].text == ";"@ by {
                    if i > 0 {
                        assert(ranges[i] == tail[i - 1]);
                    }
                }
                assert forall|i: int| 0 <= i < ranges.len() - 1 implies (
                #[trigger] ranges[i]).1 + 1 == ranges[i + 1].0 by {
                    assert(ranges[i + 1] == tail[i]);
                    if i > 0 {
                        assert(ranges[i] == tail[i - 1]);
                    }
                }
                if tail.len() > 0 {
                    assert(ranges.last() == tail.last());
                }
            },
            None => {
                assert forall|k: int| start <= k < tokens.len() implies (
                #[trigger] tokens[k]).text != ";"@ by {
                    assert(rest[k - start] == tokens[k]);
                    assert(!registration::semicolon()(rest[k - start]));
                }
            },
        }
    }
}

/// A declaration is read by its first arrow: what stands before it, behind the first word, names the
/// message, and what stands behind it names the handlers. Without an arrow it is refused.
pub proof fn lemma_declarations_are_split_at_their_first_arrow(
    tokens: Seq<syntax::TokenView>,
    place: int,
)
    requires
        1 <= place <= tokens.len(),
        forall|i: int| 1 <= i < place ==> !#[trigger] registration::is_arrow(tokens, i),
        place < tokens.len() ==> registration::is_arrow(tokens, place),
    ensures
        ({
            let parts = registration::registration_text(tokens);
            &&& place == tokens.len() ==> parts is Err
            &&& place < tokens.len() ==> {
                &&& parts is Ok
                &&& parts->Ok_0.kind == tokens[0].text
                &&& parts->Ok_0.message == registration::spelled(tokens.subrange(1, place))
                &&& parts->Ok_0.handlers == registration::spelled(
                    tokens.subrange(place + 2, tokens.len() as int),
                )
                &&& tokens[place].text == "="@ && tokens[place].joint
                &&& tokens[place + 1].text == ">"@
            }
        }),
{
    lemma_first_arrow(tokens, 1, place);
    if place < tokens.len() {
        assert(tokens.skip(place + 2) =~= tokens.subrange(place + 2, tokens.len() as int));
    }
}

proof fn lemma_first_arrow(tokens: Seq<syntax::TokenView>, start: int, place: int)
    requires
        1 <= start <= place <= tokens.len(),
        forall|i: int| start <= i < place ==> !#[trigger] registration::is_arrow(tokens, i),
        place < tokens.len() ==> registration::is_arrow(tokens, place),
    ensures
        registration::arrow_from(tokens, start) == if place < tokens.len() {
            Some(place)
        } else {
            None::<int>
        },
    decreases place - start,
{
    if start < place {
        assert(!registration::is_arrow(tokens, start));
        lemma_first_arrow(tokens, start + 1, place);
    }
}

/// The words `request`, `command` and `event` make registrations of that kind, for the message that is
/// named: the first two for one handler, the last for each handler of its list. Other words are
/// refused.
pub proof fn lemma_words_choose_the_kind(
    parts: registration::RegistrationTextView,
    word: Seq<char>,
    message: syntax::PathView,
    handler: Seq<char>,
    listed: Seq<Seq<char>>,
)
    requires
        syntax::identifier_of(parts.kind) == Ok::<Seq<char>, Seq<char>>(word),
        syntax::path_of(parts.message) == Ok::<syntax::PathView, Seq<char>>(message),
        syntax::expression_of(parts.handlers) == Ok::<Seq<char>, Seq<char>>(handler),
        syntax::elements_of(parts.handlers) == Ok::<Seq<Seq<char>>, Seq<char>>(listed),
    ensures
        ({
            let made = registration::registration_of(parts);
            &&& word == "request"@ || word == "command"@ || word == "event"@ <==> made is Ok
            &&& made is Ok ==> made->Ok_0.message == message.text
            &&& word == "request"@ ==> made->Ok_0.kind == RegistrationKind::Request
            &&& word == "command"@ ==> made->Ok_0.kind == RegistrationKind::Command
            &&& word == "event"@ ==> made->Ok_0.kind == RegistrationKind::Event
                && made->Ok_0.handlers == listed
            &&& word == "request"@ || word == "command"@ ==> made->Ok_0.handlers.len() == 1
                && made->Ok_0.handlers[0] == handler
        }),
{
    reveal_strlit("request");
    reveal_strlit("command");
    reveal_strlit("event");
    assert("request"@.len() == 7 && "command"@.len() == 7 && "event"@.len() == 5);
    assert("request"@[0] == 'r' && "command"@[0] == 'c');
}

/// Registrations are accepted exactly where no message has two request handlers or two command
/// handlers, and every event has a handler.
pub proof fn lemma_sound_registrations_are_accepted(
    registrations: Seq<registration::RegistrationView>,
)
    ensures
        registration::problem_from(registrations, 0) is None <==> {
            &&& forall|i: int, j: int|
                0 <= i < j < registrations.len() && (#[trigger] registrations[i]).kind == (
                #[trigger] registrations[j]).kind && registrations[i].kind
                    != RegistrationKind::Event ==> registrations[i].message
                    != registrations[j].message
            &&& forall|i: int|
                0 <= i < registrations.len() && (#[trigger] registrations[i]).kind
                    == RegistrationKind::Event ==> registrations[i].handlers.len() > 0
        },
{
    if registration::problem_from(registrations, 0) is None {
        assert forall|i: int, j: int|
            0 <= i < j < registrations.len() && (#[trigger] registrations[i]).kind == (
            #[trigger] registrations[j]).kind && registrations[i].kind
                != RegistrationKind::Event implies registrations[i].message
            != registrations[j].message by {
            registration::lemma_messages_are_registered_once(registrations, i, j);
        }
        assert forall|i: int|
            0 <= i < registrations.len() && (#[trigger] registrations[i]).kind
                == RegistrationKind::Event implies registrations[i].handlers.len() > 0 by {
            registration::lemma_events_have_handlers(registrations, i);
        }
    } else {
        lemma_problems_have_a_place(registrations, 0);
        let place = choose|place: int|
            0 <= place < registrations.len() && (#[trigger] registration::problem_at(
                registrations,
                place,
            )) is Some;
        let kind = registrations[place].kind;
        if kind == RegistrationKind::Event {
            assert(registrations[place].handlers.len() == 0);
        } else {
            let i = choose|i: int|
                0 <= i < place && (#[trigger] registrations[i]).kind == kind
                    && registrations[i].message == registrations[place].message;
            assert(registrations[i].kind == registrations[place].kind);
        }
    }
}

proof fn lemma_problems_have_a_place(
    registrations: Seq<registration::RegistrationView>,
    start: int,
)
    requires
        0 <= start,
        registration::problem_from(registrations, start) is Some,
    ensures
        exists|place: int|
            0 <= place < registrations.len() && (#[trigger] registration::problem_at(
                registrations,
                place,
            )) is Some,
    decreases registrations.len() - start,
{
    if registration::problem_at(registrations, start) is None {
        lemma_problems_have_a_place(registrations, start + 1);
    }
}

/// What an expansion answers is the code, or the code of a compile error with the reason.
pub proof fn lemma_expansions_are_the_code_or_the_reason(
    source: Seq<char>,
    reason: Seq<char>,
)
    ensures
        handlers::expansion(Ok(source)) == source,
        handlers::expansion(Err(reason)) == syntax::error_source_of(reason),
{
}

/// The last name of a trait path says which kind of message an implementation handles; the first of
/// its type arguments is that message.
pub proof fn lemma_traits_choose_the_kind(
    segments: Seq<syntax::SegmentView>,
    arguments: Seq<syntax::GenericArgumentView>,
)
    requires
        segments.len() > 0,
    ensures
        segments.last().name == "Handler"@ <==> auto_discovery::handler_kind_of(segments) == Some(
            RegistrationKind::Request,
        ),
        segments.last().name == "CommandHandler"@ <==> auto_discovery::handler_kind_of(segments)
            == Some(RegistrationKind::Command),
        segments.last().name == "EventHandler"@ <==> auto_discovery::handler_kind_of(segments)
            == Some(RegistrationKind::Event),
        auto_discovery::first_type_of(arguments) is Some <==> arguments.len() > 0
            && arguments[0].is_type,
        auto_discovery::first_type_of(arguments) matches Some(first) ==> first == arguments[0].text,
        syntax::generic_arguments_of(segments.last().arguments) == Ok::<
            Seq<syntax::GenericArgumentView>,
            Seq<char>,
        >(arguments) ==> auto_discovery::message_of(segments) == auto_discovery::first_type_of(
            arguments,
        ),
{
    reveal_strlit("Handler");
    reveal_strlit("CommandHandler");
    reveal_strlit("EventHandler");
    assert("Handler"@.len() == 7 && "CommandHandler"@.len() == 14 && "EventHandler"@.len() == 12);
}

/// A function handles the type of its first parameter, or of its second where the first is `self`; a
/// function that is not asynchronous handles nothing.
pub proof fn lemma_functions_handle_their_parameter(
    function: syntax::FunctionView,
    pattern: Seq<char>,
    first: Seq<char>,
    other: Seq<char>,
    second: Seq<char>,
)
    requires
        function.parameters.len() >= 2,
        syntax::parameter_of(function.parameters[0]) == Ok::<
            Option<(Seq<char>, Seq<char>)>,
            Seq<char>,
        >(Some((pattern, first))),
        syntax::parameter_of(function.parameters[1]) == Ok::<
            Option<(Seq<char>, Seq<char>)>,
            Seq<char>,
        >(Some((other, second))),
    ensures
        !function.is_async ==> auto_discovery::handled_message(function) is None,
        function.is_async && pattern != "self"@ ==> auto_discovery::handled_message(function)
            == Some(first),
        function.is_async && pattern == "self"@ ==> auto_discovery::handled_message(function)
            == Some(second),
{
}

/// Number of items that are handlers, among the first ones.
pub open spec fn found_before(items: Seq<auto_discovery::ModuleItemView>, place: int) -> nat
    decreases place,
{
    if place <= 0 {
        0
    } else {
        found_before(items, place - 1) + if auto_discovery::item_registration(items[place - 1])
            == Ok::<Option<Seq<char>>, Seq<char>>(None) {
            0nat
        } else {
            1nat
        }
    }
}

/// Every handler of a module is registered once, in the order of the module, and nothing else is; an
/// item that cannot be registered is refused.
pub proof fn lemma_every_handler_of_a_module_is_registered(
    items: Seq<auto_discovery::ModuleItemView>,
    place: int,
)
    requires
        0 <= place < items.len(),
    ensures
        ({
            let calls = auto_discovery::discovered(items);
            let own = auto_discovery::item_registration(items[place]);
            &&& own is Err ==> calls is Err
            &&& calls is Ok ==> calls->Ok_0.len() == found_before(items, items.len() as int)
            &&& calls is Ok && own->Ok_0 is Some ==> {
                &&& found_before(items, place) < calls->Ok_0.len()
                &&& calls->Ok_0[found_before(items, place) as int] == own->Ok_0->0
            }
        }),
    decreases items.len(),
{
    let init = items.drop_last();
    lemma_found_before_prefix(items, init.len() as int);
    lemma_found_count(items);
    if place < init.len() {
        lemma_every_handler_of_a_module_is_registered(init, place);
        lemma_found_before_prefix(items, place);
        assert(init[place] == items[place]);
    } else {
        lemma_found_count(init);
        assert(items.last() == items[place]);
    }
}

proof fn lemma_found_before_prefix(items: Seq<auto_discovery::ModuleItemView>, place: int)
    requires
        items.len() > 0,
        0 <= place <= items.len() - 1,
    ensures
        found_before(items, place) == found_before(items.drop_last(), place),
    decreases place,
{
    if place > 0 {
        lemma_found_before_prefix(items, place - 1);
    }
}

proof fn lemma_found_count(items: Seq<auto_discovery::ModuleItemView>)
    ensures
        auto_discovery::discovered(items) matches Ok(calls) ==> calls.len() == found_before(
            items,
            items.len() as int,
        ),
    decreases items.len(),
{
    if items.len() > 0 {
        lemma_found_count(items.drop_last());
        lemma_found_before_prefix(items, items.len() - 1);
    }
}

/// A discovered implementation is registered for its message under its kind, as an empty value of its
/// type; a discovered function is registered as a request handler under its name. Items that are
/// neither are not registered.
pub proof fn lemma_discovered_handlers_are_registered_for_their_message(
    block: auto_discovery::HandlerImplView,
    name: Seq<char>,
    message: Seq<char>,
)
    ensures
        ({
            let typed = auto_discovery::HandlerImplView { message: Some(message), ..block };
            let call = auto_discovery::item_registration(
                auto_discovery::ModuleItemView::Block(typed),
            );
            &&& block.kind is None ==> call == Ok::<Option<Seq<char>>, Seq<char>>(None)
            &&& block.kind == Some(RegistrationKind::Request) ==> call == Ok::<
                Option<Seq<char>>,
                Seq<char>,
            >(
                Some(
                    "__catga_auto_registry.register_request::<"@ + message + ", _>("@
                        + block.self_type + " {})?; "@,
                ),
            )
            &&& block.kind == Some(RegistrationKind::Command) ==> call == Ok::<
                Option<Seq<char>>,
                Seq<char>,
            >(
                Some(
                    "__catga_auto_registry.register_command::<"@ + message + ", _>("@
                        + block.self_type + " {})?; "@,
                ),
            )
            &&& block.kind == Some(RegistrationKind::Event) ==> call == Ok::<
                Option<Seq<char>>,
                Seq<char>,
            >(
                Some(
                    "__catga_auto_registry.register_event::<"@ + message + ", _>("@
                        + block.self_type + " {}); "@,
                ),
            )
        }),
        ({
            let untyped = auto_discovery::HandlerImplView { message: None, ..block };
            block.kind is Some ==> auto_discovery::item_registration(
                auto_discovery::ModuleItemView::Block(untyped),
            ) is Err
        }),
        auto_discovery::item_registration(
            auto_discovery::ModuleItemView::Function { name, message: Some(message) },
        ) == Ok::<Option<Seq<char>>, Seq<char>>(
            Some(
                "__catga_auto_registry.register_request::<"@ + message + ", _>("@ + name
                    + ")?; "@,
            ),
        ),
        auto_discovery::item_registration(
            auto_discovery::ModuleItemView::Function { name, message: None },
        ) == Ok::<Option<Seq<char>>, Seq<char>>(None),
        auto_discovery::item_registration(auto_discovery::ModuleItemView::Other) == Ok::<
            Option<Seq<char>>,
            Seq<char>,
        >(None),
{
    lemma_five_parts(
        "__catga_auto_registry.register_request::<"@,
        message,
        ", _>("@,
        block.self_type,
        " {})?; "@,
    );
    lemma_five_parts(
        "__catga_auto_registry.register_command::<"@,
        message,
        ", _>("@,
        block.self_type,
        " {})?; "@,
    );
    lemma_five_parts(
        "__catga_auto_registry.register_event::<"@,
        message,
        ", _>("@,
        block.self_type,
        " {}); "@,
    );
    lemma_five_parts(
        "__catga_auto_registry.register_request::<"@,
        message,
        ", _>("@,
        name,
        ")?; "@,
    );
}

/// A module is expanded exactly where each of its items can be registered and at least one is a
/// handler.
pub proof fn lemma_modules_without_handlers_are_refused(
    visibility: Seq<char>,
    name: Seq<char>,
    sources: Seq<Seq<char>>,
    items: Seq<auto_discovery::ModuleItemView>,
)
    ensures
        auto_discovery::discovery_source(visibility, name, sources, items) is Ok
            <==> auto_discovery::discovered(items) is Ok && exists|i: int|
            0 <= i < items.len() && auto_discovery::item_registration(#[trigger] items[i])
                != Ok::<Option<Seq<char>>, Seq<char>>(None),
{
    if auto_discovery::discovery_source(visibility, name, sources, items) is Ok {
        auto_discovery::lemma_discovery_finds_a_handler(visibility, name, sources, items);
    }
    if auto_discovery::discovered(items) is Ok {
        if exists|i: int|
            0 <= i < items.len() && auto_discovery::item_registration(#[trigger] items[i]) != Ok::<
                Option<Seq<char>>,
                Seq<char>,
            >(None) {
            let i = choose|i: int|
                0 <= i < items.len() && auto_discovery::item_registration(#[trigger] items[i])
                    != Ok::<Option<Seq<char>>, Seq<char>>(None);
            lemma_every_handler_of_a_module_is_registered(items, i);
        }
    }
}

proof fn lemma_pushed(parts: Seq<Seq<char>>, last: Seq<char>)
    ensures
        text::concatenated(parts.push(last)) == text::concatenated(parts) + last,
{
    assert(parts.push(last).drop_last() =~= parts);
}

proof fn lemma_three_parts(first: Seq<char>, second: Seq<char>, third: Seq<char>)
    ensures
        text::concatenated(seq![first, second, third]) == first + second + third,
{
    let none = Seq::<Seq<char>>::empty();
    lemma_pushed(none, first);
    lemma_pushed(none.push(first), second);
    lemma_pushed(none.push(first).push(second), third);
    assert(seq![first, second, third] =~= none.push(first).push(second).push(third));
    assert(text::concatenated(none) + first =~= first);
}

/// Texts that nothing separates are one behind the other.
proof fn lemma_unseparated(parts: Seq<Seq<char>>)
    ensures
        text::separated(parts, ""@) == text::concatenated(parts),
    decreases parts.len(),
{
    reveal_strlit("");
    if parts.len() > 0 {
        lemma_unseparated(parts.drop_last());
        assert(""@ =~= Seq::empty());
        assert(text::separated(parts, ""@) =~= text::concatenated(parts));
    }
}

/// The code for a registry makes one, has all entries behind each other, and hands it back.
pub proof fn lemma_registries_hold_all_entries(registrations: Seq<registration::RegistrationView>)
    ensures
        handlers::registry_source(registrations)
            == "{ (|| -> ::catga_core::CatgaResult<::catga_core::Registry> { \
             let mut registry = ::catga_core::Registry::new(); "@
            + text::concatenated(handlers::all_entries(registrations)) + "Ok(registry) })() }"@,
{
    lemma_unseparated(handlers::all_entries(registrations));
    lemma_three_parts(
        "{ (|| -> ::catga_core::CatgaResult<::catga_core::Registry> { \
         let mut registry = ::catga_core::Registry::new(); "@,
        text::separated(handlers::all_entries(registrations), ""@),
        "Ok(registry) })() }"@,
    );
}

/// Declarations become the code of a registry exactly where all of them can be read and are sound, and
/// otherwise the reason why not.
pub proof fn lemma_only_sound_declarations_become_code(
    input: Seq<char>,
    tokens: Seq<syntax::TokenView>,
)
    requires
        syntax::lexed(input) == Ok::<Seq<syntax::TokenView>, Seq<char>>(tokens),
    ensures
        ({
            let read = registration::registrations_from(tokens, 0);
            let code = handlers::handlers_source(input);
            &&& read is Err ==> code is Err
            &&& read matches Ok(registrations) ==> {
                &&& code is Ok <==> registration::problem_from(registrations, 0) is None
                &&& code is Ok ==> code->Ok_0 == handlers::registry_source(registrations)
            }
        }),
{
}

/// A text is spelled token by token, with a space behind each token that is not joint to the next.
pub proof fn lemma_tokens_are_spelled_in_order(
    tokens: Seq<syntax::TokenView>,
    last: syntax::TokenView,
)
    ensures
        last.joint ==> registration::spelled(tokens.push(last)) == registration::spelled(tokens)
            + last.text,
        !last.joint ==> registration::spelled(tokens.push(last)) == registration::spelled(tokens)
            + last.text + " "@,
        registration::spelled(Seq::empty()).len() == 0,
{
    assert(tokens.push(last).drop_last() =~= tokens);
    if last.joint {
        assert(registration::spelled(tokens.push(last)) =~= registration::spelled(tokens)
            + last.text);
    }
}

/// The name that stands for a type has its letters, with an underscore in the place of each bracket,
/// comma, colon, ampersand and space.
pub proof fn lemma_names_keep_their_letters(kind: Seq<char>, place: int)
    requires
        0 <= place < kind.len(),
    ensures
        ({
            let name = auto_discovery::as_name(kind);
            let letter = kind[place];
            let mark = letter == '<' || letter == '>' || letter == ' ' || letter == ',' || letter
                == ':' || letter == '&' || letter == '(' || letter == ')' || letter == '[' || letter
                == ']';
            &&& name.len() == kind.len()
            &&& mark ==> name[place] == '_'
            &&& !mark ==> name[place] == letter
        }),
{
}

/// A marked implementation is accepted exactly where it implements one of the three handler traits for a
/// message; the code repeats it for a type that is named after its own.
pub proof fn lemma_marked_handlers_are_repeated(block: auto_discovery::HandlerImplView)
    ensures
        ({
            let code = auto_discovery::marked_source(block);
            let name = "__CatgaHandler_"@ + auto_discovery::as_name(block.self_type);
            &&& code is Ok <==> block.trait_path is Some && block.kind is Some && block.message
                is Some
            &&& code is Ok ==> code->Ok_0 == "{ struct "@ + name + "; impl "@ + block.text + " "@
                + name + " } ::catga_core::CatgaResult::<()>"@
        }),
{
    let name = "__CatgaHandler_"@ + auto_discovery::as_name(block.self_type);
    let end = " } ::catga_core::CatgaResult::<()>"@;
    let five = seq!["{ struct "@, name, "; impl "@, block.text, " "@];
    lemma_five_parts("{ struct "@, name, "; impl "@, block.text, " "@);
    lemma_pushed(five, name);
    lemma_pushed(five.push(name), end);
    assert(seq!["{ struct "@, name, "; impl "@, block.text, " "@, name, end] =~= five.push(
        name,
    ).push(end));
}

/// The code for a module is the module with its items, behind a function that makes all the calls and
/// hands the registry back.
pub proof fn lemma_discovered_modules_make_all_calls(
    visibility: Seq<char>,
    name: Seq<char>,
    sources: Seq<Seq<char>>,
    items: Seq<auto_discovery::ModuleItemView>,
)
    requires
        auto_discovery::discovery_source(visibility, name, sources, items) is Ok,
    ensures
        auto_discovery::discovery_source(visibility, name, sources, items)->Ok_0 == visibility
            + " mod "@ + name + " { use super::*; "@ + text::separated(sources, " "@)
            + " pub fn __catga_auto_register(mut __catga_auto_registry: \
             ::catga_core::Registry) -> \
             ::catga_core::CatgaResult<::catga_core::Registry> { "@
            + text::concatenated(auto_discovery::discovered(items)->Ok_0)
            + "Ok(__catga_auto_registry) } }"@,
{
    let calls = auto_discovery::discovered(items)->Ok_0;
    let body = text::separated(sources, " "@);
    let head = " pub fn __catga_auto_register(mut __catga_auto_registry: \
         ::catga_core::Registry) -> \
         ::catga_core::CatgaResult<::catga_core::Registry> { "@;
    let made = text::separated(calls, ""@);
    let end = "Ok(__catga_auto_registry) } }"@;
    lemma_unseparated(calls);
    let five = seq![visibility, " mod "@, name, " { use super::*; "@, body];
    lemma_five_parts(visibility, " mod "@, name, " { use super::*; "@, body);
    lemma_pushed(five, head);
    lemma_pushed(five.push(head), made);
    lemma_pushed(five.push(head).push(made), end);
    assert(seq![visibility, " mod "@, name, " { use super::*; "@, body, head, made, end]
        =~= five.push(head).push(made).push(end));
}

/// Every declaration becomes its own registration, in the order in which they stand; one that cannot be
/// read has all of them refused.
pub proof fn lemma_every_declaration_becomes_a_registration(
    tokens: Seq<syntax::TokenView>,
    ranges: Seq<(int, int)>,
    place: int,
)
    requires
        0 <= place < ranges.len(),
    ensures
        ({
            let all = registration::registrations_in(tokens, ranges);
            let own = registration::registration_in(tokens, ranges[place]);
            &&& own is Err ==> all is Err
            &&& all is Ok ==> {
                &&& all->Ok_0.len() == ranges.len()
                &&& own is Ok
                &&& all->Ok_0[place] == own->Ok_0
            }
        }),
    decreases ranges.len(),
{
    let init = ranges.drop_last();
    lemma_registration_count(tokens, init);
    if place < init.len() {
        lemma_every_declaration_becomes_a_registration(tokens, init, place);
        assert(init[place] == ranges[place]);
    } else {
        assert(ranges.last() == ranges[place]);
    }
}

proof fn lemma_registration_count(tokens: Seq<syntax::TokenView>, ranges: Seq<(int, int)>)
    ensures
        registration::registrations_in(tokens, ranges) matches Ok(all) ==> all.len()
            == ranges.len(),
    decreases ranges.len(),
{
    if ranges.len() > 0 {
        lemma_registration_count(tokens, ranges.drop_last());
    }
}

/// An item that is an implementation is read by its trait path and its own type, an item that is a
/// function by its name and its parameters; any other item is passed over.
pub proof fn lemma_items_are_read_as_what_they_are(
    source: Seq<char>,
    block: syntax::ImplBlockView,
    function: syntax::FunctionView,
    path: syntax::PathView,
)
    requires
        block.trait_path is Some,
        syntax::path_of(block.trait_path->0) == Ok::<syntax::PathView, Seq<char>>(path),
    ensures
        ({
            let read = auto_discovery::handler_impl_of(block);
            &&& read.text == block.text
            &&& read.trait_path == block.trait_path
            &&& read.self_type == block.self_type
            &&& read.kind == auto_discovery::handler_kind_of(path.segments)
            &&& read.message == auto_discovery::message_of(path.segments)
        }),
        ({
            let bare = syntax::ImplBlockView { trait_path: None, ..block };
            &&& auto_discovery::handler_impl_of(bare).kind is None
            &&& auto_discovery::handler_impl_of(bare).message is None
        }),
        syntax::impl_block_of(source) == Ok::<syntax::ImplBlockView, Seq<char>>(block)
            ==> auto_discovery::item_of(source) == auto_discovery::ModuleItemView::Block(
            auto_discovery::handler_impl_of(block),
        ),
        syntax::impl_block_of(source) is Err && syntax::function_of(source) == Ok::<
            syntax::FunctionView,
            Seq<char>,
        >(function) ==> auto_discovery::item_of(source) == (
        auto_discovery::ModuleItemView::Function {
            name: function.name,
            message: auto_discovery::handled_message(function),
        }),
        syntax::impl_block_of(source) is Err && syntax::function_of(source) is Err
            ==> auto_discovery::item_of(source) is Other,
{
}

/// A module is expanded with its own visibility, its own name and all of its items, each of which is
/// looked at once and in order.
pub proof fn lemma_modules_are_expanded_with_their_items(
    input: Seq<char>,
    module: syntax::ModuleView,
    sources: Seq<Seq<char>>,
    place: int,
)
    requires
        syntax::module_of(input) == Ok::<syntax::ModuleView, Seq<char>>(module),
        module.items == Some(sources),
        0 <= place < sources.len(),
    ensures
        auto_discovery::items_of(sources).len() == sources.len(),
        auto_discovery::items_of(sources)[place] == auto_discovery::item_of(sources[place]),
        auto_discovery::auto_source(input) == auto_discovery::discovery_source(
            module.visibility,
            module.name,
            sources,
            auto_discovery::items_of(sources),
        ),
{
}

} // verus!
