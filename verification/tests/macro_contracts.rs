//! Generated source text: registrations, mediators, discovery, derives and message options.

use catga_flow::auto_discovery::{
    discover, first_type, handler_kind, render_marked, HandlerImpl, ModuleItem,
};
use catga_flow::derives::expand_catga_request;
use catga_flow::handlers::{expand_handlers, render_registry};
use catga_flow::message_derive::{declare_item, declare_message};
use catga_flow::message_options::{
    trace_tags, BatchSettings, FieldTag, MessageAttribute, MessageOptionError, MessageOptions,
    MessagePriority, TraceField, TraceTagOptions,
};
use catga_flow::message_syntax::{
    mark_field, read_attribute, read_entries, read_message_attribute, read_numbers,
    read_own_arguments, read_strings, read_trace_options, OptionArgument, OptionEntry,
};
use catga_flow::registration::{validate_registrations, Registration, RegistrationKind};
use catga_flow::syntax::{GenericArgument, MessageField, MessageItem, Segment, Token};
use catga_flow::typed_mediator::{expand_typed_mediator, MediatorDeclaration};
use catga_flow::{
    catga_auto, catga_handler, catga_handlers, catga_main, catga_request, catga_typed_mediator,
    derive_command, derive_event, derive_message, expand_auto, expand_catga_main,
    expand_derive_command, expand_derive_event, expand_handler, expand_message, read_message,
    MessageDeclaration,
};

fn texts(values: &[&str]) -> Vec<String> {
    values.iter().map(|value| (*value).to_owned()).collect()
}

fn registration(kind: RegistrationKind, message: &str, handlers: &[&str]) -> Registration {
    Registration { kind, message: message.to_owned(), handlers: texts(handlers) }
}

#[test]
fn duplicate_request_registration_is_rejected_during_macro_expansion() {
    let error = expand_handlers(
        "request CreateOrder => CreateOrderHandler;
         request CreateOrder => ReplayOrderHandler;",
    )
    .expect_err("duplicate request registrations must not defer to a startup panic");

    assert!(error.contains("duplicate request handler registration"));
}

#[test]
fn empty_event_registration_is_rejected_during_macro_expansion() {
    let error = expand_handlers("event OrderCreated => [];")
        .expect_err("an event with no handlers would silently discard delivery");

    assert!(error.contains("event registration requires at least one handler"));
}

#[test]
fn generated_mediator_uses_user_facing_handler_generic_names() {
    let rendered = expand_typed_mediator(
        "pub struct WorkerMediator;
         request GetWork => GetWorkHandler;",
    )
    .expect("a valid typed mediator declaration expands");
    assert!(rendered.contains("Handler0"));
    assert!(!rendered.contains("__H0"));
}

#[test]
fn handler_expansion_registers_request_command_and_multiple_event_handlers() {
    let registry = expand_handlers(
        "request MacroRequest => RequestHandler;
         command MacroCommand => CommandHandlerImpl;
         event MacroEvent => [FirstEventHandler, SecondEventHandler];",
    )
    .expect("unique registrations build a registry");
    assert_eq!(
        registry,
        "{ (|| -> ::catga_core::CatgaResult<::catga_core::Registry> { \
         let mut registry = ::catga_core::Registry::new(); \
         registry.register_request::<MacroRequest, _>(RequestHandler)?; \
         registry.register_command::<MacroCommand, _>(CommandHandlerImpl)?; \
         registry.register_event::<MacroEvent, _>(FirstEventHandler); \
         registry.register_event::<MacroEvent, _>(SecondEventHandler); \
         Ok(registry) })() }"
    );
}

#[test]
fn handlers_are_any_expressions_and_messages_any_paths() {
    let registry = expand_handlers(
        "request crate::orders::Create<u8> => Handler::<A, B>::new(|x, y| x, [1, 2]);
         event Done => [first(), second(1, 2),]",
    )
    .expect("valid registrations");
    assert!(registry.contains("register_request"));
    assert_eq!(registry.matches("register_event").count(), 2);
    assert!(expand_handlers("").expect("nothing to register").contains("Ok(registry)"));
}

#[test]
fn macro_validation_rejects_invalid_inputs() {
    for (input, message) in [
        (
            "command RebuildIndex => rebuild_index; command RebuildIndex => rebuild_index;",
            "duplicate command handler registration",
        ),
        ("service RebuildIndex => rebuild_index;", "expected `request`, `command`, or `event`"),
        ("request RebuildIndex -> rebuild_index;", "expected `=>`"),
        (";", "expected identifier"),
    ] {
        assert_eq!(expand_handlers(input).expect_err("an invalid declaration"), message);
    }
    assert!(expand_handlers("request fn => handler;").is_err());
    assert!(expand_handlers("request Message => ;").is_err());
    assert!(expand_handlers("event Message => handler;").is_err());
    assert!(expand_handlers("request Message => (").is_err());
    for (input, message) in [
        ("pub Mediator; ", "expected `struct`"),
        ("pub struct", "expected identifier"),
        ("pub struct Mediator", "expected `;`"),
        ("pub struct Mediator request", "expected `;`"),
        (
            "struct Mediator; command Go => go; command Go => run;",
            "duplicate command handler registration",
        ),
    ] {
        assert_eq!(expand_typed_mediator(input).expect_err("an invalid declaration"), message);
    }
    assert!(expand_typed_mediator("private struct Mediator;").is_err());

    for source in [
        "#[catga(priority = urgent)] struct OrderCreated;",
        "#[catga(version = 0)] struct ZeroVersion;",
        "#[catga(version = 1, version = 2)] struct DuplicateVersion;",
        "#[catga(version = \"one\")] struct NonIntegerVersion;",
        "#[catga(priority = \"high\")] struct NonPathPriority;",
        "#[catga(priority = low, priority = high)] struct DuplicatePriority;",
        "#[catga(policy(\"first\"), policy(\"second\"))] struct DuplicatePolicy;",
        "#[catga(unknown)] struct UnknownAuthorizationOption;",
        "#[catga(batch(max_batch_size = 0))] struct ZeroBatchOption;",
        "#[catga(batch(unrecognized = 4))] struct UnknownBatchOption;",
        "#[catga(batch_key = \"missing\")] struct MissingBatchKey { present: u64, }",
        "#[catga(batch_key = \"\")] struct EmptyBatchKey { present: u64, }",
        "#[catga(batch_key = \"field\")] struct TupleBatchKey(u64);",
        "#[catga(trace_tags(prefix = \"\"))] struct EmptyTracePrefix { value: u64, }",
        "#[catga(trace_tags(include = [1]))] struct NonStringTraceInclude { value: u64, }",
        "struct InvalidFieldTraceTag { #[catga(trace_tag = \"\")] value: u64, }",
        "struct DuplicateFieldTraceTag { #[catga(trace_tag, trace_tag)] value: u64, }",
        "struct UnexpectedFieldTraceTag { #[catga(other)] value: u64, }",
        "#[catga(priority = priority::high)] struct QualifiedPriority;",
        "#[catga(batch(max_batch_size = 1), batch(timeout_ms = 2))] struct DuplicateBatch;",
        "#[catga(batch(max_batch_size))] struct MissingBatchValue;",
        "#[catga(batch(max_batch_size = \"many\"))] struct NonIntegerBatchValue;",
        "#[catga(batch(max_batch_size = 18446744073709551616))] struct OverflowingBatchValue;",
        "#[catga(batch_key = 1)] struct NonStringBatchKey { field: u64, }",
        "#[catga(batch_key = \"first\", batch_key = \"second\")]
         struct DuplicateBatchKey { first: u64, second: u64, }",
        "#[catga(trace_tags(prefix = \"first.\", prefix = \"second.\"))]
         struct DuplicateTracePrefix { value: u64, }",
        "#[catga(trace_tags(include = [\"first\"], include = [\"second\"]))]
         struct DuplicateTraceInclude { value: u64, }",
        "#[catga(trace_tags(exclude = [\"first\"], exclude = [\"second\"]))]
         struct DuplicateTraceExclude { value: u64, }",
        "#[catga(trace_tags(all_public = true, all_public = false))]
         struct DuplicateAllPublic { value: u64, }",
        "#[catga(trace_tags(all_public = \"yes\"))] struct NonBooleanAllPublic { value: u64, }",
        "#[catga(trace_tags(unknown = true))] struct UnknownTraceOption { value: u64, }",
        "#[catga(trace_tags(include = \"field\"))] struct NonArrayTraceInclude { value: u64, }",
        "#[catga(trace_tags(exclude = [\"\"]))] struct EmptyTraceExclude { value: u64, }",
        "struct NonStringFieldTraceTag { #[catga(trace_tag = 1)] value: u64, }",
    ] {
        let reason = expand_message(source).expect_err(source);
        let reported = derive_message(source);
        assert!(reported.contains("compile_error"), "{source}");
        assert!(reported.contains(&reason), "{source}");
    }
}

#[test]
fn a_request_and_a_command_may_share_a_message() {
    let registrations = vec![
        registration(RegistrationKind::Request, "Order", &["a"]),
        registration(RegistrationKind::Command, "Order", &["b"]),
        registration(RegistrationKind::Event, "Order", &["c"]),
        registration(RegistrationKind::Event, "Order", &["d", "e"]),
    ];
    assert!(validate_registrations(&registrations).is_ok());
    assert!(render_registry(&registrations).contains("register_event::<Order, _>(e); "));
}

#[test]
fn failures_are_reported_to_the_compiler() {
    let reported = catga_handlers("event OrderCreated => [];");
    assert!(reported.contains("compile_error"));
    assert!(reported.contains("event registration requires at least one handler"));
    for source in [
        catga_typed_mediator("struct"),
        catga_auto("fn"),
        catga_handler("fn"),
        catga_main("struct"),
        catga_request("answer = u8", "struct Get;"),
        derive_command("fn"),
        derive_event("fn"),
        derive_message("fn"),
        derive_message("#[catga(unknown)] struct Unknown;"),
    ] {
        assert!(source.contains("compile_error"), "{source}");
    }
}

#[test]
fn a_mediator_holds_each_handler_in_a_field_of_its_own() {
    let mediator = MediatorDeclaration {
        visibility: "pub".to_owned(),
        name: "Orders".to_owned(),
        registrations: vec![
            registration(RegistrationKind::Request, "Get", &["GetHandler"]),
            registration(RegistrationKind::Command, "Ship", &["ShipHandler"]),
            registration(RegistrationKind::Event, "Created", &["First", "Second"]),
        ],
    };
    let source = mediator.render();
    assert!(source.contains(
        "pub struct Orders<Handler0, Handler1, Handler2> { __handler_0: Handler0, \
         __handler_1: Handler1, __handler_2: [Handler2; 2usize] } "
    ));
    assert!(source.contains(
        "pub fn new(__handler_0: Handler0, __handler_1: Handler1, \
         __handler_2: [Handler2; 2usize]) -> Self { \
         Self { __handler_0, __handler_1, __handler_2 } } "
    ));
    assert!(source.contains(
        "where Handler0: ::catga_core::Handler<Get>, \
         Handler1: ::catga_core::CommandHandler<Ship>, \
         Handler2: ::catga_core::EventHandler<Created> + ::std::clone::Clone, { "
    ));
    assert!(source.contains(
        "::catga_core::sealed_dispatch::SealedRequestDispatch<Get> for \
         Orders<Handler0, Handler1, Handler2>"
    ));
    assert!(source.contains("::catga_core::CommandHandler::handle(&self.__handler_1, command)"));
    assert!(source.contains("let handlers = &self.__handler_2; "));
    let parsed = expand_typed_mediator(
        "pub struct Orders; request Get => GetHandler; command Ship => ShipHandler; \
         event Created => [First, Second];",
    )
    .expect("a valid declaration");
    assert_eq!(parsed, source);
    syn::parse_str::<syn::File>(&source).expect("the mediator is well-formed source text");
}

#[test]
fn a_mediator_without_registrations_is_well_formed() {
    let source = catga_typed_mediator("pub(crate) struct Empty;");
    assert!(source.contains("pub (crate) struct Empty<> {  } "), "{source}");
    syn::parse_str::<syn::File>(&source).expect("well-formed source text");
}

#[test]
fn discovery_registers_impls_and_async_functions() {
    let source = expand_auto(
        "pub mod handlers {
            struct Echo;
            impl Handler<Ping> for Echo { }
            impl catga::CommandHandler<Ship> for Echo { }
            impl EventHandler<Created> for Echo { }
            impl Clone for Echo { }
            async fn ping(_: Pong) -> u8 { 0 }
            async fn idle() { }
            fn plain(_: Pong) { }
            const LIMIT: u8 = 3;
        }",
    )
    .expect("a module with handlers");
    assert!(source.contains("register_request::<Ping, _>(Echo {})?; "));
    assert!(source.contains("register_command::<Ship, _>(Echo {})?; "));
    assert!(source.contains("register_event::<Created, _>(Echo {}); "));
    assert!(source.contains("register_request::<Pong, _>(ping)?; "));
    assert_eq!(source.matches("__catga_auto_registry.register").count(), 4);
    assert!(source.starts_with("pub mod handlers { use super::*; "));
    assert!(source.contains("const LIMIT"));
    syn::parse_str::<syn::File>(&source).expect("well-formed source text");
}

#[test]
fn discovery_needs_a_handler_and_a_message() {
    assert_eq!(
        expand_auto("mod empty { struct Alone; }").expect_err("no handlers"),
        "#[catga_auto] module contains no handlers"
    );
    assert_eq!(
        expand_auto("mod elsewhere;").expect_err("no handlers"),
        "#[catga_auto] module contains no handlers"
    );
    assert_eq!(
        expand_auto("mod bare { impl Handler for Echo { } }").expect_err("no message"),
        "`impl Handler<M>` requires a typed trait impl (`impl Handler<M>`)"
    );
}

#[test]
fn marked_impls_must_implement_a_handler_of_a_message() {
    let source = expand_handler("impl Handler<Ping> for Vec<Echo> { }").expect("a handler");
    assert!(source.contains("struct __CatgaHandler_Vec___Echo__;"), "{source}");
    assert_eq!(
        expand_handler("impl Echo { }").expect_err("no trait"),
        "`#[catga_handler]` requires a trait impl block (`impl Handler<M> for T` etc.)"
    );
    assert_eq!(
        expand_handler("impl Clone for Echo { }").expect_err("another trait"),
        "`#[catga_handler]` only supports `Handler`, `CommandHandler`, or `EventHandler`, \
         not `Clone` (impl for `Echo`)"
    );
    assert_eq!(
        expand_handler("impl Handler for Echo { }").expect_err("no message"),
        "`#[catga_handler]` requires a typed trait impl (`impl Handler<M>`)"
    );
    assert!(expand_handler("impl Handler<'a, Ping> for Echo { }").is_err());
}

#[test]
fn the_parts_of_discovery_work_on_plain_values() {
    let segment = |name: &str| Segment { name: name.to_owned(), arguments: String::new() };
    assert_eq!(
        handler_kind(&vec![segment("catga"), segment("EventHandler")]),
        Some(RegistrationKind::Event)
    );
    assert_eq!(handler_kind(&vec![segment("Handler"), segment("Other")]), None);
    assert_eq!(handler_kind(&Vec::new()), None);
    let argument = |text: &str, is_type: bool| GenericArgument { text: text.to_owned(), is_type };
    assert_eq!(first_type(&vec![argument("Ping", true)]), Some("Ping".to_owned()));
    assert_eq!(first_type(&vec![argument("'a", false), argument("Ping", true)]), None);
    let block = HandlerImpl {
        text: "impl CommandHandler<Go> for Car { }".to_owned(),
        trait_path: Some("CommandHandler < Go >".to_owned()),
        kind: Some(RegistrationKind::Command),
        message: Some("Go".to_owned()),
        self_type: "Car".to_owned(),
    };
    assert_eq!(
        render_marked(&block).expect("a handler"),
        "{ struct __CatgaHandler_Car; impl impl CommandHandler<Go> for Car { } \
         __CatgaHandler_Car } ::catga_core::CatgaResult::<()>"
    );
    assert_eq!(
        discover(&vec![ModuleItem::Other, ModuleItem::Block(block)]).expect("one handler"),
        ["__catga_auto_registry.register_command::<Go, _>(Car {})?; "]
    );
}

#[test]
fn derive_command_implements_message() {
    let source = expand_derive_command("struct CreateUser { name: String }").expect("a type");
    let target = source.split("{}").next().expect("the first impl").trim_end();
    assert!(target.ends_with("CreateUser"));
    assert!(target.starts_with("impl  ::catga_core::Message for"));
}

#[test]
fn implements_command() {
    for item in ["struct CreateUser { name: String }", "struct DeleteUser(u64);"] {
        let source = derive_command(item);
        assert!(source.contains("::catga_core::Command for"));
        syn::parse_str::<syn::File>(&source).expect("well-formed source text");
    }
}

#[test]
fn derive_event_implements_message() {
    let source = expand_derive_event("struct UserCreated { user_id: String }").expect("a type");
    let target = source.split("{}").next().expect("the first impl").trim_end();
    assert!(target.ends_with("UserCreated"));
    assert!(target.starts_with("impl  ::catga_core::Message for"));
}

#[test]
fn implements_event() {
    for item in [
        "struct UserCreated { user_id: String }",
        "struct OrderShipped { order_id: u64, tracking: String }",
    ] {
        let source = derive_event(item);
        assert!(source.contains("::catga_core::Event for"));
        syn::parse_str::<syn::File>(&source).expect("well-formed source text");
    }
}

#[test]
fn event_is_clone() {
    let source = derive_event("struct UserCreated { user_id: String }");
    assert!(source.contains("::catga_core::Event for UserCreated"));
    let source = derive_event("struct Created<T> { value: T }");
    let parsed: syn::File = syn::parse_str(&source).expect("well-formed source text");
    assert_eq!(parsed.items.len(), 2);
    assert_eq!(source.matches("T: Clone + Send + Sync + 'static").count(), 2, "{source}");
}

#[test]
fn derives_bound_every_type_parameter() {
    let source = expand_derive_event("struct Batch<'a, T, U, const N: usize> where U: Copy { t: T }")
        .expect("a type");
    assert!(
        source.contains(
            "where U : Copy, T: Clone + Send + Sync + 'static, \
             U: Clone + Send + Sync + 'static {}"
        ),
        "{source}"
    );
    let source = expand_derive_command("enum Either<L, R> { Left(L), Right(R) }").expect("a type");
    assert!(source.contains("where L: Clone, R: Clone {}"));
    let source = expand_derive_command("struct Page<T: Ord = u8, const N: usize = 4>([T; N]);")
        .expect("a type");
    assert!(source.starts_with("impl < T : Ord , const N : usize > ::catga_core::Message"));
    assert!(source.contains("for Page < T , N > where T: Clone {}"), "{source}");
    syn::parse_str::<syn::File>(&source).expect("well-formed source text");
}

#[test]
fn derive_request_implements_message() {
    let source =
        expand_catga_request("response = String", "struct GetUser(String);").expect("a request");
    assert!(source.starts_with("struct GetUser(String);"));
    let impls = source.trim_start_matches("struct GetUser(String);");
    let target = impls.split("{}").next().expect("the first impl").trim_end();
    assert!(target.ends_with("GetUser"));
    assert_eq!(target.trim_start(), "impl  ::catga_core::Message for GetUser");
}

#[test]
fn implements_request_with_response() {
    let source = catga_request("response = String", "struct GetUser(String);");
    assert!(source.contains("::catga_core::Request for GetUser"));
}

#[test]
fn response_type_is_string() {
    let source = catga_request("response = String", "struct GetUser(String);");
    assert!(source.contains("{ type Response = String; }"));
}

#[test]
fn complex_type_path() {
    let source = catga_request("response = std::time::Duration", "struct GetTimeout;");
    assert!(source.contains("type Response = std :: time :: Duration; "), "{source}");
    syn::parse_str::<syn::File>(&source).expect("well-formed source text");
}

#[test]
fn generic_type_result() {
    let source =
        catga_request("response = Result<String, std::io::Error>", "struct GetUserComplex;");
    assert!(
        source.contains("type Response = Result < String , std :: io :: Error >; "),
        "{source}"
    );
}

#[test]
fn requests_name_their_response() {
    assert_eq!(
        expand_catga_request("", "struct Get;").expect_err("no response"),
        "expected `response`"
    );
    assert_eq!(
        expand_catga_request("response", "struct Get;").expect_err("no type"),
        "expected `=`"
    );
    assert!(expand_catga_request("response = ", "struct Get;").is_err());
    assert!(expand_catga_request("response = u8", "fn get() {}").is_err());
}

#[test]
fn an_entry_point_keeps_the_signature_and_the_body() {
    let source =
        expand_catga_main("pub async fn main(port: u16) -> Result<(), Error> { run(port) }")
            .expect("a function");
    let parsed: syn::ItemFn = syn::parse_str(&source).expect("well-formed source text");
    assert_eq!(parsed.sig.ident.to_string(), "main");
    assert!(parsed.sig.asyncness.is_some());
    assert_eq!(parsed.sig.inputs.len(), 1);
    assert!(source.contains("run (port)"), "{source}");
    assert!(expand_catga_main("fn main() { }").expect("a function").contains(" fn main() "));
}

fn field(name: &str, is_public: bool, tag: FieldTag) -> TraceField {
    TraceField { name: name.to_owned(), is_public, tag }
}

fn tags(
    fields: &Vec<TraceField>,
    options: Option<TraceTagOptions>,
    value: impl Fn(&str) -> &'static str,
) -> Vec<(String, String)> {
    trace_tags(fields, &options)
        .expect("valid options")
        .iter()
        .map(|tag| (tag.name.clone(), value(&tag.field).to_owned()))
        .collect()
}

#[test]
fn marks_and_options_select_trace_tags() {
    let traced = vec![
        field("id", true, FieldTag::Unmarked),
        field("region", true, FieldTag::Unmarked),
        field("secret", false, FieldTag::Unmarked),
        field("account", true, FieldTag::Named("request.explicit".to_owned())),
    ];
    let options = TraceTagOptions {
        prefix: Some("request.".to_owned()),
        included: None,
        excluded: texts(&["secret"]),
        all_public: true,
    };
    let message = |field: &str| match field {
        "id" => "9",
        "region" => "cn-north-1",
        "secret" => "do-not-export",
        _ => "44",
    };
    assert_eq!(
        tags(&traced, Some(options), message),
        [
            ("request.explicit".to_owned(), "44".to_owned()),
            ("request.id".to_owned(), "9".to_owned()),
            ("request.region".to_owned(), "cn-north-1".to_owned()),
        ]
    );
    assert_eq!(message("secret"), "do-not-export");

    let included = vec![
        field("public", true, FieldTag::Unmarked),
        field("private", false, FieldTag::Unmarked),
    ];
    let options = TraceTagOptions {
        prefix: Some("included.".to_owned()),
        included: Some(texts(&["public", "private"])),
        excluded: texts(&["private"]),
        all_public: false,
    };
    assert_eq!(
        tags(&included, Some(options), |field| if field == "public" { "5" } else { "6" }),
        [("included.public".to_owned(), "5".to_owned())]
    );

    let without_tags = vec![field("value", false, FieldTag::Unmarked)];
    let options = TraceTagOptions {
        prefix: None,
        included: None,
        excluded: Vec::new(),
        all_public: false,
    };
    assert!(tags(&without_tags, Some(options), |_| "7").is_empty());
}

#[test]
fn marked_fields_have_a_default_tag() {
    let fields = vec![
        field("plain", true, FieldTag::Unmarked),
        field("tenant", false, FieldTag::Default),
    ];
    assert_eq!(
        tags(&fields, None, |_| "acme"),
        [("catga.message.tenant".to_owned(), "acme".to_owned())]
    );
    let options = || TraceTagOptions {
        prefix: None,
        included: None,
        excluded: Vec::new(),
        all_public: true,
    };
    assert_eq!(
        tags(&fields, Some(options()), |_| "acme")[1],
        ("catga.message.plain".to_owned(), "acme".to_owned())
    );
    let rejected = |fields: &Vec<TraceField>, options: TraceTagOptions| {
        trace_tags(fields, &Some(options)).expect_err("invalid options")
    };
    assert_eq!(
        rejected(&fields, TraceTagOptions { prefix: Some(String::new()), ..options() }),
        MessageOptionError::EmptyTracePrefix
    );
    assert_eq!(
        rejected(&fields, TraceTagOptions { excluded: texts(&[""]), ..options() }),
        MessageOptionError::EmptyTraceField
    );
    assert_eq!(
        rejected(&fields, TraceTagOptions { included: Some(texts(&["a", ""])), ..options() }),
        MessageOptionError::EmptyTraceField
    );
    assert_eq!(
        rejected(&vec![field("value", true, FieldTag::Named(String::new()))], options()),
        MessageOptionError::EmptyTraceTag
    );
}

fn options(attributes: Vec<MessageAttribute>) -> Result<MessageOptions, MessageOptionError> {
    MessageOptions::read(&attributes, &texts(&["tenant"]))
}

#[test]
fn options_have_defaults_versions_and_priorities() {
    assert_eq!(options(vec![]).expect("no options").schema_version(), 1);
    assert_eq!(options(vec![]).expect("no options").priority(), None);
    let priority = |word: &str| MessageAttribute::Priority(word.to_owned());
    let low = options(vec![MessageAttribute::Version(7), priority("low")]).expect("two options");
    assert_eq!(low.schema_version(), 7);
    assert_eq!(low.priority(), Some(MessagePriority::Low));
    for (word, expected) in [
        ("normal", MessagePriority::Normal),
        ("high", MessagePriority::High),
        ("critical", MessagePriority::Critical),
    ] {
        assert_eq!(
            options(vec![priority(word)]).expect("one option").priority(),
            Some(expected)
        );
    }
}

#[test]
fn options_hold_authorization_and_batching() {
    let roles = |names: &[&str]| MessageAttribute::Roles(texts(names));
    let policy = |name: &str| MessageAttribute::Policy(name.to_owned());
    let authenticated = options(vec![MessageAttribute::Authorize]).expect("one option");
    assert!(authenticated.is_authorized());
    assert!(authenticated.roles().is_empty());
    assert_eq!(authenticated.policy(), None);
    let role = options(vec![roles(&["operator"])]).expect("one option");
    assert!(role.is_authorized());
    assert_eq!(*role.roles(), ["operator"]);
    assert_eq!(role.policy(), None);
    let protected = options(vec![policy("orders.write")]).expect("one option");
    assert!(protected.is_authorized());
    assert!(protected.roles().is_empty());
    assert_eq!(protected.policy(), Some("orders.write"));
    let full = options(vec![
        MessageAttribute::Authorize,
        roles(&["operator", "auditor"]),
        policy("orders.read"),
    ])
    .expect("three options");
    assert_eq!(*full.roles(), ["operator", "auditor"]);
    assert_eq!(full.policy(), Some("orders.read"));
    assert!(!options(vec![]).expect("no options").is_authorized());

    let batched = options(vec![
        MessageAttribute::BatchKey("tenant".to_owned()),
        MessageAttribute::Batch(vec![
            ("max_batch_size".to_owned(), 8),
            ("timeout_ms".to_owned(), 12),
            ("max_queue_length".to_owned(), 32),
            ("max_shards".to_owned(), 4),
            ("flush_concurrency".to_owned(), 2),
        ]),
    ])
    .expect("two options");
    assert_eq!(batched.batch_key(), Some("tenant"));
    assert_eq!(
        batched.batch(),
        Some(BatchSettings {
            max_batch_size: Some(8),
            timeout_ms: Some(12),
            max_queue_length: Some(32),
            max_shards: Some(4),
            flush_concurrency: Some(2),
        })
    );
}

#[test]
fn invalid_message_options_are_rejected() {
    let priority = |word: &str| MessageAttribute::Priority(word.to_owned());
    let key = |name: &str| MessageAttribute::BatchKey(name.to_owned());
    let batch = |name: &str, value: u64| MessageAttribute::Batch(vec![(name.to_owned(), value)]);
    let policy = |name: &str| MessageAttribute::Policy(name.to_owned());
    for (attributes, expected) in [
        (vec![MessageAttribute::Version(0)], MessageOptionError::ZeroVersion),
        (
            vec![MessageAttribute::Version(1), MessageAttribute::Version(2)],
            MessageOptionError::DuplicateVersion,
        ),
        (vec![priority("urgent")], MessageOptionError::UnknownPriority),
        (vec![priority("low"), priority("high")], MessageOptionError::DuplicatePriority),
        (vec![policy("first"), policy("second")], MessageOptionError::DuplicatePolicy),
        (vec![batch("max_batch_size", 0)], MessageOptionError::ZeroBatchOption),
        (vec![batch("unrecognized", 4)], MessageOptionError::UnknownBatchOption),
        (
            vec![batch("max_batch_size", 1), batch("timeout_ms", 2)],
            MessageOptionError::DuplicateBatch,
        ),
        (
            vec![MessageAttribute::Batch(vec![
                ("max_shards".to_owned(), 1),
                ("max_shards".to_owned(), 2),
            ])],
            MessageOptionError::DuplicateBatchOption,
        ),
        (vec![key("missing")], MessageOptionError::MissingBatchKey),
        (vec![key("")], MessageOptionError::EmptyBatchKey),
        (vec![key("tenant"), key("tenant")], MessageOptionError::DuplicateBatchKey),
    ] {
        assert_eq!(options(attributes).expect_err("invalid options"), expected);
    }
}

fn declared(source: &str) -> MessageDeclaration {
    read_message(source).expect(source)
}

#[test]
fn message_expansion_preserves_defaults_generics_versions_and_priorities() {
    let default = "struct DefaultMessage;";
    assert_eq!(
        derive_message(default),
        "impl  ::catga_core::Message for DefaultMessage  { }"
    );
    assert_eq!(declared(default).options.schema_version(), 1);
    let generic = derive_message("struct GenericMessage<T>(T);");
    assert_eq!(
        generic,
        "impl < T > ::catga_core::Message for GenericMessage < T > \
         where T: Send + Sync + 'static { }"
    );
    let limited = "struct ConstGenericMessage<const LIMIT: usize>;";
    assert_eq!(declared(limited).options.schema_version(), 1);
    assert_eq!(
        derive_message(limited),
        "impl < const LIMIT : usize > ::catga_core::Message for ConstGenericMessage < LIMIT > { }"
    );
    let low = "#[catga(version = 7, priority = low)] struct LowPriority;";
    assert_eq!(declared(low).options.schema_version(), 7);
    for (source, expected, name) in [
        (low, MessagePriority::Low, "Low"),
        ("#[catga(priority = normal)] struct NormalPriority;", MessagePriority::Normal, "Normal"),
        ("#[catga(priority = high)] struct HighPriority;", MessagePriority::High, "High"),
        (
            "#[catga(priority = critical)] struct CriticalPriority;",
            MessagePriority::Critical,
            "Critical",
        ),
    ] {
        assert_eq!(declared(source).options.priority(), Some(expected));
        let expanded = derive_message(source);
        let member = format!(
            "{{ fn priority(&self) -> ::catga_core::MessagePriority {{ \
             ::catga_core::MessagePriority::{name} }} }}"
        );
        assert!(expanded.ends_with(&member), "{expanded}");
        syn::parse_str::<syn::ItemImpl>(&expanded).expect("well-formed source text");
    }
    assert_eq!(declared("struct TupleMessage(u64);").options.schema_version(), 1);
    let choice = "enum ChoiceMessage { First, Second }";
    assert_eq!(declared(choice).options.priority(), None);
    assert!(derive_message(choice).contains("::catga_core::Message for ChoiceMessage"));
}

#[test]
fn message_expansion_builds_authorization_and_batch_contracts() {
    let authenticated = declared("#[catga(authorize)] struct Authenticated;").options;
    assert!(authenticated.is_authorized());
    assert!(authenticated.roles().is_empty());
    assert_eq!(authenticated.policy(), None);
    let role = declared("#[catga(roles(\"operator\"))] struct RoleProtected;").options;
    assert!(role.is_authorized());
    assert_eq!(*role.roles(), ["operator"]);
    assert_eq!(role.policy(), None);
    let protected = declared("#[catga(policy(\"orders.write\"))] struct PolicyProtected;").options;
    assert!(protected.is_authorized());
    assert!(protected.roles().is_empty());
    assert_eq!(protected.policy(), Some("orders.write"));
    let full = declared(
        "#[catga(authorize, roles(\"operator\", \"auditor\"), policy(\"orders.read\"))]
         struct FullyProtected;",
    )
    .options;
    assert_eq!(*full.roles(), ["operator", "auditor"]);
    assert_eq!(full.policy(), Some("orders.read"));
    assert!(!declared("struct DefaultMessage;").options.is_authorized());

    let batched = declared(
        "#[catga(
            batch_key = \"tenant\",
            batch(
                max_batch_size = 8,
                timeout_ms = 12,
                max_queue_length = 32,
                max_shards = 4,
                flush_concurrency = 2
            )
        )]
        struct Batched {
            tenant: u64,
        }",
    )
    .options;
    assert_eq!(batched.batch_key(), Some("tenant"));
    assert_eq!(
        batched.batch(),
        Some(BatchSettings {
            max_batch_size: Some(8),
            timeout_ms: Some(12),
            max_queue_length: Some(32),
            max_shards: Some(4),
            flush_concurrency: Some(2),
        })
    );
}

fn tags_of(source: &str, value: impl Fn(&str) -> &'static str) -> Vec<(String, String)> {
    declared(source)
        .tags
        .iter()
        .map(|tag| (tag.name.clone(), value(&tag.field).to_owned()))
        .collect()
}

#[test]
fn message_expansion_respects_explicit_and_bulk_trace_tags() {
    let message = |field: &str| match field {
        "id" => "9",
        "region" => "cn-north-1",
        "secret" => "do-not-export",
        _ => "44",
    };
    let traced = "#[catga(trace_tags(prefix = \"request.\", exclude = [\"secret\"]))]
        struct Traced {
            pub id: u64,
            pub region: &'static str,
            secret: &'static str,
            #[catga(trace_tag = \"request.explicit\")]
            pub account: u64,
        }";
    assert_eq!(
        tags_of(traced, message),
        [
            ("request.explicit".to_owned(), "44".to_owned()),
            ("request.id".to_owned(), "9".to_owned()),
            ("request.region".to_owned(), "cn-north-1".to_owned()),
        ]
    );
    assert_eq!(message("secret"), "do-not-export");

    let included = "#[catga(trace_tags(
            prefix = \"included.\",
            include = [\"public\", \"private\"],
            exclude = [\"private\"],
            all_public = false
        ))]
        struct IncludedTraceTags {
            pub public: u64,
            private: u64,
        }";
    assert_eq!(
        tags_of(included, |field| if field == "public" { "5" } else { "6" }),
        [("included.public".to_owned(), "5".to_owned())]
    );

    let without = "#[catga(trace_tags(all_public = false))] struct NoTraceTags { value: u64, }";
    assert!(tags_of(without, |_| "7").is_empty());
}

#[test]
fn message_attributes_may_stand_among_others() {
    let source = "/// An order.
        #[derive(Clone)]
        #[catga(version = 0x10, roles(\"clerk\",),)]
        #[catga::other(version = 3)]
        #[catga(roles(\"line\\nfeed\", r\"raw\"))]
        #[catga()]
        pub struct Order {
            #[serde(default)]
            #[catga(trace_tag)]
            number: u64,
            pub(crate) note: String,
        }";
    let order = declared(source);
    assert_eq!(order.options.schema_version(), 16);
    assert_eq!(*order.options.roles(), ["clerk", "line\nfeed", "raw"]);
    assert_eq!(
        tags_of(source, |_| "1"),
        [("catga.message.number".to_owned(), "1".to_owned())]
    );
    let bulk = "#[catga(trace_tags())] struct Bulk { pub(crate) hidden: u8, pub shown: u8 }";
    assert_eq!(
        tags_of(bulk, |_| "1"),
        [("catga.message.shown".to_owned(), "1".to_owned())]
    );
    assert!(declared("#[catga(roles())] struct Any;").options.is_authorized());
    for (source, expected) in [
        ("#[catga] struct M;", "expected options in round brackets"),
        ("#[catga = 1] struct M;", "expected options in round brackets"),
        ("#[catga(version)] struct M;", "expected `=` and an integer"),
        ("#[catga(version = )] struct M;", "expected a value"),
        ("#[catga(version = 1 priority = low)] struct M;", "expected `,`"),
        ("#[catga(authorize(\"x\"))] struct M;", "`authorize` takes no argument"),
        ("#[catga(roles = \"x\")] struct M;", "expected roles in round brackets"),
        ("#[catga(roles(\"x\" \"y\"))] struct M;", "expected `,`"),
        ("#[catga(policy)] struct M;", "expected a policy in round brackets"),
        ("#[catga(policy(\"x\", \"y\"))] struct M;", "expected one policy"),
        ("#[catga(batch = 1)] struct M;", "expected options in round brackets"),
        ("#[catga(trace_tags)] struct M;", "expected options in round brackets"),
        ("#[catga(trace_tags(), trace_tags())] struct M;", "duplicate `trace_tags`"),
        ("struct M { #[catga(trace_tag(\"x\"))] value: u8 }", "expected `=` and a string"),
    ] {
        assert_eq!(expand_message(source).expect_err(source), expected, "{source}");
    }
}

fn token(text: &str) -> Token {
    Token { text: text.to_owned(), joint: false }
}

fn written(tokens: &[&str]) -> Vec<Token> {
    tokens.iter().map(|text| token(text)).collect()
}

fn entry(name: &str, argument: OptionArgument) -> OptionEntry {
    OptionEntry { name: name.to_owned(), argument }
}

fn value(text: &str) -> OptionArgument {
    OptionArgument::Value(text.to_owned())
}

#[test]
fn options_are_read_from_tokens() {
    let entries = read_entries(&written(&["authorize", ",", "version", "=", "7", ",", "roles", "(a)"]))
        .expect("three options");
    assert_eq!(entries.len(), 3);
    assert!(matches!(entries[0].argument, OptionArgument::Absent));
    assert!(matches!(&entries[1].argument, OptionArgument::Value(text) if text == "7"));
    assert!(matches!(&entries[2].argument, OptionArgument::List(text) if text == "a"));
    assert_eq!(read_entries(&written(&["a", "b"])).expect_err("no comma"), "expected `,`");
    assert_eq!(
        read_strings(&written(&["\"a\"", ",", "\"b\""])).expect("two strings"),
        ["a", "b"]
    );
    assert!(read_strings(&written(&["1"])).is_err());
    let attributes = read_message_attribute(&written(&["authorize", ",", "priority", "=", "low"]))
        .expect("two options");
    assert!(matches!(attributes[0], MessageAttribute::Authorize));
    assert!(matches!(&attributes[1], MessageAttribute::Priority(word) if word == "low"));
    let numbers = read_numbers(&vec![entry("max_shards", value("4"))]).expect("one number");
    assert_eq!(numbers, [("max_shards".to_owned(), 4)]);
    assert!(read_numbers(&vec![entry("max_shards", OptionArgument::Absent)]).is_err());
    assert!(read_attribute(&entry("version", value("18446744073709551616"))).is_err());
    assert!(matches!(
        read_attribute(&entry("version", value("18446744073709551615"))),
        Ok(MessageAttribute::Version(u64::MAX))
    ));
    let traced = read_trace_options(&vec![entry("all_public", value("false"))]).expect("an option");
    assert!(!traced.all_public);
    assert!(read_trace_options(&vec![]).expect("no option").all_public);
    assert_eq!(
        read_own_arguments(&written(&["catga", "(authorize)"])).expect("options"),
        Some("authorize".to_owned())
    );
    assert_eq!(read_own_arguments(&written(&["doc", "=", "\"x\""])).expect("another"), None);
    let field = mark_field("id", true, &vec![entry("trace_tag", value("\"order.id\""))])
        .expect("a marked field");
    assert!(matches!(field.tag, FieldTag::Named(name) if name == "order.id"));
}

#[test]
fn a_malformed_attribute_is_rejected_wherever_it_stands() {
    let item = |attributes: &[&str], marks: &[&str]| MessageItem {
        attributes: texts(attributes),
        fields: vec![MessageField {
            name: "id".to_owned(),
            is_public: true,
            attributes: texts(marks),
        }],
    };
    assert!(declare_item(&item(&["catga (authorize)", "catga (version = 2)"], &[])).is_ok());
    assert!(declare_item(&item(&["catga (unknown)", "catga (version = 2)"], &[])).is_err());
    assert!(declare_item(&item(&["catga (authorize)", "catga (unknown)"], &[])).is_err());
    assert!(declare_item(&item(&["catga (authorize , unknown)"], &[])).is_err());
    assert!(declare_item(&item(&[], &["catga (trace_tag)", "catga (trace_tag)"])).is_err());
    assert_eq!(
        declare_message(&vec![MessageAttribute::Version(0)], &vec![]).expect_err("version zero"),
        MessageOptionError::ZeroVersion.message()
    );
}
