//! Options of message types: version, priority, authorization, batching and trace tags.

use vstd::prelude::*;

use crate::error;
use crate::text::{join, same_text};

verus! {

/// Why the options of a message type are rejected.
#[derive(Clone, Copy, Debug, PartialEq, Eq, Structural)]
pub enum MessageOptionError {
    /// The version is zero.
    ZeroVersion,
    /// The version is given twice.
    DuplicateVersion,
    /// The priority is none of the four.
    UnknownPriority,
    /// The priority is given twice.
    DuplicatePriority,
    /// The policy is given twice.
    DuplicatePolicy,
    /// Batching is configured twice.
    DuplicateBatch,
    /// A batching option has another name than the five.
    UnknownBatchOption,
    /// A batching option is given twice.
    DuplicateBatchOption,
    /// A batching option is zero.
    ZeroBatchOption,
    /// The batch key is given twice.
    DuplicateBatchKey,
    /// The batch key is empty.
    EmptyBatchKey,
    /// The batch key names no field of the message.
    MissingBatchKey,
    /// Trace tags are configured twice.
    DuplicateTraceTags,
    /// The prefix of trace tags is empty.
    EmptyTracePrefix,
    /// The name of a trace tag is empty.
    EmptyTraceTag,
    /// The name of a field to trace, or not to trace, is empty.
    EmptyTraceField,
}

/// What the compiler reports of rejected options.
pub open spec fn failure_text(failure: MessageOptionError) -> Seq<char> {
    match failure {
        MessageOptionError::ZeroVersion => "`version` must be positive"@,
        MessageOptionError::DuplicateVersion => "duplicate `version`"@,
        MessageOptionError::UnknownPriority =>
            "`priority` must be `low`, `normal`, `high`, or `critical`"@,
        MessageOptionError::DuplicatePriority => "duplicate `priority`"@,
        MessageOptionError::DuplicatePolicy => "duplicate `policy`"@,
        MessageOptionError::DuplicateBatch => "duplicate `batch`"@,
        MessageOptionError::UnknownBatchOption => "unknown `batch` option"@,
        MessageOptionError::DuplicateBatchOption => "duplicate `batch` option"@,
        MessageOptionError::ZeroBatchOption => "`batch` options must be positive"@,
        MessageOptionError::DuplicateBatchKey => "duplicate `batch_key`"@,
        MessageOptionError::EmptyBatchKey => "`batch_key` must not be empty"@,
        MessageOptionError::MissingBatchKey => "`batch_key` must name a field"@,
        MessageOptionError::DuplicateTraceTags => "duplicate `trace_tags`"@,
        MessageOptionError::EmptyTracePrefix => "`prefix` must not be empty"@,
        MessageOptionError::EmptyTraceTag => "`trace_tag` must not be empty"@,
        MessageOptionError::EmptyTraceField => "the name of a field must not be empty"@,
    }
}

impl MessageOptionError {
    /// Returns what the compiler reports.
    pub fn message(self) -> (result: &'static str)
        ensures
            result@ == failure_text(self),
    {
        match self {
            MessageOptionError::ZeroVersion => "`version` must be positive",
            MessageOptionError::DuplicateVersion => "duplicate `version`",
            MessageOptionError::UnknownPriority =>
                "`priority` must be `low`, `normal`, `high`, or `critical`",
            MessageOptionError::DuplicatePriority => "duplicate `priority`",
            MessageOptionError::DuplicatePolicy => "duplicate `policy`",
            MessageOptionError::DuplicateBatch => "duplicate `batch`",
            MessageOptionError::UnknownBatchOption => "unknown `batch` option",
            MessageOptionError::DuplicateBatchOption => "duplicate `batch` option",
            MessageOptionError::ZeroBatchOption => "`batch` options must be positive",
            MessageOptionError::DuplicateBatchKey => "duplicate `batch_key`",
            MessageOptionError::EmptyBatchKey => "`batch_key` must not be empty",
            MessageOptionError::MissingBatchKey => "`batch_key` must name a field",
            MessageOptionError::DuplicateTraceTags => "duplicate `trace_tags`",
            MessageOptionError::EmptyTracePrefix => "`prefix` must not be empty",
            MessageOptionError::EmptyTraceTag => "`trace_tag` must not be empty",
            MessageOptionError::EmptyTraceField => "the name of a field must not be empty",
        }
    }
}

/// Transport priority of a message.
#[derive(Clone, Copy, Debug, PartialEq, Eq, Structural)]
pub enum MessagePriority {
    /// Behind the others.
    Low,
    /// The usual one.
    Normal,
    /// Ahead of the usual one.
    High,
    /// Ahead of the others.
    Critical,
}

/// The priority that a word names.
pub open spec fn priority_named(word: Seq<char>) -> Option<MessagePriority> {
    if word == "low"@ {
        Some(MessagePriority::Low)
    } else if word == "normal"@ {
        Some(MessagePriority::Normal)
    } else if word == "high"@ {
        Some(MessagePriority::High)
    } else if word == "critical"@ {
        Some(MessagePriority::Critical)
    } else {
        None
    }
}

fn read_priority(word: &str) -> (result: Option<MessagePriority>)
    ensures
        result == priority_named(word@),
{
    if same_text(word, "low") {
        Some(MessagePriority::Low)
    } else if same_text(word, "normal") {
        Some(MessagePriority::Normal)
    } else if same_text(word, "high") {
        Some(MessagePriority::High)
    } else if same_text(word, "critical") {
        Some(MessagePriority::Critical)
    } else {
        None
    }
}

/// Batching of a message type; an option that is not given is left to the transport.
#[derive(Clone, Copy, Debug, PartialEq, Eq, Structural)]
pub struct BatchSettings {
    /// The most messages of one batch.
    pub max_batch_size: Option<u64>,
    /// How long a batch waits for more messages, in milliseconds.
    pub timeout_ms: Option<u64>,
    /// The most messages that wait.
    pub max_queue_length: Option<u64>,
    /// The most shards.
    pub max_shards: Option<u64>,
    /// The most batches that are flushed at once.
    pub flush_concurrency: Option<u64>,
}

/// Batching without any option.
pub open spec fn no_batch_settings() -> BatchSettings {
    BatchSettings {
        max_batch_size: None,
        timeout_ms: None,
        max_queue_length: None,
        max_shards: None,
        flush_concurrency: None,
    }
}

/// A batching option that may be given once, as a positive number.
pub open spec fn given_once(present: Option<u64>, value: u64) -> Result<
    Option<u64>,
    MessageOptionError,
> {
    if value == 0 {
        Err(MessageOptionError::ZeroBatchOption)
    } else if present is Some {
        Err(MessageOptionError::DuplicateBatchOption)
    } else {
        Ok(Some(value))
    }
}

/// Batching with one more option.
pub open spec fn with_batch_option(
    settings: BatchSettings,
    name: Seq<char>,
    value: u64,
) -> Result<BatchSettings, MessageOptionError> {
    if name == "max_batch_size"@ {
        match given_once(settings.max_batch_size, value) {
            Ok(max_batch_size) => Ok(BatchSettings { max_batch_size, ..settings }),
            Err(failure) => Err(failure),
        }
    } else if name == "timeout_ms"@ {
        match given_once(settings.timeout_ms, value) {
            Ok(timeout_ms) => Ok(BatchSettings { timeout_ms, ..settings }),
            Err(failure) => Err(failure),
        }
    } else if name == "max_queue_length"@ {
        match given_once(settings.max_queue_length, value) {
            Ok(max_queue_length) => Ok(BatchSettings { max_queue_length, ..settings }),
            Err(failure) => Err(failure),
        }
    } else if name == "max_shards"@ {
        match given_once(settings.max_shards, value) {
            Ok(max_shards) => Ok(BatchSettings { max_shards, ..settings }),
            Err(failure) => Err(failure),
        }
    } else if name == "flush_concurrency"@ {
        match given_once(settings.flush_concurrency, value) {
            Ok(flush_concurrency) => Ok(BatchSettings { flush_concurrency, ..settings }),
            Err(failure) => Err(failure),
        }
    } else {
        Err(MessageOptionError::UnknownBatchOption)
    }
}

/// Batching with some options, in their order, or what is wrong with the first that is wrong.
pub open spec fn batch_settings(options: Seq<(Seq<char>, u64)>) -> Result<
    BatchSettings,
    MessageOptionError,
>
    decreases options.len(),
{
    if options.len() == 0 {
        Ok(no_batch_settings())
    } else {
        match batch_settings(options.drop_last()) {
            Ok(settings) => with_batch_option(settings, options.last().0, options.last().1),
            Err(failure) => Err(failure),
        }
    }
}

fn once(present: Option<u64>, value: u64) -> (result: Result<Option<u64>, MessageOptionError>)
    ensures
        result == given_once(present, value),
{
    if value == 0 {
        Err(MessageOptionError::ZeroBatchOption)
    } else if present.is_some() {
        Err(MessageOptionError::DuplicateBatchOption)
    } else {
        Ok(Some(value))
    }
}

fn apply_batch_option(settings: BatchSettings, name: &str, value: u64) -> (result: Result<
    BatchSettings,
    MessageOptionError,
>)
    ensures
        result == with_batch_option(settings, name@, value),
{
    if same_text(name, "max_batch_size") {
        match once(settings.max_batch_size, value) {
            Ok(max_batch_size) => Ok(BatchSettings { max_batch_size, ..settings }),
            Err(failure) => Err(failure),
        }
    } else if same_text(name, "timeout_ms") {
        match once(settings.timeout_ms, value) {
            Ok(timeout_ms) => Ok(BatchSettings { timeout_ms, ..settings }),
            Err(failure) => Err(failure),
        }
    } else if same_text(name, "max_queue_length") {
        match once(settings.max_queue_length, value) {
            Ok(max_queue_length) => Ok(BatchSettings { max_queue_length, ..settings }),
            Err(failure) => Err(failure),
        }
    } else if same_text(name, "max_shards") {
        match once(settings.max_shards, value) {
            Ok(max_shards) => Ok(BatchSettings { max_shards, ..settings }),
            Err(failure) => Err(failure),
        }
    } else if same_text(name, "flush_concurrency") {
        match once(settings.flush_concurrency, value) {
            Ok(flush_concurrency) => Ok(BatchSettings { flush_concurrency, ..settings }),
            Err(failure) => Err(failure),
        }
    } else {
        Err(MessageOptionError::UnknownBatchOption)
    }
}

/// The views of named numbers.
pub open spec fn named_numbers(options: Seq<(String, u64)>) -> Seq<(Seq<char>, u64)> {
    options.map_values(|option: (String, u64)| (option.0@, option.1))
}

proof fn lemma_batch_failure_remains(options: Seq<(Seq<char>, u64)>, count: int)
    requires
        0 <= count <= options.len(),
        batch_settings(options.take(count)) is Err,
    ensures
        batch_settings(options) == batch_settings(options.take(count)),
    decreases options.len() - count,
{
    if count < options.len() {
        assert(options.take(count + 1).drop_last() =~= options.take(count));
        lemma_batch_failure_remains(options, count + 1);
    } else {
        assert(options.take(count) =~= options);
    }
}

fn read_batch(options: &Vec<(String, u64)>) -> (result: Result<BatchSettings, MessageOptionError>)
    ensures
        result == batch_settings(named_numbers(options@)),
{
    let ghost model = named_numbers(options@);
    let mut settings: BatchSettings = BatchSettings {
        max_batch_size: None,
        timeout_ms: None,
        max_queue_length: None,
        max_shards: None,
        flush_concurrency: None,
    };
    let mut index: usize = 0;
    assert(model.take(0) =~= Seq::empty());
    while index < options.len()
        invariant
            index <= options@.len(),
            model == named_numbers(options@),
            batch_settings(model.take(index as int)) == Ok::<BatchSettings, MessageOptionError>(
                settings,
            ),
        decreases options@.len() - index,
    {
        proof {
            let next = model.take(index + 1);
            assert(next.drop_last() =~= model.take(index as int));
            assert(next.last() == (options@[index as int].0@, options@[index as int].1));
        }
        match apply_batch_option(settings, options[index].0.as_str(), options[index].1) {
            Ok(changed) => {
                settings = changed;
            },
            Err(failure) => {
                proof {
                    lemma_batch_failure_remains(model, index + 1);
                }
                return Err(failure);
            },
        }
        index = index + 1;
    }
    assert(model.take(index as int) =~= model);
    Ok(settings)
}

/// One option in the attributes of a message type.
#[derive(Debug)]
pub enum MessageAttribute {
    /// `version = 7`
    Version(u64),
    /// `priority = high`
    Priority(String),
    /// `authorize`
    Authorize,
    /// `roles("operator", "auditor")`
    Roles(Vec<String>),
    /// `policy("orders.read")`
    Policy(String),
    /// `batch_key = "tenant"`
    BatchKey(String),
    /// `batch(max_batch_size = 8, timeout_ms = 12)`
    Batch(Vec<(String, u64)>),
    /// `trace_tags(prefix = "orders.", all_public = false)`
    TraceTags(TraceTagOptions),
}

/// Mathematical model of a [`MessageAttribute`].
pub enum MessageAttributeView {
    Version(u64),
    Priority(Seq<char>),
    Authorize,
    Roles(Seq<Seq<char>>),
    Policy(Seq<char>),
    BatchKey(Seq<char>),
    Batch(Seq<(Seq<char>, u64)>),
    TraceTags(TraceTagOptionsView),
}

impl View for MessageAttribute {
    type V = MessageAttributeView;

    open spec fn view(&self) -> MessageAttributeView {
        match self {
            MessageAttribute::Version(version) => MessageAttributeView::Version(*version),
            MessageAttribute::Priority(word) => MessageAttributeView::Priority(word@),
            MessageAttribute::Authorize => MessageAttributeView::Authorize,
            MessageAttribute::Roles(roles) => MessageAttributeView::Roles(roles.deep_view()),
            MessageAttribute::Policy(policy) => MessageAttributeView::Policy(policy@),
            MessageAttribute::BatchKey(key) => MessageAttributeView::BatchKey(key@),
            MessageAttribute::Batch(options) => MessageAttributeView::Batch(
                named_numbers(options@),
            ),
            MessageAttribute::TraceTags(options) => MessageAttributeView::TraceTags(options@),
        }
    }
}

impl DeepView for MessageAttribute {
    type V = MessageAttributeView;

    open spec fn deep_view(&self) -> MessageAttributeView {
        self@
    }
}

/// The options of a message type.
#[derive(Debug)]
pub struct MessageOptions {
    version: Option<u64>,
    priority: Option<MessagePriority>,
    authorize: bool,
    roles: Vec<String>,
    policy: Option<String>,
    batch_key: Option<String>,
    batch: Option<BatchSettings>,
    trace_tags: Option<TraceTagOptions>,
}

/// Mathematical model of [`MessageOptions`].
pub struct MessageOptionsView {
    pub version: Option<u64>,
    pub priority: Option<MessagePriority>,
    pub authorize: bool,
    pub roles: Seq<Seq<char>>,
    pub policy: Option<Seq<char>>,
    pub batch_key: Option<Seq<char>>,
    pub batch: Option<BatchSettings>,
    pub trace_tags: Option<TraceTagOptionsView>,
}

impl View for MessageOptions {
    type V = MessageOptionsView;

    closed spec fn view(&self) -> MessageOptionsView {
        MessageOptionsView {
            version: self.version,
            priority: self.priority,
            authorize: self.authorize,
            roles: self.roles.deep_view(),
            policy: error::text_option(self.policy),
            batch_key: error::text_option(self.batch_key),
            batch: self.batch,
            trace_tags: trace_options_view(self.trace_tags),
        }
    }
}

/// The options of a message type without attributes.
pub open spec fn default_options() -> MessageOptionsView {
    MessageOptionsView {
        version: None,
        priority: None,
        authorize: false,
        roles: Seq::empty(),
        policy: None,
        batch_key: None,
        batch: None,
        trace_tags: None,
    }
}

/// Options with one more attribute.
pub open spec fn with_attribute(
    options: MessageOptionsView,
    attribute: MessageAttributeView,
) -> Result<MessageOptionsView, MessageOptionError> {
    match attribute {
        MessageAttributeView::Version(version) => if options.version is Some {
            Err(MessageOptionError::DuplicateVersion)
        } else if version == 0 {
            Err(MessageOptionError::ZeroVersion)
        } else {
            Ok(MessageOptionsView { version: Some(version), ..options })
        },
        MessageAttributeView::Priority(word) => if options.priority is Some {
            Err(MessageOptionError::DuplicatePriority)
        } else {
            match priority_named(word) {
                Some(priority) => Ok(
                    MessageOptionsView { priority: Some(priority), ..options },
                ),
                None => Err(MessageOptionError::UnknownPriority),
            }
        },
        MessageAttributeView::Authorize => Ok(MessageOptionsView { authorize: true, ..options }),
        MessageAttributeView::Roles(roles) => Ok(
            MessageOptionsView { authorize: true, roles: options.roles + roles, ..options },
        ),
        MessageAttributeView::Policy(policy) => if options.policy is Some {
            Err(MessageOptionError::DuplicatePolicy)
        } else {
            Ok(MessageOptionsView { policy: Some(policy), ..options })
        },
        MessageAttributeView::BatchKey(key) => if options.batch_key is Some {
            Err(MessageOptionError::DuplicateBatchKey)
        } else if key.len() == 0 {
            Err(MessageOptionError::EmptyBatchKey)
        } else {
            Ok(MessageOptionsView { batch_key: Some(key), ..options })
        },
        MessageAttributeView::Batch(entries) => if options.batch is Some {
            Err(MessageOptionError::DuplicateBatch)
        } else {
            match batch_settings(entries) {
                Ok(batch) => Ok(MessageOptionsView { batch: Some(batch), ..options }),
                Err(failure) => Err(failure),
            }
        },
        MessageAttributeView::TraceTags(entries) => if options.trace_tags is Some {
            Err(MessageOptionError::DuplicateTraceTags)
        } else {
            Ok(MessageOptionsView { trace_tags: Some(entries), ..options })
        },
    }
}

/// Options with some attributes, in their order, or what is wrong with the first that is wrong.
pub open spec fn with_attributes(attributes: Seq<MessageAttributeView>) -> Result<
    MessageOptionsView,
    MessageOptionError,
>
    decreases attributes.len(),
{
    if attributes.len() == 0 {
        Ok(default_options())
    } else {
        match with_attributes(attributes.drop_last()) {
            Ok(options) => with_attribute(options, attributes.last()),
            Err(failure) => Err(failure),
        }
    }
}

/// The options that attributes give a message with named fields; the batch key must be one of
/// them.
pub open spec fn message_options(
    attributes: Seq<MessageAttributeView>,
    fields: Seq<Seq<char>>,
) -> Result<MessageOptionsView, MessageOptionError> {
    match with_attributes(attributes) {
        Err(failure) => Err(failure),
        Ok(options) => match options.batch_key {
            Some(key) => if fields.contains(key) {
                Ok(options)
            } else {
                Err(MessageOptionError::MissingBatchKey)
            },
            None => Ok(options),
        },
    }
}

proof fn lemma_attribute_failure_remains(attributes: Seq<MessageAttributeView>, count: int)
    requires
        0 <= count <= attributes.len(),
        with_attributes(attributes.take(count)) is Err,
    ensures
        with_attributes(attributes) == with_attributes(attributes.take(count)),
    decreases attributes.len() - count,
{
    if count < attributes.len() {
        assert(attributes.take(count + 1).drop_last() =~= attributes.take(count));
        lemma_attribute_failure_remains(attributes, count + 1);
    } else {
        assert(attributes.take(count) =~= attributes);
    }
}

/// Whether a text is one of several.
pub fn contains_text(texts: &Vec<String>, wanted: &str) -> (result: bool)
    ensures
        result == texts.deep_view().contains(wanted@),
{
    let ghost model = texts.deep_view();
    let mut index: usize = 0;
    while index < texts.len()
        invariant
            index <= texts@.len(),
            model == texts.deep_view(),
            forall|i: int| 0 <= i < index ==> #[trigger] model[i] != wanted@,
        decreases texts@.len() - index,
    {
        assert(model[index as int] == texts@[index as int]@);
        if same_text(texts[index].as_str(), wanted) {
            assert(model.contains(wanted@));
            return true;
        }
        index = index + 1;
    }
    false
}

impl MessageOptions {
    fn with_attribute(self, attribute: &MessageAttribute) -> (result: Result<
        Self,
        MessageOptionError,
    >)
        ensures
            match result {
                Ok(options) => with_attribute(self@, attribute@) == Ok::<
                    MessageOptionsView,
                    MessageOptionError,
                >(options@),
                Err(failure) => with_attribute(self@, attribute@) == Err::<
                    MessageOptionsView,
                    MessageOptionError,
                >(failure),
            },
    {
        match attribute {
            MessageAttribute::Version(version) => {
                if self.version.is_some() {
                    Err(MessageOptionError::DuplicateVersion)
                } else if *version == 0 {
                    Err(MessageOptionError::ZeroVersion)
                } else {
                    Ok(MessageOptions { version: Some(*version), ..self })
                }
            },
            MessageAttribute::Priority(word) => {
                if self.priority.is_some() {
                    return Err(MessageOptionError::DuplicatePriority);
                }
                match read_priority(word.as_str()) {
                    Some(priority) => Ok(MessageOptions { priority: Some(priority), ..self }),
                    None => Err(MessageOptionError::UnknownPriority),
                }
            },
            MessageAttribute::Authorize => Ok(MessageOptions { authorize: true, ..self }),
            MessageAttribute::Roles(roles) => {
                let mut all: Vec<String> = self.roles;
                let ghost before = all.deep_view();
                let mut index: usize = 0;
                assert(before + roles.deep_view().take(0) =~= before);
                while index < roles.len()
                    invariant
                        index <= roles@.len(),
                        all.deep_view() == before + roles.deep_view().take(index as int),
                    decreases roles@.len() - index,
                {
                    let ghost sofar = all.deep_view();
                    let role: String = roles[index].clone();
                    all.push(role);
                    proof {
                        assert(all.deep_view() =~= sofar.push(role@));
                        assert(roles.deep_view().take(index + 1) =~= roles.deep_view().take(
                            index as int,
                        ).push(role@));
                        assert(sofar.push(role@) =~= before + roles.deep_view().take(index + 1));
                    }
                    index = index + 1;
                }
                assert(roles.deep_view().take(index as int) =~= roles.deep_view());
                Ok(
                    MessageOptions {
                        version: self.version,
                        priority: self.priority,
                        authorize: true,
                        roles: all,
                        policy: self.policy,
                        batch_key: self.batch_key,
                        batch: self.batch,
                        trace_tags: self.trace_tags,
                    },
                )
            },
            MessageAttribute::Policy(policy) => {
                if self.policy.is_some() {
                    Err(MessageOptionError::DuplicatePolicy)
                } else {
                    Ok(MessageOptions { policy: Some(policy.clone()), ..self })
                }
            },
            MessageAttribute::BatchKey(key) => {
                if self.batch_key.is_some() {
                    Err(MessageOptionError::DuplicateBatchKey)
                } else if is_empty(key.as_str()) {
                    Err(MessageOptionError::EmptyBatchKey)
                } else {
                    Ok(MessageOptions { batch_key: Some(key.clone()), ..self })
                }
            },
            MessageAttribute::Batch(entries) => {
                if self.batch.is_some() {
                    return Err(MessageOptionError::DuplicateBatch);
                }
                match read_batch(entries) {
                    Ok(batch) => Ok(MessageOptions { batch: Some(batch), ..self }),
                    Err(failure) => Err(failure),
                }
            },
            MessageAttribute::TraceTags(entries) => {
                if self.trace_tags.is_some() {
                    Err(MessageOptionError::DuplicateTraceTags)
                } else {
                    Ok(MessageOptions { trace_tags: Some(entries.copy()), ..self })
                }
            },
        }
    }

    /// Reads the options that attributes give a message with named fields.
    pub fn read(attributes: &Vec<MessageAttribute>, fields: &Vec<String>) -> (result: Result<
        Self,
        MessageOptionError,
    >)
        ensures
            match result {
                Ok(options) => message_options(attributes.deep_view(), fields.deep_view()) == Ok::<
                    MessageOptionsView,
                    MessageOptionError,
                >(options@),
                Err(failure) => message_options(attributes.deep_view(), fields.deep_view())
                    == Err::<MessageOptionsView, MessageOptionError>(failure),
            },
    {
        let ghost model = attributes.deep_view();
        let mut options: MessageOptions = MessageOptions {
            version: None,
            priority: None,
            authorize: false,
            roles: Vec::new(),
            policy: None,
            batch_key: None,
            batch: None,
            trace_tags: None,
        };
        let mut index: usize = 0;
        assert(model.take(0) =~= Seq::empty());
        assert(options.roles.deep_view() =~= Seq::empty());
        while index < attributes.len()
            invariant
                index <= attributes@.len(),
                model == attributes.deep_view(),
                with_attributes(model.take(index as int)) == Ok::<
                    MessageOptionsView,
                    MessageOptionError,
                >(options@),
            decreases attributes@.len() - index,
        {
            proof {
                let next = model.take(index + 1);
                assert(next.drop_last() =~= model.take(index as int));
                assert(next.last() == attributes@[index as int]@);
            }
            match options.with_attribute(&attributes[index]) {
                Ok(changed) => {
                    options = changed;
                },
                Err(failure) => {
                    proof {
                        lemma_attribute_failure_remains(model, index + 1);
                    }
                    return Err(failure);
                },
            }
            index = index + 1;
        }
        assert(model.take(index as int) =~= model);
        let missing: bool = match &options.batch_key {
            Some(key) => !contains_text(fields, key.as_str()),
            None => false,
        };
        if missing {
            Err(MessageOptionError::MissingBatchKey)
        } else {
            Ok(options)
        }
    }

    /// Returns the version of the message schema; it is 1 where none is given.
    pub fn schema_version(&self) -> (result: u64)
        ensures
            result == match self@.version {
                Some(version) => version,
                None => 1,
            },
    {
        match self.version {
            Some(version) => version,
            None => 1,
        }
    }

    /// Returns the priority, where one is given.
    pub fn priority(&self) -> (result: Option<MessagePriority>)
        ensures
            result == self@.priority,
    {
        self.priority
    }

    /// Returns whether the message asks for authorization: by the word, by a role or by a policy.
    pub fn is_authorized(&self) -> (result: bool)
        ensures
            result == (self@.authorize || self@.roles.len() > 0 || self@.policy is Some),
    {
        self.authorize || self.roles.len() > 0 || self.policy.is_some()
    }

    /// Returns the roles that may send the message.
    pub fn roles(&self) -> (result: &Vec<String>)
        ensures
            result.deep_view() == self@.roles,
    {
        &self.roles
    }

    /// Returns the policy that decides who may send the message, where one is given.
    pub fn policy(&self) -> (result: Option<&str>)
        ensures
            match (result, self@.policy) {
                (Some(text), Some(policy)) => text@ == policy,
                (None, None) => true,
                _ => false,
            },
    {
        match &self.policy {
            Some(policy) => Some(policy.as_str()),
            None => None,
        }
    }

    /// Returns the field by which messages are batched, where one is given.
    pub fn batch_key(&self) -> (result: Option<&str>)
        ensures
            match (result, self@.batch_key) {
                (Some(text), Some(key)) => text@ == key,
                (None, None) => true,
                _ => false,
            },
    {
        match &self.batch_key {
            Some(key) => Some(key.as_str()),
            None => None,
        }
    }

    /// Returns the batching options, where any are given.
    pub fn batch(&self) -> (result: Option<BatchSettings>)
        ensures
            result == self@.batch,
    {
        self.batch
    }

    /// Returns which fields are traced without being marked, where the message says it.
    pub fn trace_tags(&self) -> (result: &Option<TraceTagOptions>)
        ensures
            trace_options_view(*result) == self@.trace_tags,
    {
        &self.trace_tags
    }
}

fn is_empty(value: &str) -> (result: bool)
    ensures
        result == (value@.len() == 0),
{
    proof {
        reveal_strlit("");
    }
    let result: bool = same_text(value, "");
    assert(value@.len() == 0 ==> value@ =~= ""@);
    result
}

/// How a field is marked for tracing.
#[derive(Debug)]
pub enum FieldTag {
    /// It is not marked.
    Unmarked,
    /// `trace_tag`
    Default,
    /// `trace_tag = "name"`
    Named(String),
}

/// A named field of a message.
#[derive(Debug)]
pub struct TraceField {
    /// The name of the field.
    pub name: String,
    /// Whether the field is public.
    pub is_public: bool,
    /// How the field is marked.
    pub tag: FieldTag,
}

/// Mathematical model of a [`TraceField`]: the tag that it is marked with is its name.
pub struct TraceFieldView {
    pub name: Seq<char>,
    pub is_public: bool,
    pub tag: Option<Seq<char>>,
}

impl View for TraceField {
    type V = TraceFieldView;

    open spec fn view(&self) -> TraceFieldView {
        TraceFieldView {
            name: self.name@,
            is_public: self.is_public,
            tag: match self.tag {
                FieldTag::Unmarked => None,
                FieldTag::Default => Some("catga.message."@ + self.name@),
                FieldTag::Named(name) => Some(name@),
            },
        }
    }
}

impl DeepView for TraceField {
    type V = TraceFieldView;

    open spec fn deep_view(&self) -> TraceFieldView {
        self@
    }
}

/// Which fields of a message are traced without being marked.
#[derive(Debug)]
pub struct TraceTagOptions {
    /// What stands in front of the name of a field; `catga.message.` where none is given.
    pub prefix: Option<String>,
    /// The fields to trace; the public ones where none are given.
    pub included: Option<Vec<String>>,
    /// The fields not to trace.
    pub excluded: Vec<String>,
    /// Whether the public fields are traced where none are named.
    pub all_public: bool,
}

/// Mathematical model of [`TraceTagOptions`].
pub struct TraceTagOptionsView {
    pub prefix: Option<Seq<char>>,
    pub included: Option<Seq<Seq<char>>>,
    pub excluded: Seq<Seq<char>>,
    pub all_public: bool,
}

impl View for TraceTagOptions {
    type V = TraceTagOptionsView;

    open spec fn view(&self) -> TraceTagOptionsView {
        TraceTagOptionsView {
            prefix: error::text_option(self.prefix),
            included: match self.included {
                Some(names) => Some(names.deep_view()),
                None => None,
            },
            excluded: self.excluded.deep_view(),
            all_public: self.all_public,
        }
    }
}

/// The model of trace options that may not be given.
pub open spec fn trace_options_view(options: Option<TraceTagOptions>) -> Option<
    TraceTagOptionsView,
> {
    match options {
        Some(options) => Some(options@),
        None => None,
    }
}

fn copy_texts(texts: &Vec<String>) -> (result: Vec<String>)
    ensures
        result.deep_view() == texts.deep_view(),
{
    let mut result: Vec<String> = Vec::new();
    while result.len() < texts.len()
        invariant
            result@.len() <= texts@.len(),
            forall|i: int| 0 <= i < result@.len() ==> (#[trigger] result@[i])@ == texts@[i]@,
        decreases texts@.len() - result@.len(),
    {
        let place: usize = result.len();
        result.push(texts[place].clone());
    }
    assert(result.deep_view() =~= texts.deep_view());
    result
}

impl TraceTagOptions {
    fn copy(&self) -> (result: Self)
        ensures
            result@ == self@,
    {
        TraceTagOptions {
            prefix: match &self.prefix {
                Some(prefix) => Some(prefix.clone()),
                None => None,
            },
            included: match &self.included {
                Some(names) => Some(copy_texts(names)),
                None => None,
            },
            excluded: copy_texts(&self.excluded),
            all_public: self.all_public,
        }
    }
}

impl TraceTagOptionsView {
    /// What stands in front of the name of a field.
    pub open spec fn tag_prefix(self) -> Seq<char> {
        match self.prefix {
            Some(prefix) => prefix,
            None => "catga.message."@,
        }
    }

    /// Whether an unmarked field is traced.
    pub open spec fn selects(self, field: TraceFieldView) -> bool {
        &&& field.tag is None
        &&& !self.excluded.contains(field.name)
        &&& match self.included {
            Some(names) => names.contains(field.name),
            None => self.all_public && field.is_public,
        }
    }
}

/// A field that is traced, and the tag under which it is.
#[derive(Debug)]
pub struct TraceTag {
    /// The name of the tag.
    pub name: String,
    /// The name of the field.
    pub field: String,
}

/// Mathematical model of a [`TraceTag`].
pub struct TraceTagView {
    pub name: Seq<char>,
    pub field: Seq<char>,
}

impl View for TraceTag {
    type V = TraceTagView;

    open spec fn view(&self) -> TraceTagView {
        TraceTagView { name: self.name@, field: self.field@ }
    }
}

impl DeepView for TraceTag {
    type V = TraceTagView;

    open spec fn deep_view(&self) -> TraceTagView {
        self@
    }
}

/// The tags of the marked fields, in the order of the fields.
pub open spec fn marked_tags(fields: Seq<TraceFieldView>) -> Seq<TraceTagView>
    decreases fields.len(),
{
    if fields.len() == 0 {
        Seq::empty()
    } else {
        let before = marked_tags(fields.drop_last());
        match fields.last().tag {
            Some(name) => before.push(TraceTagView { name, field: fields.last().name }),
            None => before,
        }
    }
}

/// The tags of the unmarked fields that are traced, in the order of the fields.
pub open spec fn selected_tags(
    fields: Seq<TraceFieldView>,
    options: TraceTagOptionsView,
) -> Seq<TraceTagView>
    decreases fields.len(),
{
    if fields.len() == 0 {
        Seq::empty()
    } else {
        let before = selected_tags(fields.drop_last(), options);
        let field = fields.last();
        if options.selects(field) {
            before.push(
                TraceTagView { name: options.tag_prefix() + field.name, field: field.name },
            )
        } else {
            before
        }
    }
}

/// Whether some field is marked with an empty name.
pub open spec fn has_empty_tag(fields: Seq<TraceFieldView>) -> bool {
    exists|i: int|
        0 <= i < fields.len() && ((#[trigger] fields[i]).tag matches Some(name) && name.len() == 0)
}

/// Whether some text is empty.
pub open spec fn has_empty_text(texts: Seq<Seq<char>>) -> bool {
    exists|i: int| 0 <= i < texts.len() && (#[trigger] texts[i]).len() == 0
}

/// The tags of a message: first those of its marked fields, and then, where the message asks for
/// it, those of the other fields that are traced.
pub open spec fn trace_tags_of(
    fields: Seq<TraceFieldView>,
    options: Option<TraceTagOptionsView>,
) -> Result<Seq<TraceTagView>, MessageOptionError> {
    if has_empty_tag(fields) {
        Err(MessageOptionError::EmptyTraceTag)
    } else {
        match options {
            None => Ok(marked_tags(fields)),
            Some(options) => if options.prefix matches Some(prefix) && prefix.len() == 0 {
                Err(MessageOptionError::EmptyTracePrefix)
            } else if has_empty_text(options.excluded) || (options.included matches Some(names)
                && has_empty_text(names)) {
                Err(MessageOptionError::EmptyTraceField)
            } else {
                Ok(marked_tags(fields) + selected_tags(fields, options))
            },
        }
    }
}

/// The model of trace tags.
pub open spec fn tags_result(result: Result<Vec<TraceTag>, MessageOptionError>) -> Result<
    Seq<TraceTagView>,
    MessageOptionError,
> {
    match result {
        Ok(tags) => Ok(tags.deep_view()),
        Err(failure) => Err(failure),
    }
}

fn any_empty(texts: &Vec<String>) -> (result: bool)
    ensures
        result == has_empty_text(texts.deep_view()),
{
    let ghost model = texts.deep_view();
    let mut index: usize = 0;
    while index < texts.len()
        invariant
            index <= texts@.len(),
            model == texts.deep_view(),
            forall|i: int| 0 <= i < index ==> (#[trigger] model[i]).len() > 0,
        decreases texts@.len() - index,
    {
        assert(model[index as int] == texts@[index as int]@);
        if is_empty(texts[index].as_str()) {
            return true;
        }
        index = index + 1;
    }
    false
}

fn any_empty_tag(fields: &Vec<TraceField>) -> (result: bool)
    ensures
        result == has_empty_tag(fields.deep_view()),
{
    let ghost model = fields.deep_view();
    let mut index: usize = 0;
    while index < fields.len()
        invariant
            index <= fields@.len(),
            model == fields.deep_view(),
            forall|i: int|
                0 <= i < index ==> !((#[trigger] model[i]).tag matches Some(name) && name.len()
                    == 0),
        decreases fields@.len() - index,
    {
        assert(model[index as int] == fields@[index as int]@);
        proof {
            reveal_strlit("catga.message.");
        }
        match &fields[index].tag {
            FieldTag::Named(name) => {
                if is_empty(name.as_str()) {
                    return true;
                }
            },
            _ => {},
        }
        index = index + 1;
    }
    false
}

fn is_selected(options: &TraceTagOptions, field: &TraceField) -> (result: bool)
    ensures
        result == options@.selects(field@),
{
    let unmarked: bool = match &field.tag {
        FieldTag::Unmarked => true,
        _ => false,
    };
    if !unmarked || contains_text(&options.excluded, field.name.as_str()) {
        return false;
    }
    match &options.included {
        Some(names) => contains_text(names, field.name.as_str()),
        None => options.all_public && field.is_public,
    }
}

fn marked(fields: &Vec<TraceField>) -> (result: Vec<TraceTag>)
    ensures
        result.deep_view() == marked_tags(fields.deep_view()),
{
    let ghost model = fields.deep_view();
    let mut tags: Vec<TraceTag> = Vec::new();
    let mut index: usize = 0;
    assert(model.take(0) =~= Seq::empty());
    assert(tags.deep_view() =~= Seq::empty());
    while index < fields.len()
        invariant
            index <= fields@.len(),
            model == fields.deep_view(),
            tags.deep_view() == marked_tags(model.take(index as int)),
        decreases fields@.len() - index,
    {
        let field: &TraceField = &fields[index];
        proof {
            let next = model.take(index + 1);
            assert(next.drop_last() =~= model.take(index as int));
            assert(next.last() == field@);
        }
        let ghost before = tags.deep_view();
        let name: Option<String> = match &field.tag {
            FieldTag::Unmarked => None,
            FieldTag::Default => Some(join("catga.message.", field.name.as_str())),
            FieldTag::Named(name) => Some(name.clone()),
        };
        if let Some(name) = name {
            let tag: TraceTag = TraceTag { name, field: field.name.clone() };
            tags.push(tag);
            assert(tags.deep_view() =~= before.push(tag@));
        }
        index = index + 1;
    }
    assert(model.take(index as int) =~= model);
    tags
}

/// Returns the trace tags of a message with named fields.
pub fn trace_tags(fields: &Vec<TraceField>, options: &Option<TraceTagOptions>) -> (result: Result<
    Vec<TraceTag>,
    MessageOptionError,
>)
    ensures
        tags_result(result) == trace_tags_of(fields.deep_view(), trace_options_view(*options)),
{
    if any_empty_tag(fields) {
        return Err(MessageOptionError::EmptyTraceTag);
    }
    let mut tags: Vec<TraceTag> = marked(fields);
    let options: &TraceTagOptions = match options {
        Some(options) => options,
        None => return Ok(tags),
    };
    let prefix: &str = match &options.prefix {
        Some(prefix) => prefix.as_str(),
        None => "catga.message.",
    };
    proof {
        reveal_strlit("catga.message.");
    }
    if is_empty(prefix) {
        return Err(MessageOptionError::EmptyTracePrefix);
    }
    let empty_included: bool = match &options.included {
        Some(names) => any_empty(names),
        None => false,
    };
    if any_empty(&options.excluded) || empty_included {
        return Err(MessageOptionError::EmptyTraceField);
    }
    let ghost model = fields.deep_view();
    let ghost first = tags.deep_view();
    let mut index: usize = 0;
    assert(model.take(0) =~= Seq::empty());
    assert(first + Seq::<TraceTagView>::empty() =~= first);
    while index < fields.len()
        invariant
            index <= fields@.len(),
            model == fields.deep_view(),
            prefix@ == options@.tag_prefix(),
            tags.deep_view() == first + selected_tags(model.take(index as int), options@),
        decreases fields@.len() - index,
    {
        let field: &TraceField = &fields[index];
        proof {
            let next = model.take(index + 1);
            assert(next.drop_last() =~= model.take(index as int));
            assert(next.last() == field@);
        }
        let ghost before = tags.deep_view();
        if is_selected(options, field) {
            let tag: TraceTag = TraceTag {
                name: join(prefix, field.name.as_str()),
                field: field.name.clone(),
            };
            tags.push(tag);
            assert(tags.deep_view() =~= before.push(tag@));
            assert(before.push(tag@) =~= first + selected_tags(
                model.take(index as int),
                options@,
            ).push(tag@));
        }
        index = index + 1;
    }
    assert(model.take(index as int) =~= model);
    Ok(tags)
}

/// An excluded field that is not marked is never traced.
pub proof fn lemma_excluded_fields_are_not_traced(
    fields: Seq<TraceFieldView>,
    options: TraceTagOptionsView,
    place: int,
)
    requires
        0 <= place < selected_tags(fields, options).len(),
    ensures
        !options.excluded.contains(selected_tags(fields, options)[place].field),
    decreases fields.len(),
{
    let init = selected_tags(fields.drop_last(), options);
    if place < init.len() {
        lemma_excluded_fields_are_not_traced(fields.drop_last(), options, place);
        assert(selected_tags(fields, options)[place] == init[place]);
    }
}

proof fn lemma_marked_names_are_not_empty(fields: Seq<TraceFieldView>)
    requires
        !has_empty_tag(fields),
    ensures
        forall|i: int|
            0 <= i < marked_tags(fields).len() ==> (#[trigger] marked_tags(fields)[i]).name.len()
                > 0,
    decreases fields.len(),
{
    if fields.len() > 0 {
        let init = fields.drop_last();
        assert forall|i: int| 0 <= i < init.len() implies !((#[trigger] init[i]).tag matches Some(
            name,
        ) && name.len() == 0) by {
            assert(init[i] == fields[i]);
        }
        lemma_marked_names_are_not_empty(init);
        assert(fields.last() == fields[fields.len() - 1]);
        let all = marked_tags(fields);
        assert forall|i: int| 0 <= i < all.len() implies (#[trigger] all[i]).name.len() > 0 by {
            if i < marked_tags(init).len() {
                assert(all[i] == marked_tags(init)[i]);
            }
        }
    }
}

proof fn lemma_selected_names_are_not_empty(
    fields: Seq<TraceFieldView>,
    options: TraceTagOptionsView,
)
    requires
        options.tag_prefix().len() > 0,
    ensures
        forall|i: int|
            0 <= i < selected_tags(fields, options).len() ==> (#[trigger] selected_tags(
                fields,
                options,
            )[i]).name.len() > 0,
    decreases fields.len(),
{
    if fields.len() > 0 {
        let init = selected_tags(fields.drop_last(), options);
        let all = selected_tags(fields, options);
        lemma_selected_names_are_not_empty(fields.drop_last(), options);
        assert forall|i: int| 0 <= i < all.len() implies (#[trigger] all[i]).name.len() > 0 by {
            if i < init.len() {
                assert(all[i] == init[i]);
            }
        }
    }
}

/// No field of an accepted message is traced under an empty name.
pub proof fn lemma_traced_names_are_not_empty(
    fields: Seq<TraceFieldView>,
    options: Option<TraceTagOptionsView>,
    tags: Seq<TraceTagView>,
    place: int,
)
    requires
        trace_tags_of(fields, options) == Ok::<Seq<TraceTagView>, MessageOptionError>(tags),
        0 <= place < tags.len(),
    ensures
        tags[place].name.len() > 0,
{
    lemma_marked_names_are_not_empty(fields);
    let marked = marked_tags(fields);
    if place < marked.len() {
        assert(tags[place] == marked[place]);
    } else if let Some(options) = options {
        reveal_strlit("catga.message.");
        lemma_selected_names_are_not_empty(fields, options);
        assert(tags[place] == selected_tags(fields, options)[place - marked.len()]);
    }
}

} // verus!
