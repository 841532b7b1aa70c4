//! The options in `#[catga(..)]` attributes of message types and their fields.

use vstd::prelude::*;

use crate::error;
use crate::message_options;
use crate::message_options::{FieldTag, MessageAttribute, TraceField, TraceTagOptions};
use crate::syntax;
use crate::syntax::{lex, parse_integer, parse_string, Token};
use crate::text::same_text;

verus! {

/// What stands behind the name of an option.
#[derive(Debug)]
pub enum OptionArgument {
    /// Nothing, as in `authorize`.
    Absent,
    /// One token behind `=`, as in `version = 7`.
    Value(String),
    /// What stands in round brackets, as in `roles("operator")`.
    List(String),
}

/// Mathematical model of an [`OptionArgument`].
pub enum OptionArgumentView {
    Absent,
    Value(Seq<char>),
    List(Seq<char>),
}

/// One option of an attribute.
#[derive(Debug)]
pub struct OptionEntry {
    /// The name of the option.
    pub name: String,
    /// What stands behind the name.
    pub argument: OptionArgument,
}

/// Mathematical model of an [`OptionEntry`].
pub struct OptionEntryView {
    pub name: Seq<char>,
    pub argument: OptionArgumentView,
}

impl View for OptionArgument {
    type V = OptionArgumentView;

    open spec fn view(&self) -> OptionArgumentView {
        match self {
            OptionArgument::Absent => OptionArgumentView::Absent,
            OptionArgument::Value(text) => OptionArgumentView::Value(text@),
            OptionArgument::List(text) => OptionArgumentView::List(text@),
        }
    }
}

impl View for OptionEntry {
    type V = OptionEntryView;

    open spec fn view(&self) -> OptionEntryView {
        OptionEntryView { name: self.name@, argument: self.argument@ }
    }
}

impl DeepView for OptionEntry {
    type V = OptionEntryView;

    open spec fn deep_view(&self) -> OptionEntryView {
        self@
    }
}

/// Values in front of those that were read further on; a failure further on is the failure of all.
pub open spec fn followed_by<A>(first: Seq<A>, rest: Result<Seq<A>, Seq<char>>) -> Result<
    Seq<A>,
    Seq<char>,
> {
    match rest {
        Ok(values) => Ok(first + values),
        Err(reason) => Err(reason),
    }
}

pub(crate) proof fn lemma_followed_twice<A>(
    first: Seq<A>,
    second: Seq<A>,
    rest: Result<Seq<A>, Seq<char>>,
)
    ensures
        followed_by(first, followed_by(second, rest)) == followed_by(first + second, rest),
        followed_by(Seq::empty(), rest) == rest,
{
    if let Ok(values) = rest {
        assert(first + (second + values) =~= (first + second) + values);
        assert(Seq::<A>::empty() + values =~= values);
    }
}

/// What a group of tokens holds between two delimiters, where the text is such a group.
pub open spec fn between(text: Seq<char>, open: char, close: char) -> Option<Seq<char>> {
    if text.len() >= 2 && text[0] == open && text.last() == close {
        Some(text.subrange(1, text.len() - 1))
    } else {
        None
    }
}

fn hold_between(text: &str, open: char, close: char) -> (result: Option<String>)
    ensures
        match result {
            Some(held) => between(text@, open, close) == Some(held@),
            None => between(text@, open, close) is None,
        },
{
    let length: usize = text.unicode_len();
    if length >= 2 && text.get_char(0) == open && text.get_char(length - 1) == close {
        Some(text.substring_char(1, length - 1).to_owned())
    } else {
        None
    }
}

/// The option that starts at a place, and the place behind it.
pub open spec fn entry_at(tokens: Seq<syntax::TokenView>, start: int) -> Result<
    (OptionEntryView, int),
    Seq<char>,
> {
    let name = tokens[start].text;
    if start + 1 >= tokens.len() {
        Ok((OptionEntryView { name, argument: OptionArgumentView::Absent }, start + 1))
    } else if tokens[start + 1].text == "="@ {
        if start + 2 >= tokens.len() {
            Err("expected a value"@)
        } else {
            let value = tokens[start + 2].text;
            Ok((OptionEntryView { name, argument: OptionArgumentView::Value(value) }, start + 3))
        }
    } else {
        match between(tokens[start + 1].text, '(', ')') {
            Some(list) => Ok(
                (OptionEntryView { name, argument: OptionArgumentView::List(list) }, start + 2),
            ),
            None => Ok((OptionEntryView { name, argument: OptionArgumentView::Absent }, start + 1)),
        }
    }
}

/// The options from a place on, with commas between them; a comma may follow the last.
pub open spec fn entries_from(tokens: Seq<syntax::TokenView>, start: int) -> Result<
    Seq<OptionEntryView>,
    Seq<char>,
>
    decreases tokens.len() - start,
{
    if start < 0 || start >= tokens.len() {
        Ok(Seq::empty())
    } else {
        match entry_at(tokens, start) {
            Err(reason) => Err(reason),
            Ok((entry, next)) => if next >= tokens.len() {
                Ok(seq![entry])
            } else if tokens[next].text != ","@ {
                Err("expected `,`"@)
            } else {
                followed_by(seq![entry], entries_from(tokens, next + 1))
            },
        }
    }
}

/// The model of options that were read.
pub open spec fn entries_result(result: Result<Vec<OptionEntry>, String>) -> Result<
    Seq<OptionEntryView>,
    Seq<char>,
> {
    match result {
        Ok(entries) => Ok(entries.deep_view()),
        Err(reason) => Err(reason@),
    }
}

fn read_entry(tokens: &Vec<Token>, start: usize) -> (result: Result<(OptionEntry, usize), String>)
    requires
        start < tokens@.len(),
    ensures
        match result {
            Ok((entry, next)) => {
                &&& entry_at(tokens.deep_view(), start as int) == Ok::<
                    (OptionEntryView, int),
                    Seq<char>,
                >((entry@, next as int))
                &&& start < next <= tokens@.len()
            },
            Err(reason) => entry_at(tokens.deep_view(), start as int) == Err::<
                (OptionEntryView, int),
                Seq<char>,
            >(reason@),
        },
{
    let ghost model = tokens.deep_view();
    let count: usize = tokens.len();
    assert(model[start as int] == tokens@[start as int]@);
    let name: String = tokens[start].text.clone();
    if start + 1 == count {
        return Ok((OptionEntry { name, argument: OptionArgument::Absent }, start + 1));
    }
    assert(model[start + 1] == tokens@[start + 1]@);
    if same_text(tokens[start + 1].text.as_str(), "=") {
        if start + 2 == count {
            return Err("expected a value".to_owned());
        }
        assert(model[start + 2] == tokens@[start + 2]@);
        let value: String = tokens[start + 2].text.clone();
        return Ok((OptionEntry { name, argument: OptionArgument::Value(value) }, start + 3));
    }
    match hold_between(tokens[start + 1].text.as_str(), '(', ')') {
        Some(list) => Ok((OptionEntry { name, argument: OptionArgument::List(list) }, start + 2)),
        None => Ok((OptionEntry { name, argument: OptionArgument::Absent }, start + 1)),
    }
}

/// Reads the options of an attribute.
pub fn read_entries(tokens: &Vec<Token>) -> (result: Result<Vec<OptionEntry>, String>)
    ensures
        entries_result(result) == entries_from(tokens.deep_view(), 0),
{
    let ghost model = tokens.deep_view();
    let mut entries: Vec<OptionEntry> = Vec::new();
    let mut start: usize = 0;
    proof {
        assert(entries.deep_view() =~= Seq::empty());
        lemma_followed_twice(Seq::empty(), Seq::empty(), entries_from(model, 0));
    }
    while start < tokens.len()
        invariant
            start <= tokens@.len(),
            model == tokens.deep_view(),
            entries_from(model, 0) == followed_by(
                entries.deep_view(),
                entries_from(model, start as int),
            ),
        decreases tokens@.len() - start,
    {
        let (entry, next) = match read_entry(tokens, start) {
            Ok(read) => read,
            Err(reason) => return Err(reason),
        };
        let ghost before = entries.deep_view();
        entries.push(entry);
        assert(entries.deep_view() =~= before + seq![entry@]);
        if next >= tokens.len() {
            return Ok(entries);
        }
        assert(model[next as int] == tokens@[next as int]@);
        if !same_text(tokens[next].text.as_str(), ",") {
            return Err("expected `,`".to_owned());
        }
        proof {
            lemma_followed_twice(before, seq![entry@], entries_from(model, next + 1));
        }
        start = next + 1;
    }
    assert(entries.deep_view() + Seq::empty() =~= entries.deep_view());
    Ok(entries)
}

/// The string literals from a place on, with commas between them; a comma may follow the last.
pub open spec fn strings_from(tokens: Seq<syntax::TokenView>, start: int) -> Result<
    Seq<Seq<char>>,
    Seq<char>,
>
    decreases tokens.len() - start,
{
    if start < 0 || start >= tokens.len() {
        Ok(Seq::empty())
    } else {
        match syntax::string_value_of(tokens[start].text) {
            Err(reason) => Err(reason),
            Ok(value) => if start + 1 >= tokens.len() {
                Ok(seq![value])
            } else if tokens[start + 1].text != ","@ {
                Err("expected `,`"@)
            } else {
                followed_by(seq![value], strings_from(tokens, start + 2))
            },
        }
    }
}

/// Reads string literals with commas between them.
pub fn read_strings(tokens: &Vec<Token>) -> (result: Result<Vec<String>, String>)
    ensures
        syntax::list_result(result) == strings_from(tokens.deep_view(), 0),
{
    let ghost model = tokens.deep_view();
    let mut values: Vec<String> = Vec::new();
    let mut start: usize = 0;
    proof {
        assert(values.deep_view() =~= Seq::empty());
        lemma_followed_twice(Seq::empty(), Seq::empty(), strings_from(model, 0));
    }
    while start < tokens.len()
        invariant
            start <= tokens@.len(),
            model == tokens.deep_view(),
            strings_from(model, 0) == followed_by(
                values.deep_view(),
                strings_from(model, start as int),
            ),
        decreases tokens@.len() - start,
    {
        assert(model[start as int] == tokens@[start as int]@);
        let value: String = match parse_string(tokens[start].text.as_str()) {
            Ok(value) => value,
            Err(reason) => return Err(reason),
        };
        let ghost before = values.deep_view();
        values.push(value);
        assert(values.deep_view() =~= before + seq![value@]);
        if start + 1 >= tokens.len() {
            return Ok(values);
        }
        assert(model[start + 1] == tokens@[start + 1]@);
        if !same_text(tokens[start + 1].text.as_str(), ",") {
            return Err("expected `,`".to_owned());
        }
        proof {
            lemma_followed_twice(before, seq![value@], strings_from(model, start + 2));
        }
        start = start + 2;
    }
    assert(values.deep_view() + Seq::empty() =~= values.deep_view());
    Ok(values)
}

/// The string literals in a text.
pub open spec fn strings_in(text: Seq<char>) -> Result<Seq<Seq<char>>, Seq<char>> {
    match syntax::lexed(text) {
        Err(reason) => Err(reason),
        Ok(tokens) => strings_from(tokens, 0),
    }
}

fn parse_strings(text: &str) -> (result: Result<Vec<String>, String>)
    ensures
        syntax::list_result(result) == strings_in(text@),
{
    match lex(text) {
        Ok(tokens) => read_strings(&tokens),
        Err(reason) => Err(reason),
    }
}

/// The options in a text.
pub open spec fn entries_in(text: Seq<char>) -> Result<Seq<OptionEntryView>, Seq<char>> {
    match syntax::lexed(text) {
        Err(reason) => Err(reason),
        Ok(tokens) => entries_from(tokens, 0),
    }
}

pub(crate) fn parse_entries(text: &str) -> (result: Result<Vec<OptionEntry>, String>)
    ensures
        entries_result(result) == entries_in(text@),
{
    match lex(text) {
        Ok(tokens) => read_entries(&tokens),
        Err(reason) => Err(reason),
    }
}

/// The named numbers from a place on.
pub open spec fn numbers_from(entries: Seq<OptionEntryView>, start: int) -> Result<
    Seq<(Seq<char>, u64)>,
    Seq<char>,
>
    decreases entries.len() - start,
{
    if start < 0 || start >= entries.len() {
        Ok(Seq::empty())
    } else {
        match entries[start].argument {
            OptionArgumentView::Value(text) => match syntax::integer_value_of(text) {
                Err(reason) => Err(reason),
                Ok(value) => followed_by(
                    seq![(entries[start].name, value)],
                    numbers_from(entries, start + 1),
                ),
            },
            _ => Err("expected `=` and an integer"@),
        }
    }
}

/// The model of named numbers that were read.
pub open spec fn numbers_result(result: Result<Vec<(String, u64)>, String>) -> Result<
    Seq<(Seq<char>, u64)>,
    Seq<char>,
> {
    match result {
        Ok(numbers) => Ok(message_options::named_numbers(numbers@)),
        Err(reason) => Err(reason@),
    }
}

/// Reads named numbers.
pub fn read_numbers(entries: &Vec<OptionEntry>) -> (result: Result<Vec<(String, u64)>, String>)
    ensures
        numbers_result(result) == numbers_from(entries.deep_view(), 0),
{
    let ghost model = entries.deep_view();
    let mut numbers: Vec<(String, u64)> = Vec::new();
    let mut index: usize = 0;
    proof {
        assert(message_options::named_numbers(numbers@) =~= Seq::empty());
        lemma_followed_twice(Seq::empty(), Seq::empty(), numbers_from(model, 0));
    }
    while index < entries.len()
        invariant
            index <= entries@.len(),
            model == entries.deep_view(),
            numbers_from(model, 0) == followed_by(
                message_options::named_numbers(numbers@),
                numbers_from(model, index as int),
            ),
        decreases entries@.len() - index,
    {
        assert(model[index as int] == entries@[index as int]@);
        let value: u64 = match &entries[index].argument {
            OptionArgument::Value(text) => match parse_integer(text.as_str()) {
                Ok(value) => value,
                Err(reason) => return Err(reason),
            },
            _ => return Err("expected `=` and an integer".to_owned()),
        };
        let name: String = entries[index].name.clone();
        let ghost before = message_options::named_numbers(numbers@);
        let ghost entry = (name@, value);
        numbers.push((name, value));
        proof {
            assert(message_options::named_numbers(numbers@) =~= before + seq![entry]);
            lemma_followed_twice(before, seq![entry], numbers_from(model, index + 1));
        }
        index = index + 1;
    }
    assert(message_options::named_numbers(numbers@) + Seq::empty()
        =~= message_options::named_numbers(numbers@));
    Ok(numbers)
}

/// The string literal behind the name of an option.
pub open spec fn string_argument(argument: OptionArgumentView) -> Result<Seq<char>, Seq<char>> {
    match argument {
        OptionArgumentView::Value(text) => syntax::string_value_of(text),
        _ => Err("expected `=` and a string"@),
    }
}

fn read_string(argument: &OptionArgument) -> (result: Result<String, String>)
    ensures
        syntax::text_result(result) == string_argument(argument@),
{
    match argument {
        OptionArgument::Value(text) => parse_string(text.as_str()),
        _ => Err("expected `=` and a string".to_owned()),
    }
}

/// The string literals in square brackets behind the name of an option.
pub open spec fn names_argument(argument: OptionArgumentView) -> Result<
    Seq<Seq<char>>,
    Seq<char>,
> {
    match argument {
        OptionArgumentView::Value(text) => match between(text, '[', ']') {
            Some(list) => strings_in(list),
            None => Err("expected a list of strings"@),
        },
        _ => Err("expected `=` and a list of strings"@),
    }
}

fn read_names(argument: &OptionArgument) -> (result: Result<Vec<String>, String>)
    ensures
        syntax::list_result(result) == names_argument(argument@),
{
    match argument {
        OptionArgument::Value(text) => match hold_between(text.as_str(), '[', ']') {
            Some(list) => parse_strings(list.as_str()),
            None => Err("expected a list of strings".to_owned()),
        },
        _ => Err("expected `=` and a list of strings".to_owned()),
    }
}

/// The truth value behind the name of an option.
pub open spec fn flag_argument(argument: OptionArgumentView) -> Result<bool, Seq<char>> {
    match argument {
        OptionArgumentView::Value(text) => if text == "true"@ {
            Ok(true)
        } else if text == "false"@ {
            Ok(false)
        } else {
            Err("expected `true` or `false`"@)
        },
        _ => Err("expected `=` and a boolean"@),
    }
}

fn read_flag(argument: &OptionArgument) -> (result: Result<bool, String>)
    ensures
        match result {
            Ok(flag) => flag_argument(argument@) == Ok::<bool, Seq<char>>(flag),
            Err(reason) => flag_argument(argument@) == Err::<bool, Seq<char>>(reason@),
        },
{
    proof {
        reveal_strlit("true");
        reveal_strlit("false");
    }
    match argument {
        OptionArgument::Value(text) => if same_text(text.as_str(), "true") {
            Ok(true)
        } else if same_text(text.as_str(), "false") {
            Ok(false)
        } else {
            Err("expected `true` or `false`".to_owned())
        },
        _ => Err("expected `=` and a boolean".to_owned()),
    }
}

/// The options of `trace_tags` that were given so far.
#[derive(Debug)]
pub struct TraceTagDraft {
    /// What stands in front of the name of a field.
    pub prefix: Option<String>,
    /// The fields to trace.
    pub included: Option<Vec<String>>,
    /// The fields not to trace.
    pub excluded: Option<Vec<String>>,
    /// Whether the public fields are traced.
    pub all_public: Option<bool>,
}

/// Mathematical model of a [`TraceTagDraft`].
pub struct TraceTagDraftView {
    pub prefix: Option<Seq<char>>,
    pub included: Option<Seq<Seq<char>>>,
    pub excluded: Option<Seq<Seq<char>>>,
    pub all_public: Option<bool>,
}

/// The model of texts that may not be given.
pub open spec fn texts_option(texts: Option<Vec<String>>) -> Option<Seq<Seq<char>>> {
    match texts {
        Some(texts) => Some(texts.deep_view()),
        None => None,
    }
}

impl View for TraceTagDraft {
    type V = TraceTagDraftView;

    open spec fn view(&self) -> TraceTagDraftView {
        TraceTagDraftView {
            prefix: error::text_option(self.prefix),
            included: texts_option(self.included),
            excluded: texts_option(self.excluded),
            all_public: self.all_public,
        }
    }
}

/// No option of `trace_tags`.
pub open spec fn empty_draft() -> TraceTagDraftView {
    TraceTagDraftView { prefix: None, included: None, excluded: None, all_public: None }
}

/// The options of `trace_tags` with one more; each may be given once.
pub open spec fn with_trace_option(draft: TraceTagDraftView, entry: OptionEntryView) -> Result<
    TraceTagDraftView,
    Seq<char>,
> {
    if entry.name == "prefix"@ {
        if draft.prefix is Some {
            Err("duplicate `prefix`"@)
        } else {
            match string_argument(entry.argument) {
                Ok(prefix) => Ok(TraceTagDraftView { prefix: Some(prefix), ..draft }),
                Err(reason) => Err(reason),
            }
        }
    } else if entry.name == "include"@ {
        if draft.included is Some {
            Err("duplicate `include`"@)
        } else {
            match names_argument(entry.argument) {
                Ok(names) => Ok(TraceTagDraftView { included: Some(names), ..draft }),
                Err(reason) => Err(reason),
            }
        }
    } else if entry.name == "exclude"@ {
        if draft.excluded is Some {
            Err("duplicate `exclude`"@)
        } else {
            match names_argument(entry.argument) {
                Ok(names) => Ok(TraceTagDraftView { excluded: Some(names), ..draft }),
                Err(reason) => Err(reason),
            }
        }
    } else if entry.name == "all_public"@ {
        if draft.all_public is Some {
            Err("duplicate `all_public`"@)
        } else {
            match flag_argument(entry.argument) {
                Ok(flag) => Ok(TraceTagDraftView { all_public: Some(flag), ..draft }),
                Err(reason) => Err(reason),
            }
        }
    } else {
        Err("unknown `trace_tags` option"@)
    }
}

/// The options of `trace_tags` with those from a place on.
pub open spec fn trace_options_from(
    draft: TraceTagDraftView,
    entries: Seq<OptionEntryView>,
    start: int,
) -> Result<TraceTagDraftView, Seq<char>>
    decreases entries.len() - start,
{
    if start < 0 || start >= entries.len() {
        Ok(draft)
    } else {
        match with_trace_option(draft, entries[start]) {
            Ok(changed) => trace_options_from(changed, entries, start + 1),
            Err(reason) => Err(reason),
        }
    }
}

/// Which fields options of `trace_tags` select: without `exclude` no field is left out, and without
/// `all_public` the public fields are the fallback.
pub open spec fn settled(draft: TraceTagDraftView) -> message_options::TraceTagOptionsView {
    message_options::TraceTagOptionsView {
        prefix: draft.prefix,
        included: draft.included,
        excluded: match draft.excluded {
            Some(names) => names,
            None => Seq::empty(),
        },
        all_public: match draft.all_public {
            Some(flag) => flag,
            None => true,
        },
    }
}

/// The trace options that options of `trace_tags` are.
pub open spec fn trace_options_of(entries: Seq<OptionEntryView>) -> Result<
    message_options::TraceTagOptionsView,
    Seq<char>,
> {
    match trace_options_from(empty_draft(), entries, 0) {
        Ok(draft) => Ok(settled(draft)),
        Err(reason) => Err(reason),
    }
}

impl TraceTagDraft {
    fn with_option(self, entry: &OptionEntry) -> (result: Result<Self, String>)
        ensures
            match result {
                Ok(draft) => with_trace_option(self@, entry@) == Ok::<TraceTagDraftView, Seq<char>>(
                    draft@,
                ),
                Err(reason) => with_trace_option(self@, entry@) == Err::<
                    TraceTagDraftView,
                    Seq<char>,
                >(reason@),
            },
    {
        let name: &str = entry.name.as_str();
        if same_text(name, "prefix") {
            if self.prefix.is_some() {
                return Err("duplicate `prefix`".to_owned());
            }
            match read_string(&entry.argument) {
                Ok(prefix) => Ok(TraceTagDraft { prefix: Some(prefix), ..self }),
                Err(reason) => Err(reason),
            }
        } else if same_text(name, "include") {
            if self.included.is_some() {
                return Err("duplicate `include`".to_owned());
            }
            match read_names(&entry.argument) {
                Ok(names) => Ok(TraceTagDraft { included: Some(names), ..self }),
                Err(reason) => Err(reason),
            }
        } else if same_text(name, "exclude") {
            if self.excluded.is_some() {
                return Err("duplicate `exclude`".to_owned());
            }
            match read_names(&entry.argument) {
                Ok(names) => Ok(TraceTagDraft { excluded: Some(names), ..self }),
                Err(reason) => Err(reason),
            }
        } else if same_text(name, "all_public") {
            if self.all_public.is_some() {
                return Err("duplicate `all_public`".to_owned());
            }
            match read_flag(&entry.argument) {
                Ok(flag) => Ok(TraceTagDraft { all_public: Some(flag), ..self }),
                Err(reason) => Err(reason),
            }
        } else {
            Err("unknown `trace_tags` option".to_owned())
        }
    }

    fn settle(self) -> (result: TraceTagOptions)
        ensures
            result@ == settled(self@),
    {
        let excluded: Vec<String> = match self.excluded {
            Some(names) => names,
            None => Vec::new(),
        };
        assert(self.excluded is None ==> excluded.deep_view() =~= Seq::empty());
        TraceTagOptions {
            prefix: self.prefix,
            included: self.included,
            excluded,
            all_public: match self.all_public {
                Some(flag) => flag,
                None => true,
            },
        }
    }
}

/// The model of trace options that were read.
pub open spec fn trace_options_result(result: Result<TraceTagOptions, String>) -> Result<
    message_options::TraceTagOptionsView,
    Seq<char>,
> {
    match result {
        Ok(options) => Ok(options@),
        Err(reason) => Err(reason@),
    }
}

/// Reads the options of `trace_tags`.
pub fn read_trace_options(entries: &Vec<OptionEntry>) -> (result: Result<TraceTagOptions, String>)
    ensures
        trace_options_result(result) == trace_options_of(entries.deep_view()),
{
    let ghost model = entries.deep_view();
    let mut draft: TraceTagDraft = TraceTagDraft {
        prefix: None,
        included: None,
        excluded: None,
        all_public: None,
    };
    let mut index: usize = 0;
    while index < entries.len()
        invariant
            index <= entries@.len(),
            model == entries.deep_view(),
            trace_options_from(empty_draft(), model, 0) == trace_options_from(
                draft@,
                model,
                index as int,
            ),
        decreases entries@.len() - index,
    {
        assert(model[index as int] == entries@[index as int]@);
        match draft.with_option(&entries[index]) {
            Ok(changed) => {
                draft = changed;
            },
            Err(reason) => return Err(reason),
        }
        index = index + 1;
    }
    Ok(draft.settle())
}

/// The option of a message type that an entry is.
pub open spec fn attribute_of(entry: OptionEntryView) -> Result<
    message_options::MessageAttributeView,
    Seq<char>,
> {
    if entry.name == "version"@ {
        match entry.argument {
            OptionArgumentView::Value(text) => match syntax::integer_value_of(text) {
                Ok(version) => Ok(message_options::MessageAttributeView::Version(version)),
                Err(reason) => Err(reason),
            },
            _ => Err("expected `=` and an integer"@),
        }
    } else if entry.name == "priority"@ {
        match entry.argument {
            OptionArgumentView::Value(word) => Ok(
                message_options::MessageAttributeView::Priority(word),
            ),
            _ => Err("expected `=` and a priority"@),
        }
    } else if entry.name == "authorize"@ {
        match entry.argument {
            OptionArgumentView::Absent => Ok(message_options::MessageAttributeView::Authorize),
            _ => Err("`authorize` takes no argument"@),
        }
    } else if entry.name == "roles"@ {
        match entry.argument {
            OptionArgumentView::List(list) => match strings_in(list) {
                Ok(roles) => Ok(message_options::MessageAttributeView::Roles(roles)),
                Err(reason) => Err(reason),
            },
            _ => Err("expected roles in round brackets"@),
        }
    } else if entry.name == "policy"@ {
        match entry.argument {
            OptionArgumentView::List(list) => match strings_in(list) {
                Ok(names) => if names.len() == 1 {
                    Ok(message_options::MessageAttributeView::Policy(names[0]))
                } else {
                    Err("expected one policy"@)
                },
                Err(reason) => Err(reason),
            },
            _ => Err("expected a policy in round brackets"@),
        }
    } else if entry.name == "batch_key"@ {
        match string_argument(entry.argument) {
            Ok(key) => Ok(message_options::MessageAttributeView::BatchKey(key)),
            Err(reason) => Err(reason),
        }
    } else if entry.name == "batch"@ {
        match entry.argument {
            OptionArgumentView::List(list) => match entries_in(list) {
                Ok(entries) => match numbers_from(entries, 0) {
                    Ok(numbers) => Ok(message_options::MessageAttributeView::Batch(numbers)),
                    Err(reason) => Err(reason),
                },
                Err(reason) => Err(reason),
            },
            _ => Err("expected options in round brackets"@),
        }
    } else if entry.name == "trace_tags"@ {
        match entry.argument {
            OptionArgumentView::List(list) => match entries_in(list) {
                Ok(entries) => match trace_options_of(entries) {
                    Ok(options) => Ok(message_options::MessageAttributeView::TraceTags(options)),
                    Err(reason) => Err(reason),
                },
                Err(reason) => Err(reason),
            },
            _ => Err("expected options in round brackets"@),
        }
    } else {
        Err("unknown message option"@)
    }
}

/// The model of an option that was read.
pub open spec fn attribute_result(result: Result<MessageAttribute, String>) -> Result<
    message_options::MessageAttributeView,
    Seq<char>,
> {
    match result {
        Ok(attribute) => Ok(attribute@),
        Err(reason) => Err(reason@),
    }
}

fn read_policy(argument: &OptionArgument) -> (result: Result<MessageAttribute, String>)
    ensures
        attribute_result(result) == attribute_of(
            (OptionEntryView { name: "policy"@, argument: argument@ }),
        ),
{
    proof {
        lemma_option_names();
    }
    match argument {
        OptionArgument::List(list) => match parse_strings(list.as_str()) {
            Ok(mut names) => {
                let ghost model = names.deep_view();
                if names.len() != 1 {
                    return Err("expected one policy".to_owned());
                }
                assert(model[0] == names@[0]@);
                match names.pop() {
                    Some(name) => Ok(MessageAttribute::Policy(name)),
                    None => Err("expected one policy".to_owned()),
                }
            },
            Err(reason) => Err(reason),
        },
        _ => Err("expected a policy in round brackets".to_owned()),
    }
}

fn read_batch(argument: &OptionArgument) -> (result: Result<MessageAttribute, String>)
    ensures
        attribute_result(result) == attribute_of(
            (OptionEntryView { name: "batch"@, argument: argument@ }),
        ),
{
    proof {
        lemma_option_names();
    }
    match argument {
        OptionArgument::List(list) => match parse_entries(list.as_str()) {
            Ok(entries) => match read_numbers(&entries) {
                Ok(numbers) => Ok(MessageAttribute::Batch(numbers)),
                Err(reason) => Err(reason),
            },
            Err(reason) => Err(reason),
        },
        _ => Err("expected options in round brackets".to_owned()),
    }
}

fn read_trace_tags(argument: &OptionArgument) -> (result: Result<MessageAttribute, String>)
    ensures
        attribute_result(result) == attribute_of(
            (OptionEntryView { name: "trace_tags"@, argument: argument@ }),
        ),
{
    proof {
        lemma_option_names();
    }
    match argument {
        OptionArgument::List(list) => match parse_entries(list.as_str()) {
            Ok(entries) => match read_trace_options(&entries) {
                Ok(options) => Ok(MessageAttribute::TraceTags(options)),
                Err(reason) => Err(reason),
            },
            Err(reason) => Err(reason),
        },
        _ => Err("expected options in round brackets".to_owned()),
    }
}

/// The names of message options differ.
proof fn lemma_option_names()
    ensures
        "policy"@ != "version"@,
        "policy"@ != "priority"@,
        "policy"@ != "authorize"@,
        "policy"@ != "roles"@,
        "batch"@ != "version"@,
        "batch"@ != "priority"@,
        "batch"@ != "authorize"@,
        "batch"@ != "roles"@,
        "batch"@ != "policy"@,
        "batch"@ != "batch_key"@,
        "trace_tags"@ != "version"@,
        "trace_tags"@ != "priority"@,
        "trace_tags"@ != "authorize"@,
        "trace_tags"@ != "roles"@,
        "trace_tags"@ != "policy"@,
        "trace_tags"@ != "batch_key"@,
        "trace_tags"@ != "batch"@,
{
    reveal_strlit("version");
    reveal_strlit("priority");
    reveal_strlit("authorize");
    reveal_strlit("roles");
    reveal_strlit("policy");
    reveal_strlit("batch_key");
    reveal_strlit("batch");
    reveal_strlit("trace_tags");
    assert("policy"@[0] == 'p' && "policy"@.len() == 6);
    assert("batch"@[0] == 'b' && "batch"@.len() == 5);
    assert("trace_tags"@[0] == 't');
    assert("version"@[0] == 'v' && "priority"@.len() == 8 && "authorize"@[0] == 'a');
    assert("roles"@[0] == 'r' && "batch_key"@.len() == 9 && "batch_key"@[0] == 'b');
}

/// Reads an option of a message type.
pub fn read_attribute(entry: &OptionEntry) -> (result: Result<MessageAttribute, String>)
    ensures
        attribute_result(result) == attribute_of(entry@),
{
    let name: &str = entry.name.as_str();
    if same_text(name, "version") {
        match &entry.argument {
            OptionArgument::Value(text) => match parse_integer(text.as_str()) {
                Ok(version) => Ok(MessageAttribute::Version(version)),
                Err(reason) => Err(reason),
            },
            _ => Err("expected `=` and an integer".to_owned()),
        }
    } else if same_text(name, "priority") {
        match &entry.argument {
            OptionArgument::Value(word) => Ok(MessageAttribute::Priority(word.clone())),
            _ => Err("expected `=` and a priority".to_owned()),
        }
    } else if same_text(name, "authorize") {
        match &entry.argument {
            OptionArgument::Absent => Ok(MessageAttribute::Authorize),
            _ => Err("`authorize` takes no argument".to_owned()),
        }
    } else if same_text(name, "roles") {
        match &entry.argument {
            OptionArgument::List(list) => match parse_strings(list.as_str()) {
                Ok(roles) => Ok(MessageAttribute::Roles(roles)),
                Err(reason) => Err(reason),
            },
            _ => Err("expected roles in round brackets".to_owned()),
        }
    } else if same_text(name, "policy") {
        read_policy(&entry.argument)
    } else if same_text(name, "batch_key") {
        match read_string(&entry.argument) {
            Ok(key) => Ok(MessageAttribute::BatchKey(key)),
            Err(reason) => Err(reason),
        }
    } else if same_text(name, "batch") {
        read_batch(&entry.argument)
    } else if same_text(name, "trace_tags") {
        read_trace_tags(&entry.argument)
    } else {
        Err("unknown message option".to_owned())
    }
}

/// The options of a message type from a place on.
pub open spec fn attributes_from(entries: Seq<OptionEntryView>, start: int) -> Result<
    Seq<message_options::MessageAttributeView>,
    Seq<char>,
>
    decreases entries.len() - start,
{
    if start < 0 || start >= entries.len() {
        Ok(Seq::empty())
    } else {
        match attribute_of(entries[start]) {
            Err(reason) => Err(reason),
            Ok(attribute) => followed_by(seq![attribute], attributes_from(entries, start + 1)),
        }
    }
}

/// The options of a message type in the tokens of an attribute.
pub open spec fn attributes_in(tokens: Seq<syntax::TokenView>) -> Result<
    Seq<message_options::MessageAttributeView>,
    Seq<char>,
> {
    match entries_from(tokens, 0) {
        Err(reason) => Err(reason),
        Ok(entries) => attributes_from(entries, 0),
    }
}

/// The model of options that were read.
pub open spec fn attributes_result(result: Result<Vec<MessageAttribute>, String>) -> Result<
    Seq<message_options::MessageAttributeView>,
    Seq<char>,
> {
    match result {
        Ok(attributes) => Ok(attributes.deep_view()),
        Err(reason) => Err(reason@),
    }
}

/// Reads the options of a message type from the tokens of an attribute.
pub fn read_message_attribute(tokens: &Vec<Token>) -> (result: Result<
    Vec<MessageAttribute>,
    String,
>)
    ensures
        attributes_result(result) == attributes_in(tokens.deep_view()),
{
    let entries: Vec<OptionEntry> = match read_entries(tokens) {
        Ok(entries) => entries,
        Err(reason) => return Err(reason),
    };
    let ghost model = entries.deep_view();
    let mut attributes: Vec<MessageAttribute> = Vec::new();
    let mut index: usize = 0;
    proof {
        assert(attributes.deep_view() =~= Seq::empty());
        lemma_followed_twice(Seq::empty(), Seq::empty(), attributes_from(model, 0));
    }
    while index < entries.len()
        invariant
            index <= entries@.len(),
            model == entries.deep_view(),
            entries_from(tokens.deep_view(), 0) == Ok::<Seq<OptionEntryView>, Seq<char>>(model),
            attributes_from(model, 0) == followed_by(
                attributes.deep_view(),
                attributes_from(model, index as int),
            ),
        decreases entries@.len() - index,
    {
        assert(model[index as int] == entries@[index as int]@);
        let attribute: MessageAttribute = match read_attribute(&entries[index]) {
            Ok(attribute) => attribute,
            Err(reason) => return Err(reason),
        };
        let ghost before = attributes.deep_view();
        attributes.push(attribute);
        proof {
            assert(attributes.deep_view() =~= before + seq![attribute@]);
            lemma_followed_twice(before, seq![attribute@], attributes_from(model, index + 1));
        }
        index = index + 1;
    }
    assert(attributes.deep_view() + Seq::empty() =~= attributes.deep_view());
    Ok(attributes)
}

proof fn lemma_option_failure_is_kept(entries: Seq<OptionEntryView>, start: int, place: int)
    requires
        0 <= start <= place < entries.len(),
        attribute_of(entries[place]) is Err,
    ensures
        attributes_from(entries, start) is Err,
    decreases place - start,
{
    if start < place {
        lemma_option_failure_is_kept(entries, start + 1, place);
    }
}

/// An attribute is rejected where any of its options is malformed or unknown, wherever the option
/// stands.
pub proof fn lemma_malformed_options_are_rejected(
    tokens: Seq<syntax::TokenView>,
    entries: Seq<OptionEntryView>,
    place: int,
)
    requires
        entries_from(tokens, 0) == Ok::<Seq<OptionEntryView>, Seq<char>>(entries),
        0 <= place < entries.len(),
        attribute_of(entries[place]) is Err,
    ensures
        attributes_in(tokens) is Err,
{
    lemma_option_failure_is_kept(entries, 0, place);
}

proof fn lemma_given_option_is_kept(
    draft: TraceTagDraftView,
    entries: Seq<OptionEntryView>,
    start: int,
    place: int,
)
    requires
        0 <= start <= place < entries.len(),
        ({
            ||| entries[place].name == "prefix"@ && draft.prefix is Some
            ||| entries[place].name == "include"@ && draft.included is Some
            ||| entries[place].name == "exclude"@ && draft.excluded is Some
            ||| entries[place].name == "all_public"@ && draft.all_public is Some
        }),
    ensures
        trace_options_from(draft, entries, start) is Err,
    decreases place - start,
{
    lemma_trace_option_names();
    if start < place {
        if let Ok(changed) = with_trace_option(draft, entries[start]) {
            lemma_given_option_is_kept(changed, entries, start + 1, place);
        }
    }
}

proof fn lemma_repeated_option_is_kept(
    draft: TraceTagDraftView,
    entries: Seq<OptionEntryView>,
    start: int,
    first: int,
    second: int,
)
    requires
        0 <= start <= first < second < entries.len(),
        entries[first].name == entries[second].name,
    ensures
        trace_options_from(draft, entries, start) is Err,
    decreases first - start,
{
    if let Ok(changed) = with_trace_option(draft, entries[start]) {
        if start < first {
            lemma_repeated_option_is_kept(changed, entries, start + 1, first, second);
        } else {
            lemma_given_option_is_kept(changed, entries, start + 1, second);
        }
    }
}

/// Options of `trace_tags` of which two have the same name are rejected.
pub proof fn lemma_repeated_trace_options_are_rejected(
    entries: Seq<OptionEntryView>,
    first: int,
    second: int,
)
    requires
        0 <= first < second < entries.len(),
        entries[first].name == entries[second].name,
    ensures
        trace_options_of(entries) is Err,
{
    lemma_repeated_option_is_kept(empty_draft(), entries, 0, first, second);
}

proof fn lemma_trace_option_names()
    ensures
        "include"@ != "prefix"@,
        "exclude"@ != "prefix"@,
        "exclude"@ != "include"@,
        "all_public"@ != "prefix"@,
        "all_public"@ != "include"@,
        "all_public"@ != "exclude"@,
{
    reveal_strlit("prefix");
    reveal_strlit("include");
    reveal_strlit("exclude");
    reveal_strlit("all_public");
    assert("prefix"@[0] == 'p' && "include"@[0] == 'i' && "exclude"@[0] == 'e');
    assert("all_public"@[0] == 'a');
}

/// A named field as the options of its attributes mark it.
pub open spec fn marked_field(
    name: Seq<char>,
    is_public: bool,
    entries: Seq<OptionEntryView>,
) -> Result<message_options::TraceFieldView, Seq<char>> {
    if entries.len() == 0 {
        Ok(message_options::TraceFieldView { name, is_public, tag: None })
    } else if entries[0].name != "trace_tag"@ {
        Err("unknown field option"@)
    } else if entries.len() > 1 {
        Err("expected one `trace_tag`"@)
    } else {
        match entries[0].argument {
            OptionArgumentView::Absent => Ok(
                message_options::TraceFieldView {
                    name,
                    is_public,
                    tag: Some("catga.message."@ + name),
                },
            ),
            OptionArgumentView::Value(text) => match syntax::string_value_of(text) {
                Ok(tag) => Ok(message_options::TraceFieldView { name, is_public, tag: Some(tag) }),
                Err(reason) => Err(reason),
            },
            OptionArgumentView::List(_) => Err("expected `=` and a string"@),
        }
    }
}

/// The model of a field that was read.
pub open spec fn field_result(result: Result<TraceField, String>) -> Result<
    message_options::TraceFieldView,
    Seq<char>,
> {
    match result {
        Ok(field) => Ok(field@),
        Err(reason) => Err(reason@),
    }
}

/// Marks a named field as the options of its attributes ask for.
pub fn mark_field(name: &str, is_public: bool, entries: &Vec<OptionEntry>) -> (result: Result<
    TraceField,
    String,
>)
    ensures
        field_result(result) == marked_field(name@, is_public, entries.deep_view()),
{
    let ghost model = entries.deep_view();
    if entries.len() == 0 {
        return Ok(TraceField { name: name.to_owned(), is_public, tag: FieldTag::Unmarked });
    }
    assert(model[0] == entries@[0]@);
    if !same_text(entries[0].name.as_str(), "trace_tag") {
        return Err("unknown field option".to_owned());
    }
    if entries.len() > 1 {
        return Err("expected one `trace_tag`".to_owned());
    }
    let tag: FieldTag = match &entries[0].argument {
        OptionArgument::Absent => FieldTag::Default,
        OptionArgument::Value(text) => match parse_string(text.as_str()) {
            Ok(tag) => FieldTag::Named(tag),
            Err(reason) => return Err(reason),
        },
        OptionArgument::List(_) => return Err("expected `=` and a string".to_owned()),
    };
    Ok(TraceField { name: name.to_owned(), is_public, tag })
}

/// What a `catga` attribute holds in its brackets; another attribute holds nothing for a message.
pub open spec fn own_arguments(tokens: Seq<syntax::TokenView>) -> Result<
    Option<Seq<char>>,
    Seq<char>,
> {
    if tokens.len() == 0 || tokens[0].text != "catga"@ {
        Ok(None)
    } else if tokens.len() == 1 || tokens[1].text == "="@ {
        Err("expected options in round brackets"@)
    } else {
        match between(tokens[1].text, '(', ')') {
            Some(list) => Ok(Some(list)),
            None => if tokens[1].text == ":"@ {
                Ok(None)
            } else {
                Err("expected options in round brackets"@)
            },
        }
    }
}

/// The model of what an attribute holds.
pub open spec fn arguments_result(result: Result<Option<String>, String>) -> Result<
    Option<Seq<char>>,
    Seq<char>,
> {
    match result {
        Ok(list) => Ok(error::text_option(list)),
        Err(reason) => Err(reason@),
    }
}

/// Finds what a `catga` attribute holds in its brackets.
pub fn read_own_arguments(tokens: &Vec<Token>) -> (result: Result<Option<String>, String>)
    ensures
        arguments_result(result) == own_arguments(tokens.deep_view()),
{
    let ghost model = tokens.deep_view();
    if tokens.len() == 0 {
        return Ok(None);
    }
    assert(model[0] == tokens@[0]@);
    if !same_text(tokens[0].text.as_str(), "catga") {
        return Ok(None);
    }
    if tokens.len() == 1 {
        return Err("expected options in round brackets".to_owned());
    }
    assert(model[1] == tokens@[1]@);
    if same_text(tokens[1].text.as_str(), "=") {
        return Err("expected options in round brackets".to_owned());
    }
    match hold_between(tokens[1].text.as_str(), '(', ')') {
        Some(list) => Ok(Some(list)),
        None => if same_text(tokens[1].text.as_str(), ":") {
            Ok(None)
        } else {
            Err("expected options in round brackets".to_owned())
        },
    }
}

} // verus!
