//! A log of the calls to a model: what was sent, and what came back.
//!
//! The log is a file of lines, `~/.coraldesk/debug/llm_calls.jsonl`. Each line is one
//! entry, written as a JSON object, and the file keeps the newest of them.

use crate::lists;
use crate::paths::{PathParts, PathPartsView};
use crate::providers::{ChatMessage, ChatMessageView};
use crate::system;
use crate::text;
use std::path::PathBuf;
use vstd::prelude::*;
use vstd::utf8::*;

verus! {

/// The directory of the log, under the home directory.
pub const DEFAULT_DEBUG_DIR: &'static str = ".coraldesk/debug";

/// The name of the log's file.
pub const DEBUG_FILENAME: &'static str = "llm_calls.jsonl";

/// How many entries the log keeps.
pub const MAX_ENTRIES: usize = 500;

/// A message that was sent to the model.
#[derive(Debug, Clone)]
pub struct LlmDebugMessage {
    pub role: String,
    pub content: String,
    /// About how many characters the content holds: the length of its UTF-8 encoding.
    pub char_count: usize,
}

/// An `LlmDebugMessage`, with its texts as sequences of characters.
pub struct LlmDebugMessageView {
    pub role: Seq<char>,
    pub content: Seq<char>,
    pub char_count: nat,
}

impl DeepView for LlmDebugMessage {
    type V = LlmDebugMessageView;

    open spec fn deep_view(&self) -> LlmDebugMessageView {
        LlmDebugMessageView {
            role: self.role@,
            content: self.content@,
            char_count: self.char_count as nat,
        }
    }
}

/// A tool call of the model's response.
#[derive(Debug, Clone)]
pub struct LlmDebugToolCall {
    pub name: String,
    pub arguments: String,
}

/// An `LlmDebugToolCall`, with its texts as sequences of characters.
pub struct LlmDebugToolCallView {
    pub name: Seq<char>,
    pub arguments: Seq<char>,
}

impl DeepView for LlmDebugToolCall {
    type V = LlmDebugToolCallView;

    open spec fn deep_view(&self) -> LlmDebugToolCallView {
        LlmDebugToolCallView { name: self.name@, arguments: self.arguments@ }
    }
}

/// One call to a model.
#[derive(Debug, Clone)]
pub struct LlmDebugEntry {
    /// The identifier of this entry.
    pub id: String,
    /// When it was made, after ISO 8601.
    pub timestamp: String,
    /// The session in which it was made, if any.
    pub session_id: Option<String>,
    /// The name of the provider.
    pub provider: String,
    /// The name of the model.
    pub model: String,
    /// The bits of the temperature, as an IEEE 754 number of 64 bits.
    pub temperature_bits: u64,
    /// The round of the tool call loop, from 0.
    pub iteration: usize,
    /// The messages that were sent.
    pub request_messages: Vec<LlmDebugMessage>,
    /// The names of the tools that were offered.
    pub tool_names: Option<Vec<String>>,
    /// The text of the response.
    pub response_text: Option<String>,
    /// The tool calls of the response.
    pub response_tool_calls: Option<Vec<LlmDebugToolCall>>,
    /// How many tokens went in.
    pub input_tokens: Option<u64>,
    /// How many tokens came out.
    pub output_tokens: Option<u64>,
    /// How long the call took, in milliseconds.
    pub duration_ms: Option<u128>,
    /// Whether the call succeeded.
    pub success: bool,
    /// Why it failed.
    pub error: Option<String>,
    /// Why the model stopped.
    pub stop_reason: Option<String>,
}

/// An `LlmDebugEntry`, with its texts as sequences of characters.
pub struct LlmDebugEntryView {
    pub id: Seq<char>,
    pub timestamp: Seq<char>,
    pub session_id: Option<Seq<char>>,
    pub provider: Seq<char>,
    pub model: Seq<char>,
    pub temperature_bits: u64,
    pub iteration: usize,
    pub request_messages: Seq<LlmDebugMessageView>,
    pub tool_names: Option<Seq<Seq<char>>>,
    pub response_text: Option<Seq<char>>,
    pub response_tool_calls: Option<Seq<LlmDebugToolCallView>>,
    pub input_tokens: Option<u64>,
    pub output_tokens: Option<u64>,
    pub duration_ms: Option<u128>,
    pub success: bool,
    pub error: Option<Seq<char>>,
    pub stop_reason: Option<Seq<char>>,
}

impl DeepView for LlmDebugEntry {
    type V = LlmDebugEntryView;

    open spec fn deep_view(&self) -> LlmDebugEntryView {
        LlmDebugEntryView {
            id: self.id@,
            timestamp: self.timestamp@,
            session_id: self.session_id.deep_view(),
            provider: self.provider@,
            model: self.model@,
            temperature_bits: self.temperature_bits,
            iteration: self.iteration,
            request_messages: self.request_messages.deep_view(),
            tool_names: self.tool_names.deep_view(),
            response_text: self.response_text.deep_view(),
            response_tool_calls: self.response_tool_calls.deep_view(),
            input_tokens: self.input_tokens,
            output_tokens: self.output_tokens,
            duration_ms: self.duration_ms,
            success: self.success,
            error: self.error.deep_view(),
            stop_reason: self.stop_reason.deep_view(),
        }
    }
}

/// A chat message as the log holds it.
pub open spec fn logged_message(message: ChatMessageView) -> LlmDebugMessageView {
    LlmDebugMessageView {
        role: message.role,
        content: message.content,
        char_count: encode_utf8(message.content).len(),
    }
}

impl LlmDebugMessage {
    /// A chat message as the log holds it.
    pub fn from_chat_message(msg: &ChatMessage) -> (message: Self)
        ensures
            message.deep_view() == logged_message(msg.deep_view()),
    {
        LlmDebugMessage {
            role: msg.role.clone(),
            content: msg.content.clone(),
            char_count: msg.content.as_str().as_bytes().len(),
        }
    }
}

/// Chat messages as the log holds them.
pub open spec fn logged_messages(messages: Seq<ChatMessageView>) -> Seq<LlmDebugMessageView> {
    messages.map_values(|message: ChatMessageView| logged_message(message))
}

fn log_messages(messages: &[ChatMessage]) -> (logged: Vec<LlmDebugMessage>)
    ensures
        logged.deep_view() == logged_messages(messages.deep_view()),
{
    let mut logged: Vec<LlmDebugMessage> = Vec::new();
    let mut i: usize = 0;
    while i < messages.len()
        invariant
            i <= messages.len(),
            logged.len() == i,
            forall|j: int|
                0 <= j < i ==> (#[trigger] logged@[j]).deep_view() == logged_message(
                    messages@[j].deep_view(),
                ),
        decreases messages.len() - i,
    {
        logged.push(LlmDebugMessage::from_chat_message(&messages[i]));
        i += 1;
    }
    assert(logged.deep_view() =~= logged_messages(messages.deep_view()));
    logged
}

/// What is known of a call before it is made.
pub open spec fn request_entry_of(
    id: Seq<char>,
    timestamp: Seq<char>,
    session_id: Option<Seq<char>>,
    provider: Seq<char>,
    model: Seq<char>,
    temperature_bits: u64,
    iteration: usize,
    messages: Seq<ChatMessageView>,
    tool_names: Option<Seq<Seq<char>>>,
) -> LlmDebugEntryView {
    LlmDebugEntryView {
        id,
        timestamp,
        session_id,
        provider,
        model,
        temperature_bits,
        iteration,
        request_messages: logged_messages(messages),
        tool_names,
        response_text: None,
        response_tool_calls: None,
        input_tokens: None,
        output_tokens: None,
        duration_ms: None,
        success: false,
        error: None,
        stop_reason: None,
    }
}

/// Tool calls, each a name and its arguments, as the log holds them: none at all where
/// there are none.
pub open spec fn logged_calls(calls: Seq<(Seq<char>, Seq<char>)>) -> Option<
    Seq<LlmDebugToolCallView>,
> {
    if calls.len() == 0 {
        None
    } else {
        Some(
            calls.map_values(
                |call: (Seq<char>, Seq<char>)|
                    LlmDebugToolCallView { name: call.0, arguments: call.1 },
            ),
        )
    }
}

/// What is known of a call after it was made.
pub open spec fn response_entry_of(
    request: LlmDebugEntryView,
    response_text: Seq<char>,
    response_tool_calls: Seq<(Seq<char>, Seq<char>)>,
    input_tokens: Option<u64>,
    output_tokens: Option<u64>,
    duration_ms: u128,
    success: bool,
    error: Option<Seq<char>>,
    stop_reason: Option<Seq<char>>,
) -> LlmDebugEntryView {
    LlmDebugEntryView {
        response_text: Some(response_text),
        response_tool_calls: logged_calls(response_tool_calls),
        input_tokens,
        output_tokens,
        duration_ms: Some(duration_ms),
        success,
        error,
        stop_reason,
        ..request
    }
}

fn copy_text(value: Option<&str>) -> (copy: Option<String>)
    ensures
        copy.deep_view() == value.deep_view(),
{
    match value {
        Some(value) => Some(String::from_str(value)),
        None => None,
    }
}

fn log_calls(calls: &[(String, String)]) -> (logged: Option<Vec<LlmDebugToolCall>>)
    ensures
        logged.deep_view() == logged_calls(calls.deep_view()),
{
    if calls.len() == 0 {
        return None;
    }
    let mut logged: Vec<LlmDebugToolCall> = Vec::new();
    let mut i: usize = 0;
    while i < calls.len()
        invariant
            i <= calls.len(),
            logged.len() == i,
            forall|j: int|
                0 <= j < i ==> (#[trigger] logged@[j]).name@ == calls@[j].0@ && logged@[j].arguments@
                    == calls@[j].1@,
        decreases calls.len() - i,
    {
        logged.push(
            LlmDebugToolCall { name: calls[i].0.clone(), arguments: calls[i].1.clone() },
        );
        i += 1;
    }
    assert(logged.deep_view() =~= logged_calls(calls.deep_view())->0);
    Some(logged)
}

/// The entry of a call that is about to be made.
pub fn request_entry(
    id: String,
    timestamp: String,
    session_id: Option<&str>,
    provider: &str,
    model: &str,
    temperature_bits: u64,
    iteration: usize,
    messages: &[ChatMessage],
    tool_names: Option<Vec<String>>,
) -> (entry: LlmDebugEntry)
    ensures
        entry.deep_view() == request_entry_of(
            id@,
            timestamp@,
            session_id.deep_view(),
            provider@,
            model@,
            temperature_bits,
            iteration,
            messages.deep_view(),
            tool_names.deep_view(),
        ),
{
    LlmDebugEntry {
        id,
        timestamp,
        session_id: copy_text(session_id),
        provider: String::from_str(provider),
        model: String::from_str(model),
        temperature_bits,
        iteration,
        request_messages: log_messages(messages),
        tool_names,
        response_text: None,
        response_tool_calls: None,
        input_tokens: None,
        output_tokens: None,
        duration_ms: None,
        success: false,
        error: None,
        stop_reason: None,
    }
}

/// The entry of a call that was made, from that of the call before it was made.
pub fn response_entry(
    request: LlmDebugEntry,
    response_text: &str,
    response_tool_calls: &[(String, String)],
    input_tokens: Option<u64>,
    output_tokens: Option<u64>,
    duration_ms: u128,
    success: bool,
    error: Option<&str>,
    stop_reason: Option<&str>,
) -> (entry: LlmDebugEntry)
    ensures
        entry.deep_view() == response_entry_of(
            request.deep_view(),
            response_text@,
            response_tool_calls.deep_view(),
            input_tokens,
            output_tokens,
            duration_ms,
            success,
            error.deep_view(),
            stop_reason.deep_view(),
        ),
{
    LlmDebugEntry {
        response_text: Some(String::from_str(response_text)),
        response_tool_calls: log_calls(response_tool_calls),
        input_tokens,
        output_tokens,
        duration_ms: Some(duration_ms),
        success,
        error: copy_text(error),
        stop_reason: copy_text(stop_reason),
        ..request
    }
}

/// Where the log is written.
#[derive(Debug)]
pub struct LlmDebugLogger {
    path: PathParts,
}

impl DeepView for LlmDebugLogger {
    type V = PathPartsView;

    closed spec fn deep_view(&self) -> PathPartsView {
        self.path.deep_view()
    }
}

impl LlmDebugLogger {
    /// A log in the file of this path.
    pub fn new(path: PathParts) -> (logger: Self)
        ensures
            logger.deep_view() == path.deep_view(),
    {
        LlmDebugLogger { path }
    }

    /// The path of the log's file.
    pub fn get_path(&self) -> (path: &PathParts)
        ensures
            path.deep_view() == self.deep_view(),
    {
        &self.path
    }
}

/// Whether calls are logged, and where.
#[derive(Debug)]
pub struct LlmDebug {
    enabled: bool,
    logger: Option<LlmDebugLogger>,
}

/// An `LlmDebug`: its path is that of the log, once it is known.
pub struct LlmDebugView {
    pub enabled: bool,
    pub path: Option<PathPartsView>,
}

impl DeepView for LlmDebug {
    type V = LlmDebugView;

    closed spec fn deep_view(&self) -> LlmDebugView {
        LlmDebugView { enabled: self.enabled, path: self.logger.deep_view() }
    }
}

impl LlmDebug {
    /// Calls are not logged, and there is no log yet.
    pub fn new() -> (debug: Self)
        ensures
            debug.deep_view() == (LlmDebugView { enabled: false, path: None }),
    {
        LlmDebug { enabled: false, logger: None }
    }

    /// Calls are not logged yet; once they are, `logger` says where.
    pub fn with_logger(logger: LlmDebugLogger) -> (debug: Self)
        ensures
            debug.deep_view() == (LlmDebugView { enabled: false, path: Some(logger.deep_view()) }),
    {
        LlmDebug { enabled: false, logger: Some(logger) }
    }
}

/// The path of the log for a user with this home directory; without one, the log is under
/// the current directory.
pub open spec fn debug_path(home: Option<PathBuf>) -> PathPartsView {
    PathPartsView {
        base: home,
        parts: if home is Some {
            seq![DEFAULT_DEBUG_DIR@, DEBUG_FILENAME@]
        } else {
            seq!["."@, DEFAULT_DEBUG_DIR@, DEBUG_FILENAME@]
        },
    }
}

/// The path of the log for a user with this home directory.
pub fn debug_path_in(home: Option<PathBuf>) -> (path: PathParts)
    ensures
        path.deep_view() == debug_path(home),
{
    let mut parts: Vec<String> = Vec::new();
    if home.is_none() {
        parts.push(String::from_str("."));
    }
    parts.push(String::from_str(DEFAULT_DEBUG_DIR));
    parts.push(String::from_str(DEBUG_FILENAME));
    assert(parts.deep_view() =~= debug_path(home).parts);
    PathParts { base: home, parts }
}

/// The path of the log.
pub fn resolve_debug_path() -> (path: PathParts)
    ensures
        exists|home: Option<PathBuf>| #[trigger]
            system::is_home(home) && path.deep_view() == debug_path(home),
{
    let home = system::home_directory();
    debug_path_in(home)
}

/// Whether `after` is `before` with a log: the one that it has, or else the one of the
/// user of this machine.
pub open spec fn gets_log(before: LlmDebugView, after: LlmDebugView) -> bool {
    if before.path is Some {
        after == before
    } else {
        exists|home: Option<PathBuf>| #[trigger]
            system::is_home(home) && after == (LlmDebugView {
                path: Some(debug_path(home)),
                ..before
            })
    }
}

/// Sees to it that there is a log, and returns where it is.
pub fn ensure_logger(debug: &mut LlmDebug) -> (logger: LlmDebugLogger)
    ensures
        gets_log(old(debug).deep_view(), final(debug).deep_view()),
        final(debug).deep_view().path == Some(logger.deep_view()),
{
    if let Some(logger) = &debug.logger {
        return LlmDebugLogger { path: logger.path.clone() };
    }
    let path = resolve_debug_path();
    let copy = path.clone();
    debug.logger = Some(LlmDebugLogger { path });
    LlmDebugLogger { path: copy }
}

/// Whether calls are logged.
pub fn is_enabled(debug: &LlmDebug) -> (enabled: bool)
    ensures
        enabled == debug.deep_view().enabled,
{
    debug.enabled
}

/// Sets whether calls are logged. Where they are, there is a log afterwards.
pub fn set_enabled(debug: &mut LlmDebug, enabled: bool)
    ensures
        if enabled {
            gets_log(
                (LlmDebugView { enabled, ..old(debug).deep_view() }),
                final(debug).deep_view(),
            )
        } else {
            final(debug).deep_view() == (LlmDebugView { enabled, ..old(debug).deep_view() })
        },
{
    debug.enabled = enabled;
    if enabled {
        let _logger = ensure_logger(debug);
    }
}

/// The entry that is to be logged before a call to a model, if calls are logged. Its
/// identifier is to be handed to `record_response`.
pub fn record_request(
    debug: &mut LlmDebug,
    session_id: Option<&str>,
    provider: &str,
    model: &str,
    temperature_bits: u64,
    iteration: usize,
    messages: &[ChatMessage],
    tool_names: Option<Vec<String>>,
) -> (entry: Option<LlmDebugEntry>)
    ensures
        entry is Some == old(debug).deep_view().enabled,
        entry is None ==> final(debug).deep_view() == old(debug).deep_view(),
        entry is Some ==> {
            &&& gets_log(old(debug).deep_view(), final(debug).deep_view())
            &&& system::is_fresh_id(entry->0.deep_view().id)
            &&& system::is_random_uuid(entry->0.deep_view().id)
            &&& system::is_present_moment(entry->0.deep_view().timestamp)
            &&& system::is_moment(entry->0.deep_view().timestamp)
            &&& entry->0.deep_view() == request_entry_of(
                entry->0.deep_view().id,
                entry->0.deep_view().timestamp,
                session_id.deep_view(),
                provider@,
                model@,
                temperature_bits,
                iteration,
                messages.deep_view(),
                tool_names.deep_view(),
            )
        },
{
    if !is_enabled(debug) {
        return None;
    }
    let entry = request_entry(
        system::fresh_id(),
        system::utc_timestamp(),
        session_id,
        provider,
        model,
        temperature_bits,
        iteration,
        messages,
        tool_names,
    );
    let _logger = ensure_logger(debug);
    Some(entry)
}

/// The entry that is to be logged after a call to a model, if calls are logged.
pub fn record_response(
    debug: &mut LlmDebug,
    request_id: Option<&str>,
    session_id: Option<&str>,
    provider: &str,
    model: &str,
    temperature_bits: u64,
    iteration: usize,
    messages: &[ChatMessage],
    tool_names: Option<Vec<String>>,
    response_text: &str,
    response_tool_calls: &[(String, String)],
    input_tokens: Option<u64>,
    output_tokens: Option<u64>,
    duration_ms: u128,
    success: bool,
    error: Option<&str>,
    stop_reason: Option<&str>,
) -> (entry: Option<LlmDebugEntry>)
    ensures
        entry is Some == old(debug).deep_view().enabled,
        entry is None ==> final(debug).deep_view() == old(debug).deep_view(),
        entry is Some ==> {
            &&& gets_log(old(debug).deep_view(), final(debug).deep_view())
            &&& match request_id {
                Some(id) => entry->0.deep_view().id == id@,
                None => system::is_fresh_id(entry->0.deep_view().id) && system::is_random_uuid(
                    entry->0.deep_view().id,
                ),
            }
            &&& system::is_present_moment(entry->0.deep_view().timestamp)
            &&& system::is_moment(entry->0.deep_view().timestamp)
            &&& entry->0.deep_view() == response_entry_of(
                request_entry_of(
                    entry->0.deep_view().id,
                    entry->0.deep_view().timestamp,
                    session_id.deep_view(),
                    provider@,
                    model@,
                    temperature_bits,
                    iteration,
                    messages.deep_view(),
                    tool_names.deep_view(),
                ),
                response_text@,
                response_tool_calls.deep_view(),
                input_tokens,
                output_tokens,
                duration_ms,
                success,
                error.deep_view(),
                stop_reason.deep_view(),
            )
        },
{
    if !is_enabled(debug) {
        return None;
    }
    let id = match request_id {
        Some(id) => String::from_str(id),
        None => system::fresh_id(),
    };
    let request = request_entry(
        id,
        system::utc_timestamp(),
        session_id,
        provider,
        model,
        temperature_bits,
        iteration,
        messages,
        tool_names,
    );
    let entry = response_entry(
        request,
        response_text,
        response_tool_calls,
        input_tokens,
        output_tokens,
        duration_ms,
        success,
        error,
        stop_reason,
    );
    let _logger = ensure_logger(debug);
    Some(entry)
}

/// The path of the log.
pub fn get_log_path(debug: &mut LlmDebug) -> (path: PathParts)
    ensures
        gets_log(old(debug).deep_view(), final(debug).deep_view()),
        final(debug).deep_view().path == Some(path.deep_view()),
{
    ensure_logger(debug).path
}

/// The path of the file to remove so that the log is empty: that of the log, where there
/// is such a file.
pub open spec fn path_to_remove(debug: LlmDebugView, is_there: bool) -> Option<PathPartsView> {
    if is_there {
        debug.path
    } else {
        None
    }
}

/// The path of the file to remove so that the log is empty, where there is such a file.
/// Whether calls are logged, and where, stays.
pub fn clear_entries(debug: &mut LlmDebug, is_there: bool) -> (path: Option<PathParts>)
    ensures
        gets_log(old(debug).deep_view(), final(debug).deep_view()),
        final(debug).deep_view().enabled == old(debug).deep_view().enabled,
        path.deep_view() == path_to_remove(final(debug).deep_view(), is_there),
        is_there == (path is Some),
{
    let path = get_log_path(debug);
    if is_there {
        Some(path)
    } else {
        None
    }
}

/// Whether a line holds more than white space.
pub open spec fn is_written(line: Seq<char>) -> bool {
    text::trimmed(line).len() > 0
}

/// The lines of the log, but for blank ones.
pub open spec fn log_lines(raw: Seq<char>) -> Seq<Seq<char>> {
    text::line_seq(raw).filter(|line: Seq<char>| is_written(line))
}

/// The texts of the log's entries, in the order in which they were written.
pub open spec fn entry_texts(raw: Seq<char>) -> Seq<Seq<char>> {
    log_lines(raw).map_values(|line: Seq<char>| text::trimmed(line))
}

/// The texts of the entries of a log's file; where there is no file there are none.
pub open spec fn stored_texts(file: Option<Seq<char>>) -> Seq<Seq<char>> {
    match file {
        Some(raw) => entry_texts(raw),
        None => Seq::empty(),
    }
}

/// What the log is replaced with once it has too many lines.
pub open spec fn rewritten_log(raw: Seq<char>) -> Option<Seq<char>> {
    if log_lines(raw).len() <= MAX_ENTRIES {
        None
    } else {
        Some(text::joined(lists::last_of(log_lines(raw), MAX_ENTRIES as nat), "\n"@).push('\n'))
    }
}

/// The lines of a log, but for blank ones.
pub fn written_lines(raw: &str) -> (lines: Vec<String>)
    ensures
        lines.deep_view() == log_lines(raw@),
{
    let all = text::lines(raw);
    let ghost whole = all.deep_view();
    let ghost pred = |line: Seq<char>| is_written(line);
    let mut lines: Vec<String> = Vec::new();
    let mut i: usize = 0;
    assert(whole.take(0).filter(pred) =~= Seq::<Seq<char>>::empty()) by {
        lists::filter_none(whole.take(0), pred);
    }
    while i < all.len()
        invariant
            i <= all.len(),
            whole == all.deep_view(),
            pred == (|line: Seq<char>| is_written(line)),
            lines.deep_view() == whole.take(i as int).filter(pred),
        decreases all.len() - i,
    {
        proof {
            assert(whole.take(i + 1) =~= whole.take(i as int).push(whole[i as int]));
            lists::filter_push(whole.take(i as int), whole[i as int], pred);
        }
        let ghost before = lines.deep_view();
        if !text::is_blank(all[i].as_str()) {
            lines.push(all[i].clone());
            assert(lines.deep_view() =~= before.push(whole[i as int]));
        }
        i += 1;
    }
    assert(whole.take(i as int) =~= whole);
    lines
}

/// The texts of the entries of a log's file, in the order in which they were written; where
/// there is no file there are none.
pub fn written_entries(file: Option<&str>) -> (texts: Vec<String>)
    ensures
        texts.deep_view() == stored_texts(file.deep_view()),
{
    let raw = match file {
        Some(raw) => raw,
        None => {
            let none: Vec<String> = Vec::new();
            assert(none.deep_view() =~= Seq::<Seq<char>>::empty());
            return none;
        },
    };
    let lines = written_lines(raw);
    let mut texts: Vec<String> = Vec::new();
    let mut i: usize = 0;
    while i < lines.len()
        invariant
            i <= lines.len(),
            texts.len() == i,
            forall|j: int| 0 <= j < i ==> (#[trigger] texts@[j])@ == text::trimmed(lines@[j]@),
        decreases lines.len() - i,
    {
        texts.push(text::trim(lines[i].as_str()));
        i += 1;
    }
    assert(texts.deep_view() =~= entry_texts(raw@));
    texts
}

/// What is added to the log for an entry with this text.
pub fn framed_entry(entry: &str) -> (line: String)
    ensures
        line@ == entry@.push('\n'),
{
    let mut line = String::from_str(entry);
    line.push('\n');
    line
}

/// What the log is to be replaced with, if it has too many lines.
pub fn trim_if_needed(raw: &str) -> (rewritten: Option<String>)
    ensures
        rewritten.deep_view() == rewritten_log(raw@),
{
    let lines = written_lines(raw);
    if lines.len() <= MAX_ENTRIES {
        return None;
    }
    let from: usize = lines.len() - MAX_ENTRIES;
    let mut kept: Vec<String> = Vec::new();
    let mut i: usize = from;
    while i < lines.len()
        invariant
            from <= i <= lines.len(),
            kept.len() == i - from,
            forall|j: int| 0 <= j < i - from ==> (#[trigger] kept@[j])@ == lines@[from + j]@,
        decreases lines.len() - i,
    {
        kept.push(lines[i].clone());
        i += 1;
    }
    assert(kept.deep_view() =~= lists::last_of(log_lines(raw@), MAX_ENTRIES as nat));
    let mut rewritten = text::join(&kept, "\n");
    rewritten.push('\n');
    Some(rewritten)
}

/// Whether an entry is of the session that is asked for, if one is.
pub open spec fn in_session(entry: LlmDebugEntryView, session: Option<Seq<char>>) -> bool {
    session is Some ==> entry.session_id == session
}

/// The entries that were asked for, in the order in which they were written. What
/// could not be read as an entry is `None`.
pub open spec fn matching_entries(
    parsed: Seq<Option<LlmDebugEntryView>>,
    session: Option<Seq<char>>,
) -> Seq<LlmDebugEntryView> {
    parsed.filter(
        |entry: Option<LlmDebugEntryView>| entry is Some && in_session(entry->0, session),
    ).map_values(|entry: Option<LlmDebugEntryView>| entry->0)
}

/// The newest entries that were asked for, the newest first and no more than `limit`.
pub open spec fn loaded_entries(
    parsed: Seq<Option<LlmDebugEntryView>>,
    limit: nat,
    session: Option<Seq<char>>,
) -> Seq<LlmDebugEntryView> {
    lists::last_of(matching_entries(parsed, session), limit).reverse()
}

/// The newest entries of the log, the newest first and no more than `limit`; where a
/// session is given, only those of that session. `parsed` has what was read of each
/// entry's text, in their order, and `None` where that is no entry.
pub fn load_entries(
    parsed: Vec<Option<LlmDebugEntry>>,
    limit: usize,
    session_filter: Option<&str>,
) -> (entries: Vec<LlmDebugEntry>)
    ensures
        entries.deep_view() == loaded_entries(
            parsed.deep_view(),
            limit as nat,
            session_filter.deep_view(),
        ),
{
    let ghost all = parsed.deep_view();
    let ghost session = session_filter.deep_view();
    let ghost pred = |entry: Option<LlmDebugEntryView>|
        entry is Some && in_session(entry->0, session);
    let ghost inside = |entry: Option<LlmDebugEntryView>| entry->0;
    let mut matching: Vec<LlmDebugEntry> = Vec::new();
    assert(matching.deep_view() =~= matching_entries(all.take(0), session)) by {
        lists::filter_none(all.take(0), pred);
    }
    for entry in it: parsed
        invariant
            it.seq() == parsed@,
            all == parsed.deep_view(),
            session == session_filter.deep_view(),
            pred == (|entry: Option<LlmDebugEntryView>|
                entry is Some && in_session(entry->0, session)),
            inside == (|entry: Option<LlmDebugEntryView>| entry->0),
            matching.deep_view() == matching_entries(all.take(it.index() as int), session),
    {
        let ghost i = it.index() as int;
        let ghost next = entry.deep_view();
        proof {
            assert(next == all[i]);
            assert(all.take(i + 1) =~= all.take(i).push(next));
            lists::filter_push(all.take(i), next, pred);
            assert(all.take(i).filter(pred).push(next).map_values(inside) =~= all.take(i).filter(
                pred,
            ).map_values(inside).push(inside(next)));
        }
        let ghost before = matching.deep_view();
        if let Some(entry) = entry {
            let wanted = match session_filter {
                Some(session) => match &entry.session_id {
                    Some(id) => text::same_text(id.as_str(), session),
                    None => false,
                },
                None => true,
            };
            assert(wanted == in_session(entry.deep_view(), session));
            if wanted {
                matching.push(entry);
                assert(matching.deep_view() =~= before.push(next->0));
            }
        }
    }
    assert(all.take(all.len() as int) =~= all);
    let ghost whole = matching.deep_view();
    let mut entries: Vec<LlmDebugEntry> = Vec::new();
    while entries.len() < limit && matching.len() > 0
        invariant
            entries.len() <= limit,
            matching.len() + entries.len() == whole.len(),
            matching.deep_view() == whole.take(matching.len() as int),
            entries.deep_view() == whole.skip(matching.len() as int).reverse(),
        decreases matching.len(),
    {
        let ghost n = matching.len() as int;
        let ghost had = entries.deep_view();
        let ghost left = matching.deep_view();
        assert(matching@[n - 1].deep_view() == left[n - 1]);
        if let Some(entry) = matching.pop() {
            assert(matching.deep_view() =~= left.drop_last());
            assert(matching.deep_view() =~= whole.take(n - 1));
            assert(entry.deep_view() == whole[n - 1]);
            entries.push(entry);
            assert(entries.deep_view() =~= had.push(whole[n - 1]));
            assert(entries.deep_view() =~= whole.skip(n - 1).reverse());
        }
    }
    assert(whole.skip(0) =~= whole);
    entries
}

/// The log after an entry with this text was added to it.
pub open spec fn grown_log(raw: Seq<char>, entry: Seq<char>) -> Seq<char> {
    let grown = raw + entry.push('\n');
    match rewritten_log(grown) {
        Some(rewritten) => rewritten,
        None => grown,
    }
}

/// Whether a log ends with a whole line, if it has any.
pub open spec fn is_whole(raw: Seq<char>) -> bool {
    raw.len() == 0 || raw.last() == '\n'
}

/// Rewriting a log keeps the newest of its entries, as they were, and none is left to be
/// rewritten.
pub proof fn rewriting_keeps_newest(raw: Seq<char>)
    requires
        rewritten_log(raw) is Some,
    ensures
        is_whole(rewritten_log(raw)->0),
        entry_texts(rewritten_log(raw)->0) == lists::last_of(entry_texts(raw), MAX_ENTRIES as nat),
        rewritten_log(rewritten_log(raw)->0) is None,
{
    let pred = |line: Seq<char>| is_written(line);
    let strip = |line: Seq<char>| text::without_return(line);
    let trim = |line: Seq<char>| text::trimmed(line);
    let lines = log_lines(raw);
    let kept = lists::last_of(lines, MAX_ENTRIES as nat);
    let rewritten = rewritten_log(raw)->0;
    text::lines_hold_no_feed(raw);
    lists::filter_keeps(text::line_seq(raw), pred);
    assert forall|i: int| 0 <= i < kept.len() implies !(#[trigger] kept[i]).contains('\n')
        && is_written(kept[i]) by {
        let line = lines[i + lines.len() - MAX_ENTRIES];
        assert(pred(line) && text::line_seq(raw).contains(line));
    }
    text::written_lines_are_read(kept);
    let read = kept.map_values(strip);
    assert forall|i: int| 0 <= i < read.len() implies pred(#[trigger] read[i]) by {
        text::return_is_trimmed(kept[i]);
    }
    lists::filter_all(read, pred);
    assert(log_lines(rewritten) == read);
    assert(read.map_values(trim) =~= lists::last_of(entry_texts(raw), MAX_ENTRIES as nat)) by {
        assert forall|i: int| 0 <= i < read.len() implies #[trigger] read.map_values(trim)[i]
            == lists::last_of(entry_texts(raw), MAX_ENTRIES as nat)[i] by {
            text::return_is_trimmed(kept[i]);
        }
    }
}

/// What is read back of a log after an entry was added: the entries it had and the new
/// one behind them, of all of which the newest are kept. An entry is written without
/// white space around it and without line feeds.
pub proof fn added_entry_is_read_back(raw: Seq<char>, entry: Seq<char>)
    requires
        is_whole(raw),
        !entry.contains('\n'),
        text::trimmed(entry) == entry,
        entry.len() > 0,
    ensures
        is_whole(grown_log(raw, entry)),
        entry_texts(grown_log(raw, entry)) == lists::last_of(
            entry_texts(raw).push(entry),
            MAX_ENTRIES as nat,
        ),
{
    let pred = |line: Seq<char>| is_written(line);
    let trim = |line: Seq<char>| text::trimmed(line);
    let grown = raw + entry.push('\n');
    text::lines_follow_lines(raw, entry.push('\n'));
    text::written_line_is_read(entry);
    text::trimmed_text_ends_black(entry);
    assert(text::without_return(entry) == entry);
    assert(text::line_seq(grown) =~= text::line_seq(raw).push(entry));
    lists::filter_push(text::line_seq(raw), entry, pred);
    assert(log_lines(grown) == log_lines(raw).push(entry));
    assert(entry_texts(grown) =~= entry_texts(raw).push(entry));
    assert(grown.last() == '\n');
    if rewritten_log(grown) is Some {
        rewriting_keeps_newest(grown);
    }
}

/// However it began, a log to which an entry was added holds no more entries than are
/// kept.
pub proof fn log_is_bounded(raw: Seq<char>, entry: Seq<char>)
    ensures
        entry_texts(grown_log(raw, entry)).len() <= MAX_ENTRIES,
{
    let grown = raw + entry.push('\n');
    if rewritten_log(grown) is Some {
        rewriting_keeps_newest(grown);
    }
}

/// The entry that was written last is loaded first, before those that would be loaded
/// without it.
pub proof fn newest_is_loaded_first(
    parsed: Seq<Option<LlmDebugEntryView>>,
    entry: LlmDebugEntryView,
    limit: nat,
    session: Option<Seq<char>>,
)
    requires
        limit > 0,
        in_session(entry, session),
    ensures
        loaded_entries(parsed.push(Some(entry)), limit, session) == seq![entry] + loaded_entries(
            parsed,
            (limit - 1) as nat,
            session,
        ),
{
    let pred = |e: Option<LlmDebugEntryView>| e is Some && in_session(e->0, session);
    let inside = |e: Option<LlmDebugEntryView>| e->0;
    lists::filter_push(parsed, Some(entry), pred);
    assert(matching_entries(parsed.push(Some(entry)), session) =~= matching_entries(
        parsed,
        session,
    ).push(entry));
    assert(loaded_entries(parsed.push(Some(entry)), limit, session) =~= seq![entry]
        + loaded_entries(parsed, (limit - 1) as nat, session));
}

/// What cannot be read as an entry, and what is of another session, counts for nothing.
pub proof fn unwanted_is_skipped(
    parsed: Seq<Option<LlmDebugEntryView>>,
    entry: Option<LlmDebugEntryView>,
    limit: nat,
    session: Option<Seq<char>>,
)
    requires
        entry is Some ==> !in_session(entry->0, session),
    ensures
        loaded_entries(parsed.push(entry), limit, session) == loaded_entries(
            parsed,
            limit,
            session,
        ),
{
    let pred = |e: Option<LlmDebugEntryView>| e is Some && in_session(e->0, session);
    lists::filter_push(parsed, entry, pred);
}

/// No more entries are loaded than were asked for, and only such as are in the log and
/// of the session that was asked for.
pub proof fn loaded_entries_were_asked_for(
    parsed: Seq<Option<LlmDebugEntryView>>,
    limit: nat,
    session: Option<Seq<char>>,
)
    ensures
        loaded_entries(parsed, limit, session).len() <= limit,
        forall|i: int|
            0 <= i < loaded_entries(parsed, limit, session).len() ==> in_session(
                #[trigger] loaded_entries(parsed, limit, session)[i],
                session,
            ) && parsed.contains(Some(loaded_entries(parsed, limit, session)[i])),
{
    let pred = |e: Option<LlmDebugEntryView>| e is Some && in_session(e->0, session);
    let matching = matching_entries(parsed, session);
    let loaded = loaded_entries(parsed, limit, session);
    lists::filter_keeps(parsed, pred);
    assert forall|i: int| 0 <= i < loaded.len() implies in_session(#[trigger] loaded[i], session)
        && parsed.contains(Some(loaded[i])) by {
        let j = matching.len() - 1 - i;
        let found = parsed.filter(pred)[j];
        assert(pred(found));
        assert(loaded[i] == matching[j]);
        assert(found == Some(loaded[i]));
    }
}

/// The log's file after a removal, if one was asked for.
pub open spec fn file_after_removal(
    file: Option<Seq<char>>,
    removed: Option<PathPartsView>,
) -> Option<Seq<char>> {
    if removed is Some {
        None
    } else {
        file
    }
}

/// Once the file that `clear_entries` names is removed there is no file, nothing is loaded
/// whatever is asked for, and clearing again has nothing to remove. Where there was no file
/// none is made.
pub proof fn cleared_log_is_empty(
    debug: LlmDebugView,
    file: Option<Seq<char>>,
    parsed: Seq<Option<LlmDebugEntryView>>,
    limit: nat,
    session: Option<Seq<char>>,
)
    requires
        debug.path is Some,
        parsed.len() == stored_texts(
            file_after_removal(file, path_to_remove(debug, file is Some)),
        ).len(),
    ensures
        file_after_removal(file, path_to_remove(debug, file is Some)) is None,
        stored_texts(file_after_removal(file, path_to_remove(debug, file is Some))).len() == 0,
        loaded_entries(parsed, limit, session) == Seq::<LlmDebugEntryView>::empty(),
        path_to_remove(debug, false) is None,
{
    let pred = |e: Option<LlmDebugEntryView>| e is Some && in_session(e->0, session);
    lists::filter_none(parsed, pred);
    assert(loaded_entries(parsed, limit, session) =~= Seq::<LlmDebugEntryView>::empty());
}

/// Asking where the log is, or clearing it, does not change whether calls are logged, nor
/// where the log is once that is known.
pub proof fn log_stays_where_it_is(
    before: LlmDebugView,
    after: LlmDebugView,
    later: LlmDebugView,
)
    requires
        gets_log(before, after),
        gets_log(after, later),
    ensures
        later == after,
        after.path is Some,
        after.enabled == before.enabled,
        before.path is Some ==> after.path == before.path,
{
}

/// Every message that is sent is logged, in order, with its role and its whole content, and
/// with the length of its content in bytes.
pub proof fn every_message_is_logged(messages: Seq<ChatMessageView>)
    ensures
        logged_messages(messages).len() == messages.len(),
        forall|i: int|
            0 <= i < messages.len() ==> {
                &&& (#[trigger] logged_messages(messages)[i]).role == messages[i].role
                &&& logged_messages(messages)[i].content == messages[i].content
                &&& logged_messages(messages)[i].char_count == encode_utf8(
                    messages[i].content,
                ).len()
            },
{
}

/// Every tool call of a response is logged, in order, with its name and its arguments; a
/// response without tool calls has none logged.
pub proof fn every_call_is_logged(calls: Seq<(Seq<char>, Seq<char>)>)
    ensures
        calls.len() == 0 <==> logged_calls(calls) is None,
        calls.len() > 0 ==> logged_calls(calls)->0.len() == calls.len(),
        forall|i: int|
            0 <= i < calls.len() ==> {
                &&& (#[trigger] logged_calls(calls)->0[i]).name == calls[i].0
                &&& logged_calls(calls)->0[i].arguments == calls[i].1
            },
{
}

/// The entry of a request holds everything that is known before the call, and nothing of a
/// response.
pub proof fn request_is_logged_whole(
    id: Seq<char>,
    timestamp: Seq<char>,
    session_id: Option<Seq<char>>,
    provider: Seq<char>,
    model: Seq<char>,
    temperature_bits: u64,
    iteration: usize,
    messages: Seq<ChatMessageView>,
    tool_names: Option<Seq<Seq<char>>>,
)
    ensures
        ({
            let entry = request_entry_of(
                id,
                timestamp,
                session_id,
                provider,
                model,
                temperature_bits,
                iteration,
                messages,
                tool_names,
            );
            &&& entry.id == id
            &&& entry.timestamp == timestamp
            &&& entry.session_id == session_id
            &&& entry.provider == provider
            &&& entry.model == model
            &&& entry.temperature_bits == temperature_bits
            &&& entry.iteration == iteration
            &&& entry.request_messages.len() == messages.len()
            &&& forall|i: int|
                0 <= i < messages.len() ==> (#[trigger] entry.request_messages[i]).content
                    == messages[i].content && entry.request_messages[i].role == messages[i].role
            &&& entry.tool_names == tool_names
            &&& entry.response_text is None && entry.response_tool_calls is None
            &&& entry.input_tokens is None && entry.output_tokens is None
            &&& entry.duration_ms is None && entry.error is None && entry.stop_reason is None
            &&& !entry.success
        }),
{
    every_message_is_logged(messages);
}

/// The entry of a response holds what that of its request holds, and the whole response beside
/// it.
pub proof fn response_is_logged_whole(
    request: LlmDebugEntryView,
    response_text: Seq<char>,
    calls: Seq<(Seq<char>, Seq<char>)>,
    input_tokens: Option<u64>,
    output_tokens: Option<u64>,
    duration_ms: u128,
    success: bool,
    error: Option<Seq<char>>,
    stop_reason: Option<Seq<char>>,
)
    ensures
        ({
            let entry = response_entry_of(
                request,
                response_text,
                calls,
                input_tokens,
                output_tokens,
                duration_ms,
                success,
                error,
                stop_reason,
            );
            &&& entry.id == request.id
            &&& entry.timestamp == request.timestamp
            &&& entry.session_id == request.session_id
            &&& entry.provider == request.provider
            &&& entry.model == request.model
            &&& entry.temperature_bits == request.temperature_bits
            &&& entry.iteration == request.iteration
            &&& entry.request_messages == request.request_messages
            &&& entry.tool_names == request.tool_names
            &&& entry.response_text == Some(response_text)
            &&& entry.input_tokens == input_tokens
            &&& entry.output_tokens == output_tokens
            &&& entry.duration_ms == Some(duration_ms)
            &&& entry.success == success
            &&& entry.error == error
            &&& entry.stop_reason == stop_reason
            &&& calls.len() == 0 <==> entry.response_tool_calls is None
            &&& calls.len() > 0 ==> entry.response_tool_calls->0.len() == calls.len()
            &&& forall|i: int|
                0 <= i < calls.len() ==> (#[trigger] entry.response_tool_calls->0[i]).name
                    == calls[i].0 && entry.response_tool_calls->0[i].arguments == calls[i].1
        }),
{
    every_call_is_logged(calls);
}

/// A log is read line by line: a line that holds more than white space is an entry, without
/// the white space around it, and a blank line is nothing.
pub proof fn log_is_read_by_lines(raw: Seq<char>, line: Seq<char>)
    requires
        is_whole(raw),
        !line.contains('\n'),
    ensures
        entry_texts(Seq::<char>::empty()) == Seq::<Seq<char>>::empty(),
        entry_texts(raw + line.push('\n')) == (if text::all_white(line) {
            entry_texts(raw)
        } else {
            entry_texts(raw).push(text::trimmed(line))
        }),
        entry_texts(raw + line) == entry_texts(raw + line.push('\n')),
{
    let pred = |l: Seq<char>| is_written(l);
    let trim = |l: Seq<char>| text::trimmed(l);
    let none = Seq::<char>::empty();
    assert(text::line_seq(none) =~= Seq::<Seq<char>>::empty());
    lists::filter_none(Seq::<Seq<char>>::empty(), pred);
    assert(entry_texts(none) =~= Seq::<Seq<char>>::empty());
    let bare = text::without_return(line);
    text::lines_follow_lines(raw, line.push('\n'));
    text::written_line_is_read(line);
    assert(text::line_seq(raw + line.push('\n')) =~= text::line_seq(raw).push(bare));
    lists::filter_push(text::line_seq(raw), bare, pred);
    text::return_is_trimmed(line);
    text::blank_is_all_white(line);
    if is_written(bare) {
        assert(entry_texts(raw + line.push('\n')) =~= entry_texts(raw).push(text::trimmed(bare)));
    }
    text::lines_follow_lines(raw, line);
    text::unfinished_line_is_read(line);
    if line.len() == 0 {
        assert(text::line_seq(raw + line) =~= text::line_seq(raw));
    } else {
        assert(text::line_seq(raw + line) =~= text::line_seq(raw).push(line));
        lists::filter_push(text::line_seq(raw), line, pred);
        if is_written(line) {
            assert(entry_texts(raw + line) =~= entry_texts(raw).push(text::trimmed(line)));
        }
    }
}

/// A log is rewritten if and only if it has more than 500 entries; then the newest 500 are
/// what it ends with, as they were.
pub proof fn long_log_is_cut_to_its_end(raw: Seq<char>)
    ensures
        rewritten_log(raw) is Some <==> entry_texts(raw).len() > 500,
        rewritten_log(raw) is Some ==> entry_texts(rewritten_log(raw)->0).len() == 500
            && entry_texts(rewritten_log(raw)->0).is_suffix_of(entry_texts(raw)),
{
    if rewritten_log(raw) is Some {
        rewriting_keeps_newest(raw);
        lists::last_ones_end_the_list(entry_texts(raw), 500);
    }
}

/// Without a session every entry is asked for; with one, those that bear it.
pub proof fn session_is_the_entrys(entry: LlmDebugEntryView, session: Seq<char>)
    ensures
        in_session(entry, None),
        in_session(entry, Some(session)) <==> entry.session_id == Some(session),
{
}

/// Nothing is loaded of an empty log, nor where nothing is asked for.
pub proof fn nothing_is_loaded_of_nothing(
    parsed: Seq<Option<LlmDebugEntryView>>,
    limit: nat,
    session: Option<Seq<char>>,
)
    ensures
        loaded_entries(Seq::<Option<LlmDebugEntryView>>::empty(), limit, session).len() == 0,
        loaded_entries(parsed, 0, session).len() == 0,
{
    let pred = |e: Option<LlmDebugEntryView>| e is Some && in_session(e->0, session);
    lists::filter_none(Seq::<Option<LlmDebugEntryView>>::empty(), pred);
}

/// The log of a user is in the home directory, under `.coraldesk/debug`, and without one in
/// the current directory.
pub proof fn log_is_in_the_home_directory(home: PathBuf)
    ensures
        debug_path(Some(home)).base == Some(home),
        debug_path(Some(home)).parts == seq![".coraldesk/debug"@, "llm_calls.jsonl"@],
        debug_path(None).base is None,
        debug_path(None).parts == seq!["."@, ".coraldesk/debug"@, "llm_calls.jsonl"@],
{
}

} // verus!
