//! Team shared context for collaboration between roles.
//!
//! The `team_context` tool lets roles read, write and list context entries that they
//! share, so that findings, decisions and intermediate results need not be passed on
//! by hand. The entries are kept by a coordination bus, with a version each. The tool
//! itself reaches no service: each of its functions takes what came back from the bus
//! or from the security policy and says what is needed next.

use crate::json;
use crate::lists;
use crate::system;
use crate::text;
use crate::tools::schema;
use crate::tools::traits::{ToolError, ToolResult};
use crate::tools::traits;
use vstd::prelude::*;

verus! {

/// Maximum context value size in characters.
pub const MAX_CONTEXT_VALUE_CHARS: usize = 8000;

/// Maximum number of entries to return in a list operation.
pub const MAX_LIST_ENTRIES: usize = 50;

/// How many bytes of a value are shown in a list.
pub const PREVIEW_BYTES: usize = 200;

/// What a context entry holds.
#[derive(Debug)]
pub enum ContextValue {
    /// A JSON string, as the text that it stands for.
    Text(String),
    /// Any other JSON value.
    Json(serde_json::Value),
}

/// A `ContextValue`, with its text as a sequence of characters; a JSON value is viewed as
/// its compact text.
pub enum ContextValueView {
    Text(Seq<char>),
    Json(Seq<char>),
}

impl DeepView for ContextValue {
    type V = ContextValueView;

    open spec fn deep_view(&self) -> ContextValueView {
        match self {
            ContextValue::Text(value) => ContextValueView::Text(value@),
            ContextValue::Json(value) => ContextValueView::Json(json::json_text(*value)),
        }
    }
}

/// An entry of the shared context.
#[derive(Debug)]
pub struct SharedContextEntry {
    pub value: ContextValue,
    pub version: u64,
    pub updated_by: String,
}

/// A `SharedContextEntry`, with its texts as sequences of characters.
pub struct SharedContextEntryView {
    pub value: ContextValueView,
    pub version: u64,
    pub updated_by: Seq<char>,
}

impl DeepView for SharedContextEntry {
    type V = SharedContextEntryView;

    open spec fn deep_view(&self) -> SharedContextEntryView {
        SharedContextEntryView {
            value: self.value.deep_view(),
            version: self.version,
            updated_by: self.updated_by@,
        }
    }
}

/// An entry of the shared context under its key.
#[derive(Debug)]
pub struct KeyedEntry {
    pub key: String,
    pub entry: SharedContextEntry,
}

/// A `KeyedEntry`, with its texts as sequences of characters.
pub struct KeyedEntryView {
    pub key: Seq<char>,
    pub entry: SharedContextEntryView,
}

impl DeepView for KeyedEntry {
    type V = KeyedEntryView;

    open spec fn deep_view(&self) -> KeyedEntryView {
        KeyedEntryView { key: self.key@, entry: self.entry.deep_view() }
    }
}

/// The arguments of a request as they came, each `None` where it is missing or no
/// string.
#[derive(Debug)]
pub struct TeamContextArgs {
    pub action: Option<String>,
    pub key: Option<String>,
    pub value: Option<String>,
    pub prefix: Option<String>,
}

/// A `TeamContextArgs`, with its texts as sequences of characters.
pub struct TeamContextArgsView {
    pub action: Option<Seq<char>>,
    pub key: Option<Seq<char>>,
    pub value: Option<Seq<char>>,
    pub prefix: Option<Seq<char>>,
}

impl DeepView for TeamContextArgs {
    type V = TeamContextArgsView;

    open spec fn deep_view(&self) -> TeamContextArgsView {
        TeamContextArgsView {
            action: self.action.deep_view(),
            key: self.key.deep_view(),
            value: self.value.deep_view(),
            prefix: self.prefix.deep_view(),
        }
    }
}

/// A write whose arguments are in order.
#[derive(Debug)]
pub struct CheckedWrite {
    /// The key, as the caller calls it.
    pub key: String,
    /// The key, as the bus calls it.
    pub context_key: String,
    pub value: String,
}

/// A `CheckedWrite`, with its texts as sequences of characters.
pub struct CheckedWriteView {
    pub key: Seq<char>,
    pub context_key: Seq<char>,
    pub value: Seq<char>,
}

impl DeepView for CheckedWrite {
    type V = CheckedWriteView;

    open spec fn deep_view(&self) -> CheckedWriteView {
        CheckedWriteView { key: self.key@, context_key: self.context_key@, value: self.value@ }
    }
}

/// A message to all agents that changes an entry of the shared context, provided that
/// the entry still has the expected version.
#[derive(Debug)]
pub struct PatchEnvelope {
    pub from: String,
    pub conversation: String,
    pub topic: String,
    pub correlation_id: String,
    pub key: String,
    pub expected_version: u64,
    pub value: String,
}

/// A `PatchEnvelope`, with its texts as sequences of characters.
pub struct PatchEnvelopeView {
    pub from: Seq<char>,
    pub conversation: Seq<char>,
    pub topic: Seq<char>,
    pub correlation_id: Seq<char>,
    pub key: Seq<char>,
    pub expected_version: u64,
    pub value: Seq<char>,
}

impl DeepView for PatchEnvelope {
    type V = PatchEnvelopeView;

    open spec fn deep_view(&self) -> PatchEnvelopeView {
        PatchEnvelopeView {
            from: self.from@,
            conversation: self.conversation@,
            topic: self.topic@,
            correlation_id: self.correlation_id@,
            key: self.key@,
            expected_version: self.expected_version,
            value: self.value@,
        }
    }
}

/// A write that waits for the bus to take it.
#[derive(Debug)]
pub struct PendingWrite {
    pub key: String,
    pub envelope: PatchEnvelope,
}

/// A `PendingWrite`, with its texts as sequences of characters.
pub struct PendingWriteView {
    pub key: Seq<char>,
    pub envelope: PatchEnvelopeView,
}

impl DeepView for PendingWrite {
    type V = PendingWriteView;

    open spec fn deep_view(&self) -> PendingWriteView {
        PendingWriteView { key: self.key@, envelope: self.envelope.deep_view() }
    }
}

/// A read whose arguments are in order.
#[derive(Debug)]
pub struct PendingRead {
    /// The key, as the caller calls it.
    pub key: String,
    /// The key under which the team's entry would be.
    pub context_key: String,
}

/// A `PendingRead`, with its texts as sequences of characters.
pub struct PendingReadView {
    pub key: Seq<char>,
    pub context_key: Seq<char>,
}

impl DeepView for PendingRead {
    type V = PendingReadView;

    open spec fn deep_view(&self) -> PendingReadView {
        PendingReadView { key: self.key@, context_key: self.context_key@ }
    }
}

/// What a request needs next.
#[derive(Debug)]
pub enum TeamContextStep {
    /// The request cannot be taken.
    Rejected(ToolError),
    /// The request is answered.
    Finished(ToolResult),
    /// Ask the security policy whether the tool may act; go on with `execute_write`.
    Authorize,
    /// Look up the version of the entry under the bus's key; go on with `version_found`.
    FindVersion(CheckedWrite),
    /// Publish the envelope; go on with `published`.
    Publish(PendingWrite),
    /// Look up the entry under the team's key; go on with `entry_found`.
    FindEntry(PendingRead),
    /// Look up the entry under the caller's key; go on with `raw_entry_found`.
    FindRawEntry(PendingRead),
    /// Fetch all entries, the most recent first; go on with `entries_found`. The text is
    /// the prefix to list by.
    FetchEntries(String),
}

/// A `TeamContextStep`, with its texts as sequences of characters.
pub enum TeamContextStepView {
    Rejected(Seq<char>),
    Finished(traits::ToolResultView),
    Authorize,
    FindVersion(CheckedWriteView),
    Publish(PendingWriteView),
    FindEntry(PendingReadView),
    FindRawEntry(PendingReadView),
    FetchEntries(Seq<char>),
}

impl DeepView for TeamContextStep {
    type V = TeamContextStepView;

    open spec fn deep_view(&self) -> TeamContextStepView {
        match self {
            TeamContextStep::Rejected(error) => TeamContextStepView::Rejected(error.deep_view()),
            TeamContextStep::Finished(result) => TeamContextStepView::Finished(result.deep_view()),
            TeamContextStep::Authorize => TeamContextStepView::Authorize,
            TeamContextStep::FindVersion(write) => TeamContextStepView::FindVersion(
                write.deep_view(),
            ),
            TeamContextStep::Publish(write) => TeamContextStepView::Publish(write.deep_view()),
            TeamContextStep::FindEntry(read) => TeamContextStepView::FindEntry(read.deep_view()),
            TeamContextStep::FindRawEntry(read) => TeamContextStepView::FindRawEntry(
                read.deep_view(),
            ),
            TeamContextStep::FetchEntries(prefix) => TeamContextStepView::FetchEntries(prefix@),
        }
    }
}

/// `value` without the white space around it, unless nothing is left of it.
pub open spec fn filled(value: Option<Seq<char>>) -> Option<Seq<char>> {
    match value {
        Some(chars) => if text::trimmed(chars).len() == 0 {
            None
        } else {
            Some(text::trimmed(chars))
        },
        None => None,
    }
}

/// The key under which the bus keeps the team's entry for `key`.
pub open spec fn team_key(key: Seq<char>) -> Seq<char> {
    "team/"@ + key
}

/// The first step of a read.
pub open spec fn read_step(args: TeamContextArgsView) -> TeamContextStepView {
    match filled(args.key) {
        None => TeamContextStepView::Rejected("Missing 'key' parameter for read action"@),
        Some(key) => TeamContextStepView::FindEntry(
            PendingReadView { key, context_key: team_key(key) },
        ),
    }
}

/// The first step of a list: it lists by the prefix, which may be empty.
pub open spec fn list_step(args: TeamContextArgsView) -> TeamContextStepView {
    TeamContextStepView::FetchEntries(
        match args.prefix {
            Some(prefix) => text::trimmed(prefix),
            None => Seq::empty(),
        },
    )
}

/// The first step for these arguments.
pub open spec fn first_step(args: TeamContextArgsView) -> TeamContextStepView {
    match args.action {
        None => TeamContextStepView::Rejected("Missing 'action' parameter"@),
        Some(action) => {
            let action = text::trimmed(action);
            if action == "write"@ {
                TeamContextStepView::Authorize
            } else if action == "read"@ {
                read_step(args)
            } else if action == "list"@ {
                list_step(args)
            } else {
                TeamContextStepView::Finished(
                    traits::failed(
                        "Unknown action '"@ + action + "'. Must be one of: write, read, list"@,
                    ),
                )
            }
        },
    }
}

/// The step of a write that follows once the security policy has spoken.
pub open spec fn write_step(
    args: TeamContextArgsView,
    verdict: Result<(), Seq<char>>,
) -> TeamContextStepView {
    if verdict is Err {
        TeamContextStepView::Finished(traits::failed(verdict->Err_0))
    } else if filled(args.key) is None {
        TeamContextStepView::Rejected("Missing 'key' parameter for write action"@)
    } else if filled(args.value) is None {
        TeamContextStepView::Rejected("Missing 'value' parameter for write action"@)
    } else {
        let key = filled(args.key)->0;
        let value = filled(args.value)->0;
        if value.len() > MAX_CONTEXT_VALUE_CHARS {
            TeamContextStepView::Finished(
                traits::failed(
                    "Context value too large ("@ + text::decimal(value.len()) + " chars, max "@
                        + text::decimal(MAX_CONTEXT_VALUE_CHARS as nat) + ")"@,
                ),
            )
        } else {
            TeamContextStepView::FindVersion(
                CheckedWriteView { key, context_key: team_key(key), value },
            )
        }
    }
}

/// The version that an entry is expected to have: 0 if there is none yet.
pub open spec fn expected_version(found: Option<u64>) -> u64 {
    match found {
        Some(version) => version,
        None => 0,
    }
}

/// Whether `write` is what is published for `checked`: a patch of the entry from the
/// version that was found, sent by `lead` under a fresh identifier.
pub open spec fn publishes(
    lead: Seq<char>,
    checked: CheckedWriteView,
    found: Option<u64>,
    write: PendingWriteView,
) -> bool {
    &&& write.key == checked.key
    &&& write.envelope.from == lead
    &&& write.envelope.conversation == "team-context"@
    &&& write.envelope.topic == "team.context"@
    &&& exists|id: Seq<char>| #[trigger]
        system::is_fresh_id(id) && system::is_random_uuid(id) && write.envelope.correlation_id
            == "team-ctx-"@ + id
    &&& write.envelope.key == checked.context_key
    &&& write.envelope.expected_version == expected_version(found)
    &&& write.envelope.value == checked.value
}

/// What is said of an entry that was written.
pub open spec fn written_output(key: Seq<char>, version: nat) -> Seq<char> {
    json::object_text(
        seq![
            json::text_field("action"@, "write"@),
            json::text_field("key"@, key),
            json::text_field(
                "message"@,
                "Context entry '"@ + key + "' written successfully (version "@ + text::decimal(
                    version,
                ) + ")"@,
            ),
            json::number_field("version"@, version),
        ],
    )
}

/// What a write is answered with, once the bus has taken it or has not.
pub open spec fn written_result(
    write: PendingWriteView,
    outcome: Result<(), Seq<char>>,
) -> traits::ToolResultView {
    match outcome {
        Ok(()) => traits::succeeded(
            written_output(write.key, (write.envelope.expected_version + 1) as nat),
        ),
        Err(error) => traits::failed(
            "Failed to write context entry '"@ + write.key + "': "@ + error,
        ),
    }
}

/// A value as a read shows it.
pub open spec fn shown_value(value: ContextValueView) -> Seq<char> {
    match value {
        ContextValueView::Text(value) => value,
        ContextValueView::Json(value) => json::json_pretty(value),
    }
}

/// What is said of an entry that was found.
pub open spec fn found_output(key: Seq<char>, entry: SharedContextEntryView) -> Seq<char> {
    json::object_text(
        seq![
            json::text_field("action"@, "read"@),
            json::text_field("key"@, key),
            json::text_field("updated_by"@, entry.updated_by),
            json::text_field("value"@, shown_value(entry.value)),
            json::number_field("version"@, entry.version as nat),
        ],
    )
}

/// What is said where no entry was found.
pub open spec fn missing_output(key: Seq<char>) -> Seq<char> {
    json::object_text(
        seq![
            json::text_field("action"@, "read"@),
            json::MemberView { name: "found"@, value: json::bool_text(false) },
            json::text_field("key"@, key),
            json::text_field("message"@, "No context entry found for key '"@ + key + "'"@),
        ],
    )
}

/// The step of a read that follows the look-up under the team's key.
pub open spec fn entry_step(
    read: PendingReadView,
    found: Option<SharedContextEntryView>,
) -> TeamContextStepView {
    match found {
        Some(entry) => TeamContextStepView::Finished(
            traits::succeeded(found_output(read.key, entry)),
        ),
        None => TeamContextStepView::FindRawEntry(read),
    }
}

/// What a read is answered with after the look-up under the caller's key.
pub open spec fn raw_entry_result(
    read: PendingReadView,
    found: Option<SharedContextEntryView>,
) -> traits::ToolResultView {
    match found {
        Some(entry) => traits::succeeded(found_output(read.key, entry)),
        None => traits::succeeded(missing_output(read.key)),
    }
}

/// Whether an entry is listed. Without a prefix those of the team are, and those that
/// delegates have put out; with a prefix, those whose key begins with it, with or without
/// the mark of the team before it.
pub open spec fn is_listed(key: Seq<char>, prefix: Seq<char>) -> bool {
    if prefix.len() == 0 {
        ||| "team/"@.is_prefix_of(key)
        ||| "delegate/"@.is_prefix_of(key) && (text::contains_part(key, "/output"@)
            || text::contains_part(key, "/result"@))
    } else {
        team_key(prefix).is_prefix_of(key) || prefix.is_prefix_of(key)
    }
}

/// The first `n` of those entries that are listed.
pub open spec fn listed_entries(
    entries: Seq<KeyedEntryView>,
    prefix: Seq<char>,
    n: nat,
) -> Seq<KeyedEntryView> {
    let all = entries.filter(|e: KeyedEntryView| is_listed(e.key, prefix));
    if all.len() <= n {
        all
    } else {
        all.take(n as int)
    }
}

/// A key as a list shows it: without the mark of the team.
pub open spec fn display_key(key: Seq<char>) -> Seq<char> {
    if "team/"@.is_prefix_of(key) {
        key.skip("team/"@.len() as int)
    } else {
        key
    }
}

/// A value as compact text.
pub open spec fn value_text(value: ContextValueView) -> Seq<char> {
    match value {
        ContextValueView::Text(value) => value,
        ContextValueView::Json(value) => value,
    }
}

/// An entry as a list shows it.
#[derive(Debug)]
pub struct ListedEntry {
    pub key: String,
    pub version: u64,
    pub updated_by: String,
    pub preview: String,
}

/// A `ListedEntry`, with its texts as sequences of characters.
pub struct ListedEntryView {
    pub key: Seq<char>,
    pub version: u64,
    pub updated_by: Seq<char>,
    pub preview: Seq<char>,
}

impl DeepView for ListedEntry {
    type V = ListedEntryView;

    open spec fn deep_view(&self) -> ListedEntryView {
        ListedEntryView {
            key: self.key@,
            version: self.version,
            updated_by: self.updated_by@,
            preview: self.preview@,
        }
    }
}

/// What a list shows of an entry.
pub open spec fn shown_entry(entry: KeyedEntryView) -> ListedEntryView {
    ListedEntryView {
        key: display_key(entry.key),
        version: entry.entry.version,
        updated_by: entry.entry.updated_by,
        preview: text::shortened(value_text(entry.entry.value), PREVIEW_BYTES as int),
    }
}

/// What a list shows of entries.
pub open spec fn shown_entries(entries: Seq<KeyedEntryView>) -> Seq<ListedEntryView> {
    entries.map_values(|e: KeyedEntryView| shown_entry(e))
}

/// Whether the preview of an entry does not end inside a character.
pub open spec fn has_preview(entry: KeyedEntryView) -> bool {
    text::cuts_at(value_text(entry.entry.value), PREVIEW_BYTES as int)
}

/// Whether the entries are in the order of their keys.
pub open spec fn sorted_by_key(entries: Seq<ListedEntryView>) -> bool {
    forall|i: int, j: int|
        0 <= i < j < entries.len() ==> text::text_le(
            (#[trigger] entries[i]).key,
            (#[trigger] entries[j]).key,
        )
}

/// The entries with this key.
pub open spec fn with_key(entries: Seq<ListedEntryView>, key: Seq<char>) -> Seq<ListedEntryView> {
    entries.filter(|e: ListedEntryView| e.key == key)
}

/// Whether `sorted` is `entries` in the order of their keys, where those that share a
/// key stay in the order in which they were.
pub open spec fn is_sorted_form(
    entries: Seq<ListedEntryView>,
    sorted: Seq<ListedEntryView>,
) -> bool {
    &&& sorted_by_key(sorted)
    &&& forall|key: Seq<char>| #[trigger] with_key(sorted, key) == with_key(entries, key)
}

/// What a list says of an entry.
pub open spec fn listed_text(entry: ListedEntryView) -> Seq<char> {
    json::object_text(
        seq![
            json::text_field("key"@, entry.key),
            json::text_field("preview"@, entry.preview),
            json::text_field("updated_by"@, entry.updated_by),
            json::number_field("version"@, entry.version as nat),
        ],
    )
}

/// What a list says of entries in their order.
pub open spec fn list_output(prefix: Seq<char>, sorted: Seq<ListedEntryView>) -> Seq<char> {
    json::object_text(
        seq![
            json::text_field("action"@, "list"@),
            json::number_field("count"@, sorted.len()),
            json::MemberView {
                name: "entries"@,
                value: json::list_text(sorted.map_values(|e: ListedEntryView| listed_text(e))),
            },
            json::text_field("prefix"@, prefix),
        ],
    )
}

/// Whether `result` answers a list of these entries.
pub open spec fn answers_list(
    entries: Seq<KeyedEntryView>,
    prefix: Seq<char>,
    result: traits::ToolResultView,
) -> bool {
    exists|sorted: Seq<ListedEntryView>| #[trigger]
        is_sorted_form(
            shown_entries(listed_entries(entries, prefix, MAX_LIST_ENTRIES as nat)),
            sorted,
        ) && result == traits::succeeded(list_output(prefix, sorted))
}

/// Whether every entry that is listed has a preview.
pub open spec fn all_have_previews(entries: Seq<KeyedEntryView>, prefix: Seq<char>) -> bool {
    let listed = listed_entries(entries, prefix, MAX_LIST_ENTRIES as nat);
    forall|i: int| 0 <= i < listed.len() ==> has_preview(#[trigger] listed[i])
}

/// Putting an entry behind all whose keys do not come after its own, and before the
/// others, keeps a sorted form of the entries so far.
proof fn lemma_sorted_insert(
    entries: Seq<ListedEntryView>,
    sorted: Seq<ListedEntryView>,
    entry: ListedEntryView,
    at: int,
)
    requires
        is_sorted_form(entries, sorted),
        0 <= at <= sorted.len(),
        at > 0 ==> text::text_le(sorted[at - 1].key, entry.key),
        forall|i: int| at <= i < sorted.len() ==> !text::text_le((#[trigger] sorted[i]).key, entry.key),
    ensures
        is_sorted_form(entries.push(entry), sorted.insert(at, entry)),
{
    let longer = sorted.insert(at, entry);
    let head = sorted.take(at);
    let tail = sorted.skip(at);
    assert(longer =~= head.push(entry) + tail);
    assert(sorted =~= head + tail);
    assert forall|i: int, j: int| 0 <= i < j < longer.len() implies text::text_le(
        (#[trigger] longer[i]).key,
        (#[trigger] longer[j]).key,
    ) by {
        if j < at {
            assert(longer[i] == sorted[i] && longer[j] == sorted[j]);
        } else if j == at {
            assert(longer[i] == sorted[i]);
            if i < at - 1 {
                assert(text::text_le(sorted[i].key, sorted[at - 1].key));
                text::order_is_transitive(sorted[i].key, sorted[at - 1].key, entry.key);
            }
        } else if i == at {
            assert(longer[j] == sorted[j - 1]);
            text::order_is_total(entry.key, sorted[j - 1].key);
        } else if i < at {
            assert(longer[i] == sorted[i] && longer[j] == sorted[j - 1]);
        } else {
            assert(longer[i] == sorted[i - 1] && longer[j] == sorted[j - 1]);
        }
    }
    assert forall|key: Seq<char>| #[trigger] with_key(longer, key) == with_key(
        entries.push(entry),
        key,
    ) by {
        let pred = |e: ListedEntryView| e.key == key;
        Seq::filter_distributes_over_add(head.push(entry), tail, pred);
        Seq::filter_distributes_over_add(head, tail, pred);
        lists::filter_push(head, entry, pred);
        lists::filter_push(entries, entry, pred);
        assert(with_key(sorted, key) == with_key(entries, key));
        if entry.key == key {
            assert forall|i: int| 0 <= i < tail.len() implies !pred(#[trigger] tail[i]) by {
                assert(tail[i] == sorted[at + i]);
                text::order_is_reflexive(key);
            }
            lists::filter_none(tail, pred);
            assert(head.filter(pred).push(entry) + Seq::<ListedEntryView>::empty()
                =~= head.filter(pred).push(entry));
            assert(head.filter(pred) + Seq::<ListedEntryView>::empty() =~= head.filter(pred));
        }
    }
}

/// Puts entries in the order of their keys. Those that share a key stay in the order
/// in which they were.
fn sort_by_key(entries: Vec<ListedEntry>) -> (sorted: Vec<ListedEntry>)
    ensures
        is_sorted_form(entries.deep_view(), sorted.deep_view()),
{
    let ghost all = entries.deep_view();
    let mut sorted: Vec<ListedEntry> = Vec::new();
    let ghost mut seen: Seq<ListedEntryView> = Seq::empty();
    assert(sorted.deep_view() =~= Seq::<ListedEntryView>::empty());
    for entry in it: entries
        invariant
            it.seq().len() == all.len(),
            forall|i: int| 0 <= i < all.len() ==> (#[trigger] it.seq()[i]).deep_view() == all[i],
            seen == all.take(it.index() as int),
            is_sorted_form(seen, sorted.deep_view()),
    {
        let ghost before = sorted.deep_view();
        let ghost added = entry.deep_view();
        let mut at: usize = sorted.len();
        while at > 0 && !text::at_most(sorted[at - 1].key.as_str(), entry.key.as_str())
            invariant
                at <= sorted.len(),
                before == sorted.deep_view(),
                added == entry.deep_view(),
                forall|i: int|
                    at <= i < before.len() ==> !text::text_le((#[trigger] before[i]).key, added.key),
            decreases at,
        {
            at -= 1;
        }
        proof {
            lemma_sorted_insert(seen, before, added, at as int);
        }
        sorted.insert(at, entry);
        assert(sorted.deep_view() =~= before.insert(at as int, added));
        proof {
            assert(all.take(it.index() + 1) =~= seen.push(added));
            seen = seen.push(added);
        }
    }
    assert(all.take(all.len() as int) =~= all);
    sorted
}

/// Whether the key of an entry makes it one that is listed.
fn should_list(key: &str, prefix: &str) -> (yes: bool)
    ensures
        yes == is_listed(key@, prefix@),
{
    if prefix.is_empty() {
        text::starts_with(key, "team/") || (text::starts_with(key, "delegate/") && (
        text::contains_text(key, "/output") || text::contains_text(key, "/result")))
    } else {
        let team_prefix = String::from_str("team/").concat(prefix);
        text::starts_with(key, team_prefix.as_str()) || text::starts_with(key, prefix)
    }
}

/// What is at these positions.
spec fn at_positions(entries: Seq<KeyedEntryView>, positions: Seq<usize>) -> Seq<KeyedEntryView> {
    positions.map_values(|i: usize| entries[i as int])
}

/// The positions of the entries that are listed.
fn listed_positions(entries: &Vec<KeyedEntry>, prefix: &str) -> (positions: Vec<usize>)
    ensures
        forall|i: int|
            0 <= i < positions.len() ==> (#[trigger] positions@[i]) < entries.len(),
        at_positions(entries.deep_view(), positions@) == listed_entries(
            entries.deep_view(),
            prefix@,
            MAX_LIST_ENTRIES as nat,
        ),
{
    let ghost all = entries.deep_view();
    let ghost pred = |e: KeyedEntryView| is_listed(e.key, prefix@);
    let mut positions: Vec<usize> = Vec::new();
    let mut i: usize = 0;
    assert(all.take(0) =~= Seq::<KeyedEntryView>::empty());
    proof {
        reveal(Seq::filter);
    }
    assert(at_positions(all, positions@) =~= Seq::<KeyedEntryView>::empty());
    while i < entries.len()
        invariant
            i <= entries.len(),
            all == entries.deep_view(),
            pred == (|e: KeyedEntryView| is_listed(e.key, prefix@)),
            forall|j: int| 0 <= j < positions.len() ==> (#[trigger] positions@[j]) < entries.len(),
            positions.len() <= MAX_LIST_ENTRIES,
            at_positions(all, positions@) == listed_entries(
                all.take(i as int),
                prefix@,
                MAX_LIST_ENTRIES as nat,
            ),
        decreases entries.len() - i,
    {
        proof {
            assert(all.take(i + 1) =~= all.take(i as int).push(all[i as int]));
            lists::filter_push(all.take(i as int), all[i as int], pred);
        }
        let ghost so_far = all.take(i as int).filter(pred);
        let ghost before = at_positions(all, positions@);
        if should_list(entries[i].key.as_str(), prefix) {
            if positions.len() < MAX_LIST_ENTRIES {
                positions.push(i);
                assert(at_positions(all, positions@) =~= before.push(all[i as int]));
            } else {
                assert(so_far.push(all[i as int]).take(MAX_LIST_ENTRIES as int) =~= so_far.take(
                    MAX_LIST_ENTRIES as int,
                ));
                assert(so_far.take(so_far.len() as int) =~= so_far);
            }
        }
        i += 1;
    }
    assert(all.take(i as int) =~= all);
    positions
}

fn value_preview(value: &ContextValue) -> (preview: String)
    requires
        text::cuts_at(value_text(value.deep_view()), PREVIEW_BYTES as int),
    ensures
        preview@ == text::shortened(value_text(value.deep_view()), PREVIEW_BYTES as int),
{
    match value {
        ContextValue::Text(value) => text::shorten(value.as_str(), PREVIEW_BYTES),
        ContextValue::Json(value) => {
            let compact = json::compact(value);
            text::shorten(compact.as_str(), PREVIEW_BYTES)
        },
    }
}

fn show_entry(entry: &KeyedEntry) -> (shown: ListedEntry)
    requires
        has_preview(entry.deep_view()),
    ensures
        shown.deep_view() == shown_entry(entry.deep_view()),
{
    let key = match text::strip_prefix(entry.key.as_str(), "team/") {
        Some(key) => key,
        None => entry.key.clone(),
    };
    ListedEntry {
        key,
        version: entry.entry.version,
        updated_by: entry.entry.updated_by.clone(),
        preview: value_preview(&entry.entry.value),
    }
}

fn write_listed(entry: &ListedEntry) -> (output: String)
    ensures
        output@ == listed_text(entry.deep_view()),
{
    let members: Vec<json::Member> = vec![
        json::text_member("key", entry.key.as_str()),
        json::text_member("preview", entry.preview.as_str()),
        json::text_member("updated_by", entry.updated_by.as_str()),
        json::number_member("version", entry.version),
    ];
    assert(members.deep_view() =~= seq![
        json::text_field("key"@, entry.key@),
        json::text_field("preview"@, entry.preview@),
        json::text_field("updated_by"@, entry.updated_by@),
        json::number_field("version"@, entry.version as nat),
    ]);
    json::write_object(&members)
}

fn write_list_output(prefix: &str, sorted: &Vec<ListedEntry>) -> (output: String)
    ensures
        output@ == list_output(prefix@, sorted.deep_view()),
{
    let mut items: Vec<String> = Vec::new();
    let mut i: usize = 0;
    while i < sorted.len()
        invariant
            i <= sorted.len(),
            items.len() == i,
            forall|j: int| 0 <= j < i ==> items@[j]@ == listed_text(sorted@[j].deep_view()),
        decreases sorted.len() - i,
    {
        items.push(write_listed(&sorted[i]));
        i += 1;
    }
    assert(items.deep_view() =~= sorted.deep_view().map_values(
        |e: ListedEntryView| listed_text(e),
    ));
    let members: Vec<json::Member> = vec![
        json::text_member("action", "list"),
        json::number_member("count", sorted.len() as u64),
        json::member("entries", json::write_list(&items)),
        json::text_member("prefix", prefix),
    ];
    assert(members.deep_view() =~= seq![
        json::text_field("action"@, "list"@),
        json::number_field("count"@, sorted.deep_view().len()),
        json::MemberView {
            name: "entries"@,
            value: json::list_text(
                sorted.deep_view().map_values(|e: ListedEntryView| listed_text(e)),
            ),
        },
        json::text_field("prefix"@, prefix@),
    ]);
    json::write_object(&members)
}

fn write_written_output(key: &str, version: u64) -> (output: String)
    ensures
        output@ == written_output(key@, version as nat),
{
    let number = text::decimal_text(version);
    let message = String::from_str("Context entry '").concat(key).concat(
        "' written successfully (version ",
    ).concat(number.as_str()).concat(")");
    let members: Vec<json::Member> = vec![
        json::text_member("action", "write"),
        json::text_member("key", key),
        json::text_member("message", message.as_str()),
        json::number_member("version", version),
    ];
    assert(members.deep_view() =~= seq![
        json::text_field("action"@, "write"@),
        json::text_field("key"@, key@),
        json::text_field(
            "message"@,
            "Context entry '"@ + key@ + "' written successfully (version "@ + text::decimal(
                version as nat,
            ) + ")"@,
        ),
        json::number_field("version"@, version as nat),
    ]);
    json::write_object(&members)
}

fn write_found_output(key: &str, entry: &SharedContextEntry) -> (output: String)
    ensures
        output@ == found_output(key@, entry.deep_view()),
{
    let value = match &entry.value {
        ContextValue::Text(value) => value.clone(),
        ContextValue::Json(value) => json::pretty(value),
    };
    let members: Vec<json::Member> = vec![
        json::text_member("action", "read"),
        json::text_member("key", key),
        json::text_member("updated_by", entry.updated_by.as_str()),
        json::text_member("value", value.as_str()),
        json::number_member("version", entry.version),
    ];
    assert(members.deep_view() =~= seq![
        json::text_field("action"@, "read"@),
        json::text_field("key"@, key@),
        json::text_field("updated_by"@, entry.updated_by@),
        json::text_field("value"@, shown_value(entry.value.deep_view())),
        json::number_field("version"@, entry.version as nat),
    ]);
    json::write_object(&members)
}

fn write_missing_output(key: &str) -> (output: String)
    ensures
        output@ == missing_output(key@),
{
    let message = String::from_str("No context entry found for key '").concat(key).concat("'");
    let members: Vec<json::Member> = vec![
        json::text_member("action", "read"),
        json::member("found", String::from_str("false")),
        json::text_member("key", key),
        json::text_member("message", message.as_str()),
    ];
    assert(members.deep_view() =~= seq![
        json::text_field("action"@, "read"@),
        json::MemberView { name: "found"@, value: json::bool_text(false) },
        json::text_field("key"@, key@),
        json::text_field("message"@, "No context entry found for key '"@ + key@ + "'"@),
    ]);
    json::write_object(&members)
}

fn fill(value: &Option<String>) -> (result: Option<String>)
    ensures
        result.deep_view() == filled(value.deep_view()),
{
    match value {
        Some(value) => {
            let value = text::trim(value.as_str());
            if value.as_str().is_empty() {
                None
            } else {
                Some(value)
            }
        },
        None => None,
    }
}

fn reject(message: &str) -> (step: TeamContextStep)
    ensures
        step.deep_view() == TeamContextStepView::Rejected(message@),
{
    TeamContextStep::Rejected(ToolError { message: String::from_str(message) })
}

/// The schema of the action.
pub open spec fn action_schema() -> Seq<char> {
    json::object_text(
        seq![
            json::text_field("description"@, "The operation to perform on the shared context"@),
            json::MemberView {
                name: "enum"@,
                value: json::list_text(
                    seq![json::quoted("write"@), json::quoted("read"@), json::quoted("list"@)],
                ),
            },
            json::text_field("type"@, "string"@),
        ],
    )
}

/// The schemas of the parameters, under their names.
pub open spec fn property_schemas() -> Seq<json::MemberView> {
    seq![
        json::MemberView { name: "action"@, value: action_schema() },
        json::MemberView {
            name: "key"@,
            value: schema::filled_text_schema(
                "Context key for read/write. Use descriptive keys like 'architecture/decisions', 'review/findings', 'code/module_x'"@,
            ),
        },
        json::MemberView {
            name: "prefix"@,
            value: schema::text_schema(
                "Optional prefix filter for 'list' action (e.g. 'architecture/' to list all architecture context)"@,
            ),
        },
        json::MemberView {
            name: "value"@,
            value: schema::text_schema("Context value to write (required for 'write' action)"@),
        },
    ]
}

/// The schema of the tool's parameters.
pub open spec fn parameter_schema() -> Seq<char> {
    json::object_text(
        seq![
            json::MemberView { name: "additionalProperties"@, value: json::bool_text(false) },
            json::MemberView { name: "properties"@, value: json::object_text(property_schemas()) },
            json::MemberView {
                name: "required"@,
                value: json::list_text(seq![json::quoted("action"@)]),
            },
            json::text_field("type"@, "object"@),
        ],
    )
}

fn write_action_schema() -> (schema: String)
    ensures
        schema@ == action_schema(),
{
    let actions: Vec<String> = vec![
        json::json_string("write"),
        json::json_string("read"),
        json::json_string("list"),
    ];
    assert(actions.deep_view() =~= seq![
        json::quoted("write"@),
        json::quoted("read"@),
        json::quoted("list"@),
    ]);
    let members: Vec<json::Member> = vec![
        json::text_member("description", "The operation to perform on the shared context"),
        json::member("enum", json::write_list(&actions)),
        json::text_member("type", "string"),
    ];
    assert(members.deep_view() =~= seq![
        json::text_field("description"@, "The operation to perform on the shared context"@),
        json::MemberView {
            name: "enum"@,
            value: json::list_text(
                seq![json::quoted("write"@), json::quoted("read"@), json::quoted("list"@)],
            ),
        },
        json::text_field("type"@, "string"@),
    ]);
    json::write_object(&members)
}

impl TeamContextArgs {
    /// Reads the arguments out of a JSON value, which should be an object.
    pub fn from_json(args: &serde_json::Value) -> (result: TeamContextArgs)
        ensures
            result.deep_view() == (TeamContextArgsView {
                action: json::json_str_field(json::json_text(*args), "action"@),
                key: json::json_str_field(json::json_text(*args), "key"@),
                value: json::json_str_field(json::json_text(*args), "value"@),
                prefix: json::json_str_field(json::json_text(*args), "prefix"@),
            }),
    {
        TeamContextArgs {
            action: json::str_field(args, "action"),
            key: json::str_field(args, "key"),
            value: json::str_field(args, "value"),
            prefix: json::str_field(args, "prefix"),
        }
    }
}

/// Tool that gives access to the context that a team shares.
///
/// Roles use it to write findings, decisions and intermediate results, to read what
/// other roles have written, and to list what there is. `B` is the bus that keeps the
/// entries and `S` the policy that guards it; the tool only hands them on.
pub struct TeamContextTool<B, S> {
    pub bus: B,
    pub security: S,
    /// The name under which the tool sends messages.
    pub lead_agent: String,
}

impl<B, S> TeamContextTool<B, S> {
    /// A tool on this bus that acts in the name of `lead_agent`.
    pub fn new(bus: B, security: S, lead_agent: String) -> (tool: Self)
        ensures
            tool == (TeamContextTool { bus, security, lead_agent }),
    {
        TeamContextTool { bus, security, lead_agent }
    }

    /// The name under which the tool is called.
    pub fn name(&self) -> (name: &'static str)
        ensures
            name@ == "team_context"@,
    {
        "team_context"
    }

    /// What the tool does, for the model that may call it.
    pub fn description(&self) -> (description: &'static str)
        ensures
            description@
                == "Read, write, or list shared team context. Roles use this to share findings, decisions, and intermediate results with each other. Actions: 'write' to publish a context entry (key + value), 'read' to retrieve a context entry by key, 'list' to browse available context keys with optional prefix filter."@,
    {
        "Read, write, or list shared team context. Roles use this to share findings, decisions, and intermediate results with each other. Actions: 'write' to publish a context entry (key + value), 'read' to retrieve a context entry by key, 'list' to browse available context keys with optional prefix filter."
    }

    /// The JSON schema of the tool's parameters.
    pub fn parameters_schema(&self) -> (schema: String)
        ensures
            schema@ == parameter_schema(),
    {
        let properties: Vec<json::Member> = vec![
            json::member("action", write_action_schema()),
            json::member(
                "key",
                schema::write_filled_text_schema(
                    "Context key for read/write. Use descriptive keys like 'architecture/decisions', 'review/findings', 'code/module_x'",
                ),
            ),
            json::member(
                "prefix",
                schema::write_text_schema(
                    "Optional prefix filter for 'list' action (e.g. 'architecture/' to list all architecture context)",
                ),
            ),
            json::member(
                "value",
                schema::write_text_schema("Context value to write (required for 'write' action)"),
            ),
        ];
        assert(properties.deep_view() =~= property_schemas());
        let required: Vec<String> = vec![json::json_string("action")];
        assert(required.deep_view() =~= seq![json::quoted("action"@)]);
        let members: Vec<json::Member> = vec![
            json::member("additionalProperties", String::from_str("false")),
            json::member("properties", json::write_object(&properties)),
            json::member("required", json::write_list(&required)),
            json::text_member("type", "object"),
        ];
        assert(members.deep_view() =~= seq![
            json::MemberView { name: "additionalProperties"@, value: json::bool_text(false) },
            json::MemberView { name: "properties"@, value: json::object_text(property_schemas()) },
            json::MemberView {
                name: "required"@,
                value: json::list_text(seq![json::quoted("action"@)]),
            },
            json::text_field("type"@, "object"@),
        ]);
        json::write_object(&members)
    }

    /// Takes a request whose arguments are a JSON object.
    pub fn execute(&self, args: &serde_json::Value) -> (step: TeamContextStep)
        ensures
            step.deep_view() == first_step(
                TeamContextArgsView {
                    action: json::json_str_field(json::json_text(*args), "action"@),
                    key: json::json_str_field(json::json_text(*args), "key"@),
                    value: json::json_str_field(json::json_text(*args), "value"@),
                    prefix: json::json_str_field(json::json_text(*args), "prefix"@),
                },
            ),
    {
        self.execute_args(&TeamContextArgs::from_json(args))
    }

    /// Takes a request with these arguments.
    pub fn execute_args(&self, args: &TeamContextArgs) -> (step: TeamContextStep)
        ensures
            step.deep_view() == first_step(args.deep_view()),
    {
        let action = match &args.action {
            Some(action) => text::trim(action.as_str()),
            None => {
                return reject("Missing 'action' parameter");
            },
        };
        if text::same_text(action.as_str(), "write") {
            TeamContextStep::Authorize
        } else if text::same_text(action.as_str(), "read") {
            self.execute_read(args)
        } else if text::same_text(action.as_str(), "list") {
            self.execute_list(args)
        } else {
            let reason = String::from_str("Unknown action '").concat(action.as_str()).concat(
                "'. Must be one of: write, read, list",
            );
            TeamContextStep::Finished(ToolResult::failure(reason))
        }
    }

    /// Checks a write, once the security policy has allowed the tool to act or has not.
    pub fn execute_write(&self, args: &TeamContextArgs, verdict: Result<(), String>) -> (step:
        TeamContextStep)
        ensures
            step.deep_view() == write_step(args.deep_view(), text::outcome_view(verdict)),
    {
        if let Err(error) = verdict {
            return TeamContextStep::Finished(ToolResult::failure(error));
        }
        let key = match fill(&args.key) {
            Some(key) => key,
            None => {
                return reject("Missing 'key' parameter for write action");
            },
        };
        let value = match fill(&args.value) {
            Some(value) => value,
            None => {
                return reject("Missing 'value' parameter for write action");
            },
        };
        let size: usize = text::chars_of(value.as_str()).len();
        if size > MAX_CONTEXT_VALUE_CHARS {
            let number = text::decimal_text(size as u64);
            let limit = text::decimal_text(MAX_CONTEXT_VALUE_CHARS as u64);
            let reason = String::from_str("Context value too large (").concat(
                number.as_str(),
            ).concat(" chars, max ").concat(limit.as_str()).concat(")");
            return TeamContextStep::Finished(ToolResult::failure(reason));
        }
        let context_key = String::from_str("team/").concat(key.as_str());
        TeamContextStep::FindVersion(CheckedWrite { key, context_key, value })
    }

    /// Goes on with a write, once the version of the entry is known.
    pub fn version_found(&self, checked: CheckedWrite, version: Option<u64>) -> (step:
        TeamContextStep)
        ensures
            step.deep_view() is Publish,
            publishes(
                self.lead_agent@,
                checked.deep_view(),
                version,
                step.deep_view()->Publish_0,
            ),
    {
        let id = system::fresh_id();
        let expected_version: u64 = match version {
            Some(version) => version,
            None => 0,
        };
        let correlation_id = String::from_str("team-ctx-").concat(id.as_str());
        TeamContextStep::Publish(
            PendingWrite {
                key: checked.key,
                envelope: PatchEnvelope {
                    from: self.lead_agent.clone(),
                    conversation: String::from_str("team-context"),
                    topic: String::from_str("team.context"),
                    correlation_id,
                    key: checked.context_key,
                    expected_version,
                    value: checked.value,
                },
            },
        )
    }

    /// Answers a write, once the bus has taken it or has not.
    pub fn published(&self, write: &PendingWrite, outcome: Result<(), String>) -> (result:
        ToolResult)
        requires
            outcome is Ok ==> write.envelope.expected_version < u64::MAX,
        ensures
            result.deep_view() == written_result(write.deep_view(), text::outcome_view(outcome)),
    {
        match outcome {
            Ok(()) => ToolResult::success(
                write_written_output(write.key.as_str(), write.envelope.expected_version + 1),
            ),
            Err(error) => ToolResult::failure(
                String::from_str("Failed to write context entry '").concat(
                    write.key.as_str(),
                ).concat("': ").concat(error.as_str()),
            ),
        }
    }

    /// Checks a read.
    pub fn execute_read(&self, args: &TeamContextArgs) -> (step: TeamContextStep)
        ensures
            step.deep_view() == read_step(args.deep_view()),
    {
        let key = match fill(&args.key) {
            Some(key) => key,
            None => {
                return reject("Missing 'key' parameter for read action");
            },
        };
        let context_key = String::from_str("team/").concat(key.as_str());
        TeamContextStep::FindEntry(PendingRead { key, context_key })
    }

    /// Goes on with a read, once the entry under the team's key was looked up.
    pub fn entry_found(&self, read: PendingRead, found: Option<SharedContextEntry>) -> (step:
        TeamContextStep)
        ensures
            step.deep_view() == entry_step(read.deep_view(), found.deep_view()),
    {
        match found {
            Some(entry) => TeamContextStep::Finished(
                ToolResult::success(write_found_output(read.key.as_str(), &entry)),
            ),
            None => TeamContextStep::FindRawEntry(read),
        }
    }

    /// Answers a read, once the entry under the caller's key was looked up.
    pub fn raw_entry_found(&self, read: &PendingRead, found: Option<SharedContextEntry>) -> (result:
        ToolResult)
        ensures
            result.deep_view() == raw_entry_result(read.deep_view(), found.deep_view()),
    {
        match found {
            Some(entry) => ToolResult::success(write_found_output(read.key.as_str(), &entry)),
            None => ToolResult::success(write_missing_output(read.key.as_str())),
        }
    }

    /// Starts a list.
    pub fn execute_list(&self, args: &TeamContextArgs) -> (step: TeamContextStep)
        ensures
            step.deep_view() == list_step(args.deep_view()),
    {
        TeamContextStep::FetchEntries(
            match &args.prefix {
                Some(prefix) => text::trim(prefix.as_str()),
                None => String::new(),
            },
        )
    }

    /// Whether every entry that is listed can be previewed: none has a value that would
    /// be cut inside a character.
    pub fn can_list(&self, prefix: &str, entries: &Vec<KeyedEntry>) -> (yes: bool)
        ensures
            yes == all_have_previews(entries.deep_view(), prefix@),
    {
        let positions = listed_positions(entries, prefix);
        let ghost listed = listed_entries(
            entries.deep_view(),
            prefix@,
            MAX_LIST_ENTRIES as nat,
        );
        let mut i: usize = 0;
        while i < positions.len()
            invariant
                i <= positions.len(),
                forall|j: int|
                    0 <= j < positions.len() ==> (#[trigger] positions@[j]) < entries.len(),
                listed == at_positions(entries.deep_view(), positions@),
                listed == listed_entries(entries.deep_view(), prefix@, MAX_LIST_ENTRIES as nat),
                forall|j: int| 0 <= j < i ==> has_preview(#[trigger] listed[j]),
            decreases positions.len() - i,
        {
            let value = match &entries[positions[i]].entry.value {
                ContextValue::Text(value) => value.clone(),
                ContextValue::Json(value) => json::compact(value),
            };
            assert(listed[i as int] == entries@[positions@[i as int] as int].deep_view());
            if value.as_str().as_bytes().len() > PREVIEW_BYTES
                && !value.as_str().is_char_boundary(PREVIEW_BYTES) {
                assert(!has_preview(listed[i as int]));
                return false;
            }
            i += 1;
        }
        true
    }

    /// Answers a list, once the entries were fetched.
    pub fn entries_found(&self, prefix: &str, entries: &Vec<KeyedEntry>) -> (result: ToolResult)
        requires
            all_have_previews(entries.deep_view(), prefix@),
        ensures
            answers_list(entries.deep_view(), prefix@, result.deep_view()),
    {
        let positions = listed_positions(entries, prefix);
        let ghost listed = listed_entries(
            entries.deep_view(),
            prefix@,
            MAX_LIST_ENTRIES as nat,
        );
        let mut shown: Vec<ListedEntry> = Vec::new();
        let mut i: usize = 0;
        while i < positions.len()
            invariant
                i <= positions.len(),
                forall|j: int|
                    0 <= j < positions.len() ==> (#[trigger] positions@[j]) < entries.len(),
                listed == at_positions(entries.deep_view(), positions@),
                forall|j: int| 0 <= j < listed.len() ==> has_preview(#[trigger] listed[j]),
                shown.len() == i,
                forall|j: int| 0 <= j < i ==> shown@[j].deep_view() == shown_entry(listed[j]),
            decreases positions.len() - i,
        {
            assert(listed[i as int] == entries@[positions@[i as int] as int].deep_view());
            shown.push(show_entry(&entries[positions[i]]));
            i += 1;
        }
        assert(shown.deep_view() =~= shown_entries(listed));
        let sorted = sort_by_key(shown);
        ToolResult::success(write_list_output(prefix, &sorted))
    }
}

/// What a read of `key` is answered with, where the bus keeps these entries.
pub open spec fn read_answer(
    store: Map<Seq<char>, SharedContextEntryView>,
    key: Seq<char>,
) -> traits::ToolResultView {
    let read = PendingReadView { key, context_key: team_key(key) };
    match entry_step(read, store.get(read.context_key)) {
        TeamContextStepView::Finished(result) => result,
        _ => raw_entry_result(read, store.get(key)),
    }
}

/// The entries of a bus that has taken a patch.
pub open spec fn patched(
    store: Map<Seq<char>, SharedContextEntryView>,
    patch: PatchEnvelopeView,
) -> Map<Seq<char>, SharedContextEntryView> {
    store.insert(
        patch.key,
        SharedContextEntryView {
            value: ContextValueView::Text(patch.value),
            version: (patch.expected_version + 1) as u64,
            updated_by: patch.from,
        },
    )
}

/// The version of an entry of the bus.
pub open spec fn stored_version(
    store: Map<Seq<char>, SharedContextEntryView>,
    key: Seq<char>,
) -> Option<u64> {
    match store.get(key) {
        Some(entry) => Some(entry.version),
        None => None,
    }
}

/// A write is tried if and only if it is allowed, names a key and a value, and the value
/// is not too long. What is tried is what was given, under the team's key.
pub proof fn only_sound_writes_are_tried(
    args: TeamContextArgsView,
    verdict: Result<(), Seq<char>>,
)
    ensures
        write_step(args, verdict) is FindVersion <==> verdict is Ok && filled(args.key) is Some
            && filled(args.value) is Some && filled(args.value)->0.len()
            <= MAX_CONTEXT_VALUE_CHARS,
        write_step(args, verdict) matches TeamContextStepView::FindVersion(checked) ==> checked
            == (CheckedWriteView {
            key: filled(args.key)->0,
            context_key: team_key(filled(args.key)->0),
            value: filled(args.value)->0,
        }),
        write_step(args, verdict) matches TeamContextStepView::Finished(result)
            ==> traits::is_failure(result),
        verdict is Err ==> write_step(args, verdict) is Finished,
{
}

/// A read gives back what was written last: once the bus has taken a write, a read of
/// its key is answered with its value, the version after the one that it replaced, and
/// who wrote it.
pub proof fn written_value_is_read_back(
    store: Map<Seq<char>, SharedContextEntryView>,
    lead: Seq<char>,
    checked: CheckedWriteView,
    write: PendingWriteView,
)
    requires
        checked.context_key == team_key(checked.key),
        publishes(lead, checked, stored_version(store, checked.context_key), write),
        expected_version(stored_version(store, checked.context_key)) < u64::MAX,
    ensures
        read_answer(patched(store, write.envelope), checked.key) == traits::succeeded(
            found_output(
                checked.key,
                SharedContextEntryView {
                    value: ContextValueView::Text(checked.value),
                    version: (expected_version(stored_version(store, checked.context_key))
                        + 1) as u64,
                    updated_by: lead,
                },
            ),
        ),
        shown_value(ContextValueView::Text(checked.value)) == checked.value,
{
}

/// Versions count up by one from 1, and a write reports the version that a read then
/// finds.
pub proof fn versions_count_up(
    store: Map<Seq<char>, SharedContextEntryView>,
    lead: Seq<char>,
    checked: CheckedWriteView,
    write: PendingWriteView,
)
    requires
        publishes(lead, checked, stored_version(store, checked.context_key), write),
        expected_version(stored_version(store, checked.context_key)) < u64::MAX,
    ensures
        stored_version(patched(store, write.envelope), checked.context_key) == Some(
            (expected_version(stored_version(store, checked.context_key)) + 1) as u64,
        ),
        !store.contains_key(checked.context_key) ==> stored_version(
            patched(store, write.envelope),
            checked.context_key,
        ) == Some(1u64),
        written_result(write, Ok(())) == traits::succeeded(
            written_output(
                checked.key,
                stored_version(patched(store, write.envelope), checked.context_key)->0 as nat,
            ),
        ),
{
}

/// A write changes what is read of its own key alone. (A key that spells out the mark
/// of the team can stand for the same entry, and is left out.)
pub proof fn other_keys_stay(
    store: Map<Seq<char>, SharedContextEntryView>,
    patch: PatchEnvelopeView,
    key: Seq<char>,
    other: Seq<char>,
)
    requires
        patch.key == team_key(key),
        other != key,
        other != team_key(key),
    ensures
        read_answer(patched(store, patch), other) == read_answer(store, other),
{
    if team_key(other) == team_key(key) {
        assert(other =~= team_key(other).skip("team/"@.len() as int));
        assert(key =~= team_key(key).skip("team/"@.len() as int));
    }
}

/// A read of a key under which there is nothing succeeds, and says so.
pub proof fn missing_key_is_reported(
    store: Map<Seq<char>, SharedContextEntryView>,
    key: Seq<char>,
)
    requires
        !store.contains_key(key),
        !store.contains_key(team_key(key)),
    ensures
        read_answer(store, key) == traits::succeeded(missing_output(key)),
{
}

/// A list shows a team's entry under the key by which it was written, so that it can be
/// read by that key.
pub proof fn listed_key_is_the_callers(key: Seq<char>)
    ensures
        display_key(team_key(key)) == key,
        is_listed(team_key(key), Seq::empty()),
{
    let full = team_key(key);
    assert(full.take("team/"@.len() as int) =~= "team/"@);
    assert(full.skip("team/"@.len() as int) =~= key);
    assert("team/"@.is_prefix_of(full));
}

/// A list shows entries of the bus that it is to list, and no more of them than it may.
pub proof fn listed_entries_were_asked_for(
    entries: Seq<KeyedEntryView>,
    prefix: Seq<char>,
    n: nat,
)
    ensures
        listed_entries(entries, prefix, n).len() <= n,
        forall|i: int|
            0 <= i < listed_entries(entries, prefix, n).len() ==> is_listed(
                (#[trigger] listed_entries(entries, prefix, n)[i]).key,
                prefix,
            ) && entries.contains(listed_entries(entries, prefix, n)[i]),
{
    let pred = |e: KeyedEntryView| is_listed(e.key, prefix);
    lists::filter_keeps(entries, pred);
    let all = entries.filter(pred);
    let listed = listed_entries(entries, prefix, n);
    assert forall|i: int| 0 <= i < listed.len() implies is_listed(
        (#[trigger] listed[i]).key,
        prefix,
    ) && entries.contains(listed[i]) by {
        assert(listed[i] == all[i]);
        assert(pred(all[i]));
    }
}

/// With a prefix, a list shows an entry of the team if and only if its key, as the caller
/// calls it, begins with the prefix or the prefix spells out the mark of the team; and what
/// it shows begins with the prefix in either form.
pub proof fn prefix_lists_by_beginning(key: Seq<char>, prefix: Seq<char>)
    requires
        prefix.len() > 0,
    ensures
        is_listed(team_key(key), prefix) <==> prefix.is_prefix_of(key) || prefix.is_prefix_of(
            team_key(key),
        ),
        is_listed(key, prefix) ==> prefix.is_prefix_of(display_key(key)) || prefix.is_prefix_of(
            key,
        ),
{
    let mark = "team/"@;
    let n = mark.len() as int;
    let full = team_key(key);
    let wanted = team_key(prefix);
    assert(full.skip(n) =~= key);
    assert(wanted.skip(n) =~= prefix);
    if wanted.is_prefix_of(full) {
        assert(key.take(prefix.len() as int) =~= full.take(wanted.len() as int).skip(n));
        assert(prefix.is_prefix_of(key));
    }
    if prefix.is_prefix_of(key) {
        assert(full.take(wanted.len() as int) =~= mark + key.take(prefix.len() as int));
        assert(wanted.is_prefix_of(full));
    }
    if wanted.is_prefix_of(key) {
        assert(key.take(n) =~= key.take(wanted.len() as int).take(n));
        assert(wanted.take(n) =~= mark);
        assert(mark.is_prefix_of(key));
        assert(key.skip(n).take(prefix.len() as int) =~= key.take(wanted.len() as int).skip(n));
    }
}

proof fn lemma_with_key_first(entries: Seq<ListedEntryView>, key: Seq<char>)
    requires
        entries.len() > 0,
    ensures
        with_key(entries, key) == if entries[0].key == key {
            seq![entries[0]] + with_key(entries.skip(1), key)
        } else {
            with_key(entries.skip(1), key)
        },
{
    let pred = |e: ListedEntryView| e.key == key;
    let first = seq![entries[0]];
    assert(entries =~= first + entries.skip(1));
    Seq::filter_distributes_over_add(first, entries.skip(1), pred);
    if entries[0].key == key {
        lists::filter_all(first, pred);
    } else {
        lists::filter_none(first, pred);
        assert(Seq::<ListedEntryView>::empty() + with_key(entries.skip(1), key) =~= with_key(
            entries.skip(1),
            key,
        ));
    }
}

proof fn lemma_first_key_is_least(left: Seq<ListedEntryView>, right: Seq<ListedEntryView>)
    requires
        left.len() > 0,
        sorted_by_key(right),
        forall|key: Seq<char>| #[trigger] with_key(left, key) == with_key(right, key),
    ensures
        right.len() > 0,
        text::text_le(right[0].key, left[0].key),
{
    let key = left[0].key;
    let pred = |e: ListedEntryView| e.key == key;
    lemma_with_key_first(left, key);
    assert(with_key(left, key) == with_key(right, key));
    lists::filter_keeps(right, pred);
    let found = right.filter(pred)[0];
    assert(pred(found) && right.contains(found));
    let i = right.index_of(found);
    text::order_is_reflexive(key);
    if i > 0 {
        assert(text::text_le(right[0].key, right[i].key));
    }
}

proof fn lemma_same_sorted(left: Seq<ListedEntryView>, right: Seq<ListedEntryView>)
    requires
        sorted_by_key(left),
        sorted_by_key(right),
        forall|key: Seq<char>| #[trigger] with_key(left, key) == with_key(right, key),
    ensures
        left == right,
    decreases left.len(),
{
    if left.len() == 0 {
        if right.len() > 0 {
            lemma_first_key_is_least(right, left);
        }
        assert(left =~= right);
    } else {
        lemma_first_key_is_least(left, right);
        lemma_first_key_is_least(right, left);
        text::order_is_antisymmetric(left[0].key, right[0].key);
        let key = left[0].key;
        lemma_with_key_first(left, key);
        lemma_with_key_first(right, key);
        assert(with_key(left, key)[0] == left[0]);
        assert(with_key(right, key)[0] == right[0]);
        assert(with_key(left, key) == with_key(right, key));
        assert(left[0] == right[0]);
        assert forall|k: Seq<char>| #[trigger] with_key(left.skip(1), k) == with_key(
            right.skip(1),
            k,
        ) by {
            lemma_with_key_first(left, k);
            lemma_with_key_first(right, k);
            assert(with_key(left, k) == with_key(right, k));
            if k == key {
                assert(with_key(left.skip(1), k) =~= with_key(left, k).skip(1));
                assert(with_key(right.skip(1), k) =~= with_key(right, k).skip(1));
            }
        }
        assert(sorted_by_key(left.skip(1)));
        assert(sorted_by_key(right.skip(1)));
        lemma_same_sorted(left.skip(1), right.skip(1));
        assert(left =~= seq![left[0]] + left.skip(1));
        assert(right =~= seq![right[0]] + right.skip(1));
    }
}

/// There is one order in which a list shows its entries: its answer is determined.
pub proof fn list_order_is_unique(
    entries: Seq<ListedEntryView>,
    one: Seq<ListedEntryView>,
    other: Seq<ListedEntryView>,
)
    requires
        is_sorted_form(entries, one),
        is_sorted_form(entries, other),
    ensures
        one == other,
{
    assert forall|key: Seq<char>| #[trigger] with_key(one, key) == with_key(other, key) by {
        assert(with_key(one, key) == with_key(entries, key));
        assert(with_key(other, key) == with_key(entries, key));
    }
    lemma_same_sorted(one, other);
}

proof fn lemma_filter_count(
    entries: Seq<ListedEntryView>,
    pred: spec_fn(ListedEntryView) -> bool,
    entry: ListedEntryView,
)
    requires
        pred(entry),
    ensures
        entries.filter(pred).to_multiset().count(entry) == entries.to_multiset().count(entry),
    decreases entries.len(),
{
    broadcast use vstd::seq_lib::group_to_multiset_ensures;

    if entries.len() == 0 {
        lists::filter_none(entries, pred);
        assert(entries =~= Seq::<ListedEntryView>::empty());
    } else {
        let front = entries.drop_last();
        let last = entries.last();
        assert(front.push(last) =~= entries);
        lists::filter_push(front, last, pred);
        lemma_filter_count(front, pred, entry);
    }
}

/// Sorting a list loses no entry and adds none.
pub proof fn sorting_keeps_entries(
    entries: Seq<ListedEntryView>,
    sorted: Seq<ListedEntryView>,
)
    requires
        is_sorted_form(entries, sorted),
    ensures
        sorted.to_multiset() == entries.to_multiset(),
        sorted.len() == entries.len(),
{
    broadcast use vstd::seq_lib::group_to_multiset_ensures;

    assert forall|entry: ListedEntryView| #[trigger] sorted.to_multiset().count(entry)
        == entries.to_multiset().count(entry) by {
        let pred = |e: ListedEntryView| e.key == entry.key;
        lemma_filter_count(entries, pred, entry);
        lemma_filter_count(sorted, pred, entry);
        assert(with_key(sorted, entry.key) == with_key(entries, entry.key));
    }
    assert(sorted.to_multiset() =~= entries.to_multiset());
    assert(sorted.to_multiset().len() == sorted.len());
    assert(entries.to_multiset().len() == entries.len());
}

/// The count that a list gives is the number of entries that it lists, and no more than
/// it may list.
pub proof fn list_counts_its_entries(
    entries: Seq<KeyedEntryView>,
    prefix: Seq<char>,
    result: traits::ToolResultView,
)
    requires
        answers_list(entries, prefix, result),
    ensures
        exists|sorted: Seq<ListedEntryView>|
            result == traits::succeeded(#[trigger] list_output(prefix, sorted)) && sorted.len()
                == listed_entries(entries, prefix, MAX_LIST_ENTRIES as nat).len()
                && sorted.len() <= MAX_LIST_ENTRIES,
{
    let shown = shown_entries(listed_entries(entries, prefix, MAX_LIST_ENTRIES as nat));
    let sorted = choose|sorted: Seq<ListedEntryView>| #[trigger]
        is_sorted_form(shown, sorted) && result == traits::succeeded(list_output(prefix, sorted));
    sorting_keeps_entries(shown, sorted);
    assert(result == traits::succeeded(list_output(prefix, sorted)));
}

/// An entry that was found is shown whole: under the caller's key, with who wrote it, its version
/// and its value, a text as it is and any other value laid out over lines.
pub proof fn found_entry_is_shown_whole(key: Seq<char>, entry: SharedContextEntryView)
    ensures
        json::has_member(found_output(key, entry), "action"@, json::quoted("read"@)),
        json::has_member(found_output(key, entry), "key"@, json::quoted(key)),
        json::has_member(found_output(key, entry), "updated_by"@, json::quoted(entry.updated_by)),
        json::has_member(found_output(key, entry), "version"@, text::decimal(entry.version as nat)),
        entry.value matches ContextValueView::Text(value) ==> json::has_member(
            found_output(key, entry),
            "value"@,
            json::quoted(value),
        ),
        entry.value matches ContextValueView::Json(value) ==> json::has_member(
            found_output(key, entry),
            "value"@,
            json::quoted(json::json_pretty(value)),
        ),
{
    let members = seq![
        json::text_field("action"@, "read"@),
        json::text_field("key"@, key),
        json::text_field("updated_by"@, entry.updated_by),
        json::text_field("value"@, shown_value(entry.value)),
        json::number_field("version"@, entry.version as nat),
    ];
    json::object_has_its_members(members, 0);
    json::object_has_its_members(members, 1);
    json::object_has_its_members(members, 2);
    json::object_has_its_members(members, 3);
    json::object_has_its_members(members, 4);
}

/// Once the bus has taken a write, the answer to a read of its key holds the value that was
/// written, so that it is read back, the version after the one that was there, and who wrote it.
pub proof fn written_value_is_in_the_answer(
    store: Map<Seq<char>, SharedContextEntryView>,
    lead: Seq<char>,
    checked: CheckedWriteView,
    write: PendingWriteView,
)
    requires
        checked.context_key == team_key(checked.key),
        publishes(lead, checked, stored_version(store, checked.context_key), write),
        expected_version(stored_version(store, checked.context_key)) < u64::MAX,
    ensures
        ({
            let answer = read_answer(patched(store, write.envelope), checked.key);
            let version = if store.contains_key(checked.context_key) {
                store[checked.context_key].version + 1
            } else {
                1int
            };
            &&& answer.success
            &&& answer.error is None
            &&& json::has_member(answer.output, "value"@, json::quoted(checked.value))
            &&& json::string_in(json::quoted(checked.value)) == Some(checked.value)
            &&& json::has_member(answer.output, "key"@, json::quoted(checked.key))
            &&& json::has_member(answer.output, "version"@, text::decimal(version as nat))
            &&& json::has_member(answer.output, "updated_by"@, json::quoted(lead))
        }),
{
    written_value_is_read_back(store, lead, checked, write);
    let version = (expected_version(stored_version(store, checked.context_key)) + 1) as u64;
    found_entry_is_shown_whole(
        checked.key,
        SharedContextEntryView {
            value: ContextValueView::Text(checked.value),
            version,
            updated_by: lead,
        },
    );
    json::string_is_read_back(checked.value);
}

/// A read is answered from the entry of the team, if there is one, else from the entry under
/// the very key that was asked for.
pub proof fn teams_entry_comes_first(
    store: Map<Seq<char>, SharedContextEntryView>,
    key: Seq<char>,
    value: Seq<char>,
)
    ensures
        store.contains_key("team/"@ + key) && store["team/"@ + key].value
            == ContextValueView::Text(value) ==> read_answer(store, key).success && json::has_member(
            read_answer(store, key).output,
            "value"@,
            json::quoted(value),
        ) && json::has_member(
            read_answer(store, key).output,
            "version"@,
            text::decimal(store["team/"@ + key].version as nat),
        ),
        !store.contains_key("team/"@ + key) && store.contains_key(key) && store[key].value
            == ContextValueView::Text(value) ==> read_answer(store, key).success && json::has_member(
            read_answer(store, key).output,
            "value"@,
            json::quoted(value),
        ) && json::has_member(
            read_answer(store, key).output,
            "version"@,
            text::decimal(store[key].version as nat),
        ),
{
    if store.contains_key("team/"@ + key) {
        found_entry_is_shown_whole(key, store["team/"@ + key]);
    } else if store.contains_key(key) {
        found_entry_is_shown_whole(key, store[key]);
    }
}

/// Where nothing is found, the answer says so and names the key.
pub proof fn missing_entry_is_named(key: Seq<char>)
    ensures
        json::has_member(missing_output(key), "action"@, json::quoted("read"@)),
        json::has_member(missing_output(key), "found"@, "false"@),
        json::has_member(missing_output(key), "key"@, json::quoted(key)),
        json::has_member(
            missing_output(key),
            "message"@,
            json::quoted("No context entry found for key '"@ + key + "'"@),
        ),
{
    let members = seq![
        json::text_field("action"@, "read"@),
        json::MemberView { name: "found"@, value: json::bool_text(false) },
        json::text_field("key"@, key),
        json::text_field("message"@, "No context entry found for key '"@ + key + "'"@),
    ];
    json::object_has_its_members(members, 0);
    json::object_has_its_members(members, 1);
    json::object_has_its_members(members, 2);
    json::object_has_its_members(members, 3);
}

/// A write that the bus has taken is confirmed with its key and the version after the one that
/// it replaced; one that it has not taken is answered with its key and the whole reason.
pub proof fn write_is_answered(write: PendingWriteView, reason: Seq<char>)
    ensures
        ({
            let result = written_result(write, Ok(()));
            let version = text::decimal((write.envelope.expected_version + 1) as nat);
            &&& result.success && result.error is None
            &&& json::has_member(result.output, "action"@, json::quoted("write"@))
            &&& json::has_member(result.output, "key"@, json::quoted(write.key))
            &&& json::has_member(result.output, "version"@, version)
            &&& json::has_member(
                result.output,
                "message"@,
                json::quoted(
                    "Context entry '"@ + write.key + "' written successfully (version "@ + version
                        + ")"@,
                ),
            )
        }),
        ({
            let result = written_result(write, Err(reason));
            &&& traits::is_failure(result)
            &&& reason.is_suffix_of(result.error->0)
            &&& ("Failed to write context entry '"@ + write.key + "': "@).is_prefix_of(
                result.error->0,
            )
            &&& result.error->0.len() == ("Failed to write context entry '"@ + write.key
                + "': "@).len() + reason.len()
        }),
{
    let version = (write.envelope.expected_version + 1) as nat;
    let members = seq![
        json::text_field("action"@, "write"@),
        json::text_field("key"@, write.key),
        json::text_field(
            "message"@,
            "Context entry '"@ + write.key + "' written successfully (version "@ + text::decimal(
                version,
            ) + ")"@,
        ),
        json::number_field("version"@, version),
    ];
    json::object_has_its_members(members, 0);
    json::object_has_its_members(members, 1);
    json::object_has_its_members(members, 2);
    json::object_has_its_members(members, 3);
    let start = "Failed to write context entry '"@ + write.key + "': "@;
    let error = start + reason;
    assert(error.take(start.len() as int) =~= start);
    assert(error.subrange(error.len() - reason.len(), error.len() as int) =~= reason);
}

/// A patch goes out in the name of the lead, in the conversation and under the topic of the
/// team's context, with an identifier of its own, and changes the team's entry for the key from
/// the version that was found, or from 0, to the value that was given.
pub proof fn patch_says_what_is_written(
    lead: Seq<char>,
    checked: CheckedWriteView,
    found: Option<u64>,
    write: PendingWriteView,
)
    requires
        publishes(lead, checked, found, write),
    ensures
        write.key == checked.key,
        write.envelope.from == lead,
        write.envelope.conversation == "team-context"@,
        write.envelope.topic == "team.context"@,
        "team-ctx-"@.is_prefix_of(write.envelope.correlation_id),
        system::is_random_uuid(write.envelope.correlation_id.skip("team-ctx-"@.len() as int)),
        write.envelope.key == checked.context_key,
        write.envelope.value == checked.value,
        found is Some ==> write.envelope.expected_version == found->0,
        found is None ==> write.envelope.expected_version == 0,
{
    let id = choose|id: Seq<char>| #[trigger]
        system::is_fresh_id(id) && system::is_random_uuid(id) && write.envelope.correlation_id
            == "team-ctx-"@ + id;
    let start = "team-ctx-"@;
    assert(write.envelope.correlation_id.take(start.len() as int) =~= start);
    assert(write.envelope.correlation_id.skip(start.len() as int) =~= id);
}

/// A read looks for the entry under its key without the white space around it, and for the
/// team's entry first; without a key it is rejected.
pub proof fn read_looks_for_its_key(
    args: TeamContextArgsView,
    left: Seq<char>,
    key: Seq<char>,
    right: Seq<char>,
)
    requires
        text::all_white(left),
        text::has_black_ends(key),
        text::all_white(right),
    ensures
        args.key == Some(left + key + right) && key.len() > 0 ==> read_step(args)
            == TeamContextStepView::FindEntry(PendingReadView { key, context_key: "team/"@ + key }),
        args.key is None || text::all_white(args.key->0) ==> read_step(args)
            == TeamContextStepView::Rejected("Missing 'key' parameter for read action"@),
        entry_step(PendingReadView { key, context_key: "team/"@ + key }, None)
            == TeamContextStepView::FindRawEntry(
            PendingReadView { key, context_key: "team/"@ + key },
        ),
{
    text::white_space_is_trimmed(left, key, right);
    if args.key is Some {
        text::blank_is_all_white(args.key->0);
    }
}

/// A list goes by its prefix without the white space around it, and by none where none is given.
pub proof fn list_goes_by_its_prefix(
    args: TeamContextArgsView,
    left: Seq<char>,
    prefix: Seq<char>,
    right: Seq<char>,
)
    requires
        text::all_white(left),
        text::has_black_ends(prefix),
        text::all_white(right),
    ensures
        args.prefix == Some(left + prefix + right) ==> list_step(args)
            == TeamContextStepView::FetchEntries(prefix),
        args.prefix is None ==> list_step(args) == TeamContextStepView::FetchEntries(Seq::empty()),
{
    text::white_space_is_trimmed(left, prefix, right);
}

/// An action is known by its name, with white space around it or not; any other is refused and
/// named, and none is rejected.
pub proof fn action_is_known_by_its_name(
    args: TeamContextArgsView,
    left: Seq<char>,
    action: Seq<char>,
    right: Seq<char>,
)
    requires
        text::all_white(left),
        text::has_black_ends(action),
        text::all_white(right),
    ensures
        args.action is None ==> first_step(args) == TeamContextStepView::Rejected(
            "Missing 'action' parameter"@,
        ),
        args.action == Some(left + action + right) ==> {
            &&& action == "write"@ ==> first_step(args) is Authorize
            &&& action == "read"@ ==> first_step(args) is FindEntry || first_step(args) is Rejected
            &&& action == "read"@ ==> first_step(args) == read_step(args)
            &&& action == "list"@ ==> first_step(args) is FetchEntries
            &&& action == "list"@ ==> first_step(args) == list_step(args)
            &&& action != "write"@ && action != "read"@ && action != "list"@ ==> (first_step(
                args,
            ) matches TeamContextStepView::Finished(result) && traits::is_failure(result)
                && ("Unknown action '"@ + action + "'"@).is_prefix_of(result.error->0)
                && result.error->0 == "Unknown action '"@ + action
                + "'. Must be one of: write, read, list"@)
        },
{
    text::white_space_is_trimmed(left, action, right);
    reveal_strlit("write");
    reveal_strlit("read");
    reveal_strlit("list");
    assert("write"@.len() == 5);
    assert("read"@.len() == 4);
    assert("list"@.len() == 4);
    assert("read"@[0] == 'r');
    assert("list"@[0] == 'l');
    reveal_strlit("'");
    reveal_strlit("'. Must be one of: write, read, list");
    let error = "Unknown action '"@ + action + "'. Must be one of: write, read, list"@;
    let start = "Unknown action '"@ + action + "'"@;
    assert(error.take(start.len() as int) =~= start);
}

/// A write that is allowed goes on with its key and its value, each without the white space
/// around it; a value of more than 8000 characters is refused with its length, and a key or a
/// value of white space is rejected.
pub proof fn write_keeps_key_and_value(
    args: TeamContextArgsView,
    left: Seq<char>,
    key: Seq<char>,
    value: Seq<char>,
    right: Seq<char>,
)
    requires
        text::all_white(left),
        text::has_black_ends(key),
        key.len() > 0,
        text::has_black_ends(value),
        text::all_white(right),
        args.key == Some(left + key + right),
        args.value == Some(left + value + right),
    ensures
        0 < value.len() <= 8000 ==> write_step(args, Ok(())) == TeamContextStepView::FindVersion(
            CheckedWriteView { key, context_key: "team/"@ + key, value },
        ),
        value.len() > 8000 ==> (write_step(args, Ok(())) matches TeamContextStepView::Finished(
            result,
        ) && traits::is_failure(result) && ("Context value too large ("@ + text::decimal(
            value.len(),
        ) + " chars, max "@ + text::decimal(8000)).is_prefix_of(result.error->0) && result.error->0
            == "Context value too large ("@ + text::decimal(value.len()) + " chars, max "@
            + text::decimal(8000) + ")"@),
        value.len() == 0 ==> write_step(args, Ok(())) == TeamContextStepView::Rejected(
            "Missing 'value' parameter for write action"@,
        ),
{
    text::white_space_is_trimmed(left, key, right);
    text::white_space_is_trimmed(left, value, right);
    let start = "Context value too large ("@ + text::decimal(value.len()) + " chars, max "@
        + text::decimal(8000);
    let error = start + ")"@;
    assert(error.take(start.len() as int) =~= start);
}

/// A write that is refused by the security policy is answered with the reason; one that is
/// allowed but lacks a key or a value is rejected for it, the key first.
pub proof fn unsound_write_goes_no_further(args: TeamContextArgsView, reason: Seq<char>)
    ensures
        write_step(args, Err(reason)) matches TeamContextStepView::Finished(result)
            && traits::is_failure(result) && result.error == Some(reason),
        args.key is None || text::all_white(args.key->0) ==> write_step(args, Ok(()))
            == TeamContextStepView::Rejected("Missing 'key' parameter for write action"@),
        args.key is Some && !text::all_white(args.key->0) && args.value is None ==> write_step(
            args,
            Ok(()),
        ) == TeamContextStepView::Rejected("Missing 'value' parameter for write action"@),
{
    if args.key is Some {
        text::blank_is_all_white(args.key->0);
    }
}

/// Without a prefix the entries of the team are listed, and of the delegates' entries those that
/// hold an output or a result; no other is.
pub proof fn list_without_prefix(key: Seq<char>, part: Seq<char>, rest: Seq<char>)
    ensures
        is_listed(key, Seq::empty()) <==> "team/"@.is_prefix_of(key) || ("delegate/"@.is_prefix_of(
            key,
        ) && (text::contains_part(key, "/output"@) || text::contains_part(key, "/result"@))),
        is_listed("team/"@ + key, Seq::empty()),
        is_listed("delegate/"@ + part + "/output"@ + rest, Seq::empty()),
        is_listed("delegate/"@ + part + "/result"@ + rest, Seq::empty()),
        !"team/"@.is_prefix_of(key) && !"delegate/"@.is_prefix_of(key) ==> !is_listed(
            key,
            Seq::empty(),
        ),
        !"team/"@.is_prefix_of(key) && !text::contains_part(key, "/output"@)
            && !text::contains_part(key, "/result"@) ==> !is_listed(key, Seq::empty()),
{
    let mark = "team/"@;
    let full = mark + key;
    assert(full.take(mark.len() as int) =~= mark);
    let start = "delegate/"@;
    let output = start + part + "/output"@ + rest;
    let result = start + part + "/result"@ + rest;
    assert(output.take(start.len() as int) =~= start);
    assert(result.take(start.len() as int) =~= start);
    text::part_occurs(start + part, "/output"@, rest);
    text::part_occurs(start + part, "/result"@, rest);
}

/// With a prefix every entry is listed whose key begins with it, or with the mark of the team and
/// then the prefix.
pub proof fn list_with_prefix(prefix: Seq<char>, rest: Seq<char>)
    requires
        prefix.len() > 0,
    ensures
        is_listed(prefix + rest, prefix),
        is_listed("team/"@ + prefix + rest, prefix),
        is_listed(rest, prefix) <==> prefix.is_prefix_of(rest) || ("team/"@ + prefix).is_prefix_of(
            rest,
        ),
{
    let raw = prefix + rest;
    let full = "team/"@ + prefix + rest;
    assert(raw.take(prefix.len() as int) =~= prefix);
    assert(full.take(team_key(prefix).len() as int) =~= team_key(prefix));
}

/// A list takes the entries in the order in which they are fetched: each that it is to list, as
/// long as there are fewer than it may list, and none of the others.
pub proof fn list_takes_the_first_entries(
    entries: Seq<KeyedEntryView>,
    entry: KeyedEntryView,
    prefix: Seq<char>,
    n: nat,
)
    ensures
        listed_entries(Seq::<KeyedEntryView>::empty(), prefix, n).len() == 0,
        is_listed(entry.key, prefix) && listed_entries(entries, prefix, n).len() < n
            ==> listed_entries(entries.push(entry), prefix, n) == listed_entries(
            entries,
            prefix,
            n,
        ).push(entry),
        !is_listed(entry.key, prefix) || listed_entries(entries, prefix, n).len() >= n
            ==> listed_entries(entries.push(entry), prefix, n) == listed_entries(
            entries,
            prefix,
            n,
        ),
{
    let pred = |e: KeyedEntryView| is_listed(e.key, prefix);
    lists::filter_none(Seq::<KeyedEntryView>::empty(), pred);
    lists::filter_push(entries, entry, pred);
    let all = entries.filter(pred);
    let longer = entries.push(entry).filter(pred);
    if pred(entry) {
        if all.len() == n {
            assert(longer.take(n as int) =~= all);
        } else if all.len() > n {
            assert(longer.take(n as int) =~= all.take(n as int));
        }
    }
}

/// A list shows an entry under its key without the mark of the team, and any other key as it
/// is, with the entry's version and writer and the first 200 bytes of its value.
pub proof fn listed_entry_is_shown(entry: KeyedEntryView, key: Seq<char>, value: Seq<char>)
    requires
        entry.entry.value == ContextValueView::Text(value) || entry.entry.value
            == ContextValueView::Json(value),
        has_preview(entry),
    ensures
        entry.key == "team/"@ + key ==> shown_entry(entry).key == key,
        !"team/"@.is_prefix_of(entry.key) ==> shown_entry(entry).key == entry.key,
        shown_entry(entry).version == entry.entry.version,
        shown_entry(entry).updated_by == entry.entry.updated_by,
        vstd::utf8::encode_utf8(value).len() <= 200 ==> shown_entry(entry).preview == value,
        vstd::utf8::encode_utf8(value).len() > 200 ==> exists|k: int|
            0 <= k <= value.len() && vstd::utf8::encode_utf8(#[trigger] value.take(k)).len() == 200
                && shown_entry(entry).preview == value.take(k) + "..."@,
{
    if entry.key == "team/"@ + key {
        listed_key_is_the_callers(key);
    }
    text::shortened_text_is_a_beginning(value, 200);
}

/// Whether the text of a listed entry gives its key, version, writer and preview.
pub open spec fn tells_of(item: Seq<char>, entry: ListedEntryView) -> bool {
    &&& json::has_member(item, "key"@, json::quoted(entry.key))
    &&& json::has_member(item, "version"@, text::decimal(entry.version as nat))
    &&& json::has_member(item, "updated_by"@, json::quoted(entry.updated_by))
    &&& json::has_member(item, "preview"@, json::quoted(entry.preview))
}

/// The text of a listed entry gives its key, version, writer and preview.
pub proof fn listed_entry_is_told(entry: ListedEntryView)
    ensures
        tells_of(listed_text(entry), entry),
{
    let members = seq![
        json::text_field("key"@, entry.key),
        json::text_field("preview"@, entry.preview),
        json::text_field("updated_by"@, entry.updated_by),
        json::number_field("version"@, entry.version as nat),
    ];
    json::object_has_its_members(members, 0);
    json::object_has_its_members(members, 1);
    json::object_has_its_members(members, 2);
    json::object_has_its_members(members, 3);
}

/// The text of a list gives the prefix, the number of entries, and each entry in its place.
pub proof fn list_tells_of_its_entries(prefix: Seq<char>, sorted: Seq<ListedEntryView>)
    ensures
        json::has_member(list_output(prefix, sorted), "action"@, json::quoted("list"@)),
        json::has_member(list_output(prefix, sorted), "prefix"@, json::quoted(prefix)),
        json::has_member(list_output(prefix, sorted), "count"@, text::decimal(sorted.len())),
        exists|items: Seq<Seq<char>>|
            {
                &&& items.len() == sorted.len()
                &&& forall|i: int|
                    0 <= i < sorted.len() ==> #[trigger] tells_of(items[i], sorted[i])
                &&& #[trigger] json::has_member(
                    list_output(prefix, sorted),
                    "entries"@,
                    json::list_text(items),
                )
            },
{
    let items = sorted.map_values(|e: ListedEntryView| listed_text(e));
    let members = seq![
        json::text_field("action"@, "list"@),
        json::number_field("count"@, sorted.len()),
        json::MemberView { name: "entries"@, value: json::list_text(items) },
        json::text_field("prefix"@, prefix),
    ];
    json::object_has_its_members(members, 0);
    json::object_has_its_members(members, 1);
    json::object_has_its_members(members, 2);
    json::object_has_its_members(members, 3);
    assert forall|i: int| 0 <= i < sorted.len() implies #[trigger] tells_of(items[i], sorted[i]) by {
        listed_entry_is_told(sorted[i]);
    }
}

/// The answer to a list shows the first 50 entries that are to be listed, each as a list shows
/// it and none twice, in the order of their keys, and counts them.
pub proof fn list_shows_what_is_listed(
    entries: Seq<KeyedEntryView>,
    prefix: Seq<char>,
    result: traits::ToolResultView,
)
    requires
        answers_list(entries, prefix, result),
    ensures
        result.success,
        result.error is None,
        json::has_member(
            result.output,
            "count"@,
            text::decimal(listed_entries(entries, prefix, 50).len()),
        ),
        json::has_member(result.output, "prefix"@, json::quoted(prefix)),
        exists|sorted: Seq<ListedEntryView>|
            {
                &&& forall|i: int, j: int|
                    0 <= i < j < sorted.len() ==> text::text_le(
                        (#[trigger] sorted[i]).key,
                        (#[trigger] sorted[j]).key,
                    )
                &&& sorted.to_multiset() == Seq::new(
                    listed_entries(entries, prefix, 50).len(),
                    |i: int| shown_entry(listed_entries(entries, prefix, 50)[i]),
                ).to_multiset()
                &&& result.output == #[trigger] list_output(prefix, sorted)
            },
{
    let listed = listed_entries(entries, prefix, 50);
    let shown = shown_entries(listed);
    let sorted = choose|sorted: Seq<ListedEntryView>| #[trigger]
        is_sorted_form(shown, sorted) && result == traits::succeeded(list_output(prefix, sorted));
    sorting_keeps_entries(shown, sorted);
    list_tells_of_its_entries(prefix, sorted);
    assert(shown =~= Seq::new(listed.len(), |i: int| shown_entry(listed[i])));
    assert(sorted_by_key(sorted));
}

/// Entries that share a key stay in the order in which they were fetched, and an entry never
/// stands behind one whose key comes after its own.
pub proof fn order_of_a_list(
    entries: Seq<ListedEntryView>,
    sorted: Seq<ListedEntryView>,
    key: Seq<char>,
    i: int,
    j: int,
)
    requires
        is_sorted_form(entries, sorted),
        0 <= i < j < sorted.len(),
    ensures
        text::text_le(sorted[i].key, sorted[j].key),
        sorted.filter(|e: ListedEntryView| e.key == key) == entries.filter(
            |e: ListedEntryView| e.key == key,
        ),
{
    assert(with_key(sorted, key) == with_key(entries, key));
}

/// The schema names the actions, the parameters with what each is for, and the one that must be
/// given; no other is accepted.
pub proof fn schema_tells_of_the_parameters()
    ensures
        json::has_member(parameter_schema(), "type"@, json::quoted("object"@)),
        json::has_member(parameter_schema(), "additionalProperties"@, "false"@),
        json::has_member(
            parameter_schema(),
            "required"@,
            json::list_text(seq![json::quoted("action"@)]),
        ),
        exists|properties: Seq<char>|
            {
                &&& #[trigger] json::has_member(parameter_schema(), "properties"@, properties)
                &&& exists|action: Seq<char>|
                    {
                        &&& #[trigger] json::has_member(properties, "action"@, action)
                        &&& json::has_member(action, "type"@, json::quoted("string"@))
                        &&& json::has_member(
                            action,
                            "description"@,
                            json::quoted("The operation to perform on the shared context"@),
                        )
                        &&& json::has_member(
                            action,
                            "enum"@,
                            json::list_text(
                                seq![
                                    json::quoted("write"@),
                                    json::quoted("read"@),
                                    json::quoted("list"@),
                                ],
                            ),
                        )
                    }
                &&& json::has_member(
                    properties,
                    "key"@,
                    schema::filled_text_schema(
                        "Context key for read/write. Use descriptive keys like 'architecture/decisions', 'review/findings', 'code/module_x'"@,
                    ),
                )
                &&& json::has_member(
                    properties,
                    "prefix"@,
                    schema::text_schema(
                        "Optional prefix filter for 'list' action (e.g. 'architecture/' to list all architecture context)"@,
                    ),
                )
                &&& json::has_member(
                    properties,
                    "value"@,
                    schema::text_schema("Context value to write (required for 'write' action)"@),
                )
            },
{
    let actions = json::list_text(
        seq![json::quoted("write"@), json::quoted("read"@), json::quoted("list"@)],
    );
    let action = seq![
        json::text_field("description"@, "The operation to perform on the shared context"@),
        json::MemberView { name: "enum"@, value: actions },
        json::text_field("type"@, "string"@),
    ];
    json::object_has_its_members(action, 0);
    json::object_has_its_members(action, 1);
    json::object_has_its_members(action, 2);
    let properties = property_schemas();
    json::object_has_its_members(properties, 0);
    json::object_has_its_members(properties, 1);
    json::object_has_its_members(properties, 2);
    json::object_has_its_members(properties, 3);
    let members = seq![
        json::MemberView { name: "additionalProperties"@, value: json::bool_text(false) },
        json::MemberView { name: "properties"@, value: json::object_text(properties) },
        json::MemberView {
            name: "required"@,
            value: json::list_text(seq![json::quoted("action"@)]),
        },
        json::text_field("type"@, "object"@),
    ];
    json::object_has_its_members(members, 0);
    json::object_has_its_members(members, 1);
    json::object_has_its_members(members, 2);
    json::object_has_its_members(members, 3);
    assert(json::has_member(json::object_text(properties), "action"@, action_schema()));
}

/// The answers of the tool hold their members in one order, and nothing beside them.
pub proof fn answers_hold_nothing_else(
    key: Seq<char>,
    version: nat,
    entry: SharedContextEntryView,
    listed: ListedEntryView,
    prefix: Seq<char>,
    sorted: Seq<ListedEntryView>,
)
    ensures
        found_output(key, entry) == seq!['{'] + json::quoted("action"@) + seq![':'] + json::quoted(
            "read"@,
        ) + seq![','] + json::quoted("key"@) + seq![':'] + json::quoted(key) + seq![',']
            + json::quoted("updated_by"@) + seq![':'] + json::quoted(entry.updated_by) + seq![',']
            + json::quoted("value"@) + seq![':'] + json::quoted(
            match entry.value {
                ContextValueView::Text(value) => value,
                ContextValueView::Json(value) => json::json_pretty(value),
            },
        ) + seq![','] + json::quoted("version"@) + seq![':'] + text::decimal(entry.version as nat)
            + seq!['}'],
        missing_output(key) == seq!['{'] + json::quoted("action"@) + seq![':'] + json::quoted(
            "read"@,
        ) + seq![','] + json::quoted("found"@) + seq![':'] + "false"@ + seq![','] + json::quoted(
            "key"@,
        ) + seq![':'] + json::quoted(key) + seq![','] + json::quoted("message"@) + seq![':']
            + json::quoted("No context entry found for key '"@ + key + "'"@) + seq!['}'],
        written_output(key, version) == seq!['{'] + json::quoted("action"@) + seq![':']
            + json::quoted("write"@) + seq![','] + json::quoted("key"@) + seq![':'] + json::quoted(
            key,
        ) + seq![','] + json::quoted("message"@) + seq![':'] + json::quoted(
            "Context entry '"@ + key + "' written successfully (version "@ + text::decimal(version)
                + ")"@,
        ) + seq![','] + json::quoted("version"@) + seq![':'] + text::decimal(version) + seq!['}'],
        listed_text(listed) == seq!['{'] + json::quoted("key"@) + seq![':'] + json::quoted(
            listed.key,
        ) + seq![','] + json::quoted("preview"@) + seq![':'] + json::quoted(listed.preview)
            + seq![','] + json::quoted("updated_by"@) + seq![':'] + json::quoted(listed.updated_by)
            + seq![','] + json::quoted("version"@) + seq![':'] + text::decimal(
            listed.version as nat,
        ) + seq!['}'],
        list_output(prefix, sorted) == seq!['{'] + json::quoted("action"@) + seq![':']
            + json::quoted("list"@) + seq![','] + json::quoted("count"@) + seq![':']
            + text::decimal(sorted.len()) + seq![','] + json::quoted("entries"@) + seq![':']
            + json::list_text(Seq::new(sorted.len(), |i: int| listed_text(sorted[i]))) + seq![',']
            + json::quoted("prefix"@) + seq![':'] + json::quoted(prefix) + seq!['}'],
{
    lemma_found_text(key, entry);
    lemma_missing_text(key);
    lemma_written_text(key, version);
    lemma_listed_text(listed);
    lemma_list_text(prefix, sorted);
}

proof fn lemma_found_text(key: Seq<char>, entry: SharedContextEntryView)
    ensures
        found_output(key, entry) == seq!['{'] + json::quoted("action"@) + seq![':'] + json::quoted(
            "read"@,
        ) + seq![','] + json::quoted("key"@) + seq![':'] + json::quoted(key) + seq![',']
            + json::quoted("updated_by"@) + seq![':'] + json::quoted(entry.updated_by) + seq![',']
            + json::quoted("value"@) + seq![':'] + json::quoted(shown_value(entry.value))
            + seq![','] + json::quoted("version"@) + seq![':'] + text::decimal(entry.version as nat)
            + seq!['}'],
{
    json::object_of_five(
        json::text_field("action"@, "read"@),
        json::text_field("key"@, key),
        json::text_field("updated_by"@, entry.updated_by),
        json::text_field("value"@, shown_value(entry.value)),
        json::number_field("version"@, entry.version as nat),
    );
}

proof fn lemma_missing_text(key: Seq<char>)
    ensures
        missing_output(key) == seq!['{'] + json::quoted("action"@) + seq![':'] + json::quoted(
            "read"@,
        ) + seq![','] + json::quoted("found"@) + seq![':'] + "false"@ + seq![','] + json::quoted(
            "key"@,
        ) + seq![':'] + json::quoted(key) + seq![','] + json::quoted("message"@) + seq![':']
            + json::quoted("No context entry found for key '"@ + key + "'"@) + seq!['}'],
{
    json::object_of_four(
        json::text_field("action"@, "read"@),
        json::MemberView { name: "found"@, value: json::bool_text(false) },
        json::text_field("key"@, key),
        json::text_field("message"@, "No context entry found for key '"@ + key + "'"@),
    );
}

proof fn lemma_written_text(key: Seq<char>, version: nat)
    ensures
        written_output(key, version) == seq!['{'] + json::quoted("action"@) + seq![':']
            + json::quoted("write"@) + seq![','] + json::quoted("key"@) + seq![':'] + json::quoted(
            key,
        ) + seq![','] + json::quoted("message"@) + seq![':'] + json::quoted(
            "Context entry '"@ + key + "' written successfully (version "@ + text::decimal(version)
                + ")"@,
        ) + seq![','] + json::quoted("version"@) + seq![':'] + text::decimal(version) + seq!['}'],
{
    json::object_of_four(
        json::text_field("action"@, "write"@),
        json::text_field("key"@, key),
        json::text_field(
            "message"@,
            "Context entry '"@ + key + "' written successfully (version "@ + text::decimal(version)
                + ")"@,
        ),
        json::number_field("version"@, version),
    );
}

proof fn lemma_listed_text(listed: ListedEntryView)
    ensures
        listed_text(listed) == seq!['{'] + json::quoted("key"@) + seq![':'] + json::quoted(
            listed.key,
        ) + seq![','] + json::quoted("preview"@) + seq![':'] + json::quoted(listed.preview)
            + seq![','] + json::quoted("updated_by"@) + seq![':'] + json::quoted(listed.updated_by)
            + seq![','] + json::quoted("version"@) + seq![':'] + text::decimal(
            listed.version as nat,
        ) + seq!['}'],
{
    json::object_of_four(
        json::text_field("key"@, listed.key),
        json::text_field("preview"@, listed.preview),
        json::text_field("updated_by"@, listed.updated_by),
        json::number_field("version"@, listed.version as nat),
    );
}

proof fn lemma_list_text(prefix: Seq<char>, sorted: Seq<ListedEntryView>)
    ensures
        list_output(prefix, sorted) == seq!['{'] + json::quoted("action"@) + seq![':']
            + json::quoted("list"@) + seq![','] + json::quoted("count"@) + seq![':']
            + text::decimal(sorted.len()) + seq![','] + json::quoted("entries"@) + seq![':']
            + json::list_text(Seq::new(sorted.len(), |i: int| listed_text(sorted[i]))) + seq![',']
            + json::quoted("prefix"@) + seq![':'] + json::quoted(prefix) + seq!['}'],
{
    let items = Seq::new(sorted.len(), |i: int| listed_text(sorted[i]));
    assert(sorted.map_values(|e: ListedEntryView| listed_text(e)) =~= items);
    json::object_of_four(
        json::text_field("action"@, "list"@),
        json::number_field("count"@, sorted.len()),
        json::MemberView { name: "entries"@, value: json::list_text(items) },
        json::text_field("prefix"@, prefix),
    );
}

/// Entries and patches are seen with their whole texts.
pub proof fn entries_are_seen_whole(keyed: KeyedEntry, patch: PatchEnvelope, listed: ListedEntry)
    ensures
        keyed.deep_view().key == keyed.key@,
        keyed.deep_view().entry.version == keyed.entry.version,
        keyed.deep_view().entry.updated_by == keyed.entry.updated_by@,
        keyed.entry.value matches ContextValue::Text(value) ==> keyed.deep_view().entry.value
            == ContextValueView::Text(value@),
        keyed.entry.value matches ContextValue::Json(value) ==> keyed.deep_view().entry.value
            == ContextValueView::Json(json::json_text(value)),
        patch.deep_view().from == patch.from@,
        patch.deep_view().key == patch.key@,
        patch.deep_view().value == patch.value@,
        patch.deep_view().expected_version == patch.expected_version,
        listed.deep_view().key == listed.key@,
        listed.deep_view().version == listed.version,
        listed.deep_view().updated_by == listed.updated_by@,
        listed.deep_view().preview == listed.preview@,
{
}

} // verus!
