//! A numbered registry of what delegated work brought.
//!
//! When work is delegated to a role, its output is stored under the next number. Later
//! work can refer to earlier outputs by their numbers, in place of repeating them.

use crate::lists;
use crate::system;
use crate::text;
use std::collections::HashMap;
use vstd::prelude::*;

verus! {

broadcast use vstd::std_specs::hash::group_hash_axioms;

/// How many entries are stored before the oldest are dropped.
pub const MAX_ENTRIES: usize = 128;

/// How many characters of an output are stored.
pub const MAX_ENTRY_CHARS: usize = 100_000;

/// How many bytes of a task's summary are listed.
pub const MAX_SUMMARY_BYTES: usize = 120;

/// One stored output.
#[derive(Debug)]
pub struct ContextEntry {
    /// The number of the entry; the first is 1.
    pub id: u32,
    /// The role or agent whose output this is.
    pub agent: String,
    /// The task that the agent was given.
    pub task_summary: String,
    /// What the agent brought.
    pub output: String,
    /// When the entry was made, in seconds since the Unix epoch.
    pub created_at: u64,
}

/// A `ContextEntry`, with its texts as sequences of characters.
pub struct ContextEntryView {
    pub id: u32,
    pub agent: Seq<char>,
    pub task_summary: Seq<char>,
    pub output: Seq<char>,
    pub created_at: u64,
}

impl DeepView for ContextEntry {
    type V = ContextEntryView;

    open spec fn deep_view(&self) -> ContextEntryView {
        ContextEntryView {
            id: self.id,
            agent: self.agent@,
            task_summary: self.task_summary@,
            output: self.output@,
            created_at: self.created_at,
        }
    }
}

impl Clone for ContextEntry {
    fn clone(&self) -> (copy: Self)
        ensures
            copy.deep_view() == self.deep_view(),
    {
        ContextEntry {
            id: self.id,
            agent: self.agent.clone(),
            task_summary: self.task_summary.clone(),
            output: self.output.clone(),
            created_at: self.created_at,
        }
    }
}

/// What a registry holds: its entries from the oldest to the newest, and the number of
/// the next one.
pub struct ContextRegistryView {
    pub next_id: u32,
    pub entries: Seq<ContextEntryView>,
}

/// The number that comes `back` before `next`. After the largest number comes 0.
pub open spec fn number_before(next: u32, back: int) -> int {
    (next as int - back) % 0x1_0000_0000
}

/// Whether a registry is in order: it holds no more entries than it may, and they bear
/// the numbers just before the next one, in their order.
pub open spec fn in_order(registry: ContextRegistryView) -> bool {
    &&& registry.entries.len() <= MAX_ENTRIES
    &&& forall|i: int|
        0 <= i < registry.entries.len() ==> (#[trigger] registry.entries[i]).id as int
            == number_before(registry.next_id, registry.entries.len() - i)
}

/// What is stored of an output.
pub open spec fn stored_output(output: Seq<char>) -> Seq<char> {
    if output.len() > MAX_ENTRY_CHARS {
        output.take(MAX_ENTRY_CHARS as int) + "\n... [truncated]"@
    } else {
        output
    }
}

/// The entry that is made of an output.
pub open spec fn entry_of(
    id: u32,
    agent: Seq<char>,
    task_summary: Seq<char>,
    output: Seq<char>,
    created_at: u64,
) -> ContextEntryView {
    ContextEntryView { id, agent, task_summary, output: stored_output(output), created_at }
}

/// A registry in which an entry was stored. If it holds too many then, the oldest is
/// dropped.
pub open spec fn with_entry(
    registry: ContextRegistryView,
    entry: ContextEntryView,
) -> ContextRegistryView {
    let entries = registry.entries.push(entry);
    ContextRegistryView {
        next_id: if registry.next_id == u32::MAX {
            0
        } else {
            (registry.next_id + 1) as u32
        },
        entries: if entries.len() > MAX_ENTRIES {
            entries.skip(1)
        } else {
            entries
        },
    }
}

/// Storing an entry under the next number leaves the registry in order.
proof fn lemma_stays_in_order(registry: ContextRegistryView, entry: ContextEntryView)
    requires
        in_order(registry),
        entry.id == registry.next_id,
    ensures
        in_order(with_entry(registry, entry)),
{
    let after = with_entry(registry, entry);
    let grown = registry.entries.push(entry);
    let dropped: int = if grown.len() > MAX_ENTRIES {
        1
    } else {
        0
    };
    assert forall|i: int| 0 <= i < after.entries.len() implies (#[trigger] after.entries[i]).id as int
        == number_before(after.next_id, after.entries.len() - i) by {
        assert(after.entries[i] == grown[i + dropped]);
        if i + dropped < registry.entries.len() {
            assert(grown[i + dropped] == registry.entries[i + dropped]);
        }
    }
}

/// The entry under a number, if there is one; the newest, were there several.
pub open spec fn entry_under(entries: Seq<ContextEntryView>, id: u32) -> Option<ContextEntryView>
    decreases entries.len(),
{
    if entries.len() == 0 {
        None
    } else if entries.last().id == id {
        Some(entries.last())
    } else {
        entry_under(entries.drop_last(), id)
    }
}

/// An entry that is found under a number bears it, and where none is found none bears
/// it.
proof fn lemma_entry_under(entries: Seq<ContextEntryView>, id: u32) -> (at: int)
    ensures
        entry_under(entries, id) is Some ==> 0 <= at < entries.len() && entries[at].id == id
            && entry_under(entries, id) == Some(entries[at]),
        entry_under(entries, id) is None ==> forall|i: int|
            0 <= i < entries.len() ==> (#[trigger] entries[i]).id != id,
    decreases entries.len(),
{
    if entries.len() == 0 {
        0
    } else if entries.last().id == id {
        entries.len() - 1
    } else {
        let front = entries.drop_last();
        let at = lemma_entry_under(front, id);
        if entry_under(entries, id) is None {
            assert forall|i: int| 0 <= i < entries.len() implies (#[trigger] entries[i]).id
                != id by {
                if i < front.len() {
                    assert(front[i] == entries[i]);
                }
            }
        }
        at
    }
}

/// How an entry is handed on.
pub open spec fn context_text(entry: ContextEntryView) -> Seq<char> {
    "[Context #"@ + text::decimal(entry.id as nat) + "] (from "@ + entry.agent + " — "@
        + entry.task_summary + ")\n"@ + entry.output
}

/// The entries that are referred to, in the order of the references.
pub open spec fn referred_entries(entries: Seq<ContextEntryView>, ids: Seq<u32>) -> Seq<
    ContextEntryView,
> {
    ids.filter(|id: u32| entry_under(entries, id) is Some).map_values(
        |id: u32| entry_under(entries, id)->0,
    )
}

/// The text of the entries that are referred to, one after another.
pub open spec fn referred_text(entries: Seq<ContextEntryView>, ids: Seq<u32>) -> Seq<char> {
    text::joined(
        referred_entries(entries, ids).map_values(|entry: ContextEntryView| context_text(entry)),
        "\n\n"@,
    )
}

/// The references that lead nowhere.
pub open spec fn missing_ids(entries: Seq<ContextEntryView>, ids: Seq<u32>) -> Seq<u32> {
    ids.filter(|id: u32| entry_under(entries, id) is None)
}

/// What is listed of an entry: its number, its agent, its task and when it was made.
pub open spec fn summary_of(entry: ContextEntryView) -> (u32, Seq<char>, Seq<char>, u64) {
    (
        entry.id,
        entry.agent,
        text::shortened(entry.task_summary, MAX_SUMMARY_BYTES as int),
        entry.created_at,
    )
}

/// Whether the task of every entry can be cut to what is listed of it.
pub open spec fn can_be_listed(entries: Seq<ContextEntryView>) -> bool {
    forall|i: int|
        0 <= i < entries.len() ==> text::cuts_at(
            (#[trigger] entries[i]).task_summary,
            MAX_SUMMARY_BYTES as int,
        )
}

/// A registry of outputs under numbers that count up.
#[derive(Debug)]
pub struct ContextRegistry {
    next_id: u32,
    entries: HashMap<u32, ContextEntry>,
    /// The numbers of the entries, from the oldest to the newest.
    order: Vec<u32>,
}

impl DeepView for ContextRegistry {
    type V = ContextRegistryView;

    closed spec fn deep_view(&self) -> ContextRegistryView {
        ContextRegistryView {
            next_id: self.next_id,
            entries: self.order@.map_values(|id: u32| self.entries@[id].deep_view()),
        }
    }
}

impl ContextRegistry {
    /// Whether the registry is in order.
    pub closed spec fn wf(&self) -> bool {
        &&& in_order(self.deep_view())
        &&& forall|id: u32| #[trigger]
            self.entries@.contains_key(id) <==> self.order@.contains(id)
        &&& forall|id: u32| #[trigger]
            self.entries@.contains_key(id) ==> self.entries@[id].id == id
    }

    /// A registry that is in order holds its entries in order.
    pub proof fn holds_in_order(&self)
        requires
            self.wf(),
        ensures
            in_order(self.deep_view()),
    {
    }

    proof fn lemma_order(&self)
        requires
            self.wf(),
        ensures
            forall|i: int|
                0 <= i < self.order@.len() ==> (#[trigger] self.order@[i]) as int == number_before(
                    self.next_id,
                    self.order@.len() - i,
                ),
            forall|i: int|
                0 <= i < self.order@.len() ==> self.entries@.contains_key(
                    #[trigger] self.order@[i],
                ),
            forall|i: int, j: int|
                0 <= i < j < self.order@.len() ==> #[trigger] self.order@[i]
                    != #[trigger] self.order@[j],
    {
        let order = self.order@;
        assert forall|i: int| 0 <= i < order.len() implies (#[trigger] order[i]) as int
            == number_before(self.next_id, order.len() - i) && self.entries@.contains_key(
            order[i],
        ) by {
            assert(order.contains(order[i]));
            assert(self.entries@.contains_key(order[i]));
            assert(self.deep_view().entries[i].id == self.entries@[order[i]].id);
            assert(self.deep_view().entries.len() == order.len());
        }
    }

    /// An empty registry.
    pub fn new() -> (registry: Self)
        ensures
            registry.wf(),
            registry.deep_view() == (ContextRegistryView { next_id: 1, entries: Seq::empty() }),
    {
        let registry = ContextRegistry {
            next_id: 1,
            entries: HashMap::new(),
            order: Vec::new(),
        };
        assert(registry.deep_view().entries =~= Seq::<ContextEntryView>::empty());
        registry
    }

    /// Stores an output that was just brought. Returns its number.
    pub fn register(&mut self, agent: String, task_summary: String, output: String) -> (id: u32)
        requires
            old(self).wf(),
        ensures
            final(self).wf(),
            id == old(self).deep_view().next_id,
            exists|now: u64| #[trigger]
                system::is_present_second(now) && final(self).deep_view() == with_entry(
                    old(self).deep_view(),
                    entry_of(id, agent@, task_summary@, output@, now),
                ),
    {
        let now: u64 = system::unix_seconds();
        self.register_at(agent, task_summary, output, now)
    }

    /// Stores an output that was brought at the given time. Returns its number.
    pub fn register_at(
        &mut self,
        agent: String,
        task_summary: String,
        output: String,
        created_at: u64,
    ) -> (id: u32)
        requires
            old(self).wf(),
        ensures
            final(self).wf(),
            id == old(self).deep_view().next_id,
            final(self).deep_view() == with_entry(
                old(self).deep_view(),
                entry_of(id, agent@, task_summary@, output@, created_at),
            ),
    {
        let ghost before = self.deep_view();
        let ghost old_order = self.order@;
        let ghost old_entries = self.entries@;
        let ghost entry = entry_of(self.next_id, agent@, task_summary@, output@, created_at);
        let id: u32 = self.next_id;
        proof {
            self.lemma_order();
            assert(!old_order.contains(id));
        }
        self.next_id = self.next_id.wrapping_add(1);
        let output = cut_output(output);
        let stored = ContextEntry { id, agent, task_summary, output, created_at };
        self.entries.insert(id, stored);
        self.order.push(id);
        let ghost order = old_order.push(id);
        let ghost entries = old_entries.insert(id, stored);
        proof {
            assert(forall|i: int| 0 <= i < old_order.len() ==> old_order.contains(old_order[i]));
            assert(order.map_values(|n: u32| entries[n].deep_view()) =~= before.entries.push(entry));
            assert forall|n: u32| #[trigger] entries.contains_key(n) <==> order.contains(n) by {
                if n == id {
                    assert(order[order.len() - 1] == n);
                } else if old_order.contains(n) {
                    let i = old_order.index_of(n);
                    assert(order[i] == n);
                } else if order.contains(n) {
                    let i = order.index_of(n);
                    assert(old_order[i] == n);
                }
            }
        }
        if self.order.len() > MAX_ENTRIES {
            let oldest: u32 = self.order.remove(0);
            self.entries.remove(&oldest);
            proof {
                let left = self.order@;
                assert(left =~= order.skip(1));
                assert(order[0] == oldest);
                assert forall|i: int| 0 <= i < left.len() implies #[trigger] left[i] != oldest
                    && entries.contains_key(left[i]) by {
                    assert(left[i] == order[i + 1]);
                    assert(order.contains(order[i + 1]));
                }
                assert(left.map_values(|n: u32| self.entries@[n].deep_view())
                    =~= before.entries.push(entry).skip(1));
                assert forall|n: u32| #[trigger]
                    self.entries@.contains_key(n) <==> left.contains(n) by {
                    if left.contains(n) {
                        let i = left.index_of(n);
                        assert(left[i] == n);
                    } else if self.entries@.contains_key(n) {
                        let i = order.index_of(n);
                        assert(order[i] == n);
                        assert(left[i - 1] == n);
                    }
                }
            }
        }
        assert(self.deep_view() == with_entry(before, entry));
        proof {
            lemma_stays_in_order(before, entry);
        }
        id
    }

    proof fn lemma_lookup(&self, id: u32)
        requires
            self.wf(),
        ensures
            entry_under(self.deep_view().entries, id) == (if self.entries@.contains_key(id) {
                Some(self.entries@[id].deep_view())
            } else {
                None
            }),
    {
        let order = self.order@;
        let entries = self.deep_view().entries;
        self.lemma_order();
        let at = lemma_entry_under(entries, id);
        if entry_under(entries, id) is Some {
            assert(entries[at].id == order[at]);
            assert(self.entries@.contains_key(order[at]));
        } else if self.entries@.contains_key(id) {
            let i = order.index_of(id);
            assert(order[i] == id);
            assert(entries[i].id == id);
        }
    }

    /// The entry under a number.
    pub fn get(&self, id: u32) -> (entry: Option<ContextEntry>)
        requires
            self.wf(),
        ensures
            entry.deep_view() == entry_under(self.deep_view().entries, id),
    {
        proof {
            self.lemma_lookup(id);
        }
        match self.entries.get(&id) {
            Some(entry) => Some(entry.clone()),
            None => None,
        }
    }

    /// The text of the entries under these numbers, and the numbers under which there
    /// is none.
    pub fn resolve_refs(&self, ids: &[u32]) -> (result: (String, Vec<u32>))
        requires
            self.wf(),
        ensures
            result.0@ == referred_text(self.deep_view().entries, ids@),
            result.1@ == missing_ids(self.deep_view().entries, ids@),
    {
        let ghost entries = self.deep_view().entries;
        let ghost found = |id: u32| entry_under(entries, id) is Some;
        let ghost gone = |id: u32| entry_under(entries, id) is None;
        let ghost entry_at = |id: u32| entry_under(entries, id)->0;
        let ghost show = |entry: ContextEntryView| context_text(entry);
        let mut parts: Vec<String> = Vec::new();
        let mut missing: Vec<u32> = Vec::new();
        let mut i: usize = 0;
        proof {
            lists::filter_none(ids@.take(0), found);
            lists::filter_none(ids@.take(0), gone);
            assert(parts.deep_view() =~= referred_entries(entries, ids@.take(0)).map_values(show));
        }
        while i < ids.len()
            invariant
                i <= ids.len(),
                self.wf(),
                entries == self.deep_view().entries,
                found == (|id: u32| entry_under(entries, id) is Some),
                gone == (|id: u32| entry_under(entries, id) is None),
                entry_at == (|id: u32| entry_under(entries, id)->0),
                show == (|entry: ContextEntryView| context_text(entry)),
                parts.deep_view() == referred_entries(entries, ids@.take(i as int)).map_values(
                    show,
                ),
                missing@ == missing_ids(entries, ids@.take(i as int)),
            decreases ids.len() - i,
        {
            let id: u32 = ids[i];
            let ghost so_far = ids@.take(i as int);
            let ghost before = parts.deep_view();
            proof {
                assert(ids@.take(i + 1) =~= so_far.push(id));
                lists::filter_push(so_far, id, found);
                lists::filter_push(so_far, id, gone);
                self.lemma_lookup(id);
            }
            match self.entries.get(&id) {
                Some(entry) => {
                    let part = show_entry(entry);
                    parts.push(part);
                    assert(parts.deep_view() =~= before.push(part@));
                    assert(so_far.filter(found).push(id).map_values(entry_at).map_values(show)
                        =~= before.push(part@));
                },
                None => {
                    missing.push(id);
                },
            }
            i += 1;
        }
        assert(ids@.take(i as int) =~= ids@);
        (text::join(&parts, "\n\n"), missing)
    }

    /// Whether the task of every entry can be cut to what is listed of it: a character
    /// must end where the cut is.
    pub fn can_list(&self) -> (yes: bool)
        requires
            self.wf(),
        ensures
            yes == can_be_listed(self.deep_view().entries),
    {
        proof {
            self.lemma_order();
        }
        let mut i: usize = 0;
        while i < self.order.len()
            invariant
                i <= self.order.len(),
                self.wf(),
                forall|j: int|
                    0 <= j < self.order@.len() ==> self.entries@.contains_key(
                        #[trigger] self.order@[j],
                    ),
                forall|j: int|
                    0 <= j < i ==> text::cuts_at(
                        (#[trigger] self.deep_view().entries[j]).task_summary,
                        MAX_SUMMARY_BYTES as int,
                    ),
            decreases self.order.len() - i,
        {
            assert(self.entries@.contains_key(self.order@[i as int]));
            if let Some(entry) = self.entries.get(&self.order[i]) {
                let task = entry.task_summary.as_str();
                assert(self.deep_view().entries[i as int].task_summary == task@);
                if task.as_bytes().len() > MAX_SUMMARY_BYTES && !task.is_char_boundary(
                    MAX_SUMMARY_BYTES,
                ) {
                    return false;
                }
            }
            i += 1;
        }
        true
    }

    /// What is listed of each entry, from the oldest to the newest: its number, its
    /// agent, its task, cut where it is long, and when it was made.
    pub fn list_summaries(&self) -> (summaries: Vec<(u32, String, String, u64)>)
        requires
            self.wf(),
            can_be_listed(self.deep_view().entries),
        ensures
            summaries.deep_view() == self.deep_view().entries.map_values(
                |entry: ContextEntryView| summary_of(entry),
            ),
    {
        let ghost entries = self.deep_view().entries;
        proof {
            self.lemma_order();
        }
        let mut summaries: Vec<(u32, String, String, u64)> = Vec::new();
        let mut i: usize = 0;
        while i < self.order.len()
            invariant
                i <= self.order.len(),
                self.wf(),
                entries == self.deep_view().entries,
                can_be_listed(entries),
                forall|j: int|
                    0 <= j < self.order@.len() ==> self.entries@.contains_key(
                        #[trigger] self.order@[j],
                    ),
                summaries.len() == i,
                forall|j: int|
                    0 <= j < i ==> (#[trigger] summaries@[j]).deep_view() == summary_of(entries[j]),
            decreases self.order.len() - i,
        {
            assert(self.entries@.contains_key(self.order@[i as int]));
            if let Some(entry) = self.entries.get(&self.order[i]) {
                assert(entries[i as int] == entry.deep_view());
                summaries.push(
                    (
                        entry.id,
                        entry.agent.clone(),
                        text::shorten(entry.task_summary.as_str(), MAX_SUMMARY_BYTES),
                        entry.created_at,
                    ),
                );
            }
            i += 1;
        }
        assert(summaries.deep_view() =~= entries.map_values(
            |entry: ContextEntryView| summary_of(entry),
        ));
        summaries
    }

    /// How many entries are stored.
    pub fn len(&self) -> (count: usize)
        requires
            self.wf(),
        ensures
            count == self.deep_view().entries.len(),
    {
        self.order.len()
    }

    /// Whether nothing is stored.
    pub fn is_empty(&self) -> (empty: bool)
        requires
            self.wf(),
        ensures
            empty == (self.deep_view().entries.len() == 0),
    {
        self.order.len() == 0
    }
}

impl Default for ContextRegistry {
    fn default() -> (registry: Self)
        ensures
            registry.wf(),
            registry.deep_view() == (ContextRegistryView { next_id: 1, entries: Seq::empty() }),
    {
        ContextRegistry::new()
    }
}

fn show_entry(entry: &ContextEntry) -> (shown: String)
    ensures
        shown@ == context_text(entry.deep_view()),
{
    let mut shown = String::from_str("[Context #");
    shown.append(text::decimal_text(entry.id as u64).as_str());
    shown.append("] (from ");
    shown.append(entry.agent.as_str());
    shown.append(" — ");
    shown.append(entry.task_summary.as_str());
    shown.append(")\n");
    shown.append(entry.output.as_str());
    shown
}

fn cut_output(output: String) -> (stored: String)
    ensures
        stored@ == stored_output(output@),
{
    let chars = text::chars_of(output.as_str());
    if chars.len() > MAX_ENTRY_CHARS {
        let mut stored = text::string_of(&chars, 0, MAX_ENTRY_CHARS);
        stored.append("\n... [truncated]");
        assert(stored@ =~= stored_output(output@));
        stored
    } else {
        output
    }
}

/// No two entries of a registry bear the same number.
pub proof fn numbers_are_distinct(registry: ContextRegistryView, i: int, j: int)
    requires
        in_order(registry),
        0 <= i < j < registry.entries.len(),
    ensures
        registry.entries[i].id != registry.entries[j].id,
{
}

/// An entry that is stored under the next number is found under it.
pub proof fn stored_entry_is_found(registry: ContextRegistryView, entry: ContextEntryView)
    requires
        in_order(registry),
        entry.id == registry.next_id,
    ensures
        in_order(with_entry(registry, entry)),
        entry_under(with_entry(registry, entry).entries, entry.id) == Some(entry),
{
    lemma_stays_in_order(registry, entry);
    assert(with_entry(registry, entry).entries.last() == entry);
}

proof fn lemma_entry_at(registry: ContextRegistryView, i: int)
    requires
        in_order(registry),
        0 <= i < registry.entries.len(),
    ensures
        entry_under(registry.entries, registry.entries[i].id) == Some(registry.entries[i]),
{
    let j = lemma_entry_under(registry.entries, registry.entries[i].id);
    if i < j {
        numbers_are_distinct(registry, i, j);
    } else if j < i {
        numbers_are_distinct(registry, j, i);
    }
}

/// Every entry is found under its own number.
pub proof fn entries_are_found_by_number(registry: ContextRegistryView, i: int)
    requires
        in_order(registry),
        0 <= i < registry.entries.len(),
    ensures
        entry_under(registry.entries, registry.entries[i].id) == Some(registry.entries[i]),
{
    lemma_entry_at(registry, i);
}

/// Storing an entry changes nothing under other numbers, but that a full registry drops
/// its oldest entry.
pub proof fn other_entries_stay(
    registry: ContextRegistryView,
    entry: ContextEntryView,
    id: u32,
)
    requires
        in_order(registry),
        entry.id == registry.next_id,
        id != entry.id,
    ensures
        entry_under(with_entry(registry, entry).entries, id) == (if registry.entries.len()
            == MAX_ENTRIES && id == registry.entries[0].id {
            None
        } else {
            entry_under(registry.entries, id)
        }),
{
    let before = registry.entries;
    let after = with_entry(registry, entry);
    let grown = before.push(entry);
    let dropped: int = if grown.len() > MAX_ENTRIES {
        1
    } else {
        0
    };
    lemma_stays_in_order(registry, entry);
    assert(forall|i: int|
        0 <= i < after.entries.len() ==> #[trigger] after.entries[i] == grown[i + dropped]);
    let there = lemma_entry_under(after.entries, id);
    let here = lemma_entry_under(before, id);
    if entry_under(after.entries, id) is Some {
        assert(before[there + dropped] == after.entries[there]);
        lemma_entry_at(registry, there + dropped);
        if dropped == 1 {
            numbers_are_distinct(registry, 0, there + dropped);
        }
    } else if entry_under(before, id) is Some && here >= dropped {
        assert(after.entries[here - dropped] == before[here]);
    }
}

/// A registry in which entries were stored one after another.
pub open spec fn with_entries(
    registry: ContextRegistryView,
    entries: Seq<ContextEntryView>,
) -> ContextRegistryView
    decreases entries.len(),
{
    if entries.len() == 0 {
        registry
    } else {
        with_entry(with_entries(registry, entries.drop_last()), entries.last())
    }
}

/// First in, first out: of all that is stored, a registry holds the newest entries, as
/// many as it may.
pub proof fn newest_entries_are_held(
    registry: ContextRegistryView,
    entries: Seq<ContextEntryView>,
)
    requires
        registry.entries.len() <= MAX_ENTRIES,
    ensures
        with_entries(registry, entries).entries == lists::last_of(
            registry.entries + entries,
            MAX_ENTRIES as nat,
        ),
    decreases entries.len(),
{
    let all = registry.entries + entries;
    if entries.len() == 0 {
        assert(all =~= registry.entries);
    } else {
        newest_entries_are_held(registry, entries.drop_last());
        assert(registry.entries + entries.drop_last() =~= all.drop_last());
        assert(with_entries(registry, entries).entries =~= lists::last_of(
            all,
            MAX_ENTRIES as nat,
        ));
    }
}

/// A registry never holds more entries than it may.
pub proof fn registry_is_bounded(registry: ContextRegistryView, entry: ContextEntryView)
    requires
        registry.entries.len() <= MAX_ENTRIES,
    ensures
        with_entry(registry, entry).entries.len() <= MAX_ENTRIES,
{
}

/// Numbers count up by one.
pub proof fn numbers_count_up(registry: ContextRegistryView, entry: ContextEntryView)
    requires
        registry.next_id < u32::MAX,
    ensures
        with_entry(registry, entry).next_id == registry.next_id + 1,
{
}

/// A reference is missing if and only if there is no entry under it, and every other
/// reference is resolved.
pub proof fn references_are_resolved_or_missing(
    entries: Seq<ContextEntryView>,
    ids: Seq<u32>,
)
    ensures
        missing_ids(entries, ids).len() + referred_entries(entries, ids).len() == ids.len(),
        forall|id: u32| #[trigger]
            missing_ids(entries, ids).contains(id) <==> ids.contains(id) && entry_under(
                entries,
                id,
            ) is None,
    decreases ids.len(),
{
    let found = |id: u32| entry_under(entries, id) is Some;
    let gone = |id: u32| entry_under(entries, id) is None;
    if ids.len() == 0 {
        lists::filter_none(ids, found);
        lists::filter_none(ids, gone);
    } else {
        let front = ids.drop_last();
        let last = ids.last();
        references_are_resolved_or_missing(entries, front);
        assert(front.push(last) =~= ids);
        lists::filter_push(front, last, found);
        lists::filter_push(front, last, gone);
        let before = missing_ids(entries, front);
        let after = missing_ids(entries, ids);
        assert forall|id: u32| #[trigger] after.contains(id) <==> ids.contains(id) && entry_under(
            entries,
            id,
        ) is None by {
            if after.contains(id) {
                let i = after.index_of(id);
                if i < before.len() {
                    assert(before[i] == id);
                    assert(before.contains(id));
                    assert(ids[front.index_of(id)] == id);
                } else {
                    assert(ids[ids.len() - 1] == id);
                }
            }
            if ids.contains(id) && entry_under(entries, id) is None {
                let i = ids.index_of(id);
                if i < front.len() {
                    assert(front[i] == id);
                    assert(before.contains(id));
                    assert(after[before.index_of(id)] == id);
                } else {
                    assert(after[after.len() - 1] == id);
                }
            }
        }
    }
}

/// What is stored of an output is the output itself, or its beginning and a mark.
pub proof fn long_output_is_cut(output: Seq<char>)
    ensures
        output.len() <= MAX_ENTRY_CHARS ==> stored_output(output) == output,
        output.len() > MAX_ENTRY_CHARS ==> {
            &&& output.take(MAX_ENTRY_CHARS as int).is_prefix_of(stored_output(output))
            &&& "\n... [truncated]"@.is_suffix_of(stored_output(output))
            &&& stored_output(output).len() == MAX_ENTRY_CHARS + 16
        },
{
    reveal_strlit("\n... [truncated]");
    if output.len() > MAX_ENTRY_CHARS {
        let stored = stored_output(output);
        let mark = "\n... [truncated]"@;
        assert(stored.take(MAX_ENTRY_CHARS as int) =~= output.take(MAX_ENTRY_CHARS as int));
        assert(stored.subrange(stored.len() - mark.len(), stored.len() as int) =~= mark);
    }
}

/// What is found under a number bears it and is in the registry; where nothing is found,
/// nothing bears it.
pub proof fn found_entry_bears_its_number(entries: Seq<ContextEntryView>, id: u32)
    ensures
        entry_under(entries, id) is Some ==> entry_under(entries, id)->0.id == id
            && entries.contains(entry_under(entries, id)->0),
        entry_under(entries, id) is None ==> forall|i: int|
            0 <= i < entries.len() ==> (#[trigger] entries[i]).id != id,
{
    let at = lemma_entry_under(entries, id);
}

/// An entry holds what it was made of: its number, its agent, its task, its time, and its
/// output, which is cut only where it has more than 100,000 characters.
pub proof fn entry_holds_what_it_was_made_of(
    id: u32,
    agent: Seq<char>,
    task_summary: Seq<char>,
    output: Seq<char>,
    created_at: u64,
)
    ensures
        entry_of(id, agent, task_summary, output, created_at).id == id,
        entry_of(id, agent, task_summary, output, created_at).agent == agent,
        entry_of(id, agent, task_summary, output, created_at).task_summary == task_summary,
        entry_of(id, agent, task_summary, output, created_at).created_at == created_at,
        output.len() <= 100_000 ==> entry_of(
            id,
            agent,
            task_summary,
            output,
            created_at,
        ).output == output,
        output.len() > 100_000 ==> entry_of(id, agent, task_summary, output, created_at).output
            == output.take(100_000) + "\n... [truncated]"@,
{
}

/// A registry holds 128 entries before it drops any; then each new one takes the place of the
/// oldest. After the largest number comes 0.
pub proof fn oldest_entry_makes_room(registry: ContextRegistryView, entry: ContextEntryView)
    ensures
        registry.entries.len() < 128 ==> with_entry(registry, entry).entries
            == registry.entries.push(entry),
        registry.entries.len() == 128 ==> with_entry(registry, entry).entries
            == registry.entries.skip(1).push(entry),
        registry.next_id == u32::MAX ==> with_entry(registry, entry).next_id == 0,
{
    if registry.entries.len() == 128 {
        assert(with_entry(registry, entry).entries =~= registry.entries.skip(1).push(entry));
    }
}

/// An entry is handed on whole: its number, its agent and its task in one line, then the full
/// output, and nothing else.
pub proof fn entry_is_handed_on_whole(entry: ContextEntryView)
    ensures
        entry.output.is_suffix_of(context_text(entry)),
        ("[Context #"@ + text::decimal(entry.id as nat) + "] (from "@).is_prefix_of(
            context_text(entry),
        ),
        text::contains_part(
            context_text(entry),
            "] (from "@ + entry.agent + " — "@ + entry.task_summary + ")\n"@,
        ),
        context_text(entry).len() == "[Context #"@.len() + text::decimal(entry.id as nat).len()
            + "] (from "@.len() + entry.agent.len() + " — "@.len() + entry.task_summary.len()
            + ")\n"@.len() + entry.output.len(),
        context_text(entry) == "[Context #"@ + text::decimal(entry.id as nat) + "] (from "@
            + entry.agent + " — "@ + entry.task_summary + ")\n"@ + entry.output,
{
    let whole = context_text(entry);
    let head = "[Context #"@ + text::decimal(entry.id as nat);
    let middle = "] (from "@ + entry.agent + " — "@ + entry.task_summary + ")\n"@;
    assert(whole =~= head + middle + entry.output);
    text::part_occurs(head, middle, entry.output);
    assert(whole.subrange(whole.len() - entry.output.len(), whole.len() as int) =~= entry.output);
    let start = head + "] (from "@;
    assert(whole.take(start.len() as int) =~= start);
}

/// References are resolved one after another: one more reference adds the text of its entry
/// behind an empty line, or is missing where there is no entry under it.
pub proof fn references_are_resolved_in_order(
    entries: Seq<ContextEntryView>,
    ids: Seq<u32>,
    id: u32,
)
    ensures
        referred_text(entries, Seq::<u32>::empty()) == Seq::<char>::empty(),
        missing_ids(entries, Seq::<u32>::empty()) == Seq::<u32>::empty(),
        entry_under(entries, id) is None ==> {
            &&& referred_text(entries, ids.push(id)) == referred_text(entries, ids)
            &&& missing_ids(entries, ids.push(id)) == missing_ids(entries, ids).push(id)
        },
        entry_under(entries, id) is Some ==> {
            &&& missing_ids(entries, ids.push(id)) == missing_ids(entries, ids)
            &&& referred_text(entries, ids.push(id)) == (if missing_ids(entries, ids) == ids {
                context_text(entry_under(entries, id)->0)
            } else {
                referred_text(entries, ids) + "\n\n"@ + context_text(entry_under(entries, id)->0)
            })
        },
{
    let found = |n: u32| entry_under(entries, n) is Some;
    let gone = |n: u32| entry_under(entries, n) is None;
    let entry_at = |n: u32| entry_under(entries, n)->0;
    let show = |entry: ContextEntryView| context_text(entry);
    let none = Seq::<u32>::empty();
    lists::filter_none(none, found);
    lists::filter_none(none, gone);
    assert(referred_entries(entries, none).map_values(show) =~= Seq::<Seq<char>>::empty());
    lists::filter_push(ids, id, found);
    lists::filter_push(ids, id, gone);
    let texts = referred_entries(entries, ids).map_values(show);
    references_are_resolved_or_missing(entries, ids);
    if entry_under(entries, id) is Some {
        let text = context_text(entry_under(entries, id)->0);
        assert(referred_entries(entries, ids.push(id)).map_values(show) =~= texts.push(text));
        text::joining_adds_the_separator(texts, text, "\n\n"@);
        if missing_ids(entries, ids) == ids {
            assert(texts.push(text) =~= seq![text]);
        } else if texts.len() == 0 {
            assert forall|i: int| 0 <= i < ids.len() implies gone(#[trigger] ids[i]) by {
                if found(ids[i]) {
                    lemma_found_is_kept(ids, found, i);
                }
            }
            lists::filter_all(ids, gone);
        }
    }
}

proof fn lemma_found_is_kept(ids: Seq<u32>, pred: spec_fn(u32) -> bool, i: int)
    requires
        0 <= i < ids.len(),
        pred(ids[i]),
    ensures
        ids.filter(pred).contains(ids[i]),
    decreases ids.len(),
{
    let front = ids.drop_last();
    assert(front.push(ids.last()) =~= ids);
    lists::filter_push(front, ids.last(), pred);
    let kept = front.filter(pred);
    if i < front.len() {
        lemma_found_is_kept(front, pred, i);
        let at = kept.index_of(ids[i]);
        assert(ids.filter(pred)[at] == ids[i]);
    } else {
        assert(ids.filter(pred)[ids.filter(pred).len() - 1] == ids[i]);
    }
}

/// A reference stands for the full output: the text of the references holds the whole output
/// of every entry that is referred to, with its number.
pub proof fn reference_stands_for_full_output(
    entries: Seq<ContextEntryView>,
    ids: Seq<u32>,
    i: int,
)
    requires
        0 <= i < ids.len(),
        entry_under(entries, ids[i]) is Some,
    ensures
        text::contains_part(
            referred_text(entries, ids),
            entry_under(entries, ids[i])->0.output,
        ),
        text::contains_part(
            referred_text(entries, ids),
            "[Context #"@ + text::decimal(ids[i] as nat) + "] (from "@,
        ),
{
    let found = |n: u32| entry_under(entries, n) is Some;
    let show = |entry: ContextEntryView| context_text(entry);
    let entry = entry_under(entries, ids[i])->0;
    let shown = context_text(entry);
    let referred = referred_entries(entries, ids);
    let texts = referred.map_values(show);
    lemma_found_is_kept(ids, found, i);
    let at = ids.filter(found).index_of(ids[i]);
    assert(texts[at] == shown);
    text::joined_parts_stand_whole(texts, "\n\n"@, at);
    let (before, after) = choose|before: Seq<char>, after: Seq<char>|
        {
            &&& text::joined(texts, "\n\n"@) == #[trigger] (before + texts[at] + after)
            &&& if at == 0 {
                before.len() == 0
            } else {
                "\n\n"@.is_suffix_of(before)
            }
            &&& if at == texts.len() - 1 {
                after.len() == 0
            } else {
                "\n\n"@.is_prefix_of(after)
            }
        };
    text::part_occurs(before, shown, after);
    entry_is_handed_on_whole(entry);
    found_entry_bears_its_number(entries, ids[i]);
    let none = Seq::<char>::empty();
    let rest = shown.take(shown.len() - entry.output.len());
    assert(shown =~= rest + entry.output + none);
    text::part_occurs(rest, entry.output, none);
    text::occurring_is_transitive(referred_text(entries, ids), shown, entry.output);
    let head = "[Context #"@ + text::decimal(ids[i] as nat) + "] (from "@;
    assert(shown =~= none + head + shown.skip(head.len() as int));
    text::part_occurs(none, head, shown.skip(head.len() as int));
    text::occurring_is_transitive(referred_text(entries, ids), shown, head);
}

/// What is listed of an entry is its number, its agent, its time, and its task: whole where it
/// takes at most 120 bytes, else its beginning of that length and an ellipsis.
pub proof fn summary_tells_of_its_entry(entry: ContextEntryView)
    requires
        text::cuts_at(entry.task_summary, 120),
    ensures
        summary_of(entry).0 == entry.id,
        summary_of(entry).1 == entry.agent,
        summary_of(entry).3 == entry.created_at,
        vstd::utf8::encode_utf8(entry.task_summary).len() <= 120 ==> summary_of(entry).2
            == entry.task_summary,
        vstd::utf8::encode_utf8(entry.task_summary).len() > 120 ==> exists|k: int|
            0 <= k <= entry.task_summary.len() && vstd::utf8::encode_utf8(
                #[trigger] entry.task_summary.take(k),
            ).len() == 120 && summary_of(entry).2 == entry.task_summary.take(k) + "..."@,
{
    text::shortened_text_is_a_beginning(entry.task_summary, 120);
}

/// An entry is seen with its whole texts.
pub proof fn entry_is_seen_whole(entry: ContextEntry)
    ensures
        entry.deep_view().id == entry.id,
        entry.deep_view().agent == entry.agent@,
        entry.deep_view().task_summary == entry.task_summary@,
        entry.deep_view().output == entry.output@,
        entry.deep_view().created_at == entry.created_at,
{
}

} // verus!
