//! JSON: reading single fields out of values, and writing objects and lists as text.

use crate::text;
use vstd::prelude::*;

verus! {

/// The hexadecimal digit, in lower case, for a number below sixteen.
pub open spec fn hex_digit(n: nat) -> char {
    if n < 10 {
        (n + 48) as char
    } else {
        (n + 87) as char
    }
}

/// How one character is written inside a JSON string.
pub open spec fn escaped_char(c: char) -> Seq<char> {
    if c == '"' || c == '\\' {
        seq!['\\', c]
    } else if c == '\u{8}' {
        seq!['\\', 'b']
    } else if c == '\t' {
        seq!['\\', 't']
    } else if c == '\n' {
        seq!['\\', 'n']
    } else if c == '\u{c}' {
        seq!['\\', 'f']
    } else if c == '\r' {
        seq!['\\', 'r']
    } else if c as nat <= 31 {
        seq!['\\', 'u', '0', '0', hex_digit(c as nat / 16), hex_digit(c as nat % 16)]
    } else {
        seq![c]
    }
}

/// How a text is written inside a JSON string.
pub open spec fn escaped(chars: Seq<char>) -> Seq<char>
    decreases chars.len(),
{
    if chars.len() == 0 {
        Seq::empty()
    } else {
        escaped(chars.drop_last()) + escaped_char(chars.last())
    }
}

/// A text as a JSON string, with its quotation marks.
pub open spec fn quoted(chars: Seq<char>) -> Seq<char> {
    seq!['"'] + escaped(chars) + seq!['"']
}

/// `serde_json::to_string` on a text: the text as a JSON string. Quotation mark
/// and backslash get a backslash; backspace, tab, line feed, form feed and carriage
/// return have their short forms; the other control characters below the space are
/// written as `\u00xx`; every other character stands as it is.
#[verifier::external_body]
pub(crate) fn json_string(text: &str) -> (result: String)
    ensures
        result@ == quoted(text@),
{
    serde_json::to_string(text).unwrap_or_default()
}

/// `serde_json::Value`: any JSON value.
#[verifier::external_type_specification]
#[verifier::external_body]
pub struct ExValue(serde_json::Value);

/// What a JSON value holds, as compact JSON text. Values with the same text are the same:
/// the members of an object are sorted, and numbers are written so that they differ
/// wherever the numbers do.
pub uninterp spec fn json_text(value: serde_json::Value) -> Seq<char>;

/// `serde_json::to_string` on a `serde_json::Value`: what the value holds, as compact JSON
/// text.
#[verifier::external_body]
pub(crate) fn compact(value: &serde_json::Value) -> (result: String)
    ensures
        result@ == json_text(*value),
{
    serde_json::to_string(value).unwrap_or_default()
}

/// The text of the member that a JSON object with this text has under `field`: what
/// `Value::get` finds. `None` if the text is that of no object, or the object has no such
/// member.
pub uninterp spec fn json_member(text: Seq<char>, field: Seq<char>) -> Option<Seq<char>>;

/// `serde_json::Value::get` with the name of a field. What is found depends on what the value
/// holds and on the field alone.
#[verifier::external_body]
fn get<'a>(value: &'a serde_json::Value, field: &str) -> (found: Option<&'a serde_json::Value>)
    ensures
        json_member(json_text(*value), field@) == (match found {
            Some(member) => Some(json_text(*member)),
            None => None,
        }),
{
    value.get(field)
}

/// `serde_json::Value::as_str`: the text that a JSON string stands for, and `None` for any
/// other value.
#[verifier::external_body]
fn as_str(value: &serde_json::Value) -> (result: Option<String>)
    ensures
        match result {
            Some(text) => json_text(*value) == quoted(text@),
            None => forall|chars: Seq<char>| json_text(*value) != #[trigger] quoted(chars),
        },
{
    value.as_str().map(str::to_string)
}

/// `serde_json::Value::as_u64`: an integer from 0 to 2^64 - 1, and `None` for any other
/// value.
#[verifier::external_body]
fn as_u64(value: &serde_json::Value) -> (result: Option<u64>)
    ensures
        match result {
            Some(n) => json_text(*value) == text::decimal(n as nat),
            None => forall|n: u64| json_text(*value) != #[trigger] text::decimal(n as nat),
        },
{
    value.as_u64()
}

/// The text of the JSON value in `bytes`, if they hold one: what `serde_json::from_slice`
/// reads.
pub uninterp spec fn json_in(bytes: Seq<u8>) -> Option<Seq<char>>;

/// `serde_json::from_slice` into a `serde_json::Value`. What is read depends on the bytes
/// alone.
#[verifier::external_body]
fn from_slice(bytes: &[u8]) -> (result: Option<serde_json::Value>)
    ensures
        json_in(bytes@) == (match result {
            Some(value) => Some(json_text(value)),
            None => None,
        }),
{
    serde_json::from_slice::<serde_json::Value>(bytes).ok()
}

/// The text that a JSON string with this text stands for, if it is one.
pub open spec fn string_in(text: Seq<char>) -> Option<Seq<char>> {
    if exists|chars: Seq<char>| text == #[trigger] quoted(chars) {
        Some(choose|chars: Seq<char>| text == #[trigger] quoted(chars))
    } else {
        None
    }
}

/// The integer from 0 to 2^64 - 1 with this text, if it is one.
pub open spec fn number_in(text: Seq<char>) -> Option<u64> {
    if exists|n: u64| text == #[trigger] text::decimal(n as nat) {
        Some(choose|n: u64| text == #[trigger] text::decimal(n as nat))
    } else {
        None
    }
}

/// The string that a JSON object with this text has under `field`, if it has one there.
pub open spec fn json_str_field(text: Seq<char>, field: Seq<char>) -> Option<Seq<char>> {
    match json_member(text, field) {
        Some(member) => string_in(member),
        None => None,
    }
}

/// The integer from 0 to 2^64 - 1 that a JSON object with this text has under `field`, if it
/// has one there.
pub open spec fn json_u64_field(text: Seq<char>, field: Seq<char>) -> Option<u64> {
    match json_member(text, field) {
        Some(member) => number_in(member),
        None => None,
    }
}

/// The string under `inner` in the object under `outer` of the JSON object in `bytes`, if
/// there is one.
pub open spec fn json_nested_str_field(
    bytes: Seq<u8>,
    outer: Seq<char>,
    inner: Seq<char>,
) -> Option<Seq<char>> {
    match json_in(bytes) {
        Some(text) => match json_member(text, outer) {
            Some(member) => json_str_field(member, inner),
            None => None,
        },
        None => None,
    }
}

/// The string that a JSON object has under `field`, if it has one there.
pub fn str_field(value: &serde_json::Value, field: &str) -> (result: Option<String>)
    ensures
        result.deep_view() == json_str_field(json_text(*value), field@),
{
    match get(value, field) {
        Some(member) => {
            let result = as_str(member);
            proof {
                if result is Some {
                    string_is_read_back(result->0@);
                }
            }
            result
        },
        None => None,
    }
}

/// The integer from 0 to 2^64 - 1 that a JSON object has under `field`, if it has one there.
pub fn u64_field(value: &serde_json::Value, field: &str) -> (result: Option<u64>)
    ensures
        result == json_u64_field(json_text(*value), field@),
{
    match get(value, field) {
        Some(member) => {
            let result: Option<u64> = as_u64(member);
            proof {
                if result is Some {
                    number_is_read_back(result->0);
                }
            }
            result
        },
        None => None,
    }
}

/// The string under `inner` in the object under `outer` of the JSON object in `bytes`, if
/// there is one.
pub fn nested_str_field(bytes: &[u8], outer: &str, inner: &str) -> (result: Option<String>)
    ensures
        result.deep_view() == json_nested_str_field(bytes@, outer@, inner@),
{
    match from_slice(bytes) {
        Some(value) => match get(&value, outer) {
            Some(member) => str_field(member, inner),
            None => None,
        },
        None => None,
    }
}

proof fn lemma_escaped_first(c: char, rest: Seq<char>)
    ensures
        escaped(seq![c] + rest) == escaped_char(c) + escaped(rest),
    decreases rest.len(),
{
    let all = seq![c] + rest;
    if rest.len() == 0 {
        assert(all.drop_last() =~= Seq::<char>::empty());
        assert(escaped(all.drop_last()) =~= Seq::<char>::empty());
        assert(escaped(all) =~= escaped_char(c) + escaped(rest));
    } else {
        assert(all.drop_last() =~= seq![c] + rest.drop_last());
        lemma_escaped_first(c, rest.drop_last());
        assert(escaped(all) =~= escaped_char(c) + escaped(rest));
    }
}

/// A character that is written inside a JSON string can be told by what it is written as,
/// whatever follows.
proof fn lemma_escaped_char(a: char, b: char, after_a: Seq<char>, after_b: Seq<char>)
    requires
        escaped_char(a) + after_a == escaped_char(b) + after_b,
    ensures
        a == b,
{
    let left = escaped_char(a) + after_a;
    let right = escaped_char(b) + after_b;
    assert(left[0] == escaped_char(a)[0]);
    assert(right[0] == escaped_char(b)[0]);
    if escaped_char(a).len() > 1 && escaped_char(b).len() > 1 {
        assert(left[1] == escaped_char(a)[1]);
        assert(right[1] == escaped_char(b)[1]);
        if escaped_char(a).len() > 2 && escaped_char(b).len() > 2 {
            assert(left[4] == escaped_char(a)[4]);
            assert(right[4] == escaped_char(b)[4]);
            assert(left[5] == escaped_char(a)[5]);
            assert(right[5] == escaped_char(b)[5]);
        }
    }
}

proof fn lemma_escaped_is_injective(a: Seq<char>, b: Seq<char>)
    requires
        escaped(a) == escaped(b),
    ensures
        a == b,
    decreases a.len(),
{
    if a.len() == 0 {
        if b.len() > 0 {
            assert(b =~= seq![b[0]] + b.skip(1));
            lemma_escaped_first(b[0], b.skip(1));
        }
        assert(a =~= b);
    } else {
        assert(a =~= seq![a[0]] + a.skip(1));
        lemma_escaped_first(a[0], a.skip(1));
        if b.len() > 0 {
            assert(b =~= seq![b[0]] + b.skip(1));
            lemma_escaped_first(b[0], b.skip(1));
            lemma_escaped_char(a[0], b[0], escaped(a.skip(1)), escaped(b.skip(1)));
            let n = escaped_char(a[0]).len() as int;
            assert(escaped(a.skip(1)) =~= escaped(a).skip(n));
            assert(escaped(b.skip(1)) =~= escaped(b).skip(n));
            lemma_escaped_is_injective(a.skip(1), b.skip(1));
        }
    }
}

/// Different texts are different JSON strings.
pub proof fn quoting_is_injective(a: Seq<char>, b: Seq<char>)
    requires
        quoted(a) == quoted(b),
    ensures
        a == b,
{
    assert(escaped(a) =~= quoted(a).subrange(1, quoted(a).len() - 1));
    assert(escaped(b) =~= quoted(b).subrange(1, quoted(b).len() - 1));
    lemma_escaped_is_injective(a, b);
}

/// A text that is written as a JSON string is read back.
pub proof fn string_is_read_back(chars: Seq<char>)
    ensures
        string_in(quoted(chars)) == Some(chars),
{
    let found = choose|found: Seq<char>| quoted(chars) == #[trigger] quoted(found);
    quoting_is_injective(chars, found);
}

/// A number that is written in decimal notation is read back.
pub proof fn number_is_read_back(n: u64)
    ensures
        number_in(text::decimal(n as nat)) == Some(n),
{
    let found = choose|found: u64| text::decimal(n as nat) == #[trigger] text::decimal(found as nat);
    text::decimal_is_injective(n as nat, found as nat);
}

/// The JSON value with this text, laid out over several lines: what
/// `serde_json::to_string_pretty` makes of it.
pub uninterp spec fn json_pretty(text: Seq<char>) -> Seq<char>;

/// `serde_json::to_string_pretty` on a `serde_json::Value`. The result depends on what the
/// value holds alone.
#[verifier::external_body]
pub(crate) fn pretty(value: &serde_json::Value) -> (result: String)
    ensures
        result@ == json_pretty(json_text(*value)),
{
    serde_json::to_string_pretty(value).unwrap_or_default()
}

/// One member of a JSON object: its name, and its value as JSON text.
pub struct Member {
    pub name: String,
    pub value: String,
}

/// A `Member`, with its texts as sequences of characters.
pub struct MemberView {
    pub name: Seq<char>,
    pub value: Seq<char>,
}

impl DeepView for Member {
    type V = MemberView;

    open spec fn deep_view(&self) -> MemberView {
        MemberView { name: self.name@, value: self.value@ }
    }
}

/// The text of one member: its name as a JSON string, a colon, its value.
pub open spec fn member_text(member: MemberView) -> Seq<char> {
    quoted(member.name) + seq![':'] + member.value
}

/// A JSON object with these members, in this order and without white space.
pub open spec fn object_text(members: Seq<MemberView>) -> Seq<char> {
    seq!['{'] + text::joined(members.map_values(|m: MemberView| member_text(m)), seq![',']) + seq!['}']
}

/// A JSON list of these values, each given as JSON text, without white space.
pub open spec fn list_text(items: Seq<Seq<char>>) -> Seq<char> {
    seq!['['] + text::joined(items, seq![',']) + seq![']']
}

/// The text of a JSON truth value.
pub open spec fn bool_text(b: bool) -> Seq<char> {
    if b {
        "true"@
    } else {
        "false"@
    }
}

/// A member whose value is a JSON string.
pub open spec fn text_field(name: Seq<char>, value: Seq<char>) -> MemberView {
    MemberView { name, value: quoted(value) }
}

/// A member whose value is a JSON number.
pub open spec fn number_field(name: Seq<char>, n: nat) -> MemberView {
    MemberView { name, value: text::decimal(n) }
}

/// The member `name` whose value is the JSON text `value`.
pub fn member(name: &str, value: String) -> (result: Member)
    ensures
        result.deep_view() == (MemberView { name: name@, value: value@ }),
{
    Member { name: String::from_str(name), value }
}

/// The member `name` whose value is the string `text`.
pub fn text_member(name: &str, text: &str) -> (result: Member)
    ensures
        result.deep_view() == text_field(name@, text@),
{
    member(name, json_string(text))
}

/// The member `name` whose value is the number `n`.
pub fn number_member(name: &str, n: u64) -> (result: Member)
    ensures
        result.deep_view() == number_field(name@, n as nat),
{
    member(name, text::decimal_text(n))
}

/// Writes a JSON object with these members, in this order.
pub fn write_object(members: &Vec<Member>) -> (result: String)
    ensures
        result@ == object_text(members.deep_view()),
{
    let mut parts: Vec<String> = Vec::new();
    let mut i: usize = 0;
    while i < members.len()
        invariant
            i <= members.len(),
            parts.deep_view() =~= members.deep_view().take(i as int).map_values(
                |m: MemberView| member_text(m),
            ),
        decreases members.len() - i,
    {
        let mut part = json_string(members[i].name.as_str());
        part.push(':');
        part.append(members[i].value.as_str());
        let ghost before = parts.deep_view();
        assert(part@ =~= member_text(members.deep_view()[i as int]));
        parts.push(part);
        assert(parts.deep_view() =~= before.push(part@));
        assert(members.deep_view().take(i + 1) =~= members.deep_view().take(i as int).push(
            members.deep_view()[i as int],
        ));
        i += 1;
    }
    assert(members.deep_view().take(i as int) =~= members.deep_view());
    proof {
        reveal_strlit(",");
        assert(","@ =~= seq![',']);
    }
    let inner = text::join(&parts, ",");
    let mut result = String::new();
    result.push('{');
    result.append(inner.as_str());
    result.push('}');
    assert(result@ =~= object_text(members.deep_view()));
    result
}

/// Writes a JSON list of these values, each given as JSON text.
pub fn write_list(items: &Vec<String>) -> (result: String)
    ensures
        result@ == list_text(items.deep_view()),
{
    proof {
        reveal_strlit(",");
        assert(","@ =~= seq![',']);
    }
    let inner = text::join(items, ",");
    let mut result = String::new();
    result.push('[');
    result.append(inner.as_str());
    result.push(']');
    assert(result@ =~= list_text(items.deep_view()));
    result
}

/// Whether a JSON object with this text has, between a brace or a comma and the next, the
/// member `name` with this value.
pub open spec fn has_member(object: Seq<char>, name: Seq<char>, value: Seq<char>) -> bool {
    exists|before: char, after: char|
        {
            &&& before == '{' || before == ','
            &&& after == '}' || after == ','
            &&& #[trigger] text::contains_part(
                object,
                seq![before] + quoted(name) + seq![':'] + value + seq![after],
            )
        }
}

/// Whether a JSON list with this text has, between a bracket or a comma and the next, this
/// item.
pub open spec fn has_item(list: Seq<char>, item: Seq<char>) -> bool {
    exists|before: char, after: char|
        {
            &&& before == '[' || before == ','
            &&& after == ']' || after == ','
            &&& #[trigger] text::contains_part(list, seq![before] + item + seq![after])
        }
}

/// The text of parts between commas, with something before and behind them, holds every part
/// with what stands directly before and behind it.
proof fn lemma_between_commas(open: char, parts: Seq<Seq<char>>, close: char, i: int) -> (ends: (
    char,
    char,
))
    requires
        0 <= i < parts.len(),
    ensures
        ends.0 == open || ends.0 == ',',
        ends.1 == close || ends.1 == ',',
        text::contains_part(
            seq![open] + text::joined(parts, seq![',']) + seq![close],
            seq![ends.0] + parts[i] + seq![ends.1],
        ),
{
    let comma = seq![','];
    let inner = text::joined(parts, comma);
    text::joined_parts_stand_whole(parts, comma, i);
    let (before, after) = choose|before: Seq<char>, after: Seq<char>|
        {
            &&& inner == #[trigger] (before + parts[i] + after)
            &&& if i == 0 {
                before.len() == 0
            } else {
                comma.is_suffix_of(before)
            }
            &&& if i == parts.len() - 1 {
                after.len() == 0
            } else {
                comma.is_prefix_of(after)
            }
        };
    if i != 0 {
        assert(before.last() == comma[0]);
    }
    if i != parts.len() - 1 {
        assert(after[0] == comma[0]);
    }
    lemma_with_its_ends(open, before, parts[i], after, close);
    (
        if before.len() == 0 {
            open
        } else {
            before.last()
        },
        if after.len() == 0 {
            close
        } else {
            after[0]
        },
    )
}

/// A part occurs together with what stands directly before and behind it.
proof fn lemma_with_its_ends(
    open: char,
    before: Seq<char>,
    part: Seq<char>,
    after: Seq<char>,
    close: char,
)
    ensures
        text::contains_part(
            seq![open] + (before + part + after) + seq![close],
            seq![
                if before.len() == 0 {
                    open
                } else {
                    before.last()
                },
            ] + part + seq![
                if after.len() == 0 {
                    close
                } else {
                    after[0]
                },
            ],
        ),
{
    let left = seq![open] + before;
    let right = after + seq![close];
    let inner = seq![left.last()] + part + seq![right[0]];
    let whole = seq![open] + (before + part + after) + seq![close];
    let at = before.len() as int;
    assert(whole.len() == before.len() + part.len() + after.len() + 2);
    assert(whole.subrange(at, at + inner.len()) =~= inner);
    assert(text::stands_at(whole, inner, at));
}

/// An object has every member that it was made of.
pub proof fn object_has_its_members(members: Seq<MemberView>, i: int)
    requires
        0 <= i < members.len(),
    ensures
        has_member(object_text(members), members[i].name, members[i].value),
{
    let parts = members.map_values(|m: MemberView| member_text(m));
    let ends = lemma_between_commas('{', parts, '}', i);
    let whole = seq![ends.0] + quoted(members[i].name) + seq![':'] + members[i].value + seq![ends.1];
    assert(whole =~= seq![ends.0] + parts[i] + seq![ends.1]);
    assert(text::contains_part(object_text(members), whole));
}

/// A list has every item that it was made of.
pub proof fn list_has_its_items(items: Seq<Seq<char>>, i: int)
    requires
        0 <= i < items.len(),
    ensures
        has_item(list_text(items), items[i]),
{
    let ends = lemma_between_commas('[', items, ']', i);
    assert(text::contains_part(list_text(items), seq![ends.0] + items[i] + seq![ends.1]));
}

/// Adding a member or an item adds its text alone.
pub proof fn adding_adds_one(
    members: Seq<MemberView>,
    member: MemberView,
    items: Seq<Seq<char>>,
    item: Seq<char>,
)
    ensures
        object_text(Seq::<MemberView>::empty()) == seq!['{', '}'],
        list_text(Seq::<Seq<char>>::empty()) == seq!['[', ']'],
        object_text(members.push(member)) == object_text(members).drop_last() + (if members.len()
            == 0 {
            Seq::<char>::empty()
        } else {
            seq![',']
        }) + quoted(member.name) + seq![':'] + member.value + seq!['}'],
        list_text(items.push(item)) == list_text(items).drop_last() + (if items.len() == 0 {
            Seq::<char>::empty()
        } else {
            seq![',']
        }) + item + seq![']'],
{
    let f = |m: MemberView| member_text(m);
    let parts = members.map_values(f);
    text::joining_adds_the_separator(parts, member_text(member), seq![',']);
    text::joining_adds_the_separator(items, item, seq![',']);
    assert(members.push(member).map_values(f) =~= parts.push(member_text(member)));
    assert(Seq::<MemberView>::empty().map_values(f) =~= Seq::<Seq<char>>::empty());
    assert(object_text(Seq::<MemberView>::empty()) =~= seq!['{', '}']);
    assert(list_text(Seq::<Seq<char>>::empty()) =~= seq!['[', ']']);
    if members.len() == 0 {
        assert(parts.push(member_text(member)) =~= seq![member_text(member)]);
        assert(parts =~= Seq::<Seq<char>>::empty());
    }
    if items.len() == 0 {
        assert(items.push(item) =~= seq![item]);
        assert(items =~= Seq::<Seq<char>>::empty());
    }
    assert(object_text(members.push(member)) =~= object_text(members).drop_last() + (if members.len()
        == 0 {
        Seq::<char>::empty()
    } else {
        seq![',']
    }) + quoted(member.name) + seq![':'] + member.value + seq!['}']);
    assert(list_text(items.push(item)) =~= list_text(items).drop_last() + (if items.len() == 0 {
        Seq::<char>::empty()
    } else {
        seq![',']
    }) + item + seq![']']);
}

/// A member with a text has it as a JSON string, and one with a number has it in decimal
/// notation, each under its own name.
pub proof fn members_hold_their_values(name: Seq<char>, value: Seq<char>, n: nat)
    ensures
        text_field(name, value).name == name,
        text_field(name, value).value == quoted(value),
        string_in(text_field(name, value).value) == Some(value),
        number_field(name, n).name == name,
        text::number_of(number_field(name, n).value) == n,
        bool_text(true) == "true"@,
        bool_text(false) == "false"@,
{
    string_is_read_back(value);
    text::decimal_stands_for_the_number(n);
}

/// Characters other than quotation marks, backslashes and control characters stand in a JSON
/// string as they are.
pub proof fn plain_text_is_quoted_as_it_is(chars: Seq<char>)
    requires
        forall|i: int|
            0 <= i < chars.len() ==> (#[trigger] chars[i]) as nat > 31 && chars[i] != '"'
                && chars[i] != '\\',
    ensures
        quoted(chars) == seq!['"'] + chars + seq!['"'],
    decreases chars.len(),
{
    if chars.len() > 0 {
        let front = chars.drop_last();
        plain_text_is_quoted_as_it_is(front);
        assert(escaped(front) =~= quoted(front).subrange(1, quoted(front).len() - 1));
        assert(escaped(front) =~= front);
        assert(escaped_char(chars.last()) =~= seq![chars.last()]);
        assert(escaped(chars) =~= chars);
    } else {
        assert(escaped(chars) =~= chars);
    }
}

/// A field is read as what its member stands for: the text of a JSON string, the number of a
/// JSON number, and nothing where there is no such member or it is something else.
pub proof fn fields_are_read(text: Seq<char>, field: Seq<char>, chars: Seq<char>, n: u64)
    ensures
        json_member(text, field) == Some(quoted(chars)) ==> json_str_field(text, field) == Some(
            chars,
        ),
        json_member(text, field) == Some(text::decimal(n as nat)) ==> json_u64_field(text, field)
            == Some(n),
        json_member(text, field) is None ==> json_str_field(text, field) is None && json_u64_field(
            text,
            field,
        ) is None,
        json_str_field(text, field) == Some(chars) ==> json_member(text, field) == Some(
            quoted(chars),
        ),
        json_u64_field(text, field) == Some(n) ==> json_member(text, field) == Some(
            text::decimal(n as nat),
        ),
{
    string_is_read_back(chars);
    number_is_read_back(n);
}

/// A field of a field is read in the object that stands under the first name, by the second.
pub proof fn nested_fields_are_read(
    bytes: Seq<u8>,
    text: Seq<char>,
    outer: Seq<char>,
    member: Seq<char>,
    inner: Seq<char>,
    chars: Seq<char>,
)
    ensures
        json_in(bytes) == Some(text) && json_member(text, outer) == Some(member) && json_member(
            member,
            inner,
        ) == Some(quoted(chars)) ==> json_nested_str_field(bytes, outer, inner) == Some(chars),
        json_in(bytes) is None ==> json_nested_str_field(bytes, outer, inner) is None,
        json_in(bytes) == Some(text) && json_member(text, outer) is None ==> json_nested_str_field(
            bytes,
            outer,
            inner,
        ) is None,
        json_in(bytes) == Some(text) && json_member(text, outer) == Some(member) && json_member(
            member,
            inner,
        ) is None ==> json_nested_str_field(bytes, outer, inner) is None,
{
    string_is_read_back(chars);
}

/// An object of three members is these, between commas.
pub proof fn object_of_three(a: MemberView, b: MemberView, c: MemberView)
    ensures
        object_text(seq![a, b, c]) == seq!['{'] + member_text(a) + seq![','] + member_text(b)
            + seq![','] + member_text(c) + seq!['}'],
{
    let f = |m: MemberView| member_text(m);
    let one = seq![member_text(a)];
    let two = one.push(member_text(b));
    let three = two.push(member_text(c));
    assert(seq![a, b, c].map_values(f) =~= three);
    assert(three.drop_last() =~= two);
    assert(two.drop_last() =~= one);
    reveal_with_fuel(text::joined, 4);
}

/// An object of four members is these, between commas.
pub proof fn object_of_four(a: MemberView, b: MemberView, c: MemberView, d: MemberView)
    ensures
        object_text(seq![a, b, c, d]) == seq!['{'] + member_text(a) + seq![','] + member_text(b)
            + seq![','] + member_text(c) + seq![','] + member_text(d) + seq!['}'],
{
    let first = seq![a, b, c];
    object_of_three(a, b, c);
    adding_adds_one(first, d, Seq::empty(), Seq::empty());
    assert(seq![a, b, c, d] =~= first.push(d));
    assert(object_text(first).drop_last() =~= seq!['{'] + member_text(a) + seq![','] + member_text(
        b,
    ) + seq![','] + member_text(c));
    assert(object_text(seq![a, b, c, d]) =~= seq!['{'] + member_text(a) + seq![','] + member_text(b)
        + seq![','] + member_text(c) + seq![','] + member_text(d) + seq!['}']);
}

/// An object of five members is these, between commas.
pub proof fn object_of_five(
    a: MemberView,
    b: MemberView,
    c: MemberView,
    d: MemberView,
    e: MemberView,
)
    ensures
        object_text(seq![a, b, c, d, e]) == seq!['{'] + member_text(a) + seq![','] + member_text(b)
            + seq![','] + member_text(c) + seq![','] + member_text(d) + seq![','] + member_text(e)
            + seq!['}'],
{
    let first = seq![a, b, c, d];
    object_of_four(a, b, c, d);
    adding_adds_one(first, e, Seq::empty(), Seq::empty());
    assert(seq![a, b, c, d, e] =~= first.push(e));
    assert(object_text(first).drop_last() =~= seq!['{'] + member_text(a) + seq![','] + member_text(
        b,
    ) + seq![','] + member_text(c) + seq![','] + member_text(d));
    assert(object_text(seq![a, b, c, d, e]) =~= seq!['{'] + member_text(a) + seq![',']
        + member_text(b) + seq![','] + member_text(c) + seq![','] + member_text(d) + seq![',']
        + member_text(e) + seq!['}']);
}

/// A member is its name as a JSON string, a colon and its value.
pub proof fn member_is_name_and_value(name: Seq<char>, value: Seq<char>)
    ensures
        member_text(MemberView { name, value }) == quoted(name) + seq![':'] + value,
{
}

} // verus!
