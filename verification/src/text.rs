//! Text as a sequence of characters.
//!
//! A `str` or a `String` is viewed as the sequence of its characters. The
//! specification functions of this module say what an operation on text
//! yields; the executable function beside each of them computes it.

use vstd::prelude::*;
use vstd::utf8::*;

verus! {

/// `String::push` appends one character to the end of the text.
pub assume_specification[ std::string::String::push ](s: &mut std::string::String, c: char)
    ensures
        final(s)@ == old(s)@.push(c),
;

/// The characters of `text`, in order.
pub fn chars_of(text: &str) -> (chars: Vec<char>)
    ensures
        chars@ == text@,
{
    let mut chars: Vec<char> = Vec::new();
    for c in it: text.chars()
        invariant
            chars@ == it.seq().take(it.index() as int),
            it.seq() == text@,
    {
        chars.push(c);
    }
    chars
}

/// The text made of `chars[from..to]`.
pub fn string_of(chars: &Vec<char>, from: usize, to: usize) -> (text: String)
    requires
        from <= to <= chars.len(),
    ensures
        text@ == chars@.subrange(from as int, to as int),
{
    let mut text = String::new();
    let mut i: usize = from;
    while i < to
        invariant
            from <= i <= to <= chars.len(),
            text@ == chars@.subrange(from as int, i as int),
        decreases to - i,
    {
        text.push(chars[i]);
        i += 1;
    }
    text
}

/// Whether `part` stands in `chars` from position `at` on.
pub open spec fn stands_at(chars: Seq<char>, part: Seq<char>, at: int) -> bool {
    &&& 0 <= at
    &&& at + part.len() <= chars.len()
    &&& chars.subrange(at, at + part.len()) == part
}

/// Whether `part` occurs somewhere in `chars`.
pub open spec fn contains_part(chars: Seq<char>, part: Seq<char>) -> bool {
    exists|at: int| stands_at(chars, part, at)
}

fn part_at(chars: &Vec<char>, part: &Vec<char>, at: usize) -> (found: bool)
    requires
        at + part.len() <= chars.len(),
    ensures
        found == stands_at(chars@, part@, at as int),
{
    let mut i: usize = 0;
    while i < part.len()
        invariant
            0 <= i <= part.len(),
            at + part.len() <= chars.len(),
            forall|j: int| 0 <= j < i ==> chars@[at + j] == part@[j],
        decreases part.len() - i,
    {
        if chars[at + i] != part[i] {
            assert(chars@.subrange(at as int, at + part@.len())[i as int] != part@[i as int]);
            return false;
        }
        i += 1;
    }
    assert(chars@.subrange(at as int, at + part@.len()) =~= part@);
    true
}

/// Whether two texts hold the same characters.
pub fn same_text(left: &str, right: &str) -> (same: bool)
    ensures
        same == (left@ == right@),
{
    let a = chars_of(left);
    let b = chars_of(right);
    if a.len() != b.len() {
        return false;
    }
    let same = part_at(&a, &b, 0);
    assert(a@.subrange(0, b@.len() as int) =~= a@);
    same
}

/// Whether `text` begins with `prefix`.
pub fn starts_with(text: &str, prefix: &str) -> (found: bool)
    ensures
        found == prefix@.is_prefix_of(text@),
{
    let chars = chars_of(text);
    let part = chars_of(prefix);
    part.len() <= chars.len() && part_at(&chars, &part, 0)
}

/// Whether `text` ends with `suffix`.
pub fn ends_with(text: &str, suffix: &str) -> (found: bool)
    ensures
        found == suffix@.is_suffix_of(text@),
{
    let chars = chars_of(text);
    let part = chars_of(suffix);
    part.len() <= chars.len() && part_at(&chars, &part, chars.len() - part.len())
}

/// Whether `part` occurs somewhere in `text`.
pub fn contains_text(text: &str, part: &str) -> (found: bool)
    ensures
        found == contains_part(text@, part@),
{
    let chars = chars_of(text);
    let wanted = chars_of(part);
    if wanted.len() > chars.len() {
        return false;
    }
    let mut at: usize = 0;
    loop
        invariant
            chars@ == text@,
            wanted@ == part@,
            wanted.len() <= chars.len(),
            at <= chars.len() - wanted.len(),
            forall|k: int| 0 <= k < at ==> !stands_at(chars@, wanted@, k),
        decreases chars.len() - at,
    {
        if part_at(&chars, &wanted, at) {
            return true;
        }
        if at == chars.len() - wanted.len() {
            return false;
        }
        at += 1;
    }
}

/// The text that is left of `text` after `prefix`, if it begins with it.
pub fn strip_prefix(text: &str, prefix: &str) -> (rest: Option<String>)
    ensures
        rest is Some == prefix@.is_prefix_of(text@),
        rest is Some ==> rest->0@ == text@.skip(prefix@.len() as int),
{
    let chars = chars_of(text);
    let part = chars_of(prefix);
    if part.len() <= chars.len() && part_at(&chars, &part, 0) {
        Some(string_of(&chars, part.len(), chars.len()))
    } else {
        None
    }
}

/// Whether `c` has the Unicode property `White_Space`.
pub open spec fn is_white_space(c: char) -> bool {
    ||| '\u{9}' <= c <= '\u{d}'
    ||| c == ' '
    ||| c == '\u{85}'
    ||| c == '\u{a0}'
    ||| c == '\u{1680}'
    ||| '\u{2000}' <= c <= '\u{200a}'
    ||| c == '\u{2028}'
    ||| c == '\u{2029}'
    ||| c == '\u{202f}'
    ||| c == '\u{205f}'
    ||| c == '\u{3000}'
}

/// Whether `c` is white space.
pub fn white_space(c: char) -> (yes: bool)
    ensures
        yes == is_white_space(c),
{
    ('\u{9}' <= c && c <= '\u{d}') || c == ' ' || c == '\u{85}' || c == '\u{a0}' || c == '\u{1680}'
        || ('\u{2000}' <= c && c <= '\u{200a}') || c == '\u{2028}' || c == '\u{2029}' || c
        == '\u{202f}' || c == '\u{205f}' || c == '\u{3000}'
}

/// `chars` without its leading white space.
pub open spec fn trimmed_start(chars: Seq<char>) -> Seq<char>
    decreases chars.len(),
{
    if chars.len() > 0 && is_white_space(chars[0]) {
        trimmed_start(chars.skip(1))
    } else {
        chars
    }
}

/// `chars` without its trailing white space.
pub open spec fn trimmed_end(chars: Seq<char>) -> Seq<char>
    decreases chars.len(),
{
    if chars.len() > 0 && is_white_space(chars.last()) {
        trimmed_end(chars.drop_last())
    } else {
        chars
    }
}

/// `chars` without leading and trailing white space.
pub open spec fn trimmed(chars: Seq<char>) -> Seq<char> {
    trimmed_end(trimmed_start(chars))
}

/// `text` without leading and trailing white space.
pub fn trim(text: &str) -> (result: String)
    ensures
        result@ == trimmed(text@),
{
    let chars = chars_of(text);
    let mut from: usize = 0;
    assert(chars@.skip(0) =~= chars@);
    while from < chars.len() && white_space(chars[from])
        invariant
            from <= chars.len(),
            trimmed_start(chars@.skip(from as int)) == trimmed_start(chars@),
        decreases chars.len() - from,
    {
        assert(chars@.skip(from as int).skip(1) =~= chars@.skip(from + 1));
        from += 1;
    }
    assert(trimmed_start(chars@) == chars@.skip(from as int));
    let mut to: usize = chars.len();
    assert(chars@.subrange(from as int, to as int) =~= chars@.skip(from as int));
    while to > from && white_space(chars[to - 1])
        invariant
            from <= to <= chars.len(),
            trimmed_end(chars@.subrange(from as int, to as int)) == trimmed_end(
                chars@.skip(from as int),
            ),
        decreases to,
    {
        assert(chars@.subrange(from as int, to as int).drop_last() =~= chars@.subrange(
            from as int,
            to - 1,
        ));
        to -= 1;
    }
    string_of(&chars, from, to)
}

/// Whether `text` holds nothing but white space.
pub fn is_blank(text: &str) -> (blank: bool)
    ensures
        blank == (trimmed(text@).len() == 0),
{
    trim(text).as_str().is_empty()
}

/// `chars` without the copies of `c` at its end.
pub open spec fn trimmed_end_of(chars: Seq<char>, c: char) -> Seq<char>
    decreases chars.len(),
{
    if chars.len() > 0 && chars.last() == c {
        trimmed_end_of(chars.drop_last(), c)
    } else {
        chars
    }
}

/// `text` without the copies of `c` at its end.
pub fn trim_end_of(text: &str, c: char) -> (result: String)
    ensures
        result@ == trimmed_end_of(text@, c),
{
    let chars = chars_of(text);
    let mut to: usize = chars.len();
    assert(chars@.subrange(0, to as int) =~= chars@);
    while to > 0 && chars[to - 1] == c
        invariant
            to <= chars.len(),
            trimmed_end_of(chars@.subrange(0, to as int), c) == trimmed_end_of(chars@, c),
        decreases to,
    {
        assert(chars@.subrange(0, to as int).drop_last() =~= chars@.subrange(0, to - 1));
        to -= 1;
    }
    string_of(&chars, 0, to)
}

/// `c` in lower case if it is an ASCII letter, else `c` itself.
pub open spec fn ascii_lower(c: char) -> char {
    if 'A' <= c <= 'Z' {
        (c as u8 + 32) as char
    } else {
        c
    }
}

/// `text` with its ASCII letters in lower case.
pub fn ascii_lowercase(text: &str) -> (result: String)
    ensures
        result@ == text@.map_values(|c: char| ascii_lower(c)),
{
    let chars = chars_of(text);
    let mut result = String::new();
    let mut i: usize = 0;
    while i < chars.len()
        invariant
            i <= chars.len(),
            result@ == chars@.take(i as int).map_values(|c: char| ascii_lower(c)),
        decreases chars.len() - i,
    {
        let c = chars[i];
        if 'A' <= c && c <= 'Z' {
            result.push((c as u8 + 32) as char);
        } else {
            result.push(c);
        }
        assert(chars@.take(i + 1) =~= chars@.take(i as int).push(c));
        i += 1;
    }
    assert(chars@.take(i as int) =~= chars@);
    result
}

/// `chars` with every `from` replaced by `to`.
pub open spec fn replaced(chars: Seq<char>, from: char, to: char) -> Seq<char> {
    chars.map_values(|c: char| if c == from { to } else { c })
}

/// `text` with every `from` replaced by `to`.
pub fn replace_char(text: &str, from: char, to: char) -> (result: String)
    ensures
        result@ == replaced(text@, from, to),
{
    let chars = chars_of(text);
    let mut result = String::new();
    let mut i: usize = 0;
    while i < chars.len()
        invariant
            i <= chars.len(),
            result@ == replaced(chars@.take(i as int), from, to),
        decreases chars.len() - i,
    {
        let c = chars[i];
        if c == from {
            result.push(to);
        } else {
            result.push(c);
        }
        assert(chars@.take(i + 1) =~= chars@.take(i as int).push(c));
        i += 1;
    }
    assert(chars@.take(i as int) =~= chars@);
    result
}

/// The position of the first `c` in `chars`, or the length of `chars`.
pub open spec fn first_position(chars: Seq<char>, c: char) -> int
    decreases chars.len(),
{
    if chars.len() == 0 || chars[0] == c {
        0
    } else {
        1 + first_position(chars.skip(1), c)
    }
}

/// `line` without the carriage return at its end, if it has one.
pub open spec fn without_return(line: Seq<char>) -> Seq<char> {
    if line.len() > 0 && line.last() == '\r' {
        line.drop_last()
    } else {
        line
    }
}

/// The lines of `chars`: each ends at a line feed or at the end of `chars`. A
/// line feed is not part of its line, and neither is a carriage return before it.
pub open spec fn line_seq(chars: Seq<char>) -> Seq<Seq<char>>
    decreases chars.len(),
{
    if chars.len() == 0 {
        Seq::empty()
    } else {
        let end = first_position(chars, '\n');
        if 0 <= end < chars.len() {
            seq![without_return(chars.take(end))] + line_seq(chars.skip(end + 1))
        } else {
            seq![chars]
        }
    }
}

proof fn lemma_first_position(chars: Seq<char>, c: char)
    ensures
        0 <= first_position(chars, c) <= chars.len(),
        forall|i: int| 0 <= i < first_position(chars, c) ==> chars[i] != c,
        first_position(chars, c) < chars.len() ==> chars[first_position(chars, c)] == c,
    decreases chars.len(),
{
    if chars.len() > 0 && chars[0] != c {
        let rest = chars.skip(1);
        lemma_first_position(rest, c);
        assert forall|i: int| 0 <= i < first_position(chars, c) implies chars[i] != c by {
            if i > 0 {
                assert(rest[i - 1] == chars[i]);
            }
        }
    }
}

proof fn lemma_first_position_unique(chars: Seq<char>, c: char, at: int)
    requires
        0 <= at <= chars.len(),
        forall|i: int| 0 <= i < at ==> chars[i] != c,
        at < chars.len() ==> chars[at] == c,
    ensures
        first_position(chars, c) == at,
{
    lemma_first_position(chars, c);
    let found = first_position(chars, c);
    if found < at {
        assert(chars[found] != c);
    } else if at < found {
        assert(chars[at] != c);
    }
}

/// The lines of `text`.
pub fn lines(text: &str) -> (result: Vec<String>)
    ensures
        result.deep_view() == line_seq(text@),
{
    let chars = chars_of(text);
    let mut result: Vec<String> = Vec::new();
    let mut start: usize = 0;
    assert(chars@.skip(0) =~= chars@);
    assert(result.deep_view() + line_seq(chars@) =~= line_seq(chars@));
    while start < chars.len()
        invariant
            start <= chars.len(),
            result.deep_view() + line_seq(chars@.skip(start as int)) == line_seq(chars@),
        decreases chars.len() - start,
    {
        let mut end: usize = start;
        while end < chars.len() && chars[end] != '\n'
            invariant
                start <= end <= chars.len(),
                forall|i: int| start <= i < end ==> chars@[i] != '\n',
            decreases chars.len() - end,
        {
            end += 1;
        }
        let ghost rest = chars@.skip(start as int);
        proof {
            lemma_first_position_unique(rest, '\n', end - start);
        }
        let ghost before = result.deep_view();
        if end < chars.len() {
            let mut stop: usize = end;
            if end > start && chars[end - 1] == '\r' {
                stop = end - 1;
            }
            let line = string_of(&chars, start, stop);
            assert(line@ =~= without_return(rest.take(end - start)));
            result.push(line);
            assert(rest.skip(end - start + 1) =~= chars@.skip(end + 1));
            assert(result.deep_view() =~= before.push(line@));
            assert(result.deep_view() + line_seq(chars@.skip(end + 1)) =~= before + (seq![line@]
                + line_seq(chars@.skip(end + 1))));
            start = end + 1;
        } else {
            let line = string_of(&chars, start, end);
            assert(line@ =~= rest);
            result.push(line);
            assert(result.deep_view() =~= before.push(line@));
            start = end;
            assert(chars@.skip(start as int) =~= Seq::<char>::empty());
            assert(result.deep_view() + line_seq(chars@.skip(start as int)) =~= before + seq![
                line@,
            ]);
        }
    }
    assert(chars@.skip(start as int) =~= Seq::<char>::empty());
    assert(result.deep_view() + Seq::<Seq<char>>::empty() =~= result.deep_view());
    result
}

/// `parts` one after another, with `separator` between each and the next.
pub open spec fn joined(parts: Seq<Seq<char>>, separator: Seq<char>) -> Seq<char>
    decreases parts.len(),
{
    if parts.len() == 0 {
        Seq::empty()
    } else if parts.len() == 1 {
        parts[0]
    } else {
        joined(parts.drop_last(), separator) + separator + parts.last()
    }
}

/// `parts` one after another, with `separator` between each and the next.
pub fn join(parts: &Vec<String>, separator: &str) -> (result: String)
    ensures
        result@ == joined(parts.deep_view(), separator@),
{
    let mut result = String::new();
    let ghost all = parts.deep_view();
    let mut i: usize = 0;
    while i < parts.len()
        invariant
            i <= parts.len(),
            all == parts.deep_view(),
            result@ == joined(all.take(i as int), separator@),
        decreases parts.len() - i,
    {
        if i > 0 {
            result.append(separator);
        }
        result.append(parts[i].as_str());
        assert(all.take(i + 1).drop_last() =~= all.take(i as int));
        assert(all.take(i + 1).last() == parts@[i as int]@);
        assert(i == 0 ==> result@ =~= parts@[0]@);
        i += 1;
    }
    assert(all.take(i as int) =~= all);
    result
}

/// The lines of a text, put after text that ends with a line, follow that text's lines.
pub proof fn lines_follow_lines(head: Seq<char>, tail: Seq<char>)
    requires
        head.len() == 0 || head.last() == '\n',
    ensures
        line_seq(head + tail) == line_seq(head) + line_seq(tail),
    decreases head.len(),
{
    if head.len() == 0 {
        assert(head + tail =~= tail);
        assert(line_seq(head) + line_seq(tail) =~= line_seq(tail));
    } else {
        let end = first_position(head, '\n');
        lemma_first_position(head, '\n');
        if end == head.len() {
            assert(head[head.len() - 1] != '\n');
        }
        let all = head + tail;
        assert forall|i: int| 0 <= i < end implies all[i] != '\n' by {
            assert(head[i] != '\n');
        }
        lemma_first_position_unique(all, '\n', end);
        assert(all.take(end) =~= head.take(end));
        assert(all.skip(end + 1) =~= head.skip(end + 1) + tail);
        let rest = head.skip(end + 1);
        if rest.len() > 0 {
            assert(rest.last() == head.last());
        }
        lines_follow_lines(rest, tail);
        let first = seq![without_return(head.take(end))];
        assert(first + (line_seq(rest) + line_seq(tail)) =~= (first + line_seq(rest)) + line_seq(
            tail,
        ));
    }
}

/// No line holds a line feed.
pub proof fn lines_hold_no_feed(chars: Seq<char>)
    ensures
        forall|i: int|
            0 <= i < line_seq(chars).len() ==> !(#[trigger] line_seq(chars)[i]).contains('\n'),
    decreases chars.len(),
{
    if chars.len() > 0 {
        let end = first_position(chars, '\n');
        lemma_first_position(chars, '\n');
        if end < chars.len() {
            let rest = chars.skip(end + 1);
            lines_hold_no_feed(rest);
            assert forall|i: int| 0 <= i < line_seq(chars).len() implies !(
            #[trigger] line_seq(chars)[i]).contains('\n') by {
                if i > 0 {
                    assert(line_seq(chars)[i] == line_seq(rest)[i - 1]);
                } else {
                    let line = line_seq(chars)[0];
                    assert(line == without_return(chars.take(end)));
                    assert forall|j: int| 0 <= j < line.len() implies line[j] != '\n' by {
                        assert(chars[j] != '\n');
                    }
                }
            }
        }
    }
}

/// A line that is written with a line feed behind it is read as that line, but for a
/// carriage return at its end.
pub proof fn written_line_is_read(line: Seq<char>)
    requires
        !line.contains('\n'),
    ensures
        line_seq(line.push('\n')) == seq![without_return(line)],
{
    let chars = line.push('\n');
    assert forall|i: int| 0 <= i < line.len() implies chars[i] != '\n' by {
        assert(line.contains(line[i]));
    }
    lemma_first_position_unique(chars, '\n', line.len() as int);
    assert(chars.take(line.len() as int) =~= line);
    assert(chars.skip(line.len() as int + 1) =~= Seq::<char>::empty());
    assert(line_seq(Seq::<char>::empty()) =~= Seq::<Seq<char>>::empty());
    assert(line_seq(chars) =~= seq![without_return(line)]);
}

/// Lines that are written with a line feed behind each are read as those lines, but for
/// a carriage return at the end of each.
pub proof fn written_lines_are_read(lines: Seq<Seq<char>>)
    requires
        lines.len() > 0,
        forall|i: int| 0 <= i < lines.len() ==> !(#[trigger] lines[i]).contains('\n'),
    ensures
        line_seq(joined(lines, "\n"@).push('\n')) == lines.map_values(
            |line: Seq<char>| without_return(line),
        ),
    decreases lines.len(),
{
    reveal_strlit("\n");
    let strip = |line: Seq<char>| without_return(line);
    let last = lines.last();
    assert(!lines[lines.len() - 1].contains('\n'));
    written_line_is_read(last);
    if lines.len() > 1 {
        let front = lines.drop_last();
        written_lines_are_read(front);
        let head = joined(front, "\n"@).push('\n');
        assert(joined(lines, "\n"@).push('\n') =~= head + last.push('\n'));
        lines_follow_lines(head, last.push('\n'));
        assert(lines.map_values(strip) =~= front.map_values(strip) + seq![without_return(last)]);
    } else {
        assert(joined(lines, "\n"@) == last);
        assert(lines.map_values(strip) =~= seq![without_return(last)]);
    }
}

proof fn lemma_trimmed_start_push(chars: Seq<char>, c: char)
    ensures
        trimmed_start(chars.push(c)) == if trimmed_start(chars).len() == 0 && is_white_space(c) {
            Seq::<char>::empty()
        } else {
            trimmed_start(chars).push(c)
        },
    decreases chars.len(),
{
    let more = chars.push(c);
    if chars.len() == 0 {
        assert(more.skip(1) =~= Seq::<char>::empty());
        assert(trimmed_start(Seq::<char>::empty()) =~= Seq::<char>::empty());
        assert(trimmed_start(chars) =~= Seq::<char>::empty());
    } else if is_white_space(chars[0]) {
        assert(more[0] == chars[0]);
        assert(more.skip(1) =~= chars.skip(1).push(c));
        lemma_trimmed_start_push(chars.skip(1), c);
    } else {
        assert(more[0] == chars[0]);
    }
}

/// A carriage return at the end of a line is white space around it.
pub proof fn return_is_trimmed(line: Seq<char>)
    ensures
        trimmed(without_return(line)) == trimmed(line),
{
    if line.len() > 0 && line.last() == '\r' {
        let front = line.drop_last();
        assert(front.push('\r') =~= line);
        lemma_trimmed_start_push(front, '\r');
        if trimmed_start(front).len() > 0 {
            assert(trimmed_start(line).drop_last() =~= trimmed_start(front));
        } else {
            assert(trimmed_start(front) =~= Seq::<char>::empty());
        }
    }
}

proof fn lemma_trimmed_end_is_black(chars: Seq<char>)
    ensures
        trimmed_end(chars).len() > 0 ==> !is_white_space(trimmed_end(chars).last()),
    decreases chars.len(),
{
    if chars.len() > 0 && is_white_space(chars.last()) {
        lemma_trimmed_end_is_black(chars.drop_last());
    }
}

/// Trimmed text does not end in white space.
pub proof fn trimmed_text_ends_black(chars: Seq<char>)
    ensures
        trimmed(chars).len() > 0 ==> !is_white_space(trimmed(chars).last()),
{
    lemma_trimmed_end_is_black(trimmed_start(chars));
}

/// The decimal digit for a number below ten.
pub open spec fn digit(n: nat) -> char {
    (n + 48) as char
}

/// `n` in decimal notation.
pub open spec fn decimal(n: nat) -> Seq<char>
    decreases n,
{
    if n < 10 {
        seq![digit(n)]
    } else {
        decimal(n / 10).push(digit(n % 10))
    }
}

/// `n` in decimal notation.
pub fn decimal_text(n: u64) -> (text: String)
    ensures
        text@ == decimal(n as nat),
    decreases n,
{
    let last = (48 + (n % 10) as u8) as char;
    if n < 10 {
        let mut text = String::new();
        text.push(last);
        assert(text@ =~= seq![digit(n as nat)]);
        text
    } else {
        let mut text = decimal_text(n / 10);
        text.push(last);
        text
    }
}

/// Different numbers are written differently.
pub proof fn decimal_is_injective(a: nat, b: nat)
    requires
        decimal(a) == decimal(b),
    ensures
        a == b,
    decreases a,
{
    assert(decimal(a).last() == digit(a % 10) && decimal(b).last() == digit(b % 10));
    if a >= 10 {
        assert(decimal(a / 10).len() > 0);
        assert(decimal(a).drop_last() =~= decimal(a / 10));
    }
    if b >= 10 {
        assert(decimal(b / 10).len() > 0);
        assert(decimal(b).drop_last() =~= decimal(b / 10));
    }
    if a >= 10 && b >= 10 {
        decimal_is_injective(a / 10, b / 10);
    }
}

/// Whether `left` comes no later than `right` in the order of the dictionary,
/// where characters are ordered by their code points.
pub open spec fn text_le(left: Seq<char>, right: Seq<char>) -> bool
    decreases left.len(),
{
    if left.len() == 0 {
        true
    } else if right.len() == 0 {
        false
    } else if left[0] == right[0] {
        text_le(left.skip(1), right.skip(1))
    } else {
        left[0] < right[0]
    }
}

/// Whether `left` comes no later than `right` in the order of the dictionary.
pub fn at_most(left: &str, right: &str) -> (yes: bool)
    ensures
        yes == text_le(left@, right@),
{
    let a = chars_of(left);
    let b = chars_of(right);
    let mut i: usize = 0;
    assert(a@.skip(0) =~= a@);
    assert(b@.skip(0) =~= b@);
    while i < a.len() && i < b.len() && a[i] == b[i]
        invariant
            i <= a.len(),
            i <= b.len(),
            text_le(a@.skip(i as int), b@.skip(i as int)) == text_le(a@, b@),
        decreases a.len() - i,
    {
        assert(a@.skip(i as int).skip(1) =~= a@.skip(i + 1));
        assert(b@.skip(i as int).skip(1) =~= b@.skip(i + 1));
        i += 1;
    }
    if i == a.len() {
        true
    } else if i == b.len() {
        false
    } else {
        a[i] < b[i]
    }
}

/// Every text comes no later than itself.
pub proof fn order_is_reflexive(a: Seq<char>)
    ensures
        text_le(a, a),
    decreases a.len(),
{
    if a.len() > 0 {
        order_is_reflexive(a.skip(1));
    }
}

/// A text that comes no later than a second, which comes no later than a third, comes
/// no later than the third.
pub proof fn order_is_transitive(a: Seq<char>, b: Seq<char>, c: Seq<char>)
    requires
        text_le(a, b),
        text_le(b, c),
    ensures
        text_le(a, c),
    decreases a.len(),
{
    if a.len() > 0 && b.len() > 0 && c.len() > 0 {
        if a[0] == b[0] && b[0] == c[0] {
            order_is_transitive(a.skip(1), b.skip(1), c.skip(1));
        }
    }
}

/// Of two texts one comes no later than the other.
pub proof fn order_is_total(a: Seq<char>, b: Seq<char>)
    ensures
        text_le(a, b) || text_le(b, a),
    decreases a.len(),
{
    if a.len() > 0 && b.len() > 0 && a[0] == b[0] {
        order_is_total(a.skip(1), b.skip(1));
    }
}

/// Two texts of which neither comes later than the other are the same.
pub proof fn order_is_antisymmetric(a: Seq<char>, b: Seq<char>)
    requires
        text_le(a, b),
        text_le(b, a),
    ensures
        a == b,
    decreases a.len(),
{
    if a.len() > 0 && b.len() > 0 {
        order_is_antisymmetric(a.skip(1), b.skip(1));
        assert(a =~= seq![a[0]] + a.skip(1));
        assert(b =~= seq![b[0]] + b.skip(1));
    } else {
        assert(a =~= b);
    }
}

/// The text whose UTF-8 encoding is the first `n` bytes of that of `chars`.
pub open spec fn byte_prefix(chars: Seq<char>, n: int) -> Seq<char> {
    decode_utf8(encode_utf8(chars).take(n))
}

/// Whether `chars` can be cut after its first `n` bytes: it is no longer than
/// that, or a character ends there.
pub open spec fn cuts_at(chars: Seq<char>, n: int) -> bool {
    encode_utf8(chars).len() > n ==> is_char_boundary(encode_utf8(chars), n)
}

/// `chars` itself if it takes at most `n` bytes, else its first `n` bytes and an
/// ellipsis.
pub open spec fn shortened(chars: Seq<char>, n: int) -> Seq<char> {
    if encode_utf8(chars).len() > n {
        byte_prefix(chars, n) + "..."@
    } else {
        chars
    }
}

/// `text` itself if it takes at most `n` bytes, else its first `n` bytes and an
/// ellipsis.
pub fn shorten(text: &str, n: usize) -> (result: String)
    requires
        cuts_at(text@, n as int),
    ensures
        result@ == shortened(text@, n as int),
{
    if text.as_bytes().len() > n {
        let (head, _tail) = text.split_at(n);
        let mut result = String::from_str(head);
        proof {
            encode_utf8_decode_utf8(head@);
            assert(encode_utf8(head@) =~= encode_utf8(text@).take(n as int));
        }
        result.append("...");
        result
    } else {
        String::from_str(text)
    }
}

/// A copy of an optional text.
pub fn copy_option(value: &Option<String>) -> (copy: Option<String>)
    ensures
        copy.deep_view() == value.deep_view(),
{
    match value {
        Some(text) => Some(text.clone()),
        None => None,
    }
}

/// A copy of a list of texts.
pub fn copy_texts(values: &Vec<String>) -> (copy: Vec<String>)
    ensures
        copy.deep_view() == values.deep_view(),
{
    let mut copy: Vec<String> = Vec::new();
    let mut i: usize = 0;
    while i < values.len()
        invariant
            i <= values.len(),
            copy.len() == i,
            forall|j: int| 0 <= j < i ==> copy@[j]@ == values@[j]@,
        decreases values.len() - i,
    {
        copy.push(values[i].clone());
        i += 1;
    }
    assert(copy.deep_view() =~= values.deep_view());
    copy
}

/// A result of two texts, as sequences of characters.
pub open spec fn result_view(result: Result<String, String>) -> Result<Seq<char>, Seq<char>> {
    match result {
        Ok(value) => Ok(value@),
        Err(error) => Err(error@),
    }
}

/// A result that is a text only where it is an error, as a sequence of characters.
pub open spec fn outcome_view(result: Result<(), String>) -> Result<(), Seq<char>> {
    match result {
        Ok(()) => Ok(()),
        Err(error) => Err(error@),
    }
}

/// A part that stands between two others occurs in the whole.
pub proof fn part_occurs(before: Seq<char>, part: Seq<char>, after: Seq<char>)
    ensures
        contains_part(before + part + after, part),
{
    let whole = before + part + after;
    let at = before.len() as int;
    assert(whole.subrange(at, at + part.len()) =~= part);
    assert(stands_at(whole, part, at));
}

/// A part that occurs in a text stands between two others.
pub proof fn occurring_part_splits(whole: Seq<char>, part: Seq<char>)
    requires
        contains_part(whole, part),
    ensures
        exists|before: Seq<char>, after: Seq<char>| whole == #[trigger] (before + part + after),
{
    let at = choose|at: int| stands_at(whole, part, at);
    let before = whole.take(at);
    let after = whole.skip(at + part.len());
    assert(whole =~= before + whole.subrange(at, at + part.len()) + after);
    assert(whole == before + part + after);
}

/// What occurs in a part of a text occurs in the text.
pub proof fn occurring_is_transitive(whole: Seq<char>, middle: Seq<char>, part: Seq<char>)
    requires
        contains_part(whole, middle),
        contains_part(middle, part),
    ensures
        contains_part(whole, part),
{
    let outer = choose|at: int| stands_at(whole, middle, at);
    let inner = choose|at: int| stands_at(middle, part, at);
    let at = outer + inner;
    assert(whole.subrange(at, at + part.len()) =~= middle.subrange(inner, inner + part.len()));
    assert(stands_at(whole, part, at));
}

/// Whether there is nothing but white space.
pub open spec fn all_white(chars: Seq<char>) -> bool {
    forall|i: int| 0 <= i < chars.len() ==> is_white_space(#[trigger] chars[i])
}

/// Whether there is white space neither at the beginning nor at the end.
pub open spec fn has_black_ends(chars: Seq<char>) -> bool {
    chars.len() > 0 ==> !is_white_space(chars[0]) && !is_white_space(chars.last())
}

proof fn lemma_trimmed_start_after(left: Seq<char>, chars: Seq<char>)
    requires
        all_white(left),
    ensures
        trimmed_start(left + chars) == trimmed_start(chars),
    decreases left.len(),
{
    if left.len() == 0 {
        assert(left + chars =~= chars);
    } else {
        assert((left + chars).skip(1) =~= left.skip(1) + chars);
        assert((left + chars)[0] == left[0]);
        lemma_trimmed_start_after(left.skip(1), chars);
    }
}

proof fn lemma_trimmed_end_before(chars: Seq<char>, right: Seq<char>)
    requires
        all_white(right),
    ensures
        trimmed_end(chars + right) == trimmed_end(chars),
    decreases right.len(),
{
    if right.len() == 0 {
        assert(chars + right =~= chars);
    } else {
        assert((chars + right).drop_last() =~= chars + right.drop_last());
        assert((chars + right).last() == right.last());
        lemma_trimmed_end_before(chars, right.drop_last());
    }
}

/// Trimming takes away the white space around a text, and nothing else.
pub proof fn white_space_is_trimmed(left: Seq<char>, core: Seq<char>, right: Seq<char>)
    requires
        all_white(left),
        has_black_ends(core),
        all_white(right),
    ensures
        trimmed(left + core + right) == core,
{
    assert(left + core + right =~= left + (core + right));
    lemma_trimmed_start_after(left, core + right);
    if core.len() > 0 {
        assert((core + right)[0] == core[0]);
        lemma_trimmed_end_before(core, right);
    } else {
        assert(core + right =~= right + Seq::<char>::empty());
        lemma_trimmed_start_after(right, Seq::<char>::empty());
        assert(trimmed_start(Seq::<char>::empty()) =~= Seq::<char>::empty());
        assert(trimmed_end(Seq::<char>::empty()) =~= core);
    }
}

proof fn lemma_trimmed_start_splits(chars: Seq<char>)
    ensures
        trimmed_start(chars).len() <= chars.len(),
        trimmed_start(chars) == chars.skip(chars.len() - trimmed_start(chars).len()),
        all_white(chars.take(chars.len() - trimmed_start(chars).len())),
        trimmed_start(chars).len() > 0 ==> !is_white_space(trimmed_start(chars)[0]),
    decreases chars.len(),
{
    if chars.len() > 0 && is_white_space(chars[0]) {
        let rest = chars.skip(1);
        lemma_trimmed_start_splits(rest);
        let n = chars.len() - trimmed_start(chars).len();
        assert(chars.skip(n) =~= rest.skip(n - 1));
        assert forall|i: int| 0 <= i < n implies is_white_space(#[trigger] chars.take(n)[i]) by {
            if i > 0 {
                assert(rest.take(n - 1)[i - 1] == chars[i]);
            }
        }
    } else {
        assert(chars.skip(0) =~= chars);
    }
}

proof fn lemma_trimmed_end_splits(chars: Seq<char>)
    ensures
        trimmed_end(chars).len() <= chars.len(),
        trimmed_end(chars) == chars.take(trimmed_end(chars).len() as int),
        all_white(chars.skip(trimmed_end(chars).len() as int)),
        trimmed_end(chars).len() > 0 ==> !is_white_space(trimmed_end(chars).last()),
    decreases chars.len(),
{
    if chars.len() > 0 && is_white_space(chars.last()) {
        let front = chars.drop_last();
        lemma_trimmed_end_splits(front);
        let n = trimmed_end(chars).len() as int;
        assert(chars.take(n) =~= front.take(n));
        assert forall|i: int| 0 <= i < chars.len() - n implies is_white_space(
            #[trigger] chars.skip(n)[i],
        ) by {
            if n + i < front.len() {
                assert(front.skip(n)[i] == chars[n + i]);
            }
        }
    } else {
        assert(chars.take(chars.len() as int) =~= chars);
    }
}

/// Every text is what is left of it after trimming, with white space on either side; what is
/// left begins and ends with something else.
pub proof fn trimming_splits(chars: Seq<char>)
    ensures
        has_black_ends(trimmed(chars)),
        exists|left: Seq<char>, right: Seq<char>|
            #![trigger all_white(left), all_white(right)]
            all_white(left) && all_white(right) && chars == left + trimmed(chars) + right,
{
    let tail = trimmed_start(chars);
    let core = trimmed(chars);
    lemma_trimmed_start_splits(chars);
    lemma_trimmed_end_splits(tail);
    let left = chars.take(chars.len() - tail.len());
    let right = tail.skip(core.len() as int);
    assert(chars =~= left + core + right);
    assert(all_white(left) && all_white(right));
    if core.len() > 0 {
        assert(core[0] == tail[0]);
    }
}

/// A text is blank after trimming if and only if it holds nothing but white space.
pub proof fn blank_is_all_white(chars: Seq<char>)
    ensures
        trimmed(chars).len() == 0 <==> all_white(chars),
{
    trimming_splits(chars);
    if all_white(chars) {
        white_space_is_trimmed(chars, Seq::<char>::empty(), Seq::<char>::empty());
        assert(chars + Seq::<char>::empty() + Seq::<char>::empty() =~= chars);
    }
    if trimmed(chars).len() == 0 {
        let (left, right) = choose|left: Seq<char>, right: Seq<char>|
            #![trigger all_white(left), all_white(right)]
            all_white(left) && all_white(right) && chars == left + trimmed(chars) + right;
        assert(chars =~= left + right);
    }
}

/// Taking away the copies of a character at the end of a text takes away nothing else, and
/// leaves none there.
pub proof fn end_is_trimmed(chars: Seq<char>, c: char)
    ensures
        trimmed_end_of(chars, c).len() <= chars.len(),
        trimmed_end_of(chars, c) == chars.take(trimmed_end_of(chars, c).len() as int),
        forall|i: int| trimmed_end_of(chars, c).len() <= i < chars.len() ==> #[trigger] chars[i] == c,
        trimmed_end_of(chars, c).len() > 0 ==> trimmed_end_of(chars, c).last() != c,
    decreases chars.len(),
{
    if chars.len() > 0 && chars.last() == c {
        let front = chars.drop_last();
        end_is_trimmed(front, c);
        let n = trimmed_end_of(chars, c).len() as int;
        assert(chars.take(n) =~= front.take(n));
        assert forall|i: int| n <= i < chars.len() implies #[trigger] chars[i] == c by {
            if i < front.len() {
                assert(front[i] == chars[i]);
            }
        }
    } else {
        assert(chars.take(chars.len() as int) =~= chars);
    }
}

/// In lower case, a capital ASCII letter is the small letter at the same place of the
/// alphabet, and every other character is itself.
pub proof fn lower_case_keeps_the_letter(c: char)
    ensures
        'A' <= c <= 'Z' ==> 'a' <= ascii_lower(c) <= 'z' && ascii_lower(c) as int - 'a' as int
            == c as int - 'A' as int,
        !('A' <= c <= 'Z') ==> ascii_lower(c) == c,
{
}

/// Replacing a character changes it wherever it stands, and nothing else.
pub proof fn replacing_changes_one_character(chars: Seq<char>, from: char, to: char)
    ensures
        replaced(chars, from, to).len() == chars.len(),
        forall|i: int|
            0 <= i < chars.len() ==> #[trigger] replaced(chars, from, to)[i] == (if chars[i]
                == from {
                to
            } else {
                chars[i]
            }),
{
}

/// A carriage return is taken from the end of a line, one at most, and nothing else is.
pub proof fn one_return_is_taken(line: Seq<char>)
    ensures
        without_return(line.push('\r')) == line,
        line.len() == 0 || line.last() != '\r' ==> without_return(line) == line,
{
    assert(line.push('\r').drop_last() =~= line);
}

/// The last line of a text need not end with a line feed; an empty text has no lines.
pub proof fn unfinished_line_is_read(line: Seq<char>)
    requires
        !line.contains('\n'),
    ensures
        line_seq(line) == (if line.len() == 0 {
            Seq::<Seq<char>>::empty()
        } else {
            seq![line]
        }),
{
    if line.len() > 0 {
        assert forall|i: int| 0 <= i < line.len() implies line[i] != '\n' by {
            assert(line.contains(line[i]));
        }
        lemma_first_position_unique(line, '\n', line.len() as int);
    }
}

/// Joined parts stand in their order with the separator between each and the next, and
/// nothing else.
pub proof fn joining_adds_the_separator(
    parts: Seq<Seq<char>>,
    part: Seq<char>,
    separator: Seq<char>,
)
    ensures
        joined(Seq::<Seq<char>>::empty(), separator) == Seq::<char>::empty(),
        joined(seq![part], separator) == part,
        parts.len() > 0 ==> joined(parts.push(part), separator) == joined(parts, separator)
            + separator + part,
{
    assert(parts.push(part).drop_last() =~= parts);
}

/// Every part stands in the joined text as a whole, with the separator before it unless it is
/// the first, and behind it unless it is the last.
pub proof fn joined_parts_stand_whole(parts: Seq<Seq<char>>, separator: Seq<char>, i: int)
    requires
        0 <= i < parts.len(),
    ensures
        exists|before: Seq<char>, after: Seq<char>|
            {
                &&& joined(parts, separator) == #[trigger] (before + parts[i] + after)
                &&& if i == 0 {
                    before.len() == 0
                } else {
                    separator.is_suffix_of(before)
                }
                &&& if i == parts.len() - 1 {
                    after.len() == 0
                } else {
                    separator.is_prefix_of(after)
                }
            },
    decreases parts.len(),
{
    let whole = joined(parts, separator);
    let front = parts.drop_last();
    if parts.len() == 1 {
        let none = Seq::<char>::empty();
        assert(whole =~= none + parts[i] + none);
    } else if i == parts.len() - 1 {
        let before = joined(front, separator) + separator;
        let none = Seq::<char>::empty();
        assert(whole =~= before + parts[i] + none);
        assert(before.subrange(before.len() - separator.len(), before.len() as int) =~= separator);
    } else {
        joined_parts_stand_whole(front, separator, i);
        let (before, rest) = choose|before: Seq<char>, after: Seq<char>|
            {
                &&& joined(front, separator) == #[trigger] (before + front[i] + after)
                &&& if i == 0 {
                    before.len() == 0
                } else {
                    separator.is_suffix_of(before)
                }
                &&& if i == front.len() - 1 {
                    after.len() == 0
                } else {
                    separator.is_prefix_of(after)
                }
            };
        let after = rest + separator + parts.last();
        assert(front[i] == parts[i]);
        assert(whole =~= before + parts[i] + after);
        if i == front.len() - 1 {
            assert(after.take(separator.len() as int) =~= separator);
        } else {
            assert(after.take(separator.len() as int) =~= rest.take(separator.len() as int));
        }
    }
}

/// The number that decimal digits stand for.
pub open spec fn number_of(digits: Seq<char>) -> int
    decreases digits.len(),
{
    if digits.len() == 0 {
        0
    } else {
        10 * number_of(digits.drop_last()) + (digits.last() as int - '0' as int)
    }
}

/// Decimal notation has digits only, no needless zero before them, and stands for the number.
pub proof fn decimal_stands_for_the_number(n: nat)
    ensures
        decimal(n).len() > 0,
        forall|i: int| 0 <= i < decimal(n).len() ==> '0' <= #[trigger] decimal(n)[i] <= '9',
        n < 10 ==> decimal(n).len() == 1,
        n > 0 ==> decimal(n)[0] != '0',
        number_of(decimal(n)) == n,
    decreases n,
{
    if n < 10 {
        assert(decimal(n).drop_last() =~= Seq::<char>::empty());
        assert(number_of(Seq::<char>::empty()) == 0);
    } else {
        decimal_stands_for_the_number(n / 10);
        assert(decimal(n).drop_last() =~= decimal(n / 10));
        assert(decimal(n)[0] == decimal(n / 10)[0]);
    }
}

/// Texts are ordered by the first character in which they differ, and a text comes before
/// those that go on where it ends.
pub proof fn first_difference_decides(
    same: Seq<char>,
    c: char,
    d: char,
    left: Seq<char>,
    right: Seq<char>,
)
    requires
        c < d,
    ensures
        text_le(same + seq![c] + left, same + seq![d] + right),
        !text_le(same + seq![d] + right, same + seq![c] + left),
        text_le(same, same + left),
        left.len() > 0 ==> !text_le(same + left, same),
    decreases same.len(),
{
    let a = same + seq![c] + left;
    let b = same + seq![d] + right;
    let longer = same + left;
    if same.len() == 0 {
        assert(a[0] == c && b[0] == d);
    } else {
        let rest = same.skip(1);
        first_difference_decides(rest, c, d, left, right);
        assert(a.skip(1) =~= rest + seq![c] + left);
        assert(b.skip(1) =~= rest + seq![d] + right);
        assert(longer.skip(1) =~= rest + left);
        assert(a[0] == b[0] && longer[0] == same[0]);
    }
}

/// A text that takes more than `n` bytes is shortened to its beginning of `n` bytes, with an
/// ellipsis behind it; any other is itself.
pub proof fn shortened_text_is_a_beginning(chars: Seq<char>, n: int)
    requires
        n >= 0,
        cuts_at(chars, n),
    ensures
        encode_utf8(chars).len() <= n ==> shortened(chars, n) == chars,
        encode_utf8(chars).len() > n ==> exists|k: int|
            0 <= k <= chars.len() && encode_utf8(#[trigger] chars.take(k)).len() == n && shortened(
                chars,
                n,
            ) == chars.take(k) + "..."@,
{
    let bytes = encode_utf8(chars);
    if bytes.len() > n {
        encode_utf8_valid_utf8(chars);
        encode_utf8_decode_utf8(chars);
        valid_utf8_split(bytes, n);
        decode_utf8_split(bytes, n);
        let head = decode_utf8(bytes.take(n));
        let k = head.len() as int;
        assert(bytes.take(n) =~= bytes.subrange(0, n));
        assert(head =~= chars.take(k));
        decode_utf8_encode_utf8(bytes.take(n));
        assert(encode_utf8(chars.take(k)).len() == n);
    }
}

/// White space is what Unicode calls so: tab, line feed and the three characters behind them,
/// the space and its wider and narrower kinds, and the separators of lines and paragraphs.
pub proof fn white_space_is_unicodes(c: char)
    ensures
        is_white_space(c) <==> {
            let n = c as u32;
            ||| 9 <= n <= 13
            ||| n == 32
            ||| n == 133
            ||| n == 160
            ||| n == 5760
            ||| 8192 <= n <= 8202
            ||| 8232 <= n <= 8233
            ||| n == 8239
            ||| n == 8287
            ||| n == 12288
        },
{
}

} // verus!
