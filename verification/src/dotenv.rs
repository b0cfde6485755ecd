//! Settings in a file of lines `name=value`, which stand in for environment
//! variables that are not set.

use crate::json::opt_text;
use crate::text::{chars_of, starts_with, texts, trim, trimmed};
use vstd::prelude::*;

verus! {

/// The lines of a text: what stands between its line feeds.
pub open spec fn lines_of(text: Seq<char>) -> Seq<Seq<char>>
    decreases text.len(),
{
    if text.len() == 0 {
        seq![seq![]]
    } else {
        let before = lines_of(text.drop_last());
        if text.last() == '\n' {
            before.push(seq![])
        } else {
            before.drop_last().push(before.last().push(text.last()))
        }
    }
}

/// A name and an equals sign, with which the line of a setting begins.
pub open spec fn assignment(name: Seq<char>) -> Seq<char> {
    name.push('=')
}

/// The value in the first of the lines that sets `name`, without the white
/// space around it.
pub open spec fn value_in(lines: Seq<Seq<char>>, name: Seq<char>) -> Option<Seq<char>>
    decreases lines.len(),
{
    if lines.len() == 0 {
        None
    } else if assignment(name).is_prefix_of(lines[0]) {
        Some(trimmed(lines[0].skip(assignment(name).len() as int)))
    } else {
        value_in(lines.skip(1), name)
    }
}

/// The value that the text of a file gives to `name`.
pub open spec fn env_value(text: Seq<char>, name: Seq<char>) -> Option<Seq<char>> {
    value_in(lines_of(text), name)
}

/// The value of a variable: that of the process, or else that of the file.
pub open spec fn effective(
    process: Option<Seq<char>>,
    text: Seq<char>,
    name: Seq<char>,
) -> Option<Seq<char>> {
    match process {
        Some(value) => Some(value),
        None => env_value(text, name),
    }
}

/// Every text has a line.
proof fn lemma_has_lines(text: Seq<char>)
    ensures
        lines_of(text).len() > 0,
{
}

/// Cuts a text into its lines.
fn split_lines(text: &str) -> (r: Vec<String>)
    ensures
        texts(r@) == lines_of(text@),
{
    let chars = chars_of(text);
    let mut done: Vec<String> = Vec::new();
    let mut line = String::new();
    let mut i: usize = 0;
    assert(text@.take(0) == Seq::<char>::empty());
    assert(texts(done@).push(line@) == lines_of(text@.take(0)));
    while i < chars.len()
        invariant
            chars@ == text@,
            i <= chars@.len(),
            texts(done@).push(line@) == lines_of(text@.take(i as int)),
        decreases chars.len() - i,
    {
        let ghost upto = text@.take(i + 1);
        let ghost before = lines_of(text@.take(i as int));
        let ghost finished = done@;
        assert(upto.drop_last() == text@.take(i as int));
        assert(upto.last() == text@[i as int]);
        assert(before.drop_last() == texts(done@));
        assert(before.last() == line@);
        let ch = chars[i];
        if ch == '\n' {
            done.push(line);
            assert(texts(done@) == texts(finished).push(line@));
            line = String::new();
            assert(line@ == Seq::<char>::empty());
        } else {
            line.push(ch);
        }
        i += 1;
    }
    assert(text@.take(i as int) == text@);
    let ghost finished = done@;
    done.push(line);
    assert(texts(done@) == texts(finished).push(line@));
    done
}

/// The value that the text of a file gives to `name`: that of the first line
/// `name=value`, without the white space around it.
pub fn env_file_value(text: &str, name: &str) -> (r: Option<String>)
    ensures
        opt_text(r) == env_value(text@, name@),
{
    let lines = split_lines(text);
    let mut start = name.to_owned();
    start.push('=');
    let ghost all = texts(lines@);
    assert(all.skip(0) == all);
    let mut i: usize = 0;
    while i < lines.len()
        invariant
            i <= lines@.len(),
            all == texts(lines@),
            all == lines_of(text@),
            start@ == assignment(name@),
            value_in(all.skip(i as int), name@) == value_in(all, name@),
        decreases lines.len() - i,
    {
        let line = lines[i].as_str();
        assert(all.skip(i as int)[0] == line@);
        assert(all.skip(i as int).skip(1) == all.skip(i + 1));
        if starts_with(line, start.as_str()) {
            let from = start.as_str().unicode_len();
            let value = line.substring_char(from, line.unicode_len());
            assert(value@ == line@.skip(from as int));
            return Some(trim(value));
        }
        i += 1;
    }
    None
}

/// The value of a variable: that of the process where it is set, and
/// otherwise that in the text of a file.
pub fn variable(process: Option<String>, text: &str, name: &str) -> (r: Option<String>)
    ensures
        opt_text(r) == effective(opt_text(process), text@, name@),
{
    match process {
        Some(value) => Some(value),
        None => env_file_value(text, name),
    }
}

// ---------------------------------------------------------------------------
// Laws
// ---------------------------------------------------------------------------

/// A line feed parts lines.
proof fn lemma_lines_apart(a: Seq<char>, b: Seq<char>)
    ensures
        lines_of(a.push('\n') + b) == lines_of(a) + lines_of(b),
    decreases b.len(),
{
    let text = a.push('\n') + b;
    if b.len() == 0 {
        assert(text == a.push('\n'));
        assert(text.drop_last() == a);
        assert(lines_of(b) == seq![Seq::<char>::empty()]);
        assert(lines_of(text) == lines_of(a).push(Seq::<char>::empty()));
    } else {
        let init = b.drop_last();
        lemma_lines_apart(a, init);
        assert(text.drop_last() == a.push('\n') + init);
        assert(text.last() == b.last());
        let before = lines_of(a) + lines_of(init);
        lemma_has_lines(init);
        assert(before.drop_last() == lines_of(a) + lines_of(init).drop_last());
        assert(before.last() == lines_of(init).last());
    }
}

/// A text without line feeds is one line.
proof fn lemma_one_line(s: Seq<char>)
    requires
        !s.contains('\n'),
    ensures
        lines_of(s) == seq![s],
    decreases s.len(),
{
    if s.len() == 0 {
        assert(s == Seq::<char>::empty());
    } else {
        let init = s.drop_last();
        assert(s[s.len() - 1] != '\n');
        assert forall|i: int| 0 <= i < init.len() implies init[i] != '\n' by {
            assert(init[i] == s[i]);
        }
        lemma_one_line(init);
        assert(init.push(s.last()) == s);
    }
}

/// Lines that do not set a name leave it to those behind them.
proof fn lemma_value_behind(a: Seq<Seq<char>>, b: Seq<Seq<char>>, name: Seq<char>)
    ensures
        value_in(a + b, name) == match value_in(a, name) {
            Some(value) => Some(value),
            None => value_in(b, name),
        },
    decreases a.len(),
{
    if a.len() == 0 {
        assert(a + b == b);
    } else {
        assert((a + b)[0] == a[0]);
        assert((a + b).skip(1) == a.skip(1) + b);
        lemma_value_behind(a.skip(1), b, name);
    }
}

/// Nothing or whole lines: what may stand in front of a line.
pub open spec fn ends_a_line(text: Seq<char>) -> bool {
    text.len() == 0 || text.last() == '\n'
}

/// Nothing or more lines: what may stand behind a line.
pub open spec fn begins_a_line(text: Seq<char>) -> bool {
    text.len() == 0 || text[0] == '\n'
}

/// Where nothing in front of a line sets a name, the line decides.
proof fn lemma_value_after(front: Seq<char>, text: Seq<char>, name: Seq<char>)
    requires
        ends_a_line(front),
        env_value(front, name) is None,
    ensures
        env_value(front + text, name) == env_value(text, name),
{
    if front.len() == 0 {
        assert(front + text == text);
    } else {
        let head = front.drop_last();
        let none = Seq::<char>::empty();
        assert(front + text == head.push('\n') + text);
        assert(front == head.push('\n') + none);
        lemma_lines_apart(head, text);
        lemma_lines_apart(head, none);
        lemma_value_behind(lines_of(head), lines_of(none), name);
        lemma_value_behind(lines_of(head), lines_of(text), name);
    }
}

/// A setting is read back from the file that it is written to: in its first
/// line, in its last, with or without a line feed at the end, or between
/// others, where no line before it sets the same name and whatever follows it.
pub proof fn law_setting_reads_back(
    front: Seq<char>,
    name: Seq<char>,
    value: Seq<char>,
    back: Seq<char>,
)
    requires
        ends_a_line(front),
        env_value(front, name) is None,
        !name.contains('\n'),
        !value.contains('\n'),
        begins_a_line(back),
    ensures
        env_value(front + (assignment(name) + value + back), name) == Some(trimmed(value)),
{
    let line = assignment(name) + value;
    assert forall|i: int| 0 <= i < line.len() implies line[i] != '\n' by {
        if i < name.len() {
            assert(line[i] == name[i]);
        } else if i > name.len() {
            assert(line[i] == value[i - name.len() - 1]);
        }
    }
    lemma_one_line(line);
    lemma_value_after(front, line + back, name);
    assert(lines_of(line + back)[0] == line) by {
        if back.len() == 0 {
            assert(line + back == line);
        } else {
            let tail = back.skip(1);
            assert(line + back == line.push('\n') + tail);
            lemma_lines_apart(line, tail);
        }
    }
    assert(line.skip(assignment(name).len() as int) == value);
}

} // verus!
