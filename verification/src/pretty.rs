//! Pretty output: the painted message line and, below it, the fields sorted
//! by key and aligned.
use crate::config::Traceon;
use crate::error::FormatError;
use crate::json::{json_value, json_value_text};
use crate::level::{color_of, level_color, paint, painted, Level};
use crate::record::{level_text, lines_of, reversed_lines, view_or_none, Line, Lines};
use crate::storage::{lemma_index_of, lookup, JsonStorage};
use crate::text::{
    chars_of, lemma_bytes_one_way, lemma_bytes_order, push_spaces, replace, replaced, spaces,
    str_lt, string_of, text_before, trim, trim_matches, trimmed, trimmed_of,
};
use crate::value::{Entries, FieldValue};
use vstd::prelude::*;
use vstd::utf8::encode_utf8;

verus! {

/// The JSON text of a value made readable: the quotes around it removed, an
/// escaped quote shown as a quote, and an escaped line feed shown as a line
/// break followed by an indent of four spaces.
pub open spec fn cleaned(text: Seq<char>) -> Seq<char> {
    replaced(replaced(trimmed_of(text, '"'), "\\\""@, "\""@), "\\n"@, "\n    "@)
}

/// Makes JSON text readable: removes the quotes around it, shows an escaped
/// quote as a quote and an escaped line feed as an indented line break.
pub fn clean_json_text(text: &str) -> (r: String)
    ensures
        r@ == cleaned(text@),
{
    let chars = chars_of(text);
    let bare = trim_matches(chars.as_slice(), '"');
    let escaped_quote = chars_of("\\\"");
    let quote = chars_of("\"");
    let unquoted = replace(bare.as_slice(), escaped_quote.as_slice(), quote.as_slice());
    let escaped_break = chars_of("\\n");
    let indented_break = chars_of("\n    ");
    let shown = replace(unquoted.as_slice(), escaped_break.as_slice(), indented_break.as_slice());
    string_of(shown.as_slice())
}

/// Convert a field value to its readable form for pretty output: its JSON
/// text with `\n` and `\"` sequences shown as the characters they stand for.
pub fn clean_json_value(value: &FieldValue) -> (r: Result<String, FormatError>)
    ensures
        r is Ok,
        r matches Ok(t) ==> t@ == cleaned(json_value_text(value@)),
{
    match json_value(value) {
        Ok(text) => Ok(clean_json_text(text.as_str())),
        Err(e) => Err(e),
    }
}

/// What stands before the message in pretty output: the time and the level,
/// each followed by a space, each only where it is shown.
pub open spec fn head_text(config: Traceon, level: Level, time: Option<Seq<char>>) -> Seq<char> {
    (match time {
        Some(t) => t + " "@,
        None => Seq::empty(),
    }) + (match level_text(config.level, level) {
        Some(t) => t + " "@,
        None => Seq::empty(),
    })
}

/// The message of an event in pretty output: the value of its `message`
/// field, made readable; a fixed text where the event has no message.
pub open spec fn message_text(event: Entries) -> Seq<char> {
    match lookup(event, "message"@) {
        Some(v) => cleaned(json_value_text(v)),
        None => "event triggered"@,
    }
}

/// The first line of pretty output: time, level and message, trimmed and
/// painted in the colour of the level.
pub open spec fn message_line(
    config: Traceon,
    level: Level,
    time: Option<Seq<char>>,
    event: Entries,
) -> Seq<char> {
    painted(level_color(level), trimmed(head_text(config, level, time) + message_text(event)))
        + "\n"@
}

impl Traceon {
    /// Writes the first line of pretty output: time, level and message,
    /// trimmed and painted in the colour of the level.
    pub fn message_line(&self, level: Level, time: &Option<String>, event: &JsonStorage) -> (r:
        Result<String, FormatError>)
        ensures
            r is Ok,
            r matches Ok(t) ==> t@ == message_line(
                *self,
                level,
                view_or_none(*time),
                event.entries(),
            ),
    {
        let mut msg = String::new();
        match time {
            Some(t) => {
                msg.append(t.as_str());
                msg.append(" ");
            },
            None => {},
        }
        match self.level_text(level) {
            Some(t) => {
                msg.append(t.as_str());
                msg.append(" ");
            },
            None => {},
        }
        assert(msg@ =~= head_text(*self, level, view_or_none(*time)));
        proof {
            lemma_index_of(event.entries(), "message"@);
        }
        match event.get("message") {
            Some(value) => {
                let message = match clean_json_value(value) {
                    Ok(message) => message,
                    Err(e) => {
                        return Err(e);
                    },
                };
                msg.append(message.as_str());
            },
            None => {
                msg.append("event triggered");
            },
        }
        let chars = chars_of(msg.as_str());
        let bare = trim(chars.as_slice());
        let text = string_of(bare.as_slice());
        let mut line = paint(color_of(level), text.as_str());
        line.append("\n");
        Ok(line)
    }
}

/// `sorted` with `line` put after the last line whose key does not come
/// after its own.
pub open spec fn inserted(sorted: Lines, line: (Seq<char>, Seq<char>)) -> Lines
    decreases sorted.len(),
{
    if sorted.len() > 0 && text_before(line.0, sorted.last().0) {
        inserted(sorted.drop_last(), line).push(sorted.last())
    } else {
        sorted.push(line)
    }
}

/// The lines in the order of their keys; lines with the same key stay in
/// their order.
pub open spec fn sorted(lines: Lines) -> Lines
    decreases lines.len(),
{
    if lines.len() == 0 {
        Seq::empty()
    } else {
        inserted(sorted(lines.drop_last()), lines.last())
    }
}

/// The width of a key: the number of bytes of its UTF-8 form.
pub open spec fn key_width(key: Seq<char>) -> nat {
    encode_utf8(key).len()
}

/// The width of the widest key.
pub open spec fn max_width(lines: Lines) -> nat
    decreases lines.len(),
{
    if lines.len() == 0 {
        0
    } else {
        let before = max_width(lines.drop_last());
        if key_width(lines.last().0) > before {
            key_width(lines.last().0)
        } else {
            before
        }
    }
}

/// Every key is at most `width` wide.
pub open spec fn fits(lines: Lines, width: nat) -> bool {
    forall|k: int| 0 <= k < lines.len() ==> key_width(#[trigger] lines[k].0) <= width
}

/// One field in pretty output: indent, key, colon, space, padding up to the
/// given width, value, line break.
pub open spec fn field_line(line: (Seq<char>, Seq<char>), width: nat) -> Seq<char> {
    "    "@ + line.0 + ": "@ + spaces((width - key_width(line.0)) as nat) + line.1 + "\n"@
}

/// The fields in pretty output, one line each, in the given order.
pub open spec fn block(lines: Lines, width: nat) -> Seq<char>
    decreases lines.len(),
{
    if lines.len() == 0 {
        Seq::empty()
    } else {
        block(lines.drop_last(), width) + field_line(lines.last(), width)
    }
}

/// The fields of a record in pretty output: sorted by key and aligned to the
/// widest key.
pub open spec fn pretty_block(lines: Lines) -> Seq<char> {
    block(sorted(lines), max_width(lines))
}

/// Sorts the lines by key, in the order of `str`; lines with the same key
/// keep their order.
pub fn sort_lines(lines: Vec<Line>) -> (r: Vec<Line>)
    ensures
        lines_of(r@) == sorted(lines_of(lines@)),
{
    let ghost all = lines_of(lines@);
    let mut rest = reversed_lines(lines);
    let mut r: Vec<Line> = Vec::new();
    assert(lines_of(rest@).len() == rest.len() && all.reverse().len() == all.len());
    while rest.len() > 0
        invariant
            rest.len() <= all.len(),
            lines_of(rest@) == all.reverse().take(rest.len() as int),
            lines_of(r@) == sorted(all.take(all.len() - rest.len())),
        decreases rest.len(),
    {
        let ghost i = all.len() - rest.len();
        let ghost prev = rest@;
        let ghost done = lines_of(r@);
        let line = rest.pop().unwrap();
        assert(line@ == lines_of(prev)[prev.len() - 1]);
        assert(all.take(i + 1).drop_last() =~= all.take(i as int));
        // The line goes before the lines at the end whose keys come after its own.
        let mut at: usize = r.len();
        assert(done.take(at as int) =~= done);
        while at > 0 && str_lt(line.key.as_str(), r[at - 1].key.as_str())
            invariant
                at <= r.len(),
                done == lines_of(r@),
                inserted(done, line@) == inserted(done.take(at as int), line@) + done.skip(
                    at as int,
                ),
            decreases at,
        {
            let ghost head = done.take(at as int);
            assert(head.drop_last() =~= done.take(at - 1));
            at = at - 1;
        }
        r.insert(at, line);
    }
    assert(all.take(all.len() as int) =~= all);
    r
}

/// The width of the widest key, in bytes.
pub fn widest_key(lines: &Vec<Line>) -> (r: usize)
    ensures
        r == max_width(lines_of(lines@)),
        fits(lines_of(lines@), r as nat),
{
    let mut max_len: usize = 0;
    let mut i: usize = 0;
    while i < lines.len()
        invariant
            i <= lines.len(),
            max_len == max_width(lines_of(lines@).take(i as int)),
            fits(lines_of(lines@).take(i as int), max_len as nat),
        decreases lines.len() - i,
    {
        let ghost next = lines_of(lines@).take(i + 1);
        assert(next.drop_last() =~= lines_of(lines@).take(i as int));
        let width = lines[i].key.as_str().as_bytes().len();
        if width > max_len {
            max_len = width;
        }
        i = i + 1;
    }
    assert(lines_of(lines@).take(lines.len() as int) =~= lines_of(lines@));
    max_len
}

/// Writes the lines one below the other, each key padded to `width`.
pub fn write_block(lines: &Vec<Line>, width: usize) -> (r: String)
    requires
        fits(lines_of(lines@), width as nat),
    ensures
        r@ == block(lines_of(lines@), width as nat),
{
    let mut r = String::new();
    let mut i: usize = 0;
    while i < lines.len()
        invariant
            i <= lines.len(),
            fits(lines_of(lines@), width as nat),
            r@ == block(lines_of(lines@).take(i as int), width as nat),
        decreases lines.len() - i,
    {
        let ghost next = lines_of(lines@).take(i + 1);
        assert(next.drop_last() =~= lines_of(lines@).take(i as int));
        let line = &lines[i];
        assert(key_width(lines_of(lines@)[i as int].0) <= width);
        r.append("    ");
        r.append(line.key.as_str());
        r.append(": ");
        push_spaces(&mut r, width - line.key.as_str().as_bytes().len());
        r.append(line.text.as_str());
        r.append("\n");
        i = i + 1;
    }
    assert(lines_of(lines@).take(lines.len() as int) =~= lines_of(lines@));
    r
}

/// Writes the fields of a record for pretty output: sorted by key, one line
/// each, the values aligned.
pub fn pretty_fields(lines: Vec<Line>) -> (r: String)
    ensures
        r@ == pretty_block(lines_of(lines@)),
{
    let width = widest_key(&lines);
    let ghost all = lines_of(lines@);
    let sorted_lines = sort_lines(lines);
    proof {
        lemma_sorted_fits(all, width as nat);
    }
    write_block(&sorted_lines, width)
}

/// Inserting a line adds that line and nothing else.
pub proof fn lemma_inserted_holds(
    sorted: Lines,
    line: (Seq<char>, Seq<char>),
    x: (Seq<char>, Seq<char>),
)
    ensures
        inserted(sorted, line).contains(x) <==> (x == line || sorted.contains(x)),
        inserted(sorted, line).len() == sorted.len() + 1,
    decreases sorted.len(),
{
    if sorted.len() > 0 && text_before(line.0, sorted.last().0) {
        lemma_inserted_holds(sorted.drop_last(), line, x);
        let head = inserted(sorted.drop_last(), line);
        let whole = head.push(sorted.last());
        if whole.contains(x) {
            let j = choose|j: int| 0 <= j < whole.len() && whole[j] == x;
            if j < head.len() {
                assert(head[j] == x);
                assert(head.contains(x));
                if x != line {
                    let m = choose|m: int| 0 <= m < sorted.drop_last().len() && sorted.drop_last()[m] == x;
                    assert(sorted[m] == x);
                }
            } else {
                assert(sorted[sorted.len() - 1] == x);
            }
        }
        if x == line || sorted.contains(x) {
            if x == line || sorted.drop_last().contains(x) {
                assert(head.contains(x));
                let j = choose|j: int| 0 <= j < head.len() && head[j] == x;
                assert(whole[j] == x);
            } else {
                let m = choose|m: int| 0 <= m < sorted.len() && sorted[m] == x;
                if m < sorted.len() - 1 {
                    assert(sorted.drop_last()[m] == x);
                }
                assert(whole[whole.len() - 1] == x);
            }
        }
    } else {
        let whole = sorted.push(line);
        if whole.contains(x) {
            let j = choose|j: int| 0 <= j < whole.len() && whole[j] == x;
            if j < sorted.len() {
                assert(sorted[j] == x);
            }
        }
        if sorted.contains(x) {
            let m = choose|m: int| 0 <= m < sorted.len() && sorted[m] == x;
            assert(whole[m] == x);
        }
        assert(whole[whole.len() - 1] == line);
    }
}

/// Sorting keeps every line and adds none.
pub proof fn lemma_sorted_keeps_keys(lines: Lines)
    ensures
        sorted(lines).len() == lines.len(),
        forall|x: (Seq<char>, Seq<char>)| sorted(lines).contains(x) <==> lines.contains(x),
    decreases lines.len(),
{
    if lines.len() > 0 {
        lemma_sorted_keeps_keys(lines.drop_last());
        assert forall|x: (Seq<char>, Seq<char>)| sorted(lines).contains(x) <==> lines.contains(
            x,
        ) by {
            lemma_inserted_holds(sorted(lines.drop_last()), lines.last(), x);
            if lines.contains(x) {
                let j = choose|j: int| 0 <= j < lines.len() && lines[j] == x;
                if j < lines.len() - 1 {
                    assert(lines.drop_last()[j] == x);
                }
            }
            if lines.drop_last().contains(x) {
                let j = choose|j: int| 0 <= j < lines.drop_last().len() && lines.drop_last()[j] == x;
                assert(lines[j] == x);
            }
            assert(lines[lines.len() - 1] == lines.last());
        }
        lemma_inserted_holds(sorted(lines.drop_last()), lines.last(), lines.last());
    }
}

/// Keys that fit a width before sorting fit it afterwards.
pub proof fn lemma_sorted_fits(lines: Lines, width: nat)
    requires
        fits(lines, width),
    ensures
        fits(sorted(lines), width),
{
    lemma_sorted_keeps_keys(lines);
    assert forall|k: int| 0 <= k < sorted(lines).len() implies key_width(
        #[trigger] sorted(lines)[k].0,
    ) <= width by {
        let line = sorted(lines)[k];
        assert(sorted(lines).contains(line));
        assert(lines.contains(line));
        let j = choose|j: int| 0 <= j < lines.len() && lines[j] == line;
        assert(key_width(lines[j].0) <= width);
    }
}

/// No line comes before a line whose key comes before its own.
pub open spec fn ordered(lines: Lines) -> bool {
    forall|i: int, j: int|
        0 <= i < j < lines.len() ==> !text_before(#[trigger] lines[j].0, #[trigger] lines[i].0)
}

/// Of two texts at most one comes before the other.
pub proof fn lemma_text_before_one_way(a: Seq<char>, b: Seq<char>)
    requires
        text_before(a, b),
    ensures
        !text_before(b, a),
{
    lemma_bytes_one_way(encode_utf8(a), encode_utf8(b));
}

/// A line inserted into ordered lines leaves them ordered.
pub proof fn lemma_inserted_ordered(
    lines: Lines,
    line: (Seq<char>, Seq<char>),
)
    requires
        ordered(lines),
    ensures
        ordered(inserted(lines, line)),
        inserted(lines, line).len() == lines.len() + 1,
        lines.len() > 0 && !text_before(line.0, lines.last().0) ==> inserted(lines, line).last()
            == line,
        lines.len() > 0 && text_before(line.0, lines.last().0) ==> inserted(lines, line).last()
            == lines.last(),
        forall|k: int|
            0 <= k < inserted(lines, line).len() ==> (#[trigger] inserted(lines, line)[k]) == line
                || lines.contains(inserted(lines, line)[k]),
    decreases lines.len(),
{
    let after = inserted(lines, line);
    if lines.len() > 0 && text_before(line.0, lines.last().0) {
        let head = lines.drop_last();
        assert(ordered(head)) by {
            assert forall|i: int, j: int| 0 <= i < j < head.len() implies !text_before(
                #[trigger] head[j].0,
                #[trigger] head[i].0,
            ) by {
                assert(head[i] == lines[i] && head[j] == lines[j]);
            }
        }
        lemma_inserted_ordered(head, line);
        let front = inserted(head, line);
        assert forall|k: int| 0 <= k < after.len() implies (#[trigger] after[k]) == line
            || lines.contains(after[k]) by {
            if k < front.len() {
                assert(after[k] == front[k]);
                if front[k] != line {
                    let m = choose|m: int| 0 <= m < head.len() && head[m] == front[k];
                    assert(lines[m] == front[k]);
                }
            } else {
                assert(lines[lines.len() - 1] == after[k]);
            }
        }
        assert forall|i: int, j: int| 0 <= i < j < after.len() implies !text_before(
            #[trigger] after[j].0,
            #[trigger] after[i].0,
        ) by {
            if j < front.len() {
                assert(after[i] == front[i] && after[j] == front[j]);
            } else {
                assert(after[j] == lines.last());
                assert(after[i] == front[i]);
                if front[i] == line {
                    // The line comes before the last one, so the last one is not before it.
                    lemma_text_before_one_way(line.0, lines.last().0);
                } else {
                    let m = choose|m: int| 0 <= m < head.len() && head[m] == front[i];
                    assert(lines[m] == front[i]);
                    assert(!text_before(lines[lines.len() - 1].0, lines[m].0));
                }
            }
        }
    } else {
        assert forall|k: int| 0 <= k < after.len() implies (#[trigger] after[k]) == line
            || lines.contains(after[k]) by {
            if k < lines.len() {
                assert(lines[k] == after[k]);
            }
        }
        assert forall|i: int, j: int| 0 <= i < j < after.len() implies !text_before(
            #[trigger] after[j].0,
            #[trigger] after[i].0,
        ) by {
            if j < lines.len() {
                assert(after[i] == lines[i] && after[j] == lines[j]);
            } else {
                assert(after[j] == line);
                assert(after[i] == lines[i]);
                // lines[i] is not after the last line, which is not after the new one.
                if i < lines.len() - 1 {
                    assert(!text_before(lines[lines.len() - 1].0, lines[i].0));
                    lemma_bytes_order(
                        encode_utf8(lines[i].0),
                        encode_utf8(lines.last().0),
                        encode_utf8(line.0),
                    );
                }
            }
        }
    }
}

/// The fields of pretty output stand in the order of their keys.
pub proof fn lemma_sorted_is_ordered(lines: Lines)
    ensures
        ordered(sorted(lines)),
    decreases lines.len(),
{
    if lines.len() > 0 {
        lemma_sorted_is_ordered(lines.drop_last());
        lemma_inserted_ordered(sorted(lines.drop_last()), lines.last());
    }
}

} // verus!
