//! Body lines of a commit message.

use vstd::prelude::*;
use vstd::std_specs::iter::IteratorSpec;
use vstd::string::StrSliceExecFns;

verus! {

/// The characters of `text`, in order.
pub fn collect_chars(text: &str) -> (chars: Vec<char>)
    ensures
        chars@ == text@,
{
    let mut chars: Vec<char> = Vec::new();
    for c in it: text.chars()
        invariant
            it.seq() == text@,
            chars@ == text@.take(it.index() as int),
    {
        chars.push(c);
    }
    chars
}

/// Whether `c` is white space: one of the code points that carry the
/// Unicode property of that name.
pub open spec fn is_space(c: char) -> bool {
    let code = c as u32;
    ||| 0x09 <= code <= 0x0D
    ||| code == 0x20
    ||| code == 0x85
    ||| code == 0xA0
    ||| code == 0x1680
    ||| 0x2000 <= code <= 0x200A
    ||| code == 0x2028
    ||| code == 0x2029
    ||| code == 0x202F
    ||| code == 0x205F
    ||| code == 0x3000
}

/// A line is blank when it holds nothing but white space.
pub open spec fn is_blank(line: Seq<char>) -> bool {
    forall|i: int| 0 <= i < line.len() ==> is_space(#[trigger] line[i])
}

/// Number of characters from index `from` up to the next line feed, or to
/// the end of `text` where there is none.
pub open spec fn line_len(text: Seq<char>, from: int) -> nat
    decreases text.len() - from,
{
    if from < 0 || from >= text.len() || text[from] == '\n' {
        0
    } else {
        1 + line_len(text, from + 1)
    }
}

/// Index of the first line feed at or after `from`, or the length of `text`
/// where there is none.
pub open spec fn line_end(text: Seq<char>, from: int) -> int {
    from + line_len(text, from)
}

/// A line without the carriage return that stood before its line feed.
pub open spec fn strip_return(line: Seq<char>) -> Seq<char> {
    if line.len() > 0 && line.last() == '\r' {
        line.drop_last()
    } else {
        line
    }
}

/// The lines of `text` from index `from` on. A line ends at a line feed, or
/// at a carriage return directly followed by one; neither belongs to the
/// line. The last line needs no line feed, and a line feed at the very end
/// opens no further line.
pub open spec fn lines_from(text: Seq<char>, from: int) -> Seq<Seq<char>>
    decreases text.len() - from,
{
    if from < 0 || from >= text.len() {
        Seq::empty()
    } else {
        let end = line_end(text, from);
        if end >= text.len() {
            seq![text.subrange(from, text.len() as int)]
        } else {
            seq![strip_return(text.subrange(from, end))] + lines_from(text, end + 1)
        }
    }
}

/// The lines of `text`.
pub open spec fn split_lines(text: Seq<char>) -> Seq<Seq<char>> {
    lines_from(text, 0)
}

/// `lines` without the blank lines it starts with.
pub open spec fn skip_blank(lines: Seq<Seq<char>>) -> Seq<Seq<char>>
    decreases lines.len(),
{
    if lines.len() == 0 {
        lines
    } else if is_blank(lines[0]) {
        skip_blank(lines.drop_first())
    } else {
        lines
    }
}

/// The line shown for a message that has nothing after its summary.
pub open spec fn no_description() -> Seq<char> {
    "(no description)"@
}

/// The body of a message: its lines without the first, which is the
/// summary, and without the blank lines that follow it. Where nothing is
/// left, the body is the single line [`no_description`].
pub open spec fn body_of(text: Seq<char>) -> Seq<Seq<char>> {
    let lines = split_lines(text);
    let rest = if lines.len() == 0 {
        lines
    } else {
        skip_blank(lines.drop_first())
    };
    if rest.len() == 0 {
        seq![no_description()]
    } else {
        rest
    }
}

/// The body is never empty.
pub proof fn lemma_body_not_empty(text: Seq<char>)
    ensures
        body_of(text).len() >= 1,
{
}

/// Whether `c` is white space.
pub fn is_space_char(c: char) -> (space: bool)
    ensures
        space == is_space(c),
{
    let code: u32 = c as u32;
    (0x09 <= code && code <= 0x0D) || code == 0x20 || code == 0x85 || code == 0xA0 || code
        == 0x1680 || (0x2000 <= code && code <= 0x200A) || code == 0x2028 || code == 0x2029
        || code == 0x202F || code == 0x205F || code == 0x3000
}

/// Whether the characters `from..to` of `chars` are all white space.
fn blank_between(chars: &Vec<char>, from: usize, to: usize) -> (blank: bool)
    requires
        from <= to <= chars@.len(),
    ensures
        blank == is_blank(chars@.subrange(from as int, to as int)),
{
    let mut i: usize = from;
    while i < to
        invariant
            from <= i <= to <= chars@.len(),
            forall|j: int| from <= j < i ==> is_space(#[trigger] chars@[j]),
        decreases to - i,
    {
        if !is_space_char(chars[i]) {
            assert(chars@.subrange(from as int, to as int)[i - from] == chars@[i as int]);
            return false;
        }
        i = i + 1;
    }
    assert forall|k: int| 0 <= k < to - from implies is_space(
        #[trigger] chars@.subrange(from as int, to as int)[k],
    ) by {
        assert(chars@.subrange(from as int, to as int)[k] == chars@[from + k]);
    }
    true
}

/// Splits a full commit message into the body lines shown when the commit
/// is expanded, as [`body_of`] defines them.
pub fn body_lines(message: &str) -> (body: Vec<String>)
    ensures
        body.deep_view() == body_of(message@),
        1 <= body@.len() < usize::MAX,
{
    let chars = collect_chars(message);
    let n: usize = chars.len();
    let ghost text = message@;
    let ghost target = if split_lines(text).len() == 0 {
        split_lines(text)
    } else {
        skip_blank(split_lines(text).drop_first())
    };
    let mut body: Vec<String> = Vec::new();
    let mut pos: usize = 0;
    let mut first: bool = true;
    let mut skipping: bool = true;
    while pos < n
        invariant
            chars@ == text,
            text == message@,
            n == text.len(),
            pos <= n,
            first ==> skipping && pos == 0,
            skipping ==> body@.len() == 0,
            !first ==> body@.len() + 1 <= pos,
            first ==> target == if lines_from(text, pos as int).len() == 0 {
                lines_from(text, pos as int)
            } else {
                skip_blank(lines_from(text, pos as int).drop_first())
            },
            !first && skipping ==> target == skip_blank(lines_from(text, pos as int)),
            !skipping ==> target == body.deep_view() + lines_from(text, pos as int),
        decreases n - pos,
    {
        let mut end: usize = pos;
        while end < n && chars[end] != '\n'
            invariant
                chars@ == text,
                n == text.len(),
                pos <= end <= n,
                line_end(text, pos as int) == line_end(text, end as int),
            decreases n - end,
        {
            end = end + 1;
        }
        let content_end: usize = if end < n && end > pos && chars[end - 1] == '\r' {
            end - 1
        } else {
            end
        };
        let next: usize = if end < n {
            end + 1
        } else {
            end
        };
        let ghost line = text.subrange(pos as int, content_end as int);
        let ghost rest = lines_from(text, next as int);
        proof {
            assert(line_end(text, pos as int) == end);
            if end < n {
                let raw = text.subrange(pos as int, end as int);
                if raw.len() > 0 && raw.last() == '\r' {
                    assert(raw.drop_last() =~= line);
                } else {
                    assert(raw =~= line);
                }
            }
            assert(lines_from(text, pos as int) == seq![line] + rest);
            assert((seq![line] + rest).drop_first() =~= rest);
            assert((seq![line] + rest)[0] == line);
        }
        if first {
            first = false;
        } else {
            if skipping && blank_between(&chars, pos, content_end) {
            } else {
                let piece: String = message.substring_char(pos, content_end).to_owned();
                proof {
                    if skipping {
                        assert(target == seq![line] + rest);
                        assert(body.deep_view() =~= Seq::<Seq<char>>::empty());
                    }
                    assert(body.deep_view().push(line) + rest =~= body.deep_view() + (seq![line]
                        + rest));
                }
                let ghost before = body.deep_view();
                body.push(piece);
                assert(body.deep_view() =~= before.push(line));
                skipping = false;
            }
        }
        pos = next;
    }
    if body.len() == 0 {
        proof {
            assert(lines_from(text, pos as int) =~= Seq::<Seq<char>>::empty());
            assert(target.len() == 0);
        }
        let sentinel: String = "(no description)".to_owned();
        body.push(sentinel);
        assert(body.deep_view() =~= seq![no_description()]);
    } else {
        proof {
            assert(lines_from(text, pos as int) =~= Seq::<Seq<char>>::empty());
            assert(body.deep_view() + Seq::<Seq<char>>::empty() =~= body.deep_view());
        }
    }
    body
}

} // verus!
