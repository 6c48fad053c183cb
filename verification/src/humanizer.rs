//! Translation of byte offsets in a source text to lines and columns.

use crate::text::{position_string, position_text};
use vstd::prelude::*;
use vstd::string::StringSliceAdditionalSpecFns;
use vstd::utf8::{encode_utf8, is_char_boundary};

verus! {

/// A position in a text. Lines and columns count from zero.
#[derive(Clone, Copy, Default, Eq, Ord, PartialEq, PartialOrd, Structural)]
pub struct SourceLocation {
    pub line: u32,
    pub column: u32,
}

impl SourceLocation {
    /// The location as a reader sees it, with line and column counted from
    /// one.
    pub fn to_text(&self) -> (text: String)
        ensures
            text@ == position_text(self.line as nat, self.column as nat),
    {
        position_string(self.line as u64, self.column as u64)
    }
}

/// The accumulated line starts of a text: see `line_starts`.
pub struct Humanizer {
    line_starts: Vec<usize>,
}

/// Position of the first line feed in `bytes`, or the length of `bytes` if
/// there is none.
pub open spec fn first_line_end(bytes: Seq<u8>) -> nat
    decreases bytes.len(),
{
    if bytes.len() == 0 || bytes[0] == 10 {
        0
    } else {
        1 + first_line_end(bytes.drop_first())
    }
}

/// Length of the first line of `bytes` without its line ending, which is a
/// line feed or a carriage return followed by a line feed.
pub open spec fn first_line_len(bytes: Seq<u8>) -> int {
    let end = first_line_end(bytes) as int;
    if 0 < end < bytes.len() && bytes[end - 1] == 13 {
        end - 1
    } else {
        end
    }
}

/// What follows the first line of `bytes` and its line feed.
pub open spec fn after_first_line(bytes: Seq<u8>) -> Seq<u8> {
    let end = first_line_end(bytes) as int;
    if end < bytes.len() {
        bytes.skip(end + 1)
    } else {
        Seq::empty()
    }
}

/// `start`, followed for each line of `bytes` by the sum of `start` and
/// the lengths, each plus one, of the lines up to and including that line.
pub open spec fn line_starts_from(bytes: Seq<u8>, start: int) -> Seq<int>
    decreases bytes.len(),
{
    if bytes.len() == 0 {
        seq![start]
    } else {
        seq![start] + line_starts_from(
            after_first_line(bytes),
            start + first_line_len(bytes) + 1,
        )
    }
}

/// The line starts of a text: zero, and after each line the previous
/// entry plus the length of the line plus one. Where every line ends in a
/// single line feed these are the offsets at which the lines begin.
pub open spec fn line_starts(bytes: Seq<u8>) -> Seq<int> {
    line_starts_from(bytes, 0)
}

/// Whether `line` is the last entry of `starts` that is at most `loc`.
pub open spec fn is_line_of(starts: Seq<usize>, loc: usize, line: int) -> bool {
    &&& 0 <= line < starts.len()
    &&& starts[line] <= loc
    &&& line + 1 < starts.len() ==> loc < starts[line + 1]
}

pub open spec fn increasing(starts: Seq<usize>) -> bool {
    forall|i: int, j: int| 0 <= i < j < starts.len() ==> starts[i] < starts[j]
}

pub open spec fn as_ints(starts: Seq<usize>) -> Seq<int> {
    Seq::new(starts.len(), |i: int| starts[i] as int)
}

proof fn lemma_first_line_end(bytes: Seq<u8>)
    ensures
        0 <= first_line_end(bytes) <= bytes.len(),
        first_line_end(bytes) < bytes.len() ==> bytes[first_line_end(bytes) as int] == 10,
        forall|i: int| 0 <= i < first_line_end(bytes) ==> bytes[i] != 10,
    decreases bytes.len(),
{
    if !(bytes.len() == 0 || bytes[0] == 10) {
        let rest = bytes.drop_first();
        lemma_first_line_end(rest);
        assert forall|i: int| 0 <= i < first_line_end(bytes) implies bytes[i] != 10 by {
            if i > 0 {
                assert(rest[i - 1] == bytes[i]);
            }
        }
        if first_line_end(bytes) < bytes.len() {
            assert(rest[first_line_end(rest) as int] == bytes[first_line_end(bytes) as int]);
        }
    }
}

/// The first position `end` without an earlier line feed that holds a line
/// feed or ends the text is the end of the first line.
proof fn lemma_first_line_end_is(bytes: Seq<u8>, end: int)
    requires
        0 <= end <= bytes.len(),
        forall|i: int| 0 <= i < end ==> bytes[i] != 10,
        end < bytes.len() ==> bytes[end] == 10,
    ensures
        first_line_end(bytes) == end,
{
    lemma_first_line_end(bytes);
    let found = first_line_end(bytes) as int;
    if found < end {
        assert(bytes[found] == 10);
    } else if found > end {
        assert(bytes[end] != 10);
    }
}

/// Computes `line_starts`.
pub fn line_starts_of(input: &str) -> (starts: Vec<usize>)
    requires
        input.spec_bytes().len() < usize::MAX,
    ensures
        as_ints(starts@) == line_starts(input.spec_bytes()),
        starts@.len() > 0,
        starts@[0] == 0,
        increasing(starts@),
{
    let bytes = input.as_bytes();
    let ghost all = input.spec_bytes();
    let n = bytes.len();
    let mut starts: Vec<usize> = Vec::new();
    let mut index: usize = 0;
    let mut pos: usize = 0;
    assert(all.skip(0) =~= all);
    assert(as_ints(starts@) + line_starts_from(all.skip(0), 0) =~= line_starts(all));
    while pos < n
        invariant
            n == all.len(),
            bytes@ == all,
            n < usize::MAX,
            pos <= n,
            index <= pos + 1,
            pos < n ==> index <= pos,
            starts@.len() == 0 ==> index == 0,
            as_ints(starts@) + line_starts_from(all.skip(pos as int), index as int) == line_starts(
                all,
            ),
            increasing(starts@),
            forall|i: int| 0 <= i < starts@.len() ==> starts@[i] < index,
            starts@.len() > 0 ==> starts@[0] == 0,
        decreases n - pos,
    {
        let ghost rest = all.skip(pos as int);
        let mut end: usize = pos;
        while end < n && bytes[end] != 10
            invariant
                pos <= end <= n,
                bytes@ == all,
                n == all.len(),
                forall|i: int| pos <= i < end ==> all[i] != 10,
            decreases n - end,
        {
            end += 1;
        }
        proof {
            assert forall|i: int| 0 <= i < end - pos implies rest[i] != 10 by {
                assert(rest[i] == all[pos + i]);
            }
            if end < n {
                assert(rest[end - pos] == all[end as int]);
            }
            lemma_first_line_end_is(rest, end - pos);
        }
        let mut content: usize = end - pos;
        proof {
            if 0 < end - pos {
                assert(rest[end - pos - 1] == all[end - 1]);
            }
        }
        if end < n && content > 0 && bytes[end - 1] == 13 {
            content -= 1;
        }
        assert(content == first_line_len(rest));
        let ghost before = starts@;
        starts.push(index);
        let next_pos = if end < n {
            end + 1
        } else {
            n
        };
        proof {
            assert(after_first_line(rest) =~= all.skip(next_pos as int));
            assert(as_ints(starts@) =~= as_ints(before) + seq![index as int]);
            assert(as_ints(before) + (seq![index as int] + line_starts_from(
                all.skip(next_pos as int),
                index + content + 1,
            )) =~= as_ints(starts@) + line_starts_from(
                all.skip(next_pos as int),
                index + content + 1,
            ));
        }
        index = index + content + 1;
        pos = next_pos;
    }
    assert(all.skip(n as int) =~= Seq::<u8>::empty());
    let ghost done = starts@;
    starts.push(index);
    assert(as_ints(starts@) =~= as_ints(done) + seq![index as int]);
    starts
}

/// The last position of `starts` whose entry is at most `loc`.
pub fn line_of(starts: &Vec<usize>, loc: usize) -> (line: usize)
    requires
        starts@.len() > 0,
        starts@[0] == 0,
        increasing(starts@),
    ensures
        is_line_of(starts@, loc, line as int),
{
    let mut low: usize = 0;
    let mut high: usize = starts.len();
    while high - low > 1
        invariant
            low < high <= starts.len(),
            starts@[low as int] <= loc,
            high < starts.len() ==> loc < starts@[high as int],
            increasing(starts@),
        decreases high - low,
    {
        let mid = low + (high - low) / 2;
        if starts[mid] <= loc {
            low = mid;
        } else {
            high = mid;
        }
    }
    low
}

impl Humanizer {
    /// The line starts of the text.
    pub closed spec fn view(&self) -> Seq<usize> {
        self.line_starts@
    }

    #[verifier::type_invariant]
    spec fn well_formed(&self) -> bool {
        &&& self.line_starts@.len() > 0
        &&& self.line_starts@[0] == 0
        &&& increasing(self.line_starts@)
    }

    /// Records the line starts of `input`.
    pub fn new(input: &str) -> (humanizer: Self)
        requires
            input.spec_bytes().len() < usize::MAX,
        ensures
            as_ints(humanizer@) == line_starts(input.spec_bytes()),
    {
        Self { line_starts: line_starts_of(input) }
    }

    /// The recorded line starts.
    pub fn line_starts(&self) -> (starts: &Vec<usize>)
        ensures
            starts@ == self@,
    {
        &self.line_starts
    }

    /// The line that the offset `loc` lies on and its distance from the
    /// start of that line, both cut to 32 bits.
    pub fn run(&self, loc: usize) -> (location: SourceLocation)
        ensures
            exists|line: int|
                is_line_of(self@, loc, line) && location.line == line as u32 && location.column
                    == (loc - self@[line]) as u32,
    {
        proof {
            use_type_invariant(self);
        }
        let line = line_of(&self.line_starts, loc);
        let column = loc - self.line_starts[line];
        assert(is_line_of(self@, loc, line as int));
        SourceLocation {
            line: #[verifier::truncate]
            (line as u32),
            column: #[verifier::truncate]
            (column as u32),
        }
    }
}

/// Where the capture group number `group` of the regular expression
/// `pattern` lies in the leftmost match of `pattern` in `text`, as byte
/// offsets of its start and end; `None` where `pattern` is no regular
/// expression, does not match, or the group takes no part in the match.
pub uninterp spec fn capture_range(pattern: Seq<char>, text: Seq<char>, group: int) -> Option<
    (int, int),
>;

/// Whether `start..end` is a range of whole characters of the text whose
/// encoding is `bytes`.
pub open spec fn is_char_range(bytes: Seq<u8>, start: int, end: int) -> bool {
    &&& 0 <= start <= end <= bytes.len()
    &&& is_char_boundary(bytes, start)
    &&& is_char_boundary(bytes, end)
}

/// `bytes` with the range `start..end` replaced by `with`.
pub open spec fn splice(bytes: Seq<u8>, start: int, end: int, with: Seq<u8>) -> Seq<u8> {
    bytes.subrange(0, start) + with + bytes.subrange(end, bytes.len() as int)
}

/// `Regex::new`, `Regex::captures` and `Captures::get` of the regex crate:
/// compiles `pattern`, searches `text` for its leftmost match and gives the
/// byte offsets of the capture group `group`. The crate documents that the
/// offsets of a match are ordered, lie in the text and fall on character
/// boundaries. A pattern that does not compile gives `None`.
#[verifier::external_body]
fn find_capture(pattern: &str, text: &str, group: usize) -> (found: Option<(usize, usize)>)
    ensures
        match found {
            Some((start, end)) => {
                &&& capture_range(pattern@, text@, group as int) == Some((start as int, end as int))
                &&& is_char_range(text.spec_bytes(), start as int, end as int)
            },
            None => capture_range(pattern@, text@, group as int) is None,
        },
{
    let regex = match regex::Regex::new(pattern) {
        Ok(regex) => regex,
        Err(_) => return None,
    };
    match regex.captures(text) {
        Some(captures) => captures.get(group).map(|m| (m.start(), m.end())),
        None => None,
    }
}

/// `String::replace_range`: removes the bytes `start..end` of `text` and
/// puts `with` in their place.
#[verifier::external_body]
fn replace_range(text: &mut String, start: usize, end: usize, with: &str)
    requires
        is_char_range(encode_utf8(old(text)@), start as int, end as int),
    ensures
        encode_utf8(final(text)@) == splice(
            encode_utf8(old(text)@),
            start as int,
            end as int,
            with.spec_bytes(),
        ),
{
    text.replace_range(start..end, with);
}

/// The pattern of a source span in a message: two positions, each a line
/// and a column, with a colon between them that is the first capture group.
pub open spec fn span_pattern() -> Seq<char> {
    r"\d+:\d+(:)\d+:\d+"@
}

/// `msg` with a hyphen in place of `separator`, or `msg` as it is where
/// there is no separator.
pub open spec fn with_hyphen(msg: Seq<u8>, separator: Option<(int, int)>) -> Seq<u8> {
    match separator {
        Some((start, end)) => splice(msg, start, end, "-".spec_bytes()),
        None => msg,
    }
}

pub open spec fn range_view(range: Option<(usize, usize)>) -> Option<(int, int)> {
    match range {
        Some((start, end)) => Some((start as int, end as int)),
        None => None,
    }
}

/// Puts a hyphen in place of the bytes `separator` of `msg`.
pub fn replace_separator(msg: &mut String, separator: Option<(usize, usize)>)
    requires
        separator matches Some((start, end)) ==> is_char_range(
            encode_utf8(old(msg)@),
            start as int,
            end as int,
        ),
    ensures
        encode_utf8(final(msg)@) == with_hyphen(encode_utf8(old(msg)@), range_view(separator)),
{
    match separator {
        Some((start, end)) => {
            replace_range(msg, start, end, "-");
        },
        None => {},
    }
}

/// Rewrites the first source span `l:c:l:c` in `msg` to `l:c-l:c`.
pub fn sanitize_source_span(msg: &mut String)
    ensures
        encode_utf8(final(msg)@) == with_hyphen(
            encode_utf8(old(msg)@),
            capture_range(span_pattern(), old(msg)@, 1),
        ),
{
    let separator = find_capture(r"\d+:\d+(:)\d+:\d+", msg.as_str(), 1);
    replace_separator(msg, separator);
}

} // verus!
