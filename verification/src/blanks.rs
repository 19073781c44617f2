//! What blank space gives back: the newlines and comments that stand there, in
//! order, and the place where it ends.

use crate::ast::{CommentOrNewlineView, SpacesView};
use crate::blankspace::{comment, count_until, eat_spaces, lemma_count_until, space0};
use crate::parts::{fails, gives};
use crate::problem::{BadInputError, SpaceProblem};
use crate::region::{Col, Row};
use crate::state::{MadeProgress, StateView};
use vstd::prelude::*;
use vstd::utf8::{encode_utf8, encode_utf8_decode_utf8, encode_utf8_valid_utf8, valid_utf8};

verus! {

/// So many spaces.
pub open spec fn spaces(count: nat) -> Seq<u8> {
    Seq::new(count, |i: int| 0x20u8)
}

/// Whether no byte is a newline or a tab.
pub open spec fn is_plain(bytes: Seq<u8>) -> bool {
    forall|i: int| 0 <= i < bytes.len() ==> #[trigger] bytes[i] != 0x0a && bytes[i] != 0x09
}

/// Whether bytes behind the `#` of a comment make it a doc comment.
pub open spec fn starts_doc(bytes: Seq<u8>) -> bool {
    bytes.len() > 0 && bytes[0] == 0x23 && (bytes.len() == 1 || bytes[1] == 0x20)
}

/// A comment as it is written, without the newline behind it; nothing for a newline.
pub open spec fn line_text(line: CommentOrNewlineView) -> Seq<u8> {
    match line {
        CommentOrNewlineView::Newline => Seq::empty(),
        CommentOrNewlineView::LineComment(text) => seq![0x23u8] + encode_utf8(text),
        CommentOrNewlineView::DocComment(text) => seq![0x23u8] + (seq![0x23u8, 0x20u8]
            + encode_utf8(text)),
    }
}

/// Whether a line can be written as it is.
pub open spec fn is_line(line: CommentOrNewlineView) -> bool {
    match line {
        CommentOrNewlineView::Newline => true,
        CommentOrNewlineView::LineComment(text) => is_plain(encode_utf8(text)) && !starts_doc(
            encode_utf8(text),
        ),
        CommentOrNewlineView::DocComment(text) => is_plain(encode_utf8(text)),
    }
}

/// A line of blank space: spaces, and what stands behind them.
pub struct WrittenLine {
    pub indent: nat,
    pub line: CommentOrNewlineView,
}

impl WrittenLine {
    pub open spec fn width(self) -> nat {
        self.indent + line_text(self.line).len()
    }

    pub open spec fn text(self) -> Seq<u8> {
        spaces(self.indent) + (line_text(self.line) + seq![0x0au8])
    }
}

/// Lines of blank space, one behind the other.
pub open spec fn lines_text(written: Seq<WrittenLine>) -> Seq<u8>
    decreases written.len(),
{
    if written.len() == 0 {
        Seq::empty()
    } else {
        written[0].text() + lines_text(written.skip(1))
    }
}

/// Whether each line can be written, and fits where it starts: the first at `col`,
/// the others at the start of a line.
pub open spec fn lines_fit(written: Seq<WrittenLine>, col: int) -> bool {
    &&& forall|i: int| 0 <= i < written.len() ==> is_line((#[trigger] written[i]).line)
    &&& forall|i: int| 0 < i < written.len() ==> (#[trigger] written[i]).width() <= 0xffff
    &&& written.len() > 0 ==> col + written[0].width() <= 0xffff
}

/// What the lines give.
pub open spec fn lines_of(written: Seq<WrittenLine>) -> SpacesView {
    Seq::new(written.len(), |i: int| written[i].line)
}

proof fn lemma_spaces_eaten(count: nat, tail: Seq<u8>, row: Row, col: Col, lines: SpacesView)
    requires
        col + count <= 0xffff,
    ensures
        eat_spaces(spaces(count) + tail, row, col, lines) == eat_spaces(
            tail,
            row,
            (col + count) as Col,
            lines,
        ),
    decreases count,
{
    let bytes = spaces(count) + tail;
    if count == 0 {
        assert(bytes =~= tail);
    } else {
        assert(bytes[0] == 0x20);
        assert(bytes.skip(1) =~= spaces((count - 1) as nat) + tail);
        lemma_spaces_eaten((count - 1) as nat, tail, row, (col + 1) as Col, lines);
    }
}

proof fn lemma_count_until_at(before: Seq<u8>, behind: Seq<u8>, byte: u8)
    requires
        forall|i: int| 0 <= i < before.len() ==> before[i] != byte,
    ensures
        count_until(before + behind, byte) >= before.len(),
        behind.len() == 0 || behind[0] == byte ==> count_until(before + behind, byte)
            == before.len(),
    decreases before.len(),
{
    let bytes = before + behind;
    if before.len() == 0 {
        assert(bytes =~= behind);
    } else {
        assert(bytes[0] == before[0]);
        assert(bytes.skip(1) =~= before.skip(1) + behind);
        lemma_count_until_at(before.skip(1), behind, byte);
    }
}

/// What the bytes behind the `#` of a comment say.
proof fn lemma_comment_text(line: CommentOrNewlineView)
    requires
        line !is Newline,
        is_line(line),
    ensures
        line_text(line).len() > 0,
        line_text(line)[0] == 0x23,
        is_plain(line_text(line)),
        comment(line_text(line).skip(1)) == Some(line),
{
    let bytes = line_text(line);
    match line {
        CommentOrNewlineView::Newline => {},
        CommentOrNewlineView::LineComment(text) => {
            let body = encode_utf8(text);
            assert(bytes.skip(1) =~= body);
            encode_utf8_valid_utf8(text);
            encode_utf8_decode_utf8(text);
            assert forall|i: int| 0 <= i < bytes.len() implies #[trigger] bytes[i] != 0x0a
                && bytes[i] != 0x09 by {
                if i > 0 {
                    assert(bytes[i] == body[i - 1]);
                }
            }
        },
        CommentOrNewlineView::DocComment(text) => {
            let body = encode_utf8(text);
            assert(bytes.skip(1) =~= seq![0x23u8, 0x20u8] + body);
            assert(bytes.skip(1).skip(2) =~= body);
            encode_utf8_valid_utf8(text);
            encode_utf8_decode_utf8(text);
            assert forall|i: int| 0 <= i < bytes.len() implies #[trigger] bytes[i] != 0x0a
                && bytes[i] != 0x09 by {
                if i > 2 {
                    assert(bytes[i] == body[i - 3]);
                }
            }
        },
    }
}

proof fn lemma_line_eaten(w: WrittenLine, tail: Seq<u8>, row: Row, col: Col, lines: SpacesView)
    requires
        is_line(w.line),
        col + w.width() <= 0xffff,
        row < 0xffff_ffff,
    ensures
        eat_spaces(w.text() + tail, row, col, lines) == eat_spaces(
            tail,
            (row + 1) as Row,
            0,
            lines.push(w.line),
        ),
{
    let body = line_text(w.line);
    let bytes = body + (seq![0x0au8] + tail);
    assert(w.text() + tail =~= spaces(w.indent) + bytes);
    lemma_spaces_eaten(w.indent, bytes, row, col, lines);
    if w.line is Newline {
        assert(bytes[0] == 0x0a);
        assert(bytes.skip(1) =~= tail);
    } else {
        lemma_comment_text(w.line);
        assert(bytes[0] == body[0]);
        lemma_count_until_at(body, seq![0x0au8] + tail, 0x0a);
        lemma_count_until_at(body, seq![0x0au8] + tail, 0x09);
        assert(bytes.subrange(1, body.len() as int) =~= body.skip(1));
        assert(bytes.skip(body.len() as int + 1) =~= tail);
    }
}

proof fn lemma_lines_eaten(
    written: Seq<WrittenLine>,
    tail: Seq<u8>,
    row: Row,
    col: Col,
    lines: SpacesView,
)
    requires
        lines_fit(written, col as int),
        row + written.len() <= 0xffff_ffff,
    ensures
        eat_spaces(lines_text(written) + tail, row, col, lines) == eat_spaces(
            tail,
            (row + written.len()) as Row,
            if written.len() == 0 {
                col
            } else {
                0
            },
            lines + lines_of(written),
        ),
    decreases written.len(),
{
    if written.len() == 0 {
        assert(lines_text(written) + tail =~= tail);
        assert(lines + lines_of(written) =~= lines);
    } else {
        let rest = written.skip(1);
        let behind = lines_text(rest) + tail;
        assert(lines_text(written) + tail =~= written[0].text() + behind);
        lemma_line_eaten(written[0], behind, row, col, lines);
        assert(lines_fit(rest, 0)) by {
            assert forall|i: int| 0 <= i < rest.len() implies is_line((#[trigger] rest[i]).line)
                && rest[i].width() <= 0xffff by {
                assert(rest[i] == written[i + 1]);
            }
        }
        lemma_lines_eaten(rest, tail, (row + 1) as Row, 0, lines.push(written[0].line));
        assert(lines.push(written[0].line) + lines_of(rest) =~= lines + lines_of(written));
    }
}

/// Whether bytes start with none of a space, a newline, a carriage return, a tab and
/// a comment.
pub open spec fn not_blank(bytes: Seq<u8>) -> bool {
    bytes.len() > 0 ==> bytes[0] != 0x20 && bytes[0] != 0x0a && bytes[0] != 0x0d && bytes[0] != 0x09
        && bytes[0] != 0x23
}

/// Blank space that stays in its line takes the spaces, and holds no lines.
pub proof fn law_spaces_written(min_indent: Col, count: nat, rest: Seq<u8>, s: StateView)
    requires
        s.bytes == spaces(count) + rest,
        not_blank(rest),
        s.column + count <= 0xffff,
    ensures
        space0(min_indent)(s) matches Ok((progress, lines, end)) && {
            &&& progress == MadeProgress <==> count > 0
            &&& lines.len() == 0
            &&& end.bytes == rest
            &&& end.line == s.line
            &&& end.column == s.column + count
            &&& end.indent_col == s.indent_col
        },
{
    lemma_spaces_eaten(count, rest, s.line, s.column, Seq::empty());
    if count == 0 {
        assert(s.bytes =~= rest);
    }
}

/// Blank space over several lines gives the newlines and comments that stand there,
/// all of them and in order, and ends at the spaces that its last line starts with.
/// Where these are too few, that is a problem of the place where it starts.
pub proof fn law_blank_written(
    min_indent: Col,
    written: Seq<WrittenLine>,
    indent: nat,
    rest: Seq<u8>,
    s: StateView,
)
    requires
        written.len() > 0,
        lines_fit(written, s.column as int),
        indent <= 0xffff,
        s.line + written.len() <= 0xffff_ffff,
        s.bytes == lines_text(written) + (spaces(indent) + rest),
        not_blank(rest),
    ensures
        indent >= min_indent ==> gives(
            space0(min_indent)(s),
            MadeProgress,
            lines_of(written),
            (StateView {
                bytes: rest,
                line: (s.line + written.len()) as Row,
                column: indent as Col,
                indent_col: indent as Col,
            }),
        ),
        indent < min_indent ==> fails(
            space0(min_indent)(s),
            MadeProgress,
            SpaceProblem::Indent(s.line, s.column),
            s,
        ),
{
    let row = (s.line + written.len()) as Row;
    lemma_lines_eaten(written, spaces(indent) + rest, s.line, s.column, Seq::empty());
    let lines = Seq::<CommentOrNewlineView>::empty() + lines_of(written);
    assert(lines =~= lines_of(written));
    lemma_spaces_eaten(indent, rest, row, 0, lines);
    assert(lines_text(written).len() >= written[0].text().len());
    assert(written[0].text().len() > 0);
}

/// A comment may end with the input.
pub proof fn law_last_comment(
    min_indent: Col,
    indent: nat,
    line: CommentOrNewlineView,
    s: StateView,
)
    requires
        line !is Newline,
        is_line(line),
        s.bytes == spaces(indent) + line_text(line),
        s.column + s.bytes.len() <= 0xffff,
    ensures
        gives(
            space0(min_indent)(s),
            MadeProgress,
            seq![line],
            (StateView {
                bytes: Seq::empty(),
                line: s.line,
                column: (s.column + s.bytes.len()) as Col,
                indent_col: s.indent_col,
            }),
        ),
{
    let body = line_text(line);
    lemma_spaces_eaten(indent, body, s.line, s.column, Seq::empty());
    lemma_comment_text(line);
    assert(body + Seq::<u8>::empty() =~= body);
    lemma_count_until_at(body, Seq::empty(), 0x0a);
    lemma_count_until_at(body, Seq::empty(), 0x09);
    assert(body.subrange(1, body.len() as int) =~= body.skip(1));
    assert(body.skip(body.len() as int) =~= Seq::<u8>::empty());
    assert(Seq::<CommentOrNewlineView>::empty().push(line) =~= seq![line]);
}

/// A second `#` alone is an empty doc comment.
pub proof fn law_empty_doc_comment(min_indent: Col, s: StateView)
    requires
        s.bytes == seq![0x23u8, 0x23u8],
        s.column + 2 <= 0xffff,
    ensures
        space0(min_indent)(s) matches Ok((MadeProgress, lines, end)) && lines.len() == 1
            && lines[0] == CommentOrNewlineView::DocComment(Seq::empty()) && end.bytes.len() == 0,
{
    let bytes = s.bytes;
    assert(bytes + Seq::<u8>::empty() =~= bytes);
    lemma_count_until_at(bytes, Seq::empty(), 0x0a);
    lemma_count_until_at(bytes, Seq::empty(), 0x09);
    assert(bytes.subrange(1, 2).skip(1) =~= encode_utf8(Seq::<char>::empty()));
    encode_utf8_valid_utf8(Seq::<char>::empty());
    encode_utf8_decode_utf8(Seq::<char>::empty());
}

/// A tab is not blank space, neither by itself nor in a comment. It is the place of
/// the tab that is wrong.
pub proof fn law_tab_refused(
    min_indent: Col,
    written: Seq<WrittenLine>,
    indent: nat,
    before: Seq<u8>,
    rest: Seq<u8>,
    s: StateView,
)
    requires
        lines_fit(written, s.column as int),
        s.line + written.len() <= 0xffff_ffff,
        before.len() > 0 ==> before[0] == 0x23,
        is_plain(before),
        s.bytes == lines_text(written) + (spaces(indent) + (before + (seq![0x09u8] + rest))),
        s.column + indent + before.len() + 1 + rest.len() <= 0xffff,
    ensures
        ({
            let start = if written.len() == 0 {
                s.column as int
            } else {
                0
            };
            fails(
                space0(min_indent)(s),
                MadeProgress,
                SpaceProblem::Space(
                    BadInputError::HasTab,
                    (s.line + written.len()) as Row,
                    (start + indent + before.len()) as Col,
                ),
                s,
            )
        }),
{
    let row = (s.line + written.len()) as Row;
    let start = if written.len() == 0 {
        s.column
    } else {
        0
    };
    let bytes = before + (seq![0x09u8] + rest);
    lemma_lines_eaten(written, spaces(indent) + bytes, s.line, s.column, Seq::empty());
    let lines = Seq::<CommentOrNewlineView>::empty() + lines_of(written);
    lemma_spaces_eaten(indent, bytes, row, start, lines);
    if before.len() == 0 {
        assert(bytes[0] == 0x09);
    } else {
        assert(bytes[0] == 0x23);
        lemma_count_until_at(before, seq![0x09u8] + rest, 0x09);
        let longer = before + seq![0x09u8];
        assert(bytes =~= longer + rest);
        lemma_count_until_at(longer, rest, 0x0a);
        lemma_count_until(bytes, 0x0a);
    }
}

/// A comment that is no text is refused, at the place where it starts.
pub proof fn law_comment_not_text(
    min_indent: Col,
    written: Seq<WrittenLine>,
    indent: nat,
    body: Seq<u8>,
    rest: Seq<u8>,
    s: StateView,
)
    requires
        lines_fit(written, s.column as int),
        s.line + written.len() <= 0xffff_ffff,
        is_plain(body),
        !starts_doc(body),
        !valid_utf8(body),
        s.bytes == lines_text(written) + (spaces(indent) + (seq![0x23u8] + (body + (seq![0x0au8]
            + rest)))),
        s.column + indent + 1 + body.len() <= 0xffff,
    ensures
        ({
            let start = if written.len() == 0 {
                s.column as int
            } else {
                0
            };
            fails(
                space0(min_indent)(s),
                MadeProgress,
                SpaceProblem::Space(
                    BadInputError::BadUtf8,
                    (s.line + written.len()) as Row,
                    (start + indent) as Col,
                ),
                s,
            )
        }),
{
    let row = (s.line + written.len()) as Row;
    let start = if written.len() == 0 {
        s.column
    } else {
        0
    };
    let line = seq![0x23u8] + body;
    let bytes = line + (seq![0x0au8] + rest);
    assert(bytes =~= seq![0x23u8] + (body + (seq![0x0au8] + rest)));
    lemma_lines_eaten(written, spaces(indent) + bytes, s.line, s.column, Seq::empty());
    let lines = Seq::<CommentOrNewlineView>::empty() + lines_of(written);
    lemma_spaces_eaten(indent, bytes, row, start, lines);
    assert forall|i: int| 0 <= i < line.len() implies line[i] != 0x0a && line[i] != 0x09 by {
        if i > 0 {
            assert(line[i] == body[i - 1]);
        }
    }
    lemma_count_until_at(line, seq![0x0au8] + rest, 0x0a);
    lemma_count_until_at(line, seq![0x0au8] + rest, 0x09);
    assert(bytes[0] == 0x23);
    assert(bytes.subrange(1, line.len() as int) =~= body);
}

/// A carriage return takes no column, and gives no line.
pub proof fn law_carriage_return(rest: Seq<u8>, row: Row, col: Col, lines: SpacesView)
    ensures
        eat_spaces(seq![0x0du8] + rest, row, col, lines) == eat_spaces(rest, row, col, lines),
{
    assert((seq![0x0du8] + rest).skip(1) =~= rest);
}

/// Spaces that go over the last column that can be counted are refused there.
pub proof fn law_line_too_long(min_indent: Col, count: nat, rest: Seq<u8>, s: StateView)
    requires
        s.bytes == spaces(count) + rest,
        s.column + count > 0xffff,
    ensures
        fails(
            space0(min_indent)(s),
            MadeProgress,
            SpaceProblem::Space(BadInputError::LineTooLong, s.line, 0xffff),
            s,
        ),
{
    let fit = (0xffff - s.column) as nat;
    let tail = spaces((count - fit) as nat) + rest;
    assert(s.bytes =~= spaces(fit) + tail);
    lemma_spaces_eaten(fit, tail, s.line, s.column, Seq::empty());
    assert(tail[0] == 0x20);
}

/// A newline behind the last line that can be counted is refused.
pub proof fn law_too_many_lines(min_indent: Col, indent: nat, rest: Seq<u8>, s: StateView)
    requires
        s.line == 0xffff_ffff,
        s.bytes == spaces(indent) + (seq![0x0au8] + rest),
        s.column + indent <= 0xffff,
    ensures
        fails(
            space0(min_indent)(s),
            MadeProgress,
            SpaceProblem::Space(
                BadInputError::TooManyLines,
                s.line,
                (s.column + indent) as Col,
            ),
            s,
        ),
{
    let tail = seq![0x0au8] + rest;
    lemma_spaces_eaten(indent, tail, s.line, s.column, Seq::empty());
    assert(tail[0] == 0x0a);
}

/// A comment that goes over the last column that can be counted is refused, at the
/// place where it starts.
pub proof fn law_comment_too_long(
    min_indent: Col,
    indent: nat,
    line: CommentOrNewlineView,
    rest: Seq<u8>,
    s: StateView,
)
    requires
        line !is Newline,
        is_line(line),
        s.bytes == spaces(indent) + (line_text(line) + rest),
        s.column + indent <= 0xffff,
        s.column + indent + line_text(line).len() > 0xffff,
    ensures
        fails(
            space0(min_indent)(s),
            MadeProgress,
            SpaceProblem::Space(BadInputError::LineTooLong, s.line, (s.column + indent) as Col),
            s,
        ),
{
    let body = line_text(line);
    lemma_comment_text(line);
    lemma_spaces_eaten(indent, body + rest, s.line, s.column, Seq::empty());
    lemma_count_until_at(body, rest, 0x0a);
    assert((body + rest)[0] == 0x23);
}

} // verus!
