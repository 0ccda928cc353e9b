//! Line breaking for printed values.
//!
//! Text arrives in groups. A group that fits on the rest of the line is printed
//! flat; in any other the lines that belong to it are broken. Tokens wait until
//! it is certain which of the two holds. Groups that are indented beyond the
//! width of a line are always flat.
use std::collections::VecDeque;

use unicode_width::UnicodeWidthStr;
use vstd::prelude::*;
use vstd::string::*;

use super::printer::PrintError;
use crate::exec::output::{emit, flush, OutputSink, OutputView, WriteResult};

verus! {

pub const PRINT_WIDTH: usize = 100;

pub const INDENT_WIDTH: usize = 2;

const SPACE_CHUNK_LENGTH: usize = 64;

/// The number of columns that a text takes up on a terminal.
pub uninterp spec fn terminal_width(text: Seq<char>) -> usize;

/// `unicode_width::UnicodeWidthStr::width`: the number of columns of a text. It
/// is determined by the text alone; how is left unsaid.
#[verifier::external_body]
fn display_width(text: &str) -> (width: usize)
    ensures
        width == terminal_width(text@),
{
    UnicodeWidthStr::width(text)
}

#[derive(Clone, Copy, Debug, PartialEq, Eq, Structural)]
pub enum GroupKind {
    Breakable,
    ForcedFlat,
}

#[derive(Clone, Copy, Debug, PartialEq, Eq, Structural)]
pub enum GroupMode {
    Flat,
    Broken,
}

#[derive(Clone, Copy, Debug, PartialEq, Eq, Structural)]
pub enum Fit {
    Yes,
    No,
    Unknown,
}

enum Token {
    Begin(GroupKind),
    End,
    Text(String),
    Line { flat: &'static str, indent: usize },
}

/// A piece of the layout that has not been printed yet.
#[verifier::ext_equal]
pub enum TokenView {
    Begin(GroupKind),
    End,
    Text(Seq<char>),
    Line { flat: Seq<char>, indent: int },
}

pub struct Layout {
    pending: VecDeque<Token>,
    breakable_groups: Vec<GroupMode>,
    forced_flat_depth: usize,
    column: usize,
}

#[verifier::ext_equal]
pub struct LayoutView {
    pub pending: Seq<TokenView>,
    /// The open groups outside all forced flat ones.
    pub groups: Seq<GroupMode>,
    pub forced_flat_depth: int,
    pub column: int,
}

/// What an operation does: the layout after it, the text it writes, and the answer.
#[verifier::ext_equal]
pub struct LaidOut {
    pub layout: LayoutView,
    pub text: Seq<char>,
    pub result: Result<(), PrintError>,
}

impl View for Token {
    type V = TokenView;

    closed spec fn view(&self) -> TokenView {
        match self {
            Token::Begin(kind) => TokenView::Begin(*kind),
            Token::End => TokenView::End,
            Token::Text(text) => TokenView::Text(text@),
            Token::Line { flat, indent } => TokenView::Line { flat: flat@, indent: *indent as int },
        }
    }
}

impl View for Layout {
    type V = LayoutView;

    closed spec fn view(&self) -> LayoutView {
        LayoutView {
            pending: self.pending@.map_values(|token: Token| token@),
            groups: self.breakable_groups@,
            forced_flat_depth: self.forced_flat_depth as int,
            column: self.column as int,
        }
    }
}

pub open spec fn saturated(value: int) -> int {
    if value > usize::MAX {
        usize::MAX as int
    } else {
        value
    }
}

pub open spec fn depth_indent(depth: int) -> int {
    saturated(depth * INDENT_WIDTH)
}

/// The columns left on a line.
pub open spec fn columns_left(column: int) -> int {
    if column >= PRINT_WIDTH {
        0
    } else {
        PRINT_WIDTH - column
    }
}

pub open spec fn spaces(count: int) -> Seq<char> {
    Seq::new(count as nat, |i: int| ' ')
}

/// What a token means for the width of its group: a bound of a group, or the
/// columns that it takes up if it is printed flat.
#[derive(Clone, Copy, Debug, PartialEq, Eq, Structural)]
pub enum Extent {
    Begin,
    End,
    Columns(usize),
}

pub open spec fn token_extent(token: TokenView) -> Extent {
    match token {
        TokenView::Begin(_) => Extent::Begin,
        TokenView::End => Extent::End,
        TokenView::Text(text) => Extent::Columns(terminal_width(text)),
        TokenView::Line { flat, .. } => Extent::Columns(terminal_width(flat)),
    }
}

pub open spec fn token_extents(pending: Seq<TokenView>) -> Seq<Extent> {
    pending.map_values(|token: TokenView| token_extent(token))
}

/// Whether the group at the front ends within `remaining` columns: `depth` groups
/// are open and `width` columns taken up before the extent at `index`.
pub open spec fn fit_from(
    extents: Seq<Extent>,
    index: int,
    depth: int,
    width: int,
    remaining: int,
) -> Fit
    decreases extents.len() - index,
{
    if index < 0 || index >= extents.len() {
        Fit::Unknown
    } else {
        let extent = extents[index];
        let now_open = match extent {
            Extent::Begin => depth + 1,
            Extent::End => depth - 1,
            Extent::Columns(_) => depth,
        };
        let now_wide = match extent {
            Extent::Columns(columns) => saturated(width + columns),
            _ => width,
        };
        if extent is End && now_open == 0 {
            Fit::Yes
        } else if now_wide > remaining {
            Fit::No
        } else {
            fit_from(extents, index + 1, now_open, now_wide, remaining)
        }
    }
}

/// Whether a group ends within `remaining` columns.
pub fn group_fit(extents: &Vec<Extent>, remaining: usize) -> (fit: Fit)
    requires
        extents@.len() > 0 ==> extents@[0] is Begin,
    ensures
        fit == fit_from(extents@, 0, 0, 0, remaining as int),
{
    let mut depth: usize = 0;
    let mut width: usize = 0;
    let mut index: usize = 0;
    while index < extents.len()
        invariant
            index <= extents@.len(),
            depth <= index,
            index > 0 ==> depth > 0,
            extents@.len() > 0 ==> extents@[0] is Begin,
            fit_from(extents@, 0, 0, 0, remaining as int) == fit_from(
                extents@,
                index as int,
                depth as int,
                width as int,
                remaining as int,
            ),
        decreases extents@.len() - index,
    {
        match extents[index] {
            Extent::Begin => {
                depth = depth + 1;
            },
            Extent::End => {
                depth = depth - 1;
                if depth == 0 {
                    return Fit::Yes;
                }
            },
            Extent::Columns(columns) => {
                width = saturating_sum(width, columns);
            },
        }
        if width > remaining {
            return Fit::No;
        }
        index = index + 1;
    }
    Fit::Unknown
}

pub open spec fn answer(status: WriteResult) -> Result<(), PrintError> {
    if status is Continue {
        Ok(())
    } else {
        Err(PrintError::Output(status))
    }
}

impl LaidOut {
    /// The same, with some text written before.
    pub open spec fn behind(self, text: Seq<char>) -> LaidOut {
        LaidOut { text: text + self.text, ..self }
    }
}

impl LayoutView {
    pub open spec fn empty() -> LayoutView {
        LayoutView {
            pending: Seq::empty(),
            groups: Seq::empty(),
            forced_flat_depth: 0,
            column: 0,
        }
    }

    pub open spec fn left(self, result: Result<(), PrintError>) -> LaidOut {
        LaidOut { layout: self, text: Seq::empty(), result }
    }

    pub open spec fn popped(self) -> LayoutView {
        LayoutView { pending: self.pending.skip(1), ..self }
    }

    pub open spec fn advanced(self, text: Seq<char>) -> LayoutView {
        LayoutView { column: saturated(self.column + terminal_width(text)), ..self }
    }

    /// Whether the group at the front fits on the rest of the line.
    pub open spec fn front_fits(self) -> Fit {
        fit_from(token_extents(self.pending), 0, 0, 0, columns_left(self.column))
    }

    /// How the line at the front is printed: flat, broken, or not at all.
    pub open spec fn line_mode(self) -> Option<GroupMode> {
        if self.forced_flat_depth != 0 {
            Some(GroupMode::Flat)
        } else if self.groups.len() > 0 {
            Some(self.groups.last())
        } else {
            None
        }
    }

    /// Prints waiting tokens as long as it is certain how.
    pub open spec fn drained(self, status: WriteResult) -> LaidOut
        decreases self.pending.len(),
    {
        if self.pending.len() == 0 {
            self.left(Ok(()))
        } else {
            match self.pending[0] {
                TokenView::Begin(GroupKind::Breakable) => match self.front_fits() {
                    Fit::Unknown => self.left(Ok(())),
                    Fit::Yes => LayoutView {
                        groups: self.groups.push(GroupMode::Flat),
                        ..self.popped()
                    }.drained(status),
                    Fit::No => LayoutView {
                        groups: self.groups.push(GroupMode::Broken),
                        ..self.popped()
                    }.drained(status),
                },
                TokenView::Begin(GroupKind::ForcedFlat) => if self.forced_flat_depth
                    == usize::MAX {
                    self.popped().left(Err(PrintError::LimitExceeded))
                } else {
                    LayoutView {
                        forced_flat_depth: self.forced_flat_depth + 1,
                        ..self.popped()
                    }.drained(status)
                },
                TokenView::End => if self.forced_flat_depth != 0 {
                    LayoutView {
                        forced_flat_depth: self.forced_flat_depth - 1,
                        ..self.popped()
                    }.drained(status)
                } else if self.groups.len() == 0 {
                    self.left(Err(PrintError::InvalidSequence))
                } else {
                    LayoutView { groups: self.groups.drop_last(), ..self.popped() }.drained(status)
                },
                TokenView::Text(text) => if status is Continue {
                    self.popped().advanced(text).drained(status).behind(text)
                } else {
                    self.popped().left(answer(status))
                },
                TokenView::Line { flat, indent } => match self.line_mode() {
                    None => self.popped().left(Err(PrintError::InvalidSequence)),
                    Some(mode) => if !(status is Continue) {
                        self.popped().left(answer(status))
                    } else if mode is Flat {
                        self.popped().advanced(flat).drained(status).behind(flat)
                    } else {
                        LayoutView { column: indent, ..self.popped() }.drained(status).behind(
                            "\n"@ + spaces(indent),
                        )
                    },
                },
            }
        }
    }

    /// Adds a token and prints what can be printed.
    pub open spec fn pushed(self, status: WriteResult, token: TokenView) -> LaidOut {
        if status is Continue {
            LayoutView { pending: self.pending.push(token), ..self }.drained(status)
        } else {
            self.left(answer(status))
        }
    }

    pub open spec fn begun(self, status: WriteResult, depth: int) -> LaidOut {
        self.pushed(
            status,
            TokenView::Begin(
                if depth_indent(depth) < PRINT_WIDTH {
                    GroupKind::Breakable
                } else {
                    GroupKind::ForcedFlat
                },
            ),
        )
    }

    pub open spec fn with_text(self, status: WriteResult, text: Seq<char>) -> LaidOut {
        if !(status is Continue) {
            self.left(answer(status))
        } else if text.len() == 0 {
            self.left(Ok(()))
        } else if self.pending.len() == 0 {
            self.advanced(text).left(Ok(())).behind(text)
        } else {
            self.pushed(status, TokenView::Text(text))
        }
    }

    /// Every group is closed and everything is printed.
    pub open spec fn complete(self) -> bool {
        self.pending.len() == 0 && self.groups.len() == 0 && self.forced_flat_depth == 0
    }
}

/// Tokens wait only behind a group of which it is not certain yet whether it fits.
pub proof fn law_only_undecided_groups_wait(layout: LayoutView, status: WriteResult)
    requires
        layout.drained(status).result is Ok,
        layout.drained(status).layout.pending.len() > 0,
    ensures
        layout.drained(status).layout.pending[0] == TokenView::Begin(GroupKind::Breakable),
        layout.drained(status).layout.front_fits() is Unknown,
    decreases layout.pending.len(),
{
    if layout.pending.len() > 0 {
        match layout.pending[0] {
            TokenView::Begin(GroupKind::Breakable) => match layout.front_fits() {
                Fit::Unknown => {},
                Fit::Yes => law_only_undecided_groups_wait(
                    LayoutView {
                        groups: layout.groups.push(GroupMode::Flat),
                        ..layout.popped()
                    },
                    status,
                ),
                Fit::No => law_only_undecided_groups_wait(
                    LayoutView {
                        groups: layout.groups.push(GroupMode::Broken),
                        ..layout.popped()
                    },
                    status,
                ),
            },
            TokenView::Begin(GroupKind::ForcedFlat) => law_only_undecided_groups_wait(
                LayoutView {
                    forced_flat_depth: layout.forced_flat_depth + 1,
                    ..layout.popped()
                },
                status,
            ),
            TokenView::End => if layout.forced_flat_depth != 0 {
                law_only_undecided_groups_wait(
                    LayoutView {
                        forced_flat_depth: layout.forced_flat_depth - 1,
                        ..layout.popped()
                    },
                    status,
                )
            } else {
                law_only_undecided_groups_wait(
                    LayoutView { groups: layout.groups.drop_last(), ..layout.popped() },
                    status,
                )
            },
            TokenView::Text(text) => law_only_undecided_groups_wait(
                layout.popped().advanced(text),
                status,
            ),
            TokenView::Line { flat, indent } => if layout.line_mode() == Some(GroupMode::Flat) {
                law_only_undecided_groups_wait(layout.popped().advanced(flat), status)
            } else {
                law_only_undecided_groups_wait(
                    LayoutView { column: indent, ..layout.popped() },
                    status,
                )
            },
        }
    }
}

fn write_text(sink: &mut OutputSink, text: &str) -> (result: Result<(), PrintError>)
    requires
        old(sink).well_formed(),
    ensures
        final(sink).well_formed(),
        result == answer(old(sink)@.write_status()),
        final(sink)@.extended_by(
            old(sink)@,
            if result is Ok {
                text@
            } else {
                Seq::empty()
            },
        ),
{
    match emit(sink, text) {
        WriteResult::Continue | WriteResult::Blocked => Ok(()),
        result => Err(PrintError::Output(result)),
    }
}

fn indent_for_depth(depth: usize) -> (indent: usize)
    ensures
        indent == depth_indent(depth as int),
{
    if depth > usize::MAX / INDENT_WIDTH {
        usize::MAX
    } else {
        depth * INDENT_WIDTH
    }
}

fn saturating_sum(left: usize, right: usize) -> (sum: usize)
    ensures
        sum == saturated(left + right),
{
    if right > usize::MAX - left {
        usize::MAX
    } else {
        left + right
    }
}

fn push_spaces(sink: &mut OutputSink, count: usize) -> (result: Result<(), PrintError>)
    requires
        old(sink).well_formed(),
    ensures
        final(sink).well_formed(),
        result == if count == 0 {
            Ok(())
        } else {
            answer(old(sink)@.write_status())
        },
        final(sink)@.extended_by(
            old(sink)@,
            if result is Ok {
                spaces(count as int)
            } else {
                Seq::empty()
            },
        ),
{
    let ghost before = sink@;
    let chunk = "                                                                ";
    proof {
        reveal_strlit("                                                                ");
        assert(before.extended(Seq::empty()) == before) by {
            crate::execution::output::law_nothing_is_added(before);
        }
        assert(before.extended(spaces(0)) == before) by {
            assert(spaces(0) =~= Seq::<char>::empty());
            crate::execution::output::law_nothing_is_added(before);
        }
    }
    let mut remaining: usize = count;
    while remaining != 0
        invariant
            remaining <= count,
            sink.well_formed(),
            sink@.extended_by(before, spaces(count - remaining)),
            before == old(sink)@,
            chunk@.len() == SPACE_CHUNK_LENGTH,
            chunk.is_ascii(),
            forall|i: int| 0 <= i < SPACE_CHUNK_LENGTH ==> #[trigger] chunk@[i] == ' ',
            remaining < count ==> before.write_status() is Continue,
        decreases remaining,
    {
        let part: usize = if remaining < SPACE_CHUNK_LENGTH {
            remaining
        } else {
            SPACE_CHUNK_LENGTH
        };
        let piece = chunk.substring_ascii(0, part);
        proof {
            assert(piece@ =~= spaces(part as int));
            assert(before.extended(spaces(count - remaining)).extended(piece@) == before.extended(
                spaces(count - remaining + part),
            )) by {
                assert(spaces(count - remaining) + piece@ =~= spaces(count - remaining + part));
                crate::execution::output::law_parts_join(before, spaces(count - remaining), piece@);
            }
            assert(before.extended(Seq::empty()) == before) by {
                crate::execution::output::law_nothing_is_added(before);
            }
        }
        match write_text(sink, piece) {
            Ok(_) => {},
            Err(error) => {
                assert(remaining == count);
                assert(spaces(0) =~= Seq::<char>::empty());
                return Err(error);
            },
        }
        remaining = remaining - part;
    }
    Ok(())
}

impl Layout {
    pub fn new() -> (layout: Layout)
        ensures
            layout@ == LayoutView::empty(),
    {
        let layout = Layout {
            pending: VecDeque::new(),
            breakable_groups: Vec::new(),
            forced_flat_depth: 0,
            column: 0,
        };
        assert(layout@ =~= LayoutView::empty());
        layout
    }

    /// A group begins, `depth` groups deep.
    pub fn begin_group(&mut self, sink: &mut OutputSink, depth: usize) -> (result: Result<
        (),
        PrintError,
    >)
        requires
            old(sink).well_formed(),
        ensures
            final(sink).well_formed(),
            performed(
                old(self)@.begun(old(sink)@.write_status(), depth as int),
                final(self)@,
                old(sink)@,
                final(sink)@,
                result,
            ),
    {
        let kind = if indent_for_depth(depth) < PRINT_WIDTH {
            GroupKind::Breakable
        } else {
            GroupKind::ForcedFlat
        };
        let result = self.push(sink, Token::Begin(kind));
        await_room(sink, result)
    }

    pub fn end_group(&mut self, sink: &mut OutputSink) -> (result: Result<(), PrintError>)
        requires
            old(sink).well_formed(),
        ensures
            final(sink).well_formed(),
            performed(
                old(self)@.pushed(old(sink)@.write_status(), TokenView::End),
                final(self)@,
                old(sink)@,
                final(sink)@,
                result,
            ),
    {
        let result = self.push(sink, Token::End);
        await_room(sink, result)
    }

    pub fn text(&mut self, sink: &mut OutputSink, text: &str) -> (result: Result<(), PrintError>)
        requires
            old(sink).well_formed(),
        ensures
            final(sink).well_formed(),
            performed(
                old(self)@.with_text(old(sink)@.write_status(), text@),
                final(self)@,
                old(sink)@,
                final(sink)@,
                result,
            ),
    {
        let result = self.lay_text(sink, text);
        await_room(sink, result)
    }

    fn lay_text(&mut self, sink: &mut OutputSink, text: &str) -> (result: Result<
        (),
        PrintError,
    >)
        requires
            old(sink).well_formed(),
        ensures
            final(sink).well_formed(),
            laid_out(
                old(self)@.with_text(old(sink)@.write_status(), text@),
                final(self)@,
                old(sink)@,
                final(sink)@,
                result,
            ),
    {
        let ghost before = sink@;
        assert(before.extended(Seq::empty()) == before) by {
            crate::execution::output::law_nothing_is_added(before);
        }
        match self.poll(sink) {
            Ok(_) => {},
            Err(error) => {
                return Err(error);
            },
        }
        if text.is_empty() {
            return Ok(());
        }
        if self.pending.len() == 0 {
            proof {
                assert(text@ + Seq::<char>::empty() =~= text@);
            }
            return self.emit_text(sink, text);
        }
        self.push_polled(sink, Token::Text(text.to_owned()))
    }

    /// A place where the line may be broken; `flat` stands there where it is not.
    pub fn line(&mut self, sink: &mut OutputSink, flat: &'static str, depth: usize) -> (result:
        Result<(), PrintError>)
        requires
            old(sink).well_formed(),
        ensures
            final(sink).well_formed(),
            performed(
                old(self)@.pushed(
                    old(sink)@.write_status(),
                    TokenView::Line { flat: flat@, indent: depth_indent(depth as int) },
                ),
                final(self)@,
                old(sink)@,
                final(sink)@,
                result,
            ),
    {
        let indent: usize = indent_for_depth(depth);
        let result = self.push(sink, Token::Line { flat, indent });
        await_room(sink, result)
    }

    /// Whether output is still wanted.
    pub fn poll(&self, sink: &mut OutputSink) -> (result: Result<(), PrintError>)
        requires
            old(sink).well_formed(),
        ensures
            final(sink).well_formed(),
            result == answer(old(sink)@.write_status()),
            final(sink)@.extended_by(old(sink)@, Seq::empty()),
    {
        proof {
            reveal_strlit("");
            assert(""@ =~= Seq::<char>::empty());
        }
        write_text(sink, "")
    }

    /// Prints the rest, ends the line and makes it available to the reader.
    pub fn finish(self, sink: &mut OutputSink) -> (result: Result<(), PrintError>)
        requires
            old(sink).well_formed(),
        ensures
            final(sink).well_formed(),
            ({
                let rest = self@.drained(old(sink)@.write_status());
                &&& final(sink)@ == if rest.result is Err {
                    old(sink)@.extended(rest.text)
                } else if !rest.layout.complete() {
                    old(sink)@.extended(rest.text).flushed()
                } else {
                    old(sink)@.extended(rest.text + "\n"@).flushed()
                }
                &&& result == awaited(
                    if rest.result is Err {
                        rest.result
                    } else if !rest.layout.complete() {
                        Err(PrintError::InvalidSequence)
                    } else {
                        answer(old(sink)@.write_status())
                    },
                    final(sink)@,
                )
            }),
            result is Ok ==> final(sink)@.pending.len() == 0,
    {
        let ghost before = sink@;
        let mut layout = self;
        match layout.drain(sink) {
            Ok(_) => {},
            Err(error) => {
                return Err(error);
            },
        }
        let ghost rest = self@.drained(before.write_status());
        proof {
            crate::execution::output::law_parts_join(before, rest.text, "\n"@);
        }
        if layout.pending.len() != 0 || layout.breakable_groups.len() != 0
            || layout.forced_flat_depth != 0 {
            let _ = flush(sink);
            return Err(PrintError::InvalidSequence);
        }
        match layout.emit_text(sink, "\n") {
            Ok(_) => {},
            Err(error) => {
                return Err(error);
            },
        }
        let _ = flush(sink);
        await_room(sink, Ok(()))
    }

    fn push(&mut self, sink: &mut OutputSink, token: Token) -> (result: Result<(), PrintError>)
        requires
            old(sink).well_formed(),
        ensures
            final(sink).well_formed(),
            laid_out(
                old(self)@.pushed(old(sink)@.write_status(), token@),
                final(self)@,
                old(sink)@,
                final(sink)@,
                result,
            ),
    {
        let ghost before = sink@;
        match self.poll(sink) {
            Ok(_) => {},
            Err(error) => {
                return Err(error);
            },
        }
        proof {
            assert(before.extended(Seq::empty()) == before) by {
                crate::execution::output::law_nothing_is_added(before);
            }
        }
        self.push_polled(sink, token)
    }

    fn push_polled(&mut self, sink: &mut OutputSink, token: Token) -> (result: Result<
        (),
        PrintError,
    >)
        requires
            old(sink).well_formed(),
            old(sink)@.write_status() is Continue,
        ensures
            final(sink).well_formed(),
            laid_out(
                old(self)@.pushed(old(sink)@.write_status(), token@),
                final(self)@,
                old(sink)@,
                final(sink)@,
                result,
            ),
    {
        let ghost before = self@;
        self.pending.push_back(token);
        assert(self@ =~= (LayoutView { pending: before.pending.push(token@), ..before }));
        self.drain(sink)
    }

    fn drain(&mut self, sink: &mut OutputSink) -> (result: Result<(), PrintError>)
        requires
            old(sink).well_formed(),
        ensures
            final(sink).well_formed(),
            laid_out(
                old(self)@.drained(old(sink)@.write_status()),
                final(self)@,
                old(sink)@,
                final(sink)@,
                result,
            ),
    {
        let ghost status = sink@.write_status();
        let ghost start = self@;
        let ghost before = sink@;
        let ghost mut written = Seq::<char>::empty();
        proof {
            assert(before.extended(written) == before) by {
                assert(written =~= Seq::<char>::empty());
                crate::execution::output::law_nothing_is_added(before);
            }
            assert(written + start.drained(status).text =~= start.drained(status).text);
        }
        loop
            invariant
                sink.well_formed(),
                sink@.extended_by(before, written),
                status == before.write_status(),
                before == old(sink)@,
                start == old(self)@,
                written.len() > 0 ==> status is Continue,
                start.drained(status) == self@.drained(status).behind(written),
            decreases self@.pending.len(),
        {
            let ghost here = self@;
            if self.pending.len() == 0 {
                proof {
                    assert(written + Seq::<char>::empty() =~= written);
                }
                return Ok(());
            }
            proof {
                assert(here.pending[0] == self.pending@[0]@);
                assert(written + Seq::<char>::empty() =~= written);
            }
            let fit = match &self.pending[0] {
                Token::Begin(GroupKind::Breakable) => {
                    let remaining: usize = if self.column >= PRINT_WIDTH {
                        0
                    } else {
                        PRINT_WIDTH - self.column
                    };
                    self.group_fits(remaining)
                },
                _ => Fit::Yes,
            };
            if fit == Fit::Unknown {
                return Ok(());
            }
            if let Token::End = &self.pending[0] {
                if self.forced_flat_depth == 0 && self.breakable_groups.len() == 0 {
                    return Err(PrintError::InvalidSequence);
                }
            }
            let token = match self.pending.pop_front() {
                Some(token) => token,
                None => {
                    return Ok(());
                },
            };
            proof {
                assert(self@ =~= here.popped());
                assert(token@ == here.pending[0]);
            }
            match token {
                Token::Begin(GroupKind::Breakable) => {
                    self.breakable_groups.push(
                        if fit == Fit::Yes {
                            GroupMode::Flat
                        } else {
                            GroupMode::Broken
                        },
                    );
                },
                Token::Begin(GroupKind::ForcedFlat) => {
                    if self.forced_flat_depth == usize::MAX {
                        return Err(PrintError::LimitExceeded);
                    }
                    self.forced_flat_depth = self.forced_flat_depth + 1;
                },
                Token::End => {
                    if self.forced_flat_depth != 0 {
                        self.forced_flat_depth = self.forced_flat_depth - 1;
                    } else {
                        let _ = self.breakable_groups.pop();
                    }
                    assert(self.breakable_groups@ =~= if here.forced_flat_depth != 0 {
                        here.groups
                    } else {
                        here.groups.drop_last()
                    });
                },
                Token::Text(text) => {
                    match self.emit_text(sink, text.as_str()) {
                        Ok(_) => {},
                        Err(error) => {
                            return Err(error);
                        },
                    }
                    proof {
                        let tail = self@.drained(status).text;
                        assert(written + (text@ + tail) =~= (written + text@) + tail);
                        assert(before.extended(written).extended(text@) == before.extended(
                            written + text@,
                        )) by {
                            crate::execution::output::law_parts_join(before, written, text@);
                        }
                        written = written + text@;
                    }
                },
                Token::Line { flat, indent } => {
                    let depth: usize = self.breakable_groups.len();
                    if self.forced_flat_depth == 0 && depth == 0 {
                        return Err(PrintError::InvalidSequence);
                    }
                    if self.forced_flat_depth != 0 || self.breakable_groups[depth - 1]
                        == GroupMode::Flat {
                        match self.emit_text(sink, flat) {
                            Ok(_) => {},
                            Err(error) => {
                                return Err(error);
                            },
                        }
                        proof {
                            let tail = self@.drained(status).text;
                            assert(written + (flat@ + tail) =~= (written + flat@) + tail);
                            assert(before.extended(written).extended(flat@) == before.extended(
                                written + flat@,
                            )) by {
                                crate::execution::output::law_parts_join(before, written, flat@);
                            }
                            written = written + flat@;
                        }
                    } else {
                        match self.emit_newline(sink, indent) {
                            Ok(_) => {},
                            Err(error) => {
                                return Err(error);
                            },
                        }
                        proof {
                            let tail = self@.drained(status).text;
                            let broken = "\n"@ + spaces(indent as int);
                            assert(written + (broken + tail) =~= (written + broken) + tail);
                            assert(before.extended(written).extended(broken) == before.extended(
                                written + broken,
                            )) by {
                                crate::execution::output::law_parts_join(before, written, broken);
                            }
                            written = written + broken;
                        }
                    }
                },
            }
        }
    }

    fn group_fits(&self, remaining: usize) -> (fit: Fit)
        requires
            self@.pending.len() > 0,
            self@.pending[0] is Begin,
        ensures
            fit == fit_from(token_extents(self@.pending), 0, 0, 0, remaining as int),
    {
        let mut extents: Vec<Extent> = Vec::new();
        let mut index: usize = 0;
        let length: usize = self.pending.len();
        while index < length
            invariant
                length == self.pending@.len(),
                length == self@.pending.len(),
                index <= length,
                extents@ == token_extents(self@.pending).take(index as int),
            decreases length - index,
        {
            proof {
                assert(self@.pending[index as int] == self.pending@[index as int]@);
            }
            extents.push(
                match &self.pending[index] {
                    Token::Begin(_) => Extent::Begin,
                    Token::End => Extent::End,
                    Token::Text(text) => Extent::Columns(display_width(text.as_str())),
                    Token::Line { flat, .. } => Extent::Columns(display_width(flat)),
                },
            );
            index = index + 1;
            assert(extents@ =~= token_extents(self@.pending).take(index as int));
        }
        assert(extents@ =~= token_extents(self@.pending));
        group_fit(&extents, remaining)
    }

    fn emit_text(&mut self, sink: &mut OutputSink, text: &str) -> (result: Result<(), PrintError>)
        requires
            old(sink).well_formed(),
        ensures
            final(sink).well_formed(),
            result == answer(old(sink)@.write_status()),
            final(self)@ == if result is Ok {
                old(self)@.advanced(text@)
            } else {
                old(self)@
            },
            final(sink)@.extended_by(
                old(sink)@,
                if result is Ok {
                    text@
                } else {
                    Seq::empty()
                },
            ),
    {
        let result = write_text(sink, text);
        if result.is_ok() {
            self.column = saturating_sum(self.column, display_width(text));
        }
        result
    }

    fn emit_newline(&mut self, sink: &mut OutputSink, indent: usize) -> (result: Result<
        (),
        PrintError,
    >)
        requires
            old(sink).well_formed(),
        ensures
            final(sink).well_formed(),
            result == answer(old(sink)@.write_status()),
            final(self)@ == if result is Ok {
                LayoutView { column: indent as int, ..old(self)@ }
            } else {
                old(self)@
            },
            final(sink)@.extended_by(
                old(sink)@,
                if result is Ok {
                    "\n"@ + spaces(indent as int)
                } else {
                    Seq::empty()
                },
            ),
    {
        let ghost before = sink@;
        match write_text(sink, "\n") {
            Ok(_) => {},
            Err(error) => {
                return Err(error);
            },
        }
        match push_spaces(sink, indent) {
            Ok(_) => {},
            Err(error) => {
                return Err(error);
            },
        }
        proof {
            assert(before.extended("\n"@).extended(spaces(indent as int)) == before.extended(
                "\n"@ + spaces(indent as int),
            )) by {
                crate::execution::output::law_parts_join(before, "\n"@, spaces(indent as int));
            }
        }
        self.column = indent;
        Ok(())
    }
}

/// The layout and the channel are as the operation leaves them.
pub open spec fn laid_out(
    expected: LaidOut,
    layout: LayoutView,
    before: OutputView,
    after: OutputView,
    result: Result<(), PrintError>,
) -> bool {
    &&& layout == expected.layout
    &&& result == expected.result
    &&& after.extended_by(before, expected.text)
}

/// What an operation is answered: one whose text waits for room is not through.
pub open spec fn awaited(result: Result<(), PrintError>, after: OutputView) -> Result<
    (),
    PrintError,
> {
    if result is Ok && after.blocked() {
        Err(PrintError::Output(WriteResult::Blocked))
    } else {
        result
    }
}

/// The layout and the channel are as the operation leaves them, and the answer says
/// whether text waits.
pub open spec fn performed(
    expected: LaidOut,
    layout: LayoutView,
    before: OutputView,
    after: OutputView,
    result: Result<(), PrintError>,
) -> bool {
    &&& layout == expected.layout
    &&& result == awaited(expected.result, after)
    &&& after.extended_by(before, expected.text)
}

fn await_room(sink: &OutputSink, result: Result<(), PrintError>) -> (answer: Result<
    (),
    PrintError,
>)
    ensures
        answer == awaited(result, sink@),
{
    if result.is_ok() && sink.blocked() {
        Err(PrintError::Output(WriteResult::Blocked))
    } else {
        result
    }
}

/// Tokens printed as a text: what they hold, one behind the other, with each line either
/// flat or as a new line with its indentation.
pub open spec fn renders(tokens: Seq<TokenView>, text: Seq<char>) -> bool
    decreases tokens.len(),
{
    if tokens.len() == 0 {
        text.len() == 0
    } else {
        match tokens[0] {
            TokenView::Begin(_) | TokenView::End => renders(tokens.skip(1), text),
            TokenView::Text(held) => held.is_prefix_of(text) && renders(
                tokens.skip(1),
                text.skip(held.len() as int),
            ),
            TokenView::Line { flat, indent } => {
                let broken = "\n"@ + spaces(indent);
                ||| flat.is_prefix_of(text) && renders(
                    tokens.skip(1),
                    text.skip(flat.len() as int),
                )
                ||| broken.is_prefix_of(text) && renders(
                    tokens.skip(1),
                    text.skip(broken.len() as int),
                )
            },
        }
    }
}

/// What is printed are the tokens that waited first, in their order, and nothing else; the
/// others still wait.
pub proof fn law_tokens_are_printed_in_order(layout: LayoutView) -> (count: int)
    requires
        layout.drained(WriteResult::Continue).result is Ok,
    ensures
        0 <= count <= layout.pending.len(),
        layout.drained(WriteResult::Continue).layout.pending == layout.pending.skip(count),
        renders(layout.pending.take(count), layout.drained(WriteResult::Continue).text),
    decreases layout.pending.len(),
{
    let status = WriteResult::Continue;
    let after = layout.drained(status);
    assert(layout.pending.skip(0) =~= layout.pending);
    if layout.pending.len() == 0 {
        0
    } else {
        let first = layout.pending[0];
        let undecided = first == TokenView::Begin(GroupKind::Breakable)
            && layout.front_fits() is Unknown;
        if undecided {
            0
        } else {
            let (next, shown) = match first {
                TokenView::Begin(GroupKind::Breakable) => (
                    LayoutView {
                        groups: layout.groups.push(
                            if layout.front_fits() is Yes {
                                GroupMode::Flat
                            } else {
                                GroupMode::Broken
                            },
                        ),
                        ..layout.popped()
                    },
                    Seq::<char>::empty(),
                ),
                TokenView::Begin(GroupKind::ForcedFlat) => (
                    LayoutView {
                        forced_flat_depth: layout.forced_flat_depth + 1,
                        ..layout.popped()
                    },
                    Seq::empty(),
                ),
                TokenView::End => (
                    if layout.forced_flat_depth != 0 {
                        LayoutView {
                            forced_flat_depth: layout.forced_flat_depth - 1,
                            ..layout.popped()
                        }
                    } else {
                        LayoutView { groups: layout.groups.drop_last(), ..layout.popped() }
                    },
                    Seq::empty(),
                ),
                TokenView::Text(text) => (layout.popped().advanced(text), text),
                TokenView::Line { flat, indent } => if layout.line_mode()->0 is Flat {
                    (layout.popped().advanced(flat), flat)
                } else {
                    (
                        LayoutView { column: indent, ..layout.popped() },
                        "\n"@ + spaces(indent),
                    )
                },
            };
            let rest = next.drained(status);
            assert(after.layout == rest.layout && after.result == rest.result);
            assert(after.text =~= shown + rest.text);
            let count = law_tokens_are_printed_in_order(next);
            assert(next.pending == layout.pending.skip(1));
            assert(layout.pending.skip(1).skip(count) =~= layout.pending.skip(count + 1));
            let taken = layout.pending.take(count + 1);
            assert(taken[0] == first);
            assert(taken.skip(1) =~= layout.pending.skip(1).take(count));
            assert(after.text.skip(shown.len() as int) =~= rest.text);
            assert(after.text.take(shown.len() as int) =~= shown);
            assert(shown.is_prefix_of(after.text));
            if shown.len() == 0 {
                assert(after.text =~= rest.text);
            }
            count + 1
        }
    }
}

/// A group of plain texts fits where its columns do on what is left of the line, and does
/// not where they do not.
pub proof fn law_group_is_flat_where_it_fits(
    extents: Seq<Extent>,
    index: int,
    width: int,
    remaining: int,
)
    requires
        1 <= index < extents.len(),
        extents.last() is End,
        forall|i: int| index <= i < extents.len() - 1 ==> (#[trigger] extents[i]) is Columns,
        0 <= width <= remaining < usize::MAX,
    ensures
        fit_from(extents, index, 1, width, remaining) is Yes <==> width + columns_from(
            extents,
            index,
        ) <= remaining,
        fit_from(extents, index, 1, width, remaining) is No <==> width + columns_from(
            extents,
            index,
        ) > remaining,
    decreases extents.len() - index,
{
    if index < extents.len() - 1 {
        let columns = extents[index]->Columns_0;
        lemma_columns(extents, index + 1);
        if width + columns <= remaining {
            law_group_is_flat_where_it_fits(extents, index + 1, width + columns, remaining);
        }
    }
}

/// The columns of the texts from a place up to the end of their group.
pub open spec fn columns_from(extents: Seq<Extent>, index: int) -> int
    decreases extents.len() - index,
{
    if index < 0 || index >= extents.len() {
        0
    } else {
        match extents[index] {
            Extent::Columns(columns) => columns + columns_from(extents, index + 1),
            _ => 0,
        }
    }
}

proof fn lemma_columns(extents: Seq<Extent>, index: int)
    ensures
        columns_from(extents, index) >= 0,
    decreases extents.len() - index,
{
    if 0 <= index < extents.len() {
        lemma_columns(extents, index + 1);
    }
}

/// A line has 100 columns, and a list stands two columns further to the right than the one
/// that it is in; where that leaves no column, it is printed flat.
pub proof fn law_lines_have_their_width(column: int, depth: int, status: WriteResult)
    requires
        0 <= column,
        0 <= depth < usize::MAX / 2,
        status is Continue,
    ensures
        column <= 100 ==> columns_left(column) == 100 - column,
        column > 100 ==> columns_left(column) == 0,
        depth_indent(depth) == 2 * depth,
        depth < 50 ==> LayoutView::empty().begun(status, depth) == LayoutView::empty().pushed(
            status,
            TokenView::Begin(GroupKind::Breakable),
        ),
        depth >= 50 ==> LayoutView::empty().begun(status, depth) == LayoutView::empty().pushed(
            status,
            TokenView::Begin(GroupKind::ForcedFlat),
        ),
{
}

/// Text is written at once where nothing waits, and waits behind what waits else; no text
/// changes nothing, and where the channel has ended nothing is written.
pub proof fn law_text_waits_behind_what_waits(
    layout: LayoutView,
    status: WriteResult,
    shown: Seq<char>,
)
    ensures
        status is Continue && shown.len() > 0 && layout.pending.len() == 0 ==> {
            let after = layout.with_text(status, shown);
            after.text == shown && after.result is Ok && after.layout.pending.len() == 0
        },
        status is Continue && shown.len() == 0 ==> layout.with_text(status, shown).layout == layout
            && layout.with_text(status, shown).text.len() == 0,
        status is Continue && shown.len() > 0 && layout.pending.len() > 0 ==> layout.with_text(
            status,
            shown,
        ) == layout.pushed(status, TokenView::Text(shown)),
        !(status is Continue) ==> layout.with_text(status, shown).text.len() == 0
            && layout.with_text(status, shown).result == Err::<(), PrintError>(
            PrintError::Output(status),
        ),
{
    assert(shown + Seq::<char>::empty() =~= shown);
}

/// A group of two texts with a line between them is printed on one line where it fits on
/// what is left of that, and on two where it does not.
pub proof fn law_line_breaks_where_the_group_does_not_fit(
    layout: LayoutView,
    first: Seq<char>,
    flat: Seq<char>,
    indent: int,
    second: Seq<char>,
)
    requires
        layout.forced_flat_depth == 0,
        0 <= layout.column,
        layout.pending == seq![
            TokenView::Begin(GroupKind::Breakable),
            TokenView::Text(first),
            TokenView::Line { flat, indent },
            TokenView::Text(second),
            TokenView::End,
        ],
    ensures
        ({
            let columns = terminal_width(first) + terminal_width(flat) + terminal_width(second);
            let after = layout.drained(WriteResult::Continue);
            &&& after.result is Ok
            &&& after.layout.pending.len() == 0
            &&& after.layout.groups == layout.groups
            &&& columns <= columns_left(layout.column) ==> after.text == first + flat + second
            &&& columns > columns_left(layout.column) ==> after.text == first + ("\n"@ + spaces(
                indent,
            )) + second
        }),
{
    let status = WriteResult::Continue;
    let extents = token_extents(layout.pending);
    let remaining = columns_left(layout.column);
    assert(extents.len() == 5);
    assert(extents[0] is Begin);
    assert(extents[1] == Extent::Columns(terminal_width(first)));
    assert(extents[2] == Extent::Columns(terminal_width(flat)));
    assert(extents[3] == Extent::Columns(terminal_width(second)));
    assert(extents[4] is End);
    assert(extents.last() is End);
    assert(fit_from(extents, 0, 0, 0, remaining) == fit_from(extents, 1, 1, 0, remaining));
    law_group_is_flat_where_it_fits(extents, 1, 0, remaining);
    assert(columns_from(extents, 4) == 0);
    assert(columns_from(extents, 3) == terminal_width(second));
    assert(columns_from(extents, 2) == terminal_width(flat) + terminal_width(second));
    assert(columns_from(extents, 1) == terminal_width(first) + terminal_width(flat)
        + terminal_width(second));
    let mode = if layout.front_fits() is Yes {
        GroupMode::Flat
    } else {
        GroupMode::Broken
    };
    let one = LayoutView { groups: layout.groups.push(mode), ..layout.popped() };
    assert(one.pending[0] == TokenView::Text(first));
    let two = one.popped().advanced(first);
    assert(two.pending[0] == (TokenView::Line { flat, indent }));
    let shown = if mode is Flat {
        flat
    } else {
        "\n"@ + spaces(indent)
    };
    let three = if mode is Flat {
        two.popped().advanced(flat)
    } else {
        LayoutView { column: indent, ..two.popped() }
    };
    assert(three.pending[0] == TokenView::Text(second));
    let four = three.popped().advanced(second);
    assert(four.pending[0] is End);
    let five = LayoutView { groups: four.groups.drop_last(), ..four.popped() };
    assert(five.pending.len() == 0);
    assert(five.groups =~= layout.groups);
    assert(five.drained(status) == five.left(Ok(())));
    assert(four.drained(status) == five.drained(status));
    assert(three.drained(status) == four.drained(status).behind(second));
    assert(two.drained(status) == three.drained(status).behind(shown));
    assert(one.drained(status) == two.drained(status).behind(first));
    assert(layout.drained(status) == one.drained(status));
    assert(layout.drained(status).text =~= first + shown + second);
}

} // verus!
