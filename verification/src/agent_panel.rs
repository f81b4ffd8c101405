//! The persistent, keyboard-focusable list of active child agents below the composer.

use vstd::prelude::*;
use vstd::string::StringExecFns;
use crate::keys::KeyCode;
use crate::keys::KeyEvent;
use crate::keys::KeyEventKind;
use crate::text::decimal_text;
use crate::text::u64_to_decimal;
use crate::thread_id::ThreadId;

verus! {

/// Most agent rows shown at once.
pub const MAX_VISIBLE_ROWS: usize = 6;

/// One row of the panel.
#[derive(Clone, Debug)]
pub struct AgentPanelRow {
    pub thread_id: ThreadId,
    pub name: String,
    pub detail: String,
}

/// The mathematical value of a row.
#[verifier::ext_equal]
pub struct PanelRowView {
    pub thread_id: ThreadId,
    pub name: Seq<char>,
    pub detail: Seq<char>,
}

impl View for AgentPanelRow {
    type V = PanelRowView;

    open spec fn view(&self) -> PanelRowView {
        PanelRowView { thread_id: self.thread_id, name: self.name@, detail: self.detail@ }
    }
}

/// The values of a run of rows.
pub open spec fn rows_view(rows: Seq<AgentPanelRow>) -> Seq<PanelRowView> {
    rows.map_values(|r: AgentPanelRow| r@)
}

/// The thread ids of a run of rows.
pub open spec fn row_ids(rows: Seq<PanelRowView>) -> Seq<ThreadId> {
    rows.map_values(|r: PanelRowView| r.thread_id)
}

/// The first position of `id` in `ids`.
pub open spec fn first_position(ids: Seq<ThreadId>, id: ThreadId) -> Option<int>
    decreases ids.len(),
{
    if ids.len() == 0 {
        None
    } else if ids[0] == id {
        Some(0)
    } else {
        match first_position(ids.drop_first(), id) {
            Some(i) => Some(i + 1),
            None => None,
        }
    }
}

/// What a key did to the panel.
#[derive(Clone, Copy, Debug, PartialEq, Eq, Structural)]
pub enum AgentPanelAction {
    Select(ThreadId),
    Consumed,
    ReturnToPrompt,
    Ignored,
}

/// How a piece of panel text is drawn.
#[derive(Clone, Copy, Debug, PartialEq, Eq, Structural)]
pub enum SpanStyle {
    Plain,
    Bold,
    Dim,
    /// Cyan and bold: the focused selection.
    Accent,
}

/// A piece of a panel line.
#[derive(Clone, Debug)]
pub struct PanelSpan {
    pub text: String,
    pub style: SpanStyle,
}

/// One line of the panel.
#[derive(Clone, Debug)]
pub struct PanelLine {
    pub spans: Vec<PanelSpan>,
}

/// The value of a line: its pieces of text with their styles.
pub open spec fn line_view(l: PanelLine) -> Seq<(Seq<char>, SpanStyle)> {
    l.spans@.map_values(|s: PanelSpan| (s.text@, s.style))
}

/// The heading: the title with the number of rows, then the key hint.
pub open spec fn header_view(focused: bool, len: nat) -> Seq<(Seq<char>, SpanStyle)> {
    seq![
        ("  Active agents ("@ + decimal_text(len) + ")"@, SpanStyle::Bold),
        (if focused {
            "  ↑↓ navigate  enter open  esc prompt"@
        } else {
            "  ↓ browse  /subagents all"@
        }, SpanStyle::Dim),
    ]
}

/// A row line: the marker, the name, then the detail.
pub open spec fn row_line_view(row: PanelRowView, selected: bool) -> Seq<(Seq<char>, SpanStyle)> {
    if selected {
        seq![("› "@, SpanStyle::Accent), (row.name, SpanStyle::Accent), ("  "@ + row.detail, SpanStyle::Dim)]
    } else {
        seq![("  "@, SpanStyle::Plain), (row.name, SpanStyle::Plain), ("  "@ + row.detail, SpanStyle::Dim)]
    }
}

/// The number of row lines that fit under the heading in `height` lines.
pub open spec fn visible_rows(height: int) -> int {
    let below = if height >= 1 { height - 1 } else { 0 };
    if MAX_VISIBLE_ROWS < below { MAX_VISIBLE_ROWS as int } else { below }
}

/// The first row shown: as late as keeps the selection on the last visible line, and never
/// so late that fewer rows than fit are shown.
pub open spec fn window_start(selected: int, visible: int, len: int) -> int {
    let by_selection = if selected + 1 >= visible { selected + 1 - visible } else { 0 };
    let by_length = if len >= visible { len - visible } else { 0 };
    if by_selection < by_length { by_selection } else { by_length }
}

/// The panel's value.
#[verifier::ext_equal]
pub struct PanelView {
    pub rows: Seq<PanelRowView>,
    pub selected: Option<ThreadId>,
    pub focused: bool,
}

/// What every panel keeps: a selection exactly when there are rows, the selection among
/// the rows, and focus only with rows.
pub open spec fn panel_view_wf(v: PanelView) -> bool {
    &&& (v.selected is Some) == (v.rows.len() > 0)
    &&& v.selected is Some ==> row_ids(v.rows).contains(v.selected->0)
    &&& v.focused ==> v.rows.len() > 0
}

/// The position of the selection among the rows, or 0.
pub open spec fn selected_index_or_zero(v: PanelView) -> int {
    match v.selected {
        Some(s) => match first_position(row_ids(v.rows), s) {
            Some(i) => i,
            None => 0,
        },
        None => 0,
    }
}

/// The panel after its rows are replaced: the selected thread stays selected when it is
/// still listed; otherwise the row at the old position, clamped to the new list, is
/// selected; an empty list drops focus.
pub open spec fn panel_with_rows(v: PanelView, rows: Seq<PanelRowView>) -> PanelView {
    if v.rows == rows {
        v
    } else {
        let prev = selected_index_or_zero(v);
        let keep = v.selected is Some && row_ids(rows).contains(v.selected->0);
        let selected = if keep {
            v.selected
        } else if rows.len() == 0 {
            None
        } else {
            Some(rows[if prev < rows.len() - 1 { prev } else { rows.len() - 1 }].thread_id)
        };
        PanelView { rows, selected, focused: if rows.len() == 0 { false } else { v.focused } }
    }
}

/// The selection after moving it by `delta` rows, clamped to the list.
pub open spec fn panel_moved(v: PanelView, delta: int) -> PanelView {
    match v.selected {
        None => v,
        Some(s) => match first_position(row_ids(v.rows), s) {
            None => v,
            Some(cur) => {
                let last = v.rows.len() - 1;
                let raw = if cur + delta < 0 { 0 } else { cur + delta };
                let next = if raw < last { raw } else { last };
                PanelView { selected: Some(v.rows[next].thread_id), ..v }
            },
        },
    }
}

/// The panel and the action after a key.
pub open spec fn panel_after_key(v: PanelView, key: KeyEvent) -> (PanelView, AgentPanelAction) {
    if !v.focused || key.kind == KeyEventKind::Release {
        (v, AgentPanelAction::Ignored)
    } else {
        match key.code {
            KeyCode::Up => (panel_moved(v, -1), AgentPanelAction::Consumed),
            KeyCode::Down => (panel_moved(v, 1), AgentPanelAction::Consumed),
            KeyCode::Enter => (v, match v.selected {
                Some(s) => AgentPanelAction::Select(s),
                None => AgentPanelAction::Consumed,
            }),
            KeyCode::Esc => (PanelView { focused: false, ..v }, AgentPanelAction::ReturnToPrompt),
            KeyCode::Other => (v, AgentPanelAction::Ignored),
        }
    }
}

/// The number of lines the panel asks for.
pub open spec fn panel_height(v: PanelView, width: int) -> int {
    if width == 0 || v.rows.len() == 0 {
        0
    } else {
        1 + if v.rows.len() < MAX_VISIBLE_ROWS { v.rows.len() as int } else { MAX_VISIBLE_ROWS as int }
    }
}

proof fn lemma_first_position_skip(ids: Seq<ThreadId>, id: ThreadId, i: int)
    requires
        0 <= i <= ids.len(),
        forall|j: int| 0 <= j < i ==> ids[j] != id,
    ensures
        first_position(ids, id) == match first_position(ids.subrange(i, ids.len() as int), id) {
            Some(k) => Some(k + i),
            None => None::<int>,
        },
    decreases i,
{
    if i == 0 {
        assert(ids.subrange(0, ids.len() as int) == ids);
        match first_position(ids, id) {
            Some(k) => {},
            None => {},
        }
    } else {
        lemma_first_position_skip(ids.drop_first(), id, i - 1);
        assert(ids.drop_first().subrange(i - 1, ids.drop_first().len() as int) == ids.subrange(
            i,
            ids.len() as int,
        ));
    }
}

/// What `first_position` finds.
pub proof fn lemma_first_position(ids: Seq<ThreadId>, id: ThreadId)
    ensures
        first_position(ids, id) is Some <==> ids.contains(id),
        first_position(ids, id) matches Some(k) ==> 0 <= k < ids.len() && ids[k] == id && forall|
            j: int,
        | 0 <= j < k ==> ids[j] != id,
    decreases ids.len(),
{
    if ids.len() > 0 {
        lemma_first_position(ids.drop_first(), id);
        if ids[0] != id {
            match first_position(ids.drop_first(), id) {
                Some(i) => {
                    assert forall|j: int| 0 <= j < i + 1 implies ids[j] != id by {
                        if j > 0 {
                            assert(ids[j] == ids.drop_first()[j - 1]);
                        }
                    }
                },
                None => {},
            }
            if ids.contains(id) {
                let j = choose|j: int| 0 <= j < ids.len() && ids[j] == id;
                assert(ids.drop_first()[j - 1] == id);
            }
            if ids.drop_first().contains(id) {
                let j = choose|j: int| 0 <= j < ids.drop_first().len() && ids.drop_first()[j] == id;
                assert(ids[j + 1] == id);
            }
        } else {
            assert(ids[0] == id);
        }
    }
}

/// The first position of a thread among the rows.
fn position_of(rows: &Vec<AgentPanelRow>, id: ThreadId) -> (r: Option<usize>)
    ensures
        r == match first_position(row_ids(rows_view(rows@)), id) {
            Some(k) => Some(k as usize),
            None => None::<usize>,
        },
        r matches Some(k) ==> k < rows@.len(),
{
    let ghost ids = row_ids(rows_view(rows@));
    let mut i: usize = 0;
    while i < rows.len()
        invariant
            i <= rows@.len(),
            ids == row_ids(rows_view(rows@)),
            ids.len() == rows@.len(),
            forall|j: int| 0 <= j < i ==> ids[j] != id,
        decreases rows@.len() - i,
    {
        if rows[i].thread_id == id {
            proof {
                lemma_first_position_skip(ids, id, i as int);
                assert(ids.subrange(i as int, ids.len() as int)[0] == id);
            }
            return Some(i);
        }
        i = i + 1;
    }
    proof {
        lemma_first_position_skip(ids, id, i as int);
    }
    None
}

/// Two row lists hold the same rows.
fn same_rows(a: &Vec<AgentPanelRow>, b: &Vec<AgentPanelRow>) -> (r: bool)
    ensures
        r == (rows_view(a@) == rows_view(b@)),
{
    if a.len() != b.len() {
        proof {
            assert(rows_view(a@).len() != rows_view(b@).len());
        }
        return false;
    }
    let mut i: usize = 0;
    while i < a.len()
        invariant
            i <= a@.len() == b@.len(),
            forall|j: int| 0 <= j < i ==> rows_view(a@)[j] == rows_view(b@)[j],
        decreases a@.len() - i,
    {
        let x = &a[i];
        let y = &b[i];
        let same = x.thread_id == y.thread_id && <String as PartialEq>::eq(&x.name, &y.name)
            && <String as PartialEq>::eq(&x.detail, &y.detail);
        if !same {
            proof {
                assert(rows_view(a@)[i as int] != rows_view(b@)[i as int]);
            }
            return false;
        }
        assert(rows_view(a@)[i as int] =~= rows_view(b@)[i as int]);
        i = i + 1;
    }
    assert(rows_view(a@) =~= rows_view(b@));
    true
}

/// Persistent, keyboard-focusable list of active child agents below the composer.
#[derive(Debug)]
pub struct AgentPanel {
    rows: Vec<AgentPanelRow>,
    selected_thread_id: Option<ThreadId>,
    focused: bool,
}

impl View for AgentPanel {
    type V = PanelView;

    closed spec fn view(&self) -> PanelView {
        PanelView {
            rows: rows_view(self.rows@),
            selected: self.selected_thread_id,
            focused: self.focused,
        }
    }
}

impl AgentPanel {
    #[verifier::type_invariant]
    spec fn wf(self) -> bool {
        panel_view_wf(self@)
    }

    /// An empty, unfocused panel.
    pub fn new() -> (r: AgentPanel)
        ensures
            r@.rows.len() == 0,
            r@.selected is None,
            !r@.focused,
            panel_view_wf(r@),
    {
        let r = AgentPanel { rows: Vec::new(), selected_thread_id: None, focused: false };
        assert(rows_view(r.rows@) =~= Seq::<PanelRowView>::empty());
        r
    }

    /// Replaces the rows, keeping the selection where it can; reports whether anything
    /// changed.
    pub fn set_rows(&mut self, rows: Vec<AgentPanelRow>) -> (changed: bool)
        ensures
            final(self)@ == panel_with_rows(old(self)@, rows_view(rows@)),
            changed == (old(self)@.rows != rows_view(rows@)),
            panel_view_wf(final(self)@),
    {
        proof {
            use_type_invariant(&*self);
        }
        if same_rows(&self.rows, &rows) {
            return false;
        }
        let previous_index = match self.selected_thread_id {
            Some(selected) => match position_of(&self.rows, selected) {
                Some(i) => i,
                None => 0,
            },
            None => 0,
        };
        let keep = match self.selected_thread_id {
            Some(selected) => position_of(&rows, selected).is_some(),
            None => false,
        };
        proof {
            if self.selected_thread_id is Some {
                lemma_first_position(row_ids(rows_view(rows@)), self.selected_thread_id->0);
                lemma_first_position(row_ids(rows_view(self.rows@)), self.selected_thread_id->0);
            }
            assert(previous_index as int == selected_index_or_zero(self@));
        }
        let selected_thread_id = if keep {
            self.selected_thread_id
        } else if rows.len() == 0 {
            None
        } else {
            let last = rows.len() - 1;
            let index = if previous_index < last {
                previous_index
            } else {
                last
            };
            proof {
                assert(row_ids(rows_view(rows@))[index as int] == rows@[index as int].thread_id);
                assert(rows_view(rows@)[index as int].thread_id == rows@[index as int].thread_id);
            }
            Some(rows[index].thread_id)
        };
        let focused = if rows.len() == 0 {
            false
        } else {
            self.focused
        };
        let ghost old_view = self@;
        *self = AgentPanel { rows, selected_thread_id, focused };
        assert(self@ =~= panel_with_rows(old_view, rows_view(self.rows@)));
        true
    }

    /// No rows are listed.
    pub fn is_empty(&self) -> (r: bool)
        ensures
            r == (self@.rows.len() == 0),
    {
        self.rows.len() == 0
    }

    /// Takes keyboard focus, when there are rows.
    pub fn focus(&mut self)
        ensures
            final(self)@ == (PanelView { focused: old(self)@.focused || old(self)@.rows.len() > 0, ..old(self)@ }),
            panel_view_wf(final(self)@),
    {
        proof {
            use_type_invariant(&*self);
        }
        if self.rows.len() > 0 {
            self.focused = true;
        }
    }

    /// Gives keyboard focus back.
    pub fn unfocus(&mut self)
        ensures
            final(self)@ == (PanelView { focused: false, ..old(self)@ }),
            panel_view_wf(final(self)@),
    {
        proof {
            use_type_invariant(&*self);
        }
        self.focused = false;
        proof {
            use_type_invariant(&*self);
        }
    }

    /// The panel has keyboard focus.
    pub fn is_focused(&self) -> (r: bool)
        ensures
            r == self@.focused,
    {
        self.focused
    }

    /// Handles a key while the panel may have focus.
    pub fn handle_key_event(&mut self, key_event: KeyEvent) -> (r: AgentPanelAction)
        ensures
            (final(self)@, r) == panel_after_key(old(self)@, key_event),
            panel_view_wf(final(self)@),
    {
        proof {
            use_type_invariant(&*self);
        }
        if !self.focused || key_event.kind == KeyEventKind::Release {
            return AgentPanelAction::Ignored;
        }
        match key_event.code {
            KeyCode::Up => {
                self.move_selection(-1);
                AgentPanelAction::Consumed
            },
            KeyCode::Down => {
                self.move_selection(1);
                AgentPanelAction::Consumed
            },
            KeyCode::Enter => match self.selected_thread_id {
                Some(id) => AgentPanelAction::Select(id),
                None => AgentPanelAction::Consumed,
            },
            KeyCode::Esc => {
                self.unfocus();
                AgentPanelAction::ReturnToPrompt
            },
            KeyCode::Other => AgentPanelAction::Ignored,
        }
    }

    /// Moves the selection by `delta` rows, clamped to the list.
    fn move_selection(&mut self, delta: isize)
        ensures
            final(self)@ == panel_moved(old(self)@, delta as int),
            panel_view_wf(final(self)@),
    {
        proof {
            use_type_invariant(&*self);
        }
        proof {
            if self@.selected is Some {
                lemma_first_position(row_ids(self@.rows), self@.selected->0);
            }
        }
        let current = match self.selected_index() {
            Some(i) => i,
            None => return,
        };
        let last = self.rows.len() - 1;
        let sum: i128 = current as i128 + delta as i128;
        let next: usize = if sum < 0 {
            0
        } else if sum < last as i128 {
            sum as usize
        } else {
            last
        };
        proof {
            assert(row_ids(rows_view(self.rows@)).contains(self.rows@[next as int].thread_id)) by {
                assert(row_ids(rows_view(self.rows@))[next as int] == self.rows@[next as int].thread_id);
            }
            assert(rows_view(self.rows@)[next as int].thread_id == self.rows@[next as int].thread_id);
        }
        let ghost old_view = self@;
        self.selected_thread_id = Some(self.rows[next].thread_id);
        assert(self@ =~= panel_moved(old_view, delta as int));
    }

    /// The position of the selected row.
    fn selected_index(&self) -> (r: Option<usize>)
        ensures
            r == match self@.selected {
                Some(s) => match first_position(row_ids(self@.rows), s) {
                    Some(k) => Some(k as usize),
                    None => None::<usize>,
                },
                None => None::<usize>,
            },
            r matches Some(k) ==> k < self@.rows.len(),
    {
        match self.selected_thread_id {
            Some(selected) => position_of(&self.rows, selected),
            None => None,
        }
    }

    /// The lines to draw in `height` lines: the heading, then a window of rows that keeps
    /// the selection in view.
    pub fn render_lines(&self, height: u16) -> (r: Vec<PanelLine>)
        ensures
            (self@.rows.len() == 0 || height == 0) ==> r@.len() == 0,
            !(self@.rows.len() == 0 || height == 0) ==> {
                let len = self@.rows.len() as int;
                let visible = visible_rows(height as int);
                let sel = selected_index_or_zero(self@);
                let start = window_start(sel, visible, len);
                let shown = if start + visible <= len { visible } else { len - start };
                &&& r@.len() == 1 + shown
                &&& line_view(r@[0]) == header_view(self@.focused, self@.rows.len())
                &&& forall|k: int| 0 <= k < shown ==> line_view(#[trigger] r@[1 + k]) == row_line_view(
                    self@.rows[start + k],
                    self@.focused && start + k == sel,
                )
            },
    {
        let mut lines: Vec<PanelLine> = Vec::new();
        if self.rows.len() == 0 || height == 0 {
            return lines;
        }
        let count = u64_to_decimal(self.rows.len() as u64);
        let mut title = "  Active agents (".to_owned();
        title.append(count.as_str());
        title.append(")");
        let hint = if self.focused {
            "  ↑↓ navigate  enter open  esc prompt"
        } else {
            "  ↓ browse  /subagents all"
        };
        let header = PanelLine {
            spans: vec![
                PanelSpan { text: title, style: SpanStyle::Bold },
                PanelSpan { text: hint.to_owned(), style: SpanStyle::Dim },
            ],
        };
        proof {
            assert(line_view(header) =~= header_view(self@.focused, self@.rows.len()));
        }
        lines.push(header);
        let below: usize = if height >= 1 {
            (height - 1) as usize
        } else {
            0
        };
        let visible = if MAX_VISIBLE_ROWS < below {
            MAX_VISIBLE_ROWS
        } else {
            below
        };
        let len = self.rows.len();
        let selected_index = match self.selected_index() {
            Some(i) => i,
            None => 0,
        };
        let by_selection = if selected_index + 1 >= visible {
            selected_index + 1 - visible
        } else {
            0
        };
        let by_length = if len >= visible {
            len - visible
        } else {
            0
        };
        let start = if by_selection < by_length {
            by_selection
        } else {
            by_length
        };
        let end = if start + visible <= len {
            start + visible
        } else {
            len
        };
        let ghost sel = selected_index_or_zero(self@);
        proof {
            if self@.selected is Some {
                lemma_first_position(row_ids(self@.rows), self@.selected->0);
            }
        }
        assert(selected_index as int == sel);
        let mut index = start;
        while index < end
            invariant
                start <= index <= end <= len == self@.rows.len(),
                selected_index as int == sel,
                lines@.len() == 1 + (index - start),
                line_view(lines@[0]) == header_view(self@.focused, self@.rows.len()),
                forall|k: int| 0 <= k < index - start ==> line_view(#[trigger] lines@[1 + k]) == row_line_view(
                    self@.rows[start + k],
                    self@.focused && start + k == sel,
                ),
            decreases end - index,
        {
            let row = &self.rows[index];
            let selected = self.focused && index == selected_index;
            let mut detail = "  ".to_owned();
            detail.append(row.detail.as_str());
            let line = if selected {
                PanelLine {
                    spans: vec![
                        PanelSpan { text: "› ".to_owned(), style: SpanStyle::Accent },
                        PanelSpan { text: row.name.clone(), style: SpanStyle::Accent },
                        PanelSpan { text: detail, style: SpanStyle::Dim },
                    ],
                }
            } else {
                PanelLine {
                    spans: vec![
                        PanelSpan { text: "  ".to_owned(), style: SpanStyle::Plain },
                        PanelSpan { text: row.name.clone(), style: SpanStyle::Plain },
                        PanelSpan { text: detail, style: SpanStyle::Dim },
                    ],
                }
            };
            proof {
                assert(self@.rows[index as int] == row@);
                assert(line_view(line) =~= row_line_view(self@.rows[index as int], selected));
            }
            lines.push(line);
            index = index + 1;
        }
        lines
    }

    /// The number of lines the panel asks for at `width`.
    pub fn desired_height(&self, width: u16) -> (r: u16)
        ensures
            r as int == panel_height(self@, width as int),
    {
        if width == 0 || self.rows.len() == 0 {
            0
        } else {
            let shown = if self.rows.len() < MAX_VISIBLE_ROWS {
                self.rows.len()
            } else {
                MAX_VISIBLE_ROWS
            };
            1 + shown as u16
        }
    }
}

impl Default for AgentPanel {
    fn default() -> (r: AgentPanel)
        ensures
            r@.rows.len() == 0,
            r@.selected is None,
            !r@.focused,
    {
        AgentPanel::new()
    }
}

/// Updating the rows keeps the selected thread selected while it is still listed;
/// otherwise a listed row is selected, and an empty list has no selection and no focus.
pub proof fn lemma_update_keeps_or_clamps_selection(v: PanelView, rows: Seq<PanelRowView>)
    requires
        panel_view_wf(v),
    ensures
        panel_view_wf(panel_with_rows(v, rows)),
        v.selected is Some && row_ids(rows).contains(v.selected->0) ==> panel_with_rows(
            v,
            rows,
        ).selected == v.selected,
        rows.len() == 0 ==> panel_with_rows(v, rows).selected is None && !panel_with_rows(
            v,
            rows,
        ).focused,
{
    if v.rows != rows && rows.len() > 0 {
        let prev = selected_index_or_zero(v);
        let idx = if prev < rows.len() - 1 { prev } else { rows.len() - 1 };
        if v.selected is Some {
            lemma_first_position(row_ids(v.rows), v.selected->0);
        }
        assert(row_ids(rows)[idx] == rows[idx].thread_id);
    }
}

/// The window of rows drawn is a run of `min(visible, rows)` consecutive rows that
/// always contains the selected row.
pub proof fn lemma_selection_stays_visible(v: PanelView, height: int)
    requires
        panel_view_wf(v),
        v.rows.len() > 0,
        visible_rows(height) > 0,
    ensures
        ({
            let len = v.rows.len() as int;
            let visible = visible_rows(height);
            let sel = selected_index_or_zero(v);
            let start = window_start(sel, visible, len);
            let shown = if start + visible <= len { visible } else { len - start };
            &&& 0 <= start
            &&& start + shown <= len
            &&& shown == if visible < len { visible } else { len }
            &&& start <= sel < start + shown
            &&& shown <= MAX_VISIBLE_ROWS
        }),
{
    lemma_first_position(row_ids(v.rows), v.selected->0);
}

/// The panel never asks for more than a heading and `MAX_VISIBLE_ROWS` rows.
pub proof fn lemma_height_is_capped(v: PanelView, width: int)
    ensures
        0 <= panel_height(v, width) <= 1 + MAX_VISIBLE_ROWS,
        v.rows.len() > 0 && width != 0 ==> panel_height(v, width) >= 2,
{
}

/// With focus, Enter opens the selected thread.
pub proof fn lemma_enter_selects(v: PanelView, key: KeyEvent)
    requires
        panel_view_wf(v),
        v.focused,
        key.code == KeyCode::Enter,
        key.kind != KeyEventKind::Release,
    ensures
        panel_after_key(v, key) == (v, AgentPanelAction::Select(v.selected->0)),
{
}

/// With focus, Escape returns to the prompt and drops focus without changing rows or
/// selection.
pub proof fn lemma_escape_returns_to_prompt(v: PanelView, key: KeyEvent)
    requires
        v.focused,
        key.code == KeyCode::Esc,
        key.kind != KeyEventKind::Release,
    ensures
        panel_after_key(v, key).1 == AgentPanelAction::ReturnToPrompt,
        !panel_after_key(v, key).0.focused,
        panel_after_key(v, key).0.rows == v.rows,
        panel_after_key(v, key).0.selected == v.selected,
{
}

/// Moving the selection keeps it among the rows.
pub proof fn lemma_moving_keeps_selection_listed(v: PanelView, delta: int)
    requires
        panel_view_wf(v),
    ensures
        panel_view_wf(panel_moved(v, delta)),
{
    if v.selected is Some {
        lemma_first_position(row_ids(v.rows), v.selected->0);
        let cur = first_position(row_ids(v.rows), v.selected->0)->0;
        let last = v.rows.len() - 1;
        let raw = if cur + delta < 0 { 0 } else { cur + delta };
        let next = if raw < last { raw } else { last };
        assert(row_ids(v.rows)[next] == v.rows[next].thread_id);
    }
}

} // verus!
