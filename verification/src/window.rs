//! The grid of panels, the focus, and the clipboard the panels share.

use crate::config::{Config, ConfigView, WindowAction};
use crate::disk::{Reply, ReplyView, Request, RequestView};
use crate::keys::KeyEvent;
use crate::panel::{Panel, PanelView};
use crate::tasks::{AfterView, TaskView};
use vstd::prelude::*;

verus! {

/// The panels of a session, tiled in rows, with the focus on one of them.
#[derive(Debug)]
pub struct Window {
    /// The rows of the grid, top to bottom; each row holds its panels left to
    /// right.
    pub panels: Vec<Vec<Panel>>,
    /// The row of the focused panel.
    pub panel_focus_i: usize,
    /// The column of the focused panel within its row.
    pub panel_focus_j: usize,
    /// The paths last copied, shared by all panels.
    pub clipboard: Vec<String>,
    pub config: Config,
}

/// The mathematical value of a [`Window`].
#[verifier::ext_equal]
pub struct WindowView {
    pub panels: Seq<Seq<PanelView>>,
    pub panel_focus_i: usize,
    pub panel_focus_j: usize,
    pub clipboard: Seq<Seq<char>>,
    pub config: ConfigView,
}

impl View for Window {
    type V = WindowView;

    open spec fn view(&self) -> WindowView {
        WindowView {
            panels: self.panels.deep_view(),
            panel_focus_i: self.panel_focus_i,
            panel_focus_j: self.panel_focus_j,
            clipboard: self.clipboard.deep_view(),
            config: self.config@,
        }
    }
}

/// The reading again of a directory that another panel's work may have
/// changed.
pub open spec fn refresh_task() -> TaskView {
    TaskView::Reload { after: AfterView::Keep, changed: false }
}

/// The first panel at or after column `from` of `row` that has work pending.
pub open spec fn busy_in(row: Seq<PanelView>, from: int) -> Option<int>
    decreases row.len() - from,
{
    if from < 0 || from >= row.len() {
        None
    } else if row[from].pending.len() > 0 {
        Some(from)
    } else {
        busy_in(row, from + 1)
    }
}

/// The first panel, row by row from row `from`, that has work pending.
pub open spec fn busy_from(panels: Seq<Seq<PanelView>>, from: int) -> Option<(int, int)>
    decreases panels.len() - from,
{
    if from < 0 || from >= panels.len() {
        None
    } else {
        match busy_in(panels[from], 0) {
            Some(column) => Some((from, column)),
            None => busy_from(panels, from + 1),
        }
    }
}

impl WindowView {
    /// The invariant of a window: there is a row, no row is empty, the focus
    /// is on a panel, and every panel is well formed.
    #[verifier::opaque]
    pub open spec fn wf(self) -> bool {
        &&& self.panels.len() > 0
        &&& forall|i: int| 0 <= i < self.panels.len() ==> (#[trigger] self.panels[i]).len() > 0
        &&& self.panel_focus_i < self.panels.len()
        &&& self.panel_focus_j < self.panels[self.panel_focus_i as int].len()
        &&& forall|i: int, j: int|
            0 <= i < self.panels.len() && 0 <= j < self.panels[i].len() ==> (
            #[trigger] self.panels[i][j]).wf()
    }

    /// The focused panel.
    pub open spec fn focused(self) -> PanelView {
        self.panels[self.panel_focus_i as int][self.panel_focus_j as int]
    }

    /// A window with the one panel it starts with, opened on `dir`.
    pub open spec fn initial(config: ConfigView, dir: Seq<char>) -> WindowView {
        WindowView {
            panels: seq![seq![PanelView::fresh(dir)]],
            panel_focus_i: 0,
            panel_focus_j: 0,
            clipboard: Seq::empty(),
            config,
        }
    }

    /// The window with the focus moved to row `i`, the column kept where the
    /// row is long enough and else put on the row's last panel.
    pub open spec fn focus_row(self, i: usize) -> WindowView {
        let last = self.panels[i as int].len() - 1;
        WindowView {
            panel_focus_i: i,
            panel_focus_j: if self.panel_focus_j <= last {
                self.panel_focus_j
            } else {
                last as usize
            },
            ..self
        }
    }

    /// The focus moved one row up, if there is one.
    pub open spec fn pane_up(self) -> WindowView {
        if self.panel_focus_i > 0 {
            self.focus_row((self.panel_focus_i - 1) as usize)
        } else {
            self
        }
    }

    /// The focus moved one row down, if there is one.
    pub open spec fn pane_down(self) -> WindowView {
        if self.panel_focus_i + 1 < self.panels.len() {
            self.focus_row((self.panel_focus_i + 1) as usize)
        } else {
            self
        }
    }

    /// The focus moved one column left, if there is one.
    pub open spec fn pane_left(self) -> WindowView {
        if self.panel_focus_j > 0 {
            WindowView { panel_focus_j: (self.panel_focus_j - 1) as usize, ..self }
        } else {
            self
        }
    }

    /// The focus moved one column right, if there is one.
    pub open spec fn pane_right(self) -> WindowView {
        if self.panel_focus_j + 1 < self.panels[self.panel_focus_i as int].len() {
            WindowView { panel_focus_j: (self.panel_focus_j + 1) as usize, ..self }
        } else {
            self
        }
    }

    /// A new panel on the focused panel's working directory.
    pub open spec fn offspring(self) -> PanelView {
        PanelView::fresh(self.focused().working_directory)
    }

    /// A new row of one panel put in as row `at`, with the focus on it.
    pub open spec fn split_row(self, at: int) -> WindowView {
        WindowView {
            panels: self.panels.insert(at, seq![self.offspring()]),
            panel_focus_i: at as usize,
            panel_focus_j: 0,
            ..self
        }
    }

    /// A new panel put into the focused row as column `at`, with the focus
    /// on it.
    pub open spec fn split_column(self, at: int) -> WindowView {
        let i = self.panel_focus_i as int;
        WindowView {
            panels: self.panels.update(i, self.panels[i].insert(at, self.offspring())),
            panel_focus_j: at as usize,
            ..self
        }
    }

    /// The window after the focused panel was closed. In a row of several
    /// panels the panel leaves and the focus moves one column left, staying
    /// at column 0. A row of one panel leaves as a whole where it is not the
    /// only row, and the focus moves one row up, staying at row 0. The only
    /// panel of a window stays.
    pub open spec fn closed(self) -> WindowView {
        let i = self.panel_focus_i as int;
        let j = self.panel_focus_j as int;
        if self.panels[i].len() > 1 {
            WindowView {
                panels: self.panels.update(i, self.panels[i].remove(j)),
                panel_focus_j: if j > 0 {
                    (j - 1) as usize
                } else {
                    0
                },
                ..self
            }
        } else if self.panels.len() > 1 {
            WindowView {
                panels: self.panels.remove(i),
                panel_focus_i: if i > 0 {
                    (i - 1) as usize
                } else {
                    0
                },
                panel_focus_j: 0,
                ..self
            }
        } else {
            self
        }
    }

    /// The window after an action of its own.
    pub open spec fn applied(self, action: WindowAction) -> WindowView {
        match action {
            WindowAction::PaneUp => self.pane_up(),
            WindowAction::PaneDown => self.pane_down(),
            WindowAction::PaneLeft => self.pane_left(),
            WindowAction::PaneRight => self.pane_right(),
            WindowAction::SplitUp => self.split_row(self.panel_focus_i as int),
            WindowAction::SplitDown => self.split_row(self.panel_focus_i + 1),
            WindowAction::SplitLeft => self.split_column(self.panel_focus_j as int),
            WindowAction::SplitRight => self.split_column(self.panel_focus_j + 1),
            WindowAction::CloseActive => self.closed(),
        }
    }

    /// The window with the panel at row `i`, column `j` replaced.
    pub open spec fn with_panel(self, i: int, j: int, panel: PanelView) -> WindowView {
        WindowView { panels: self.panels.update(i, self.panels[i].update(j, panel)), ..self }
    }

    /// The window after a key event: an action of the window is applied to
    /// the window; any other key goes to the focused panel.
    pub open spec fn keyed(self, key: KeyEvent) -> WindowView {
        match self.config.window_action(key) {
            Some(action) => self.applied(action),
            None => WindowView {
                clipboard: self.focused().clipboard_keyed(key, self.clipboard, self.config),
                ..self.with_panel(
                    self.panel_focus_i as int,
                    self.panel_focus_j as int,
                    self.focused().keyed(key, self.clipboard, self.config),
                )
            },
        }
    }

    /// The directory to end the session in, where the key asked the focused
    /// panel to quit.
    pub open spec fn quits(self, key: KeyEvent) -> Option<Seq<char>> {
        if self.config.window_action(key) is None && self.focused().key_report(
            key,
            self.config,
        ).quit {
            Some(self.focused().working_directory)
        } else {
            None
        }
    }

    /// The panel whose request is the next to perform: the focused panel
    /// where it has work pending, else the first panel, row by row, that
    /// has.
    pub open spec fn turn(self) -> Option<(int, int)> {
        if self.focused().pending.len() > 0 {
            Some((self.panel_focus_i as int, self.panel_focus_j as int))
        } else {
            busy_from(self.panels, 0)
        }
    }

    /// The primitive the caller is to perform next, if any.
    pub open spec fn request(self) -> Option<RequestView> {
        match self.turn() {
            Some((i, j)) => self.panels[i][j].request(),
            None => None,
        }
    }

    /// The window in which every panel but the one at row `i`, column `j`
    /// has one more reading of its directory scheduled.
    pub open spec fn refreshed_others(self, i: int, j: int) -> WindowView {
        WindowView {
            panels: Seq::new(
                self.panels.len(),
                |a: int|
                    Seq::new(
                        self.panels[a].len(),
                        |b: int|
                            if a == i && b == j {
                                self.panels[a][b]
                            } else {
                                self.panels[a][b].scheduled(refresh_task())
                            },
                    ),
            ),
            ..self
        }
    }

    /// The window after the caller's reply to its request. The reply goes to
    /// the panel whose turn it is; where that panel reports that the disk was
    /// changed, every other panel is made to read its directory again.
    pub open spec fn resumed(self, reply: ReplyView) -> WindowView {
        match self.turn() {
            Some((i, j)) => {
                let next = self.with_panel(i, j, self.panels[i][j].resumed(reply));
                if self.panels[i][j].resume_report(reply).should_refresh {
                    next.refreshed_others(i, j)
                } else {
                    next
                }
            },
            None => self,
        }
    }
}

/// A panel found busy lies in the row and has work pending.
pub proof fn lemma_busy_in(row: Seq<PanelView>, from: int)
    ensures
        busy_in(row, from) matches Some(j) ==> from <= j < row.len() && row[j].pending.len() > 0,
    decreases row.len() - from,
{
    if 0 <= from < row.len() && row[from].pending.len() == 0 {
        lemma_busy_in(row, from + 1);
    }
}

/// A panel found busy lies in the grid and has work pending.
pub proof fn lemma_busy_from(panels: Seq<Seq<PanelView>>, from: int)
    ensures
        busy_from(panels, from) matches Some((i, j)) ==> from <= i < panels.len() && 0 <= j
            < panels[i].len() && panels[i][j].pending.len() > 0,
    decreases panels.len() - from,
{
    if 0 <= from < panels.len() {
        lemma_busy_in(panels[from], 0);
        if busy_in(panels[from], 0) is None {
            lemma_busy_from(panels, from + 1);
        }
    }
}

/// In a well-formed window the focus is on a panel, which is well formed.
pub proof fn lemma_focus_within(window: WindowView)
    requires
        window.wf(),
    ensures
        window.panel_focus_i < window.panels.len(),
        window.panel_focus_j < window.panels[window.panel_focus_i as int].len(),
        window.focused().wf(),
{
    reveal(WindowView::wf);
}

/// In a well-formed window every panel is well formed and no row is empty.
pub proof fn lemma_panel_within(window: WindowView, i: int, j: int)
    requires
        window.wf(),
        0 <= i < window.panels.len(),
    ensures
        window.panels[i].len() > 0,
        0 <= j < window.panels[i].len() ==> window.panels[i][j].wf(),
{
    reveal(WindowView::wf);
}

/// A window stays well formed when one of its panels is replaced by a
/// well-formed panel.
pub proof fn lemma_with_panel_wf(window: WindowView, i: int, j: int, panel: PanelView)
    requires
        window.wf(),
        0 <= i < window.panels.len(),
        0 <= j < window.panels[i].len(),
        panel.wf(),
    ensures
        window.with_panel(i, j, panel).wf(),
{
    reveal(WindowView::wf);
    let next = window.with_panel(i, j, panel);
    assert forall|a: int| 0 <= a < next.panels.len() implies (#[trigger] next.panels[a]).len()
        > 0 by {
        assert(window.panels[a].len() > 0);
    }
    assert forall|a: int, b: int|
        0 <= a < next.panels.len() && 0 <= b < next.panels[a].len() implies (
    #[trigger] next.panels[a][b]).wf() by {
        if a != i || b != j {
            assert(window.panels[a][b].wf());
        }
    }
}

/// A window stays well formed under each action of its own.
pub proof fn lemma_applied_wf(window: WindowView, action: WindowAction)
    requires
        window.wf(),
        window.panels.len() <= usize::MAX,
        window.panels[window.panel_focus_i as int].len() <= usize::MAX,
    ensures
        window.applied(action).wf(),
{
    reveal(WindowView::wf);
    let next = window.applied(action);
    let i = window.panel_focus_i as int;
    let j = window.panel_focus_j as int;
    assert(window.focused().wf());
    assert(window.offspring().wf());
    assert(window.panels[i].len() > 0);
    match action {
        WindowAction::PaneUp => {
            if i > 0 {
                assert(window.panels[i - 1].len() > 0);
            }
        },
        WindowAction::PaneDown => {
            if i + 1 < window.panels.len() {
                assert(window.panels[i + 1].len() > 0);
            }
        },
        WindowAction::PaneLeft => {},
        WindowAction::PaneRight => {},
        WindowAction::SplitUp => {
            lemma_insert_row_wf(window, i);
        },
        WindowAction::SplitDown => {
            lemma_insert_row_wf(window, i + 1);
        },
        WindowAction::SplitLeft => {
            lemma_insert_column_wf(window, j);
        },
        WindowAction::SplitRight => {
            lemma_insert_column_wf(window, j + 1);
        },
        WindowAction::CloseActive => {
            lemma_closed_wf(window);
        },
    }
}

proof fn lemma_insert_row_wf(window: WindowView, at: int)
    requires
        window.wf(),
        0 <= at <= window.panels.len(),
        at <= usize::MAX,
    ensures
        window.split_row(at).wf(),
{
    reveal(WindowView::wf);
    let next = window.split_row(at);
    assert(window.focused().wf());
    assert forall|a: int| 0 <= a < next.panels.len() implies (#[trigger] next.panels[a]).len()
        > 0 by {
        if a < at {
            assert(next.panels[a] == window.panels[a]);
        } else if a > at {
            assert(next.panels[a] == window.panels[a - 1]);
        }
    }
    assert forall|a: int, b: int|
        0 <= a < next.panels.len() && 0 <= b < next.panels[a].len() implies (
    #[trigger] next.panels[a][b]).wf() by {
        if a < at {
            assert(next.panels[a][b] == window.panels[a][b]);
        } else if a > at {
            assert(next.panels[a][b] == window.panels[a - 1][b]);
        }
    }
}

proof fn lemma_insert_column_wf(window: WindowView, at: int)
    requires
        window.wf(),
        0 <= at <= window.panels[window.panel_focus_i as int].len(),
        at <= usize::MAX,
    ensures
        window.split_column(at).wf(),
{
    reveal(WindowView::wf);
    let next = window.split_column(at);
    let i = window.panel_focus_i as int;
    assert(window.focused().wf());
    assert forall|a: int| 0 <= a < next.panels.len() implies (#[trigger] next.panels[a]).len()
        > 0 by {
        assert(window.panels[a].len() > 0);
    }
    assert forall|a: int, b: int|
        0 <= a < next.panels.len() && 0 <= b < next.panels[a].len() implies (
    #[trigger] next.panels[a][b]).wf() by {
        if a != i {
            assert(next.panels[a][b] == window.panels[a][b]);
        } else if b < at {
            assert(next.panels[a][b] == window.panels[a][b]);
        } else if b > at {
            assert(next.panels[a][b] == window.panels[a][b - 1]);
        }
    }
}

proof fn lemma_closed_wf(window: WindowView)
    requires
        window.wf(),
    ensures
        window.closed().wf(),
{
    reveal(WindowView::wf);
    let next = window.closed();
    let i = window.panel_focus_i as int;
    let j = window.panel_focus_j as int;
    if window.panels[i].len() > 1 {
        assert forall|a: int| 0 <= a < next.panels.len() implies (#[trigger] next.panels[a]).len()
            > 0 by {
            assert(window.panels[a].len() > 0);
        }
        assert forall|a: int, b: int|
            0 <= a < next.panels.len() && 0 <= b < next.panels[a].len() implies (
        #[trigger] next.panels[a][b]).wf() by {
            if a != i {
                assert(next.panels[a][b] == window.panels[a][b]);
            } else if b < j {
                assert(next.panels[a][b] == window.panels[a][b]);
            } else {
                assert(next.panels[a][b] == window.panels[a][b + 1]);
            }
        }
    } else if window.panels.len() > 1 {
        assert forall|a: int| 0 <= a < next.panels.len() implies (#[trigger] next.panels[a]).len()
            > 0 by {
            if a < i {
                assert(next.panels[a] == window.panels[a]);
            } else {
                assert(next.panels[a] == window.panels[a + 1]);
            }
        }
        assert forall|a: int, b: int|
            0 <= a < next.panels.len() && 0 <= b < next.panels[a].len() implies (
        #[trigger] next.panels[a][b]).wf() by {
            if a < i {
                assert(next.panels[a][b] == window.panels[a][b]);
            } else {
                assert(next.panels[a][b] == window.panels[a + 1][b]);
            }
        }
    }
}

impl Window {
    /// How the fields relate to the view.
    proof fn lemma_view(&self)
        ensures
            self@.panels.len() == self.panels.len(),
            forall|i: int|
                0 <= i < self.panels.len() ==> #[trigger] self@.panels[i]
                    == self.panels[i].deep_view(),
            forall|i: int|
                0 <= i < self.panels.len() ==> (#[trigger] self@.panels[i]).len()
                    == self.panels[i].len(),
            forall|i: int, j: int|
                0 <= i < self.panels.len() && 0 <= j < self.panels[i].len()
                    ==> #[trigger] self@.panels[i][j] == self.panels[i][j]@,
    {
    }

    /// A window with one panel, opened on `current_dir`.
    pub fn new(config: Config, current_dir: String) -> (window: Window)
        ensures
            window@ == WindowView::initial(config@, current_dir@),
            window@.wf(),
    {
        let mut row: Vec<Panel> = Vec::new();
        row.push(Panel::new(current_dir));
        let mut panels: Vec<Vec<Panel>> = Vec::new();
        panels.push(row);
        let window = Window {
            panels,
            panel_focus_i: 0,
            panel_focus_j: 0,
            clipboard: Vec::new(),
            config,
        };
        proof {
            window.lemma_view();
            assert(window@.panels[0] =~= seq![PanelView::fresh(current_dir@)]);
            assert(window@.panels =~= seq![seq![PanelView::fresh(current_dir@)]]);
            assert(window@.clipboard =~= Seq::empty());
            assert(window@ =~= WindowView::initial(config@, current_dir@));
            reveal(WindowView::wf);
        }
        window
    }

    /// The focused panel.
    pub fn panel(&self) -> (panel: &Panel)
        requires
            self@.wf(),
        ensures
            panel@ == self@.focused(),
    {
        proof {
            self.lemma_view();
            lemma_focus_within(self@);
        }
        &self.panels[self.panel_focus_i][self.panel_focus_j]
    }

    /// Moves the focus to row `i`, keeping the column where it can.
    fn focus_row(&mut self, i: usize)
        requires
            old(self)@.wf(),
            i < old(self)@.panels.len(),
        ensures
            final(self)@ == old(self)@.focus_row(i),
    {
        proof {
            self.lemma_view();
            lemma_panel_within(self@, i as int, 0);
        }
        let last = self.panels[i].len() - 1;
        self.panel_focus_i = i;
        if self.panel_focus_j > last {
            self.panel_focus_j = last;
        }
    }

    /// Moves the focus one row up.
    pub fn pane_up(&mut self)
        requires
            old(self)@.wf(),
        ensures
            final(self)@ == old(self)@.pane_up(),
            final(self)@.wf(),
    {
        proof {
            self.lemma_view();
            lemma_focus_within(self@);
            lemma_applied_wf(self@, WindowAction::PaneUp);
        }
        if self.panel_focus_i > 0 {
            self.focus_row(self.panel_focus_i - 1);
        }
    }

    /// Moves the focus one row down.
    pub fn pane_down(&mut self)
        requires
            old(self)@.wf(),
        ensures
            final(self)@ == old(self)@.pane_down(),
            final(self)@.wf(),
    {
        proof {
            self.lemma_view();
            lemma_focus_within(self@);
            lemma_applied_wf(self@, WindowAction::PaneDown);
        }
        if self.panel_focus_i + 1 < self.panels.len() {
            self.focus_row(self.panel_focus_i + 1);
        }
    }

    /// Moves the focus one column left.
    pub fn pane_left(&mut self)
        requires
            old(self)@.wf(),
        ensures
            final(self)@ == old(self)@.pane_left(),
            final(self)@.wf(),
    {
        proof {
            self.lemma_view();
            lemma_focus_within(self@);
            lemma_applied_wf(self@, WindowAction::PaneLeft);
        }
        if self.panel_focus_j > 0 {
            self.panel_focus_j -= 1;
        }
    }

    /// Moves the focus one column right.
    pub fn pane_right(&mut self)
        requires
            old(self)@.wf(),
        ensures
            final(self)@ == old(self)@.pane_right(),
            final(self)@.wf(),
    {
        proof {
            self.lemma_view();
            lemma_focus_within(self@);
            lemma_applied_wf(self@, WindowAction::PaneRight);
        }
        if self.panel_focus_j + 1 < self.panels[self.panel_focus_i].len() {
            self.panel_focus_j += 1;
        }
    }

    /// A new panel on the focused panel's working directory.
    fn offspring(&self) -> (panel: Panel)
        requires
            self@.wf(),
        ensures
            panel@ == self@.offspring(),
    {
        Panel::new(self.panel().working_directory.clone())
    }

    /// Puts a new row of one panel in as row `at` and focuses it.
    fn split_row(&mut self, at: usize)
        requires
            old(self)@.wf(),
            at <= old(self)@.panels.len(),
        ensures
            final(self)@ == old(self)@.split_row(at as int),
    {
        let mut row: Vec<Panel> = Vec::new();
        let panel = self.offspring();
        row.push(panel);
        assert(row.deep_view() =~= seq![old(self)@.offspring()]);
        proof {
            self.lemma_view();
        }
        self.panels.insert(at, row);
        self.panel_focus_i = at;
        self.panel_focus_j = 0;
        proof {
            self.lemma_view();
            let wanted = old(self)@.panels.insert(at as int, seq![old(self)@.offspring()]);
            assert(self@.panels.len() == wanted.len());
            assert forall|a: int| 0 <= a < wanted.len() implies self@.panels[a] == wanted[a] by {
                if a < at {
                    assert(self.panels@[a] == old(self).panels@[a]);
                } else if a > at {
                    assert(self.panels@[a] == old(self).panels@[a - 1]);
                }
            }
            assert(self@.panels =~= wanted);
        }
    }

    /// Puts a new panel into the focused row as column `at` and focuses it.
    fn split_column(&mut self, at: usize)
        requires
            old(self)@.wf(),
            at <= old(self)@.panels[old(self)@.panel_focus_i as int].len(),
        ensures
            final(self)@ == old(self)@.split_column(at as int),
    {
        let panel = self.offspring();
        let i = self.panel_focus_i;
        proof {
            self.lemma_view();
            lemma_focus_within(self@);
        }
        self.panels[i].insert(at, panel);
        self.panel_focus_j = at;
        proof {
            self.lemma_view();
            let row = old(self)@.panels[i as int].insert(at as int, old(self)@.offspring());
            assert(self@.panels[i as int] =~= row);
            let wanted = old(self)@.panels.update(i as int, row);
            assert forall|a: int| 0 <= a < wanted.len() implies self@.panels[a] == wanted[a] by {
                if a != i {
                    assert(self.panels@[a] == old(self).panels@[a]);
                }
            }
            assert(self@.panels =~= wanted);
        }
    }

    /// Splits the focused panel upwards: a new row above it takes the focus.
    pub fn split_up(&mut self)
        requires
            old(self)@.wf(),
        ensures
            final(self)@ == old(self)@.split_row(old(self)@.panel_focus_i as int),
            final(self)@.wf(),
    {
        proof {
            self.lemma_view();
            lemma_focus_within(self@);
            lemma_applied_wf(self@, WindowAction::SplitUp);
        }
        self.split_row(self.panel_focus_i);
    }

    /// Splits the focused panel downwards: a new row below it takes the
    /// focus.
    pub fn split_down(&mut self)
        requires
            old(self)@.wf(),
        ensures
            final(self)@ == old(self)@.split_row(old(self)@.panel_focus_i + 1),
            final(self)@.wf(),
    {
        proof {
            self.lemma_view();
            lemma_focus_within(self@);
            lemma_applied_wf(self@, WindowAction::SplitDown);
        }
        self.split_row(self.panel_focus_i + 1);
    }

    /// Splits the focused panel to the left: a new panel before it takes the
    /// focus.
    pub fn split_left(&mut self)
        requires
            old(self)@.wf(),
        ensures
            final(self)@ == old(self)@.split_column(old(self)@.panel_focus_j as int),
            final(self)@.wf(),
    {
        proof {
            self.lemma_view();
            lemma_focus_within(self@);
            lemma_applied_wf(self@, WindowAction::SplitLeft);
        }
        self.split_column(self.panel_focus_j);
    }

    /// Splits the focused panel to the right: a new panel after it takes the
    /// focus.
    pub fn split_right(&mut self)
        requires
            old(self)@.wf(),
        ensures
            final(self)@ == old(self)@.split_column(old(self)@.panel_focus_j + 1),
            final(self)@.wf(),
    {
        proof {
            self.lemma_view();
            lemma_focus_within(self@);
            lemma_applied_wf(self@, WindowAction::SplitRight);
        }
        self.split_column(self.panel_focus_j + 1);
    }

    /// Closes the focused panel, unless it is the only one.
    pub fn close_active(&mut self)
        requires
            old(self)@.wf(),
        ensures
            final(self)@ == old(self)@.closed(),
            final(self)@.wf(),
    {
        proof {
            self.lemma_view();
            lemma_focus_within(self@);
            lemma_applied_wf(self@, WindowAction::CloseActive);
        }
        let i = self.panel_focus_i;
        let j = self.panel_focus_j;
        if self.panels[i].len() > 1 {
            self.panels[i].remove(j);
            if j > 0 {
                self.panel_focus_j = j - 1;
            }
            proof {
                self.lemma_view();
                let row = old(self)@.panels[i as int].remove(j as int);
                assert(self@.panels[i as int] =~= row);
                let wanted = old(self)@.panels.update(i as int, row);
                assert forall|a: int| 0 <= a < wanted.len() implies self@.panels[a]
                    == wanted[a] by {
                    if a != i {
                        assert(self.panels@[a] == old(self).panels@[a]);
                    }
                }
                assert(self@.panels =~= wanted);
            }
        } else if self.panels.len() > 1 {
            self.panels.remove(i);
            if i > 0 {
                self.panel_focus_i = i - 1;
            }
            self.panel_focus_j = 0;
            proof {
                self.lemma_view();
                let wanted = old(self)@.panels.remove(i as int);
                assert forall|a: int| 0 <= a < wanted.len() implies self@.panels[a]
                    == wanted[a] by {
                    if a < i {
                        assert(self.panels@[a] == old(self).panels@[a]);
                    } else {
                        assert(self.panels@[a] == old(self).panels@[a + 1]);
                    }
                }
                assert(self@.panels =~= wanted);
            }
        }
    }

    /// Applies an action of the window.
    pub fn apply(&mut self, action: WindowAction)
        requires
            old(self)@.wf(),
        ensures
            final(self)@ == old(self)@.applied(action),
            final(self)@.wf(),
    {
        match action {
            WindowAction::PaneUp => self.pane_up(),
            WindowAction::PaneDown => self.pane_down(),
            WindowAction::PaneLeft => self.pane_left(),
            WindowAction::PaneRight => self.pane_right(),
            WindowAction::SplitUp => self.split_up(),
            WindowAction::SplitDown => self.split_down(),
            WindowAction::SplitLeft => self.split_left(),
            WindowAction::SplitRight => self.split_right(),
            WindowAction::CloseActive => self.close_active(),
        }
    }
}

/// A window stays well formed when every panel but one has a reading of its
/// directory scheduled.
pub proof fn lemma_refreshed_others_wf(window: WindowView, i: int, j: int)
    requires
        window.wf(),
    ensures
        window.refreshed_others(i, j).wf(),
{
    reveal(WindowView::wf);
    let next = window.refreshed_others(i, j);
    assert forall|a: int| 0 <= a < next.panels.len() implies (#[trigger] next.panels[a]).len()
        > 0 by {
        assert(window.panels[a].len() > 0);
    }
    assert forall|a: int, b: int|
        0 <= a < next.panels.len() && 0 <= b < next.panels[a].len() implies (
    #[trigger] next.panels[a][b]).wf() by {
        assert(window.panels[a][b].wf());
    }
}

/// A window stays well formed when it takes a reply.
pub proof fn lemma_resumed_wf(window: WindowView, reply: ReplyView)
    requires
        window.wf(),
        window.turn() matches Some((i, j)) ==> 0 <= i < window.panels.len() && 0 <= j
            < window.panels[i].len() && window.panels[i][j].resumed(reply).wf(),
    ensures
        window.resumed(reply).wf(),
{
    if let Some((i, j)) = window.turn() {
        let next = window.with_panel(i, j, window.panels[i][j].resumed(reply));
        lemma_with_panel_wf(window, i, j, window.panels[i][j].resumed(reply));
        lemma_refreshed_others_wf(next, i, j);
    }
}

/// Whether `after` is `before` with one more reading of its directory
/// scheduled in every panel but the one at column `skip`.
pub open spec fn refreshed_row(before: Vec<Panel>, after: Vec<Panel>, skip: Option<usize>)
    -> bool {
    &&& after.len() == before.len()
    &&& forall|y: int|
        0 <= y < before.len() ==> (#[trigger] after[y])@ == if skip == Some(y as usize) {
            before[y]@
        } else {
            before[y]@.scheduled(refresh_task())
        }
}

/// Schedules one more reading of its directory in every panel of `row` but
/// the one at column `skip`.
fn refresh_row(row: &mut Vec<Panel>, skip: Option<usize>)
    ensures
        refreshed_row(*old(row), *final(row), skip),
{
    let mut b: usize = 0;
    while b < row.len()
        invariant
            b <= row.len(),
            row.len() == old(row).len(),
            forall|y: int|
                0 <= y < old(row).len() ==> (#[trigger] row[y])@ == if skip == Some(y as usize)
                    || y >= b {
                    old(row)[y]@
                } else {
                    old(row)[y]@.scheduled(refresh_task())
                },
        decreases row.len() - b,
    {
        if skip != Some(b) {
            row[b].schedule_refresh();
        }
        b += 1;
    }
}

impl Window {
    /// What the view is once the panel at row `i`, column `j` has changed
    /// and nothing else has.
    proof fn lemma_panel_replaced(&self, before: &Window, i: int, j: int)
        requires
            0 <= i < before.panels.len(),
            0 <= j < before.panels[i].len(),
            self.panels.len() == before.panels.len(),
            forall|a: int|
                0 <= a < before.panels.len() ==> (#[trigger] self.panels[a]).len()
                    == before.panels[a].len(),
            forall|a: int, b: int|
                0 <= a < before.panels.len() && 0 <= b < before.panels[a].len() && (a != i || b
                    != j) ==> #[trigger] self.panels[a][b] == before.panels[a][b],
        ensures
            self@.panels == before@.panels.update(
                i,
                before@.panels[i].update(j, self.panels[i][j]@),
            ),
    {
        self.lemma_view();
        before.lemma_view();
        let wanted = before@.panels.update(i, before@.panels[i].update(j, self.panels[i][j]@));
        assert forall|a: int| 0 <= a < wanted.len() implies self@.panels[a] == wanted[a] by {
            assert(self@.panels[a].len() == wanted[a].len());
            assert forall|b: int| 0 <= b < wanted[a].len() implies self@.panels[a][b]
                == wanted[a][b] by {
                if a != i || b != j {
                    assert(self.panels[a][b] == before.panels[a][b]);
                }
            }
            assert(self@.panels[a] =~= wanted[a]);
        }
        assert(self@.panels =~= wanted);
    }

    /// Hands a key to the focused panel.
    fn forward_key(&mut self, key: KeyEvent) -> (quit: bool)
        requires
            old(self)@.wf(),
        ensures
            final(self)@ == (WindowView {
                clipboard: old(self)@.focused().clipboard_keyed(
                    key,
                    old(self)@.clipboard,
                    old(self)@.config,
                ),
                ..old(self)@.with_panel(
                    old(self)@.panel_focus_i as int,
                    old(self)@.panel_focus_j as int,
                    old(self)@.focused().keyed(key, old(self)@.clipboard, old(self)@.config),
                )
            }),
            quit == old(self)@.focused().key_report(key, old(self)@.config).quit,
            final(self)@.wf(),
    {
        let i = self.panel_focus_i;
        let j = self.panel_focus_j;
        proof {
            self.lemma_view();
            lemma_focus_within(self@);
        }
        let result = self.panels[i][j].process_key_event(key, &mut self.clipboard, &self.config);
        proof {
            self.lemma_panel_replaced(old(self), i as int, j as int);
            let next = old(self)@.with_panel(i as int, j as int, self.panels[i as int][j as int]@);
            lemma_with_panel_wf(old(self)@, i as int, j as int, self.panels[i as int][j as int]@);
            assert(self@.panels == next.panels);
            reveal(WindowView::wf);
        }
        result.quit
    }

    /// Handles one key event: an action of the window is applied to the
    /// window, any other key goes to the focused panel. Returns the directory
    /// to end the session in where the key asked to quit.
    pub fn handle_key(&mut self, key: KeyEvent) -> (quit: Option<String>)
        requires
            old(self)@.wf(),
        ensures
            final(self)@ == old(self)@.keyed(key),
            quit.deep_view() == old(self)@.quits(key),
            final(self)@.wf(),
    {
        match self.config.window_action(&key) {
            Some(action) => {
                self.apply(action);
                None
            },
            None => {
                let dir = self.panel().working_directory.clone();
                if self.forward_key(key) {
                    Some(dir)
                } else {
                    None
                }
            },
        }
    }

    /// The first panel at or after column `from` of row `i` that has work
    /// pending.
    fn busy_in_row(&self, i: usize) -> (found: Option<usize>)
        requires
            i < self.panels.len(),
        ensures
            found matches Some(j) ==> j < self.panels[i as int].len(),
            match found {
                Some(j) => busy_in(self@.panels[i as int], 0) == Some(j as int),
                None => busy_in(self@.panels[i as int], 0) is None,
            },
    {
        proof {
            self.lemma_view();
        }
        let ghost row = self@.panels[i as int];
        let mut j: usize = 0;
        while j < self.panels[i].len()
            invariant
                i < self.panels.len(),
                row == self@.panels[i as int],
                row.len() == self.panels[i as int].len(),
                forall|b: int| 0 <= b < row.len() ==> row[b] == self.panels[i as int][b]@,
                j <= row.len(),
                busy_in(row, 0) == busy_in(row, j as int),
            decreases self.panels[i as int].len() - j,
        {
            if self.panels[i][j].pending.len() > 0 {
                return Some(j);
            }
            j += 1;
        }
        None
    }

    /// The panel whose request is the next to perform.
    fn turn(&self) -> (turn: Option<(usize, usize)>)
        requires
            self@.wf(),
        ensures
            turn matches Some((i, j)) ==> i < self.panels.len() && j < self.panels[i as int].len(),
            match turn {
                Some((i, j)) => self@.turn() == Some((i as int, j as int)),
                None => self@.turn() is None,
            },
    {
        proof {
            self.lemma_view();
            lemma_focus_within(self@);
        }
        if self.panels[self.panel_focus_i][self.panel_focus_j].pending.len() > 0 {
            return Some((self.panel_focus_i, self.panel_focus_j));
        }
        let ghost grid = self@.panels;
        assert(self@.turn() == busy_from(grid, 0));
        let mut i: usize = 0;
        while i < self.panels.len()
            invariant
                self@.turn() == busy_from(grid, 0),
                grid == self@.panels,
                grid.len() == self.panels.len(),
                i <= grid.len(),
                busy_from(grid, 0) == busy_from(grid, i as int),
            decreases self.panels.len() - i,
        {
            match self.busy_in_row(i) {
                Some(j) => {
                    assert(busy_from(grid, i as int) == Some((i as int, j as int)));
                    return Some((i, j));
                },
                None => {
                    assert(busy_from(grid, i as int) == busy_from(grid, i + 1));
                },
            }
            i += 1;
        }
        None
    }

    /// The primitive the caller is to perform next; none while the window
    /// waits for a key.
    pub fn next_request(&self) -> (request: Option<Request>)
        requires
            self@.wf(),
        ensures
            request.deep_view() == self@.request(),
    {
        match self.turn() {
            Some((i, j)) => {
                proof {
                    self.lemma_view();
                }
                self.panels[i][j].next_request()
            },
            None => None,
        }
    }

    /// Schedules one more reading of its directory in every panel but the
    /// one at row `i`, column `j`.
    fn refresh_others(&mut self, i: usize, j: usize)
        ensures
            final(self)@ == old(self)@.refreshed_others(i as int, j as int),
    {
        let ghost before = *old(self);
        let mut a: usize = 0;
        while a < self.panels.len()
            invariant
                a <= self.panels.len(),
                self.panels.len() == before.panels.len(),
                self.panel_focus_i == before.panel_focus_i,
                self.panel_focus_j == before.panel_focus_j,
                self.clipboard == before.clipboard,
                self.config == before.config,
                forall|x: int|
                    a <= x < before.panels.len() ==> #[trigger] self.panels[x] == before.panels[x],
                forall|x: int|
                    0 <= x < a ==> refreshed_row(
                        before.panels[x],
                        #[trigger] self.panels[x],
                        if x == i {
                            Some(j)
                        } else {
                            None
                        },
                    ),
            decreases self.panels.len() - a,
        {
            let skip = if a == i {
                Some(j)
            } else {
                None
            };
            refresh_row(&mut self.panels[a], skip);
            a += 1;
        }
        proof {
            self.lemma_view();
            before.lemma_view();
            let wanted = before@.refreshed_others(i as int, j as int).panels;
            assert forall|x: int| 0 <= x < wanted.len() implies self@.panels[x] == wanted[x] by {
                assert(refreshed_row(
                    before.panels[x],
                    self.panels[x],
                    if x == i {
                        Some(j)
                    } else {
                        None
                    },
                ));
                assert(self@.panels[x].len() == wanted[x].len());
                assert forall|y: int| 0 <= y < wanted[x].len() implies self@.panels[x][y]
                    == wanted[x][y] by {
                    assert(self.panels[x][y]@ == if x != i || y != j {
                        before.panels[x][y]@.scheduled(refresh_task())
                    } else {
                        before.panels[x][y]@
                    });
                }
                assert(self@.panels[x] =~= wanted[x]);
            }
            assert(self@.panels =~= wanted);
        }
    }

    /// Takes the caller's reply to the request last handed out and gives it
    /// to the panel that asked. Where that panel reports that the disk was
    /// changed, every other panel is made to read its directory again.
    pub fn resume(&mut self, reply: Reply)
        requires
            old(self)@.wf(),
        ensures
            final(self)@ == old(self)@.resumed(reply@),
            final(self)@.wf(),
    {
        match self.turn() {
            Some((i, j)) => {
                proof {
                    self.lemma_view();
                    lemma_panel_within(self@, i as int, j as int);
                }
                let result = self.panels[i][j].resume(reply);
                proof {
                    self.lemma_panel_replaced(old(self), i as int, j as int);
                    lemma_with_panel_wf(
                        old(self)@,
                        i as int,
                        j as int,
                        self.panels[i as int][j as int]@,
                    );
                    lemma_resumed_wf(old(self)@, reply@);
                }
                if result.should_refresh {
                    proof {
                        lemma_refreshed_others_wf(self@, i as int, j as int);
                    }
                    self.refresh_others(i, j);
                }
            },
            None => {},
        }
    }
}

} // verus!
