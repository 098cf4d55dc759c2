//! Tabs of pane layouts, the sidebar, and the window's keyboard shortcuts.

use vstd::prelude::*;

use crate::keystroke::{only_char, single_char, str_eq, Keystroke};
use crate::split::{
    close_layout, close_run, focus_target, law_removal_run, removal, removal_run, split_layout, Layout, Split,
    SplitDirection,
};

verus! {

/// Tabs beyond this count cannot be opened: each tab is reachable by a digit.
pub const MAX_SELECTABLE_TABS: usize = 9;

/// Select the tab at `index` (Ctrl+1 selects index 0).
#[derive(Clone, Copy, PartialEq, Eq, Debug, Structural)]
pub struct SelectTab {
    pub index: usize,
}

/// An action that a window shortcut triggers.
#[derive(Clone, Copy, PartialEq, Eq, Debug, Structural)]
pub enum ShortcutAction {
    SplitRight,
    SplitDown,
    NewTab,
    CloseActive,
    ToggleSidebar,
    SelectTab(SelectTab),
}

/// What closing the active pane or tab did.
#[derive(Clone, Copy, PartialEq, Eq, Debug, Structural)]
pub enum CloseOutcome {
    /// A pane of the active tab was closed; the pane to focus, if any.
    PaneClosed(Option<u64>),
    /// The active tab, holding a single pane, was closed.
    TabClosed,
    /// Nothing was closed: the last pane of the last tab stays open.
    Ignored,
}

struct Tab {
    split: Split,
    title: String,
}

/// The tabs of the window, which one is active, and whether the sidebar
/// listing them is shown.
pub struct PaneContainer {
    tabs: Vec<Tab>,
    active_tab_index: usize,
    sidebar_visible: bool,
    needs_focus: bool,
}

/// The shortcut that `key` (a key name) with the given modifiers triggers.
pub open spec fn shortcut_for(
    key: Seq<char>,
    shift: bool,
    alt: bool,
    control: bool,
    platform: bool,
) -> Option<ShortcutAction> {
    if alt && !control && !platform && key == seq!['e', 'n', 't', 'e', 'r'] {
        if shift {
            Some(ShortcutAction::SplitDown)
        } else {
            Some(ShortcutAction::SplitRight)
        }
    } else if !control || alt || platform || shift {
        None
    } else if single_char(key) == Some('t') {
        Some(ShortcutAction::NewTab)
    } else if single_char(key) == Some('d') {
        Some(ShortcutAction::CloseActive)
    } else if single_char(key) == Some('b') {
        Some(ShortcutAction::ToggleSidebar)
    } else if key.len() == 1 && '1' <= key[0] <= '9' {
        Some(ShortcutAction::SelectTab(SelectTab { index: ((key[0] as u32) - 0x31) as usize }))
    } else {
        None
    }
}

/// The window shortcut a keystroke triggers, if any.
pub fn shortcut_action(keystroke: &Keystroke) -> (r: Option<ShortcutAction>)
    ensures
        r == shortcut_for(
            keystroke.key@,
            keystroke.modifiers.shift,
            keystroke.modifiers.alt,
            keystroke.modifiers.control,
            keystroke.modifiers.platform,
        ),
{
    let modifiers = keystroke.modifiers;
    let key = keystroke.key.as_str();
    proof {
        reveal_strlit("enter");
        assert("enter"@ =~= seq!['e', 'n', 't', 'e', 'r']);
    }
    if modifiers.alt && !modifiers.control && !modifiers.platform && str_eq(key, "enter") {
        return if modifiers.shift {
            Some(ShortcutAction::SplitDown)
        } else {
            Some(ShortcutAction::SplitRight)
        };
    }
    if !modifiers.control || modifiers.alt || modifiers.platform || modifiers.shift {
        return None;
    }
    match only_char(key) {
        Some('t') => Some(ShortcutAction::NewTab),
        Some('d') => Some(ShortcutAction::CloseActive),
        Some('b') => Some(ShortcutAction::ToggleSidebar),
        Some(c) => if '1' <= c && c <= '9' {
            Some(ShortcutAction::SelectTab(SelectTab { index: (c as u32 - 0x31) as usize }))
        } else {
            None
        },
        None => None,
    }
}

/// The short title of a tab for its working directory: "~" at home, else the
/// directory's last component when it has a nonempty one, else "term".
pub open spec fn dir_title(is_home: bool, file_name: Option<Seq<char>>) -> Seq<char> {
    if is_home {
        seq!['~']
    } else {
        match file_name {
            Some(name) => if name.len() > 0 {
                name
            } else {
                seq!['t', 'e', 'r', 'm']
            },
            None => seq!['t', 'e', 'r', 'm'],
        }
    }
}

/// The short title of a tab for its working directory.
pub fn short_dir_title(is_home: bool, file_name: Option<&str>) -> (r: String)
    ensures
        r@ == dir_title(
            is_home,
            match file_name {
                Some(n) => Some(n@),
                None => None,
            },
        ),
{
    proof {
        reveal_strlit("~");
        reveal_strlit("term");
    }
    if is_home {
        return "~".to_owned();
    }
    match file_name {
        Some(name) => if name.unicode_len() > 0 {
            name.to_owned()
        } else {
            "term".to_owned()
        },
        None => "term".to_owned(),
    }
}

/// The tab that is active after the active tab at `index` is closed: the one
/// before it, or the one that took its place when it was the first.
pub open spec fn tab_after_close(index: int) -> int {
    if index > 0 {
        index - 1
    } else {
        0
    }
}

/// A tab's layout tree after its exited panes close: a tab of one pane is
/// left as it is; otherwise each exited pane is closed in turn.
pub open spec fn exits_tree(split: Split, exited: Option<Seq<u64>>, focused: Option<u64>) -> Layout {
    if split.pane_ids().len() > 1 && exited is Some {
        close_run(split.tree(), split.pane_ids(), split.active(), exited->0, focused)
    } else {
        split.tree()
    }
}

/// A tab's layout after its exited panes close: a tab of one pane is left as
/// it is; otherwise each exited pane is closed in turn.
pub open spec fn exits_outcome(
    split: Split,
    exited: Option<Seq<u64>>,
    focused: Option<u64>,
) -> (Seq<u64>, u64, Option<u64>) {
    if split.pane_ids().len() > 1 && exited is Some {
        removal_run(split.pane_ids(), split.active(), exited->0, focused, None)
    } else {
        (split.pane_ids(), split.active(), None)
    }
}

/// `after` is `before` with the sidebar toggled: shown if it was hidden and
/// hidden if it was shown, with tabs, layouts, titles, the active tab and the
/// focus request kept.
pub open spec fn sidebar_toggled(before: PaneContainer, after: PaneContainer) -> bool {
    &&& after.sidebar_shown() == !before.sidebar_shown()
    &&& after.splits() == before.splits()
    &&& after.titles() == before.titles()
    &&& after.active_tab() == before.active_tab()
    &&& after.focus_pending() == before.focus_pending()
}

impl PaneContainer {
    /// The layout of each tab, in tab order.
    pub closed spec fn splits(self) -> Seq<Split> {
        Seq::new(self.tabs@.len(), |i: int| self.tabs@[i].split)
    }

    /// The title of each tab, in tab order.
    pub closed spec fn titles(self) -> Seq<Seq<char>> {
        Seq::new(self.tabs@.len(), |i: int| self.tabs@[i].title@)
    }

    /// Index of the active tab.
    pub closed spec fn active_tab(self) -> int {
        self.active_tab_index as int
    }

    /// Whether the sidebar is shown.
    pub closed spec fn sidebar_shown(self) -> bool {
        self.sidebar_visible
    }

    /// Whether the active tab's pane still has to take focus.
    pub closed spec fn focus_pending(self) -> bool {
        self.needs_focus
    }

    /// Well-formed: one to nine tabs, a valid active tab, proper layouts.
    pub open spec fn wf(self) -> bool {
        &&& 1 <= self.splits().len() <= MAX_SELECTABLE_TABS
        &&& 0 <= self.active_tab() < self.splits().len()
        &&& self.titles().len() == self.splits().len()
        &&& forall|i: int| 0 <= i < self.splits().len() ==> (#[trigger] self.splits()[i]).wf()
    }

    /// The layout of the active tab.
    pub open spec fn active_layout(self) -> Split {
        self.splits()[self.active_tab()]
    }

    /// A window with one tab holding the single pane `pane`.
    pub fn new(pane: u64, title: String) -> (r: Self)
        ensures
            r.wf(),
            r.splits().len() == 1,
            r.splits()[0].pane_ids() == seq![pane],
            r.splits()[0].active() == pane,
            r.splits()[0].tree() == Layout::Pane(pane),
            r.titles() == seq![title@],
            r.active_tab() == 0,
            r.sidebar_shown(),
            r.focus_pending(),
    {
        let tab = Tab { split: Split::with_pane(pane), title };
        let r = Self {
            tabs: vec![tab],
            active_tab_index: 0,
            sidebar_visible: true,
            needs_focus: true,
        };
        assert(r.splits() =~= seq![r.tabs@[0].split]);
        assert(r.titles() =~= seq![title@]);
        r
    }

    /// Number of tabs.
    pub fn tab_count(&self) -> (r: usize)
        ensures
            r == self.splits().len(),
    {
        self.tabs.len()
    }

    /// Index of the active tab.
    pub fn active_tab_index(&self) -> (r: usize)
        ensures
            r == self.active_tab(),
    {
        self.active_tab_index
    }

    /// Whether the sidebar is shown.
    pub fn is_sidebar_visible(&self) -> (r: bool)
        ensures
            r == self.sidebar_shown(),
    {
        self.sidebar_visible
    }

    /// The layout of the tab at `index`.
    pub fn tab_split(&self, index: usize) -> (r: &Split)
        requires
            index < self.splits().len(),
        ensures
            *r == self.splits()[index as int],
    {
        &self.tabs[index].split
    }

    /// The title of the tab at `index`.
    pub fn tab_title(&self, index: usize) -> (r: &str)
        requires
            index < self.splits().len(),
        ensures
            r@ == self.titles()[index as int],
    {
        self.tabs[index].title.as_str()
    }

    /// The layout of the active tab.
    pub fn active_split(&self) -> (r: &Split)
        requires
            self.wf(),
        ensures
            *r == self.active_layout(),
    {
        &self.tabs[self.active_tab_index].split
    }

    /// Whether another tab can be opened.
    pub fn can_open_tab(&self) -> (r: bool)
        ensures
            r == (self.splits().len() < MAX_SELECTABLE_TABS),
    {
        self.tabs.len() < MAX_SELECTABLE_TABS
    }

    /// Opens a tab holding the single pane `pane` and makes it active, unless
    /// nine tabs are open already.
    pub fn new_tab(&mut self, pane: u64, title: String) -> (r: bool)
        requires
            old(self).wf(),
        ensures
            final(self).wf(),
            r == (old(self).splits().len() < MAX_SELECTABLE_TABS),
            r ==> final(self).splits().len() == old(self).splits().len() + 1,
            r ==> final(self).splits().drop_last() == old(self).splits(),
            r ==> final(self).splits().last().pane_ids() == seq![pane],
            r ==> final(self).splits().last().active() == pane,
            r ==> final(self).splits().last().tree() == Layout::Pane(pane),
            r ==> final(self).titles() == old(self).titles().push(title@),
            r ==> final(self).active_tab() == old(self).splits().len(),
            r ==> final(self).focus_pending(),
            !r ==> final(self).splits() == old(self).splits() && final(self).titles() == old(self).titles() && final(self).active_tab() == old(self).active_tab()
                && final(self).focus_pending() == old(self).focus_pending(),
            final(self).sidebar_shown() == old(self).sidebar_shown(),
    {
        if self.tabs.len() >= MAX_SELECTABLE_TABS {
            return false;
        }
        let tab = Tab { split: Split::with_pane(pane), title };
        self.tabs.push(tab);
        self.active_tab_index = self.tabs.len() - 1;
        self.needs_focus = true;
        proof {
            assert(self.splits().drop_last() =~= old(self).splits());
            assert(self.titles() =~= old(self).titles().push(title@));
            assert forall|i: int| 0 <= i < self.splits().len() implies (
            #[trigger] self.splits()[i]).wf() by {
                if i < old(self).splits().len() {
                    assert(self.splits()[i] == old(self).splits()[i]);
                }
            }
        }
        true
    }

    /// Makes the tab at `index` active, when there is one.
    pub fn activate_tab(&mut self, index: usize)
        requires
            old(self).wf(),
        ensures
            final(self).wf(),
            final(self).splits() == old(self).splits(),
            final(self).titles() == old(self).titles(),
            final(self).sidebar_shown() == old(self).sidebar_shown(),
            index < old(self).splits().len() ==> final(self).active_tab() == index
                && final(self).focus_pending(),
            index >= old(self).splits().len() ==> final(self).active_tab() == old(self).active_tab() && final(self).focus_pending() == old(self).focus_pending(),
    {
        if index >= self.tabs.len() {
            return;
        }
        self.active_tab_index = index;
        self.needs_focus = true;
    }

    /// Shows a hidden sidebar, or hides a shown one; tabs and panes stay as
    /// they are.
    pub fn toggle_sidebar(&mut self)
        requires
            old(self).wf(),
        ensures
            final(self).wf(),
            sidebar_toggled(*old(self), *final(self)),
    {
        self.sidebar_visible = !self.sidebar_visible;
    }

    /// Reports whether the active tab's pane still has to take focus, and
    /// clears that request.
    pub fn take_focus_request(&mut self) -> (r: bool)
        requires
            old(self).wf(),
        ensures
            final(self).wf(),
            r == old(self).focus_pending(),
            !final(self).focus_pending(),
            final(self).splits() == old(self).splits(),
            final(self).titles() == old(self).titles(),
            final(self).active_tab() == old(self).active_tab(),
            final(self).sidebar_shown() == old(self).sidebar_shown(),
    {
        let r = self.needs_focus;
        self.needs_focus = false;
        r
    }

    /// The pane of the active tab to focus: its active pane.
    pub fn focus_active_tab(&mut self) -> (r: Option<u64>)
        requires
            old(self).wf(),
        ensures
            final(self).wf(),
            r == Some(old(self).active_layout().active()),
            final(self).splits() == old(self).splits(),
            final(self).titles() == old(self).titles(),
            final(self).active_tab() == old(self).active_tab(),
            final(self).sidebar_shown() == old(self).sidebar_shown(),
            final(self).focus_pending() == old(self).focus_pending(),
    {
        let a = self.active_tab_index;
        assert(self.splits()[a as int] == self.tabs@[a as int].split);
        let r = self.tabs[a].split.focus_active();
        proof {
            assert(self.tabs@[a as int].split == old(self).tabs@[a as int].split);
            assert(self.splits() =~= old(self).splits());
            assert(self.titles() =~= old(self).titles());
        }
        r
    }

    /// Splits the active pane of the active tab in `direction` with the new
    /// pane `pane`, which becomes active and is returned to take focus.
    pub fn split_active(
        &mut self,
        direction: SplitDirection,
        pane: u64,
        focused: Option<u64>,
    ) -> (r: Option<u64>)
        requires
            old(self).wf(),
            !old(self).active_layout().pane_ids().contains(pane),
            old(self).active_layout().pane_ids().len() < usize::MAX,
            focused is Some ==> old(self).active_layout().pane_ids().contains(focused->0),
        ensures
            final(self).wf(),
            r == Some(pane),
            final(self).active_layout().pane_ids() == old(self).active_layout().pane_ids().insert(
                old(self).active_layout().pane_ids().index_of(
                    focus_target(old(self).active_layout().active(), focused),
                ) + 1,
                pane,
            ),
            final(self).active_layout().active() == pane,
            final(self).active_layout().tree() == split_layout(
                old(self).active_layout().tree(),
                focus_target(old(self).active_layout().active(), focused),
                direction,
                pane,
            ),
            final(self).splits().len() == old(self).splits().len(),
            forall|i: int|
                0 <= i < old(self).splits().len() && i != old(self).active_tab()
                    ==> final(self).splits()[i] == old(self).splits()[i],
            final(self).titles() == old(self).titles(),
            final(self).active_tab() == old(self).active_tab(),
            final(self).sidebar_shown() == old(self).sidebar_shown(),
            final(self).focus_pending() == old(self).focus_pending(),
    {
        let a = self.active_tab_index;
        assert(self.tabs@[a as int].split == old(self).splits()[a as int]);
        self.tabs[a].split.split_active(direction, pane, focused);
        let r = self.tabs[a].split.focus_active();
        proof {
            assert(self.splits()[a as int] == self.tabs@[a as int].split);
            assert(self.titles() =~= old(self).titles());
            assert forall|i: int| 0 <= i < self.splits().len() implies (
            #[trigger] self.splits()[i]).wf() by {
                if i != a as int {
                    assert(self.splits()[i] == old(self).splits()[i]);
                }
            }
        }
        r
    }

    /// Closes the active pane when the active tab holds several, else closes
    /// the active tab when there are several, else does nothing.
    pub fn close_active(&mut self, focused: Option<u64>) -> (r: CloseOutcome)
        requires
            old(self).wf(),
            focused is Some ==> old(self).active_layout().pane_ids().contains(focused->0),
        ensures
            final(self).wf(),
            final(self).sidebar_shown() == old(self).sidebar_shown(),
            ({
                let a = old(self).active_tab();
                let layout = old(self).active_layout();
                let target = focus_target(layout.active(), focused);
                if layout.pane_ids().len() > 1 {
                    &&& r is PaneClosed
                    &&& (final(self).active_layout().pane_ids(), final(self).active_layout().active(), r->PaneClosed_0) == removal(
                        layout.pane_ids(),
                        target,
                        target,
                    )
                    &&& final(self).active_layout().tree() == close_layout(
                        layout.tree(),
                        layout.pane_ids().len() as int,
                        target,
                    )
                    &&& final(self).splits().len() == old(self).splits().len()
                    &&& forall|i: int|
                        0 <= i < old(self).splits().len() && i != a ==> final(self).splits()[i]
                            == old(self).splits()[i]
                    &&& final(self).titles() == old(self).titles()
                    &&& final(self).active_tab() == a
                    &&& final(self).focus_pending() == old(self).focus_pending()
                } else if old(self).splits().len() <= 1 {
                    &&& r is Ignored
                    &&& final(self).splits() == old(self).splits()
                    &&& final(self).titles() == old(self).titles()
                    &&& final(self).active_tab() == a
                    &&& final(self).focus_pending() == old(self).focus_pending()
                } else {
                    &&& r is TabClosed
                    &&& final(self).splits() == old(self).splits().remove(a)
                    &&& final(self).titles() == old(self).titles().remove(a)
                    &&& final(self).active_tab() == tab_after_close(a)
                    &&& final(self).focus_pending()
                }
            }),
    {
        let a = self.active_tab_index;
        assert(self.splits()[a as int] == self.tabs@[a as int].split);
        let pane_count = self.tabs[a].split.pane_count();
        if pane_count > 1 {
            let pane_to_focus = self.tabs[a].split.remove_active_pane(focused);
            proof {
                assert(self.splits()[a as int] == self.tabs@[a as int].split);
                assert(self.titles() =~= old(self).titles());
                assert forall|i: int| 0 <= i < self.splits().len() implies (
                #[trigger] self.splits()[i]).wf() by {
                    if i != a as int {
                        assert(self.splits()[i] == old(self).splits()[i]);
                    }
                }
            }
            return CloseOutcome::PaneClosed(pane_to_focus);
        }
        if self.tabs.len() <= 1 {
            return CloseOutcome::Ignored;
        }
        self.tabs.remove(a);
        let prev: usize = if a > 0 {
            a - 1
        } else {
            0
        };
        self.active_tab_index = if prev < self.tabs.len() - 1 {
            prev
        } else {
            self.tabs.len() - 1
        };
        self.needs_focus = true;
        proof {
            assert(self.splits() =~= old(self).splits().remove(a as int));
            assert(self.titles() =~= old(self).titles().remove(a as int));
            assert forall|i: int| 0 <= i < self.splits().len() implies (
            #[trigger] self.splits()[i]).wf() by {
                if i < a as int {
                    assert(self.splits()[i] == old(self).splits()[i]);
                } else {
                    assert(self.splits()[i] == old(self).splits()[i + 1]);
                }
            }
        }
        CloseOutcome::TabClosed
    }

    /// Closes the exited panes of tabs holding several panes; `exited[i]` lists
    /// the exited panes of tab `i`. Returns the pane to focus after the last
    /// close in the active tab.
    pub fn check_for_exits(&mut self, exited: &Vec<Vec<u64>>, focused: Option<u64>) -> (r:
        Option<u64>)
        requires
            old(self).wf(),
        ensures
            final(self).wf(),
            final(self).splits().len() == old(self).splits().len(),
            forall|i: int|
                0 <= i < old(self).splits().len() ==> ({
                    let o = exits_outcome(
                        old(self).splits()[i],
                        if i < exited@.len() {
                            Some(exited@[i]@)
                        } else {
                            None
                        },
                        focused,
                    );
                    (#[trigger] final(self).splits()[i]).pane_ids() == o.0
                        && final(self).splits()[i].active() == o.1
                        && final(self).splits()[i].tree() == exits_tree(
                        old(self).splits()[i],
                        if i < exited@.len() {
                            Some(exited@[i]@)
                        } else {
                            None
                        },
                        focused,
                    )
                }),
            r == exits_outcome(
                old(self).active_layout(),
                if old(self).active_tab() < exited@.len() {
                    Some(exited@[old(self).active_tab()]@)
                } else {
                    None
                },
                focused,
            ).2,
            final(self).titles() == old(self).titles(),
            final(self).active_tab() == old(self).active_tab(),
            final(self).sidebar_shown() == old(self).sidebar_shown(),
            final(self).focus_pending() == old(self).focus_pending(),
    {
        let a = self.active_tab_index;
        let mut focus_after_remove: Option<u64> = None;
        let mut i: usize = 0;
        while i < self.tabs.len()
            invariant
                self.wf(),
                i <= self.splits().len(),
                self.splits().len() == old(self).splits().len(),
                a == old(self).active_tab(),
                self.active_tab() == a,
                self.titles() == old(self).titles(),
                self.sidebar_shown() == old(self).sidebar_shown(),
                self.focus_pending() == old(self).focus_pending(),
                forall|j: int|
                    i <= j < old(self).splits().len() ==> #[trigger] self.splits()[j] == old(self).splits()[j],
                forall|j: int|
                    0 <= j < i ==> ({
                        let o = exits_outcome(
                            old(self).splits()[j],
                            if j < exited@.len() {
                                Some(exited@[j]@)
                            } else {
                                None
                            },
                            focused,
                        );
                        (#[trigger] self.splits()[j]).pane_ids() == o.0
                            && self.splits()[j].active() == o.1
                            && self.splits()[j].tree() == exits_tree(
                            old(self).splits()[j],
                            if j < exited@.len() {
                                Some(exited@[j]@)
                            } else {
                                None
                            },
                            focused,
                        )
                    }),
                a < i ==> focus_after_remove == exits_outcome(
                    old(self).active_layout(),
                    if a < exited@.len() {
                        Some(exited@[a as int]@)
                    } else {
                        None
                    },
                    focused,
                ).2,
                a >= i ==> focus_after_remove is None,
            decreases old(self).splits().len() - i,
        {
            let ghost before = self.splits();
            assert(self.tabs@[i as int].split == before[i as int]);
            if self.tabs[i].split.pane_count() > 1 && i < exited.len() {
                let r = self.tabs[i].split.remove_exited(&exited[i], focused);
                if i == a {
                    focus_after_remove = r;
                }
            }
            proof {
                assert(self.splits()[i as int] == self.tabs@[i as int].split);
                assert forall|j: int| 0 <= j < self.splits().len() && j != i implies #[trigger] self.splits()[j]
                    == before[j] by {}
                assert forall|j: int| 0 <= j < self.splits().len() implies (
                #[trigger] self.splits()[j]).wf() by {
                    if j != i as int {
                        assert(self.splits()[j] == before[j]);
                    }
                }
                assert(self.titles() =~= old(self).titles());
            }
            i = i + 1;
        }
        focus_after_remove
    }
}

/// Toggling the sidebar twice gives back the window as it was: hiding the
/// sidebar loses no tab, layout or focus state.
pub proof fn law_sidebar_toggle_twice_restores(
    first: PaneContainer,
    second: PaneContainer,
    third: PaneContainer,
)
    requires
        sidebar_toggled(first, second),
        sidebar_toggled(second, third),
    ensures
        third.sidebar_shown() == first.sidebar_shown(),
        third.splits() == first.splits(),
        third.titles() == first.titles(),
        third.active_tab() == first.active_tab(),
        third.focus_pending() == first.focus_pending(),
{
}

/// Ctrl with a digit from 1 to 9, and no other modifier, selects the tab of
/// that number, counting from one.
pub proof fn law_ctrl_digit_selects_tab(d: char)
    requires
        '1' <= d <= '9',
    ensures
        shortcut_for(seq![d], false, false, true, false) == Some(
            ShortcutAction::SelectTab(SelectTab { index: ((d as u32) - 0x31) as usize }),
        ),
{
    assert(seq![d].len() == 1);
    assert(seq![d] != seq!['e', 'n', 't', 'e', 'r']);
}

/// When the active tab closes, the tab shown next is the one before it, or,
/// when it was the first, the one after it.
pub proof fn law_tab_close_shows_neighbour(tabs: Seq<Split>, a: int)
    requires
        2 <= tabs.len(),
        0 <= a < tabs.len(),
    ensures
        0 <= tab_after_close(a) < tabs.len() - 1,
        tabs.remove(a)[tab_after_close(a)] == (if a > 0 {
            tabs[a - 1]
        } else {
            tabs[1]
        }),
{
}

/// Closing the exited panes of a tab never empties it: a tab of one pane is
/// left as it is, the panes left were all there before, each once, and a
/// pane that exited remains only as the tab's last pane.
pub proof fn law_exits_keep_a_pane(split: Split, exited: Option<Seq<u64>>, focused: Option<u64>)
    requires
        split.wf(),
    ensures
        ({
            let o = exits_outcome(split, exited, focused);
            &&& split.pane_ids().len() <= 1 ==> o == (split.pane_ids(), split.active(), None::<u64>)
            &&& o.0.no_duplicates()
            &&& 1 <= o.0.len() <= split.pane_ids().len()
            &&& forall|x: u64| o.0.contains(x) ==> split.pane_ids().contains(x)
            &&& exited is Some ==> forall|x: u64|
                (#[trigger] exited->0.contains(x)) && o.0.contains(x) ==> o.0.len() == 1
        }),
{
    let ids = split.pane_ids();
    assert(ids[ids.index_of(split.active())] == split.active());
    if ids.len() > 1 && exited is Some {
        law_removal_run(ids, split.active(), exited->0, focused, None);
    }
}

} // verus!
