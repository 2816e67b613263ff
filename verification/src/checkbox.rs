use vstd::prelude::*;

verus! {

use vstd::arithmetic::div_mod::lemma_mod_multiples_vanish;
use vstd::arithmetic::div_mod::lemma_mod_self_0;
use vstd::arithmetic::div_mod::lemma_small_mod;
use vstd::pervasive::VecAdditionalExecFns;
use vstd::string::StringExecFns;

/// One key event, as a caller's terminal layer classifies it. Character keys
/// carry the literal character (`j`, `k` and the space bar matter here); keys
/// the widget does not react to arrive as `Other`.
#[derive(Clone, Copy)]
pub enum KeyEvent {
    Up,
    Down,
    Left,
    Right,
    Char(char),
    Escape,
    Enter,
    Other,
}

/// Keys that move the cursor one entry down.
pub open spec fn is_down_key(key: KeyEvent) -> bool {
    key == KeyEvent::Down || key == KeyEvent::Char('j')
}

/// Keys that move the cursor one entry up.
pub open spec fn is_up_key(key: KeyEvent) -> bool {
    key == KeyEvent::Up || key == KeyEvent::Char('k')
}

/// The key that toggles the entry under the cursor.
pub open spec fn is_toggle_key(key: KeyEvent) -> bool {
    key == KeyEvent::Char(' ')
}

/// Keys the widget ignores: everything that neither moves, toggles, nor ends
/// the session.
pub open spec fn is_ignored_key(key: KeyEvent) -> bool {
    &&& !is_down_key(key)
    &&& !is_up_key(key)
    &&& !is_toggle_key(key)
    &&& key != KeyEvent::Escape
    &&& key != KeyEvent::Enter
}

/// True when every real entry (index 1 and up) is selected.
pub open spec fn all_real_selected(flags: Seq<bool>) -> bool {
    forall|i: int| 1 <= i < flags.len() ==> flags[i]
}

/// The "select all" synchronization rule: wherever at least one real entry
/// exists, entry 0 is set exactly when every real entry is.
pub open spec fn synced(flags: Seq<bool>) -> bool {
    flags.len() >= 2 ==> (flags[0] <==> all_real_selected(flags))
}

/// The cursor position one down move after `cursor`, wrapping past the end.
pub open spec fn move_down(cursor: int, n: int) -> int
    recommends
        n >= 1,
{
    (cursor + 1) % n
}

/// The cursor position one up move after `cursor`, wrapping past the start.
pub open spec fn move_up(cursor: int, n: int) -> int
    recommends
        n >= 1,
{
    (cursor - 1 + n) % n
}

/// The selection vector after the space bar is pressed at position `p`.
/// Toggling entry 0 is a bulk set: its new value fans out to every entry.
/// Toggling a real entry flips that entry alone and then re-derives entry 0
/// as the conjunction of all real entries.
pub open spec fn toggle_flags(flags: Seq<bool>, p: int) -> Seq<bool>
    recommends
        0 <= p < flags.len(),
{
    if p == 0 {
        Seq::new(flags.len(), |i: int| !flags[0])
    } else {
        let flipped = flags.update(p, !flags[p]);
        flipped.update(0, all_real_selected(flipped))
    }
}

/// The confirmed result for a selection vector: the indices of the selected
/// real entries, renumbered to the caller's label list (entry `i` of the
/// widget is label `i - 1`), in ascending order.
pub open spec fn selection_of(flags: Seq<bool>) -> Seq<int>
    decreases flags.len(),
{
    if flags.len() <= 1 {
        Seq::empty()
    } else if flags.last() {
        selection_of(flags.drop_last()).push(flags.len() - 2)
    } else {
        selection_of(flags.drop_last())
    }
}

/// A sequence of machine indices, read as mathematical integers.
pub open spec fn seq_as_int(s: Seq<usize>) -> Seq<int> {
    s.map_values(|x: usize| x as int)
}

/// One rendered line: a cursor marker (`>` on the cursor's entry, else a
/// blank), the selection marker in brackets (`x` when selected, else a
/// blank), and the entry's label.
pub open spec fn line_of(cursor_here: bool, checked: bool, label: Seq<char>) -> Seq<char> {
    (if cursor_here {
        ">"@
    } else {
        " "@
    }) + " ["@ + (if checked {
        "x"@
    } else {
        " "@
    }) + "] "@ + label
}

/// A multi-select checkbox menu: an ordered list of entry labels, led by the
/// synthetic "select all" entry, plus the choice whether the rendered lines
/// are erased when the session ends.
pub struct Checkbox {
    pub items: Vec<String>,
    pub clear: bool,
}

impl Checkbox {
    /// The entry labels as sequences of characters, in order.
    pub open spec fn labels(&self) -> Seq<Seq<char>> {
        self.items@.map_values(|s: String| s@)
    }

    /// The "select all" entry is always present, so the list is never empty.
    pub open spec fn wf(&self) -> bool {
        self.items@.len() >= 1
    }

    /// Creates the menu, holding only the "select all" entry, with exit
    /// clearing switched on.
    pub fn new() -> (r: Checkbox)
        ensures
            r.wf(),
            r.labels() =~= seq!["ALL"@],
            r.clear,
    {
        let first: String = "ALL".to_owned();
        Checkbox { items: vec![first], clear: true }
    }

    /// Sets whether the rendered lines are erased when the session ends.
    ///
    /// The default is to erase them.
    pub fn clear(&mut self, val: bool)
        ensures
            final(self).items == old(self).items,
            final(self).clear == val,
    {
        self.clear = val;
    }

    /// Adds a single entry after the existing ones.
    pub fn item(&mut self, item: &str)
        ensures
            old(self).wf() ==> final(self).wf(),
            final(self).labels() =~= old(self).labels().push(item@),
            final(self).clear == old(self).clear,
    {
        self.items.push(item.to_owned());
    }

    /// Adds several entries after the existing ones, in the given order.
    pub fn items(&mut self, items: &[&str])
        ensures
            old(self).wf() ==> final(self).wf(),
            final(self).labels() =~= old(self).labels() + items@.map_values(|s: &str| s@),
            final(self).clear == old(self).clear,
    {
        let n = items.len();
        let mut i: usize = 0;
        while i < n
            invariant
                i <= n,
                n == items@.len(),
                self.labels() =~= old(self).labels() + items@.take(i as int).map_values(
                    |s: &str| s@,
                ),
                self.clear == old(self).clear,
            decreases n - i,
        {
            let next: &str = items[i];
            self.item(next);
            proof {
                assert(items@.take(i + 1).map_values(|s: &str| s@) =~= items@.take(
                    i as int,
                ).map_values(|s: &str| s@).push(next@));
            }
            i += 1;
        }
        proof {
            assert(items@.take(n as int) =~= items@);
        }
    }

    /// Opens an interactive session on this menu: the cursor on entry 0 and
    /// nothing selected.
    pub fn start(&self) -> (s: Session)
        requires
            self.wf(),
        ensures
            s.wf(),
            s.labels() == self.labels(),
            s.clear == self.clear,
            s.cursor == 0,
            s.selected@.len() == self.labels().len(),
            forall|i: int| 0 <= i < s.selected@.len() ==> !s.selected@[i],
    {
        let n = self.items.len();
        let mut selected: Vec<bool> = Vec::new();
        let mut i: usize = 0;
        while i < n
            invariant
                i <= n,
                selected@.len() == i,
                forall|j: int| 0 <= j < i ==> !selected@[j],
            decreases n - i,
        {
            selected.push(false);
            i += 1;
        }
        proof {
            if n >= 2 {
                assert(!all_real_selected(selected@)) by {
                    assert(1 < selected@.len() && !selected@[1]);
                }
            }
        }
        Session { items: self.items.clone(), clear: self.clear, cursor: 0, selected }
    }
}

/// One interactive session's state: the entry labels (fixed for the whole
/// session), the exit-clearing choice, the cursor, and one selection flag per
/// entry.
pub struct Session {
    pub items: Vec<String>,
    pub clear: bool,
    pub cursor: usize,
    pub selected: Vec<bool>,
}

impl Session {
    /// The entry labels as sequences of characters, in order.
    pub open spec fn labels(&self) -> Seq<Seq<char>> {
        self.items@.map_values(|s: String| s@)
    }

    /// A session is well formed when the "select all" entry exists, there is
    /// one flag per entry, the cursor points at an entry, and the selection
    /// vector obeys the synchronization rule.
    pub open spec fn wf(&self) -> bool {
        &&& self.items@.len() >= 1
        &&& self.selected@.len() == self.items@.len()
        &&& self.cursor < self.items@.len()
        &&& synced(self.selected@)
    }

    /// Presses the space bar: toggles the entry under the cursor and restores
    /// the synchronization rule.
    fn toggle(&mut self)
        requires
            old(self).wf(),
        ensures
            final(self).wf(),
            final(self).items == old(self).items,
            final(self).clear == old(self).clear,
            final(self).cursor == old(self).cursor,
            final(self).selected@ == toggle_flags(old(self).selected@, old(self).cursor as int),
    {
        let n = self.selected.len();
        if self.cursor == 0 {
            let b = !self.selected[0];
            let mut i: usize = 0;
            while i < n
                invariant
                    i <= n,
                    n == self.selected@.len(),
                    self.items == old(self).items,
                    self.clear == old(self).clear,
                    self.cursor == old(self).cursor,
                    b == !old(self).selected@[0],
                    forall|j: int| 0 <= j < i ==> self.selected@[j] == b,
                decreases n - i,
            {
                self.selected.set(i, b);
                i += 1;
            }
            proof {
                assert(self.selected@ =~= toggle_flags(old(self).selected@, 0));
                if n >= 2 && !b {
                    assert(!all_real_selected(self.selected@)) by {
                        assert(!self.selected@[1]);
                    }
                }
            }
        } else {
            let p = self.cursor;
            let b = !self.selected[p];
            self.selected.set(p, b);
            let ghost flipped = self.selected@;
            let mut all = true;
            let mut i: usize = 1;
            while i < n
                invariant
                    1 <= i <= n,
                    n == self.selected@.len(),
                    self.items == old(self).items,
                    self.clear == old(self).clear,
                    self.cursor == old(self).cursor,
                    self.selected@ == flipped,
                    all == (forall|j: int| 1 <= j < i ==> flipped[j]),
                decreases n - i,
            {
                let cur = self.selected[i];
                all = all && cur;
                i += 1;
            }
            proof {
                assert(all == all_real_selected(flipped));
            }
            self.selected.set(0, all);
            proof {
                assert(all_real_selected(self.selected@) == all_real_selected(flipped)) by {
                    assert(forall|j: int|
                        1 <= j < self.selected@.len() ==> self.selected@[j] == flipped[j]);
                }
            }
        }
    }

    /// Renders the current frame: one line per entry, in entry order.
    pub fn render_lines(&self) -> (r: Vec<String>)
        requires
            self.selected@.len() == self.items@.len(),
        ensures
            r@.len() == self.items@.len(),
            forall|i: int|
                0 <= i < r@.len() ==> r@[i]@ == line_of(
                    i == self.cursor as int,
                    self.selected@[i],
                    self.labels()[i],
                ),
    {
        let n = self.items.len();
        let mut lines: Vec<String> = Vec::new();
        let mut i: usize = 0;
        while i < n
            invariant
                i <= n,
                n == self.items@.len(),
                self.selected@.len() == self.items@.len(),
                lines@.len() == i,
                forall|j: int|
                    0 <= j < i ==> lines@[j]@ == line_of(
                        j == self.cursor as int,
                        self.selected@[j],
                        self.labels()[j],
                    ),
            decreases n - i,
        {
            let marker: &str = if i == self.cursor {
                ">"
            } else {
                " "
            };
            let tick: &str = if self.selected[i] {
                "x"
            } else {
                " "
            };
            let mut line: String = marker.to_owned();
            line.append(" [");
            line.append(tick);
            line.append("] ");
            line.append(self.items[i].as_str());
            lines.push(line);
            i += 1;
        }
        lines
    }

    /// The confirmed result for the current selection vector: the ascending,
    /// zero-based label indices of the selected real entries.
    pub fn selection(&self) -> (r: Vec<usize>)
        ensures
            seq_as_int(r@) == selection_of(self.selected@),
    {
        let n = self.selected.len();
        let mut out: Vec<usize> = Vec::new();
        let mut i: usize = 0;
        while i < n
            invariant
                i <= n,
                n == self.selected@.len(),
                seq_as_int(out@) == selection_of(self.selected@.take(i as int)),
            decreases n - i,
        {
            if i > 0 && self.selected[i] {
                out.push(i - 1);
            }
            proof {
                let f = self.selected@;
                let t = f.take(i as int + 1);
                if i >= 1 {
                    assert(t.drop_last() =~= f.take(i as int));
                    assert(t.last() == f[i as int]);
                    if f[i as int] {
                        assert(seq_as_int(out@) =~= selection_of(f.take(i as int)).push(
                            i as int - 1,
                        ));
                    }
                }
                assert(seq_as_int(out@) == selection_of(t));
            }
            i += 1;
        }
        proof {
            assert(self.selected@.take(n as int) =~= self.selected@);
        }
        out
    }

    /// Applies one key event to the session. Returns `None` while the
    /// session goes on, and `Some` result exactly when the key ends it:
    /// the current selection on enter, an empty result on escape.
    pub fn step(&mut self, key: KeyEvent) -> (r: Option<Vec<usize>>)
        requires
            old(self).wf(),
        ensures
            final(self).wf(),
            final(self).items == old(self).items,
            final(self).clear == old(self).clear,
            (r is Some) <==> (key == KeyEvent::Escape || key == KeyEvent::Enter),
            is_down_key(key) ==> {
                &&& final(self).selected == old(self).selected
                &&& final(self).cursor as int == move_down(
                    old(self).cursor as int,
                    old(self).items@.len() as int,
                )
            },
            is_up_key(key) ==> {
                &&& final(self).selected == old(self).selected
                &&& final(self).cursor as int == move_up(
                    old(self).cursor as int,
                    old(self).items@.len() as int,
                )
            },
            is_toggle_key(key) ==> {
                &&& final(self).cursor == old(self).cursor
                &&& final(self).selected@ == toggle_flags(
                    old(self).selected@,
                    old(self).cursor as int,
                )
            },
            key == KeyEvent::Escape ==> {
                &&& *final(self) == *old(self)
                &&& r matches Some(v) && v@.len() == 0
            },
            key == KeyEvent::Enter ==> {
                &&& *final(self) == *old(self)
                &&& r matches Some(v) && seq_as_int(v@) == selection_of(old(self).selected@)
            },
            is_ignored_key(key) ==> *final(self) == *old(self),
    {
        let n = self.items.len();
        match key {
            KeyEvent::Down | KeyEvent::Char('j') => {
                let next = self.cursor + 1;
                self.cursor = if next == n {
                    0
                } else {
                    next
                };
                proof {
                    if next == n {
                        lemma_mod_self_0(n as int);
                    } else {
                        lemma_small_mod(next as nat, n as nat);
                    }
                }
                None
            },
            KeyEvent::Up | KeyEvent::Char('k') => {
                let prev = self.cursor;
                self.cursor = if prev == 0 {
                    n - 1
                } else {
                    prev - 1
                };
                proof {
                    if prev == 0 {
                        lemma_small_mod((n - 1) as nat, n as nat);
                    } else {
                        lemma_mod_multiples_vanish(1, prev - 1, n as int);
                        lemma_small_mod((prev - 1) as nat, n as nat);
                        assert(n as int * 1 + (prev - 1) == prev - 1 + n);
                    }
                }
                None
            },
            KeyEvent::Char(' ') => {
                self.toggle();
                None
            },
            KeyEvent::Escape => Some(Vec::new()),
            KeyEvent::Enter => Some(self.selection()),
            _ => None,
        }
    }
}

} // verus!
