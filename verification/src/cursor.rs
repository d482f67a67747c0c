//! The selection of the viewer: which entry is selected, and which entry is
//! the first visible row.

use vstd::prelude::*;

verus! {

/// A step of the selection.
#[derive(Debug, Clone, Copy, PartialEq, Eq, Structural)]
pub enum Move {
    Up,
    Down,
}

/// Number of rows that a window of `window` rows is taken to show: a window
/// without rows counts as one row.
pub open spec fn rows(window: nat) -> nat {
    if window == 0 {
        1
    } else {
        window
    }
}

/// Selected index and index of the first visible row.
pub struct Position {
    pub selected: nat,
    pub scroll: nat,
}

impl Position {
    /// The position fits a history of `len` entries shown `window` rows at a
    /// time: over an empty history both indices are 0; else the selected
    /// entry exists and lies within the rows that start at `scroll`.
    pub open spec fn valid(self, len: nat, window: nat) -> bool {
        if len == 0 {
            self.selected == 0 && self.scroll == 0
        } else {
            &&& self.scroll <= self.selected < len
            &&& self.selected < self.scroll + rows(window)
        }
    }

    /// The nearest valid position: the selection is pulled back into the
    /// history, and the first row is moved just as far as is needed to keep
    /// the selection visible.
    pub open spec fn clamped(self, len: nat, window: nat) -> Position {
        if len == 0 {
            Position { selected: 0, scroll: 0 }
        } else {
            let selected = if self.selected < len {
                self.selected
            } else {
                (len - 1) as nat
            };
            let scroll = if self.scroll <= selected {
                self.scroll
            } else {
                selected
            };
            Position {
                selected,
                scroll: if selected - scroll >= rows(window) {
                    (selected + 1 - rows(window)) as nat
                } else {
                    scroll
                },
            }
        }
    }

    /// One entry down, stopping at the last entry. The rows follow by one
    /// where the selection leaves them.
    pub open spec fn down(self, len: nat, window: nat) -> Position {
        let at = self.clamped(len, window);
        if at.selected + 1 >= len {
            at
        } else {
            Position {
                selected: at.selected + 1,
                scroll: if at.selected + 1 - at.scroll >= rows(window) {
                    at.scroll + 1
                } else {
                    at.scroll
                },
            }
        }
    }

    /// One entry up, stopping at the first entry. The rows follow by one
    /// where the selection leaves them.
    pub open spec fn up(self, len: nat, window: nat) -> Position {
        let at = self.clamped(len, window);
        if at.selected == 0 {
            at
        } else {
            Position {
                selected: (at.selected - 1) as nat,
                scroll: if at.selected - 1 < at.scroll {
                    (at.scroll - 1) as nat
                } else {
                    at.scroll
                },
            }
        }
    }

    pub open spec fn moved(self, step: Move, len: nat, window: nat) -> Position {
        match step {
            Move::Up => self.up(len, window),
            Move::Down => self.down(len, window),
        }
    }

    /// The position after the steps of `steps`, taken in order.
    pub open spec fn after(self, steps: Seq<Move>, len: nat, window: nat) -> Position
        decreases steps.len(),
    {
        if steps.len() == 0 {
            self
        } else {
            self.after(steps.drop_last(), len, window).moved(steps.last(), len, window)
        }
    }
}

/// Clamping gives a valid position, and leaves a valid position as it is.
pub proof fn lemma_clamped_is_valid(at: Position, len: nat, window: nat)
    ensures
        at.clamped(len, window).valid(len, window),
        at.valid(len, window) ==> at.clamped(len, window) == at,
{
}

/// Whatever the position was, after a step it is valid.
pub proof fn lemma_step_is_valid(at: Position, step: Move, len: nat, window: nat)
    ensures
        at.moved(step, len, window).valid(len, window),
{
}

/// Over a history that is not empty, after every one of any sequence of
/// steps up and down, the selected index names an entry and the first
/// visible row is not past it.
pub proof fn lemma_cursor_invariant(
    start: Position,
    steps: Seq<Move>,
    len: nat,
    window: nat,
    count: int,
)
    requires
        len > 0,
        0 < count <= steps.len(),
    ensures
        start.after(steps.take(count), len, window).valid(len, window),
        0 <= start.after(steps.take(count), len, window).selected < len,
        start.after(steps.take(count), len, window).scroll <= start.after(
            steps.take(count),
            len,
            window,
        ).selected,
{
    let prefix = steps.take(count);
    lemma_step_is_valid(start.after(prefix.drop_last(), len, window), prefix.last(), len, window);
}

/// The selection, in machine integers.
#[derive(Debug, Clone, Copy)]
pub struct Cursor {
    selected: usize,
    scroll: usize,
}

impl View for Cursor {
    type V = Position;

    closed spec fn view(&self) -> Position {
        Position { selected: self.selected as nat, scroll: self.scroll as nat }
    }
}

impl Cursor {
    /// The position over an empty history.
    pub fn new() -> (cursor: Self)
        ensures
            cursor@ == (Position { selected: 0, scroll: 0 }),
    {
        Cursor { selected: 0, scroll: 0 }
    }

    /// Index of the selected entry, as stored.
    pub fn selected_index(&self) -> (index: usize)
        ensures
            index == self@.selected,
    {
        self.selected
    }

    /// Index of the first visible row.
    pub fn scroll_offset(&self) -> (index: usize)
        ensures
            index == self@.scroll,
    {
        self.scroll
    }

    /// The selected entry of a history of `len` entries: none over an empty
    /// history, else the stored index, or the last entry where the stored
    /// index is past it.
    pub fn selection(&self, len: usize) -> (index: Option<usize>)
        ensures
            len == 0 <==> index is None,
            index matches Some(i) ==> i < len && i == self@.clamped(len as nat, 1).selected,
            index matches Some(i) ==> (self@.selected < len ==> i == self@.selected),
    {
        if len == 0 {
            None
        } else if self.selected < len {
            Some(self.selected)
        } else {
            Some(len - 1)
        }
    }

    /// Brings the position back into a history of `len` entries.
    pub fn clamp(&mut self, len: usize, window: usize)
        ensures
            final(self)@ == old(self)@.clamped(len as nat, window as nat),
            final(self)@.valid(len as nat, window as nat),
    {
        if len == 0 {
            self.selected = 0;
            self.scroll = 0;
            return ;
        }
        let rows: usize = if window == 0 {
            1
        } else {
            window
        };
        if self.selected >= len {
            self.selected = len - 1;
        }
        if self.scroll > self.selected {
            self.scroll = self.selected;
        }
        if self.selected - self.scroll >= rows {
            self.scroll = self.selected + 1 - rows;
        }
    }

    /// One entry down; see [`Position::down`].
    pub fn down(&mut self, len: usize, window: usize)
        ensures
            final(self)@ == old(self)@.down(len as nat, window as nat),
            final(self)@.valid(len as nat, window as nat),
    {
        self.clamp(len, window);
        if len > 0 && self.selected < len - 1 {
            self.selected = self.selected + 1;
            let rows: usize = if window == 0 {
                1
            } else {
                window
            };
            if self.selected - self.scroll >= rows {
                self.scroll = self.scroll + 1;
            }
        }
    }

    /// One entry up; see [`Position::up`].
    pub fn up(&mut self, len: usize, window: usize)
        ensures
            final(self)@ == old(self)@.up(len as nat, window as nat),
            final(self)@.valid(len as nat, window as nat),
    {
        self.clamp(len, window);
        if self.selected > 0 {
            self.selected = self.selected - 1;
            if self.selected < self.scroll {
                self.scroll = self.scroll - 1;
            }
        }
    }

    pub fn step(&mut self, step: Move, len: usize, window: usize)
        ensures
            final(self)@ == old(self)@.moved(step, len as nat, window as nat),
            final(self)@.valid(len as nat, window as nat),
    {
        match step {
            Move::Up => self.up(len, window),
            Move::Down => self.down(len, window),
        }
    }
}

} // verus!
