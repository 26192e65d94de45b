//! The editor state: a document, a cursor, and a scroll offset, advanced by
//! one key at a time; plus the pure cursor-movement and scrolling rules.

use vstd::prelude::*;

use crate::document::{doc_delete, doc_delete_mutates, doc_insert, Document};
use crate::grapheme::graphemes;

verus! {

/// How many further quit confirmations are asked for while unsaved changes
/// exist.
pub const QUIT_TIMES: u8 = 3;

/// A cursor coordinate: grapheme column `x` within line `y`.
#[derive(Clone, Copy, Debug, PartialEq, Eq, Structural)]
pub struct Position {
    pub x: usize,
    pub y: usize,
}

impl Default for Position {
    /// The top-left position.
    fn default() -> (r: Position)
        ensures
            r.x == 0 && r.y == 0,
    {
        Position { x: 0, y: 0 }
    }
}

/// The dimensions of the text area of the terminal.
#[derive(Clone, Copy, Debug, PartialEq, Eq, Structural)]
pub struct Size {
    pub width: u16,
    pub height: u16,
}

/// A decoded keystroke, as the editor distinguishes them.
#[derive(Clone, Copy, Debug, PartialEq, Eq, Structural)]
pub enum Key {
    Up,
    Down,
    Left,
    Right,
    PageUp,
    PageDown,
    Home,
    End,
    Delete,
    Backspace,
    Enter,
    Char(char),
    Quit,
    Save,
    Other,
}

/// What the surrounding loop must do after a keystroke is processed.
#[derive(Clone, Copy, Debug, PartialEq, Eq, Structural)]
pub enum Outcome {
    /// Nothing beyond redrawing.
    Continue,
    /// Run the save dialogue.
    RequestSave,
    /// Warn that unsaved changes exist; the count says how many further
    /// quit keystrokes are still asked for.
    WarnUnsaved(u8),
}

/// The grapheme count of line `y`, or 0 where no such line exists.
pub open spec fn line_width(lines: Seq<Seq<char>>, y: int) -> int {
    if 0 <= y < lines.len() {
        graphemes(lines[y]).len() as int
    } else {
        0
    }
}

/// Where the cursor comes to rest after one movement key: the stepped
/// coordinate, with the column then clamped to the width of the line the
/// cursor lands on. The row may rest one line past the last.
pub open spec fn move_cursor_spec(x: int, y: int, key: Key, lines: Seq<Seq<char>>, th: int) -> (
    int,
    int,
) {
    let height = lines.len() as int;
    let width = line_width(lines, y);
    let stepped = match key {
        Key::Up => (x, if y > 0 { y - 1 } else { 0 }),
        Key::Down => (x, if y < height { y + 1 } else { y }),
        Key::Left => if x > 0 {
            (x - 1, y)
        } else if y > 0 {
            (line_width(lines, y - 1), y - 1)
        } else {
            (x, y)
        },
        Key::Right => if x < width {
            (x + 1, y)
        } else if y < height {
            (0, y + 1)
        } else {
            (x, y)
        },
        Key::PageUp => (x, if y > th { y - th } else { 0 }),
        Key::PageDown => (x, if y + th < height { y + th } else { height }),
        Key::Home => (0, y),
        Key::End => (width, y),
        _ => (x, y),
    };
    let w2 = line_width(lines, stepped.1);
    ((if stepped.0 > w2 { w2 } else { stepped.0 }), stepped.1)
}

/// One scroll coordinate: the smallest shift that brings `c` back into the
/// window `[off, off + extent)`, held within the machine range.
pub open spec fn scroll_1d(c: int, off: int, extent: int) -> int {
    if c < off {
        c
    } else if c - off >= extent {
        if c - extent + 1 <= usize::MAX {
            c - extent + 1
        } else {
            usize::MAX as int
        }
    } else {
        off
    }
}

/// Scrolling is idempotent: with the cursor unmoved, scrolling again from
/// the offset the first scroll produced yields that offset unchanged, in
/// each coordinate, for any window of at least one column and one row.
pub proof fn lemma_scroll_idempotent(cursor: Position, off: Position, w: int, h: int)
    requires
        1 <= w,
        1 <= h,
    ensures
        ({
            let ox = scroll_1d(cursor.x as int, off.x as int, w);
            let oy = scroll_1d(cursor.y as int, off.y as int, h);
            scroll_1d(cursor.x as int, ox, w) == ox && scroll_1d(cursor.y as int, oy, h) == oy
        }),
{
}

/// The confirmation counter after any keystroke other than a warned quit:
/// restored to its full value once it had been lowered.
pub open spec fn quit_reset(times: u8) -> u8 {
    if times < QUIT_TIMES {
        QUIT_TIMES
    } else {
        times
    }
}

/// The offset of `post` is that of `pre` scrolled just enough to show the
/// cursor of `post` in a `w` by `h` window.
pub open spec fn after_scroll(pre: Editor, post: Editor, w: int, h: int) -> bool {
    &&& post.offset.x == scroll_1d(post.cursor_position.x as int, pre.offset.x as int, w)
    &&& post.offset.y == scroll_1d(post.cursor_position.y as int, pre.offset.y as int, h)
}

/// `post` holds the given lines and dirty flag and keeps the file name of
/// `pre`.
pub open spec fn doc_after(post: Document, pre: Document, lines: Seq<Seq<char>>, dirty: bool) -> bool {
    &&& post@ == lines
    &&& post.spec_dirty() == dirty
    &&& post.spec_file_name() == pre.spec_file_name()
}

/// What one keystroke does to the whole editor state, and what it asks of
/// the surrounding loop.
pub open spec fn keypress_spec(pre: Editor, post: Editor, key: Key, size: Size, out: Outcome) -> bool {
    let x0 = pre.cursor_position.x as int;
    let y0 = pre.cursor_position.y as int;
    let d0 = pre.document@;
    let th = size.height as int;
    let w = size.width as int;
    let h = size.height as int;
    match key {
        Key::Quit => if pre.quit_times > 0 && pre.document.spec_dirty() {
            &&& post.document == pre.document
            &&& post.cursor_position == pre.cursor_position
            &&& post.offset == pre.offset
            &&& post.should_quit == pre.should_quit
            &&& post.quit_times == pre.quit_times - 1
            &&& out == Outcome::WarnUnsaved(pre.quit_times)
        } else {
            &&& post.document == pre.document
            &&& post.cursor_position == pre.cursor_position
            &&& after_scroll(pre, post, w, h)
            &&& post.should_quit
            &&& post.quit_times == quit_reset(pre.quit_times)
            &&& out == Outcome::Continue
        },
        Key::Save => {
            &&& post.document == pre.document
            &&& post.cursor_position == pre.cursor_position
            &&& after_scroll(pre, post, w, h)
            &&& post.should_quit == pre.should_quit
            &&& post.quit_times == quit_reset(pre.quit_times)
            &&& out == Outcome::RequestSave
        },
        Key::Up | Key::Down | Key::Left | Key::Right | Key::PageUp | Key::PageDown | Key::Home
            | Key::End => {
            let m = move_cursor_spec(x0, y0, key, d0, th);
            &&& post.document == pre.document
            &&& post.cursor_position.x == m.0
            &&& post.cursor_position.y == m.1
            &&& after_scroll(pre, post, w, h)
            &&& post.should_quit == pre.should_quit
            &&& post.quit_times == quit_reset(pre.quit_times)
            &&& out == Outcome::Continue
        },
        Key::Delete => {
            &&& doc_after(
                post.document,
                pre.document,
                doc_delete(d0, x0, y0),
                pre.document.spec_dirty() || doc_delete_mutates(d0, x0, y0),
            )
            &&& post.cursor_position == pre.cursor_position
            &&& after_scroll(pre, post, w, h)
            &&& post.should_quit == pre.should_quit
            &&& post.quit_times == quit_reset(pre.quit_times)
            &&& out == Outcome::Continue
        },
        Key::Backspace => {
            if x0 > 0 || y0 > 0 {
                let m = move_cursor_spec(x0, y0, Key::Left, d0, th);
                &&& doc_after(
                    post.document,
                    pre.document,
                    doc_delete(d0, m.0, m.1),
                    pre.document.spec_dirty() || doc_delete_mutates(d0, m.0, m.1),
                )
                &&& post.cursor_position.x == m.0
                &&& post.cursor_position.y == m.1
                &&& after_scroll(pre, post, w, h)
                &&& post.should_quit == pre.should_quit
                &&& post.quit_times == quit_reset(pre.quit_times)
                &&& out == Outcome::Continue
            } else {
                &&& post.document == pre.document
                &&& post.cursor_position == pre.cursor_position
                &&& after_scroll(pre, post, w, h)
                &&& post.should_quit == pre.should_quit
                &&& post.quit_times == quit_reset(pre.quit_times)
                &&& out == Outcome::Continue
            }
        },
        Key::Enter | Key::Char(_) => {
            let c = if key is Enter {
                '\n'
            } else {
                key->Char_0
            };
            let d1 = doc_insert(d0, x0, y0, c);
            let m = move_cursor_spec(x0, y0, Key::Right, d1, th);
            &&& doc_after(
                post.document,
                pre.document,
                d1,
                pre.document.spec_dirty() || y0 <= d0.len(),
            )
            &&& post.cursor_position.x == m.0
            &&& post.cursor_position.y == m.1
            &&& after_scroll(pre, post, w, h)
            &&& post.should_quit == pre.should_quit
            &&& post.quit_times == quit_reset(pre.quit_times)
            &&& out == Outcome::Continue
        },
        Key::Other => {
            &&& post.document == pre.document
            &&& post.cursor_position == pre.cursor_position
            &&& after_scroll(pre, post, w, h)
            &&& post.should_quit == pre.should_quit
            &&& post.quit_times == quit_reset(pre.quit_times)
            &&& out == Outcome::Continue
        },
    }
}

/// The editor state that one keystroke at a time advances.
pub struct Editor {
    pub should_quit: bool,
    pub cursor_position: Position,
    pub document: Document,
    pub offset: Position,
    pub quit_times: u8,
}

impl Editor {
    /// The document's rows all carry a current grapheme count.
    pub open spec fn wf(self) -> bool {
        self.document.wf()
    }

    /// An editor over the given document, with the cursor and the scroll
    /// offset at the top-left and the full confirmation count.
    pub fn new(document: Document) -> (e: Editor)
        requires
            document.wf(),
        ensures
            e.document == document,
            e.cursor_position.x == 0 && e.cursor_position.y == 0,
            e.offset.x == 0 && e.offset.y == 0,
            !e.should_quit,
            e.quit_times == QUIT_TIMES,
            e.wf(),
    {
        Editor {
            should_quit: false,
            cursor_position: Position { x: 0, y: 0 },
            document,
            offset: Position { x: 0, y: 0 },
            quit_times: QUIT_TIMES,
        }
    }

    /// Steps the cursor by one movement key and clamps its column to the
    /// line it lands on; nothing else changes.
    pub fn move_cursor(&mut self, key: Key, terminal_height: usize)
        requires
            old(self).wf(),
        ensures
            final(self).wf(),
            ({
                let m = move_cursor_spec(
                    old(self).cursor_position.x as int,
                    old(self).cursor_position.y as int,
                    key,
                    old(self).document@,
                    terminal_height as int,
                );
                final(self).cursor_position.x == m.0 && final(self).cursor_position.y == m.1
            }),
            final(self).document == old(self).document,
            final(self).offset == old(self).offset,
            final(self).should_quit == old(self).should_quit,
            final(self).quit_times == old(self).quit_times,
    {
        let height = self.document.len();
        let mut x = self.cursor_position.x;
        let mut y = self.cursor_position.y;
        let width = match self.document.row(y) {
            Some(row) => row.len(),
            None => 0,
        };
        match key {
            Key::Up => {
                y = if y > 0 {
                    y - 1
                } else {
                    0
                };
            },
            Key::Down => {
                if y < height {
                    y = y + 1;
                }
            },
            Key::Left => {
                if x > 0 {
                    x = x - 1;
                } else if y > 0 {
                    y = y - 1;
                    x = match self.document.row(y) {
                        Some(row) => row.len(),
                        None => 0,
                    };
                }
            },
            Key::Right => {
                if x < width {
                    x = x + 1;
                } else if y < height {
                    y = y + 1;
                    x = 0;
                }
            },
            Key::PageUp => {
                y = if y > terminal_height {
                    y - terminal_height
                } else {
                    0
                };
            },
            Key::PageDown => {
                y = if y < height && terminal_height < height - y {
                    y + terminal_height
                } else {
                    height
                };
            },
            Key::Home => {
                x = 0;
            },
            Key::End => {
                x = width;
            },
            _ => {},
        }
        let new_width = match self.document.row(y) {
            Some(row) => row.len(),
            None => 0,
        };
        if x > new_width {
            x = new_width;
        }
        self.cursor_position = Position { x, y };
    }

    /// Shifts the scroll offset by the least amount that brings the cursor
    /// back into a `width` by `height` window; nothing else changes.
    pub fn scroll(&mut self, width: usize, height: usize)
        ensures
            after_scroll(*old(self), *final(self), width as int, height as int),
            final(self).document == old(self).document,
            final(self).cursor_position == old(self).cursor_position,
            final(self).should_quit == old(self).should_quit,
            final(self).quit_times == old(self).quit_times,
    {
        let x = self.cursor_position.x;
        let y = self.cursor_position.y;
        let mut ox = self.offset.x;
        let mut oy = self.offset.y;
        if y < oy {
            oy = y;
        } else if y - oy >= height {
            let t = y - height;
            oy = if t < usize::MAX {
                t + 1
            } else {
                t
            };
        }
        if x < ox {
            ox = x;
        } else if x - ox >= width {
            let t = x - width;
            ox = if t < usize::MAX {
                t + 1
            } else {
                t
            };
        }
        self.offset = Position { x: ox, y: oy };
    }

    /// Applies one keystroke: an edit or a cursor move, then the scroll that
    /// keeps the cursor visible, then the upkeep of the quit confirmation
    /// counter; tells the surrounding loop what it must do in turn.
    pub fn process_keypress(&mut self, key: Key, size: &Size) -> (out: Outcome)
        requires
            old(self).wf(),
        ensures
            final(self).wf(),
            keypress_spec(*old(self), *final(self), key, *size, out),
    {
        let th = size.height as usize;
        let mut out = Outcome::Continue;
        match key {
            Key::Quit => {
                if self.quit_times > 0 && self.document.is_dirty() {
                    let warned = self.quit_times;
                    self.quit_times = self.quit_times - 1;
                    return Outcome::WarnUnsaved(warned);
                }
                self.should_quit = true;
            },
            Key::Save => {
                out = Outcome::RequestSave;
            },
            Key::Up | Key::Down | Key::Left | Key::Right | Key::PageUp | Key::PageDown
                | Key::Home | Key::End => {
                self.move_cursor(key, th);
            },
            Key::Delete => {
                let pos = self.cursor_position;
                self.document.delete(&pos);
            },
            Key::Backspace => {
                if self.cursor_position.x > 0 || self.cursor_position.y > 0 {
                    self.move_cursor(Key::Left, th);
                    let pos = self.cursor_position;
                    self.document.delete(&pos);
                }
            },
            Key::Enter => {
                let pos = self.cursor_position;
                self.document.insert(&pos, '\n');
                self.move_cursor(Key::Right, th);
            },
            Key::Char(c) => {
                let pos = self.cursor_position;
                self.document.insert(&pos, c);
                self.move_cursor(Key::Right, th);
            },
            Key::Other => {},
        }
        self.scroll(size.width as usize, size.height as usize);
        if self.quit_times < QUIT_TIMES {
            self.quit_times = QUIT_TIMES;
        }
        out
    }
}

} // verus!
