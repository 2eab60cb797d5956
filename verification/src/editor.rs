pub mod buffer;
pub mod command;
pub mod cursor;
pub mod document;
pub mod mode;
pub mod position;
pub mod status;
pub mod utils;

use crate::escape::{csi_chars, CSI};
use crate::event::Key;
use crate::size::TermSize;
use crate::spec_digits;
use crate::text::{chars_to_string, clusters, spec_decimal, to_decimal};
use buffer::cursor::spec_step_free;
use buffer::line::line_len_at;
use buffer::{lines_delete_at, lines_insert_at, lines_merge_at, lines_split_at, Buffer};
use command::Command;
use cursor::direction::spec_direction_of;
use cursor::Direction;
use mode::Mode;
use position::Position;
use status::message::Message;
use status::Status;
use vstd::prelude::*;
use vstd::string::StringExecFns;

verus! {

/// Cursor shape the terminal should switch to after a key is handled.
#[derive(Debug, Clone, Copy, PartialEq, Eq, Structural)]
pub enum CursorStyle {
    BlinkingBlock,
    BlinkingBar,
}

/// What a handled key asks of the surroundings: a cursor-shape change to
/// print, and whether the buffer should be written out.
#[derive(Debug, Clone, Copy, PartialEq, Eq, Structural)]
pub struct KeyEffect {
    pub style: Option<CursorStyle>,
    pub save: bool,
}

/// The editing session: the buffer with its cursor, the input mode, the
/// command line, and the status display.
pub struct Editor {
    pub buffer: Buffer,
    pub mode: Mode,
    pub command: Command,
    pub status: Status,
}

/// Where backspacing from `p` puts the cursor: one column left, or the
/// end of the previous line from column zero, or nowhere at the origin.
pub open spec fn spec_backspace_pos(p: Position, ls: Seq<buffer::line::Line>) -> Position {
    if p.x > 0 {
        Position { x: (p.x - 1) as usize, y: p.y }
    } else if p.y > 0 {
        Position { x: line_len_at(ls, p.y - 1) as usize, y: (p.y - 1) as usize }
    } else {
        p
    }
}

/// What deleting at `p` does to the lines: merge the next line up at the
/// exact end of a line, delete the cluster at the column otherwise, and
/// nothing past the last line.
pub open spec fn spec_delete_lines(
    ls: Seq<buffer::line::Line>,
    new: Seq<buffer::line::Line>,
    p: Position,
) -> bool {
    if (p.y as int) < ls.len() {
        if p.x == clusters(ls[p.y as int]@).len() && p.y + 1 < ls.len() {
            lines_merge_at(ls, new, p.y as int)
        } else {
            lines_delete_at(ls, new, p.x as int, p.y as int)
        }
    } else {
        new == ls
    }
}

/// The concatenated display names of the typed keys.
pub open spec fn keys_text(ks: Seq<Key>) -> Seq<char>
    decreases ks.len(),
{
    if ks.len() == 0 {
        Seq::empty()
    } else {
        crate::event::key::spec_key_name(ks[0]) + keys_text(ks.drop_first())
    }
}

/// Extending the typed keys by one extends their text by that key's name.
proof fn lemma_keys_text_snoc(ks: Seq<Key>, i: int)
    requires
        0 <= i < ks.len(),
    ensures
        keys_text(ks.take(i + 1)) == keys_text(ks.take(i)) + crate::event::key::spec_key_name(
            ks[i],
        ),
    decreases i,
{
    let a = ks.take(i + 1);
    let b = ks.take(i);
    if i == 0 {
        assert(a =~= seq![ks[0]]);
        assert(b =~= Seq::<Key>::empty());
        assert(a.drop_first() =~= Seq::<Key>::empty());
        assert(keys_text(a) =~= crate::event::key::spec_key_name(ks[0]) + keys_text(
            Seq::<Key>::empty(),
        ));
        assert(keys_text(a) =~= keys_text(b) + crate::event::key::spec_key_name(ks[0]));
    } else {
        lemma_keys_text_snoc(ks.drop_first(), i - 1);
        assert(a.drop_first() =~= ks.drop_first().take(i));
        assert(b.drop_first() =~= ks.drop_first().take(i - 1));
        assert(a[0] == ks[0] && b[0] == ks[0]);
        assert(ks.drop_first()[i - 1] == ks[i]);
    }
}

/// What one key does in insert mode.
pub open spec fn insert_post(
    olde: Editor,
    newe: Editor,
    key: Key,
    st: Option<CursorStyle>,
) -> bool {
    let ls = olde.buffer.lines@;
    let p = olde.buffer.cursor.position;
    &&& newe.command == olde.command
    &&& newe.status == olde.status
    &&& newe.buffer.cursor.offset == olde.buffer.cursor.offset
    &&& match key {
        Key::ArrowLeft | Key::ArrowDown | Key::ArrowUp | Key::ArrowRight => {
            &&& newe.buffer.lines@ == ls
            &&& newe.buffer.cursor.position == spec_step_free(p, spec_direction_of(key), ls)
            &&& newe.mode == olde.mode
            &&& st is None
        },
        Key::Escape => {
            &&& newe.buffer.lines@ == ls
            &&& newe.buffer.cursor.position == spec_step_free(p, Direction::Left, ls)
            &&& newe.mode == Mode::Normal
            &&& st == Some(CursorStyle::BlinkingBlock)
        },
        Key::Char(c) => {
            &&& if c == '\n' {
                lines_split_at(ls, newe.buffer.lines@, p.x as int, p.y as int)
            } else {
                lines_insert_at(ls, newe.buffer.lines@, p.x as int, p.y as int, c)
            }
            &&& newe.buffer.cursor.position == spec_step_free(
                p,
                Direction::Right,
                newe.buffer.lines@,
            )
            &&& newe.mode == olde.mode
            &&& st is None
        },
        Key::Enter => {
            &&& lines_split_at(ls, newe.buffer.lines@, p.x as int, p.y as int)
            &&& newe.buffer.cursor.position == (Position { x: 0, y: (p.y + 1) as usize })
            &&& newe.mode == olde.mode
            &&& st is None
        },
        Key::Tab => {
            &&& lines_insert_at(ls, newe.buffer.lines@, p.x as int, p.y as int, '\t')
            &&& newe.buffer.cursor.position == spec_step_free(
                p,
                Direction::Right,
                newe.buffer.lines@,
            )
            &&& newe.mode == olde.mode
            &&& st is None
        },
        Key::Backspace => {
            &&& if p.x == 0 && p.y == 0 {
                newe.buffer.lines@ == ls && newe.buffer.cursor.position == p
            } else {
                &&& newe.buffer.cursor.position == spec_backspace_pos(p, ls)
                &&& spec_delete_lines(ls, newe.buffer.lines@, spec_backspace_pos(p, ls))
            }
            &&& newe.mode == olde.mode
            &&& st is None
        },
        _ => {
            &&& newe.buffer.lines@ == ls
            &&& newe.buffer.cursor.position == p
            &&& newe.mode == olde.mode
            &&& st is None
        },
    }
}

/// What one key does in normal mode.
pub open spec fn normal_post(
    olde: Editor,
    newe: Editor,
    key: Key,
    size: TermSize,
    st: Option<CursorStyle>,
) -> bool {
    let ls = olde.buffer.lines@;
    let p = olde.buffer.cursor.position;
    &&& newe.command == olde.command
    &&& newe.buffer.lines@ == ls
    &&& match key {
        Key::Char(' ') => {
            &&& newe.mode == Mode::Command
            &&& newe.status.message is None
            &&& st == Some(CursorStyle::BlinkingBar)
            &&& newe.buffer.cursor == olde.buffer.cursor
        },
        Key::Char('h') | Key::Char('j') | Key::Char('k') | Key::Char('l') | Key::ArrowLeft
            | Key::ArrowDown | Key::ArrowUp | Key::ArrowRight => {
            &&& newe.buffer.cursor.position == spec_step_free(p, spec_direction_of(key), ls)
            &&& newe.buffer.cursor.offset == olde.buffer.cursor.offset
            &&& newe.mode == olde.mode
            &&& newe.status == olde.status
            &&& st is None
        },
        Key::Char('g') => {
            &&& newe.buffer.cursor.position == (Position { x: p.x, y: 0 })
            &&& newe.buffer.cursor.offset == olde.buffer.cursor.offset
            &&& newe.mode == olde.mode
            &&& newe.status == olde.status
            &&& st is None
        },
        Key::Char('G') => {
            &&& newe.buffer.cursor.position == (Position { x: p.x, y: (ls.len() - 1) as usize })
            &&& newe.buffer.cursor.offset == olde.buffer.cursor.offset
            &&& newe.mode == olde.mode
            &&& newe.status == olde.status
            &&& st is None
        },
        Key::Char('f') => {
            &&& newe.buffer.cursor.position == (Position { x: 0, y: p.y })
            &&& newe.buffer.cursor.offset == olde.buffer.cursor.offset
            &&& newe.mode == olde.mode
            &&& newe.status == olde.status
            &&& st is None
        },
        Key::Char('F') => {
            &&& newe.buffer.cursor.position.y == p.y
            &&& newe.buffer.cursor.position.x == ({
                let len = line_len_at(ls, p.y as int);
                if len > 0 {
                    (len - 1) as int
                } else {
                    0
                }
            })
            &&& newe.buffer.cursor.offset == olde.buffer.cursor.offset
            &&& newe.mode == olde.mode
            &&& newe.status == olde.status
            &&& st is None
        },
        Key::Char('C') => {
            &&& newe.buffer.cursor.position == p
            &&& newe.buffer.cursor.offset.x == olde.buffer.cursor.offset.x
            &&& newe.buffer.cursor.offset.y == (if p.y >= (size.height as int) / 2 {
                p.y - (size.height as int) / 2
            } else {
                0
            })
            &&& newe.mode == olde.mode
            &&& newe.status == olde.status
            &&& st is None
        },
        Key::Char('i') => {
            &&& newe.mode == Mode::Insert
            &&& newe.buffer.cursor.position == spec_step_free(p, Direction::Right, ls)
            &&& newe.buffer.cursor.offset == olde.buffer.cursor.offset
            &&& st == Some(CursorStyle::BlinkingBar)
            &&& newe.status == olde.status
        },
        _ => {
            &&& newe.buffer.cursor == olde.buffer.cursor
            &&& newe.mode == olde.mode
            &&& newe.status == olde.status
            &&& st is None
        },
    }
}

/// What one key does in command mode.
pub open spec fn command_post(olde: Editor, newe: Editor, key: Key, now: u64, eff: KeyEffect) -> bool {
    let ks = olde.command.0@;
    &&& newe.buffer.lines@ == olde.buffer.lines@
    &&& newe.buffer.cursor == olde.buffer.cursor
    &&& match key {
        Key::Escape => {
            &&& newe.mode == Mode::Normal
            &&& newe.command.0@ == Seq::<Key>::empty()
            &&& eff == (KeyEffect { style: Some(CursorStyle::BlinkingBlock), save: false })
            &&& newe.status == olde.status
        },
        Key::Backspace => {
            &&& newe.command.0@ == (if ks.len() > 0 {
                ks.drop_last()
            } else {
                ks
            })
            &&& newe.mode == olde.mode
            &&& eff == (KeyEffect { style: None::<CursorStyle>, save: false })
            &&& newe.status == olde.status
        },
        Key::Char(_) => {
            &&& newe.command.0@ == ks.push(key)
            &&& newe.mode == olde.mode
            &&& eff == (KeyEffect { style: None::<CursorStyle>, save: false })
            &&& newe.status == olde.status
        },
        Key::Enter => {
            if ks == seq![Key::Char('q')] {
                &&& newe.mode == Mode::Exit
                &&& newe.status.message is None
                &&& newe.command.0@ == ks
                &&& eff == (KeyEffect { style: None::<CursorStyle>, save: false })
            } else if ks == seq![Key::Char('w')] {
                &&& newe.mode == Mode::Normal
                &&& newe.status.message is None
                &&& newe.command.0@ == Seq::<Key>::empty()
                &&& eff == (KeyEffect { style: Some(CursorStyle::BlinkingBlock), save: true })
            } else {
                &&& newe.mode == Mode::Normal
                &&& newe.command.0@ == Seq::<Key>::empty()
                &&& eff == (KeyEffect { style: Some(CursorStyle::BlinkingBlock), save: false })
                &&& match newe.status.message {
                    Some(m) => {
                        &&& m.data@ == "Not a command: "@ + keys_text(ks)
                        &&& m.variant == status::message::MessageVariant::Error
                        &&& m.time == now
                    },
                    None => false,
                }
            }
        },
        _ => {
            &&& newe.mode == olde.mode
            &&& newe.command.0@ == ks
            &&& eff == (KeyEffect { style: None::<CursorStyle>, save: false })
            &&& newe.status == olde.status
        },
    }
}

/// The position invariant of a full key-handling cycle: a handled key
/// leaves the session well-formed, so the cursor's line index references
/// an existing line, and the mode clamp that follows (`overstep`'s
/// contract, restated in the last two requires) leaves the column at or
/// below the current line's cluster count, strictly below it outside
/// insert mode whenever the line is not empty.
pub proof fn lemma_key_cycle_position_in_bounds(
    before: Editor,
    after: Editor,
    key: Key,
    size: TermSize,
    now: u64,
    eff: KeyEffect,
    clamped: buffer::cursor::Cursor,
)
    requires
        before.wf(),
        before.mode != Mode::Exit,
        before.mode == Mode::Normal ==> normal_post(before, after, key, size, eff.style),
        before.mode == Mode::Insert ==> insert_post(before, after, key, eff.style),
        before.mode == Mode::Command ==> command_post(before, after, key, now, eff),
        after.wf(),
        clamped.position.y == after.buffer.cursor.position.y,
        clamped.position.x <= ({
            let len = line_len_at(
                after.buffer.lines@,
                after.buffer.cursor.position.y as int,
            ) as int;
            if after.mode is Insert {
                len
            } else if len > 0 {
                len - 1
            } else {
                0
            }
        }),
    ensures
        clamped.position.y < after.buffer.lines@.len(),
        clamped.position.x <= line_len_at(after.buffer.lines@, clamped.position.y as int),
        after.mode != Mode::Insert && line_len_at(after.buffer.lines@, clamped.position.y as int)
            > 0 ==> clamped.position.x < line_len_at(
            after.buffer.lines@,
            clamped.position.y as int,
        ),
{
}

impl Editor {
    /// The session invariant: the buffer is sound and the cursor's line
    /// index references an existing line.
    pub open spec fn wf(&self) -> bool {
        &&& self.buffer.wf()
        &&& self.buffer.cursor.position.y < self.buffer.lines@.len()
    }

    /// A session over `buffer`, starting in normal mode.
    pub fn new(buffer: Buffer) -> (e: Editor)
        requires
            buffer.wf(),
            buffer.cursor.position.y < buffer.lines@.len(),
        ensures
            e.buffer == buffer,
            e.mode == Mode::Normal,
            e.command.0@ == Seq::<Key>::empty(),
            e.status.message is None,
            e.wf(),
    {
        Editor { buffer, mode: Mode::Normal, command: Command::new(), status: Status::new() }
    }

    /// The line-number margin text for line `number`: padding up to the
    /// widest line number, the number in dim color, and one gap column.
    pub fn line_number(&self, number: usize) -> (r: String)
        requires
            spec_digits(number as nat) <= spec_digits(self.buffer.lines@.len()),
        ensures
            r@ == Seq::new(
                (spec_digits(self.buffer.lines@.len()) - spec_digits(number as nat)) as nat,
                |i: int| ' ',
            ) + csi_chars("90m"@) + spec_decimal(number as nat) + csi_chars("0m"@) + seq![' '],
    {
        let indent = crate::digits(self.buffer.lines.len());
        let dg = crate::digits(number);
        let pad = indent - dg;
        let mut sp: Vec<char> = Vec::new();
        let mut i: usize = 0;
        while i < pad
            invariant
                i <= pad,
                sp@ == Seq::new(i as nat, |j: int| ' '),
            decreases pad - i,
        {
            sp.push(' ');
            proof {
                assert(sp@ =~= Seq::new(i as nat + 1, |j: int| ' '));
            }
            i = i + 1;
        }
        let mut r = chars_to_string(&sp);
        let dim = crate::escape::color::bright_black_foreground();
        let dim_text = dim.text();
        r.append(dim_text.as_str());
        let num = to_decimal(number);
        r.append(num.as_str());
        let res = crate::escape::color::reset();
        let res_text = res.text();
        r.append(res_text.as_str());
        r.append(" ");
        proof {
            reveal_strlit(" ");
            assert(" "@ =~= seq![' ']);
            assert(r@ =~= Seq::new(
                (spec_digits(self.buffer.lines@.len()) - spec_digits(number as nat)) as nat,
                |i: int| ' ',
            ) + csi_chars("90m"@) + spec_decimal(number as nat) + csi_chars("0m"@) + seq![' ']);
        }
        r
    }

    /// Appends one rendered character to `output`: its highlight escape
    /// first, when highlights are present for the visible column.
    pub fn highlight_line(
        &self,
        output: String,
        ic: (usize, char),
        highlights: &Option<Vec<CSI>>,
    ) -> (r: String)
        requires
            highlights matches Some(h) ==> ic.0 + self.buffer.cursor.offset.x < h@.len(),
        ensures
            ({
                let c = ic.1;
                match highlights {
                    Some(h) => r@ == output@ + csi_chars(h@[ic.0 + self.buffer.cursor.offset.x].0@)
                        + seq![c],
                    None => r@ == output@ + seq![c],
                }
            }),
    {
        let mut out = output;
        match highlights {
            Some(h) => {
                let hl = h.len();
                proof {
                    assert(ic.0 + self.buffer.cursor.offset.x < hl);
                }
                let code = h[ic.0 + self.buffer.cursor.offset.x];
                let code_text = code.text();
                out.append(code_text.as_str());
            },
            None => {},
        }
        let cs = crate::text::char_to_string(ic.1);
        out.append(cs.as_str());
        out
    }

    /// The message reporting a completed save of `bytes` bytes.
    pub fn save_message(bytes: usize, now: u64) -> (m: Message)
        ensures
            m.data@ == "Wrote "@ + spec_decimal(bytes as nat) + " bytes to file"@,
            m.variant == status::message::MessageVariant::Normal,
            m.time == now,
    {
        let mut text: String = "Wrote ".to_owned();
        let num = to_decimal(bytes);
        text.append(num.as_str());
        text.append(" bytes to file");
        Message::new(text.as_str(), now)
    }

    /// Runs the typed command: `q` asks the session to end, `w` asks for
    /// a save (the caller performs it and posts the resulting message),
    /// and anything else posts an error naming the unknown command.
    pub fn handle_command(&mut self, now: u64) -> (save: bool)
        ensures
            final(self).buffer == old(self).buffer,
            final(self).command == old(self).command,
            ({
                let ks = old(self).command.0@;
                if ks == seq![Key::Char('q')] {
                    &&& final(self).mode == Mode::Exit
                    &&& final(self).status.message is None
                    &&& !save
                } else if ks == seq![Key::Char('w')] {
                    &&& final(self).mode == old(self).mode
                    &&& final(self).status.message is None
                    &&& save
                } else {
                    &&& final(self).mode == old(self).mode
                    &&& !save
                    &&& match final(self).status.message {
                        Some(m) => {
                            &&& m.data@ == "Not a command: "@ + keys_text(ks)
                            &&& m.variant == status::message::MessageVariant::Error
                            &&& m.time == now
                        },
                        None => false,
                    }
                }
            }),
    {
        let n = self.command.0.len();
        let is_q = n == 1 && matches!(self.command.0[0], Key::Char('q'));
        let is_w = n == 1 && matches!(self.command.0[0], Key::Char('w'));
        proof {
            if is_q {
                assert(self.command.0@ =~= seq![Key::Char('q')]);
            }
            if is_w {
                assert(self.command.0@ =~= seq![Key::Char('w')]);
            }
            if !is_q && self.command.0@ == seq![Key::Char('q')] {
                assert(self.command.0@.len() == 1);
                assert(self.command.0@[0] == Key::Char('q'));
                assert(false);
            }
            if !is_w && self.command.0@ == seq![Key::Char('w')] {
                assert(self.command.0@.len() == 1);
                assert(self.command.0@[0] == Key::Char('w'));
                assert(false);
            }
        }
        if is_q {
            self.mode = Mode::Exit;
            self.status.message = None;
            false
        } else if is_w {
            self.status.message = None;
            true
        } else {
            let mut text: String = "Not a command: ".to_owned();
            let mut i: usize = 0;
            proof {
                assert(self.command.0@.take(0) =~= Seq::<Key>::empty());
                assert(text@ + keys_text(self.command.0@.take(0)) =~= text@);
            }
            while i < self.command.0.len()
                invariant
                    i <= self.command.0@.len(),
                    self.command == old(self).command,
                    text@ == "Not a command: "@ + keys_text(self.command.0@.take(i as int)),
                decreases self.command.0@.len() - i,
            {
                let name = self.command.0[i].name();
                text.append(name.as_str());
                proof {
                    lemma_keys_text_snoc(self.command.0@, i as int);
                }
                i = i + 1;
            }
            proof {
                assert(self.command.0@.take(self.command.0@.len() as int) =~= self.command.0@);
            }
            self.status.message = Some(Message::new_err(text.as_str(), now));
            false
        }
    }

    /// Handles one key in insert mode, per `insert_post`.
    pub fn handle_key_insert(&mut self, key: Key) -> (st: Option<CursorStyle>)
        requires
            old(self).wf(),
            old(self).mode == Mode::Insert,
        ensures
            final(self).wf(),
            insert_post(*old(self), *final(self), key, st),
    {
        match key {
            Key::ArrowLeft | Key::ArrowDown | Key::ArrowUp | Key::ArrowRight => {
                let d = Direction::from(key);
                self.buffer.cursor.step(d, &self.buffer.lines);
                None
            },
            Key::Escape => {
                self.mode = Mode::Normal;
                self.buffer.cursor.step(Direction::Left, &self.buffer.lines);
                Some(CursorStyle::BlinkingBlock)
            },
            Key::Char(character) => {
                self.buffer.insert(character);
                self.buffer.cursor.step(Direction::Right, &self.buffer.lines);
                None
            },
            Key::Enter => {
                self.buffer.newline();
                self.buffer.cursor.step(Direction::Down, &self.buffer.lines);
                self.buffer.cursor.position.x = 0;
                None
            },
            Key::Tab => {
                self.buffer.insert('\t');
                self.buffer.cursor.step(Direction::Right, &self.buffer.lines);
                None
            },
            Key::Backspace => {
                let p = self.buffer.cursor.position;
                if p.x > 0 || p.y > 0 {
                    self.buffer.cursor.backspace(&self.buffer.lines);
                    self.buffer.delete();
                }
                None
            },
            _ => { None },
        }
    }

    /// Handles one key in normal mode, per `normal_post`.
    pub fn handle_key_normal(&mut self, key: Key, size: &TermSize) -> (st: Option<CursorStyle>)
        requires
            old(self).wf(),
            old(self).mode == Mode::Normal,
        ensures
            final(self).wf(),
            normal_post(*old(self), *final(self), key, *size, st),
    {
        match key {
            Key::Char(' ') => {
                self.mode = Mode::Command;
                self.status.message = None;
                Some(CursorStyle::BlinkingBar)
            },
            Key::Char('h') | Key::Char('j') | Key::Char('k') | Key::Char('l') | Key::ArrowLeft
                | Key::ArrowDown | Key::ArrowUp | Key::ArrowRight => {
                let d = Direction::from(key);
                self.buffer.cursor.step(d, &self.buffer.lines);
                None
            },
            Key::Char('g') => {
                self.buffer.cursor.top();
                None
            },
            Key::Char('G') => {
                self.buffer.cursor.bottom(&self.buffer.lines);
                None
            },
            Key::Char('f') => {
                self.buffer.cursor.start();
                None
            },
            Key::Char('F') => {
                self.buffer.cursor.end(&self.buffer.lines);
                None
            },
            Key::Char('C') => {
                self.buffer.cursor.center(size);
                None
            },
            Key::Char('i') => {
                self.mode = Mode::Insert;
                self.buffer.cursor.step(Direction::Right, &self.buffer.lines);
                Some(CursorStyle::BlinkingBar)
            },
            _ => { None },
        }
    }

    /// Handles one key in command mode, per `command_post`.
    pub fn handle_key_command(&mut self, key: Key, now: u64) -> (eff: KeyEffect)
        requires
            old(self).wf(),
            old(self).mode == Mode::Command,
        ensures
            final(self).wf(),
            command_post(*old(self), *final(self), key, now, eff),
    {
        match key {
            Key::Escape => {
                self.mode = Mode::Normal;
                self.command.clear();
                KeyEffect { style: Some(CursorStyle::BlinkingBlock), save: false }
            },
            Key::Backspace => {
                self.command.delete();
                KeyEffect { style: None, save: false }
            },
            Key::Char(_) => {
                self.command.insert(key);
                KeyEffect { style: None, save: false }
            },
            Key::Enter => {
                let save = self.handle_command(now);
                if !matches!(self.mode, Mode::Exit) {
                    self.command.clear();
                    self.mode = Mode::Normal;
                    KeyEffect { style: Some(CursorStyle::BlinkingBlock), save }
                } else {
                    KeyEffect { style: None, save }
                }
            },
            _ => { KeyEffect { style: None, save: false } },
        }
    }

    /// Handles one key according to the current mode. The session must
    /// not already be over.
    pub fn handle_key(&mut self, key: Key, size: &TermSize, now: u64) -> (eff: KeyEffect)
        requires
            old(self).wf(),
            old(self).mode != Mode::Exit,
        ensures
            final(self).wf(),
            old(self).mode == Mode::Normal ==> normal_post(
                *old(self),
                *final(self),
                key,
                *size,
                eff.style,
            ) && !eff.save,
            old(self).mode == Mode::Insert ==> insert_post(*old(self), *final(self), key, eff.style)
                && !eff.save,
            old(self).mode == Mode::Command ==> command_post(
                *old(self),
                *final(self),
                key,
                now,
                eff,
            ),
    {
        match self.mode {
            Mode::Normal => {
                let st = self.handle_key_normal(key, size);
                KeyEffect { style: st, save: false }
            },
            Mode::Insert => {
                let st = self.handle_key_insert(key);
                KeyEffect { style: st, save: false }
            },
            Mode::Command => self.handle_key_command(key, now),
            Mode::Exit => {
                proof {
                    assert(false);
                }
                KeyEffect { style: None, save: false }
            },
        }
    }
}

} // verus!
