//! The escape-sequence interpreter: a byte-stream state machine that turns
//! the shell's output into grid operations. Plain text prints, C0 control
//! bytes execute, CSI sequences carry numeric parameters to an action table,
//! OSC strings are consumed and ignored, and multi-byte UTF-8 sequences are
//! decoded into single characters. Responses the protocol owes (the Device
//! Status Report) are collected in a buffer for the session to write back.

use vstd::prelude::*;
use vstd::utf8::is_scalar;

use crate::grid::GridView;
use crate::grid::TerminalGrid;
use crate::grid::lemma_scroll_down_n_snoc;
use crate::grid::lemma_scroll_up_n_snoc;

verus! {

/// The decimal digits of `n`, as ASCII bytes, most significant first.
pub open spec fn dec_digits(n: nat) -> Seq<u8>
    decreases n,
{
    if n < 10 {
        seq![(0x30 + n) as u8]
    } else {
        dec_digits(n / 10).push((0x30 + n % 10) as u8)
    }
}

/// The cursor-position report owed to `CSI 6 n`:
/// `ESC [ {row+1} ; {col+1} R`.
pub open spec fn dsr_response(row: nat, col: nat) -> Seq<u8> {
    seq![0x1bu8, 0x5bu8] + dec_digits(row + 1) + seq![0x3bu8] + dec_digits(col + 1) + seq![0x52u8]
}

/// Parameter lookup with the VT default: index into the list, 1 when absent.
pub open spec fn param_or(params: Seq<u16>, i: int) -> u16 {
    if 0 <= i < params.len() {
        params[i]
    } else {
        1
    }
}

/// A parameter, less one, floored at zero: CSI positions are 1-based.
pub open spec fn minus_one(p: u16) -> nat {
    if p >= 1 {
        (p - 1) as nat
    } else {
        0
    }
}

/// What a tab expands to: four spaces.
pub open spec fn tab_expansion() -> Seq<char> {
    seq![' ', ' ', ' ', ' ']
}

/// The mathematical model of a `TerminalPerformer`.
pub ghost struct PerformerView {
    pub grid: GridView,
    pub responses: Seq<u8>,
}

impl PerformerView {
    pub open spec fn wf(self) -> bool {
        self.grid.wf()
    }

    /// A printable character reaches the grid.
    pub open spec fn print(self, c: char) -> PerformerView {
        PerformerView { grid: self.grid.print_char(c), ..self }
    }

    /// A C0 control byte: backspace, tab, line feed, carriage return and
    /// form feed act; every other control byte is ignored.
    pub open spec fn execute(self, byte: u8) -> PerformerView {
        if byte == 0x08 {
            PerformerView { grid: self.grid.backspace(), ..self }
        } else if byte == 0x09 {
            PerformerView { grid: self.grid.print_str(tab_expansion()), ..self }
        } else if byte == 0x0a {
            PerformerView { grid: self.grid.newline(), ..self }
        } else if byte == 0x0d {
            PerformerView { grid: self.grid.carriage_return(), ..self }
        } else if byte == 0x0c {
            PerformerView { grid: self.grid.clear_screen(), ..self }
        } else {
            self
        }
    }

    /// The CSI action table. Unknown actions are ignored, never an error.
    pub open spec fn csi_dispatch(self, params: Seq<u16>, action: char) -> PerformerView {
        let p0 = param_or(params, 0);
        if action == 'A' {
            PerformerView { grid: self.grid.move_cursor_relative(0, -(p0 as int)), ..self }
        } else if action == 'B' {
            PerformerView { grid: self.grid.move_cursor_relative(0, p0 as int), ..self }
        } else if action == 'C' {
            PerformerView { grid: self.grid.move_cursor_relative(p0 as int, 0), ..self }
        } else if action == 'D' {
            PerformerView { grid: self.grid.move_cursor_relative(-(p0 as int), 0), ..self }
        } else if action == 'H' || action == 'f' {
            PerformerView {
                grid: self.grid.move_cursor(minus_one(param_or(params, 1)), minus_one(p0)),
                ..self
            }
        } else if action == 'J' {
            if p0 == 0 {
                PerformerView {
                    grid: self.grid.clear_line(self.grid.cursor_x).clear_rows_below(),
                    ..self
                }
            } else if p0 == 1 {
                PerformerView {
                    grid: self.grid.clear_rows_above().clear_line_to(self.grid.cursor_x),
                    ..self
                }
            } else if p0 == 2 {
                PerformerView { grid: self.grid.clear_screen(), ..self }
            } else {
                self
            }
        } else if action == 'K' {
            if p0 == 0 {
                PerformerView { grid: self.grid.clear_line(self.grid.cursor_x), ..self }
            } else if p0 == 1 {
                PerformerView { grid: self.grid.clear_line_to(self.grid.cursor_x), ..self }
            } else if p0 == 2 {
                PerformerView { grid: self.grid.clear_line(0), ..self }
            } else {
                self
            }
        } else if action == 'S' {
            PerformerView { grid: self.grid.scroll_up_n(p0 as nat), ..self }
        } else if action == 'T' {
            PerformerView { grid: self.grid.scroll_down_n(p0 as nat), ..self }
        } else if action == 'P' {
            PerformerView { grid: self.grid.delete_chars(p0 as nat), ..self }
        } else if action == 'n' {
            if p0 == 6 {
                PerformerView {
                    responses: self.responses + dsr_response(self.grid.cursor_y, self.grid.cursor_x),
                    ..self
                }
            } else {
                self
            }
        } else {
            self
        }
    }
}

/// Appends the decimal digits of `n` to `out`.
fn push_decimal(out: &mut Vec<u8>, n: usize)
    ensures
        final(out)@ == old(out)@ + dec_digits(n as nat),
    decreases n,
{
    if n >= 10 {
        assert(n / 10 < n);
        push_decimal(out, n / 10);
    }
    out.push((0x30 + (n % 10)) as u8);
    assert(out@ =~= old(out)@ + dec_digits(n as nat));
}

/// Binds one grid to the buffer of protocol responses it owes. Stateless
/// beyond the grid; recreated wholesale on shell respawn.
pub struct TerminalPerformer {
    grid: TerminalGrid,
    responses: Vec<u8>,
}

impl View for TerminalPerformer {
    type V = PerformerView;

    closed spec fn view(&self) -> PerformerView {
        PerformerView { grid: self.grid@, responses: self.responses@ }
    }
}

impl TerminalPerformer {
    /// A performer over a fresh blank grid, owing no responses.
    pub fn new(rows: usize, cols: usize) -> (p: TerminalPerformer)
        requires
            rows >= 1,
            cols >= 1,
        ensures
            p@.wf(),
            p@.grid == crate::grid::fresh_grid(rows as nat, cols as nat),
            p@.responses == Seq::<u8>::empty(),
    {
        let p = TerminalPerformer { grid: TerminalGrid::new(rows, cols), responses: Vec::new() };
        assert(p@.responses =~= Seq::<u8>::empty());
        p
    }

    /// The grid, for reading the cursor or materializing a snapshot.
    pub fn grid(&self) -> (g: &TerminalGrid)
        ensures
            g@ == self@.grid,
    {
        &self.grid
    }

    /// Marks the grid's state as published.
    pub fn clear_dirty(&mut self)
        ensures
            final(self)@ == (PerformerView {
                grid: GridView { dirty: false, ..old(self)@.grid },
                ..old(self)@
            }),
    {
        self.grid.clear_dirty();
    }

    /// Prints a text straight to the grid, line breaks honoured (banners and
    /// notices).
    pub fn print_text(&mut self, s: &str)
        requires
            old(self)@.wf(),
        ensures
            final(self)@ == (PerformerView { grid: old(self)@.grid.print_text(s@), ..old(self)@ }),
            final(self)@.wf(),
    {
        self.grid.print_text(s);
    }

    /// Hands out the pending protocol responses, leaving the buffer empty.
    pub fn take_responses(&mut self) -> (r: Vec<u8>)
        ensures
            r@ == old(self)@.responses,
            final(self)@ == (PerformerView { responses: Seq::<u8>::empty(), ..old(self)@ }),
    {
        let r = self.responses.split_off(0);
        assert(self.responses@ =~= Seq::<u8>::empty());
        r
    }

    /// A printable character.
    pub fn print(&mut self, c: char)
        requires
            old(self)@.wf(),
        ensures
            final(self)@ == old(self)@.print(c),
            final(self)@.wf(),
    {
        self.grid.print_char(c);
    }

    /// A C0 control byte.
    pub fn execute(&mut self, byte: u8)
        requires
            old(self)@.wf(),
        ensures
            final(self)@ == old(self)@.execute(byte),
            final(self)@.wf(),
    {
        if byte == 0x08 {
            self.grid.backspace();
        } else if byte == 0x09 {
            self.grid.print_str("    ");
            proof {
                reveal_strlit("    ");
                assert("    "@ =~= tab_expansion());
            }
        } else if byte == 0x0a {
            self.grid.newline();
        } else if byte == 0x0d {
            self.grid.carriage_return();
        } else if byte == 0x0c {
            self.grid.clear_screen();
        }
    }

    /// A complete CSI sequence: its parameter list and final action byte.
    pub fn csi_dispatch(&mut self, params: &Vec<u16>, action: char)
        requires
            old(self)@.wf(),
        ensures
            final(self)@ == old(self)@.csi_dispatch(params@, action),
            final(self)@.wf(),
    {
        let p0 = get_param(params, 0);
        match action {
            'A' => {
                self.grid.move_cursor_relative(0, -(p0 as i32));
            },
            'B' => {
                self.grid.move_cursor_relative(0, p0 as i32);
            },
            'C' => {
                self.grid.move_cursor_relative(p0 as i32, 0);
            },
            'D' => {
                self.grid.move_cursor_relative(-(p0 as i32), 0);
            },
            'H' | 'f' => {
                let row = if p0 >= 1 {
                    p0 - 1
                } else {
                    0
                };
                let p1 = get_param(params, 1);
                let col = if p1 >= 1 {
                    p1 - 1
                } else {
                    0
                };
                self.grid.move_cursor(col as usize, row as usize);
            },
            'J' => {
                if p0 == 0 {
                    let x = self.grid.cursor_x();
                    self.grid.clear_line(x);
                    self.grid.clear_rows_below();
                } else if p0 == 1 {
                    self.grid.clear_rows_above();
                    let x = self.grid.cursor_x();
                    self.grid.clear_line_to(x);
                } else if p0 == 2 {
                    self.grid.clear_screen();
                }
            },
            'K' => {
                if p0 == 0 {
                    let x = self.grid.cursor_x();
                    self.grid.clear_line(x);
                } else if p0 == 1 {
                    let x = self.grid.cursor_x();
                    self.grid.clear_line_to(x);
                } else if p0 == 2 {
                    self.grid.clear_line(0);
                }
            },
            'S' => {
                let ghost g0 = self@.grid;
                let mut i: u16 = 0;
                while i < p0
                    invariant
                        i <= p0,
                        g0.wf(),
                        self@.grid.wf(),
                        self@.grid == g0.scroll_up_n(i as nat),
                        self@.responses == old(self)@.responses,
                    decreases p0 - i,
                {
                    self.grid.scroll_up();
                    proof {
                        lemma_scroll_up_n_snoc(g0, i as nat);
                    }
                    i = i + 1;
                }
            },
            'T' => {
                let ghost g0 = self@.grid;
                let mut i: u16 = 0;
                while i < p0
                    invariant
                        i <= p0,
                        g0.wf(),
                        self@.grid.wf(),
                        self@.grid == g0.scroll_down_n(i as nat),
                        self@.responses == old(self)@.responses,
                    decreases p0 - i,
                {
                    self.grid.scroll_down();
                    proof {
                        lemma_scroll_down_n_snoc(g0, i as nat);
                    }
                    i = i + 1;
                }
            },
            'P' => {
                self.grid.delete_chars(p0 as usize);
            },
            'n' => {
                if p0 == 6 {
                    let y = self.grid.cursor_y();
                    let x = self.grid.cursor_x();
                    self.responses.push(0x1b);
                    self.responses.push(0x5b);
                    push_decimal(&mut self.responses, y + 1);
                    self.responses.push(0x3b);
                    push_decimal(&mut self.responses, x + 1);
                    self.responses.push(0x52);
                    assert(self.responses@ =~= old(self).responses@ + dsr_response(
                        y as nat,
                        x as nat,
                    ));
                }
            },
            _ => {
            },
        }
    }
}

/// Parameter lookup with the VT default.
fn get_param(params: &Vec<u16>, i: usize) -> (r: u16)
    ensures
        r == param_or(params@, i as int),
{
    if i < params.len() {
        params[i]
    } else {
        1
    }
}

/// Relies on `char::from_u32`: `Some` exactly on Unicode scalar values, and
/// the returned character carries the given numeric value.
#[verifier::external_body]
fn char_from_u32(v: u32) -> (r: Option<char>)
    ensures
        r is Some <==> is_scalar(v),
        (r matches Some(c) ==> c as u32 == v),
{
    char::from_u32(v)
}

/// Where the byte-stream state machine stands between bytes.
#[derive(Clone, Copy, PartialEq, Eq, Structural, Debug)]
pub enum ParseState {
    /// Plain text and control bytes.
    Ground,
    /// An ESC byte has been seen.
    Escape,
    /// Inside a control sequence, collecting parameters.
    Csi,
    /// Inside a string sequence (OSC, DCS, SOS, PM or APC), which is
    /// consumed and ignored.
    Osc,
    /// Inside a multi-byte UTF-8 sequence.
    Utf8,
}

/// The mathematical model of a `Parser`.
pub ghost struct ParserView {
    pub state: ParseState,
    pub params: Seq<u16>,
    pub current: u16,
    pub utf8_acc: u32,
    pub utf8_need: u32,
    pub utf8_min: u32,
}

impl ParserView {
    /// The state a parser starts in.
    pub open spec fn init() -> ParserView {
        ParserView {
            state: ParseState::Ground,
            params: Seq::empty(),
            current: 0,
            utf8_acc: 0,
            utf8_need: 0,
            utf8_min: 0,
        }
    }

    /// Mid-UTF-8, the accumulator is small enough that the next continuation
    /// byte cannot overflow it.
    pub open spec fn wf(self) -> bool {
        self.state is Utf8 ==> {
            &&& 1 <= self.utf8_need <= 3
            &&& (self.utf8_need == 3 ==> self.utf8_acc <= 0x7)
            &&& (self.utf8_need == 2 ==> self.utf8_acc <= 0x1ff)
            &&& (self.utf8_need == 1 ==> self.utf8_acc <= 0x7fff)
        }
    }
}

/// A parameter digit folded into the running value, saturating.
pub open spec fn push_digit(cur: u16, d: u8) -> u16 {
    if cur as int * 10 + d as int > 0xffff {
        0xffffu16
    } else {
        (cur as int * 10 + d as int) as u16
    }
}

/// One byte through the state machine: the next parser state and the
/// performer with that byte's effect applied.
pub open spec fn vt_step(p: ParserView, t: PerformerView, b: u8) -> (ParserView, PerformerView)
    decreases (if p.state is Utf8 {
        1int
    } else {
        0int
    }),
{
    match p.state {
        ParseState::Ground => {
            if b == 0x1b {
                (ParserView { state: ParseState::Escape, ..p }, t)
            } else if b < 0x20 {
                (p, t.execute(b))
            } else if b < 0x7f {
                (p, t.print(b as char))
            } else if 0xc2 <= b && b <= 0xdf {
                (
                    ParserView {
                        state: ParseState::Utf8,
                        utf8_acc: (b - 0xc0) as u32,
                        utf8_need: 1,
                        utf8_min: 0x80,
                        ..p
                    },
                    t,
                )
            } else if 0xe0 <= b && b <= 0xef {
                (
                    ParserView {
                        state: ParseState::Utf8,
                        utf8_acc: (b - 0xe0) as u32,
                        utf8_need: 2,
                        utf8_min: 0x800,
                        ..p
                    },
                    t,
                )
            } else if 0xf0 <= b && b <= 0xf4 {
                (
                    ParserView {
                        state: ParseState::Utf8,
                        utf8_acc: (b - 0xf0) as u32,
                        utf8_need: 3,
                        utf8_min: 0x10000,
                        ..p
                    },
                    t,
                )
            } else {
                (p, t)
            }
        },
        ParseState::Escape => {
            if b == 0x5b {
                (ParserView { state: ParseState::Csi, params: Seq::empty(), current: 0, ..p }, t)
            } else if b == 0x5d || b == 0x50 || b == 0x58 || b == 0x5e || b == 0x5f {
                (ParserView { state: ParseState::Osc, ..p }, t)
            } else if b == 0x1b {
                (p, t)
            } else if 0x20 <= b && b <= 0x2f {
                (p, t)
            } else {
                (ParserView { state: ParseState::Ground, ..p }, t)
            }
        },
        ParseState::Csi => {
            if 0x30 <= b && b <= 0x39 {
                (ParserView { current: push_digit(p.current, (b - 0x30) as u8), ..p }, t)
            } else if b == 0x3b || b == 0x3a {
                (ParserView { params: p.params.push(p.current), current: 0, ..p }, t)
            } else if b == 0x1b {
                (ParserView { state: ParseState::Escape, ..p }, t)
            } else if b == 0x18 || b == 0x1a {
                (ParserView { state: ParseState::Ground, ..p }, t)
            } else if 0x40 <= b && b <= 0x7e {
                (
                    ParserView {
                        state: ParseState::Ground,
                        params: Seq::empty(),
                        current: 0,
                        ..p
                    },
                    t.csi_dispatch(p.params.push(p.current), b as char),
                )
            } else if b < 0x20 {
                (p, t.execute(b))
            } else {
                (p, t)
            }
        },
        ParseState::Osc => {
            if b == 0x07 {
                (ParserView { state: ParseState::Ground, ..p }, t)
            } else if b == 0x1b {
                (ParserView { state: ParseState::Escape, ..p }, t)
            } else {
                (p, t)
            }
        },
        ParseState::Utf8 => {
            if 0x80 <= b && b <= 0xbf {
                let acc2 = (p.utf8_acc * 64 + (b - 0x80)) as u32;
                if p.utf8_need == 1 {
                    let ground = ParserView { state: ParseState::Ground, ..p };
                    if acc2 >= p.utf8_min && is_scalar(acc2) {
                        (ground, t.print(acc2 as char))
                    } else {
                        (ground, t)
                    }
                } else {
                    (
                        ParserView { utf8_acc: acc2, utf8_need: (p.utf8_need - 1) as u32, ..p },
                        t,
                    )
                }
            } else {
                vt_step(ParserView { state: ParseState::Ground, ..p }, t, b)
            }
        },
    }
}

/// A whole byte sequence through the state machine, first byte first.
pub open spec fn vt_run(p: ParserView, t: PerformerView, bytes: Seq<u8>) -> (
    ParserView,
    PerformerView,
)
    decreases bytes.len(),
{
    if bytes.len() == 0 {
        (p, t)
    } else {
        let s = vt_step(p, t, bytes[0]);
        vt_run(s.0, s.1, bytes.drop_first())
    }
}

/// Running one more byte is one more step after the run.
pub proof fn lemma_vt_run_snoc(p: ParserView, t: PerformerView, bytes: Seq<u8>, b: u8)
    ensures
        vt_run(p, t, bytes.push(b)) == ({
            let r = vt_run(p, t, bytes);
            vt_step(r.0, r.1, b)
        }),
    decreases bytes.len(),
{
    if bytes.len() == 0 {
        assert(bytes.push(b)[0] == b);
        assert(bytes.push(b).drop_first() =~= Seq::<u8>::empty());
        let s = vt_step(p, t, b);
        assert(vt_run(p, t, bytes.push(b)) == vt_run(s.0, s.1, Seq::<u8>::empty()));
        assert(vt_run(p, t, bytes) == (p, t));
    } else {
        assert(bytes.push(b)[0] == bytes[0]);
        assert(bytes.push(b).drop_first() =~= bytes.drop_first().push(b));
        let s = vt_step(p, t, bytes[0]);
        assert(vt_run(p, t, bytes.push(b)) == vt_run(s.0, s.1, bytes.drop_first().push(b)));
        lemma_vt_run_snoc(s.0, s.1, bytes.drop_first(), b);
        assert(vt_run(p, t, bytes) == vt_run(s.0, s.1, bytes.drop_first()));
    }
}

/// The byte-stream parser. Consumes one byte at a time and drives a
/// `TerminalPerformer`.
pub struct Parser {
    state: ParseState,
    params: Vec<u16>,
    current: u16,
    utf8_acc: u32,
    utf8_need: u32,
    utf8_min: u32,
}

impl View for Parser {
    type V = ParserView;

    closed spec fn view(&self) -> ParserView {
        ParserView {
            state: self.state,
            params: self.params@,
            current: self.current,
            utf8_acc: self.utf8_acc,
            utf8_need: self.utf8_need,
            utf8_min: self.utf8_min,
        }
    }
}

impl Parser {
    /// A parser in the ground state.
    pub fn new() -> (p: Parser)
        ensures
            p@ == ParserView::init(),
            p@.wf(),
    {
        let p = Parser {
            state: ParseState::Ground,
            params: Vec::new(),
            current: 0,
            utf8_acc: 0,
            utf8_need: 0,
            utf8_min: 0,
        };
        assert(p@.params =~= Seq::<u16>::empty());
        p
    }

    /// Handles a byte in the ground state.
    fn ground_advance(&mut self, performer: &mut TerminalPerformer, byte: u8)
        requires
            old(self)@.wf(),
            old(performer)@.wf(),
            old(self)@.state is Ground,
        ensures
            (final(self)@, final(performer)@) == vt_step(old(self)@, old(performer)@, byte),
            final(self)@.wf(),
            final(performer)@.wf(),
    {
        if byte == 0x1b {
            self.state = ParseState::Escape;
        } else if byte < 0x20 {
            performer.execute(byte);
        } else if byte < 0x7f {
            performer.print(byte as char);
        } else if 0xc2 <= byte && byte <= 0xdf {
            self.state = ParseState::Utf8;
            self.utf8_acc = (byte - 0xc0) as u32;
            self.utf8_need = 1;
            self.utf8_min = 0x80;
        } else if 0xe0 <= byte && byte <= 0xef {
            self.state = ParseState::Utf8;
            self.utf8_acc = (byte - 0xe0) as u32;
            self.utf8_need = 2;
            self.utf8_min = 0x800;
        } else if 0xf0 <= byte && byte <= 0xf4 {
            self.state = ParseState::Utf8;
            self.utf8_acc = (byte - 0xf0) as u32;
            self.utf8_need = 3;
            self.utf8_min = 0x10000;
        }
    }

    /// Consumes one byte, applying its effect to the performer.
    pub fn advance(&mut self, performer: &mut TerminalPerformer, byte: u8)
        requires
            old(self)@.wf(),
            old(performer)@.wf(),
        ensures
            (final(self)@, final(performer)@) == vt_step(old(self)@, old(performer)@, byte),
            final(self)@.wf(),
            final(performer)@.wf(),
    {
        match self.state {
            ParseState::Ground => {
                self.ground_advance(performer, byte);
            },
            ParseState::Escape => {
                if byte == 0x5b {
                    self.state = ParseState::Csi;
                    self.params.clear();
                    self.current = 0;
                    assert(self@.params =~= Seq::<u16>::empty());
                } else if byte == 0x5d || byte == 0x50 || byte == 0x58 || byte == 0x5e
                    || byte == 0x5f {
                    self.state = ParseState::Osc;
                } else if byte == 0x1b {
                } else if 0x20 <= byte && byte <= 0x2f {
                } else {
                    self.state = ParseState::Ground;
                }
            },
            ParseState::Csi => {
                if 0x30 <= byte && byte <= 0x39 {
                    let v: u32 = (self.current as u32) * 10 + ((byte - 0x30) as u32);
                    self.current = if v > 0xffff {
                        0xffff
                    } else {
                        v as u16
                    };
                } else if byte == 0x3b || byte == 0x3a {
                    self.params.push(self.current);
                    self.current = 0;
                } else if byte == 0x1b {
                    self.state = ParseState::Escape;
                } else if byte == 0x18 || byte == 0x1a {
                    self.state = ParseState::Ground;
                } else if 0x40 <= byte && byte <= 0x7e {
                    let mut ps = self.params.split_off(0);
                    ps.push(self.current);
                    self.current = 0;
                    self.state = ParseState::Ground;
                    performer.csi_dispatch(&ps, byte as char);
                    assert(self@.params =~= Seq::<u16>::empty());
                } else if byte < 0x20 {
                    performer.execute(byte);
                }
            },
            ParseState::Osc => {
                if byte == 0x07 {
                    self.state = ParseState::Ground;
                } else if byte == 0x1b {
                    self.state = ParseState::Escape;
                }
            },
            ParseState::Utf8 => {
                if 0x80 <= byte && byte <= 0xbf {
                    let acc2: u32 = self.utf8_acc * 64 + ((byte - 0x80) as u32);
                    if self.utf8_need == 1 {
                        self.state = ParseState::Ground;
                        if acc2 >= self.utf8_min {
                            match char_from_u32(acc2) {
                                Some(c) => {
                                    performer.print(c);
                                    proof {
                                        vstd::utf8::char_u32_cast(c, acc2);
                                    }
                                },
                                None => {
                                },
                            }
                        }
                    } else {
                        self.utf8_acc = acc2;
                        self.utf8_need = self.utf8_need - 1;
                    }
                } else {
                    self.state = ParseState::Ground;
                    self.ground_advance(performer, byte);
                }
            },
        }
    }

    /// Consumes a whole batch of bytes in order.
    pub fn feed(&mut self, performer: &mut TerminalPerformer, data: &[u8])
        requires
            old(self)@.wf(),
            old(performer)@.wf(),
        ensures
            (final(self)@, final(performer)@) == vt_run(old(self)@, old(performer)@, data@),
            final(self)@.wf(),
            final(performer)@.wf(),
    {
        let n = data.len();
        for i in 0..n
            invariant
                n == data@.len(),
                self@.wf(),
                performer@.wf(),
                (self@, performer@) == vt_run(old(self)@, old(performer)@, data@.take(i as int)),
        {
            let b = data[i];
            self.advance(performer, b);
            proof {
                assert(data@.take(i + 1) =~= data@.take(i as int).push(data@[i as int]));
                lemma_vt_run_snoc(old(self)@, old(performer)@, data@.take(i as int), data@[i as int]);
            }
        }
        assert(data@.take(n as int) =~= data@);
    }
}

/// A control byte leaves the grid's dimensions alone.
pub proof fn lemma_execute_same_dims(t: PerformerView, b: u8)
    ensures
        t.execute(b).grid.rows == t.grid.rows,
        t.execute(b).grid.cols == t.grid.cols,
{
    if b == 0x09 {
        crate::grid::lemma_print_str_same_dims(t.grid, tab_expansion());
    }
}

/// A CSI action leaves the grid's dimensions alone.
pub proof fn lemma_csi_same_dims(t: PerformerView, params: Seq<u16>, action: char)
    ensures
        t.csi_dispatch(params, action).grid.rows == t.grid.rows,
        t.csi_dispatch(params, action).grid.cols == t.grid.cols,
{
    let p0 = param_or(params, 0);
    if action == 'S' {
        crate::grid::lemma_scroll_up_n_same_dims(t.grid, p0 as nat);
    } else if action == 'T' {
        crate::grid::lemma_scroll_down_n_same_dims(t.grid, p0 as nat);
    }
}

/// One byte through the state machine leaves the grid's dimensions alone.
pub proof fn lemma_vt_step_same_dims(p: ParserView, t: PerformerView, b: u8)
    ensures
        vt_step(p, t, b).1.grid.rows == t.grid.rows,
        vt_step(p, t, b).1.grid.cols == t.grid.cols,
    decreases (if p.state is Utf8 {
        1int
    } else {
        0int
    }),
{
    match p.state {
        ParseState::Ground => {
            if b != 0x1b && b < 0x20 {
                lemma_execute_same_dims(t, b);
            }
        },
        ParseState::Csi => {
            if 0x30 <= b && b <= 0x39 {
            } else if b == 0x3b || b == 0x3a || b == 0x1b || b == 0x18 || b == 0x1a {
            } else if 0x40 <= b && b <= 0x7e {
                lemma_csi_same_dims(t, p.params.push(p.current), b as char);
            } else if b < 0x20 {
                lemma_execute_same_dims(t, b);
            }
        },
        ParseState::Utf8 => {
            if !(0x80 <= b && b <= 0xbf) {
                lemma_vt_step_same_dims(ParserView { state: ParseState::Ground, ..p }, t, b);
            }
        },
        _ => {
        },
    }
}

/// A whole batch of bytes leaves the grid's dimensions alone.
pub proof fn lemma_vt_run_same_dims(p: ParserView, t: PerformerView, bytes: Seq<u8>)
    ensures
        vt_run(p, t, bytes).1.grid.rows == t.grid.rows,
        vt_run(p, t, bytes).1.grid.cols == t.grid.cols,
    decreases bytes.len(),
{
    if bytes.len() > 0 {
        let s = vt_step(p, t, bytes[0]);
        lemma_vt_step_same_dims(p, t, bytes[0]);
        lemma_vt_run_same_dims(s.0, s.1, bytes.drop_first());
    }
}

/// The absolute-position law: CSI `H` with row and column parameters `r;c`
/// moves the cursor to column `c-1`, row `r-1`, clamped to the grid bounds;
/// omitted parameters default to row 1, column 1.
pub proof fn lemma_csi_position(t: PerformerView, params: Seq<u16>)
    requires
        t.wf(),
    ensures
        ({
            let g = t.csi_dispatch(params, 'H').grid;
            let row = minus_one(param_or(params, 0));
            let col = minus_one(param_or(params, 1));
            &&& g.cursor_x == (if col < t.grid.cols {
                col as int
            } else {
                t.grid.cols - 1
            })
            &&& g.cursor_y == (if row < t.grid.rows {
                row as int
            } else {
                t.grid.rows - 1
            })
            &&& (params.len() == 0 ==> g.cursor_x == 0 && g.cursor_y == 0)
            &&& t.csi_dispatch(params, 'f') == t.csi_dispatch(params, 'H')
        }),
{
}

/// The status-report law: `CSI 6 n` appends exactly
/// `ESC [ {row+1} ; {col+1} R` to the response buffer, for the cursor
/// position at dispatch time, and leaves the grid alone.
pub proof fn lemma_dsr_report(t: PerformerView, params: Seq<u16>)
    requires
        t.wf(),
        param_or(params, 0) == 6,
    ensures
        t.csi_dispatch(params, 'n').responses == t.responses + dsr_response(
            t.grid.cursor_y,
            t.grid.cursor_x,
        ),
        t.csi_dispatch(params, 'n').grid == t.grid,
{
}

} // verus!
