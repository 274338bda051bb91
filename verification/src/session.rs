//! The session state machine: the decisions of the PTY read loop, separated
//! from the I/O that surrounds them. The loop's driver reads from the
//! pseudo-terminal, hands each observation in as a `SessionEvent`, and
//! performs what the returned `StepOutcome` asks: publishing a render
//! snapshot, writing response bytes back to the shell, respawning the shell,
//! or stopping the loop.

use vstd::prelude::*;

use crate::grid::GridView;
use crate::interp::Parser;
use crate::interp::ParserView;
use crate::interp::PerformerView;
use crate::interp::TerminalPerformer;
use crate::interp::vt_run;

verus! {

/// Default pseudo-terminal geometry, in character cells.
pub const DEFAULT_COLS: u16 = 80;

pub const DEFAULT_ROWS: u16 = 24;

/// Pixel metrics of one character cell, used to place the cursor quad.
pub const CELL_WIDTH_PX: u32 = 14;

pub const LINE_HEIGHT_PX: u32 = 20;

/// The banner printed on a fresh grid.
pub open spec fn banner() -> Seq<char> {
    "Nebula Terminal\n"@
}

/// The inline notice printed when the shell exits cleanly.
pub open spec fn exit_notice() -> Seq<char> {
    "\n[Shell exited, restarting...]\n"@
}

/// The inline notice printed when no fresh pseudo-terminal could be opened.
pub open spec fn respawn_failure_notice() -> Seq<char> {
    "\n[Failed to create PTY]\n"@
}

/// Whether the read loop is still alive.
#[derive(Clone, Copy, PartialEq, Eq, Structural, Debug)]
pub enum SessionStatus {
    Running,
    Stopped,
}

/// What the driver must do after a step.
#[derive(Clone, Copy, PartialEq, Eq, Structural, Debug)]
pub enum SessionAction {
    /// Keep reading from the current pseudo-terminal.
    Continue,
    /// Tear down and open a fresh pseudo-terminal and shell, then report
    /// `RespawnOk` or `RespawnFailed`.
    Respawn,
    /// The read loop terminates; the terminal goes inert.
    Stop,
}

/// One observation of the read loop.
pub enum SessionEvent {
    /// A successful read handed this many bytes.
    Bytes(Vec<u8>),
    /// The read returned zero bytes: the shell exited cleanly.
    Eof,
    /// The read failed outright.
    ReadError,
    /// A fresh pseudo-terminal and shell were opened after `Respawn`.
    RespawnOk,
    /// No fresh pseudo-terminal could be opened after `Respawn`.
    RespawnFailed,
}

/// The model of a `SessionEvent`.
pub ghost enum EventView {
    Bytes(Seq<u8>),
    Eof,
    ReadError,
    RespawnOk,
    RespawnFailed,
}

impl View for SessionEvent {
    type V = EventView;

    open spec fn view(&self) -> EventView {
        match self {
            SessionEvent::Bytes(data) => EventView::Bytes(data@),
            SessionEvent::Eof => EventView::Eof,
            SessionEvent::ReadError => EventView::ReadError,
            SessionEvent::RespawnOk => EventView::RespawnOk,
            SessionEvent::RespawnFailed => EventView::RespawnFailed,
        }
    }
}

/// A snapshot published for the render side: the grid text and the cursor
/// position in device pixels.
pub struct RenderUpdate {
    pub text: String,
    pub cursor_px_x: u32,
    pub cursor_px_y: u32,
}

/// The model of a `RenderUpdate`.
pub ghost struct RenderUpdateView {
    pub text: Seq<char>,
    pub cursor_px_x: nat,
    pub cursor_px_y: nat,
}

impl View for RenderUpdate {
    type V = RenderUpdateView;

    open spec fn view(&self) -> RenderUpdateView {
        RenderUpdateView {
            text: self.text@,
            cursor_px_x: self.cursor_px_x as nat,
            cursor_px_y: self.cursor_px_y as nat,
        }
    }
}

/// The snapshot a grid publishes.
pub open spec fn snapshot_of(g: GridView) -> RenderUpdateView {
    RenderUpdateView {
        text: g.rendered(),
        cursor_px_x: (g.cursor_x * CELL_WIDTH_PX) as nat,
        cursor_px_y: (g.cursor_y * LINE_HEIGHT_PX) as nat,
    }
}

/// The mathematical model of a `Session`.
pub ghost struct SessionView {
    pub rows: u16,
    pub cols: u16,
    pub parser: ParserView,
    pub perf: PerformerView,
    pub status: SessionStatus,
}

/// The model of one step: the session afterwards and everything the driver
/// is handed.
pub ghost struct SessionStep {
    pub session: SessionView,
    pub action: SessionAction,
    pub update: Option<RenderUpdateView>,
    pub writeback: Seq<u8>,
}

/// The grid a session starts (and respawns) with: fresh, with the banner
/// printed.
pub open spec fn banner_grid(rows: u16, cols: u16) -> GridView {
    crate::grid::fresh_grid(rows as nat, cols as nat).print_text(banner())
}

/// The model of a freshly constructed session.
pub open spec fn session_init(rows: u16, cols: u16) -> SessionView {
    SessionView {
        rows,
        cols,
        parser: ParserView::init(),
        perf: PerformerView { grid: banner_grid(rows, cols), responses: Seq::empty() },
        status: SessionStatus::Running,
    }
}

impl SessionView {
    pub open spec fn wf(self) -> bool {
        &&& self.rows >= 1
        &&& self.cols >= 1
        &&& self.parser.wf()
        &&& self.perf.wf()
        &&& self.perf.grid.rows == self.rows as nat
        &&& self.perf.grid.cols == self.cols as nat
    }

    /// One read-loop decision. A stopped session ignores every event.
    pub open spec fn step(self, e: EventView) -> SessionStep {
        if self.status is Stopped {
            SessionStep {
                session: self,
                action: SessionAction::Stop,
                update: None,
                writeback: Seq::empty(),
            }
        } else {
            match e {
                EventView::Bytes(data) => {
                    let r = vt_run(self.parser, self.perf, data);
                    SessionStep {
                        session: SessionView {
                            parser: r.0,
                            perf: PerformerView {
                                grid: GridView { dirty: false, ..r.1.grid },
                                responses: Seq::empty(),
                            },
                            ..self
                        },
                        action: SessionAction::Continue,
                        update: if r.1.grid.dirty {
                            Some(snapshot_of(r.1.grid))
                        } else {
                            None
                        },
                        writeback: r.1.responses,
                    }
                },
                EventView::Eof => SessionStep {
                    session: SessionView {
                        perf: PerformerView {
                            grid: self.perf.grid.print_text(exit_notice()),
                            ..self.perf
                        },
                        ..self
                    },
                    action: SessionAction::Respawn,
                    update: None,
                    writeback: Seq::empty(),
                },
                EventView::RespawnOk => {
                    let g = banner_grid(self.rows, self.cols);
                    SessionStep {
                        session: SessionView {
                            perf: PerformerView {
                                grid: GridView { dirty: false, ..g },
                                responses: Seq::empty(),
                            },
                            ..self
                        },
                        action: SessionAction::Continue,
                        update: Some(snapshot_of(g)),
                        writeback: Seq::empty(),
                    }
                },
                EventView::RespawnFailed => SessionStep {
                    session: SessionView {
                        perf: PerformerView {
                            grid: self.perf.grid.print_text(respawn_failure_notice()),
                            ..self.perf
                        },
                        status: SessionStatus::Stopped,
                        ..self
                    },
                    action: SessionAction::Stop,
                    update: None,
                    writeback: Seq::empty(),
                },
                EventView::ReadError => SessionStep {
                    session: SessionView { status: SessionStatus::Stopped, ..self },
                    action: SessionAction::Stop,
                    update: None,
                    writeback: Seq::empty(),
                },
            }
        }
    }
}

/// A whole scripted sequence of events, threading the most recent published
/// snapshot through.
pub open spec fn run_events(
    s: SessionView,
    evs: Seq<EventView>,
    last: Option<RenderUpdateView>,
) -> (SessionView, Option<RenderUpdateView>)
    decreases evs.len(),
{
    if evs.len() == 0 {
        (s, last)
    } else {
        let st = s.step(evs[0]);
        run_events(
            st.session,
            evs.drop_first(),
            if st.update is Some {
                st.update
            } else {
                last
            },
        )
    }
}

/// Running one more event is one more step after the run.
pub proof fn lemma_run_events_snoc(
    s: SessionView,
    evs: Seq<EventView>,
    e: EventView,
    last: Option<RenderUpdateView>,
)
    ensures
        run_events(s, evs.push(e), last) == ({
            let r = run_events(s, evs, last);
            let st = r.0.step(e);
            (
                st.session,
                if st.update is Some {
                    st.update
                } else {
                    r.1
                },
            )
        }),
    decreases evs.len(),
{
    if evs.len() == 0 {
        assert(evs.push(e)[0] == e);
        assert(evs.push(e).drop_first() =~= Seq::<EventView>::empty());
        let st = s.step(e);
        assert(run_events(s, evs.push(e), last) == run_events(
            st.session,
            Seq::<EventView>::empty(),
            if st.update is Some {
                st.update
            } else {
                last
            },
        ));
    } else {
        assert(evs.push(e)[0] == evs[0]);
        assert(evs.push(e).drop_first() =~= evs.drop_first().push(e));
        let st = s.step(evs[0]);
        let next_last = if st.update is Some {
            st.update
        } else {
            last
        };
        assert(run_events(s, evs.push(e), last) == run_events(
            st.session,
            evs.drop_first().push(e),
            next_last,
        ));
        lemma_run_events_snoc(st.session, evs.drop_first(), e, next_last);
    }
}

/// What one step hands the driver.
pub struct StepOutcome {
    pub action: SessionAction,
    pub update: Option<RenderUpdate>,
    pub writeback: Vec<u8>,
}

/// One shell session: the parser and performer owned by the read loop, and
/// whether that loop is still alive. On respawn the performer is recreated
/// wholesale over a fresh grid; the byte-stream parser, owned by the loop
/// rather than the shell, lives on.
pub struct Session {
    rows: u16,
    cols: u16,
    parser: Parser,
    performer: TerminalPerformer,
    status: SessionStatus,
}

impl View for Session {
    type V = SessionView;

    closed spec fn view(&self) -> SessionView {
        SessionView {
            rows: self.rows,
            cols: self.cols,
            parser: self.parser@,
            perf: self.performer@,
            status: self.status,
        }
    }
}

impl Session {
    /// A fresh session over a blank grid with the banner printed.
    pub fn new(rows: u16, cols: u16) -> (s: Session)
        requires
            rows >= 1,
            cols >= 1,
        ensures
            s@ == session_init(rows, cols),
            s@.wf(),
    {
        let mut performer = TerminalPerformer::new(rows as usize, cols as usize);
        performer.print_text("Nebula Terminal\n");
        proof {
            crate::grid::lemma_print_text_same_dims(
                crate::grid::fresh_grid(rows as nat, cols as nat),
                banner(),
            );
        }
        Session { rows, cols, parser: Parser::new(), performer, status: SessionStatus::Running }
    }

    /// The grid, for inspection.
    pub fn grid(&self) -> (g: &crate::grid::TerminalGrid)
        ensures
            g@ == self@.perf.grid,
    {
        self.performer.grid()
    }

    /// Whether the read loop is still alive.
    pub fn status(&self) -> (r: SessionStatus)
        ensures
            r == self@.status,
    {
        self.status
    }

    /// One read-loop decision, from one observation.
    pub fn on_event(&mut self, ev: &SessionEvent) -> (out: StepOutcome)
        requires
            old(self)@.wf(),
        ensures
            final(self)@.wf(),
            ({
                let st = old(self)@.step(ev@);
                &&& final(self)@ == st.session
                &&& out.action == st.action
                &&& (out.update is Some <==> st.update is Some)
                &&& (out.update matches Some(u) ==> (st.update matches Some(v) && u@ == v))
                &&& out.writeback@ == st.writeback
            }),
    {
        match self.status {
            SessionStatus::Stopped => {
                let out = StepOutcome {
                    action: SessionAction::Stop,
                    update: None,
                    writeback: Vec::new(),
                };
                assert(out.writeback@ =~= Seq::<u8>::empty());
                out
            },
            SessionStatus::Running => {
                match ev {
                    SessionEvent::Bytes(data) => {
                        proof {
                            crate::interp::lemma_vt_run_same_dims(self@.parser, self@.perf, data@);
                        }
                        self.parser.feed(&mut self.performer, data.as_slice());
                        let writeback = self.performer.take_responses();
                        let update = if self.performer.grid().is_dirty() {
                            let text = self.performer.grid().to_string();
                            let x = self.performer.grid().cursor_x();
                            let y = self.performer.grid().cursor_y();
                            self.performer.clear_dirty();
                            Some(
                                RenderUpdate {
                                    text,
                                    cursor_px_x: (x as u32) * CELL_WIDTH_PX,
                                    cursor_px_y: (y as u32) * LINE_HEIGHT_PX,
                                },
                            )
                        } else {
                            self.performer.clear_dirty();
                            None
                        };
                        StepOutcome { action: SessionAction::Continue, update, writeback }
                    },
                    SessionEvent::Eof => {
                        proof {
                            crate::grid::lemma_print_text_same_dims(self@.perf.grid, exit_notice());
                        }
                        self.performer.print_text("\n[Shell exited, restarting...]\n");
                        let out = StepOutcome {
                            action: SessionAction::Respawn,
                            update: None,
                            writeback: Vec::new(),
                        };
                        assert(out.writeback@ =~= Seq::<u8>::empty());
                        out
                    },
                    SessionEvent::RespawnOk => {
                        let mut performer = TerminalPerformer::new(
                            self.rows as usize,
                            self.cols as usize,
                        );
                        performer.print_text("Nebula Terminal\n");
                        proof {
                            crate::grid::lemma_print_text_same_dims(
                                crate::grid::fresh_grid(self.rows as nat, self.cols as nat),
                                banner(),
                            );
                        }
                        let text = performer.grid().to_string();
                        let x = performer.grid().cursor_x();
                        let y = performer.grid().cursor_y();
                        performer.clear_dirty();
                        self.performer = performer;
                        let out = StepOutcome {
                            action: SessionAction::Continue,
                            update: Some(
                                RenderUpdate {
                                    text,
                                    cursor_px_x: (x as u32) * CELL_WIDTH_PX,
                                    cursor_px_y: (y as u32) * LINE_HEIGHT_PX,
                                },
                            ),
                            writeback: Vec::new(),
                        };
                        assert(out.writeback@ =~= Seq::<u8>::empty());
                        out
                    },
                    SessionEvent::RespawnFailed => {
                        proof {
                            crate::grid::lemma_print_text_same_dims(
                                self@.perf.grid,
                                respawn_failure_notice(),
                            );
                        }
                        self.performer.print_text("\n[Failed to create PTY]\n");
                        self.status = SessionStatus::Stopped;
                        let out = StepOutcome {
                            action: SessionAction::Stop,
                            update: None,
                            writeback: Vec::new(),
                        };
                        assert(out.writeback@ =~= Seq::<u8>::empty());
                        out
                    },
                    SessionEvent::ReadError => {
                        self.status = SessionStatus::Stopped;
                        let out = StepOutcome {
                            action: SessionAction::Stop,
                            update: None,
                            writeback: Vec::new(),
                        };
                        assert(out.writeback@ =~= Seq::<u8>::empty());
                        out
                    },
                }
            },
        }
    }
}

/// Drives a session over a scripted sequence of read-loop events and returns
/// the session as it ends, with the most recent published snapshot.
pub fn run(rows: u16, cols: u16, events: &Vec<SessionEvent>) -> (r: (Session, Option<RenderUpdate>))
    requires
        rows >= 1,
        cols >= 1,
    ensures
        r.0@.wf(),
        ({
            let res = run_events(
                session_init(rows, cols),
                events@.map_values(|e: SessionEvent| e@),
                None,
            );
            &&& r.0@ == res.0
            &&& (r.1 is Some <==> res.1 is Some)
            &&& (r.1 matches Some(u) ==> (res.1 matches Some(v) && u@ == v))
        }),
{
    let ghost evs = events@.map_values(|e: SessionEvent| e@);
    let mut session = Session::new(rows, cols);
    let mut last: Option<RenderUpdate> = None;
    let n = events.len();
    for i in 0..n
        invariant
            n == events@.len(),
            evs == events@.map_values(|e: SessionEvent| e@),
            session@.wf(),
            ({
                let res = run_events(session_init(rows, cols), evs.take(i as int), None);
                &&& session@ == res.0
                &&& (last is Some <==> res.1 is Some)
                &&& (last matches Some(u) ==> (res.1 matches Some(v) && u@ == v))
            }),
    {
        let out = session.on_event(&events[i]);
        if out.update.is_some() {
            last = out.update;
        }
        proof {
            assert(evs.take(i + 1) =~= evs.take(i as int).push(evs[i as int]));
            lemma_run_events_snoc(session_init(rows, cols), evs.take(i as int), evs[i as int], None);
            assert(evs[i as int] == events@[i as int]@);
        }
    }
    proof {
        assert(evs.take(n as int) =~= evs);
    }
    (session, last)
}

} // verus!
