//! The decisions of one analysis session: the commands that start the
//! engine, and what to do on each line it prints, on cancellation and on
//! the end of its output. The caller performs the I/O.

use vstd::prelude::*;
use vstd::string::*;

use crate::aggregator::{inserted, Aggregator};
use crate::board::{black_moves_first, fen_sets_up, san_line, Board};
use crate::info::{line_fields, parse_info_line, Fields};
use crate::payload::{payload_of, BestMovePayload};
use crate::score::canonical;
use crate::text::{decimal, render_u64, views};

verus! {

/// Where a session stands.
#[derive(Debug, Clone, Copy, PartialEq, Eq, Structural)]
pub enum Phase {
    /// The start commands are being written.
    Starting,
    /// The engine's output is being read.
    Running,
    /// Nothing more is done.
    Terminated,
}

/// What happened, as the caller reports it.
#[derive(Debug)]
pub enum Event {
    /// The start commands were all written.
    Started,
    /// The engine printed a line, read at time `now_ms`.
    Line { text: String, now_ms: u64 },
    /// The caller asked to stop the analysis.
    Cancel,
    /// The engine's output ended, or could not be read.
    StreamEnd,
    /// A write to the engine failed.
    WriteFailed,
}

/// What happened, without its data.
#[derive(Debug, Clone, Copy, PartialEq, Eq, Structural)]
pub enum EventKind {
    Started,
    Line,
    Cancel,
    StreamEnd,
    WriteFailed,
}

/// What the caller is to do next.
#[derive(Debug)]
pub enum Action {
    /// Nothing; wait for the next event.
    Wait,
    /// Hand these result lines on, as one batch.
    Emit(Vec<BestMovePayload>),
    /// Write the stop command, then finish.
    SendStop,
    /// Finish: the session is over.
    Finish,
    /// Finish and report that the engine could not be written to.
    Fail,
}

/// Why a session could not be set up.
#[derive(Debug, Clone, Copy, PartialEq, Eq, Structural)]
pub enum SessionError {
    /// The FEN text sets up no legal position.
    InvalidPosition,
}

pub open spec fn kind_of(ev: Event) -> EventKind {
    match ev {
        Event::Started => EventKind::Started,
        Event::Line { .. } => EventKind::Line,
        Event::Cancel => EventKind::Cancel,
        Event::StreamEnd => EventKind::StreamEnd,
        Event::WriteFailed => EventKind::WriteFailed,
    }
}

/// The phase after an event of kind `k` in phase `p`.
pub open spec fn phase_after(p: Phase, k: EventKind) -> Phase {
    match p {
        Phase::Starting => match k {
            EventKind::Started => Phase::Running,
            EventKind::Line => Phase::Starting,
            _ => Phase::Terminated,
        },
        Phase::Running => match k {
            EventKind::Started | EventKind::Line => Phase::Running,
            _ => Phase::Terminated,
        },
        Phase::Terminated => Phase::Terminated,
    }
}

/// Whether an event of kind `k` in phase `p` has the stop command written.
pub open spec fn writes_stop(p: Phase, k: EventKind) -> bool {
    p != Phase::Terminated && k == EventKind::Cancel
}

/// Whether an event of kind `k` in phase `p` may hand results on.
pub open spec fn may_emit(p: Phase, k: EventKind) -> bool {
    p == Phase::Running && k == EventKind::Line
}

/// The phase after the events `ks`, from phase `p`.
pub open spec fn run_phase(p: Phase, ks: Seq<EventKind>) -> Phase
    decreases ks.len(),
{
    if ks.len() == 0 {
        p
    } else {
        run_phase(phase_after(p, ks[0]), ks.skip(1))
    }
}

/// How many stop commands the events `ks` have written, from phase `p`.
pub open spec fn stops_written(p: Phase, ks: Seq<EventKind>) -> nat
    decreases ks.len(),
{
    if ks.len() == 0 {
        0
    } else {
        (if writes_stop(p, ks[0]) { 1nat } else { 0nat }) + stops_written(
            phase_after(p, ks[0]),
            ks.skip(1),
        )
    }
}

/// Whether any of the events `ks`, from phase `p`, may hand results on.
pub open spec fn any_emission(p: Phase, ks: Seq<EventKind>) -> bool
    decreases ks.len(),
{
    if ks.len() == 0 {
        false
    } else {
        may_emit(p, ks[0]) || any_emission(phase_after(p, ks[0]), ks.skip(1))
    }
}

proof fn lemma_terminated_is_quiet(ks: Seq<EventKind>)
    ensures
        stops_written(Phase::Terminated, ks) == 0,
        !any_emission(Phase::Terminated, ks),
        run_phase(Phase::Terminated, ks) == Phase::Terminated,
    decreases ks.len(),
{
    if ks.len() > 0 {
        lemma_terminated_is_quiet(ks.skip(1));
    }
}

/// A cancellation observed while the engine runs has the stop command
/// written exactly once, whatever events follow, and no results are handed
/// on after it.
pub proof fn lemma_cancel_stops_once(later: Seq<EventKind>)
    ensures
        stops_written(Phase::Running, seq![EventKind::Cancel] + later) == 1,
        !any_emission(Phase::Running, seq![EventKind::Cancel] + later),
        run_phase(Phase::Running, seq![EventKind::Cancel] + later) == Phase::Terminated,
{
    let ks = seq![EventKind::Cancel] + later;
    assert(ks.skip(1) =~= later);
    lemma_terminated_is_quiet(later);
}

/// The result line for the fields `f` of an engine line, in a session on
/// `fen`, with `black` to move there, for the engine `engine`.
pub open spec fn payload_from_fields(
    p: BestMovePayload,
    f: Fields,
    fen: Seq<char>,
    black: bool,
    engine: Seq<char>,
) -> bool {
    &&& p.engine@ == engine
    &&& Some(p.depth) == f.depth
    &&& Some(p.multipv) == f.multipv
    &&& Some(p.nps) == f.nps
    &&& p.score == canonical(f.score->0, black)
    &&& Some(views(p.uci_moves@)) == f.pv
    &&& Some(views(p.san_moves@)) == san_line(fen, seq![], f.pv->0)
}

/// Whether an engine line yields a result line in a session on `fen`: it
/// is a well-formed `info` line, and each move of its variation is legal.
pub open spec fn line_usable(line: Seq<char>, fen: Seq<char>) -> bool {
    line_fields(line) is Some && san_line(fen, seq![], line_fields(line)->0.pv->0) is Some
}

/// The batch an action hands on, if it hands one on.
pub open spec fn batch_of(r: Action) -> Option<Vec<BestMovePayload>> {
    match r {
        Action::Emit(b) => Some(b),
        _ => None,
    }
}

/// What taking the engine line `text` at time `now_ms` does in a session
/// on `fen`, with `black` to move there, for the engine `engine`: `a0` is
/// the aggregator before, `a1` after, and `r` what it hands on. An unusable
/// line changes nothing; a usable one goes to the aggregator as its result
/// line.
pub open spec fn line_taken(
    a0: Aggregator,
    text: Seq<char>,
    now_ms: u64,
    fen: Seq<char>,
    black: bool,
    engine: Seq<char>,
    a1: Aggregator,
    r: Option<Vec<BestMovePayload>>,
) -> bool {
    if line_usable(text, fen) {
        exists|p: BestMovePayload|
            payload_from_fields(p, line_fields(text)->0, fen, black, engine) && #[trigger] inserted(
                a0,
                p,
                now_ms,
                a1,
                r,
            )
    } else {
        r is None && a1 == a0
    }
}

/// The commands that start an analysis, in the order they are written.
pub open spec fn start_commands(fen: Seq<char>, threads: nat, lines: nat, depth: nat) -> Seq<
    Seq<char>,
> {
    seq![
        "position fen "@ + fen + "\n"@,
        "setoption name Threads value "@ + decimal(threads) + "\n"@,
        "setoption name multipv value "@ + decimal(lines) + "\n"@,
        "go depth "@ + decimal(depth) + "\n"@,
    ]
}

/// One analysis of one position by one engine.
pub struct Session {
    fen: String,
    engine: String,
    black_to_move: bool,
    depth: usize,
    lines: usize,
    threads: usize,
    agg: Aggregator,
    phase: Phase,
}

impl Session {
    pub closed spec fn fen(&self) -> Seq<char> {
        self.fen@
    }

    pub closed spec fn engine(&self) -> Seq<char> {
        self.engine@
    }

    pub closed spec fn phase(&self) -> Phase {
        self.phase
    }

    pub closed spec fn lines(&self) -> usize {
        self.lines
    }

    pub closed spec fn threads(&self) -> usize {
        self.threads
    }

    /// The depth the search is limited to.
    pub closed spec fn depth(&self) -> usize {
        self.depth
    }

    pub closed spec fn aggregator(&self) -> Aggregator {
        self.agg
    }

    /// Whether Black is to move in the analysed position.
    pub closed spec fn black_to_move(&self) -> bool {
        self.black_to_move
    }

    pub closed spec fn wf(&self) -> bool {
        &&& fen_sets_up(self.fen@)
        &&& self.black_to_move == black_moves_first(self.fen@)
        &&& 1 <= self.lines <= 5
        &&& self.agg.slots().len() == self.lines
    }

    /// A session on the position `fen` for the engine `engine`: a search
    /// to `depth` plies over `lines` variations on `threads` threads.
    /// Batches are handed on from `min_depth` on, at most once per
    /// `debounce_ms` milliseconds.
    pub fn new(
        fen: &str,
        engine: &str,
        depth: usize,
        lines: usize,
        threads: usize,
        min_depth: usize,
        debounce_ms: u64,
    ) -> (r: Result<Session, SessionError>)
        requires
            1 <= lines <= 5,
        ensures
            r is Err <==> !fen_sets_up(fen@),
            r is Err ==> r->Err_0 == SessionError::InvalidPosition,
            r is Ok ==> {
                let s = r->Ok_0;
                &&& s.wf()
                &&& s.fen() == fen@
                &&& s.engine() == engine@
                &&& s.lines() == lines
                &&& s.threads() == threads
                &&& s.depth() == depth
                &&& s.phase() == Phase::Starting
                &&& s.aggregator().slots().len() == lines
                &&& s.aggregator().min_depth() == min_depth
                &&& s.aggregator().debounce_ms() == debounce_ms
                &&& s.aggregator().last_emit() is None
            },
    {
        let board = match Board::from_fen(fen) {
            Some(b) => b,
            None => return Err(SessionError::InvalidPosition),
        };
        let black_to_move = board.black_to_move();
        Ok(
            Session {
                fen: String::from_str(fen),
                engine: String::from_str(engine),
                black_to_move,
                depth,
                lines,
                threads,
                agg: Aggregator::new(lines, min_depth, debounce_ms),
                phase: Phase::Starting,
            },
        )
    }

    pub fn phase_now(&self) -> (r: Phase)
        ensures
            r == self.phase(),
    {
        self.phase
    }

    /// The commands that start the analysis, each ended by a newline.
    pub fn start_commands(&self) -> (r: Vec<String>)
        ensures
            views(r@) == start_commands(
                self.fen(),
                self.threads() as nat,
                self.lines() as nat,
                self.depth() as nat,
            ),
    {
        let mut position = String::from_str("position fen ");
        position.append(self.fen.as_str());
        position.append("\n");
        let mut threads = String::from_str("setoption name Threads value ");
        threads.append(render_u64(self.threads as u64).as_str());
        threads.append("\n");
        let mut multipv = String::from_str("setoption name multipv value ");
        multipv.append(render_u64(self.lines as u64).as_str());
        multipv.append("\n");
        let mut go = String::from_str("go depth ");
        go.append(render_u64(self.depth as u64).as_str());
        go.append("\n");
        let mut r: Vec<String> = Vec::new();
        r.push(position);
        r.push(threads);
        r.push(multipv);
        r.push(go);
        assert(views(r@) =~= start_commands(
            self.fen(),
            self.threads as nat,
            self.lines as nat,
            self.depth as nat,
        ));
        r
    }

    /// The command that stops the search.
    pub fn stop_command() -> (r: String)
        ensures
            r@ == "stop\n"@,
    {
        String::from_str("stop\n")
    }

    /// Handles one engine line read at `now_ms`: a usable line goes to the
    /// batch, and what the batch hands on is returned.
    fn take_line(&mut self, text: &str, now_ms: u64) -> (r: Option<Vec<BestMovePayload>>)
        requires
            old(self).wf(),
        ensures
            final(self).wf(),
            final(self).fen() == old(self).fen(),
            final(self).engine() == old(self).engine(),
            final(self).lines() == old(self).lines(),
            final(self).phase() == old(self).phase(),
            final(self).black_to_move() == old(self).black_to_move(),
            line_taken(
                old(self).aggregator(),
                text@,
                now_ms,
                old(self).fen(),
                old(self).black_to_move(),
                old(self).engine(),
                final(self).aggregator(),
                r,
            ),
    {
        let info = match parse_info_line(text) {
            Some(i) => i,
            None => return None,
        };
        let ghost gi = info;
        let ghost f = line_fields(text@)->0;
        assert(f.pv == Some(views(gi.pv@)));
        match payload_of(info, self.fen.as_str(), self.black_to_move, self.engine.as_str()) {
            Some(p) => {
                let ghost gp = p;
                let ghost a0 = self.agg;
                let r = self.agg.insert(p, now_ms);
                assert(payload_from_fields(
                    gp,
                    f,
                    self.fen(),
                    self.black_to_move(),
                    self.engine(),
                ));
                assert(inserted(a0, gp, now_ms, self.agg, r));
                assert(line_usable(text@, self.fen()));
                r
            },
            None => {
                assert(!line_usable(text@, self.fen()));
                None
            },
        }
    }

    /// Decides what to do on the event `ev`.
    pub fn step(&mut self, ev: Event) -> (r: Action)
        requires
            old(self).wf(),
        ensures
            final(self).wf(),
            final(self).fen() == old(self).fen(),
            final(self).engine() == old(self).engine(),
            final(self).lines() == old(self).lines(),
            final(self).phase() == phase_after(old(self).phase(), kind_of(ev)),
            (r is SendStop) <==> writes_stop(old(self).phase(), kind_of(ev)),
            (r is Emit) ==> may_emit(old(self).phase(), kind_of(ev)),
            (r is Fail) <==> (old(self).phase() != Phase::Terminated && ev is WriteFailed),
            (r is Finish) <==> (old(self).phase() != Phase::Terminated && ev is StreamEnd),
            !may_emit(old(self).phase(), kind_of(ev)) ==> final(self).aggregator()
                == old(self).aggregator(),
            may_emit(old(self).phase(), kind_of(ev)) ==> line_taken(
                old(self).aggregator(),
                ev->Line_text@,
                ev->Line_now_ms,
                old(self).fen(),
                old(self).black_to_move(),
                old(self).engine(),
                final(self).aggregator(),
                batch_of(r),
            ),
    {
        match self.phase {
            Phase::Terminated => Action::Wait,
            Phase::Starting => match ev {
                Event::Started => {
                    self.phase = Phase::Running;
                    Action::Wait
                },
                Event::Line { .. } => Action::Wait,
                Event::Cancel => {
                    self.phase = Phase::Terminated;
                    Action::SendStop
                },
                Event::StreamEnd => {
                    self.phase = Phase::Terminated;
                    Action::Finish
                },
                Event::WriteFailed => {
                    self.phase = Phase::Terminated;
                    Action::Fail
                },
            },
            Phase::Running => match ev {
                Event::Started => Action::Wait,
                Event::Line { text, now_ms } => {
                    let res = self.take_line(text.as_str(), now_ms);
                    let ghost gres = res;
                    let r = match res {
                        Some(batch) => Action::Emit(batch),
                        None => Action::Wait,
                    };
                    assert(batch_of(r) == gres);
                    r
                },
                Event::Cancel => {
                    self.phase = Phase::Terminated;
                    Action::SendStop
                },
                Event::StreamEnd => {
                    self.phase = Phase::Terminated;
                    Action::Finish
                },
                Event::WriteFailed => {
                    self.phase = Phase::Terminated;
                    Action::Fail
                },
            },
        }
    }
}

} // verus!
