//! Finished result lines: a search record with its moves in standard
//! notation and its score from White's point of view.

use vstd::prelude::*;
use vstd::string::*;

use crate::board::{black_moves_first, fen_sets_up, san_line, Board};
use crate::info::{line_fields, parse_info_line, SearchInfo};
use crate::score::{canonical, Score};
use crate::text::views;

verus! {

/// One result line as it is handed to the caller.
#[derive(Debug)]
pub struct BestMovePayload {
    pub engine: String,
    pub depth: usize,
    pub score: Score,
    pub san_moves: Vec<String>,
    pub uci_moves: Vec<String>,
    pub multipv: usize,
    pub nps: usize,
}

/// Whether `p` is the result line for `info`, from the engine `engine`,
/// in the position `fen` with `black` to move.
pub open spec fn payload_for(
    p: BestMovePayload,
    info: SearchInfo,
    fen: Seq<char>,
    black: bool,
    engine: Seq<char>,
) -> bool {
    &&& p.engine@ == engine
    &&& p.depth == info.depth
    &&& p.score == canonical(info.score, black)
    &&& views(p.uci_moves@) == views(info.pv@)
    &&& Some(views(p.san_moves@)) == san_line(fen, seq![], views(info.pv@))
    &&& p.multipv == info.multipv
    &&& p.nps == info.nps
}

/// Turns a search record into a result line, replaying its variation from
/// the position `fen`, in which `black_to_move` says whose turn it is.
/// `None` where the FEN sets up no legal position or a move is illegal.
pub fn payload_of(info: SearchInfo, fen: &str, black_to_move: bool, engine: &str) -> (r: Option<
    BestMovePayload,
>)
    ensures
        r is Some <==> (fen_sets_up(fen@) && san_line(fen@, seq![], views(info.pv@)) is Some),
        r is Some ==> payload_for(r->0, info, fen@, black_to_move, engine@),
{
    let mut board = match Board::from_fen(fen) {
        Some(b) => b,
        None => return None,
    };
    match board.play_line(&info.pv) {
        Some(san_moves) => Some(
            BestMovePayload {
                engine: String::from_str(engine),
                depth: info.depth,
                score: info.score.canonical(black_to_move),
                san_moves,
                uci_moves: info.pv,
                multipv: info.multipv,
                nps: info.nps,
            },
        ),
        None => None,
    }
}

/// Reads one engine line and turns it into a result line for the position
/// `fen`, with the score restated from White's point of view. `None` where
/// the line is no well-formed `info` line, the FEN sets up no legal
/// position, or a move of the variation is illegal.
pub fn parse_uci(info: &str, fen: &str, engine: &str) -> (r: Option<BestMovePayload>)
    ensures
        r is Some <==> (line_fields(info@) is Some && fen_sets_up(fen@) && san_line(
            fen@,
            seq![],
            line_fields(info@)->0.pv->0,
        ) is Some),
        r is Some ==> {
            let f = line_fields(info@)->0;
            &&& r->0.engine@ == engine@
            &&& Some(r->0.depth) == f.depth
            &&& Some(r->0.multipv) == f.multipv
            &&& Some(r->0.nps) == f.nps
            &&& r->0.score == canonical(f.score->0, black_moves_first(fen@))
            &&& Some(views(r->0.uci_moves@)) == f.pv
            &&& Some(views(r->0.san_moves@)) == san_line(fen@, seq![], f.pv->0)
        },
{
    let si = match parse_info_line(info) {
        Some(si) => si,
        None => return None,
    };
    let board = match Board::from_fen(fen) {
        Some(b) => b,
        None => return None,
    };
    let black = board.black_to_move();
    payload_of(si, fen, black, engine)
}

} // verus!
