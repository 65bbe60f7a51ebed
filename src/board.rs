//! Positions and moves, from the shakmaty rules engine.

use vstd::prelude::*;

use shakmaty::fen::Fen;
use shakmaty::san::San;
use shakmaty::uci::Uci;
use shakmaty::{CastlingMode, Chess, Color, Position};

use crate::text::views;

verus! {

#[verifier::external_type_specification]
#[verifier::external_body]
pub struct ExChess(Chess);

/// Whether the FEN text sets up a legal standard-chess position.
pub uninterp spec fn fen_sets_up(fen: Seq<char>) -> bool;

/// Whether Black is to move in the position the FEN text sets up.
pub uninterp spec fn black_moves_first(fen: Seq<char>) -> bool;

/// The standard notation of the coordinate move `token`, played in the
/// position reached from `fen` by the moves `played`; `None` where the
/// token is no legal move there.
pub uninterp spec fn san_step(fen: Seq<char>, played: Seq<Seq<char>>, token: Seq<char>) -> Option<
    Seq<char>,
>;

/// The standard notation of each move of `tokens`, played in turn from the
/// position reached from `fen` by `played`; `None` if one is illegal.
pub open spec fn san_line(fen: Seq<char>, played: Seq<Seq<char>>, tokens: Seq<Seq<char>>) -> Option<
    Seq<Seq<char>>,
>
    decreases tokens.len(),
{
    if tokens.len() == 0 {
        Some(seq![])
    } else {
        match san_step(fen, played, tokens[0]) {
            Some(s) => match san_line(fen, played.push(tokens[0]), tokens.skip(1)) {
                Some(rest) => Some(seq![s] + rest),
                None => None,
            },
            None => None,
        }
    }
}

/// A position, known by the FEN it was set up from and the coordinate
/// moves played since.
pub struct Board {
    pos: Chess,
    start: Ghost<Seq<char>>,
    played: Ghost<Seq<Seq<char>>>,
}

/// Relies on `Fen::from_str` and `Fen::into_position` (standard castling):
/// the result exists exactly when the text parses and the setup is legal,
/// which depends on the text alone.
#[verifier::external_body]
fn setup_chess(fen: &str) -> (r: Option<Chess>)
    ensures
        r is Some <==> fen_sets_up(fen@),
{
    let fen: Fen = fen.parse().ok()?;
    fen.into_position(CastlingMode::Standard).ok()
}

/// Relies on `Position::turn`: whose move it is in the position.
#[verifier::external_body]
fn turn_is_black(b: &Board) -> (r: bool)
    ensures
        b.played().len() == 0 ==> r == black_moves_first(b.start()),
{
    b.pos.turn() == Color::Black
}

/// Relies on `Uci::from_str`, `Uci::to_move` (which fails on an illegal
/// move), `San::from_move` in the position before the move, and
/// `Position::play_unchecked` on the legal move.
#[verifier::external_body]
fn play_token(b: &mut Board, token: &str) -> (r: Option<String>)
    ensures
        r is Some <==> san_step(old(b).start(), old(b).played(), token@) is Some,
        r is Some ==> r->0@ == san_step(old(b).start(), old(b).played(), token@)->0,
        final(b).start() == old(b).start(),
        final(b).played() == (if r is Some {
            old(b).played().push(token@)
        } else {
            old(b).played()
        }),
{
    let uci: Uci = token.parse().ok()?;
    let m = uci.to_move(&b.pos).ok()?;
    let san = San::from_move(&b.pos, &m);
    b.pos.play_unchecked(&m);
    Some(san.to_string())
}

impl Board {
    /// The FEN text the position was set up from.
    pub closed spec fn start(&self) -> Seq<char> {
        self.start@
    }

    /// The coordinate moves played since the setup.
    pub closed spec fn played(&self) -> Seq<Seq<char>> {
        self.played@
    }

    /// Sets up the position that FEN text describes, if it is legal.
    pub fn from_fen(fen: &str) -> (r: Option<Board>)
        ensures
            r is Some <==> fen_sets_up(fen@),
            r is Some ==> r->0.start() == fen@ && r->0.played() == Seq::<Seq<char>>::empty(),
    {
        match setup_chess(fen) {
            Some(pos) => {
                let ghost empty: Seq<Seq<char>> = seq![];
                Some(Board { pos, start: Ghost(fen@), played: Ghost(empty) })
            },
            None => None,
        }
    }

    /// Whether Black is to move in the position as set up.
    pub fn black_to_move(&self) -> (r: bool)
        requires
            self.played().len() == 0,
        ensures
            r == black_moves_first(self.start()),
    {
        turn_is_black(self)
    }

    /// Plays each move of `tokens` in turn and gives their standard
    /// notation; `None` as soon as one is illegal.
    pub fn play_line(&mut self, tokens: &Vec<String>) -> (r: Option<Vec<String>>)
        ensures
            final(self).start() == old(self).start(),
            r is Some <==> san_line(old(self).start(), old(self).played(), views(tokens@)) is Some,
            r is Some ==> views(r->0@) == san_line(
                old(self).start(),
                old(self).played(),
                views(tokens@),
            )->0,
    {
        let ghost tv = views(tokens@);
        let ghost fen = self.start();
        let ghost played0 = self.played();
        let mut out: Vec<String> = Vec::new();
        let mut i: usize = 0;
        proof {
            assert(tv.skip(0) =~= tv);
            assert(views(out@) =~= Seq::<Seq<char>>::empty());
            match san_line(fen, played0, tv) {
                Some(s) => assert(views(out@) + s =~= s),
                None => {},
            }
        }
        while i < tokens.len()
            invariant
                tv == views(tokens@),
                i <= tokens@.len(),
                self.start() == fen,
                fen == old(self).start(),
                played0 == old(self).played(),
                san_line(fen, played0, tv) == (match san_line(fen, self.played(), tv.skip(i as int)) {
                    Some(rest) => Some(views(out@) + rest),
                    None => None::<Seq<Seq<char>>>,
                }),
            decreases tokens@.len() - i,
        {
            let ghost rest = tv.skip(i as int);
            let ghost before = self.played();
            assert(rest[0] == tv[i as int]);
            assert(rest.skip(1) =~= tv.skip(i + 1));
            match play_token(self, tokens[i].as_str()) {
                Some(s) => {
                    proof {
                        assert(views(out@.push(s)) =~= views(out@).push(s@));
                        match san_line(fen, self.played(), tv.skip(i + 1)) {
                            Some(r2) => {
                                assert(views(out@) + (seq![s@] + r2) =~= views(out@).push(s@) + r2);
                            },
                            None => {},
                        }
                    }
                    out.push(s);
                },
                None => {
                    assert(san_line(fen, before, rest) is None);
                    return None;
                },
            }
            i = i + 1;
        }
        proof {
            assert(tv.skip(i as int) =~= Seq::<Seq<char>>::empty());
            assert(views(out@) + Seq::<Seq<char>>::empty() =~= views(out@));
        }
        Some(out)
    }
}

} // verus!
