use engine_session::aggregator::{Aggregator, DEBOUNCE_MS, MIN_DEPTH};
use engine_session::info::parse_info_line;
use engine_session::payload::{parse_uci, BestMovePayload};
use engine_session::score::Score;
use engine_session::session::{Action, Event, Phase, Session, SessionError};
use engine_session::text::{parse_i64, parse_usize, render_u64, split_tokens};

const START: &str = "rnbqkbnr/pppppppp/8/8/8/8/PPPPPPPP/RNBQKBNR w KQkq - 0 1";
const AFTER_E4: &str = "rnbqkbnr/pppppppp/8/8/4P3/8/PPPP1PPP/RNBQKBNR b KQkq - 0 1";

fn line(depth: usize, multipv: usize, pv: &str) -> String {
    format!("info depth {} seldepth 20 multipv {} score cp 31 nodes 5000 nps 120000 time 40 pv {}", depth, multipv, pv)
}

fn payload(depth: usize, multipv: usize) -> BestMovePayload {
    let moves = ["e2e4 e7e5", "d2d4 d7d5", "g1f3 g8f6", "c2c4 e7e5", "b1c3 d7d5"];
    parse_uci(&line(depth, multipv, moves[(multipv + 4) % 5]), START, "engine").unwrap()
}

fn strings(v: &[&str]) -> Vec<String> {
    v.iter().map(|s| s.to_string()).collect()
}

#[test]
fn tokens_split_on_any_white_space() {
    assert_eq!(split_tokens("  info\tdepth  3 \r\n"), strings(&["info", "depth", "3"]));
    assert!(split_tokens("   ").is_empty());
    assert!(split_tokens("").is_empty());
}

#[test]
fn unsigned_numbers() {
    assert_eq!(parse_usize("42"), Some(42));
    assert_eq!(parse_usize("+7"), Some(7));
    assert_eq!(parse_usize("007"), Some(7));
    assert_eq!(parse_usize("18446744073709551615"), Some(usize::MAX));
    assert_eq!(parse_usize("18446744073709551616"), None);
    assert_eq!(parse_usize("-1"), None);
    assert_eq!(parse_usize(""), None);
    assert_eq!(parse_usize("+"), None);
    assert_eq!(parse_usize("1x"), None);
}

#[test]
fn signed_numbers() {
    assert_eq!(parse_i64("-50"), Some(-50));
    assert_eq!(parse_i64("+50"), Some(50));
    assert_eq!(parse_i64("-9223372036854775808"), Some(i64::MIN));
    assert_eq!(parse_i64("9223372036854775807"), Some(i64::MAX));
    assert_eq!(parse_i64("9223372036854775808"), None);
    assert_eq!(parse_i64("-"), None);
    assert_eq!(parse_i64("--1"), None);
}

#[test]
fn decimal_rendering() {
    assert_eq!(render_u64(0), "0");
    assert_eq!(render_u64(1234), "1234");
    assert_eq!(render_u64(u64::MAX), "18446744073709551615");
}

#[test]
fn info_line_fields_match_tokens() {
    let info = parse_info_line(
        "info depth 12 seldepth 15 multipv 2 score cp -34 nodes 1000 nps 250000 tbhits 0 time 4 pv e2e4 e7e5 g1f3",
    )
    .unwrap();
    assert_eq!(info.depth, 12);
    assert_eq!(info.multipv, 2);
    assert_eq!(info.score, Score::Cp(-34));
    assert_eq!(info.nps, 250000);
    assert_eq!(info.pv, strings(&["e2e4", "e7e5", "g1f3"]));
}

#[test]
fn variation_ends_at_currmove() {
    let info = parse_info_line(
        "info depth 5 multipv 1 score mate 3 nps 10 pv e2e4 e7e5 currmove e2e4 currmovenumber 1",
    )
    .unwrap();
    assert_eq!(info.score, Score::Mate(3));
    assert_eq!(info.pv, strings(&["e2e4", "e7e5"]));
}

#[test]
fn later_keyword_overrides_earlier() {
    let info = parse_info_line("info depth 3 depth 4 multipv 1 score cp 1 score mate -2 nps 5 pv a2a3").unwrap();
    assert_eq!(info.depth, 4);
    assert_eq!(info.score, Score::Mate(-2));
}

#[test]
fn missing_depth_gives_none() {
    assert!(parse_info_line("info multipv 1 score cp 20 nps 100 pv e2e4").is_none());
    assert!(parse_uci("info multipv 1 score cp 20 nps 100 pv e2e4", START, "engine").is_none());
}

#[test]
fn other_lines_give_none() {
    assert!(parse_info_line("readyok").is_none());
    assert!(parse_info_line("bestmove e2e4 ponder e7e5").is_none());
    assert!(parse_info_line("info string NNUE evaluation enabled").is_none());
    assert!(parse_info_line("").is_none());
    assert!(parse_info_line("depth 3 multipv 1 score cp 1 nps 5 pv e2e4").is_none());
}

#[test]
fn malformed_values_give_none() {
    assert!(parse_info_line("info depth x multipv 1 score cp 1 nps 5 pv e2e4").is_none());
    assert!(parse_info_line("info depth 3 multipv 1 score cp nps 5 pv e2e4").is_none());
    assert!(parse_info_line("info depth 3 multipv 1 score lowerbound 5 nps 5 pv e2e4").is_none());
    assert!(parse_info_line("info depth 3 multipv 1 score cp 1 nps 5 pv e2e4 depth").is_none());
    assert!(parse_info_line("info depth 3 multipv 1 score cp 1 pv e2e4").is_none());
}

#[test]
fn black_to_move_flips_score() {
    let l = "info depth 10 multipv 1 score cp 50 nps 1000 pv e7e5";
    assert_eq!(parse_uci(l, AFTER_E4, "engine").unwrap().score, Score::Cp(-50));
    let l = "info depth 10 multipv 1 score cp 50 nps 1000 pv e2e4";
    assert_eq!(parse_uci(l, START, "engine").unwrap().score, Score::Cp(50));
    let l = "info depth 10 multipv 1 score mate -3 nps 1000 pv e7e5";
    assert_eq!(parse_uci(l, AFTER_E4, "engine").unwrap().score, Score::Mate(3));
}

#[test]
fn canonical_score_saturates() {
    assert_eq!(Score::Cp(i64::MIN).canonical(true), Score::Cp(i64::MAX));
    assert_eq!(Score::Cp(7).canonical(false), Score::Cp(7));
}

#[test]
fn moves_in_standard_notation() {
    let p = parse_uci("info depth 1 multipv 1 score cp 0 nps 1 pv e2e4 e7e5", START, "sf").unwrap();
    assert_eq!(p.san_moves, strings(&["e4", "e5"]));
    assert_eq!(p.uci_moves, strings(&["e2e4", "e7e5"]));
    assert_eq!(p.engine, "sf");
    let p = parse_uci("info depth 1 multipv 1 score cp 0 nps 1 pv g1f3 g8f6 e1g1", START, "sf");
    assert!(p.is_none());
    let p = parse_uci("info depth 1 multipv 1 score cp 0 nps 1 pv g1f3 b8c6 b1c3 g8f6", START, "sf").unwrap();
    assert_eq!(p.san_moves, strings(&["Nf3", "Nc6", "Nc3", "Nf6"]));
}

#[test]
fn illegal_move_discards_line() {
    assert!(parse_uci("info depth 1 multipv 1 score cp 0 nps 1 pv e2e5", START, "sf").is_none());
    assert!(parse_uci("info depth 1 multipv 1 score cp 0 nps 1 pv zz99", START, "sf").is_none());
}

#[test]
fn invalid_position_gives_none() {
    assert!(parse_uci("info depth 1 multipv 1 score cp 0 nps 1 pv e2e4", "not a position", "sf").is_none());
}

#[test]
fn full_deep_batch_is_emitted_in_order() {
    let mut agg = Aggregator::new(3, MIN_DEPTH, DEBOUNCE_MS);
    assert!(agg.insert(payload(12, 2), 1000).is_none());
    assert!(agg.insert(payload(12, 3), 1001).is_none());
    let out = agg.insert(payload(12, 1), 1002).unwrap();
    assert_eq!(out.iter().map(|p| p.multipv).collect::<Vec<_>>(), vec![1, 2, 3]);
    assert!(out.iter().all(|p| p.depth == 12));
    assert!(agg.is_empty());
}

#[test]
fn shallow_batch_is_dropped() {
    let mut agg = Aggregator::new(3, MIN_DEPTH, DEBOUNCE_MS);
    assert!(agg.insert(payload(5, 1), 1000).is_none());
    assert!(agg.insert(payload(5, 2), 1000).is_none());
    assert!(!agg.is_empty());
    assert!(agg.insert(payload(5, 3), 1000).is_none());
    assert!(agg.is_empty());
}

#[test]
fn mixed_depths_are_dropped() {
    let mut agg = Aggregator::new(2, MIN_DEPTH, DEBOUNCE_MS);
    assert!(agg.insert(payload(12, 1), 1000).is_none());
    assert!(agg.insert(payload(13, 2), 1000).is_none());
    assert!(agg.is_empty());
}

#[test]
fn second_batch_within_debounce_is_dropped() {
    let mut agg = Aggregator::new(3, MIN_DEPTH, DEBOUNCE_MS);
    let mut emitted = 0;
    for t in [1000u64, 1100] {
        for i in 1..=3 {
            if agg.insert(payload(12, i), t).is_some() {
                emitted += 1;
            }
        }
    }
    assert_eq!(emitted, 1);
    assert!(agg.is_empty());
    for i in 1..=3 {
        if agg.insert(payload(12, i), 1400).is_some() {
            emitted += 1;
        }
    }
    assert_eq!(emitted, 2);
}

#[test]
fn same_index_overwrites() {
    let mut agg = Aggregator::new(2, MIN_DEPTH, DEBOUNCE_MS);
    assert!(agg.insert(payload(8, 1), 1000).is_none());
    assert!(agg.insert(payload(12, 1), 1000).is_none());
    let out = agg.insert(payload(12, 2), 1000).unwrap();
    assert_eq!(out[0].depth, 12);
}

#[test]
fn index_outside_batch_is_dropped() {
    let mut agg = Aggregator::new(1, MIN_DEPTH, DEBOUNCE_MS);
    assert!(agg.insert(payload(12, 2), 1000).is_none());
    assert!(agg.is_empty());
    assert_eq!(agg.line_count(), 1);
    assert_eq!(agg.insert(payload(12, 1), 1000).unwrap().len(), 1);
}

#[test]
fn start_commands_in_order() {
    let s = Session::new(START, "sf", 20, 3, 4, MIN_DEPTH, DEBOUNCE_MS).unwrap();
    assert_eq!(
        s.start_commands(),
        strings(&[
            &format!("position fen {}\n", START),
            "setoption name Threads value 4\n",
            "setoption name multipv value 3\n",
            "go depth 20\n",
        ])
    );
    assert_eq!(Session::stop_command(), "stop\n");
    assert_eq!(s.phase_now(), Phase::Starting);
}

#[test]
fn session_rejects_invalid_position() {
    assert_eq!(
        Session::new("8/8/8/8 w - - 0 1", "sf", 20, 1, 1, MIN_DEPTH, DEBOUNCE_MS).err(),
        Some(SessionError::InvalidPosition)
    );
}

fn feed(s: &mut Session, text: &str, now_ms: u64) -> Action {
    s.step(Event::Line { text: text.to_string(), now_ms })
}

#[test]
fn session_emits_full_batches() {
    let mut s = Session::new(START, "sf", 20, 2, 1, MIN_DEPTH, DEBOUNCE_MS).unwrap();
    assert!(matches!(s.step(Event::Started), Action::Wait));
    assert_eq!(s.phase_now(), Phase::Running);
    assert!(matches!(feed(&mut s, "readyok", 0), Action::Wait));
    assert!(matches!(feed(&mut s, &line(12, 1, "e2e4"), 1000), Action::Wait));
    match feed(&mut s, &line(12, 2, "d2d4"), 1000) {
        Action::Emit(batch) => {
            assert_eq!(batch.len(), 2);
            assert_eq!(batch[0].san_moves, strings(&["e4"]));
            assert_eq!(batch[1].san_moves, strings(&["d4"]));
        }
        _ => panic!("expected a batch"),
    }
}

#[test]
fn cancel_writes_one_stop_and_ends_emission() {
    let mut s = Session::new(START, "sf", 20, 1, 1, MIN_DEPTH, DEBOUNCE_MS).unwrap();
    s.step(Event::Started);
    assert!(matches!(feed(&mut s, &line(12, 1, "e2e4"), 1000), Action::Emit(_)));
    assert!(matches!(s.step(Event::Cancel), Action::SendStop));
    assert_eq!(s.phase_now(), Phase::Terminated);
    assert!(matches!(feed(&mut s, &line(14, 1, "e2e4"), 5000), Action::Wait));
    assert!(matches!(s.step(Event::Cancel), Action::Wait));
    assert!(matches!(s.step(Event::StreamEnd), Action::Wait));
}

#[test]
fn stream_end_and_write_failure() {
    let mut s = Session::new(START, "sf", 20, 1, 1, MIN_DEPTH, DEBOUNCE_MS).unwrap();
    s.step(Event::Started);
    assert!(matches!(s.step(Event::StreamEnd), Action::Finish));
    let mut s = Session::new(START, "sf", 20, 1, 1, MIN_DEPTH, DEBOUNCE_MS).unwrap();
    assert!(matches!(s.step(Event::WriteFailed), Action::Fail));
    assert_eq!(s.phase_now(), Phase::Terminated);
}

#[test]
fn serialized_line_reads_back() {
    let line = "info depth 18 multipv 3 score mate -4 nps 987654 pv e2e4 e7e5 g1f3";
    let info = parse_info_line(line).unwrap();
    assert_eq!(info.to_line(), line);
    let again = parse_info_line(&info.to_line()).unwrap();
    assert_eq!(again.depth, 18);
    assert_eq!(again.multipv, 3);
    assert_eq!(again.score, Score::Mate(-4));
    assert_eq!(again.nps, 987654);
    assert_eq!(again.pv, strings(&["e2e4", "e7e5", "g1f3"]));
}

#[test]
fn serialized_extremes_read_back() {
    let info = parse_info_line(
        "info nps 0 pv multipv 18446744073709551615 depth 0 score cp -9223372036854775808",
    )
    .unwrap();
    assert_eq!(info.pv.len(), 7);
    assert_eq!(info.depth, 0);
    let info = parse_info_line(
        "info depth 0 multipv 18446744073709551615 score cp -9223372036854775808 nps 0 pv",
    )
    .unwrap();
    assert!(info.pv.is_empty());
    let text = info.to_line();
    assert_eq!(text, "info depth 0 multipv 18446744073709551615 score cp -9223372036854775808 nps 0 pv");
    let again = parse_info_line(&text).unwrap();
    assert_eq!(again.score, Score::Cp(i64::MIN));
    assert_eq!(again.multipv, usize::MAX);
}
