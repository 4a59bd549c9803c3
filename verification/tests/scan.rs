use cgir::codec::{encode_all, Command, Inbound};
use cgir::scan::{find_marker, is_decodable, receive};
use cgir::handshake::{HandshakeError, Phase};
use cgir::uci::Uci;
use chess::{ChessMove, Square};

#[test]
fn marker_is_found_at_its_first_place() {
    assert_eq!(find_marker("id name Stockfish\n"), Some(0));
    assert_eq!(find_marker(">> id name X id author Y\n"), Some(3));
    assert_eq!(find_marker("Stockfish 11 64\n"), None);
    assert_eq!(find_marker("id"), None);
    assert_eq!(find_marker(""), None);
    assert_eq!(find_marker("\u{e9}t\u{e9} id name X\n"), Some(4));
}

#[test]
fn identification_counts_from_the_marker() {
    let (mut uci, _) = Uci::start_engine();
    assert_eq!(uci.handshake_line("welcome! id name Engine 1.0\n"), Ok(vec![]));
    assert_eq!(uci.phase(), Phase::AwaitingUciOk);
}

#[test]
fn ordinary_lines_are_decodable() {
    assert!(is_decodable("info depth 20 seldepth 31 multipv 1 score cp 35 nodes 3000000 nps 1500000 time 2000 pv e2e4 e7e5\n"));
    assert!(is_decodable("info depth 255 score cp 999 pv e2e4\n"));
    assert!(is_decodable("id name Ethereal 12.00 (SSE41)\n"));
    assert!(is_decodable("bestmove a7a8q ponder h7h8n\n"));
    assert!(is_decodable("option name Hash type spin default 16 min 1 max 33554432\n"));
    assert!(is_decodable(""));
    assert!(is_decodable("   \t"));
}

#[test]
fn lines_that_read_no_byte_or_move_are_decodable() {
    assert!(is_decodable("id name Engine A1B2\n"));
    assert!(is_decodable("id author depth 300\n"));
    assert!(is_decodable("info score mate 300\n"));
    assert!(is_decodable("info nodes  300000\n"));
    assert!(is_decodable("info nodes 300\n"));
    assert!(is_decodable("info time 999\n"));
    assert!(is_decodable("info string depth 300 and E2E4\n"));
    assert!(is_decodable("INFO  String depth 999\n"));
    assert!(is_decodable("info depth 3 multipv 1 string depth 300 E2E4\n"));
    assert!(is_decodable("info depth 3 stringent depth 300\n"));
    assert_eq!(receive("info depth 3 multipv 1 string depth 300 E2E4\n").map(|m| matches!(m, Inbound::Info(_))), Some(true));
    assert_eq!(receive("info score mate 300\n").map(|m| matches!(m, Inbound::Info(_))), Some(true));
    assert_eq!(receive("id name Engine A1B2\n"), Some(Inbound::Id));
    assert!(is_decodable("option name depth 300 type spin\n"));
    assert!(is_decodable("good depth 300 E2E4\n"));
    assert!(is_decodable("gone\n"));
}

#[test]
fn go_lines_are_not_decodable() {
    assert!(!is_decodable("go"));
    assert!(!is_decodable("go "));
    assert!(!is_decodable("go\n"));
    assert!(!is_decodable("go\r\n"));
    assert!(!is_decodable("go depth 3 "));
    assert!(!is_decodable("  GO infinite\n"));
    assert!(!is_decodable("\tGo\tponder"));
    assert!(!is_decodable("go movestogo 400\n"));
    assert!(!is_decodable("go mate 256\n"));
    assert_eq!(receive("go "), None);
    assert_eq!(receive("go depth 3 "), None);
}

#[test]
fn byte_overflow_is_not_decodable() {
    assert!(!is_decodable("info depth 256\n"));
    assert!(!is_decodable("info seldepth 999 depth 3\n"));
    assert!(!is_decodable("info DEPTH\t300\n"));
    assert!(!is_decodable("info depth  300\n"));
    assert!(!is_decodable("  info multipv 2 SelDepth \t 2560\n"));
    assert!(!is_decodable("info depth 300 string fine\n"));
    assert!(is_decodable("info depth 0300\n"));
    assert!(is_decodable("info depth 255\n"));
}

#[test]
fn capital_files_are_not_decodable() {
    assert!(!is_decodable("bestmove E2E4\n"));
    assert!(!is_decodable("bestmove e2E4\n"));
    assert!(!is_decodable("info pv A7a8\n"));
    assert!(!is_decodable("position startpos moves e2e4 E7E5\n"));
    assert!(!is_decodable("position fen 8/8/8/8/8/8/8/8 w - - 0 1 moves E2e4\n"));
    assert!(is_decodable("position fen 2B1b3/8/8/8/8/8/8/8 w - - 0 1 moves e2e4\n"));
    assert!(is_decodable("position fen 2B1b3/8/8/8/8/8/8/8 w - - 0 1\n"));
    assert!(is_decodable("bestmove e2e4\n"));
}

#[test]
fn receive_decodes_or_declines() {
    assert_eq!(receive("uciok\n"), Some(Inbound::UciOk));
    assert_eq!(receive("readyok"), Some(Inbound::ReadyOk));
    assert_eq!(receive("id author Somebody\n"), Some(Inbound::Id));
    assert_eq!(receive("hello there\n"), Some(Inbound::Other));
    assert_eq!(receive("option name Ponder type check default false\n"), Some(Inbound::Other));
    assert_eq!(
        receive("bestmove g1f3 ponder g8f6\n"),
        Some(Inbound::BestMove {
            best_move: ChessMove::new(Square::G1, Square::F3, None),
            ponder: Some(ChessMove::new(Square::G8, Square::F6, None)),
        })
    );
    assert_eq!(receive("info depth 256\n"), None);
    assert_eq!(receive("bestmove E2E4\n"), None);
}

#[test]
fn undecodable_line_fails_the_handshake() {
    let (mut uci, _) = Uci::start_engine();
    assert_eq!(uci.handshake_line("id name Engine\n"), Ok(vec![]));
    assert_eq!(uci.handshake_line("info depth 300\n"), Err(HandshakeError::UndecodableLine));
    assert_eq!(uci.phase(), Phase::Failed);
}

#[test]
fn lines_outside_the_handshake_change_nothing() {
    let (mut uci, _) = Uci::start_engine();
    for line in ["id name Engine\n", "uciok\n", "readyok\n", "readyok\n"] {
        assert!(uci.handshake_line(line).is_ok());
    }
    assert_eq!(uci.handshake_line("readyok\n"), Ok(vec![]));
    assert_eq!(uci.phase(), Phase::Ready);
}

#[test]
fn commands_are_written_as_lines() {
    assert_eq!(encode_all(&vec![]), Vec::<u8>::new());
    assert_eq!(encode_all(&vec![Command::Uci, Command::IsReady]), b"uci\nisready\n".to_vec());
    assert_eq!(encode_all(&vec![Command::UciNewGame, Command::Stop]), b"ucinewgame\nstop\n".to_vec());
    assert_eq!(encode_all(&vec![Command::GoDepth(18)]), b"go depth 18 \n".to_vec());
    assert_eq!(
        encode_all(&vec![Command::SetOption { name: "MultiPV".to_string(), value: "5".to_string() }]),
        b"setoption name MultiPV value 5\n".to_vec()
    );
}

const STARTS: [&str; 10] = [
    "info",
    "go",
    "bestmove",
    "position startpos moves",
    "position fen 8/8/8/8/8/8/8/8 w - - 0 1 moves",
    "id name",
    "option name X type spin default",
    "setoption name",
    "INFO",
    "register",
];

const WORDS: [&str; 42] = [
    "depth", "seldepth", "mate", "movestogo", "nodes", "score cp", "score mate", "multipv", "time", "hashfull",
    "currline", "pv", "ponder", "string", "DEPTH", "Mate", "wtime", "movetime", "currmove", "currmovenumber",
    "0", "7", "255", "256", "300", "999", "1000", "25599", "-300", "+300", "999999999999", "9999999999999",
    "e2e4", "E2E4", "e2E4", "a7a8q", "a7a8Q", "h9h1", "e2", "value", "min 300 max 999", "lowerbound",
];

/// Decodes every line made of a start and two words, and counts the lines
/// that were decoded and those that were declined.
fn sweep(gap: &str, tail: &str) -> (u32, u32) {
    let mut decoded: u32 = 0;
    let mut declined: u32 = 0;
    for start in STARTS {
        for first in WORDS {
            for second in WORDS {
                let line = format!("{start}{gap}{first}{gap}{second}{tail}");
                if is_decodable(&line) {
                    assert!(receive(&line).is_some());
                    decoded += 1;
                } else {
                    assert_eq!(receive(&line), None);
                    declined += 1;
                }
            }
        }
    }
    (decoded, declined)
}

#[test]
fn decodable_lines_are_decoded() {
    let (decoded, declined) = sweep(" ", "\n");
    assert_eq!(decoded + declined, 17640);
    assert!(decoded > declined);
    assert!(declined >= 1764);
}

#[test]
fn decodable_lines_with_tabs_are_decoded() {
    let (decoded, declined) = sweep("\t", " depth 300\n");
    assert_eq!(decoded + declined, 17640);
    assert!(decoded > 0);
    assert!(declined >= 1764);
}

#[test]
fn decodable_lines_with_wide_gaps_are_decoded() {
    let (decoded, declined) = sweep("  ", " pv e2e4 E7e5\n");
    assert_eq!(decoded + declined, 17640);
    assert!(decoded > 0);
    assert!(declined >= 1764);
}

#[test]
fn decodable_lines_that_end_in_a_blank_are_decoded() {
    let (decoded, declined) = sweep(" ", " ");
    assert_eq!(decoded + declined, 17640);
    assert!(decoded > declined);
    assert!(declined >= 1764);
}

#[test]
fn decodable_lines_without_an_end_are_decoded() {
    let (decoded, declined) = sweep(" ", "");
    assert_eq!(decoded + declined, 17640);
    assert!(decoded > declined);
    let (decoded, declined) = sweep(" ", "\t\r\n");
    assert_eq!(decoded + declined, 17640);
    assert!(decoded > declined);
}

#[test]
fn other_messages_are_decoded() {
    let starts = [
        "", "uci", "debug", "debug on", "debug off", "isready", "register", "register later", "register name a code",
        "ucinewgame", "stop", "quit", "ponderhit", "uciok", "readyok", "copyprotection", "copyprotection ok",
        "registration", "registration error", "gO", "goo", "gone", "id", "id author", "info string", "info",
        "bestmove", "position", "position startpos", "setoption", "option", "option name X type",
    ];
    let tails = ["", " ", "\n", " \n", "\t\r\n", "\r"];
    let mut decoded: u32 = 0;
    for start in starts {
        for word in std::iter::once("").chain(WORDS) {
            for gap in ["", " ", "\t "] {
                for tail in tails {
                    let line = format!("{start}{gap}{word}{tail}");
                    if is_decodable(&line) {
                        assert!(receive(&line).is_some());
                        decoded += 1;
                    } else {
                        assert_eq!(receive(&line), None);
                    }
                }
            }
        }
    }
    assert!(decoded > 20000);
}

const VOCABULARY: [&str; 96] = [
    "info", "go", "bestmove", "position", "id", "option", "setoption", "register", "debug", "uci", "isready",
    "ucinewgame", "stop", "quit", "ponderhit", "uciok", "readyok", "copyprotection", "registration", "startpos",
    "fen", "moves", "name", "author", "type", "default", "min", "max", "var", "value", "code", "later", "on", "off",
    "ok", "checking", "error", "spin", "check", "combo", "button", "string", "depth", "seldepth", "time", "nodes",
    "currmove", "currmovenum", "currmovenumber", "hashfull", "nps", "tbhits", "sbhits", "cpuload", "pv", "multipv",
    "refutation", "currline", "score", "cp", "mate", "lowerbound", "upperbound", "ponder", "infinite", "movetime",
    "wtime", "btime", "winc", "binc", "movestogo", "searchmoves", "8/8/8/8/8/8/8/8", "w", "-", "0", "1", "7", "42",
    "255", "256", "300", "999", "1000", "-300", "+5", "999999999999", "e2e4", "e7e5", "a7a8q", "E2E4", "e2E4",
    "A7A8Q", "h9h1", "String", "DEPTH",
];

/// Decodes lines of words drawn from the vocabulary by a fixed sequence of
/// numbers, and counts those that were decoded.
fn draw(seed: u64, lines: u32) -> u32 {
    let mut state = seed;
    let mut next = move |bound: usize| {
        state = state.wrapping_mul(6364136223846793005).wrapping_add(1442695040888963407);
        ((state >> 33) as usize) % bound
    };
    let gaps = [" ", " ", " ", "  ", "\t"];
    let ends = ["\n", "\n", "", " ", "\r\n", " \n"];
    let mut decoded: u32 = 0;
    for _ in 0..lines {
        let mut line = String::new();
        // most lines open with a word that the decoder reads bytes or moves after
        let opening = if next(4) == 0 { VOCABULARY[next(VOCABULARY.len())] } else { VOCABULARY[next(4)] };
        line.push_str(opening);
        for _ in 0..1 + next(7) {
            line.push_str(gaps[next(gaps.len())]);
            line.push_str(VOCABULARY[next(VOCABULARY.len())]);
        }
        line.push_str(ends[next(ends.len())]);
        if is_decodable(&line) {
            assert!(receive(&line).is_some(), "{:?}", line);
            decoded += 1;
        } else {
            assert_eq!(receive(&line), None);
        }
    }
    decoded
}

#[test]
fn drawn_lines_are_decoded() {
    assert!(draw(1, 20000) > 2000);
}

#[test]
fn more_drawn_lines_are_decoded() {
    assert!(draw(0x9e3779b97f4a7c15, 20000) > 2000);
}
