use chess_pipeline::codec::{decode_game, decode_raw_game, encode_game, encode_raw_game};
use chess_pipeline::config::{Config, StorageConfig};
use chess_pipeline::dates::{
    civil_from_days_exec, days_from_civil_exec, epoch_seconds, parse_date, parse_time, Date,
};
use chess_pipeline::entity::{
    game_move_entities, into_chess_game_comment_eval_entity, into_chess_game_entity,
    into_chess_game_move_entity, title_name_from_id,
};
use chess_pipeline::lichess::{enforce_lichess_download_limit, files_from_list, Lichess};
use chess_pipeline::model::{
    ChessGame, Comment, File, GameEntry, GameResult, NormalSan, Player, PlayerTitle, Rank,
    RawChessGame, Role, San, Square, Termination, Timecontrol,
};
use chess_pipeline::progress::Progress;
use chess_pipeline::queue::{
    prepare_game_message, process_raw_game, random_alphanumeric_key, random_key,
    SyncedFileMessage, TOPIC_CHESS_GAMES,
};
use chess_pipeline::reader::{parse_game, parse_eval_centipawns, ParseFailure};
use chess_pipeline::splitter::{
    bytes_to_string_lossy, content_hash, split_games, zstd_decode_all, SplitProgress,
};
use chess_pipeline::csv::{csv_field_text, csv_line_text, SinkBuffers};
use chess_pipeline::fetcher::{
    fetch_plan, logical_path_from_url, strip_archive_suffix, ChunkAccumulator, FetchAction,
};
use chess_pipeline::hdfs::{file_name_from_path, keys_to_sync};
use chess_pipeline::sink::{base64_key, move_row_key_text, relational_rows};
use chess_pipeline::total_chunks_for_length;

fn raw(metadata: &str, moves: &str) -> RawChessGame {
    RawChessGame {
        metadata: metadata.to_owned(),
        moves: moves.to_owned(),
    }
}

fn entry_san_texts(game: &ChessGame) -> Vec<Option<San>> {
    game.game_entries.iter().map(|e| e.san).collect()
}

#[test]
fn minimal_game_parses() {
    let r = raw(
        "[Event \"x\"]\n[Site \"y\"]\n[Result \"1-0\"]",
        "1. e4 e5 2. Ke2 Ke7 1-0",
    );
    let game = parse_game(&r).expect("minimal game must parse");
    assert_eq!(game.event_name, "x");
    assert_eq!(game.link, "y");
    assert_eq!(game.result, GameResult::WhiteWins);
    assert_eq!(game.date, None);
    assert_eq!(game.game_entries.len(), 4);
    let rows = game_move_entities("g1", &game);
    let ids: Vec<u32> = rows.iter().map(|m| m.move_id).collect();
    assert_eq!(ids, vec![1, 2, 3, 4]);
    let sans = entry_san_texts(&game);
    let e4 = sans[0].unwrap().normal.unwrap();
    assert_eq!(e4.role, Role::Pawn);
    assert_eq!(e4.to, Square { file: File::E, rank: Rank::Fourth });
    let ke2 = sans[2].unwrap().normal.unwrap();
    assert_eq!(ke2.role, Role::King);
    assert_eq!(ke2.to, Square { file: File::E, rank: Rank::Second });
}

#[test]
fn utc_date_and_time_win_over_date() {
    let r = raw(
        "[Event \"x\"]\n[Date \"2023.01.02\"]\n[UTCDate \"2023.01.03\"]\n[UTCTime \"04:05:06\"]\n[Result \"*\"]",
        "1. e4 1-0",
    );
    let game = parse_game(&r).expect("game must parse");
    assert_eq!(game.date, Some(1672718706));
    let row = into_chess_game_entity("id".to_owned(), game);
    assert_eq!(row.day, "2023-01-03");
}

#[test]
fn unknown_termination_rejects_game() {
    let r = raw(
        "[Event \"x\"]\n[Termination \"Weird\"]\n[Result \"1-0\"]",
        "1. e4 e5 1-0",
    );
    match parse_game(&r) {
        Err(ParseFailure::Rejected(errs)) => {
            assert_eq!(errs.len(), 1);
            assert_eq!(errs[0], "Unexpected termination: Weird");
        }
        other => panic!("expected a rejected game, got {:?}", other.is_ok()),
    }
}

#[test]
fn comment_fragments_become_entries() {
    let r = raw(
        "[Event \"x\"]\n[Result \"*\"]",
        "1. e4 { [%clk 0:01:30] [%eval #5] } e5",
    );
    let game = parse_game(&r).expect("game must parse");
    assert_eq!(game.game_entries.len(), 4);
    assert!(game.game_entries[0].san.is_some());
    assert_eq!(
        game.game_entries[1].comment,
        Some(Comment { clock: Some(90), eval_centipawns: None, getting_mated_in: None })
    );
    assert_eq!(
        game.game_entries[2].comment,
        Some(Comment { clock: None, eval_centipawns: None, getting_mated_in: Some(5) })
    );
    assert!(game.game_entries[3].san.is_some());
}

#[test]
fn eval_comment_in_centipawns() {
    let r = raw(
        "[Event \"x\"]\n[Result \"*\"]",
        "1. e4 { [%eval 0.17] } e5 { [%eval -1.5] }",
    );
    let game = parse_game(&r).expect("game must parse");
    assert_eq!(game.game_entries[1].comment.unwrap().eval_centipawns, Some(17));
    assert_eq!(game.game_entries[3].comment.unwrap().eval_centipawns, Some(-150));
    assert_eq!(parse_eval_centipawns("250"), Some(25000));
    assert_eq!(parse_eval_centipawns("x"), None);
}

#[test]
fn unknown_header_tag_rejects_game() {
    let r = raw("[Event \"x\"]\n[Foo \"bar\"]\n[Result \"1-0\"]", "1. e4 1-0");
    match parse_game(&r) {
        Err(ParseFailure::Rejected(errs)) => {
            assert!(errs.len() >= 1);
            assert_eq!(errs[0], "Unexpected header: Foo = bar");
        }
        _ => panic!("expected a rejected game"),
    }
}

#[test]
fn malformed_round_is_fatal() {
    let r = raw("[Event \"x\"]\n[Round \"3\"]", "1. e4 1-0");
    match parse_game(&r) {
        Err(ParseFailure::Fatal(msg)) => {
            assert_eq!(msg, "Unexpected value for round header: 3");
        }
        _ => panic!("expected a fatal failure"),
    }
}

#[test]
fn unknown_nag_is_fatal() {
    let r = raw("[Event \"x\"]", "1. e4 $9 1-0");
    assert!(matches!(parse_game(&r), Err(ParseFailure::Fatal(_))));
    let ok = raw("[Event \"x\"]", "1. e4 $2 1-0");
    let game = parse_game(&ok).expect("known glyph parses");
    assert_eq!(game.game_entries[1].nag, Some(chess_pipeline::model::Nag::Mistake));
}

#[test]
fn unknown_player_title_is_recoverable() {
    let r = raw(
        "[Event \"x\"]\n[WhiteTitle \"XX\"]\n[Result \"1-0\"]",
        "1. e4 1-0",
    );
    match parse_game(&r) {
        Err(ParseFailure::Rejected(errs)) => {
            assert_eq!(errs[0], "Unexpected player title: XX");
        }
        _ => panic!("expected a rejected game"),
    }
    assert_eq!(PlayerTitle::try_from("GM"), Some(PlayerTitle::Grandmaster));
    assert_eq!(PlayerTitle::try_from("QQ"), None);
}

#[test]
fn full_header_table_lands_in_the_model() {
    let r = raw(
        "[Event \"Rated Blitz game\"]\n[Site \"https://example.org/abcd\"]\n[Round \"-\"]\n[White \"alice\"]\n[Black \"bob\"]\n[WhiteElo \"2001\"]\n[BlackElo \"1999\"]\n[WhiteTitle \"GM\"]\n[BlackTitle \"WIM\"]\n[Result \"0-1\"]\n[WhiteRatingDiff \"+8\"]\n[BlackRatingDiff \"-5\"]\n[ECO \"B90\"]\n[Opening \"Sicilian\"]\n[TimeControl \"300+3\"]\n[Termination \"Time forfeit\"]",
        "1. e4 c5 0-1",
    );
    let game = parse_game(&r).expect("game must parse");
    assert_eq!(game.white_player.name, "alice");
    assert_eq!(game.white_player.elo, 2001);
    assert_eq!(game.white_player.title, Some(PlayerTitle::Grandmaster));
    assert_eq!(game.black_player.title, Some(PlayerTitle::WomanInternationalMaster));
    assert_eq!(game.result, GameResult::BlackWins);
    assert_eq!(game.rating_outcome_for_white, Some(8));
    assert_eq!(game.rating_outcome_for_black, Some(-5));
    assert_eq!(game.eco, "B90");
    assert_eq!(game.opening, "Sicilian");
    assert_eq!(game.timecontrol, Some(Timecontrol { duration: 300, increment: 3 }));
    assert_eq!(game.termination, Termination::TimeForfeit);
}

#[test]
fn san_shapes_parse() {
    let r = raw(
        "[Event \"x\"]",
        "1. Nbd2 exd5 2. O-O R1e2 3. e8=Q+ Qh4# N@e4 -- *",
    );
    let game = parse_game(&r).expect("game must parse");
    let sans = entry_san_texts(&game);
    let nbd2 = sans[0].unwrap().normal.unwrap();
    assert_eq!(nbd2.role, Role::Knight);
    assert_eq!(nbd2.file, Some(File::B));
    let exd5 = sans[1].unwrap().normal.unwrap();
    assert!(exd5.capture);
    assert_eq!(exd5.file, Some(File::E));
    assert!(sans[2].unwrap().castle.is_some());
    let r1e2 = sans[3].unwrap().normal.unwrap();
    assert_eq!(r1e2.rank, Some(Rank::First));
    let prom = sans[4].unwrap();
    assert_eq!(prom.normal.unwrap().promotion, Some(Role::Queen));
    assert_eq!(prom.is_check, Some(true));
    let mate = sans[5].unwrap();
    assert_eq!(mate.is_checkmate, Some(true));
    let put = sans[6].unwrap().put.unwrap();
    assert_eq!(put.role, Role::Knight);
    let null = sans[7].unwrap();
    assert!(null.normal.is_none() && null.castle.is_none() && null.put.is_none());
}

#[test]
fn wire_round_trip_of_a_full_game() {
    let r = raw(
        "[Event \"e\"]\n[Site \"s\"]\n[White \"w\"]\n[Black \"b\"]\n[WhiteElo \"1500\"]\n[BlackElo \"1400\"]\n[Result \"1/2-1/2\"]\n[UTCDate \"2020.02.29\"]\n[UTCTime \"23:59:59\"]\n[ECO \"C00\"]\n[Opening \"French\"]\n[TimeControl \"60+0\"]\n[Termination \"Normal\"]",
        "1. e4 { [%clk 0:01:00] [%eval -0.3] } e5 $1 2. O-O-O 1/2-1/2",
    );
    let game = parse_game(&r).expect("game must parse");
    let bytes = encode_game(&game);
    let back = decode_game(&bytes).expect("own encoding must decode");
    assert_eq!(back, game);
}

#[test]
fn raw_game_round_trip() {
    let r = raw("[Event \"x\"]", "1. e4 e5 1-0");
    let bytes = encode_raw_game(&r);
    let back = decode_raw_game(&bytes).expect("own encoding must decode");
    assert_eq!(back, r);
}

#[test]
fn parser_step_encodes_the_parsed_game() {
    let r = raw("[Event \"x\"]\n[Site \"y\"]\n[Result \"1-0\"]", "1. e4 e5 2. Ke2 Ke7 1-0");
    let payload = encode_raw_game(&r);
    let out = process_raw_game(&payload).expect("valid record must parse");
    let game = decode_game(&out).expect("stage output must decode");
    assert_eq!(game.result, GameResult::WhiteWins);
    assert_eq!(game.game_entries.len(), 4);
}

#[test]
fn splitter_slices_and_skips() {
    let text = "[A \"1\"]\n\n1. e4 *\n\n[A \"2\"]\n\n1. d4 *\n\n[A \"3\"]\n\n1. c4 *\n\n";
    let all = split_games(text, 0);
    assert_eq!(all.len(), 3);
    assert_eq!(all[0].metadata, "[A \"1\"]");
    assert_eq!(all[2].moves, "1. c4 *");
    let resumed = split_games(text, 2);
    assert_eq!(resumed.len(), 1);
    assert_eq!(resumed[0].metadata, "[A \"3\"]");
    let partial = split_games("[A \"1\"]\n\n1. e4 *", 0);
    assert_eq!(partial.len(), 0);
}

#[test]
fn zstd_and_lossy_text_round_trip() {
    let text = "[A \"1\"]\n\n1. e4 *\n\n";
    let compressed = zstd::stream::encode_all(text.as_bytes(), 3).unwrap();
    let plain = zstd_decode_all(&compressed).expect("frame must decode");
    assert_ne!(plain, compressed);
    assert_eq!(plain, text.as_bytes());
    let s = bytes_to_string_lossy(&plain);
    assert_eq!(s, text);
    assert_eq!(split_games(&s, 0).len(), 1);
}

#[test]
fn content_hash_is_fnv1a() {
    assert_eq!(content_hash(&Vec::new()), 14695981039346656037);
    assert_eq!(content_hash(&vec![97]), 0xaf63dc4c8601ec8c);
}

#[test]
fn message_key_is_the_hash_varint() {
    let r = raw("[A \"1\"]", "1. e4 *");
    let (key, payload) = prepare_game_message(&r);
    assert_eq!(payload, encode_raw_game(&r));
    assert!(key.len() >= 1 && key.len() <= 10);
}

#[test]
fn split_checkpoint_is_monotone() {
    let mut p = SplitProgress::resume(400);
    assert_eq!(p.checkpoint, 400);
    for _ in 0..50 {
        p.record_produced();
    }
    let c1 = p.persist_checkpoint();
    assert_eq!(c1, 450);
    let c2 = p.persist_checkpoint();
    assert!(c2 >= c1);
}

#[test]
fn chunk_count_rounds_up() {
    let chunk = 100 * 1024 * 1024;
    assert_eq!(total_chunks_for_length(0), 0);
    assert_eq!(total_chunks_for_length(1), 1);
    assert_eq!(total_chunks_for_length(chunk), 1);
    assert_eq!(total_chunks_for_length(chunk + 1), 2);
}

#[test]
fn dates_and_times_parse_and_convert() {
    let d = parse_date("2023.01.03").unwrap();
    assert_eq!(d, Date { year: 2023, month: 1, day: 3 });
    assert_eq!(parse_date("2023.13.01"), None);
    assert_eq!(parse_date("2023.02.29"), None);
    assert!(parse_date("2020.02.29").is_some());
    assert_eq!(parse_time("04:05:06"), Some(4 * 3600 + 5 * 60 + 6));
    assert_eq!(parse_time("0:01:30"), Some(90));
    assert_eq!(parse_time("24:00:00"), None);
    assert_eq!(epoch_seconds(&d, 4 * 3600 + 5 * 60 + 6), 1672718706);
    let back = civil_from_days_exec(days_from_civil_exec(&d));
    assert_eq!(back, d);
}

#[test]
fn entities_project_the_game() {
    let game = ChessGame {
        event_name: "e".to_owned(),
        link: "l".to_owned(),
        date: None,
        white_player: Player { name: "w".to_owned(), elo: 1500, title: None },
        black_player: Player { name: "b".to_owned(), elo: 1400, title: Some(PlayerTitle::Bot) },
        result: GameResult::Draw,
        rating_outcome_for_white: None,
        rating_outcome_for_black: None,
        eco: "C00".to_owned(),
        opening: "French".to_owned(),
        timecontrol: None,
        termination: Termination::Normal,
        game_entries: vec![
            GameEntry { san: None, nag: None, comment: None },
            GameEntry {
                san: Some(San {
                    normal: Some(NormalSan {
                        role: Role::Pawn,
                        file: None,
                        rank: None,
                        capture: false,
                        to: Square { file: File::E, rank: Rank::Fourth },
                        promotion: None,
                    }),
                    castle: None,
                    put: None,
                    is_check: None,
                    is_checkmate: None,
                }),
                nag: None,
                comment: None,
            },
        ],
    };
    let row = into_chess_game_entity("id0".to_owned(), game.clone());
    assert_eq!(row.id(), "id0");
    assert_eq!(row.opening(), "French");
    assert_eq!(row.white_player_elo(), 1500);
    assert_eq!(row.black_player_title, Some("BOT".to_owned()));
    assert_eq!(row.day, "0000-00-00");
    let moves = game_move_entities("id0", &game);
    assert_eq!(moves.len(), 1);
    assert_eq!(moves[0].move_id(), 2);
    assert_eq!(moves[0].game_id(), "id0");
    assert_eq!(moves[0].to_file(), Some(4));
    assert_eq!(moves[0].to_rank(), Some(3));
    assert_eq!(moves[0].from_file(), None);
    assert_eq!(moves[0].from_rank(), None);
    let single = into_chess_game_move_entity("id0", 7, &game.game_entries[1].san.unwrap().normal.unwrap(), true, false);
    assert_eq!(single.move_id, 7);
    assert!(single.is_check);
    let ev = into_chess_game_comment_eval_entity("id0", 3, -42);
    assert_eq!(ev.eval_centipawns, -42);
    assert_eq!(title_name_from_id(5), "GM");
}

#[test]
fn synced_file_message_carries_its_fields() {
    let m = SyncedFileMessage::new("standard/file".to_owned(), 7);
    assert_eq!(m.path(), "standard/file");
    assert_eq!(m.total_chunks(), 7);
    assert_eq!(TOPIC_CHESS_GAMES, "chess-games");
}

#[test]
fn random_keys_have_the_right_shape() {
    assert_eq!(random_key().len(), 12);
    let k = random_alphanumeric_key();
    assert_eq!(k.chars().count(), 16);
    assert!(k.chars().all(|c| c.is_ascii_alphanumeric()));
}

#[test]
fn catalog_lines_split_and_cap() {
    let _ = Lichess::new();
    let files = files_from_list("a.pgn.zst\nb.pgn.zst\nc.pgn.zst");
    assert_eq!(files, vec!["a.pgn.zst", "b.pgn.zst", "c.pgn.zst"]);
    let limited = enforce_lichess_download_limit(&files);
    assert_eq!(limited, vec!["a.pgn.zst"]);
}

#[test]
fn config_defaults_are_disabled() {
    let c = Config::default();
    assert!(!c.steps.update_checker.enabled);
    assert!(c.infra.is_none());
    let infra = c.infra();
    assert_eq!(infra.queue().endpoint, "redpanda.default.svc.cluster.local:9092");
    let storage = StorageConfig::default();
    assert_eq!(storage.endpoint(), "http://garage.default.svc.cluster.local:3900");
    assert!(storage.access_key().is_none());
}

#[test]
fn progress_counts_updates() {
    let mut p = Progress::new("processing games".to_owned());
    let _ = p.update();
    let _ = p.update();
    assert_eq!(p.total_processed, 2);
    let line = p.report_line();
    assert!(line.starts_with("processing games: 2 total ("));
    p.reset();
    assert_eq!(p.total_processed, 0);
}

#[test]
fn fetch_plan_orders_manifest_chunks_event() {
    let plan = fetch_plan(250 * 1024 * 1024);
    assert_eq!(plan.len(), 5);
    assert_eq!(plan[0], FetchAction::PutManifest { total_chunks: 3 });
    assert_eq!(plan[1], FetchAction::PutChunkIfAbsent { index: 0 });
    assert_eq!(plan[3], FetchAction::PutChunkIfAbsent { index: 2 });
    assert_eq!(plan[4], FetchAction::PublishSynced { total_chunks: 3 });
}

#[test]
fn logical_path_strips_the_archive_suffix() {
    assert_eq!(strip_archive_suffix("/standard/a.pgn.zst"), "/standard/a");
    assert_eq!(strip_archive_suffix("/standard/a"), "/standard/a");
    let p = logical_path_from_url("https://example.org/standard/a.pgn.zst").unwrap();
    assert_eq!(p, "/standard/a");
    assert!(logical_path_from_url("not a url").is_none());
}

#[test]
fn hdfs_pass_selects_unsynced_keys_in_order() {
    let remote: Vec<String> = vec!["a", "b", "c", "d"].into_iter().map(str::to_owned).collect();
    let synced: Vec<String> = vec!["b".to_owned()];
    assert_eq!(keys_to_sync(&remote, &synced, None), vec!["a", "c", "d"]);
    assert_eq!(keys_to_sync(&remote, &synced, Some(2)), vec!["a"]);
    assert_eq!(keys_to_sync(&remote, &synced, Some(0)), Vec::<String>::new());
    assert_eq!(file_name_from_path("game-data/games/k1"), "k1");
    assert_eq!(file_name_from_path("plain"), "plain");
}

#[test]
fn csv_fields_quote_and_escape() {
    assert_eq!(csv_field_text("plain"), "plain");
    assert_eq!(csv_field_text("a,b"), "\"a,b\"");
    assert_eq!(csv_field_text("say \"hi\""), "\"say \"\"hi\"\"\"");
    let fields: Vec<String> = vec!["x".to_owned(), "y,z".to_owned()];
    assert_eq!(csv_line_text(&fields), "x,\"y,z\"\n");
}

#[test]
fn sink_buffers_accumulate_and_cut() {
    let r = raw(
        "[Event \"x\"]\n[Result \"1-0\"]",
        "1. e4 { [%eval 0.17] } e5 1-0",
    );
    let game = parse_game(&r).expect("game must parse");
    let mut buffers = SinkBuffers::new();
    buffers.buffer_parsed_game("gid", game);
    assert_eq!(buffers.games.len(), 1);
    assert_eq!(buffers.moves.len(), 2);
    assert_eq!(buffers.comment_evals.len(), 1);
    assert_eq!(buffers.moves[1].move_id, 3);
    assert_eq!(buffers.comment_evals[0].move_id, 2);
    assert_eq!(buffers.comment_evals[0].eval_centipawns, 17);
    assert!(buffers.flush_games().is_none());
    assert!(buffers.flush_moves().is_none());
    let extra = buffers.games[0].clone();
    while buffers.games.len() <= 20000 {
        buffers.games.push(extra.clone());
    }
    let text = buffers.flush_games().expect("threshold crossed");
    assert_eq!(buffers.games.len(), 0);
    assert_eq!(text.lines().count(), 20001);
    assert!(text.starts_with("gid,x,"));
}

#[test]
fn relational_sink_rows_and_keys() {
    assert_eq!(base64_key(&vec![97, 98, 99]), "YWJj");
    assert_eq!(move_row_key_text("gid", 7), "gid:7");
    let r = raw("[Event \"x\"]\n[Result \"1-0\"]", "1. e4 e5 1-0");
    let game = parse_game(&r).expect("game must parse");
    let (game_id, rows) = relational_rows(&vec![97, 98, 99], &game);
    assert_eq!(game_id, "YWJj");
    assert_eq!(rows.len(), 2);
    assert_eq!(rows[0].game_id, "YWJj");
    assert_eq!(rows[1].move_id, 2);
    let (again_id, again_rows) = relational_rows(&vec![97, 98, 99], &game);
    assert_eq!(again_id, game_id);
    assert_eq!(again_rows.len(), rows.len());
}

#[test]
fn chunk_accumulator_cuts_at_the_target() {
    let chunk = 100 * 1024 * 1024usize;
    let mut acc = ChunkAccumulator::new();
    let first = acc.push_bytes(&vec![7u8; chunk / 2]);
    assert!(first.is_empty());
    let second = acc.push_bytes(&vec![9u8; chunk / 2 + 3]);
    assert_eq!(second.len(), 1);
    assert_eq!(second[0].index, 0);
    assert_eq!(second[0].bytes.len(), chunk);
    assert_eq!(second[0].bytes[0], 7);
    let last = acc.finish().expect("a partial tail remains");
    assert_eq!(last.index, 1);
    assert_eq!(last.bytes, vec![9u8; 3]);
    assert_eq!(acc.next_index, 2);
    assert_eq!(total_chunks_for_length(acc.total_bytes), 2);
    let mut empty = ChunkAccumulator::new();
    assert!(empty.finish().is_none());
    assert_eq!(empty.next_index, 0);
}

#[test]
fn logical_path_success_tracks_parsing() {
    assert!(logical_path_from_url("https://example.org/a.pgn.zst").is_some());
    assert!(logical_path_from_url("::not a url::").is_none());
}
