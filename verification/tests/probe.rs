use clicker::autopilot::{AutopilotState, Begin, Observation, Outcome, WaitObservation};
use clicker::html::{
    details, escape, render_all_report, render_run_report, report_head, table_row, FrameStats,
    RunMetadata, RunRow, StatCell, TimingSummary, WorkStats,
};
use clicker::snapshot::{capture_snapshot, check_invariants, snapshot_passes_invariants, game_snapshot, snapshot_json, GameSnapshot, TileSnapshot};
use clicker::text::{decimal, is_blank};
use clicker::tile::{TileCoord, TileKind};
use clicker::progression::ProgressionRecorder;
use clicker::timeline::{push_json_int, push_json_string, GameState, ProbeTimeline, StateTransition, TileSettled, TimelineData};
use clicker::timing::{
    after_rerun, aggregate_timing, collection_done, join_runs, start_collection, timing_complete,
    warmup_from_env, CapturePhase, CollectionStep, RerunOutcome, TimingCapture, MAX_TIMING_RUNS,
};
use clicker::world::{TileClicked, TilePlaced, TileWorld};

#[test]
fn aggregation_discards_each_run_start_and_stops_at_the_target() {
    let frames = vec![vec![99.0, 1.0, 2.0], vec![88.0, 3.0, 4.0]];
    let work = vec![vec![99.0, 0.5, 1.0], vec![88.0, 1.5, 2.0]];
    let aggregate = aggregate_timing(&frames, &work, 3);
    assert!(aggregate.complete);
    assert_eq!(aggregate.source_runs, 2);
    assert_eq!(aggregate.frame_ms, vec![1.0, 2.0, 3.0]);
    assert_eq!(aggregate.update_work_ms, vec![0.5, 1.0, 1.5]);
}

#[test]
fn aggregation_short_of_the_target_is_incomplete() {
    let aggregate = aggregate_timing(&vec![vec![5u32, 6], vec![], vec![7]], &vec![vec![1u32]], 4);
    assert!(!aggregate.complete);
    assert_eq!(aggregate.frame_ms, vec![6]);
    assert!(aggregate.update_work_ms.is_empty());
    assert_eq!(aggregate.source_runs, 3);
    assert_eq!(join_runs(&vec![vec![1u8, 2, 3], vec![4, 5]], 10), vec![2, 3, 5]);
}

#[test]
fn collecting_stops_without_usable_samples_or_when_complete() {
    assert!(collection_done(0, false));
    assert!(collection_done(1, false));
    assert!(!collection_done(2, false));
    assert!(collection_done(600, true));
}

#[test]
fn capture_warms_up_records_and_completes() {
    let (mut capture, mut status) = TimingCapture::new(1, 2);
    capture.begin_update(&status);
    assert_eq!(capture.phase, CapturePhase::Warmup);
    let warm = capture.finish_update(&mut status, true, false);
    assert!(!warm.record_frame && warm.write.is_none());
    assert_eq!(capture.phase, CapturePhase::Capture);
    let first = capture.finish_update(&mut status, true, false);
    assert!(first.record_frame && first.record_work);
    assert_eq!(status.captured_updates, 1);
    assert!(!status.complete);
    let second = capture.finish_update(&mut status, false, false);
    assert!(second.record_frame && !second.record_work);
    assert_eq!(second.write, Some(true));
    assert!(status.complete);
    assert_eq!(capture.phase, CapturePhase::Complete);
    let after = capture.finish_update(&mut status, true, true);
    assert!(!after.record_frame && after.write.is_none());
}

#[test]
fn an_exit_writes_an_unfinished_capture_once() {
    let (mut capture, mut status) = TimingCapture::new(0, 5);
    capture.begin_requested_capture(&mut status, true);
    assert_eq!(capture.phase, CapturePhase::Capture);
    let exit = capture.finish_update(&mut status, true, true);
    assert_eq!(exit.write, Some(false));
    let again = capture.finish_update(&mut status, true, true);
    assert_eq!(again.write, None);
    assert_eq!(status.captured_updates, 2);
}

#[test]
fn autopilot_runs_each_step_then_completes() {
    let mut state = AutopilotState::new(2);
    assert_eq!(state.begin(false), Begin::Act { step: 0 });
    assert_eq!(state.begin(false), Begin::Observe { step: 0 });
    let waiting = Observation {
        wait: Some(WaitObservation {
            satisfied: false,
            deadline_exceeded: false,
        }),
        expectation_holds: true,
    };
    assert_eq!(state.observe(waiting), Outcome::Waiting);
    let passing = Observation {
        wait: None,
        expectation_holds: true,
    };
    assert_eq!(state.observe(passing), Outcome::Advanced { next: 1 });
    assert_eq!(state.begin(false), Begin::Act { step: 1 });
    assert_eq!(state.begin(false), Begin::Observe { step: 1 });
    assert_eq!(state.observe(passing), Outcome::Completed);
    assert!(state.done);
    assert_eq!(state.begin(true), Begin::Idle);
}

#[test]
fn autopilot_fails_on_deadlines_and_expectations() {
    let mut state = AutopilotState::new(3);
    assert_eq!(state.begin(true), Begin::RunDeadlineExceeded { step: 0 });
    assert!(state.done);

    let mut waiting = AutopilotState::new(1);
    waiting.begin(false);
    let late = Observation {
        wait: Some(WaitObservation {
            satisfied: false,
            deadline_exceeded: true,
        }),
        expectation_holds: true,
    };
    assert_eq!(waiting.observe(late), Outcome::WaitDeadlineExceeded { step: 0 });

    let mut wrong = AutopilotState::new(1);
    wrong.begin(false);
    let failed = Observation {
        wait: Some(WaitObservation {
            satisfied: true,
            deadline_exceeded: true,
        }),
        expectation_holds: false,
    };
    assert_eq!(wrong.observe(failed), Outcome::ExpectationFailed { step: 0 });
}

#[test]
fn escaping_replaces_the_html_special_characters() {
    assert_eq!(escape("a&b<c>\"d\"'"), "a&amp;b&lt;c&gt;&quot;d&quot;'");
    assert_eq!(escape(""), "");
    assert_eq!(escape("&amp;"), "&amp;amp;");
}

#[test]
fn table_rows_and_details_escape_their_text() {
    let mut html = String::from("x");
    table_row(&mut html, "A<b", "1 & 2");
    assert_eq!(html, "x<tr><th>A&lt;b</th><td>1 &amp; 2</td></tr>");
    let mut folded = String::new();
    details(&mut folded, "Log", "<ok>", false);
    assert_eq!(folded, "<details><summary>Log</summary><pre>&lt;ok&gt;</pre></details>");
    let mut open = String::new();
    details(&mut open, "T", "", true);
    assert_eq!(open, "<details open><summary>T</summary><pre></pre></details>");
}

#[test]
fn report_head_escapes_the_title_and_opens_the_body() {
    let head = report_head("a<b");
    assert!(head.starts_with("<!doctype html><html lang=\"en\"><head><meta charset=\"utf-8\">"));
    assert!(head.contains("<title>a&lt;b</title><style>"));
    assert!(head.ends_with("</style></head><body><main>"));
}

fn empty_frames() -> FrameStats {
    FrameStats {
        mean: None,
        p50: None,
        p95: None,
        p99: None,
        max: None,
    }
}

fn empty_work() -> WorkStats {
    WorkStats {
        mean: None,
        p50: None,
        p95: None,
        p99: None,
        max: None,
    }
}

fn cell(ms: &str, rate: &str) -> Option<StatCell> {
    Some(StatCell {
        milliseconds: ms.to_string(),
        rate: rate.to_string(),
    })
}

#[test]
fn run_report_shows_verdict_settings_timing_and_logs() {
    let metadata = RunMetadata {
        example: Some("autopilot_tiles".to_string()),
        success: Some(true),
        norender: Some(true),
        seed: "7".to_string(),
        deadline_secs: "120".to_string(),
        exit_code: "0".to_string(),
        artifacts_complete: "true".to_string(),
    };
    let summary = TimingSummary {
        captured_updates: "600".to_string(),
        capture_updates: "600".to_string(),
        source_runs: "1".to_string(),
        frame_intervals: FrameStats {
            mean: cell("2.500 ms", "400.0"),
            p50: cell("3.000 ms", "333.3"),
            p95: None,
            p99: None,
            max: None,
        },
        update_work: WorkStats {
            mean: Some("1.000 ms".to_string()),
            ..empty_work()
        },
    };
    let html = render_run_report(&metadata, "snap", "line", "{\"complete\":true}", "out", "  \n", true, &summary);
    assert!(html.contains("<title>Clicker probe report</title>"));
    assert!(html.contains("<h1>autopilot_tiles</h1></div><div class=\"verdict pass\">PASS</div>"));
    assert!(html.contains("<tr><th>Mode</th><td>No-render</td></tr>"));
    assert!(html.contains("<tr><th>Deadline</th><td>120 s</td></tr>"));
    assert!(html.contains("<div class=\"headline\">400.0 UPS</div>"));
    assert!(!html.contains("class=\"notice\""));
    assert!(html.contains("<tr><th>Median</th><td>3.000 ms</td><td>333.3</td></tr>"));
    assert!(html.contains("<tr><th>p95</th><td>N/A</td><td>N/A</td></tr>"));
    assert!(html.contains("<tr><th>Mean</th><td>1.000 ms</td></tr>"));
    assert!(html.contains("<a href=\"trace.json\">trace.json</a>"));
    assert!(html.contains("<details open><summary>Snapshot</summary><pre>snap</pre></details>"));
    assert!(html.contains("<details><summary>Standard error</summary>"));
    assert!(html.ends_with("</section></main></body></html>"));
}

#[test]
fn incomplete_timing_shows_not_available() {
    let metadata = RunMetadata {
        example: None,
        success: None,
        norender: None,
        seed: "null".to_string(),
        deadline_secs: "120".to_string(),
        exit_code: "1".to_string(),
        artifacts_complete: "false".to_string(),
    };
    let summary = TimingSummary {
        captured_updates: "3".to_string(),
        capture_updates: "600".to_string(),
        source_runs: "1".to_string(),
        frame_intervals: FrameStats {
            mean: cell("2.500 ms", "400.0"),
            ..empty_frames()
        },
        update_work: empty_work(),
    };
    let html = render_run_report(&metadata, "", "", "{\"complete\":false}", "", "boom", false, &summary);
    assert!(html.contains("<h1>unknown</h1></div><div class=\"verdict fail\">FAIL</div>"));
    assert!(html.contains("<tr><th>Mode</th><td>Rendered</td></tr>"));
    assert!(html.contains("<div class=\"headline\">N/A FPS</div>"));
    assert!(html.contains("<p class=\"notice\">N/A: this example did not produce enough post-startup Playing samples.</p>"));
    assert!(html.contains("<tr><th>Status</th><td>N/A</td></tr>"));
    assert!(html.contains("<tr><th>Mean</th><td>N/A</td><td>N/A</td></tr>"));
    assert!(!html.contains("trace.json</a>"));
    assert!(html.contains("<details open><summary>Standard error</summary><pre>boom</pre></details>"));
}

#[test]
fn all_report_links_every_run_and_passes_only_when_all_pass() {
    let rows = vec![
        RunRow {
            example: Some("a".to_string()),
            success: Some(true),
        },
        RunRow {
            example: Some("b<".to_string()),
            success: None,
        },
    ];
    let html = render_all_report(&rows);
    assert!(html.contains("<title>Clicker probe report: all examples</title>"));
    assert!(html.contains("<div class=\"verdict fail\">FAIL</div>"));
    assert!(html.contains("<tr><td><a href=\"a/report.html\">a</a></td><td class=\"status pass\">PASS</td></tr><tr><td><a href=\"b&lt;/report.html\">b&lt;</a></td><td class=\"status fail\">FAIL</td></tr>"));
    let empty = render_all_report(&vec![]);
    assert!(empty.contains("<div class=\"verdict pass\">PASS</div>"));
    assert!(empty.contains("<tbody></tbody>"));
}

#[test]
fn blank_text_is_only_white_space() {
    assert!(is_blank(""));
    assert!(is_blank(" \t\n\u{3000}"));
    assert!(!is_blank(" x "));
    assert_eq!(decimal(0), "0");
    assert_eq!(decimal(1234567890), "1234567890");
}

#[test]
fn timeline_lines_are_sorted_json_objects() {
    let mut timeline = ProbeTimeline::create();
    let start = timeline.record(0, "run_start", "run", &TimelineData::Nothing);
    assert_eq!(start, "{\"data\":{},\"frame\":0,\"kind\":\"run_start\",\"name\":\"run\"}");
    let state = timeline.record(
        3,
        "state",
        "GameState",
        &TimelineData::State {
            exited: Some(GameState::AssetLoading),
            entered: Some(GameState::Playing),
        },
    );
    assert_eq!(state, "{\"data\":{\"entered\":\"Playing\",\"exited\":\"AssetLoading\"},\"frame\":3,\"kind\":\"state\",\"name\":\"GameState\"}");
    let first = timeline.record(
        4,
        "state",
        "GameState",
        &TimelineData::State {
            exited: None,
            entered: Some(GameState::AssetLoading),
        },
    );
    assert!(first.starts_with("{\"data\":{\"entered\":\"AssetLoading\",\"exited\":null}"));
    let placed = timeline.record(
        9,
        "action",
        "tile_placed",
        &TimelineData::Placed {
            q: -1,
            r: 2,
            kind: TileKind::Wheat,
        },
    );
    assert_eq!(placed, "{\"data\":{\"kind\":\"wheat\",\"q\":-1,\"r\":2},\"frame\":9,\"kind\":\"action\",\"name\":\"tile_placed\"}");
    let progression = timeline.record(
        10,
        "progression",
        "resources",
        &TimelineData::Progression {
            xp: 1,
            xp_max: 10,
            skill_points: 0,
        },
    );
    assert_eq!(progression, "{\"data\":{\"skill_points\":0,\"xp\":1,\"xp_max\":10},\"frame\":10,\"kind\":\"progression\",\"name\":\"resources\"}");
    let coord = timeline.record(11, "action", "tile_clicked", &TimelineData::Coord { q: 0, r: -3 });
    assert_eq!(coord, "{\"data\":{\"q\":0,\"r\":-3},\"frame\":11,\"kind\":\"action\",\"name\":\"tile_clicked\"}");
    let end = timeline.record(
        12,
        "run_end",
        "run",
        &TimelineData::RunEnd {
            exit: "Success".to_string(),
            entries: timeline.entries,
        },
    );
    assert_eq!(end, "{\"data\":{\"entries\":6,\"exit\":\"Success\"},\"frame\":12,\"kind\":\"run_end\",\"name\":\"run\"}");
    assert_eq!(timeline.entries, 7);
    let marker = timeline.record(13, "marker", "m", &TimelineData::Json("[1,2]".to_string()));
    assert_eq!(marker, "{\"data\":[1,2],\"frame\":13,\"kind\":\"marker\",\"name\":\"m\"}");
}

#[test]
fn json_strings_escape_quotes_backslashes_and_controls() {
    let mut out = String::new();
    push_json_string(&mut out, "a\"b\\c\nd\u{1}e\u{7f}é");
    assert_eq!(out, "\"a\\\"b\\\\c\\nd\\u0001e\u{7f}é\"");
    let mut tabs = String::new();
    push_json_string(&mut tabs, "\t\r\u{8}\u{c}\u{1f}");
    assert_eq!(tabs, "\"\\t\\r\\b\\f\\u001f\"");
}

#[test]
fn snapshots_sort_tiles_and_ghosts_and_record_them() {
    let mut world = TileWorld::new();
    world.initialize_world(1);
    let ghost = world.hexes()[0].entity;
    world.place_tiles_with_rolls(&vec![ghost], &vec![3]);
    let snapshot = game_snapshot(&world, 2, 10, 1);
    assert_eq!(
        snapshot.tiles,
        vec![TileSnapshot {
            coord: TileCoord::zero(),
            kind: TileKind::Wheat
        }]
    );
    assert_eq!(
        snapshot.ghosts,
        vec![
            TileCoord::new(-1, 0),
            TileCoord::new(-1, 1),
            TileCoord::new(0, -1),
            TileCoord::new(0, 1),
            TileCoord::new(1, -1),
            TileCoord::new(1, 0),
        ]
    );
    assert!(snapshot_passes_invariants(&snapshot));
    let checked = check_invariants(&world, 2, 10, 1);
    assert_eq!(checked.tiles, snapshot.tiles);
    assert_eq!(checked.ghosts, snapshot.ghosts);
    assert_eq!((checked.xp, checked.xp_max, checked.skill_points), (2, 10, 1));
    let again = game_snapshot(&world, 2, 10, 1);
    assert_eq!(again.tiles, snapshot.tiles);
    assert_eq!(again.ghosts, snapshot.ghosts);
    let line = capture_snapshot(
        &world,
        2,
        10,
        1,
        40,
        Some(GameState::Playing),
        "end",
        &Some("7".to_string()),
    );
    assert_eq!(line, "{\"frame\":40,\"game_state\":\"Playing\",\"ghosts\":[{\"q\":-1,\"r\":0},{\"q\":-1,\"r\":1},{\"q\":0,\"r\":-1},{\"q\":0,\"r\":1},{\"q\":1,\"r\":-1},{\"q\":1,\"r\":0}],\"reason\":\"end\",\"schema\":1,\"seed\":\"7\",\"skill_points\":1,\"tiles\":[{\"kind\":\"wheat\",\"q\":0,\"r\":0}],\"xp\":2,\"xp_max\":10}");
}

#[test]
fn snapshot_invariants_reject_full_xp_duplicates_and_far_hexagons() {
    let full = GameSnapshot {
        xp: 10,
        xp_max: 10,
        skill_points: 0,
        tiles: vec![],
        ghosts: vec![],
    };
    assert!(!snapshot_passes_invariants(&full));
    let twice = GameSnapshot {
        xp: 0,
        xp_max: 10,
        skill_points: 0,
        tiles: vec![TileSnapshot {
            coord: TileCoord::zero(),
            kind: TileKind::Tree,
        }],
        ghosts: vec![TileCoord::zero()],
    };
    assert!(!snapshot_passes_invariants(&twice));
    let far = GameSnapshot {
        xp: 0,
        xp_max: 10,
        skill_points: 0,
        tiles: vec![],
        ghosts: vec![TileCoord::new(4, 0)],
    };
    assert!(!snapshot_passes_invariants(&far));
    let empty = snapshot_json(
        &GameSnapshot {
            xp: 0,
            xp_max: 10,
            skill_points: 1,
            tiles: vec![],
            ghosts: vec![],
        },
        0,
        None,
        "start",
        &None,
    );
    assert_eq!(empty, "{\"frame\":0,\"game_state\":null,\"ghosts\":[],\"reason\":\"start\",\"schema\":1,\"seed\":null,\"skill_points\":1,\"tiles\":[],\"xp\":0,\"xp_max\":10}");
}

#[test]
fn tile_events_are_recorded_clicks_then_placements_then_settled() {
    let mut timeline = ProbeTimeline::create();
    assert_eq!(
        timeline.record_start(0),
        "{\"data\":{},\"frame\":0,\"kind\":\"run_start\",\"name\":\"run\"}"
    );
    let states = timeline.record_states(
        1,
        &vec![StateTransition {
            exited: None,
            entered: Some(GameState::AssetLoading),
        }],
    );
    assert_eq!(states, vec!["{\"data\":{\"entered\":\"AssetLoading\",\"exited\":null},\"frame\":1,\"kind\":\"state\",\"name\":\"GameState\"}".to_string()]);
    let lines = timeline.record_tile_events(
        5,
        &vec![TileClicked {
            entity: 3,
            coord: TileCoord::new(1, -1),
        }],
        &vec![TilePlaced {
            coord: TileCoord::new(0, 1),
            kind: TileKind::Stone,
        }],
        &vec![TileSettled {
            coord: TileCoord::new(0, 1),
        }],
    );
    assert_eq!(
        lines,
        vec![
            "{\"data\":{\"q\":1,\"r\":-1},\"frame\":5,\"kind\":\"action\",\"name\":\"tile_clicked\"}".to_string(),
            "{\"data\":{\"kind\":\"stone\",\"q\":0,\"r\":1},\"frame\":5,\"kind\":\"action\",\"name\":\"tile_placed\"}".to_string(),
            "{\"data\":{\"q\":0,\"r\":1},\"frame\":5,\"kind\":\"animation\",\"name\":\"tile_settled\"}".to_string(),
        ]
    );
    assert_eq!(timeline.entries, 5);
}

#[test]
fn progression_and_run_end_are_recorded_once() {
    let mut timeline = ProbeTimeline::create();
    let mut recorder = ProgressionRecorder::new();
    let first = timeline.record_progression(&mut recorder, 2, 0, 10, 1);
    assert_eq!(
        first,
        Some("{\"data\":{\"skill_points\":1,\"xp\":0,\"xp_max\":10},\"frame\":2,\"kind\":\"progression\",\"name\":\"resources\"}".to_string())
    );
    assert_eq!(timeline.record_progression(&mut recorder, 3, 0, 10, 1), None);
    assert!(timeline.record_progression(&mut recorder, 4, 1, 10, 1).is_some());
    assert_eq!(timeline.record_end(5, &vec![]), None);
    let end = timeline.record_end(6, &vec!["Error(1)".to_string(), "Success".to_string()]);
    assert_eq!(
        end,
        Some("{\"data\":{\"entries\":2,\"exit\":\"Error(1)\"},\"frame\":6,\"kind\":\"run_end\",\"name\":\"run\"}".to_string())
    );
    let marker = timeline.marker(7, "phase \"b\"", "{\"n\":1}");
    assert_eq!(marker, "{\"data\":{\"n\":1},\"frame\":7,\"kind\":\"marker\",\"name\":\"phase \\\"b\\\"\"}");
    assert_eq!(timeline.entries, 4);
}

#[test]
fn warmup_comes_from_a_valid_u32_numeral_or_the_setting() {
    assert_eq!(warmup_from_env(Some("0"), 120), 0);
    assert_eq!(warmup_from_env(Some("4294967295"), 120), u32::MAX);
    assert_eq!(warmup_from_env(Some("4294967296"), 120), 120);
    assert_eq!(warmup_from_env(Some("x"), 120), 120);
    assert_eq!(warmup_from_env(None, 120), 120);
}

#[test]
fn escaping_works_piece_by_piece() {
    let a = "x<\"";
    let b = "&y>";
    assert_eq!(escape(&format!("{a}{b}")), format!("{}{}", escape(a), escape(b)));
    let escaped = escape("a&lt;<");
    assert_eq!(escaped, "a&amp;lt;&lt;");
}

#[test]
fn json_integers_cover_the_whole_range() {
    let mut out = String::new();
    push_json_int(&mut out, i64::MIN as i128);
    assert_eq!(out, "-9223372036854775808");
    let mut big = String::new();
    push_json_int(&mut big, u64::MAX as i128);
    assert_eq!(big, "18446744073709551615");
}

#[test]
fn completeness_is_read_from_the_timing_record() {
    assert!(timing_complete("{\"complete\":true,\"frame_ms\":[1.0]}"));
    assert!(!timing_complete("{\"complete\":false}"));
    assert!(!timing_complete("{\"complete\":1}"));
    assert!(!timing_complete("not json"));
    assert!(!timing_complete(""));
}

#[test]
fn reruns_stop_on_failure_completion_or_the_last_run() {
    assert!(start_collection(true, false));
    assert!(!start_collection(true, true));
    assert!(!start_collection(false, false));
    assert_eq!(after_rerun(1, RerunOutcome::Failed), CollectionStep::WriteAggregate);
    assert_eq!(
        after_rerun(1, RerunOutcome::Report { frames: 5, aggregate_complete: false }),
        CollectionStep::Rerun
    );
    assert_eq!(
        after_rerun(1, RerunOutcome::Report { frames: 1, aggregate_complete: false }),
        CollectionStep::WriteAggregate
    );
    assert_eq!(
        after_rerun(2, RerunOutcome::Report { frames: 5, aggregate_complete: true }),
        CollectionStep::WriteAggregate
    );
    assert_eq!(
        after_rerun(MAX_TIMING_RUNS - 1, RerunOutcome::Report { frames: 5, aggregate_complete: false }),
        CollectionStep::WriteAggregate
    );
}
