use aoc_leaderboard::args::{ArgField, RawArgs, ValidationError, validation_message};
use aoc_leaderboard::directory::{DirEntry, Directory, RepoRules, RewriteRule};
use aoc_leaderboard::member::{DayCompletion, Member, Snapshot, snapshot_wf_check};
use aoc_leaderboard::params::{Clock, CommandParams, Defaults, Scope, resolve};
use aoc_leaderboard::rank::rank_rows;
use aoc_leaderboard::render::render_document;
use aoc_leaderboard::report::{
    BoundaryAction, DeliveryFailure, FetchFailure, report_delivery_failure, report_fetch_failure,
};
use aoc_leaderboard::text::{dec_u64, pad2_u64, parse_u32};
use aoc_leaderboard::time::{
    Civil, fmt_timedelta, format_civil, format_local, format_local_z, unlock_timestamp,
};

fn args(
    day: Option<&str>,
    year: Option<&str>,
    p: Option<&str>,
    rows: Option<&str>,
    offset: Option<&str>,
) -> RawArgs {
    RawArgs {
        day: day.map(str::to_string),
        year: year.map(str::to_string),
        p: p.map(str::to_string),
        rows: rows.map(str::to_string),
        offset: offset.map(str::to_string),
    }
}

fn clock() -> Clock {
    Clock { current_day: None, most_recent_year: 2024 }
}

fn defaults() -> Defaults {
    Defaults { leaderboard_rows: 10 }
}

fn member(id: u64, name: &str, score: u32, stars: u32, last_star: i64) -> Member {
    Member {
        id,
        name: name.to_string(),
        local_score: score,
        stars,
        last_star_ts: last_star,
        completions: Vec::new(),
    }
}

#[test]
fn missing_day_without_active_event() {
    let r = resolve(&args(None, None, None, None, None), &defaults(), &clock());
    assert_eq!(r, Err(ValidationError::MissingArgument(ArgField::Day)));
    let msg = validation_message(&ValidationError::MissingArgument(ArgField::Day));
    assert_eq!(msg, "Argument 'day' is required");
}

#[test]
fn day_falls_back_to_active_event_day() {
    let c = Clock { current_day: Some(17), most_recent_year: 2024 };
    let r = resolve(&args(None, None, None, None, None), &defaults(), &c).unwrap();
    assert_eq!(r.day, 17);
    assert_eq!(r.year, 2024);
    assert_eq!(r.scope, Scope::Both);
    assert_eq!(r.rows, 10);
    assert_eq!(r.offset, 0);
}

#[test]
fn invalid_day_values() {
    for bad in ["abc", "0", "26", "-1", "1.5", "", " 1"] {
        let r = resolve(&args(Some(bad), None, None, None, None), &defaults(), &clock());
        assert_eq!(r, Err(ValidationError::InvalidArgument(ArgField::Day)), "day={bad:?}");
    }
    let msg = validation_message(&ValidationError::InvalidArgument(ArgField::Day));
    assert_eq!(msg, "Failed to parse argument 'day'");
}

#[test]
fn invalid_year_values() {
    for bad in ["2014", "2025", "x"] {
        let r = resolve(&args(Some("3"), Some(bad), None, None, None), &defaults(), &clock());
        assert_eq!(r, Err(ValidationError::InvalidArgument(ArgField::Year)), "year={bad:?}");
    }
}

#[test]
fn invalid_part_rows_offset_values() {
    let r = resolve(&args(Some("3"), None, Some("3"), None, None), &defaults(), &clock());
    assert_eq!(r, Err(ValidationError::InvalidArgument(ArgField::Part)));
    let r = resolve(&args(Some("3"), None, None, Some("201"), None), &defaults(), &clock());
    assert_eq!(r, Err(ValidationError::InvalidArgument(ArgField::Rows)));
    let r = resolve(&args(Some("3"), None, None, None, Some("-1")), &defaults(), &clock());
    assert_eq!(r, Err(ValidationError::InvalidArgument(ArgField::Offset)));
}

#[test]
fn first_invalid_field_wins() {
    let r = resolve(&args(Some("99"), Some("1900"), Some("zz"), None, None), &defaults(), &clock());
    assert_eq!(r, Err(ValidationError::InvalidArgument(ArgField::Day)));
}

#[test]
fn full_resolution() {
    let r = resolve(
        &args(Some("+07"), Some("2016"), Some("2"), Some("0"), Some("200")),
        &defaults(),
        &clock(),
    )
    .unwrap();
    assert_eq!(
        r,
        CommandParams { day: 7, year: 2016, scope: Scope::SecondPart, rows: 0, offset: 200 }
    );
}

#[test]
fn parse_u32_matches_std() {
    for s in ["0", "007", "+123", "4294967295", "4294967296", "", "+", "-1", "12a", " 1", "٣"] {
        assert_eq!(parse_u32(s), s.parse::<u32>().ok(), "input {s:?}");
    }
}

#[test]
fn decimal_rendering() {
    assert_eq!(dec_u64(0), "0");
    assert_eq!(dec_u64(12345), "12345");
    assert_eq!(dec_u64(u64::MAX), u64::MAX.to_string());
    assert_eq!(pad2_u64(7), "07");
    assert_eq!(pad2_u64(42), "42");
    assert_eq!(pad2_u64(0), "00");
}

#[test]
fn dense_ranking_with_ties() {
    let scores = [100u32, 100, 90, 80, 80, 80];
    let members: Vec<Member> =
        scores.iter().enumerate().map(|(i, s)| member(i as u64, "m", *s, 2, 100)).collect();
    let rows = rank_rows(members, 0, 200);
    let ranks: Vec<usize> = rows.iter().map(|r| r.rank).collect();
    assert_eq!(ranks, vec![1, 1, 3, 4, 4, 4]);
}

#[test]
fn tie_break_is_ascending_id() {
    let members = vec![
        member(9, "b", 50, 1, 100),
        member(3, "a", 50, 1, 100),
        member(7, "c", 60, 1, 100),
    ];
    let rows = rank_rows(members, 0, 200);
    let ids: Vec<u64> = rows.iter().map(|r| r.member.id).collect();
    assert_eq!(ids, vec![7, 3, 9]);
    let ranks: Vec<usize> = rows.iter().map(|r| r.rank).collect();
    assert_eq!(ranks, vec![1, 2, 2]);
}

#[test]
fn zero_star_members_never_appear() {
    let members = vec![
        member(1, "a", 100, 0, 100),
        member(2, "b", 90, 2, 100),
        member(3, "c", 90, 1, 100),
    ];
    let rows = rank_rows(members, 0, 200);
    let ids: Vec<u64> = rows.iter().map(|r| r.member.id).collect();
    assert_eq!(ids, vec![2, 3]);
    // Ranks are assigned on the whole sorted roster, before the filter.
    let ranks: Vec<usize> = rows.iter().map(|r| r.rank).collect();
    assert_eq!(ranks, vec![2, 2]);
}

#[test]
fn pagination_over_filtered_ranks() {
    let scores = [100u32, 100, 90, 80, 80, 80];
    let members: Vec<Member> =
        scores.iter().enumerate().map(|(i, s)| member(i as u64, "m", *s, 2, 100)).collect();
    let rows = rank_rows(members, 2, 2);
    let ranks: Vec<usize> = rows.iter().map(|r| r.rank).collect();
    assert_eq!(ranks, vec![3, 4]);
    let ids: Vec<u64> = rows.iter().map(|r| r.member.id).collect();
    assert_eq!(ids, vec![2, 3]);
}

#[test]
fn pagination_empty_when_offset_past_end() {
    let members = vec![member(1, "a", 10, 1, 100)];
    let rows = rank_rows(members, 5, 10);
    assert!(rows.is_empty());
    let members = vec![member(1, "a", 10, 1, 100)];
    let rows = rank_rows(members, 0, 0);
    assert!(rows.is_empty());
}

fn no_lookups() -> (Directory, RepoRules) {
    (Directory { entries: Vec::new() }, RepoRules { rules: Vec::new() })
}

fn params(day: u32, year: u32, scope: Scope) -> CommandParams {
    CommandParams { day, year, scope, rows: 200, offset: 0 }
}

#[test]
fn unlock_instant_is_five_utc() {
    // 2015-12-01 05:00:00 UTC.
    assert_eq!(unlock_timestamp(2015, 1), 1448946000);
}

#[test]
fn local_formatting() {
    // 1431648000 is 2015-05-15 00:00:00 UTC.
    assert_eq!(format_local(1431648000, 0), "2015-05-15 00:00:00");
    assert_eq!(format_local_z(1431648000, 0), "2015-05-15 00:00:00+0000");
    assert_eq!(format_local_z(1431648000, 3600), "2015-05-15 01:00:00+0100");
    assert_eq!(format_local_z(1431648000, -18000), "2015-05-14 19:00:00-0500");
    assert_eq!(format_local_z(1431648000, -16200), "2015-05-14 19:30:00-0430");
}

#[test]
fn civil_formatting() {
    let c = Civil { year: 2015, month: 5, day: 15, hour: 0, minute: 0, second: 0 };
    assert_eq!(format_civil(&c), "2015-05-15 00:00:00");
    let c = Civil { year: 9999, month: 12, day: 31, hour: 23, minute: 59, second: 59 };
    assert_eq!(format_civil(&c), "9999-12-31 23:59:59");
}

#[test]
fn timedelta_formatting() {
    assert_eq!(fmt_timedelta(0), "0:00:00");
    assert_eq!(fmt_timedelta(3661), "1:01:01");
    assert_eq!(fmt_timedelta(90061), "25:01:01");
    assert_eq!(fmt_timedelta(-3661), "-1:01:01");
}

#[test]
fn empty_document_is_header_and_footer() {
    let (dir, rules) = no_lookups();
    let p = params(3, 2020, Scope::Both);
    let rows = rank_rows(Vec::new(), 0, 200);
    let doc = render_document(&p, &rows, &dir, &rules, 1431648000, 0).unwrap();
    let expected = "\n<h3>Private Leaderboard (Advent of Code 2020/03)</h3>\n<table>\n\
        <tr> <th>Rank</th> <th>Local Score</th> <th>Stars</th> <th>Completion</th> \
        <th>AoC Name</th> <th>Matrix User</th> <th>Repository</th> </tr>\n\
        \n</table>\n<sup>Last update: 2015-05-15 00:00:00+0000</sup>\n";
    assert_eq!(doc, expected);
    assert!(!doc.contains("<td>"));
}

#[test]
fn header_scope_suffixes() {
    let (dir, rules) = no_lookups();
    let rows = Vec::new();
    let doc =
        render_document(&params(3, 2020, Scope::FirstPart), &rows, &dir, &rules, 0, 0).unwrap();
    assert!(doc.contains("(Advent of Code 2020/03/1)"));
    let doc =
        render_document(&params(3, 2020, Scope::SecondPart), &rows, &dir, &rules, 0, 0).unwrap();
    assert!(doc.contains("(Advent of Code 2020/03/2)"));
}

#[test]
fn rendered_row_fields_and_elapsed_time() {
    let (dir, rules) = no_lookups();
    let unlock = unlock_timestamp(2020, 3);
    let mut m = member(5, "alice", 26, 2, unlock + 3723);
    m.completions.push(DayCompletion { day: 3, part1_ts: Some(unlock + 60), part2_ts: None });
    let rows = rank_rows(vec![m], 0, 200);
    let doc = render_document(&params(3, 2020, Scope::Both), &rows, &dir, &rules, 0, 0).unwrap();
    // unlock is 2020-12-03 05:00:00 UTC; the star came 1:02:03 later.
    assert!(doc.contains("<td>2020-12-03 06:02:03(<b>1:02:03</b>)</td>"), "{doc}");
    assert!(doc.contains("<td><b>alice</b></td>"));
    assert!(doc.contains("<td><b>26</b></td>"));
    assert!(doc.contains("<td><b>2</b></td>"));
    assert!(doc.contains("<td><b>1</b></td>"));
}

#[test]
fn second_part_elapsed_starts_at_own_first_part() {
    let (dir, rules) = no_lookups();
    let unlock = unlock_timestamp(2020, 3);
    let mut m = member(5, "alice", 26, 2, unlock + 3723);
    m.completions.push(DayCompletion { day: 3, part1_ts: Some(unlock + 123), part2_ts: None });
    let rows = rank_rows(vec![m], 0, 200);
    let doc =
        render_document(&params(3, 2020, Scope::SecondPart), &rows, &dir, &rules, 0, 0).unwrap();
    // 3723 - 123 = 3600 seconds after the member's own first part.
    assert!(doc.contains("(<b>1:00:00</b>)"), "{doc}");
    assert!(!doc.contains("1:02:03"));
}

#[test]
fn second_part_without_first_part_data_is_a_fault() {
    let (dir, rules) = no_lookups();
    let unlock = unlock_timestamp(2020, 3);
    let m = member(5, "alice", 26, 2, unlock + 3723);
    let rows = rank_rows(vec![m], 0, 200);
    let r = render_document(&params(3, 2020, Scope::SecondPart), &rows, &dir, &rules, 0, 0);
    assert!(r.is_err());
}

#[test]
fn emphasis_only_for_top_three_ranks() {
    let scores = [100u32, 90, 80, 70, 60];
    let members: Vec<Member> = scores
        .iter()
        .enumerate()
        .map(|(i, s)| member(i as u64, "m", *s, 1, 1606971600))
        .collect();
    let (dir, rules) = no_lookups();
    let rows = rank_rows(members, 0, 200);
    let doc = render_document(&params(3, 2020, Scope::Both), &rows, &dir, &rules, 0, 0).unwrap();
    assert!(doc.contains("<td><b>1</b></td>"));
    assert!(doc.contains("<td><b>3</b></td>"));
    assert!(!doc.contains("<td><b>4</b></td>"));
    assert!(doc.contains("<td>4</td>"));
    assert!(doc.contains("<td>5</td>"));
}

#[test]
fn emphasis_is_independent_of_pagination() {
    let scores = [100u32, 90, 80, 70, 60];
    let make = || -> Vec<Member> {
        scores
            .iter()
            .enumerate()
            .map(|(i, s)| member(i as u64, "m", *s, 1, 1606971600))
            .collect()
    };
    let (dir, rules) = no_lookups();
    // A page holding only ranks 4 and 5: nothing on it is emphasized.
    let rows = rank_rows(make(), 3, 2);
    let doc = render_document(&params(3, 2020, Scope::Both), &rows, &dir, &rules, 0, 0).unwrap();
    assert!(!doc.contains("<b>"));
    // A page holding only rank 3: still emphasized.
    let rows = rank_rows(make(), 2, 1);
    let doc = render_document(&params(3, 2020, Scope::Both), &rows, &dir, &rules, 0, 0).unwrap();
    assert!(doc.contains("<td><b>3</b></td>"));
}

#[test]
fn repository_title_rewrite() {
    let rules = RepoRules {
        rules: vec![
            RewriteRule {
                pattern: "https://github.com/".to_string(),
                replacement: "GitHub".to_string(),
            },
            RewriteRule { pattern: "https://".to_string(), replacement: "link".to_string() },
        ],
    };
    assert_eq!(rules.match_and_replace("https://github.com/a/b"), Some("GitHub".to_string()));
    assert_eq!(rules.match_and_replace("https://example.org"), Some("link".to_string()));
    assert_eq!(rules.match_and_replace("git://example.org"), None);
    assert_eq!(rules.match_and_replace(""), None);
}

#[test]
fn rendered_repository_title_falls_back_to_raw() {
    let dir = Directory {
        entries: vec![DirEntry {
            aoc_id: 5,
            matrix_uri: Some("https://matrix.to/#/@alice:example.org".to_string()),
            repo: Some("https://github.com/alice/aoc".to_string()),
        }],
    };
    let rules = RepoRules {
        rules: vec![RewriteRule {
            pattern: "https://github.com/".to_string(),
            replacement: "alice/aoc".to_string(),
        }],
    };
    let m = member(5, "alice", 26, 2, 1606971600);
    let rows = rank_rows(vec![m], 0, 200);
    let doc = render_document(&params(3, 2020, Scope::Both), &rows, &dir, &rules, 0, 0).unwrap();
    assert!(doc.contains("<a href=\"https://github.com/alice/aoc\">alice/aoc</a>"), "{doc}");
    assert!(doc.contains("<td>https://matrix.to/#/@alice:example.org</td>"));

    // Without a matching rule the raw reference is the title.
    let no_rules = RepoRules { rules: Vec::new() };
    let m = member(5, "alice", 26, 2, 1606971600);
    let rows = rank_rows(vec![m], 0, 200);
    let doc = render_document(&params(3, 2020, Scope::Both), &rows, &dir, &no_rules, 0, 0).unwrap();
    assert!(
        doc.contains("<a href=\"https://github.com/alice/aoc\">https://github.com/alice/aoc</a>")
    );
}

#[test]
fn directory_lookup_first_entry_wins() {
    let dir = Directory {
        entries: vec![
            DirEntry { aoc_id: 5, matrix_uri: Some("first".to_string()), repo: None },
            DirEntry { aoc_id: 5, matrix_uri: Some("second".to_string()), repo: None },
        ],
    };
    let e = dir.lookup(5).unwrap();
    assert_eq!(e.matrix_uri.as_deref(), Some("first"));
    assert!(dir.lookup(6).is_none());
}

#[test]
fn member_first_part_lookup_first_record_wins() {
    let mut m = member(1, "a", 1, 1, 100);
    m.completions.push(DayCompletion { day: 4, part1_ts: Some(11), part2_ts: None });
    m.completions.push(DayCompletion { day: 4, part1_ts: Some(22), part2_ts: None });
    assert_eq!(m.part1_ts(4), Some(11));
    assert_eq!(m.part1_ts(9), None);
}

#[test]
fn snapshot_check_rejects_out_of_range_instants() {
    let good = Snapshot { members: vec![member(1, "a", 1, 1, 100)] };
    assert!(snapshot_wf_check(&good));
    let bad = Snapshot { members: vec![member(1, "a", 1, 1, -1)] };
    assert!(!snapshot_wf_check(&bad));
}

#[test]
fn fetch_failure_with_status_is_replied_not_propagated() {
    match report_fetch_failure(2024, &FetchFailure::UpstreamStatus(404)) {
        BoundaryAction::Reply(msg) => {
            assert_eq!(msg, "Failed to fetch private leaderboard for 2024 (404)");
        },
        BoundaryAction::Propagate => panic!("a known upstream status must not propagate"),
    }
    assert!(matches!(
        report_fetch_failure(2024, &FetchFailure::Other),
        BoundaryAction::Propagate
    ));
}

#[test]
fn delivery_too_large_is_replied_not_propagated() {
    match report_delivery_failure(&DeliveryFailure::TooLarge) {
        BoundaryAction::Reply(msg) => {
            assert_eq!(
                msg,
                "The requested leaderboard slice would be too large to fit in a matrix \
                 message. Try to reduce the number of rows."
            );
        },
        BoundaryAction::Propagate => panic!("a too-large delivery failure must not propagate"),
    }
    assert!(matches!(
        report_delivery_failure(&DeliveryFailure::Other),
        BoundaryAction::Propagate
    ));
}
