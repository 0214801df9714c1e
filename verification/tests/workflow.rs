use std::collections::HashMap;
use userjs_updater::error::UpdaterError;
use userjs_updater::version::Version;
use userjs_updater::workflow::{
    advance, backup_name, build_candidate, decide, finished, start, Action, Arguments, Event,
    State, LIVE_FILE, OVERRIDES_FILE, STAGING_FILE,
};

const LIVE: &str = LIVE_FILE;
const OVERRIDES: &str = OVERRIDES_FILE;
const STAGING: &str = STAGING_FILE;

const OLD: &str =
    "/*\n* name: ghacks user.js\n* date: 1 May 2020\n* version 76\n*/\nuser_pref(\"a\", 1);\n";
const SAME: &str =
    "/*\n* name: ghacks user.js\n* date: 1 May 2020\n* version 76\n*/\nuser_pref(\"a\", 2);\n";
const NEWER: &str =
    "/*\n* name: ghacks user.js\n* date: 9 June 2020\n* version 77\n*/\nuser_pref(\"a\", 2);\n";

/// Files and upstream held in memory, with a record of what was asked for.
struct World {
    files: HashMap<String, String>,
    upstream: Option<String>,
    choice: Option<usize>,
    fetches: usize,
    changes: Vec<String>,
}

fn world(live: Option<&str>, overrides: Option<&str>, upstream: Option<&str>) -> World {
    let mut files = HashMap::new();
    if let Some(text) = live {
        files.insert(LIVE.to_string(), text.to_string());
    }
    if let Some(text) = overrides {
        files.insert(OVERRIDES.to_string(), text.to_string());
    }
    World {
        files,
        upstream: upstream.map(|s| s.to_string()),
        choice: Some(0),
        fetches: 0,
        changes: Vec::new(),
    }
}

fn first_four_lines(text: &str) -> String {
    text.split_inclusive('\n').take(4).collect()
}

fn perform(w: &mut World, action: &Action) -> Event {
    match action {
        Action::ReadLiveHeader => match w.files.get(LIVE) {
            Some(text) => Event::Text(first_four_lines(text)),
            None => Event::Missing,
        },
        Action::Prompt => Event::Selected(w.choice),
        Action::Fetch => {
            w.fetches += 1;
            match &w.upstream {
                Some(text) => Event::Text(text.clone()),
                None => Event::NetworkFailed("no route to host".to_string()),
            }
        }
        Action::ReadOverrides => match w.files.get(OVERRIDES) {
            Some(text) => Event::Text(text.clone()),
            None => Event::Missing,
        },
        Action::WriteStaging(text) => {
            w.changes.push(format!("write {}", STAGING));
            w.files.insert(STAGING.to_string(), text.clone());
            Event::Done
        }
        Action::ReadStagingHeader => match w.files.get(STAGING) {
            Some(text) => Event::Text(first_four_lines(text)),
            None => Event::Missing,
        },
        Action::BackupLive(name) => {
            w.changes.push(format!("rename {} {}", LIVE, name));
            let text = w.files.remove(LIVE).unwrap();
            w.files.insert(name.clone(), text);
            Event::Done
        }
        Action::PromoteStaging => {
            w.changes.push(format!("rename {} {}", STAGING, LIVE));
            let text = w.files.remove(STAGING).unwrap();
            w.files.insert(LIVE.to_string(), text);
            Event::Done
        }
        Action::RemoveStaging => {
            w.changes.push(format!("remove {}", STAGING));
            w.files.remove(STAGING).unwrap();
            Event::Done
        }
        Action::ShowHelp | Action::Stop => panic!("the run is over"),
    }
}

fn run(w: &mut World, args: &Arguments) -> (State, Action) {
    let (mut state, mut action) = start();
    let mut steps = 0;
    while !finished(&state) {
        let event = perform(w, &action);
        let next = advance(args, state, event);
        state = next.0;
        action = next.1;
        steps += 1;
        assert!(steps <= 9);
    }
    (state, action)
}

fn unattended(minify: bool) -> Arguments {
    Arguments { unattended: true, minify, single_backup: false }
}

fn attended() -> Arguments {
    Arguments { unattended: false, minify: false, single_backup: false }
}

fn version_76() -> Version {
    Version {
        name: "ghacks user.js".to_string(),
        version: "76".to_string(),
        date: "1 May 2020".to_string(),
    }
}

fn is_stamp(text: &str) -> bool {
    let shape = "dddd-dd-dd_dd-dd-dd";
    text.len() == shape.len()
        && text.chars().zip(shape.chars()).all(|(c, s)| {
            if s == 'd' {
                c.is_ascii_digit()
            } else {
                c == s
            }
        })
}

#[test]
fn a_run_begins_with_the_header_of_the_live_script() {
    let (state, action) = start();
    assert!(matches!(state, State::ReadingLive));
    assert!(matches!(action, Action::ReadLiveHeader));
    assert!(!finished(&state));
}

#[test]
fn a_missing_live_script_fails_before_any_fetch() {
    let mut w = world(None, Some(""), Some(NEWER));
    let (state, action) = run(&mut w, &unattended(false));
    assert!(matches!(state, State::Failed(UpdaterError::MissingScript)));
    assert!(matches!(action, Action::Stop));
    assert_eq!(w.fetches, 0);
    assert!(w.changes.is_empty());
}

#[test]
fn missing_overrides_fail_after_the_fetch_and_before_any_change() {
    let mut w = world(Some(OLD), None, Some(NEWER));
    let (state, _) = run(&mut w, &unattended(false));
    assert!(matches!(state, State::Failed(UpdaterError::MissingOverrides)));
    assert_eq!(w.fetches, 1);
    assert!(w.changes.is_empty());
    assert_eq!(w.files.get(LIVE).unwrap(), OLD);
    assert_eq!(w.files.len(), 1);
}

#[test]
fn equal_versions_commit_the_candidate() {
    let overrides = "user_pref(\"mine\", true);\n";
    let mut w = world(Some(OLD), Some(overrides), Some(SAME));
    let (state, action) = run(&mut w, &unattended(false));
    assert!(matches!(state, State::Committed));
    assert!(matches!(action, Action::Stop));
    assert_eq!(w.files.get(LIVE).unwrap(), &format!("{}\n{}", SAME, overrides));
    assert!(!w.files.contains_key(STAGING));
    assert_eq!(w.files.len(), 3);
    let backup = w.files.keys().find(|k| k.starts_with("user-backup-")).unwrap();
    assert!(backup.ends_with(".js"));
    assert!(is_stamp(&backup["user-backup-".len()..backup.len() - ".js".len()]));
    assert_eq!(w.files.get(backup).unwrap(), OLD);
    assert_eq!(
        w.changes,
        vec![
            format!("write {}", STAGING),
            format!("rename {} {}", LIVE, backup),
            format!("rename {} {}", STAGING, LIVE),
        ]
    );
}

#[test]
fn different_versions_discard_the_candidate() {
    let mut w = world(Some(OLD), Some("user_pref(\"mine\", true);\n"), Some(NEWER));
    let (state, action) = run(&mut w, &unattended(false));
    assert!(matches!(state, State::Discarded));
    assert!(matches!(action, Action::Stop));
    assert_eq!(w.files.get(LIVE).unwrap(), OLD);
    assert!(!w.files.contains_key(STAGING));
    assert_eq!(w.files.len(), 2);
    assert_eq!(w.changes, vec![format!("write {}", STAGING), format!("remove {}", STAGING)]);
}

#[test]
fn merge_mode_stages_the_merged_script() {
    let mut w = world(Some(OLD), Some("user_pref(\"a\", 3);\nuser_pref(\"b\", 4);\n"), Some(SAME));
    let (state, _) = run(&mut w, &unattended(true));
    assert!(matches!(state, State::Committed));
    assert_eq!(
        w.files.get(LIVE).unwrap(),
        "/*\n* name: ghacks user.js\n* date: 1 May 2020\n* version 76\n*/\nuser_pref(\"a\", 2);\n\n\
         user_pref(\"a\", 3);\nuser_pref(\"b\", 4);"
    );
}

#[test]
fn a_malformed_declaration_fails_merge_mode_before_any_change() {
    let mut w = world(Some(OLD), Some("user_pref(\"a\" 3);\n"), Some(SAME));
    let (state, _) = run(&mut w, &unattended(true));
    match state {
        State::Failed(e) => assert_eq!(
            e,
            UpdaterError::ParseError("Malformed preference declaration".to_string())
        ),
        other => panic!("unexpected state {:?}", other),
    }
    assert!(w.changes.is_empty());
}

#[test]
fn append_mode_does_not_read_the_declarations() {
    let mut w = world(Some(OLD), Some("user_pref(\"a\" 3);\n"), Some(SAME));
    let (state, _) = run(&mut w, &unattended(false));
    assert!(matches!(state, State::Committed));
}

#[test]
fn an_unreadable_candidate_is_never_committed() {
    let mut w = world(Some(OLD), Some(""), Some("<html>not a script</html>\n"));
    let (state, _) = run(&mut w, &unattended(false));
    match state {
        State::Failed(e) => {
            assert_eq!(e, UpdaterError::ParseError("Name marker not found".to_string()))
        }
        other => panic!("unexpected state {:?}", other),
    }
    assert_eq!(w.files.get(LIVE).unwrap(), OLD);
    assert_eq!(w.changes, vec![format!("write {}", STAGING)]);
}

#[test]
fn an_unrecognized_live_script_fails_before_any_fetch() {
    let mut w = world(Some("/*\n* name: other\n* date: d\n* version 1\n"), Some(""), Some(SAME));
    let (state, _) = run(&mut w, &unattended(false));
    match state {
        State::Failed(e) => {
            assert_eq!(e, UpdaterError::ParseError("Version not recognized".to_string()))
        }
        other => panic!("unexpected state {:?}", other),
    }
    assert_eq!(w.fetches, 0);
}

#[test]
fn a_failed_fetch_fails_the_run() {
    let mut w = world(Some(OLD), Some(""), None);
    let (state, _) = run(&mut w, &unattended(false));
    match state {
        State::Failed(e) => {
            assert_eq!(e, UpdaterError::NetworkError("no route to host".to_string()))
        }
        other => panic!("unexpected state {:?}", other),
    }
    assert!(w.changes.is_empty());
}

#[test]
fn the_menu_is_shown_unless_unattended() {
    let (state, action) = advance(
        &attended(),
        State::ReadingLive,
        Event::Text(first_four_lines(OLD)),
    );
    assert!(matches!(action, Action::Prompt));
    match state {
        State::Prompting { old } => assert_eq!(old, version_76()),
        other => panic!("unexpected state {:?}", other),
    }
    let (state, action) = advance(
        &unattended(false),
        State::ReadingLive,
        Event::Text(first_four_lines(OLD)),
    );
    assert!(matches!(action, Action::Fetch));
    assert!(matches!(state, State::Fetching { .. }));
}

#[test]
fn the_first_entry_of_the_menu_starts_the_update() {
    let mut w = world(Some(OLD), Some(""), Some(SAME));
    w.choice = Some(0);
    let (state, _) = run(&mut w, &attended());
    assert!(matches!(state, State::Committed));
    assert_eq!(w.fetches, 1);
}

#[test]
fn the_second_entry_of_the_menu_shows_the_help() {
    let mut w = world(Some(OLD), Some(""), Some(SAME));
    w.choice = Some(1);
    let (state, action) = run(&mut w, &attended());
    assert!(matches!(state, State::HelpShown));
    assert!(matches!(action, Action::ShowHelp));
    assert_eq!(w.fetches, 0);
}

#[test]
fn the_third_entry_of_the_menu_and_no_choice_leave() {
    for choice in [Some(2), None] {
        let mut w = world(Some(OLD), Some(""), Some(SAME));
        w.choice = choice;
        let (state, action) = run(&mut w, &attended());
        assert!(matches!(state, State::Cancelled));
        assert!(matches!(action, Action::Stop));
        assert_eq!(w.fetches, 0);
        assert!(w.changes.is_empty());
    }
}

#[test]
fn a_failed_file_operation_fails_the_run_in_every_state() {
    let states = vec![
        State::ReadingLive,
        State::Prompting { old: version_76() },
        State::Fetching { old: version_76() },
        State::ReadingOverrides { old: version_76(), candidate: SAME.to_string() },
        State::WritingStaging { old: version_76() },
        State::ReadingStaging { old: version_76() },
        State::BackingUp { version: version_76() },
        State::Promoting,
        State::Discarding,
    ];
    for state in states {
        let (next, action) = advance(&attended(), state, Event::IoFailed("denied".to_string()));
        assert!(matches!(action, Action::Stop));
        match next {
            State::Failed(e) => assert_eq!(e, UpdaterError::IoError("denied".to_string())),
            other => panic!("unexpected state {:?}", other),
        }
    }
}

#[test]
fn an_event_out_of_turn_fails_the_run() {
    let (next, action) = advance(&attended(), State::ReadingLive, Event::Done);
    assert!(matches!(action, Action::Stop));
    match next {
        State::Failed(e) => assert_eq!(e, UpdaterError::IoError("Unexpected event".to_string())),
        other => panic!("unexpected state {:?}", other),
    }
    let (next, _) = advance(&attended(), State::Promoting, Event::Missing);
    assert!(matches!(next, State::Failed(UpdaterError::IoError(_))));
    let (next, _) = advance(
        &attended(),
        State::WritingStaging { old: version_76() },
        Event::NetworkFailed("x".to_string()),
    );
    assert!(matches!(next, State::Failed(UpdaterError::IoError(_))));
}

#[test]
fn a_run_that_is_over_stays_as_it_is() {
    let (next, action) = advance(&attended(), State::Committed, Event::Done);
    assert!(matches!(next, State::Committed));
    assert!(matches!(action, Action::Stop));
    let (next, action) = advance(
        &attended(),
        State::Failed(UpdaterError::MissingScript),
        Event::Text(OLD.to_string()),
    );
    assert!(matches!(next, State::Failed(UpdaterError::MissingScript)));
    assert!(matches!(action, Action::Stop));
    assert!(finished(&State::Discarded));
    assert!(finished(&State::Cancelled));
    assert!(finished(&State::HelpShown));
    assert!(!finished(&State::Promoting));
}

#[test]
fn the_decision_names_the_backup_after_the_time_given() {
    let (state, action) = decide(
        &unattended(false),
        State::ReadingStaging { old: version_76() },
        Event::Text(first_four_lines(SAME)),
        "2020-05-01_12-30-59",
    );
    match state {
        State::BackingUp { version } => assert_eq!(version, version_76()),
        other => panic!("unexpected state {:?}", other),
    }
    match action {
        Action::BackupLive(name) => assert_eq!(name, "user-backup-2020-05-01_12-30-59.js"),
        other => panic!("unexpected action {:?}", other),
    }
}

#[test]
fn the_decision_compares_all_three_fields() {
    for header in [
        "/*\n* name: ghacks user.js\n* date: 1 May 2020\n* version 77\n",
        "/*\n* name: ghacks user.js\n* date: 2 May 2020\n* version 76\n",
        "/*\n* name: ghacks user.js \n* date: 1 May 2020\n* version 76\n",
    ] {
        let (state, action) = decide(
            &unattended(false),
            State::ReadingStaging { old: version_76() },
            Event::Text(header.to_string()),
            "2020-05-01_12-30-59",
        );
        assert!(matches!(state, State::Discarding));
        assert!(matches!(action, Action::RemoveStaging));
    }
}

#[test]
fn the_commit_is_two_renames_in_order() {
    let (state, action) = advance(
        &attended(),
        State::BackingUp { version: version_76() },
        Event::Done,
    );
    assert!(matches!(state, State::Promoting));
    assert!(matches!(action, Action::PromoteStaging));
    let (state, action) = advance(&attended(), state, Event::Done);
    assert!(matches!(state, State::Committed));
    assert!(matches!(action, Action::Stop));
}

#[test]
fn the_three_files_have_their_names() {
    assert_eq!(LIVE_FILE, "user.js");
    assert_eq!(OVERRIDES_FILE, "user-overrides.js");
    assert_eq!(STAGING_FILE, "user.js.new");
}

#[test]
fn names_the_backup_after_the_stamp() {
    assert_eq!(backup_name("2024-02-29_23-59-60"), "user-backup-2024-02-29_23-59-60.js");
    assert_eq!(backup_name(""), "user-backup-.js");
}

#[test]
fn appends_the_overrides_after_a_line_feed() {
    let text = build_candidate(false, "upstream\n".to_string(), "mine\n".to_string()).unwrap();
    assert_eq!(text, "upstream\n\nmine\n");
    let text = build_candidate(false, String::new(), String::new()).unwrap();
    assert_eq!(text, "\n");
}

#[test]
fn merges_the_overrides_on_request() {
    let text = build_candidate(
        true,
        "// top\nuser_pref(\"a\", 1);\n".to_string(),
        "user_pref(\"a\", 2);\n".to_string(),
    )
    .unwrap();
    assert_eq!(text, "// top\nuser_pref(\"a\", 1);\n\nuser_pref(\"a\", 2);");
    let failed = build_candidate(true, "user_pref(1)\n".to_string(), String::new());
    assert_eq!(
        failed.unwrap_err(),
        UpdaterError::ParseError("Malformed preference declaration".to_string())
    );
}
