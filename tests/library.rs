use trfix::batch::{summarize, BatchReport};
use trfix::detect::{is_escape_only, DecodeStatus};
use trfix::errors::{Error, ErrorKind};
use trfix::fix::fix_string;
use trfix::paths::{backup_path, extension, is_hidden};
use trfix::pipeline::{accepted_mime, check_metadata, decide, plan_contents, plan_with_mime, Outcome, Plan};
use trfix::rewrite::{rewrite_actions, FsAction};
use trfix::settings::{FileEntry, InputSettings, OutputSettings, Settings, DEFAULT_MAX_FILE_SIZE};

fn entry(path: &str, is_file: bool, size: u64) -> FileEntry {
    FileEntry { path: path.to_string(), is_file, size }
}

fn settings_with(extensions: &str) -> InputSettings {
    let mut s = InputSettings::default();
    s.extensions = extensions.to_string();
    s
}

#[test]
fn defaults_match_documented_values() {
    let s = Settings::default();
    assert_eq!(s.input.max_file_size, 32 * 1024 * 1024);
    assert_eq!(DEFAULT_MAX_FILE_SIZE, 33554432);
    assert!(s.input.recursive);
    assert!(!s.input.skip_hidden);
    assert!(s.input.follow_symlinks);
    assert_eq!(s.input.extensions, "srt,sub");
    assert!(s.output.keep_backups);
    assert!(OutputSettings::default().keep_backups);
}

#[test]
fn substitution_fixes_turkish_letters() {
    assert_eq!(fix_string(&"Ankarý".to_string()), "Ankarı");
    assert_eq!(fix_string(&"þðÞÝÐý".to_string()), "şğŞİĞı");
    assert_eq!(fix_string(&"Ýstanbul'da kýþ".to_string()), "İstanbul'da kış");
}

#[test]
fn substitution_leaves_other_text_alone() {
    assert_eq!(fix_string(&"hello, world".to_string()), "hello, world");
    assert_eq!(fix_string(&String::new()), "");
    assert_eq!(fix_string(&"ışğŞİĞ".to_string()), "ışğŞİĞ");
}

#[test]
fn substitution_twice_is_substitution_once() {
    let once = fix_string(&"Ankarý'da kýþ".to_string());
    assert_eq!(fix_string(&once), once);
}

#[test]
fn extension_list_parses_and_dedups() {
    assert_eq!(settings_with("srt,sub").extension_list(), vec!["srt", "sub"]);
    assert_eq!(settings_with(" srt , ,srt,sub,").extension_list(), vec!["srt", "sub"]);
    assert!(settings_with("").extension_list().is_empty());
    assert!(settings_with(" , ,").extension_list().is_empty());
}

#[test]
fn extension_filter_is_exact() {
    let s = settings_with("srt");
    let entries = vec![entry("./a.srt", true, 10), entry("./a.srtx", true, 10), entry("./b.SRT", true, 10)];
    assert_eq!(s.select_files(&entries), vec!["./a.srt"]);
}

#[test]
fn empty_extension_set_finds_nothing() {
    let s = settings_with("");
    let entries = vec![entry("./a.srt", true, 10), entry("./b.sub", true, 10)];
    assert!(s.select_files(&entries).is_empty());
}

#[test]
fn discovery_skips_directories_and_large_files() {
    let mut s = settings_with("srt,sub");
    s.max_file_size = 100;
    let entries = vec![
        entry("./d.srt", false, 0),
        entry("./big.srt", true, 101),
        entry("./edge.sub", true, 100),
        entry("./small.sub", true, 0),
    ];
    assert_eq!(s.select_files(&entries), vec!["./edge.sub", "./small.sub"]);
}

#[test]
fn discovery_skips_hidden_files_when_asked() {
    let mut s = settings_with("srt");
    let entries = vec![entry("./dir/.x.srt", true, 1), entry("./dir/y.srt", true, 1)];
    assert_eq!(s.select_files(&entries), vec!["./dir/.x.srt", "./dir/y.srt"]);
    s.skip_hidden = true;
    assert_eq!(s.select_files(&entries), vec!["./dir/y.srt"]);
}

#[test]
fn path_extension_follows_path_rules() {
    assert_eq!(extension("dir/a.srt"), Some("srt".to_string()));
    assert_eq!(extension("a.tar.gz"), Some("gz".to_string()));
    assert_eq!(extension("a."), Some(String::new()));
    assert_eq!(extension(".bashrc"), None);
    assert_eq!(extension("dir.d/a"), None);
    assert_eq!(extension(".."), None);
    assert_eq!(extension("a"), None);
}

#[test]
fn hidden_paths_start_with_a_dot() {
    assert!(is_hidden("./x/.hidden.srt"));
    assert!(!is_hidden("./.x/visible.srt"));
    assert!(is_hidden(".srt"));
}

#[test]
fn backup_suffix_is_appended_to_extension() {
    assert_eq!(backup_path("./a.srt"), "./a.srt.bak");
    assert_eq!(backup_path("./a"), "./a..bak");
}

#[test]
fn size_boundary_is_inclusive() {
    let mut s = Settings::default();
    s.input.max_file_size = 1000;
    assert!(check_metadata("./a.srt", true, 1000, &s).is_ok());
    let e = check_metadata("./a.srt", true, 1001, &s).unwrap_err();
    assert!(matches!(e.kind_ref(), ErrorKind::FileTooLarge { path } if path == "./a.srt"));
}

#[test]
fn non_files_are_refused() {
    let s = Settings::default();
    let e = check_metadata("./d.srt", false, 0, &s).unwrap_err();
    assert!(matches!(e.kind_ref(), ErrorKind::NotAFile { path } if path == "./d.srt"));
}

#[test]
fn accepted_mime_types() {
    assert!(accepted_mime(&"text/plain".to_string()));
    assert!(accepted_mime(&"application/x-subrip".to_string()));
    assert!(!accepted_mime(&"image/png".to_string()));
    assert!(!accepted_mime(&"text/plain ".to_string()));
}

#[test]
fn decide_rewrites_changed_text() {
    match decide("./a.srt", DecodeStatus::Complete, &"Ankarý".to_string()).unwrap() {
        Plan::Rewrite { backup_path, output } => {
            assert_eq!(backup_path, "./a.srt.bak");
            assert_eq!(output, "Ankarı");
        }
        Plan::Unchanged => panic!("expected a rewrite"),
    }
}

#[test]
fn decide_keeps_unchanged_text() {
    assert!(matches!(decide("./a.srt", DecodeStatus::Complete, &"Ankara".to_string()), Ok(Plan::Unchanged)));
    assert!(matches!(decide("./a.srt", DecodeStatus::Complete, &"Ankarı".to_string()), Ok(Plan::Unchanged)));
}

#[test]
fn decide_reports_decode_failures() {
    let e = decide("./a.srt", DecodeStatus::Malformed, &String::new()).unwrap_err();
    assert!(matches!(e.kind_ref(), ErrorKind::MalformedInput { path } if path == "./a.srt"));
    let e = decide("./a.srt", DecodeStatus::OutputFull, &String::new()).unwrap_err();
    assert!(matches!(e.kind_ref(), ErrorKind::OutputBufferExhausted { path } if path == "./a.srt"));
}

#[test]
fn plain_ascii_file_is_unchanged() {
    let bytes = b"1\n00:00:01,000 --> 00:00:02,000\nHello there, this is a subtitle line.\n\n".to_vec();
    assert!(matches!(plan_contents("./a.srt", &bytes), Ok(Plan::Unchanged)));
}

#[test]
fn binary_content_is_refused_by_mime_type() {
    let mut bytes = vec![0x89u8, b'P', b'N', b'G', 0x0d, 0x0a, 0x1a, 0x0a];
    bytes.extend_from_slice(&[0u8; 64]);
    let e = plan_contents("./a.srt", &bytes).unwrap_err();
    assert!(matches!(e.kind_ref(), ErrorKind::UnsupportedMimeType { .. }));
}

#[test]
fn latin_text_is_fixed() {
    let mut bytes = b"1\n00:00:01,000 --> 00:00:02,000\nAnkar".to_vec();
    bytes.push(0xFD);
    bytes.extend_from_slice(b" is the capital city and the weather is nice today.\n\n");
    match plan_contents("./a.srt", &bytes).unwrap() {
        Plan::Rewrite { backup_path, output } => {
            assert_eq!(backup_path, "./a.srt.bak");
            assert!(output.contains("Ankarı is the capital"));
        }
        Plan::Unchanged => panic!("expected a rewrite"),
    }
}

#[test]
fn rewrite_keeps_backup() {
    let plan = Plan::Rewrite { backup_path: "./a.srt.bak".to_string(), output: "Ankarı".to_string() };
    let actions = rewrite_actions("./a.srt", &plan, true);
    assert_eq!(actions.len(), 2);
    assert!(matches!(&actions[0], FsAction::Copy { from, to } if from == "./a.srt" && to == "./a.srt.bak"));
    assert!(matches!(&actions[1], FsAction::Write { path, text } if path == "./a.srt" && text == "Ankarı"));
}

#[test]
fn rewrite_without_backup_removes_it_last() {
    let plan = Plan::Rewrite { backup_path: "./a.srt.bak".to_string(), output: "Ankarı".to_string() };
    let actions = rewrite_actions("./a.srt", &plan, false);
    assert_eq!(actions.len(), 3);
    assert!(matches!(&actions[0], FsAction::Copy { .. }));
    assert!(matches!(&actions[1], FsAction::Write { .. }));
    assert!(matches!(&actions[2], FsAction::Remove { path } if path == "./a.srt.bak"));
}

#[test]
fn unchanged_plan_touches_nothing() {
    assert!(rewrite_actions("./a.srt", &Plan::Unchanged, true).is_empty());
    assert!(rewrite_actions("./a.srt", &Plan::Unchanged, false).is_empty());
}

#[test]
fn batch_counts_every_file() {
    let results = vec![
        Ok(Outcome::Fixed),
        Err(Error::malformed_input("./b.srt")),
        Ok(Outcome::Unchanged),
    ];
    let r = summarize(&results);
    assert_eq!(r, BatchReport { attempted: 3, fixed: 1, failed: 1 });
    assert!(!r.all_succeeded());
    let mut ok = BatchReport::new();
    ok.record(&Ok(Outcome::Unchanged));
    assert!(ok.all_succeeded());
    assert_eq!(ok.attempted, 1);
}

#[test]
fn error_constructors_carry_their_subject() {
    assert!(matches!(Error::is_system_file("p").kind_ref(), ErrorKind::IsSystemFile { path } if path == "p"));
    assert!(matches!(Error::is_read_only("p").kind_ref(), ErrorKind::IsReadOnly { path } if path == "p"));
    assert!(matches!(Error::unsupported_encoding("x").kind_ref(), ErrorKind::UnsupportedEncoding { name } if name == "x"));
    assert!(matches!(Error::unsupported_mime_type("m").kind_ref(), ErrorKind::UnsupportedMimeType { mime_type } if mime_type == "m"));
    let e = Error::from_kind(ErrorKind::Io { message: "denied".to_string() });
    assert!(matches!(e.kind_ref(), ErrorKind::Io { message } if message == "denied"));
}

#[test]
fn plan_outcome_matches_plan() {
    assert_eq!(Plan::Unchanged.outcome(), Outcome::Unchanged);
    let plan = Plan::Rewrite { backup_path: "b".to_string(), output: "o".to_string() };
    assert_eq!(plan.outcome(), Outcome::Fixed);
}

#[test]
fn unaccepted_mime_type_is_refused() {
    let bytes = b"hello there\n".to_vec();
    let e = plan_with_mime("./a.srt", &"image/png".to_string(), &bytes).unwrap_err();
    assert!(matches!(e.kind_ref(), ErrorKind::UnsupportedMimeType { mime_type } if mime_type == "image/png"));
}

#[test]
fn escape_only_text_gets_no_charset() {
    assert!(is_escape_only(&[b'a', 0x1B, b'b']));
    assert!(is_escape_only(&[0x1B, 0xA0]));
    assert!(!is_escape_only(b"plain text"));
    assert!(!is_escape_only(&[b'a', 0x1B, 0xFD]));
    assert!(!is_escape_only(&[]));
    let bytes = vec![b'a', 0x1B, b'b'];
    let e = plan_with_mime("./a.srt", &"text/plain".to_string(), &bytes).unwrap_err();
    assert!(matches!(e.kind_ref(), ErrorKind::UnsupportedEncoding { name } if name.is_empty()));
}

#[test]
fn plain_text_with_accepted_mime_is_decoded() {
    let bytes = b"1\n00:00:01,000 --> 00:00:02,000\nHello there, this is a subtitle line.\n\n".to_vec();
    assert!(matches!(plan_with_mime("./a.srt", &"application/x-subrip".to_string(), &bytes), Ok(Plan::Unchanged)));
}

#[test]
fn extension_list_trims_unicode_white_space() {
    assert_eq!(settings_with("\u{3000}srt\u{a0},\tsub ").extension_list(), vec!["srt", "sub"]);
}
