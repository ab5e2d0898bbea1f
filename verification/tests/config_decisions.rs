use dano::config::{
    canonical_path_warning, dry_run_from, exec_mode_from_flags, hash_algo_from, hash_file_from,
    input_source, output_file_from, parse_num_threads, selected_streams_from, test_write_opt,
    unknown_extensions_warning, Config, ExecMode, InputSource, ModeFlags, RawPath,
    SelectedStreams, TestModeConfig, WriteModeConfig, WriteOpt,
};
use dano::utility::Stream;

fn flags() -> ModeFlags {
    ModeFlags {
        test: false,
        write: false,
        print: false,
        dump: false,
        duplicates: false,
        import_flac: false,
        rewrite: false,
        write_new: false,
        overwrite_old: false,
    }
}

fn dbg_path(p: &str) -> String {
    format!("{:?}", std::path::Path::new(p))
}

#[test]
fn no_mode_is_an_error() {
    let e = exec_mode_from_flags(&flags()).unwrap_err();
    assert_eq!(e.details, "You must specify an execution mode: TEST, WRITE, PRINT or DUMP");
}

#[test]
fn test_mode_wins_and_overwrite_implies_write_new() {
    let mut f = flags();
    f.test = true;
    f.write = true;
    f.overwrite_old = true;
    assert_eq!(
        exec_mode_from_flags(&f).unwrap(),
        ExecMode::Test(TestModeConfig { opt_write_new: true, opt_overwrite_old: true })
    );
    let mut g = flags();
    g.test = true;
    g.write_new = true;
    assert_eq!(
        exec_mode_from_flags(&g).unwrap(),
        ExecMode::Test(TestModeConfig { opt_write_new: true, opt_overwrite_old: false })
    );
    let mut h = flags();
    h.test = true;
    assert_eq!(
        exec_mode_from_flags(&h).unwrap(),
        ExecMode::Test(TestModeConfig { opt_write_new: false, opt_overwrite_old: false })
    );
    assert_eq!(test_write_opt(true, true), Some(WriteOpt::OverwriteAll));
    assert_eq!(test_write_opt(false, true), Some(WriteOpt::WriteNew));
    assert_eq!(test_write_opt(false, false), None);
    assert_eq!(
        TestModeConfig::from_write_opt(Some(WriteOpt::OverwriteAll)),
        TestModeConfig { opt_write_new: true, opt_overwrite_old: true }
    );
}

#[test]
fn write_mode_from_rewrite_or_import() {
    let mut f = flags();
    f.rewrite = true;
    assert_eq!(
        exec_mode_from_flags(&f).unwrap(),
        ExecMode::Write(WriteModeConfig { opt_rewrite: true, opt_import_flac: false })
    );
    let mut g = flags();
    g.import_flac = true;
    g.print = true;
    assert_eq!(
        exec_mode_from_flags(&g).unwrap(),
        ExecMode::Write(WriteModeConfig { opt_rewrite: false, opt_import_flac: true })
    );
}

#[test]
fn dump_print_duplicates_in_order() {
    let mut f = flags();
    f.dump = true;
    f.print = true;
    f.duplicates = true;
    assert_eq!(exec_mode_from_flags(&f).unwrap(), ExecMode::Dump);
    f.dump = false;
    assert_eq!(exec_mode_from_flags(&f).unwrap(), ExecMode::Print);
    f.print = false;
    assert_eq!(exec_mode_from_flags(&f).unwrap(), ExecMode::Duplicates);
}

#[test]
fn streams_algo_and_dry_run() {
    assert_eq!(selected_streams_from(Some("video")), SelectedStreams::VideoOnly);
    assert_eq!(selected_streams_from(Some("audio")), SelectedStreams::AudioOnly);
    assert_eq!(selected_streams_from(Some("other")), SelectedStreams::All);
    assert_eq!(selected_streams_from(None), SelectedStreams::All);
    assert_eq!(hash_algo_from(Some("sha1")), "sha160");
    assert_eq!(hash_algo_from(Some("md5")), "md5");
    assert_eq!(hash_algo_from(None), "murmur3");
    assert!(dry_run_from(true, false, false));
    assert!(dry_run_from(false, true, true));
    assert!(!dry_run_from(false, true, false));
}

#[test]
fn thread_counts_read_as_usize_from_str() {
    assert_eq!(parse_num_threads("8"), Some(8));
    assert_eq!(parse_num_threads("+3"), Some(3));
    assert_eq!(parse_num_threads("007"), Some(7));
    assert_eq!(parse_num_threads(""), None);
    assert_eq!(parse_num_threads("+"), None);
    assert_eq!(parse_num_threads("-1"), None);
    assert_eq!(parse_num_threads("4a"), None);
    assert_eq!(parse_num_threads("99999999999999999999999"), None);
    assert_eq!(parse_num_threads(&usize::MAX.to_string()), Some(usize::MAX));
    for s in ["12", "+0", " 1", "1 ", "18446744073709551616"] {
        assert_eq!(parse_num_threads(s), s.parse::<usize>().ok());
    }
}

#[test]
fn output_and_hash_files() {
    assert_eq!(output_file_from(None, "/home/u"), "/home/u/dano_hashes.txt");
    assert_eq!(output_file_from(None, "/"), "/dano_hashes.txt");
    assert_eq!(output_file_from(Some("out.txt"), "/home/u"), "out.txt");
    assert_eq!(
        output_file_from(None, "/home/u"),
        std::path::Path::new("/home/u").join("dano_hashes.txt").to_str().unwrap()
    );
    assert_eq!(hash_file_from(None, "/home/u/dano_hashes.txt"), "/home/u/dano_hashes.txt");
    assert_eq!(hash_file_from(Some("h.txt"), "o.txt"), "h.txt");
}

#[test]
fn where_paths_come_from() {
    let test = ExecMode::Test(TestModeConfig { opt_write_new: false, opt_overwrite_old: false });
    assert_eq!(input_source(true, &test, true), InputSource::Arguments);
    assert_eq!(input_source(false, &test, true), InputSource::Nothing);
    assert_eq!(input_source(false, &test, false), InputSource::Stdin);
    assert_eq!(input_source(false, &ExecMode::Print, true), InputSource::Stdin);
}

fn raw(path: &str, exists: bool, is_file: bool) -> RawPath {
    RawPath { path: path.to_string(), exists, is_file }
}

#[test]
fn input_paths_are_filtered() {
    let known = vec!["mp3".to_string(), "flac".to_string()];
    let paths = vec![
        raw("missing.mp3", false, false),
        raw("dir.mp3", true, false),
        raw("dir/dano_hashes.txt", true, true),
        raw("a.mp3", true, true),
        raw("b.xyz", true, true),
        raw(".hidden", true, true),
        raw("c.xyz", true, true),
        raw("d.abc", true, true),
        raw("e.flac", true, true),
    ];
    let (valid, notices) = Config::parse_paths(&paths, "dano_hashes.txt", false, false, &known);
    assert_eq!(valid, vec!["a.mp3".to_string(), "e.flac".to_string()]);
    let texts: Vec<String> = notices.iter().map(|n| n.text.clone()).collect();
    assert_eq!(
        texts,
        vec![
            format!("ERROR: Path does not exist: {}\n", dbg_path("missing.mp3")),
            format!("ERROR: Path is not a regular file: {}\n", dbg_path("dir.mp3")),
            format!(
                "ERROR: File name is the name of a dano hash file: {}\n",
                dbg_path("dir/dano_hashes.txt")
            ),
            format!(
                "WARN: The following are extensions which are unknown to dano: {:?}.  dano has excluded all files with these extensions.  If you know these file types are acceptable to ffmpeg, you may use --disable-filter to force dano to accept their use.\n",
                "xyz abc"
            ),
        ]
    );
    assert!(notices.iter().all(|n| n.stream == Stream::Stderr));
}

#[test]
fn disabled_filter_and_silence() {
    let known: Vec<String> = vec![];
    let paths = vec![raw("b.xyz", true, true), raw("noext", true, true)];
    let (valid, notices) = Config::parse_paths(&paths, "dano_hashes.txt", true, false, &known);
    assert_eq!(valid, vec!["b.xyz".to_string(), "noext".to_string()]);
    assert!(notices.is_empty());
    let (valid, notices) = Config::parse_paths(&paths, "dano_hashes.txt", false, true, &known);
    assert!(valid.is_empty());
    assert!(notices.is_empty());
}

#[test]
fn unknown_extension_warning_lists_each_once() {
    let w = unknown_extensions_warning(&vec!["a".to_string(), "b".to_string(), "a".to_string()]);
    assert!(w.starts_with("WARN: The following are extensions which are unknown to dano: \"a b\"."));
}

#[test]
fn assemble_refuses_no_paths() {
    let e = Config::assemble(
        ExecMode::Print,
        false,
        false,
        false,
        false,
        None,
        SelectedStreams::All,
        "murmur3".to_string(),
        "/".to_string(),
        "/dano_hashes.txt".to_string(),
        "/dano_hashes.txt".to_string(),
        vec![],
    )
    .unwrap_err();
    assert_eq!(e.details, "No valid paths given.  Exiting.");
    let c = Config::assemble(
        ExecMode::Print,
        true,
        false,
        false,
        false,
        Some(2),
        SelectedStreams::All,
        "murmur3".to_string(),
        "/".to_string(),
        "/dano_hashes.txt".to_string(),
        "/dano_hashes.txt".to_string(),
        vec!["a.mp3".to_string()],
    )
    .unwrap();
    assert!(c.is_single_path);
    assert_eq!(c.opt_num_threads, Some(2));
    assert_eq!(
        canonical_path_warning("x").text,
        format!("WARN: Unable convert relative path to canonical path: {}\n", dbg_path("x"))
    );
}
