use dano::config::{ExecMode, SelectedStreams, WriteModeConfig};
use dano::ingest::RecordedFileInfo;
use dano::lookup::{FileInfo, FileMetadata, HashValue, Timestamp};
use dano::modes::{
    clean_step, clean_summary, dump_done, dump_failed, dump_precheck, duplicates_mode,
    find_duplicates, print_mode, test_summary, write_without_lookup,
};
use dano::process::RemainderBundle;
use dano::utility::{deserialize_plan, line_version, plan_for_version, DanoError, ParsePlan, Stream};
use dano::versions::{FileInfoV1, FileInfoV2, FileMetadataV1, FileMetadataV2, LegacyVersion};

fn d(p: &str) -> String {
    format!("{:?}", std::path::Path::new(p))
}

fn ts(s: u64) -> Timestamp {
    Timestamp { secs_since_epoch: s, nanos_since_epoch: 0 }
}

fn info(path: &str, hash: &str) -> FileInfo {
    FileInfo {
        version: 5,
        path: path.to_string(),
        metadata: Some(FileMetadata {
            hash_algo: "md5".to_string(),
            hash_value: HashValue { radix: 16, value: hash.to_string() },
            last_written: ts(2),
            modify_time: ts(1),
            decoded: false,
            selected_streams: SelectedStreams::All,
            opt_bits_per_second: None,
        }),
    }
}

fn recorded(v: Vec<FileInfo>) -> RecordedFileInfo {
    RecordedFileInfo::new(&ExecMode::Print, v).unwrap()
}

fn cfg(mode: ExecMode, silent: bool) -> dano::config::Config {
    dano::config::Config {
        exec_mode: mode,
        opt_silent: silent,
        opt_decode: false,
        opt_xattr: false,
        opt_dry_run: false,
        is_single_path: false,
        opt_num_threads: None,
        selected_streams: SelectedStreams::All,
        selected_hash_algo: "murmur3".to_string(),
        pwd: "/".to_string(),
        output_file: "/o.txt".to_string(),
        hash_file: "/o.txt".to_string(),
        paths: vec!["a".to_string()],
    }
}

fn texts(v: &[dano::utility::Notice]) -> Vec<String> {
    v.iter().map(|n| n.text.clone()).collect()
}

#[test]
fn duplicates_are_grouped_by_hash() {
    let items = vec![info("a", "2"), info("b", "1"), info("c", "2"), info("d", "3"), info("e", "1")];
    let dups = find_duplicates(&items);
    let ps: Vec<String> = dups.iter().map(|f| f.path.clone()).collect();
    assert_eq!(ps, vec!["b", "e", "a", "c"]);
}

#[test]
fn duplicates_mode_reports() {
    let (n, r) = duplicates_mode(&cfg(ExecMode::Duplicates, false), &recorded(vec![]));
    assert!(n.is_empty());
    assert_eq!(r.unwrap_err().details, "No recorded file info is available for duplicate comparison.");
    let (_, r) = duplicates_mode(&cfg(ExecMode::Duplicates, false), &recorded(vec![info("a", "1")]));
    assert_eq!(r.unwrap_err().details, "Duplicate comparison requires more than one instance of recorded file info.");
    let (n, r) = duplicates_mode(&cfg(ExecMode::Duplicates, false), &recorded(vec![info("a", "1"), info("b", "2")]));
    assert_eq!(r.unwrap(), 0);
    assert_eq!(texts(&n), vec!["No duplicates found.\n".to_string()]);
    let (n, r) = duplicates_mode(&cfg(ExecMode::Duplicates, true), &recorded(vec![info("a", "1"), info("b", "2")]));
    assert_eq!(r.unwrap(), 0);
    assert!(n.is_empty());
    let (n, r) = duplicates_mode(&cfg(ExecMode::Duplicates, false), &recorded(vec![info("a", "1"), info("b", "1")]));
    assert_eq!(r.unwrap(), 2);
    assert_eq!(
        texts(&n),
        vec![
            format!("md5={:<32} : {}\n", "1", d("a")),
            format!("md5={:<32} : {}\n", "1", d("b")),
            "WARN: Duplicates found.\n".to_string(),
        ]
    );
    assert_eq!(n[0].stream, Stream::Stdout);
    assert_eq!(n[2].stream, Stream::Stderr);
}

#[test]
fn print_mode_prints_or_fails() {
    let (n, r) = print_mode(&cfg(ExecMode::Print, false), &recorded(vec![]));
    assert!(n.is_empty());
    assert_eq!(r.unwrap_err().details, "No recorded file info is available to print.");
    let missing = FileInfo { version: 5, path: "b".to_string(), metadata: None };
    let (n, r) = print_mode(&cfg(ExecMode::Print, false), &recorded(vec![info("a", "1"), missing, info("c", "3")]));
    assert_eq!(texts(&n), vec![format!("md5={:<32} : {}\n", "1", d("a"))]);
    assert_eq!(r.unwrap_err().details, format!("Could not find file metadata for: {}\n", d("b")));
    let (n, r) = print_mode(&cfg(ExecMode::Print, false), &recorded(vec![info("a", "1")]));
    assert_eq!(n.len(), 1);
    assert_eq!(r.unwrap(), 0);
}

#[test]
fn test_mode_summary() {
    assert!(test_summary(true, 0).is_none());
    assert_eq!(
        test_summary(false, 0).unwrap().text,
        "PASSED: File paths are consistent.  Paths contain no hash or filename mismatches.\n"
    );
    assert_eq!(
        test_summary(false, 2).unwrap().text,
        "FAILED: File paths are inconsistent.  Some hash or filename mismatch was detected.\n"
    );
    assert_eq!(
        test_summary(false, 3).unwrap().text,
        "FAILED: File paths are inconsistent.  Some hash or filename mismatch was detected.\n"
    );
}

#[test]
fn rewrite_and_import_bundles() {
    let rec = recorded(vec![info("a", "1")]);
    let p = write_without_lookup(&WriteModeConfig { opt_rewrite: true, opt_import_flac: false }, rec);
    assert_eq!(p.exit_code, 0);
    assert!(matches!(&p.new_files, RemainderBundle::NewFile(v) if v.is_empty()));
    assert!(matches!(&p.modified_file_names, RemainderBundle::ModifiedFilename(v) if v.len() == 1));
    let rec = recorded(vec![info("a", "1")]);
    let p = write_without_lookup(&WriteModeConfig { opt_rewrite: false, opt_import_flac: true }, rec);
    assert!(matches!(&p.new_files, RemainderBundle::NewFile(v) if v.len() == 1));
}

#[test]
fn dump_messages() {
    assert_eq!(dump_precheck(true, false).unwrap_err().details, "No recorded file info is available to dump to file.");
    assert_eq!(dump_precheck(false, true).unwrap_err().details, "Output file already exists.  Quitting without dumping to file.");
    assert!(dump_precheck(false, false).is_ok());
    assert_eq!(dump_done(true, true).unwrap().text, "Dry run dump was successful.\n");
    assert_eq!(dump_done(false, false).unwrap().text, "Dump to dano output file was successful.\n");
    assert!(dump_done(false, true).is_none());
    let (n, code) = dump_failed("Os { code: 13 }");
    assert_eq!(n.text, "ERROR: Dump to dano output file was unsuccessful for the following reason: Os { code: 13 }\n");
    assert_eq!(code, 1);
}

#[test]
fn dump_plan_lines() {
    let mut c = dano::config::Config {
        exec_mode: ExecMode::Dump,
        opt_silent: false,
        opt_decode: false,
        opt_xattr: true,
        opt_dry_run: false,
        is_single_path: false,
        opt_num_threads: None,
        selected_streams: SelectedStreams::All,
        selected_hash_algo: "murmur3".to_string(),
        pwd: "/".to_string(),
        output_file: "/o.txt".to_string(),
        hash_file: "/o.txt".to_string(),
        paths: vec!["a".to_string()],
    };
    let plan = dano::modes::dump_plan(&c, recorded(vec![info("a", "1")]));
    assert_eq!(texts(&plan.notices), vec![format!("Dumping dano hash for: {}\n", d("a"))]);
    assert_eq!(plan.files.len(), 1);
    assert_eq!(plan.target, dano::output::WriteTarget::OutputFile);
    c.opt_dry_run = true;
    let plan = dano::modes::dump_plan(&c, recorded(vec![info("a", "1")]));
    assert_eq!(texts(&plan.notices), vec![format!("WARN: Not dumping dano hash for (because dry run was specified): {}\n", d("a"))]);
    assert!(plan.files.is_empty());
}

#[test]
fn clean_mode_steps() {
    let s = clean_step("a.mkv", Ok(())).unwrap();
    assert!(!s.failed);
    assert_eq!(s.notice.text, format!("dano successfully removed extended attribute from: {}\n", d("a.mkv")));
    assert!(clean_step("a.mkv", Err("No data available (os error 61)".to_string())).is_none());
    let s = clean_step("a.mkv", Err("Permission denied".to_string())).unwrap();
    assert!(s.failed);
    assert_eq!(s.notice.text, "ERROR: Permission denied\n");
    let (n, code) = clean_summary(&vec![]);
    assert_eq!(code, 0);
    assert_eq!(n.text, "All dano extended attributes successfully cleaned.\n");
    let failed = vec!["a".to_string(), "b c".to_string()];
    let (n, code) = clean_summary(&failed);
    assert_eq!(code, 1);
    let as_paths: Vec<&std::path::Path> = failed.iter().map(|p| std::path::Path::new(p)).collect();
    assert_eq!(n.text, format!("ERROR: Could not clean extended attributes form the following paths: {:?}\n", as_paths));
}

#[test]
fn recorded_lines_are_planned_by_version() {
    assert!(matches!(deserialize_plan("{\"version\":5,\"path\":\"a\"}").unwrap(), ParsePlan::Current));
    match deserialize_plan("{\"version\":1,\"FileInfo\":1}").unwrap() {
        ParsePlan::Legacy { version, line } => {
            assert_eq!(version, LegacyVersion::Version1);
            assert_eq!(line, "{\"version\":1,\"FileInfoV1\":1}");
        }
        _ => panic!("expected a legacy plan"),
    }
    match plan_for_version(4, "FileInfo FileInfo").unwrap() {
        ParsePlan::Legacy { line, .. } => assert_eq!(line, "FileInfoV3 FileInfoV3"),
        _ => panic!("expected a legacy plan"),
    }
    assert_eq!(plan_for_version(9, "x").unwrap_err().details, "Legacy version number is invalid");
    assert_eq!(deserialize_plan("{\"path\":\"a\"}").unwrap_err().details, "Could not get version value from JSON.");
    assert!(deserialize_plan("not json").is_err());
    assert!(line_version("{\"version\":\"five\"}").is_err());
    assert_eq!(line_version("{\"version\":3}").unwrap(), 3);
    assert_eq!(line_version("[1, 2]").unwrap_err().details, "Could not get version value from JSON.");
    assert_eq!(deserialize_plan("{\"version\":9}").unwrap_err().details, "Legacy version number is invalid");
    assert!(deserialize_plan("{\"version\":-1}").is_err());
}

#[test]
fn legacy_versions_convert() {
    let v1 = FileInfoV1 {
        version: 1,
        path: "a".to_string(),
        metadata: Some(FileMetadataV1 {
            hash_algo: "murmur3".to_string(),
            hash_value: 0xabc,
            last_written: ts(3),
            modify_time: ts(2),
        }),
    };
    let f = v1.convert().unwrap();
    assert_eq!(f.version, 5);
    let m = f.metadata.unwrap();
    assert_eq!(m.hash_value.value, "abc");
    assert_eq!(m.hash_value.radix, 16);
    assert!(!m.decoded);
    assert_eq!(m.selected_streams, SelectedStreams::All);
    let v2 = FileInfoV2 {
        version: 2,
        path: "b".to_string(),
        metadata: Some(FileMetadataV2 {
            hash_algo: "md5".to_string(),
            hash_value: HashValue { radix: 16, value: "ff".to_string() },
            last_written: ts(3),
            modify_time: ts(2),
            decoded: true,
        }),
    };
    let g = v2.convert().unwrap();
    assert_eq!(g.path, "b");
    assert!(g.metadata.unwrap().decoded);
    assert_eq!(LegacyVersion::number_to_version(2).unwrap(), LegacyVersion::Version2);
    assert!(LegacyVersion::number_to_version(0).is_err());
}

#[test]
fn errors_with_context() {
    let e = DanoError::with_context("outer", "inner");
    assert_eq!(e.details, "outer : inner");
    assert_eq!(DanoError::new("x").details, "x");
}
