use dano::config::{Config, ExecMode, SelectedStreams, TestModeConfig, WriteModeConfig};
use dano::dedup::latest_per_hash;
use dano::ingest::{with_actual_path, RecordedFileInfo};
use dano::lookup::{FileInfo, FileMetadata, HashValue, Timestamp};
use dano::output::{file_header, make_tmp_file, overwrite_all, xattr_record, WriteTarget, WriteableFileInfo};
use dano::process::{ProcessedFiles, RemainderBundle};
use dano::requests::RequestBundle;
use dano::utility::{print_file_info, Stream};

fn d(p: &str) -> String {
    format!("{:?}", std::path::Path::new(p))
}

fn info(path: &str, hash: &str, written: u64) -> FileInfo {
    FileInfo {
        version: 5,
        path: path.to_string(),
        metadata: Some(FileMetadata {
            hash_algo: "murmur3".to_string(),
            hash_value: HashValue { radix: 16, value: hash.to_string() },
            last_written: Timestamp { secs_since_epoch: written, nanos_since_epoch: 0 },
            modify_time: Timestamp { secs_since_epoch: 1, nanos_since_epoch: 0 },
            decoded: false,
            selected_streams: SelectedStreams::All,
            opt_bits_per_second: None,
        }),
    }
}

fn same_meta(a: &FileInfo, b: &FileInfo) -> bool {
    match (&a.metadata, &b.metadata) {
        (Some(x), Some(y)) => {
            x.hash_algo == y.hash_algo
                && x.hash_value.radix == y.hash_value.radix
                && x.hash_value.value == y.hash_value.value
                && x.last_written == y.last_written
                && x.modify_time == y.modify_time
                && x.decoded == y.decoded
                && x.selected_streams == y.selected_streams
                && x.opt_bits_per_second == y.opt_bits_per_second
        }
        (None, None) => true,
        _ => false,
    }
}

fn missing(path: &str) -> FileInfo {
    FileInfo { version: 5, path: path.to_string(), metadata: None }
}

fn config(mode: ExecMode) -> Config {
    Config {
        exec_mode: mode,
        opt_silent: false,
        opt_decode: false,
        opt_xattr: false,
        opt_dry_run: false,
        is_single_path: false,
        opt_num_threads: None,
        selected_streams: SelectedStreams::All,
        selected_hash_algo: "murmur3".to_string(),
        pwd: "/".to_string(),
        output_file: "/dano_hashes.txt".to_string(),
        hash_file: "/dano_hashes.txt".to_string(),
        paths: vec!["a.mkv".to_string(), "b.mkv".to_string()],
    }
}

fn test_mode(w: bool, o: bool) -> ExecMode {
    ExecMode::Test(TestModeConfig { opt_write_new: w, opt_overwrite_old: o })
}

fn paths(v: &[FileInfo]) -> Vec<String> {
    v.iter().map(|f| f.path.clone()).collect()
}

fn bundle_files(b: &RemainderBundle) -> &Vec<FileInfo> {
    match b {
        RemainderBundle::NewFile(v) => v,
        RemainderBundle::ModifiedFilename(v) => v,
    }
}

#[test]
fn recorded_info_is_sorted_and_deduplicated() {
    let gathered = vec![info("b.mkv", "1", 1), info("a.mkv", "2", 1), info("a.mkv/", "2", 1), info("b.mkv", "1", 2)];
    let rec = RecordedFileInfo::new(&ExecMode::Print, gathered).unwrap();
    assert_eq!(rec.len(), 2);
    assert_eq!(rec.as_slice()[1].path, "b.mkv");
    let e = RecordedFileInfo::new(&test_mode(false, false), vec![]).err().unwrap();
    assert_eq!(e.details, "No valid hashes to test.  Quitting.");
    assert!(RecordedFileInfo::new(&test_mode(true, false), vec![]).unwrap().is_empty());
}

#[test]
fn checks_against_the_record() {
    let rec = RecordedFileInfo::new(&ExecMode::Print, vec![info("a.mkv", "aa", 1), info("b.mkv", "bb", 1)]).unwrap();
    let received = vec![
        info("a.mkv", "aa", 2),
        info("c.mkv", "bb", 2),
        info("b.mkv", "cc", 2),
        info("d.mkv", "dd", 2),
        missing("e.mkv"),
    ];
    let c = config(test_mode(false, false));
    let (notices, res) = ProcessedFiles::new(&c, rec, received);
    let texts: Vec<String> = notices.iter().map(|n| n.text.clone()).collect();
    assert_eq!(
        texts,
        vec![
            format!("{}: OK\n", d("a.mkv")),
            format!("{}: OK, but path has same hash for new filename.\n", d("c.mkv")),
            format!("WARN: {}: Path has new hash for same filename.\n", d("b.mkv")),
            format!("{}: Path is a new file.\n", d("d.mkv")),
            format!("WARN: {}: Path does not exist.\n", d("e.mkv")),
        ]
    );
    assert!(notices.iter().all(|n| n.stream == Stream::Stdout));
    let p = res.unwrap();
    assert_eq!(p.exit_code, 2);
    assert_eq!(paths(bundle_files(&p.new_files)), vec!["d.mkv".to_string()]);
    assert_eq!(paths(bundle_files(&p.modified_file_names)), vec!["c.mkv".to_string()]);
}

#[test]
fn changed_hash_fails_with_its_code() {
    let rec = RecordedFileInfo::new(&ExecMode::Print, vec![info("a.mkv", "aa", 1)]).unwrap();
    let c = config(test_mode(false, false));
    let (_, res) = ProcessedFiles::new(&c, rec, vec![info("a.mkv", "ab", 2)]);
    assert_eq!(res.unwrap().exit_code, 3);
}

#[test]
fn unchanged_file_passes_silently() {
    let rec = RecordedFileInfo::new(&ExecMode::Print, vec![info("a.mkv", "aa", 1)]).unwrap();
    let mut c = config(test_mode(false, false));
    c.opt_silent = true;
    let (notices, res) = ProcessedFiles::new(&c, rec, vec![info("a.mkv", "aa", 2)]);
    assert!(notices.is_empty());
    assert_eq!(res.unwrap().exit_code, 0);
}

#[test]
fn write_mode_stops_at_missing_metadata() {
    let rec = RecordedFileInfo::empty();
    let c = config(ExecMode::Write(WriteModeConfig { opt_rewrite: false, opt_import_flac: false }));
    let (notices, res) = ProcessedFiles::new(&c, rec, vec![info("a.mkv", "aa", 1), missing("b.mkv"), info("c.mkv", "cc", 1)]);
    assert_eq!(notices.len(), 1);
    assert_eq!(notices[0].stream, Stream::Stderr);
    assert_eq!(notices[0].text, format!("murmur3={:<32} : {}\n", "aa", d("a.mkv")));
    assert_eq!(res.err().unwrap().details, format!("Could not find file metadata for: {}\n", d("b.mkv")));
}

#[test]
fn requests_merge_record_and_paths() {
    let rec = RecordedFileInfo::new(&ExecMode::Print, vec![info("b.mkv", "bb", 1), missing("c.mkv")]).unwrap();
    let given = vec!["a.mkv".to_string(), "b.mkv/".to_string(), "a.mkv".to_string()];
    let reqs = RequestBundle::new(&given, &rec).into_inner();
    let ps: Vec<String> = reqs.iter().map(|q| q.path.clone()).collect();
    assert_eq!(ps, vec!["a.mkv".to_string(), "b.mkv".to_string(), "c.mkv".to_string()]);
    assert_eq!(reqs[1].hash_algo, Some("murmur3".to_string()));
    assert_eq!(reqs[0].hash_algo, None);
    assert_eq!(reqs[2].hash_algo, None);
    let only_new = dano::modes::write_mode_requests(reqs);
    let ps: Vec<String> = only_new.iter().map(|q| q.path.clone()).collect();
    assert_eq!(ps, vec!["a.mkv".to_string(), "c.mkv".to_string()]);
}

#[test]
fn print_file_info_line() {
    let f = info("a.mkv", "abc", 1);
    let n = print_file_info(&config(ExecMode::Print), &f).unwrap();
    assert_eq!(n.stream, Stream::Stdout);
    assert_eq!(n.text, format!("murmur3={:<32} : {}\n", "abc", d("a.mkv")));
    let n = print_file_info(&config(ExecMode::Dump), &f).unwrap();
    assert_eq!(n.stream, Stream::Stderr);
    let long = "f".repeat(40);
    let n = print_file_info(&config(ExecMode::Print), &info("x", &long, 1)).unwrap();
    assert_eq!(n.text, format!("murmur3={} : {}\n", long, d("x")));
}

#[test]
fn write_plans_for_bundles() {
    let c = config(ExecMode::Write(WriteModeConfig { opt_rewrite: false, opt_import_flac: false }));
    let p = ProcessedFiles {
        new_files: RemainderBundle::NewFile(vec![info("a.mkv", "aa", 1)]),
        modified_file_names: RemainderBundle::ModifiedFilename(vec![]),
        exit_code: 0,
    };
    let (plans, code) = p.write_out(&c);
    assert_eq!(code, 0);
    assert_eq!(plans[0].notices[0].text, format!("Writing dano hash for: {}\n", d("a.mkv")));
    assert_eq!(plans[0].files.len(), 1);
    assert!(plans[0].rewrite_output);
    assert_eq!(plans[0].target, WriteTarget::OutputFile);
    assert_eq!(plans[1].notices[0].text, "No old file data to overwrite.\n");
    assert!(plans[1].files.is_empty());
}

#[test]
fn dry_run_writes_nothing() {
    let mut c = config(ExecMode::Write(WriteModeConfig { opt_rewrite: false, opt_import_flac: false }));
    c.opt_dry_run = true;
    let plan = RemainderBundle::ModifiedFilename(vec![info("a.mkv", "aa", 1)]).write_out(&c);
    assert!(plan.files.is_empty());
    assert!(!plan.rewrite_output);
    assert_eq!(plan.notices[0].text, format!("WARN: Not overwriting dano hash for (as overwriting is not specified): {}\n", d("a.mkv")));
}

#[test]
fn test_mode_plans() {
    let mut c = config(test_mode(false, false));
    let plan = RemainderBundle::NewFile(vec![info("n.mkv", "aa", 1)]).write_out(&c);
    assert!(plan.files.is_empty());
    assert_eq!(plan.notices[0].text, format!("WARN: Not writing dano hash for (as writing is not specified): {}, --write-new was not specified.\n", d("n.mkv")));
    let plan = RemainderBundle::NewFile(vec![]).write_out(&c);
    assert_eq!(plan.notices[0].text, "No new file paths to write., --write-new was not specified.\n");
    let plan = RemainderBundle::ModifiedFilename(vec![]).write_out(&c);
    assert_eq!(plan.notices[0].text, "No old file data to overwrite., --overwrite was not specified.\n");
    c.exec_mode = test_mode(true, true);
    c.opt_xattr = true;
    let plan = RemainderBundle::ModifiedFilename(vec![info("m.mkv", "aa", 1)]).write_out(&c);
    assert_eq!(plan.files.len(), 1);
    assert_eq!(plan.target, WriteTarget::Xattr);
    assert!(!plan.rewrite_output);
    assert_eq!(plan.notices[0].text, format!("Overwriting dano hash for: {}\n", d("m.mkv")));
    let plan = RemainderBundle::NewFile(vec![]).write_out(&c);
    assert_eq!(plan.notices[0].text, "No new file paths to write.\n");
    c.is_single_path = true;
    let plan = RemainderBundle::NewFile(vec![]).write_out(&c);
    assert!(plan.notices.is_empty());
}

#[test]
fn dump_always_writes_the_output_file() {
    let mut c = config(ExecMode::Dump);
    c.opt_xattr = true;
    let plan = WriteableFileInfo::from_files(vec![info("a.mkv", "aa", 1)]).write_action(&c, "dry: ", "wet: ");
    assert_eq!(plan.target, WriteTarget::OutputFile);
    assert!(!plan.rewrite_output);
    assert_eq!(plan.notices[0].text, format!("wet: {}\n", d("a.mkv")));
}

#[test]
fn latest_per_hash_keeps_the_newest() {
    let items = vec![info("a.mkv", "aa", 1), info("b.mkv", "aa", 3), missing("x"), info("c.mkv", "cc", 2), info("a2.mkv", "aa", 2)];
    let r = latest_per_hash(&items);
    let mut ps = paths(&r);
    ps.sort();
    assert_eq!(ps, vec!["b.mkv".to_string(), "c.mkv".to_string()]);
    assert_eq!(overwrite_all(false, &items).unwrap_err().details, "No valid output file exists");
    assert_eq!(overwrite_all(true, &items).unwrap().len(), 2);
}

#[test]
fn small_file_helpers() {
    assert_eq!(make_tmp_file("/x/dano_hashes.txt"), "/x/dano_hashes.txt.tmp");
    assert_eq!(file_header("/home/u"), format!("// DANO, Invoked from: {}\n", d("/home/u")));
    let f = info("a.mkv", "aa", 1);
    let x = xattr_record(&f);
    assert_eq!(x.path, "");
    assert!(same_meta(&x, &f));
    // read back from the file's extended attributes, it names the file
    let back = with_actual_path("renamed.mkv", x);
    assert_eq!(back.path, "renamed.mkv");
    assert!(same_meta(&back, &f));
    let same = with_actual_path("a.mkv/", info("a.mkv", "aa", 1));
    assert_eq!(same.path, "a.mkv");
}

#[test]
fn recorded_from_xattrs_and_hash_file() {
    let given = vec!["a.mkv".to_string(), "b.mkv".to_string()];
    let read = vec![Some(info("old.mkv", "aa", 1)), None];
    let (all, notices) = RecordedFileInfo::from_recorded(&given, &read, vec![info("z.mkv", "zz", 1)]);
    assert_eq!(paths(&all), vec!["a.mkv".to_string(), "z.mkv".to_string()]);
    assert_eq!(notices.len(), 1);
    assert_eq!(notices[0].text, format!("WARN: No dano extended attribute exists for path: {}\n", d("b.mkv")));
}

#[test]
fn recorded_hash_tests_ok_after_gathering() {
    // the same file information read from the extended attribute and from the hash file
    let gathered = vec![info("a.mkv", "aa", 1), info("a.mkv/", "aa", 2)];
    let rec = RecordedFileInfo::new(&test_mode(false, false), gathered).unwrap();
    assert_eq!(rec.len(), 1);
    let c = config(test_mode(false, false));
    let (notices, res) = ProcessedFiles::new(&c, rec, vec![info("a.mkv", "aa", 3)]);
    assert_eq!(notices[0].text, format!("{}: OK\n", d("a.mkv")));
    assert_eq!(res.unwrap().exit_code, 0);
}

#[test]
fn keeping_the_latest_twice_changes_nothing() {
    let items = vec![info("a.mkv", "aa", 1), info("b.mkv", "aa", 3), info("c.mkv", "cc", 2)];
    let once = latest_per_hash(&items);
    let twice = latest_per_hash(&once);
    let mut p1 = paths(&once);
    let mut p2 = paths(&twice);
    p1.sort();
    p2.sort();
    assert_eq!(p1, p2);
}

#[test]
fn xattr_record_reads_back_under_its_path() {
    let f = info("old-name.mkv", "aa", 1);
    let given = vec!["new-name.mkv".to_string()];
    let read = vec![Some(xattr_record(&f))];
    let (all, notices) = RecordedFileInfo::from_recorded(&given, &read, vec![]);
    assert!(notices.is_empty());
    assert_eq!(all.len(), 1);
    assert_eq!(all[0].path, "new-name.mkv");
    assert_eq!(all[0].version, 5);
    assert!(same_meta(&all[0], &f));
}

#[test]
fn empty_bundle_that_test_mode_may_write() {
    let c = config(test_mode(true, false));
    let plan = RemainderBundle::NewFile(vec![]).write_out(&c);
    assert!(plan.files.is_empty());
    assert_eq!(plan.notices.len(), 1);
    assert_eq!(plan.notices[0].text, "No new file paths to write.\n");
    let plan = RemainderBundle::ModifiedFilename(vec![]).write_out(&c);
    assert_eq!(plan.notices[0].text, "No old file data to overwrite., --overwrite was not specified.\n");
    let c = config(test_mode(false, true));
    let plan = RemainderBundle::ModifiedFilename(vec![]).write_out(&c);
    assert_eq!(plan.notices[0].text, "No old file data to overwrite.\n");
    let p = ProcessedFiles {
        new_files: RemainderBundle::NewFile(vec![]),
        modified_file_names: RemainderBundle::ModifiedFilename(vec![]),
        exit_code: 2,
    };
    let (plans, code) = p.write_out(&config(test_mode(true, false)));
    assert_eq!(plans.len(), 2);
    assert_eq!(code, 2);
}
