use dano::config::{Config, ExecMode, SelectedStreams, WriteModeConfig};
use dano::ingest::RecordedFileInfo;
use dano::lookup::{
    ffmpeg_stderr_error, read_ffmpeg_output, timestamp_not_after, FfmpegReport, FileInfo, HashValue,
    Timestamp,
};
use dano::requests::FileInfoRequest;
use dano::utility::Stream;

fn ts(s: u64, n: u32) -> Timestamp {
    Timestamp { secs_since_epoch: s, nanos_since_epoch: n }
}

fn config() -> Config {
    Config {
        exec_mode: ExecMode::Write(WriteModeConfig { opt_rewrite: false, opt_import_flac: false }),
        opt_silent: false,
        opt_decode: false,
        opt_xattr: false,
        opt_dry_run: false,
        is_single_path: false,
        opt_num_threads: None,
        selected_streams: SelectedStreams::All,
        selected_hash_algo: "murmur3".to_string(),
        pwd: "/".to_string(),
        output_file: "/dano_hashes.txt".to_string(),
        hash_file: "/dano_hashes.txt".to_string(),
        paths: vec!["a.mkv".to_string()],
    }
}

fn request(path: &str) -> FileInfoRequest {
    FileInfoRequest {
        path: path.to_string(),
        hash_algo: None,
        decoded: None,
        selected_streams: None,
        bits_per_second: None,
    }
}

#[test]
fn ffmpeg_output_is_read() {
    match read_ffmpeg_output("murmur3=000abc").unwrap() {
        FfmpegReport::Hash { hash_algo, hash_value } => {
            assert_eq!(hash_algo, "murmur3");
            assert_eq!(hash_value.radix, 16);
            assert_eq!(hash_value.value, "abc");
        }
        other => panic!("unexpected {:?}", other),
    }
    assert!(matches!(read_ffmpeg_output("").unwrap(), FfmpegReport::Nothing));
    assert!(matches!(read_ffmpeg_output(" \n").unwrap(), FfmpegReport::Nothing));
    match read_ffmpeg_output("murmur3=2f23cebfe8969a8e11cd3919ce9c9067\n").unwrap() {
        FfmpegReport::Hash { hash_algo, hash_value } => {
            assert_eq!(hash_algo, "murmur3");
            assert_eq!(hash_value.value, "2f23cebfe8969a8e11cd3919ce9c9067");
        }
        other => panic!("unexpected {:?}", other),
    }
    assert!(matches!(read_ffmpeg_output("garbage").unwrap(), FfmpegReport::Unrecognized));
    assert_eq!(
        read_ffmpeg_output("md5=xyz").unwrap_err().details,
        "Could not parse integer from ffmpeg output."
    );
    // 128 hexadecimal digits fit 512 bits, 129 do not
    let long = format!("sha512={}", "f".repeat(128));
    assert!(matches!(read_ffmpeg_output(&long).unwrap(), FfmpegReport::Hash { .. }));
    let too_long = format!("sha512={}", "f".repeat(129));
    assert!(read_ffmpeg_output(&too_long).is_err());
}

#[test]
fn transmitted_file_info() {
    let f = FileInfo::transmit_file_info("a.mkv", "murmur3=0f\n", true, SelectedStreams::AudioOnly, ts(5, 0), Ok(ts(3, 1))).unwrap();
    assert_eq!(f.path, "a.mkv");
    assert_eq!(f.version, 5);
    let m = f.metadata.unwrap();
    assert_eq!(m.hash_algo, "murmur3");
    assert_eq!(m.hash_value.value, "f");
    assert_eq!(m.last_written, ts(5, 0));
    assert_eq!(m.modify_time, ts(3, 1));
    assert!(m.decoded);
    assert_eq!(m.selected_streams, SelectedStreams::AudioOnly);
    assert_eq!(m.opt_bits_per_second, None);
    let p = FileInfo::transmit_file_info("gone.mkv", "", false, SelectedStreams::All, ts(5, 0), Err("x".to_string())).unwrap();
    assert!(p.metadata.is_none());
    let e = FileInfo::transmit_file_info("a.mkv", "murmur3=ab", false, SelectedStreams::All, ts(5, 0), Err("no metadata".to_string())).unwrap_err();
    assert_eq!(e.details, "no metadata");
    assert_eq!(FileInfo::ffmpeg_missing().details, "'ffmpeg' command not found. Make sure the command 'ffmpeg' is in your path.");
}

#[test]
fn ffmpeg_arguments() {
    let args = FileInfo::build_process_args("a.mkv", "md5", false, Some("0:a?"));
    assert_eq!(args, vec!["-i", "a.mkv", "-map", "0:a?", "-codec", "copy", "-f", "hash", "-hash", "md5", "-"]);
    let args = FileInfo::build_process_args("a.mkv", "md5", true, None);
    assert_eq!(args, vec!["-i", "a.mkv", "-f", "hash", "-hash", "md5", "-"]);
}

#[test]
fn ffmpeg_invocation_uses_request_then_config() {
    let c = config();
    let inv = FileInfo::ffmpeg_invocation(&c, &request("a.mkv"));
    assert!(!inv.pcm_md5);
    assert!(!inv.decoded);
    assert_eq!(inv.args, vec!["-i", "a.mkv", "-codec", "copy", "-f", "hash", "-hash", "murmur3", "-"]);
    let mut q = request("s.flac");
    q.hash_algo = Some("MD5".to_string());
    q.decoded = Some(true);
    q.bits_per_second = Some(16);
    let inv = FileInfo::ffmpeg_invocation(&c, &q);
    assert!(inv.pcm_md5);
    assert_eq!(inv.args, vec!["-i", "s.flac", "-f", "s16le", "-"]);
    let mut r = request("v.mkv");
    r.selected_streams = Some(SelectedStreams::VideoOnly);
    r.decoded = Some(true);
    let inv = FileInfo::ffmpeg_invocation(&c, &r);
    assert_eq!(inv.args, vec!["-i", "v.mkv", "-map", "0:v?", "-f", "hash", "-hash", "murmur3", "-"]);
}

#[test]
fn stderr_complaint_about_codec() {
    let c = config();
    let e = ffmpeg_stderr_error(&c, "  blah incorrect codec parameters blah \n").unwrap();
    assert_eq!(e.details, "Error: Invalid hash algorithm specified.  This version of ffmpeg does not support: murmur3 .  Upgrade or specify another hash algorithm.");
    assert!(ffmpeg_stderr_error(&c, "all fine").is_none());
}

#[test]
fn md5_of_raw_samples() {
    assert_eq!(FileInfo::hash(b""), "MD5=d41d8cd98f00b204e9800998ecf8427e");
    assert_eq!(FileInfo::hash(b"abc"), "MD5=900150983cd24fb0d6963f7d28e17f72");
    // read back as ffmpeg's own hash output is
    match read_ffmpeg_output(&FileInfo::hash(b"abc")).unwrap() {
        FfmpegReport::Hash { hash_algo, hash_value } => {
            assert_eq!(hash_algo, "MD5");
            assert_eq!(hash_value.value, "900150983cd24fb0d6963f7d28e17f72");
        }
        other => panic!("unexpected {:?}", other),
    }
}

#[test]
fn hash_values_and_timestamps() {
    let a = HashValue { radix: 16, value: "ab".to_string() };
    let b = HashValue { radix: 16, value: "ab".to_string() };
    let c = HashValue { radix: 10, value: "ab".to_string() };
    assert!(a.equals(&b));
    assert!(!a.equals(&c));
    assert!(timestamp_not_after(&ts(1, 5), &ts(1, 5)));
    assert!(timestamp_not_after(&ts(1, 5), &ts(2, 0)));
    assert!(!timestamp_not_after(&ts(2, 0), &ts(1, 9)));
}

#[test]
fn flac_extension_in_any_case() {
    assert!(RecordedFileInfo::is_flac_path("a/B.FLAC"));
    assert!(RecordedFileInfo::is_flac_path("x.Flac"));
    assert!(!RecordedFileInfo::is_flac_path("x.mp3"));
    assert!(!RecordedFileInfo::is_flac_path(".flac"));
    assert_eq!(dano::flac::to_ascii_lowercase("AbC-Ü"), "abc-Ü");
    let (kept, notices) = RecordedFileInfo::flac_candidates(&vec!["a.flac".to_string(), "b.mp3".to_string()]);
    assert_eq!(kept, vec!["a.flac".to_string()]);
    assert_eq!(notices.len(), 1);
    assert_eq!(notices[0].text, format!("Error: {:?} does not have a valid FLAC extension\n", std::path::Path::new("b.mp3")));
    assert_eq!(notices[0].stream, Stream::Stderr);
}

#[test]
fn flac_checksums_are_read() {
    let h = RecordedFileInfo::import_flac_hash_value("a.flac", "00fed8052012fb6d0523ef3980a0f6f7bd\n", "").unwrap();
    assert_eq!(h.radix, 16);
    assert_eq!(h.value, "fed8052012fb6d0523ef3980a0f6f7bd");
    let e = RecordedFileInfo::import_flac_hash_value("a.flac", "", "ERROR: FLAC__METADATA_CHAIN_STATUS_NOT_A_FLAC_FILE\n").unwrap_err();
    assert_eq!(e.details, "Error: Path is not a valid FLAC file: a.flac");
    let e = RecordedFileInfo::import_flac_hash_value("a.flac", "zz", "").unwrap_err();
    assert_eq!(e.details, "Could not parse integer from ffmpeg output.");
    let e = RecordedFileInfo::import_flac_hash_value("a.flac", "  \n", "").unwrap_err();
    assert_eq!(e.details, "Error: Could not generate hash from FLAC file: a.flac");
    assert_eq!(RecordedFileInfo::metaflac_missing().details, "'metaflac' command not found. Make sure the command 'metaflac' is in your path.");
}

#[test]
fn flac_file_info_records_md5_of_audio() {
    let f = RecordedFileInfo::flac_file_info("a.flac", "ab", "", ts(9, 0), ts(8, 0)).unwrap();
    let m = f.metadata.unwrap();
    assert_eq!(m.hash_algo, "MD5");
    assert_eq!(m.hash_value.value, "ab");
    assert!(m.decoded);
    assert_eq!(m.selected_streams, SelectedStreams::AudioOnly);
    assert_eq!(m.last_written, ts(9, 0));
    assert_eq!(m.modify_time, ts(8, 0));
    let g = RecordedFileInfo::generate_flac_file_info("b.flac", HashValue { radix: 16, value: "1".to_string() }, ts(1, 0), ts(0, 0));
    assert_eq!(g.path, "b.flac");
    assert_eq!(g.version, 5);
}
