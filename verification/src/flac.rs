//! Importing the MD5 checksums that FLAC files carry in their metadata, as
//! `metaflac --show-md5sum` prints them.
use vstd::prelude::*;
use vstd::string::StringExecFns;

use crate::config::SelectedStreams;
use crate::ingest::RecordedFileInfo;
use crate::lookup::{
    u512_from_hex_ok, u512_hex_parses, FileInfo, FileMetadata, HashValue, Timestamp,
    DANO_FILE_INFO_VERSION, HEXADECIMAL_RADIX,
};
use crate::paths::{extension, extension_of, path_debug, path_debug_text};
use crate::text::{chars_of, contains_str, has_substring, string_from, strip_leading, strip_leading_chars, trim, trim_chars};
use crate::utility::{DanoError, Notice, Stream};

verus! {

/// `c` in lower case, where it is an ASCII upper-case letter.
pub open spec fn ascii_lower_char(c: char) -> char {
    if 'A' <= c && c <= 'Z' {
        ((c as u32) + 32) as char
    } else {
        c
    }
}

/// `str::to_ascii_lowercase`: ASCII upper-case letters in lower case, all
/// other characters unchanged.
pub open spec fn ascii_lower(s: Seq<char>) -> Seq<char> {
    s.map_values(|c: char| ascii_lower_char(c))
}

/// `s` with its ASCII upper-case letters in lower case.
pub fn to_ascii_lowercase(s: &str) -> (r: String)
    ensures
        r@ == ascii_lower(s@),
{
    let chars = chars_of(s);
    let mut out: Vec<char> = Vec::new();
    let mut i: usize = 0;
    while i < chars.len()
        invariant
            chars@ == s@,
            i <= chars@.len(),
            out@ == ascii_lower(chars@.take(i as int)),
        decreases chars@.len() - i,
    {
        let c = chars[i];
        let l = if 'A' <= c && c <= 'Z' {
            let b: u8 = c as u8;
            let lower: u8 = b + 32;
            lower as char
        } else {
            c
        };
        assert(l == ascii_lower_char(c));
        out.push(l);
        assert(ascii_lower(chars@.take(i + 1)) =~= ascii_lower(chars@.take(i as int)).push(
            ascii_lower_char(c),
        ));
        i = i + 1;
    }
    assert(chars@.take(chars@.len() as int) =~= chars@);
    string_from(out.as_slice())
}

/// The path's extension is `flac`, in any case.
pub open spec fn has_flac_extension(path: Seq<char>) -> bool {
    match extension(path) {
        Some(e) => ascii_lower(e) == "flac"@,
        None => false,
    }
}

/// The message for a path that is not imported for its extension.
pub open spec fn not_flac_text(path: Seq<char>) -> Seq<char> {
    "Error: "@ + path_debug_text(path) + " does not have a valid FLAC extension\n"@
}

/// The message of the error for a file that is not a FLAC file.
pub open spec fn not_a_flac_file_text(path: Seq<char>) -> Seq<char> {
    "Error: Path is not a valid FLAC file: "@ + path
}

/// The message of the error for a FLAC file whose checksum could not be
/// read.
pub open spec fn no_flac_hash_text(path: Seq<char>) -> Seq<char> {
    "Error: Could not generate hash from FLAC file: "@ + path
}

/// What metaflac reports on standard error for a file that is not FLAC.
pub open spec fn not_a_flac_marker() -> Seq<char> {
    "FLAC__METADATA_CHAIN_STATUS_NOT_A_FLAC_FILE"@
}

/// The checksum that metaflac printed for `path`: the error for a file
/// that is not FLAC, then for output that is not a hexadecimal number, then
/// for empty output; otherwise the digits without leading zeros.
pub open spec fn flac_hash_result(path: Seq<char>, stdout: Seq<char>, stderr: Seq<char>) -> Result<
    (u32, Seq<char>),
    Seq<char>,
> {
    let out = trim(stdout);
    if has_substring(trim(stderr), not_a_flac_marker()) {
        Err(not_a_flac_file_text(path))
    } else if !u512_hex_parses(out) {
        Err("Could not parse integer from ffmpeg output."@)
    } else if out.len() == 0 {
        Err(no_flac_hash_text(path))
    } else {
        Ok((HEXADECIMAL_RADIX, strip_leading(out, '0')))
    }
}

/// The metaflac command could not be found.
pub open spec fn metaflac_missing_text() -> Seq<char> {
    "'metaflac' command not found. Make sure the command 'metaflac' is in your path."@
}

impl RecordedFileInfo {
    /// The error for a missing metaflac command.
    pub fn metaflac_missing() -> (r: DanoError)
        ensures
            r.details@ == metaflac_missing_text(),
    {
        DanoError::new("'metaflac' command not found. Make sure the command 'metaflac' is in your path.")
    }

    /// The path is imported: its extension is `flac` in any case.
    pub fn is_flac_path(path: &str) -> (r: bool)
        ensures
            r == has_flac_extension(path@),
    {
        match extension_of(path) {
            Some(e) => {
                let lower = to_ascii_lowercase(e.as_str());
                let flac = String::from_str("flac");
                proof {
                    reveal_strlit("flac");
                }
                lower == flac
            },
            None => false,
        }
    }

    /// The paths to import, in order, and a message on standard error for
    /// each path left out for its extension.
    pub fn flac_candidates(paths: &Vec<String>) -> (r: (Vec<String>, Vec<Notice>))
        ensures
            r.0@.map_values(|p: String| p@) == paths@.map_values(|p: String| p@).filter(
                |p: Seq<char>| has_flac_extension(p),
            ),
            r.1@.map_values(|n: Notice| n.text@) == paths@.map_values(|p: String| p@).filter(
                |p: Seq<char>| !has_flac_extension(p),
            ).map_values(|p: Seq<char>| not_flac_text(p)),
            forall|i: int| 0 <= i < r.1@.len() ==> (#[trigger] r.1@[i]).stream == Stream::Stderr,
    {
        let ghost all = paths@.map_values(|p: String| p@);
        let mut kept: Vec<String> = Vec::new();
        let mut notices: Vec<Notice> = Vec::new();
        let mut i: usize = 0;
        while i < paths.len()
            invariant
                i <= paths@.len(),
                all == paths@.map_values(|p: String| p@),
                kept@.map_values(|p: String| p@) == all.take(i as int).filter(
                    |p: Seq<char>| has_flac_extension(p),
                ),
                notices@.map_values(|n: Notice| n.text@) == all.take(i as int).filter(
                    |p: Seq<char>| !has_flac_extension(p),
                ).map_values(|p: Seq<char>| not_flac_text(p)),
                forall|k: int|
                    0 <= k < notices@.len() ==> (#[trigger] notices@[k]).stream == Stream::Stderr,
            decreases paths@.len() - i,
        {
            let p = &paths[i];
            let ghost t = all.take(i as int);
            assert(all.take(i + 1) =~= t.push(p@));
            proof {
                t.lemma_filter_push(p@, |p: Seq<char>| has_flac_extension(p));
                t.lemma_filter_push(p@, |p: Seq<char>| !has_flac_extension(p));
            }
            if Self::is_flac_path(p.as_str()) {
                let ghost before = kept@;
                kept.push(p.clone());
                assert(kept@.map_values(|p: String| p@) =~= before.map_values(|p: String| p@).push(
                    p@,
                ));
            } else {
                let mut text = String::from_str("Error: ");
                let d = path_debug(p.as_str());
                text.append(d.as_str());
                text.append(" does not have a valid FLAC extension\n");
                let ghost before = notices@;
                let ghost f = t.filter(|p: Seq<char>| !has_flac_extension(p));
                notices.push(Notice { stream: Stream::Stderr, text });
                assert(notices@.map_values(|n: Notice| n.text@) =~= before.map_values(
                    |n: Notice| n.text@,
                ).push(not_flac_text(p@)));
                assert(f.push(p@).map_values(|p: Seq<char>| not_flac_text(p)) =~= f.map_values(
                    |p: Seq<char>| not_flac_text(p),
                ).push(not_flac_text(p@)));
            }
            i = i + 1;
        }
        assert(all.take(paths@.len() as int) =~= all);
        (kept, notices)
    }

    /// Reads the checksum metaflac printed for `path` (see
    /// `flac_hash_result`).
    pub fn import_flac_hash_value(path: &str, stdout: &str, stderr: &str) -> (r: Result<
        HashValue,
        DanoError,
    >)
        ensures
            match flac_hash_result(path@, stdout@, stderr@) {
                Ok((radix, digits)) => r matches Ok(h) && h.radix == radix && h.value@ == digits,
                Err(msg) => r matches Err(e) && e.details@ == msg,
            },
    {
        let out_chars = trim_chars(&chars_of(stdout));
        let err_chars = trim_chars(&chars_of(stderr));
        let err_text = string_from(err_chars.as_slice());
        if contains_str(err_text.as_str(), "FLAC__METADATA_CHAIN_STATUS_NOT_A_FLAC_FILE") {
            let mut msg = String::from_str("Error: Path is not a valid FLAC file: ");
            msg.append(path);
            return Err(DanoError { details: msg });
        }
        let out_text = string_from(out_chars.as_slice());
        if !u512_from_hex_ok(out_text.as_str()) {
            return Err(DanoError::new("Could not parse integer from ffmpeg output."));
        }
        if out_chars.len() == 0 {
            let mut msg = String::from_str("Error: Could not generate hash from FLAC file: ");
            msg.append(path);
            return Err(DanoError { details: msg });
        }
        let digits = strip_leading_chars(&out_chars, '0');
        Ok(HashValue { radix: HEXADECIMAL_RADIX, value: string_from(digits.as_slice()) })
    }

    /// The file information recorded for an imported FLAC file: its MD5
    /// checksum of the decoded audio stream, written at `last_written`, the
    /// file last modified at `modify_time`.
    pub fn generate_flac_file_info(
        path: &str,
        hash_value: HashValue,
        last_written: Timestamp,
        modify_time: Timestamp,
    ) -> (r: FileInfo)
        ensures
            r.path@ == path@,
            r.version == DANO_FILE_INFO_VERSION,
            r.metadata matches Some(m) && m.hash_algo@ == "MD5"@ && m.hash_value == hash_value
                && m.last_written == last_written && m.modify_time == modify_time && m.decoded
                && m.selected_streams == SelectedStreams::AudioOnly && m.opt_bits_per_second
                is None,
    {
        FileInfo {
            version: DANO_FILE_INFO_VERSION,
            path: String::from_str(path),
            metadata: Some(
                FileMetadata {
                    hash_algo: String::from_str("MD5"),
                    hash_value,
                    last_written,
                    modify_time,
                    decoded: true,
                    selected_streams: SelectedStreams::AudioOnly,
                    opt_bits_per_second: None,
                },
            ),
        }
    }

    /// The file information for an imported FLAC file, from what metaflac
    /// printed for it (see `import_flac_hash_value` and
    /// `generate_flac_file_info`).
    pub fn flac_file_info(
        path: &str,
        stdout: &str,
        stderr: &str,
        last_written: Timestamp,
        modify_time: Timestamp,
    ) -> (r: Result<FileInfo, DanoError>)
        ensures
            match flac_hash_result(path@, stdout@, stderr@) {
                Ok((radix, digits)) => r matches Ok(f) && f.path@ == path@ && f.version
                    == DANO_FILE_INFO_VERSION && (f.metadata matches Some(m) && m.hash_algo@
                    == "MD5"@ && m.hash_value.radix == radix && m.hash_value.value@ == digits
                    && m.last_written == last_written && m.modify_time == modify_time
                    && m.decoded && m.selected_streams == SelectedStreams::AudioOnly
                    && m.opt_bits_per_second is None),
                Err(msg) => r matches Err(e) && e.details@ == msg,
            },
    {
        let h = Self::import_flac_hash_value(path, stdout, stderr)?;
        Ok(Self::generate_flac_file_info(path, h, last_written, modify_time))
    }
}

} // verus!
