//! File information: what dano records about a file, and how it is made
//! from the output of ffmpeg.
use vstd::prelude::*;

use md5::Digest;
use vstd::string::StringExecFns;

use crate::config::{Config, SelectedStreams};
use crate::requests::FileInfoRequest;
use crate::text::{
    digit_char, digit_of, push_char, chars_of, contains_str, str_equal, digits, format_radix, has_substring, split_once_at, split_once_chars,
    string_from, strip_leading, strip_leading_chars, trim, trim_chars,
};
use crate::utility::DanoError;

verus! {

/// The lookup of file information for a set of requests.  Running the
/// lookup spawns ffmpeg processes and is done by the program around this
/// library; this type names the stage.
pub struct FileInfoLookup;

/// A point in time, as whole seconds and nanoseconds since the Unix epoch.
#[derive(Debug, PartialEq, Eq, Structural)]
pub struct Timestamp {
    pub secs_since_epoch: u64,
    pub nanos_since_epoch: u32,
}

impl Clone for Timestamp {
    fn clone(&self) -> (r: Self)
        ensures
            r == *self,
    {
        Timestamp { secs_since_epoch: self.secs_since_epoch, nanos_since_epoch: self.nanos_since_epoch }
    }
}

/// `a` is not later than `b`.
pub open spec fn timestamp_le(a: Timestamp, b: Timestamp) -> bool {
    a.secs_since_epoch < b.secs_since_epoch || (a.secs_since_epoch == b.secs_since_epoch
        && a.nanos_since_epoch <= b.nanos_since_epoch)
}

/// `a` is not later than `b`.
pub fn timestamp_not_after(a: &Timestamp, b: &Timestamp) -> (r: bool)
    ensures
        r == timestamp_le(*a, *b),
{
    a.secs_since_epoch < b.secs_since_epoch || (a.secs_since_epoch == b.secs_since_epoch
        && a.nanos_since_epoch <= b.nanos_since_epoch)
}

/// A checksum value: its digits in the given radix.
#[derive(Debug)]
pub struct HashValue {
    pub radix: u32,
    pub value: String,
}

impl Clone for HashValue {
    fn clone(&self) -> (r: Self)
        ensures
            r == *self,
    {
        HashValue { radix: self.radix, value: self.value.clone() }
    }
}

/// Two hash values are equal: same radix and same digits.
pub open spec fn same_hash_value(a: HashValue, b: HashValue) -> bool {
    a.radix == b.radix && a.value@ == b.value@
}

impl HashValue {
    /// The two hash values are equal (see `same_hash_value`).
    pub fn equals(&self, other: &HashValue) -> (r: bool)
        ensures
            r == same_hash_value(*self, *other),
    {
        self.radix == other.radix && self.value == other.value
    }
}

/// What dano records about one file's checksum.
#[derive(Debug)]
pub struct FileMetadata {
    pub hash_algo: String,
    pub hash_value: HashValue,
    pub last_written: Timestamp,
    pub modify_time: Timestamp,
    pub decoded: bool,
    pub selected_streams: SelectedStreams,
    pub opt_bits_per_second: Option<u32>,
}

impl Clone for FileMetadata {
    fn clone(&self) -> (r: Self)
        ensures
            r == *self,
    {
        FileMetadata {
            hash_algo: self.hash_algo.clone(),
            hash_value: self.hash_value.clone(),
            last_written: self.last_written.clone(),
            modify_time: self.modify_time.clone(),
            decoded: self.decoded,
            selected_streams: self.selected_streams.clone(),
            opt_bits_per_second: self.opt_bits_per_second,
        }
    }
}

/// The information dano records about one file.  A file whose checksum
/// could not be generated has no metadata.
#[derive(Debug)]
pub struct FileInfo {
    pub version: usize,
    pub path: String,
    pub metadata: Option<FileMetadata>,
}

impl Clone for FileInfo {
    fn clone(&self) -> (r: Self)
        ensures
            r == *self,
    {
        let metadata = match &self.metadata {
            Some(m) => Some(m.clone()),
            None => None,
        };
        FileInfo { version: self.version, path: self.path.clone(), metadata }
    }
}

/// The version of the file information format that dano writes.
pub const DANO_FILE_INFO_VERSION: usize = 5;

/// The radix of hash values that dano records.
pub const HEXADECIMAL_RADIX: u32 = 16;

/// An ASCII hexadecimal digit, either case.
pub open spec fn is_hex_digit(c: char) -> bool {
    ('0' <= c && c <= '9') || ('a' <= c && c <= 'f') || ('A' <= c && c <= 'F')
}

/// `s` without a leading `0x`.
pub open spec fn strip_hex_prefix(s: Seq<char>) -> Seq<char> {
    if s.len() >= 2 && s[0] == '0' && s[1] == 'x' {
        s.skip(2)
    } else {
        s
    }
}

/// `s` reads as a 512-bit number in hexadecimal: after an optional `0x`,
/// at most 128 characters, all hexadecimal digits.
pub open spec fn u512_hex_parses(s: Seq<char>) -> bool {
    let d = strip_hex_prefix(s);
    d.len() <= 128 && forall|i: int| 0 <= i < d.len() ==> is_hex_digit(#[trigger] d[i])
}

/// `primitive_types::U512::from_str_radix(s, 16).is_ok()`.  The crate strips
/// an optional `0x`, refuses more than 128 bytes, and decodes the rest as
/// hexadecimal digits of either case.
#[verifier::external_body]
pub(crate) fn u512_from_hex_ok(s: &str) -> (r: bool)
    ensures
        r == u512_hex_parses(s@),
{
    primitive_types::U512::from_str_radix(s, 16).is_ok()
}

/// What ffmpeg printed when asked for a file's hash.
#[derive(Debug)]
pub enum FfmpegReport {
    /// Nothing: the file does not exist or could not be read.
    Nothing,
    /// Output without `=`: no hash could be read from it.
    Unrecognized,
    /// `algorithm=digits`.
    Hash { hash_algo: String, hash_value: HashValue },
}

/// The message of the error for ffmpeg output whose digits are not a number.
pub open spec fn unparsable_hash_text() -> Seq<char> {
    "Could not parse integer from ffmpeg output."@
}

/// Reads the hash out of what ffmpeg printed, without the surrounding
/// whitespace (ffmpeg ends its hash line with a newline): `algorithm=digits`,
/// the digits hexadecimal, kept without leading zeros.
pub fn read_ffmpeg_output(stdout: &str) -> (r: Result<FfmpegReport, DanoError>)
    ensures
        trim(stdout@).len() == 0 ==> r matches Ok(FfmpegReport::Nothing),
        trim(stdout@).len() > 0 ==> match split_once_at(trim(stdout@), '=') {
            None => r matches Ok(FfmpegReport::Unrecognized),
            Some((a, b)) => if u512_hex_parses(b) {
                r matches Ok(FfmpegReport::Hash { hash_algo, hash_value }) && hash_algo@ == a
                    && hash_value.radix == HEXADECIMAL_RADIX && hash_value.value@ == strip_leading(
                    b,
                    '0',
                )
            } else {
                r matches Err(e) && e.details@ == unparsable_hash_text()
            },
        },
{
    let chars = trim_chars(&chars_of(stdout));
    if chars.len() == 0 {
        return Ok(FfmpegReport::Nothing);
    }
    match split_once_chars(&chars, '=') {
        None => Ok(FfmpegReport::Unrecognized),
        Some((first, last)) => {
            let last_str = string_from(last.as_slice());
            if u512_from_hex_ok(last_str.as_str()) {
                let digits = strip_leading_chars(&last, '0');
                Ok(
                    FfmpegReport::Hash {
                        hash_algo: string_from(first.as_slice()),
                        hash_value: HashValue {
                            radix: HEXADECIMAL_RADIX,
                            value: string_from(digits.as_slice()),
                        },
                    },
                )
            } else {
                Err(DanoError::new("Could not parse integer from ffmpeg output."))
            }
        },
    }
}

impl FileInfo {
    /// File information for a path whose hash could not be generated.
    pub fn phantom(path: &str) -> (r: FileInfo)
        ensures
            r.path@ == path@,
            r.version == DANO_FILE_INFO_VERSION,
            r.metadata is None,
    {
        FileInfo { path: String::from_str(path), version: DANO_FILE_INFO_VERSION, metadata: None }
    }

    /// File information for a freshly hashed path.
    pub fn hashed(
        path: &str,
        hash_algo: String,
        hash_value: HashValue,
        decoded: bool,
        selected_streams: SelectedStreams,
        last_written: Timestamp,
        modify_time: Timestamp,
    ) -> (r: FileInfo)
        ensures
            r.path@ == path@,
            r.version == DANO_FILE_INFO_VERSION,
            r.metadata == Some(
                FileMetadata {
                    hash_algo,
                    hash_value,
                    last_written,
                    modify_time,
                    decoded,
                    selected_streams,
                    opt_bits_per_second: None,
                },
            ),
    {
        FileInfo {
            path: String::from_str(path),
            version: DANO_FILE_INFO_VERSION,
            metadata: Some(
                FileMetadata {
                    hash_algo,
                    hash_value,
                    last_written,
                    modify_time,
                    decoded,
                    selected_streams,
                    opt_bits_per_second: None,
                },
            ),
        }
    }
}

/// Strings as plain values.
pub open spec fn string_views(v: Seq<String>) -> Seq<Seq<char>> {
    v.map_values(|a: String| a@)
}

/// The ffmpeg arguments that hash a file's streams:
/// `-i path [-map streams] [-codec copy] -f hash -hash algo -`.
pub open spec fn hash_args(path: Seq<char>, hash_algo: Seq<char>, decoded: bool, map: Option<Seq<char>>) -> Seq<
    Seq<char>,
> {
    let start = seq!["-i"@, path];
    let mapped = match map {
        Some(m) => start + seq!["-map"@, m],
        None => start,
    };
    let copied = if !decoded {
        mapped + seq!["-codec"@, "copy"@]
    } else {
        mapped
    };
    copied + seq!["-f"@, "hash"@, "-hash"@, hash_algo, "-"@]
}

/// The ffmpeg stream selector of a stream selection.
pub open spec fn stream_map(s: SelectedStreams) -> Option<Seq<char>> {
    match s {
        SelectedStreams::All => None,
        SelectedStreams::AudioOnly => Some("0:a?"@),
        SelectedStreams::VideoOnly => Some("0:v?"@),
    }
}

fn push_str_arg(args: &mut Vec<String>, a: &str)
    ensures
        string_views(final(args)@) == string_views(old(args)@).push(a@),
{
    args.push(String::from_str(a));
    assert(string_views(args@) =~= string_views(old(args)@).push(a@));
}

impl FileInfo {
    /// The ffmpeg arguments that hash a file's streams (see `hash_args`).
    pub fn build_process_args(path: &str, hash_algo: &str, decoded: bool, map: Option<&str>) -> (r: Vec<
        String,
    >)
        ensures
            string_views(r@) == hash_args(
                path@,
                hash_algo@,
                decoded,
                match map {
                    Some(m) => Some(m@),
                    None => None,
                },
            ),
    {
        let mut args: Vec<String> = Vec::new();
        push_str_arg(&mut args, "-i");
        push_str_arg(&mut args, path);
        if let Some(m) = map {
            push_str_arg(&mut args, "-map");
            push_str_arg(&mut args, m);
        }
        if !decoded {
            push_str_arg(&mut args, "-codec");
            push_str_arg(&mut args, "copy");
        }
        push_str_arg(&mut args, "-f");
        push_str_arg(&mut args, "hash");
        push_str_arg(&mut args, "-hash");
        push_str_arg(&mut args, hash_algo);
        push_str_arg(&mut args, "-");
        assert(string_views(args@) =~= hash_args(
            path@,
            hash_algo@,
            decoded,
            match map {
                Some(m) => Some(m@),
                None => None,
            },
        ));
        args
    }
}

/// How ffmpeg is run for a request.
#[derive(Debug)]
pub struct FfmpegInvocation {
    /// The arguments.
    pub args: Vec<String>,
    /// ffmpeg decodes the stream to raw samples on standard output, whose MD5
    /// digest dano computes; otherwise ffmpeg prints the hash itself.
    pub pcm_md5: bool,
    /// The stream is decoded before hashing.
    pub decoded: bool,
}

/// The request asks for the MD5 of the raw samples of a stream with a known
/// sample size (as FLAC checksums are), decoded.
pub open spec fn wants_pcm_md5(request: FileInfoRequest, decoded: bool) -> bool {
    &&& request.bits_per_second is Some
    &&& decoded
    &&& request.hash_algo matches Some(a) && a@ == "MD5"@
}

/// The decoding setting for a request: its own, else the configuration's.
pub open spec fn request_decoded(config: Config, request: FileInfoRequest) -> bool {
    match request.decoded {
        Some(d) => d,
        None => config.opt_decode,
    }
}

/// The ffmpeg arguments that write the raw samples:
/// `-i path -f s{bits}le -`.
pub open spec fn pcm_args(path: Seq<char>, bits: u32) -> Seq<Seq<char>> {
    seq!["-i"@, path, "-f"@, "s"@ + digits(bits as nat, 10, false) + "le"@, "-"@]
}

impl FileInfo {
    /// How ffmpeg is run for a request: settings not in the request come
    /// from the configuration.
    pub fn ffmpeg_invocation(config: &Config, request: &FileInfoRequest) -> (r: FfmpegInvocation)
        ensures
            r.decoded == request_decoded(*config, *request),
            r.pcm_md5 == wants_pcm_md5(*request, r.decoded),
            r.pcm_md5 ==> string_views(r.args@) == pcm_args(
                request.path@,
                request.bits_per_second->0,
            ),
            !r.pcm_md5 ==> string_views(r.args@) == hash_args(
                request.path@,
                match request.hash_algo {
                    Some(a) => a@,
                    None => config.selected_hash_algo@,
                },
                r.decoded,
                stream_map(
                    match request.selected_streams {
                        Some(s) => s,
                        None => config.selected_streams,
                    },
                ),
            ),
    {
        let decoded = match request.decoded {
            Some(d) => d,
            None => config.opt_decode,
        };
        let is_md5 = match &request.hash_algo {
            Some(a) => str_equal(a.as_str(), "MD5"),
            None => false,
        };
        match request.bits_per_second {
            Some(bps) => {
                if decoded && is_md5 {
                    let mut format = String::from_str("s");
                    let n = format_radix(bps as u128, 10, false);
                    format.append(n.as_str());
                    format.append("le");
                    let mut args: Vec<String> = Vec::new();
                    push_str_arg(&mut args, "-i");
                    push_str_arg(&mut args, request.path.as_str());
                    push_str_arg(&mut args, "-f");
                    push_str_arg(&mut args, format.as_str());
                    push_str_arg(&mut args, "-");
                    assert(string_views(args@) =~= pcm_args(request.path@, bps));
                    return FfmpegInvocation { args, pcm_md5: true, decoded };
                }
            },
            None => {},
        }
        let hash_algo = match &request.hash_algo {
            Some(a) => a.as_str(),
            None => config.selected_hash_algo.as_str(),
        };
        let streams = match &request.selected_streams {
            Some(s) => s,
            None => &config.selected_streams,
        };
        let map: Option<&str> = match streams {
            SelectedStreams::All => None,
            SelectedStreams::AudioOnly => Some("0:a?"),
            SelectedStreams::VideoOnly => Some("0:v?"),
        };
        let args = FileInfo::build_process_args(request.path.as_str(), hash_algo, decoded, map);
        FfmpegInvocation { args, pcm_md5: false, decoded }
    }
}

/// The error when ffmpeg does not know the hash algorithm.
pub open spec fn unsupported_algo_text(algo: Seq<char>) -> Seq<char> {
    "Error: Invalid hash algorithm specified.  This version of ffmpeg does not support: "@ + algo
        + " .  Upgrade or specify another hash algorithm."@
}

/// What ffmpeg's standard error says about the run: an error when it
/// complains of incorrect codec parameters, which it does for a hash
/// algorithm it does not know.
pub fn ffmpeg_stderr_error(config: &Config, stderr: &str) -> (r: Option<DanoError>)
    ensures
        has_substring(trim(stderr@), "incorrect codec parameters"@) <==> r is Some,
        r matches Some(e) ==> e.details@ == unsupported_algo_text(config.selected_hash_algo@),
{
    let chars = chars_of(stderr);
    let trimmed = trim_chars(&chars);
    let t = string_from(trimmed.as_slice());
    if contains_str(t.as_str(), "incorrect codec parameters") {
        let mut msg = String::from_str(
            "Error: Invalid hash algorithm specified.  This version of ffmpeg does not support: ",
        );
        msg.append(config.selected_hash_algo.as_str());
        msg.append(" .  Upgrade or specify another hash algorithm.");
        Some(DanoError { details: msg })
    } else {
        None
    }
}

/// The MD5 digest of the bytes.
pub uninterp spec fn md5_of(data: Seq<u8>) -> Seq<u8>;

/// `md5::Md5::digest(data)`: the 16-byte MD5 digest of the bytes.
#[verifier::external_body]
fn md5_digest(data: &[u8]) -> (r: Vec<u8>)
    ensures
        r@ == md5_of(data@),
        r@.len() == 16,
{
    md5::Md5::digest(data).to_vec()
}

/// A byte as two lower-case hexadecimal digits.
pub open spec fn hex_byte(b: u8) -> Seq<char> {
    seq![digit_char((b / 16) as nat, false), digit_char((b % 16) as nat, false)]
}

/// The bytes in lower-case hexadecimal, two digits each, as `metaflac
/// --show-md5sum` prints a checksum.
pub open spec fn hex_bytes(bs: Seq<u8>) -> Seq<char>
    decreases bs.len(),
{
    if bs.len() == 0 {
        Seq::empty()
    } else {
        hex_bytes(bs.drop_last()) + hex_byte(bs.last())
    }
}

impl FileInfo {
    /// What dano reports of the raw samples ffmpeg decoded: `MD5=` and the
    /// 32 lower-case hexadecimal digits of their MD5 digest, the form in
    /// which ffmpeg's hash output and metaflac print a checksum.
    pub fn hash(data: &[u8]) -> (r: String)
        ensures
            r@ == "MD5="@ + hex_bytes(md5_of(data@)),
            hex_bytes(md5_of(data@)).len() == 32,
    {
        let digest = md5_digest(data);
        let mut out = String::from_str("MD5=");
        let ghost start = out@;
        let mut i: usize = 0;
        while i < digest.len()
            invariant
                i <= digest@.len(),
                digest@ == md5_of(data@),
                out@ == start + hex_bytes(digest@.take(i as int)),
                hex_bytes(digest@.take(i as int)).len() == 2 * i,
            decreases digest@.len() - i,
        {
            let b = digest[i];
            let hi = digit_of(b / 16, false);
            let lo = digit_of(b % 16, false);
            let ghost t = digest@.take(i + 1);
            proof {
                assert(t.drop_last() =~= digest@.take(i as int));
                assert(t.last() == b);
            }
            push_char(&mut out, hi);
            push_char(&mut out, lo);
            assert(out@ =~= start + hex_bytes(t));
            i = i + 1;
        }
        assert(digest@.take(digest@.len() as int) =~= digest@);
        out
    }
}

/// The file information a lookup of `path` yields from what ffmpeg printed,
/// read without surrounding whitespace (see `read_ffmpeg_output`): no
/// metadata where ffmpeg printed nothing or no hash; an error where the hash is not a number; otherwise the hash,
/// written at `last_written`, the file last modified at `modify_time`, which
/// is an error where it could not be read.
pub open spec fn transmitted(
    path: Seq<char>,
    stdout: Seq<char>,
    decoded: bool,
    selected_streams: SelectedStreams,
    last_written: Timestamp,
    modify_time: Result<Timestamp, String>,
    r: Result<FileInfo, DanoError>,
) -> bool {
    let phantom = r matches Ok(f) && f.path@ == path && f.version == DANO_FILE_INFO_VERSION
        && f.metadata is None;
    if trim(stdout).len() == 0 {
        phantom
    } else {
        match split_once_at(trim(stdout), '=') {
            None => phantom,
            Some((a, b)) => if !u512_hex_parses(b) {
                r matches Err(e) && e.details@ == unparsable_hash_text()
            } else {
                match modify_time {
                    Ok(t) => r matches Ok(f) && f.path@ == path && f.version
                        == DANO_FILE_INFO_VERSION && (f.metadata matches Some(m) && m.hash_algo@ == a
                        && m.hash_value.radix == HEXADECIMAL_RADIX && m.hash_value.value@
                        == strip_leading(b, '0') && m.last_written == last_written && m.modify_time
                        == t && m.decoded == decoded && m.selected_streams == selected_streams
                        && m.opt_bits_per_second is None),
                    Err(msg) => r matches Err(e) && e.details@ == msg@,
                }
            },
        }
    }
}

impl FileInfo {
    /// The message of the error for a missing ffmpeg command.
    pub fn ffmpeg_missing() -> (r: DanoError)
        ensures
            r.details@ == "'ffmpeg' command not found. Make sure the command 'ffmpeg' is in your path."@,
    {
        DanoError::new("'ffmpeg' command not found. Make sure the command 'ffmpeg' is in your path.")
    }

    /// The file information a lookup of `path` yields from what ffmpeg
    /// printed (see `transmitted`).
    pub fn transmit_file_info(
        path: &str,
        stdout: &str,
        decoded: bool,
        selected_streams: SelectedStreams,
        last_written: Timestamp,
        modify_time: Result<Timestamp, String>,
    ) -> (r: Result<FileInfo, DanoError>)
        ensures
            transmitted(path@, stdout@, decoded, selected_streams, last_written, modify_time, r),
    {
        let report = read_ffmpeg_output(stdout)?;
        match report {
            FfmpegReport::Hash { hash_algo, hash_value } => {
                match modify_time {
                    Ok(t) => Ok(
                        Self::hashed(
                            path,
                            hash_algo,
                            hash_value,
                            decoded,
                            selected_streams,
                            last_written,
                            t,
                        ),
                    ),
                    Err(m) => Err(DanoError { details: m }),
                }
            },
            _ => Ok(Self::phantom(path)),
        }
    }
}

/// Hashing with a stream selection maps exactly that kind of stream: right
/// after the input come `-map 0:a?` for audio only and `-map 0:v?` for video
/// only; with all streams no selector follows the input, but the copy or
/// output options.
pub proof fn lemma_stream_selection_maps(
    path: Seq<char>,
    hash_algo: Seq<char>,
    decoded: bool,
    s: SelectedStreams,
)
    ensures
        s == SelectedStreams::AudioOnly ==> hash_args(path, hash_algo, decoded, stream_map(s))[2]
            == "-map"@ && hash_args(path, hash_algo, decoded, stream_map(s))[3] == "0:a?"@,
        s == SelectedStreams::VideoOnly ==> hash_args(path, hash_algo, decoded, stream_map(s))[2]
            == "-map"@ && hash_args(path, hash_algo, decoded, stream_map(s))[3] == "0:v?"@,
        s == SelectedStreams::All ==> hash_args(path, hash_algo, decoded, stream_map(s))[2] == (
        if decoded {
            "-f"@
        } else {
            "-codec"@
        }),
        hash_args(path, hash_algo, decoded, stream_map(s))[0] == "-i"@,
        hash_args(path, hash_algo, decoded, stream_map(s))[1] == path,
{
}

/// The ffmpeg arguments end by writing the hash with the algorithm asked
/// for (`-f hash -hash algo -`), and copy the streams without decoding
/// (`-codec copy` before the output options) exactly when decoding is not
/// asked for.
pub proof fn lemma_hash_args_shape(path: Seq<char>, hash_algo: Seq<char>, decoded: bool, map: Option<Seq<char>>)
    ensures
        ({
            let a = hash_args(path, hash_algo, decoded, map);
            let n = a.len();
            &&& n == 7 + (if map is Some { 2int } else { 0int }) + (if decoded { 0int } else { 2int })
            &&& a[n - 5] == "-f"@ && a[n - 4] == "hash"@ && a[n - 3] == "-hash"@
            &&& a[n - 2] == hash_algo && a[n - 1] == "-"@
            &&& !decoded ==> a[n - 7] == "-codec"@ && a[n - 6] == "copy"@
        }),
{
}

} // verus!
