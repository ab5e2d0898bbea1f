//! Older formats of recorded file information, and their conversion to the
//! current format.
use vstd::prelude::*;
use vstd::string::StringExecFns;

use crate::config::SelectedStreams;
use crate::lookup::{
    FileInfo, FileMetadata, HashValue, Timestamp, DANO_FILE_INFO_VERSION, HEXADECIMAL_RADIX,
};
use crate::text::{chars_of, digits, digits_value, format_radix, lemma_digits_value, string_from};
use crate::utility::DanoError;

verus! {

/// The earlier versions of the file information format.
#[derive(Debug, PartialEq, Eq, Structural)]
pub enum LegacyVersion {
    Version1,
    Version2,
    Version3,
    Version4,
}

/// The legacy version with the given number, if there is one.
pub open spec fn legacy_version_of(n: usize) -> Option<LegacyVersion> {
    if n == 1 {
        Some(LegacyVersion::Version1)
    } else if n == 2 {
        Some(LegacyVersion::Version2)
    } else if n == 3 {
        Some(LegacyVersion::Version3)
    } else if n == 4 {
        Some(LegacyVersion::Version4)
    } else {
        None
    }
}

/// The number of a legacy version.
pub open spec fn version_number(v: LegacyVersion) -> usize {
    match v {
        LegacyVersion::Version1 => 1,
        LegacyVersion::Version2 => 2,
        LegacyVersion::Version3 => 3,
        LegacyVersion::Version4 => 4,
    }
}

impl LegacyVersion {
    /// The legacy version with the given number.
    pub fn number_to_version(version_number: usize) -> (r: Result<LegacyVersion, DanoError>)
        ensures
            match legacy_version_of(version_number) {
                Some(v) => r == Ok::<LegacyVersion, DanoError>(v),
                None => r matches Err(e) && e.details@ == "Legacy version number is invalid"@,
            },
            r is Ok <==> 1 <= version_number <= 4,
            r matches Ok(v) ==> self::version_number(v) == version_number,
    {
        match version_number {
            1 => Ok(LegacyVersion::Version1),
            2 => Ok(LegacyVersion::Version2),
            3 => Ok(LegacyVersion::Version3),
            4 => Ok(LegacyVersion::Version4),
            _ => Err(DanoError::new("Legacy version number is invalid")),
        }
    }

    /// The name that a line of this version is read with: the type name
    /// `FileInfo` in the line is replaced by this (versions 3 and 4 are read
    /// with the same name).
    pub fn record_name(&self) -> (r: &'static str)
        ensures
            r@ == legacy_type_name(*self),
    {
        match self {
            LegacyVersion::Version1 => "FileInfoV1",
            LegacyVersion::Version2 => "FileInfoV2",
            LegacyVersion::Version3 => "FileInfoV3",
            LegacyVersion::Version4 => "FileInfoV3",
        }
    }

    /// The line, rewritten to be read as this version: every `FileInfo` in it
    /// replaced by the version's type name.
    pub fn rewrite_line(&self, line: &str) -> (r: String)
        ensures
            r@ == replace_all(line@, "FileInfo"@, legacy_type_name(*self)),
    {
        let name = self.record_name();
        let from = chars_of("FileInfo");
        let to = chars_of(name);
        let l = chars_of(line);
        proof {
            reveal_strlit("FileInfo");
        }
        let out = replace_chars(&l, &from, &to);
        string_from(out.as_slice())
    }
}

/// The type name a legacy version is read with.
pub open spec fn legacy_type_name(v: LegacyVersion) -> Seq<char> {
    match v {
        LegacyVersion::Version1 => "FileInfoV1"@,
        LegacyVersion::Version2 => "FileInfoV2"@,
        _ => "FileInfoV3"@,
    }
}

/// `str::replace`: `s` with every occurrence of `from` (non-empty), taken
/// left to right without overlap, replaced by `to`.
pub open spec fn replace_all(s: Seq<char>, from: Seq<char>, to: Seq<char>) -> Seq<char>
    decreases s.len(),
{
    if from.len() == 0 || s.len() == 0 {
        s
    } else if s.len() >= from.len() && s.take(from.len() as int) == from {
        to + replace_all(s.skip(from.len() as int), from, to)
    } else {
        seq![s[0]] + replace_all(s.drop_first(), from, to)
    }
}

/// `s` with every occurrence of `from` replaced by `to` (see `replace_all`).
fn replace_chars(s: &Vec<char>, from: &Vec<char>, to: &Vec<char>) -> (r: Vec<char>)
    ensures
        r@ == replace_all(s@, from@, to@),
{
    if from.len() == 0 {
        return s.clone();
    }
    let n = s.len();
    let m = from.len();
    let mut out: Vec<char> = Vec::new();
    let mut i: usize = 0;
    assert(s@.skip(0) =~= s@);
    while i < n
        invariant
            n == s@.len(),
            m == from@.len(),
            m > 0,
            i <= n,
            out@ + replace_all(s@.skip(i as int), from@, to@) == replace_all(s@, from@, to@),
        decreases n - i,
    {
        let ghost rest = s@.skip(i as int);
        let mut matches = false;
        if n - i >= m {
            let mut k: usize = 0;
            while k < m && s[i + k] == from[k]
                invariant
                    k <= m,
                    m == from@.len(),
                    n == s@.len(),
                    i + m <= n,
                    forall|q: int| 0 <= q < k ==> s@[i + q] == from@[q],
                decreases m - k,
            {
                k = k + 1;
            }
            matches = k == m;
            proof {
                if matches {
                    assert(rest.take(m as int) =~= from@);
                } else {
                    assert(rest.take(m as int)[k as int] != from@[k as int]);
                }
            }
        }
        if matches {
            let mut k: usize = 0;
            let ghost base = out@;
            while k < to.len()
                invariant
                    k <= to@.len(),
                    out@ == base + to@.take(k as int),
                decreases to@.len() - k,
            {
                out.push(to[k]);
                assert(to@.take(k + 1) =~= to@.take(k as int).push(to@[k as int]));
                k = k + 1;
            }
            proof {
                assert(to@.take(to@.len() as int) =~= to@);
                assert(rest.skip(m as int) =~= s@.skip(i + m));
                assert(out@ + replace_all(s@.skip(i + m), from@, to@) =~= base + (to@
                    + replace_all(rest.skip(m as int), from@, to@)));
            }
            i = i + m;
        } else {
            let ghost base = out@;
            out.push(s[i]);
            proof {
                assert(rest.drop_first() =~= s@.skip(i + 1));
                assert(rest[0] == s@[i as int]);
                assert(out@ + replace_all(s@.skip(i + 1), from@, to@) =~= base + (seq![rest[0]]
                    + replace_all(rest.drop_first(), from@, to@)));
            }
            i = i + 1;
        }
    }
    assert(s@.skip(n as int) =~= Seq::<char>::empty());
    assert(out@ + Seq::<char>::empty() =~= out@);
    out
}

/// File information of version 1.
#[derive(Debug)]
pub struct FileInfoV1 {
    pub version: usize,
    pub path: String,
    pub metadata: Option<FileMetadataV1>,
}

/// File metadata of version 1: the hash was a 128-bit number.
#[derive(Debug)]
pub struct FileMetadataV1 {
    pub hash_algo: String,
    pub hash_value: u128,
    pub last_written: Timestamp,
    pub modify_time: Timestamp,
}

/// File information of version 2.
#[derive(Debug)]
pub struct FileInfoV2 {
    pub version: usize,
    pub path: String,
    pub metadata: Option<FileMetadataV2>,
}

/// File metadata of version 2: no stream selection.
#[derive(Debug)]
pub struct FileMetadataV2 {
    pub hash_algo: String,
    pub hash_value: HashValue,
    pub last_written: Timestamp,
    pub modify_time: Timestamp,
    pub decoded: bool,
}

/// File information of version 3.
#[derive(Debug)]
pub struct FileInfoV3 {
    pub version: usize,
    pub path: String,
    pub metadata: Option<FileMetadata>,
}

/// File metadata of version 3.
#[derive(Debug)]
pub struct FileMetadataV3 {
    pub hash_algo: String,
    pub hash_value: HashValue,
    pub last_written: Timestamp,
    pub modify_time: Timestamp,
    pub decoded: bool,
    pub selected_streams: SelectedStreams,
}

/// File information of version 4.
#[derive(Debug)]
pub struct FileInfoV4 {
    pub version: usize,
    pub path: String,
    pub metadata: Option<FileMetadata>,
}

/// File metadata of version 4.
#[derive(Debug)]
pub struct FileMetadataV4 {
    pub hash_algo: String,
    pub hash_value: HashValue,
    pub last_written: Timestamp,
    pub modify_time: Timestamp,
    pub decoded: bool,
    pub selected_streams: SelectedStreams,
}

/// Conversion of file information of an earlier version to the current
/// version.  Every conversion succeeds.
pub trait ConvertVersion {
    fn convert(&self) -> (r: Result<FileInfo, DanoError>)
        ensures
            r matches Ok(f) && f.version == DANO_FILE_INFO_VERSION,
    ;
}

impl FileInfoV1 {
    /// The file information in the current version: the hash becomes its
    /// lower-case hexadecimal digits, the stream was not decoded, all
    /// streams were hashed.
    pub fn convert(&self) -> (r: Result<FileInfo, DanoError>)
        ensures
            r matches Ok(f) && f.version == DANO_FILE_INFO_VERSION && f.path@ == self.path@
                && match self.metadata {
                None => f.metadata is None,
                Some(m) => f.metadata matches Some(n) && n.hash_algo@ == m.hash_algo@
                    && n.hash_value.radix == HEXADECIMAL_RADIX && n.hash_value.value@ == digits(
                    m.hash_value as nat,
                    16,
                    false,
                ) && n.last_written == m.last_written && n.modify_time == m.modify_time
                    && !n.decoded && n.selected_streams == SelectedStreams::All
                    && n.opt_bits_per_second is None,
            },
    {
        let metadata = match &self.metadata {
            None => None,
            Some(m) => Some(
                FileMetadata {
                    hash_algo: m.hash_algo.clone(),
                    hash_value: HashValue {
                        radix: HEXADECIMAL_RADIX,
                        value: format_radix(m.hash_value, 16, false),
                    },
                    last_written: m.last_written.clone(),
                    modify_time: m.modify_time.clone(),
                    decoded: false,
                    selected_streams: SelectedStreams::All,
                    opt_bits_per_second: None,
                },
            ),
        };
        Ok(FileInfo { version: DANO_FILE_INFO_VERSION, path: self.path.clone(), metadata })
    }
}

impl FileInfoV2 {
    /// The file information in the current version: all streams were hashed.
    pub fn convert(&self) -> (r: Result<FileInfo, DanoError>)
        ensures
            r matches Ok(f) && f.version == DANO_FILE_INFO_VERSION && f.path@ == self.path@
                && match self.metadata {
                None => f.metadata is None,
                Some(m) => f.metadata == Some(
                    FileMetadata {
                        hash_algo: m.hash_algo,
                        hash_value: m.hash_value,
                        last_written: m.last_written,
                        modify_time: m.modify_time,
                        decoded: m.decoded,
                        selected_streams: SelectedStreams::All,
                        opt_bits_per_second: None,
                    },
                ),
            },
    {
        let metadata = match &self.metadata {
            None => None,
            Some(m) => Some(
                FileMetadata {
                    hash_algo: m.hash_algo.clone(),
                    hash_value: m.hash_value.clone(),
                    last_written: m.last_written.clone(),
                    modify_time: m.modify_time.clone(),
                    decoded: m.decoded,
                    selected_streams: SelectedStreams::All,
                    opt_bits_per_second: None,
                },
            ),
        };
        Ok(FileInfo { version: DANO_FILE_INFO_VERSION, path: self.path.clone(), metadata })
    }
}

/// The metadata of a version 3 or 4 record in the current version: the
/// bits per second are not known.
pub open spec fn current_metadata(m: FileMetadata) -> FileMetadata {
    FileMetadata { opt_bits_per_second: None, ..m }
}

fn convert_current_metadata(m: &Option<FileMetadata>) -> (r: Option<FileMetadata>)
    ensures
        match *m {
            None => r is None,
            Some(x) => r == Some(current_metadata(x)),
        },
{
    match m {
        None => None,
        Some(m) => Some(
            FileMetadata {
                hash_algo: m.hash_algo.clone(),
                hash_value: m.hash_value.clone(),
                last_written: m.last_written.clone(),
                modify_time: m.modify_time.clone(),
                decoded: m.decoded,
                selected_streams: m.selected_streams.clone(),
                opt_bits_per_second: None,
            },
        ),
    }
}

impl FileInfoV3 {
    /// The file information in the current version.
    pub fn convert(&self) -> (r: Result<FileInfo, DanoError>)
        ensures
            r matches Ok(f) && f.version == DANO_FILE_INFO_VERSION && f.path@ == self.path@
                && match self.metadata {
                None => f.metadata is None,
                Some(m) => f.metadata == Some(current_metadata(m)),
            },
    {
        Ok(
            FileInfo {
                version: DANO_FILE_INFO_VERSION,
                path: self.path.clone(),
                metadata: convert_current_metadata(&self.metadata),
            },
        )
    }
}

impl FileInfoV4 {
    /// The file information in the current version.
    pub fn convert(&self) -> (r: Result<FileInfo, DanoError>)
        ensures
            r matches Ok(f) && f.version == DANO_FILE_INFO_VERSION && f.path@ == self.path@
                && match self.metadata {
                None => f.metadata is None,
                Some(m) => f.metadata == Some(current_metadata(m)),
            },
    {
        Ok(
            FileInfo {
                version: DANO_FILE_INFO_VERSION,
                path: self.path.clone(),
                metadata: convert_current_metadata(&self.metadata),
            },
        )
    }
}

impl ConvertVersion for FileInfoV1 {
    fn convert(&self) -> Result<FileInfo, DanoError> {
        FileInfoV1::convert(self)
    }
}

impl ConvertVersion for FileInfoV2 {
    fn convert(&self) -> Result<FileInfo, DanoError> {
        FileInfoV2::convert(self)
    }
}

impl ConvertVersion for FileInfoV3 {
    fn convert(&self) -> Result<FileInfo, DanoError> {
        FileInfoV3::convert(self)
    }
}

impl ConvertVersion for FileInfoV4 {
    fn convert(&self) -> Result<FileInfo, DanoError> {
        FileInfoV4::convert(self)
    }
}

/// Converting a version 1 record keeps its hash: the hexadecimal digits it
/// is written with read back as the recorded number.
pub proof fn lemma_v1_hash_preserved(f: FileInfoV1, r: FileInfo)
    requires
        f.metadata is Some,
        r.metadata is Some,
        r.metadata->0.hash_value.value@ == digits(f.metadata->0.hash_value as nat, 16, false),
    ensures
        digits_value(r.metadata->0.hash_value.value@, 16) == f.metadata->0.hash_value,
{
    lemma_digits_value(f.metadata->0.hash_value as nat, 16, false);
}

/// The legacy versions are numbered 1 to 4, and the version read for a
/// number is the version with that number: reading a number and numbering
/// the version give it back, both ways.
pub proof fn lemma_legacy_version_numbers(n: usize, v: LegacyVersion)
    ensures
        legacy_version_of(n) is Some <==> 1 <= n <= 4,
        legacy_version_of(n) matches Some(w) ==> version_number(w) == n,
        legacy_version_of(version_number(v)) == Some(v),
        legacy_version_of(1) == Some(LegacyVersion::Version1),
        legacy_version_of(2) == Some(LegacyVersion::Version2),
        legacy_version_of(3) == Some(LegacyVersion::Version3),
        legacy_version_of(4) == Some(LegacyVersion::Version4),
{
}

} // verus!
