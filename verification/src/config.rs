//! The run configuration: what dano was asked to do, and the decisions
//! that turn command-line flags into that configuration.
use vstd::prelude::*;
use vstd::string::StringExecFns;

use crate::paths::{extension, extension_of, file_name, file_name_of, path_debug, path_debug_text};
use crate::text::{chars_of, digits_value, str_equal, string_from, trim, trim_chars};
use crate::utility::{DanoError, Notice, Stream};

verus! {

/// Options of the write mode.
#[derive(Debug, PartialEq, Eq, Structural)]
pub struct WriteModeConfig {
    pub opt_rewrite: bool,
    pub opt_import_flac: bool,
}

/// What test mode may write when it finds new files or renamed files.
#[derive(Debug, PartialEq, Eq, Structural)]
pub enum WriteOpt {
    WriteNew,
    OverwriteAll,
}

/// Options of the test mode.  Overwriting old file information implies
/// writing new file information.
#[derive(Debug, PartialEq, Eq, Structural)]
pub struct TestModeConfig {
    pub opt_write_new: bool,
    pub opt_overwrite_old: bool,
}

/// The execution mode.
#[derive(Debug, PartialEq, Eq, Structural)]
pub enum ExecMode {
    Test(TestModeConfig),
    Write(WriteModeConfig),
    Print,
    Dump,
    Duplicates,
    Clean,
}

/// Which streams of a media file are hashed.
#[derive(Debug, PartialEq, Eq, Structural)]
pub enum SelectedStreams {
    All,
    AudioOnly,
    VideoOnly,
}

impl Clone for WriteModeConfig {
    fn clone(&self) -> (r: Self)
        ensures
            r == *self,
    {
        WriteModeConfig { opt_rewrite: self.opt_rewrite, opt_import_flac: self.opt_import_flac }
    }
}

impl Clone for TestModeConfig {
    fn clone(&self) -> (r: Self)
        ensures
            r == *self,
    {
        TestModeConfig { opt_write_new: self.opt_write_new, opt_overwrite_old: self.opt_overwrite_old }
    }
}

impl Clone for ExecMode {
    fn clone(&self) -> (r: Self)
        ensures
            r == *self,
    {
        match self {
            ExecMode::Test(t) => ExecMode::Test(t.clone()),
            ExecMode::Write(w) => ExecMode::Write(w.clone()),
            ExecMode::Print => ExecMode::Print,
            ExecMode::Dump => ExecMode::Dump,
            ExecMode::Duplicates => ExecMode::Duplicates,
            ExecMode::Clean => ExecMode::Clean,
        }
    }
}

impl Clone for SelectedStreams {
    fn clone(&self) -> (r: Self)
        ensures
            r == *self,
    {
        match self {
            SelectedStreams::All => SelectedStreams::All,
            SelectedStreams::AudioOnly => SelectedStreams::AudioOnly,
            SelectedStreams::VideoOnly => SelectedStreams::VideoOnly,
        }
    }
}

/// The run configuration.
#[derive(Debug)]
pub struct Config {
    pub exec_mode: ExecMode,
    pub opt_silent: bool,
    pub opt_decode: bool,
    pub opt_xattr: bool,
    pub opt_dry_run: bool,
    pub is_single_path: bool,
    pub opt_num_threads: Option<usize>,
    pub selected_streams: SelectedStreams,
    pub selected_hash_algo: String,
    pub pwd: String,
    pub output_file: String,
    pub hash_file: String,
    pub paths: Vec<String>,
}

/// The command-line flags that decide the execution mode.
#[derive(Debug)]
pub struct ModeFlags {
    pub test: bool,
    pub write: bool,
    pub print: bool,
    pub dump: bool,
    pub duplicates: bool,
    pub import_flac: bool,
    pub rewrite: bool,
    pub write_new: bool,
    pub overwrite_old: bool,
}

/// What test mode may write: overwriting old file information wins over
/// writing new file information.
pub open spec fn test_write_opt_of(overwrite_old: bool, write_new: bool) -> Option<WriteOpt> {
    if overwrite_old {
        Some(WriteOpt::OverwriteAll)
    } else if write_new {
        Some(WriteOpt::WriteNew)
    } else {
        None
    }
}

/// What test mode may write (see `test_write_opt_of`).
pub fn test_write_opt(overwrite_old: bool, write_new: bool) -> (r: Option<WriteOpt>)
    ensures
        r == test_write_opt_of(overwrite_old, write_new),
{
    if overwrite_old {
        Some(WriteOpt::OverwriteAll)
    } else if write_new {
        Some(WriteOpt::WriteNew)
    } else {
        None
    }
}

/// The test options that a write option gives: overwriting implies
/// writing new file information.
pub open spec fn test_config_of(opt: Option<WriteOpt>) -> TestModeConfig {
    match opt {
        Some(WriteOpt::OverwriteAll) => TestModeConfig { opt_write_new: true, opt_overwrite_old: true },
        Some(WriteOpt::WriteNew) => TestModeConfig { opt_write_new: true, opt_overwrite_old: false },
        None => TestModeConfig { opt_write_new: false, opt_overwrite_old: false },
    }
}

impl TestModeConfig {
    /// The test options that a write option gives (see `test_config_of`).
    pub fn from_write_opt(opt: Option<WriteOpt>) -> (r: TestModeConfig)
        ensures
            r == test_config_of(opt),
    {
        match opt {
            Some(WriteOpt::OverwriteAll) => TestModeConfig { opt_write_new: true, opt_overwrite_old: true },
            Some(WriteOpt::WriteNew) => TestModeConfig { opt_write_new: true, opt_overwrite_old: false },
            None => TestModeConfig { opt_write_new: false, opt_overwrite_old: false },
        }
    }
}

/// The execution mode the flags ask for: test first, then write (also
/// asked for by rewrite and FLAC import), dump, print, duplicates; none
/// when no mode is asked for.
pub open spec fn exec_mode_of(f: ModeFlags) -> Option<ExecMode> {
    if f.test {
        Some(ExecMode::Test(test_config_of(test_write_opt_of(f.overwrite_old, f.write_new))))
    } else if f.write || f.rewrite || f.import_flac {
        Some(ExecMode::Write(WriteModeConfig { opt_rewrite: f.rewrite, opt_import_flac: f.import_flac }))
    } else if f.dump {
        Some(ExecMode::Dump)
    } else if f.print {
        Some(ExecMode::Print)
    } else if f.duplicates {
        Some(ExecMode::Duplicates)
    } else {
        None
    }
}

/// The message of the error for flags that ask for no mode.
pub open spec fn no_mode_text() -> Seq<char> {
    "You must specify an execution mode: TEST, WRITE, PRINT or DUMP"@
}

/// The execution mode the flags ask for (see `exec_mode_of`), or the error
/// when they ask for none.
pub fn exec_mode_from_flags(f: &ModeFlags) -> (r: Result<ExecMode, DanoError>)
    ensures
        match exec_mode_of(*f) {
            Some(m) => r matches Ok(x) && x == m,
            None => r matches Err(e) && e.details@ == no_mode_text(),
        },
        r matches Ok(ExecMode::Write(w)) ==> w.opt_rewrite == f.rewrite && w.opt_import_flac
            == f.import_flac,
        !f.test && (f.write || f.rewrite || f.import_flac) ==> r matches Ok(ExecMode::Write(_)),
{
    if f.test {
        let opt = test_write_opt(f.overwrite_old, f.write_new);
        Ok(ExecMode::Test(TestModeConfig::from_write_opt(opt)))
    } else if f.write || f.rewrite || f.import_flac {
        Ok(ExecMode::Write(WriteModeConfig { opt_rewrite: f.rewrite, opt_import_flac: f.import_flac }))
    } else if f.dump {
        Ok(ExecMode::Dump)
    } else if f.print {
        Ok(ExecMode::Print)
    } else if f.duplicates {
        Ok(ExecMode::Duplicates)
    } else {
        Err(DanoError::new("You must specify an execution mode: TEST, WRITE, PRINT or DUMP"))
    }
}

/// The streams `--only` selects: `video` and `audio` select one kind;
/// anything else, or no `--only`, selects all.
pub open spec fn selected_streams_of(only: Option<Seq<char>>) -> SelectedStreams {
    match only {
        Some(s) => if s == "video"@ {
            SelectedStreams::VideoOnly
        } else if s == "audio"@ {
            SelectedStreams::AudioOnly
        } else {
            SelectedStreams::All
        },
        None => SelectedStreams::All,
    }
}

/// The streams `--only` selects (see `selected_streams_of`).
pub fn selected_streams_from(only: Option<&str>) -> (r: SelectedStreams)
    ensures
        r == selected_streams_of(
            match only {
                Some(s) => Some(s@),
                None => None,
            },
        ),
{
    match only {
        Some(s) => {
            if str_equal(s, "video") {
                SelectedStreams::VideoOnly
            } else if str_equal(s, "audio") {
                SelectedStreams::AudioOnly
            } else {
                SelectedStreams::All
            }
        },
        None => SelectedStreams::All,
    }
}

/// The hash algorithm asked for: `sha1` is named `sha160`; the default is
/// `murmur3`.
pub open spec fn hash_algo_of(algo: Option<Seq<char>>) -> Seq<char> {
    match algo {
        Some(a) => if a == "sha1"@ {
            "sha160"@
        } else {
            a
        },
        None => "murmur3"@,
    }
}

/// The hash algorithm asked for (see `hash_algo_of`).
pub fn hash_algo_from(algo: Option<&str>) -> (r: String)
    ensures
        r@ == hash_algo_of(
            match algo {
                Some(s) => Some(s@),
                None => None,
            },
        ),
{
    match algo {
        Some(a) => {
            if str_equal(a, "sha1") {
                String::from_str("sha160")
            } else {
                String::from_str(a)
            }
        },
        None => String::from_str("murmur3"),
    }
}

/// Nothing is written in a dry run, asked for directly or by asking to
/// print while writing.
pub open spec fn dry_run_of(dry_run: bool, print: bool, write: bool) -> bool {
    dry_run || (print && write)
}

/// Nothing is written in a dry run (see `dry_run_of`).
pub fn dry_run_from(dry_run: bool, print: bool, write: bool) -> (r: bool)
    ensures
        r == dry_run_of(dry_run, print, write),
{
    dry_run || (print && write)
}

/// An ASCII decimal digit.
pub open spec fn is_decimal_digit(c: char) -> bool {
    '0' <= c && c <= '9'
}

/// `s` without one leading `+`.
pub open spec fn without_plus(s: Seq<char>) -> Seq<char> {
    if s.len() > 0 && s[0] == '+' {
        s.skip(1)
    } else {
        s
    }
}

/// `usize::from_str`: after an optional `+`, at least one decimal digit and
/// nothing else, the number they write no larger than `usize::MAX`.
pub open spec fn usize_of_text(s: Seq<char>) -> Option<nat> {
    let d = without_plus(s);
    if d.len() > 0 && (forall|i: int| 0 <= i < d.len() ==> is_decimal_digit(#[trigger] d[i]))
        && digits_value(d, 10) <= usize::MAX {
        Some(digits_value(d, 10))
    } else {
        None
    }
}

proof fn lemma_digits_value_prefix(s: Seq<char>, j: int)
    requires
        0 <= j <= s.len(),
    ensures
        digits_value(s.take(j), 10) <= digits_value(s, 10),
    decreases s.len() - j,
{
    if j < s.len() {
        lemma_digits_value_prefix(s.drop_last(), j);
        assert(s.drop_last().take(j) =~= s.take(j));
        let z = digits_value(s.drop_last(), 10);
        assert(z <= z * 10) by (nonlinear_arith)
            requires
                z >= 0,
        ;
    } else {
        assert(s.take(j) =~= s);
    }
}

/// The number of threads asked for, read as `usize::from_str` reads it;
/// none where it does not read as one.
pub fn parse_num_threads(s: &str) -> (r: Option<usize>)
    ensures
        match usize_of_text(s@) {
            Some(n) => r == Some(n as usize),
            None => r is None,
        },
{
    let chars = chars_of(s);
    let start: usize = if chars.len() > 0 && chars[0] == '+' {
        1
    } else {
        0
    };
    let ghost d = without_plus(s@);
    assert(d =~= chars@.skip(start as int));
    if start >= chars.len() {
        return None;
    }
    let mut acc: usize = 0;
    let mut i: usize = start;
    while i < chars.len()
        invariant
            chars@ == s@,
            d == chars@.skip(start as int),
            d == without_plus(s@),
            start <= i <= chars@.len(),
            acc as nat == digits_value(d.take(i - start), 10),
            forall|k: int| 0 <= k < i - start ==> is_decimal_digit(#[trigger] d[k]),
        decreases chars@.len() - i,
    {
        let c = chars[i];
        assert(c == d[i - start]);
        if !('0' <= c && c <= '9') {
            assert(!is_decimal_digit(d[i - start]));
            return None;
        }
        let digit: usize = (c as u32 - '0' as u32) as usize;
        let ghost t = d.take(i - start + 1);
        assert(t.drop_last() =~= d.take(i - start));
        assert(t.last() == c);
        assert(digits_value(t, 10) == acc * 10 + digit);
        if acc > (usize::MAX - digit) / 10 {
            proof {
                assert(acc * 10 + digit > usize::MAX) by (nonlinear_arith)
                    requires
                        acc > (usize::MAX - digit) / 10,
                        digit <= 9,
                ;
                lemma_digits_value_prefix(d, i - start + 1);
            }
            return None;
        }
        assert(acc * 10 + digit <= usize::MAX) by (nonlinear_arith)
            requires
                acc <= (usize::MAX - digit) / 10,
                digit <= 9,
        ;
        acc = acc * 10 + digit;
        i = i + 1;
    }
    assert(d.take(d.len() as int) =~= d);
    Some(acc)
}

/// The name of the hash file in the working directory, by default.
pub open spec fn default_hash_file_name() -> Seq<char> {
    "dano_hashes.txt"@
}

/// `Path::join` of a relative name: a `/` between the two unless the base
/// is empty or already ends in one.
pub open spec fn join_relative(base: Seq<char>, name: Seq<char>) -> Seq<char> {
    if base.len() == 0 || base.last() == '/' {
        base + name
    } else {
        base + "/"@ + name
    }
}

/// The output file: the one asked for, else the default hash file name in
/// the working directory.
pub open spec fn output_file_of(asked: Option<Seq<char>>, pwd: Seq<char>) -> Seq<char> {
    match asked {
        Some(o) => o,
        None => join_relative(pwd, default_hash_file_name()),
    }
}

/// The output file (see `output_file_of`).
pub fn output_file_from(asked: Option<&str>, pwd: &str) -> (r: String)
    ensures
        r@ == output_file_of(
            match asked {
                Some(s) => Some(s@),
                None => None,
            },
            pwd@,
        ),
{
    match asked {
        Some(o) => String::from_str(o),
        None => {
            let chars = chars_of(pwd);
            let mut out = String::from_str(pwd);
            if !(chars.len() == 0 || chars[chars.len() - 1] == '/') {
                out.append("/");
            }
            out.append("dano_hashes.txt");
            out
        },
    }
}

/// The hash file read from: the one asked for, else the output file.
pub open spec fn hash_file_of(asked: Option<Seq<char>>, output_file: Seq<char>) -> Seq<char> {
    match asked {
        Some(h) => h,
        None => output_file,
    }
}

/// The hash file (see `hash_file_of`).
pub fn hash_file_from(asked: Option<&str>, output_file: &str) -> (r: String)
    ensures
        r@ == hash_file_of(
            match asked {
                Some(s) => Some(s@),
                None => None,
            },
            output_file@,
        ),
{
    match asked {
        Some(h) => String::from_str(h),
        None => String::from_str(output_file),
    }
}

/// Where the input paths come from.
#[derive(Debug, PartialEq, Eq, Structural)]
pub enum InputSource {
    /// The paths given as arguments.
    Arguments,
    /// No paths: test mode reads the hash file.
    Nothing,
    /// Paths read from standard input.
    Stdin,
}

/// Where the input paths come from: the arguments where there are any;
/// otherwise nothing in test mode when the hash file exists, else standard
/// input.
pub open spec fn input_source_of(has_arguments: bool, mode: ExecMode, hash_file_exists: bool) -> InputSource {
    if has_arguments {
        InputSource::Arguments
    } else if mode is Test && hash_file_exists {
        InputSource::Nothing
    } else {
        InputSource::Stdin
    }
}

/// Where the input paths come from (see `input_source_of`).
pub fn input_source(has_arguments: bool, mode: &ExecMode, hash_file_exists: bool) -> (r: InputSource)
    ensures
        r == input_source_of(has_arguments, *mode, hash_file_exists),
{
    if has_arguments {
        InputSource::Arguments
    } else if hash_file_exists && matches!(mode, ExecMode::Test(_)) {
        InputSource::Nothing
    } else {
        InputSource::Stdin
    }
}

/// An input path and what the program found of it on disk.
#[derive(Debug)]
pub struct RawPath {
    pub path: String,
    pub exists: bool,
    pub is_file: bool,
}

/// The error printed for an input path that is refused before its
/// extension is looked at: it does not exist, is not a regular file, or its
/// file name is the hash file.
pub open spec fn path_error_text(p: RawPath, hash_file: Seq<char>) -> Option<Seq<char>> {
    if !p.exists {
        Some("ERROR: Path does not exist: "@ + path_debug_text(p.path@) + "\n"@)
    } else if !p.is_file {
        Some("ERROR: Path is not a regular file: "@ + path_debug_text(p.path@) + "\n"@)
    } else if file_name(p.path@) == Some(hash_file) {
        Some("ERROR: File name is the name of a dano hash file: "@ + path_debug_text(p.path@) + "\n"@)
    } else {
        None
    }
}

/// The input path is used: it passes the checks on disk, and, unless the
/// filter is disabled, its extension is a known one.
pub open spec fn path_accepted(
    p: RawPath,
    hash_file: Seq<char>,
    disable_filter: bool,
    known: Seq<Seq<char>>,
) -> bool {
    path_error_text(p, hash_file) is None && (disable_filter || (extension(p.path@) matches Some(
        e,
    ) && known.contains(e)))
}

/// The extension for which the filter leaves an input path out, if that is
/// why it is left out.  A path without an extension is left out silently.
pub open spec fn unknown_extension(
    p: RawPath,
    hash_file: Seq<char>,
    disable_filter: bool,
    known: Seq<Seq<char>>,
) -> Option<Seq<char>> {
    if path_error_text(p, hash_file) is None && !disable_filter {
        match extension(p.path@) {
            Some(e) => if known.contains(e) {
                None
            } else {
                Some(e)
            },
            None => None,
        }
    } else {
        None
    }
}

/// The views of a list of strings.
pub open spec fn text_views(v: Seq<String>) -> Seq<Seq<char>> {
    v.map_values(|x: String| x@)
}

/// The used input paths, in order.
pub open spec fn accepted_paths(
    ps: Seq<RawPath>,
    hash_file: Seq<char>,
    disable_filter: bool,
    known: Seq<Seq<char>>,
) -> Seq<Seq<char>>
    decreases ps.len(),
{
    if ps.len() == 0 {
        Seq::<Seq<char>>::empty()
    } else {
        let r = accepted_paths(ps.drop_last(), hash_file, disable_filter, known);
        if path_accepted(ps.last(), hash_file, disable_filter, known) {
            r.push(ps.last().path@)
        } else {
            r
        }
    }
}

/// The errors printed for the input paths, in order.
pub open spec fn path_errors(ps: Seq<RawPath>, hash_file: Seq<char>) -> Seq<Seq<char>>
    decreases ps.len(),
{
    if ps.len() == 0 {
        Seq::<Seq<char>>::empty()
    } else {
        let r = path_errors(ps.drop_last(), hash_file);
        match path_error_text(ps.last(), hash_file) {
            Some(t) => r.push(t),
            None => r,
        }
    }
}

/// The unknown extensions of the input paths, in order, repeats included.
pub open spec fn unknown_extensions(
    ps: Seq<RawPath>,
    hash_file: Seq<char>,
    disable_filter: bool,
    known: Seq<Seq<char>>,
) -> Seq<Seq<char>>
    decreases ps.len(),
{
    if ps.len() == 0 {
        Seq::<Seq<char>>::empty()
    } else {
        let r = unknown_extensions(ps.drop_last(), hash_file, disable_filter, known);
        match unknown_extension(ps.last(), hash_file, disable_filter, known) {
            Some(e) => r.push(e),
            None => r,
        }
    }
}

/// Each value once, where it first occurs.
pub open spec fn first_occurrences(s: Seq<Seq<char>>) -> Seq<Seq<char>>
    decreases s.len(),
{
    if s.len() == 0 {
        Seq::<Seq<char>>::empty()
    } else {
        let r = first_occurrences(s.drop_last());
        if s.drop_last().contains(s.last()) {
            r
        } else {
            r.push(s.last())
        }
    }
}

/// The values, each followed by a space.
pub open spec fn spaced(s: Seq<Seq<char>>) -> Seq<char>
    decreases s.len(),
{
    if s.len() == 0 {
        Seq::<char>::empty()
    } else {
        spaced(s.drop_last()) + s.last() + " "@
    }
}

/// `{:?}` of a `str`: the text in double quotes with special characters
/// escaped.
pub uninterp spec fn str_debug_text(s: Seq<char>) -> Seq<char>;

/// `format!("{:?}", s)` for a `str`.
#[verifier::external_body]
fn str_debug(s: &str) -> (r: String)
    ensures
        r@ == str_debug_text(s@),
{
    format!("{:?}", s)
}

/// The warning about unknown extensions: each of them once, separated by
/// spaces.
pub open spec fn unknown_extensions_text(exts: Seq<Seq<char>>) -> Seq<char> {
    "WARN: The following are extensions which are unknown to dano: "@ + str_debug_text(
        trim(spaced(first_occurrences(exts))),
    )
        + ".  dano has excluded all files with these extensions.  If you know these file types are acceptable to ffmpeg, you may use --disable-filter to force dano to accept their use.\n"@
}

proof fn lemma_push_contains(s: Seq<Seq<char>>, a: Seq<char>, x: Seq<char>)
    ensures
        s.push(a).contains(x) <==> (s.contains(x) || x == a),
{
    if s.push(a).contains(x) {
        let k = choose|k: int| 0 <= k < s.push(a).len() && s.push(a)[k] == x;
        if k < s.len() {
            assert(s[k] == x);
        }
    }
    if s.contains(x) {
        let k = choose|k: int| 0 <= k < s.len() && s[k] == x;
        assert(s.push(a)[k] == x);
    }
    if x == a {
        assert(s.push(a)[s.len() as int] == a);
    }
}

/// The warning about unknown extensions (see `unknown_extensions_text`).
pub fn unknown_extensions_warning(exts: &Vec<String>) -> (r: String)
    ensures
        r@ == unknown_extensions_text(text_views(exts@)),
{
    let ghost all = text_views(exts@);
    let mut seen: Vec<String> = Vec::new();
    let mut buffer = String::new();
    let mut i: usize = 0;
    assert(all.take(0) =~= Seq::<Seq<char>>::empty());
    while i < exts.len()
        invariant
            i <= exts@.len(),
            all == text_views(exts@),
            text_views(seen@) == first_occurrences(all.take(i as int)),
            buffer@ == spaced(first_occurrences(all.take(i as int))),
            forall|x: Seq<char>| all.take(i as int).contains(x) <==> text_views(seen@).contains(x),
        decreases exts@.len() - i,
    {
        let e = &exts[i];
        let ghost t = all.take(i as int);
        let ghost t1 = t.push(e@);
        assert(all.take(i + 1) =~= t1);
        assert(all.take(i + 1).drop_last() =~= t);
        let mut found = false;
        let mut j: usize = 0;
        while j < seen.len()
            invariant
                j <= seen@.len(),
                found ==> text_views(seen@).contains(e@),
                !found ==> forall|k: int| 0 <= k < j ==> seen@[k]@ != e@,
            decreases seen@.len() - j,
        {
            if str_equal(seen[j].as_str(), e.as_str()) {
                assert(text_views(seen@)[j as int] == e@);
                found = true;
            }
            j = j + 1;
        }
        proof {
            if !found {
                assert forall|k: int| 0 <= k < text_views(seen@).len() implies text_views(seen@)[k]
                    != e@ by {
                    assert(text_views(seen@)[k] == seen@[k]@);
                }
            }
            assert(t.contains(e@) <==> text_views(seen@).contains(e@));
            assert(t.contains(e@) == found);
            assert(t1.drop_last() =~= t);
            assert(t1.last() == e@);
        }
        let ghost before = text_views(seen@);
        if !found {
            let ghost sv = seen@;
            seen.push(e.clone());
            assert(text_views(seen@) =~= text_views(sv).push(e@));
            let ghost b0 = buffer@;
            buffer.append(e.as_str());
            buffer.append(" ");
            let ghost f = first_occurrences(t);
            assert(first_occurrences(t1) == f.push(e@));
            assert(f.push(e@).drop_last() =~= f);
            assert(spaced(f.push(e@)) == spaced(f) + e@ + " "@);
            assert(buffer@ =~= b0 + e@ + " "@);
        }
        proof {
            assert forall|x: Seq<char>| t1.contains(x) <==> text_views(seen@).contains(x) by {
                lemma_push_contains(t, e@, x);
                lemma_push_contains(before, e@, x);
                assert(t.contains(x) <==> before.contains(x));
            }
        }
        i = i + 1;
    }
    assert(all.take(exts@.len() as int) =~= all);
    let trimmed = string_from(trim_chars(&chars_of(buffer.as_str())).as_slice());
    let mut r = String::from_str("WARN: The following are extensions which are unknown to dano: ");
    let d = str_debug(trimmed.as_str());
    r.append(d.as_str());
    r.append(".  dano has excluded all files with these extensions.  If you know these file types are acceptable to ffmpeg, you may use --disable-filter to force dano to accept their use.\n");
    r
}

/// The error for an input path refused before its extension is looked at
/// (see `path_error_text`).
fn path_error(p: &RawPath, hash_file: &str) -> (r: Option<String>)
    ensures
        match path_error_text(*p, hash_file@) {
            Some(t) => r matches Some(x) && x@ == t,
            None => r is None,
        },
{
    let prefix = if !p.exists {
        "ERROR: Path does not exist: "
    } else if !p.is_file {
        "ERROR: Path is not a regular file: "
    } else {
        let is_hash_file = match file_name_of(p.path.as_str()) {
            Some(n) => str_equal(n.as_str(), hash_file),
            None => false,
        };
        if !is_hash_file {
            return None;
        }
        "ERROR: File name is the name of a dano hash file: "
    };
    let mut text = String::from_str(prefix);
    let d = path_debug(p.path.as_str());
    text.append(d.as_str());
    text.append("\n");
    Some(text)
}

/// `e` is one of the known extensions.
fn known_contains(known: &Vec<String>, e: &str) -> (r: bool)
    ensures
        r == text_views(known@).contains(e@),
{
    let mut i: usize = 0;
    while i < known.len()
        invariant
            i <= known@.len(),
            forall|k: int| 0 <= k < i ==> known@[k]@ != e@,
        decreases known@.len() - i,
    {
        if str_equal(known[i].as_str(), e) {
            assert(text_views(known@)[i as int] == e@);
            return true;
        }
        i = i + 1;
    }
    assert forall|k: int| 0 <= k < text_views(known@).len() implies text_views(known@)[k] != e@ by {
        assert(text_views(known@)[k] == known@[k]@);
    }
    false
}

/// The texts of a list of notices.
pub open spec fn notice_texts(v: Seq<Notice>) -> Seq<Seq<char>> {
    v.map_values(|n: Notice| n.text@)
}

/// What is printed while the input paths are checked: the error for each
/// refused path, in order, then, unless silenced, the warning about unknown
/// extensions where there are any.
pub open spec fn parse_paths_texts(
    ps: Seq<RawPath>,
    hash_file: Seq<char>,
    disable_filter: bool,
    silent: bool,
    known: Seq<Seq<char>>,
) -> Seq<Seq<char>> {
    let unknown = unknown_extensions(ps, hash_file, disable_filter, known);
    path_errors(ps, hash_file) + if !silent && unknown.len() > 0 {
        seq![unknown_extensions_text(unknown)]
    } else {
        Seq::<Seq<char>>::empty()
    }
}

impl Config {
    /// The input paths that are used, in order, and what is printed on
    /// standard error while they are checked (see `accepted_paths` and
    /// `parse_paths_texts`).
    pub fn parse_paths(
        raw: &Vec<RawPath>,
        hash_file: &str,
        disable_filter: bool,
        silent: bool,
        known: &Vec<String>,
    ) -> (r: (Vec<String>, Vec<Notice>))
        ensures
            text_views(r.0@) == accepted_paths(raw@, hash_file@, disable_filter, text_views(known@)),
            notice_texts(r.1@) == parse_paths_texts(
                raw@,
                hash_file@,
                disable_filter,
                silent,
                text_views(known@),
            ),
            forall|i: int| 0 <= i < r.1@.len() ==> (#[trigger] r.1@[i]).stream == Stream::Stderr,
    {
        let ghost kn = text_views(known@);
        let mut valid: Vec<String> = Vec::new();
        let mut notices: Vec<Notice> = Vec::new();
        let mut unknown: Vec<String> = Vec::new();
        let mut i: usize = 0;
        while i < raw.len()
            invariant
                i <= raw@.len(),
                kn == text_views(known@),
                text_views(valid@) == accepted_paths(raw@.take(i as int), hash_file@, disable_filter, kn),
                notice_texts(notices@) == path_errors(raw@.take(i as int), hash_file@),
                text_views(unknown@) == unknown_extensions(raw@.take(i as int), hash_file@, disable_filter, kn),
                forall|k: int| 0 <= k < notices@.len() ==> (#[trigger] notices@[k]).stream == Stream::Stderr,
            decreases raw@.len() - i,
        {
            let p = &raw[i];
            let ghost t1 = raw@.take(i + 1);
            assert(t1.drop_last() =~= raw@.take(i as int));
            assert(t1.last() == *p);
            match path_error(p, hash_file) {
                Some(text) => {
                    let ghost nb = notices@;
                    notices.push(Notice { stream: Stream::Stderr, text });
                    assert(notice_texts(notices@) =~= notice_texts(nb).push(notices@.last().text@));
                },
                None => {
                    if disable_filter {
                        let ghost vb = valid@;
                        valid.push(p.path.clone());
                        assert(text_views(valid@) =~= text_views(vb).push(p.path@));
                    } else {
                        match extension_of(p.path.as_str()) {
                            Some(e) => {
                                if known_contains(known, e.as_str()) {
                                    let ghost vb = valid@;
                                    valid.push(p.path.clone());
                                    assert(text_views(valid@) =~= text_views(vb).push(p.path@));
                                } else {
                                    let ghost ub = unknown@;
                                    unknown.push(e);
                                    assert(text_views(unknown@) =~= text_views(ub).push(
                                        unknown@.last()@,
                                    ));
                                }
                            },
                            None => {},
                        }
                    }
                },
            }
            i = i + 1;
        }
        assert(raw@.take(raw@.len() as int) =~= raw@);
        let ghost errs = notices@;
        if !silent && unknown.len() > 0 {
            let text = unknown_extensions_warning(&unknown);
            notices.push(Notice { stream: Stream::Stderr, text });
            assert(notice_texts(notices@) =~= notice_texts(errs).push(notices@.last().text@));
        } else {
            assert(notice_texts(notices@) =~= notice_texts(errs) + Seq::<Seq<char>>::empty());
        }
        (valid, notices)
    }

    /// The run configuration from its parts: an error when no input path is
    /// left; a single path otherwise makes the run a single-path run.
    pub fn assemble(
        exec_mode: ExecMode,
        opt_silent: bool,
        opt_decode: bool,
        opt_xattr: bool,
        opt_dry_run: bool,
        opt_num_threads: Option<usize>,
        selected_streams: SelectedStreams,
        selected_hash_algo: String,
        pwd: String,
        output_file: String,
        hash_file: String,
        paths: Vec<String>,
    ) -> (r: Result<Config, DanoError>)
        ensures
            paths@.len() == 0 ==> (r matches Err(e) && e.details@ == "No valid paths given.  Exiting."@),
            paths@.len() > 0 ==> (r matches Ok(c) && c.exec_mode == exec_mode && c.opt_silent
                == opt_silent && c.opt_decode == opt_decode && c.opt_xattr == opt_xattr
                && c.opt_dry_run == opt_dry_run && c.opt_num_threads == opt_num_threads
                && c.selected_streams == selected_streams && c.selected_hash_algo
                == selected_hash_algo && c.pwd == pwd && c.output_file == output_file
                && c.hash_file == hash_file && c.paths == paths && c.is_single_path == (
            paths@.len() <= 1)),
    {
        if paths.len() == 0 {
            return Err(DanoError::new("No valid paths given.  Exiting."));
        }
        let is_single_path = paths.len() <= 1;
        Ok(
            Config {
                exec_mode,
                opt_silent,
                opt_decode,
                opt_xattr,
                opt_dry_run,
                is_single_path,
                opt_num_threads,
                selected_streams,
                selected_hash_algo,
                pwd,
                output_file,
                hash_file,
                paths,
            },
        )
    }
}

/// The warning for a path that could not be made canonical.
pub fn canonical_path_warning(path: &str) -> (r: Notice)
    ensures
        r.stream == Stream::Stderr,
        r.text@ == "WARN: Unable convert relative path to canonical path: "@ + path_debug_text(path@)
            + "\n"@,
{
    let mut text = String::from_str("WARN: Unable convert relative path to canonical path: ");
    let d = path_debug(path);
    text.append(d.as_str());
    text.append("\n");
    Notice { stream: Stream::Stderr, text }
}

/// Overwriting old file information implies writing new file information:
/// whatever the flags, test mode that overwrites also writes new files.
pub proof fn lemma_overwrite_implies_write_new(f: ModeFlags)
    ensures
        exec_mode_of(f) matches Some(ExecMode::Test(t)) ==> (t.opt_overwrite_old ==> t.opt_write_new),
        f.test && f.overwrite_old ==> (exec_mode_of(f) matches Some(ExecMode::Test(t)) && t.opt_overwrite_old),
{
}

/// Write mode's options are the flags themselves: it rewrites recorded
/// hashes only when asked to rewrite, imports FLAC checksums only when asked
/// to import, and a plain write asks for neither, so new files are hashed.
pub proof fn lemma_write_mode_options(f: ModeFlags)
    ensures
        exec_mode_of(f) matches Some(ExecMode::Write(w)) ==> w.opt_rewrite == f.rewrite
            && w.opt_import_flac == f.import_flac,
        !f.test && (f.write || f.rewrite || f.import_flac) ==> exec_mode_of(f) matches Some(
            ExecMode::Write(_),
        ),
        !f.test && f.write && !f.rewrite && !f.import_flac ==> exec_mode_of(f) == Some(
            ExecMode::Write(WriteModeConfig { opt_rewrite: false, opt_import_flac: false }),
        ),
{
}

/// Test mode wins over every other mode, then write mode (asked for by
/// writing, rewriting or importing), dump, print and duplicates in that
/// order; flags that ask for none of them select no mode.  Test mode writes
/// new files when asked to write them or to overwrite, and overwrites only
/// when asked to.
pub proof fn lemma_mode_precedence(f: ModeFlags)
    ensures
        f.test ==> exec_mode_of(f) == Some(
            ExecMode::Test(
                TestModeConfig {
                    opt_write_new: f.write_new || f.overwrite_old,
                    opt_overwrite_old: f.overwrite_old,
                },
            ),
        ),
        !f.test && !(f.write || f.rewrite || f.import_flac) && f.dump ==> exec_mode_of(f) == Some(
            ExecMode::Dump,
        ),
        !f.test && !(f.write || f.rewrite || f.import_flac) && !f.dump && f.print ==> exec_mode_of(f)
            == Some(ExecMode::Print),
        !f.test && !(f.write || f.rewrite || f.import_flac) && !f.dump && !f.print && f.duplicates
            ==> exec_mode_of(f) == Some(ExecMode::Duplicates),
        exec_mode_of(f) is None <==> !(f.test || f.write || f.rewrite || f.import_flac || f.dump
            || f.print || f.duplicates),
{
}

/// `--only` selects audio or video by name and all streams otherwise; the
/// hash algorithm asked for is used as named, `sha1` under its name
/// `sha160`, and `murmur3` when none is asked for.
pub proof fn lemma_selection_and_algorithm(only: Seq<char>, algo: Seq<char>)
    ensures
        selected_streams_of(Some("audio"@)) == SelectedStreams::AudioOnly,
        selected_streams_of(Some("video"@)) == SelectedStreams::VideoOnly,
        only != "audio"@ && only != "video"@ ==> selected_streams_of(Some(only)) == SelectedStreams::All,
        selected_streams_of(None) == SelectedStreams::All,
        algo != "sha1"@ ==> hash_algo_of(Some(algo)) == algo,
        hash_algo_of(Some("sha1"@)) == "sha160"@,
        hash_algo_of(None) == "murmur3"@,
{
    reveal_strlit("audio");
    reveal_strlit("video");
    assert("audio"@[0] != "video"@[0]);
}

} // verus!
