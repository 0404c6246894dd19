//! The server JAR from Paper, and how its `--version` output is read.

use std::path::PathBuf;

use vstd::prelude::*;
use vstd::string::*;
use vstd::utf8::*;

use crate::paper::build_number::{parse_build, Build};
use crate::paths::{path_bytes, text_of_bytes, to_str};
use crate::tmux::{push_arg, texts};
use crate::paper::version::{
    lemma_parse_version_text, parse_version, release_text, version_numbers_fit, version_text,
    InvalidVersionError, Version,
};
use crate::text::{decimal, is_digit, lemma_decimal_digits};

verus! {

/// Server JAR file from Paper.
#[derive(Debug)]
pub struct Jar {
    path: PathBuf,
}

/// The version and build of a server JAR.
#[derive(Debug)]
pub struct ServerInfo {
    pub version: Version,
    pub build: Build,
}

/// What can go wrong while asking a server JAR for its version.
#[derive(Debug)]
pub enum GetServerInfoError {
    /// I/O-related error occurred
    Io { source: std::io::Error },
    /// JAR does not exist
    NotExists,
    /// Path to server JAR contains invalid Unicode
    InvalidPath,
    /// Failed to execute a child process
    CommandExecutionFailed { source: std::io::Error },
    /// Server produced no output
    MissingResponse,
    /// Failed to read a line of output
    LineReadFailed { source: std::io::Error },
    /// Version output did not match the expected format
    UnexpectedFormat,
    /// The output has no `-` between the version and the build
    MissingPart,
}

impl GetServerInfoError {
    /// What went wrong, in words.
    pub fn message(&self) -> (text: &'static str)
        ensures
            text@ == match *self {
                GetServerInfoError::Io { .. } => "I/O error occurred"@,
                GetServerInfoError::NotExists => "server JAR file does not exist"@,
                GetServerInfoError::InvalidPath => "path to server JAR contained invalid unicode"@,
                GetServerInfoError::CommandExecutionFailed { .. } => "failed to execute command"@,
                GetServerInfoError::MissingResponse => "command returned no output"@,
                GetServerInfoError::LineReadFailed { .. } => "failed to read line"@,
                GetServerInfoError::UnexpectedFormat => "unexpected format for version output"@,
                GetServerInfoError::MissingPart => "missing part in JAR output from `version-build-hash`"@,
            },
    {
        match self {
            GetServerInfoError::Io { .. } => "I/O error occurred",
            GetServerInfoError::NotExists => "server JAR file does not exist",
            GetServerInfoError::InvalidPath => "path to server JAR contained invalid unicode",
            GetServerInfoError::CommandExecutionFailed { .. } => "failed to execute command",
            GetServerInfoError::MissingResponse => "command returned no output",
            GetServerInfoError::LineReadFailed { .. } => "failed to read line",
            GetServerInfoError::UnexpectedFormat => "unexpected format for version output",
            GetServerInfoError::MissingPart => "missing part in JAR output from `version-build-hash`",
        }
    }
}

/// Why the output of `java -jar server.jar --version` could not be read.
#[derive(Debug, Clone, Copy, PartialEq, Eq, Structural)]
pub enum OutputFailure {
    MissingResponse,
    LineReadFailed,
    UnexpectedFormat,
    MissingPart,
}

impl View for Jar {
    type V = PathBuf;

    /// Where the JAR lies.
    closed spec fn view(&self) -> PathBuf {
        self.path
    }
}

/// `java -jar JAR FLAG`, without the program name.
pub open spec fn java_args(jar: Seq<char>, flag: Seq<char>) -> Seq<Seq<char>> {
    seq!["-jar"@, jar, flag]
}

impl Jar {
    /// The arguments that run the JAR with a flag. `None` where its path does not read as
    /// text.
    fn java_args(&self, flag: &str) -> (args: Option<Vec<String>>)
        ensures
            args is Some <==> valid_utf8(path_bytes(self@)),
            args matches Some(a) ==> texts(a@) == java_args(decode_utf8(path_bytes(self@)), flag@),
    {
        match to_str(&self.path) {
            None => None,
            Some(path) => {
                let mut args: Vec<String> = Vec::new();
                push_arg(&mut args, "-jar");
                push_arg(&mut args, path);
                push_arg(&mut args, flag);
                proof {
                    reveal_strlit("-jar");
                    encode_utf8_decode_utf8(path@);
                    assert(texts(args@) =~= java_args(decode_utf8(path_bytes(self@)), flag@));
                }
                Some(args)
            },
        }
    }

    /// The arguments of `java` that ask the JAR for its version. `None` where its path does
    /// not read as text.
    pub fn version_args(&self) -> (args: Option<Vec<String>>)
        ensures
            args is Some <==> valid_utf8(path_bytes(self@)),
            args matches Some(a) ==> texts(a@) == java_args(
                decode_utf8(path_bytes(self@)),
                "--version"@,
            ),
    {
        self.java_args("--version")
    }

    /// The arguments of `java` that run the server once to generate its initial files.
    /// `None` where the JAR's path does not read as text.
    pub fn init_settings_args(&self) -> (args: Option<Vec<String>>)
        ensures
            args is Some <==> valid_utf8(path_bytes(self@)),
            args matches Some(a) ==> texts(a@) == java_args(
                decode_utf8(path_bytes(self@)),
                "--initSettings"@,
            ),
    {
        self.java_args("--initSettings")
    }

    pub fn new(path: PathBuf) -> (jar: Self)
        ensures
            jar@ == path,
    {
        Self { path }
    }

    pub fn path(&self) -> (path: &PathBuf)
        ensures
            *path == self@,
    {
        &self.path
    }
}

/// The byte of a line feed.
pub open spec fn line_feed() -> u8 {
    10u8
}

/// The byte of a carriage return.
pub open spec fn carriage_return() -> u8 {
    13u8
}

/// Where the line that ends at `i` begins: just after the last line feed before `i`.
pub open spec fn line_start(s: Seq<u8>, i: int) -> int
    decreases i,
{
    if i <= 0 {
        0
    } else if s[i - 1] == line_feed() {
        i
    } else {
        line_start(s, i - 1)
    }
}

/// The last line of an output, as `BufRead::lines` gives it: without its line feed, and
/// without a carriage return before that line feed. An empty output has no line.
pub open spec fn last_line(out: Seq<u8>) -> Option<Seq<u8>> {
    if out.len() == 0 {
        None
    } else {
        let ended = out.last() == line_feed();
        let body = if ended {
            out.drop_last()
        } else {
            out
        };
        let line = body.subrange(line_start(body, body.len() as int), body.len() as int);
        Some(
            if ended && line.len() > 0 && line.last() == carriage_return() {
                line.drop_last()
            } else {
                line
            },
        )
    }
}

/// Where `c` first occurs in `s` from `i` on.
pub open spec fn index_from(s: Seq<char>, c: char, i: int) -> Option<int>
    decreases s.len() - i,
{
    if i < 0 || i >= s.len() {
        None
    } else if s[i] == c {
        Some(i)
    } else {
        index_from(s, c, i + 1)
    }
}

/// The text of `s` before its first `c` (all of it if there is none): what the first item
/// of `str::split` is.
pub open spec fn before_first(s: Seq<char>, c: char) -> Seq<char> {
    match index_from(s, c, 0) {
        Some(k) => s.take(k),
        None => s,
    }
}

/// A version read from its text by `str::parse`.
pub open spec fn read_version(s: Seq<char>) -> Result<Version, InvalidVersionError> {
    if version_numbers_fit(s) {
        parse_version(s)
    } else {
        Err(InvalidVersionError)
    }
}

/// The version and build that the output of `java -jar server.jar --version` tells. Its
/// last line reads `VERSION-BUILD-...`; the version is read first, then the build.
pub open spec fn server_info_spec(out: Seq<u8>) -> Result<(Version, Build), OutputFailure> {
    match last_line(out) {
        None => Err(OutputFailure::MissingResponse),
        Some(line) => if !valid_utf8(line) {
            Err(OutputFailure::LineReadFailed)
        } else {
            let text = decode_utf8(line);
            match read_version(before_first(text, '-')) {
                Err(_) => Err(OutputFailure::UnexpectedFormat),
                Ok(version) => match index_from(text, '-', 0) {
                    None => Err(OutputFailure::MissingPart),
                    Some(k) => match parse_build(before_first(text.skip(k + 1), '-')) {
                        Some(build) => Ok((version, build)),
                        None => Err(OutputFailure::UnexpectedFormat),
                    },
                },
            }
        },
    }
}

/// `io::Error::new` with the kind `InvalidData`: the error `BufRead::lines` gives for a line
/// that is not valid UTF-8. Nothing is stated of the value.
#[verifier::external_body]
fn invalid_utf8_error() -> std::io::Error {
    std::io::Error::new(std::io::ErrorKind::InvalidData, "stream did not contain valid UTF-8")
}

/// Where the line that ends at `end` begins.
fn find_line_start(out: &[u8], end: usize) -> (start: usize)
    requires
        end <= out@.len(),
    ensures
        start == line_start(out@.take(end as int), end as int),
        start <= end,
{
    let mut i: usize = end;
    while i > 0
        invariant
            i <= end <= out@.len(),
            line_start(out@.take(end as int), end as int) == line_start(
                out@.take(end as int),
                i as int,
            ),
        decreases i,
    {
        if out[i - 1] == 10u8 {
            return i;
        }
        i = i - 1;
    }
    0
}

/// The bounds of the last line of an output, as [`last_line`] gives it.
fn last_line_bounds(out: &[u8]) -> (bounds: Option<(usize, usize)>)
    ensures
        match (bounds, last_line(out@)) {
            (Some((s, e)), Some(line)) => s <= e <= out@.len() && out@.subrange(
                s as int,
                e as int,
            ) == line,
            (None, None) => true,
            _ => false,
        },
{
    let n = out.len();
    if n == 0 {
        return None;
    }
    let ended = out[n - 1] == 10u8;
    let body_end = if ended {
        n - 1
    } else {
        n
    };
    let start = find_line_start(out, body_end);
    let ghost body = if ended {
        out@.drop_last()
    } else {
        out@
    };
    proof {
        assert(out@.take(body_end as int) =~= body);
        assert(body.subrange(start as int, body_end as int) =~= out@.subrange(
            start as int,
            body_end as int,
        ));
    }
    if ended && body_end > start && out[body_end - 1] == 13u8 {
        proof {
            assert(out@.subrange(start as int, body_end as int).drop_last() =~= out@.subrange(
                start as int,
                body_end - 1,
            ));
        }
        Some((start, body_end - 1))
    } else {
        Some((start, body_end))
    }
}

/// Where `c` first occurs in `text` from `i` on.
fn find_char(text: &str, c: char, i: usize) -> (found: Option<usize>)
    requires
        i <= text@.len(),
    ensures
        found is None <==> index_from(text@, c, i as int) is None,
        found matches Some(k) ==> index_from(text@, c, i as int) == Some(k as int) && i <= k
            < text@.len(),
{
    let n = text.unicode_len();
    let mut j: usize = i;
    while j < n
        invariant
            n == text@.len(),
            i <= j <= n,
            index_from(text@, c, i as int) == index_from(text@, c, j as int),
        decreases n - j,
    {
        if text.get_char(j) == c {
            return Some(j);
        }
        j = j + 1;
    }
    None
}

/// The text before the first `c` from `i` on, and where that `c` is.
fn split_first(text: &str, c: char, i: usize) -> (res: (&str, Option<usize>))
    requires
        i <= text@.len(),
    ensures
        res.0@ == before_first(text@.skip(i as int), c),
        res.1 is None <==> index_from(text@, c, i as int) is None,
        res.1 matches Some(k) ==> index_from(text@, c, i as int) == Some(k as int) && i <= k
            < text@.len(),
{
    let found = find_char(text, c, i);
    proof {
        lemma_index_from_skip(text@, c, i as int, i as int);
    }
    match found {
        Some(k) => {
            let part = text.substring_char(i, k);
            proof {
                assert(text@.skip(i as int).take(k - i) =~= text@.subrange(i as int, k as int));
            }
            (part, found)
        },
        None => {
            let n = text.unicode_len();
            let part = text.substring_char(i, n);
            proof {
                assert(text@.skip(i as int) =~= text@.subrange(i as int, n as int));
            }
            (part, found)
        },
    }
}

/// Searching a text from `j` on finds the search of its tail from `i` on, shifted by `i`.
proof fn lemma_index_from_skip(s: Seq<char>, c: char, i: int, j: int)
    requires
        0 <= i <= j <= s.len(),
    ensures
        index_from(s.skip(i), c, j - i) == match index_from(s, c, j) {
            Some(k) => Some(k - i),
            None => None::<int>,
        },
    decreases s.len() - j,
{
    if j < s.len() {
        lemma_index_from_skip(s, c, i, j + 1);
    }
}

/// Reads the version and build from the output of `java -jar server.jar --version`.
///
/// A version in the grammar whose numbers do not fit in a `u32` is an
/// [`GetServerInfoError::UnexpectedFormat`] too.
pub fn server_info_from_output(out: &[u8]) -> (res: Result<ServerInfo, GetServerInfoError>)
    ensures
        match res {
            Ok(info) => server_info_spec(out@) == Ok::<(Version, Build), OutputFailure>(
                (info.version, info.build),
            ),
            Err(GetServerInfoError::MissingResponse) => server_info_spec(out@) == Err::<
                (Version, Build),
                OutputFailure,
            >(OutputFailure::MissingResponse),
            Err(GetServerInfoError::LineReadFailed { .. }) => server_info_spec(out@) == Err::<
                (Version, Build),
                OutputFailure,
            >(OutputFailure::LineReadFailed),
            Err(GetServerInfoError::UnexpectedFormat) => server_info_spec(out@) == Err::<
                (Version, Build),
                OutputFailure,
            >(OutputFailure::UnexpectedFormat),
            Err(GetServerInfoError::MissingPart) => server_info_spec(out@) == Err::<
                (Version, Build),
                OutputFailure,
            >(OutputFailure::MissingPart),
            Err(_) => false,
        },
{
    let (start, end) = match last_line_bounds(out) {
        None => return Err(GetServerInfoError::MissingResponse),
        Some(bounds) => bounds,
    };
    let line = slice_range(out, start, end);
    let text = match text_of_bytes(line) {
        None => return Err(GetServerInfoError::LineReadFailed { source: invalid_utf8_error() }),
        Some(text) => text,
    };
    proof {
        encode_utf8_decode_utf8(text@);
        assert(text@.skip(0) =~= text@);
    }
    let n = text.unicode_len();
    let (first, dash) = split_first(text, '-', 0);
    let version = if Version::numbers_fit(first) {
        match Version::parse(first) {
            Ok(v) => v,
            Err(_) => return Err(GetServerInfoError::UnexpectedFormat),
        }
    } else {
        return Err(GetServerInfoError::UnexpectedFormat);
    };
    let k = match dash {
        None => return Err(GetServerInfoError::MissingPart),
        Some(k) => k,
    };
    let (second, _) = split_first(text, '-', k + 1);
    proof {
        assert(text@.skip(k + 1) =~= text@.skip(k as int + 1));
    }
    match Build::parse(second) {
        Ok(build) => Ok(ServerInfo { version, build }),
        Err(_) => Err(GetServerInfoError::UnexpectedFormat),
    }
}

/// The bytes of `out` from `start` up to `end`.
fn slice_range(out: &[u8], start: usize, end: usize) -> (part: &[u8])
    requires
        start <= end <= out@.len(),
    ensures
        part@ == out@.subrange(start as int, end as int),
{
    &out[start..end]
}

} // verus!

verus! {

/// The last line a JAR prints for `--version`: `VERSION-BUILD`, then what follows from the
/// next dash on.
pub open spec fn version_line(v: Version, b: Build, rest: Seq<char>) -> Seq<char> {
    version_text(v) + "-"@ + decimal(b.0 as nat) + rest
}

/// Every character of `s` is a digit or a dot.
pub open spec fn digits_and_dots(s: Seq<char>) -> bool {
    forall|i: int| 0 <= i < s.len() ==> is_digit(#[trigger] s[i]) || s[i] == '.'
}

/// The text of a version without a release holds only digits and dots.
proof fn lemma_plain_version_text(v: Version)
    requires
        v.release is None,
    ensures
        digits_and_dots(version_text(v)),
        version_text(v).len() > 0,
{
    lemma_decimal_digits(v.major as nat);
    lemma_decimal_digits(v.minor as nat);
    lemma_decimal_digits(v.patch as nat);
    let patch = if v.patch > 0 {
        seq!['.'] + decimal(v.patch as nat)
    } else {
        Seq::<char>::empty()
    };
    assert(release_text(v.major, v.release) =~= Seq::<char>::empty());
    let t = version_text(v);
    assert(t =~= decimal(v.major as nat) + seq!['.'] + decimal(v.minor as nat) + patch);
    assert forall|i: int| 0 <= i < t.len() implies is_digit(#[trigger] t[i]) || t[i] == '.' by {
        let a = decimal(v.major as nat).len() as int;
        let m = decimal(v.minor as nat).len() as int;
        if i < a {
            assert(t[i] == decimal(v.major as nat)[i]);
        } else if i == a {
        } else if i < a + 1 + m {
            assert(t[i] == decimal(v.minor as nat)[i - a - 1]);
        } else if i == a + 1 + m {
        } else {
            assert(t[i] == decimal(v.patch as nat)[i - a - 2 - m]);
        }
    }
}

/// Where `s` holds no `c` from `i` up to `k` and a `c` at `k`, the first `c` from `i` on is
/// at `k`.
proof fn lemma_index_from_at(s: Seq<char>, c: char, i: int, k: int)
    requires
        0 <= i <= k < s.len(),
        s[k] == c,
        forall|j: int| i <= j < k ==> s[j] != c,
    ensures
        index_from(s, c, i) == Some(k),
    decreases k - i,
{
    if i < k {
        lemma_index_from_at(s, c, i + 1, k);
    }
}

/// Where `s` holds no `c` from `i` on, there is no `c` to find.
proof fn lemma_index_from_none(s: Seq<char>, c: char, i: int)
    requires
        0 <= i,
        forall|j: int| i <= j < s.len() ==> s[j] != c,
    ensures
        index_from(s, c, i) is None,
    decreases s.len() - i,
{
    if i < s.len() {
        lemma_index_from_none(s, c, i + 1);
    }
}

/// Where no line feed comes before `i`, the line that ends at `i` starts at the beginning.
proof fn lemma_line_start_zero(s: Seq<u8>, i: int)
    requires
        0 <= i <= s.len(),
        forall|j: int| 0 <= j < i ==> s[j] != line_feed(),
    ensures
        line_start(s, i) == 0,
    decreases i,
{
    if i > 0 {
        lemma_line_start_zero(s, i - 1);
    }
}

/// The text before the first dash of a line of digits and dots followed by a dash.
proof fn lemma_before_dash(head: Seq<char>, tail: Seq<char>)
    requires
        digits_and_dots(head),
    ensures
        before_first(head + "-"@ + tail, '-') == head,
        index_from(head + "-"@ + tail, '-', 0) == Some(head.len() as int),
{
    reveal_strlit("-");
    let s = head + "-"@ + tail;
    assert forall|j: int| 0 <= j < head.len() implies s[j] != '-' by {
        assert(s[j] == head[j]);
    }
    lemma_index_from_at(s, '-', 0, head.len() as int);
    assert(s.take(head.len() as int) =~= head);
}

/// Reading the characters of a version line gives the version and the build.
proof fn lemma_read_version_line(v: Version, b: Build, rest: Seq<char>)
    requires
        v.release is None,
        rest.len() == 0 || rest[0] == '-',
    ensures
        match index_from(version_line(v, b, rest), '-', 0) {
            Some(k) => read_version(before_first(version_line(v, b, rest), '-')) == Ok::<
                Version,
                InvalidVersionError,
            >(v) && parse_build(before_first(version_line(v, b, rest).skip(k + 1), '-')) == Some(
                b,
            ),
            None => false,
        },
{
    reveal_strlit("-");
    let vt = version_text(v);
    let bt = decimal(b.0 as nat);
    let line = version_line(v, b, rest);
    lemma_plain_version_text(v);
    lemma_parse_version_text(v);
    lemma_decimal_digits(b.0 as nat);
    crate::paper::build_number::law_build_text_round_trip(b);
    assert(line =~= vt + "-"@ + (bt + rest));
    lemma_before_dash(vt, bt + rest);
    let k = vt.len() as int;
    let after = line.skip(k + 1);
    assert(after =~= bt + rest);
    if rest.len() == 0 {
        assert forall|j: int| 0 <= j < after.len() implies after[j] != '-' by {
            assert(after[j] == bt[j]);
            assert(is_digit(bt[j]));
        }
        lemma_index_from_none(after, '-', 0);
    } else {
        assert forall|j: int| 0 <= j < bt.len() implies after[j] != '-' by {
            assert(after[j] == bt[j]);
            assert(is_digit(bt[j]));
        }
        lemma_index_from_at(after, '-', 0, bt.len() as int);
        assert(after.take(bt.len() as int) =~= bt);
    }
}

/// Reading back the output of a JAR whose last line is `VERSION-BUILD` (and what follows from
/// the next dash on) gives that version and build. Versions with a release part are left
/// out: their text holds a dash, at which the output is split.
pub proof fn law_server_info_round_trip(v: Version, b: Build, rest: Seq<char>)
    requires
        v.release is None,
        rest.len() == 0 || rest[0] == '-',
        is_ascii_chars(rest),
        !rest.contains('\n'),
    ensures
        server_info_spec(encode_utf8(version_line(v, b, rest)).push(line_feed())) == Ok::<
            (Version, Build),
            OutputFailure,
        >((v, b)),
{
    reveal_strlit("-");
    let text = version_line(v, b, rest);
    let vt = version_text(v);
    let bt = decimal(b.0 as nat);
    lemma_plain_version_text(v);
    lemma_decimal_digits(b.0 as nat);
    assert forall|i: int| 0 <= i < text.len() implies '\0' <= #[trigger] text[i] <= '\u{7f}' && text[i]
        != '\n' by {
        if i < vt.len() {
            assert(text[i] == vt[i]);
        } else if i == vt.len() {
        } else if i < vt.len() + 1 + bt.len() {
            assert(text[i] == bt[i - vt.len() - 1]);
            assert(is_digit(bt[i - vt.len() - 1]));
        } else {
            assert(text[i] == rest[i - vt.len() - 1 - bt.len()]);
        }
    }
    assert(is_ascii_chars(text));
    is_ascii_chars_encode_utf8(text);
    let bytes = encode_utf8(text);
    let out = bytes.push(line_feed());
    assert(out.drop_last() =~= bytes);
    assert forall|j: int| 0 <= j < bytes.len() implies bytes[j] != line_feed() by {
        assert(text[j] as u8 == bytes[j]);
    }
    lemma_line_start_zero(bytes, bytes.len() as int);
    assert(bytes.subrange(0, bytes.len() as int) =~= bytes);
    // The line as read: without a carriage return that ends it.
    let ends_cr = bytes.len() > 0 && bytes.last() == carriage_return();
    let t = if ends_cr {
        text.drop_last()
    } else {
        text
    };
    let rest2 = if ends_cr {
        rest.drop_last()
    } else {
        rest
    };
    if ends_cr {
        assert(text[text.len() - 1] as u8 == bytes[bytes.len() - 1]);
        if rest.len() == 0 {
            assert(text[text.len() - 1] == bt[bt.len() - 1]);
            assert(is_digit(bt[bt.len() - 1]));
        }
        assert(rest.len() > 0);
        assert(text.drop_last() =~= version_line(v, b, rest.drop_last()));
        assert(is_ascii_chars(t));
        is_ascii_chars_encode_utf8(t);
        assert(bytes.drop_last() =~= encode_utf8(t));
    } else {
        assert(bytes =~= encode_utf8(t));
    }
    assert(t == version_line(v, b, rest2));
    assert(last_line(out) == Some(encode_utf8(t)));
    encode_utf8_valid_utf8(t);
    encode_utf8_decode_utf8(t);
    lemma_read_version_line(v, b, rest2);
}

} // verus!
