//! What is asked of a remote host, and what its answers mean: which distribution it
//! runs, where that distribution keeps its authentication log, and the lines of a
//! command's output.

use crate::text::{
    chars_of, lines_of, occurs_at, occurs_at_index, string_from_chars, text_lines, texts,
};
use vstd::prelude::*;
use vstd::utf8::{decode_utf8, valid_utf8};

verus! {

/// Where Debian and the distributions that derive from it keep the authentication log.
pub const DEBIAN_AUTH_LOG_PATH: &'static str = "/var/log/auth.log";

/// Where Red Hat and the distributions that derive from it keep the authentication log.
pub const REDHAT_AUTH_LOG_PATH: &'static str = "/var/log/secure";

/// Why the log of a remote host could not be read.
#[derive(Debug, Clone, Copy, PartialEq, Eq, Structural)]
pub enum RemoteLogError {
    /// The user may not read the log, and `sudo` cannot be used: it asks for a password
    /// and none was given.
    LogNotReadable,
    /// The host does not say which distribution it runs, or it runs one whose log is
    /// kept in a place that is not known.
    UnsupportedDistro,
    /// The password could not be handed to `sudo` on its standard input.
    SudoStdin,
    /// The host could not be reached, or a command could not be run on it.
    Connection,
    /// A command answered with bytes that are no text.
    Decode,
}

impl RemoteLogError {
    /// What the error says to a reader.
    pub open spec fn spec_message(self) -> Seq<char> {
        match self {
            RemoteLogError::LogNotReadable => "Log file is not readable by user and sudo is not available"@,
            RemoteLogError::UnsupportedDistro => "Unsupported distribution"@,
            RemoteLogError::SudoStdin => "Failed to open stdin for sudo"@,
            RemoteLogError::Connection => "Could not reach the host or run a command on it"@,
            RemoteLogError::Decode => "The host answered with bytes that are not UTF-8 text"@,
        }
    }

    /// What the error says to a reader.
    pub fn message(&self) -> (s: String)
        ensures
            s@ == self.spec_message(),
    {
        match self {
            RemoteLogError::LogNotReadable => "Log file is not readable by user and sudo is not available".to_owned(),
            RemoteLogError::UnsupportedDistro => "Unsupported distribution".to_owned(),
            RemoteLogError::SudoStdin => "Failed to open stdin for sudo".to_owned(),
            RemoteLogError::Connection => "Could not reach the host or run a command on it".to_owned(),
            RemoteLogError::Decode => "The host answered with bytes that are not UTF-8 text".to_owned(),
        }
    }
}

/// The families of distributions, by where they keep the authentication log.
#[derive(Debug, Clone, Copy, PartialEq, Eq, Structural)]
pub enum LogFamily {
    Debian,
    RedHat,
}

/// The key of the line of `/etc/os-release` that names the distribution, with its
/// equals sign.
pub open spec fn id_key() -> Seq<char> {
    "ID="@
}

/// The first of the lines that starts with the key of the distribution's name.
pub open spec fn first_id_line(lines: Seq<Seq<char>>) -> Option<Seq<char>>
    decreases lines.len(),
{
    if lines.len() == 0 {
        None
    } else if occurs_at(lines[0], id_key(), 0) {
        Some(lines[0])
    } else {
        first_id_line(lines.drop_first())
    }
}

/// `s` without the occurrences of `pat`, found from left to right, none overlapping
/// the one before.
pub open spec fn without_pattern(s: Seq<char>, pat: Seq<char>) -> Seq<char>
    decreases s.len(),
{
    if s.len() == 0 {
        s
    } else if pat.len() > 0 && occurs_at(s, pat, 0) {
        without_pattern(s.subrange(pat.len() as int, s.len() as int), pat)
    } else {
        seq![s[0]] + without_pattern(s.drop_first(), pat)
    }
}

/// Whether `c` is a double or a single quote.
pub open spec fn is_quote(c: char) -> bool {
    c == '"' || c == '\''
}

/// `s` without its quotes.
pub open spec fn without_quotes(s: Seq<char>) -> Seq<char> {
    s.filter(|c: char| !is_quote(c))
}

/// The name of the distribution that the contents of `/etc/os-release` give: what is
/// left of the first line that starts with `ID=` when the key and the quotes are taken
/// out of it.
pub open spec fn distribution_id(contents: Seq<char>) -> Option<Seq<char>> {
    match first_id_line(lines_of(contents)) {
        Some(line) => Some(without_quotes(without_pattern(line, id_key()))),
        None => None,
    }
}

/// The family of the distribution of a given name.
pub open spec fn family_of(distribution: Seq<char>) -> Option<LogFamily> {
    if distribution == "debian"@ || distribution == "ubuntu"@ {
        Some(LogFamily::Debian)
    } else if distribution == "centos"@ || distribution == "rhel"@ {
        Some(LogFamily::RedHat)
    } else {
        None
    }
}

impl LogFamily {
    /// Where the family keeps the authentication log.
    pub open spec fn spec_log_path(self) -> Seq<char> {
        match self {
            LogFamily::Debian => DEBIAN_AUTH_LOG_PATH@,
            LogFamily::RedHat => REDHAT_AUTH_LOG_PATH@,
        }
    }

    /// Where the family keeps the authentication log.
    pub fn log_path(self) -> (path: String)
        ensures
            path@ == self.spec_log_path(),
    {
        match self {
            LogFamily::Debian => DEBIAN_AUTH_LOG_PATH.to_owned(),
            LogFamily::RedHat => REDHAT_AUTH_LOG_PATH.to_owned(),
        }
    }
}

/// The text that bytes encode, where they are UTF-8.
pub open spec fn decoded(bytes: Seq<u8>) -> Result<Seq<char>, RemoteLogError> {
    if valid_utf8(bytes) {
        Ok(decode_utf8(bytes))
    } else {
        Err(RemoteLogError::Decode)
    }
}

/// The name of the distribution that the output of `cat /etc/os-release` gives.
pub open spec fn distribution_in(output: Seq<u8>) -> Result<Seq<char>, RemoteLogError> {
    match decoded(output) {
        Ok(contents) => match distribution_id(contents) {
            Some(name) => Ok(name),
            None => Err(RemoteLogError::UnsupportedDistro),
        },
        Err(e) => Err(e),
    }
}

/// The family of the distribution that the output of `cat /etc/os-release` gives.
pub open spec fn family_in(output: Seq<u8>) -> Result<LogFamily, RemoteLogError> {
    match distribution_in(output) {
        Ok(name) => match family_of(name) {
            Some(family) => Ok(family),
            None => Err(RemoteLogError::UnsupportedDistro),
        },
        Err(e) => Err(e),
    }
}

/// The lines of the text that the output of a command encodes.
pub open spec fn output_lines(output: Seq<u8>) -> Result<Seq<Seq<char>>, RemoteLogError> {
    match decoded(output) {
        Ok(contents) => Ok(lines_of(contents)),
        Err(e) => Err(e),
    }
}

/// Decodes bytes with `String::from_utf8`, which the standard library documents as
/// giving the string of those bytes where they are valid UTF-8, and an error where they
/// are not.
#[verifier::external_body]
pub(crate) fn decode_text(bytes: Vec<u8>) -> (r: Option<String>)
    ensures
        r is Some <==> valid_utf8(bytes@),
        r matches Some(s) ==> s@ == decode_utf8(bytes@),
{
    String::from_utf8(bytes).ok()
}

/// The text that bytes encode, or the error that says they encode none.
pub fn decode(bytes: Vec<u8>) -> (r: Result<String, RemoteLogError>)
    ensures
        match r {
            Ok(s) => decoded(bytes@) == Ok::<Seq<char>, RemoteLogError>(s@),
            Err(e) => decoded(bytes@) == Err::<Seq<char>, RemoteLogError>(e),
        },
{
    match decode_text(bytes) {
        Some(s) => Ok(s),
        None => Err(RemoteLogError::Decode),
    }
}

/// Whether two texts are the same.
pub fn same_text(a: &[char], b: &[char]) -> (r: bool)
    ensures
        r == (a@ == b@),
{
    if a.len() != b.len() {
        return false;
    }
    let r = occurs_at_index(a, b, 0);
    assert(a@.subrange(0, a.len() as int) =~= a@);
    r
}

/// `s` without the occurrences of `pat`.
pub fn remove_pattern(s: &[char], pat: &[char]) -> (r: Vec<char>)
    ensures
        r@ == without_pattern(s@, pat@),
{
    let mut r: Vec<char> = Vec::new();
    let mut i: usize = 0;
    assert(s@.subrange(0, s.len() as int) =~= s@);
    while i < s.len()
        invariant
            i <= s.len(),
            r@ + without_pattern(s@.subrange(i as int, s.len() as int), pat@) == without_pattern(
                s@,
                pat@,
            ),
        decreases s.len() - i,
    {
        let ghost rest = s@.subrange(i as int, s.len() as int);
        let ghost before = r@;
        let found = pat.len() > 0 && occurs_at_index(s, pat, i);
        proof {
            if i + pat.len() <= s.len() {
                assert(rest.subrange(0, pat.len() as int) =~= s@.subrange(
                    i as int,
                    i + pat.len(),
                ));
            }
        }
        if found {
            assert(rest.subrange(pat.len() as int, rest.len() as int) =~= s@.subrange(
                i + pat.len(),
                s.len() as int,
            ));
            i += pat.len();
        } else {
            r.push(s[i]);
            assert(rest.drop_first() =~= s@.subrange(i + 1, s.len() as int));
            assert(r@ + without_pattern(rest.drop_first(), pat@) =~= before + (seq![rest[0]]
                + without_pattern(rest.drop_first(), pat@)));
            i += 1;
        }
    }
    assert(s@.subrange(s.len() as int, s.len() as int) =~= Seq::<char>::empty());
    assert(r@ + Seq::<char>::empty() =~= r@);
    r
}

/// `s` without its quotes.
pub fn remove_quotes(s: &[char]) -> (r: Vec<char>)
    ensures
        r@ == without_quotes(s@),
{
    let mut r: Vec<char> = Vec::new();
    let mut i: usize = 0;
    proof {
        reveal(Seq::filter);
    }
    while i < s.len()
        invariant
            i <= s.len(),
            r@ == without_quotes(s@.take(i as int)),
        decreases s.len() - i,
    {
        proof {
            reveal(Seq::filter);
            assert(s@.take(i + 1).drop_last() =~= s@.take(i as int));
        }
        let c = s[i];
        if !(c == '"' || c == '\'') {
            r.push(c);
        }
        i += 1;
    }
    assert(s@.take(s.len() as int) =~= s@);
    r
}

/// The name of the distribution that the contents of `/etc/os-release` give.
pub fn find_distribution(contents: &str) -> (r: Option<String>)
    ensures
        match r {
            Some(name) => distribution_id(contents@) == Some(name@),
            None => distribution_id(contents@) is None,
        },
{
    let lines = text_lines(contents);
    let key = chars_of("ID=");
    let mut i: usize = 0;
    assert(texts(lines@).subrange(0, lines.len() as int) =~= texts(lines@));
    while i < lines.len()
        invariant
            i <= lines.len(),
            key@ == id_key(),
            texts(lines@) == lines_of(contents@),
            first_id_line(texts(lines@)) == first_id_line(
                texts(lines@).subrange(i as int, lines.len() as int),
            ),
        decreases lines.len() - i,
    {
        let ghost rest = texts(lines@).subrange(i as int, lines.len() as int);
        let line = chars_of(lines[i].as_str());
        assert(rest[0] == line@);
        if occurs_at_index(line.as_slice(), key.as_slice(), 0) {
            let bare = remove_pattern(line.as_slice(), key.as_slice());
            let name = remove_quotes(bare.as_slice());
            return Some(string_from_chars(name.as_slice()));
        }
        assert(rest.drop_first() =~= texts(lines@).subrange(i + 1, lines.len() as int));
        i += 1;
    }
    None
}

/// The family of the distribution of a given name.
pub fn find_family(distribution: &str) -> (r: Option<LogFamily>)
    ensures
        r == family_of(distribution@),
{
    let name = chars_of(distribution);
    let debian = chars_of("debian");
    let ubuntu = chars_of("ubuntu");
    let centos = chars_of("centos");
    let rhel = chars_of("rhel");
    if same_text(name.as_slice(), debian.as_slice()) || same_text(
        name.as_slice(),
        ubuntu.as_slice(),
    ) {
        Some(LogFamily::Debian)
    } else if same_text(name.as_slice(), centos.as_slice()) || same_text(
        name.as_slice(),
        rhel.as_slice(),
    ) {
        Some(LogFamily::RedHat)
    } else {
        None
    }
}

/// The name of the distribution of a host, from the output of `cat /etc/os-release`
/// on it.
pub fn check_distribution(output: Vec<u8>) -> (r: Result<String, RemoteLogError>)
    ensures
        match r {
            Ok(name) => distribution_in(output@) == Ok::<Seq<char>, RemoteLogError>(name@),
            Err(e) => distribution_in(output@) == Err::<Seq<char>, RemoteLogError>(e),
        },
{
    let contents = decode(output)?;
    match find_distribution(contents.as_str()) {
        Some(name) => Ok(name),
        None => Err(RemoteLogError::UnsupportedDistro),
    }
}

/// The family of the distribution of a host, from the output of `cat /etc/os-release`
/// on it.
pub fn check_family(output: Vec<u8>) -> (r: Result<LogFamily, RemoteLogError>)
    ensures
        r == family_in(output@),
{
    let name = check_distribution(output)?;
    match find_family(name.as_str()) {
        Some(family) => Ok(family),
        None => Err(RemoteLogError::UnsupportedDistro),
    }
}

/// Where a host keeps its authentication log, from the output of `cat /etc/os-release`
/// on it.
pub fn get_log_path(output: Vec<u8>) -> (r: Result<String, RemoteLogError>)
    ensures
        match r {
            Ok(path) => family_in(output@) matches Ok(family) && path@ == family.spec_log_path(),
            Err(e) => family_in(output@) == Err::<LogFamily, RemoteLogError>(e),
        },
{
    let family = check_family(output)?;
    Ok(family.log_path())
}

/// The lines of the output of a command.
pub fn parse_output(output: Vec<u8>) -> (r: Result<Vec<String>, RemoteLogError>)
    ensures
        match r {
            Ok(lines) => output_lines(output@) == Ok::<Seq<Seq<char>>, RemoteLogError>(
                texts(lines@),
            ),
            Err(e) => output_lines(output@) == Err::<Seq<Seq<char>>, RemoteLogError>(e),
        },
{
    let contents = decode(output)?;
    Ok(text_lines(contents.as_str()))
}

} // verus!
