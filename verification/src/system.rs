//! What the library learns from the machine it runs on: the time, fresh
//! identifiers, where programs and the home directory are.

use std::path::PathBuf;
use vstd::prelude::*;
use vstd::utf8::*;

verus! {

/// Whether `c` is a hexadecimal digit in lower case.
pub open spec fn is_hex_digit(c: char) -> bool {
    '0' <= c <= '9' || 'a' <= c <= 'f'
}

/// Whether `chars` is a random UUID in its hyphenated form: groups of 8, 4, 4, 4 and
/// 12 hexadecimal digits, the third group beginning with the version 4 and the fourth
/// with one of the digits that mark the RFC 9562 variant.
pub open spec fn is_random_uuid(chars: Seq<char>) -> bool {
    &&& chars.len() == 36
    &&& chars[8] == '-' && chars[13] == '-' && chars[18] == '-' && chars[23] == '-'
    &&& forall|i: int|
        0 <= i < 36 && i != 8 && i != 13 && i != 18 && i != 23 ==> is_hex_digit(#[trigger] chars[i])
    &&& chars[14] == '4'
    &&& chars[19] == '8' || chars[19] == '9' || chars[19] == 'a' || chars[19] == 'b'
}

/// `uuid::Uuid::new_v4`, as text. Every outcome is a random UUID in its hyphenated
/// form; which one is left to chance.
#[verifier::external_body]
fn new_uuid() -> (id: String)
    ensures
        is_random_uuid(id@),
{
    uuid::Uuid::new_v4().to_string()
}

/// Whether asking for a fresh identifier can give `id`.
pub closed spec fn is_fresh_id(id: Seq<char>) -> bool {
    exists|found: String| #[trigger] call_ensures(new_uuid, (), found) && found@ == id
}

/// A fresh identifier.
pub(crate) fn fresh_id() -> (id: String)
    ensures
        is_fresh_id(id@),
        is_random_uuid(id@),
{
    new_uuid()
}

/// Whether `c` is a decimal digit.
pub open spec fn is_digit(c: char) -> bool {
    '0' <= c <= '9'
}

/// Whether two digits stand at position `at`.
pub open spec fn two_digits_at(chars: Seq<char>, at: int) -> bool {
    is_digit(chars[at]) && is_digit(chars[at + 1])
}

/// Whether `chars` is a moment in UTC after ISO 8601 whose date ends before position
/// `at`: a year of at least four digits, with a sign where it has more, month and day,
/// then hours, minutes and seconds, and perhaps three, six or nine digits of a fraction.
pub open spec fn is_moment_with_time_at(chars: Seq<char>, at: int) -> bool {
    let fraction = chars.len() - at - 15;
    &&& at >= 10
    &&& at == 10 || chars[0] == '+' || chars[0] == '-'
    &&& forall|i: int| 0 <= i < at - 6 && (i > 0 || at == 10) ==> is_digit(#[trigger] chars[i])
    &&& chars[at - 6] == '-' && two_digits_at(chars, at - 5)
    &&& chars[at - 3] == '-' && two_digits_at(chars, at - 2)
    &&& chars[at] == 'T' && two_digits_at(chars, at + 1)
    &&& chars[at + 3] == ':' && two_digits_at(chars, at + 4)
    &&& chars[at + 6] == ':' && two_digits_at(chars, at + 7)
    &&& fraction == 0 || ((fraction == 4 || fraction == 7 || fraction == 10) && chars[at + 9] == '.')
    &&& forall|i: int| at + 10 <= i < at + 9 + fraction ==> is_digit(#[trigger] chars[i])
    &&& "+00:00"@.is_suffix_of(chars)
}

/// Whether `chars` is a moment in UTC after ISO 8601.
pub open spec fn is_moment(chars: Seq<char>) -> bool {
    exists|at: int| #[trigger] is_moment_with_time_at(chars, at)
}

/// `chrono::Utc::now`, as text by `to_rfc3339`. Every outcome is a moment in UTC after
/// ISO 8601; which one is left to the clock.
#[verifier::external_body]
fn utc_now() -> (timestamp: String)
    ensures
        is_moment(timestamp@),
{
    chrono::Utc::now().to_rfc3339()
}

/// Whether asking for the time can give `timestamp`.
pub closed spec fn is_present_moment(timestamp: Seq<char>) -> bool {
    exists|now: String| #[trigger] call_ensures(utc_now, (), now) && now@ == timestamp
}

/// The present moment.
pub(crate) fn utc_timestamp() -> (timestamp: String)
    ensures
        is_present_moment(timestamp@),
        is_moment(timestamp@),
{
    utc_now()
}

/// `std::time::SystemTime::elapsed` of the Unix epoch, in whole seconds; `None` on a
/// clock before the epoch. Nothing is promised of the number.
#[verifier::external_body]
fn seconds_since_epoch() -> (seconds: Option<u64>) {
    std::time::UNIX_EPOCH.elapsed().ok().map(|time| time.as_secs())
}

/// Whether asking for the time can give `seconds` since the Unix epoch; a clock before
/// the epoch counts as 0.
pub closed spec fn is_present_second(seconds: u64) -> bool {
    exists|found: Option<u64>| #[trigger]
        call_ensures(seconds_since_epoch, (), found) && seconds == (match found {
            Some(since) => since,
            None => 0,
        })
}

/// The time in seconds since the Unix epoch, or 0 on a clock before it.
pub(crate) fn unix_seconds() -> (seconds: u64)
    ensures
        is_present_second(seconds),
{
    let found: Option<u64> = seconds_since_epoch();
    match found {
        Some(since) => since,
        None => 0,
    }
}

/// `std::path::PathBuf`: a path, which need not be text.
#[verifier::external_type_specification]
#[verifier::external_body]
pub struct ExPathBuf(std::path::PathBuf);

/// A clone of a path is that path.
pub assume_specification[ <std::path::PathBuf as Clone>::clone ](path: &std::path::PathBuf) -> (copy:
    std::path::PathBuf)
    ensures
        copy == *path,
;

/// A path as text: what `std::path::Path::to_string_lossy` makes of it.
pub uninterp spec fn path_text(path: std::path::PathBuf) -> Seq<char>;

/// `std::path::Path::to_string_lossy`: the path as text, with replacement characters for what
/// is no text in it. The result depends on the path alone.
#[verifier::external_body]
fn to_string_lossy(path: &PathBuf) -> (text: String)
    ensures
        text@ == path_text(*path),
{
    path.to_string_lossy().into_owned()
}

/// The path of a program, and the path as text.
#[derive(Debug, PartialEq, Eq)]
pub struct ProgramPath {
    pub path: PathBuf,
    /// The path, with replacement characters for what is no text in it.
    pub text: String,
}

/// A `ProgramPath`, with its text as a sequence of characters.
pub struct ProgramPathView {
    pub path: PathBuf,
    pub text: Seq<char>,
}

impl DeepView for ProgramPath {
    type V = ProgramPathView;

    open spec fn deep_view(&self) -> ProgramPathView {
        ProgramPathView { path: self.path, text: self.text@ }
    }
}

/// A path, with its text.
pub open spec fn with_text(path: PathBuf) -> ProgramPathView {
    ProgramPathView { path, text: path_text(path) }
}

impl ProgramPath {
    /// A path, with its text.
    pub fn new(path: PathBuf) -> (program: Self)
        ensures
            program.deep_view() == with_text(path),
    {
        let text = to_string_lossy(&path);
        ProgramPath { path, text }
    }
}

impl Clone for ProgramPath {
    fn clone(&self) -> (copy: Self)
        ensures
            copy.deep_view() == self.deep_view(),
    {
        ProgramPath { path: self.path.clone(), text: self.text.clone() }
    }
}

/// `which::which`: the path of the executable that `name` stands for, or `None` where there
/// is none. It reads the search path and the disk, so nothing is promised of the result.
#[verifier::external_body]
fn which_program(name: &str) -> (program: Option<PathBuf>) {
    which::which(name).ok()
}

/// Whether a search of this machine for a program called `name` can give `program`, with the
/// text of its path.
pub closed spec fn is_found(name: Seq<char>, program: Option<ProgramPathView>) -> bool {
    exists|n: &str, found: Option<PathBuf>| #[trigger]
        call_ensures(which_program, (n,), found) && n@ == name && program == (match found {
            Some(path) => Some(with_text(path)),
            None => None,
        })
}

/// What is found on this machine has the text of its path.
pub proof fn found_text_is_the_paths(name: Seq<char>, program: ProgramPathView)
    requires
        is_found(name, Some(program)),
    ensures
        program.text == path_text(program.path),
{
}

/// Searches this machine for a program called `name`.
pub(crate) fn find_program(name: &str) -> (program: Option<ProgramPath>)
    ensures
        is_found(name@, program.deep_view()),
{
    let found = which_program(name);
    match found {
        Some(path) => Some(ProgramPath::new(path)),
        None => None,
    }
}

/// `std::path::PathBuf::from` on a text: the path of that text.
#[verifier::external_body]
pub(crate) fn path_from(text: &str) -> (path: PathBuf)
    ensures
        path_text(path) == text@,
{
    PathBuf::from(text)
}

/// `std::path::Path::join`: `base` with `part` behind it. What stands between them, and what
/// becomes of the separators in `part`, depends on the machine, so nothing is promised of the
/// result.
#[verifier::external_body]
fn join(base: &PathBuf, part: &str) -> (path: PathBuf) {
    base.join(part)
}

/// Whether joining `base` and `part` on this machine can give `path`.
pub closed spec fn is_joined(base: PathBuf, part: Seq<char>, path: PathBuf) -> bool {
    exists|b: &PathBuf, p: &str| #[trigger]
        call_ensures(join, (b, p), path) && *b == base && p@ == part
}

/// `base` with `part` behind it.
pub(crate) fn join_path(base: &PathBuf, part: &str) -> (path: PathBuf)
    ensures
        is_joined(*base, part@, path),
{
    join(base, part)
}

/// `directories::UserDirs::new` and `home_dir`: the user's home directory, or `None`
/// where there is none. It reads the environment, so nothing is promised of the result.
#[verifier::external_body]
fn user_home() -> (home: Option<PathBuf>) {
    directories::UserDirs::new().map(|dirs| dirs.home_dir().to_path_buf())
}

/// Whether asking for the user's home directory can give `home`.
pub closed spec fn is_home(home: Option<PathBuf>) -> bool {
    call_ensures(user_home, (), home)
}

/// The user's home directory, if there is one.
pub(crate) fn home_directory() -> (home: Option<PathBuf>)
    ensures
        is_home(home),
{
    user_home()
}

/// The text that `String::from_utf8_lossy` makes of `bytes`.
pub uninterp spec fn lossy_text(bytes: Seq<u8>) -> Seq<char>;

/// `String::from_utf8_lossy`: the text that `bytes` encode. Where they are no UTF-8,
/// replacement characters stand for what cannot be decoded. The result depends on
/// the bytes alone.
#[verifier::external_body]
pub(crate) fn decode_lossy(bytes: &[u8]) -> (text: String)
    ensures
        text@ == lossy_text(bytes@),
        valid_utf8(bytes@) ==> text@ == decode_utf8(bytes@),
{
    String::from_utf8_lossy(bytes).into_owned()
}

} // verus!
