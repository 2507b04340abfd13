//! The control protocol of the anonymizing network: the replies that its
//! control port gives, line by line.

use crate::text::{fields, join, joined, spells, split, strip, stripped, texts, trim_end, trimmed_end};
use std::convert::TryFrom;
use vstd::prelude::*;
use vstd::std_specs::convert::{FromSpecImpl, TryFromSpecImpl};
use vstd::string::StringExecFns;

verus! {

/// The version of the protocol's information that is asked for.
pub const PROTOCOL_INFO_VERSION: i32 = 1;

/// The length of the cookie by which a client shows who it is.
pub const COOKIE_LENGTH: usize = 32;

/// The length of the random number that a client sends as a challenge.
pub const NONCE_LENGTH: usize = 32;

/// An error of the standard library's input and output.
#[verifier::external_type_specification]
#[verifier::external_body]
pub struct ExIoError(std::io::Error);

#[derive(Clone, Copy, Debug, PartialEq, Eq, Structural)]
pub enum TCErrorKind {
    ResourceExhausted,
    SyntaxErrorProtocol,
    UnrecognizedCmd,
    UnimplementedCmd,
    SyntaxErrorCmdArg,
    UnrecognizedCmdArg,
    AuthRequired,
    BadAuth,
    UnspecifiedTorError,
    InternalError,
    UnrecognizedEntity,
    InvalidConfigValue,
    InvalidDescriptor,
    UnmanagedEntity,
}

#[derive(Debug)]
pub enum TCError {
    IoError(std::io::Error),
    UnknownResponse,
    CannotReadAuthCookie,
    TorError(TCErrorKind),
}

/// The kind of error that a status code of a reply stands for.
pub open spec fn kind_of(code: u32) -> Option<TCErrorKind> {
    if code == 451 {
        Some(TCErrorKind::ResourceExhausted)
    } else if code == 500 {
        Some(TCErrorKind::SyntaxErrorProtocol)
    } else if code == 510 {
        Some(TCErrorKind::UnrecognizedCmd)
    } else if code == 511 {
        Some(TCErrorKind::UnimplementedCmd)
    } else if code == 512 {
        Some(TCErrorKind::SyntaxErrorCmdArg)
    } else if code == 513 {
        Some(TCErrorKind::UnrecognizedCmdArg)
    } else if code == 514 {
        Some(TCErrorKind::AuthRequired)
    } else if code == 515 {
        Some(TCErrorKind::BadAuth)
    } else if code == 550 {
        Some(TCErrorKind::UnspecifiedTorError)
    } else if code == 551 {
        Some(TCErrorKind::InternalError)
    } else if code == 552 {
        Some(TCErrorKind::UnrecognizedEntity)
    } else if code == 553 {
        Some(TCErrorKind::InvalidConfigValue)
    } else if code == 554 {
        Some(TCErrorKind::InvalidDescriptor)
    } else if code == 555 {
        Some(TCErrorKind::UnmanagedEntity)
    } else {
        None
    }
}

impl TryFrom<u32> for TCErrorKind {
    type Error = ();

    fn try_from(code: u32) -> (kind: Result<Self, ()>) {
        match code {
            451 => Ok(TCErrorKind::ResourceExhausted),
            500 => Ok(TCErrorKind::SyntaxErrorProtocol),
            510 => Ok(TCErrorKind::UnrecognizedCmd),
            511 => Ok(TCErrorKind::UnimplementedCmd),
            512 => Ok(TCErrorKind::SyntaxErrorCmdArg),
            513 => Ok(TCErrorKind::UnrecognizedCmdArg),
            514 => Ok(TCErrorKind::AuthRequired),
            515 => Ok(TCErrorKind::BadAuth),
            550 => Ok(TCErrorKind::UnspecifiedTorError),
            551 => Ok(TCErrorKind::InternalError),
            552 => Ok(TCErrorKind::UnrecognizedEntity),
            553 => Ok(TCErrorKind::InvalidConfigValue),
            554 => Ok(TCErrorKind::InvalidDescriptor),
            555 => Ok(TCErrorKind::UnmanagedEntity),
            _ => Err(()),
        }
    }
}

impl TryFromSpecImpl<u32> for TCErrorKind {
    open spec fn obeys_try_from_spec() -> bool {
        true
    }

    open spec fn try_from_spec(code: u32) -> Result<Self, ()> {
        match kind_of(code) {
            Some(kind) => Ok(kind),
            None => Err(()),
        }
    }
}

impl From<std::io::Error> for TCError {
    fn from(err: std::io::Error) -> (error: TCError) {
        TCError::IoError(err)
    }
}

impl FromSpecImpl<std::io::Error> for TCError {
    open spec fn obeys_from_spec() -> bool {
        true
    }

    open spec fn from_spec(err: std::io::Error) -> TCError {
        TCError::IoError(err)
    }
}

/// What the control port says of itself.
#[derive(Debug, PartialEq)]
pub struct ProtocolInfo {
    pub cookiefile: String,
    pub auth_methods: Vec<String>,
    pub tor_version: String,
}

/// A control connection that has shown who it is.
pub trait AuthenticatedTorControl {

}

/// The value of a decimal digit.
pub open spec fn digit_value(c: char) -> Option<u32> {
    if c == '0' {
        Some(0u32)
    } else if c == '1' {
        Some(1u32)
    } else if c == '2' {
        Some(2u32)
    } else if c == '3' {
        Some(3u32)
    } else if c == '4' {
        Some(4u32)
    } else if c == '5' {
        Some(5u32)
    } else if c == '6' {
        Some(6u32)
    } else if c == '7' {
        Some(7u32)
    } else if c == '8' {
        Some(8u32)
    } else if c == '9' {
        Some(9u32)
    } else {
        None
    }
}

fn digit(c: char) -> (value: Option<u32>)
    ensures
        value == digit_value(c),
        value matches Some(v) ==> v <= 9,
{
    match c {
        '0' => Some(0),
        '1' => Some(1),
        '2' => Some(2),
        '3' => Some(3),
        '4' => Some(4),
        '5' => Some(5),
        '6' => Some(6),
        '7' => Some(7),
        '8' => Some(8),
        '9' => Some(9),
        _ => None,
    }
}

/// The status code at the start of a line: its first three characters read
/// as a number, which is three digits, or a plus sign and two digits.
pub open spec fn status_of(line: Seq<char>) -> Option<u32> {
    match (digit_value(line[1]), digit_value(line[2])) {
        (Some(tens), Some(ones)) => match digit_value(line[0]) {
            Some(hundreds) => Some((100 * hundreds + 10 * tens + ones) as u32),
            None => if line[0] == '+' {
                Some((10 * tens + ones) as u32)
            } else {
                None
            },
        },
        _ => None,
    }
}

/// Whether a line is the last of its reply, as its fourth character tells:
/// a space ends the reply, a plus or a minus sign says that more follows.
pub open spec fn last_of(line: Seq<char>) -> Option<bool> {
    if line[3] == ' ' {
        Some(true)
    } else if line[3] == '+' || line[3] == '-' {
        Some(false)
    } else {
        None
    }
}

pub fn is_last_line(line: &Vec<char>) -> (last: Result<bool, TCError>)
    requires
        line@.len() >= 4,
    ensures
        last == match last_of(line@) {
            Some(last) => Ok::<bool, TCError>(last),
            None => Err::<bool, TCError>(TCError::UnknownResponse),
        },
{
    // Act upon separator:
    match line[3] {
        // Meaning: this is the last line to read.
        ' ' => Ok(true),
        // We have more lines to read.
        '+' | '-' => Ok(false),
        _ => Err(TCError::UnknownResponse),
    }
}

pub fn parse_status(line: &Vec<char>) -> (status: Result<u32, TCError>)
    requires
        line@.len() >= 3,
    ensures
        status == match status_of(line@) {
            Some(status) => Ok::<u32, TCError>(status),
            None => Err::<u32, TCError>(TCError::UnknownResponse),
        },
{
    let tens = match digit(line[1]) {
        Some(tens) => tens,
        None => {
            return Err(TCError::UnknownResponse);
        },
    };
    let ones = match digit(line[2]) {
        Some(ones) => ones,
        None => {
            return Err(TCError::UnknownResponse);
        },
    };
    match digit(line[0]) {
        Some(hundreds) => Ok(100 * hundreds + 10 * tens + ones),
        None => if line[0] == '+' {
            Ok(10 * tens + ones)
        } else {
            Err(TCError::UnknownResponse)
        },
    }
}

/// What a line of a reply holds: its status code, whether it is the last
/// line, and the text after its first four characters. A line of less than
/// four characters holds nothing.
pub open spec fn line_of(line: Seq<char>) -> Option<(u32, bool, Seq<char>)> {
    if line.len() < 4 {
        None
    } else {
        match (status_of(line), last_of(line)) {
            (Some(status), Some(last)) => Some((status, last, line.skip(4))),
            _ => None,
        }
    }
}

/// Whether what was parsed of a line is what the line holds.
pub open spec fn parsed_is(parsed: Result<(u32, bool, Vec<char>), TCError>, line: Seq<char>) -> bool {
    match line_of(line) {
        Some((status, last, msg)) => match parsed {
            Ok((found_status, found_last, found_msg)) => found_status == status && found_last
                == last && found_msg@ == msg,
            Err(_) => false,
        },
        None => parsed == Err::<(u32, bool, Vec<char>), TCError>(TCError::UnknownResponse),
    }
}

pub fn parse_line(line: &Vec<char>) -> (parsed: Result<(u32, bool, Vec<char>), TCError>)
    ensures
        parsed_is(parsed, line@),
{
    // Make sure we have at least 3 (status) + 1 (sep) characters.
    if line.len() < 4 {
        return Err(TCError::UnknownResponse);
    }
    let status = match parse_status(line) {
        Ok(status) => status,
        Err(error) => {
            return Err(error);
        },
    };
    let is_last_line = match is_last_line(line) {
        Ok(last) => last,
        Err(error) => {
            return Err(error);
        },
    };
    let mut msg: Vec<char> = Vec::new();
    let mut at: usize = 4;
    while at < line.len()
        invariant
            4 <= at <= line@.len(),
            msg@ == line@.subrange(4, at as int),
        decreases line@.len() - at,
    {
        msg.push(line[at]);
        at = at + 1;
        assert(msg@ =~= line@.subrange(4, at as int));
    }
    assert(msg@ =~= line@.skip(4));
    Ok((status, is_last_line, msg))
}

/// The error that a status code stands for, if it stands for one: 250 and
/// 251 say that all went well.
pub open spec fn refusal(status: u32) -> Option<TCError> {
    if status == 250 || status == 251 {
        None
    } else {
        match kind_of(status) {
            Some(kind) => Some(TCError::TorError(kind)),
            None => Some(TCError::UnknownResponse),
        }
    }
}

pub fn handle_code(status: u32) -> (handled: Result<(), TCError>)
    ensures
        handled == match refusal(status) {
            Some(error) => Err::<(), TCError>(error),
            None => Ok::<(), TCError>(()),
        },
{
    match status {
        250 | 251 => Ok(()),
        status => match TCErrorKind::try_from(status) {
            Ok(kind) => Err(TCError::TorError(kind)),
            Err(_) => Err(TCError::UnknownResponse),
        },
    }
}

/// The reply that stands in some lines from the line `at` on, after `got`
/// was taken from the lines before: the texts of the lines up to the first
/// that says it is the last, each without the white space at its end. There
/// is an error where a line is none, where its status code stands for an
/// error, or where the lines end before the reply does.
pub open spec fn reply_from(lines: Seq<Seq<char>>, at: nat, got: Seq<Seq<char>>) -> Result<
    Seq<Seq<char>>,
    TCError,
>
    decreases lines.len() - at,
{
    if at >= lines.len() {
        Err(TCError::UnknownResponse)
    } else {
        match line_of(lines[at as int]) {
            None => Err(TCError::UnknownResponse),
            Some((status, last, msg)) => match refusal(status) {
                Some(error) => Err(error),
                None => if last {
                    Ok(got.push(trimmed_end(msg)))
                } else {
                    reply_from(lines, at + 1, got.push(trimmed_end(msg)))
                },
            },
        }
    }
}

/// Whether what was read of some lines is the reply that stands in them.
pub open spec fn reply_is(read: Result<Vec<Vec<char>>, TCError>, lines: Seq<Seq<char>>) -> bool {
    match reply_from(lines, 0, Seq::empty()) {
        Ok(reply) => match read {
            Ok(found) => texts(found@) == reply,
            Err(_) => false,
        },
        Err(error) => read == Err::<Vec<Vec<char>>, TCError>(error),
    }
}

/// The reply that stands in the lines that were read from the control
/// port.
pub fn read_lines(lines: &Vec<Vec<char>>) -> (read: Result<Vec<Vec<char>>, TCError>)
    ensures
        reply_is(read, texts(lines@)),
{
    let mut rls: Vec<Vec<char>> = Vec::new();
    let mut at: usize = 0;
    assert(texts(rls@) =~= Seq::<Seq<char>>::empty());
    while at < lines.len()
        invariant
            at <= lines@.len(),
            reply_from(texts(lines@), 0, Seq::empty()) == reply_from(
                texts(lines@),
                at as nat,
                texts(rls@),
            ),
        decreases lines@.len() - at,
    {
        let ghost before = texts(rls@);
        assert(texts(lines@)[at as int] == lines@[at as int]@);
        let (status, end, msg) = match parse_line(&lines[at]) {
            Ok(parsed) => parsed,
            Err(error) => {
                return Err(error);
            },
        };
        match handle_code(status) {
            Ok(_) => {},
            Err(error) => {
                return Err(error);
            },
        }
        rls.push(trim_end(&msg, 0));
        proof {
            assert(msg@.skip(0) =~= msg@);
            assert(texts(rls@) =~= before.push(trimmed_end(msg@)));
        }
        if end {
            return Ok(rls);
        }
        at = at + 1;
    }
    Err(TCError::UnknownResponse)
}

/// What was gathered of the control port's information so far.
pub struct InfoModel {
    pub cookiefile: Seq<char>,
    pub auth_methods: Seq<char>,
    pub tor_version: Seq<char>,
}

impl InfoModel {
    /// What is gathered after one more section of the reply: a section of
    /// the form `KEY=value` sets what its key names.
    pub open spec fn with(self, section: Seq<char>) -> InfoModel {
        let halves = fields(section, '=');
        if halves.len() != 2 {
            self
        } else if halves[0] == "COOKIEFILE"@ {
            InfoModel { cookiefile: halves[1], ..self }
        } else if halves[0] == "METHODS"@ {
            InfoModel { auth_methods: halves[1], ..self }
        } else if halves[0] == "Tor"@ {
            InfoModel { tor_version: halves[1], ..self }
        } else {
            self
        }
    }

    /// What is gathered after the first `count` sections.
    pub open spec fn with_all(self, sections: Seq<Seq<char>>, count: nat) -> InfoModel
        decreases count,
    {
        if count == 0 {
            self
        } else {
            self.with_all(sections, (count - 1) as nat).with(sections[count - 1])
        }
    }
}

/// What the control port says of itself, as plain values.
pub struct ProtocolInfoModel {
    pub cookiefile: Seq<char>,
    pub auth_methods: Seq<Seq<char>>,
    pub tor_version: Seq<char>,
}

/// The texts of some strings.
pub open spec fn string_views(strings: Seq<String>) -> Seq<Seq<char>> {
    Seq::new(strings.len(), |i: int| strings[i]@)
}

impl View for ProtocolInfo {
    type V = ProtocolInfoModel;

    open spec fn view(&self) -> ProtocolInfoModel {
        ProtocolInfoModel {
            cookiefile: self.cookiefile@,
            auth_methods: string_views(self.auth_methods@),
            tor_version: self.tor_version@,
        }
    }
}

/// What a reply says of the control port: the reply's lines are put in a
/// row and cut at the spaces, and the sections gathered. The file of the
/// cookie and the version stand between quotes, which are taken off; the
/// methods are cut at the commas.
pub open spec fn info_in(reply: Seq<Seq<char>>) -> ProtocolInfoModel {
    let sections = fields(joined(reply, ' ', reply.len()), ' ');
    let gathered = (InfoModel {
        cookiefile: Seq::empty(),
        auth_methods: Seq::empty(),
        tor_version: Seq::empty(),
    }).with_all(sections, sections.len());
    ProtocolInfoModel {
        cookiefile: stripped(gathered.cookiefile, '"'),
        auth_methods: fields(gathered.auth_methods, ','),
        tor_version: stripped(gathered.tor_version, '"'),
    }
}

/// The command that asks the control port about itself.
pub fn protocol_info_command() -> (command: String)
    ensures
        command@ == "PROTOCOLINFO 1"@,
{
    String::from_str("PROTOCOLINFO 1")
}

/// What the reply to the command that asks the control port about itself
/// says.
pub fn protocol_info(reply: &Vec<Vec<char>>) -> (info: ProtocolInfo)
    ensures
        info@ == info_in(texts(reply@)),
{
    let response = join(reply, ' ');
    let sections = split(&response, ' ');
    let mut cookiefile: Vec<char> = Vec::new();
    let mut auth_methods: Vec<char> = Vec::new();
    let mut tor_version: Vec<char> = Vec::new();
    let ghost start = InfoModel {
        cookiefile: Seq::empty(),
        auth_methods: Seq::empty(),
        tor_version: Seq::empty(),
    };
    let mut at: usize = 0;
    while at < sections.len()
        invariant
            at <= sections@.len(),
            (InfoModel {
                cookiefile: cookiefile@,
                auth_methods: auth_methods@,
                tor_version: tor_version@,
            }) == start.with_all(texts(sections@), at as nat),
        decreases sections@.len() - at,
    {
        assert(texts(sections@)[at as int] == sections@[at as int]@);
        let mut halves = split(&sections[at], '=');
        if halves.len() == 2 {
            assert(texts(halves@)[0] == halves@[0]@);
            assert(texts(halves@)[1] == halves@[1]@);
            let value = halves.pop().unwrap();
            let key = &halves[0];
            if spells(key, "COOKIEFILE") {
                cookiefile = value;
            } else if spells(key, "METHODS") {
                auth_methods = value;
            } else if spells(key, "Tor") {
                tor_version = value;
            }
        }
        at = at + 1;
    }
    let methods = split(&auth_methods, ',');
    let mut names: Vec<String> = Vec::new();
    let mut i: usize = 0;
    while i < methods.len()
        invariant
            i <= methods@.len(),
            names@.len() == i,
            forall|j: int| 0 <= j < i ==> (#[trigger] names@[j])@ == methods@[j]@,
        decreases methods@.len() - i,
    {
        let method = &methods[i];
        let name = crate::text::string_of(method, 0, method.len());
        assert(method@.subrange(0, method@.len() as int) =~= method@);
        names.push(name);
        i = i + 1;
    }
    let info = ProtocolInfo {
        cookiefile: strip(&cookiefile, '"'),
        auth_methods: names,
        tor_version: strip(&tor_version, '"'),
    };
    assert(string_views(info.auth_methods@) =~= texts(methods@));
    info
}

/// The cookie that was read from its file, where it has the length of one.
pub fn check_auth_cookie(file_content: Vec<u8>) -> (cookie: Result<Vec<u8>, TCError>)
    ensures
        cookie == if file_content@.len() == COOKIE_LENGTH {
            Ok::<Vec<u8>, TCError>(file_content)
        } else {
            Err::<Vec<u8>, TCError>(TCError::CannotReadAuthCookie)
        },
{
    if file_content.len() != COOKIE_LENGTH {
        Err(TCError::CannotReadAuthCookie)
    } else {
        Ok(file_content)
    }
}

/// The character of a hexadecimal digit, in lower case.
pub open spec fn hex_digit(value: nat) -> char {
    if value == 0 {
        '0'
    } else if value == 1 {
        '1'
    } else if value == 2 {
        '2'
    } else if value == 3 {
        '3'
    } else if value == 4 {
        '4'
    } else if value == 5 {
        '5'
    } else if value == 6 {
        '6'
    } else if value == 7 {
        '7'
    } else if value == 8 {
        '8'
    } else if value == 9 {
        '9'
    } else if value == 10 {
        'a'
    } else if value == 11 {
        'b'
    } else if value == 12 {
        'c'
    } else if value == 13 {
        'd'
    } else if value == 14 {
        'e'
    } else {
        'f'
    }
}

/// Bytes in hexadecimal: two digits to a byte, the higher first.
pub open spec fn hex_of(bytes: Seq<u8>) -> Seq<char>
    decreases bytes.len(),
{
    if bytes.len() == 0 {
        Seq::empty()
    } else {
        hex_of(bytes.drop_last()).push(hex_digit((bytes.last() / 16) as nat)).push(
            hex_digit((bytes.last() % 16) as nat),
        )
    }
}

/// Bytes in hexadecimal: `encode` of the crate `hex`, which writes each
/// byte as two digits in lower case.
#[verifier::external_body]
fn hex_encode(bytes: &Vec<u8>) -> (text: String)
    ensures
        text@ == hex_of(bytes@),
{
    hex::encode(bytes)
}

/// Random bytes for a challenge: `random` of the crate `rand`. Of the bytes
/// themselves nothing can be said.
#[verifier::external_body]
fn random_nonce() -> (nonce: Vec<u8>)
    ensures
        nonce@.len() == NONCE_LENGTH,
{
    rand::random::<[u8; NONCE_LENGTH]>().to_vec()
}

/// The command that challenges the control port with the given bytes.
pub fn auth_challenge_command(nonce: &Vec<u8>) -> (command: String)
    ensures
        command@ == "AUTHCHALLENGE SAFECOOKIE "@ + hex_of(nonce@),
{
    let hex = hex_encode(nonce);
    String::from_str("AUTHCHALLENGE SAFECOOKIE ").concat(hex.as_str())
}

/// The command that challenges the control port with random bytes.
pub fn authenticate() -> (command: String)
    ensures
        exists|nonce: Seq<u8>|
            nonce.len() == NONCE_LENGTH && command@ == "AUTHCHALLENGE SAFECOOKIE "@ + #[trigger] hex_of(
                nonce,
            ),
{
    let nonce = random_nonce();
    auth_challenge_command(&nonce)
}

} // verus!
