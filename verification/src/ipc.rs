//! Inter-process communication between the CLI and a running GUI instance.
//!
//! The protocol is JSON Lines over a local TCP socket: one request object
//! per connection, answered by one response object. The server writes its
//! port and a per-process token to a port file; clients read that file and
//! send the token with each request. This module holds the protocol's error
//! model and response envelope, the port-file format, request admission and
//! command routing. Sockets, files and JSON encoding are the caller's part.

use crate::text::{
    before_char, chars_of, is_whitespace, prefix_before, str_eq, string_from_chars, trim,
    trim_end_seq, trim_seq, trim_start_seq,
};
use std::path::PathBuf;
use vstd::prelude::*;

verus! {

#[verifier::external_type_specification]
#[verifier::external_body]
pub struct ExIoError(std::io::Error);

#[verifier::external_type_specification]
#[verifier::external_body]
pub struct ExJsonValue(serde_json::Value);

#[verifier::external_type_specification]
#[verifier::external_body]
pub struct ExPathBuf(PathBuf);

/// Errors returned by the IPC layer. Each variant maps to a distinct CLI
/// exit code so that the CLI can translate them into diagnostics.
///
/// | Variant            | Exit code |
/// |--------------------|-----------|
/// | `ConnectionRefused`| 2         |
/// | `InvalidJson`      | 3         |
/// | `UnknownCommand`   | its code  |
/// | `NotFound`         | 5         |
/// | `IpcDisabled`      | 6         |
/// | other              | 1         |
#[derive(Debug)]
pub enum IpcError {
    ConnectionRefused,
    Timeout,
    InvalidJson(String),
    UnknownCommand(i32),
    NotFound,
    IpcDisabled,
    Io(std::io::Error),
    Storage(String),
}

/// The decimal digits of a natural number.
pub open spec fn nat_digits(n: nat) -> Seq<char>
    decreases n,
{
    if n < 10 {
        seq![(('0' as u32) + n) as char]
    } else {
        nat_digits(n / 10).push((('0' as u32) + (n % 10)) as char)
    }
}

/// The decimal text of an integer, with a leading `-` when negative.
pub open spec fn int_decimal(n: int) -> Seq<char> {
    if n < 0 {
        seq!['-'] + nat_digits((-n) as nat)
    } else {
        nat_digits(n as nat)
    }
}

fn push_nat_digits(out: &mut Vec<char>, n: u64)
    ensures
        final(out)@ == old(out)@ + nat_digits(n as nat),
    decreases n,
{
    if n >= 10 {
        push_nat_digits(out, n / 10);
    }
    let d = (n % 10) as u8;
    out.push((d + ('0' as u8)) as char);
    proof {
        assert((d + ('0' as u8)) as char == (('0' as u32) + (n % 10) as nat) as char);
    }
    assert(final(out)@ =~= old(out)@ + nat_digits(n as nat)) by {
        if n >= 10 {
            assert(old(out)@ + nat_digits((n / 10) as nat).push((('0' as u32) + (n % 10) as nat) as char)
                =~= (old(out)@ + nat_digits((n / 10) as nat)).push((('0' as u32) + (n % 10) as nat) as char));
        }
    }
}

/// The decimal text of an `i32` (`i32`'s `Display`).
pub fn i32_to_decimal(n: i32) -> (s: String)
    ensures
        s@ == int_decimal(n as int),
{
    let mut out: Vec<char> = Vec::new();
    if n < 0 {
        out.push('-');
        let m: i64 = -(n as i64);
        push_nat_digits(&mut out, m as u64);
    } else {
        push_nat_digits(&mut out, n as u64);
    }
    string_from_chars(out.as_slice())
}

fn concat_str(a: &str, b: &str) -> (r: String)
    ensures
        r@ == a@ + b@,
{
    let mut v = chars_of(a);
    let w = chars_of(b);
    let mut i: usize = 0;
    let ghost base = v@;
    while i < w.len()
        invariant
            i <= w@.len(),
            v@ == base + w@.subrange(0, i as int),
        decreases w@.len() - i,
    {
        v.push(w[i]);
        i = i + 1;
        assert(v@ =~= base + w@.subrange(0, i as int));
    }
    assert(w@.subrange(0, w@.len() as int) =~= w@);
    string_from_chars(v.as_slice())
}

/// `io::Error`'s `Display`, for the `Io` message. Nothing is claimed of the
/// text.
#[verifier::external_body]
fn io_error_text(e: &std::io::Error) -> String {
    e.to_string()
}

impl IpcError {
    /// The exit code of each variant (see the type's table).
    pub open spec fn exit_code_spec(&self) -> i32 {
        match self {
            IpcError::ConnectionRefused => 2,
            IpcError::InvalidJson(_) => 3,
            IpcError::UnknownCommand(code) => *code,
            IpcError::NotFound => 5,
            IpcError::IpcDisabled => 6,
            _ => 1,
        }
    }

    /// Map the error variant to a CLI exit code.
    pub fn exit_code(&self) -> (c: i32)
        ensures
            c == self.exit_code_spec(),
    {
        match self {
            IpcError::ConnectionRefused => 2,
            IpcError::InvalidJson(_) => 3,
            IpcError::UnknownCommand(code) => *code,
            IpcError::NotFound => 5,
            IpcError::IpcDisabled => 6,
            _ => 1,
        }
    }

    /// The human-readable message of every variant but `Io`, whose message
    /// is `IO error: ` followed by the I/O error's own text.
    pub open spec fn message_spec(&self) -> Seq<char> {
        match self {
            IpcError::ConnectionRefused => "connection refused \u{2013} is deziroslim running?"@,
            IpcError::Timeout => "IPC timed out"@,
            IpcError::InvalidJson(s) => "invalid JSON: "@ + s@,
            IpcError::UnknownCommand(code) => "unknown command (code "@ + int_decimal(*code as int)
                + ")"@,
            IpcError::NotFound => "entry not found"@,
            IpcError::IpcDisabled => "IPC is disabled"@,
            IpcError::Io(_) => "IO error: "@,
            IpcError::Storage(s) => s@,
        }
    }

    /// The error's message (what the error displays as).
    pub fn message(&self) -> (m: String)
        ensures
            !(self is Io) ==> m@ == self.message_spec(),
            self is Io ==> m@.len() >= self.message_spec().len() && m@.subrange(
                0,
                self.message_spec().len() as int,
            ) == self.message_spec(),
    {
        match self {
            IpcError::ConnectionRefused => "connection refused \u{2013} is deziroslim running?".to_owned(),
            IpcError::Timeout => "IPC timed out".to_owned(),
            IpcError::InvalidJson(s) => concat_str("invalid JSON: ", s.as_str()),
            IpcError::UnknownCommand(code) => {
                let digits = i32_to_decimal(*code);
                let head = concat_str("unknown command (code ", digits.as_str());
                concat_str(head.as_str(), ")")
            },
            IpcError::NotFound => "entry not found".to_owned(),
            IpcError::IpcDisabled => "IPC is disabled".to_owned(),
            IpcError::Io(e) => {
                let text = io_error_text(e);
                let m = concat_str("IO error: ", text.as_str());
                assert(m@.subrange(0, "IO error: "@.len() as int) =~= "IO error: "@);
                m
            },
            IpcError::Storage(s) => s.clone(),
        }
    }
}

/// A single request line sent by the CLI: the command, its arguments
/// (JSON `null` when absent) and the session token.
#[derive(Debug)]
pub struct IpcRequest {
    pub cmd: String,
    pub args: serde_json::Value,
    pub token: Option<String>,
}

impl IpcRequest {
    /// The same request carrying the session token, as clients send it.
    pub fn authenticated(self, token: String) -> (r: IpcRequest)
        ensures
            r.cmd == self.cmd,
            r.args == self.args,
            r.token == Some(token),
    {
        IpcRequest { cmd: self.cmd, args: self.args, token: Some(token) }
    }
}

/// Structured error payload embedded in a failed [`IpcResponse`].
#[derive(Debug)]
pub struct IpcErrorBody {
    pub code: i32,
    pub message: String,
}

/// A single response line sent back by the server.
#[derive(Debug)]
pub struct IpcResponse {
    pub ok: bool,
    pub data: Option<serde_json::Value>,
    pub error: Option<IpcErrorBody>,
}

impl IpcResponse {
    /// A success response wrapping arbitrary JSON data.
    pub fn ok(data: serde_json::Value) -> (r: Self)
        ensures
            r.ok,
            r.data == Some(data),
            r.error is None,
    {
        IpcResponse { ok: true, data: Some(data), error: None }
    }

    /// An error response carrying the error's exit code and message.
    pub fn err(e: &IpcError) -> (r: Self)
        ensures
            !r.ok,
            r.data is None,
            r.error matches Some(body) && body.code == e.exit_code_spec() && (!(e is Io)
                ==> body.message@ == e.message_spec()),
    {
        IpcResponse {
            ok: false,
            data: None,
            error: Some(IpcErrorBody { code: e.exit_code(), message: e.message() }),
        }
    }
}

/// The commands the server understands.
#[derive(Debug, Clone, Copy, PartialEq, Eq)]
pub enum IpcCommand {
    List,
    Search,
    Paste,
    Pin,
    Tag,
    Delete,
    Status,
    Add,
    SnippetList,
    SnippetAdd,
    SnippetRemove,
    SnippetInsert,
    /// An unrecognised command name, with its derived error code.
    Unknown(i32),
}

/// IPC server handle: the port file clients read to find and authenticate
/// the session.
pub struct IpcServer {
    pub port_file: PathBuf,
}

/// The sum of the UTF-8 bytes of a text.
pub open spec fn byte_sum(bytes: Seq<u8>) -> nat
    decreases bytes.len(),
{
    if bytes.len() == 0 {
        0
    } else {
        byte_sum(bytes.drop_last()) + bytes.last() as nat
    }
}

/// The code of an unknown command: the sum of its UTF-8 bytes, wrapping
/// around at 2^32, reduced modulo 100, plus 100.
pub open spec fn unknown_code_spec(name: Seq<char>) -> int {
    ((byte_sum(crate::text::utf8_bytes(name)) % 0x1_0000_0000) % 100 + 100) as int
}

/// The command named by a request, by its exact name.
pub open spec fn route_spec(cmd: Seq<char>) -> IpcCommand {
    if cmd == "list"@ {
        IpcCommand::List
    } else if cmd == "search"@ {
        IpcCommand::Search
    } else if cmd == "paste"@ {
        IpcCommand::Paste
    } else if cmd == "pin"@ {
        IpcCommand::Pin
    } else if cmd == "tag"@ {
        IpcCommand::Tag
    } else if cmd == "delete"@ {
        IpcCommand::Delete
    } else if cmd == "status"@ {
        IpcCommand::Status
    } else if cmd == "add"@ {
        IpcCommand::Add
    } else if cmd == "snippet_list"@ {
        IpcCommand::SnippetList
    } else if cmd == "snippet_add"@ {
        IpcCommand::SnippetAdd
    } else if cmd == "snippet_remove"@ {
        IpcCommand::SnippetRemove
    } else if cmd == "snippet_insert"@ {
        IpcCommand::SnippetInsert
    } else {
        IpcCommand::Unknown(unknown_code_spec(cmd) as i32)
    }
}

impl IpcServer {
    /// Derives a stable numeric code, at least 100, for an unknown command
    /// name.
    pub fn unknown_cmd_code(name: &str) -> (code: i32)
        ensures
            code as int == unknown_code_spec(name@),
            100 <= code < 200,
    {
        let bytes = name.as_bytes();
        let mut sum: u64 = 0;
        let mut i: usize = 0;
        while i < bytes.len()
            invariant
                i <= bytes@.len(),
                bytes@ == crate::text::utf8_bytes(name@),
                sum as nat == byte_sum(bytes@.subrange(0, i as int)) % 0x1_0000_0000,
            decreases bytes@.len() - i,
        {
            proof {
                assert(bytes@.subrange(0, i + 1).drop_last() =~= bytes@.subrange(0, i as int));
            }
            sum = (sum + bytes[i] as u64) % 0x1_0000_0000;
            i = i + 1;
        }
        assert(bytes@.subrange(0, bytes@.len() as int) =~= bytes@);
        ((sum % 100) + 100) as i32
    }

    /// Routes a command name to the command it names; any other name is an
    /// unknown command carrying its derived code.
    pub fn route(cmd: &str) -> (c: IpcCommand)
        ensures
            c == route_spec(cmd@),
    {
        if str_eq(cmd, "list") {
            IpcCommand::List
        } else if str_eq(cmd, "search") {
            IpcCommand::Search
        } else if str_eq(cmd, "paste") {
            IpcCommand::Paste
        } else if str_eq(cmd, "pin") {
            IpcCommand::Pin
        } else if str_eq(cmd, "tag") {
            IpcCommand::Tag
        } else if str_eq(cmd, "delete") {
            IpcCommand::Delete
        } else if str_eq(cmd, "status") {
            IpcCommand::Status
        } else if str_eq(cmd, "add") {
            IpcCommand::Add
        } else if str_eq(cmd, "snippet_list") {
            IpcCommand::SnippetList
        } else if str_eq(cmd, "snippet_add") {
            IpcCommand::SnippetAdd
        } else if str_eq(cmd, "snippet_remove") {
            IpcCommand::SnippetRemove
        } else if str_eq(cmd, "snippet_insert") {
            IpcCommand::SnippetInsert
        } else {
            IpcCommand::Unknown(Self::unknown_cmd_code(cmd))
        }
    }

    /// Accepts or refuses a parsed request: requests without the session token are
    /// refused as `IpcDisabled`; others are routed by command name.
    pub fn accept_request(request_token: &Option<String>, session_token: &str, cmd: &str) -> (r: Result<IpcCommand, IpcError>)
        ensures
            match r {
                Ok(c) => request_token matches Some(t) && t@ == session_token@ && c == route_spec(cmd@),
                Err(e) => e is IpcDisabled && !(request_token matches Some(t) && t@ == session_token@),
            },
    {
        match request_token {
            Some(t) => {
                if str_eq(t.as_str(), session_token) {
                    Ok(Self::route(cmd))
                } else {
                    Err(IpcError::IpcDisabled)
                }
            },
            None => Err(IpcError::IpcDisabled),
        }
    }

    /// The request text of a received line: the line trimmed, or `None` when
    /// nothing is left (such lines get no response).
    pub fn request_text(line: &str) -> (r: Option<String>)
        ensures
            match r {
                Some(t) => t@ == trim_seq(line@) && t@.len() > 0,
                None => trim_seq(line@).len() == 0,
            },
    {
        let chars = chars_of(line);
        let t = trim(chars.as_slice());
        if t.len() == 0 {
            None
        } else {
            Some(string_from_chars(t.as_slice()))
        }
    }
}

/// Law: the messages the errors display: what each failure says, with the
/// offending JSON text, the unknown command's code in decimal, or the storage
/// layer's own text.
pub proof fn lemma_error_messages(text: String, code: i32)
    ensures
        IpcError::ConnectionRefused.message_spec() == "connection refused \u{2013} is deziroslim running?"@,
        IpcError::Timeout.message_spec() == "IPC timed out"@,
        IpcError::InvalidJson(text).message_spec() == "invalid JSON: "@ + text@,
        IpcError::UnknownCommand(code).message_spec()
            == "unknown command (code "@ + int_decimal(code as int) + ")"@,
        IpcError::NotFound.message_spec() == "entry not found"@,
        IpcError::IpcDisabled.message_spec() == "IPC is disabled"@,
        IpcError::Storage(text).message_spec() == text@,
{
}

/// Law: the exit codes of the table: 2 for a refused connection, 3 for
/// invalid JSON, an unknown command's own code, 5 for a missing entry, 6 for
/// disabled IPC, and 1 for time-outs, I/O and storage failures.
pub proof fn lemma_exit_code_table(e: IpcError, text: String, code: i32)
    ensures
        IpcError::ConnectionRefused.exit_code_spec() == 2,
        IpcError::InvalidJson(text).exit_code_spec() == 3,
        IpcError::UnknownCommand(code).exit_code_spec() == code,
        IpcError::NotFound.exit_code_spec() == 5,
        IpcError::IpcDisabled.exit_code_spec() == 6,
        IpcError::Timeout.exit_code_spec() == 1,
        IpcError::Storage(text).exit_code_spec() == 1,
        e is Io ==> e.exit_code_spec() == 1,
{
}

/// Law: each command name is served by the command of the same name, so that
/// distinct names reach distinct commands.
pub proof fn lemma_route_by_command_name()
    ensures
        route_spec("list"@) == IpcCommand::List,
        route_spec("search"@) == IpcCommand::Search,
        route_spec("paste"@) == IpcCommand::Paste,
        route_spec("pin"@) == IpcCommand::Pin,
        route_spec("tag"@) == IpcCommand::Tag,
        route_spec("delete"@) == IpcCommand::Delete,
        route_spec("status"@) == IpcCommand::Status,
        route_spec("add"@) == IpcCommand::Add,
        route_spec("snippet_list"@) == IpcCommand::SnippetList,
        route_spec("snippet_add"@) == IpcCommand::SnippetAdd,
        route_spec("snippet_remove"@) == IpcCommand::SnippetRemove,
        route_spec("snippet_insert"@) == IpcCommand::SnippetInsert,
{
    reveal_strlit("list");
    assert("list"@ =~= seq!['l', 'i', 's', 't']);
    reveal_strlit("search");
    assert("search"@ =~= seq!['s', 'e', 'a', 'r', 'c', 'h']);
    reveal_strlit("paste");
    assert("paste"@ =~= seq!['p', 'a', 's', 't', 'e']);
    reveal_strlit("pin");
    assert("pin"@ =~= seq!['p', 'i', 'n']);
    reveal_strlit("tag");
    assert("tag"@ =~= seq!['t', 'a', 'g']);
    reveal_strlit("delete");
    assert("delete"@ =~= seq!['d', 'e', 'l', 'e', 't', 'e']);
    reveal_strlit("status");
    assert("status"@ =~= seq!['s', 't', 'a', 't', 'u', 's']);
    reveal_strlit("add");
    assert("add"@ =~= seq!['a', 'd', 'd']);
    reveal_strlit("snippet_list");
    assert("snippet_list"@ =~= seq!['s', 'n', 'i', 'p', 'p', 'e', 't', '_', 'l', 'i', 's', 't']);
    reveal_strlit("snippet_add");
    assert("snippet_add"@ =~= seq!['s', 'n', 'i', 'p', 'p', 'e', 't', '_', 'a', 'd', 'd']);
    reveal_strlit("snippet_remove");
    assert("snippet_remove"@ =~= seq!['s', 'n', 'i', 'p', 'p', 'e', 't', '_', 'r', 'e', 'm', 'o', 'v', 'e']);
    reveal_strlit("snippet_insert");
    assert("snippet_insert"@ =~= seq!['s', 'n', 'i', 'p', 'p', 'e', 't', '_', 'i', 'n', 's', 'e', 'r', 't']);
}

/// Law: unknown-command codes never collide with the fixed exit codes.
pub proof fn lemma_unknown_codes_are_distinct(name: Seq<char>)
    ensures
        unknown_code_spec(name) >= 100,
        unknown_code_spec(name) != 1 && unknown_code_spec(name) != 2 && unknown_code_spec(name) != 3
            && unknown_code_spec(name) != 5 && unknown_code_spec(name) != 6,
{
}

/// The value of a run of decimal digits.
pub open spec fn digits_value(s: Seq<char>) -> nat
    decreases s.len(),
{
    if s.len() == 0 {
        0
    } else {
        digits_value(s.drop_last()) * 10 + ((s.last() as u32) - ('0' as u32)) as nat
    }
}

/// Every character is an ASCII digit.
pub open spec fn all_digits(s: Seq<char>) -> bool {
    forall|i: int| 0 <= i < s.len() ==> '0' <= #[trigger] s[i] && s[i] <= '9'
}

/// What `u16::from_str` accepts: an optional `+`, then one or more decimal
/// digits whose value fits in 16 bits.
pub open spec fn parse_u16_spec(s: Seq<char>) -> Option<u16> {
    let d = if s.len() > 0 && s[0] == '+' {
        s.subrange(1, s.len() as int)
    } else {
        s
    };
    if d.len() > 0 && all_digits(d) && digits_value(d) <= 0xffff {
        Some(digits_value(d) as u16)
    } else {
        None
    }
}

proof fn lemma_digits_value_grows(d: Seq<char>, i: int)
    requires
        all_digits(d),
        0 <= i <= d.len(),
    ensures
        digits_value(d.subrange(0, i)) <= digits_value(d),
    decreases d.len() - i,
{
    if i < d.len() {
        lemma_digits_value_grows(d, i + 1);
        assert(d.subrange(0, i + 1).drop_last() =~= d.subrange(0, i));
    } else {
        assert(d.subrange(0, i) =~= d);
    }
}

/// Parses a port number as `u16::from_str` does.
pub fn parse_u16(s: &[char]) -> (r: Option<u16>)
    ensures
        r == parse_u16_spec(s@),
{
    let start: usize = if s.len() > 0 && s[0] == '+' { 1 } else { 0 };
    let ghost d = if s@.len() > 0 && s@[0] == '+' {
        s@.subrange(1, s@.len() as int)
    } else {
        s@
    };
    assert(d =~= s@.subrange(start as int, s@.len() as int));
    if start >= s.len() {
        return None;
    }
    let mut value: u32 = 0;
    let mut i: usize = start;
    while i < s.len()
        invariant
            start <= i <= s@.len(),
            start < s@.len(),
            d == s@.subrange(start as int, s@.len() as int),
            d == (if s@.len() > 0 && s@[0] == '+' {
                s@.subrange(1, s@.len() as int)
            } else {
                s@
            }),
            value as nat == digits_value(d.subrange(0, i - start)),
            value <= 0xffff,
            all_digits(d.subrange(0, i - start)),
        decreases s@.len() - i,
    {
        let c = s[i];
        if c < '0' || c > '9' {
            assert(d[i - start] == c);
            assert(!all_digits(d));
            return None;
        }
        proof {
            assert(d.subrange(0, i + 1 - start).drop_last() =~= d.subrange(0, i - start));
            assert(d.subrange(0, i + 1 - start).last() == c);
        }
        let digit = (c as u32) - ('0' as u32);
        let next = value * 10 + digit;
        if next > 0xffff {
            proof {
                assert(digits_value(d.subrange(0, i + 1 - start)) == next);
                if all_digits(d) {
                    lemma_digits_value_grows(d, i + 1 - start);
                }
            }
            return None;
        }
        value = next;
        i = i + 1;
        assert(all_digits(d.subrange(0, i - start))) by {
            assert forall|k: int| 0 <= k < i - start implies '0' <= #[trigger] d.subrange(0, i - start)[k]
                && d.subrange(0, i - start)[k] <= '9' by {
                if k < i - 1 - start {
                    assert(d.subrange(0, i - start)[k] == d.subrange(0, i - 1 - start)[k]);
                }
            }
        }
    }
    assert(d.subrange(0, i - start) =~= d);
    Some(value as u16)
}

/// The lines of a port file as `str::lines` gives them, each trimmed:
/// the first line, and the rest of the text after its line break.
pub open spec fn first_line(raw: Seq<char>) -> Seq<char> {
    before_char(raw, '\n')
}

/// The text after the first line's line break (empty when there is none).
pub open spec fn after_first_line(raw: Seq<char>) -> Seq<char> {
    if first_line(raw).len() < raw.len() {
        raw.subrange(first_line(raw).len() + 1 as int, raw.len() as int)
    } else {
        Seq::empty()
    }
}

/// What a port file holds: a first line with the port and a second line
/// with the session token (each trimmed), or the message of the first
/// problem found: no port line, a port that does not parse, no token line,
/// an empty token.
pub open spec fn endpoint_spec(raw: Seq<char>) -> Result<(u16, Seq<char>), Seq<char>> {
    if raw.len() == 0 {
        Err("missing IPC port"@)
    } else {
        match parse_u16_spec(trim_seq(first_line(raw))) {
            None => Err("invalid port in port file"@),
            Some(port) => {
                let rest = after_first_line(raw);
                if rest.len() == 0 {
                    Err("missing IPC token"@)
                } else {
                    let token = trim_seq(first_line(rest));
                    if token.len() == 0 {
                        Err("empty IPC token"@)
                    } else {
                        Ok((port, token))
                    }
                }
            },
        }
    }
}

proof fn lemma_before_char_prefix(s: Seq<char>, sep: char)
    ensures
        before_char(s, sep).len() <= s.len(),
        before_char(s, sep) == s.subrange(0, before_char(s, sep).len() as int),
        before_char(s, sep).len() < s.len() ==> s[before_char(s, sep).len() as int] == sep,
    decreases s.len(),
{
    if s.len() > 0 && s[0] != sep {
        let t = s.subrange(1, s.len() as int);
        lemma_before_char_prefix(t, sep);
        let b = before_char(t, sep);
        assert(seq![s[0]] + b =~= s.subrange(0, b.len() + 1 as int));
    } else if s.len() > 0 {
        assert(s.subrange(0, 0) =~= Seq::<char>::empty());
    } else {
        assert(s.subrange(0, 0) =~= s);
    }
}

/// Where a running server listens: its local port and session token.
#[derive(Clone, Debug, PartialEq, Eq)]
pub struct IpcEndpoint {
    pub port: u16,
    pub token: String,
}

impl IpcEndpoint {
    /// The endpoint announced by a port file, given its text, or `None` when
    /// there is no port file: then no server is running, which is reported
    /// as `ConnectionRefused` (exit code 2); otherwise as [`IpcEndpoint::parse`].
    pub fn from_port_file(contents: Option<&str>) -> (r: Result<IpcEndpoint, IpcError>)
        ensures
            contents is None ==> r matches Err(IpcError::ConnectionRefused),
            contents matches Some(raw) ==> match endpoint_spec(raw@) {
                Ok((port, token)) => r matches Ok(e) && e.port == port && e.token@ == token,
                Err(msg) => r matches Err(IpcError::InvalidJson(m)) && m@ == msg,
            },
    {
        match contents {
            Some(raw) => Self::parse(raw),
            None => Err(IpcError::ConnectionRefused),
        }
    }

    /// Parses the text of a port file (see [`endpoint_spec`]); every problem
    /// is reported as `InvalidJson` with its message.
    pub fn parse(raw: &str) -> (r: Result<IpcEndpoint, IpcError>)
        ensures
            match endpoint_spec(raw@) {
                Ok((port, token)) => r matches Ok(e) && e.port == port && e.token@ == token,
                Err(msg) => r matches Err(IpcError::InvalidJson(m)) && m@ == msg,
            },
    {
        let chars = chars_of(raw);
        if chars.len() == 0 {
            return Err(IpcError::InvalidJson("missing IPC port".to_owned()));
        }
        let line1 = prefix_before(chars.as_slice(), '\n');
        let port_text = trim(line1.as_slice());
        let port = match parse_u16(port_text.as_slice()) {
            Some(p) => p,
            None => {
                return Err(IpcError::InvalidJson("invalid port in port file".to_owned()));
            },
        };
        proof {
            lemma_before_char_prefix(raw@, '\n');
        }
        let mut rest: Vec<char> = Vec::new();
        if line1.len() < chars.len() {
            let mut k: usize = line1.len() + 1;
            while k < chars.len()
                invariant
                    line1@.len() + 1 <= k <= chars@.len(),
                    rest@ == chars@.subrange(line1@.len() + 1 as int, k as int),
                decreases chars@.len() - k,
            {
                rest.push(chars[k]);
                k = k + 1;
                assert(rest@ =~= chars@.subrange(line1@.len() + 1 as int, k as int));
            }
        }
        assert(rest@ == after_first_line(raw@));
        if rest.len() == 0 {
            return Err(IpcError::InvalidJson("missing IPC token".to_owned()));
        }
        let line2 = prefix_before(rest.as_slice(), '\n');
        let token_chars = trim(line2.as_slice());
        if token_chars.len() == 0 {
            return Err(IpcError::InvalidJson("empty IPC token".to_owned()));
        }
        let token = string_from_chars(token_chars.as_slice());
        Ok(IpcEndpoint { port, token })
    }
}

// ---------------------------------------------------------------------------
// Sessions and the port file
// ---------------------------------------------------------------------------

/// The text of a port file: the port in decimal, then the session token,
/// each on a line of its own.
pub open spec fn port_file_spec(port: u16, token: Seq<char>) -> Seq<char> {
    nat_digits(port as nat) + seq!['\n'] + token + seq!['\n']
}

/// A lower-case hexadecimal digit.
pub open spec fn is_lower_hex(c: char) -> bool {
    ('0' <= c && c <= '9') || ('a' <= c && c <= 'f')
}

/// A session token as servers make them: 32 lower-case hexadecimal digits.
pub open spec fn is_session_token(t: Seq<char>) -> bool {
    t.len() == 32 && forall|i: int| 0 <= i < t.len() ==> is_lower_hex(#[trigger] t[i])
}

/// `uuid::Uuid::new_v4().simple().to_string()`: a random version-4 UUID in
/// its simple form. Claims only what the crate's formatter shows of every
/// outcome: 32 lower-case hexadecimal digits; the digits themselves are
/// random and nothing is said of them.
#[verifier::external_body]
fn new_session_token() -> (t: String)
    ensures
        is_session_token(t@),
{
    uuid::Uuid::new_v4().simple().to_string()
}

/// The port-file text announcing `port` and `token` (see [`port_file_spec`]).
pub fn port_file_text(port: u16, token: &str) -> (r: String)
    ensures
        r@ == port_file_spec(port, token@),
{
    let mut out: Vec<char> = Vec::new();
    push_nat_digits(&mut out, port as u64);
    out.push('\n');
    let t = chars_of(token);
    let ghost base = out@;
    let mut i: usize = 0;
    while i < t.len()
        invariant
            i <= t@.len(),
            out@ == base + t@.subrange(0, i as int),
        decreases t@.len() - i,
    {
        out.push(t[i]);
        i = i + 1;
        assert(out@ =~= base + t@.subrange(0, i as int));
    }
    out.push('\n');
    assert(t@.subrange(0, t@.len() as int) =~= t@);
    assert(out@ =~= port_file_spec(port, token@));
    string_from_chars(out.as_slice())
}

proof fn lemma_nat_digits(n: nat)
    ensures
        nat_digits(n).len() > 0,
        all_digits(nat_digits(n)),
        digits_value(nat_digits(n)) == n,
    decreases n,
{
    let d = nat_digits(n);
    let c = d.last();
    assert(c == (('0' as u32) + (n % 10)) as char);
    assert((c as u32) - ('0' as u32) == n % 10);
    if n >= 10 {
        lemma_nat_digits(n / 10);
        assert(d.drop_last() =~= nat_digits(n / 10));
        assert(digits_value(d) == digits_value(nat_digits(n / 10)) * 10 + n % 10);
    } else {
        assert(d.drop_last() =~= Seq::<char>::empty());
        assert(digits_value(d.drop_last()) == 0);
    }
    assert forall|i: int| 0 <= i < d.len() implies '0' <= #[trigger] d[i] && d[i] <= '9' by {
        if i < d.len() - 1 {
            assert(d[i] == nat_digits(n / 10)[i]);
        }
    }
}

proof fn lemma_before_first_break(a: Seq<char>, b: Seq<char>)
    requires
        forall|i: int| 0 <= i < a.len() ==> a[i] != '\n',
    ensures
        before_char(a + seq!['\n'] + b, '\n') == a,
    decreases a.len(),
{
    let s = a + seq!['\n'] + b;
    if a.len() > 0 {
        let t = a.subrange(1, a.len() as int);
        assert(s.subrange(1, s.len() as int) =~= t + seq!['\n'] + b);
        lemma_before_first_break(t, b);
        assert(seq![a[0]] + t =~= a);
    }
}

proof fn lemma_trim_keeps(s: Seq<char>)
    requires
        s.len() > 0 ==> !is_whitespace(s[0]) && !is_whitespace(s[s.len() - 1]),
    ensures
        trim_seq(s) == s,
{
    assert(trim_start_seq(s) == s);
    assert(trim_end_seq(s) == s);
}

/// Law: reading a port file gives back the port and token written to it,
/// for every token that is not empty and holds no white space (a session
/// token is such a token).
pub proof fn lemma_port_file_round_trip(port: u16, token: Seq<char>)
    requires
        token.len() > 0,
        forall|i: int| 0 <= i < token.len() ==> !is_whitespace(#[trigger] token[i]),
    ensures
        endpoint_spec(port_file_spec(port, token)) == Ok::<(u16, Seq<char>), Seq<char>>((port, token)),
{
    let digits = nat_digits(port as nat);
    lemma_nat_digits(port as nat);
    let raw = port_file_spec(port, token);
    assert forall|i: int| 0 <= i < digits.len() implies #[trigger] digits[i] != '\n' by {
        assert('0' <= digits[i] && digits[i] <= '9');
    }
    lemma_before_first_break(digits, token + seq!['\n']);
    assert(raw =~= digits + seq!['\n'] + (token + seq!['\n']));
    assert(first_line(raw) == digits);
    assert('0' <= digits[0] && digits[0] <= '9');
    assert('0' <= digits[digits.len() - 1] && digits[digits.len() - 1] <= '9');
    lemma_trim_keeps(digits);
    assert(parse_u16_spec(digits) == Some(port));
    assert(after_first_line(raw) =~= token + seq!['\n']);
    assert forall|i: int| 0 <= i < token.len() implies #[trigger] token[i] != '\n' by {
        assert(!is_whitespace(token[i]));
    }
    lemma_before_first_break(token, Seq::empty());
    assert(token + seq!['\n'] =~= token + seq!['\n'] + Seq::<char>::empty());
    assert(first_line(token + seq!['\n']) == token);
    assert(!is_whitespace(token[0]) && !is_whitespace(token[token.len() - 1]));
    lemma_trim_keeps(token);
}

impl IpcServer {
    /// A new session for a server listening on `port`: a fresh session
    /// token, and the port-file text that announces the port and token to
    /// clients (which read the same port and token back from it).
    pub fn open_session(port: u16) -> (r: (String, String))
        ensures
            is_session_token(r.0@),
            r.1@ == port_file_spec(port, r.0@),
            endpoint_spec(r.1@) == Ok::<(u16, Seq<char>), Seq<char>>((port, r.0@)),
    {
        let token = new_session_token();
        let text = port_file_text(port, token.as_str());
        proof {
            assert forall|i: int| 0 <= i < token@.len() implies !is_whitespace(#[trigger] token@[i]) by {
                assert(is_lower_hex(token@[i]));
            }
            lemma_port_file_round_trip(port, token@);
        }
        (token, text)
    }
}

} // verus!
