//! Errors of the relay, and how a closed connection is told apart from a failure.

use vstd::prelude::*;

verus! {

#[verifier::external_type_specification]
#[verifier::external_body]
pub struct ExIoError(std::io::Error);

/// The kinds of I/O error that the relay tells apart; every other kind is `Other`.
#[derive(Clone, Copy, Debug, PartialEq, Eq, Structural)]
pub enum IoErrorKind {
    UnexpectedEof,
    ConnectionReset,
    ConnectionAborted,
    BrokenPipe,
    ConnectionRefused,
    Other,
}

/// The kind of an I/O error, as `std::io::Error::kind` reports it, sorted into [`IoErrorKind`].
pub uninterp spec fn io_kind_of(e: std::io::Error) -> IoErrorKind;

/// The OS error code that `std::io::Error::raw_os_error` reports for an error.
pub uninterp spec fn raw_os_error_of(e: std::io::Error) -> Option<i32>;

/// Calls `std::io::Error::kind` and sorts the answer into [`IoErrorKind`], one
/// variant for each kind that the relay names and `Other` for the rest.
/// Claimed: the result is `io_kind_of(*e)`, a function of the error alone.
#[verifier::external_body]
pub(crate) fn io_error_kind(e: &std::io::Error) -> (k: IoErrorKind)
    ensures
        k == io_kind_of(*e),
{
    match e.kind() {
        std::io::ErrorKind::UnexpectedEof => IoErrorKind::UnexpectedEof,
        std::io::ErrorKind::ConnectionReset => IoErrorKind::ConnectionReset,
        std::io::ErrorKind::ConnectionAborted => IoErrorKind::ConnectionAborted,
        std::io::ErrorKind::BrokenPipe => IoErrorKind::BrokenPipe,
        std::io::ErrorKind::ConnectionRefused => IoErrorKind::ConnectionRefused,
        _ => IoErrorKind::Other,
    }
}

/// Calls `std::io::Error::raw_os_error`.
/// Claimed: the result is `raw_os_error_of(*e)`, a function of the error alone.
#[verifier::external_body]
fn io_raw_os_error(e: &std::io::Error) -> (code: Option<i32>)
    ensures
        code == raw_os_error_of(*e),
{
    e.raw_os_error()
}

/// Windows' codes for a reset connection, an aborted one, and a shut-down socket.
pub open spec fn is_windows_close_code(code: i32) -> bool {
    code == 10054 || code == 10053 || code == 10058
}

/// An I/O error with this kind and OS code is an ordinary close of the connection.
pub open spec fn graceful_close(kind: IoErrorKind, code: Option<i32>) -> bool {
    match kind {
        IoErrorKind::UnexpectedEof | IoErrorKind::ConnectionReset
        | IoErrorKind::ConnectionAborted | IoErrorKind::BrokenPipe => true,
        _ => match code {
            Some(c) => is_windows_close_code(c),
            None => false,
        },
    }
}

/// Decides from an error's kind and OS code whether it is an ordinary close.
pub fn is_graceful_close(kind: IoErrorKind, code: Option<i32>) -> (b: bool)
    ensures
        b == graceful_close(kind, code),
{
    match kind {
        IoErrorKind::UnexpectedEof | IoErrorKind::ConnectionReset
        | IoErrorKind::ConnectionAborted | IoErrorKind::BrokenPipe => true,
        _ => match code {
            Some(c) => c == 10054 || c == 10053 || c == 10058,
            None => false,
        },
    }
}

/// Returns true if an I/O error represents a normal connection close: an
/// unexpected end of file, a reset, an aborted connection, a broken pipe, or
/// one of Windows' codes for these.
pub fn is_graceful_io_error(e: &std::io::Error) -> (b: bool)
    ensures
        b == graceful_close(io_kind_of(*e), raw_os_error_of(*e)),
{
    let kind = io_error_kind(e);
    let code = io_raw_os_error(e);
    is_graceful_close(kind, code)
}

/// Errors of the relay.
#[derive(Debug)]
pub enum SyncError {
    PayloadTooLarge { size: usize, max: usize },
    IdleTimeout,
    PingTimeout,
    RoomNotFound,
    RoomAlreadyExists(String),
    NotInRoom,
    MaxClientsReached,
    ConnectionClosed,
    ConnectionRefused,
    Protocol(String),
    Io(std::io::Error),
}

/// Whether an error is an ordinary close of the connection rather than a failure.
pub open spec fn connection_closed(e: SyncError) -> bool {
    match e {
        SyncError::ConnectionClosed => true,
        SyncError::Io(io) => graceful_close(io_kind_of(io), raw_os_error_of(io)),
        _ => false,
    }
}

impl SyncError {
    /// Returns true if this is a "normal" connection close (not an actual error).
    /// This includes EOF, connection reset, broken pipe, and connection aborted.
    pub fn is_connection_closed(&self) -> (b: bool)
        ensures
            b == connection_closed(*self),
    {
        match self {
            SyncError::ConnectionClosed => true,
            SyncError::Io(e) => is_graceful_io_error(e),
            _ => false,
        }
    }
}

/// The decimal digit `d`, below 10.
pub open spec fn digit_char(d: nat) -> char {
    if d == 0 { '0' } else if d == 1 { '1' } else if d == 2 { '2' } else if d == 3 { '3' } else if d == 4 {
        '4'
    } else if d == 5 { '5' } else if d == 6 { '6' } else if d == 7 { '7' } else if d == 8 { '8' } else { '9' }
}

/// The decimal digits of `n`, most significant first, without leading zeros.
pub open spec fn decimal(n: nat) -> Seq<char>
    decreases n,
{
    if n < 10 {
        seq![digit_char(n)]
    } else {
        decimal(n / 10).push(digit_char(n % 10))
    }
}

fn digit_str(d: usize) -> (s: &'static str)
    requires
        d < 10,
    ensures
        s@ == seq![digit_char(d as nat)],
{
    match d {
        0 => { proof { reveal_strlit("0"); } "0" },
        1 => { proof { reveal_strlit("1"); } "1" },
        2 => { proof { reveal_strlit("2"); } "2" },
        3 => { proof { reveal_strlit("3"); } "3" },
        4 => { proof { reveal_strlit("4"); } "4" },
        5 => { proof { reveal_strlit("5"); } "5" },
        6 => { proof { reveal_strlit("6"); } "6" },
        7 => { proof { reveal_strlit("7"); } "7" },
        8 => { proof { reveal_strlit("8"); } "8" },
        _ => { proof { reveal_strlit("9"); } "9" },
    }
}

/// Writes `n` in decimal.
pub fn decimal_string(n: usize) -> (s: String)
    ensures
        s@ == decimal(n as nat),
    decreases n,
{
    if n < 10 {
        digit_str(n).to_owned()
    } else {
        let mut s = decimal_string(n / 10);
        let d = digit_str(n % 10);
        s.append(d);
        assert(s@ =~= decimal(n as nat));
        s
    }
}

/// Whether `m` is the text that describes error `e`.
pub open spec fn describes(e: SyncError, m: Seq<char>) -> bool {
    match e {
        SyncError::PayloadTooLarge { size, max } => m == "payload too large: "@ + decimal(size as nat)
            + " bytes (max "@ + decimal(max as nat) + ")"@,
        SyncError::IdleTimeout => m == "client idle timeout"@,
        SyncError::PingTimeout => m == "no pong received before next ping tick"@,
        SyncError::RoomNotFound => m == "room not found"@,
        SyncError::RoomAlreadyExists(id) => m == "room already exists: "@ + id@,
        SyncError::NotInRoom => m == "client not in a room"@,
        SyncError::MaxClientsReached => m == "max clients reached"@,
        SyncError::ConnectionClosed => m == "connection closed"@,
        SyncError::ConnectionRefused => m == "connection refused \u{2014} is the server running?"@,
        SyncError::Protocol(msg) => m == "protocol error: "@ + msg@,
        SyncError::Io(io) => exists|t: String|
            vstd::string::to_string_from_display_ensures::<std::io::Error>(&io, t) && m == "io error: "@ + t@,
    }
}

impl SyncError {
    /// The text that describes this error.
    pub fn message(&self) -> (m: String)
        ensures
            describes(*self, m@),
    {
        match self {
            SyncError::PayloadTooLarge { size, max } => {
                let mut m = "payload too large: ".to_owned();
                m.append(decimal_string(*size).as_str());
                m.append(" bytes (max ");
                m.append(decimal_string(*max).as_str());
                m.append(")");
                m
            },
            SyncError::IdleTimeout => "client idle timeout".to_owned(),
            SyncError::PingTimeout => "no pong received before next ping tick".to_owned(),
            SyncError::RoomNotFound => "room not found".to_owned(),
            SyncError::RoomAlreadyExists(id) => {
                let mut m = "room already exists: ".to_owned();
                m.append(id.as_str());
                m
            },
            SyncError::NotInRoom => "client not in a room".to_owned(),
            SyncError::MaxClientsReached => "max clients reached".to_owned(),
            SyncError::ConnectionClosed => "connection closed".to_owned(),
            SyncError::ConnectionRefused => "connection refused \u{2014} is the server running?".to_owned(),
            SyncError::Protocol(msg) => {
                let mut m = "protocol error: ".to_owned();
                m.append(msg.as_str());
                m
            },
            SyncError::Io(e) => {
                let t = e.to_string();
                let mut m = "io error: ".to_owned();
                m.append(t.as_str());
                m
            },
        }
    }
}

impl From<std::io::Error> for SyncError {
    fn from(e: std::io::Error) -> (r: Self) {
        SyncError::Io(e)
    }
}

impl vstd::std_specs::convert::FromSpecImpl<std::io::Error> for SyncError {
    open spec fn obeys_from_spec() -> bool {
        true
    }

    open spec fn from_spec(e: std::io::Error) -> Self {
        SyncError::Io(e)
    }
}

} // verus!
