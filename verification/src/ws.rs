//! What a websocket client decides between its reads and writes: where a
//! URL leads, and what a frame that came in asks for.

use url::Url;
use vstd::prelude::*;
use vstd::string::StringExecFns;

verus! {

/// What `Url::parse` finds in a text. For a text that is an absolute URL:
/// the host that `Url::host_str` gives for the URL, if it has one, and the
/// port that `Url::port_or_known_default` gives for it, if it names one or
/// its scheme is known for one. For any other text: the reason, as the
/// `Display` of the `ParseError` words it.
pub uninterp spec fn url_target(input: Seq<char>) -> Result<
    (Option<Seq<char>>, Option<u16>),
    Seq<char>,
>;

/// Host and port as values: the host by its characters.
pub open spec fn target_of(parts: (Option<String>, Option<u16>)) -> (
    Option<Seq<char>>,
    Option<u16>,
) {
    (
        match parts.0 {
            Some(host) => Some(host@),
            None => None,
        },
        parts.1,
    )
}

/// `Url::parse`; of the URL that it gives, `Url::host_str` and
/// `Url::port_or_known_default`; of the error that it gives, the text:
/// host and port of the URL that `input` stands for, or the reason why it
/// stands for none. What comes back is a matter of the text alone.
#[verifier::external_body]
fn url_parts(input: &str) -> (parts: Result<(Option<String>, Option<u16>), String>)
    ensures
        url_target(input@) == match parts {
            Ok(parts) => Ok::<(Option<Seq<char>>, Option<u16>), Seq<char>>(target_of(parts)),
            Err(reason) => Err(reason@),
        },
{
    match Url::parse(input) {
        Ok(url) => Ok((url.host_str().map(String::from), url.port_or_known_default())),
        Err(error) => Err(error.to_string()),
    }
}

/// Why a websocket failed after it was connected.
#[derive(Debug)]
pub enum WebSocketFault {
    /// The peer closed the connection.
    ConnectionClosed,
    /// Any other failure of the protocol or the stream, with its text.
    Failed(String),
}

/// Why a websocket could not be opened or went down. Each failure of a
/// layer below is held by its text.
#[derive(Debug)]
pub enum WsError {
    UrlParse(String),
    Io(String),
    Tls(String),
    InvalidDns(String),
    Http(String),
    WebSocket(WebSocketFault),
    MissingHost,
    Handshake(String),
}

impl WebSocketFault {
    /// The text of the fault.
    pub open spec fn spec_message(self) -> Seq<char> {
        match self {
            WebSocketFault::ConnectionClosed => "Connection is closed"@,
            WebSocketFault::Failed(text) => text@,
        }
    }

    /// The text of the fault.
    pub fn message(&self) -> (text: String)
        ensures
            text@ == self.spec_message(),
    {
        match self {
            WebSocketFault::ConnectionClosed => String::from_str("Connection is closed"),
            WebSocketFault::Failed(text) => text.clone(),
        }
    }
}

impl WsError {
    /// The text of the error: what failed, then the text of the failure.
    pub open spec fn spec_message(self) -> Seq<char> {
        match self {
            WsError::UrlParse(e) => "Invalid URL: "@ + e@,
            WsError::Io(e) => "IO Error: "@ + e@,
            WsError::Tls(e) => "TLS Error: "@ + e@,
            WsError::InvalidDns(e) => "Invalid DNS name: "@ + e@,
            WsError::Http(e) => "HTTP Error: "@ + e@,
            WsError::WebSocket(e) => "WebSocket Error: "@ + e.spec_message(),
            WsError::MissingHost => "No host in URL"@,
            WsError::Handshake(e) => "Handshake failed: "@ + e@,
        }
    }

    /// The text of the error.
    pub fn message(&self) -> (text: String)
        ensures
            text@ == self.spec_message(),
    {
        match self {
            WsError::UrlParse(e) => String::from_str("Invalid URL: ").concat(e.as_str()),
            WsError::Io(e) => String::from_str("IO Error: ").concat(e.as_str()),
            WsError::Tls(e) => String::from_str("TLS Error: ").concat(e.as_str()),
            WsError::InvalidDns(e) => String::from_str("Invalid DNS name: ").concat(e.as_str()),
            WsError::Http(e) => String::from_str("HTTP Error: ").concat(e.as_str()),
            WsError::WebSocket(e) => String::from_str("WebSocket Error: ").concat(
                e.message().as_str(),
            ),
            WsError::MissingHost => String::from_str("No host in URL"),
            WsError::Handshake(e) => String::from_str("Handshake failed: ").concat(e.as_str()),
        }
    }
}

/// What a frame is for.
#[derive(Debug, Clone, Copy, PartialEq, Eq, Structural)]
pub enum OpCode {
    Continuation,
    Text,
    Binary,
    Close,
    Ping,
    Pong,
}

/// A frame as it came in: what it is for, and what it carries.
#[derive(Debug)]
pub struct Frame {
    pub opcode: OpCode,
    pub payload: Vec<u8>,
}

/// What the client has to do with a frame that came in.
#[derive(Debug)]
pub enum FrameResult {
    /// Hand the payload to the reader.
    Msg(Vec<u8>),
    /// Answer with a pong that carries the payload.
    Ping(Vec<u8>),
    /// Nothing.
    Skip,
    /// Hand the error to the reader and stop.
    Error(WsError),
}

/// Says what a frame that was read, or the failure of the read, asks for:
/// text and binary frames are messages, a ping is to be answered, a close
/// frame ends the connection as a failure does, any other frame is
/// passed over.
pub fn process_frame(res: Result<Frame, WebSocketFault>) -> (result: FrameResult)
    ensures
        result == match res {
            Ok(frame) => match frame.opcode {
                OpCode::Text | OpCode::Binary => FrameResult::Msg(frame.payload),
                OpCode::Ping => FrameResult::Ping(frame.payload),
                OpCode::Close => FrameResult::Error(
                    WsError::WebSocket(WebSocketFault::ConnectionClosed),
                ),
                OpCode::Continuation | OpCode::Pong => FrameResult::Skip,
            },
            Err(fault) => FrameResult::Error(WsError::WebSocket(fault)),
        },
{
    let frame = match res {
        Ok(f) => f,
        Err(e) => {
            return FrameResult::Error(WsError::WebSocket(e));
        },
    };

    match frame.opcode {
        OpCode::Text | OpCode::Binary => FrameResult::Msg(frame.payload),
        OpCode::Ping => FrameResult::Ping(frame.payload),
        OpCode::Close => FrameResult::Error(WsError::WebSocket(WebSocketFault::ConnectionClosed)),
        _ => FrameResult::Skip,
    }
}

/// The port that a connection goes to where the URL names none and its
/// scheme is known for none.
pub const DEFAULT_PORT: u16 = 443;

/// Where a connection goes to.
#[derive(Debug, Clone, PartialEq, Eq)]
pub struct Endpoint {
    pub host: String,
    pub port: u16,
}

/// The character of a decimal digit.
pub open spec fn digit_char(digit: nat) -> char
    recommends
        digit < 10,
{
    if digit == 0 {
        '0'
    } else if digit == 1 {
        '1'
    } else if digit == 2 {
        '2'
    } else if digit == 3 {
        '3'
    } else if digit == 4 {
        '4'
    } else if digit == 5 {
        '5'
    } else if digit == 6 {
        '6'
    } else if digit == 7 {
        '7'
    } else if digit == 8 {
        '8'
    } else {
        '9'
    }
}

/// The decimal digits of a number, without leading zeros.
pub open spec fn decimal(n: nat) -> Seq<char>
    decreases n,
{
    if n < 10 {
        seq![digit_char(n)]
    } else {
        decimal(n / 10).push(digit_char(n % 10))
    }
}

fn digit_text(digit: u16) -> (text: &'static str)
    requires
        digit < 10,
    ensures
        text@ == seq![digit_char(digit as nat)],
{
    proof {
        reveal_strlit("0");
        reveal_strlit("1");
        reveal_strlit("2");
        reveal_strlit("3");
        reveal_strlit("4");
        reveal_strlit("5");
        reveal_strlit("6");
        reveal_strlit("7");
        reveal_strlit("8");
        reveal_strlit("9");
    }
    let text = if digit == 0 {
        "0"
    } else if digit == 1 {
        "1"
    } else if digit == 2 {
        "2"
    } else if digit == 3 {
        "3"
    } else if digit == 4 {
        "4"
    } else if digit == 5 {
        "5"
    } else if digit == 6 {
        "6"
    } else if digit == 7 {
        "7"
    } else if digit == 8 {
        "8"
    } else {
        "9"
    };
    assert(text@ =~= seq![digit_char(digit as nat)]);
    text
}

fn push_decimal(out: &mut String, n: u16)
    ensures
        final(out)@ == old(out)@ + decimal(n as nat),
    decreases n,
{
    if n >= 10 {
        push_decimal(out, n / 10);
    }
    out.append(digit_text(n % 10));
    assert(out@ =~= old(out)@ + decimal(n as nat));
}

impl Endpoint {
    /// The address of the endpoint as text: host, colon, port.
    pub open spec fn spec_addr(self) -> Seq<char> {
        self.host@ + seq![':'] + decimal(self.port as nat)
    }

    /// The address to connect to: the host, a colon, and the port in
    /// decimal digits.
    pub fn addr(&self) -> (addr: String)
        ensures
            addr@ == self.spec_addr(),
    {
        proof {
            reveal_strlit(":");
        }
        let mut addr = self.host.clone();
        addr.append(":");
        assert(addr@ =~= self.host@ + seq![':']);
        push_decimal(&mut addr, self.port);
        addr
    }
}

/// The endpoint that a URL with this host and port leads to: one without a
/// host leads nowhere, one without a port to the default port.
pub fn endpoint_of(host: Option<String>, port: Option<u16>) -> (endpoint: Result<Endpoint, WsError>)
    ensures
        endpoint == match host {
            Some(host) => Ok::<Endpoint, WsError>(
                Endpoint {
                    host,
                    port: match port {
                        Some(port) => port,
                        None => DEFAULT_PORT,
                    },
                },
            ),
            None => Err(WsError::MissingHost),
        },
{
    let host = match host {
        Some(host) => host,
        None => {
            return Err(WsError::MissingHost);
        },
    };
    let port = match port {
        Some(port) => port,
        None => DEFAULT_PORT,
    };
    Ok(Endpoint { host, port })
}

/// The endpoint that `url` leads to. A text that is no absolute URL is
/// refused with the parser's reason; one that is leads where `endpoint_of`
/// says for the host and the port that the parser finds in it.
pub fn resolve(url: &str) -> (endpoint: Result<Endpoint, WsError>)
    ensures
        match url_target(url@) {
            Ok((Some(host), port)) => endpoint matches Ok(endpoint) && endpoint.host@ == host
                && endpoint.port == match port {
                Some(port) => port,
                None => DEFAULT_PORT,
            },
            Ok((None, _)) => endpoint == Err::<Endpoint, WsError>(WsError::MissingHost),
            Err(reason) => endpoint matches Err(WsError::UrlParse(text)) && text@ == reason,
        },
{
    let (host, port) = match url_parts(url) {
        Ok(parts) => parts,
        Err(reason) => {
            return Err(WsError::UrlParse(reason));
        },
    };
    endpoint_of(host, port)
}

} // verus!
