//! The server that listens for connections: the port it was made for, the
//! address it binds, and the count of the connections it has accepted.

use vstd::prelude::*;

verus! {

/// How many bytes of a request a handler reads, in its one read.
pub const READ_BUFFER_LEN: usize = 1024;

/// How long a handler keeps its connection open after the response, in
/// milliseconds.
pub const HOLD_OPEN_MILLIS: u64 = 5000;

/// A server for one port of the loopback interface.
#[derive(Debug)]
pub struct WebSocketServer {
    port: i16,
    connection_counter: i32,
}

/// The character of a decimal digit.
pub open spec fn digit_char(d: nat) -> char
    recommends
        d < 10,
{
    ((48 + d) as u8) as char
}

/// The decimal digits of `n`, the most significant first.
pub open spec fn decimal_digits(n: nat) -> Seq<char>
    decreases n,
{
    if n < 10 {
        seq![digit_char(n)]
    } else {
        decimal_digits(n / 10).push(digit_char(n % 10))
    }
}

/// A number in decimal, with a minus sign where it is negative.
pub open spec fn decimal_text(v: int) -> Seq<char> {
    if v < 0 {
        seq!['-'] + decimal_digits((-v) as nat)
    } else {
        decimal_digits(v as nat)
    }
}

/// The loopback address with the given port.
pub open spec fn listen_address_text(port: i16) -> Seq<char> {
    "127.0.0.1:"@ + decimal_text(port as int)
}

/// Calls `String::push` of std, which appends one character to the text.
#[verifier::external_body]
fn push_char(text: &mut String, c: char)
    ensures
        final(text)@ == old(text)@.push(c),
{
    text.push(c)
}

/// Appends the decimal digits of `n` to `text`.
fn push_decimal(text: &mut String, n: u32)
    ensures
        final(text)@ == old(text)@ + decimal_digits(n as nat),
    decreases n,
{
    if n >= 10 {
        push_decimal(text, n / 10);
    }
    let digit: u8 = (n % 10) as u8;
    push_char(text, (48u8 + digit) as char);
    assert(text@ =~= old(text)@ + decimal_digits(n as nat));
}

impl WebSocketServer {
    /// The port that the server was made for.
    pub closed spec fn spec_port(&self) -> i16 {
        self.port
    }

    /// The number of connections that the server has accepted.
    pub closed spec fn spec_connection_counter(&self) -> i32 {
        self.connection_counter
    }

    /// The port that the server was made for.
    #[verifier::when_used_as_spec(spec_port)]
    pub fn port(&self) -> (port: i16)
        ensures
            port == self.spec_port(),
    {
        self.port
    }

    /// The number of connections that the server has accepted.
    #[verifier::when_used_as_spec(spec_connection_counter)]
    pub fn connection_counter(&self) -> (count: i32)
        ensures
            count == self.spec_connection_counter(),
    {
        self.connection_counter
    }

    /// Whether a listener can be bound to the server's port: only a
    /// positive port names one.
    pub fn has_valid_port(&self) -> (valid: bool)
        ensures
            valid == (self.port() >= 1),
    {
        self.port >= 1
    }

    /// The address that the server listens on: the loopback interface and
    /// the server's port, in decimal.
    pub fn listen_address(&self) -> (address: String)
        ensures
            address@ == listen_address_text(self.port()),
    {
        let mut address: String = String::from_str("127.0.0.1:");
        let wide: i32 = self.port as i32;
        if wide < 0 {
            push_char(&mut address, '-');
            push_decimal(&mut address, (-wide) as u32);
            assert(address@ =~= listen_address_text(self.port()));
        } else {
            push_decimal(&mut address, wide as u32);
        }
        address
    }

    /// Counts one more accepted connection. The port stays as it is.
    pub fn record_connection(&mut self)
        requires
            old(self).connection_counter() < i32::MAX,
        ensures
            final(self).connection_counter() == old(self).connection_counter() + 1,
            final(self).port() == old(self).port(),
    {
        self.connection_counter = self.connection_counter + 1;
    }
}

/// A server for `port` that has not accepted any connection yet.
pub fn create_web_socket_server(port: i16) -> (server: WebSocketServer)
    ensures
        server.port() == port,
        server.connection_counter() == 0,
{
    WebSocketServer { port: port, connection_counter: 0 }
}

} // verus!
