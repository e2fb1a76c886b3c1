//! The server around the interface: how it starts, what it counts, and the
//! requests that it passes on to the ONVIF service.

use vstd::prelude::*;
use vstd::slice::slice_subrange;
use vstd::string::*;
use vstd::utf8::{encode_utf8, valid_utf8};
use crate::config::types::WebConfig;
use crate::text::{
    chars_of, contains_text, decimal, decimal_text, decimals_are_read_back, find_text, has_prefix,
    lemma_text_from, parse_unsigned, position_of, read_unsigned, starts_with, text_of,
};

verus! {

/// How the server starts.
pub enum Startup {
    /// It does not.
    Disabled,
    /// It waits for an administrator to be set up.
    Setup,
    /// It takes sessions of this user.
    Sessions(String),
}

/// Decides how the server starts.
pub fn startup(config: &WebConfig) -> (s: Startup)
    ensures
        s is Disabled <==> !config@.enabled,
        s is Setup <==> config@.enabled && config@.password.len() == 0,
        s matches Startup::Sessions(user) ==> user@ == (if config@.username.len() == 0 {
            "admin"@
        } else {
            config@.username
        }),
{
    if !config.enabled {
        Startup::Disabled
    } else if config.password.as_str().is_empty() {
        Startup::Setup
    } else if config.username.as_str().is_empty() {
        Startup::Sessions("admin".to_owned())
    } else {
        Startup::Sessions(config.username.clone())
    }
}

// ---------------------------------------------------------------------------
// ONVIF
// ---------------------------------------------------------------------------

/// What ends the head of an HTTP message.
pub open spec fn head_end() -> Seq<char> {
    "\r\n\r\n"@
}

/// A request to the ONVIF service.
pub open spec fn onvif_request_text(port: u16, body: Seq<char>) -> Seq<char> {
    "POST /onvif/device_service HTTP/1.1\r\nHost: 127.0.0.1:"@ + decimal(port as nat)
        + "\r\nContent-Type: application/soap+xml; charset=utf-8\r\nContent-Length: "@ + decimal(
        encode_utf8(body).len(),
    ) + "\r\nConnection: close\r\n\r\n"@ + body
}

/// Puts a message for the ONVIF service into a request.
pub fn onvif_request(port: u16, body: &str) -> (text: String)
    ensures
        text@ == onvif_request_text(port, body@),
{
    let mut text = "POST /onvif/device_service HTTP/1.1\r\nHost: 127.0.0.1:".to_owned();
    text.append(decimal_text(port as u64).as_str());
    text.append("\r\nContent-Type: application/soap+xml; charset=utf-8\r\nContent-Length: ");
    text.append(decimal_text(body.as_bytes().len() as u64).as_str());
    text.append("\r\nConnection: close\r\n\r\n");
    text.append(body);
    text
}

/// The part of a reply that is passed on: all that follows its first empty
/// line, and the whole where there is none.
pub open spec fn soap_part(reply: Seq<char>) -> Seq<char> {
    let i = find_text(reply, head_end());
    if i < reply.len() {
        reply.skip(i + 4)
    } else {
        reply
    }
}

/// Takes the message out of a reply of the ONVIF service.
pub fn soap_body(reply: &str) -> (body: String)
    ensures
        body@ == soap_part(reply@),
{
    let c = chars_of(reply);
    let i: usize = position_of(c.as_slice(), "\r\n\r\n");
    if i < c.len() {
        proof {
            reveal_strlit("\r\n\r\n");
        }
        let rest = slice_subrange(c.as_slice(), i + 4, c.len());
        proof {
            assert(rest@ =~= reply@.skip(i + 4));
        }
        text_of(rest)
    } else {
        reply.to_owned()
    }
}

/// Bytes as text, with what is no UTF-8 replaced.
pub uninterp spec fn lossy_of(bytes: Seq<u8>) -> Seq<char>;

/// Calls `String::from_utf8_lossy`. What is claimed is that the result depends
/// on the bytes alone, and that valid UTF-8 gives the text that it encodes.
#[verifier::external_body]
fn lossy_text(bytes: &[u8]) -> (text: String)
    ensures
        text@ == lossy_of(bytes@),
        valid_utf8(bytes@) ==> encode_utf8(text@) == bytes@,
{
    String::from_utf8_lossy(bytes).into_owned()
}

/// Takes the message out of the bytes of a reply of the ONVIF service.
pub fn relay_reply(reply: &[u8]) -> (body: String)
    ensures
        body@ == soap_part(lossy_of(reply@)),
        valid_utf8(reply@) ==> encode_utf8(lossy_of(reply@)) == reply@,
{
    let text = lossy_text(reply);
    soap_body(text.as_str())
}

/// Of a reply with a head and a message, the whole message is passed on, and
/// nothing of the head.
pub proof fn heads_are_stripped(head: Seq<char>, body: Seq<char>)
    requires
        forall|k: int|
            0 <= k < head.len() ==> !has_prefix(
                #[trigger] (head + head_end() + body).skip(k),
                head_end(),
            ),
    ensures
        soap_part(head + head_end() + body) == body,
{
    reveal_strlit("\r\n\r\n");
    let reply = head + head_end() + body;
    let n = head.len() as int;
    assert(reply.skip(n).take(4) =~= head_end());
    lemma_text_from(reply, head_end(), 0, n);
    assert(reply.skip(n + 4) =~= body);
}

/// What precedes the reason in a fault.
pub open spec fn fault_start() -> Seq<char> {
    "<?xml version=\"1.0\" encoding=\"UTF-8\"?>\n<s:Envelope xmlns:s=\"http://www.w3.org/2003/05/soap-envelope\">\n  <s:Body>\n    <s:Fault>\n      <s:Code><s:Value>s:Receiver</s:Value></s:Code>\n      <s:Reason><s:Text xml:lang=\"en\">"@
}

/// What follows the reason in a fault.
pub open spec fn fault_end() -> Seq<char> {
    "</s:Text></s:Reason>\n    </s:Fault>\n  </s:Body>\n</s:Envelope>"@
}

/// Where passing a request on to the ONVIF service fails.
#[derive(Debug, Clone, Copy, PartialEq, Eq, Structural)]
pub enum RelayStep {
    Connect,
    Write,
    Read,
}

/// What a failure is said to be, before its detail.
pub open spec fn relay_failure(step: RelayStep) -> Seq<char> {
    match step {
        RelayStep::Connect => "ONVIF server unavailable: "@,
        RelayStep::Write => "ONVIF proxy write error: "@,
        RelayStep::Read => "ONVIF proxy read error: "@,
    }
}

/// The fault for a reason.
pub fn soap_fault(reason: &str) -> (text: String)
    ensures
        text@ == fault_start() + reason@ + fault_end(),
{
    let mut text = "<?xml version=\"1.0\" encoding=\"UTF-8\"?>\n<s:Envelope xmlns:s=\"http://www.w3.org/2003/05/soap-envelope\">\n  <s:Body>\n    <s:Fault>\n      <s:Code><s:Value>s:Receiver</s:Value></s:Code>\n      <s:Reason><s:Text xml:lang=\"en\">".to_owned();
    text.append(reason);
    text.append("</s:Text></s:Reason>\n    </s:Fault>\n  </s:Body>\n</s:Envelope>");
    text
}

/// The fault for a request that could not be passed on.
pub fn relay_fault(step: RelayStep, detail: &str) -> (text: String)
    ensures
        text@ == fault_start() + (relay_failure(step) + detail@) + fault_end(),
{
    let what = match step {
        RelayStep::Connect => "ONVIF server unavailable: ",
        RelayStep::Write => "ONVIF proxy write error: ",
        RelayStep::Read => "ONVIF proxy read error: ",
    };
    soap_fault(what.to_owned().concat(detail).as_str())
}

// ---------------------------------------------------------------------------
// Accounting
// ---------------------------------------------------------------------------

/// The number of bytes that a header announces: none where there is no such
/// header or it is no number.
pub open spec fn announced(header: Option<Seq<char>>) -> u64 {
    match header {
        Some(h) => match parse_unsigned(h, u64::MAX as nat) {
            Some(n) => n as u64,
            None => 0,
        },
        None => 0,
    }
}

/// Reads the number of bytes that a header announces.
pub fn content_length(header: Option<&str>) -> (n: u64)
    ensures
        n == announced(
            match header {
                Some(h) => Some(h@),
                None => None,
            },
        ),
{
    match header {
        Some(h) => {
            let c = chars_of(h);
            match read_unsigned(c.as_slice(), u64::MAX) {
                Some(n) => n,
                None => 0,
            }
        },
        None => 0,
    }
}

/// Tells whether a request is kept in the trace.
pub fn is_traced(path: &str) -> (yes: bool)
    ensures
        yes == has_prefix(path@, "/api/"@),
{
    let c = chars_of(path);
    let p = chars_of("/api/");
    starts_with(c.as_slice(), p.as_slice())
}

/// The bytes that passed. Counters start over after their greatest value.
#[derive(Debug, Clone, Copy, PartialEq, Eq, Structural)]
pub struct Traffic {
    pub http_rx: u64,
    pub http_tx: u64,
    pub gb28181_tx: u64,
}

/// The sum of a counter, which starts over.
pub open spec fn counted(counter: u64, n: u64) -> u64 {
    ((counter + n) % 0x1_0000_0000_0000_0000) as u64
}

fn count(counter: u64, n: u64) -> (sum: u64)
    ensures
        sum == counted(counter, n),
{
    counter.wrapping_add(n)
}

impl Traffic {
    /// Nothing has passed.
    pub fn new() -> (t: Self)
        ensures
            t == (Traffic { http_rx: 0, http_tx: 0, gb28181_tx: 0 }),
    {
        Traffic { http_rx: 0, http_tx: 0, gb28181_tx: 0 }
    }

    /// Counts a request.
    pub fn received(&mut self, n: u64)
        ensures
            *final(self) == (Traffic { http_rx: counted(old(self).http_rx, n), ..*old(self) }),
    {
        self.http_rx = count(self.http_rx, n);
    }

    /// Counts a reply.
    pub fn sent(&mut self, n: u64)
        ensures
            *final(self) == (Traffic { http_tx: counted(old(self).http_tx, n), ..*old(self) }),
    {
        self.http_tx = count(self.http_tx, n);
    }

    /// Counts an access unit for the platform.
    pub fn handed_over(&mut self, n: u64)
        ensures
            *final(self) == (Traffic { gb28181_tx: counted(old(self).gb28181_tx, n), ..*old(self) }),
    {
        self.gb28181_tx = count(self.gb28181_tx, n);
    }
}

/// A request to the ONVIF service is one that its server understands: it names
/// the service and the host with its port, gives the length of the message in
/// bytes, and ends with a blank line and the message.
pub proof fn onvif_requests_carry_the_message(port: u16, body: Seq<char>)
    ensures
        ({
            let t = onvif_request_text(port, body);
            &&& has_prefix(t, "POST /onvif/device_service HTTP/1.1\r\n"@)
            &&& contains_text(t, "\r\nHost: 127.0.0.1:"@ + decimal(port as nat) + "\r\n"@)
            &&& contains_text(
                t,
                "\r\nContent-Length: "@ + decimal(encode_utf8(body).len()) + "\r\n"@,
            )
            &&& t.skip(t.len() - body.len() - 4) == "\r\n\r\n"@ + body
        }),
{
    reveal_strlit("POST /onvif/device_service HTTP/1.1\r\nHost: 127.0.0.1:");
    reveal_strlit("POST /onvif/device_service HTTP/1.1\r\n");
    reveal_strlit("\r\nHost: 127.0.0.1:");
    reveal_strlit("\r\nContent-Type: application/soap+xml; charset=utf-8\r\nContent-Length: ");
    reveal_strlit("\r\nContent-Length: ");
    reveal_strlit("\r\nConnection: close\r\n\r\n");
    reveal_strlit("\r\n\r\n");
    reveal_strlit("\r\n");
    let t = onvif_request_text(port, body);
    let first = "POST /onvif/device_service HTTP/1.1\r\nHost: 127.0.0.1:"@;
    let second = "\r\nContent-Type: application/soap+xml; charset=utf-8\r\nContent-Length: "@;
    let third = "\r\nConnection: close\r\n\r\n"@;
    let p = decimal(port as nat);
    let n = decimal(encode_utf8(body).len());
    let start = "POST /onvif/device_service HTTP/1.1\r\n"@;
    assert(t.take(start.len() as int) =~= start);
    let host = "\r\nHost: 127.0.0.1:"@ + p + "\r\n"@;
    let a = first.len() - "\r\nHost: 127.0.0.1:"@.len();
    assert(t.skip(a).take(host.len() as int) =~= host);
    assert(has_prefix(t.skip(a), host));
    let length = "\r\nContent-Length: "@ + n + "\r\n"@;
    let b = first.len() + p.len() + second.len() - "\r\nContent-Length: "@.len();
    assert(t.skip(b).take(length.len() as int) =~= length);
    assert(has_prefix(t.skip(b), length));
    assert(t.skip(t.len() - body.len() - 4) =~= "\r\n\r\n"@ + body);
}

/// What a header announces is read back; without one, nothing is announced.
pub proof fn announced_lengths_are_read_back(n: u64)
    ensures
        announced(Some(decimal(n as nat))) == n,
        announced(None) == 0,
{
    decimals_are_read_back(n as nat, u64::MAX as nat);
}

/// Counters add up, and start over after their greatest value.
pub proof fn counters_add_up(counter: u64, n: u64)
    ensures
        counter + n <= u64::MAX ==> counted(counter, n) == counter + n,
        counter + n > u64::MAX ==> counted(counter, n) + u64::MAX + 1 == counter + n,
{
}

/// A failure to pass a request on says at which step it came.
pub proof fn relay_failures_tell_the_step()
    ensures
        relay_failure(RelayStep::Connect) == "ONVIF server unavailable: "@,
        relay_failure(RelayStep::Write) == "ONVIF proxy write error: "@,
        relay_failure(RelayStep::Read) == "ONVIF proxy read error: "@,
{
}

} // verus!
