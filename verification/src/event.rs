//! The connection-event record and its JSON-lines encoding.
//!
//! One `PacketInfo` describes one observed or probed network flow.  The
//! event log is UTF-8 text with one JSON object per line; the encoding is
//! defined here character by character, so the exact shape of every emitted
//! line is part of the crate's contracts.

use crate::flags::spec_flag_names;
use crate::flags::tcp_flags_to_iter;
use crate::text::chars_to_string;
use crate::text::push_decimal_u16;
use crate::text::push_decimal_u64;
use crate::text::push_escaped;
use crate::text::push_str_chars;
use crate::text::spec_dec;
use crate::text::spec_escape;
use crate::text::str_to_chars;
use vstd::prelude::*;

verus! {

/// An IPv4 address, by its four dotted-quad octets.
#[derive(Clone, Copy, PartialEq, Eq, Structural, Debug, Hash)]
pub struct Ipv4Address {
    pub o0: u8,
    pub o1: u8,
    pub o2: u8,
    pub o3: u8,
}

impl Ipv4Address {
    /// The dotted-quad text of the address.
    pub open spec fn spec_dotted(self) -> Seq<char> {
        spec_dec(self.o0 as int) + seq!['.'] + spec_dec(self.o1 as int) + seq!['.'] + spec_dec(
            self.o2 as int,
        ) + seq!['.'] + spec_dec(self.o3 as int)
    }

    pub fn new(o0: u8, o1: u8, o2: u8, o3: u8) -> (r: Self)
        ensures
            r == (Ipv4Address { o0, o1, o2, o3 }),
    {
        Ipv4Address { o0, o1, o2, o3 }
    }

    /// Appends the dotted-quad text of the address to `r`.
    pub fn push_dotted(&self, r: &mut Vec<char>)
        ensures
            final(r)@ == old(r)@ + self.spec_dotted(),
    {
        push_decimal_u64(r, self.o0 as u64);
        r.push('.');
        push_decimal_u64(r, self.o1 as u64);
        r.push('.');
        push_decimal_u64(r, self.o2 as u64);
        r.push('.');
        push_decimal_u64(r, self.o3 as u64);
        proof {
            assert(r@ =~= old(r)@ + self.spec_dotted());
        }
    }

    /// The dotted-quad text of the address.
    pub fn dotted(&self) -> (r: String)
        ensures
            r@ == self.spec_dotted(),
    {
        let mut v: Vec<char> = Vec::new();
        self.push_dotted(&mut v);
        chars_to_string(&v)
    }
}

/// The transport protocol of an observed flow.
#[derive(Clone, Copy, PartialEq, Eq, Structural, Debug)]
pub enum Protocol {
    Tcp,
    Udp,
}

impl Protocol {
    /// The protocol's name as it appears in the event log.
    pub open spec fn spec_name(self) -> Seq<char> {
        match self {
            Protocol::Tcp => "tcp"@,
            Protocol::Udp => "udp"@,
        }
    }

    /// The protocol's name as it appears in the event log.
    pub fn name(&self) -> (r: &'static str)
        ensures
            r@ == self.spec_name(),
    {
        match self {
            Protocol::Tcp => "tcp",
            Protocol::Udp => "udp",
        }
    }
}

/// The mathematical value of one connection event.
pub ghost struct PacketInfoView {
    pub listener_ip: Ipv4Address,
    pub network_tag: Seq<char>,
    pub source_ip: Ipv4Address,
    pub source_port: u16,
    pub target_port: u16,
    pub protocol: Protocol,
    pub flags: Seq<Seq<char>>,
    pub timestamp: u64,
}

/// One observed or probed network flow.
///
/// `listener_ip` and `source_ip` are the post-NAT view the observing endpoint
/// saw.  `target_port` 0 is reserved for "not observed directly" (datagram
/// receipt where the original destination port is not recoverable).  `flags`
/// holds TCP control-bit names when the event came from raw packet
/// inspection, and is empty otherwise.  `timestamp` is a UTC instant in
/// milliseconds.
#[derive(Debug)]
pub struct PacketInfo {
    pub listener_ip: Ipv4Address,
    pub network_tag: String,
    pub source_ip: Ipv4Address,
    pub source_port: u16,
    pub target_port: u16,
    pub protocol: Protocol,
    pub flags: Vec<String>,
    pub timestamp: u64,
}

impl View for PacketInfo {
    type V = PacketInfoView;

    open spec fn view(&self) -> PacketInfoView {
        PacketInfoView {
            listener_ip: self.listener_ip,
            network_tag: self.network_tag@,
            source_ip: self.source_ip,
            source_port: self.source_port,
            target_port: self.target_port,
            protocol: self.protocol,
            flags: self.flags.deep_view(),
            timestamp: self.timestamp,
        }
    }
}

/// The event the socket-API strategy records for one accepted TCP
/// connection: the arrival itself is the signal, so the event carries the
/// peer's address and port, the locally bound port as the target, and no
/// control-bit names (flags are not observable at the socket layer).
pub fn socket_tcp_event(
    listener_ip: Ipv4Address,
    bound_port: u16,
    peer_ip: Ipv4Address,
    peer_port: u16,
    network_tag: String,
    timestamp: u64,
) -> (r: PacketInfo)
    ensures
        r@ == (PacketInfoView {
            listener_ip,
            network_tag: network_tag@,
            source_ip: peer_ip,
            source_port: peer_port,
            target_port: bound_port,
            protocol: Protocol::Tcp,
            flags: Seq::empty(),
            timestamp,
        }),
{
    let r = PacketInfo {
        listener_ip,
        network_tag,
        source_ip: peer_ip,
        source_port: peer_port,
        target_port: bound_port,
        protocol: Protocol::Tcp,
        flags: Vec::new(),
        timestamp,
    };
    proof {
        assert(r@.flags =~~= Seq::<Seq<char>>::empty());
    }
    r
}

/// The event the socket-API strategy records for one received datagram:
/// the peer's address and port, and target port 0, since the original
/// pre-NAT destination is not observable at the socket layer.
pub fn socket_udp_event(
    listener_ip: Ipv4Address,
    peer_ip: Ipv4Address,
    peer_port: u16,
    network_tag: String,
    timestamp: u64,
) -> (r: PacketInfo)
    ensures
        r@ == (PacketInfoView {
            listener_ip,
            network_tag: network_tag@,
            source_ip: peer_ip,
            source_port: peer_port,
            target_port: 0,
            protocol: Protocol::Udp,
            flags: Seq::empty(),
            timestamp,
        }),
{
    let r = PacketInfo {
        listener_ip,
        network_tag,
        source_ip: peer_ip,
        source_port: peer_port,
        target_port: 0,
        protocol: Protocol::Udp,
        flags: Vec::new(),
        timestamp,
    };
    proof {
        assert(r@.flags =~~= Seq::<Seq<char>>::empty());
    }
    r
}

/// One flag name as a JSON string literal.
pub open spec fn spec_quoted(s: Seq<char>) -> Seq<char> {
    seq!['"'] + spec_escape(s) + seq!['"']
}

/// The comma-separated JSON string literals of the flag names.
pub open spec fn spec_flags_json(flags: Seq<Seq<char>>) -> Seq<char>
    decreases flags.len(),
{
    if flags.len() == 0 {
        Seq::empty()
    } else if flags.len() == 1 {
        spec_quoted(flags[0])
    } else {
        spec_flags_json(flags.drop_last()) + seq![','] + spec_quoted(flags.last())
    }
}

/// The JSON object text of one event, with its keys in a fixed order.
pub open spec fn spec_event_json(v: PacketInfoView) -> Seq<char> {
    "{\"listener_ip\":\""@ + v.listener_ip.spec_dotted() + "\",\"network_tag\":\""@ + spec_escape(
        v.network_tag,
    ) + "\",\"source_ip\":\""@ + v.source_ip.spec_dotted() + "\",\"source_port\":"@ + spec_dec(
        v.source_port as int,
    ) + ",\"target_port\":"@ + spec_dec(v.target_port as int) + ",\"protocol\":\""@
        + v.protocol.spec_name() + "\",\"flags\":["@ + spec_flags_json(v.flags) + "],\"timestamp\":"@
        + spec_dec(v.timestamp as int) + "}"@
}

/// One full line of the event log: the JSON object and its terminator.
pub open spec fn spec_event_line(v: PacketInfoView) -> Seq<char> {
    spec_event_json(v) + seq!['\n']
}

/// The JSON object text of `e`, as characters.
pub fn encode_event_json_chars(e: &PacketInfo) -> (r: Vec<char>)
    ensures
        r@ == spec_event_json(e@),
{
    let mut out: Vec<char> = Vec::new();
    push_str_chars(&mut out, "{\"listener_ip\":\"");
    e.listener_ip.push_dotted(&mut out);
    push_str_chars(&mut out, "\",\"network_tag\":\"");
    let tag_chars = str_to_chars(e.network_tag.as_str());
    push_escaped(&mut out, &tag_chars);
    push_str_chars(&mut out, "\",\"source_ip\":\"");
    e.source_ip.push_dotted(&mut out);
    push_str_chars(&mut out, "\",\"source_port\":");
    push_decimal_u16(&mut out, e.source_port);
    push_str_chars(&mut out, ",\"target_port\":");
    push_decimal_u16(&mut out, e.target_port);
    push_str_chars(&mut out, ",\"protocol\":\"");
    push_str_chars(&mut out, e.protocol.name());
    push_str_chars(&mut out, "\",\"flags\":[");
    let ghost base = out@;
    let nflags = e.flags.len();
    let mut k: usize = 0;
    while k < nflags
        invariant
            nflags == e.flags@.len(),
            k <= nflags,
            e.flags.deep_view().len() == e.flags@.len(),
            out@ == base + spec_flags_json(e.flags.deep_view().subrange(0, k as int)),
        decreases nflags - k,
    {
        if k > 0 {
            out.push(',');
        }
        out.push('"');
        let name_chars = str_to_chars(e.flags[k].as_str());
        proof {
            assert(e.flags.deep_view()[k as int] == e.flags@[k as int]@);
        }
        push_escaped(&mut out, &name_chars);
        out.push('"');
        k = k + 1;
        proof {
            let fl = e.flags.deep_view();
            assert(fl.subrange(0, k as int).drop_last() =~= fl.subrange(0, k as int - 1));
            assert(fl.subrange(0, k as int).last() == fl[k as int - 1]);
            assert(out@ =~= base + spec_flags_json(fl.subrange(0, k as int)));
        }
    }
    proof {
        assert(e.flags.deep_view().subrange(0, nflags as int) =~= e.flags.deep_view());
    }
    push_str_chars(&mut out, "],\"timestamp\":");
    push_decimal_u64(&mut out, e.timestamp);
    push_str_chars(&mut out, "}");
    proof {
        assert(out@ =~= spec_event_json(e@));
    }
    out
}

/// The event log line of `e`: its JSON object text followed by a newline.
pub fn encode_event_line(e: &PacketInfo) -> (r: String)
    ensures
        r@ == spec_event_line(e@),
{
    let mut out = encode_event_json_chars(e);
    out.push('\n');
    proof {
        assert(out@ =~= spec_event_line(e@));
    }
    chars_to_string(&out)
}

/// Whether two character vectors hold the same text.
fn eq_chars(a: &Vec<char>, b: &Vec<char>) -> (r: bool)
    ensures
        r == (a@ == b@),
{
    let n = a.len();
    if n != b.len() {
        return false;
    }
    let mut i: usize = 0;
    while i < n
        invariant
            n == a@.len(),
            n == b@.len(),
            i <= n,
            forall|k: int| 0 <= k < i ==> a@[k] == b@[k],
        decreases n - i,
    {
        if a[i] != b[i] {
            return false;
        }
        i = i + 1;
    }
    proof {
        assert(a@ =~= b@);
    }
    true
}

/// Consumes the exact characters of `lit` at position `i`.
fn expect_lit(cs: &Vec<char>, i: usize, lit: &str) -> (r: Option<usize>)
    ensures
        r.is_some() ==> i < r.unwrap() <= cs@.len(),
{
    let lc = crate::text::str_to_chars(lit);
    let n = cs.len();
    let m = lc.len();
    if m == 0 || m > n || i > n - m {
        return None;
    }
    let mut j: usize = 0;
    while j < m
        invariant
            n == cs@.len(),
            m == lc@.len(),
            i + m <= n,
            j <= m,
        decreases m - j,
    {
        if cs[i + j] != lc[j] {
            return None;
        }
        j = j + 1;
    }
    Some(i + m)
}

/// The value of one lower-case hexadecimal character.
fn hex_value(c: char) -> (r: Option<u32>)
    ensures
        r.is_some() ==> r.unwrap() < 16,
{
    let h = c as u32;
    if 48 <= h && h <= 57 {
        Some(h - 48)
    } else if 97 <= h && h <= 102 {
        Some(h - 97 + 10)
    } else {
        None
    }
}

/// Consumes a JSON string body up to and including its closing quote,
/// undoing the escapes the encoder writes.
fn parse_jstring_body(cs: &Vec<char>, start: usize) -> (r: Option<(String, usize)>)
    ensures
        r.is_some() ==> start < r.unwrap().1 <= cs@.len(),
{
    let n = cs.len();
    let mut out: Vec<char> = Vec::new();
    let mut i: usize = start;
    if i >= n {
        return None;
    }
    while i < n
        invariant
            n == cs@.len(),
            start <= i <= n,
        decreases n - i,
    {
        let c = cs[i];
        if c == '"' {
            return Some((crate::text::chars_to_string(&out), i + 1));
        }
        if c == '\\' {
            if i + 1 >= n {
                return None;
            }
            let e = cs[i + 1];
            if e == '"' {
                out.push('"');
                i = i + 2;
            } else if e == '\\' {
                out.push('\\');
                i = i + 2;
            } else if e == 'u' {
                if n - i < 6 {
                    return None;
                }
                let h0 = match hex_value(cs[i + 2]) {
                    Some(d) => d,
                    None => {
                        return None;
                    },
                };
                let h1 = match hex_value(cs[i + 3]) {
                    Some(d) => d,
                    None => {
                        return None;
                    },
                };
                let h2 = match hex_value(cs[i + 4]) {
                    Some(d) => d,
                    None => {
                        return None;
                    },
                };
                let h3 = match hex_value(cs[i + 5]) {
                    Some(d) => d,
                    None => {
                        return None;
                    },
                };
                let v: u32 = h0 * 4096 + h1 * 256 + h2 * 16 + h3;
                if v > 255 {
                    return None;
                }
                out.push((v as u8) as char);
                i = i + 6;
            } else {
                return None;
            }
        } else {
            out.push(c);
            i = i + 1;
        }
    }
    None
}

/// Consumes a run of decimal digits as a number.
fn parse_u64_digits(cs: &Vec<char>, start: usize) -> (r: Option<(u64, usize)>)
    ensures
        r.is_some() ==> start < r.unwrap().1 <= cs@.len(),
{
    let n = cs.len();
    if start > n {
        return None;
    }
    let mut i: usize = start;
    let mut acc: u64 = 0;
    while i < n
        invariant
            n == cs@.len(),
            start <= i <= n,
        decreases n - i,
    {
        let c = cs[i] as u32;
        if !(48 <= c && c <= 57) {
            break ;
        }
        if acc > (u64::MAX - 9) / 10 {
            return None;
        }
        acc = acc * 10 + ((c - 48) as u64);
        i = i + 1;
    }
    if i == start {
        None
    } else {
        Some((acc, i))
    }
}

/// Consumes a run of digits as a port number.
fn parse_port_digits(cs: &Vec<char>, start: usize) -> (r: Option<(u16, usize)>)
    ensures
        r.is_some() ==> start < r.unwrap().1 <= cs@.len(),
{
    match parse_u64_digits(cs, start) {
        Some((v, i)) => if v <= 65535 {
            Some((v as u16, i))
        } else {
            None
        },
        None => None,
    }
}

/// Consumes a dotted-quad address.
fn parse_ipv4_text(cs: &Vec<char>, start: usize) -> (r: Option<(Ipv4Address, usize)>)
    ensures
        r.is_some() ==> start < r.unwrap().1 <= cs@.len(),
{
    let (o0, i) = match parse_u64_digits(cs, start) {
        Some((v, i)) => if v <= 255 {
            (v as u8, i)
        } else {
            return None;
        },
        None => {
            return None;
        },
    };
    let i = match expect_lit(cs, i, ".") {
        Some(i) => i,
        None => {
            return None;
        },
    };
    let (o1, i) = match parse_u64_digits(cs, i) {
        Some((v, i)) => if v <= 255 {
            (v as u8, i)
        } else {
            return None;
        },
        None => {
            return None;
        },
    };
    let i = match expect_lit(cs, i, ".") {
        Some(i) => i,
        None => {
            return None;
        },
    };
    let (o2, i) = match parse_u64_digits(cs, i) {
        Some((v, i)) => if v <= 255 {
            (v as u8, i)
        } else {
            return None;
        },
        None => {
            return None;
        },
    };
    let i = match expect_lit(cs, i, ".") {
        Some(i) => i,
        None => {
            return None;
        },
    };
    let (o3, i) = match parse_u64_digits(cs, i) {
        Some((v, i)) => if v <= 255 {
            (v as u8, i)
        } else {
            return None;
        },
        None => {
            return None;
        },
    };
    Some((Ipv4Address { o0, o1, o2, o3 }, i))
}

/// Reads one candidate event out of a line's characters, field by field in
/// the encoder's fixed order.  What it returns is only a candidate: the
/// caller accepts it by re-encoding.
fn parse_event_chars(cs: &Vec<char>) -> Option<PacketInfo> {
    let i = match expect_lit(cs, 0, "{\"listener_ip\":\"") {
        Some(i) => i,
        None => {
            return None;
        },
    };
    let (listener_ip, i) = match parse_ipv4_text(cs, i) {
        Some(v) => v,
        None => {
            return None;
        },
    };
    let i = match expect_lit(cs, i, "\",\"network_tag\":\"") {
        Some(i) => i,
        None => {
            return None;
        },
    };
    let (network_tag, i) = match parse_jstring_body(cs, i) {
        Some(v) => v,
        None => {
            return None;
        },
    };
    let i = match expect_lit(cs, i, ",\"source_ip\":\"") {
        Some(i) => i,
        None => {
            return None;
        },
    };
    let (source_ip, i) = match parse_ipv4_text(cs, i) {
        Some(v) => v,
        None => {
            return None;
        },
    };
    let i = match expect_lit(cs, i, "\",\"source_port\":") {
        Some(i) => i,
        None => {
            return None;
        },
    };
    let (source_port, i) = match parse_port_digits(cs, i) {
        Some(v) => v,
        None => {
            return None;
        },
    };
    let i = match expect_lit(cs, i, ",\"target_port\":") {
        Some(i) => i,
        None => {
            return None;
        },
    };
    let (target_port, i) = match parse_port_digits(cs, i) {
        Some(v) => v,
        None => {
            return None;
        },
    };
    let i = match expect_lit(cs, i, ",\"protocol\":\"") {
        Some(i) => i,
        None => {
            return None;
        },
    };
    let (proto_name, i) = match parse_jstring_body(cs, i) {
        Some(v) => v,
        None => {
            return None;
        },
    };
    let protocol = if proto_name.as_str().unicode_len() == 3 {
        let p = crate::text::str_to_chars(proto_name.as_str());
        if p[0] == 't' && p[1] == 'c' && p[2] == 'p' {
            Protocol::Tcp
        } else if p[0] == 'u' && p[1] == 'd' && p[2] == 'p' {
            Protocol::Udp
        } else {
            return None;
        }
    } else {
        return None;
    };
    let i = match expect_lit(cs, i, ",\"flags\":[") {
        Some(i) => i,
        None => {
            return None;
        },
    };
    let n = cs.len();
    let mut flags: Vec<String> = Vec::new();
    let mut i: usize = i;
    if i < n && cs[i] == ']' {
        i = i + 1;
    } else {
        loop
            invariant
                n == cs@.len(),
                i <= n,
            decreases n - i,
        {
            let j = match expect_lit(cs, i, "\"") {
                Some(j) => j,
                None => {
                    return None;
                },
            };
            let (name, j) = match parse_jstring_body(cs, j) {
                Some(v) => v,
                None => {
                    return None;
                },
            };
            flags.push(name);
            if j < n && cs[j] == ',' {
                i = j + 1;
            } else if j < n && cs[j] == ']' {
                i = j + 1;
                break ;
            } else {
                return None;
            }
        }
    }
    let i = match expect_lit(cs, i, ",\"timestamp\":") {
        Some(i) => i,
        None => {
            return None;
        },
    };
    let (timestamp, i) = match parse_u64_digits(cs, i) {
        Some(v) => v,
        None => {
            return None;
        },
    };
    let i = match expect_lit(cs, i, "}\n") {
        Some(i) => i,
        None => {
            return None;
        },
    };
    if i != cs.len() {
        return None;
    }
    Some(
        PacketInfo {
            listener_ip,
            network_tag,
            source_ip,
            source_port,
            target_port,
            protocol,
            flags,
            timestamp,
        },
    )
}

/// Decodes one full log line, terminator included.  The contract pins the
/// decoder to the log format exactly: whatever it accepts is the one event
/// whose encoded line is the given text, so every line the writer emits is
/// parseable and unambiguous.
pub fn decode_event_line(line: &str) -> (r: Option<PacketInfo>)
    ensures
        r.is_some() ==> spec_event_line(r.unwrap()@) == line@,
{
    let cs = crate::text::str_to_chars(line);
    match parse_event_chars(&cs) {
        None => None,
        Some(e) => {
            let enc = encode_event_line(&e);
            let ec = crate::text::str_to_chars(enc.as_str());
            if eq_chars(&ec, &cs) {
                Some(e)
            } else {
                None
            }
        },
    }
}

} // verus!
