use vstd::prelude::*;
use crate::text::{
    decimal, format_ipv4, format_ipv6, ipv4_text, ipv6_text, lossy_utf8, push_char, push_decimal,
    utf8_lossy,
};

verus! {

/// Protocol version byte of SOCKS5.
pub const VERSION: u8 = 5;

/// Command code of CONNECT.
pub const CMD_CONNECT: u8 = 1;

/// Address-type tags.
pub const ATYP_IPV4: u8 = 1;
pub const ATYP_DOMAIN: u8 = 3;
pub const ATYP_IPV6: u8 = 4;

/// Reply status for success.
pub const STATUS_SUCCEEDED: u8 = 0;

/// A received field that violates the protocol.
#[derive(Debug, Clone, Copy, PartialEq, Eq, Structural)]
pub enum ProtocolError {
    BadVersion,
    UnsupportedCommand,
    BadReserved,
    UnsupportedAddressType,
}

/// Where a frame stands after the bytes read so far.
#[derive(Debug)]
pub enum Progress<T> {
    /// The frame needs this many bytes in all before it can go on.
    Incomplete(usize),
    /// The frame is complete; it took this many bytes.
    Complete(T, usize),
    /// The frame breaks the protocol at its last byte.
    Rejected(ProtocolError),
}

impl<T: View> View for Progress<T> {
    type V = Progress<T::V>;

    open spec fn view(&self) -> Progress<T::V> {
        match self {
            Progress::Incomplete(n) => Progress::Incomplete(*n),
            Progress::Complete(t, n) => Progress::Complete(t@, *n),
            Progress::Rejected(e) => Progress::Rejected(*e),
        }
    }
}

/// A handshake: the authentication methods the client offers.
#[derive(Debug)]
pub struct HandshakeRequest {
    pub methods: Vec<u8>,
}

impl View for HandshakeRequest {
    type V = Seq<u8>;

    open spec fn view(&self) -> Seq<u8> {
        self.methods@
    }
}

/// The destination address of a CONNECT request, as it came on the wire.
#[derive(Debug)]
pub enum Address {
    /// Four bytes.
    Ipv4(Vec<u8>),
    /// The bytes of a domain name.
    Domain(Vec<u8>),
    /// Eight big-endian 16-bit words.
    Ipv6(Vec<u16>),
}

pub enum AddressView {
    Ipv4(Seq<u8>),
    Domain(Seq<u8>),
    Ipv6(Seq<u16>),
}

impl View for Address {
    type V = AddressView;

    open spec fn view(&self) -> AddressView {
        match self {
            Address::Ipv4(b) => AddressView::Ipv4(b@),
            Address::Domain(b) => AddressView::Domain(b@),
            Address::Ipv6(w) => AddressView::Ipv6(w@),
        }
    }
}

impl AddressView {
    pub open spec fn wf(self) -> bool {
        match self {
            AddressView::Ipv4(b) => b.len() == 4,
            AddressView::Domain(b) => b.len() <= 255,
            AddressView::Ipv6(w) => w.len() == 8,
        }
    }
}

/// A CONNECT request.
#[derive(Debug)]
pub struct ConnectRequest {
    pub address: Address,
    pub port: u16,
}

pub struct RequestView {
    pub address: AddressView,
    pub port: u16,
}

impl View for ConnectRequest {
    type V = RequestView;

    open spec fn view(&self) -> RequestView {
        RequestView { address: self.address@, port: self.port }
    }
}

/// A big-endian 16-bit value from its two bytes.
pub open spec fn be16(hi: u8, lo: u8) -> u16 {
    (hi as int * 256 + lo as int) as u16
}

/// Eight big-endian words from sixteen bytes.
pub open spec fn be_words(b: Seq<u8>) -> Seq<u16> {
    Seq::new(8, |k: int| be16(b[2 * k], b[2 * k + 1]))
}

/// Progress of a handshake `VER NMETHODS METHODS` over the bytes read so far.
pub open spec fn handshake_progress(s: Seq<u8>) -> Progress<Seq<u8>> {
    if s.len() < 1 {
        Progress::Incomplete(1)
    } else if s[0] != VERSION {
        Progress::Rejected(ProtocolError::BadVersion)
    } else if s.len() < 2 {
        Progress::Incomplete(2)
    } else if s.len() < 2 + s[1] {
        Progress::Incomplete((2 + s[1]) as usize)
    } else {
        Progress::Complete(s.subrange(2, 2 + s[1]), (2 + s[1]) as usize)
    }
}

/// Progress of the address and port of a request, whose header of four bytes is valid.
pub open spec fn address_progress(s: Seq<u8>) -> Progress<RequestView> {
    if s[3] == ATYP_IPV4 {
        if s.len() < 10 {
            Progress::Incomplete(10)
        } else {
            Progress::Complete(
                RequestView { address: AddressView::Ipv4(s.subrange(4, 8)), port: be16(s[8], s[9]) },
                10,
            )
        }
    } else if s[3] == ATYP_DOMAIN {
        if s.len() < 5 {
            Progress::Incomplete(5)
        } else if s.len() < 7 + s[4] {
            Progress::Incomplete((7 + s[4]) as usize)
        } else {
            let l = s[4] as int;
            Progress::Complete(
                RequestView {
                    address: AddressView::Domain(s.subrange(5, 5 + l)),
                    port: be16(s[5 + l], s[6 + l]),
                },
                (7 + l) as usize,
            )
        }
    } else if s[3] == ATYP_IPV6 {
        if s.len() < 22 {
            Progress::Incomplete(22)
        } else {
            Progress::Complete(
                RequestView {
                    address: AddressView::Ipv6(be_words(s.subrange(4, 20))),
                    port: be16(s[20], s[21]),
                },
                22,
            )
        }
    } else {
        Progress::Rejected(ProtocolError::UnsupportedAddressType)
    }
}

/// Progress of a request `VER CMD RSV ATYP DST.ADDR DST.PORT` over the bytes read so far.
/// The header is taken one byte at a time, so that a bad field is seen before the next
/// byte is asked for.
pub open spec fn request_progress(s: Seq<u8>) -> Progress<RequestView> {
    if s.len() < 1 {
        Progress::Incomplete(1)
    } else if s[0] != VERSION {
        Progress::Rejected(ProtocolError::BadVersion)
    } else if s.len() < 2 {
        Progress::Incomplete(2)
    } else if s[1] != CMD_CONNECT {
        Progress::Rejected(ProtocolError::UnsupportedCommand)
    } else if s.len() < 3 {
        Progress::Incomplete(3)
    } else if s[2] != 0 {
        Progress::Rejected(ProtocolError::BadReserved)
    } else if s.len() < 4 {
        Progress::Incomplete(4)
    } else {
        address_progress(s)
    }
}

/// The text of a destination host.
pub open spec fn host_text(a: AddressView) -> Seq<char> {
    match a {
        AddressView::Ipv4(b) => ipv4_text(b),
        AddressView::Domain(b) => lossy_utf8(b),
        AddressView::Ipv6(w) => ipv6_text(w),
    }
}

/// Whether byte `b` is acceptable as field `i` of a request header
/// (version, command, reserved byte, address type).
pub open spec fn header_field_ok(i: int, b: u8) -> bool {
    if i == 0 {
        b == VERSION
    } else if i == 1 {
        b == CMD_CONNECT
    } else if i == 2 {
        b == 0
    } else {
        b == ATYP_IPV4 || b == ATYP_DOMAIN || b == ATYP_IPV6
    }
}

/// The error for a bad field `i` of a request header.
pub open spec fn header_field_error(i: int) -> ProtocolError {
    if i == 0 {
        ProtocolError::BadVersion
    } else if i == 1 {
        ProtocolError::UnsupportedCommand
    } else if i == 2 {
        ProtocolError::BadReserved
    } else {
        ProtocolError::UnsupportedAddressType
    }
}

/// The bytes of a handshake of version 5 that offers the given methods.
pub open spec fn handshake_frame(n: u8, methods: Seq<u8>) -> Seq<u8> {
    seq![VERSION, n] + methods
}

/// A handshake of version 5 that offers `n` methods is complete after exactly its
/// `2 + n` bytes, whatever follows them; before that, each prefix asks for more bytes,
/// never beyond the end of the frame.
pub proof fn lemma_handshake_takes_its_frame(n: u8, methods: Seq<u8>, rest: Seq<u8>)
    requires
        methods.len() == n,
    ensures
        handshake_progress(handshake_frame(n, methods) + rest) == Progress::Complete(
            methods,
            (2 + n) as usize,
        ),
        forall|j: int|
            0 <= j < 2 + n ==> match #[trigger] handshake_progress(
                handshake_frame(n, methods).take(j),
            ) {
                Progress::Incomplete(k) => j < k <= 2 + n,
                _ => false,
            },
{
    let f = handshake_frame(n, methods);
    let g = f + rest;
    assert(g[0] == VERSION && g[1] == n);
    assert(g.subrange(2, 2 + n) =~= methods);
    assert forall|j: int| 0 <= j < 2 + n implies match #[trigger] handshake_progress(f.take(j)) {
        Progress::Incomplete(k) => j < k <= 2 + n,
        _ => false,
    } by {
        if j >= 1 {
            assert(f.take(j)[0] == VERSION);
        }
        if j >= 2 {
            assert(f.take(j)[1] == n);
        }
    }
}

/// A request whose first bad header field is field `i` is rejected with that field's
/// error as soon as byte `i` has been read, whatever follows; up to then each prefix
/// asks for exactly one more byte, so nothing past the bad field is read.
pub proof fn lemma_request_rejects_first_bad_field(s: Seq<u8>, i: int)
    requires
        0 <= i < 4,
        i < s.len(),
        forall|j: int| 0 <= j < i ==> header_field_ok(j, #[trigger] s[j]),
        !header_field_ok(i, s[i]),
    ensures
        request_progress(s.take(i + 1)) == Progress::<RequestView>::Rejected(header_field_error(i)),
        request_progress(s) == Progress::<RequestView>::Rejected(header_field_error(i)),
        forall|j: int|
            0 <= j <= i ==> #[trigger] request_progress(s.take(j))
                == Progress::<RequestView>::Incomplete((j + 1) as usize),
{
    assert(forall|j: int, k: int| 0 <= k < j <= s.len() ==> #[trigger] s.take(j)[k] == s[k]);
    if i > 0 {
        assert(header_field_ok(0, s[0]));
    }
    if i > 1 {
        assert(header_field_ok(1, s[1]));
    }
    if i > 2 {
        assert(header_field_ok(2, s[2]));
    }
}

/// Decodes a big-endian 16-bit value, such as a port, from its two bytes.
pub fn decode_port(hi: u8, lo: u8) -> (r: u16)
    ensures
        r == be16(hi, lo),
        r as int == hi as int * 256 + lo as int,
{
    let r: u16 = ((hi as u16) << 8u16) | (lo as u16);
    assert(r == hi as u16 * 256 + lo as u16) by (bit_vector)
        requires
            r == ((hi as u16) << 8u16) | (lo as u16),
    ;
    r
}

fn copy_range(b: &[u8], lo: usize, hi: usize) -> (r: Vec<u8>)
    requires
        lo <= hi <= b@.len(),
    ensures
        r@ == b@.subrange(lo as int, hi as int),
{
    let mut r: Vec<u8> = Vec::new();
    let mut i: usize = lo;
    while i < hi
        invariant
            lo <= i <= hi <= b@.len(),
            r@ == b@.subrange(lo as int, i as int),
        decreases hi - i,
    {
        r.push(b[i]);
        assert(r@ =~= b@.subrange(lo as int, i + 1));
        i = i + 1;
    }
    r
}

fn decode_words(b: &[u8], lo: usize) -> (r: Vec<u16>)
    requires
        lo + 16 <= b@.len(),
    ensures
        r@ == be_words(b@.subrange(lo as int, lo + 16)),
{
    let ghost s = b@.subrange(lo as int, lo + 16);
    let n: usize = b.len();
    let mut r: Vec<u16> = Vec::new();
    let mut k: usize = 0;
    while k < 8
        invariant
            k <= 8,
            lo + 16 <= b@.len(),
            s == b@.subrange(lo as int, lo + 16),
            n == b@.len(),
            r@.len() == k,
            forall|j: int| 0 <= j < k ==> r@[j] == be_words(s)[j],
        decreases 8 - k,
    {
        let i: usize = lo + k * 2;
        r.push(decode_port(b[i], b[i + 1]));
        k = k + 1;
    }
    assert(r@ =~= be_words(s));
    r
}

/// Reads a handshake from the bytes received so far.
pub fn parse_handshake(buf: &[u8]) -> (r: Progress<HandshakeRequest>)
    ensures
        r@ == handshake_progress(buf@),
{
    if buf.len() < 1 {
        return Progress::Incomplete(1);
    }
    if buf[0] != VERSION {
        return Progress::Rejected(ProtocolError::BadVersion);
    }
    if buf.len() < 2 {
        return Progress::Incomplete(2);
    }
    let n = buf[1] as usize;
    if buf.len() < 2 + n {
        return Progress::Incomplete(2 + n);
    }
    Progress::Complete(HandshakeRequest { methods: copy_range(buf, 2, 2 + n) }, 2 + n)
}

/// Reads a CONNECT request from the bytes received so far.
pub fn parse_connect_request(buf: &[u8]) -> (r: Progress<ConnectRequest>)
    ensures
        r@ == request_progress(buf@),
{
    if buf.len() < 1 {
        return Progress::Incomplete(1);
    }
    if buf[0] != VERSION {
        return Progress::Rejected(ProtocolError::BadVersion);
    }
    if buf.len() < 2 {
        return Progress::Incomplete(2);
    }
    if buf[1] != CMD_CONNECT {
        return Progress::Rejected(ProtocolError::UnsupportedCommand);
    }
    if buf.len() < 3 {
        return Progress::Incomplete(3);
    }
    if buf[2] != 0 {
        return Progress::Rejected(ProtocolError::BadReserved);
    }
    if buf.len() < 4 {
        return Progress::Incomplete(4);
    }
    if buf[3] == ATYP_IPV4 {
        if buf.len() < 10 {
            return Progress::Incomplete(10);
        }
        let address = Address::Ipv4(copy_range(buf, 4, 8));
        Progress::Complete(ConnectRequest { address, port: decode_port(buf[8], buf[9]) }, 10)
    } else if buf[3] == ATYP_DOMAIN {
        if buf.len() < 5 {
            return Progress::Incomplete(5);
        }
        let l = buf[4] as usize;
        if buf.len() < 7 + l {
            return Progress::Incomplete(7 + l);
        }
        let address = Address::Domain(copy_range(buf, 5, 5 + l));
        let port = decode_port(buf[5 + l], buf[6 + l]);
        Progress::Complete(ConnectRequest { address, port }, 7 + l)
    } else if buf[3] == ATYP_IPV6 {
        if buf.len() < 22 {
            return Progress::Incomplete(22);
        }
        let address = Address::Ipv6(decode_words(buf, 4));
        Progress::Complete(ConnectRequest { address, port: decode_port(buf[20], buf[21]) }, 22)
    } else {
        Progress::Rejected(ProtocolError::UnsupportedAddressType)
    }
}

/// The handshake reply: version 5, no authentication required.
pub fn handshake_reply() -> (r: Vec<u8>)
    ensures
        r@ == seq![VERSION, 0u8],
{
    vec![VERSION, 0u8]
}

/// The reply to a CONNECT request, with the given status and the bound address
/// reported as IPv4 `0.0.0.0:0`.
pub fn connect_reply(status: u8) -> (r: Vec<u8>)
    ensures
        r@ == seq![VERSION, status, 0u8, ATYP_IPV4, 0u8, 0u8, 0u8, 0u8, 0u8, 0u8],
{
    vec![VERSION, status, 0u8, ATYP_IPV4, 0u8, 0u8, 0u8, 0u8, 0u8, 0u8]
}

/// The text `host:port` with the port in decimal.
pub fn join_host_port(host: String, port: u16) -> (r: String)
    ensures
        r@ == host@ + seq![':'] + decimal(port as nat),
{
    let mut s = host;
    push_char(&mut s, ':');
    push_decimal(&mut s, port);
    s
}

impl ConnectRequest {
    /// The text of the destination host: dotted-quad, the domain name decoded from
    /// UTF-8 with invalid sequences replaced, or the standard IPv6 text form.
    pub fn host(&self) -> (r: String)
        requires
            self@.address.wf(),
        ensures
            r@ == host_text(self@.address),
    {
        match &self.address {
            Address::Ipv4(b) => format_ipv4(b.as_slice()),
            Address::Domain(b) => utf8_lossy(b.as_slice()),
            Address::Ipv6(w) => format_ipv6(w.as_slice()),
        }
    }

    /// The destination `host:port` to connect to.
    pub fn destination(&self) -> (r: String)
        requires
            self@.address.wf(),
        ensures
            r@ == host_text(self@.address) + seq![':'] + decimal(self.port as nat),
    {
        join_host_port(self.host(), self.port)
    }
}

} // verus!
