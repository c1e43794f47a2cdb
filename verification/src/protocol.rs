//! Framing of the Bilibili live-room WebSocket protocol: 16-byte big-endian
//! packet headers, packed (zlib or brotli) bundles of packets, and the
//! operations the overlay reacts to.

use vstd::prelude::*;
use crate::text::{decimal, push_decimal, push_str};

verus! {

pub const PROTOCOL_PLAIN: u16 = 0;
pub const PROTOCOL_POPULARITY: u16 = 1;
pub const PROTOCOL_ZLIB: u16 = 2;
pub const PROTOCOL_BROTLI: u16 = 3;
pub const OP_HEARTBEAT: u32 = 2;
pub const OP_HEARTBEAT_RESPONSE: u32 = 3;
pub const OP_NOTIFICATION: u32 = 5;
pub const OP_ROOM_ENTER: u32 = 7;
pub const OP_ROOM_ENTER_RESPONSE: u32 = 8;
pub const PACKET_HEADER_LEN: usize = 16;

/// One protocol packet: its header fields and its body.
#[derive(Debug, Clone)]
pub struct Packet {
    pub protocol_version: u16,
    pub operation: u32,
    pub body: Vec<u8>,
}

/// The big-endian bytes of a 32-bit value.
pub open spec fn be32(x: int) -> Seq<u8> {
    seq![
        (x / 0x100_0000 % 0x100) as u8,
        (x / 0x1_0000 % 0x100) as u8,
        (x / 0x100 % 0x100) as u8,
        (x % 0x100) as u8,
    ]
}

/// The big-endian bytes of a 16-bit value.
pub open spec fn be16(x: int) -> Seq<u8> {
    seq![(x / 0x100 % 0x100) as u8, (x % 0x100) as u8]
}

/// The 32-bit big-endian number at `at`.
pub open spec fn read_be32(s: Seq<u8>, at: int) -> int {
    s[at] * 0x100_0000 + s[at + 1] * 0x1_0000 + s[at + 2] * 0x100 + s[at + 3]
}

/// The 16-bit big-endian number at `at`.
pub open spec fn read_be16(s: Seq<u8>, at: int) -> int {
    s[at] * 0x100 + s[at + 1]
}

/// The bytes of a packet: the total length (modulo 2^32), the header length
/// 16, the protocol version, the operation and the sequence number 1, all
/// big-endian, then the body.
pub open spec fn packet_bytes(protocol_version: u16, operation: u32, body: Seq<u8>) -> Seq<u8> {
    be32(((16 + body.len()) % 0x1_0000_0000) as int) + be16(16) + be16(protocol_version as int) + be32(
        operation as int,
    ) + be32(1) + body
}

/// The packet that `data` holds, or why it holds none.
pub open spec fn spec_decode_packet(data: Seq<u8>) -> Result<(u16, u32, Seq<u8>), Seq<char>> {
    if data.len() < 16 {
        Err("Bilibili packet 长度不足"@)
    } else {
        let n = read_be32(data, 0);
        if n != data.len() || n < 16 {
            Err("Bilibili packet 长度不匹配"@)
        } else {
            Ok((read_be16(data, 6) as u16, read_be32(data, 8) as u32, data.subrange(16, n)))
        }
    }
}

/// The packets laid one after another in `data` from `cursor` on.
pub open spec fn slice_from(data: Seq<u8>, cursor: int) -> Result<
    Seq<(u16, u32, Seq<u8>)>,
    Seq<char>,
>
    decreases data.len() - cursor,
{
    if cursor < 0 || cursor >= data.len() {
        Ok(Seq::empty())
    } else if cursor + 4 > data.len() {
        Err("Bilibili packet 分片长度不足"@)
    } else {
        let n = read_be32(data, cursor);
        if n == 0 || cursor + n > data.len() {
            Err("Bilibili packet 分片长度不匹配"@)
        } else {
            match spec_decode_packet(data.subrange(cursor, cursor + n)) {
                Err(e) => Err(e),
                Ok(p) => match slice_from(data, cursor + n) {
                    Ok(rest) => Ok(seq![p] + rest),
                    Err(e) => Err(e),
                },
            }
        }
    }
}

pub open spec fn packet_view(p: Packet) -> (u16, u32, Seq<u8>) {
    (p.protocol_version, p.operation, p.body@)
}

fn be32_bytes(x: u32) -> (r: [u8; 4])
    ensures
        r@ == be32(x as int),
{
    [
        (x / 0x100_0000 % 0x100) as u8,
        (x / 0x1_0000 % 0x100) as u8,
        (x / 0x100 % 0x100) as u8,
        (x % 0x100) as u8,
    ]
}

fn be16_bytes(x: u16) -> (r: [u8; 2])
    ensures
        r@ == be16(x as int),
{
    [(x / 0x100 % 0x100) as u8, (x % 0x100) as u8]
}

fn push_all(out: &mut Vec<u8>, bytes: &[u8])
    ensures
        final(out)@ == old(out)@ + bytes@,
{
    let mut i: usize = 0;
    while i < bytes.len()
        invariant
            i <= bytes@.len(),
            out@ == old(out)@ + bytes@.take(i as int),
        decreases bytes@.len() - i,
    {
        out.push(bytes[i]);
        i += 1;
        assert(out@ =~= old(out)@ + bytes@.take(i as int));
    }
    assert(bytes@.take(bytes@.len() as int) =~= bytes@);
}

/// Frames `body` as one packet.
pub fn build_packet(protocol_version: u16, operation: u32, body: &[u8]) -> (r: Vec<u8>)
    ensures
        r@ == packet_bytes(protocol_version, operation, body@),
{
    let mut raw: Vec<u8> = Vec::new();
    let total: u128 = 16 + body.len() as u128;
    let packet_len: u32 = (total % 0x1_0000_0000) as u32;
    push_all(&mut raw, &be32_bytes(packet_len));
    push_all(&mut raw, &be16_bytes(16));
    push_all(&mut raw, &be16_bytes(protocol_version));
    push_all(&mut raw, &be32_bytes(operation));
    push_all(&mut raw, &be32_bytes(1));
    push_all(&mut raw, body);
    assert(raw@ =~= packet_bytes(protocol_version, operation, body@));
    raw
}

/// The heartbeat packet: operation 2, protocol 1, no body.
pub fn build_heartbeat_packet() -> (r: Vec<u8>)
    ensures
        r@ == packet_bytes(PROTOCOL_POPULARITY, OP_HEARTBEAT, Seq::empty()),
{
    let empty: [u8; 0] = [];
    let r = build_packet(PROTOCOL_POPULARITY, OP_HEARTBEAT, &empty);
    assert(empty@ =~= Seq::<u8>::empty());
    r
}

fn read_be32_at(data: &[u8], at: usize) -> (r: u32)
    requires
        at + 4 <= data@.len(),
    ensures
        r == read_be32(data@, at as int),
{
    (data[at] as u32) * 0x100_0000 + (data[at + 1] as u32) * 0x1_0000 + (data[at + 2] as u32)
        * 0x100 + (data[at + 3] as u32)
}

fn slice_to_vec(data: &[u8], start: usize, end: usize) -> (r: Vec<u8>)
    requires
        start <= end <= data@.len(),
    ensures
        r@ == data@.subrange(start as int, end as int),
{
    let mut out: Vec<u8> = Vec::new();
    let mut i: usize = start;
    while i < end
        invariant
            start <= i <= end <= data@.len(),
            out@ == data@.subrange(start as int, i as int),
        decreases end - i,
    {
        out.push(data[i]);
        i += 1;
        assert(out@ =~= data@.subrange(start as int, i as int));
    }
    out
}

fn error_text(text: &str) -> (r: String)
    ensures
        r@ == text@,
{
    String::from_str(text)
}

/// Reads one whole packet from `data`.
pub fn decode_packet(data: &[u8]) -> (r: Result<Packet, String>)
    ensures
        r matches Ok(p) ==> spec_decode_packet(data@) == Ok::<(u16, u32, Seq<u8>), Seq<char>>(
            packet_view(p),
        ),
        r matches Err(e) ==> spec_decode_packet(data@) == Err::<(u16, u32, Seq<u8>), Seq<char>>(
            e@,
        ),
{
    if data.len() < PACKET_HEADER_LEN {
        return Err(error_text("Bilibili packet 长度不足"));
    }
    let packet_len = read_be32_at(data, 0) as usize;
    if packet_len != data.len() || packet_len < PACKET_HEADER_LEN {
        return Err(error_text("Bilibili packet 长度不匹配"));
    }
    let protocol_version: u16 = (data[6] as u16) * 0x100 + (data[7] as u16);
    let operation = read_be32_at(data, 8);
    Ok(Packet { protocol_version, operation, body: slice_to_vec(data, PACKET_HEADER_LEN, packet_len) })
}

/// Splits `data` into the packets laid one after another in it.
pub fn slice_packets(data: &[u8]) -> (r: Result<Vec<Packet>, String>)
    ensures
        r matches Ok(ps) ==> slice_from(data@, 0) == Ok::<Seq<(u16, u32, Seq<u8>)>, Seq<char>>(
            ps@.map_values(|p: Packet| packet_view(p)),
        ),
        r matches Err(e) ==> slice_from(data@, 0) == Err::<Seq<(u16, u32, Seq<u8>)>, Seq<char>>(
            e@,
        ),
{
    let mut packets: Vec<Packet> = Vec::new();
    let mut cursor: usize = 0;
    while cursor < data.len()
        invariant
            cursor <= data@.len(),
            slice_from(data@, 0) == (match slice_from(data@, cursor as int) {
                Ok(rest) => Ok(packets@.map_values(|p: Packet| packet_view(p)) + rest),
                Err(e) => Err(e),
            }),
        decreases data@.len() - cursor,
    {
        if data.len() - cursor < 4 {
            return Err(error_text("Bilibili packet 分片长度不足"));
        }
        let packet_len = read_be32_at(data, cursor) as usize;
        if packet_len == 0 || packet_len > data.len() - cursor {
            return Err(error_text("Bilibili packet 分片长度不匹配"));
        }
        let piece = slice_to_vec(data, cursor, cursor + packet_len);
        let packet = match decode_packet(piece.as_slice()) {
            Ok(p) => p,
            Err(e) => {
                return Err(e);
            },
        };
        let ghost before = packets@.map_values(|p: Packet| packet_view(p));
        packets.push(packet);
        assert(packets@.map_values(|p: Packet| packet_view(p)) =~= before.push(packet_view(packet)));
        proof {
            let next = slice_from(data@, cursor + packet_len);
            match next {
                Ok(rest) => {
                    assert(before + (seq![packet_view(packet)] + rest) =~= before.push(
                        packet_view(packet),
                    ) + rest);
                },
                Err(e) => {},
            }
        }
        cursor = cursor + packet_len;
    }
    assert(packets@.map_values(|p: Packet| packet_view(p)) + Seq::empty() =~= packets@.map_values(
        |p: Packet| packet_view(p),
    ));
    Ok(packets)
}

proof fn lemma_be32_roundtrip(x: int)
    requires
        0 <= x < 0x1_0000_0000,
    ensures
        read_be32(be32(x), 0) == x,
        be32(x).len() == 4,
{
    let b = be32(x);
    assert(b[0] == x / 0x100_0000 % 0x100);
    assert(b[1] == x / 0x1_0000 % 0x100);
    assert(b[2] == x / 0x100 % 0x100);
    assert(b[3] == x % 0x100);
    assert(x / 0x100_0000 % 0x100 * 0x100_0000 + x / 0x1_0000 % 0x100 * 0x1_0000 + x / 0x100 % 0x100
        * 0x100 + x % 0x100 == x) by (nonlinear_arith)
        requires
            0 <= x < 0x1_0000_0000,
    ;
}

proof fn lemma_be16_roundtrip(x: int)
    requires
        0 <= x < 0x1_0000,
    ensures
        read_be16(be16(x), 0) == x,
        be16(x).len() == 2,
{
    let b = be16(x);
    assert(b[0] == x / 0x100 % 0x100);
    assert(b[1] == x % 0x100);
    assert(x / 0x100 % 0x100 * 0x100 + x % 0x100 == x) by (nonlinear_arith)
        requires
            0 <= x < 0x1_0000,
    ;
}

/// A framed packet reads back as the same protocol version, operation and
/// body, as long as its length fits the 32-bit length field.
pub proof fn law_decode_reads_back_built_packet(protocol_version: u16, operation: u32, body: Seq<u8>)
    requires
        16 + body.len() <= u32::MAX,
    ensures
        spec_decode_packet(packet_bytes(protocol_version, operation, body)) == Ok::<
            (u16, u32, Seq<u8>),
            Seq<char>,
        >((protocol_version, operation, body)),
{
    let n: int = 16 + body.len() as int;
    let d = packet_bytes(protocol_version, operation, body);
    lemma_be32_roundtrip(n % 0x1_0000_0000);
    lemma_be16_roundtrip(16);
    lemma_be16_roundtrip(protocol_version as int);
    lemma_be32_roundtrip(operation as int);
    lemma_be32_roundtrip(1);
    let h0 = be32((n % 0x1_0000_0000) as int);
    let h1 = be16(16);
    let h2 = be16(protocol_version as int);
    let h3 = be32(operation as int);
    let h4 = be32(1);
    assert(d.len() == n);
    assert(d.subrange(0, 4) =~= h0);
    assert(read_be32(d, 0) == read_be32(h0, 0));
    assert(d.subrange(6, 8) =~= h2);
    assert(read_be16(d, 6) == read_be16(h2, 0));
    assert(d.subrange(8, 12) =~= h3);
    assert(read_be32(d, 8) == read_be32(h3, 0));
    assert(d.subrange(16, n) =~= body);
}

/// A framed packet is its 16-byte header followed by its body: bytes 0..4
/// hold the packet length (16 plus the body) big-endian, bytes 4..6 the
/// header length 16, bytes 6..8 the protocol version, bytes 8..12 the
/// operation and bytes 12..16 the sequence number 1.
pub proof fn law_packet_layout(protocol_version: u16, operation: u32, body: Seq<u8>)
    requires
        16 + body.len() <= u32::MAX,
    ensures
        ({
            let d = packet_bytes(protocol_version, operation, body);
            &&& d.len() == 16 + body.len()
            &&& d[0] * 0x100_0000 + d[1] * 0x1_0000 + d[2] * 0x100 + d[3] == 16 + body.len()
            &&& d[4] == 0 && d[5] == 16
            &&& d[6] * 0x100 + d[7] == protocol_version
            &&& d[8] * 0x100_0000 + d[9] * 0x1_0000 + d[10] * 0x100 + d[11] == operation
            &&& d[12] == 0 && d[13] == 0 && d[14] == 0 && d[15] == 1
            &&& d.subrange(16, d.len() as int) == body
        }),
{
    let n: int = 16 + body.len() as int;
    let d = packet_bytes(protocol_version, operation, body);
    lemma_be32_roundtrip(n % 0x1_0000_0000);
    lemma_be16_roundtrip(16);
    lemma_be16_roundtrip(protocol_version as int);
    lemma_be32_roundtrip(operation as int);
    lemma_be32_roundtrip(1);
    let h0 = be32((n % 0x1_0000_0000) as int);
    let h2 = be16(protocol_version as int);
    let h3 = be32(operation as int);
    assert(d.subrange(0, 4) =~= h0);
    assert(d[0] == h0[0] && d[1] == h0[1] && d[2] == h0[2] && d[3] == h0[3]);
    assert(d.subrange(6, 8) =~= h2);
    assert(d[6] == h2[0] && d[7] == h2[1]);
    assert(d.subrange(8, 12) =~= h3);
    assert(d[8] == h3[0] && d[9] == h3[1] && d[10] == h3[2] && d[11] == h3[3]);
    assert(be16(16) =~= seq![0u8, 16u8]);
    assert(be32(1) =~= seq![0u8, 0u8, 0u8, 1u8]);
    assert(d.subrange(16, n) =~= body);
}

/// The bytes of several packets laid one after another.
pub open spec fn packets_bytes(ps: Seq<(u16, u32, Seq<u8>)>) -> Seq<u8>
    decreases ps.len(),
{
    if ps.len() == 0 {
        Seq::empty()
    } else {
        packet_bytes(ps[0].0, ps[0].1, ps[0].2) + packets_bytes(ps.drop_first())
    }
}

proof fn lemma_slice_from_shift(a: Seq<u8>, b: Seq<u8>)
    ensures
        slice_from(a + b, a.len() as int) == slice_from(b, 0),
    decreases b.len(),
{
    let d = a + b;
    let c = a.len() as int;
    if b.len() >= 4 {
        let n = read_be32(b, 0);
        assert(read_be32(d, c) == n);
        if n > 0 && n <= b.len() {
            assert(d.subrange(c, c + n) =~= b.subrange(0, n));
            let b2 = b.subrange(n, b.len() as int);
            let a2 = a + b.subrange(0, n);
            assert(a2 + b2 =~= d);
            lemma_slice_from_shift(a2, b2);
            assert(b.subrange(0, n) + b2 =~= b);
            lemma_slice_from_shift(b.subrange(0, n), b2);
        }
    }
}

proof fn lemma_slice_cons(p: (u16, u32, Seq<u8>), rest: Seq<u8>)
    requires
        16 + p.2.len() <= u32::MAX,
    ensures
        slice_from(packet_bytes(p.0, p.1, p.2) + rest, 0) == (match slice_from(rest, 0) {
            Ok(r) => Ok(seq![p] + r),
            Err(e) => Err(e),
        }),
{
    let first = packet_bytes(p.0, p.1, p.2);
    let d = first + rest;
    let n = first.len() as int;
    let hdr: int = ((16 + p.2.len()) % 0x1_0000_0000) as int;
    law_decode_reads_back_built_packet(p.0, p.1, p.2);
    lemma_be32_roundtrip(hdr);
    assert(first.subrange(0, 4) =~= be32(hdr));
    assert(d[0] == first[0] && d[1] == first[1] && d[2] == first[2] && d[3] == first[3]);
    assert(read_be32(d, 0) == read_be32(be32(hdr), 0));
    assert(d.subrange(0, n) =~= first);
    lemma_slice_from_shift(first, rest);
}

/// Packets framed one after another split back into the same packets.
pub proof fn law_slice_reads_back_built_packets(ps: Seq<(u16, u32, Seq<u8>)>)
    requires
        forall|i: int| 0 <= i < ps.len() ==> 16 + (#[trigger] ps[i]).2.len() <= u32::MAX,
    ensures
        slice_from(packets_bytes(ps), 0) == Ok::<Seq<(u16, u32, Seq<u8>)>, Seq<char>>(ps),
    decreases ps.len(),
{
    if ps.len() > 0 {
        let tail = ps.drop_first();
        assert forall|i: int| 0 <= i < tail.len() implies 16 + (#[trigger] tail[i]).2.len()
            <= u32::MAX by {
            assert(tail[i] == ps[i + 1]);
        }
        law_slice_reads_back_built_packets(tail);
        assert(16 + ps[0].2.len() <= u32::MAX);
        lemma_slice_cons(ps[0], packets_bytes(tail));
        assert(packets_bytes(ps) == packet_bytes(ps[0].0, ps[0].1, ps[0].2) + packets_bytes(tail));
        assert(seq![ps[0]] + tail =~= ps);
        let whole = seq![ps[0]] + tail;
        assert(slice_from(packets_bytes(ps), 0) == Ok::<Seq<(u16, u32, Seq<u8>)>, Seq<char>>(whole));
        assert(whole == ps);
    } else {
        assert(packets_bytes(ps) =~= Seq::<u8>::empty());
        assert(ps =~= Seq::<(u16, u32, Seq<u8>)>::empty());
    }
}

/// What flate2's zlib decoder yields when `data` is read to its end: the
/// decompressed bytes, or the text of the I/O error it stops with.
pub uninterp spec fn zlib_inflate(data: Seq<u8>) -> Result<Seq<u8>, Seq<char>>;

/// What the brotli crate's `Decompressor` yields when `data` is read to its
/// end: the decompressed bytes, or the text of the I/O error it stops with.
pub uninterp spec fn brotli_inflate(data: Seq<u8>) -> Result<Seq<u8>, Seq<char>>;

pub open spec fn bytes_result(r: Result<Vec<u8>, String>) -> Result<Seq<u8>, Seq<char>> {
    match r {
        Ok(v) => Ok(v@),
        Err(e) => Err(e@),
    }
}

/// `flate2::read::ZlibDecoder` over `data`, read to the end with
/// `Read::read_to_end`; an error is turned into its text. The result is
/// stated to be `zlib_inflate` of the input; the decompression itself is
/// not stated.
#[verifier::external_body]
fn zlib_decompress(data: &[u8]) -> (r: Result<Vec<u8>, String>)
    ensures
        bytes_result(r) == zlib_inflate(data@),
{
    let mut decoder = flate2::read::ZlibDecoder::new(data);
    let mut decoded = Vec::new();
    match std::io::Read::read_to_end(&mut decoder, &mut decoded) {
        Ok(_) => Ok(decoded),
        Err(error) => Err(error.to_string()),
    }
}

/// `brotli::Decompressor` over `data` (with a read buffer of `buffer_size`
/// bytes, which does not change the output), read to the end with
/// `Read::read_to_end`; an error is turned into its text. The result is
/// stated to be `brotli_inflate` of the input; the decompression itself is
/// not stated.
#[verifier::external_body]
fn brotli_decompress(data: &[u8], buffer_size: usize) -> (r: Result<Vec<u8>, String>)
    ensures
        bytes_result(r) == brotli_inflate(data@),
{
    let mut decoder = brotli::Decompressor::new(data, buffer_size);
    let mut decoded = Vec::new();
    match std::io::Read::read_to_end(&mut decoder, &mut decoded) {
        Ok(_) => Ok(decoded),
        Err(error) => Err(error.to_string()),
    }
}

/// The packets a received packet stands for: itself when it is plain, the
/// packets packed in its decompressed body when it is compressed.
pub open spec fn spec_expand_packet(p: (u16, u32, Seq<u8>)) -> Result<
    Seq<(u16, u32, Seq<u8>)>,
    Seq<char>,
> {
    if p.0 == 0 || p.0 == 1 {
        Ok(seq![p])
    } else if p.0 == 2 {
        match zlib_inflate(p.2) {
            Ok(d) => slice_from(d, 0),
            Err(e) => Err("zlib 解压失败："@ + e),
        }
    } else if p.0 == 3 {
        match brotli_inflate(p.2) {
            Ok(d) => slice_from(d, 0),
            Err(e) => Err("brotli 解压失败："@ + e),
        }
    } else {
        Err("未知 Bilibili protocolVersion："@ + decimal(p.0 as nat))
    }
}

fn prefixed_error(prefix: &str, detail: String) -> (r: String)
    ensures
        r@ == prefix@ + detail@,
{
    let mut e = String::from_str(prefix);
    push_str(&mut e, detail.as_str());
    e
}

pub fn expand_packet(packet: Packet) -> (r: Result<Vec<Packet>, String>)
    ensures
        r matches Ok(ps) ==> spec_expand_packet(packet_view(packet)) == Ok::<
            Seq<(u16, u32, Seq<u8>)>,
            Seq<char>,
        >(ps@.map_values(|p: Packet| packet_view(p))),
        r matches Err(e) ==> spec_expand_packet(packet_view(packet)) == Err::<
            Seq<(u16, u32, Seq<u8>)>,
            Seq<char>,
        >(e@),
{
    let pv = packet.protocol_version;
    if pv == PROTOCOL_PLAIN || pv == PROTOCOL_POPULARITY {
        let ghost view = packet_view(packet);
        let mut out: Vec<Packet> = Vec::new();
        out.push(packet);
        assert(out@.map_values(|p: Packet| packet_view(p)) =~= seq![view]);
        Ok(out)
    } else if pv == PROTOCOL_ZLIB {
        match zlib_decompress(packet.body.as_slice()) {
            Ok(decoded) => slice_packets(decoded.as_slice()),
            Err(error) => Err(prefixed_error("zlib 解压失败：", error)),
        }
    } else if pv == PROTOCOL_BROTLI {
        match brotli_decompress(packet.body.as_slice(), 4096) {
            Ok(decoded) => slice_packets(decoded.as_slice()),
            Err(error) => Err(prefixed_error("brotli 解压失败：", error)),
        }
    } else {
        let mut e = String::from_str("未知 Bilibili protocolVersion：");
        push_decimal(&mut e, pv as u64);
        Err(e)
    }
}

/// A plain packet stands for itself; a compressed one stands for exactly the
/// packets framed in its decompressed body.
pub proof fn law_expand_unpacks_framed_packets(p: (u16, u32, Seq<u8>), ps: Seq<(u16, u32, Seq<u8>)>)
    requires
        forall|i: int| 0 <= i < ps.len() ==> 16 + (#[trigger] ps[i]).2.len() <= u32::MAX,
    ensures
        p.0 == PROTOCOL_PLAIN || p.0 == PROTOCOL_POPULARITY ==> spec_expand_packet(p) == Ok::<
            Seq<(u16, u32, Seq<u8>)>,
            Seq<char>,
        >(seq![p]),
        p.0 == PROTOCOL_ZLIB && zlib_inflate(p.2) == Ok::<Seq<u8>, Seq<char>>(packets_bytes(ps))
            ==> spec_expand_packet(p) == Ok::<Seq<(u16, u32, Seq<u8>)>, Seq<char>>(ps),
        p.0 == PROTOCOL_BROTLI && brotli_inflate(p.2) == Ok::<Seq<u8>, Seq<char>>(packets_bytes(ps))
            ==> spec_expand_packet(p) == Ok::<Seq<(u16, u32, Seq<u8>)>, Seq<char>>(ps),
{
    law_slice_reads_back_built_packets(ps);
}

/// What the overlay takes from the packets of one frame.
#[derive(Debug, Clone)]
pub struct FramePackets {
    /// The bodies of the notification packets, in order.
    pub notification_bodies: Vec<Vec<u8>>,
    pub heartbeat_response: bool,
    pub room_enter_response: bool,
}

/// The bodies of the notification packets among `ps`, in order.
pub open spec fn notification_bodies(ps: Seq<(u16, u32, Seq<u8>)>) -> Seq<Seq<u8>>
    decreases ps.len(),
{
    if ps.len() == 0 {
        Seq::empty()
    } else {
        let rest = notification_bodies(ps.drop_last());
        if ps.last().1 == OP_NOTIFICATION {
            rest.push(ps.last().2)
        } else {
            rest
        }
    }
}

pub open spec fn has_operation(ps: Seq<(u16, u32, Seq<u8>)>, op: u32) -> bool {
    exists|i: int| 0 <= i < ps.len() && #[trigger] ps[i].1 == op
}

/// The notifications taken from a frame are the bodies of all of its
/// operation-5 packets, in order, none left out and none added.
pub proof fn law_frame_keeps_every_notification(ps: Seq<(u16, u32, Seq<u8>)>)
    ensures
        notification_bodies(ps) == ps.filter(|p: (u16, u32, Seq<u8>)| p.1 == 5u32).map_values(
            |p: (u16, u32, Seq<u8>)| p.2,
        ),
        notification_bodies(ps).len() == ps.filter(|p: (u16, u32, Seq<u8>)| p.1 == 5u32).len(),
    decreases ps.len(),
{
    let pred = |p: (u16, u32, Seq<u8>)| p.1 == 5u32;
    let body = |p: (u16, u32, Seq<u8>)| p.2;
    if ps.len() > 0 {
        law_frame_keeps_every_notification(ps.drop_last());
        let sub = ps.drop_last().filter(pred);
        reveal_with_fuel(Seq::filter, 2);
        assert(ps.filter(pred) == (if pred(ps.last()) {
            sub.push(ps.last())
        } else {
            sub
        }));
        if pred(ps.last()) {
            assert(sub.push(ps.last()).map_values(body) =~= sub.map_values(body).push(ps.last().2));
        }
    } else {
        assert(ps.filter(pred) =~= Seq::<(u16, u32, Seq<u8>)>::empty());
        assert(ps.filter(pred).map_values(body) =~= Seq::<Seq<u8>>::empty());
    }
}

/// The packets of a received frame, or why it cannot be read.
pub open spec fn spec_frame_packets(data: Seq<u8>) -> Result<Seq<(u16, u32, Seq<u8>)>, Seq<char>> {
    match spec_decode_packet(data) {
        Ok(p) => spec_expand_packet(p),
        Err(e) => Err(e),
    }
}

/// `f` is what the overlay takes from packets `ps`.
pub open spec fn frame_of(f: FramePackets, ps: Seq<(u16, u32, Seq<u8>)>) -> bool {
    &&& f.notification_bodies@.map_values(|b: Vec<u8>| b@) == notification_bodies(ps)
    &&& f.heartbeat_response == has_operation(ps, OP_HEARTBEAT_RESPONSE)
    &&& f.room_enter_response == has_operation(ps, OP_ROOM_ENTER_RESPONSE)
}

/// Reads one received WebSocket frame: decodes its packet, unpacks it and
/// sorts the packets by operation.
pub fn decode_frame(data: &[u8]) -> (r: Result<FramePackets, String>)
    ensures
        r matches Ok(f) ==> spec_frame_packets(data@) matches Ok(ps) && frame_of(f, ps),
        r matches Ok(f) ==> spec_frame_packets(data@) matches Ok(ps)
            && f.notification_bodies@.map_values(|b: Vec<u8>| b@) == ps.filter(
            |p: (u16, u32, Seq<u8>)| p.1 == 5u32,
        ).map_values(|p: (u16, u32, Seq<u8>)| p.2),
        r matches Err(e) ==> spec_frame_packets(data@) == Err::<Seq<(u16, u32, Seq<u8>)>, Seq<char>>(
            e@,
        ),
{
    let packet = match decode_packet(data) {
        Ok(p) => p,
        Err(e) => {
            return Err(e);
        },
    };
    let packets = match expand_packet(packet) {
        Ok(ps) => ps,
        Err(e) => {
            return Err(e);
        },
    };
    let ghost ps = packets@.map_values(|p: Packet| packet_view(p));
    let mut bodies: Vec<Vec<u8>> = Vec::new();
    let mut heartbeat_response = false;
    let mut room_enter_response = false;
    let mut i: usize = 0;
    while i < packets.len()
        invariant
            i <= packets@.len(),
            ps == packets@.map_values(|p: Packet| packet_view(p)),
            bodies@.map_values(|b: Vec<u8>| b@) == notification_bodies(ps.take(i as int)),
            heartbeat_response == has_operation(ps.take(i as int), OP_HEARTBEAT_RESPONSE),
            room_enter_response == has_operation(ps.take(i as int), OP_ROOM_ENTER_RESPONSE),
        decreases packets@.len() - i,
    {
        let ghost pre = ps.take(i as int);
        let ghost cur = ps.take(i + 1);
        assert(cur.drop_last() =~= pre);
        assert(cur.last() == packet_view(packets@[i as int]));
        let op = packets[i].operation;
        if op == OP_NOTIFICATION {
            let ghost before = bodies@.map_values(|b: Vec<u8>| b@);
            let body = packets[i].body.clone();
            bodies.push(body);
            assert(bodies@.map_values(|b: Vec<u8>| b@) =~= before.push(packets@[i as int].body@));
        } else if op == OP_HEARTBEAT_RESPONSE {
            heartbeat_response = true;
        } else if op == OP_ROOM_ENTER_RESPONSE {
            room_enter_response = true;
        }
        proof {
            assert(cur[i as int] == packet_view(packets@[i as int]));
            assert(cur[i as int].1 == op);
            if op == OP_HEARTBEAT_RESPONSE {
                assert(has_operation(cur, OP_HEARTBEAT_RESPONSE));
            }
            if op == OP_ROOM_ENTER_RESPONSE {
                assert(has_operation(cur, OP_ROOM_ENTER_RESPONSE));
            }
            if has_operation(pre, OP_HEARTBEAT_RESPONSE) {
                let k = choose|k: int| 0 <= k < pre.len() && pre[k].1 == OP_HEARTBEAT_RESPONSE;
                assert(cur[k] == pre[k]);
            }
            if has_operation(cur, OP_HEARTBEAT_RESPONSE) && op != OP_HEARTBEAT_RESPONSE {
                let k = choose|k: int| 0 <= k < cur.len() && cur[k].1 == OP_HEARTBEAT_RESPONSE;
                assert(k != i);
                assert(pre[k] == cur[k]);
            }
            if has_operation(pre, OP_ROOM_ENTER_RESPONSE) {
                let k = choose|k: int| 0 <= k < pre.len() && pre[k].1 == OP_ROOM_ENTER_RESPONSE;
                assert(cur[k] == pre[k]);
            }
            if has_operation(cur, OP_ROOM_ENTER_RESPONSE) && op != OP_ROOM_ENTER_RESPONSE {
                let k = choose|k: int| 0 <= k < cur.len() && cur[k].1 == OP_ROOM_ENTER_RESPONSE;
                assert(k != i);
                assert(pre[k] == cur[k]);
            }
        }
        i += 1;
    }
    assert(ps.take(packets@.len() as int) =~= ps);
    proof {
        law_frame_keeps_every_notification(ps);
    }
    Ok(FramePackets { notification_bodies: bodies, heartbeat_response, room_enter_response })
}

/// The bytes that `serde_json::to_vec` writes for a JSON object whose
/// members are `texts` (string values) followed by `numbers` (unsigned
/// integer values), a later member replacing an earlier one of the same name.
pub uninterp spec fn json_object_bytes(
    texts: Seq<(Seq<char>, Seq<char>)>,
    numbers: Seq<(Seq<char>, u64)>,
) -> Seq<u8>;

pub open spec fn text_pairs(v: Seq<(String, String)>) -> Seq<(Seq<char>, Seq<char>)> {
    v.map_values(|p: (String, String)| (p.0@, p.1@))
}

pub open spec fn number_pairs(v: Seq<(String, u64)>) -> Seq<(Seq<char>, u64)> {
    v.map_values(|p: (String, u64)| (p.0@, p.1))
}

/// Builds a `serde_json::Map` from the given members (string values first,
/// then numbers) and serializes it with `serde_json::to_vec`. The bytes are
/// stated to be `json_object_bytes` of the members; their JSON text is not
/// stated.
#[verifier::external_body]
fn json_object_to_vec(texts: Vec<(String, String)>, numbers: Vec<(String, u64)>) -> (r: Vec<u8>)
    ensures
        r@ == json_object_bytes(text_pairs(texts@), number_pairs(numbers@)),
{
    let mut object = serde_json::Map::new();
    object.extend(texts.into_iter().map(|(key, value)| (key, serde_json::Value::String(value))));
    object.extend(numbers.into_iter().map(|(key, value)| (key, serde_json::Value::from(value))));
    serde_json::to_vec(&object).unwrap_or_default()
}

/// The string members of the room-enter request body.
pub open spec fn enter_texts(token: Seq<char>) -> Seq<(Seq<char>, Seq<char>)> {
    seq![("buvid"@, ""@), ("platform"@, "danmuji"@), ("key"@, token)]
}

/// The number members of the room-enter request body.
pub open spec fn enter_numbers(uid: u64, room_id: u64) -> Seq<(Seq<char>, u64)> {
    seq![("uid"@, uid), ("roomid"@, room_id), ("protover"@, 3u64), ("type"@, 2u64)]
}

fn text_pair(key: &str, value: &str) -> (r: (String, String))
    ensures
        r.0@ == key@,
        r.1@ == value@,
{
    (String::from_str(key), String::from_str(value))
}

fn number_pair(key: &str, value: u64) -> (r: (String, u64))
    ensures
        r.0@ == key@,
        r.1 == value,
{
    (String::from_str(key), value)
}

/// The room-enter packet (operation 7, protocol 1) whose JSON body carries
/// the viewer id, the room id, protocol version 3, platform `danmuji`, type 2
/// and the token as `key`.
pub fn build_enter_packet(uid: u64, room_id: u64, token: &str) -> (r: Vec<u8>)
    ensures
        r@ == packet_bytes(
            PROTOCOL_POPULARITY,
            OP_ROOM_ENTER,
            json_object_bytes(enter_texts(token@), enter_numbers(uid, room_id)),
        ),
{
    let mut texts: Vec<(String, String)> = Vec::new();
    texts.push(text_pair("buvid", ""));
    texts.push(text_pair("platform", "danmuji"));
    texts.push(text_pair("key", token));
    let mut numbers: Vec<(String, u64)> = Vec::new();
    numbers.push(number_pair("uid", uid));
    numbers.push(number_pair("roomid", room_id));
    numbers.push(number_pair("protover", 3));
    numbers.push(number_pair("type", 2));
    assert(text_pairs(texts@) =~= enter_texts(token@));
    assert(number_pairs(numbers@) =~= enter_numbers(uid, room_id));
    let body = json_object_to_vec(texts, numbers);
    build_packet(PROTOCOL_POPULARITY, OP_ROOM_ENTER, body.as_slice())
}

} // verus!
