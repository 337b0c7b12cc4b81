//! Transport framing and the two payloads that ride on it. A frame is an
//! 8-byte big-endian length followed by that many bytes; a payload is either
//! the handshake word `hello` or a move written as `<col> <row>`.
use vstd::prelude::*;
use crate::entities::{Move, in_range};

verus! {

/// Failures of the link: a malformed payload, or a stream that ended early.
#[derive(Clone, Copy, Debug, PartialEq, Eq, Structural)]
pub enum WireError {
    ProtocolError,
    ConnectionError,
}

/// The eight big-endian bytes of `n`.
pub open spec fn be_bytes(n: u64) -> Seq<u8> {
    seq![
        (n >> 56u64) as u8,
        (n >> 48u64) as u8,
        (n >> 40u64) as u8,
        (n >> 32u64) as u8,
        (n >> 24u64) as u8,
        (n >> 16u64) as u8,
        (n >> 8u64) as u8,
        n as u8,
    ]
}

/// The number that eight big-endian bytes stand for.
pub open spec fn be_value(b: Seq<u8>) -> u64 {
    ((b[0] as u64) << 56u64) | ((b[1] as u64) << 48u64) | ((b[2] as u64) << 40u64) | ((b[3] as u64)
        << 32u64) | ((b[4] as u64) << 24u64) | ((b[5] as u64) << 16u64) | ((b[6] as u64) << 8u64) | (
    b[7] as u64)
}

/// Reading back the bytes of a number gives the number.
pub proof fn lemma_be_round_trip(n: u64)
    ensures
        be_value(be_bytes(n)) == n,
{
    let b = be_bytes(n);
    assert(((((n >> 56u64) as u8) as u64) << 56u64) | ((((n >> 48u64) as u8) as u64) << 48u64) | ((((n
        >> 40u64) as u8) as u64) << 40u64) | ((((n >> 32u64) as u8) as u64) << 32u64) | ((((n
        >> 24u64) as u8) as u64) << 24u64) | ((((n >> 16u64) as u8) as u64) << 16u64) | ((((n
        >> 8u64) as u8) as u64) << 8u64) | ((n as u8) as u64) == n) by (bit_vector);
}

/// The frame that carries `payload`.
pub open spec fn frame_of(payload: Seq<u8>) -> Seq<u8> {
    be_bytes(payload.len() as u64) + payload
}

/// Frames `payload`: its length in eight big-endian bytes, then the payload.
pub fn encode_frame(payload: &[u8]) -> (r: Vec<u8>)
    ensures
        r@ == frame_of(payload@),
{
    let n = payload.len() as u64;
    let mut r: Vec<u8> = vec![
        (n >> 56u64) as u8,
        (n >> 48u64) as u8,
        (n >> 40u64) as u8,
        (n >> 32u64) as u8,
        (n >> 24u64) as u8,
        (n >> 16u64) as u8,
        (n >> 8u64) as u8,
        n as u8,
    ];
    let mut i: usize = 0;
    while i < payload.len()
        invariant
            i <= payload@.len(),
            r@ == be_bytes(n) + payload@.take(i as int),
        decreases payload@.len() - i,
    {
        r.push(payload[i]);
        i = i + 1;
        assert(payload@.take(i as int) =~= payload@.take(i - 1).push(payload@[i - 1]));
    }
    assert(payload@.take(i as int) =~= payload@);
    r
}

/// The payload length that a frame header announces.
pub fn frame_length(header: &[u8]) -> (n: u64)
    requires
        header@.len() == 8,
    ensures
        n == be_value(header@),
{
    ((header[0] as u64) << 56u64) | ((header[1] as u64) << 48u64) | ((header[2] as u64) << 40u64)
        | ((header[3] as u64) << 32u64) | ((header[4] as u64) << 24u64) | ((header[5] as u64)
        << 16u64) | ((header[6] as u64) << 8u64) | (header[7] as u64)
}

/// A whole frame stands at the start of `bytes`.
pub open spec fn frame_complete(bytes: Seq<u8>) -> bool {
    bytes.len() >= 8 && bytes.len() - 8 >= be_value(bytes.take(8))
}

/// Reads the first frame of `bytes`, everything the stream delivered before
/// it closed. Gives the payload and the number of bytes the frame took, or
/// `ConnectionError` when the stream ended before the header or before the
/// announced number of bytes.
pub fn read_frame(bytes: &[u8]) -> (r: Result<(Vec<u8>, usize), WireError>)
    ensures
        r is Ok <==> frame_complete(bytes@),
        r is Err ==> r == Err::<(Vec<u8>, usize), WireError>(WireError::ConnectionError),
        r matches Ok((payload, used)) ==> {
            &&& used == 8 + be_value(bytes@.take(8))
            &&& payload@ == bytes@.subrange(8, used as int)
        },
{
    if bytes.len() < 8 {
        return Err(WireError::ConnectionError);
    }
    let header = slice_prefix(bytes, 8);
    let n = frame_length(header.as_slice());
    if ((bytes.len() - 8) as u64) < n {
        return Err(WireError::ConnectionError);
    }
    let used = 8 + n as usize;
    let mut payload: Vec<u8> = Vec::new();
    let mut i: usize = 8;
    while i < used
        invariant
            8 <= i <= used <= bytes@.len(),
            payload@ == bytes@.subrange(8, i as int),
        decreases used - i,
    {
        payload.push(bytes[i]);
        i = i + 1;
        assert(payload@ =~= bytes@.subrange(8, i as int));
    }
    Ok((payload, used))
}

/// The first `n` bytes of `bytes`.
fn slice_prefix(bytes: &[u8], n: usize) -> (r: Vec<u8>)
    requires
        n <= bytes@.len(),
    ensures
        r@ == bytes@.take(n as int),
{
    let mut r: Vec<u8> = Vec::new();
    let mut i: usize = 0;
    while i < n
        invariant
            i <= n <= bytes@.len(),
            r@ == bytes@.take(i as int),
        decreases n - i,
    {
        r.push(bytes[i]);
        i = i + 1;
        assert(r@ =~= bytes@.take(i as int));
    }
    r
}

/// Framing a payload and reading the result back gives the payload, and
/// takes exactly the frame.
pub proof fn lemma_frame_round_trip(payload: Seq<u8>)
    requires
        payload.len() <= u64::MAX,
    ensures
        frame_complete(frame_of(payload)),
        frame_of(payload).subrange(8, frame_of(payload).len() as int) == payload,
        be_value(frame_of(payload).take(8)) == payload.len(),
{
    let f = frame_of(payload);
    lemma_be_round_trip(payload.len() as u64);
    assert(f.take(8) =~= be_bytes(payload.len() as u64));
    assert(f.subrange(8, f.len() as int) =~= payload);
}

/// The handshake payload: the ASCII bytes of `hello`.
pub open spec fn hello_spec() -> Seq<u8> {
    seq![104u8, 101u8, 108u8, 108u8, 111u8]
}

/// The handshake payload.
pub fn hello_payload() -> (r: Vec<u8>)
    ensures
        r@ == hello_spec(),
{
    let r: Vec<u8> = vec![104u8, 101u8, 108u8, 108u8, 111u8];
    assert(r@ =~= hello_spec());
    r
}

/// Whether a payload is exactly the handshake word.
pub fn is_hello(b: &[u8]) -> (r: bool)
    ensures
        r == (b@ == hello_spec()),
{
    let ok = b.len() == 5 && b[0] == 104u8 && b[1] == 101u8 && b[2] == 108u8 && b[3] == 108u8
        && b[4] == 111u8;
    if ok {
        assert(b@ =~= hello_spec());
    }
    ok
}

/// An ASCII digit that stands for a coordinate: `0`, `1` or `2`.
pub open spec fn is_coord_digit(b: u8) -> bool {
    48 <= b <= 50
}

/// The payload of a move: its column and row in decimal, one space between.
pub open spec fn move_payload(col: int, row: int) -> Seq<u8> {
    seq![(48 + col) as u8, 32u8, (48 + row) as u8]
}

/// What a move payload decodes to: a move when it is a coordinate digit, a
/// space and a coordinate digit, else `ProtocolError`.
pub open spec fn decode_move_spec(b: Seq<u8>) -> Result<Move, WireError> {
    if b.len() == 3 && is_coord_digit(b[0]) && b[1] == 32 && is_coord_digit(b[2]) {
        Ok(Move { col: (b[0] - 48) as i32, row: (b[2] - 48) as i32 })
    } else {
        Err(WireError::ProtocolError)
    }
}

/// The payload of a move whose coordinates are in `[0, 2]`.
pub fn encode_move(m: Move) -> (r: Vec<u8>)
    requires
        in_range(m.col as int, m.row as int),
    ensures
        r@ == move_payload(m.col as int, m.row as int),
{
    let r: Vec<u8> = vec![(48 + m.col) as u8, 32u8, (48 + m.row) as u8];
    assert(r@ =~= move_payload(m.col as int, m.row as int));
    r
}

/// Decodes a move payload.
pub fn decode_move(b: &[u8]) -> (r: Result<Move, WireError>)
    ensures
        r == decode_move_spec(b@),
{
    if b.len() == 3 && 48u8 <= b[0] && b[0] <= 50u8 && b[1] == 32u8 && 48u8 <= b[2] && b[2] <= 50u8 {
        Ok(Move { col: (b[0] - 48u8) as i32, row: (b[2] - 48u8) as i32 })
    } else {
        Err(WireError::ProtocolError)
    }
}

/// Decoding the payload of a move gives the move back.
pub proof fn lemma_move_round_trip(m: Move)
    requires
        in_range(m.col as int, m.row as int),
    ensures
        decode_move_spec(move_payload(m.col as int, m.row as int)) == Ok::<Move, WireError>(m),
{
}

/// For a move whose coordinates are in `[0, 2]`, framing its payload,
/// reading the frame back and decoding the payload gives the same column and
/// row.
pub proof fn lemma_move_frame_round_trip(m: Move)
    requires
        in_range(m.col as int, m.row as int),
    ensures
        frame_complete(frame_of(move_payload(m.col as int, m.row as int))),
        decode_move_spec(
            frame_of(move_payload(m.col as int, m.row as int)).subrange(
                8,
                8 + be_value(frame_of(move_payload(m.col as int, m.row as int)).take(8)),
            ),
        ) == Ok::<Move, WireError>(m),
{
    let p = move_payload(m.col as int, m.row as int);
    lemma_frame_round_trip(p);
    lemma_move_round_trip(m);
}

} // verus!
