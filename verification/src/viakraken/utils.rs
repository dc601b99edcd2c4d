//! Wire primitives: variable-length integers, strings, booleans and frames.

use vstd::prelude::*;
use vstd::slice::slice_subrange;
use vstd::utf8::{decode_utf8, encode_utf8, valid_utf8};
use bytes::BytesMut;
use crate::error::PacketError;

verus! {

/// The longest frame payload that is read or written.
pub const MAX_PACKET_LEN: i32 = 2_097_152;

/// `bytes::BytesMut`, a growable byte buffer.
#[verifier::external_type_specification]
#[verifier::external_body]
pub struct ExBytesMut(BytesMut);

/// The bytes that a `BytesMut` holds, front to back.
pub uninterp spec fn buffer_bytes(b: BytesMut) -> Seq<u8>;

/// `BytesMut::new` gives a buffer that holds nothing.
#[verifier::external_body]
fn new_bytes_mut() -> (b: BytesMut)
    ensures
        buffer_bytes(b) == Seq::<u8>::empty(),
{
    BytesMut::new()
}

/// `BytesMut::extend_from_slice` appends the slice behind what the buffer
/// holds. It panics where the new length cannot be allocated.
#[verifier::external_body]
fn bytes_mut_extend(b: &mut BytesMut, tail: &[u8])
    requires
        buffer_bytes(*old(b)).len() + tail@.len() <= isize::MAX,
    ensures
        buffer_bytes(*final(b)) == buffer_bytes(*old(b)) + tail@,
{
    b.extend_from_slice(tail)
}

/// `BytesMut::as_ref` lends what the buffer holds.
#[verifier::external_body]
fn bytes_mut_as_slice(b: &BytesMut) -> (s: &[u8])
    ensures
        s@ == buffer_bytes(*b),
{
    b.as_ref()
}

/// `std::str::from_utf8` accepts exactly the well-formed UTF-8 encodings and
/// yields the text that they encode.
#[verifier::external_body]
pub(crate) fn text_from_utf8(data: &[u8]) -> (r: Option<String>)
    ensures
        r is Some <==> valid_utf8(data@),
        r matches Some(s) ==> s@ == decode_utf8(data@),
{
    match std::str::from_utf8(data) {
        Ok(s) => Some(s.to_owned()),
        Err(_) => None,
    }
}

/// A byte buffer that packets are built in.
#[derive(Debug)]
pub struct ByteBuffer {
    inner: BytesMut,
}

impl View for ByteBuffer {
    type V = Seq<u8>;

    closed spec fn view(&self) -> Seq<u8> {
        buffer_bytes(self.inner)
    }
}

impl Default for ByteBuffer {
    fn default() -> (b: Self)
        ensures
            b@ == Seq::<u8>::empty(),
    {
        ByteBuffer::new()
    }
}

impl ByteBuffer {
    pub fn new() -> (b: Self)
        ensures
            b@ == Seq::<u8>::empty(),
    {
        ByteBuffer { inner: new_bytes_mut() }
    }

    pub fn push(&mut self, byte: u8)
        requires
            old(self)@.len() < isize::MAX,
        ensures
            final(self)@ == old(self)@.push(byte),
    {
        let one = [byte];
        bytes_mut_extend(&mut self.inner, one.as_slice());
        assert(self@ =~= old(self)@.push(byte));
    }

    pub fn extend_from_slice(&mut self, bytes: &[u8])
        requires
            old(self)@.len() + bytes@.len() <= isize::MAX,
        ensures
            final(self)@ == old(self)@ + bytes@,
    {
        bytes_mut_extend(&mut self.inner, bytes);
    }

    pub fn as_slice(&self) -> (s: &[u8])
        ensures
            s@ == self@,
    {
        bytes_mut_as_slice(&self.inner)
    }

    /// Takes all of `buf`, as a writer does, and says how much was taken.
    pub fn write(&mut self, buf: &[u8]) -> (r: Result<usize, PacketError>)
        requires
            old(self)@.len() + buf@.len() <= isize::MAX,
        ensures
            final(self)@ == old(self)@ + buf@,
            r == Ok::<usize, PacketError>(buf.len()),
    {
        bytes_mut_extend(&mut self.inner, buf);
        Ok(buf.len())
    }

    /// Nothing is held back, so there is nothing to flush.
    pub fn flush(&mut self) -> (r: Result<(), PacketError>)
        ensures
            final(self)@ == old(self)@,
            r == Ok::<(), PacketError>(()),
    {
        Ok(())
    }
}

/// The variable-length encoding of `v`: seven bits a byte, least significant
/// first, with the top bit set on every byte but the last.
pub open spec fn varint_bytes(v: u32) -> Seq<u8>
    decreases v,
{
    if v < 128 {
        seq![v as u8]
    } else {
        seq![(v % 128 + 128) as u8] + varint_bytes(v / 128)
    }
}

pub proof fn lemma_varint_bytes_len(v: u32)
    ensures
        1 <= varint_bytes(v).len() <= 5,
        v < 0x80 ==> varint_bytes(v).len() == 1,
        v < 0x4000 ==> varint_bytes(v).len() <= 2,
        v < 0x20_0000 ==> varint_bytes(v).len() <= 3,
        v < 0x1000_0000 ==> varint_bytes(v).len() <= 4,
{
    reveal_with_fuel(varint_bytes, 5);
}

/// The low seven bits and the shift, as arithmetic.
proof fn lemma_seven_bits(v: u32)
    ensures
        v & !0x7fu32 == 0 <==> v < 128,
        ((v & 0x7f) as u8) | 0x80u8 == (v % 128 + 128) as u8,
        v >> 7 == v / 128,
{
    assert(v & !0x7fu32 == 0 <==> v < 128) by (bit_vector);
    assert(((v & 0x7f) as u8) | 0x80u8 == (v % 128 + 128) as u8) by (bit_vector);
    assert(v >> 7 == v / 128) by (bit_vector);
}

/// Appends the variable-length encoding of `value` to `buf`.
pub fn write_unsigned_varint(buf: &mut Vec<u8>, value: u32)
    ensures
        final(buf)@ == old(buf)@ + varint_bytes(value),
{
    let mut val: u32 = value;
    loop
        invariant
            buf@ + varint_bytes(val) == old(buf)@ + varint_bytes(value),
        decreases val,
    {
        proof {
            lemma_seven_bits(val);
        }
        let ghost before = buf@;
        if (val & !0x7Fu32) == 0 {
            buf.push(val as u8);
            assert(buf@ =~= before + varint_bytes(val));
            return ;
        }
        buf.push(((val & 0x7F) as u8) | 0x80);
        assert(before + varint_bytes(val) =~= buf@ + varint_bytes(val / 128));
        val >>= 7;
    }
}

pub fn write_varint(buf: &mut Vec<u8>, value: i32)
    ensures
        final(buf)@ == old(buf)@ + varint_bytes(value as u32),
{
    write_unsigned_varint(buf, value as u32)
}

pub fn write_varint_buffer(buf: &mut ByteBuffer, value: i32)
    requires
        old(buf)@.len() + varint_bytes(value as u32).len() <= isize::MAX,
    ensures
        final(buf)@ == old(buf)@ + varint_bytes(value as u32),
{
    let mut val: u32 = value as u32;
    loop
        invariant
            buf@ + varint_bytes(val) == old(buf)@ + varint_bytes(value as u32),
            old(buf)@.len() + varint_bytes(value as u32).len() <= isize::MAX,
        decreases val,
    {
        proof {
            lemma_seven_bits(val);
            assert((buf@ + varint_bytes(val)).len() <= isize::MAX);
        }
        let ghost before = buf@;
        if (val & !0x7Fu32) == 0 {
            buf.push(val as u8);
            assert(buf@ =~= before + varint_bytes(val));
            return ;
        }
        buf.push(((val & 0x7F) as u8) | 0x80);
        assert(before + varint_bytes(val) =~= buf@ + varint_bytes(val / 128));
        val >>= 7;
    }
}

/// How many bytes in a row, from `offset` on, have their top bit set.
pub open spec fn continuation_run(data: Seq<u8>, offset: int) -> nat
    decreases data.len() - offset,
{
    if 0 <= offset < data.len() && data[offset] >= 128 {
        1 + continuation_run(data, offset + 1)
    } else {
        0
    }
}

/// The number that groups of seven bits make, least significant group first.
pub open spec fn groups_value(s: Seq<u8>) -> nat
    decreases s.len(),
{
    if s.len() == 0 {
        0
    } else {
        (s[0] % 128) as nat + 128 * groups_value(s.drop_first())
    }
}

/// What reading a variable-length integer at `offset` gives, and the offset
/// behind what was read. An encoding takes at most five bytes; bits above the
/// thirty-second are dropped.
pub open spec fn varint_read(data: Seq<u8>, offset: int) -> (Result<i32, PacketError>, int) {
    let n = continuation_run(data, offset);
    if n >= 5 && offset + 5 < data.len() {
        (Err(PacketError::VarIntTooBig), offset + 6)
    } else if offset + n >= data.len() {
        (Err(PacketError::VarIntEof), offset + n)
    } else {
        (
            Ok(
                ((groups_value(data.subrange(offset, offset + n + 1)) % 0x1_0000_0000) as u32)
                    as i32,
            ),
            offset + n + 1,
        )
    }
}

proof fn lemma_run_bound(data: Seq<u8>, offset: int)
    requires
        0 <= offset,
    ensures
        offset <= data.len() ==> offset + continuation_run(data, offset) <= data.len(),
        offset > data.len() ==> continuation_run(data, offset) == 0,
        forall|i: int|
            offset <= i < offset + continuation_run(data, offset) ==> #[trigger] data[i] >= 128,
        offset + continuation_run(data, offset) < data.len() ==> data[offset + continuation_run(
            data,
            offset,
        )] < 128,
    decreases data.len() - offset,
{
    if offset < data.len() && data[offset] >= 128 {
        lemma_run_bound(data, offset + 1);
    }
}

proof fn lemma_run_prefix(data: Seq<u8>, offset: int, k: nat)
    requires
        0 <= offset,
        offset + k <= data.len(),
        forall|i: int| offset <= i < offset + k ==> data[i] >= 128,
    ensures
        continuation_run(data, offset) == k + continuation_run(data, offset + k),
    decreases k,
{
    if k > 0 {
        lemma_run_prefix(data, offset + 1, (k - 1) as nat);
    }
}

spec fn pow128(k: nat) -> nat {
    if k == 0 {
        1
    } else if k == 1 {
        0x80
    } else if k == 2 {
        0x4000
    } else if k == 3 {
        0x20_0000
    } else {
        0x1000_0000
    }
}

proof fn lemma_groups_push(s: Seq<u8>, b: u8)
    requires
        s.len() <= 4,
    ensures
        groups_value(s.push(b)) == groups_value(s) + (b % 128) * pow128(s.len()),
        groups_value(s) < pow128(s.len()),
    decreases s.len(),
{
    if s.len() == 0 {
        assert(s.push(b).drop_first() =~= s);
        assert(groups_value(s) == 0);
        assert(groups_value(s.push(b)) == (b % 128) as nat);
        assert((b % 128) * pow128(0) == (b % 128) as int) by (nonlinear_arith)
            requires
                pow128(0) == 1,
        ;
    } else {
        lemma_groups_push(s.drop_first(), b);
        assert(s.push(b).drop_first() =~= s.drop_first().push(b));
        assert(s.push(b)[0] == s[0]);
        let d = (b % 128) as int;
        let low = pow128((s.len() - 1) as nat) as int;
        let high = pow128(s.len()) as int;
        assert(high == 128 * low);
        assert(128 * (d * low) == d * high) by (nonlinear_arith)
            requires
                high == 128 * low,
        ;
    }
}

/// Adding the next group of bits by a shift, as arithmetic.
proof fn lemma_add_group(result: u32, value: u32, k: u32)
    requires
        k <= 4,
        value < 128,
        result < pow128(k as nat),
    ensures
        result | (value << (7 * k) as u32) == (result + value * pow128(k as nat)) % 0x1_0000_0000,
{
    if k == 0 {
        assert(result < 1 && value < 128 ==> result | (value << 0u32) == result + value)
            by (bit_vector);
    } else if k == 1 {
        assert(result < 0x80 && value < 128 ==> result | (value << 7u32) == result + value * 0x80)
            by (bit_vector);
    } else if k == 2 {
        assert(result < 0x4000 && value < 128 ==> result | (value << 14u32) == result + value
            * 0x4000) by (bit_vector);
    } else if k == 3 {
        assert(result < 0x20_0000 && value < 128 ==> result | (value << 21u32) == result + value
            * 0x20_0000) by (bit_vector);
    } else {
        assert(result < 0x1000_0000 && value < 128 ==> result | (value << 28u32) == (result + value
            * 0x1000_0000) % 0x1_0000_0000) by (bit_vector);
    }
}

/// Reads a variable-length integer from `data` at `offset`, and moves `offset`
/// behind what was read.
pub fn read_varint_from_slice(data: &[u8], offset: &mut usize) -> (r: Result<i32, PacketError>)
    ensures
        r == varint_read(data@, *old(offset) as int).0,
        *final(offset) == varint_read(data@, *old(offset) as int).1,
        *old(offset) <= data.len() ==> *final(offset) <= data.len(),
{
    let ghost start = *offset as int;
    let mut num_read: u32 = 0;
    let mut result: u32 = 0;
    proof {
        lemma_run_bound(data@, start);
        if start <= data.len() {
            assert(data@.subrange(start, start) =~= Seq::<u8>::empty());
            assert(groups_value(data@.subrange(start, start)) == 0);
        }
    }
    loop
        invariant
            num_read <= 5,
            start == *old(offset),
            *offset == start + num_read,
            start <= data.len() ==> *offset <= data.len(),
            num_read > 0 ==> *offset <= data.len(),
            forall|i: int| start <= i < *offset ==> data@[i] >= 128,
            start <= data.len() && num_read <= 4 ==> result == groups_value(
                data@.subrange(start, *offset as int),
            ),
        decreases 6 - num_read,
    {
        proof {
            lemma_run_bound(data@, start);
            if start <= data.len() {
                lemma_run_prefix(data@, start, num_read as nat);
                lemma_run_bound(data@, *offset as int);
            }
        }
        if *offset >= data.len() {
            return Err(PacketError::VarIntEof);
        }
        let read: u8 = data[*offset];
        *offset = *offset + 1;
        if num_read >= 5 {
            return Err(PacketError::VarIntTooBig);
        }
        let value: u32 = (read & 0x7F) as u32;
        proof {
            let head = data@.subrange(start, *offset - 1);
            assert((read & 0x7f) == read % 128) by (bit_vector);
            assert((read & 0x80) == 0 <==> read < 128) by (bit_vector);
            lemma_groups_push(head, read);
            assert(head.push(read) =~= data@.subrange(start, *offset as int));
            lemma_add_group(result, value, num_read);
        }
        result = result | (value << (7 * num_read));
        num_read += 1;
        if (read & 0x80) == 0 {
            return Ok(result as i32);
        }
        proof {
            if num_read <= 4 {
                let whole = data@.subrange(start, *offset as int);
                lemma_groups_push(whole, 0);
            }
        }
    }
}

/// Takes one more byte of a variable-length integer that arrives byte by byte.
/// `taken` holds the bytes so far. There is no result while more bytes are
/// needed.
pub fn read_varint(taken: &mut Vec<u8>, byte: u8) -> (r: Option<Result<i32, PacketError>>)
    ensures
        final(taken)@ == old(taken)@.push(byte),
        r == (match varint_read(final(taken)@, 0).0 {
            Err(PacketError::VarIntEof) => None,
            done => Some(done),
        }),
{
    taken.push(byte);
    let mut offset: usize = 0;
    match read_varint_from_slice(taken.as_slice(), &mut offset) {
        Err(PacketError::VarIntEof) => None,
        done => Some(done),
    }
}

/// What reading a length-prefixed text at `offset` gives, and the offset
/// behind what was read.
pub open spec fn string_read(data: Seq<u8>, offset: int) -> (Result<Seq<char>, PacketError>, int) {
    let (len, start) = varint_read(data, offset);
    match len {
        Err(e) => (Err(e), start),
        Ok(n) => if n < 0 {
            (Err(PacketError::NegativeStringLength), start)
        } else if start + n > data.len() {
            (Err(PacketError::StringTruncated), start)
        } else if !valid_utf8(data.subrange(start, start + n)) {
            (Err(PacketError::InvalidUtf8), start)
        } else {
            (Ok(decode_utf8(data.subrange(start, start + n))), start + n)
        },
    }
}

/// Whether `r` is the outcome `spec`, with the text in place of its characters.
pub open spec fn is_text_outcome(
    r: Result<String, PacketError>,
    spec: Result<Seq<char>, PacketError>,
) -> bool {
    match spec {
        Ok(text) => r matches Ok(s) && s@ == text,
        Err(e) => r == Err::<String, PacketError>(e),
    }
}

pub fn read_string_from_slice(data: &[u8], offset: &mut usize) -> (r: Result<String, PacketError>)
    ensures
        is_text_outcome(r, string_read(data@, *old(offset) as int).0),
        *final(offset) == string_read(data@, *old(offset) as int).1,
        *old(offset) <= data.len() ==> *final(offset) <= data.len(),
{
    let ghost start = *offset as int;
    let len: i32 = match read_varint_from_slice(data, offset) {
        Ok(len) => len,
        Err(e) => return Err(e),
    };
    if len < 0 {
        return Err(PacketError::NegativeStringLength);
    }
    let len: usize = len as usize;
    proof {
        lemma_run_bound(data@, start);
    }
    if len > data.len() - *offset {
        return Err(PacketError::StringTruncated);
    }
    match text_from_utf8(slice_subrange(data, *offset, *offset + len)) {
        Some(value) => {
            *offset = *offset + len;
            Ok(value)
        },
        None => Err(PacketError::InvalidUtf8),
    }
}

/// What reading a boolean at `offset` gives, and the offset behind what was
/// read.
pub open spec fn bool_read(data: Seq<u8>, offset: int) -> (Result<bool, PacketError>, int) {
    if offset >= data.len() {
        (Err(PacketError::BoolEof), offset)
    } else if data[offset] == 0 {
        (Ok(false), offset + 1)
    } else if data[offset] == 1 {
        (Ok(true), offset + 1)
    } else {
        (Err(PacketError::InvalidBool(data[offset])), offset + 1)
    }
}

pub fn read_bool_from_slice(data: &[u8], offset: &mut usize) -> (r: Result<bool, PacketError>)
    ensures
        r == bool_read(data@, *old(offset) as int).0,
        *final(offset) == bool_read(data@, *old(offset) as int).1,
        *old(offset) <= data.len() ==> *final(offset) <= data.len(),
{
    if *offset >= data.len() {
        return Err(PacketError::BoolEof);
    }
    let value: u8 = data[*offset];
    *offset = *offset + 1;
    match value {
        0x00 => Ok(false),
        0x01 => Ok(true),
        _ => Err(PacketError::InvalidBool(value)),
    }
}

/// The encoding of a text: the length of its UTF-8 form, then that form.
pub open spec fn string_bytes(text: Seq<char>) -> Seq<u8> {
    varint_bytes(encode_utf8(text).len() as u32) + encode_utf8(text)
}

pub open spec fn string_fits(text: Seq<char>) -> bool {
    encode_utf8(text).len() <= i32::MAX
}

/// Appends the length-prefixed text, unless its length cannot be written.
pub fn write_string(buf: &mut Vec<u8>, value: &str) -> (r: Result<(), PacketError>)
    ensures
        string_fits(value@) ==> r is Ok && final(buf)@ == old(buf)@ + string_bytes(value@),
        !string_fits(value@) ==> r == Err::<(), PacketError>(PacketError::StringTooLong)
            && final(buf)@ == old(buf)@,
{
    let bytes = value.as_bytes();
    assert(bytes@ == encode_utf8(value@));
    if bytes.len() > i32::MAX as usize {
        return Err(PacketError::StringTooLong);
    }
    write_varint(buf, bytes.len() as i32);
    buf.extend_from_slice(bytes);
    assert(buf@ =~= old(buf)@ + string_bytes(value@));
    Ok(())
}

/// The buffer, of the announced length, that a frame's payload is read into.
pub fn read_packet(packet_len: i32) -> (r: Result<Vec<u8>, PacketError>)
    ensures
        r is Ok <==> 0 <= packet_len <= MAX_PACKET_LEN,
        r matches Ok(v) ==> v@ == Seq::new(packet_len as nat, |i: int| 0u8),
        r matches Err(e) ==> e == PacketError::InvalidPacketLength,
{
    if packet_len < 0 || packet_len > MAX_PACKET_LEN {
        return Err(PacketError::InvalidPacketLength);
    }
    let payload: Vec<u8> = vec![0u8; packet_len as usize];
    assert(payload@ =~= Seq::new(packet_len as nat, |i: int| 0u8));
    Ok(payload)
}

/// A frame: the length of the payload, then the payload.
pub open spec fn frame_bytes(payload: Seq<u8>) -> Seq<u8> {
    varint_bytes(payload.len() as u32) + payload
}

/// The frame for a payload, unless the payload is too long.
pub fn write_framed_payload(payload: &[u8]) -> (r: Result<ByteBuffer, PacketError>)
    ensures
        r is Ok <==> payload@.len() <= MAX_PACKET_LEN,
        r matches Ok(b) ==> b@ == frame_bytes(payload@),
        r matches Err(e) ==> e == PacketError::PayloadTooLarge,
{
    if payload.len() > MAX_PACKET_LEN as usize {
        return Err(PacketError::PayloadTooLarge);
    }
    let mut frame = ByteBuffer::new();
    proof {
        lemma_varint_bytes_len(payload.len() as u32);
    }
    write_varint_buffer(&mut frame, payload.len() as i32);
    frame.extend_from_slice(payload);
    assert(frame@ =~= frame_bytes(payload@));
    Ok(frame)
}

/// The frame for a packet with this identifier and this payload.
pub fn write_packet(packet_id: i32, payload: &[u8]) -> (r: Result<ByteBuffer, PacketError>)
    ensures
        r is Ok <==> (varint_bytes(packet_id as u32) + payload@).len() <= MAX_PACKET_LEN,
        r matches Ok(b) ==> b@ == frame_bytes(varint_bytes(packet_id as u32) + payload@),
        r matches Err(e) ==> e == PacketError::PayloadTooLarge,
{
    let mut packet: Vec<u8> = Vec::new();
    write_varint(&mut packet, packet_id);
    packet.extend_from_slice(payload);
    assert(packet@ =~= varint_bytes(packet_id as u32) + payload@);
    write_framed_payload(packet.as_slice())
}

/// The identifier at the front of a packet.
pub fn packet_id(packet: &[u8]) -> (r: Result<i32, PacketError>)
    ensures
        r == varint_read(packet@, 0).0,
{
    let mut offset: usize = 0;
    read_varint_from_slice(packet, &mut offset)
}

/// How one character stands in a JSON string.
pub open spec fn escaped_char(c: char) -> Seq<char> {
    if c == '\\' {
        seq!['\\', '\\']
    } else if c == '"' {
        seq!['\\', '"']
    } else if c == '\n' {
        seq!['\\', 'n']
    } else if c == '\r' {
        seq!['\\', 'r']
    } else if c == '\t' {
        seq!['\\', 't']
    } else {
        seq![c]
    }
}

/// `s` as it stands between the quotes of a JSON string.
pub open spec fn escaped(s: Seq<char>) -> Seq<char>
    decreases s.len(),
{
    if s.len() == 0 {
        Seq::empty()
    } else {
        escaped(s.drop_last()) + escaped_char(s.last())
    }
}

pub fn json_escape(input: &str) -> (out: String)
    ensures
        out@ == escaped(input@),
{
    let mut out = String::new();
    for ch in iter: input.chars()
        invariant
            iter.seq() == input@,
            out@ == escaped(input@.take(iter.index() as int)),
    {
        let ghost before = out@;
        let ghost n = iter.index() as int;
        match ch {
            '\\' => {
                out.push('\\');
                out.push('\\');
            },
            '"' => {
                out.push('\\');
                out.push('"');
            },
            '\n' => {
                out.push('\\');
                out.push('n');
            },
            '\r' => {
                out.push('\\');
                out.push('r');
            },
            '\t' => {
                out.push('\\');
                out.push('t');
            },
            _ => {
                out.push(ch);
            },
        }
        assert(out@ =~= before + escaped_char(ch));
        assert(input@.take(n + 1).drop_last() =~= input@.take(n));
        assert(input@.take(n + 1).last() == ch);
    }
    assert(input@.take(input@.len() as int) =~= input@);
    out
}

/// Whether `part` stands in `data` at `offset`.
pub open spec fn stands_at(data: Seq<u8>, offset: int, part: Seq<u8>) -> bool {
    0 <= offset && offset + part.len() <= data.len() && data.subrange(offset, offset + part.len())
        == part
}

/// Pieces that follow each other stand one behind the other.
pub proof fn lemma_stands_split(data: Seq<u8>, offset: int, a: Seq<u8>, b: Seq<u8>)
    requires
        stands_at(data, offset, a + b),
    ensures
        stands_at(data, offset, a),
        stands_at(data, offset + a.len(), b),
{
    let whole = data.subrange(offset, offset + (a + b).len());
    assert(data.subrange(offset, offset + a.len()) =~= a) by {
        assert forall|i: int| 0 <= i < a.len() implies data[offset + i] == a[i] by {
            assert(whole[i] == (a + b)[i]);
        }
    }
    assert(data.subrange(offset + a.len(), offset + a.len() + b.len()) =~= b) by {
        assert forall|i: int| 0 <= i < b.len() implies data[offset + a.len() + i] == b[i] by {
            assert(whole[a.len() + i] == (a + b)[a.len() + i]);
        }
    }
}

proof fn lemma_varint_groups(v: u32)
    ensures
        groups_value(varint_bytes(v)) == v,
    decreases v,
{
    if v < 128 {
        assert(varint_bytes(v).drop_first() =~= Seq::<u8>::empty());
        assert(groups_value(varint_bytes(v).drop_first()) == 0);
    } else {
        lemma_varint_groups(v / 128);
        assert(varint_bytes(v).drop_first() =~= varint_bytes(v / 128));
    }
}

proof fn lemma_varint_run(data: Seq<u8>, offset: int, v: u32)
    requires
        stands_at(data, offset, varint_bytes(v)),
    ensures
        continuation_run(data, offset) == varint_bytes(v).len() - 1,
    decreases v,
{
    lemma_varint_bytes_len(v);
    let part = data.subrange(offset, offset + varint_bytes(v).len());
    assert(part[0] == data[offset]);
    if v >= 128 {
        lemma_stands_split(data, offset, seq![(v % 128 + 128) as u8], varint_bytes(v / 128));
        lemma_varint_run(data, offset + 1, v / 128);
    }
}

/// Reading gives back the integer that was written, wherever its encoding
/// stands, and stops right behind it.
pub proof fn law_varint_round_trip(data: Seq<u8>, offset: int, v: i32)
    requires
        stands_at(data, offset, varint_bytes(v as u32)),
    ensures
        varint_read(data, offset) == (
            Ok::<i32, PacketError>(v),
            offset + varint_bytes(v as u32).len(),
        ),
{
    let u = v as u32;
    lemma_varint_bytes_len(u);
    lemma_varint_run(data, offset, u);
    lemma_varint_groups(u);
    assert(u as i32 == v) by (bit_vector)
        requires
            u == v as u32,
    ;
}

/// Reading gives back the text that was written, wherever its encoding stands,
/// and stops right behind it.
pub proof fn law_string_round_trip(data: Seq<u8>, offset: int, text: Seq<char>)
    requires
        string_fits(text),
        stands_at(data, offset, string_bytes(text)),
    ensures
        string_read(data, offset) == (
            Ok::<Seq<char>, PacketError>(text),
            offset + string_bytes(text).len(),
        ),
{
    let body = encode_utf8(text);
    let n = body.len() as i32;
    assert(n as u32 == body.len() as u32);
    lemma_stands_split(data, offset, varint_bytes(n as u32), body);
    law_varint_round_trip(data, offset, n);
    vstd::utf8::encode_utf8_valid_utf8(text);
    vstd::utf8::encode_utf8_decode_utf8(text);
}

pub open spec fn bool_bytes(b: bool) -> Seq<u8> {
    if b {
        seq![1u8]
    } else {
        seq![0u8]
    }
}

/// Reading gives back the boolean that was written.
pub proof fn law_bool_round_trip(data: Seq<u8>, offset: int, b: bool)
    requires
        stands_at(data, offset, bool_bytes(b)),
    ensures
        bool_read(data, offset) == (Ok::<bool, PacketError>(b), offset + 1),
{
    assert(data.subrange(offset, offset + 1)[0] == bool_bytes(b)[0]);
}

/// A frame announces exactly the payload that follows, and its length is one
/// that a reader accepts.
pub proof fn law_frame_round_trip(payload: Seq<u8>)
    requires
        payload.len() <= MAX_PACKET_LEN,
    ensures
        varint_read(frame_bytes(payload), 0).0 == Ok::<i32, PacketError>(payload.len() as i32),
        frame_bytes(payload).skip(varint_read(frame_bytes(payload), 0).1) == payload,
        0 <= payload.len() as i32 <= MAX_PACKET_LEN,
{
    let n = payload.len() as i32;
    let head = varint_bytes(n as u32);
    let frame = frame_bytes(payload);
    assert(n as u32 == payload.len() as u32);
    assert(frame.subrange(0, head.len() as int) =~= head);
    law_varint_round_trip(frame, 0, n);
    assert(frame.skip(head.len() as int) =~= payload);
}

/// Reading byte by byte agrees with reading from a slice: the bytes of an
/// encoding but the last leave the reader waiting, and the last one ends it
/// with the integer that was written.
pub proof fn law_streamed_varint(v: i32, k: int)
    requires
        0 < k <= varint_bytes(v as u32).len(),
    ensures
        k < varint_bytes(v as u32).len() ==> varint_read(varint_bytes(v as u32).take(k), 0).0
            == Err::<i32, PacketError>(PacketError::VarIntEof),
        k == varint_bytes(v as u32).len() ==> varint_read(varint_bytes(v as u32).take(k), 0).0
            == Ok::<i32, PacketError>(v),
{
    let whole = varint_bytes(v as u32);
    let part = whole.take(k);
    lemma_varint_bytes_len(v as u32);
    assert(whole.subrange(0, whole.len() as int) =~= whole);
    if k == whole.len() {
        assert(part =~= whole);
        law_varint_round_trip(whole, 0, v);
    } else {
        lemma_varint_run(whole, 0, v as u32);
        lemma_run_bound(whole, 0);
        assert forall|i: int| 0 <= i < k implies part[i] >= 128 by {
            assert(whole[i] >= 128);
        }
        lemma_run_prefix(part, 0, k as nat);
        lemma_run_bound(part, k);
    }
}

/// An integer never takes fewer bytes than its shortest encoding.
pub proof fn lemma_read_varint_len(data: Seq<u8>, offset: int)
    requires
        0 <= offset <= data.len(),
        varint_read(data, offset).0 is Ok,
    ensures
        varint_bytes((varint_read(data, offset).0->Ok_0) as u32).len() <= varint_read(
            data,
            offset,
        ).1 - offset,
        varint_read(data, offset).1 <= data.len(),
{
    let n = continuation_run(data, offset);
    lemma_run_bound(data, offset);
    let part = data.subrange(offset, offset + n + 1);
    let u = (groups_value(part) % 0x1_0000_0000) as u32;
    let v = u as i32;
    assert(v as u32 == u) by (bit_vector)
        requires
            v == u as i32,
    ;
    lemma_varint_bytes_len(u);
    if n + 1 <= 4 {
        lemma_groups_push(part, 0);
    }
}

/// A text never takes fewer bytes than its shortest encoding, and its length
/// is one that can be written.
pub proof fn lemma_read_string_len(data: Seq<u8>, offset: int)
    requires
        0 <= offset <= data.len(),
        string_read(data, offset).0 is Ok,
    ensures
        string_fits(string_read(data, offset).0->Ok_0),
        string_bytes(string_read(data, offset).0->Ok_0).len() <= string_read(data, offset).1
            - offset,
        string_read(data, offset).1 <= data.len(),
{
    let (len, start) = varint_read(data, offset);
    let n = len->Ok_0;
    lemma_read_varint_len(data, offset);
    let body = data.subrange(start, start + n);
    vstd::utf8::decode_utf8_encode_utf8(body);
    assert(body.len() as u32 == n as u32);
}

/// The text that the body of a JSON string stands for, where it uses no other
/// escapes than those that `json_escape` writes. A quote that no backslash
/// introduces would end the string, and control characters may not occur.
pub open spec fn unescaped(s: Seq<char>) -> Option<Seq<char>>
    decreases s.len(),
{
    if s.len() == 0 {
        Some(Seq::empty())
    } else if s[0] == '\\' {
        if s.len() < 2 {
            None
        } else {
            let c = if s[1] == '\\' {
                Some('\\')
            } else if s[1] == '"' {
                Some('"')
            } else if s[1] == 'n' {
                Some('\n')
            } else if s[1] == 'r' {
                Some('\r')
            } else if s[1] == 't' {
                Some('\t')
            } else {
                None
            };
            match (c, unescaped(s.skip(2))) {
                (Some(c), Some(rest)) => Some(seq![c] + rest),
                _ => None,
            }
        }
    } else if s[0] == '"' || s[0] == '\n' || s[0] == '\r' || s[0] == '\t' {
        None
    } else {
        match unescaped(s.drop_first()) {
            Some(rest) => Some(seq![s[0]] + rest),
            None => None,
        }
    }
}

proof fn lemma_escaped_front(s: Seq<char>)
    requires
        s.len() > 0,
    ensures
        escaped(s) == escaped_char(s[0]) + escaped(s.drop_first()),
    decreases s.len(),
{
    if s.len() == 1 {
        assert(s.drop_last() =~= Seq::<char>::empty());
        assert(s.drop_first() =~= Seq::<char>::empty());
        assert(escaped(s.drop_last()) =~= Seq::<char>::empty());
        assert(escaped(s) =~= escaped_char(s[0]));
        assert(escaped_char(s[0]) + escaped(s.drop_first()) =~= escaped_char(s[0]));
    } else {
        lemma_escaped_front(s.drop_last());
        assert(s.drop_last().drop_first() =~= s.drop_first().drop_last());
        assert(escaped(s) =~= escaped_char(s[0]) + escaped(s.drop_first()));
    }
}

/// An escaped text reads back as the text itself: no quote in it ends the
/// string early, and different texts never escape to the same characters.
pub proof fn law_json_escape_reads_back(s: Seq<char>)
    ensures
        unescaped(escaped(s)) == Some(s),
    decreases s.len(),
{
    if s.len() > 0 {
        lemma_escaped_front(s);
        law_json_escape_reads_back(s.drop_first());
        let head = escaped_char(s[0]);
        let rest = escaped(s.drop_first());
        assert(escaped(s) == head + rest);
        if head.len() == 2 {
            assert((head + rest).skip(2) =~= rest);
        } else {
            assert((head + rest).drop_first() =~= rest);
        }
        assert(seq![s[0]] + s.drop_first() =~= s);
    } else {
        assert(escaped(s) =~= Seq::<char>::empty());
        assert(s =~= Seq::<char>::empty());
    }
}

/// Numbers below 128 take one byte. A larger one takes a byte with its lowest
/// seven bits and the high bit set, and then the bytes of the rest.
pub proof fn law_layout_of_numbers(v: u32)
    ensures
        v < 128 ==> varint_bytes(v) == seq![v as u8],
        v >= 128 ==> varint_bytes(v)[0] == v % 128 + 128,
        v >= 128 ==> varint_bytes(v).drop_first() == varint_bytes(v / 128),
        128 <= v < 16384 ==> varint_bytes(v) == seq![(v % 128 + 128) as u8, (v / 128) as u8],
{
    if v >= 128 {
        assert(varint_bytes(v).drop_first() =~= varint_bytes(v / 128));
        if v < 16384 {
            assert(varint_bytes(v) =~= seq![(v % 128 + 128) as u8, (v / 128) as u8]);
        }
    }
}

/// A text is its length in bytes and then its bytes; a frame is its length and
/// then the packet.
pub proof fn law_layout_of_texts_and_frames(text: Seq<char>, payload: Seq<u8>)
    ensures
        encode_utf8(text).len() < 128 ==> string_bytes(text) == seq![
            encode_utf8(text).len() as u8,
        ] + encode_utf8(text),
        payload.len() < 128 ==> frame_bytes(payload) == seq![payload.len() as u8] + payload,
{
}

/// A boolean is a byte, 1 for true and 0 for false; other bytes are refused.
pub proof fn law_layout_of_booleans(data: Seq<u8>, offset: int)
    requires
        0 <= offset < data.len(),
    ensures
        data[offset] == 1 ==> bool_read(data, offset) == (
            Ok::<bool, PacketError>(true),
            offset + 1,
        ),
        data[offset] == 0 ==> bool_read(data, offset) == (
            Ok::<bool, PacketError>(false),
            offset + 1,
        ),
        data[offset] > 1 ==> bool_read(data, offset).0 == Err::<bool, PacketError>(
            PacketError::InvalidBool(data[offset]),
        ),
        bool_bytes(true) == seq![1u8],
        bool_bytes(false) == seq![0u8],
{
}

/// A text with a negative length, or with fewer bytes than announced, is
/// refused.
pub proof fn law_broken_texts_are_refused(n: i32, rest: Seq<u8>)
    ensures
        n < 0 ==> string_read(varint_bytes(n as u32) + rest, 0).0 == Err::<Seq<char>, PacketError>(
            PacketError::NegativeStringLength,
        ),
        n > rest.len() ==> string_read(varint_bytes(n as u32) + rest, 0).0 == Err::<
            Seq<char>,
            PacketError,
        >(PacketError::StringTruncated),
{
    let head = varint_bytes(n as u32);
    let data = head + rest;
    assert(data.subrange(0, head.len() as int) =~= head);
    law_varint_round_trip(data, 0, n);
}

/// A number whose five bytes all announce another is refused where more data
/// follows; one that the data ends in the middle of is waited for.
pub proof fn law_broken_numbers_are_refused(
    a: u8,
    b: u8,
    c: u8,
    d: u8,
    e: u8,
    rest: Seq<u8>,
)
    requires
        a >= 128 && b >= 128 && c >= 128 && d >= 128 && e >= 128,
        rest.len() > 0,
    ensures
        varint_read(seq![a, b, c, d, e] + rest, 0).0 == Err::<i32, PacketError>(
            PacketError::VarIntTooBig,
        ),
        varint_read(seq![a, b], 0).0 == Err::<i32, PacketError>(PacketError::VarIntEof),
        varint_read(Seq::empty(), 0).0 == Err::<i32, PacketError>(PacketError::VarIntEof),
{
    let data = seq![a, b, c, d, e] + rest;
    assert(data[0] == a && data[1] == b && data[2] == c && data[3] == d && data[4] == e);
    reveal_with_fuel(continuation_run, 6);
    assert(seq![a, b][0] == a && seq![a, b][1] == b);
}

} // verus!
