//! Base122 bit-packing codec: every 7 bits of input become one output byte,
//! and the few 7-bit values that a double-quoted Luau string cannot hold are
//! escaped as two-byte UTF-8 sequences.
use vstd::prelude::*;
use vstd::utf8::{pop_first_scalar, valid_first_scalar, valid_utf8};

verus! {

/// The 7-bit values that must never appear raw in the output: NUL, newline,
/// carriage return, double quote and backslash. The ampersand is allowed on
/// purpose, which makes this Base123 rather than strict Base122.
pub const ILLEGAL_BYTES: [u8; 5] = [0, 10, 13, 34, 92];

/// Escape index used when a forbidden chunk is the final chunk of the stream.
pub const SHORTENED: u8 = 7;

/// Errors of the codec.
#[derive(Eq, PartialEq, Debug)]
pub enum Error {
    /// The bit stream has no further 7-bit chunk.
    EndOfStream,
    /// The input of the decoder was not produced by the encoder.
    Malformed,
}

/// The forbidden value at position `idx` of [`ILLEGAL_BYTES`].
pub open spec fn forbidden_at(idx: int) -> u8 {
    if idx == 0 {
        0u8
    } else if idx == 1 {
        10u8
    } else if idx == 2 {
        13u8
    } else if idx == 3 {
        34u8
    } else {
        92u8
    }
}

/// Position of `c` in the forbidden table, if it is forbidden.
pub open spec fn forbidden_index(c: u8) -> Option<u8> {
    if c == 0 {
        Some(0u8)
    } else if c == 10 {
        Some(1u8)
    } else if c == 13 {
        Some(2u8)
    } else if c == 34 {
        Some(3u8)
    } else if c == 92 {
        Some(4u8)
    } else {
        None
    }
}

/// Byte `j` of `b`, reading zero past the end.
pub open spec fn byte_at(b: Seq<u8>, j: int) -> u8 {
    if 0 <= j < b.len() {
        b[j]
    } else {
        0u8
    }
}

/// The `i`-th 7-bit chunk of the big-endian bit stream of `b`, padded with
/// zero bits past its end: the 7 bits that start at bit `7 * i`, read out of
/// the 16-bit window formed by the byte holding that bit and the next one.
pub open spec fn chunk_at(b: Seq<u8>, i: int) -> u8 {
    let q = (7 * i) / 8;
    window(byte_at(b, q), byte_at(b, q + 1), ((7 * i) % 8) as u8)
}

/// Number of 7-bit chunks needed for `n` bytes.
pub open spec fn num_chunks(n: int) -> int {
    (8 * n + 6) / 7
}

/// All 7-bit chunks of `b`, in stream order.
pub open spec fn chunks(b: Seq<u8>) -> Seq<u8> {
    Seq::new(num_chunks(b.len() as int) as nat, |i: int| chunk_at(b, i))
}

/// First byte of the two-byte escape of forbidden index `idx` followed by chunk `c`.
pub open spec fn escape_lead(idx: u8, c: u8) -> u8 {
    0xc2u8 | ((idx & 7u8) << 2u8) | ((c & 0x40u8) >> 6u8)
}

/// Second byte of a two-byte escape carrying chunk `c`.
pub open spec fn escape_tail(c: u8) -> u8 {
    0x80u8 | (c & 0x3fu8)
}

/// The escaped form of a sequence of 7-bit chunks.
pub open spec fn escape(cs: Seq<u8>) -> Seq<u8>
    decreases cs.len(),
{
    if cs.len() == 0 {
        seq![]
    } else {
        match forbidden_index(cs[0]) {
            None => seq![cs[0]] + escape(cs.drop_first()),
            Some(idx) => if cs.len() == 1 {
                seq![escape_lead(SHORTENED, cs[0]), escape_tail(cs[0])]
            } else {
                seq![escape_lead(idx, cs[1]), escape_tail(cs[1])] + escape(cs.subrange(2, cs.len() as int))
            },
        }
    }
}

/// The encoding of `b`.
pub open spec fn encoded(b: Seq<u8>) -> Seq<u8> {
    escape(chunks(b))
}


/// Fully conformant Base122 encoder over a borrowed byte slice.
pub struct Base122OriginalEncoder<'data> {
    data: &'data [u8],
    current_byte: usize,
    current_bit: u8,
}

/// The part of a chunk that the encoder takes from the byte at offset `r`.
pub open spec fn first_part(x: u8, r: u8) -> u8 {
    ((0xfeu8 >> r) & x) << r >> 1u8
}

/// The part of a chunk that the encoder takes from the following byte.
pub open spec fn second_part(y: u8, r: u8) -> u8 {
    let m = (9u8 - r) as u8;
    ((0xffu8 >> m) << m & y) >> m
}

/// The 7 bits that start at bit `r` of the 16-bit window `x`, `y`.
pub open spec fn window(x: u8, y: u8, r: u8) -> u8 {
    let w: u16 = (x as u16) << 8u16 | (y as u16);
    let m = (9u16 - r as u16) as u16;
    (w >> m & 0x7fu16) as u8
}

/// What the encoder computes from two adjacent bytes is the window value.
proof fn lemma_chunk_bits(x: u8, y: u8, r: u8)
    requires
        r < 8,
    ensures
        r == 0 ==> first_part(x, r) == window(x, y, r),
        r > 0 ==> first_part(x, r) | second_part(y, r) == window(x, y, r),
        r > 0 ==> first_part(x, r) == window(x, 0, r),
{
    let f = first_part(x, r);
    let g = second_part(y, r);
    let w = window(x, y, r);
    let w0 = window(x, 0, r);
    assert(r == 0 ==> f == w) by (bit_vector)
        requires
            r < 8,
            f == ((0xfeu8 >> r) & x) << r >> 1u8,
            w == (((x as u16) << 8u16 | (y as u16)) >> ((9u16 - r as u16) as u16) & 0x7fu16) as u8,
    ;
    assert(r > 0 ==> f | g == w) by (bit_vector)
        requires
            r < 8,
            f == ((0xfeu8 >> r) & x) << r >> 1u8,
            g == ((0xffu8 >> ((9u8 - r) as u8)) << ((9u8 - r) as u8) & y) >> ((9u8 - r) as u8),
            w == (((x as u16) << 8u16 | (y as u16)) >> ((9u16 - r as u16) as u16) & 0x7fu16) as u8,
    ;
    assert(r > 0 ==> f == w0) by (bit_vector)
        requires
            r < 8,
            f == ((0xfeu8 >> r) & x) << r >> 1u8,
            w0 == (((x as u16) << 8u16 | (0u8 as u16)) >> ((9u16 - r as u16) as u16) & 0x7fu16) as u8,
    ;
}

impl<'data> Base122OriginalEncoder<'data> {
    /// Bytes being encoded.
    pub closed spec fn input(&self) -> Seq<u8> {
        self.data@
    }

    /// Index of the next chunk to read.
    pub closed spec fn position(&self) -> int {
        (8 * self.current_byte + self.current_bit) / 7
    }

    /// The cursor sits on a chunk boundary inside (or just past) the input.
    pub closed spec fn wf(&self) -> bool {
        &&& self.current_bit < 8
        &&& (8 * self.current_byte + self.current_bit) % 7 == 0
        &&& self.position() <= num_chunks(self.data@.len() as int)
    }

    /// A fresh encoder positioned at the start of `data`.
    pub fn new(data: &'data [u8]) -> (r: Self)
        ensures
            r.wf(),
            r.input() == data@,
            r.position() == 0,
    {
        Base122OriginalEncoder { data, current_byte: 0, current_bit: 0 }
    }

    /// Reads the next 7-bit chunk, or reports the end of the bit stream.
    #[verifier::rlimit(40)]
    fn next_7_bits(&mut self) -> (r: Result<u8, Error>)
        requires
            old(self).wf(),
        ensures
            final(self).wf(),
            final(self).input() == old(self).input(),
            old(self).position() < num_chunks(old(self).input().len() as int) ==> (r == Ok::<u8, Error>(
                chunk_at(old(self).input(), old(self).position()),
            ) && final(self).position() == old(self).position() + 1),
            old(self).position() >= num_chunks(old(self).input().len() as int) ==> (r == Err::<u8, Error>(
                Error::EndOfStream,
            ) && final(self).position() == old(self).position()),
    {
        if self.current_byte >= self.data.len() {
            return Err(Error::EndOfStream);
        }
        let ghost b = self.data@;
        let ghost i = self.position();
        let ghost q = self.current_byte as int;
        let ghost r0 = self.current_bit;
        assert(7 * i == 8 * q + r0);
        assert((7 * i) / 8 == q && (7 * i) % 8 == r0 as int);
        let first_byte = self.data[self.current_byte];
        let mut first_encoded_byte: u8 = 0;
        let next_bit = self.current_bit + 7;
        if self.current_bit < 8 {
            first_encoded_byte = ((0b11111110u8 >> self.current_bit) & first_byte) << self.current_bit >> 1u8;
        }
        proof {
            lemma_chunk_bits(first_byte, byte_at(b, q + 1), r0);
        }
        if next_bit < 8 {
            self.current_bit = next_bit;
            return Ok(first_encoded_byte);
        }
        self.current_byte += 1;
        self.current_bit = next_bit - 8;
        if self.current_byte >= self.data.len() {
            return Ok(first_encoded_byte);
        }
        let second_byte = self.data[self.current_byte];
        let bits_to_move = 8 - self.current_bit;
        let second_encoded_byte = if bits_to_move < 8 {
            ((0b11111111u8 >> bits_to_move) << bits_to_move & second_byte) >> bits_to_move
        } else {
            0
        };
        assert(((0xffu8 >> 8u8) << 8u8 & second_byte) >> 8u8 == 0u8) by (bit_vector);
        Ok(first_encoded_byte | second_encoded_byte)
    }

    /// Consumes the encoder and returns the escaped encoding of its input.
    pub fn encode(self) -> (r: Vec<u8>)
        requires
            self.wf(),
            self.position() == 0,
        ensures
            r@ == encoded(self.input()),
    {
        let mut state = self;
        let ghost cs = chunks(state.input());
        let ghost k = num_chunks(state.input().len() as int);
        let mut output: Vec<u8> = Vec::new();
        proof {
            assert(cs.subrange(0, k) =~= cs);
        }
        loop
            invariant_except_break
                state.wf(),
                cs == chunks(state.input()),
                k == num_chunks(state.input().len() as int),
                output@ + escape(cs.subrange(state.position(), k)) == escape(cs),
            ensures
                output@ == escape(cs),
            decreases k - state.position(),
        {
            let ghost i = state.position();
            let first_seven_bits_byte = match state.next_7_bits() {
                Ok(byte) => byte,
                Err(_) => {
                    proof {
                        assert(cs.subrange(i, k).len() == 0);
                    }
                    break;
                },
            };
            let ghost rest = cs.subrange(i, k);
            assert(rest[0] == first_seven_bits_byte);
            let illegal_byte_index = illegal_index(first_seven_bits_byte);
            match illegal_byte_index {
                None => {
                    proof {
                        assert(rest.drop_first() =~= cs.subrange(i + 1, k));
                        assert(seq![first_seven_bits_byte] + escape(rest.drop_first()) == escape(rest));
                        assert(output@.push(first_seven_bits_byte) =~= output@ + seq![first_seven_bits_byte]);
                    }
                    output.push(first_seven_bits_byte);
                },
                Some(index) => {
                    let (marker, second_seven_bits_byte) = match state.next_7_bits() {
                        Ok(byte) => (index, byte),
                        Err(_) => (SHORTENED, first_seven_bits_byte),
                    };
                    let first_encoded_byte: u8 = 0b11000010u8 | ((marker & 0b111u8) << 2u8) | ((second_seven_bits_byte & 0b01000000u8) >> 6u8);
                    let second_encoded_byte: u8 = 0b10000000u8 | (second_seven_bits_byte & 0b00111111u8);
                    proof {
                        if rest.len() >= 2 {
                            assert(rest.subrange(2, rest.len() as int) =~= cs.subrange(i + 2, k));
                        } else {
                            assert(cs.subrange(i + 1, k).len() == 0);
                        }
                    }
                    output.push(first_encoded_byte);
                    output.push(second_encoded_byte);
                },
            }
        }
        output
    }
}

impl<'data> Base122OriginalEncoder<'data> {
    /// Consumes the encoder and returns the 7-bit chunks of its input.
    fn chunk_list(self) -> (r: Vec<u8>)
        requires
            self.wf(),
            self.position() == 0,
        ensures
            r@ == chunks(self.input()),
    {
        let mut state = self;
        let ghost cs = chunks(state.input());
        let ghost k = num_chunks(state.input().len() as int);
        let mut output: Vec<u8> = Vec::new();
        loop
            invariant_except_break
                state.wf(),
                cs == chunks(state.input()),
                k == num_chunks(state.input().len() as int),
                output@ == cs.take(state.position()),
            ensures
                output@ == cs,
            decreases k - state.position(),
        {
            let ghost i = state.position();
            match state.next_7_bits() {
                Ok(byte) => {
                    output.push(byte);
                    assert(cs.take(i + 1) =~= cs.take(i).push(byte));
                },
                Err(_) => {
                    assert(cs.take(i) =~= cs);
                    break;
                },
            }
        }
        output
    }
}

/// Position of `c` in [`ILLEGAL_BYTES`], if it is there.
fn illegal_index(c: u8) -> (r: Option<u8>)
    ensures
        r == forbidden_index(c),
{
    if c == 0 {
        Some(0)
    } else if c == 10 {
        Some(1)
    } else if c == 13 {
        Some(2)
    } else if c == 34 {
        Some(3)
    } else if c == 92 {
        Some(4)
    } else {
        None
    }
}

/// Encodes `data`: a shorthand for [`Base122OriginalEncoder::encode`].
pub fn encode(data: &[u8]) -> (r: Vec<u8>)
    ensures
        r@ == encoded(data@),
{
    Base122OriginalEncoder::new(data).encode()
}


/// `p` in front of the decoded remainder, if the remainder decodes.
pub open spec fn prepend(p: Seq<u8>, o: Option<Seq<u8>>) -> Option<Seq<u8>> {
    match o {
        Some(r) => Some(p + r),
        None => None,
    }
}

/// `b0`, `b1` have the shape of a two-byte escape.
pub open spec fn is_escape_pair(b0: u8, b1: u8) -> bool {
    b0 & 0xe2u8 == 0xc2u8 && b1 & 0xc0u8 == 0x80u8
}

/// The forbidden-table index carried by the lead byte of an escape.
pub open spec fn escape_index(b0: u8) -> u8 {
    b0 >> 2u8 & 7u8
}

/// The chunk carried by an escape.
pub open spec fn escaped_chunk(b0: u8, b1: u8) -> u8 {
    (b0 & 1u8) << 6u8 | b1 & 0x3fu8
}

/// The chunk sequence that an escaped stream stands for, or `None` when the
/// stream is not of the shape the encoder produces.
pub open spec fn unescape(d: Seq<u8>) -> Option<Seq<u8>>
    decreases d.len(),
{
    if d.len() == 0 {
        Some(seq![])
    } else if d[0] < 0x80 {
        if forbidden_index(d[0]) is Some {
            None
        } else {
            prepend(seq![d[0]], unescape(d.drop_first()))
        }
    } else if d.len() >= 2 && is_escape_pair(d[0], d[1]) {
        let idx = escape_index(d[0]);
        let c = escaped_chunk(d[0], d[1]);
        if idx < 5 {
            prepend(seq![forbidden_at(idx as int), c], unescape(d.subrange(2, d.len() as int)))
        } else if idx == SHORTENED && d.len() == 2 && forbidden_index(c) is Some {
            Some(seq![c])
        } else {
            None
        }
    } else {
        None
    }
}

/// Chunk `i` of `cs`, reading zero past the end.
pub open spec fn chunk_or_zero(cs: Seq<u8>, i: int) -> u8 {
    if 0 <= i < cs.len() {
        cs[i]
    } else {
        0u8
    }
}

/// The 8 bits that start at bit `s` of the 14-bit window of chunks `c0`, `c1`.
pub open spec fn pair_byte(c0: u8, c1: u8, s: u8) -> u8 {
    let w: u16 = (c0 as u16) << 7u16 | (c1 as u16);
    (w >> ((6u16 - s as u16) as u16) & 0xffu16) as u8
}

/// Byte `j` of the bit stream spelled by the chunks `cs`.
pub open spec fn unpacked_byte(cs: Seq<u8>, j: int) -> u8 {
    let i = (8 * j) / 7;
    pair_byte(chunk_or_zero(cs, i), chunk_or_zero(cs, i + 1), ((8 * j) % 7) as u8)
}

/// The whole bytes spelled by the chunks `cs`; trailing padding bits are dropped.
pub open spec fn unpack(cs: Seq<u8>) -> Seq<u8> {
    Seq::new(((7 * cs.len()) / 8) as nat, |j: int| unpacked_byte(cs, j))
}

/// The bytes an escaped stream decodes to, if it is well formed.
pub open spec fn decoded(d: Seq<u8>) -> Option<Seq<u8>> {
    match unescape(d) {
        Some(cs) => if cs == chunks(unpack(cs)) {
            Some(unpack(cs))
        } else {
            None
        },
        None => None,
    }
}

proof fn lemma_window_small(x: u8, y: u8, r: u8)
    requires
        r < 8,
    ensures
        window(x, y, r) < 128,
{
    let w = window(x, y, r);
    assert(w < 128) by (bit_vector)
        requires
            w == (((x as u16) << 8u16 | (y as u16)) >> ((9u16 - r as u16) as u16) & 0x7fu16) as u8,
    ;
}

proof fn lemma_escape_bits(idx: u8, c: u8)
    requires
        idx < 8,
        c < 128,
    ensures
        escape_lead(idx, c) >= 0x80,
        is_escape_pair(escape_lead(idx, c), escape_tail(c)),
        escape_index(escape_lead(idx, c)) == idx,
        escaped_chunk(escape_lead(idx, c), escape_tail(c)) == c,
{
    let l = escape_lead(idx, c);
    let t = escape_tail(c);
    assert(l >= 0x80 && l & 0xe2u8 == 0xc2u8 && t & 0xc0u8 == 0x80u8 && (l >> 2u8 & 7u8) == idx
        && ((l & 1u8) << 6u8 | t & 0x3fu8) == c) by (bit_vector)
        requires
            idx < 8,
            c < 128,
            l == 0xc2u8 | (idx & 7u8) << 2u8 | (c & 0x40u8) >> 6u8,
            t == 0x80u8 | c & 0x3fu8,
    ;
}

/// Unescaping undoes escaping on any sequence of 7-bit chunks.
proof fn lemma_unescape_escape(cs: Seq<u8>)
    requires
        forall|i: int| 0 <= i < cs.len() ==> cs[i] < 128,
    ensures
        unescape(escape(cs)) == Some(cs),
    decreases cs.len(),
{
    if cs.len() > 0 {
        let e = escape(cs);
        match forbidden_index(cs[0]) {
            None => {
                let t = cs.drop_first();
                lemma_unescape_escape(t);
                assert(e.drop_first() =~= escape(t));
                assert(seq![cs[0]] + t =~= cs);
            },
            Some(idx) => {
                if cs.len() == 1 {
                    lemma_escape_bits(SHORTENED, cs[0]);
                    assert(seq![escaped_chunk(e[0], e[1])] =~= cs);
                } else {
                    let t = cs.subrange(2, cs.len() as int);
                    lemma_unescape_escape(t);
                    lemma_escape_bits(idx, cs[1]);
                    assert(e.subrange(2, e.len() as int) =~= escape(t));
                    assert(seq![forbidden_at(idx as int), cs[1]] + t =~= cs);
                }
            },
        }
    }
}

proof fn lemma_pair_bits(x: u8, y: u8, z: u8, r: u8)
    requires
        r < 8,
    ensures
        r == 0 ==> pair_byte(window(x, y, 0), window(x, y, 7), 0) == x,
        r >= 2 ==> pair_byte(window(x, y, r), window(y, z, (r - 1) as u8), (8 - r) as u8) == y,
{
    let p0 = pair_byte(window(x, y, 0), window(x, y, 7), 0);
    let a = window(x, y, 0);
    let b = window(x, y, 7);
    assert(p0 == x) by (bit_vector)
        requires
            a == (((x as u16) << 8u16 | (y as u16)) >> 9u16 & 0x7fu16) as u8,
            b == (((x as u16) << 8u16 | (y as u16)) >> 2u16 & 0x7fu16) as u8,
            p0 == (((a as u16) << 7u16 | (b as u16)) >> 6u16 & 0xffu16) as u8,
    ;
    if r >= 2 {
        let c = window(x, y, r);
        let d = window(y, z, (r - 1) as u8);
        let p = pair_byte(c, d, (8 - r) as u8);
        assert(p == y) by (bit_vector)
            requires
                2 <= r < 8,
                c == (((x as u16) << 8u16 | (y as u16)) >> ((9u16 - r as u16) as u16) & 0x7fu16) as u8,
                d == (((y as u16) << 8u16 | (z as u16)) >> ((9u16 - ((r - 1) as u8) as u16) as u16) & 0x7fu16) as u8,
                p == (((c as u16) << 7u16 | (d as u16)) >> ((6u16 - ((8 - r) as u8) as u16) as u16) & 0xffu16) as u8,
        ;
    }
}

/// Unpacking the chunks of `b` gives back `b`.
proof fn lemma_unpack_chunks(b: Seq<u8>)
    ensures
        unpack(chunks(b)) == b,
{
    let cs = chunks(b);
    let n = b.len() as int;
    let k = num_chunks(n);
    assert((7 * k) / 8 == n) by {
        assert(8 * n <= 7 * k <= 8 * n + 6);
    }
    assert forall|j: int| 0 <= j < n implies #[trigger] unpacked_byte(cs, j) == b[j] by {
        let i0 = (8 * j) / 7;
        let s = (8 * j) % 7;
        let q0 = (7 * i0) / 8;
        let r0 = (7 * i0) % 8;
        assert(8 * j == 7 * i0 + s);
        assert(7 * i0 == 8 * q0 + r0);
        assert(i0 + 1 < k);
        assert(chunk_or_zero(cs, i0) == chunk_at(b, i0));
        assert(chunk_or_zero(cs, i0 + 1) == chunk_at(b, i0 + 1));
        lemma_pair_bits(byte_at(b, q0), byte_at(b, q0 + 1), byte_at(b, q0 + 2), r0 as u8);
        if r0 == 0 {
            assert(j == q0 && s == 0);
            assert((7 * (i0 + 1)) / 8 == q0 && (7 * (i0 + 1)) % 8 == 7);
        } else {
            assert(r0 + s == 8);
            assert(j == q0 + 1);
            assert((7 * (i0 + 1)) / 8 == q0 + 1 && (7 * (i0 + 1)) % 8 == r0 - 1);
        }
    }
    assert(unpack(cs) =~= b);
}

/// Decoding an encoding gives back the original bytes, for every byte buffer.
pub proof fn lemma_decode_inverts_encode(b: Seq<u8>)
    ensures
        decoded(encoded(b)) == Some(b),
{
    let cs = chunks(b);
    assert forall|i: int| 0 <= i < cs.len() implies cs[i] < 128 by {
        lemma_window_small(byte_at(b, (7 * i) / 8), byte_at(b, (7 * i) / 8 + 1), ((7 * i) % 8) as u8);
    }
    lemma_unescape_escape(cs);
    lemma_unpack_chunks(b);
}


proof fn lemma_escape_is_two_byte_scalar(idx: u8, c: u8)
    requires
        idx < 8,
        c < 128,
    ensures
        0xc0 <= escape_lead(idx, c) <= 0xdf,
        0x80 <= escape_tail(c) <= 0xbf,
        0x80 <= (((escape_lead(idx, c) & 0x1f) as u32) << 6) | ((escape_tail(c) & 0x3f) as u32) <= 0x7ff,
{
    let l = escape_lead(idx, c);
    let t = escape_tail(c);
    assert(0xc0 <= l <= 0xdf && 0x80 <= t <= 0xbf && 0x80 <= (((l & 0x1f) as u32) << 6) | ((t & 0x3f) as u32)
        <= 0x7ff) by (bit_vector)
        requires
            idx < 8,
            c < 128,
            l == 0xc2u8 | (idx & 7u8) << 2u8 | (c & 0x40u8) >> 6u8,
            t == 0x80u8 | c & 0x3fu8,
    ;
}

proof fn lemma_escape_utf8(cs: Seq<u8>)
    requires
        forall|i: int| 0 <= i < cs.len() ==> cs[i] < 128,
    ensures
        valid_utf8(escape(cs)),
    decreases cs.len(),
{
    if cs.len() > 0 {
        let e = escape(cs);
        match forbidden_index(cs[0]) {
            None => {
                let t = cs.drop_first();
                lemma_escape_utf8(t);
                assert(e.subrange(1, e.len() as int) =~= escape(t));
                assert(valid_first_scalar(e));
                assert(pop_first_scalar(e) =~= escape(t));
                assert(valid_utf8(e));
            },
            Some(idx) => {
                if cs.len() == 1 {
                    lemma_escape_is_two_byte_scalar(SHORTENED, cs[0]);
                    assert(valid_first_scalar(e));
                    assert(pop_first_scalar(e) =~= Seq::<u8>::empty());
                    assert(valid_utf8(pop_first_scalar(e)));
                    assert(valid_utf8(e));
                } else {
                    let t = cs.subrange(2, cs.len() as int);
                    lemma_escape_utf8(t);
                    lemma_escape_is_two_byte_scalar(idx, cs[1]);
                    assert(valid_first_scalar(e));
                    assert(pop_first_scalar(e) =~= escape(t));
                    assert(valid_utf8(e));
                }
            },
        }
    }
}

/// Every encoding is valid UTF-8, so it can stand verbatim in source text.
pub proof fn lemma_encoded_is_utf8(b: Seq<u8>)
    ensures
        valid_utf8(encoded(b)),
{
    let cs = chunks(b);
    assert forall|i: int| 0 <= i < cs.len() implies cs[i] < 128 by {
        lemma_window_small(byte_at(b, (7 * i) / 8), byte_at(b, (7 * i) / 8 + 1), ((7 * i) % 8) as u8);
    }
    lemma_escape_utf8(cs);
}

proof fn lemma_escape_pair_bits(b0: u8, b1: u8)
    requires
        is_escape_pair(b0, b1),
    ensures
        escape_lead(escape_index(b0), escaped_chunk(b0, b1)) == b0,
        escape_tail(escaped_chunk(b0, b1)) == b1,
{
    let idx = escape_index(b0);
    let c = escaped_chunk(b0, b1);
    assert(0xc2u8 | (idx & 7u8) << 2u8 | (c & 0x40u8) >> 6u8 == b0 && 0x80u8 | c & 0x3fu8 == b1) by (bit_vector)
        requires
            b0 & 0xe2u8 == 0xc2u8,
            b1 & 0xc0u8 == 0x80u8,
            idx == b0 >> 2u8 & 7u8,
            c == (b0 & 1u8) << 6u8 | b1 & 0x3fu8,
    ;
}

/// Escaping undoes unescaping: a stream that unescapes is the escaped form
/// of its chunks.
proof fn lemma_escape_unescape(d: Seq<u8>)
    requires
        unescape(d) is Some,
    ensures
        escape(unescape(d)->Some_0) == d,
    decreases d.len(),
{
    if d.len() > 0 {
        let cs = unescape(d)->Some_0;
        if d[0] < 0x80 {
            let t = d.drop_first();
            lemma_escape_unescape(t);
            let ts = unescape(t)->Some_0;
            assert(cs == seq![d[0]] + ts);
            assert(cs.drop_first() =~= ts);
            assert(seq![d[0]] + t =~= d);
        } else {
            lemma_escape_pair_bits(d[0], d[1]);
            let idx = escape_index(d[0]);
            let c = escaped_chunk(d[0], d[1]);
            if idx < 5 {
                let t = d.subrange(2, d.len() as int);
                lemma_escape_unescape(t);
                let ts = unescape(t)->Some_0;
                assert(cs == seq![forbidden_at(idx as int), c] + ts);
                assert(forbidden_index(forbidden_at(idx as int)) == Some(idx));
                assert(cs.subrange(2, cs.len() as int) =~= ts);
                assert(seq![d[0], d[1]] + t =~= d);
            } else {
                assert(cs == seq![c]);
                assert(seq![d[0], d[1]] =~= d);
            }
        }
    }
}

/// The decoder accepts exactly the encodings: what it returns encodes back
/// to its input, and an input it refuses is the encoding of no buffer.
pub proof fn lemma_decoded_exactly_encodings(d: Seq<u8>)
    ensures
        decoded(d) matches Some(b) ==> encoded(b) == d,
        decoded(d) is None ==> forall|b: Seq<u8>| #[trigger] encoded(b) != d,
{
    if decoded(d) is Some {
        lemma_escape_unescape(d);
    } else {
        assert forall|b: Seq<u8>| #[trigger] encoded(b) != d by {
            if encoded(b) == d {
                lemma_decode_inverts_encode(b);
            }
        }
    }
}

/// The forbidden value at position `idx` of [`ILLEGAL_BYTES`].
fn illegal_byte(idx: u8) -> (r: u8)
    requires
        idx < 5,
    ensures
        r == forbidden_at(idx as int),
{
    ILLEGAL_BYTES[idx as usize]
}

/// The chunks an escaped stream stands for, if it has the encoder's shape.
fn unescape_all(data: &[u8]) -> (r: Option<Vec<u8>>)
    ensures
        match r {
            Some(cs) => unescape(data@) == Some(cs@),
            None => unescape(data@) is None,
        },
{
    let ghost d = data@;
    let n = data.len();
    let mut cs: Vec<u8> = Vec::new();
    let mut pos: usize = 0;
    proof {
        assert(d.subrange(0, n as int) =~= d);
        assert(cs@ + seq![] =~= cs@);
    }
    while pos < n
        invariant
            d == data@,
            n == d.len(),
            pos <= n,
            unescape(d) == prepend(cs@, unescape(d.subrange(pos as int, n as int))),
        decreases n - pos,
    {
        let ghost rest = d.subrange(pos as int, n as int);
        let ghost before = cs@;
        let b0 = data[pos];
        if b0 < 0x80 {
            if illegal_index(b0).is_some() {
                return None;
            }
            cs.push(b0);
            pos += 1;
            proof {
                assert(rest.drop_first() =~= d.subrange(pos as int, n as int));
                match unescape(d.subrange(pos as int, n as int)) {
                    Some(t) => assert(before + (seq![b0] + t) =~= cs@ + t),
                    None => {},
                }
            }
        } else if pos + 1 < n && b0 & 0xe2 == 0xc2 && data[pos + 1] & 0xc0 == 0x80 {
            let b1 = data[pos + 1];
            let idx = b0 >> 2u8 & 7u8;
            let c = (b0 & 1u8) << 6u8 | b1 & 0x3fu8;
            if idx < 5 {
                let f = illegal_byte(idx);
                cs.push(f);
                cs.push(c);
                pos += 2;
                proof {
                    assert(rest.subrange(2, rest.len() as int) =~= d.subrange(pos as int, n as int));
                    match unescape(d.subrange(pos as int, n as int)) {
                        Some(t) => assert(before + (seq![f, c] + t) =~= cs@ + t),
                        None => {},
                    }
                }
            } else if idx == SHORTENED && pos + 2 == n && illegal_index(c).is_some() {
                cs.push(c);
                pos += 2;
                proof {
                    assert(d.subrange(pos as int, n as int) =~= Seq::<u8>::empty());
                    assert(before + seq![c] =~= cs@ + seq![]);
                }
            } else {
                return None;
            }
        } else {
            return None;
        }
    }
    proof {
        assert(d.subrange(n as int, n as int) =~= Seq::<u8>::empty());
        assert(cs@ + seq![] =~= cs@);
    }
    Some(cs)
}

/// The whole bytes spelled by the chunks `cs`.
fn unpack_bytes(cs: &Vec<u8>) -> (r: Vec<u8>)
    ensures
        r@ == unpack(cs@),
{
    let len = cs.len();
    let m = len / 8 * 7 + len % 8 * 7 / 8;
    assert(m == (7 * len) / 8);
    let mut out: Vec<u8> = Vec::new();
    let mut j: usize = 0;
    while j < m
        invariant
            m == (7 * cs@.len()) / 8,
            len == cs@.len(),
            j <= m,
            out@ =~= unpack(cs@).take(j as int),
        decreases m - j,
    {
        let i0 = j + j / 7;
        let s = j % 7;
        assert(i0 == (8 * j) / 7 && s == (8 * j) % 7);
        assert(i0 + 1 < len) by {
            assert(8 * j + 8 <= 7 * len);
        }
        let w: u16 = (cs[i0] as u16) << 7u16 | cs[i0 + 1] as u16;
        let byte = (w >> (6 - s as u16) & 0xff) as u8;
        assert(byte == unpacked_byte(cs@, j as int));
        out.push(byte);
        j += 1;
    }
    assert(out@ =~= unpack(cs@));
    out
}

/// Whether `a` and `b` hold the same bytes.
fn same_bytes(a: &Vec<u8>, b: &Vec<u8>) -> (r: bool)
    ensures
        r == (a@ == b@),
{
    if a.len() != b.len() {
        return false;
    }
    let mut k: usize = 0;
    while k < a.len()
        invariant
            a@.len() == b@.len(),
            k <= a@.len(),
            a@.take(k as int) == b@.take(k as int),
        decreases a@.len() - k,
    {
        if a[k] != b[k] {
            return false;
        }
        k += 1;
        assert(a@.take(k as int) =~= a@.take(k - 1).push(a@[k - 1]));
        assert(b@.take(k as int) =~= b@.take(k - 1).push(b@[k - 1]));
    }
    assert(a@.take(a@.len() as int) =~= a@);
    assert(b@.take(b@.len() as int) =~= b@);
    true
}

/// Decodes an escaped stream back into the bytes it was made from; a stream
/// the encoder cannot produce is refused.
pub fn decode(data: &[u8]) -> (r: Result<Vec<u8>, Error>)
    ensures
        match r {
            Ok(v) => decoded(data@) == Some(v@) && encoded(v@) == data@,
            Err(e) => decoded(data@) is None && e == Error::Malformed,
        },
        r is Ok <==> exists|b: Seq<u8>| encoded(b) == data@,
{
    proof {
        lemma_decoded_exactly_encodings(data@);
    }
    let cs = match unescape_all(data) {
        Some(cs) => cs,
        None => {
            return Err(Error::Malformed);
        },
    };
    let out = unpack_bytes(&cs);
    let again = Base122OriginalEncoder::new(out.as_slice()).chunk_list();
    if !same_bytes(&again, &cs) {
        return Err(Error::Malformed);
    }
    Ok(out)
}

} // verus!


