//! Byte layout of mesh data for upload to the GPU.

use vstd::prelude::*;

use byteorder::{ByteOrder, LittleEndian};

verus! {

/// The four bytes of `n`, least significant first.
pub open spec fn le_bytes(n: u32) -> Seq<u8> {
    seq![
        (n % 256) as u8,
        ((n / 256) % 256) as u8,
        ((n / 65536) % 256) as u8,
        (n / 16777216) as u8,
    ]
}

/// The bytes of the numbers `s`, each least significant byte first, one
/// number after another.
pub open spec fn le_bytes_of(s: Seq<u32>) -> Seq<u8>
    decreases s.len(),
{
    if s.len() == 0 {
        Seq::empty()
    } else {
        le_bytes_of(s.drop_last()) + le_bytes(s.last())
    }
}

/// `<LittleEndian as ByteOrder>::write_u32` of byteorder: stores `n` in the
/// four bytes of `buf`, least significant byte first.
#[verifier::external_body]
fn le_write_u32(buf: &mut [u8; 4], n: u32)
    ensures
        final(buf)@ == le_bytes(n),
{
    LittleEndian::write_u32(buf, n)
}

/// The index data `vu32` as bytes, each index least significant byte first.
pub fn to_bytes(vu32: &mut Vec<u32>) -> (v8: Vec<u8>)
    ensures
        final(vu32)@ == old(vu32)@,
        v8@ == le_bytes_of(old(vu32)@),
        v8@.len() == 4 * old(vu32)@.len(),
{
    let mut v8: Vec<u8> = Vec::new();
    let mut i: usize = 0;
    while i < vu32.len()
        invariant
            vu32@ == old(vu32)@,
            i <= vu32@.len(),
            v8@ == le_bytes_of(vu32@.take(i as int)),
            v8@.len() == 4 * i,
        decreases vu32@.len() - i,
    {
        let n = vu32[i];
        let mut buf: [u8; 4] = [0u8, 0u8, 0u8, 0u8];
        le_write_u32(&mut buf, n);
        v8.push(buf[0]);
        v8.push(buf[1]);
        v8.push(buf[2]);
        v8.push(buf[3]);
        proof {
            assert(vu32@.take(i + 1).drop_last() =~= vu32@.take(i as int));
            assert(v8@ =~= le_bytes_of(vu32@.take(i as int)) + le_bytes(n));
        }
        i = i + 1;
    }
    assert(vu32@.take(vu32@.len() as int) =~= vu32@);
    v8
}

/// The four bytes of a number, read back least significant first, give the
/// number.
pub proof fn law_le_bytes_round_trip(n: u32)
    ensures
        le_bytes(n)[0] + 256 * le_bytes(n)[1] + 65536 * le_bytes(n)[2] + 16777216 * le_bytes(n)[3] == n,
{
    let b0 = n % 256;
    let q0 = n / 256;
    let b1 = q0 % 256;
    let q1 = q0 / 256;
    let b2 = q1 % 256;
    let b3 = q1 / 256;
    assert(n == 256 * q0 + b0);
    assert(q0 == 256 * q1 + b1);
    assert(q1 == 256 * b3 + b2);
    assert((n / 65536) % 256 == b2) by {
        assert(n / 65536 == q1);
    }
    assert(n / 16777216 == b3) by {
        assert(n / 16777216 == q1 / 256);
    }
}

/// Number `i` of the data is bytes `4 i` to `4 i + 3` of `to_bytes`.
pub proof fn law_to_bytes_layout(s: Seq<u32>, i: int)
    requires
        0 <= i < s.len(),
    ensures
        le_bytes_of(s).len() == 4 * s.len(),
        le_bytes_of(s).subrange(4 * i, 4 * i + 4) == le_bytes(s[i]),
    decreases s.len(),
{
    lemma_le_bytes_of_len(s);
    lemma_le_bytes_of_len(s.drop_last());
    if i == s.len() - 1 {
        assert(le_bytes_of(s).subrange(4 * i, 4 * i + 4) =~= le_bytes(s[i]));
    } else {
        law_to_bytes_layout(s.drop_last(), i);
        assert(le_bytes_of(s).subrange(4 * i, 4 * i + 4) =~= le_bytes_of(s.drop_last()).subrange(
            4 * i,
            4 * i + 4,
        ));
    }
}

proof fn lemma_le_bytes_of_len(s: Seq<u32>)
    ensures
        le_bytes_of(s).len() == 4 * s.len(),
    decreases s.len(),
{
    if s.len() > 0 {
        lemma_le_bytes_of_len(s.drop_last());
    }
}

/// Where a vertex attribute is found in a buffer: its index, its number of
/// values, and the stride and offset, in bytes (a value is a 4-byte float).
#[derive(Debug, Clone, Copy, PartialEq, Eq, Structural)]
pub struct AttribPointer {
    pub index: u32,
    pub size: i32,
    pub stride: i32,
    pub offset: i32,
}

/// Positions, in a buffer of their own: attribute 0, three values.
pub fn position_attribs() -> (a: AttribPointer)
    ensures
        a == (AttribPointer { index: 0, size: 3, stride: 12, offset: 0 }),
{
    AttribPointer { index: 0, size: 3, stride: 12, offset: 0 }
}

/// Normals, in a buffer of their own: attribute 1, three values.
pub fn normal_attribs() -> (a: AttribPointer)
    ensures
        a == (AttribPointer { index: 1, size: 3, stride: 12, offset: 0 }),
{
    AttribPointer { index: 1, size: 3, stride: 12, offset: 0 }
}

/// Texture coordinates, in a buffer of their own: attribute 2, two values.
pub fn texture_coordinate_attribs() -> (a: AttribPointer)
    ensures
        a == (AttribPointer { index: 2, size: 2, stride: 8, offset: 0 }),
{
    AttribPointer { index: 2, size: 2, stride: 8, offset: 0 }
}

/// A vertex of three position values, three normal values and two
/// texture-coordinate values, interleaved in one buffer.
pub struct PNTVertex;

impl PNTVertex {
    /// The three attributes, each right after the one before, in vertices
    /// of eight values.
    pub fn attribs() -> (r: Vec<AttribPointer>)
        ensures
            r@ == seq![
                AttribPointer { index: 0, size: 3, stride: 32, offset: 0 },
                AttribPointer { index: 1, size: 3, stride: 32, offset: 12 },
                AttribPointer { index: 2, size: 2, stride: 32, offset: 24 },
            ],
    {
        let mut r = Vec::new();
        r.push(AttribPointer { index: 0, size: 3, stride: 32, offset: 0 });
        r.push(AttribPointer { index: 1, size: 3, stride: 32, offset: 12 });
        r.push(AttribPointer { index: 2, size: 2, stride: 32, offset: 24 });
        assert(r@ =~= seq![
            AttribPointer { index: 0, size: 3, stride: 32, offset: 0 },
            AttribPointer { index: 1, size: 3, stride: 32, offset: 12 },
            AttribPointer { index: 2, size: 2, stride: 32, offset: 24 },
        ]);
        r
    }
}

/// A vertex read for its position only, in vertices of eight values.
pub struct PVertex;

impl PVertex {
    /// The position attribute.
    pub fn attribs() -> (r: Vec<AttribPointer>)
        ensures
            r@ == seq![AttribPointer { index: 0, size: 3, stride: 32, offset: 0 }],
    {
        let mut r = Vec::new();
        r.push(AttribPointer { index: 0, size: 3, stride: 32, offset: 0 });
        assert(r@ =~= seq![AttribPointer { index: 0, size: 3, stride: 32, offset: 0 }]);
        r
    }
}

} // verus!
