//! PNG files of the plainest kind: one header, one run of stored (uncompressed) scanlines, one end
//! mark, each with its checksum.
use crate::framing;
use vstd::prelude::*;
use vstd::slice::*;

verus! {

// ---------------------------------------------------------------------------
// CRC-32
// ---------------------------------------------------------------------------

/// One bit of the reflected CRC-32 of IEEE 802.3.
pub open spec fn crc_bit(c: u32) -> u32 {
    if c & 1 != 0 {
        0xedb8_8320u32 ^ (c >> 1)
    } else {
        c >> 1
    }
}

/// Eight bits of it.
pub open spec fn crc_byte(c: u32) -> u32 {
    crc_bit(crc_bit(crc_bit(crc_bit(crc_bit(crc_bit(crc_bit(crc_bit(c))))))))
}

/// The CRC register after some bytes.
pub open spec fn crc_register(data: Seq<u8>) -> u32
    decreases data.len(),
{
    if data.len() == 0 {
        0xffff_ffff
    } else {
        crc_byte(crc_register(data.drop_last()) ^ (data.last() as u32))
    }
}

/// CRC-32 as PNG specifies it.
pub open spec fn crc(data: Seq<u8>) -> u32 {
    crc_register(data) ^ 0xffff_ffff
}

fn crc_bit_of(c: u32) -> (r: u32)
    ensures
        r == crc_bit(c),
{
    if c & 1 != 0 {
        0xedb8_8320u32 ^ (c >> 1)
    } else {
        c >> 1
    }
}

proof fn crc_by_table(c: u32, b: u8)
    ensures
        crc_byte(c ^ (b as u32)) == crc_byte((c ^ (b as u32)) & 0xff) ^ (c >> 8),
        (c ^ (b as u32)) & 0xff < 256,
{
    let x: u32 = c ^ (b as u32);
    let w: u32 = b as u32;
    assert(x >> 8 == c >> 8) by (bit_vector)
        requires
            x == c ^ w,
            w < 256,
    ;
    assert(x & 0xff < 256) by (bit_vector);
    assert(crc_byte(x) == crc_byte(x & 0xff) ^ (x >> 8)) by (bit_vector);
}

/// CRC-32 as PNG specifies it (IEEE 802.3, reflected).
pub fn crc32(data: &[u8]) -> (r: u32)
    ensures
        r == crc(data@),
{
    let mut table: Vec<u32> = Vec::new();
    let mut n: u32 = 0;
    while n < 256
        invariant
            n <= 256,
            table@.len() == n,
            forall|k: int| 0 <= k < n ==> table@[k] == crc_byte(k as u32),
        decreases 256 - n,
    {
        let c: u32 = crc_bit_of(crc_bit_of(crc_bit_of(crc_bit_of(n))));
        table.push(crc_bit_of(crc_bit_of(crc_bit_of(crc_bit_of(c)))));
        n += 1;
    }
    let mut register: u32 = 0xffff_ffff;
    let mut i: usize = 0;
    while i < data.len()
        invariant
            i <= data.len(),
            table@.len() == 256,
            forall|k: int| 0 <= k < 256 ==> table@[k] == crc_byte(k as u32),
            register == crc_register(data@.take(i as int)),
        decreases data.len() - i,
    {
        proof {
            assert(data@.take(i + 1).drop_last() == data@.take(i as int));
            assert(data@.take(i + 1).last() == data[i as int]);
            crc_by_table(register, data[i as int]);
        }
        let at: u32 = (register ^ data[i] as u32) & 0xff;
        register = table[at as usize] ^ (register >> 8);
        i += 1;
    }
    assert(data@.take(data@.len() as int) == data@);
    register ^ 0xffff_ffff
}

// ---------------------------------------------------------------------------
// Adler-32
// ---------------------------------------------------------------------------

/// One more than the sum of the bytes.
pub open spec fn adler_a(data: Seq<u8>) -> int
    decreases data.len(),
{
    if data.len() == 0 {
        1
    } else {
        adler_a(data.drop_last()) + data.last()
    }
}

/// The sum of the first sums.
pub open spec fn adler_b(data: Seq<u8>) -> int
    decreases data.len(),
{
    if data.len() == 0 {
        0
    } else {
        adler_b(data.drop_last()) + adler_a(data)
    }
}

/// Adler-32, as zlib specifies: the two sums modulo the largest prime below 65536.
pub open spec fn adler(data: Seq<u8>) -> u32 {
    ((adler_b(data) % 65521) * 65536 + adler_a(data) % 65521) as u32
}

/// Adler-32, as zlib specifies.
pub fn adler32(data: &[u8]) -> (r: u32)
    ensures
        r == adler(data@),
{
    let mut a: u32 = 1;
    let mut b: u32 = 0;
    let mut i: usize = 0;
    while i < data.len()
        invariant
            i <= data.len(),
            a == adler_a(data@.take(i as int)) % 65521,
            b == adler_b(data@.take(i as int)) % 65521,
        decreases data.len() - i,
    {
        proof {
            assert(data@.take(i + 1).drop_last() == data@.take(i as int));
            assert(data@.take(i + 1).last() == data[i as int]);
        }
        a = (a + data[i] as u32) % 65521;
        b = (b + a) % 65521;
        i += 1;
    }
    assert(data@.take(data@.len() as int) == data@);
    b * 65536 + a
}

// ---------------------------------------------------------------------------
// Stored blocks
// ---------------------------------------------------------------------------

/// A 16-bit number as two bytes, the least significant first.
pub open spec fn little_endian(n: nat) -> Seq<u8> {
    seq![(n % 256) as u8, (n / 256) as u8]
}

/// One stored block: a flag that says whether it is the last, its length, the complement of its
/// length, its bytes.
pub open spec fn stored_block(data: Seq<u8>, last: bool) -> Seq<u8> {
    seq![
        if last {
            1u8
        } else {
            0u8
        },
    ] + little_endian(data.len()) + little_endian((65535 - data.len()) as nat) + data
}

/// Data as stored blocks of at most 65535 bytes; no data at all is one empty block.
pub open spec fn stored_blocks(data: Seq<u8>) -> Seq<u8>
    decreases data.len(),
{
    if data.len() <= 65535 {
        stored_block(data, true)
    } else {
        stored_block(data.take(65535), false) + stored_blocks(data.skip(65535))
    }
}

/// A zlib stream of stored blocks: header, blocks, checksum.
#[verifier::opaque]
pub open spec fn zlib(data: Seq<u8>) -> Seq<u8> {
    seq![0x78u8, 0x01u8] + stored_blocks(data) + framing::big_endian(adler(data))
}

/// Append a number as four bytes, the most significant first.
pub fn push_big_endian(out: &mut Vec<u8>, n: u32)
    ensures
        final(out)@ == old(out)@ + framing::big_endian(n),
{
    out.push((n / 0x100_0000) as u8);
    out.push((n / 0x1_0000 % 256) as u8);
    out.push((n / 256 % 256) as u8);
    out.push((n % 256) as u8);
    assert(out@ == old(out)@ + framing::big_endian(n));
}

fn push_block(out: &mut Vec<u8>, data: &[u8], last: bool)
    requires
        data@.len() <= 65535,
    ensures
        final(out)@ == old(out)@ + stored_block(data@, last),
{
    let len: usize = data.len();
    out.push(
        if last {
            1
        } else {
            0
        },
    );
    out.push((len % 256) as u8);
    out.push((len / 256) as u8);
    out.push(((65535 - len) % 256) as u8);
    out.push(((65535 - len) / 256) as u8);
    out.extend_from_slice(data);
    assert(out@ == old(out)@ + stored_block(data@, last));
}

/// Wrap data as a zlib stream of stored blocks.
pub fn zlib_store(data: &[u8]) -> (r: Vec<u8>)
    ensures
        r@ == zlib(data@),
{
    reveal(zlib);
    let mut out: Vec<u8> = Vec::new();
    out.push(0x78);
    out.push(0x01);
    let ghost head = seq![0x78u8, 0x01u8];
    assert(out@ == head);
    let mut offset: usize = 0;
    assert(data@.skip(0) == data@);
    while data.len() - offset > 65535
        invariant
            offset <= data.len(),
            out@ + stored_blocks(data@.skip(offset as int)) == head + stored_blocks(data@),
        decreases data.len() - offset,
    {
        let ghost rest = data@.skip(offset as int);
        let ghost before = out@;
        push_block(&mut out, slice_subrange(data, offset, offset + 65535), false);
        proof {
            assert(data@.subrange(offset as int, offset + 65535) == rest.take(65535));
            assert(rest.skip(65535) == data@.skip(offset + 65535));
            assert(out@ + stored_blocks(rest.skip(65535)) == before + stored_blocks(rest));
        }
        offset += 65535;
    }
    push_block(&mut out, slice_subrange(data, offset, data.len()), true);
    assert(data@.subrange(offset as int, data@.len() as int) == data@.skip(offset as int));
    push_big_endian(&mut out, adler32(data));
    out
}

// ---------------------------------------------------------------------------
// Files
// ---------------------------------------------------------------------------

/// One chunk of a PNG file: the length of its data, its kind, its data, and the checksum of kind
/// and data.
#[verifier::opaque]
pub open spec fn chunk(kind: Seq<u8>, data: Seq<u8>) -> Seq<u8> {
    framing::big_endian((data.len() % 0x1_0000_0000) as u32) + kind + data + framing::big_endian(
        crc(kind + data),
    )
}

/// The first `rows` scanlines: each begins with a zero byte that says it is not filtered.
pub open spec fn scanlines(rgba: Seq<u8>, stride: nat, rows: nat) -> Seq<u8>
    decreases rows,
{
    if rows == 0 {
        seq![]
    } else {
        scanlines(rgba, stride, (rows - 1) as nat) + seq![0u8] + rgba.subrange(
            (rows - 1) * stride,
            (rows * stride) as int,
        )
    }
}

/// The eight bytes that every PNG file begins with.
pub open spec fn signature() -> Seq<u8> {
    seq![0x89u8, 0x50, 0x4e, 0x47, 0x0d, 0x0a, 0x1a, 0x0a]
}

/// The kind of the header chunk, `IHDR`.
pub open spec fn ihdr() -> Seq<u8> {
    seq![0x49u8, 0x48, 0x44, 0x52]
}

/// The kind of the data chunk, `IDAT`.
pub open spec fn idat() -> Seq<u8> {
    seq![0x49u8, 0x44, 0x41, 0x54]
}

/// The kind of the end chunk, `IEND`.
pub open spec fn iend() -> Seq<u8> {
    seq![0x49u8, 0x45, 0x4e, 0x44]
}

/// What the header chunk says: the size, eight bits a sample, colour with alpha, nothing else.
pub open spec fn header(width: u32, height: u32) -> Seq<u8> {
    framing::big_endian(width) + framing::big_endian(height) + seq![8u8, 6, 0, 0, 0]
}

/// The PNG file of RGBA pixels.
pub open spec fn png(rgba: Seq<u8>, width: u32, height: u32) -> Seq<u8> {
    signature() + chunk(ihdr(), header(width, height)) + chunk(
        idat(),
        zlib(scanlines(rgba, (width * 4) as nat, height as nat)),
    ) + chunk(iend(), seq![])
}

/// How many bytes the pixels of an image take.
pub open spec fn pixel_bytes(width: u32, height: u32) -> nat {
    (width * 4 * height) as nat
}

/// How many bytes the pixels of an image take, however large it is.
pub fn pixel_bytes_of(width: u32, height: u32) -> (r: u128)
    ensures
        r == pixel_bytes(width, height),
{
    assert(width * 4 * height <= 0x4_0000_0000 * 0x1_0000_0000) by (nonlinear_arith)
        requires
            0 <= width <= 0xffff_ffff,
            0 <= height <= 0xffff_ffff,
    ;
    width as u128 * 4 * height as u128
}

/// Append one chunk of a PNG file.
pub fn write_chunk(out: &mut Vec<u8>, kind: &[u8; 4], data: &[u8])
    ensures
        final(out)@ == old(out)@ + chunk(kind@, data@),
{
    reveal(chunk);
    let size: u64 = data.len() as u64;
    push_big_endian(out, (size % 0x1_0000_0000) as u32);
    let mut covered: Vec<u8> = Vec::new();
    covered.push(kind[0]);
    covered.push(kind[1]);
    covered.push(kind[2]);
    covered.push(kind[3]);
    assert(covered@ == kind@);
    covered.extend_from_slice(data);
    assert(covered@ == kind@ + data@);
    out.extend_from_slice(covered.as_slice());
    push_big_endian(out, crc32(covered.as_slice()));
    assert(out@ == old(out)@ + chunk(kind@, data@));
}

/// Encode RGBA pixels, row by row from the top, as a PNG file. Bytes beyond the last row are
/// ignored.
pub fn encode(rgba: &[u8], width: u32, height: u32) -> (r: Vec<u8>)
    requires
        rgba@.len() >= pixel_bytes(width, height),
    ensures
        r@ == png(rgba@, width, height),
{
    let needed: u128 = pixel_bytes_of(width, height);
    let stride64: u64 = width as u64 * 4;
    let mut raw: Vec<u8> = Vec::new();
    let mut row: u32 = 0;
    let mut at: usize = 0;
    while row < height
        invariant
            row <= height,
            stride64 == width * 4,
            at == row * stride64,
            rgba@.len() >= pixel_bytes(width, height),
            raw@ == scanlines(rgba@, (width * 4) as nat, row as nat),
        decreases height - row,
    {
        proof {
            assert((row + 1) * stride64 == row * stride64 + stride64) by (nonlinear_arith);
            assert((row + 1) * stride64 <= height * stride64) by (nonlinear_arith)
                requires
                    row + 1 <= height,
            ;
            assert(height * stride64 == width * 4 * height) by (nonlinear_arith)
                requires
                    stride64 == width * 4,
            ;
            assert(0 <= row * stride64) by (nonlinear_arith);
            assert(row * stride64 + stride64 <= rgba@.len());
            assert(stride64 <= usize::MAX) by {
                assert(rgba.len() <= usize::MAX);
            }
        }
        let stride: usize = stride64 as usize;
        let ghost before = raw@;
        raw.push(0);
        raw.extend_from_slice(slice_subrange(rgba, at, at + stride));
        assert(raw@ == before + seq![0u8] + rgba@.subrange(at as int, at + stride));
        at = at + stride;
        row = row + 1;
    }
    let compressed = zlib_store(raw.as_slice());
    let mut out: Vec<u8> = Vec::new();
    out.push(0x89);
    out.push(0x50);
    out.push(0x4e);
    out.push(0x47);
    out.push(0x0d);
    out.push(0x0a);
    out.push(0x1a);
    out.push(0x0a);
    assert(out@ == signature());
    let mut head: Vec<u8> = Vec::new();
    push_big_endian(&mut head, width);
    push_big_endian(&mut head, height);
    head.push(8);
    head.push(6);
    head.push(0);
    head.push(0);
    head.push(0);
    assert(head@ == header(width, height));
    let empty: Vec<u8> = Vec::new();
    let ihdr_kind: [u8; 4] = [0x49, 0x48, 0x44, 0x52];
    let idat_kind: [u8; 4] = [0x49, 0x44, 0x41, 0x54];
    let iend_kind: [u8; 4] = [0x49, 0x45, 0x4e, 0x44];
    assert(ihdr_kind@ == ihdr());
    assert(idat_kind@ == idat());
    assert(iend_kind@ == iend());
    write_chunk(&mut out, &ihdr_kind, head.as_slice());
    write_chunk(&mut out, &idat_kind, compressed.as_slice());
    write_chunk(&mut out, &iend_kind, empty.as_slice());
    out
}

// ---------------------------------------------------------------------------
// Laws
// ---------------------------------------------------------------------------

/// What a reader of stored blocks makes of a stream: the data of the blocks up to the last one, and
/// what follows it. Nothing where a length and its complement disagree or the stream is short.
pub open spec fn blocks_read(z: Seq<u8>) -> Option<(Seq<u8>, Seq<u8>)>
    decreases z.len(),
{
    if z.len() < 5 {
        None
    } else {
        let len = z[1] + z[2] * 256;
        let complement = z[3] + z[4] * 256;
        if len + complement != 65535 || z.len() < 5 + len {
            None
        } else {
            let data = z.subrange(5, 5 + len);
            let rest = z.skip(5 + len);
            if z[0] == 1 {
                Some((data, rest))
            } else if z[0] == 0 {
                match blocks_read(rest) {
                    Some((more, behind)) => Some((data + more, behind)),
                    None => None,
                }
            } else {
                None
            }
        }
    }
}

proof fn block_read(data: Seq<u8>, last: bool, rest: Seq<u8>)
    requires
        data.len() <= 65535,
    ensures
        ({
            let z = stored_block(data, last) + rest;
            &&& z.len() >= 5 + data.len()
            &&& z[0] == (if last {
                1u8
            } else {
                0u8
            })
            &&& z[1] + z[2] * 256 == data.len()
            &&& z[3] + z[4] * 256 == 65535 - data.len()
            &&& z.subrange(5, 5 + data.len() as int) == data
            &&& z.skip(5 + data.len() as int) == rest
        }),
{
    let b = stored_block(data, last);
    let z = b + rest;
    assert(b.len() == 5 + data.len());
    assert(z[0] == b[0] && z[1] == b[1] && z[2] == b[2] && z[3] == b[3] && z[4] == b[4]);
    assert(z.subrange(5, 5 + data.len() as int) == data);
    assert(z.skip(5 + data.len() as int) == rest);
}

/// Reading stored blocks gives every byte back, however many blocks they took.
pub proof fn stored_blocks_round_trip(data: Seq<u8>, rest: Seq<u8>)
    ensures
        blocks_read(stored_blocks(data) + rest) == Some((data, rest)),
    decreases data.len(),
{
    if data.len() <= 65535 {
        block_read(data, true, rest);
    } else {
        let head = data.take(65535);
        let tail = data.skip(65535);
        stored_blocks_round_trip(tail, rest);
        block_read(head, false, stored_blocks(tail) + rest);
        assert(stored_blocks(data) + rest == stored_block(head, false) + (stored_blocks(tail)
            + rest));
        assert(head + tail == data);
    }
}

/// What a reader of a zlib stream of stored blocks makes of it, when its checksum is right.
#[verifier::opaque]
pub open spec fn zlib_read(z: Seq<u8>) -> Option<Seq<u8>> {
    if z.len() >= 2 && z[0] == 0x78 && z[1] == 0x01 {
        match blocks_read(z.skip(2)) {
            Some((data, rest)) => if rest == framing::big_endian(adler(data)) {
                Some(data)
            } else {
                None
            },
            None => None,
        }
    } else {
        None
    }
}

/// Reading a zlib stream gives the data back, with its checksum right.
pub proof fn zlib_round_trip(data: Seq<u8>)
    ensures
        zlib_read(zlib(data)) == Some(data),
{
    reveal(zlib);
    reveal(zlib_read);
    stored_blocks_round_trip(data, framing::big_endian(adler(data)));
    assert(zlib(data).skip(2) == stored_blocks(data) + framing::big_endian(adler(data)));
}

/// The first chunk of a PNG stream, as kind, data and what follows, when its checksum is right.
#[verifier::opaque]
pub open spec fn chunk_read(b: Seq<u8>) -> Option<(Seq<u8>, Seq<u8>, Seq<u8>)> {
    if b.len() < 12 {
        None
    } else {
        let len = framing::from_big_endian(b);
        if b.len() < 12 + len {
            None
        } else {
            let kind = b.subrange(4, 8);
            let data = b.subrange(8, 8 + len);
            if b.subrange(8 + len, 12 + len) == framing::big_endian(crc(kind + data)) {
                Some((kind, data, b.skip(12 + len)))
            } else {
                None
            }
        }
    }
}

/// The parts of a chunk stand where they are looked for.
proof fn chunk_parts(
    length: Seq<u8>,
    kind: Seq<u8>,
    data: Seq<u8>,
    check: Seq<u8>,
    rest: Seq<u8>,
)
    requires
        length.len() == 4,
        kind.len() == 4,
        check.len() == 4,
    ensures
        ({
            let b = (length + kind + data + check) + rest;
            let n = data.len() as int;
            &&& b.len() >= 12 + n
            &&& b == length + (kind + data + check + rest)
            &&& b.subrange(4, 8) == kind
            &&& b.subrange(8, 8 + n) == data
            &&& b.subrange(8 + n, 12 + n) == check
            &&& b.skip(12 + n) == rest
        }),
{
    let b = (length + kind + data + check) + rest;
    let n = data.len() as int;
    assert(b =~= length + (kind + data + check + rest));
    assert(b.subrange(4, 8) =~= kind);
    assert(b.subrange(8, 8 + n) =~= data);
    assert(b.subrange(8 + n, 12 + n) =~= check);
    assert(b.skip(12 + n) =~= rest);
}

/// A chunk reads back as what it was written from, with its checksum right, and reading stops at
/// the next chunk.
#[verifier::spinoff_prover]
pub proof fn chunk_round_trip(kind: Seq<u8>, data: Seq<u8>, rest: Seq<u8>)
    requires
        kind.len() == 4,
        data.len() < 0x1_0000_0000,
    ensures
        chunk_read(chunk(kind, data) + rest) == Some((kind, data, rest)),
{
    let n = data.len() as u32;
    let length = framing::big_endian(n);
    let check = framing::big_endian(crc(kind + data));
    let b = (length + kind + data + check) + rest;
    assert(chunk(kind, data) == length + kind + data + check) by {
        reveal(chunk);
        assert((data.len() % 0x1_0000_0000) as u32 == n);
    }
    chunk_parts(length, kind, data, check, rest);
    framing::big_endian_round_trip(n, kind + data + check + rest);
    assert(framing::from_big_endian(b) == n);
    reveal(chunk_read);
}

/// The pixels of unfiltered scanlines.
pub open spec fn pixels_of(raw: Seq<u8>, stride: nat, rows: nat) -> Seq<u8>
    decreases rows,
{
    if rows == 0 {
        seq![]
    } else {
        pixels_of(raw, stride, (rows - 1) as nat) + raw.subrange(
            (rows - 1) * (stride + 1) + 1,
            (rows * (stride + 1)) as int,
        )
    }
}

proof fn scanlines_shape(rgba: Seq<u8>, stride: nat, rows: nat)
    requires
        rgba.len() >= rows * stride,
    ensures
        scanlines(rgba, stride, rows).len() == rows * (stride + 1),
    decreases rows,
{
    if rows > 0 {
        let before = (rows - 1) as nat;
        assert(before * stride + stride == rows * stride) by (nonlinear_arith)
            requires
                rows == before + 1,
        ;
        assert(before * (stride + 1) + stride + 1 == rows * (stride + 1)) by (nonlinear_arith)
            requires
                rows == before + 1,
        ;
        assert(0 <= before * stride) by (nonlinear_arith);
        scanlines_shape(rgba, stride, before);
    } else {
        assert(rows * (stride + 1) == 0) by (nonlinear_arith)
            requires
                rows == 0,
        ;
    }
}

proof fn pixels_of_prefix(raw: Seq<u8>, more: Seq<u8>, stride: nat, rows: nat)
    requires
        raw.len() >= rows * (stride + 1),
    ensures
        pixels_of(raw + more, stride, rows) == pixels_of(raw, stride, rows),
    decreases rows,
{
    if rows > 0 {
        let before = (rows - 1) as nat;
        assert(before * (stride + 1) + stride + 1 == rows * (stride + 1)) by (nonlinear_arith)
            requires
                rows == before + 1,
        ;
        assert(0 <= before * (stride + 1)) by (nonlinear_arith);
        pixels_of_prefix(raw, more, stride, before);
        assert((raw + more).subrange((before * (stride + 1) + 1) as int, (rows * (stride + 1)) as int)
            == raw.subrange((before * (stride + 1) + 1) as int, (rows * (stride + 1)) as int));
    }
}

/// Taking the filter bytes out of scanlines gives the pixels back.
pub proof fn scanlines_round_trip(rgba: Seq<u8>, stride: nat, rows: nat)
    requires
        rgba.len() >= rows * stride,
    ensures
        pixels_of(scanlines(rgba, stride, rows), stride, rows) == rgba.take((rows * stride) as int),
    decreases rows,
{
    if rows > 0 {
        let before = (rows - 1) as nat;
        assert(before * stride + stride == rows * stride) by (nonlinear_arith)
            requires
                rows == before + 1,
        ;
        assert(before * (stride + 1) + stride + 1 == rows * (stride + 1)) by (nonlinear_arith)
            requires
                rows == before + 1,
        ;
        assert(0 <= before * stride) by (nonlinear_arith);
        let head = scanlines(rgba, stride, before);
        let line = rgba.subrange((before * stride) as int, (rows * stride) as int);
        let all = scanlines(rgba, stride, rows);
        scanlines_shape(rgba, stride, before);
        scanlines_round_trip(rgba, stride, before);
        pixels_of_prefix(head, seq![0u8] + line, stride, before);
        assert(all == head + (seq![0u8] + line));
        assert(all.subrange((before * (stride + 1) + 1) as int, (rows * (stride + 1)) as int) == line);
        assert(rgba.take((before * stride) as int) + line == rgba.take((rows * stride) as int));
    } else {
        assert(rows * stride == 0) by (nonlinear_arith)
            requires
                rows == 0,
        ;
        assert(rgba.take(0) == Seq::<u8>::empty());
    }
}

/// The size and the pixels of a PNG file of the kind written here, when its structure and every
/// checksum in it are right.
pub open spec fn png_read(file: Seq<u8>) -> Option<(u32, u32, Seq<u8>)> {
    if file.len() < 8 || file.take(8) != signature() {
        None
    } else {
        match chunk_read(file.skip(8)) {
            Some((kind1, head, rest1)) => match chunk_read(rest1) {
                Some((kind2, body, rest2)) => match (chunk_read(rest2), zlib_read(body)) {
                    (Some((kind3, tail, rest3)), Some(raw)) => {
                        let width = framing::from_big_endian(head);
                        let height = framing::from_big_endian(head.skip(4));
                        if kind1 == ihdr() && kind2 == idat() && kind3 == iend() && head == header(
                            width,
                            height,
                        ) && tail.len() == 0 && rest3.len() == 0 {
                            Some((width, height, pixels_of(raw, (width * 4) as nat, height as nat)))
                        } else {
                            None
                        }
                    },
                    _ => None,
                },
                None => None,
            },
            None => None,
        }
    }
}

/// A PNG file reads back as the size and the pixels it was written from: its chunks cover it
/// exactly and every checksum is right.
pub proof fn png_round_trip(rgba: Seq<u8>, width: u32, height: u32)
    requires
        rgba.len() >= pixel_bytes(width, height),
        zlib(scanlines(rgba, (width * 4) as nat, height as nat)).len() < 0x1_0000_0000,
    ensures
        png_read(png(rgba, width, height)) == Some(
            (width, height, rgba.take(pixel_bytes(width, height) as int)),
        ),
{
    let stride = (width * 4) as nat;
    let raw = scanlines(rgba, stride, height as nat);
    let head = header(width, height);
    png_chunks(head, zlib(raw));
    zlib_round_trip(raw);
    header_read(width, height);
    assert(height as nat * stride == pixel_bytes(width, height)) by (nonlinear_arith)
        requires
            stride == width * 4,
            pixel_bytes(width, height) == width * 4 * height,
    ;
    scanlines_round_trip(rgba, stride, height as nat);
}

proof fn header_read(width: u32, height: u32)
    ensures
        framing::from_big_endian(header(width, height)) == width,
        framing::from_big_endian(header(width, height).skip(4)) == height,
        header(width, height).len() == 13,
{
    let rest = seq![8u8, 6, 0, 0, 0];
    let head = header(width, height);
    framing::big_endian_round_trip(width, framing::big_endian(height) + rest);
    framing::big_endian_round_trip(height, rest);
    assert(head == framing::big_endian(width) + (framing::big_endian(height) + rest));
    assert(head.skip(4) == framing::big_endian(height) + rest);
}

proof fn png_chunks(head: Seq<u8>, body: Seq<u8>)
    requires
        head.len() == 13,
        body.len() < 0x1_0000_0000,
    ensures
        ({
            let empty = Seq::<u8>::empty();
            let c2 = chunk(idat(), body);
            let c3 = chunk(iend(), empty);
            let file = signature() + chunk(ihdr(), head) + c2 + c3;
            &&& file.len() >= 8
            &&& file.take(8) == signature()
            &&& chunk_read(file.skip(8)) == Some((ihdr(), head, c2 + c3))
            &&& chunk_read(c2 + c3) == Some((idat(), body, c3))
            &&& chunk_read(c3) == Some((iend(), empty, empty))
        }),
{
    let empty = Seq::<u8>::empty();
    let c1 = chunk(ihdr(), head);
    let c2 = chunk(idat(), body);
    let c3 = chunk(iend(), empty);
    let file = signature() + c1 + c2 + c3;
    chunk_round_trip(ihdr(), head, c2 + c3);
    chunk_round_trip(idat(), body, c3);
    chunk_round_trip(iend(), empty, empty);
    assert(file.take(8) == signature());
    assert(file.skip(8) == c1 + (c2 + c3));
    assert(c3 + empty == c3);
}

/// A file is larger than the compressed pixels in it.
pub proof fn files_hold_the_pixels(rgba: Seq<u8>, width: u32, height: u32)
    ensures
        png(rgba, width, height).len() > zlib(
            scanlines(rgba, (width * 4) as nat, height as nat),
        ).len(),
{
    reveal(chunk);
    let body = zlib(scanlines(rgba, (width * 4) as nat, height as nat));
    let c2 = chunk(idat(), body);
    assert(c2.len() == 12 + body.len());
}

/// How every file begins and ends, byte for byte: the signature of a PNG, then a header of 13 bytes
/// that gives the size, eight bits a sample, red, green, blue and opacity, and no interlacing; at the
/// end, a chunk that says that the file ends.
#[verifier::spinoff_prover]
#[verifier::rlimit(30)]
pub proof fn files_begin_and_end_as_png(rgba: Seq<u8>, width: u32, height: u32)
    ensures
        ({
            let file = png(rgba, width, height);
            let n = file.len();
            &&& n >= 33 + 12 + 12
            &&& file.take(8) == seq![0x89u8, 0x50, 0x4e, 0x47, 0x0d, 0x0a, 0x1a, 0x0a]
            &&& file.subrange(8, 16) == seq![0u8, 0, 0, 13, 0x49, 0x48, 0x44, 0x52]
            &&& file[16] * 0x100_0000 + file[17] * 0x1_0000 + file[18] * 0x100 + file[19] == width
            &&& file[20] * 0x100_0000 + file[21] * 0x1_0000 + file[22] * 0x100 + file[23] == height
            &&& file.subrange(24, 29) == seq![8u8, 6, 0, 0, 0]
            &&& file.subrange(37, 41) == seq![0x49u8, 0x44, 0x41, 0x54]
            &&& file.subrange(n - 12, n - 4) == seq![0u8, 0, 0, 0, 0x49, 0x45, 0x4e, 0x44]
        }),
{
    let file = png(rgba, width, height);
    let n = file.len();
    let body = zlib(scanlines(rgba, (width * 4) as nat, height as nat));
    let head = header(width, height);
    let empty = Seq::<u8>::empty();
    let c1 = chunk(ihdr(), head);
    let c2 = chunk(idat(), body);
    let c3 = chunk(iend(), empty);
    assert(framing::big_endian(13) =~= seq![0u8, 0, 0, 13]);
    assert(framing::big_endian(0) =~= seq![0u8, 0, 0, 0]);
    header_read(width, height);
    chunk_layout(ihdr(), head);
    chunk_layout(idat(), body);
    chunk_layout(iend(), empty);
    parts_stand(signature(), c1, c2, c3);
    assert(c1.take(8) =~= seq![0u8, 0, 0, 13, 0x49, 0x48, 0x44, 0x52]) by {
        assert(c1.take(8) =~= c1.take(4) + c1.subrange(4, 8));
    }
    assert(c3.take(8) =~= seq![0u8, 0, 0, 0, 0x49, 0x45, 0x4e, 0x44]) by {
        assert(c3.take(8) =~= c3.take(4) + c3.subrange(4, 8));
    }
    assert(file.subrange(8, 16) =~= c1.take(8));
    assert(head =~= c1.subrange(8, 21));
    assert forall|i: int| 0 <= i < 13 implies #[trigger] head[i] == file[16 + i] by {
        assert(head[i] == c1[8 + i]);
    }
    assert(head[0] == file[16] && head[1] == file[17] && head[2] == file[18] && head[3] == file[19]);
    assert(head[4] == file[20] && head[5] == file[21] && head[6] == file[22] && head[7] == file[23]);
    assert(head.skip(8) =~= seq![8u8, 6, 0, 0, 0]);
    assert(file.subrange(24, 29) =~= head.skip(8));
    assert(file.subrange(37, 41) =~= c2.subrange(4, 8));
    assert(file.subrange(n - 12, n - 4) =~= c3.take(8));
}

/// Where the parts of a chunk stand in it.
proof fn chunk_layout(kind: Seq<u8>, data: Seq<u8>)
    requires
        kind.len() == 4,
    ensures
        chunk(kind, data).len() == 12 + data.len(),
        chunk(kind, data).take(4) == framing::big_endian((data.len() % 0x1_0000_0000) as u32),
        chunk(kind, data).subrange(4, 8) == kind,
        chunk(kind, data).subrange(8, 8 + data.len() as int) == data,
{
    reveal(chunk);
    let length = framing::big_endian((data.len() % 0x1_0000_0000) as u32);
    let check = framing::big_endian(crc(kind + data));
    let c = length + kind + data + check;
    assert(c.take(4) =~= length);
    assert(c.subrange(4, 8) =~= kind);
    assert(c.subrange(8, 8 + data.len() as int) =~= data);
}

/// Where the parts of a file stand in it.
proof fn parts_stand(a: Seq<u8>, b: Seq<u8>, c: Seq<u8>, d: Seq<u8>)
    ensures
        ({
            let file = a + b + c + d;
            &&& file.take(a.len() as int) == a
            &&& forall|i: int| 0 <= i < b.len() ==> #[trigger] b[i] == file[a.len() + i]
            &&& forall|i: int| 0 <= i < c.len() ==> #[trigger] c[i] == file[a.len() + b.len() + i]
            &&& forall|i: int|
                0 <= i < d.len() ==> #[trigger] d[i] == file[a.len() + b.len() + c.len() + i]
        }),
{
    let file = a + b + c + d;
    assert(file.take(a.len() as int) =~= a);
}

/// How one more byte changes the checksum of a stream: its low half is the sum of the bytes and one,
/// and its high half the sum of those sums, each modulo 65521.
pub proof fn checksums_sum_the_bytes(data: Seq<u8>, byte: u8)
    ensures
        adler(Seq::empty()) == 1,
        adler(data.push(byte)) % 0x1_0000 == (adler(data) % 0x1_0000 + byte) % 65521,
        adler(data.push(byte)) / 0x1_0000 == (adler(data) / 0x1_0000 + adler(data.push(byte))
            % 0x1_0000) % 65521,
{
    let more = data.push(byte);
    assert(more.drop_last() == data);
    let (a, b) = (adler_a(data), adler_b(data));
    let (c, d) = (adler_a(more), adler_b(more));
    assert(c == a + byte && d == b + c);
    vstd::arithmetic::div_mod::lemma_add_mod_noop(a, byte as int, 65521);
    vstd::arithmetic::div_mod::lemma_add_mod_noop(b, c, 65521);
    assert(byte as int % 65521 == byte);
    assert((a % 65521 + byte) % 65521 == c % 65521);
    assert((b % 65521 + c % 65521) % 65521 == d % 65521);
}

/// How the stream that holds the pixels begins, byte for byte, and what one of its blocks looks like:
/// uncompressed, with its length and the complement of it, low byte first.
pub proof fn streams_are_stored(data: Seq<u8>)
    ensures
        zlib(data).take(2) == seq![0x78u8, 0x01u8],
        data.len() <= 65535 ==> {
            &&& zlib(data).len() == 2 + 5 + data.len() + 4
            &&& zlib(data)[2] == 1
            &&& zlib(data)[3] + 256 * zlib(data)[4] == data.len()
            &&& zlib(data)[5] + 256 * zlib(data)[6] == 65535 - data.len()
            &&& zlib(data).subrange(7, 7 + data.len() as int) == data
        },
{
    reveal(zlib);
    let z = zlib(data);
    assert(z.take(2) =~= seq![0x78u8, 0x01u8]);
    if data.len() <= 65535 {
        let block = stored_block(data, true);
        assert(block.len() == 5 + data.len());
        assert(z[2] == block[0] && z[3] == block[1] && z[4] == block[2] && z[5] == block[3] && z[6]
            == block[4]);
        assert(z.subrange(7, 7 + data.len() as int) =~= data);
    }
}

} // verus!
