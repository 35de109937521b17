//! The engine's texture container: pixel records, the byte layout they are
//! stored in, and the compressed container `Texture` reads and writes.
//!
//! The byte layout is defined here, down to the bit: integers are stored as
//! little-endian base-128 varints (seven value bits per byte, high bit set
//! on all but the last), a pixel is its variant tag followed by its channel
//! bytes, and a whole message is framed zero-free by consistent-overhead
//! byte stuffing (chained blocks of up to 254 non-zero bytes, each led by a
//! header counting to the next header, closed by a zero sentinel).  Only the
//! compression around these bytes is an outside call.

use vstd::prelude::*;

verus! {

/// Version number written into every texture.
pub const TEXTURE_VERSION: u32 = 1;

/// One opaque 8-bit-per-channel color pixel.
#[derive(Clone, Copy, PartialEq, Eq, Structural, Debug)]
pub struct RgbPixel {
    pub r: u8,
    pub g: u8,
    pub b: u8,
}

/// One 8-bit-per-channel color pixel with alpha.
#[derive(Clone, Copy, PartialEq, Eq, Structural, Debug)]
pub struct RgbaPixel {
    pub r: u8,
    pub g: u8,
    pub b: u8,
    pub a: u8,
}

/// A pixel of either layout; doubles as the format marker of a texture.
#[derive(Clone, Copy, PartialEq, Eq, Structural, Debug)]
pub enum Pixel {
    Rgb(RgbPixel),
    Rgba(RgbaPixel),
}

impl From<RgbPixel> for Pixel {
    fn from(p: RgbPixel) -> (r: Pixel) {
        Pixel::Rgb(p)
    }
}

impl vstd::std_specs::convert::FromSpecImpl<RgbPixel> for Pixel {
    open spec fn obeys_from_spec() -> bool {
        true
    }

    open spec fn from_spec(p: RgbPixel) -> Pixel {
        Pixel::Rgb(p)
    }
}

impl From<RgbaPixel> for Pixel {
    fn from(p: RgbaPixel) -> (r: Pixel) {
        Pixel::Rgba(p)
    }
}

impl vstd::std_specs::convert::FromSpecImpl<RgbaPixel> for Pixel {
    open spec fn obeys_from_spec() -> bool {
        true
    }

    open spec fn from_spec(p: RgbaPixel) -> Pixel {
        Pixel::Rgba(p)
    }
}

#[verifier::external_type_specification]
#[verifier::external_body]
pub struct ExIoError(std::io::Error);

/// Why reading or writing a texture failed.
#[derive(Debug)]
pub enum TextureError {
    /// The compression layer reported a failure.
    Io(std::io::Error),
    /// The bytes do not hold a well-formed texture.
    Decode,
}

/// The compressed texture container.
#[derive(Debug)]
pub struct Texture {
    pub version: u32,
    pub format: Pixel,
    pub width: u32,
    pub height: u32,
    pub data: Vec<u8>,
}

/// A mathematical texture: what a `Texture` holds.
pub struct TextureModel {
    pub version: u32,
    pub format: Pixel,
    pub width: u32,
    pub height: u32,
    pub data: Seq<u8>,
}

impl View for Texture {
    type V = TextureModel;

    open spec fn view(&self) -> TextureModel {
        TextureModel {
            version: self.version,
            format: self.format,
            width: self.width,
            height: self.height,
            data: self.data@,
        }
    }
}

impl Texture {
    /// Builds a texture: each pixel is laid out as its message bytes,
    /// framed zero-free, compressed on its own, and the compressed frames
    /// are concatenated into the payload.  Fails only when the compressor
    /// reports a failure.
    pub fn new(format: Pixel, width: u32, height: u32, pixels: Vec<Pixel>) -> (r: Result<
        Texture,
        TextureError,
    >)
        ensures
            r matches Ok(t) ==> t@ == (TextureModel {
                version: TEXTURE_VERSION,
                format,
                width,
                height,
                data: packed_pixels(pixels@),
            }),
            r matches Err(e) ==> e is Io,
    {
        let mut raw: Vec<u8> = Vec::new();
        let n = pixels.len();
        for i in 0..n
            invariant
                n == pixels@.len(),
                raw@ == packed_pixels(pixels@.take(i as int)),
        {
            let msg = pixel_bytes(&pixels[i]);
            let framed = cobs_encode(&msg);
            let mut compressed = match compress(&framed) {
                Ok(c) => c,
                Err(e) => {
                    return Err(TextureError::Io(e));
                },
            };
            raw.append(&mut compressed);
            proof {
                assert(pixels@.take(i + 1).drop_last() =~= pixels@.take(i as int));
                assert(pixels@.take(i + 1).last() == pixels@[i as int]);
            }
        }
        proof {
            assert(pixels@.take(n as int) =~= pixels@);
        }
        Ok(Texture { version: TEXTURE_VERSION, format, width, height, data: raw })
    }

    /// Reads a texture back from compressed bytes: decompress, unframe,
    /// parse.  A compression-layer failure comes back as `Io`, bytes that
    /// decompress but hold no well-formed texture as `Decode`; every input
    /// that decodes is accepted.
    pub fn from_bytes(v: Vec<u8>) -> (r: Result<Texture, TextureError>)
        ensures
            r matches Ok(t) ==> decoded_texture(v@) == Some(t@),
            r matches Err(e) ==> decoded_texture(v@) is None && (match e {
                TextureError::Io(_) => decompressed_of(v@) is None,
                TextureError::Decode => decompressed_of(v@) is Some,
            }),
    {
        let decompressed = match decompress(&v) {
            Ok(d) => d,
            Err(e) => {
                return Err(TextureError::Io(e));
            },
        };
        let body = match cobs_decode(&decompressed) {
            Some(b) => b,
            None => {
                return Err(TextureError::Decode);
            },
        };
        match parse_texture_bytes(&body) {
            Some(t) => Ok(t),
            None => Err(TextureError::Decode),
        }
    }

    /// The container's version number.
    pub fn version(&self) -> (r: u32)
        ensures
            r == self.version,
    {
        self.version
    }

    /// The pixel layout of the payload.
    pub fn format(&self) -> (r: &Pixel)
        ensures
            *r == self.format,
    {
        &self.format
    }

    /// Width and height in pixels.
    pub fn size(&self) -> (r: (u32, u32))
        ensures
            r.0 == self.width,
            r.1 == self.height,
    {
        (self.width, self.height)
    }

    /// The compressed payload bytes.
    pub fn data(&self) -> (r: &Vec<u8>)
        ensures
            r@ == self.data@,
    {
        &self.data
    }
}

/// The payload `Texture::new` builds: one compressed zero-free frame per
/// pixel, in order.
pub open spec fn packed_pixels(pixels: Seq<Pixel>) -> Seq<u8>
    decreases pixels.len(),
{
    if pixels.len() == 0 {
        Seq::empty()
    } else {
        packed_pixels(pixels.drop_last()) + compressed_of(
            cobs_encoding(pixel_message(pixels.last())),
        )
    }
}

/// What compressed bytes decode to as a texture: decompress, unframe,
/// parse; `None` at whichever step fails.
pub open spec fn decoded_texture(v: Seq<u8>) -> Option<TextureModel> {
    match decompressed_of(v) {
        None => None,
        Some(m) => match cobs_decoding(m) {
            None => None,
            Some(body) => parse_texture(body),
        },
    }
}

/// Sequential reader over a texture's payload bytes.
pub struct TextureReader {
    pub texture: Texture,
    pub offset: usize,
}

impl TextureReader {
    /// Starts reading the texture's payload from its beginning.
    pub fn new(texture: Texture) -> (r: TextureReader)
        ensures
            r.texture == texture,
            r.offset == 0,
    {
        TextureReader { texture, offset: 0 }
    }
}

// ---------------------------------------------------------------------------
// The compression boundary.
// ---------------------------------------------------------------------------

/// Largest decompressed texture the engine accepts, in bytes.
pub const MAX_TEXTURE_BYTES: usize = 0x1000_0000;

/// The bytes block compression produces for the given input, at the default
/// level.  Fixed by the compressor's format and settings: the same input
/// gives the same bytes.
pub uninterp spec fn compressed_of(data: Seq<u8>) -> Seq<u8>;

/// What the given bytes decompress to under the engine's size limit:
/// `None` exactly when they are not a well-formed compressed block of at
/// most `MAX_TEXTURE_BYTES` of content.
pub uninterp spec fn decompressed_of(data: Seq<u8>) -> Option<Seq<u8>>;

/// Relies on zstd's block compression at the default level: deterministic
/// for a fixed library and settings, and lossless, so decompressing its
/// output (within the engine's size limit) yields the input again.
#[verifier::external_body]
fn compress(data: &Vec<u8>) -> (r: Result<Vec<u8>, std::io::Error>)
    ensures
        r matches Ok(c) ==> c@ == compressed_of(data@) && (data@.len() <= MAX_TEXTURE_BYTES
            ==> decompressed_of(c@) == Some(data@)),
{
    zstd::bulk::compress(data.as_slice(), zstd::DEFAULT_COMPRESSION_LEVEL)
}

/// Relies on zstd's block decompression, capped at the engine's size limit:
/// it returns the original bytes of a well-formed compressed block whose
/// content fits the limit, and fails on anything else.
#[verifier::external_body]
fn decompress(data: &Vec<u8>) -> (r: Result<Vec<u8>, std::io::Error>)
    ensures
        r matches Ok(d) ==> decompressed_of(data@) == Some(d@),
        r matches Err(e) ==> decompressed_of(data@) is None,
{
    zstd::bulk::decompress(data.as_slice(), MAX_TEXTURE_BYTES)
}

// ---------------------------------------------------------------------------
// Varints.
// ---------------------------------------------------------------------------

/// The little-endian base-128 encoding of `n`: seven bits per byte, lowest
/// first, high bit set on every byte but the last.
pub open spec fn varint(n: nat) -> Seq<u8>
    decreases n,
{
    if n < 128 {
        seq![n as u8]
    } else {
        seq![(n % 128 + 128) as u8] + varint(n / 128)
    }
}

/// Reads a varint of at most `max_bytes` bytes at `pos`: the value and the
/// position after it, or `None` if the bytes there are no such varint.
pub open spec fn parse_varint(m: Seq<u8>, pos: int, max_bytes: int) -> Option<(nat, int)>
    decreases max_bytes,
{
    if pos < 0 || pos >= m.len() || max_bytes <= 0 {
        None
    } else if m[pos] < 128 {
        Some((m[pos] as nat, pos + 1))
    } else {
        match parse_varint(m, pos + 1, max_bytes - 1) {
            Some((v, p)) => Some(((m[pos] - 128) as nat + 128 * v, p)),
            None => None,
        }
    }
}

/// A parsed varint of at most `max_bytes` bytes is below `128 ^ max_bytes`
/// (so five bytes stay below `2^35`), and ends within the message.
proof fn lemma_parse_varint_bounds(m: Seq<u8>, pos: int, max_bytes: int, bound: nat)
    requires
        parse_varint(m, pos, max_bytes) is Some,
        pow128(max_bytes) <= bound,
    ensures
        parse_varint(m, pos, max_bytes) matches Some((v, p)) ==> v < bound && pos < p <= m.len(),
    decreases max_bytes,
{
    if !(pos < 0 || pos >= m.len() || max_bytes <= 0) {
        if m[pos] < 128 {
            assert(pow128(0) == 1);
            assert(pow128(1) == 128);
            lemma_pow128_increases(1, max_bytes);
        } else if parse_varint(m, pos + 1, max_bytes - 1) is Some {
            lemma_parse_varint_bounds(m, pos + 1, max_bytes - 1, pow128(max_bytes - 1));
            let (v, _p) = parse_varint(m, pos + 1, max_bytes - 1).unwrap();
            assert((m[pos] - 128) as nat + 128 * v < 128 * pow128(max_bytes - 1)) by {
                assert(v <= pow128(max_bytes - 1) - 1);
                assert(128 * v <= 128 * (pow128(max_bytes - 1) - 1)) by (nonlinear_arith)
                    requires
                        v <= pow128(max_bytes - 1) - 1,
                ;
            }
            assert(128 * pow128(max_bytes - 1) == pow128(max_bytes));
        }
    }
}

/// `128 ^ k` for small non-negative `k`.
pub open spec fn pow128(k: int) -> nat
    decreases k,
{
    if k <= 0 {
        1
    } else {
        128 * pow128(k - 1)
    }
}

/// Appends the varint encoding of `n`.
pub fn push_varint(out: &mut Vec<u8>, n: u32)
    ensures
        final(out)@ == old(out)@ + varint(n as nat),
    decreases n,
{
    if n < 128 {
        out.push(n as u8);
        proof {
            assert(out@ =~= old(out)@ + varint(n as nat));
        }
    } else {
        out.push((n % 128 + 128) as u8);
        push_varint(out, n / 128);
        proof {
            assert((old(out)@ + seq![(n % 128 + 128) as u8]) + varint((n / 128) as nat) =~= old(
                out,
            )@ + varint(n as nat));
            assert(old(out)@.push((n % 128 + 128) as u8) =~= old(out)@ + seq![(n % 128 + 128)
                as u8]);
        }
    }
}

/// Reads a varint of at most five bytes at `pos` (enough for any 32-bit
/// value); the value still fits easily in 64 bits.
fn parse_varint5(m: &Vec<u8>, pos: usize, max_bytes: u32) -> (r: Option<(u64, usize)>)
    requires
        max_bytes <= 5,
    ensures
        match r {
            Some((v, p)) => parse_varint(m@, pos as int, max_bytes as int) == Some(
                (v as nat, p as int),
            ) && v < 0x8_0000_0000u64 && pos < p <= m@.len(),
            None => parse_varint(m@, pos as int, max_bytes as int) is None,
        },
    decreases max_bytes,
{
    if max_bytes == 0 || pos >= m.len() {
        return None;
    }
    let b = m[pos];
    if b < 128 {
        return Some((b as u64, pos + 1));
    }
    match parse_varint5(m, pos + 1, max_bytes - 1) {
        Some((v, p)) => {
            proof {
                lemma_parse_varint_bounds(
                    m@,
                    pos as int + 1,
                    max_bytes as int - 1,
                    pow128(max_bytes as int - 1),
                );
                assert(pow128(max_bytes as int - 1) <= pow128(4)) by {
                    lemma_pow128_increases(max_bytes as int - 1, 4);
                }
                assert(pow128(0) == 1);
                assert(pow128(1) == 128);
                assert(pow128(2) == 0x4000);
                assert(pow128(3) == 0x20_0000);
                assert(pow128(4) == 0x1000_0000);
                assert((v as nat) < 0x1000_0000);
                assert((b - 128) as u64 + 128 * v < 0x8_0000_0000u64) by (nonlinear_arith)
                    requires
                        v < 0x1000_0000u64,
                        128 <= b < 256,
                ;
            }
            Some(((b - 128) as u64 + 128 * v, p))
        },
        None => None,
    }
}

/// A value below `128 ^ k` fits in `k` varint bytes.
proof fn lemma_varint_len(n: nat, k: int)
    requires
        k >= 1,
        n < pow128(k),
    ensures
        1 <= varint(n).len() <= k,
    decreases k,
{
    if n >= 128 {
        assert(n / 128 < pow128(k - 1)) by {
            if n / 128 >= pow128(k - 1) {
                vstd::arithmetic::mul::lemma_mul_inequality(
                    pow128(k - 1) as int,
                    (n / 128) as int,
                    128,
                );
                vstd::arithmetic::div_mod::lemma_fundamental_div_mod(n as int, 128);
                assert(false);
            }
        }
        lemma_varint_len(n / 128, k - 1);
    }
}

/// Any 32-bit value fits in five varint bytes.
proof fn lemma_varint_len5(n: nat)
    requires
        n < 0x1_0000_0000,
    ensures
        1 <= varint(n).len() <= 5,
{
    assert(pow128(0) == 1);
    assert(pow128(1) == 128);
    assert(pow128(2) == 0x4000);
    assert(pow128(3) == 0x20_0000);
    assert(pow128(4) == 0x1000_0000);
    assert(pow128(5) == 0x8_0000_0000);
    lemma_varint_len(n, 5);
}

/// Parsing reads back exactly what the varint encoder wrote, leaving the
/// position right after it.
proof fn lemma_parse_varint_of_encoding(m: Seq<u8>, pos: int, n: nat, max_bytes: int)
    requires
        0 <= pos,
        varint(n).len() <= max_bytes,
        pos + varint(n).len() <= m.len(),
        m.subrange(pos, pos + varint(n).len()) == varint(n),
    ensures
        parse_varint(m, pos, max_bytes) == Some((n, pos + varint(n).len())),
    decreases n,
{
    let e = varint(n);
    assert(m[pos] == e[0]);
    if n < 128 {
        assert(e[0] == n as u8);
    } else {
        assert(e[0] == (n % 128 + 128) as u8);
        assert(m[pos] >= 128);
        let rest = varint(n / 128);
        assert(e == seq![(n % 128 + 128) as u8] + rest);
        assert(m.subrange(pos + 1, pos + 1 + rest.len()) =~= rest) by {
            assert forall|j: int| 0 <= j < rest.len() implies m.subrange(
                pos + 1,
                pos + 1 + rest.len(),
            )[j] == rest[j] by {
                assert(m[(pos + 1) + j] == m.subrange(pos, pos + e.len())[1 + j]);
                assert(e[1 + j] == rest[j]);
            }
        }
        lemma_parse_varint_of_encoding(m, pos + 1, n / 128, max_bytes - 1);
        assert((m[pos] - 128) as nat + 128 * (n / 128) == n);
    }
}

proof fn lemma_pow128_increases(a: int, b: int)
    requires
        a <= b,
    ensures
        pow128(a) <= pow128(b),
    decreases b,
{
    if a < b && b > 0 {
        lemma_pow128_increases(a, b - 1);
        assert(pow128(b) == 128 * pow128(b - 1));
        assert(pow128(b - 1) <= 128 * pow128(b - 1)) by (nonlinear_arith)
            requires
                pow128(b - 1) >= 0,
        ;
    }
}

// ---------------------------------------------------------------------------
// Pixel and texture messages.
// ---------------------------------------------------------------------------

/// The stored bytes of one pixel: its variant tag, then its channels.
pub open spec fn pixel_message(p: Pixel) -> Seq<u8> {
    match p {
        Pixel::Rgb(x) => seq![0u8, x.r, x.g, x.b],
        Pixel::Rgba(x) => seq![1u8, x.r, x.g, x.b, x.a],
    }
}

/// Reads one pixel at `pos`: the pixel and the position after it.
pub open spec fn parse_pixel(m: Seq<u8>, pos: int) -> Option<(Pixel, int)> {
    if pos < 0 || pos >= m.len() {
        None
    } else if m[pos] == 0 && pos + 4 <= m.len() {
        Some((Pixel::Rgb(RgbPixel { r: m[pos + 1], g: m[pos + 2], b: m[pos + 3] }), pos + 4))
    } else if m[pos] == 1 && pos + 5 <= m.len() {
        Some(
            (
                Pixel::Rgba(
                    RgbaPixel { r: m[pos + 1], g: m[pos + 2], b: m[pos + 3], a: m[pos + 4] },
                ),
                pos + 5,
            ),
        )
    } else {
        None
    }
}

/// The stored bytes of a whole texture: version, format pixel, width,
/// height, then the payload behind its length.
pub open spec fn texture_message(t: TextureModel) -> Seq<u8> {
    varint(t.version as nat) + pixel_message(t.format) + varint(t.width as nat) + varint(
        t.height as nat,
    ) + varint(t.data.len()) + t.data
}

/// Reads a whole texture message: every field in order, the payload length
/// exactly accounting for the rest of the message.
pub open spec fn parse_texture(m: Seq<u8>) -> Option<TextureModel> {
    match parse_varint(m, 0, 5) {
        None => None,
        Some((version, p1)) => if version >= 0x1_0000_0000 {
            None
        } else {
            match parse_pixel(m, p1) {
                None => None,
                Some((format, p2)) => match parse_varint(m, p2, 5) {
                    None => None,
                    Some((width, p3)) => if width >= 0x1_0000_0000 {
                        None
                    } else {
                        match parse_varint(m, p3, 5) {
                            None => None,
                            Some((height, p4)) => if height >= 0x1_0000_0000 {
                                None
                            } else {
                                match parse_varint(m, p4, 5) {
                                    None => None,
                                    Some((n, p5)) => if p5 + n == m.len() {
                                        Some(
                                            TextureModel {
                                                version: version as u32,
                                                format,
                                                width: width as u32,
                                                height: height as u32,
                                                data: m.skip(p5),
                                            },
                                        )
                                    } else {
                                        None
                                    },
                                }
                            },
                        }
                    },
                },
            }
        },
    }
}

/// Round trip of the message layer: a texture's message bytes parse back to
/// exactly that texture.  (The payload length must fit the 32-bit length
/// field, which anything the engine accepts does.)
pub proof fn lemma_texture_message_round_trip(t: TextureModel)
    requires
        t.data.len() < 0x1_0000_0000,
    ensures
        parse_texture(texture_message(t)) == Some(t),
{
    let m = texture_message(t);
    let va = varint(t.version as nat);
    let p = pixel_message(t.format);
    let vw = varint(t.width as nat);
    let vh = varint(t.height as nat);
    let vn = varint(t.data.len());
    lemma_varint_len5(t.version as nat);
    lemma_varint_len5(t.width as nat);
    lemma_varint_len5(t.height as nat);
    lemma_varint_len5(t.data.len());
    let p1 = va.len() as int;
    let p2 = p1 + p.len();
    let p3 = p2 + vw.len();
    let p4 = p3 + vh.len();
    let p5 = p4 + vn.len();
    assert(m.len() == p5 + t.data.len());
    assert(m.subrange(0, p1) =~= va);
    lemma_parse_varint_of_encoding(m, 0, t.version as nat, 5);
    assert forall|j: int| 0 <= j < p.len() implies #[trigger] m[p1 + j] == p[j] by {}
    assert(parse_pixel(m, p1) == Some((t.format, p2))) by {
        match t.format {
            Pixel::Rgb(x) => {
                assert(m[p1] == 0u8);
                assert(m[p1 + 1] == x.r && m[p1 + 2] == x.g && m[p1 + 3] == x.b);
            },
            Pixel::Rgba(x) => {
                assert(m[p1] == 1u8);
                assert(m[p1 + 1] == x.r && m[p1 + 2] == x.g && m[p1 + 3] == x.b && m[p1 + 4]
                    == x.a);
            },
        }
    }
    assert(m.subrange(p2, p2 + vw.len()) =~= vw);
    lemma_parse_varint_of_encoding(m, p2, t.width as nat, 5);
    assert(m.subrange(p3, p3 + vh.len()) =~= vh);
    lemma_parse_varint_of_encoding(m, p3, t.height as nat, 5);
    assert(m.subrange(p4, p4 + vn.len()) =~= vn);
    lemma_parse_varint_of_encoding(m, p4, t.data.len(), 5);
    assert(m.skip(p5) =~= t.data);
}

// ---------------------------------------------------------------------------
// Zero-free framing.
// ---------------------------------------------------------------------------

/// How many leading bytes of `data` are non-zero.
pub open spec fn leading_nonzero(data: Seq<u8>) -> int
    decreases data.len(),
{
    if data.len() == 0 || data[0] == 0 {
        0
    } else {
        1 + leading_nonzero(data.drop_first())
    }
}

/// The leading non-zero run is part of the data.
proof fn lemma_leading_nonzero_le(data: Seq<u8>)
    ensures
        0 <= leading_nonzero(data) <= data.len(),
    decreases data.len(),
{
    if !(data.len() == 0 || data[0] == 0) {
        lemma_leading_nonzero_le(data.drop_first());
    }
}

/// The framed body of `data`, without the closing sentinel: blocks of up to
/// 254 non-zero bytes, each led by a header byte counting to the next
/// header.  A short block swallows one following zero of the data; a full
/// block (header 255) swallows nothing.
pub open spec fn cobs_body(data: Seq<u8>) -> Seq<u8>
    decreases data.len()
        via cobs_body_decreases
{
    if data.len() == 0 {
        seq![1u8]
    } else {
        let k = leading_nonzero(data);
        if k >= 254 {
            seq![255u8] + data.take(254) + cobs_body(data.skip(254))
        } else if k == data.len() {
            seq![(k + 1) as u8] + data
        } else {
            seq![(k + 1) as u8] + data.take(k) + cobs_body(data.skip(k + 1))
        }
    }
}

#[via_fn]
proof fn cobs_body_decreases(data: Seq<u8>) {
    lemma_leading_nonzero_le(data);
}

/// The full frame: the body closed by the zero sentinel.
pub open spec fn cobs_encoding(data: Seq<u8>) -> Seq<u8> {
    cobs_body(data) + seq![0u8]
}

/// Reads the frame from `pos` on: the data it stands for, or `None` if the
/// bytes are no well-formed frame.  A frame ends at the sentinel (which
/// must close the input) or at the end of the input.
pub open spec fn cobs_blocks(frame: Seq<u8>, pos: int) -> Option<Seq<u8>>
    decreases frame.len() - pos,
{
    if pos < 0 || pos >= frame.len() {
        None
    } else if frame[pos] == 0 {
        if pos == frame.len() - 1 {
            Some(Seq::empty())
        } else {
            None
        }
    } else {
        let h = frame[pos] as int;
        if pos + h > frame.len() {
            None
        } else {
            let block = frame.subrange(pos + 1, pos + h);
            if exists|i: int| 0 <= i < block.len() && block[i] == 0 {
                None
            } else if pos + h == frame.len() {
                Some(block)
            } else if frame[pos + h] == 0 {
                if pos + h == frame.len() - 1 {
                    Some(block)
                } else {
                    None
                }
            } else {
                match cobs_blocks(frame, pos + h) {
                    None => None,
                    Some(rest) => Some(
                        block + (if h < 255 {
                            seq![0u8]
                        } else {
                            Seq::empty()
                        }) + rest,
                    ),
                }
            }
        }
    }
}

/// What a whole frame stands for.
pub open spec fn cobs_decoding(frame: Seq<u8>) -> Option<Seq<u8>> {
    cobs_blocks(frame, 0)
}

/// The leading non-zero run is exactly that: its bytes are non-zero, and
/// where the data goes on, a zero follows.
proof fn lemma_leading_nonzero_bytes(d: Seq<u8>)
    ensures
        0 <= leading_nonzero(d) <= d.len(),
        forall|j: int| 0 <= j < leading_nonzero(d) ==> #[trigger] d[j] != 0,
        leading_nonzero(d) < d.len() ==> d[leading_nonzero(d)] == 0,
    decreases d.len(),
{
    let k = leading_nonzero(d);
    if !(d.len() == 0 || d[0] == 0) {
        let d1 = d.drop_first();
        lemma_leading_nonzero_bytes(d1);
        assert(k == 1 + leading_nonzero(d1));
        assert forall|j: int| 0 <= j < k implies #[trigger] d[j] != 0 by {
            if j > 0 {
                assert(d1[j - 1] != 0);
                assert(d[j] == d1[j - 1]);
            }
        }
        if k < d.len() {
            assert(d1[k - 1] == 0);
            assert(d[k] == d1[k - 1]);
        }
    }
}

/// A framed body is never empty and never starts with a zero byte.
proof fn lemma_cobs_body_head(d: Seq<u8>)
    ensures
        cobs_body(d).len() >= 1,
        cobs_body(d)[0] != 0,
{
    lemma_leading_nonzero_le(d);
}

/// Reading a framed body closed by the sentinel gives back exactly the data
/// it was built from.
proof fn lemma_cobs_blocks_of_body(frame: Seq<u8>, pos: int, d: Seq<u8>)
    requires
        0 <= pos <= frame.len(),
        frame.skip(pos) == cobs_body(d) + seq![0u8],
    ensures
        cobs_blocks(frame, pos) == Some(d),
    decreases d.len(),
{
    let body = cobs_body(d);
    let s = frame.skip(pos);
    assert(s.len() == body.len() + 1);
    assert(s.len() == frame.len() - pos) by {
        assert(s == frame.subrange(pos, frame.len() as int));
    }
    assert(frame.len() == pos + body.len() + 1);
    lemma_leading_nonzero_bytes(d);
    lemma_cobs_body_head(d);
    let k = leading_nonzero(d);
    assert(frame[pos] == body[0]) by {
        assert(s[0] == frame[pos]);
    }
    if d.len() == 0 {
        assert(body == seq![1u8]);
        assert(frame[pos] == 1u8);
        assert(frame[pos + 1] == 0u8) by {
            assert(s[1] == frame[pos + 1]);
        }
        assert(frame.subrange(pos + 1, pos + 1) =~= Seq::<u8>::empty());
        assert(cobs_blocks(frame, pos) == Some(Seq::<u8>::empty()));
    } else if k >= 254 {
        assert(body == seq![255u8] + d.take(254) + cobs_body(d.skip(254)));
        assert(frame[pos] == 255u8);
        let block = frame.subrange(pos + 1, pos + 255);
        assert(block =~= d.take(254)) by {
            assert forall|j: int| 0 <= j < 254 implies block[j] == d.take(254)[j] by {
                assert(block[j] == frame[pos + 1 + j]);
                assert(s[1 + j] == frame[pos + 1 + j]);
                assert(body[1 + j] == d.take(254)[j]);
            }
        }
        assert forall|i: int| 0 <= i < block.len() implies block[i] != 0 by {
            assert(block[i] == d.take(254)[i]);
            assert(d[i] != 0);
        }
        lemma_cobs_body_head(d.skip(254));
        assert(pos + 255 < frame.len());
        assert(frame[pos + 255] == cobs_body(d.skip(254))[0]) by {
            assert(s[255] == frame[pos + 255]);
            assert(body[255] == cobs_body(d.skip(254))[0]);
        }
        let tail = cobs_body(d.skip(254)) + seq![0u8];
        assert(frame.skip(pos + 255) =~= tail) by {
            assert forall|j: int| 0 <= j < tail.len() implies frame.skip(pos + 255)[j]
                == tail[j] by {
                assert(frame.skip(pos + 255)[j] == frame[pos + 255 + j]);
                assert(s[255 + j] == frame[pos + 255 + j]);
                if j < cobs_body(d.skip(254)).len() {
                    assert(body[255 + j] == cobs_body(d.skip(254))[j]);
                    assert(s[255 + j] == body[255 + j]);
                } else {
                    assert(255 + j == body.len());
                    assert(s[255 + j] == 0u8);
                }
            }
        }
        lemma_cobs_blocks_of_body(frame, pos + 255, d.skip(254));
        assert(block + Seq::<u8>::empty() + d.skip(254) =~= d);
        assert(cobs_blocks(frame, pos) == Some(d));
    } else if k == d.len() {
        assert(body == seq![(k + 1) as u8] + d);
        assert(frame[pos] == (k + 1) as u8);
        let h = frame[pos] as int;
        assert(h == k + 1);
        let block = frame.subrange(pos + 1, pos + h);
        assert(block =~= d) by {
            assert forall|j: int| 0 <= j < d.len() implies block[j] == d[j] by {
                assert(block[j] == frame[pos + 1 + j]);
                assert(s[1 + j] == frame[pos + 1 + j]);
                assert(body[1 + j] == d[j]);
            }
        }
        assert forall|i: int| 0 <= i < block.len() implies block[i] != 0 by {
            assert(block[i] == d[i]);
        }
        assert(frame[pos + h] == 0u8) by {
            assert(s[1 + d.len() as int] == frame[pos + h]);
        }
        assert(pos + h == frame.len() - 1);
        assert(cobs_blocks(frame, pos) == Some(d));
    } else {
        assert(body == seq![(k + 1) as u8] + d.take(k) + cobs_body(d.skip(k + 1)));
        assert(frame[pos] == (k + 1) as u8);
        let h = frame[pos] as int;
        assert(h == k + 1);
        let block = frame.subrange(pos + 1, pos + h);
        assert(block =~= d.take(k)) by {
            assert forall|j: int| 0 <= j < k implies block[j] == d.take(k)[j] by {
                assert(block[j] == frame[pos + 1 + j]);
                assert(s[1 + j] == frame[pos + 1 + j]);
                assert(body[1 + j] == d.take(k)[j]);
            }
        }
        assert forall|i: int| 0 <= i < block.len() implies block[i] != 0 by {
            assert(block[i] == d.take(k)[i]);
            assert(d[i] != 0);
        }
        lemma_cobs_body_head(d.skip(k + 1));
        assert(pos + h < frame.len());
        assert(frame[pos + h] == cobs_body(d.skip(k + 1))[0]) by {
            assert(s[1 + k] == frame[pos + h]);
            assert(body[1 + k] == cobs_body(d.skip(k + 1))[0]);
        }
        let tail = cobs_body(d.skip(k + 1)) + seq![0u8];
        assert(frame.skip(pos + h) =~= tail) by {
            assert forall|j: int| 0 <= j < tail.len() implies frame.skip(pos + h)[j] == tail[j] by {
                assert(frame.skip(pos + h)[j] == frame[pos + h + j]);
                assert(s[h + j] == frame[pos + h + j]);
                if j < cobs_body(d.skip(k + 1)).len() {
                    assert(body[1 + k + j] == cobs_body(d.skip(k + 1))[j]);
                    assert(s[h + j] == body[h + j]);
                } else {
                    assert(h + j == body.len());
                    assert(s[h + j] == 0u8);
                }
            }
        }
        lemma_cobs_blocks_of_body(frame, pos + h, d.skip(k + 1));
        assert(d[k] == 0);
        assert(block + seq![0u8] + d.skip(k + 1) =~= d);
        assert(cobs_blocks(frame, pos) == Some(d));
    }
}

/// Round trip of the framing layer: reading a frame back gives exactly the
/// bytes it was built from.
pub proof fn lemma_cobs_round_trip(d: Seq<u8>)
    ensures
        cobs_decoding(cobs_encoding(d)) == Some(d),
{
    let frame = cobs_encoding(d);
    assert(frame.skip(0) =~= cobs_body(d) + seq![0u8]);
    lemma_cobs_blocks_of_body(frame, 0, d);
}

/// Appends the framed body of `data` from `pos` on.
fn push_cobs_body(out: &mut Vec<u8>, data: &Vec<u8>, pos: usize)
    requires
        pos <= data@.len(),
    ensures
        final(out)@ == old(out)@ + cobs_body(data@.skip(pos as int)),
    decreases data@.len() - pos,
{
    let ghost suffix = data@.skip(pos as int);
    // Length of the leading non-zero run, capped at 254.
    let mut k: usize = 0;
    let total = data.len();
    while k < 254 && k < total - pos && data[pos + k] != 0
        invariant
            total == data@.len(),
            pos <= data@.len(),
            pos + k <= data@.len(),
            k <= 254,
            forall|j: int| 0 <= j < k ==> #[trigger] data@[pos + j] != 0,
        decreases data@.len() - pos - k,
    {
        k = k + 1;
    }
    proof {
        if k == 254 {
            lemma_run_ge(data@, pos as int, k as int);
        } else {
            lemma_run_eq(data@, pos as int, k as int);
        }
    }
    if pos == data.len() {
        out.push(1u8);
        proof {
            assert(out@ =~= old(out)@ + cobs_body(suffix));
        }
        return ;
    }
    if k == 254 {
        out.push(255u8);
        let mut i: usize = 0;
        while i < 254
            invariant
                k == 254,
                total == data@.len(),
                pos + k <= data@.len(),
                i <= 254,
                out@ == old(out)@ + seq![255u8] + data@.skip(pos as int).take(i as int),
            decreases 254 - i,
        {
            let b = data[pos + i];
            out.push(b);
            proof {
                assert(data@.skip(pos as int).take(i as int).push(b) =~= data@.skip(
                    pos as int,
                ).take(i + 1));
                assert(out@ =~= old(out)@ + seq![255u8] + data@.skip(pos as int).take(i + 1));
            }
            i = i + 1;
        }
        push_cobs_body(out, data, pos + 254);
        proof {
            assert(data@.skip(pos as int).skip(254) =~= data@.skip(pos as int + 254));
            assert(out@ =~= old(out)@ + cobs_body(suffix));
        }
        return ;
    }
    // A short block: k < 254 non-zero bytes, then either the end of the
    // data or a zero that the block swallows.
    out.push((k + 1) as u8);
    let mut i: usize = 0;
    while i < k
        invariant
            i <= k,
            k < 254,
            total == data@.len(),
            pos + k <= data@.len(),
            forall|j: int| 0 <= j < k ==> #[trigger] data@[pos + j] != 0,
            out@ == old(out)@ + seq![(k + 1) as u8] + data@.skip(pos as int).take(i as int),
        decreases k - i,
    {
        let b = data[pos + i];
        out.push(b);
        proof {
            assert(data@.skip(pos as int).take(i as int).push(b) =~= data@.skip(pos as int).take(
                i + 1,
            ));
            assert(out@ =~= old(out)@ + seq![(k + 1) as u8] + data@.skip(pos as int).take(i + 1));
        }
        i = i + 1;
    }
    if pos + k == data.len() {
        proof {
            assert(suffix.take(k as int) =~= suffix);
            assert(out@ =~= old(out)@ + cobs_body(suffix));
        }
        return ;
    }
    // data[pos + k] is the zero this block swallows.
    push_cobs_body(out, data, pos + k + 1);
    proof {
        assert(data@.skip(pos as int).skip(k as int + 1) =~= data@.skip(pos as int + k + 1));
        assert(out@ =~= old(out)@ + cobs_body(suffix));
    }
}

/// A run of non-zero bytes bounds the leading non-zero run from below.
proof fn lemma_run_ge(data: Seq<u8>, pos: int, k: int)
    requires
        0 <= pos,
        pos + k <= data.len(),
        0 <= k,
        forall|j: int| 0 <= j < k ==> #[trigger] data[pos + j] != 0,
    ensures
        leading_nonzero(data.skip(pos)) >= k,
    decreases k,
{
    let s = data.skip(pos);
    if k == 0 {
        lemma_leading_nonzero_le(s);
    } else {
        assert(data[pos + 0] != 0);
        assert(s[0] == data[pos]);
        assert(s.drop_first() =~= data.skip(pos + 1));
        assert forall|j: int| 0 <= j < k - 1 implies #[trigger] data[(pos + 1) + j] != 0 by {
            assert(data[pos + (j + 1)] != 0);
        }
        lemma_run_ge(data, pos + 1, k - 1);
        assert(leading_nonzero(s) == 1 + leading_nonzero(s.drop_first()));
    }
}

/// A run of non-zero bytes closed by the end of the data or a zero is the
/// leading non-zero run exactly.
proof fn lemma_run_eq(data: Seq<u8>, pos: int, k: int)
    requires
        0 <= pos,
        pos + k <= data.len(),
        0 <= k,
        forall|j: int| 0 <= j < k ==> #[trigger] data[pos + j] != 0,
        pos + k == data.len() || data[pos + k] == 0,
    ensures
        leading_nonzero(data.skip(pos)) == k,
    decreases k,
{
    let s = data.skip(pos);
    if k == 0 {
        if s.len() > 0 {
            assert(s[0] == data[pos]);
        }
    } else {
        assert(data[pos + 0] != 0);
        assert(s[0] == data[pos]);
        assert(s.drop_first() =~= data.skip(pos + 1));
        assert forall|j: int| 0 <= j < k - 1 implies #[trigger] data[(pos + 1) + j] != 0 by {
            assert(data[pos + (j + 1)] != 0);
        }
        lemma_run_eq(data, pos + 1, k - 1);
        assert(leading_nonzero(s) == 1 + leading_nonzero(s.drop_first()));
    }
}

/// The message bytes of one pixel.
fn pixel_bytes(p: &Pixel) -> (r: Vec<u8>)
    ensures
        r@ == pixel_message(*p),
{
    let mut out: Vec<u8> = Vec::new();
    match p {
        Pixel::Rgb(x) => {
            out.push(0u8);
            out.push(x.r);
            out.push(x.g);
            out.push(x.b);
            proof {
                assert(out@ =~= pixel_message(*p));
            }
        },
        Pixel::Rgba(x) => {
            out.push(1u8);
            out.push(x.r);
            out.push(x.g);
            out.push(x.b);
            out.push(x.a);
            proof {
                assert(out@ =~= pixel_message(*p));
            }
        },
    }
    out
}

/// Reads one pixel at `pos`.
fn parse_pixel_at(m: &Vec<u8>, pos: usize) -> (r: Option<(Pixel, usize)>)
    ensures
        match r {
            Some((p, q)) => parse_pixel(m@, pos as int) == Some((p, q as int)) && pos < q
                <= m@.len(),
            None => parse_pixel(m@, pos as int) is None,
        },
{
    if pos >= m.len() {
        return None;
    }
    let tag = m[pos];
    if tag == 0 {
        if m.len() - pos >= 4 {
            return Some(
                (Pixel::Rgb(RgbPixel { r: m[pos + 1], g: m[pos + 2], b: m[pos + 3] }), pos + 4),
            );
        }
        return None;
    }
    if tag == 1 {
        if m.len() - pos >= 5 {
            return Some(
                (
                    Pixel::Rgba(
                        RgbaPixel { r: m[pos + 1], g: m[pos + 2], b: m[pos + 3], a: m[pos + 4] },
                    ),
                    pos + 5,
                ),
            );
        }
        return None;
    }
    None
}

/// Reads a whole texture message.
fn parse_texture_bytes(m: &Vec<u8>) -> (r: Option<Texture>)
    ensures
        match r {
            Some(t) => parse_texture(m@) == Some(t@),
            None => parse_texture(m@) is None,
        },
{
    let (version64, p1) = match parse_varint5(m, 0, 5) {
        Some(x) => x,
        None => {
            return None;
        },
    };
    if version64 > 0xffff_ffffu64 {
        return None;
    }
    let (format, p2) = match parse_pixel_at(m, p1) {
        Some(x) => x,
        None => {
            return None;
        },
    };
    let (width64, p3) = match parse_varint5(m, p2, 5) {
        Some(x) => x,
        None => {
            return None;
        },
    };
    if width64 > 0xffff_ffffu64 {
        return None;
    }
    let (height64, p4) = match parse_varint5(m, p3, 5) {
        Some(x) => x,
        None => {
            return None;
        },
    };
    if height64 > 0xffff_ffffu64 {
        return None;
    }
    let (len64, p5) = match parse_varint5(m, p4, 5) {
        Some(x) => x,
        None => {
            return None;
        },
    };
    if len64 != (m.len() - p5) as u64 {
        return None;
    }
    let mut data: Vec<u8> = Vec::new();
    let total = m.len();
    let mut i = p5;
    while i < total
        invariant
            p5 <= i <= total,
            total == m@.len(),
            data@ == m@.subrange(p5 as int, i as int),
        decreases total - i,
    {
        let b = m[i];
        data.push(b);
        proof {
            assert(m@.subrange(p5 as int, i as int).push(b) =~= m@.subrange(
                p5 as int,
                i as int + 1,
            ));
        }
        i = i + 1;
    }
    proof {
        assert(data@ =~= m@.skip(p5 as int));
    }
    Some(
        Texture {
            version: version64 as u32,
            format,
            width: width64 as u32,
            height: height64 as u32,
            data,
        },
    )
}

/// Frames `data` as one zero-free message closed by the sentinel.
pub fn cobs_encode(data: &Vec<u8>) -> (frame: Vec<u8>)
    ensures
        frame@ == cobs_encoding(data@),
{
    let mut out: Vec<u8> = Vec::new();
    push_cobs_body(&mut out, data, 0);
    out.push(0u8);
    proof {
        assert(data@.skip(0) =~= data@);
        assert(out@ =~= cobs_encoding(data@));
    }
    out
}

/// Reads one frame back into bytes: `None` exactly when the frame is not
/// well formed.
pub fn cobs_decode(frame: &Vec<u8>) -> (r: Option<Vec<u8>>)
    ensures
        match r {
            Some(data) => cobs_decoding(frame@) == Some(data@),
            None => cobs_decoding(frame@) is None,
        },
{
    let mut out: Vec<u8> = Vec::new();
    if cobs_decode_from(frame, 0, &mut out) {
        Some(out)
    } else {
        None
    }
}

/// Appends the data a frame suffix stands for; false exactly when it is
/// malformed.
fn cobs_decode_from(frame: &Vec<u8>, pos: usize, out: &mut Vec<u8>) -> (ok: bool)
    ensures
        ok ==> (cobs_blocks(frame@, pos as int) matches Some(rest) && final(out)@ == old(out)@
            + rest),
        !ok ==> cobs_blocks(frame@, pos as int) is None,
    decreases frame@.len() - pos,
{
    if pos >= frame.len() {
        return false;
    }
    let h8 = frame[pos];
    if h8 == 0 {
        if pos == frame.len() - 1 {
            proof {
                assert(out@ =~= old(out)@ + Seq::<u8>::empty());
            }
            return true;
        }
        return false;
    }
    let h = h8 as usize;
    if h > frame.len() - pos {
        return false;
    }
    let ghost block = frame@.subrange(pos as int + 1, pos as int + h);
    let total = frame.len();
    // Copy the block, rejecting any zero inside it.
    let mut i: usize = 1;
    while i < h
        invariant
            1 <= i <= h,
            total == frame@.len(),
            pos + h <= frame@.len(),
            h == h8 as int,
            h8 == frame@[pos as int],
            h8 != 0,
            block == frame@.subrange(pos as int + 1, pos as int + h),
            out@ == old(out)@ + frame@.subrange(pos as int + 1, pos as int + i),
            forall|j: int| pos + 1 <= j < pos + i ==> #[trigger] frame@[j] != 0,
        decreases h - i,
    {
        let b = frame[pos + i];
        if b == 0 {
            proof {
                assert(block[i as int - 1] == frame@[pos as int + i]);
                assert(0 <= i as int - 1 < block.len() && block[i as int - 1] == 0);
                assert(exists|q: int| 0 <= q < block.len() && block[q] == 0);
                assert(cobs_blocks(frame@, pos as int) is None);
            }
            return false;
        }
        out.push(b);
        proof {
            assert(frame@.subrange(pos as int + 1, pos as int + i).push(b) =~= frame@.subrange(
                pos as int + 1,
                pos as int + i + 1,
            ));
        }
        i = i + 1;
    }
    proof {
        assert forall|j: int| 0 <= j < block.len() implies block[j] != 0 by {
            assert(block[j] == frame@[pos as int + 1 + j]);
        }
    }
    if pos + h == frame.len() {
        return true;
    }
    if frame[pos + h] == 0 {
        if pos + h == frame.len() - 1 {
            return true;
        }
        return false;
    }
    if h < 255 {
        out.push(0u8);
    }
    let ghost mid = out@;
    let ok = cobs_decode_from(frame, pos + h, out);
    if !ok {
        return false;
    }
    proof {
        let rest = cobs_blocks(frame@, pos as int + h).unwrap();
        if h < 255 {
            assert(out@ =~= old(out)@ + (block + seq![0u8] + rest));
        } else {
            assert(out@ =~= old(out)@ + (block + Seq::<u8>::empty() + rest));
        }
    }
    true
}

} // verus!
