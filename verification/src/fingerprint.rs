use vstd::prelude::*;

verus! {

/// Number of bytes in a fingerprint: 8 x 8 bits.
pub const FINGERPRINT_BYTES: usize = 8;

/// The fingerprint that the hasher gives to a picture of `width` x `height`
/// pixels, four bytes each, row by row. It depends on nothing else.
pub uninterp spec fn perceptual_hash(width: u32, height: u32, pixels: Seq<u8>) -> Seq<u8>;

/// Number of one bits in `x`.
pub open spec fn bit_count(x: u8) -> nat {
    ((x & 1) + ((x >> 1) & 1) + ((x >> 2) & 1) + ((x >> 3) & 1) + ((x >> 4) & 1) + ((x >> 5) & 1)
        + ((x >> 6) & 1) + ((x >> 7) & 1)) as nat
}

/// Number of bit positions in which two byte strings of one length differ.
pub open spec fn hamming(a: Seq<u8>, b: Seq<u8>) -> nat
    recommends
        a.len() == b.len(),
    decreases a.len(),
{
    if a.len() == 0 || b.len() == 0 {
        0
    } else {
        hamming(a.drop_last(), b.drop_last()) + bit_count(a.last() ^ b.last())
    }
}

/// Whether `pixels` is the data of a picture of `width` x `height` pixels
/// with at least one pixel.
pub open spec fn is_raster(width: u32, height: u32, pixels: Seq<u8>) -> bool {
    width > 0 && height > 0 && pixels.len() == 4 * width * height
}

/// A picture: red, green, blue and alpha of each pixel, one byte each, row
/// by row.
#[derive(Debug)]
pub struct Raster {
    width: u32,
    height: u32,
    pixels: Vec<u8>,
}

impl Raster {
    #[verifier::type_invariant]
    spec fn well_formed(&self) -> bool {
        is_raster(self.width, self.height, self.pixels@)
    }

    pub closed spec fn spec_width(&self) -> u32 {
        self.width
    }

    pub closed spec fn spec_height(&self) -> u32 {
        self.height
    }

    pub closed spec fn spec_pixels(&self) -> Seq<u8> {
        self.pixels@
    }

    /// The fingerprint of this picture.
    pub open spec fn digest(&self) -> Seq<u8> {
        perceptual_hash(self.spec_width(), self.spec_height(), self.spec_pixels())
    }

    /// A picture from its data, where the data has the length that the
    /// dimensions ask for and the picture is not empty.
    pub fn new(width: u32, height: u32, pixels: Vec<u8>) -> (picture: Option<Raster>)
        ensures
            picture is Some <==> is_raster(width, height, pixels@),
            picture matches Some(p) ==> p.spec_width() == width && p.spec_height() == height
                && p.spec_pixels() == pixels@,
    {
        if width == 0 || height == 0 {
            return None;
        }
        assert(width * height <= 0xffff_fffe_0000_0001) by (nonlinear_arith)
            requires
                width <= 0xffff_ffff,
                height <= 0xffff_ffff,
        ;
        let area: u64 = (width as u64) * (height as u64);
        let len: usize = pixels.len();
        assert(4 * width * height == 4 * (width * height)) by (nonlinear_arith);
        if len % 4 == 0 && (len / 4) as u64 == area {
            Some(Raster { width, height, pixels })
        } else {
            None
        }
    }

    pub fn width(&self) -> (width: u32)
        ensures
            width == self.spec_width(),
    {
        self.width
    }

    pub fn height(&self) -> (height: u32)
        ensures
            height == self.spec_height(),
    {
        self.height
    }

    pub fn pixels(&self) -> (pixels: &Vec<u8>)
        ensures
            pixels@ == self.spec_pixels(),
            is_raster(self.spec_width(), self.spec_height(), pixels@),
    {
        proof {
            use_type_invariant(self);
        }
        &self.pixels
    }
}

impl Clone for Raster {
    fn clone(&self) -> (copy: Raster)
        ensures
            copy.spec_width() == self.spec_width(),
            copy.spec_height() == self.spec_height(),
            copy.spec_pixels() == self.spec_pixels(),
    {
        proof {
            use_type_invariant(self);
        }
        let pixels = self.pixels.clone();
        assert(pixels@ =~= self.pixels@);
        Raster { width: self.width, height: self.height, pixels }
    }
}

/// The perceptual digest of a picture.
#[derive(Debug, PartialEq, Eq)]
pub struct Fingerprint {
    bytes: Vec<u8>,
}

impl View for Fingerprint {
    type V = Seq<u8>;

    closed spec fn view(&self) -> Seq<u8> {
        self.bytes@
    }
}

impl Fingerprint {
    #[verifier::type_invariant]
    spec fn well_formed(&self) -> bool {
        self.bytes@.len() == FINGERPRINT_BYTES
    }

    /// A fingerprint from its bytes, where there are as many as a
    /// fingerprint has.
    pub fn from_bytes(bytes: Vec<u8>) -> (print: Option<Fingerprint>)
        ensures
            print is Some <==> bytes@.len() == FINGERPRINT_BYTES,
            print matches Some(p) ==> p@ == bytes@,
    {
        if bytes.len() == FINGERPRINT_BYTES {
            Some(Fingerprint { bytes })
        } else {
            None
        }
    }

    pub fn as_bytes(&self) -> (bytes: &Vec<u8>)
        ensures
            bytes@ == self@,
            bytes@.len() == FINGERPRINT_BYTES,
    {
        proof {
            use_type_invariant(self);
        }
        &self.bytes
    }
}

impl Clone for Fingerprint {
    fn clone(&self) -> (copy: Fingerprint)
        ensures
            copy@ == self@,
    {
        proof {
            use_type_invariant(self);
        }
        let bytes = self.bytes.clone();
        assert(bytes@ =~= self.bytes@);
        Fingerprint { bytes }
    }
}

/// Hashes a picture. Stands for `Hasher::hash_image` of img_hash with the
/// configuration of `HasherConfig::new`, on the picture that
/// `ImageBuffer::from_raw` of image makes of the data. It claims that the
/// hash is a function of the dimensions and the data, and that it has 64
/// bits: this configuration compares, in each of 8 rows of the picture
/// scaled to 9 x 8, each pixel with the one to its right.
#[verifier::external_body]
fn hash_pixels(width: u32, height: u32, pixels: &Vec<u8>) -> (hash: Vec<u8>)
    requires
        is_raster(width, height, pixels@),
    ensures
        hash@ == perceptual_hash(width, height, pixels@),
        hash@.len() == FINGERPRINT_BYTES,
{
    let buffer = image::RgbaImage::from_raw(width, height, pixels.clone()).unwrap();
    let picture = image::DynamicImage::ImageRgba8(buffer);
    let hasher = img_hash::HasherConfig::new().to_hasher();
    hasher.hash_image(&picture).as_bytes().to_vec()
}

/// Distance of two hashes. Stands for `ImageHash::dist` of img_hash, which
/// sums the one bits of the exclusive or of the two hashes, byte by byte.
#[verifier::external_body]
fn hash_distance(a: &Vec<u8>, b: &Vec<u8>) -> (d: u32)
    requires
        a@.len() == FINGERPRINT_BYTES,
        b@.len() == FINGERPRINT_BYTES,
    ensures
        d == hamming(a@, b@),
{
    let left = img_hash::ImageHash::<Box<[u8]>>::from_bytes(a).unwrap();
    let right = img_hash::ImageHash::<Box<[u8]>>::from_bytes(b).unwrap();
    left.dist(&right)
}

/// A byte has no one bit exactly if it is zero, and at most 8 of them.
pub proof fn lemma_bit_count(x: u8)
    ensures
        bit_count(x) == 0 <==> x == 0,
        bit_count(x) <= 8,
{
    assert(x & 1 <= 1 && (x >> 1) & 1 <= 1 && (x >> 2) & 1 <= 1 && (x >> 3) & 1 <= 1 && (x >> 4) & 1
        <= 1 && (x >> 5) & 1 <= 1 && (x >> 6) & 1 <= 1 && (x >> 7) & 1 <= 1) by (bit_vector);
    assert(x == 0 <==> (x & 1 == 0 && (x >> 1) & 1 == 0 && (x >> 2) & 1 == 0 && (x >> 3) & 1 == 0
        && (x >> 4) & 1 == 0 && (x >> 5) & 1 == 0 && (x >> 6) & 1 == 0 && (x >> 7) & 1 == 0))
        by (bit_vector);
}

/// The distance from `a` to `b` is the distance from `b` to `a`.
pub proof fn lemma_hamming_symmetric(a: Seq<u8>, b: Seq<u8>)
    ensures
        hamming(a, b) == hamming(b, a),
    decreases a.len(),
{
    if a.len() > 0 && b.len() > 0 {
        lemma_hamming_symmetric(a.drop_last(), b.drop_last());
        let x = a.last();
        let y = b.last();
        assert(x ^ y == y ^ x) by (bit_vector);
    }
}

/// Two byte strings of one length are at distance zero exactly if they are
/// equal.
pub proof fn lemma_hamming_zero(a: Seq<u8>, b: Seq<u8>)
    requires
        a.len() == b.len(),
    ensures
        hamming(a, b) == 0 <==> a == b,
    decreases a.len(),
{
    if a.len() > 0 {
        lemma_hamming_zero(a.drop_last(), b.drop_last());
        let x = a.last();
        let y = b.last();
        lemma_bit_count(x ^ y);
        assert(x ^ y == 0 <==> x == y) by (bit_vector);
        assert(a.drop_last().push(x) =~= a);
        assert(b.drop_last().push(y) =~= b);
    } else {
        assert(a =~= b);
    }
}

/// No more bits differ than there are.
pub proof fn lemma_hamming_bound(a: Seq<u8>, b: Seq<u8>)
    requires
        a.len() == b.len(),
    ensures
        hamming(a, b) <= 8 * a.len(),
    decreases a.len(),
{
    if a.len() > 0 {
        lemma_hamming_bound(a.drop_last(), b.drop_last());
        lemma_bit_count(a.last() ^ b.last());
    }
}

/// The fingerprint of `picture`.
pub fn fingerprint(picture: &Raster) -> (print: Fingerprint)
    ensures
        print@ == picture.digest(),
{
    proof {
        use_type_invariant(picture);
    }
    let bytes = hash_pixels(picture.width, picture.height, &picture.pixels);
    Fingerprint { bytes }
}

/// How far two fingerprints are apart: the number of bits in which they
/// differ, which is zero exactly if they are equal, and the same in both
/// directions.
pub fn distance(a: &Fingerprint, b: &Fingerprint) -> (d: u32)
    ensures
        d == hamming(a@, b@),
        d == hamming(b@, a@),
        d == 0 <==> a@ == b@,
        d <= 64,
{
    proof {
        use_type_invariant(a);
        use_type_invariant(b);
        lemma_hamming_symmetric(a@, b@);
        lemma_hamming_zero(a@, b@);
        lemma_hamming_bound(a@, b@);
    }
    hash_distance(&a.bytes, &b.bytes)
}

/// How far the picture `fresh` is from the picture `baseline`.
pub fn difference(baseline: &Raster, fresh: &Raster) -> (score: u32)
    ensures
        score == hamming(baseline.digest(), fresh.digest()),
        baseline.digest() == fresh.digest() <==> score == 0,
        score <= 64,
{
    let old_hash = fingerprint(baseline);
    let new_hash = fingerprint(fresh);
    distance(&old_hash, &new_hash)
}

/// Two pictures with the same dimensions and data are at distance zero.
pub proof fn lemma_same_picture_same_digest(a: Raster, b: Raster)
    requires
        a.spec_width() == b.spec_width(),
        a.spec_height() == b.spec_height(),
        a.spec_pixels() == b.spec_pixels(),
    ensures
        a.digest() == b.digest(),
        hamming(a.digest(), b.digest()) == 0,
{
    lemma_hamming_zero_self(a.digest());
}

/// Every byte string is at distance zero from itself.
pub proof fn lemma_hamming_zero_self(a: Seq<u8>)
    ensures
        hamming(a, a) == 0,
{
    lemma_hamming_zero(a, a);
}

} // verus!
