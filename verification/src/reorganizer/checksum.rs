//! Blake3 checksums of file contents, computed piece by piece as the
//! content is read.
use vstd::prelude::*;

verus! {

/// The hash state of the `blake3` crate.
#[verifier::external_type_specification]
#[verifier::external_body]
pub struct ExBlake3Hasher(blake3::Hasher);

/// Name for the bytes a `blake3::Hasher` has been given so far.
pub uninterp spec fn hashed_input(h: blake3::Hasher) -> Seq<u8>;

/// Name for the lowercase hexadecimal Blake3 digest of some bytes
/// (`Hasher::finalize` then `Hash::to_hex`).
pub uninterp spec fn blake3_hex(data: Seq<u8>) -> Seq<char>;

/// Whether `c` is a lowercase hexadecimal digit.
pub open spec fn is_lower_hex_digit(c: char) -> bool {
    ('0' <= c && c <= '9') || ('a' <= c && c <= 'f')
}

/// Calls `blake3::Hasher::new`: a state that has been given nothing.
#[verifier::external_body]
fn hasher_new() -> (h: blake3::Hasher)
    ensures
        hashed_input(h) == Seq::<u8>::empty(),
{
    blake3::Hasher::new()
}

/// Calls `blake3::Hasher::update`: the bytes are added to what the state has
/// been given.
#[verifier::external_body]
fn hasher_update(h: &mut blake3::Hasher, data: &[u8])
    ensures
        hashed_input(*final(h)) == hashed_input(*old(h)) + data@,
{
    h.update(data);
}

/// Calls `blake3::Hasher::finalize` and `Hash::to_hex`: the digest of what
/// the state has been given, as 64 lowercase hexadecimal characters.
#[verifier::external_body]
fn hasher_hex(h: &blake3::Hasher) -> (r: String)
    ensures
        r@ == blake3_hex(hashed_input(*h)),
        r@.len() == 64,
        forall|i: int| 0 <= i < r@.len() ==> is_lower_hex_digit(#[trigger] r@[i]),
{
    h.finalize().to_hex().to_string()
}

/// A Blake3 checksum of content given piece by piece.
pub struct ContentHasher {
    state: blake3::Hasher,
}

impl View for ContentHasher {
    type V = Seq<u8>;

    /// The content given so far.
    closed spec fn view(&self) -> Seq<u8> {
        hashed_input(self.state)
    }
}

impl ContentHasher {
    /// A checksum of no content yet.
    pub fn new() -> (r: ContentHasher)
        ensures
            r@ == Seq::<u8>::empty(),
    {
        ContentHasher { state: hasher_new() }
    }

    /// Add the next piece of content.
    pub fn update(&mut self, piece: &[u8])
        ensures
            final(self)@ == old(self)@ + piece@,
    {
        hasher_update(&mut self.state, piece);
    }

    /// The hexadecimal checksum of the content given so far.
    pub fn hex(&self) -> (r: String)
        ensures
            r@ == blake3_hex(self@),
            r@.len() == 64,
            forall|i: int| 0 <= i < r@.len() ==> is_lower_hex_digit(#[trigger] r@[i]),
    {
        hasher_hex(&self.state)
    }
}

/// The pieces one after the other.
pub open spec fn concat_pieces(pieces: Seq<Vec<u8>>) -> Seq<u8>
    decreases pieces.len(),
{
    if pieces.len() == 0 {
        Seq::empty()
    } else {
        concat_pieces(pieces.drop_last()) + pieces.last()@
    }
}

/// The checksum of content given in pieces: that of the pieces one after
/// the other, however the content was cut.
pub fn checksum_of_pieces(pieces: &Vec<Vec<u8>>) -> (r: String)
    ensures
        r@ == blake3_hex(concat_pieces(pieces@)),
        r@.len() == 64,
        forall|i: int| 0 <= i < r@.len() ==> is_lower_hex_digit(#[trigger] r@[i]),
{
    let mut h = ContentHasher::new();
    let mut i: usize = 0;
    while i < pieces.len()
        invariant
            i <= pieces.len(),
            h@ == concat_pieces(pieces@.take(i as int)),
        decreases pieces.len() - i,
    {
        assert(pieces@.take(i + 1).drop_last() =~= pieces@.take(i as int));
        h.update(pieces[i].as_slice());
        i += 1;
    }
    assert(pieces@.take(pieces.len() as int) =~= pieces@);
    h.hex()
}

} // verus!
