//! The Dropbox content hash.
//!
//! Dropbox splits a file into blocks of 4 MiB, takes the SHA-256 digest of each block,
//! concatenates the digests and takes the SHA-256 digest of that concatenation.
//! The result is written as lowercase hexadecimal.
use sha2::Digest;
use vstd::prelude::*;

verus! {

/// The size of a Dropbox hash block: 4 MiB.
pub const BLOCK_SIZE: usize = 4194304;

/// The SHA-256 digest of `data`, as `sha2::Sha256` computes it.
pub uninterp spec fn sha256(data: Seq<u8>) -> Seq<u8>;

/// The lowercase hexadecimal digit for `n`, for `n` below sixteen.
pub open spec fn hex_digit(n: int) -> char {
    "0123456789abcdef"@[n]
}

/// `bytes` written as lowercase hexadecimal, two digits per byte, high nibble first.
pub open spec fn hex_lower(bytes: Seq<u8>) -> Seq<char>
    decreases bytes.len(),
{
    if bytes.len() == 0 {
        seq![]
    } else {
        seq![hex_digit(bytes[0] as int / 16), hex_digit(bytes[0] as int % 16)] + hex_lower(bytes.drop_first())
    }
}

/// `c` is a lowercase hexadecimal digit.
pub open spec fn is_lower_hex(c: char) -> bool {
    ('0' <= c && c <= '9') || ('a' <= c && c <= 'f')
}

/// Every character of `s` is a lowercase hexadecimal digit.
pub open spec fn all_lower_hex(s: Seq<char>) -> bool {
    forall|i: int| 0 <= i < s.len() ==> is_lower_hex(#[trigger] s[i])
}

/// Each hexadecimal digit character is a lowercase hexadecimal digit.
pub proof fn lemma_hex_digit(n: int)
    requires
        0 <= n < 16,
    ensures
        is_lower_hex(hex_digit(n)),
{
    reveal_strlit("0123456789abcdef");
}

/// Hexadecimal text has two lowercase hexadecimal digits per byte.
pub proof fn lemma_hex_lower(bytes: Seq<u8>)
    ensures
        hex_lower(bytes).len() == 2 * bytes.len(),
        all_lower_hex(hex_lower(bytes)),
    decreases bytes.len(),
{
    if bytes.len() > 0 {
        lemma_hex_lower(bytes.drop_first());
        let b = bytes[0] as int;
        lemma_hex_digit(b / 16);
        lemma_hex_digit(b % 16);
        let head = seq![hex_digit(b / 16), hex_digit(b % 16)];
        let rest = hex_lower(bytes.drop_first());
        assert forall|i: int| 0 <= i < (head + rest).len() implies is_lower_hex(
            #[trigger] (head + rest)[i],
        ) by {
            if i >= 2 {
                assert((head + rest)[i] == rest[i - 2]);
            }
        }
    }
}

/// The concatenated digests of the blocks of `data`: one digest for each full block of
/// `BLOCK_SIZE` bytes, in order, and one for the shorter last block if there is one.
pub open spec fn block_digests(data: Seq<u8>) -> Seq<u8>
    decreases data.len(),
{
    if data.len() == 0 {
        seq![]
    } else if data.len() <= BLOCK_SIZE {
        sha256(data)
    } else {
        sha256(data.take(BLOCK_SIZE as int)) + block_digests(data.skip(BLOCK_SIZE as int))
    }
}

/// The Dropbox content hash of `data`, as hexadecimal text.
pub open spec fn content_hash_of(data: Seq<u8>) -> Seq<char> {
    hex_lower(sha256(block_digests(data)))
}

/// The SHA-256 digest of `data`.
/// Calls `sha2::Sha256::digest`; its result is named `sha256`, and it is 32 bytes long,
/// as the output size of `Sha256` is 32.
#[verifier::external_body]
fn sha256_digest(data: &[u8]) -> (res: Vec<u8>)
    ensures
        res@ == sha256(data@),
        res@.len() == 32,
{
    sha2::Sha256::digest(data).to_vec()
}

/// `bytes` as lowercase hexadecimal.
/// Calls `hex::encode`, which writes each byte as two digits from "0123456789abcdef",
/// the high nibble first.
#[verifier::external_body]
fn hex_encode(bytes: &[u8]) -> (res: String)
    ensures
        res@ == hex_lower(bytes@),
{
    hex::encode(bytes)
}

/// Splitting data after a whole number of blocks splits its block digests the same way.
pub proof fn lemma_block_digests_append(p: Seq<u8>, q: Seq<u8>)
    requires
        p.len() % (BLOCK_SIZE as nat) == 0,
    ensures
        block_digests(p + q) == block_digests(p) + block_digests(q),
    decreases p.len(),
{
    let b = BLOCK_SIZE as int;
    if p.len() == 0 {
        assert(p + q =~= q);
        assert(block_digests(p) + block_digests(q) =~= block_digests(q));
    } else if q.len() == 0 {
        assert(p + q =~= p);
        assert(block_digests(p) + block_digests(q) =~= block_digests(p));
    } else {
        assert(p.len() >= b);
        let pq = p + q;
        assert(pq.take(b) =~= p.take(b));
        assert(pq.skip(b) =~= p.skip(b) + q);
        assert(p.skip(b).len() % (BLOCK_SIZE as nat) == 0);
        lemma_block_digests_append(p.skip(b), q);
        if p.len() == b {
            assert(p.skip(b) =~= Seq::<u8>::empty());
            assert(p.take(b) =~= p);
            assert(block_digests(p.skip(b)) =~= Seq::<u8>::empty());
            assert(sha256(p) + block_digests(q) =~= sha256(p) + (Seq::<u8>::empty() + block_digests(q)));
        } else {
            assert(sha256(p.take(b)) + (block_digests(p.skip(b)) + block_digests(q)) =~= (sha256(
                p.take(b),
            ) + block_digests(p.skip(b))) + block_digests(q));
        }
    }
}

/// The content hash of empty data is the hexadecimal SHA-256 digest of no bytes at all.
pub proof fn lemma_empty_content_hash()
    ensures
        content_hash_of(Seq::<u8>::empty()) == hex_lower(sha256(Seq::<u8>::empty())),
{
    assert(block_digests(Seq::<u8>::empty()) =~= Seq::<u8>::empty());
}

/// Data of at most one block hashes to the digest of its single block digest.
pub proof fn lemma_single_block_content_hash(data: Seq<u8>)
    requires
        0 < data.len() <= BLOCK_SIZE,
    ensures
        content_hash_of(data) == hex_lower(sha256(sha256(data))),
{
}

/// The digests of data made of whole blocks followed by a tail of at most one block: the
/// digest of each block in order, then the tail's digest if the tail is not empty.
pub proof fn lemma_block_digests_of_blocks(blocks: Seq<Seq<u8>>, tail: Seq<u8>)
    requires
        forall|i: int| 0 <= i < blocks.len() ==> (#[trigger] blocks[i]).len() == BLOCK_SIZE,
        tail.len() <= BLOCK_SIZE,
    ensures
        block_digests(blocks.flatten() + tail) == blocks.map_values(|b: Seq<u8>| sha256(b)).flatten()
            + (if tail.len() > 0 {
            sha256(tail)
        } else {
            Seq::<u8>::empty()
        }),
    decreases blocks.len(),
{
    let digests = blocks.map_values(|b: Seq<u8>| sha256(b));
    if blocks.len() == 0 {
        assert(blocks.flatten() + tail =~= tail);
        assert(digests.flatten() =~= Seq::<u8>::empty());
        if tail.len() == 0 {
            assert(block_digests(tail) =~= Seq::<u8>::empty());
        }
        assert(digests.flatten() + (if tail.len() > 0 {
            sha256(tail)
        } else {
            Seq::<u8>::empty()
        }) =~= block_digests(tail));
    } else {
        let b0 = blocks[0];
        let rest = blocks.drop_first();
        assert forall|i: int| 0 <= i < rest.len() implies (#[trigger] rest[i]).len() == BLOCK_SIZE by {
            assert(rest[i] == blocks[i + 1]);
        }
        lemma_block_digests_of_blocks(rest, tail);
        assert(blocks.flatten() == b0 + rest.flatten());
        assert(blocks.flatten() + tail =~= b0 + (rest.flatten() + tail));
        assert(b0.len() % (BLOCK_SIZE as nat) == 0);
        lemma_block_digests_append(b0, rest.flatten() + tail);
        assert(block_digests(b0) == sha256(b0));
        assert(digests.drop_first() =~= rest.map_values(|b: Seq<u8>| sha256(b)));
        assert(digests.first() == sha256(b0));
        assert(digests.flatten() == sha256(b0) + rest.map_values(|b: Seq<u8>| sha256(b)).flatten());
        let t = if tail.len() > 0 {
            sha256(tail)
        } else {
            Seq::<u8>::empty()
        };
        assert(sha256(b0) + (rest.map_values(|b: Seq<u8>| sha256(b)).flatten() + t) =~= (sha256(b0)
            + rest.map_values(|b: Seq<u8>| sha256(b)).flatten()) + t);
    }
}

/// The Dropbox content hash of a file made of whole 4 MiB blocks and a tail of at most one
/// block: the hexadecimal SHA-256 digest of the SHA-256 digests of every block, in order, then
/// of the tail if it is not empty. No block is left out, however many there are.
pub proof fn law_content_hash_of_blocks(blocks: Seq<Seq<u8>>, tail: Seq<u8>)
    requires
        forall|i: int| 0 <= i < blocks.len() ==> (#[trigger] blocks[i]).len() == BLOCK_SIZE,
        tail.len() <= BLOCK_SIZE,
    ensures
        content_hash_of(blocks.flatten() + tail) == hex_lower(
            sha256(
                blocks.map_values(|b: Seq<u8>| sha256(b)).flatten() + (if tail.len() > 0 {
                    sha256(tail)
                } else {
                    Seq::<u8>::empty()
                }),
            ),
        ),
{
    lemma_block_digests_of_blocks(blocks, tail);
}

/// A Dropbox content hash computed while the data arrives in pieces of any size.
pub struct ContentHasher {
    /// Digests of the full blocks seen so far.
    digests: Vec<u8>,
    /// The bytes after the last full block.
    pending: Vec<u8>,
    /// All full blocks seen so far.
    done: Ghost<Seq<u8>>,
}

impl View for ContentHasher {
    type V = Seq<u8>;

    /// All the bytes given to the hasher so far.
    closed spec fn view(&self) -> Seq<u8> {
        self.done@ + self.pending@
    }
}

impl ContentHasher {
    /// The hasher's internal invariant.
    pub closed spec fn well_formed(&self) -> bool {
        &&& self.done@.len() % (BLOCK_SIZE as nat) == 0
        &&& self.pending@.len() < BLOCK_SIZE
        &&& self.digests@ == block_digests(self.done@)
    }

    /// A hasher that has seen no bytes.
    pub fn new() -> (h: ContentHasher)
        ensures
            h.well_formed(),
            h@ == Seq::<u8>::empty(),
    {
        let h = ContentHasher { digests: Vec::new(), pending: Vec::new(), done: Ghost(Seq::empty()) };
        assert(h@ =~= Seq::<u8>::empty());
        h
    }

    /// Feeds the next bytes of the data.
    pub fn update(&mut self, bytes: &[u8])
        requires
            old(self).well_formed(),
        ensures
            final(self).well_formed(),
            final(self)@ == old(self)@ + bytes@,
    {
        let n = bytes.len();
        let mut pos: usize = 0;
        assert(bytes@.take(0) =~= Seq::<u8>::empty());
        assert(self@ =~= old(self)@ + bytes@.take(0));
        while pos < n
            invariant
                n == bytes@.len(),
                pos <= n,
                self.well_formed(),
                self@ == old(self)@ + bytes@.take(pos as int),
            decreases n - pos,
        {
            let room = BLOCK_SIZE - self.pending.len();
            let take = if n - pos < room {
                n - pos
            } else {
                room
            };
            let ghost before = self@;
            let ghost pending0 = self.pending@;
            let ghost done0 = self.done@;
            let ghost digests0 = self.digests@;
            for j in 0..take
                invariant
                    n == bytes@.len(),
                    self.done@ == done0,
                    self.digests@ == digests0,
                    pos + take <= n,
                    pending0.len() + take <= BLOCK_SIZE,
                    self.pending@ == pending0 + bytes@.subrange(pos as int, pos + j),
            {
                self.pending.push(bytes[pos + j]);
                assert(bytes@.subrange(pos as int, pos + j + 1) =~= bytes@.subrange(
                    pos as int,
                    pos + j,
                ).push(bytes@[pos + j]));
            }
            proof {
                assert(bytes@.take(pos + take) =~= bytes@.take(pos as int) + bytes@.subrange(
                    pos as int,
                    pos + take,
                ));
                assert(self@ =~= before + bytes@.subrange(pos as int, pos + take));
                assert(self@ =~= old(self)@ + bytes@.take(pos + take));
            }
            pos = pos + take;
            if self.pending.len() == BLOCK_SIZE {
                let d = sha256_digest(self.pending.as_slice());
                proof {
                    lemma_block_digests_append(self.done@, self.pending@);
                    let k = self.done@.len();
                    assert((k + BLOCK_SIZE as nat) % (BLOCK_SIZE as nat) == 0) by (nonlinear_arith)
                        requires
                            k % (BLOCK_SIZE as nat) == 0,
                    ;
                    assert(block_digests(self.pending@) == sha256(self.pending@));
                }
                let ghost full = self.pending@;
                self.digests.extend_from_slice(d.as_slice());
                self.done = Ghost(self.done@ + self.pending@);
                self.pending.clear();
                assert(self.digests@ =~= block_digests(done0) + block_digests(full));
                assert(self.done@ == done0 + full);
            }
            assert(self@ =~= old(self)@ + bytes@.take(pos as int));
        }
        assert(bytes@.take(n as int) =~= bytes@);
    }

    /// The content hash of all the bytes fed so far.
    pub fn finalize(&self) -> (res: String)
        requires
            self.well_formed(),
        ensures
            res@ == content_hash_of(self@),
            res@.len() == 64,
            all_lower_hex(res@),
    {
        let mut all = self.digests.clone();
        proof {
            lemma_block_digests_append(self.done@, self.pending@);
        }
        if self.pending.len() > 0 {
            let d = sha256_digest(self.pending.as_slice());
            all.extend_from_slice(d.as_slice());
            assert(block_digests(self.pending@) == sha256(self.pending@));
            assert(all@ =~= block_digests(self.done@) + block_digests(self.pending@));
        } else {
            assert(self.pending@ =~= Seq::<u8>::empty());
            assert(all@ =~= block_digests(self.done@) + block_digests(self.pending@));
        }
        let top = sha256_digest(all.as_slice());
        proof {
            lemma_hex_lower(top@);
        }
        hex_encode(top.as_slice())
    }
}

/// The Dropbox content hash of `data`.
pub fn content_hash(data: &[u8]) -> (res: String)
    ensures
        res@ == content_hash_of(data@),
        res@.len() == 64,
        all_lower_hex(res@),
{
    let mut h = ContentHasher::new();
    h.update(data);
    assert(h@ =~= data@);
    h.finalize()
}

} // verus!
