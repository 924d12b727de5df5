use vstd::prelude::*;
use sha2::Digest;
use crate::number::{digit_char, digit_str};

verus! {

/// The SHA-256 digest of a byte sequence.
pub uninterp spec fn sha256_of(data: Seq<u8>) -> Seq<u8>;

/// Relies on `sha2::Sha256::digest`: the SHA-256 digest of `data`, which is
/// 32 bytes long and depends on the bytes alone.
#[verifier::external_body]
fn sha256_digest(data: &[u8]) -> (r: Vec<u8>)
    ensures
        r@ == sha256_of(data@),
        r@.len() == 32,
{
    sha2::Sha256::digest(data).to_vec()
}

/// Two lower-case hex digits for each byte, high half first.
pub open spec fn hex_of(b: Seq<u8>) -> Seq<char>
    decreases b.len(),
{
    if b.len() == 0 {
        Seq::empty()
    } else {
        hex_of(b.drop_last()) + seq![
            digit_char((b.last() / 16) as nat),
            digit_char((b.last() % 16) as nat),
        ]
    }
}

pub proof fn lemma_hex_len(b: Seq<u8>)
    ensures
        hex_of(b).len() == 2 * b.len(),
    decreases b.len(),
{
    if b.len() > 0 {
        lemma_hex_len(b.drop_last());
    }
}

/// Renders bytes as lower-case hexadecimal.
pub fn to_lower_hex(b: &[u8]) -> (r: String)
    ensures
        r@ == hex_of(b@),
{
    let mut r = String::new();
    let mut i: usize = 0;
    proof {
        assert(b@.take(0) =~= Seq::<u8>::empty());
    }
    while i < b.len()
        invariant
            i <= b@.len(),
            r@ == hex_of(b@.take(i as int)),
        decreases b@.len() - i,
    {
        let x = b[i];
        r.append(digit_str(x / 16));
        r.append(digit_str(x % 16));
        proof {
            assert(b@.take(i + 1).drop_last() =~= b@.take(i as int));
            assert(b@.take(i + 1).last() == x);
            assert(r@ =~= hex_of(b@.take(i + 1)));
        }
        i = i + 1;
    }
    proof {
        assert(b@.take(b@.len() as int) =~= b@);
    }
    r
}

/// The digest that stamps a snapshot archive: SHA-256 of its bytes, in
/// lower-case hexadecimal, 64 characters.
pub open spec fn content_hash(data: Seq<u8>) -> Seq<char> {
    hex_of(sha256_of(data))
}

/// Computes the lower-case hexadecimal SHA-256 digest of `data`.
pub fn compute_hash(data: &[u8]) -> (r: String)
    ensures
        r@ == content_hash(data@),
        r@.len() == 64,
{
    let d = sha256_digest(data);
    let r = to_lower_hex(d.as_slice());
    proof {
        lemma_hex_len(d@);
    }
    r
}

/// Hashing is deterministic: equal contents give equal digests.
pub proof fn lemma_hash_deterministic(a: Seq<u8>, b: Seq<u8>)
    requires
        a == b,
    ensures
        content_hash(a) == content_hash(b),
{
}

proof fn lemma_digit_char_injective(x: nat, y: nat)
    requires
        x < 16,
        y < 16,
        digit_char(x) == digit_char(y),
    ensures
        x == y,
{
}

/// Distinct digests render as distinct hex strings, so a changed digest is
/// always seen as a changed hash.
pub proof fn lemma_hex_injective(x: Seq<u8>, y: Seq<u8>)
    requires
        hex_of(x) == hex_of(y),
    ensures
        x == y,
    decreases x.len(),
{
    lemma_hex_len(x);
    lemma_hex_len(y);
    if x.len() > 0 {
        let hx = hex_of(x);
        let n = hx.len();
        let px = hex_of(x.drop_last());
        let py = hex_of(y.drop_last());
        lemma_hex_len(x.drop_last());
        lemma_hex_len(y.drop_last());
        assert(hx[n - 2] == digit_char((x.last() / 16) as nat));
        assert(hex_of(y)[n - 2] == digit_char((y.last() / 16) as nat));
        assert(hx[n - 1] == digit_char((x.last() % 16) as nat));
        assert(hex_of(y)[n - 1] == digit_char((y.last() % 16) as nat));
        lemma_digit_char_injective((x.last() / 16) as nat, (y.last() / 16) as nat);
        lemma_digit_char_injective((x.last() % 16) as nat, (y.last() % 16) as nat);
        assert(px =~= hx.take(n - 2));
        assert(py =~= hex_of(y).take(n - 2));
        lemma_hex_injective(x.drop_last(), y.drop_last());
        assert(x =~= x.drop_last().push(x.last()));
        assert(y =~= y.drop_last().push(y.last()));
    }
}

/// Contents whose SHA-256 digests differ get different hashes; that a
/// changed content changes the digest is what SHA-256 itself provides.
pub proof fn lemma_changed_digest_changes_hash(a: Seq<u8>, b: Seq<u8>)
    requires
        sha256_of(a) != sha256_of(b),
    ensures
        content_hash(a) != content_hash(b),
{
    if content_hash(a) == content_hash(b) {
        lemma_hex_injective(sha256_of(a), sha256_of(b));
    }
}

} // verus!
