//! Sharing of secrets of any length, block by block, with Shamir's scheme over
//! the field of the secp256k1 prime.
//!
//! A secret is cut into blocks of 31 bytes, the last one possibly shorter. A one
//! is put before the bytes of each block, so that its length is not lost, and the
//! number that these bytes stand for is shared. A share holds 32 bytes per block.
use shamir_secret_sharing::num_bigint::{BigInt, Sign};
use shamir_secret_sharing::ShamirSecretSharing;
use vstd::arithmetic::power::{lemma_pow_positive, lemma_pow_strictly_increases, pow};
use vstd::prelude::*;

verus! {

/// Bytes of a secret per block.
pub const BLOCK_BYTES: usize = 31;

/// Bytes of a share per block.
pub const SHARE_BYTES: usize = 32;

// ---------------------------------------------------------------------------
// Numbers as bytes
// ---------------------------------------------------------------------------

/// The number that some bytes stand for, the most significant one first.
pub open spec fn be_value(s: Seq<u8>) -> nat
    decreases s.len(),
{
    if s.len() == 0 {
        0
    } else {
        256 * be_value(s.drop_last()) + s.last() as nat
    }
}

/// A number of so many bytes is below the power of that length; with a first
/// byte it lies between that byte's multiples.
proof fn lemma_be_range(s: Seq<u8>)
    ensures
        be_value(s) < pow(256, s.len()),
        s.len() > 0 ==> s[0] * pow(256, (s.len() - 1) as nat) <= be_value(s) < (s[0] + 1) * pow(
            256,
            (s.len() - 1) as nat,
        ),
    decreases s.len(),
{
    reveal(pow);
    if s.len() > 0 {
        let p = s.drop_last();
        lemma_be_range(p);
        let n = (s.len() - 1) as nat;
        assert(pow(256, s.len()) == 256 * pow(256, n));
        if p.len() == 0 {
            assert(pow(256, 0) == 1);
            assert(be_value(p) == 0);
            assert(s[0] == s.last());
        } else {
            let m = (n - 1) as nat;
            assert(p[0] == s[0]);
            assert(pow(256, n) == 256 * pow(256, m));
            let a = s[0] as int;
            let q = pow(256, m);
            assert((a + 1) * (256 * q) == 256 * ((a + 1) * q)) by (nonlinear_arith);
            assert(a * (256 * q) == 256 * (a * q)) by (nonlinear_arith);
        }
    }
}

/// Bytes of one length that stand for one number are the same bytes.
proof fn lemma_be_injective(a: Seq<u8>, b: Seq<u8>)
    requires
        a.len() == b.len(),
        be_value(a) == be_value(b),
    ensures
        a == b,
    decreases a.len(),
{
    if a.len() > 0 {
        assert(a.last() == be_value(a) % 256);
        assert(b.last() == be_value(b) % 256);
        lemma_be_injective(a.drop_last(), b.drop_last());
        assert(a =~= a.drop_last().push(a.last()));
        assert(b =~= b.drop_last().push(b.last()));
    } else {
        assert(a =~= b);
    }
}

/// Bytes that start with a byte other than zero are determined by the number
/// that they stand for.
pub proof fn be_value_is_injective(a: Seq<u8>, b: Seq<u8>)
    requires
        a.len() > 0,
        b.len() > 0,
        a[0] != 0,
        b[0] != 0,
        be_value(a) == be_value(b),
    ensures
        a == b,
{
    if a.len() < b.len() {
        lemma_be_shorter_is_smaller(a, b);
    } else if b.len() < a.len() {
        lemma_be_shorter_is_smaller(b, a);
    } else {
        lemma_be_injective(a, b);
    }
}

proof fn lemma_be_shorter_is_smaller(a: Seq<u8>, b: Seq<u8>)
    requires
        a.len() < b.len(),
        b[0] != 0,
    ensures
        be_value(a) < be_value(b),
{
    lemma_be_range(a);
    lemma_be_range(b);
    let n = (b.len() - 1) as nat;
    if a.len() < n {
        lemma_pow_strictly_increases(256, a.len(), n);
    }
    lemma_pow_positive(256, n);
    let c = b[0] as int;
    let q = pow(256, n);
    assert(c * q >= q) by (nonlinear_arith)
        requires
            c >= 1,
            q > 0,
    ;
}

/// Zeros before a number do not change it.
proof fn lemma_leading_zeros(z: Seq<u8>, s: Seq<u8>)
    requires
        forall|i: int| 0 <= i < z.len() ==> #[trigger] z[i] == 0,
    ensures
        be_value(z + s) == be_value(s),
    decreases z.len() + s.len(),
{
    if s.len() > 0 {
        assert((z + s).drop_last() =~= z + s.drop_last());
        lemma_leading_zeros(z, s.drop_last());
    } else if z.len() > 0 {
        assert(z + s =~= z);
        assert(z.drop_last() + s =~= z.drop_last());
        assert(z[z.len() - 1] == 0);
        lemma_leading_zeros(z.drop_last(), s);
    } else {
        assert(z + s =~= s);
    }
}

/// The bytes of a number, filled up with zeros to the length of a share.
fn push_padded(out: &mut Vec<u8>, y: &Vec<u8>)
    requires
        y@.len() <= SHARE_BYTES,
    ensures
        final(out)@.len() == old(out)@.len() + SHARE_BYTES,
        final(out)@.subrange(0, old(out)@.len() as int) == old(out)@,
        be_value(
            final(out)@.subrange(old(out)@.len() as int, old(out)@.len() + SHARE_BYTES),
        ) == be_value(y@),
{
    let ghost start = out@;
    let zeros: usize = SHARE_BYTES - y.len();
    let ghost mut z = Seq::<u8>::empty();
    let mut i: usize = 0;
    while i < zeros
        invariant
            i <= zeros,
            zeros == SHARE_BYTES - y@.len(),
            z.len() == i,
            forall|j: int| 0 <= j < z.len() ==> #[trigger] z[j] == 0,
            out@ == start + z,
        decreases zeros - i,
    {
        out.push(0);
        proof {
            z = z.push(0);
        }
        assert(out@ =~= start + z);
        i += 1;
    }
    let mut j: usize = 0;
    assert(y@.subrange(0, 0) =~= Seq::<u8>::empty());
    assert(out@ =~= start + (z + y@.subrange(0, 0)));
    while j < y.len()
        invariant
            j <= y@.len(),
            out@ == start + (z + y@.subrange(0, j as int)),
        decreases y@.len() - j,
    {
        out.push(y[j]);
        j += 1;
        assert(out@ =~= start + (z + y@.subrange(0, j as int)));
    }
    proof {
        assert(y@.subrange(0, j as int) =~= y@);
        lemma_leading_zeros(z, y@);
        assert(out@.subrange(0, start.len() as int) =~= start);
        assert(out@.subrange(start.len() as int, start.len() + SHARE_BYTES) =~= z + y@);
    }
}

// ---------------------------------------------------------------------------
// The scheme
// ---------------------------------------------------------------------------

/// The secp256k1 prime, 2^256 - 2^32 - 977.
pub open spec fn field_prime_bytes() -> Seq<u8> {
    seq![
        0xffu8, 0xff, 0xff, 0xff, 0xff, 0xff, 0xff, 0xff, 0xff, 0xff, 0xff, 0xff, 0xff, 0xff, 0xff,
        0xff, 0xff, 0xff, 0xff, 0xff, 0xff, 0xff, 0xff, 0xff, 0xff, 0xff, 0xff, 0xfe, 0xff, 0xff,
        0xfc, 0x2f,
    ]
}

fn field_prime() -> (p: [u8; 32])
    ensures
        p@ == field_prime_bytes(),
{
    let p: [u8; 32] = [
        0xff, 0xff, 0xff, 0xff, 0xff, 0xff, 0xff, 0xff, 0xff, 0xff, 0xff, 0xff, 0xff, 0xff, 0xff,
        0xff, 0xff, 0xff, 0xff, 0xff, 0xff, 0xff, 0xff, 0xff, 0xff, 0xff, 0xff, 0xfe, 0xff, 0xff,
        0xfc, 0x2f,
    ];
    assert(p@ =~= field_prime_bytes());
    p
}

/// A share as the scheme knows it: where the polynomial was evaluated, and what
/// came out.
pub type Point = (nat, nat);

/// What `ShamirSecretSharing::recover` makes of some shares over the field of a
/// prime.
pub uninterp spec fn shamir_recovered(prime: nat, points: Seq<Point>) -> nat;

/// The points of some shares.
pub open spec fn points_of(shares: Seq<(usize, Vec<u8>)>) -> Seq<Point> {
    shares.map_values(|s: (usize, Vec<u8>)| (s.0 as nat, be_value(s.1@)))
}

/// So many of some points, no two of them at the same place.
pub open spec fn is_selection(pick: Seq<Point>, all: Seq<Point>, count: nat) -> bool {
    &&& pick.len() == count
    &&& forall|i: int| 0 <= i < pick.len() ==> all.contains(#[trigger] pick[i])
    &&& forall|i: int, j: int|
        0 <= i < j < pick.len() ==> (#[trigger] pick[i]).0 != (#[trigger] pick[j]).0
}

/// Any `threshold` of the points give the number back.
pub open spec fn recoverable(all: Seq<Point>, threshold: nat, secret: nat) -> bool {
    forall|pick: Seq<Point>| #[trigger]
        is_selection(pick, all, threshold) ==> shamir_recovered(
            be_value(field_prime_bytes()),
            pick,
        ) == secret
}

/// `ShamirSecretSharing::split`: a number below the prime is made into points at
/// 1, 2, and so on, of a polynomial with random coefficients. Which points come
/// out is left open; any `threshold` of them, in any order, give the number back
/// through `ShamirSecretSharing::recover`, by Lagrange interpolation over the
/// prime field. The values are reduced modulo the prime, so they have at most 32
/// bytes. The call panics unless `threshold` is below `share_amount`, and it needs
/// at least one coefficient.
#[verifier::external_body]
fn shamir_split(threshold: usize, share_amount: usize, prime: &[u8; 32], secret: &Vec<u8>) -> (shares:
    Vec<(usize, Vec<u8>)>)
    requires
        1 <= threshold < share_amount <= u32::MAX,
        prime@ == field_prime_bytes(),
        secret@.len() <= 32,
        secret@.len() == 32 ==> secret@[0] <= 1,
    ensures
        shares@.len() == share_amount,
        forall|i: int|
            0 <= i < shares@.len() ==> {
                &&& (#[trigger] shares@[i]).0 == i + 1
                &&& shares@[i].1@.len() <= 32
            },
        recoverable(points_of(shares@), threshold as nat, be_value(secret@)),
{
    let prime = BigInt::from_bytes_be(Sign::Plus, prime);
    let scheme = ShamirSecretSharing { threshold, share_amount, prime };
    let points = scheme.split(BigInt::from_bytes_be(Sign::Plus, secret));
    points.into_iter().map(|(x, y)| (x, y.to_bytes_be().1)).collect()
}

/// `ShamirSecretSharing::recover`: the number that some shares give, in as few
/// bytes as it needs (one for zero). It is a function of the shares and the prime;
/// the result is reduced modulo the prime. The call panics unless there are
/// exactly `threshold` shares.
#[verifier::external_body]
fn shamir_recover(threshold: usize, prime: &[u8; 32], shares: &Vec<(usize, Vec<u8>)>) -> (secret: Vec<
    u8,
>)
    requires
        shares@.len() == threshold,
        prime@ == field_prime_bytes(),
    ensures
        be_value(secret@) == shamir_recovered(be_value(prime@), points_of(shares@)),
        secret@.len() >= 1,
        secret@.len() > 1 ==> secret@[0] != 0,
{
    let prime = BigInt::from_bytes_be(Sign::Plus, prime);
    let scheme = ShamirSecretSharing { threshold, share_amount: threshold, prime };
    let points: Vec<(usize, BigInt)> = shares
        .iter()
        .map(|(x, y)| (*x, BigInt::from_bytes_be(Sign::Plus, y)))
        .collect();
    scheme.recover(&points).to_bytes_be().1
}

// ---------------------------------------------------------------------------
// Blocks
// ---------------------------------------------------------------------------

/// The number of blocks of a secret.
pub open spec fn block_count(len: nat) -> nat {
    ((len + 30) / 31) as nat
}

/// Where a block of a secret ends.
pub open spec fn block_end(len: nat, b: nat) -> int {
    if 31 * (b + 1) <= len {
        31 * (b + 1) as int
    } else {
        len as int
    }
}

/// A block of a secret.
pub open spec fn block(secret: Seq<u8>, b: nat) -> Seq<u8> {
    secret.subrange(31 * b as int, block_end(secret.len(), b))
}

/// The number that stands for a block.
pub open spec fn block_number(block: Seq<u8>) -> nat {
    be_value(seq![1u8] + block)
}

/// A share of a secret: its place, and its bytes.
pub struct ShareBytes {
    pub id: u32,
    pub data: Vec<u8>,
}

/// The view of a share.
pub type ShareView = (nat, Seq<u8>);

impl View for ShareBytes {
    type V = ShareView;

    open spec fn view(&self) -> ShareView {
        (self.id as nat, self.data@)
    }
}

/// The point of a share for a block.
pub open spec fn block_point(share: ShareView, b: nat) -> Point {
    (share.0, be_value(share.1.subrange(32 * b as int, 32 * b + 32 as int)))
}

/// The points of some shares for a block.
pub open spec fn block_points(shares: Seq<ShareView>, b: nat) -> Seq<Point> {
    Seq::new(shares.len(), |i: int| block_point(shares[i], b))
}

/// The block that a number stands for, if it stands for one.
pub open spec fn block_of(n: nat) -> Option<Seq<u8>> {
    if exists|s: Seq<u8>| s.len() <= 31 && #[trigger] block_number(s) == n {
        Some(choose|s: Seq<u8>| s.len() <= 31 && #[trigger] block_number(s) == n)
    } else {
        None
    }
}

proof fn lemma_block_of(s: Seq<u8>)
    requires
        s.len() <= 31,
    ensures
        block_of(block_number(s)) == Some(s),
{
    let t = block_of(block_number(s))->0;
    assert(block_number(s) == block_number(s));
    assert(block_number(t) == block_number(s));
    be_value_is_injective(seq![1u8] + t, seq![1u8] + s);
    assert(t =~= (seq![1u8] + t).subrange(1, t.len() + 1 as int));
    assert(s =~= (seq![1u8] + s).subrange(1, s.len() + 1 as int));
}

/// The first blocks of the secret that some shares give back, if they do.
pub open spec fn recovered_blocks(shares: Seq<ShareView>, count: nat) -> Option<Seq<u8>>
    decreases count,
{
    if count == 0 {
        Some(Seq::empty())
    } else {
        let b = (count - 1) as nat;
        let n = shamir_recovered(be_value(field_prime_bytes()), block_points(shares, b));
        match (recovered_blocks(shares, b), block_of(n)) {
            (Some(head), Some(tail)) => Some(head + tail),
            _ => None,
        }
    }
}

/// The shares can be put together: there is at least one, they hold equally many
/// whole blocks, and no two have the same place.
pub open spec fn compatible(shares: Seq<ShareView>) -> bool {
    &&& shares.len() > 0
    &&& forall|i: int|
        0 <= i < shares.len() ==> (#[trigger] shares[i]).1.len() == shares[0].1.len()
    &&& shares[0].1.len() % 32 == 0
    &&& forall|i: int, j: int|
        0 <= i < j < shares.len() ==> (#[trigger] shares[i]).0 != (#[trigger] shares[j]).0
}

/// The secret that some shares give back, if they do.
pub open spec fn recovered_secret(shares: Seq<ShareView>) -> Option<Seq<u8>> {
    if compatible(shares) {
        recovered_blocks(shares, shares[0].1.len() / 32)
    } else {
        None
    }
}

/// So many of some shares, no two of them at the same place.
pub open spec fn share_selection(pick: Seq<ShareView>, all: Seq<ShareView>, count: nat) -> bool {
    &&& pick.len() == count
    &&& forall|i: int| 0 <= i < pick.len() ==> all.contains(#[trigger] pick[i])
    &&& forall|i: int, j: int|
        0 <= i < j < pick.len() ==> (#[trigger] pick[i]).0 != (#[trigger] pick[j]).0
}

/// Any `threshold` of the shares give the secret back.
pub open spec fn shares_recover(all: Seq<ShareView>, threshold: nat, secret: Seq<u8>) -> bool {
    forall|pick: Seq<ShareView>| #[trigger]
        share_selection(pick, all, threshold) ==> recovered_secret(pick) == Some(secret)
}

/// The views of some shares.
pub open spec fn share_views(shares: Seq<ShareBytes>) -> Seq<ShareView> {
    shares.map_values(|s: ShareBytes| s@)
}

/// Shares whose every block can be recovered give back the blocks.
proof fn lemma_blocks_recover(
    pick: Seq<ShareView>,
    all: Seq<ShareView>,
    threshold: nat,
    secret: Seq<u8>,
    count: nat,
)
    requires
        share_selection(pick, all, threshold),
        count <= block_count(secret.len()),
        forall|b: nat|
            b < count ==> #[trigger] recoverable(
                block_points(all, b),
                threshold,
                block_number(block(secret, b)),
            ),
    ensures
        recovered_blocks(pick, count) == Some(
            secret.subrange(
                0,
                if count == 0 {
                    0
                } else {
                    block_end(secret.len(), (count - 1) as nat)
                },
            ),
        ),
    decreases count,
{
    if count == 0 {
        assert(secret.subrange(0, 0) =~= Seq::<u8>::empty());
    } else {
        let b = (count - 1) as nat;
        lemma_blocks_recover(pick, all, threshold, secret, b);
        let p = block_points(pick, b);
        let a = block_points(all, b);
        assert(is_selection(p, a, threshold)) by {
            assert forall|i: int| 0 <= i < p.len() implies a.contains(#[trigger] p[i]) by {
                assert(all.contains(pick[i]));
                let k = choose|k: int| 0 <= k < all.len() && all[k] == pick[i];
                assert(a[k] == p[i]);
            }
            assert forall|i: int, j: int| 0 <= i < j < p.len() implies (#[trigger] p[i]).0 != (
            #[trigger] p[j]).0 by {
                assert(pick[i].0 != pick[j].0);
            }
        }
        assert(recoverable(a, threshold, block_number(block(secret, b))));
        lemma_block_of(block(secret, b));
        let head = secret.subrange(
            0,
            if b == 0 {
                0
            } else {
                block_end(secret.len(), (b - 1) as nat)
            },
        );
        assert(head + block(secret, b) =~= secret.subrange(0, block_end(secret.len(), b)));
    }
}

fn copy_block(secret: &[u8], from: usize, to: usize) -> (r: Vec<u8>)
    requires
        from <= to <= secret@.len(),
    ensures
        r@ == seq![1u8] + secret@.subrange(from as int, to as int),
{
    let mut r: Vec<u8> = Vec::new();
    r.push(1);
    let mut i: usize = from;
    assert(r@ =~= seq![1u8] + secret@.subrange(from as int, from as int));
    while i < to
        invariant
            from <= i <= to <= secret@.len(),
            r@ == seq![1u8] + secret@.subrange(from as int, i as int),
        decreases to - i,
    {
        r.push(secret[i]);
        i += 1;
        assert(r@ =~= seq![1u8] + secret@.subrange(from as int, i as int));
    }
    r
}

/// Appends one block's values to the shares.
fn append_points(shares: &mut Vec<ShareBytes>, points: &Vec<(usize, Vec<u8>)>, Ghost(b): Ghost<nat>)
    requires
        old(shares)@.len() == points@.len(),
        old(shares)@.len() <= u32::MAX,
        forall|i: int|
            0 <= i < old(shares)@.len() ==> {
                &&& (#[trigger] old(shares)@[i]).id == i + 1
                &&& old(shares)@[i].data@.len() == 32 * b
            },
        forall|i: int|
            0 <= i < points@.len() ==> {
                &&& (#[trigger] points@[i]).0 == i + 1
                &&& points@[i].1@.len() <= 32
            },
    ensures
        final(shares)@.len() == old(shares)@.len(),
        forall|i: int|
            0 <= i < old(shares)@.len() ==> {
                &&& (#[trigger] final(shares)@[i]).id == i + 1
                &&& final(shares)@[i].data@.len() == 32 * (b + 1)
                &&& final(shares)@[i].data@.subrange(0, 32 * b as int) == old(shares)@[i].data@
            },
        block_points(share_views(final(shares)@), b) == points_of(points@),
{
    let ghost before = shares@;
    let mut i: usize = 0;
    while i < points.len()
        invariant
            i <= points@.len(),
            shares@.len() == points@.len(),
            before.len() == points@.len(),
            forall|j: int|
                0 <= j < points@.len() ==> {
                    &&& (#[trigger] points@[j]).0 == j + 1
                    &&& points@[j].1@.len() <= 32
                },
            forall|j: int|
                0 <= j < before.len() ==> {
                    &&& (#[trigger] before[j]).id == j + 1
                    &&& before[j].data@.len() == 32 * b
                },
            forall|j: int|
                0 <= j < i ==> {
                    &&& (#[trigger] shares@[j]).id == j + 1
                    &&& shares@[j].data@.len() == 32 * (b + 1)
                    &&& shares@[j].data@.subrange(0, 32 * b as int) == before[j].data@
                    &&& be_value(shares@[j].data@.subrange(32 * b as int, 32 * b + 32 as int)) == be_value(
                        points@[j].1@,
                    )
                },
            forall|j: int| i <= j < shares@.len() ==> #[trigger] shares@[j] == before[j],
        decreases points@.len() - i,
    {
        assert(shares@[i as int] == before[i as int]);
        assert(points@[i as int].1@.len() <= 32);
        let s = &mut shares[i];
        push_padded(&mut s.data, &points[i].1);
        i += 1;
    }
    assert(block_points(share_views(shares@), b) =~= points_of(points@));
}

/// Shares a secret among `share_amount` places, so that any `threshold` of the
/// shares give it back.
pub fn share(secret: &[u8], threshold: usize, share_amount: usize) -> (shares: Vec<ShareBytes>)
    requires
        1 <= threshold < share_amount <= u32::MAX,
    ensures
        shares@.len() == share_amount,
        forall|i: int|
            0 <= i < shares@.len() ==> {
                &&& (#[trigger] shares@[i]).id == i + 1
                &&& shares@[i].data@.len() == 32 * block_count(secret@.len())
            },
        shares_recover(share_views(shares@), threshold as nat, secret@),
{
    let prime = field_prime();
    let mut shares: Vec<ShareBytes> = Vec::new();
    let mut i: usize = 0;
    while i < share_amount
        invariant
            i <= share_amount <= u32::MAX,
            shares@.len() == i,
            forall|j: int|
                0 <= j < i ==> {
                    &&& (#[trigger] shares@[j]).id == j + 1
                    &&& shares@[j].data@.len() == 0
                },
        decreases share_amount - i,
    {
        shares.push(ShareBytes { id: (i + 1) as u32, data: Vec::new() });
        i += 1;
    }
    let mut start: usize = 0;
    let ghost mut b: nat = 0;
    while start < secret.len()
        invariant
            1 <= threshold < share_amount <= u32::MAX,
            prime@ == field_prime_bytes(),
            start <= secret@.len(),
            shares@.len() == share_amount,
            b <= block_count(secret@.len()),
            start < secret@.len() ==> start == 31 * b,
            start == secret@.len() ==> b == block_count(secret@.len()),
            forall|j: int|
                0 <= j < share_amount ==> {
                    &&& (#[trigger] shares@[j]).id == j + 1
                    &&& shares@[j].data@.len() == 32 * b
                },
            forall|c: nat|
                c < b ==> #[trigger] recoverable(
                    block_points(share_views(shares@), c),
                    threshold as nat,
                    block_number(block(secret@, c)),
                ),
        decreases secret@.len() - start,
    {
        let end: usize = if secret.len() - start > BLOCK_BYTES {
            start + BLOCK_BYTES
        } else {
            secret.len()
        };
        let number = copy_block(secret, start, end);
        assert(number@ == seq![1u8] + block(secret@, b));
        let points = shamir_split(threshold, share_amount, &prime, &number);
        let ghost before = share_views(shares@);
        append_points(&mut shares, &points, Ghost(b));
        proof {
            let after = share_views(shares@);
            assert forall|c: nat| c < b + 1 implies #[trigger] recoverable(
                block_points(after, c),
                threshold as nat,
                block_number(block(secret@, c)),
            ) by {
                if c < b {
                    assert forall|j: int| 0 <= j < after.len() implies block_point(after[j], c)
                        == block_point(before[j], c) by {
                        let d = shares@[j].data@;
                        assert(d.subrange(0, 32 * b as int) == before[j].1);
                        assert(d.subrange(32 * c as int, 32 * c + 32 as int) =~= d.subrange(
                            0,
                            32 * b as int,
                        ).subrange(32 * c as int, 32 * c + 32 as int));
                    }
                    assert(block_points(after, c) =~= block_points(before, c));
                    assert(recoverable(
                        block_points(before, c),
                        threshold as nat,
                        block_number(block(secret@, c)),
                    ));
                }
            }
            b = b + 1;
        }
        start = end;
    }
    proof {
        let all = share_views(shares@);
        assert(b == block_count(secret@.len()));
        assert forall|pick: Seq<ShareView>| #[trigger]
            share_selection(pick, all, threshold as nat) implies recovered_secret(pick) == Some(
            secret@,
        ) by {
            lemma_blocks_recover(pick, all, threshold as nat, secret@, b);
            assert forall|j: int| 0 <= j < pick.len() implies (#[trigger] pick[j]).1.len() == 32
                * b by {
                assert(all.contains(pick[j]));
                let k = choose|k: int| 0 <= k < all.len() && all[k] == pick[j];
                assert(all[k].1 == shares@[k].data@);
            }
            assert(pick[0].1.len() == 32 * b);
            assert(secret@.subrange(0, secret@.len() as int) =~= secret@);
            if b == 0 {
                assert(secret@.len() == 0);
            }
        }
    }
    shares
}

/// Whether shares can be put together.
pub fn check_compatible(shares: &Vec<ShareBytes>) -> (ok: bool)
    ensures
        ok == compatible(share_views(shares@)),
{
    let ghost views = share_views(shares@);
    if shares.len() == 0 {
        return false;
    }
    assert(views[0].1 == shares@[0].data@);
    if shares[0].data.len() % SHARE_BYTES != 0 {
        return false;
    }
    let mut i: usize = 0;
    while i < shares.len()
        invariant
            i <= shares@.len(),
            shares@.len() > 0,
            views == share_views(shares@),
            forall|a: int| 0 <= a < i ==> (#[trigger] views[a]).1.len() == views[0].1.len(),
            forall|a: int, c: int|
                0 <= a < c < i ==> (#[trigger] views[a]).0 != (#[trigger] views[c]).0,
        decreases shares@.len() - i,
    {
        assert(views[i as int].1 == shares@[i as int].data@);
        assert(views[0].1 == shares@[0].data@);
        if shares[i].data.len() != shares[0].data.len() {
            return false;
        }
        let mut j: usize = 0;
        while j < i
            invariant
                j <= i < shares@.len(),
                views == share_views(shares@),
                forall|a: int| 0 <= a < j ==> (#[trigger] views[a]).0 != views[i as int].0,
            decreases i - j,
        {
            if shares[j].id == shares[i].id {
                assert(views[j as int].0 == views[i as int].0);
                return false;
            }
            assert(views[j as int].0 != views[i as int].0);
            j += 1;
        }
        i += 1;
    }
    true
}

fn collect_points(shares: &Vec<ShareBytes>, from: usize, Ghost(b): Ghost<nat>) -> (points: Vec<
    (usize, Vec<u8>),
>)
    requires
        from == 32 * b,
        forall|i: int|
            0 <= i < shares@.len() ==> (#[trigger] shares@[i]).data@.len() >= 32 * (b + 1),
    ensures
        points@.len() == shares@.len(),
        points_of(points@) == block_points(share_views(shares@), b),
{
    let mut points: Vec<(usize, Vec<u8>)> = Vec::new();
    let mut i: usize = 0;
    while i < shares.len()
        invariant
            i <= shares@.len(),
            from == 32 * b,
            points@.len() == i,
            forall|j: int|
                0 <= j < shares@.len() ==> (#[trigger] shares@[j]).data@.len() >= 32 * (b + 1),
            forall|j: int|
                0 <= j < i ==> {
                    &&& (#[trigger] points@[j]).0 == shares@[j].id
                    &&& points@[j].1@ == shares@[j].data@.subrange(32 * b as int, 32 * b + 32 as int)
                },
        decreases shares@.len() - i,
    {
        assert(shares@[i as int].data@.len() >= 32 * (b + 1));
        let mut y: Vec<u8> = Vec::new();
        let mut j: usize = 0;
        while j < SHARE_BYTES
            invariant
                j <= SHARE_BYTES,
                i < shares@.len(),
                from == 32 * b,
                shares@[i as int].data@.len() >= 32 * (b + 1),
                y@ == shares@[i as int].data@.subrange(32 * b as int, 32 * b + j),
            decreases SHARE_BYTES - j,
        {
            y.push(shares[i].data[from + j]);
            j += 1;
            assert(y@ =~= shares@[i as int].data@.subrange(32 * b as int, 32 * b + j));
        }
        points.push((shares[i].id as usize, y));
        i += 1;
    }
    assert(points_of(points@) =~= block_points(share_views(shares@), b));
    points
}

/// The secret that some shares give back: `None` where they cannot be put
/// together, or where a block of what they give is not one of a secret.
pub fn recover(shares: &Vec<ShareBytes>) -> (secret: Option<Vec<u8>>)
    ensures
        secret is Some <==> recovered_secret(share_views(shares@)) is Some,
        secret is Some ==> Some(secret->0@) == recovered_secret(share_views(shares@)),
{
    let ghost views = share_views(shares@);
    if !check_compatible(shares) {
        return None;
    }
    let prime = field_prime();
    assert(views[0].1 == shares@[0].data@);
    let len: usize = shares[0].data.len();
    let mut secret: Vec<u8> = Vec::new();
    let mut from: usize = 0;
    let ghost mut b: nat = 0;
    while from < len
        invariant
            from == 32 * b,
            from <= len,
            len % 32 == 0,
            len == views[0].1.len(),
            compatible(views),
            views == share_views(shares@),
            prime@ == field_prime_bytes(),
            recovered_blocks(views, b) == Some(secret@),
        decreases len - from,
    {
        assert forall|i: int| 0 <= i < shares@.len() implies (#[trigger] shares@[i]).data@.len()
            >= 32 * (b + 1) by {
            assert(views[i].1 == shares@[i].data@);
        }
        let points = collect_points(shares, from, Ghost(b));
        let number = shamir_recover(shares.len(), &prime, &points);
        let ghost n = shamir_recovered(be_value(field_prime_bytes()), block_points(views, b));
        if number.len() > SHARE_BYTES || number[0] != 1 {
            proof {
                if block_of(n) is Some {
                    let s = block_of(n)->0;
                    assert(block_number(s) == n);
                    let t = seq![1u8] + s;
                    lemma_be_range(t);
                    lemma_pow_positive(256, s.len());
                    assert(t[0] == 1 && t.len() - 1 == s.len());
                    if number@[0] == 0 {
                        assert(number@.len() == 1);
                        assert(number@.drop_last() =~= Seq::<u8>::empty());
                        assert(be_value(Seq::<u8>::empty()) == 0);
                        assert(be_value(number@) == 0);
                    } else {
                        be_value_is_injective(number@, t);
                        assert(number@[0] == t[0]);
                    }
                    assert(block_of(n) is None);
                }
                assert(recovered_blocks(views, (b + 1) as nat) is None);
                lemma_recovered_prefix(views, (b + 1) as nat, (len / 32) as nat);
            }
            return None;
        }
        let ghost head = secret@;
        let ghost tail = number@.subrange(1, number@.len() as int);
        proof {
            assert(seq![1u8] + tail =~= number@);
            lemma_block_of(tail);
        }
        let mut i: usize = 1;
        assert(number@.subrange(1, 1) =~= Seq::<u8>::empty());
        assert(secret@ =~= head + number@.subrange(1, 1));
        while i < number.len()
            invariant
                1 <= i <= number@.len(),
                secret@ == head + number@.subrange(1, i as int),
            decreases number@.len() - i,
        {
            secret.push(number[i]);
            i += 1;
            assert(secret@ =~= head + number@.subrange(1, i as int));
        }
        proof {
            b = b + 1;
        }
        from = from + SHARE_BYTES;
    }
    Some(secret)
}

/// What cannot be recovered in part cannot be recovered as a whole.
proof fn lemma_recovered_prefix(shares: Seq<ShareView>, few: nat, many: nat)
    requires
        few <= many,
        recovered_blocks(shares, few) is None,
    ensures
        recovered_blocks(shares, many) is None,
    decreases many,
{
    if few < many {
        lemma_recovered_prefix(shares, few, (many - 1) as nat);
    }
}

/// Blocks hold every byte of a secret once, in its order: thirty-one in each but the last,
/// which holds what is left.
pub proof fn blocks_hold_the_secret(secret: Seq<u8>, i: int)
    requires
        0 <= i < secret.len(),
    ensures
        ({
            let b = (i / 31) as nat;
            &&& b < block_count(secret.len())
            &&& i % 31 < block(secret, b).len()
            &&& block(secret, b)[i % 31] == secret[i]
        }),
        forall|b: nat|
            b < block_count(secret.len()) ==> 1 <= (#[trigger] block(secret, b)).len() <= 31,
        forall|b: nat|
            b + 1 < block_count(secret.len()) ==> (#[trigger] block(secret, b)).len() == 31,
        block_count(0) == 0,
{
    assert forall|b: nat| b < block_count(secret.len()) implies 1 <= (#[trigger] block(
        secret,
        b,
    )).len() <= 31 by {}
    assert forall|b: nat| b + 1 < block_count(secret.len()) implies (#[trigger] block(
        secret,
        b,
    )).len() == 31 by {}
}

/// Different blocks stand for different numbers, also where one is longer by zeros in
/// front.
pub proof fn blocks_have_numbers_of_their_own(a: Seq<u8>, b: Seq<u8>)
    requires
        block_number(a) == block_number(b),
    ensures
        a == b,
{
    be_value_is_injective(seq![1u8] + a, seq![1u8] + b);
    let s = seq![1u8] + a;
    let t = seq![1u8] + b;
    assert(s == t);
    assert(a =~= s.subrange(1, s.len() as int));
    assert(b =~= t.subrange(1, t.len() as int));
}

proof fn lemma_ones(n: nat)
    ensures
        be_value(Seq::new(n, |i: int| 0xffu8)) == pow(256, n) - 1,
    decreases n,
{
    reveal(pow);
    let s = Seq::new(n, |i: int| 0xffu8);
    if n > 0 {
        lemma_ones((n - 1) as nat);
        assert(s.drop_last() =~= Seq::new((n - 1) as nat, |i: int| 0xffu8));
        assert(pow(256, n) == 256 * pow(256, (n - 1) as nat));
    }
}

/// The prime of the field is that of secp256k1: the 32nd power of 256, less the fourth
/// power, less 977.
pub proof fn field_is_that_of_secp256k1()
    ensures
        be_value(field_prime_bytes()) == pow(256, 32) - pow(256, 4) - 977,
{
    reveal(pow);
    let s = field_prime_bytes();
    let p = pow(256, 27);
    lemma_ones(27);
    assert(pow(256, 28) == 256 * p);
    assert(pow(256, 29) == 256 * pow(256, 28));
    assert(pow(256, 30) == 256 * pow(256, 29));
    assert(pow(256, 31) == 256 * pow(256, 30));
    assert(pow(256, 32) == 256 * pow(256, 31));
    assert(pow(256, 0) == 1);
    assert(pow(256, 1) == 256 * pow(256, 0));
    assert(pow(256, 2) == 256 * pow(256, 1));
    assert(pow(256, 3) == 256 * pow(256, 2));
    assert(pow(256, 4) == 256 * pow(256, 3));
    let s1 = s.drop_last();
    let s2 = s1.drop_last();
    let s3 = s2.drop_last();
    let s4 = s3.drop_last();
    let s5 = s4.drop_last();
    assert(s.len() == 32);
    assert(s.last() == 0x2f && s1.last() == 0xfc && s2.last() == 0xff && s3.last() == 0xff
        && s4.last() == 0xfe);
    assert(s5 =~= Seq::new(27, |i: int| 0xffu8));
    assert(be_value(s5) == p - 1);
    assert(be_value(s4) == 256 * be_value(s5) + 0xfe);
    assert(be_value(s3) == 256 * be_value(s4) + 0xff);
    assert(be_value(s2) == 256 * be_value(s3) + 0xff);
    assert(be_value(s1) == 256 * be_value(s2) + 0xfc);
    assert(be_value(s) == 256 * be_value(s1) + 0x2f);
}

/// Shares are put together only where there are some, all of them of one length in whole
/// blocks, and no two at the same place; a share that is given twice gives nothing back.
pub proof fn shares_have_to_fit(shares: Seq<ShareView>, i: int, j: int)
    requires
        0 <= i < j < shares.len(),
    ensures
        shares[i].0 == shares[j].0 ==> recovered_secret(shares) is None,
        shares[i].1.len() != shares[j].1.len() ==> recovered_secret(shares) is None,
        shares[i].1.len() % 32 != 0 ==> recovered_secret(shares) is None,
        recovered_secret(Seq::empty()) is None,
{
    if compatible(shares) {
        assert(shares[i].1.len() == shares[0].1.len());
        assert(shares[j].1.len() == shares[0].1.len());
    }
}

/// Any so many of the shares, in any order and whichever they are, give back one secret:
/// two such choices never disagree.
pub proof fn all_choices_agree(
    all: Seq<ShareView>,
    threshold: nat,
    secret: Seq<u8>,
    a: Seq<ShareView>,
    b: Seq<ShareView>,
)
    requires
        shares_recover(all, threshold, secret),
        share_selection(a, all, threshold),
        share_selection(b, all, threshold),
    ensures
        recovered_secret(a) == Some(secret),
        recovered_secret(a) == recovered_secret(b),
{
}

} // verus!
