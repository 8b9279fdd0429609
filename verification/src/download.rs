//! The hash-verification contract of a download.
//!
//! Transport is the caller's business: it streams the bytes beside the
//! final name and computes their digest with the algorithm the catalog
//! named. This module owns the decision: keep the file under its final
//! name, or discard it.

use vstd::prelude::*;
use crate::resolver::str_eql;

verus! {

/// Why a fetch failed.
#[derive(Clone, Copy, Debug, PartialEq, Eq, Structural)]
pub enum FetchError {
    /// The written bytes hash to something other than the digest the
    /// catalog promised; the file was discarded.
    HashMismatch,
    /// The bytes could not be obtained at all.
    TransportError,
}

/// The digest of the written bytes equals, byte for byte, the digest
/// the catalog promised.
pub open spec fn digest_matches(expected: Seq<char>, computed: Seq<char>) -> bool {
    expected == computed
}

/// What to do with a completed download.
#[derive(Clone, Copy, Debug, PartialEq, Eq, Structural)]
pub enum FetchDecision {
    /// Move the file to its final name.
    Keep,
    /// Delete the file; it must never appear under its final name.
    Discard,
}

/// Decide a completed download: keep exactly when the computed digest
/// equals the expected one, discard otherwise. A corrupt artifact is
/// never kept.
pub fn verify_download(expected: &str, computed: &str) -> (r: FetchDecision)
    ensures
        (r == FetchDecision::Keep) == digest_matches(expected@, computed@),
        (r == FetchDecision::Discard) == !digest_matches(expected@, computed@),
{
    if str_eql(expected, computed) {
        FetchDecision::Keep
    } else {
        FetchDecision::Discard
    }
}

/// The raw SHA-512 digest of a byte string. The digest depends on
/// the bytes alone, so the name stands for one value per byte string
/// on every machine.
pub uninterp spec fn sha512_of(bytes: Seq<u8>) -> Seq<u8>;

/// Relies on sha2's Sha512: the raw digest of the given bytes. A
/// function of the bytes alone.
#[verifier::external_body]
fn sha512_bytes(bytes: &Vec<u8>) -> (r: Vec<u8>)
    ensures
        r@ == sha512_of(bytes@),
{
    <sha2::Sha512 as sha2::Digest>::digest(bytes.as_slice()).to_vec()
}

/// The sixteen hexadecimal digit characters, lower case.
pub open spec fn hex_digit_char(d: nat) -> char {
    if d == 0 {
        '0'
    } else if d == 1 {
        '1'
    } else if d == 2 {
        '2'
    } else if d == 3 {
        '3'
    } else if d == 4 {
        '4'
    } else if d == 5 {
        '5'
    } else if d == 6 {
        '6'
    } else if d == 7 {
        '7'
    } else if d == 8 {
        '8'
    } else if d == 9 {
        '9'
    } else if d == 10 {
        'a'
    } else if d == 11 {
        'b'
    } else if d == 12 {
        'c'
    } else if d == 13 {
        'd'
    } else if d == 14 {
        'e'
    } else {
        'f'
    }
}

/// Lower-case hex spelling of a byte string: two digits per byte,
/// high nibble first.
pub open spec fn hex_of(bs: Seq<u8>) -> Seq<char>
    decreases bs.len(),
{
    if bs.len() == 0 {
        Seq::empty()
    } else {
        hex_of(bs.drop_last()) + seq![
            hex_digit_char((bs.last() / 16) as nat),
            hex_digit_char((bs.last() % 16) as nat),
        ]
    }
}

fn hex_digit_str(d: u8) -> (r: &'static str)
    requires
        d < 16,
    ensures
        r@ == seq![hex_digit_char(d as nat)],
{
    proof {
        reveal_strlit("0");
        reveal_strlit("1");
        reveal_strlit("2");
        reveal_strlit("3");
        reveal_strlit("4");
        reveal_strlit("5");
        reveal_strlit("6");
        reveal_strlit("7");
        reveal_strlit("8");
        reveal_strlit("9");
        reveal_strlit("a");
        reveal_strlit("b");
        reveal_strlit("c");
        reveal_strlit("d");
        reveal_strlit("e");
        reveal_strlit("f");
        assert("0"@ =~= seq!['0']);
        assert("1"@ =~= seq!['1']);
        assert("2"@ =~= seq!['2']);
        assert("3"@ =~= seq!['3']);
        assert("4"@ =~= seq!['4']);
        assert("5"@ =~= seq!['5']);
        assert("6"@ =~= seq!['6']);
        assert("7"@ =~= seq!['7']);
        assert("8"@ =~= seq!['8']);
        assert("9"@ =~= seq!['9']);
        assert("a"@ =~= seq!['a']);
        assert("b"@ =~= seq!['b']);
        assert("c"@ =~= seq!['c']);
        assert("d"@ =~= seq!['d']);
        assert("e"@ =~= seq!['e']);
        assert("f"@ =~= seq!['f']);
    }
    if d == 0 {
        "0"
    } else if d == 1 {
        "1"
    } else if d == 2 {
        "2"
    } else if d == 3 {
        "3"
    } else if d == 4 {
        "4"
    } else if d == 5 {
        "5"
    } else if d == 6 {
        "6"
    } else if d == 7 {
        "7"
    } else if d == 8 {
        "8"
    } else if d == 9 {
        "9"
    } else if d == 10 {
        "a"
    } else if d == 11 {
        "b"
    } else if d == 12 {
        "c"
    } else if d == 13 {
        "d"
    } else if d == 14 {
        "e"
    } else {
        "f"
    }
}

/// Spell a byte string as lower-case hex.
pub fn to_hex(bs: &Vec<u8>) -> (r: String)
    ensures
        r@ == hex_of(bs@),
{
    let mut out = String::new();
    let mut i: usize = 0;
    proof {
        assert(bs@.take(0) =~= Seq::<u8>::empty());
    }
    while i < bs.len()
        invariant
            i <= bs.len(),
            out@ == hex_of(bs@.take(i as int)),
        decreases bs.len() - i,
    {
        let b = bs[i];
        out.append(hex_digit_str(b / 16));
        out.append(hex_digit_str(b % 16));
        proof {
            let cur = bs@.take(i + 1);
            assert(cur.drop_last() =~= bs@.take(i as int));
            assert(cur.last() == bs@[i as int]);
            assert(out@ =~= hex_of(cur));
        }
        i = i + 1;
    }
    proof {
        assert(bs@.take(bs@.len() as int) =~= bs@);
    }
    out
}

/// Decide a completed download from its raw bytes: compute the digest
/// of the written bytes and keep the file exactly when it matches the
/// digest the catalog promised.
pub fn fetch_verified_decision(expected: &str, bytes: &Vec<u8>) -> (r: FetchDecision)
    ensures
        (r == FetchDecision::Keep) == digest_matches(expected@, hex_of(sha512_of(bytes@))),
        (r == FetchDecision::Discard) == !digest_matches(expected@, hex_of(sha512_of(bytes@))),
{
    let digest = sha512_bytes(bytes);
    let computed = to_hex(&digest);
    verify_download(expected, computed.as_str())
}

/// Fetch verification is idempotent in outcome: two downloads against
/// the same expected digest that produce byte-identical files are
/// decided identically — both kept or both discarded. (Whether two
/// transfers of one URL produce identical bytes is up to the server;
/// the decision itself adds no variation.)
pub proof fn lemma_fetch_deterministic(e: Seq<char>, c1: Seq<char>, c2: Seq<char>)
    requires
        c1 == c2,
    ensures
        digest_matches(e, c1) == digest_matches(e, c2),
{
}

/// A corrupted write never survives: a digest other than the promised
/// one is never a match, so the decision for it is `Discard`.
pub proof fn lemma_corrupt_never_kept(e: Seq<char>, c: Seq<char>)
    requires
        c != e,
    ensures
        !digest_matches(e, c),
{
}

} // verus!
