//! The fixed record that every benchmark entry point encodes.

use vstd::prelude::*;
use vstd::arithmetic::power2::{pow2, lemma_pow2_adds, lemma_pow2_subtracts, lemma_pow2_pos, lemma2_to64};
use crate::record::{entries_map, keys_unique};

verus! {

/// `bits` is the IEEE-754 double-precision encoding of the rational `n / 2`:
/// zero for zero, otherwise a positive normal number whose significand
/// `1.f` times two to the unbiased exponent equals `n / 2`.
pub open spec fn encodes_half(bits: u64, n: nat) -> bool {
    if n == 0 {
        bits == 0
    } else {
        let e = bits as nat / pow2(52);
        let f = bits as nat % pow2(52);
        bits < pow2(63) && 1 <= e <= 2046 && (pow2(52) + f) * pow2(e) == n * pow2(1074)
    }
}

/// The bit pattern of the double `n / 2`.
pub fn half_bits(n: u64) -> (r: u64)
    requires
        n < 4096,
    ensures
        encodes_half(r, n as nat),
{
    if n == 0 {
        return 0;
    }
    proof {
        lemma2_to64();
    }
    let mut p: u64 = 1;
    let mut k: u64 = 0;
    while p * 2 <= n
        invariant
            1 <= p <= n < 4096,
            k <= 11,
            p == pow2(k as nat),
        decreases n - p,
    {
        proof {
            lemma2_to64();
            lemma_pow2_adds(k as nat, 1);
            if k >= 11 {
                lemma_pow2_adds((k - 11) as nat, 11);
                lemma_pow2_pos((k - 11) as nat);
                assert(pow2(11) == 2048) by { lemma2_to64(); }
                assert(p >= 2048) by (nonlinear_arith)
                    requires p == pow2((k - 11) as nat) * 2048, pow2((k - 11) as nat) > 0;
            }
        }
        p = p * 2;
        k = k + 1;
    }
    let two52: u64 = 0x10_0000_0000_0000;
    proof {
        assert(pow2(52) == 0x10_0000_0000_0000) by {
            lemma_pow2_adds(32, 20);
            lemma2_to64();
        }
        lemma_pow2_subtracts(k as nat, 52);
        lemma_pow2_adds(k as nat, (52 - k) as nat);
    }
    let q: u64 = two52 / p;
    assert(q == pow2((52 - k) as nat));
    assert(p * q == two52);
    assert((n - p) * q < two52) by (nonlinear_arith)
        requires n - p < p, p * q == two52, q > 0;
    let f: u64 = (n - p) * q;
    let e: u64 = 1022 + k;
    assert(e * two52 + f < 0x8000_0000_0000_0000) by (nonlinear_arith)
        requires e <= 1033, f < two52, two52 == 0x10_0000_0000_0000;
    let r: u64 = e * two52 + f;
    proof {
        assert(r as nat / pow2(52) == e && r as nat % pow2(52) == f) by (nonlinear_arith)
            requires r == e * two52 + f, f < two52, two52 == pow2(52), two52 > 0;
        assert(pow2(63) == 0x8000_0000_0000_0000) by {
            lemma_pow2_adds(32, 31);
            lemma2_to64();
        }
        assert(two52 + f == n * q) by (nonlinear_arith)
            requires p * q == two52, f == (n - p) * q, n >= p;
        lemma_pow2_adds((52 - k) as nat, e as nat);
        assert((52 - k) + e == 1074);
        assert((two52 + f) * pow2(e as nat) == n * (q * pow2(e as nat))) by (nonlinear_arith)
            requires two52 + f == n * q;
    }
    r
}

/// The fixture's metadata mapping.
pub open spec fn fixture_metadata() -> Map<Seq<char>, Seq<char>> {
    Map::empty().insert("version"@, "1.0"@).insert("type"@, "benchmark"@)
}

/// The benchmark fixture: id 12345, name "test_data", a thousand values with
/// value `i` equal to `i * 1.5`, metadata {"version": "1.0", "type":
/// "benchmark"}, timestamp 1640995200.
pub fn create_test_data() -> (r: (u64, String, Vec<u64>, Vec<(String, String)>, i64))
    ensures
        r.0 == 12345,
        r.1@ == "test_data"@,
        r.2@.len() == 1000,
        forall|i: int| 0 <= i < 1000 ==> encodes_half(#[trigger] r.2@[i], (3 * i) as nat),
        keys_unique(r.3@),
        entries_map(r.3@) == fixture_metadata(),
        r.4 == 1640995200,
{
    let mut values: Vec<u64> = Vec::new();
    let mut i: u64 = 0;
    while i < 1000
        invariant
            i <= 1000,
            values@.len() == i,
            forall|j: int| 0 <= j < i ==> encodes_half(#[trigger] values@[j], (3 * j) as nat),
        decreases 1000 - i,
    {
        values.push(half_bits(3 * i));
        i = i + 1;
    }
    let mut metadata: Vec<(String, String)> = Vec::new();
    metadata.push((String::from_str("version"), String::from_str("1.0")));
    metadata.push((String::from_str("type"), String::from_str("benchmark")));
    proof {
        reveal_strlit("version");
        reveal_strlit("type");
        assert("version"@ != "type"@) by {
            assert("version"@.len() != "type"@.len());
        }
        assert(metadata@.drop_last().drop_last() =~= Seq::<(String, String)>::empty());
        assert(entries_map(metadata@.drop_last().drop_last()) == Map::<Seq<char>, Seq<char>>::empty());
        assert(entries_map(metadata@.drop_last())
            == Map::<Seq<char>, Seq<char>>::empty().insert("version"@, "1.0"@));
        assert(entries_map(metadata@) == fixture_metadata());
    }
    (12345, String::from_str("test_data"), values, metadata, 1640995200)
}

} // verus!
