//! Mixed-radix value encoding: a block's concrete property-value combination
//! maps to a dense non-negative integer, the last property being the
//! fastest-varying digit. The encoding is a bijection between the Cartesian
//! product of the property domains and the range below the product of their
//! cardinalities.

use vstd::prelude::*;
use vstd::arithmetic::div_mod::lemma_fundamental_div_mod;
use vstd::arithmetic::div_mod::lemma_fundamental_div_mod_converse_div;
use vstd::arithmetic::div_mod::lemma_fundamental_div_mod_converse_mod;
use vstd::arithmetic::div_mod::lemma_mod_division_less_than_divisor;
use vstd::arithmetic::div_mod::lemma_multiply_divide_lt;
use vstd::arithmetic::div_mod::lemma_div_pos_is_pos;
use vstd::arithmetic::mul::lemma_mul_inequality;
use vstd::arithmetic::mul::lemma_mul_nonnegative;

verus! {

/// The cardinalities as mathematical integers.
pub open spec fn card_seq(s: Seq<usize>) -> Seq<int> {
    s.map_values(|x: usize| x as int)
}

/// Product of a sequence of cardinalities.
pub open spec fn product_of(cards: Seq<int>) -> int
    decreases cards.len(),
{
    if cards.len() == 0 {
        1
    } else {
        cards[0] * product_of(cards.skip(1))
    }
}

/// Every domain is non-empty.
pub open spec fn valid_cards(cards: Seq<int>) -> bool {
    forall|i: int| 0 <= i < cards.len() ==> cards[i] >= 1
}

/// Each rank lies within its domain.
pub open spec fn valid_ranks(ranks: Seq<int>, cards: Seq<int>) -> bool {
    &&& ranks.len() == cards.len()
    &&& forall|i: int| 0 <= i < ranks.len() ==> 0 <= #[trigger] ranks[i] < cards[i]
}

/// The mixed-radix encoding of a rank tuple: each rank is weighted by the
/// product of the cardinalities of all later properties, so the last
/// property has multiplier 1.
pub open spec fn mixed_radix(ranks: Seq<int>, cards: Seq<int>) -> int
    decreases ranks.len(),
{
    if ranks.len() == 0 {
        0
    } else {
        ranks[0] * product_of(cards.skip(1)) + mixed_radix(ranks.skip(1), cards.skip(1))
    }
}

/// The rank tuple encoded by an integer: the definitional inverse of
/// `mixed_radix`, peeling off the most significant digit first.
pub open spec fn decode_radix(v: int, cards: Seq<int>) -> Seq<int>
    decreases cards.len(),
{
    if cards.len() == 0 {
        Seq::<int>::empty()
    } else {
        seq![v / product_of(cards.skip(1))] + decode_radix(
            v % product_of(cards.skip(1)),
            cards.skip(1),
        )
    }
}

/// A product of non-empty domains is positive.
pub proof fn lemma_product_pos(cards: Seq<int>)
    requires
        valid_cards(cards),
    ensures
        product_of(cards) >= 1,
    decreases cards.len(),
{
    if cards.len() > 0 {
        assert(valid_cards(cards.skip(1)));
        lemma_product_pos(cards.skip(1));
        lemma_mul_inequality(1, cards[0], product_of(cards.skip(1)));
    }
}

/// A suffix of the cardinalities divides the whole product, so its product
/// is no larger when every domain is non-empty.
pub proof fn lemma_product_suffix_le(cards: Seq<int>, i: int)
    requires
        valid_cards(cards),
        0 <= i <= cards.len(),
    ensures
        product_of(cards.skip(i)) >= 1,
        product_of(cards.skip(i)) <= product_of(cards),
    decreases i,
{
    assert(valid_cards(cards.skip(i)));
    lemma_product_pos(cards.skip(i));
    if i == 0 {
        assert(cards.skip(0) =~= cards);
    }
    if i > 0 {
        assert(cards.skip(1).skip(i - 1) =~= cards.skip(i));
        assert(valid_cards(cards.skip(1)));
        lemma_product_suffix_le(cards.skip(1), i - 1);
        lemma_product_pos(cards.skip(1));
        lemma_mul_inequality(1, cards[0], product_of(cards.skip(1)));
        assert(cards[0] * product_of(cards.skip(1)) >= 1 * product_of(cards.skip(1)))
            by (nonlinear_arith)
            requires
                cards[0] >= 1,
                product_of(cards.skip(1)) >= 1,
        ;
    }
}

/// The encoding of any valid rank tuple lies in the dense range below the
/// product of the cardinalities.
pub proof fn lemma_mixed_radix_range(ranks: Seq<int>, cards: Seq<int>)
    requires
        valid_cards(cards),
        valid_ranks(ranks, cards),
    ensures
        0 <= mixed_radix(ranks, cards) < product_of(cards),
    decreases ranks.len(),
{
    if ranks.len() == 0 {
    } else {
        let p = product_of(cards.skip(1));
        assert(valid_cards(cards.skip(1)));
        assert(valid_ranks(ranks.skip(1), cards.skip(1)));
        lemma_mixed_radix_range(ranks.skip(1), cards.skip(1));
        lemma_product_pos(cards.skip(1));
        lemma_mul_nonnegative(ranks[0], p);
        lemma_mul_inequality(ranks[0], cards[0] - 1, p);
        assert((cards[0] - 1) * p + p == cards[0] * p) by (nonlinear_arith);
    }
}

/// Decoding inverts encoding: the decode of an encoded valid rank tuple is
/// that tuple, so the encoding never maps two combinations to one integer.
pub proof fn lemma_decode_of_encode(ranks: Seq<int>, cards: Seq<int>)
    requires
        valid_cards(cards),
        valid_ranks(ranks, cards),
    ensures
        decode_radix(mixed_radix(ranks, cards), cards) =~= ranks,
    decreases ranks.len(),
{
    if ranks.len() == 0 {
    } else {
        let p = product_of(cards.skip(1));
        let rest = mixed_radix(ranks.skip(1), cards.skip(1));
        let v = mixed_radix(ranks, cards);
        assert(valid_cards(cards.skip(1)));
        assert(valid_ranks(ranks.skip(1), cards.skip(1)));
        lemma_mixed_radix_range(ranks.skip(1), cards.skip(1));
        lemma_product_pos(cards.skip(1));
        assert(v == ranks[0] * p + rest);
        lemma_fundamental_div_mod_converse_div(v, p, ranks[0], rest);
        lemma_fundamental_div_mod_converse_mod(v, p, ranks[0], rest);
        lemma_decode_of_encode(ranks.skip(1), cards.skip(1));
        assert(decode_radix(v, cards) =~= seq![ranks[0]] + ranks.skip(1));
    }
}

/// Encoding inverts decoding: every integer in the dense range is the
/// encoding of exactly the valid rank tuple it decodes to, so the encoding
/// covers the whole range.
pub proof fn lemma_encode_of_decode(v: int, cards: Seq<int>)
    requires
        valid_cards(cards),
        0 <= v < product_of(cards),
    ensures
        valid_ranks(decode_radix(v, cards), cards),
        mixed_radix(decode_radix(v, cards), cards) == v,
    decreases cards.len(),
{
    if cards.len() == 0 {
    } else {
        let p = product_of(cards.skip(1));
        assert(valid_cards(cards.skip(1)));
        lemma_product_pos(cards.skip(1));
        let q = v / p;
        let m = v % p;
        lemma_mod_division_less_than_divisor(v, p);
        lemma_div_pos_is_pos(v, p);
        assert(v < cards[0] * p);
        lemma_multiply_divide_lt(v, p, cards[0]);
        lemma_fundamental_div_mod(v, p);
        lemma_encode_of_decode(m, cards.skip(1));
        let r = decode_radix(v, cards);
        assert(r =~= seq![q] + decode_radix(m, cards.skip(1)));
        assert(r.skip(1) =~= decode_radix(m, cards.skip(1)));
        assert(mixed_radix(r, cards) == q * p + m);
    }
}

/// The encoding is injective over valid rank tuples.
pub proof fn lemma_encode_injective(r1: Seq<int>, r2: Seq<int>, cards: Seq<int>)
    requires
        valid_cards(cards),
        valid_ranks(r1, cards),
        valid_ranks(r2, cards),
        mixed_radix(r1, cards) == mixed_radix(r2, cards),
    ensures
        r1 =~= r2,
{
    lemma_decode_of_encode(r1, cards);
    lemma_decode_of_encode(r2, cards);
}

/// Product of the cardinalities from `start` on: the number of states the
/// remaining properties span, and the positional multiplier of the
/// property just before `start`.
pub fn slice_product(s: &[usize], start: usize) -> (p: usize)
    requires
        valid_cards(card_seq(s@)),
        start <= s@.len(),
        product_of(card_seq(s@)) <= usize::MAX,
    ensures
        p as int == product_of(card_seq(s@).skip(start as int)),
{
    let ghost cs = card_seq(s@);
    let n: usize = s.len();
    let mut acc: usize = 1;
    let mut i: usize = n;
    proof {
        assert(cs.skip(n as int) =~= Seq::<int>::empty());
    }
    while i > start
        invariant
            start <= i <= n,
            n == s@.len(),
            cs == card_seq(s@),
            valid_cards(cs),
            product_of(cs) <= usize::MAX,
            acc as int == product_of(cs.skip(i as int)),
        decreases i,
    {
        proof {
            assert(cs.skip(i - 1)[0] == cs[i - 1]);
            assert(cs.skip(i - 1).skip(1) =~= cs.skip(i as int));
            lemma_product_suffix_le(cs, i - 1);
            lemma_product_pos(cs.skip(i - 1));
        }
        acc = s[i - 1] * acc;
        i = i - 1;
    }
    acc
}

/// The positional multipliers for a list of domain cardinalities: entry `i`
/// is the product of all cardinalities after `i`, so the last entry is 1.
pub fn multipliers_of(cards: &Vec<usize>) -> (m: Vec<usize>)
    requires
        valid_cards(card_seq(cards@)),
        product_of(card_seq(cards@)) <= usize::MAX,
    ensures
        m@.len() == cards@.len(),
        forall|i: int|
            0 <= i < m@.len() ==> m@[i] as int == product_of(card_seq(cards@).skip(i + 1)),
{
    let ghost cs = card_seq(cards@);
    let n: usize = cards.len();
    let mut rev: Vec<usize> = Vec::new();
    let mut i: usize = n;
    while i > 0
        invariant
            0 <= i <= n,
            n == cards@.len(),
            cs == card_seq(cards@),
            valid_cards(cs),
            product_of(cs) <= usize::MAX,
            rev@.len() == n - i,
            forall|j: int| 0 <= j < rev@.len() ==> rev@[j] as int == product_of(cs.skip(n - j)),
        decreases i,
    {
        let p = slice_product(cards.as_slice(), i);
        rev.push(p);
        i = i - 1;
    }
    let mut m: Vec<usize> = Vec::new();
    let mut j: usize = 0;
    while j < n
        invariant
            0 <= j <= n,
            n == cards@.len(),
            cs == card_seq(cards@),
            rev@.len() == n,
            forall|k: int| 0 <= k < n ==> rev@[k] as int == product_of(cs.skip(n - k)),
            m@.len() == j,
            forall|k: int| 0 <= k < j ==> m@[k] as int == product_of(cs.skip(k + 1)),
        decreases n - j,
    {
        m.push(rev[n - 1 - j]);
        j = j + 1;
    }
    m
}

/// Encodes a concrete rank tuple against its cardinalities.
pub fn encode_ranks(ranks: &Vec<usize>, cards: &Vec<usize>) -> (v: usize)
    requires
        valid_cards(card_seq(cards@)),
        valid_ranks(card_seq(ranks@), card_seq(cards@)),
        product_of(card_seq(cards@)) <= usize::MAX,
    ensures
        v as int == mixed_radix(card_seq(ranks@), card_seq(cards@)),
        (v as int) < product_of(card_seq(cards@)),
{
    let ghost rs = card_seq(ranks@);
    let ghost cs = card_seq(cards@);
    proof {
        lemma_mixed_radix_range(rs, cs);
    }
    let mults = multipliers_of(cards);
    let n: usize = ranks.len();
    let mut acc: usize = 0;
    let mut i: usize = 0;
    proof {
        lemma_skip_zero(rs, cs);
    }
    while i < n
        invariant
            0 <= i <= n,
            n == ranks@.len(),
            rs == card_seq(ranks@),
            cs == card_seq(cards@),
            cards@.len() == n,
            mults@.len() == n,
            valid_cards(cs),
            valid_ranks(rs, cs),
            product_of(cs) <= usize::MAX,
            forall|k: int| 0 <= k < n ==> mults@[k] as int == product_of(cs.skip(k + 1)),
            acc as int + mixed_radix(rs.skip(i as int), cs.skip(i as int)) == mixed_radix(rs, cs),
            0 <= acc as int <= mixed_radix(rs, cs),
        decreases n - i,
    {
        proof {
            assert(rs.skip(i as int)[0] == rs[i as int]);
            assert(rs.skip(i as int).skip(1) =~= rs.skip(i + 1));
            assert(cs.skip(i as int).skip(1) =~= cs.skip(i + 1));
            assert(valid_cards(cs.skip(i as int)));
            assert(valid_ranks(rs.skip(i as int), cs.skip(i as int)));
            lemma_mixed_radix_range(rs.skip(i as int), cs.skip(i as int));
            lemma_mixed_radix_range(rs.skip(i + 1), cs.skip(i + 1));
            lemma_mul_nonnegative(rs[i as int], product_of(cs.skip(i + 1)));
            lemma_mixed_radix_range(rs, cs);
        }
        acc = acc + ranks[i] * mults[i];
        i = i + 1;
    }
    proof {
        assert(rs.skip(n as int) =~= Seq::<int>::empty());
    }
    acc
}

proof fn lemma_skip_zero(rs: Seq<int>, cs: Seq<int>)
    ensures
        rs.skip(0) == rs,
        cs.skip(0) == cs,
{
    assert(rs.skip(0) =~= rs);
    assert(cs.skip(0) =~= cs);
}

} // verus!
