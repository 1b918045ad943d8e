use vstd::prelude::*;
use crate::coin::{BottomRatio, Coin};
use crate::table::{converted, has_piece, index_of, saturate, scaled, table_wf};

verus! {

proof fn lemma_div_cancel(a: nat, x: nat, y: nat) by (nonlinear_arith)
    requires
        x > 0,
        y > 0,
    ensures
        (a * x * y) / (y * x) == a,
{
    assert(a * x * y == a * (y * x));
}

proof fn lemma_floor_div_mono(n1: int, d1: int, n2: int, d2: int)
    requires
        n1 >= 0,
        n2 >= 0,
        d1 > 0,
        d2 > 0,
        n1 * d2 >= n2 * d1,
    ensures
        n1 / d1 >= n2 / d2,
{
    let k = n2 / d2;
    assert(k * d2 <= n2) by (nonlinear_arith)
        requires
            k == n2 / d2,
            d2 > 0,
            n2 >= 0,
    ;
    assert(k * d1 * d2 <= n1 * d2) by (nonlinear_arith)
        requires
            k * d2 <= n2,
            n1 * d2 >= n2 * d1,
            d1 > 0,
    ;
    assert(k * d1 <= n1) by (nonlinear_arith)
        requires
            k * d1 * d2 <= n1 * d2,
            d2 > 0,
    ;
    assert(k <= n1 / d1) by (nonlinear_arith)
        requires
            k * d1 <= n1,
            d1 > 0,
            n1 >= 0,
    ;
}

proof fn lemma_cross_scale(a: int, fd: int, fn_: int, pi: int, qi: int, pj: int, qj: int)
    by (nonlinear_arith)
    requires
        a >= 0,
        fd >= 0,
        fn_ >= 0,
        pi * qj >= pj * qi,
    ensures
        (a * fd * pi) * (fn_ * qj) >= (a * fd * pj) * (fn_ * qi),
{
    assert((a * fd * pi) * (fn_ * qj) == (a * fd * fn_) * (pi * qj));
    assert((a * fd * pj) * (fn_ * qi) == (a * fd * fn_) * (pj * qi));
    assert((a * fd * fn_) * (pi * qj) >= (a * fd * fn_) * (pj * qi));
}

/// Converting a coin over a table that holds its denomination gives back,
/// at that denomination's place, exactly the coin converted.
pub proof fn lemma_round_trip(s: Seq<BottomRatio>, coin: Coin)
    requires
        table_wf(s),
        has_piece(s, coin.piece),
    ensures
        converted(s, s[index_of(s, coin.piece)], coin.value)[index_of(s, coin.piece)] == coin,
        converted(s, s[index_of(s, coin.piece)], coin.value).contains(coin),
{
    let k = index_of(s, coin.piece);
    let e = s[k];
    assert(e.is_positive());
    lemma_div_cancel(coin.value as nat, e.den as nat, e.num as nat);
    assert(scaled(coin.value as nat, e, e) == coin.value);
    let out = converted(s, e, coin.value);
    assert(out[k] == coin);
}

/// A conversion yields one coin per table entry, with the denominations in
/// table order and none of them twice.
pub proof fn lemma_coverage(s: Seq<BottomRatio>, coin: Coin)
    requires
        table_wf(s),
        has_piece(s, coin.piece),
    ensures
        ({
            let out = converted(s, s[index_of(s, coin.piece)], coin.value);
            &&& out.len() == s.len()
            &&& forall|i: int| 0 <= i < s.len() ==> (#[trigger] out[i]).piece == s[i].piece
            &&& forall|i: int, j: int|
                0 <= i < out.len() && 0 <= j < out.len() && i != j ==> (#[trigger] out[i]).piece
                    != (#[trigger] out[j]).piece
        }),
{
    let out = converted(s, s[index_of(s, coin.piece)], coin.value);
    assert forall|i: int, j: int|
        0 <= i < out.len() && 0 <= j < out.len() && i != j implies (#[trigger] out[i]).piece
        != (#[trigger] out[j]).piece by {
        assert(s[i].piece != s[j].piece);
    }
}

/// Whether the ratio of `x` is at least that of `y`.
pub open spec fn ratio_ge(x: BottomRatio, y: BottomRatio) -> bool {
    x.num * y.den >= y.num * x.den
}

/// For a fixed input, a denomination with a larger ratio (a cheaper one)
/// never receives a smaller count than one with a smaller ratio.
pub proof fn lemma_monotone(s: Seq<BottomRatio>, coin: Coin, i: int, j: int)
    requires
        table_wf(s),
        has_piece(s, coin.piece),
        0 <= i < s.len(),
        0 <= j < s.len(),
        ratio_ge(s[i], s[j]),
    ensures
        converted(s, s[index_of(s, coin.piece)], coin.value)[i].value >= converted(
            s,
            s[index_of(s, coin.piece)],
            coin.value,
        )[j].value,
{
    let f = s[index_of(s, coin.piece)];
    let a = coin.value as int;
    assert(f.is_positive() && s[i].is_positive() && s[j].is_positive());
    lemma_cross_scale(a, f.den as int, f.num as int, s[i].num as int, s[i].den as int, s[j].num as int, s[j].den as int);
    assert(f.num * s[i].den > 0) by (nonlinear_arith)
        requires
            f.num > 0,
            s[i].den > 0,
    ;
    assert(f.num * s[j].den > 0) by (nonlinear_arith)
        requires
            f.num > 0,
            s[j].den > 0,
    ;
    assert(a * f.den * s[i].num >= 0 && a * f.den * s[j].num >= 0) by (nonlinear_arith)
        requires
            a >= 0,
    ;
    lemma_floor_div_mono(
        a * f.den * s[i].num,
        f.num * s[i].den,
        a * f.den * s[j].num,
        f.num * s[j].den,
    );
    assert(scaled(coin.value as nat, f, s[i]) >= scaled(coin.value as nat, f, s[j]));
}

/// A zero amount converts to zero in every denomination.
pub proof fn lemma_zero_amount(s: Seq<BottomRatio>, coin: Coin)
    requires
        table_wf(s),
        has_piece(s, coin.piece),
        coin.value == 0,
    ensures
        forall|i: int|
            0 <= i < s.len() ==> (#[trigger] converted(
                s,
                s[index_of(s, coin.piece)],
                coin.value,
            )[i]).value == 0,
{
    let f = s[index_of(s, coin.piece)];
    assert forall|i: int| 0 <= i < s.len() implies scaled(0, f, #[trigger] s[i]) == 0 by {
        assert(0 * f.den * s[i].num == 0) by (nonlinear_arith);
        assert(f.num * s[i].den > 0) by (nonlinear_arith)
            requires
                f.num > 0,
                s[i].den > 0,
        ;
    }
}

} // verus!
