//! What holds of heat exchange between like cells: two neighbours of equal
//! heat capacity never drift apart, neither in one exchange nor over any
//! number of passes.

use vstd::prelude::*;
use super::heat::{clamp_energy, heat_flows_downhill, heat_step, heat_sweep, heated, outflow,
    outflow_to, radiates, receives, toward_zero, transfer};
use super::particle::Particle;

verus! {

/// Moving whole multiples of the divisor moves the quotient by as many.
proof fn quotient_shifts(x: int, c: int, m: int)
    requires
        c > 0,
    ensures
        (x + m * c) / c == x / c + m,
{
    vstd::arithmetic::div_mod::lemma_fundamental_div_mod(x, c);
    assert(x + m * c == (x / c + m) * c + x % c) by (nonlinear_arith)
        requires
            x == c * (x / c) + x % c,
    ;
    vstd::arithmetic::div_mod::lemma_fundamental_div_mod_converse(
        x + m * c,
        c,
        x / c + m,
        x % c,
    );
}

/// The arithmetic of one exchange between a warmer cell holding `hot` and a
/// colder one holding `cold`, both of heat capacity `c`, at divisor `k`: the
/// amount that moves is never more than the warmer cell has, at most an
/// eighth of the gap in energy terms, and it shifts either temperature by at
/// most an eighth of the gap, rounded up.
proof fn exchange_bounds(hot: int, cold: int, c: int, k: int)
    requires
        c > 0,
        k >= 8,
        0 <= cold,
        0 <= hot,
        hot / c > cold / c,
    ensures
        ({
            let gap = hot / c - cold / c;
            let moved = (gap * c) / k;
            &&& 0 <= moved <= hot
            &&& 8 * moved <= gap * c
            &&& hot / c - (gap + 7) / 8 <= (hot - moved) / c <= hot / c
            &&& cold / c <= (cold + moved) / c <= cold / c + (gap + 7) / 8
        }),
{
    let gap = hot / c - cold / c;
    let moved = (gap * c) / k;
    let eighth = (gap + 7) / 8;
    vstd::arithmetic::div_mod::lemma_fundamental_div_mod(hot, c);
    vstd::arithmetic::div_mod::lemma_fundamental_div_mod(gap * c, k);
    assert(0 <= cold / c) by (nonlinear_arith)
        requires
            0 <= cold,
            c > 0,
    ;
    assert(0 <= gap * c <= (hot / c) * c) by (nonlinear_arith)
        requires
            0 <= gap <= hot / c,
            c > 0,
    ;
    assert((hot / c) * c == c * (hot / c)) by (nonlinear_arith);
    assert(0 <= moved && 8 * moved <= gap * c) by (nonlinear_arith)
        requires
            gap * c == k * moved + (gap * c) % k,
            0 <= (gap * c) % k < k,
            k >= 8,
            gap * c >= 0,
    ;
    assert(gap * c <= 8 * (eighth * c)) by (nonlinear_arith)
        requires
            gap <= 8 * eighth,
            c > 0,
    ;
    assert(moved <= eighth * c);
    assert(moved <= hot);
    vstd::arithmetic::div_mod::lemma_div_is_ordered(hot - moved, hot, c);
    vstd::arithmetic::div_mod::lemma_div_is_ordered(hot - eighth * c, hot - moved, c);
    quotient_shifts(hot, c, -eighth);
    assert(hot + (-eighth) * c == hot - eighth * c) by (nonlinear_arith);
    vstd::arithmetic::div_mod::lemma_div_is_ordered(cold, cold + moved, c);
    vstd::arithmetic::div_mod::lemma_div_is_ordered(cold + moved, cold + eighth * c, c);
    quotient_shifts(cold, c, eighth);
}

/// Two neighbours of equal heat capacity never drift apart. After the mover
/// has handed its transfer to the neighbour, the warmer of the two is no
/// warmer than before, the colder no colder, neither has passed the
/// temperature that the other had, and the gap between their temperatures is
/// no wider than it was, whichever way it now points.
pub proof fn exchange_never_widens_the_gap(mover: Particle, neighbor: Particle)
    requires
        mover.valid(),
        mover.particle_type.heat_capacity == neighbor.particle_type.heat_capacity,
    ensures
        ({
            let moved = transfer(mover, neighbor);
            let m = Particle { energy: clamp_energy(mover.energy - moved), ..mover };
            let n = Particle { energy: clamp_energy(neighbor.energy + moved), ..neighbor };
            let before = mover.temperature() - neighbor.temperature();
            let after = m.temperature() - n.temperature();
            &&& before >= 0 ==> -before <= after <= before
            &&& before <= 0 ==> before <= after <= -before
            &&& before >= 0 ==> m.temperature() <= mover.temperature() && n.temperature()
                >= neighbor.temperature()
            &&& before <= 0 ==> m.temperature() >= mover.temperature() && n.temperature()
                <= neighbor.temperature()
            &&& before >= 0 ==> m.temperature() >= neighbor.temperature() && n.temperature()
                <= mover.temperature()
            &&& before <= 0 ==> m.temperature() <= neighbor.temperature() && n.temperature()
                >= mover.temperature()
        }),
{
    let c = mover.particle_type.heat_capacity as int;
    let k = 8 * (mover.particle_type.heat_resistance as int
        + neighbor.particle_type.heat_resistance as int + 1);
    let a = mover.energy as int;
    let b = neighbor.energy as int;
    let before = a / c - b / c;
    let moved = transfer(mover, neighbor);
    heat_flows_downhill(mover, neighbor);
    if before > 0 {
        exchange_bounds(a, b, c, k);
        assert(before * c > 0) by (nonlinear_arith)
            requires
                before > 0,
                c > 0,
        ;
        assert(moved == (before * c) / k);
        let kept = clamp_energy(b + moved) as int;
        assert(b <= kept <= b + moved);
        vstd::arithmetic::div_mod::lemma_div_is_ordered(b, kept, c);
        vstd::arithmetic::div_mod::lemma_div_is_ordered(kept, b + moved, c);
    } else if before < 0 {
        exchange_bounds(b, a, c, k);
        assert(before * c < 0 && -(before * c) == (-before) * c) by (nonlinear_arith)
            requires
                before < 0,
                c > 0,
        ;
        assert(moved == -(((-before) * c) / k));
        let kept = clamp_energy(a - moved) as int;
        assert(a <= kept <= a - moved);
        vstd::arithmetic::div_mod::lemma_div_is_ordered(a, kept, c);
        vstd::arithmetic::div_mod::lemma_div_is_ordered(kept, a - moved, c);
    }
}

/// Distance between the temperatures of the two cells that a grid of width
/// three and height two operates on, `(0, 0)` and `(1, 0)`.
pub open spec fn pair_gap(cells: Seq<Particle>) -> int {
    let gap = cells[0].temperature() - cells[1].temperature();
    if gap >= 0 {
        gap
    } else {
        -gap
    }
}

/// The cells after `ticks` heat passes in a row.
pub open spec fn heated_times(
    cells: Seq<Particle>,
    width: int,
    height: int,
    simplified: bool,
    ticks: nat,
) -> Seq<Particle>
    decreases ticks,
{
    if ticks == 0 {
        cells
    } else {
        heated(
            heated_times(cells, width, height, simplified, (ticks - 1) as nat),
            width,
            height,
            simplified,
        )
    }
}

/// In a grid of width three and height two, the visit of one of the two
/// in-bounds cells is one exchange with the other.
proof fn pair_visit(cells: Seq<Particle>, simplified: bool, x: int)
    requires
        cells.len() == 6,
        x == 0 || x == 1,
    ensures
        ({
            let mover = cells[x];
            let other = cells[1 - x];
            let moved = transfer(mover, other);
            let after = heat_step(cells, 3, 2, simplified, x, 0);
            &&& after.len() == 6
            &&& !radiates(simplified, mover) ==> after == cells
            &&& radiates(simplified, mover) ==> after[x] == (Particle {
                energy: clamp_energy(mover.energy - moved),
                ..mover
            })
            &&& radiates(simplified, mover) && receives(simplified, other) ==> after[1 - x] == (
            Particle { energy: clamp_energy(other.energy + moved), ..other })
            &&& radiates(simplified, mover) && !receives(simplified, other) ==> after[1 - x]
                == other
        }),
{
    reveal_with_fuel(outflow_to, 9);
    assert(outflow(cells, 3, 2, x, 0) == transfer(cells[x], cells[1 - x]));
}

/// In a grid of width three and height two, a heat pass is the visit of
/// `(0, 0)` followed by the visit of `(1, 0)`.
proof fn pair_pass(cells: Seq<Particle>, simplified: bool)
    requires
        cells.len() == 6,
    ensures
        heated(cells, 3, 2, simplified) == heat_step(
            heat_step(cells, 3, 2, simplified, 0, 0),
            3,
            2,
            simplified,
            1,
            0,
        ),
{
    reveal_with_fuel(heat_sweep, 7);
}

/// A static system of two adjacent cells of equal heat capacity never
/// diverges: a heat pass, plain or simplified, leaves the distance between
/// their temperatures no wider than it found it.
pub proof fn pair_never_drifts_apart(cells: Seq<Particle>, simplified: bool)
    requires
        cells.len() == 6,
        cells[0].valid(),
        cells[0].particle_type.heat_capacity == cells[1].particle_type.heat_capacity,
    ensures
        heated(cells, 3, 2, simplified).len() == 6,
        heated(cells, 3, 2, simplified)[0].particle_type == cells[0].particle_type,
        heated(cells, 3, 2, simplified)[1].particle_type == cells[1].particle_type,
        pair_gap(heated(cells, 3, 2, simplified)) <= pair_gap(cells),
{
    let first = heat_step(cells, 3, 2, simplified, 0, 0);
    pair_pass(cells, simplified);
    pair_visit(cells, simplified, 0);
    exchange_never_widens_the_gap(cells[0], cells[1]);
    assert(pair_gap(first) <= pair_gap(cells));
    pair_visit(first, simplified, 1);
    exchange_never_widens_the_gap(first[1], first[0]);
}

/// Over any number of heat passes the two cells of such a system trend
/// toward each other: the distance between their temperatures never grows
/// from one pass to the next.
pub proof fn pair_trends_together(cells: Seq<Particle>, simplified: bool, ticks: nat)
    requires
        cells.len() == 6,
        cells[0].valid(),
        cells[0].particle_type.heat_capacity == cells[1].particle_type.heat_capacity,
    ensures
        heated_times(cells, 3, 2, simplified, ticks).len() == 6,
        heated_times(cells, 3, 2, simplified, ticks)[0].particle_type == cells[0].particle_type,
        heated_times(cells, 3, 2, simplified, ticks)[1].particle_type == cells[1].particle_type,
        pair_gap(heated_times(cells, 3, 2, simplified, ticks)) <= pair_gap(cells),
        ticks > 0 ==> pair_gap(heated_times(cells, 3, 2, simplified, ticks)) <= pair_gap(
            heated_times(cells, 3, 2, simplified, (ticks - 1) as nat),
        ),
    decreases ticks,
{
    if ticks > 0 {
        pair_trends_together(cells, simplified, (ticks - 1) as nat);
        pair_never_drifts_apart(
            heated_times(cells, 3, 2, simplified, (ticks - 1) as nat),
            simplified,
        );
    }
}

/// Whether a difference `after` is no larger in magnitude than `before`.
pub open spec fn no_wider(after: int, before: int) -> bool {
    if before >= 0 {
        -before <= after <= before
    } else {
        before <= after <= -before
    }
}

/// The transfer from a cell holding `m` to a cell holding `n`, both of heat
/// capacity `c`, at divisor `k`.
pub open spec fn like_transfer(m: int, n: int, c: int, k: int) -> int {
    toward_zero((m / c - n / c) * c, k)
}

/// What one exchange from a warmer cell holding `hot` to a colder one holding
/// `cold` does to the difference of their energies. Unless the temperatures
/// are one kelvin apart it stays ahead of what moves; at one kelvin apart an
/// exchange that moves more than the difference makes the two cells trade
/// temperatures exactly.
proof fn downhill_exchange(hot: int, cold: int, c: int, k: int)
    requires
        c > 0,
        k >= 8,
        0 <= cold,
        0 <= hot,
        hot / c > cold / c,
    ensures
        ({
            let gap = hot / c - cold / c;
            let moved = (gap * c) / k;
            &&& 0 <= moved <= hot
            &&& hot > cold
            &&& like_transfer(hot, cold, c, k) == moved
            &&& like_transfer(cold, hot, c, k) == -moved
            &&& gap == 1 ==> moved == c / k
            &&& gap >= 2 ==> moved < hot - cold && hot - cold > c
            &&& 0 <= 8 * (c / k) <= c
            &&& moved > hot - cold ==> gap == 1 && (hot - moved) / c == cold / c && (cold + moved)
                / c == hot / c
        }),
{
    let gap = hot / c - cold / c;
    let moved = (gap * c) / k;
    exchange_bounds(hot, cold, c, k);
    vstd::arithmetic::div_mod::lemma_fundamental_div_mod(hot, c);
    vstd::arithmetic::div_mod::lemma_fundamental_div_mod(cold, c);
    vstd::arithmetic::div_mod::lemma_fundamental_div_mod(c, k);
    assert(hot - cold >= (gap - 1) * c + 1) by (nonlinear_arith)
        requires
            hot == c * (hot / c) + hot % c,
            cold == c * (cold / c) + cold % c,
            0 <= hot % c,
            cold % c < c,
            gap == hot / c - cold / c,
    ;
    assert((gap - 1) * c >= 0 && gap * c > 0 && (-gap) * c == -(gap * c) && (-gap) * c < 0)
        by (nonlinear_arith)
        requires
            gap >= 1,
            c > 0,
    ;
    assert(gap == 1 ==> gap * c == c) by (nonlinear_arith);
    assert(gap >= 2 ==> gap * c <= 8 * ((gap - 1) * c) && (gap - 1) * c >= c)
        by (nonlinear_arith)
        requires
            c > 0,
    ;
    assert(0 <= 8 * (c / k) <= c) by (nonlinear_arith)
        requires
            c == k * (c / k) + c % k,
            0 <= c % k < k,
            k >= 8,
            c > 0,
    ;
    assert((cold / c - hot / c) * c == (-gap) * c);
    if moved > hot - cold {
        assert(gap == 1);
        vstd::arithmetic::div_mod::lemma_div_is_ordered(hot - moved, cold, c);
        vstd::arithmetic::div_mod::lemma_div_is_ordered(hot, cold + moved, c);
    }
}

/// What one exchange does to two like cells holding `m` and `n`, the first
/// being the mover: nothing is lost, neither cell runs dry, and either the
/// difference of their energies is no wider than before, or the two were one
/// kelvin apart and have traded temperatures.
proof fn like_exchange(m: int, n: int, c: int, k: int)
    requires
        c > 0,
        k >= 8,
        0 <= m,
        0 <= n,
    ensures
        ({
            let moved = like_transfer(m, n, c, k);
            let gap = m / c - n / c;
            &&& 0 <= m - moved
            &&& 0 <= n + moved
            &&& gap == 0 ==> moved == 0
            &&& gap > 0 ==> moved >= 0 && m > n
            &&& gap < 0 ==> moved <= 0 && m < n
            &&& gap == 1 ==> moved == c / k
            &&& gap == -1 ==> moved == -(c / k)
            &&& gap >= 2 ==> m - n > c
            &&& gap <= -2 ==> n - m > c
            &&& 0 <= 8 * (c / k) <= c
            &&& no_wider(m - moved - (n + moved), m - n) || ((gap == 1 || gap == -1) && (m
                - moved) / c == n / c && (n + moved) / c == m / c)
        }),
{
    let gap = m / c - n / c;
    vstd::arithmetic::div_mod::lemma_fundamental_div_mod(c, k);
    assert(0 <= 8 * (c / k) <= c) by (nonlinear_arith)
        requires
            c == k * (c / k) + c % k,
            0 <= c % k < k,
            k >= 8,
            c > 0,
    ;
    if gap > 0 {
        downhill_exchange(m, n, c, k);
    } else if gap < 0 {
        downhill_exchange(n, m, c, k);
    } else {
        assert(gap * c == 0) by (nonlinear_arith)
            requires
                gap == 0,
        ;
    }
}

/// One heat pass over two like cells holding `m` and `n`: the first hands
/// its transfer to the second, then the second hands its own to the first.
/// Nothing is lost, and the difference of the two energies is no wider than
/// before.
proof fn like_tick(m: int, n: int, c: int, k: int)
    requires
        c > 0,
        k >= 8,
        0 <= m,
        0 <= n,
    ensures
        ({
            let moved = like_transfer(m, n, c, k);
            let back = like_transfer(n + moved, m - moved, c, k);
            &&& 0 <= m - moved
            &&& 0 <= n + moved
            &&& 0 <= m - moved + back
            &&& 0 <= n + moved - back
            &&& no_wider(m - moved + back - (n + moved - back), m - n)
        }),
{
    let moved = like_transfer(m, n, c, k);
    let m1 = m - moved;
    let n1 = n + moved;
    let back = like_transfer(n1, m1, c, k);
    let gap = m / c - n / c;
    let gap1 = n1 / c - m1 / c;
    like_exchange(m, n, c, k);
    like_exchange(n1, m1, c, k);
    if (gap == 1 || gap == -1) && m1 / c == n / c && n1 / c == m / c {
        assert(gap1 * c == gap * c) by (nonlinear_arith)
            requires
                gap1 == gap,
        ;
        assert(back == moved);
    }
}

/// In a static system of two adjacent cells of equal heat capacity whose
/// energies together fit a cell, a heat pass loses nothing and leaves the
/// difference of the two energies no larger in magnitude than it found it.
pub proof fn pair_energies_never_drift_apart(cells: Seq<Particle>)
    requires
        cells.len() == 6,
        cells[0].valid(),
        cells[0].particle_type.heat_capacity == cells[1].particle_type.heat_capacity,
        cells[0].energy + cells[1].energy <= u32::MAX,
    ensures
        heated(cells, 3, 2, false).len() == 6,
        heated(cells, 3, 2, false)[0].particle_type == cells[0].particle_type,
        heated(cells, 3, 2, false)[1].particle_type == cells[1].particle_type,
        heated(cells, 3, 2, false)[0].energy + heated(cells, 3, 2, false)[1].energy
            == cells[0].energy + cells[1].energy,
        no_wider(
            heated(cells, 3, 2, false)[0].energy - heated(cells, 3, 2, false)[1].energy,
            cells[0].energy - cells[1].energy,
        ),
{
    let c = cells[0].particle_type.heat_capacity as int;
    let k = 8 * (cells[0].particle_type.heat_resistance as int
        + cells[1].particle_type.heat_resistance as int + 1);
    let m = cells[0].energy as int;
    let n = cells[1].energy as int;
    let first = heat_step(cells, 3, 2, false, 0, 0);
    pair_pass(cells, false);
    pair_visit(cells, false, 0);
    like_tick(m, n, c, k);
    assert(transfer(cells[0], cells[1]) == like_transfer(m, n, c, k));
    pair_visit(first, false, 1);
    assert(transfer(first[1], first[0]) == like_transfer(
        first[1].energy as int,
        first[0].energy as int,
        c,
        k,
    ));
}

/// Over any number of heat passes the energies of such a system stay
/// together as they were and never drift apart: the magnitude of their
/// difference never grows from one pass to the next.
pub proof fn pair_energies_trend_together(cells: Seq<Particle>, ticks: nat)
    requires
        cells.len() == 6,
        cells[0].valid(),
        cells[0].particle_type.heat_capacity == cells[1].particle_type.heat_capacity,
        cells[0].energy + cells[1].energy <= u32::MAX,
    ensures
        heated_times(cells, 3, 2, false, ticks).len() == 6,
        heated_times(cells, 3, 2, false, ticks)[0].particle_type == cells[0].particle_type,
        heated_times(cells, 3, 2, false, ticks)[1].particle_type == cells[1].particle_type,
        heated_times(cells, 3, 2, false, ticks)[0].energy + heated_times(
            cells,
            3,
            2,
            false,
            ticks,
        )[1].energy == cells[0].energy + cells[1].energy,
        no_wider(
            heated_times(cells, 3, 2, false, ticks)[0].energy - heated_times(
                cells,
                3,
                2,
                false,
                ticks,
            )[1].energy,
            cells[0].energy - cells[1].energy,
        ),
        ticks > 0 ==> no_wider(
            heated_times(cells, 3, 2, false, ticks)[0].energy - heated_times(
                cells,
                3,
                2,
                false,
                ticks,
            )[1].energy,
            heated_times(cells, 3, 2, false, (ticks - 1) as nat)[0].energy - heated_times(
                cells,
                3,
                2,
                false,
                (ticks - 1) as nat,
            )[1].energy,
        ),
    decreases ticks,
{
    if ticks > 0 {
        pair_energies_trend_together(cells, (ticks - 1) as nat);
        pair_energies_never_drift_apart(heated_times(cells, 3, 2, false, (ticks - 1) as nat));
    }
}

} // verus!
