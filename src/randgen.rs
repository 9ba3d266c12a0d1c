use vstd::prelude::*;

use rand::Rng;
use rand::SeedableRng;
use rand_xoshiro::Xoshiro256StarStar;

use crate::grammar::{
    alts_weighted, elem_resolves, find_rule, rule_of, spec_closed, spec_weighted, Elem, Rule,
    Spec, RHS, SCALE,
};

verus! {

/// The random source: a generator whose whole state is a value, so that a
/// copy replays the same draws.
pub type RandGen = Xoshiro256StarStar;

#[verifier::external_type_specification]
#[verifier::external_body]
pub struct ExXoshiro256StarStar(Xoshiro256StarStar);

/// Relies on the derived `Clone` of `Xoshiro256StarStar`: the copy holds the
/// same state.
pub assume_specification[ <Xoshiro256StarStar as Clone>::clone ](
    r: &Xoshiro256StarStar,
) -> (c: Xoshiro256StarStar)
    ensures
        c == *r,
;

/// Relies on `SeedableRng::seed_from_u64` of `Xoshiro256StarStar`: a generator
/// seeded from `seed`.
#[verifier::external_body]
pub fn make_rng(seed: u64) -> (r: RandGen) {
    RandGen::seed_from_u64(seed)
}

/// The next output of `next_u64` from a generator in state `r`: xoshiro256**
/// reads nothing but its state.
pub uninterp spec fn bits_of(r: Xoshiro256StarStar) -> u64;

/// The state of a generator in state `r` after one output of `next_u64`.
pub uninterp spec fn advanced(r: Xoshiro256StarStar) -> Xoshiro256StarStar;

/// Relies on `Rng::gen::<u64>`, which for `Xoshiro256StarStar` is one call of
/// `next_u64`: its output and the state after it depend on the state alone.
#[verifier::external_body]
fn next_bits(rng: &mut RandGen) -> (r: u64)
    ensures
        r == bits_of(*old(rng)),
        *final(rng) == advanced(*old(rng)),
{
    rng.gen::<u64>()
}

/// The uniform draw that a generator in state `r` makes next: the top 53 bits
/// of its next output.
pub open spec fn draw_of(r: RandGen) -> u64 {
    bits_of(r) >> 11u64
}

/// A uniform draw in `[0, SCALE)`: the top 53 bits of the generator's next
/// output, the integer that a uniform `f64` draw in `[0, 1)` scales by `SCALE`.
pub fn draw(rng: &mut RandGen) -> (x: u64)
    ensures
        x == draw_of(*old(rng)),
        *final(rng) == advanced(*old(rng)),
        x < SCALE,
{
    let b: u64 = next_bits(rng);
    let x: u64 = b >> 11u64;
    assert(b >> 11u64 < 0x20_0000_0000_0000u64) by (bit_vector);
    x
}

/// The first alternative from `i` on whose cumulative weight is at least `x`.
pub open spec fn first_fit(alts: Seq<(Elem, u64)>, x: u64, i: int) -> int
    decreases alts.len() - i,
{
    if i < 0 || i >= alts.len() {
        i
    } else if x <= alts[i].1 {
        i
    } else {
        first_fit(alts, x, i + 1)
    }
}

proof fn lemma_first_fit_skips(alts: Seq<(Elem, u64)>, x: u64, i: int)
    requires
        0 <= i < alts.len(),
        x <= alts.last().1,
        forall|j: int| i <= j < alts.len() - 1 ==> alts[j].1 < x,
    ensures
        first_fit(alts, x, i) == alts.len() - 1,
    decreases alts.len() - i,
{
    if i < alts.len() - 1 {
        lemma_first_fit_skips(alts, x, i + 1);
    }
}

/// A draw of 0 selects the first alternative, and the largest draw (just
/// below 1) selects the last one, unless the last alternative has no weight
/// left to it.
pub proof fn lemma_choice_extremes(alts: Seq<(Elem, u64)>)
    requires
        alts_weighted(alts),
        alts.len() >= 2 ==> alts[alts.len() - 2].1 < SCALE - 1,
    ensures
        first_fit(alts, 0, 0) == 0,
        first_fit(alts, (SCALE - 1) as u64, 0) == alts.len() - 1,
{
    assert forall|j: int| 0 <= j < alts.len() - 1 implies alts[j].1 < SCALE - 1 by {
        assert(alts[j].1 <= alts[alts.len() - 2].1);
    }
    lemma_first_fit_skips(alts, (SCALE - 1) as u64, 0);
}

/// Weighted choice by linear scan: the first alternative whose cumulative
/// weight is at least the draw `x`.
pub fn pick(alts: &Vec<(Elem, u64)>, x: u64) -> (i: usize)
    requires
        alts_weighted(alts@),
        x < SCALE,
    ensures
        i == first_fit(alts@, x, 0),
        i < alts@.len(),
        x <= alts@[i as int].1,
        forall|j: int| 0 <= j < i ==> alts@[j].1 < x,
{
    let mut k: usize = 0;
    while k < alts.len() - 1 && x > alts[k].1
        invariant
            alts_weighted(alts@),
            x < SCALE,
            k < alts@.len(),
            first_fit(alts@, x, 0) == first_fit(alts@, x, k as int),
            forall|j: int| 0 <= j < k ==> alts@[j].1 < x,
        decreases alts@.len() - k,
    {
        k = k + 1;
    }
    k
}

/// A weighted choice among `alts` with the generator's next draw.
pub fn weighted_choice(rng: &mut RandGen, alts: &Vec<(Elem, u64)>) -> (e: Elem)
    requires
        alts_weighted(alts@),
    ensures
        e == alts@[first_fit(alts@, draw_of(*old(rng)), 0)].0,
        0 <= first_fit(alts@, draw_of(*old(rng)), 0) < alts@.len(),
        *final(rng) == advanced(*old(rng)),
{
    let x: u64 = draw(rng);
    let i: usize = pick(alts, x);
    alts[i].0.clone()
}

/// The most steps that one attempt takes before it gives up.
pub const STEP_LIMIT: u64 = 18446744073709551615;

/// Expansion of the symbol `name` on top of `rest`, with the generator in
/// state `r`: its rule's expression; the alternative that the next draw
/// selects, which advances the generator by one draw; or every factor, the
/// first on top so that the factors unfold in the order written.
pub open spec fn expand(g: Seq<(String, Rule)>, name: Seq<char>, rest: Seq<Elem>, size: nat, r: RandGen) -> (
    Seq<Elem>,
    nat,
    RandGen,
) {
    match rule_of(g, name) {
        Some(rule) => match rule.rhs {
            RHS::Elem(e) => (rest.push(e), size, r),
            RHS::Sum(alts) => (rest.push(alts@[first_fit(alts@, draw_of(r), 0)].0), size, advanced(r)),
            RHS::Prod(elems) => (rest + elems@.reverse(), size, r),
        },
        None => (rest, size, r),
    }
}

/// One step of the unfolding: pop the top of a non-empty stack; a neutral
/// object does nothing, an atom adds one to the size, a reference expands.
pub open spec fn step(g: Seq<(String, Rule)>, stack: Seq<Elem>, size: nat, r: RandGen) -> (Seq<Elem>, nat, RandGen) {
    let rest = stack.drop_last();
    match stack.last() {
        Elem::One => (rest, size, r),
        Elem::Z => (rest, size + 1, r),
        Elem::Ref(name) => expand(g, name@, rest, size, r),
    }
}

/// The outcome of unfolding `stack` from `size` with the generator in state
/// `r`, in at most `fuel` steps, and the generator's state at the end:
/// `Some(s)` when the stack empties at size `s` below `max`, `None` when the
/// size reaches `max` first (or the steps run out).
pub open spec fn unfold(g: Seq<(String, Rule)>, stack: Seq<Elem>, size: nat, max: nat, r: RandGen, fuel: nat) -> (
    Option<u64>,
    RandGen,
)
    decreases fuel,
{
    if size >= max {
        (None, r)
    } else if stack.len() == 0 {
        (Some(size as u64), r)
    } else if fuel == 0 {
        (None, r)
    } else {
        let (s2, z2, r2) = step(g, stack, size, r);
        unfold(g, s2, z2, max, r2, (fuel - 1) as nat)
    }
}

/// One attempt from the symbol `name` with ceiling `max`, the generator in
/// state `r`: its outcome and the generator's state after it.
pub open spec fn attempt(g: Seq<(String, Rule)>, name: Seq<char>, max: nat, r: RandGen) -> (Option<u64>, RandGen) {
    if max == 0 {
        (None, r)
    } else {
        let (s1, z1, r1) = expand(g, name, Seq::empty(), 0, r);
        unfold(g, s1, z1, max, r1, (STEP_LIMIT - 1) as nat)
    }
}

/// One random expansion of `rname` with the generator's draws, tracking
/// only its size: `Some(size)` when it ends below `max_size`, `None` when its
/// size reaches `max_size`. The generator advances by one draw for each union
/// expanded.
pub fn next_size(rng: &mut RandGen, spec: &Spec, rname: &str, max_size: u64) -> (r: Option<u64>)
    requires
        spec_weighted(spec@),
        rule_of(spec@, rname@) is Some,
    ensures
        (r, *final(rng)) == attempt(spec@, rname@, max_size as nat, *old(rng)),
        r matches Some(s) ==> s < max_size,
        max_size == 0 ==> r is None && *final(rng) == *old(rng),
{
    let start: String = rname.to_owned();
    let ghost g = spec@;
    let ghost r0 = *rng;
    let ghost init = seq![Elem::Ref(start)];
    let mut stack: Vec<Elem> = Vec::new();
    stack.push(Elem::Ref(start));
    let mut size: u64 = 0;
    let mut steps: u64 = 0;
    assert(stack@ =~= init);
    proof {
        if max_size > 0 {
            let (s1, z1, r1) = expand(g, rname@, Seq::empty(), 0, r0);
            assert(init.drop_last() =~= Seq::<Elem>::empty());
            assert(step(g, init, 0, r0) == (s1, z1, r1));
        }
    }
    loop
        invariant
            g == spec@,
            spec_weighted(g),
            forall|i: int| 0 <= i < stack@.len() ==> elem_resolves(g, #[trigger] stack@[i]),
            attempt(g, rname@, max_size as nat, r0) == unfold(g, stack@, size as nat, max_size as nat, *rng, (STEP_LIMIT - steps) as nat),
            max_size == 0 ==> *rng == r0,
            r0 == *old(rng),
        decreases STEP_LIMIT - steps,
    {
        if size >= max_size {
            return None;
        }
        let ghost st0 = stack@;
        let ghost sz0 = size as nat;
        let ghost rg0 = *rng;
        let top = stack.pop();
        let e: Elem = match top {
            None => {
                return Some(size);
            },
            Some(e) => e,
        };
        if steps == STEP_LIMIT {
            return None;
        }
        assert(elem_resolves(g, st0[st0.len() - 1]));
        match e {
            Elem::One => {},
            Elem::Z => {
                size = size + 1;
            },
            Elem::Ref(name) => {
                let i: usize = find_rule(spec, &name).unwrap();
                assert(spec_closed(g) ==> crate::grammar::rhs_resolves(g, g[i as int].1.rhs));
                match &spec[i].1.rhs {
                    RHS::Elem(inner) => {
                        stack.push(inner.clone());
                    },
                    RHS::Sum(alts) => {
                        assert(crate::grammar::rhs_weighted(g[i as int].1.rhs));
                        let c: Elem = weighted_choice(rng, alts);
                        assert(elem_resolves(g, c));
                        stack.push(c);
                    },
                    RHS::Prod(elems) => {
                        let ghost base = stack@;
                        assert(crate::grammar::elems_resolve(g, elems@));
                        let n: usize = elems.len();
                        let mut k: usize = n;
                        while k > 0
                            invariant
                                n == elems@.len(),
                                k <= n,
                                stack@ == base + elems@.subrange(k as int, n as int).reverse(),
                                crate::grammar::elems_resolve(g, elems@),
                                forall|i: int| 0 <= i < stack@.len() ==> elem_resolves(g, #[trigger] stack@[i]),
                            decreases k,
                        {
                            stack.push(elems[k - 1].clone());
                            assert(elems@.subrange(k - 1, n as int).reverse() =~= elems@.subrange(k as int, n as int).reverse().push(elems@[k - 1]));
                            assert(base + elems@.subrange(k - 1, n as int).reverse() =~= (base + elems@.subrange(k as int, n as int).reverse()).push(elems@[k - 1]));
                            k = k - 1;
                        }
                        assert(elems@.subrange(0, n as int) =~= elems@);
                    },
                }
            },
        }
        assert(step(g, st0, sz0, rg0) == (stack@, size as nat, *rng));
        steps = steps + 1;
    }
}

/// The outcome of rejection search with `k` attempts left, the generator in
/// state `r`: the first size in `[min, max]`, with the state from just before
/// the attempt that found it.
pub open spec fn search(
    g: Seq<(String, Rule)>,
    name: Seq<char>,
    min: u64,
    max: u64,
    r: RandGen,
    k: nat,
) -> Option<(u64, RandGen)>
    decreases k,
{
    if k == 0 {
        None
    } else {
        let (o, r2) = attempt(g, name, max as nat, r);
        match o {
            Some(s) => if min <= s <= max {
                Some((s, r))
            } else {
                search(g, name, min, max, r2, (k - 1) as nat)
            },
            None => search(g, name, min, max, r2, (k - 1) as nat),
        }
    }
}

/// Rejection search: up to `max_attempts` attempts of `next_size` with
/// ceiling `max_size`, on a copy of `rng_source`. The first size in
/// `[min_size, max_size]` comes back with the copy of the generator taken
/// just before its attempt, from which `next_size` replays it; `None` when
/// every attempt missed.
pub fn search_size(
    rng_source: &RandGen,
    spec: &Spec,
    rname: &str,
    min_size: u64,
    max_size: u64,
    max_attempts: u32,
) -> (r: Option<(u64, RandGen)>)
    requires
        spec_weighted(spec@),
        rule_of(spec@, rname@) is Some,
    ensures
        r == search(spec@, rname@, min_size, max_size, *rng_source, max_attempts as nat),
        r matches Some((s, snap)) ==> min_size <= s <= max_size && attempt(
            spec@,
            rname@,
            max_size as nat,
            snap,
        ).0 == Some(s),
{
    proof {
        lemma_search_replays(spec@, rname@, min_size, max_size, *rng_source, max_attempts as nat);
    }
    let mut attempts: u32 = 0;
    let mut rng: RandGen = rng_source.clone();
    while attempts < max_attempts
        invariant
            spec_weighted(spec@),
            rule_of(spec@, rname@) is Some,
            attempts <= max_attempts,
            search(spec@, rname@, min_size, max_size, *rng_source, max_attempts as nat) == search(
                spec@,
                rname@,
                min_size,
                max_size,
                rng,
                (max_attempts - attempts) as nat,
            ),
        decreases max_attempts - attempts,
    {
        let saved: RandGen = rng.clone();
        let o: Option<u64> = next_size(&mut rng, spec, rname, max_size);
        attempts = attempts + 1;
        if let Some(size) = o {
            if min_size <= size && size <= max_size {
                return Some((size, saved));
            }
        }
    }
    None
}

/// Replay: the size that rejection search finds lies in the window, and an
/// attempt from the state that comes back with it yields that size again.
pub proof fn lemma_search_replays(
    g: Seq<(String, Rule)>,
    name: Seq<char>,
    min: u64,
    max: u64,
    r: RandGen,
    k: nat,
)
    ensures
        search(g, name, min, max, r, k) matches Some((s, snap)) ==> min <= s <= max && attempt(
            g,
            name,
            max as nat,
            snap,
        ).0 == Some(s),
    decreases k,
{
    if k > 0 {
        let (o, r2) = attempt(g, name, max as nat, r);
        lemma_search_replays(g, name, min, max, r2, (k - 1) as nat);
    }
}

} // verus!
