//! The permutation as a fixed list of steps that does not depend on the state.
use vstd::prelude::*;
use crate::mixing::{sp_words, Words};
use crate::permutation::{
    big_round_spec, inject_constant, permute_spec, permute_times, permute_words, round_constant,
    rounds, swap_halves, swap_pairs,
};

verus! {

/// One operation of the round schedule.
pub enum Step {
    /// The SP-box on all four columns.
    Mix,
    /// The small swap of the lanes of `A`.
    SwapPairs,
    /// The big swap of the lanes of `A`.
    SwapHalves,
    /// A round constant XORed into lane 0 of `A`.
    Inject(u32),
}

/// The words after one step.
pub open spec fn apply_step(step: Step, s: Words) -> Words {
    match step {
        Step::Mix => sp_words(s),
        Step::SwapPairs => (swap_pairs(s.0), s.1, s.2),
        Step::SwapHalves => (swap_halves(s.0), s.1, s.2),
        Step::Inject(rc) => (inject_constant(s.0, rc), s.1, s.2),
    }
}

/// The words after the steps, first to last.
pub open spec fn run(steps: Seq<Step>, s: Words) -> Words
    decreases steps.len(),
{
    if steps.len() == 0 {
        s
    } else {
        run(steps.drop_first(), apply_step(steps[0], s))
    }
}

/// The seven steps of one big round with constant `rc`.
pub open spec fn round_steps(rc: u32) -> Seq<Step> {
    seq![
        Step::Mix,
        Step::SwapPairs,
        Step::Inject(rc),
        Step::Mix,
        Step::Mix,
        Step::SwapHalves,
        Step::Mix,
    ]
}

/// The steps of the first `n` big rounds.
pub open spec fn schedule_prefix(n: nat) -> Seq<Step>
    decreases n,
{
    if n == 0 {
        seq![]
    } else {
        schedule_prefix((n - 1) as nat) + round_steps(round_constant(n - 1))
    }
}

/// The whole schedule: six big rounds of seven steps each.
pub open spec fn schedule() -> Seq<Step> {
    schedule_prefix(6)
}

proof fn lemma_run_append(p: Seq<Step>, q: Seq<Step>, s: Words)
    ensures
        run(p + q, s) == run(q, run(p, s)),
    decreases p.len(),
{
    if p.len() == 0 {
        assert(p + q =~= q);
    } else {
        assert((p + q).drop_first() =~= p.drop_first() + q);
        assert((p + q)[0] == p[0]);
        lemma_run_append(p.drop_first(), q, apply_step(p[0], s));
    }
}

proof fn lemma_run_round(rc: u32, s: Words)
    ensures
        run(round_steps(rc), s) == big_round_spec(s, rc),
{
    let r = round_steps(rc);
    reveal_with_fuel(run, 8);
    assert(r.drop_first() =~= seq![
        Step::SwapPairs,
        Step::Inject(rc),
        Step::Mix,
        Step::Mix,
        Step::SwapHalves,
        Step::Mix,
    ]);
    assert(r.drop_first().drop_first() =~= seq![
        Step::Inject(rc),
        Step::Mix,
        Step::Mix,
        Step::SwapHalves,
        Step::Mix,
    ]);
    assert(r.drop_first().drop_first().drop_first() =~= seq![
        Step::Mix,
        Step::Mix,
        Step::SwapHalves,
        Step::Mix,
    ]);
    assert(r.drop_first().drop_first().drop_first().drop_first() =~= seq![
        Step::Mix,
        Step::SwapHalves,
        Step::Mix,
    ]);
    assert(r.drop_first().drop_first().drop_first().drop_first().drop_first() =~= seq![
        Step::SwapHalves,
        Step::Mix,
    ]);
    assert(r.drop_first().drop_first().drop_first().drop_first().drop_first().drop_first()
        =~= seq![Step::Mix]);
    assert(r.drop_first().drop_first().drop_first().drop_first().drop_first().drop_first().drop_first()
        =~= Seq::<Step>::empty());
}

proof fn lemma_run_prefix(n: nat, s: Words)
    ensures
        run(schedule_prefix(n), s) == rounds(s, n),
    decreases n,
{
    if n > 0 {
        let m = (n - 1) as nat;
        lemma_run_prefix(m, s);
        lemma_run_append(schedule_prefix(m), round_steps(round_constant(m as int)), s);
        lemma_run_round(round_constant(m as int), rounds(s, m));
    }
}

/// The permutation runs the same fixed schedule of steps on every state: rotation amounts,
/// swaps and round constants do not depend on the words being permuted.
pub proof fn lemma_permute_follows_schedule(s: Words)
    ensures
        permute_words(s) == run(schedule(), s),
{
    lemma_run_prefix(6, s);
}

/// Two states that start from the same bytes hold the same bytes after any equal number of
/// permutations.
pub proof fn lemma_permute_deterministic(x: Seq<u8>, y: Seq<u8>, n: nat)
    requires
        x == y,
    ensures
        permute_times(x, n) == permute_times(y, n),
{
}

} // verus!
