//! The order of the stages of one run, and the lines that report how it ended.
use vstd::prelude::*;

verus! {

/// Where a run stands. Each stage is entered when the step before it succeeded; a failed step
/// ends the run in `Failed`.
#[derive(PartialEq, Eq, Structural, Clone, Copy, Debug)]
pub enum Stage {
    Idle,
    ConfigLoaded,
    SpecFetched,
    ArchiveFetched,
    Extracted,
    Done,
    Failed,
}

/// The stage after the step taken in `s`, which succeeded or not. `Done` and `Failed` are
/// final.
pub open spec fn next_spec(s: Stage, succeeded: bool) -> Stage {
    match s {
        Stage::Done => Stage::Done,
        Stage::Failed => Stage::Failed,
        _ => if !succeeded {
            Stage::Failed
        } else {
            match s {
                Stage::Idle => Stage::ConfigLoaded,
                Stage::ConfigLoaded => Stage::SpecFetched,
                Stage::SpecFetched => Stage::ArchiveFetched,
                Stage::ArchiveFetched => Stage::Extracted,
                _ => Stage::Done,
            }
        },
    }
}

pub fn next_stage(s: Stage, succeeded: bool) -> (r: Stage)
    ensures
        r == next_spec(s, succeeded),
{
    match s {
        Stage::Done => Stage::Done,
        Stage::Failed => Stage::Failed,
        _ => if !succeeded {
            Stage::Failed
        } else {
            match s {
                Stage::Idle => Stage::ConfigLoaded,
                Stage::ConfigLoaded => Stage::SpecFetched,
                Stage::SpecFetched => Stage::ArchiveFetched,
                Stage::ArchiveFetched => Stage::Extracted,
                _ => Stage::Done,
            }
        },
    }
}

/// Whether the run has ended.
pub fn is_final(s: Stage) -> (r: bool)
    ensures
        r == (s == Stage::Done || s == Stage::Failed),
{
    match s {
        Stage::Done | Stage::Failed => true,
        _ => false,
    }
}

/// The stage reached from `s` after the given outcomes, one per step.
pub open spec fn run_spec(s: Stage, outcomes: Seq<bool>) -> Stage
    decreases outcomes.len(),
{
    if outcomes.len() == 0 {
        s
    } else {
        run_spec(next_spec(s, outcomes[0]), outcomes.drop_first())
    }
}

/// A run from `Idle` is done after five successful steps, and has failed as soon as one of
/// its first five steps fails; nothing after that changes its end.
pub proof fn lemma_run_ends(outcomes: Seq<bool>)
    requires
        outcomes.len() >= 5,
    ensures
        (forall|i: int| 0 <= i < 5 ==> #[trigger] outcomes[i]) ==> run_spec(Stage::Idle, outcomes) == Stage::Done,
        (exists|i: int| 0 <= i < 5 && !#[trigger] outcomes[i]) ==> run_spec(Stage::Idle, outcomes) == Stage::Failed,
{
    lemma_final_stays(Stage::Done, outcomes.subrange(5, outcomes.len() as int));
    lemma_final_stays(Stage::Failed, outcomes.subrange(5, outcomes.len() as int));
    lemma_run_split(Stage::Idle, outcomes, 5);
    let o = outcomes;
    reveal_with_fuel(run_spec, 6);
    assert(o.subrange(0, 5).drop_first() =~= o.subrange(1, 5));
    assert(o.subrange(1, 5).drop_first() =~= o.subrange(2, 5));
    assert(o.subrange(2, 5).drop_first() =~= o.subrange(3, 5));
    assert(o.subrange(3, 5).drop_first() =~= o.subrange(4, 5));
    assert(o.subrange(4, 5).drop_first() =~= o.subrange(5, 5));
    let s1 = next_spec(Stage::Idle, o[0]);
    let s2 = next_spec(s1, o[1]);
    let s3 = next_spec(s2, o[2]);
    let s4 = next_spec(s3, o[3]);
    let s5 = next_spec(s4, o[4]);
    assert(run_spec(Stage::Idle, o.subrange(0, 5)) == s5);
}

proof fn lemma_final_stays(s: Stage, outcomes: Seq<bool>)
    requires
        s == Stage::Done || s == Stage::Failed,
    ensures
        run_spec(s, outcomes) == s,
    decreases outcomes.len(),
{
    if outcomes.len() > 0 {
        lemma_final_stays(s, outcomes.drop_first());
    }
}

proof fn lemma_run_split(s: Stage, outcomes: Seq<bool>, n: int)
    requires
        0 <= n <= outcomes.len(),
    ensures
        run_spec(s, outcomes) == run_spec(
            run_spec(s, outcomes.subrange(0, n)),
            outcomes.subrange(n, outcomes.len() as int),
        ),
    decreases n,
{
    if n == 0 {
        assert(outcomes.subrange(0, outcomes.len() as int) =~= outcomes);
    } else {
        assert(outcomes.subrange(0, n).drop_first() =~= outcomes.drop_first().subrange(0, n - 1));
        assert(outcomes.subrange(n, outcomes.len() as int) =~= outcomes.drop_first().subrange(
            n - 1,
            outcomes.drop_first().len() as int,
        ));
        lemma_run_split(next_spec(s, outcomes[0]), outcomes.drop_first(), n - 1);
    }
}

/// The line that reports a failed run.
pub open spec fn error_line_spec(message: Seq<char>) -> Seq<char> {
    "\x1b[0;31mError:\x1b[0m "@ + message
}

pub fn error_line(message: &str) -> (r: String)
    ensures
        r@ == error_line_spec(message@),
{
    let mut line = String::from_str("\x1b[0;31mError:\x1b[0m ");
    line.append(message);
    line
}

/// The line that reports a run that succeeded.
pub fn success_line() -> (r: String)
    ensures
        r@ == "\x1b[0;32mSuccess\x1b[0m"@,
{
    String::from_str("\x1b[0;32mSuccess\x1b[0m")
}

} // verus!
