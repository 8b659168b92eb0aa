use vstd::prelude::*;

use crate::shape::{lemma_shaped_len, shaped, shaped_triple};
use crate::level::{
    combine_fits, combine_waves, combined_emit, duration, is_high, is_signal, Level,
};

verus! {

/// The merger's mathematical model of a polarity run: output polarity and an
/// exact, unbounded duration in engine cycles.
pub ghost struct Run {
    pub high: bool,
    pub dur: int,
}

/// The merger's starting accumulator: a zero-length low run.
pub open spec fn seed_run() -> Run {
    Run { high: false, dur: 0 }
}

/// The run accumulated by the merger after absorbing a level stream: equal
/// polarities coalesce into one run, a polarity change starts a fresh run,
/// `Nop`s change nothing.
pub open spec fn merge_state(levels: Seq<Level>, init: Run) -> Run
    decreases levels.len(),
{
    if levels.len() == 0 {
        init
    } else {
        let prev = merge_state(levels.drop_last(), init);
        let x = levels.last();
        if !is_signal(x) {
            prev
        } else if is_high(x) == prev.high {
            Run { high: prev.high, dur: prev.dur + duration(x) }
        } else {
            Run { high: is_high(x), dur: duration(x) }
        }
    }
}

/// The finished runs the merger has handed downstream after absorbing a level
/// stream: one run per polarity change, each the fully coalesced run that ended
/// there. The run still accumulating is not yet emitted.
pub open spec fn merge_emits(levels: Seq<Level>, init: Run) -> Seq<Run>
    decreases levels.len(),
{
    if levels.len() == 0 {
        Seq::empty()
    } else {
        let prev_emits = merge_emits(levels.drop_last(), init);
        let prev = merge_state(levels.drop_last(), init);
        let x = levels.last();
        if is_signal(x) && is_high(x) != prev.high {
            prev_emits.push(prev)
        } else {
            prev_emits
        }
    }
}

/// The polarity runs a level stream spells out literally: `Nop`s dropped, no
/// coalescing.
pub open spec fn runs_of(levels: Seq<Level>) -> Seq<Run>
    decreases levels.len(),
{
    if levels.len() == 0 {
        Seq::empty()
    } else {
        runs_of(levels.drop_last()) + if is_signal(levels.last()) {
            seq![Run { high: is_high(levels.last()), dur: duration(levels.last()) }]
        } else {
            Seq::empty()
        }
    }
}

/// A run as the 8-bit level the merger carries; exact whenever the duration
/// fits the hardware's 8-bit format.
pub open spec fn run_level(r: Run) -> Level {
    if r.high {
        Level::High(r.dur as u8)
    } else {
        Level::Low(r.dur as u8)
    }
}

/// Whether the merger's accumulator stays within the 8-bit duration the
/// hardware word format carries, at every point of the stream.
pub open spec fn merge_bounded(levels: Seq<Level>, init: Run) -> bool {
    forall|i: int|
        0 <= i <= levels.len() ==> merge_state(#[trigger] levels.take(i), init).dur <= u8::MAX
}

/// No two neighbouring runs share a polarity.
pub open spec fn alternating(runs: Seq<Run>) -> bool {
    forall|i: int| 0 <= i < runs.len() - 1 ==> runs[i].high != #[trigger] runs[i + 1].high
}

/// The run merger never emits two consecutive same-polarity runs: for every
/// input stream, the emitted runs strictly alternate polarity, and the run
/// still accumulating differs in polarity from the last one emitted.
pub proof fn lemma_merge_alternates(levels: Seq<Level>, init: Run)
    ensures
        alternating(merge_emits(levels, init)),
        merge_emits(levels, init).len() > 0 ==> merge_emits(levels, init).last().high
            != merge_state(levels, init).high,
    decreases levels.len(),
{
    if levels.len() > 0 {
        lemma_merge_alternates(levels.drop_last(), init);
        let prev_emits = merge_emits(levels.drop_last(), init);
        let emits = merge_emits(levels, init);
        if emits != prev_emits {
            assert forall|i: int| 0 <= i < emits.len() - 1 implies emits[i].high != #[trigger] emits[i
                + 1].high by {
                if i + 1 < prev_emits.len() {
                    assert(prev_emits[i].high != prev_emits[i + 1].high);
                }
            }
        }
    }
}

/// Scanning a concatenation is scanning the second part from where the first
/// part left off.
pub proof fn lemma_merge_state_append(a: Seq<Level>, b: Seq<Level>, init: Run)
    ensures
        merge_state(a + b, init) == merge_state(b, merge_state(a, init)),
    decreases b.len(),
{
    if b.len() == 0 {
        assert(a + b =~= a);
    } else {
        assert((a + b).drop_last() =~= a + b.drop_last());
        assert((a + b).last() == b.last());
        lemma_merge_state_append(a, b.drop_last(), init);
    }
}

/// Over a shaped level stream the merger's accumulator never exceeds the
/// chip-count parameter: a pattern's segments alternate polarity, so at most
/// the last segment of one offset bit and the first of the next — each at most
/// half the chip count — ever coalesce. In particular every intermediate
/// duration fits the 8-bit level format.
#[verifier::rlimit(60)]
pub proof fn lemma_shaped_bounded(bits: Seq<u8>, chip_count: u8)
    requires
        chip_count % 4 == 0,
    ensures
        merge_bounded(shaped(bits, chip_count), seed_run()),
        0 <= merge_state(shaped(bits, chip_count), seed_run()).dur <= chip_count / 2,
    decreases bits.len(),
{
    let cc = chip_count;
    let q = cc as int / 4;
    let h = cc as int / 2;
    assert(cc == 4 * q && h == 2 * q) by (nonlinear_arith)
        requires
            cc % 4 == 0,
            q == cc as int / 4,
            h == cc as int / 2,
    ;
    reveal_with_fuel(merge_state, 5);
    let full = shaped(bits, cc);
    if bits.len() == 0 {
        assert forall|i: int| 0 <= i <= full.len() implies merge_state(
            #[trigger] full.take(i),
            seed_run(),
        ).dur <= u8::MAX by {
            assert(full.take(i) =~= full);
        }
    } else {
        let b0 = bits.drop_last();
        let c = bits.last();
        let s0 = shaped(b0, cc);
        let t = shaped_triple(c, cc);
        lemma_shaped_bounded(b0, cc);
        lemma_shaped_len(b0, cc);
        let st0 = merge_state(s0, seed_run());
        let t0 = t[0];
        let t1 = t[1];
        let t2 = t[2];
        assert(is_signal(t0) && 0 <= duration(t0) <= h);
        assert(is_signal(t1) && duration(t1) == h && is_high(t1) != is_high(t0));
        assert(!is_signal(t2) || (0 <= duration(t2) <= h && is_high(t2) != is_high(t1)));
        assert(t.take(1).drop_last() =~= Seq::<Level>::empty());
        assert(t.take(1).last() == t0);
        assert(t.take(2).drop_last() =~= t.take(1));
        assert(t.take(2).last() == t1);
        assert(t.take(3) =~= t);
        assert(t.drop_last() =~= t.take(2));
        assert(t.last() == t2);
        let s1 = merge_state(t.take(1), st0);
        let s2 = merge_state(t.take(2), st0);
        let s3 = merge_state(t, st0);
        assert(0 <= s1.dur <= 2 * h && s1.high == is_high(t0));
        assert(s2 == Run { high: is_high(t1), dur: duration(t1) });
        assert(0 <= s3.dur <= h);
        assert forall|i: int| 0 <= i <= full.len() implies merge_state(
            #[trigger] full.take(i),
            seed_run(),
        ).dur <= u8::MAX by {
            if i <= s0.len() {
                assert(full.take(i) =~= s0.take(i));
                assert(merge_state(s0.take(i), seed_run()).dur <= u8::MAX);
            } else {
                let k = i - s0.len();
                assert(full.take(i) =~= s0 + t.take(k));
                lemma_merge_state_append(s0, t.take(k), seed_run());
            }
        }
        assert(full =~= s0 + t);
        lemma_merge_state_append(s0, t, seed_run());
    }
}

/// The merger, run in executable form over a level stream, carrying the seed
/// accumulator: returns exactly one output level per input level — `Nop`
/// everywhere except at polarity changes, where the finished run appears. The
/// finished runs of the output are precisely `merge_emits` of the input.
pub fn merge_levels(levels: &Vec<Level>) -> (r: Vec<Level>)
    requires
        merge_bounded(levels@, seed_run()),
    ensures
        r@.len() == levels@.len(),
        runs_of(r@) == merge_emits(levels@, seed_run()),
        forall|i: int|
            0 <= i < levels@.len() ==> r@[i] == combined_emit(
                run_level(merge_state(levels@.take(i), seed_run())),
                levels@[i],
            ),
{
    let mut r: Vec<Level> = Vec::new();
    let mut state = Level::Low(0);
    let mut i: usize = 0;
    while i < levels.len()
        invariant
            i <= levels@.len(),
            merge_bounded(levels@, seed_run()),
            r@.len() == i,
            is_signal(state),
            is_high(state) == merge_state(levels@.take(i as int), seed_run()).high,
            duration(state) == merge_state(levels@.take(i as int), seed_run()).dur,
            state == run_level(merge_state(levels@.take(i as int), seed_run())),
            runs_of(r@) == merge_emits(levels@.take(i as int), seed_run()),
            forall|k: int|
                0 <= k < i ==> r@[k] == combined_emit(
                    run_level(merge_state(levels@.take(k), seed_run())),
                    levels@[k],
                ),
        decreases levels@.len() - i,
    {
        let next = levels[i];
        proof {
            assert(levels@.take(i + 1).drop_last() =~= levels@.take(i as int));
            assert(levels@.take(i + 1).last() == levels@[i as int]);
            assert(merge_state(levels@.take(i + 1), seed_run()).dur <= u8::MAX);
            assert(combine_fits(state, next));
        }
        let ghost old_r = r@;
        let emitted = match combine_waves(&mut state, next) {
            Some(l) => l,
            None => Level::Nop,  // unreachable: a step always emits
        };
        r.push(emitted);
        proof {
            assert(r@.drop_last() =~= old_r);
            assert(runs_of(r@) =~= merge_emits(levels@.take(i + 1), seed_run()));
        }
        i = i + 1;
    }
    proof {
        assert(levels@.take(levels@.len() as int) =~= levels@);
    }
    r
}

} // verus!
