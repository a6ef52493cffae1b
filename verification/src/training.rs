//! The training-session summary: folds the linear phase list of a decoded
//! session into nested repeat blocks and renders a human-readable
//! description.  This consumes the protocol; the transport itself never
//! looks inside the files it carries.

use vstd::prelude::*;
use crate::proto::{decode_session_phases, session_phases, PhaseRecord};
use crate::text::{decimal_string, spec_decimal};

verus! {

/// A block of a training session: a single phase with its goal duration in
/// milliseconds, or a repeat block over a run of blocks.
pub enum TrainingBlock {
    Repeat { id: u32, times: u32, block: Vec<TrainingBlock> },
    Phase { id: u32, name: String, duration: u64 },
}

/// The identifier of a block.
pub open spec fn spec_id(b: TrainingBlock) -> u32 {
    match b {
        TrainingBlock::Repeat { id, .. } => id,
        TrainingBlock::Phase { id, .. } => id,
    }
}

/// The total duration of a block in milliseconds: a repeat block counts its
/// children once per repetition.
pub open spec fn spec_duration(b: TrainingBlock) -> int
    decreases b, 0int,
{
    match b {
        TrainingBlock::Phase { duration, .. } => duration as int,
        TrainingBlock::Repeat { times, block, .. } => times * spec_duration_sum(
            block,
            block.len() as int,
        ),
    }
}

/// The summed duration of the first `n` blocks of a run.
pub open spec fn spec_duration_sum(block: Vec<TrainingBlock>, n: int) -> int
    decreases block, n,
    via spec_duration_sum_decreases
{
    if n <= 0 || n > block.len() {
        0
    } else {
        spec_duration_sum(block, n - 1) + spec_duration(block[n - 1])
    }
}

#[via_fn]
proof fn spec_duration_sum_decreases(block: Vec<TrainingBlock>, n: int) {
    if 0 < n <= block.len() {
        assert(decreases_to!(block => block[n - 1]));
    }
}

/// The durations in a block stay within the machine range: every inner sum
/// and every product fits in a 64-bit count of milliseconds.
pub open spec fn spec_fits(b: TrainingBlock) -> bool
    decreases b, 0int,
{
    match b {
        TrainingBlock::Phase { .. } => true,
        TrainingBlock::Repeat { times, block, .. } => {
            &&& spec_all_fit(block, block.len() as int)
            &&& spec_duration_sum(block, block.len() as int) <= u64::MAX
            &&& times * spec_duration_sum(block, block.len() as int) <= u64::MAX
        },
    }
}

/// The first `n` blocks of a run all fit.
pub open spec fn spec_all_fit(block: Vec<TrainingBlock>, n: int) -> bool
    decreases block, n,
    via spec_all_fit_decreases
{
    if n <= 0 || n > block.len() {
        true
    } else {
        spec_all_fit(block, n - 1) && spec_fits(block[n - 1])
    }
}

#[via_fn]
proof fn spec_all_fit_decreases(block: Vec<TrainingBlock>, n: int) {
    if 0 < n <= block.len() {
        assert(decreases_to!(block => block[n - 1]));
    }
}

/// Durations never count backwards: every duration is nonnegative.
pub proof fn lemma_duration_nonneg(b: TrainingBlock)
    ensures
        spec_duration(b) >= 0,
    decreases b, 0int,
{
    match b {
        TrainingBlock::Phase { .. } => {},
        TrainingBlock::Repeat { times, block, .. } => {
            lemma_duration_sum_nonneg(block, block.len() as int);
            assert(times * spec_duration_sum(block, block.len() as int) >= 0) by (nonlinear_arith)
                requires
                    times >= 0,
                    spec_duration_sum(block, block.len() as int) >= 0,
            ;
        },
    }
}

/// Partial sums of durations are nonnegative.
pub proof fn lemma_duration_sum_nonneg(block: Vec<TrainingBlock>, n: int)
    requires
        n <= block.len(),
    ensures
        spec_duration_sum(block, n) >= 0,
    decreases block, n,
{
    if n > 0 {
        lemma_duration_sum_nonneg(block, n - 1);
        lemma_duration_nonneg(block[n - 1]);
    }
}

impl TrainingBlock {
    /// The block for one decoded phase: identifiers are one-based, and the
    /// goal duration collapses to milliseconds, each missing field counting
    /// as zero.
    pub fn from(id: u32, phase: &PhaseRecord) -> (r: TrainingBlock)
        requires
            id < u32::MAX,
        ensures
            r matches TrainingBlock::Phase { id: rid, name, duration } && rid == id + 1 && name@
                == phase.name@ && duration == spec_phase_millis(*phase),
    {
        let hours: u64 = match phase.hours {
            Some(h) => h as u64,
            None => 0,
        };
        let minutes: u64 = match phase.minutes {
            Some(m) => m as u64,
            None => 0,
        };
        let seconds: u64 = match phase.seconds {
            Some(s) => s as u64,
            None => 0,
        };
        let millis: u64 = match phase.millis {
            Some(m) => m as u64,
            None => 0,
        };
        let duration = millis + 1000 * (seconds + 60 * minutes + 3600 * hours);
        TrainingBlock::Phase { id: id + 1, name: phase.name.clone(), duration }
    }

    /// The identifier of the block.
    pub fn id(&self) -> (r: u32)
        ensures
            r == spec_id(*self),
    {
        match self {
            TrainingBlock::Repeat { id, .. } => *id,
            TrainingBlock::Phase { id, .. } => *id,
        }
    }

    /// The total duration of the block in milliseconds, or nothing where a
    /// sum or product would not fit the machine range.
    pub fn try_duration(&self) -> (r: Option<u64>)
        ensures
            r is Some <==> spec_fits(*self),
            r matches Some(d) ==> d == spec_duration(*self),
        decreases *self, 0int,
    {
        match self {
            TrainingBlock::Phase { duration, .. } => Some(*duration),
            TrainingBlock::Repeat { times, block, .. } => {
                match try_duration_sum(block) {
                    Some(total) => {
                        let r = (*times as u64).checked_mul(total);
                        proof {
                            if r is Some {
                                assert((*times as int) * (total as int) == spec_duration(*self));
                            }
                        }
                        r
                    },
                    None => None,
                }
            },
        }
    }

    /// The total duration, on a block whose sums fit the machine range.
    pub fn duration(&self) -> (r: u64)
        requires
            spec_fits(*self),
        ensures
            r == spec_duration(*self),
    {
        match self.try_duration() {
            Some(d) => d,
            None => vstd::pervasive::unreached(),
        }
    }

    /// The duration of the block counted once: for a repeat block, the sum
    /// of its children without the repetition factor.
    pub fn inner_duration(&self) -> (r: Option<u64>)
        ensures
            r matches Some(d) ==> match *self {
                TrainingBlock::Phase { duration, .. } => d == duration,
                TrainingBlock::Repeat { block, .. } => d == spec_duration_sum(
                    block,
                    block.len() as int,
                ),
            },
        decreases *self, 0int,
    {
        match self {
            TrainingBlock::Phase { duration, .. } => Some(*duration),
            TrainingBlock::Repeat { block, .. } => try_duration_sum(block),
        }
    }
}

/// Sums the durations of a run of blocks, or nothing where a sum would not
/// fit the machine range.
pub fn try_duration_sum(block: &Vec<TrainingBlock>) -> (r: Option<u64>)
    ensures
        r is Some <==> spec_all_fit(*block, block@.len() as int) && spec_duration_sum(
            *block,
            block@.len() as int,
        ) <= u64::MAX,
        r matches Some(d) ==> d == spec_duration_sum(*block, block@.len() as int),
    decreases *block, block@.len() as int + 1,
{
    let mut total: u64 = 0;
    let mut i: usize = 0;
    while i < block.len()
        invariant
            i <= block@.len(),
            spec_all_fit(*block, i as int),
            total == spec_duration_sum(*block, i as int),
        decreases block@.len() - i,
    {
        proof {
            assert(decreases_to!(*block => block[i as int]));
        }
        let d = match block[i].try_duration() {
            Some(d) => d,
            None => {
                proof {
                    lemma_unfit_prefix(*block, i as int);
                }
                return None;
            },
        };
        let next = match total.checked_add(d) {
            Some(next) => next,
            None => {
                proof {
                    lemma_duration_sum_grows(*block, i as int + 1, block@.len() as int);
                }
                return None;
            },
        };
        total = next;
        i += 1;
    }
    Some(total)
}

/// A run with an unfit block is unfit.
proof fn lemma_unfit_prefix(block: Vec<TrainingBlock>, i: int)
    requires
        0 <= i < block.len(),
        !spec_fits(block[i]),
    ensures
        !spec_all_fit(block, block.len() as int),
    decreases block.len() - i,
{
    if i < block.len() - 1 {
        lemma_unfit_prefix_step(block, i, block.len() as int);
    }
}

/// Unfitness at one index propagates to any longer prefix.
proof fn lemma_unfit_prefix_step(block: Vec<TrainingBlock>, i: int, n: int)
    requires
        0 <= i < n <= block.len(),
        !spec_fits(block[i]),
    ensures
        !spec_all_fit(block, n),
    decreases n,
{
    if i < n - 1 {
        lemma_unfit_prefix_step(block, i, n - 1);
    }
}

/// Partial sums only grow: a sum over a longer prefix is at least the sum
/// over a shorter one.
proof fn lemma_duration_sum_grows(block: Vec<TrainingBlock>, i: int, n: int)
    requires
        0 <= i <= n <= block.len(),
    ensures
        spec_duration_sum(block, i) <= spec_duration_sum(block, n),
    decreases n,
{
    if i < n {
        lemma_duration_sum_grows(block, i, n - 1);
        lemma_duration_nonneg(block[n - 1]);
    }
}

/// Blocks of a fit run are each fit.
proof fn lemma_all_fit_at(block: Vec<TrainingBlock>, i: int, n: int)
    requires
        spec_all_fit(block, n),
        0 <= i < n <= block.len(),
    ensures
        spec_fits(block[i]),
    decreases n,
{
    if i < n - 1 {
        lemma_all_fit_at(block, i, n - 1);
    }
}

/// Splits a run of blocks at the first block whose identifier is
/// `pick_id`: everything before it, and everything from it on.  A run
/// without that identifier comes back whole on the first side.
pub fn split_at(vector: Vec<TrainingBlock>, pick_id: u32) -> (r: (
    Vec<TrainingBlock>,
    Vec<TrainingBlock>,
))
    ensures
        r.0@ + r.1@ == vector@,
        forall|k: int| 0 <= k < r.0@.len() ==> spec_id(#[trigger] r.0@[k]) != pick_id,
        r.1@.len() > 0 ==> spec_id(r.1@[0]) == pick_id,
{
    let mut rest = vector;
    let mut first: Vec<TrainingBlock> = Vec::new();
    let mut second: Vec<TrainingBlock> = Vec::new();
    while rest.len() > 0
        invariant
            first@ + second@ + rest@ == vector@,
            forall|k: int| 0 <= k < first@.len() ==> spec_id(#[trigger] first@[k]) != pick_id,
            second@.len() > 0 ==> spec_id(second@[0]) == pick_id,
            second@.len() == 0 ==> first@ + rest@ == vector@,
        decreases rest@.len(),
    {
        let item = rest.remove(0);
        let use_second = second.len() > 0 || item.id() == pick_id;
        if use_second {
            second.push(item);
        } else {
            first.push(item);
        }
        proof {
            assert(first@ + second@ + rest@ =~= vector@);
            if second@.len() == 0 {
                assert(first@ + rest@ =~= vector@);
            }
        }
    }
    proof {
        assert(first@ + second@ =~= vector@);
    }
    (first, second)
}

impl TrainingBlock {
    /// Folds a decoded phase list into a block tree: each phase that names
    /// a back-jump gathers the run of already-emitted blocks starting at
    /// the jumped-to identifier into a repeat block, and the whole sequence
    /// is wrapped in a top-level block repeated once.  A back-jump to an
    /// identifier that no emitted block carries yields nothing.
    pub fn new(phases: &Vec<PhaseRecord>) -> (r: Option<TrainingBlock>)
        requires
            phases@.len() < 0xffff_ffff,
        ensures
            r matches Some(b) ==> b matches TrainingBlock::Repeat { id, times, .. } && id == 0
                && times == 1,
            (forall|i: int|
                0 <= i < phases@.len() ==> (#[trigger] phases@[i]).jump_index is None) ==> r
                is Some,
    {
        let mut result: Vec<TrainingBlock> = Vec::new();
        let mut i: usize = 0;
        while i < phases.len()
            invariant
                phases@.len() < 0xffff_ffff,
                i <= phases@.len(),
            decreases phases@.len() - i,
        {
            let phase = &phases[i];
            result.push(TrainingBlock::from(i as u32, phase));
            match phase.jump_index {
                Some(jump_id) => {
                    let split = split_at(result, jump_id);
                    result = split.0;
                    let block = split.1;
                    let times = match phase.repeat_count {
                        Some(value) => {
                            if value == 0xffff_ffffu32 {
                                return None;
                            }
                            value + 1
                        },
                        None => 0,
                    };
                    if block.len() > 0 {
                        let block_id = block[0].id();
                        result.push(TrainingBlock::Repeat { id: block_id, times, block });
                    } else {
                        return None;
                    }
                },
                None => {},
            }
            i += 1;
        }
        Some(TrainingBlock::Repeat { id: 0, times: 1, block: result })
    }
}

/// The rendering of a duration: hours, minutes and seconds, each omitted
/// when zero, except that a zero duration still shows its zero seconds.
pub open spec fn spec_human_duration(ms: u64) -> Seq<char> {
    let total = ms as int / 1000;
    let hours = total / 3600;
    let minutes = (total % 3600) / 60;
    let seconds = total % 60;
    (if hours > 0 {
        spec_decimal(hours as nat) + "h"@
    } else {
        Seq::<char>::empty()
    }) + (if minutes > 0 {
        spec_decimal(minutes as nat) + "'"@
    } else {
        Seq::<char>::empty()
    }) + (if seconds > 0 || minutes + hours == 0 {
        spec_decimal(seconds as nat) + "''"@
    } else {
        Seq::<char>::empty()
    })
}

/// Renders a duration in milliseconds the way the summary shows it.
pub fn human_duration(ms: u64) -> (r: String)
    ensures
        r@ == spec_human_duration(ms),
{
    let total = ms / 1000;
    let hours = total / 3600;
    let minutes = (total % 3600) / 60;
    let seconds = total % 60;
    let mut s = String::new();
    if hours > 0 {
        let num = decimal_string(hours);
        s.append(num.as_str());
        s.append("h");
    }
    if minutes > 0 {
        let num = decimal_string(minutes);
        s.append(num.as_str());
        s.append("'");
    }
    if seconds > 0 || minutes + hours == 0 {
        let num = decimal_string(seconds);
        s.append(num.as_str());
        s.append("''");
    }
    proof {
        assert(s@ =~= spec_human_duration(ms));
    }
    s
}

/// The text with a tab inserted after every newline, as a nested block is
/// indented one level deeper.
pub open spec fn spec_indent(s: Seq<char>) -> Seq<char>
    decreases s.len(),
{
    if s.len() == 0 {
        s
    } else if s[0] == '\n' {
        seq!['\n', '\t'] + spec_indent(s.drop_first())
    } else {
        seq![s[0]] + spec_indent(s.drop_first())
    }
}

/// Indentation processes one trailing character at a time.
proof fn lemma_indent_snoc(a: Seq<char>, c: char)
    ensures
        spec_indent(a.push(c)) == spec_indent(a) + (if c == '\n' {
            seq!['\n', '\t']
        } else {
            seq![c]
        }),
    decreases a.len(),
{
    let tail: Seq<char> = if c == '\n' {
        seq!['\n', '\t']
    } else {
        seq![c]
    };
    if a.len() == 0 {
        assert(a.push(c) =~= seq![c]);
        assert(seq![c].drop_first() =~= Seq::<char>::empty());
        assert(spec_indent(Seq::<char>::empty()).len() == 0);
        assert(spec_indent(a.push(c)) =~= spec_indent(a) + tail);
    } else {
        assert(a.push(c).drop_first() =~= a.drop_first().push(c));
        lemma_indent_snoc(a.drop_first(), c);
        assert(spec_indent(a.push(c)) =~= spec_indent(a) + tail);
    }
}

/// Re-indents a rendered block for nesting: a tab follows every newline.
fn indent_newlines(text: &str) -> (r: String)
    ensures
        r@ == spec_indent(text@),
{
    let n = text.unicode_len();
    let mut s = String::new();
    let mut start: usize = 0;
    let mut i: usize = 0;
    while i < n
        invariant
            start <= i <= n,
            n == text@.len(),
            spec_indent(text@.subrange(0, i as int)) == s@ + text@.subrange(
                start as int,
                i as int,
            ),
        decreases n - i,
    {
        proof {
            reveal_strlit("\n\t");
            assert(("\n\t")@ =~= seq!['\n', '\t']);
            assert(text@.subrange(0, i as int + 1) =~= text@.subrange(0, i as int).push(
                text@[i as int],
            ));
            lemma_indent_snoc(text@.subrange(0, i as int), text@[i as int]);
        }
        if text.get_char(i) == '\n' {
            let segment = text.substring_char(start, i);
            s.append(segment);
            s.append("\n\t");
            proof {
                assert(spec_indent(text@.subrange(0, i as int + 1)) =~= s@ + text@.subrange(
                    i as int + 1,
                    i as int + 1,
                ));
            }
            start = i + 1;
        } else {
            proof {
                assert(spec_indent(text@.subrange(0, i as int + 1)) =~= s@ + text@.subrange(
                    start as int,
                    i as int + 1,
                ));
            }
        }
        i += 1;
    }
    let segment = text.substring_char(start, n);
    s.append(segment);
    proof {
        assert(text@.subrange(0, n as int) =~= text@);
        assert(s@ =~= spec_indent(text@));
    }
    s
}

/// The rendering of a block: a phase shows its name and duration; a
/// repeat block shows its repetition count and total duration, followed by
/// each child on its own line, indented one level deeper.
pub open spec fn spec_describe(b: TrainingBlock) -> Seq<char>
    decreases b, 0int,
{
    match b {
        TrainingBlock::Phase { name, duration, .. } => name@ + " "@ + spec_human_duration(
            duration,
        ),
        TrainingBlock::Repeat { times, block, .. } => "Repeat x"@ + spec_decimal(times as nat)
            + " ["@ + spec_human_duration(
            spec_duration_sum(block, block.len() as int) as u64,
        ) + "]"@ + spec_describe_children(block, block.len() as int),
    }
}

/// The rendered lines of the first `n` children of a repeat block.
pub open spec fn spec_describe_children(block: Vec<TrainingBlock>, n: int) -> Seq<char>
    decreases block, n,
    via spec_describe_children_decreases
{
    if n <= 0 || n > block.len() {
        Seq::empty()
    } else {
        spec_describe_children(block, n - 1) + "\n\t"@ + spec_indent(
            spec_describe(block[n - 1]),
        )
    }
}

#[via_fn]
proof fn spec_describe_children_decreases(block: Vec<TrainingBlock>, n: int) {
    if 0 < n <= block.len() {
        assert(decreases_to!(block => block[n - 1]));
    }
}

impl TrainingBlock {
    /// Renders the block: a phase shows its name and duration; a repeat
    /// block shows its repetition count and total duration, with each child
    /// on its own indented line.
    pub fn describe(&self) -> (r: String)
        requires
            spec_fits(*self),
        ensures
            r@ == spec_describe(*self),
        decreases *self, 0int,
    {
        match self {
            TrainingBlock::Phase { name, duration, .. } => {
                let mut s = name.clone();
                s.append(" ");
                let rendered = human_duration(*duration);
                s.append(rendered.as_str());
                proof {
                    assert(s@ =~= spec_describe(*self));
                }
                s
            },
            TrainingBlock::Repeat { times, block, .. } => {
                let inner = match try_duration_sum(block) {
                    Some(d) => d,
                    None => vstd::pervasive::unreached(),
                };
                let mut s = String::from_str("Repeat x");
                let num = decimal_string(*times as u64);
                s.append(num.as_str());
                s.append(" [");
                let rendered = human_duration(inner);
                s.append(rendered.as_str());
                s.append("]");
                let ghost header = s@;
                proof {
                    assert(decreases_to!(*self => *block));
                    assert(header =~= "Repeat x"@ + spec_decimal(*times as nat) + " ["@
                        + spec_human_duration(
                        spec_duration_sum(*block, block@.len() as int) as u64,
                    ) + "]"@);
                    assert(s@ =~= header + spec_describe_children(*block, 0));
                }
                let mut i: usize = 0;
                while i < block.len()
                    invariant
                        i <= block@.len(),
                        spec_all_fit(*block, block@.len() as int),
                        decreases_to!(*self => *block),
                        s@ == header + spec_describe_children(*block, i as int),
                    decreases block@.len() - i,
                {
                    proof {
                        assert(decreases_to!(*block => block[i as int]));
                        lemma_all_fit_at(*block, i as int, block@.len() as int);
                    }
                    s.append("\n\t");
                    let child = block[i].describe();
                    let indented = indent_newlines(child.as_str());
                    s.append(indented.as_str());
                    proof {
                        assert(s@ =~= header + spec_describe_children(*block, i as int + 1));
                    }
                    i += 1;
                }
                proof {
                    assert(s@ =~= spec_describe(*self));
                }
                s
            },
        }
    }
}

/// Renders the summary of a decoded phase list: the folded block tree, or
/// nothing when the phase list does not fold or its durations do not fit
/// the machine range.
pub fn describe_phases(phases: &Vec<PhaseRecord>) -> (r: Option<String>)
    ensures
        r matches Some(d) ==> exists|b: TrainingBlock|
            #[trigger] spec_describe(b) == d@ && spec_fits(b) && spec_id(b) == 0,
{
    if phases.len() >= 0xffff_ffff {
        return None;
    }
    match TrainingBlock::new(phases) {
        Some(block) => match block.try_duration() {
            Some(_) => {
                let description = block.describe();
                proof {
                    assert(spec_describe(block) == description@ && spec_fits(block) && spec_id(
                        block,
                    ) == 0);
                }
                Some(description)
            },
            None => None,
        },
        None => None,
    }
}

/// Tries to parse a file as a training-session target and renders a
/// human-readable description of its phases.
pub fn describe_favourite(data: Vec<u8>) -> (r: Option<String>)
    ensures
        session_phases(data@) is None ==> r is None,
{
    match decode_session_phases(&data) {
        Some(phases) => describe_phases(&phases),
        None => None,
    }
}

/// The goal duration of one decoded phase, in milliseconds.
pub open spec fn spec_phase_millis(phase: PhaseRecord) -> u64 {
    ((match phase.millis {
        Some(m) => m as int,
        None => 0,
    } + 1000 * ((match phase.seconds {
        Some(s) => s as int,
        None => 0,
    }) + 60 * (match phase.minutes {
        Some(m) => m as int,
        None => 0,
    }) + 3600 * (match phase.hours {
        Some(h) => h as int,
        None => 0,
    }))) as u64)
}

} // verus!
