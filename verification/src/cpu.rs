//! CPU usage over time and the `/proc/stat` format.
use vstd::prelude::*;

use crate::error::SystemError;
use crate::text::{chars_of, lines, parse_decimal, parse_unsigned, split_lines, split_words, words};

verus! {

/// Aggregate CPU time counters, as the first line of `/proc/stat` gives
/// them.
#[derive(Debug, Clone, Copy, Default, PartialEq, Eq, Structural)]
pub struct CpuSample {
    /// Time spent idle.
    pub idle: u64,
    /// Sum of all the counters on the line.
    pub total: u64,
}

/// The numbers among `fields`, in order: each field that reads as a `u64`;
/// the others are skipped.
pub open spec fn parsed_numbers(fields: Seq<Seq<char>>) -> Seq<nat>
    decreases fields.len(),
{
    if fields.len() == 0 {
        seq![]
    } else {
        let rest = parsed_numbers(fields.drop_last());
        match parse_unsigned(fields.last(), u64::MAX as nat) {
            Some(n) => rest.push(n),
            None => rest,
        }
    }
}

/// The character sequences held by `ws`.
pub open spec fn views_of(ws: Seq<Vec<char>>) -> Seq<Seq<char>> {
    ws.map_values(|w: Vec<char>| w@)
}

/// The sum of `s`.
pub open spec fn seq_sum(s: Seq<nat>) -> nat
    decreases s.len(),
{
    if s.len() == 0 {
        0
    } else {
        seq_sum(s.drop_last()) + s.last()
    }
}

/// The counters of the first line of `/proc/stat` with text `contents`:
/// the numbers after the leading `cpu` word, the fourth of them being the
/// idle time (0 when there are fewer than four) and their sum the total.
/// Text without a line, or a first line of fewer than five words, is an
/// error with the given description.
pub open spec fn stat_counters(contents: Seq<char>) -> Result<(nat, nat), Seq<char>> {
    let ls = lines(contents);
    if ls.len() == 0 {
        Err("empty /proc/stat"@)
    } else {
        let fields = words(ls[0]);
        if fields.len() < 5 {
            Err("unexpected /proc/stat format"@)
        } else {
            let values = parsed_numbers(fields.skip(1));
            Ok(
                (
                    if values.len() > 3 {
                        values[3]
                    } else {
                        0
                    },
                    seq_sum(values),
                ),
            )
        }
    }
}

/// What reading `/proc/stat` with text `contents` gives: its counters
/// (see [`stat_counters`]), or an error when their sum does not fit a
/// `u64`.
pub open spec fn stat_result(contents: Seq<char>) -> Result<(nat, nat), Seq<char>> {
    match stat_counters(contents) {
        Ok((idle, total)) => if total > u64::MAX {
            Err("/proc/stat value out of range"@)
        } else {
            Ok((idle, total))
        },
        Err(what) => Err(what),
    }
}

proof fn lemma_sum_grows(s: Seq<nat>, i: int)
    requires
        0 <= i <= s.len(),
    ensures
        seq_sum(s.take(i)) <= seq_sum(s),
    decreases s.len() - i,
{
    if i < s.len() {
        lemma_sum_grows(s, i + 1);
        assert(s.take(i + 1).drop_last() =~= s.take(i));
    } else {
        assert(s.take(i) =~= s);
    }
}

/// The value of a field that reads as a `u64`.
pub open spec fn counter_value(field: Seq<char>) -> nat {
    parse_unsigned(field, u64::MAX as nat)->Some_0
}

proof fn lemma_parsed_numbers_all(fields: Seq<Seq<char>>)
    requires
        forall|k: int| 0 <= k < fields.len() ==> parse_unsigned(#[trigger] fields[k], u64::MAX as nat) is Some,
    ensures
        parsed_numbers(fields) == fields.map_values(|f: Seq<char>| counter_value(f)),
    decreases fields.len(),
{
    if fields.len() > 0 {
        let d = fields.drop_last();
        assert forall|k: int| 0 <= k < d.len() implies parse_unsigned(#[trigger] d[k], u64::MAX as nat) is Some by {
            assert(d[k] == fields[k]);
        }
        lemma_parsed_numbers_all(d);
        assert(parse_unsigned(fields[fields.len() - 1], u64::MAX as nat) is Some);
        assert(fields.map_values(|f: Seq<char>| counter_value(f)) =~= d.map_values(
            |f: Seq<char>| counter_value(f),
        ).push(counter_value(fields.last())));
    }
}

/// On a first line of `/proc/stat` whose fields after the label are all
/// counters, the idle time is the fourth counter and the total is the sum
/// of all of them.
pub proof fn law_stat_idle_is_fourth_counter(contents: Seq<char>)
    requires
        lines(contents).len() > 0,
        words(lines(contents)[0]).len() >= 5,
        forall|k: int|
            1 <= k < words(lines(contents)[0]).len() ==> parse_unsigned(
                #[trigger] words(lines(contents)[0])[k],
                u64::MAX as nat,
            ) is Some,
    ensures
        ({
            let w = words(lines(contents)[0]);
            stat_counters(contents) == Ok::<(nat, nat), Seq<char>>(
                (
                    counter_value(w[4]),
                    seq_sum(w.skip(1).map_values(|f: Seq<char>| counter_value(f))),
                ),
            )
        }),
{
    let w = words(lines(contents)[0]);
    let fs = w.skip(1);
    assert forall|k: int| 0 <= k < fs.len() implies parse_unsigned(#[trigger] fs[k], u64::MAX as nat) is Some by {
        assert(fs[k] == w[k + 1]);
    }
    lemma_parsed_numbers_all(fs);
    assert(fs[3] == w[4]);
}

/// The numbers of the fields of `ws` from index 1 on, and whether their
/// sum fits a `u64`.
fn numbers_after_first(ws: &Vec<Vec<char>>) -> (r: (Vec<u64>, bool))
    requires
        ws@.len() >= 1,
    ensures
        r.0@.len() == parsed_numbers(views_of(ws@).skip(1)).len(),
        forall|k: int| 0 <= k < r.0@.len() ==> r.0@[k] as nat == #[trigger] parsed_numbers(
            views_of(ws@).skip(1),
        )[k],
        r.1 == (seq_sum(parsed_numbers(views_of(ws@).skip(1))) <= u64::MAX),
{
    let ghost fs = views_of(ws@).skip(1);
    let mut out: Vec<u64> = Vec::new();
    let mut sum: u128 = 0;
    let mut fits = true;
    let n = ws.len();
    let mut i: usize = 1;
    while i < n
        invariant
            1 <= i <= n,
            n == ws@.len(),
            fs == views_of(ws@).skip(1),
            out@.len() == parsed_numbers(fs.take(i - 1)).len(),
            forall|k: int| 0 <= k < out@.len() ==> out@[k] as nat == #[trigger] parsed_numbers(
                fs.take(i - 1),
            )[k],
            fits ==> sum == seq_sum(parsed_numbers(fs.take(i - 1))),
            fits == (seq_sum(parsed_numbers(fs.take(i - 1))) <= u64::MAX),
        decreases n - i,
    {
        assert(fs.take(i as int).drop_last() =~= fs.take(i - 1));
        assert(fs[i - 1] == ws@[i as int]@);
        assert(fs.take(i as int).last() == ws@[i as int]@);
        let ghost before = parsed_numbers(fs.take(i - 1));
        let ghost old_out = out@;
        let ghost after = parsed_numbers(fs.take(i as int));
        assert(fs.take(i as int).last() == fs[i - 1]);
        match parse_decimal(&ws[i], u64::MAX) {
            Some(x) => {
                out.push(x);
                if fits {
                    let next = sum + x as u128;
                    if next > u64::MAX as u128 {
                        fits = false;
                    } else {
                        sum = next;
                    }
                }
                proof {
                    assert(after == before.push(x as nat));
                    assert(after.drop_last() =~= before);
                    assert(seq_sum(after) == seq_sum(before) + x);
                    assert forall|k: int| 0 <= k < out@.len() implies out@[k] as nat
                        == #[trigger] parsed_numbers(fs.take(i + 1 - 1))[k] by {
                        if k < out@.len() - 1 {
                            assert(out@[k] == old_out[k]);
                            assert(after[k] == before[k]);
                            assert(old_out[k] as nat == before[k]);
                        } else {
                            assert(k == before.len());
                            assert(out@[k] == x);
                            assert(after[k] == x);
                        }
                    }
                }
            },
            None => {
                assert(after == before);
            },
        }
        i = i + 1;
    }
    assert(fs.take(n - 1) =~= fs);
    (out, fits)
}

/// Reads the counters of the first line of `/proc/stat` with text
/// `contents`, together with whether they fit a `u64`.
fn scan_stat(contents: &str) -> (r: Result<(CpuSample, bool), SystemError>)
    ensures
        match stat_counters(contents@) {
            Ok((idle, total)) => r matches Ok((s, fits)) && fits == (total <= u64::MAX) && (fits
                ==> s.idle == idle && s.total == total),
            Err(what) => r matches Err(SystemError::Parse(w)) && w@ == what,
        },
{
    let ls = split_lines(&chars_of(contents));
    if ls.len() == 0 {
        return Err(SystemError::parse("empty /proc/stat"));
    }
    let fields = split_words(&ls[0]);
    assert(ls@[0]@ == lines(contents@)[0]);
    let ghost spec_fields = words(lines(contents@)[0]);
    assert(views_of(fields@) =~= spec_fields);
    if fields.len() < 5 {
        return Err(SystemError::parse("unexpected /proc/stat format"));
    }
    let (values, fits) = numbers_after_first(&fields);
    if !fits {
        return Ok((CpuSample { idle: 0, total: 0 }, false));
    }
    let ghost vs = parsed_numbers(spec_fields.skip(1));
    let idle: u64 = if values.len() > 3 {
        values[3]
    } else {
        0
    };
    let mut total: u64 = 0;
    for i in 0..values.len()
        invariant
            values@.len() == vs.len(),
            forall|k: int| 0 <= k < values@.len() ==> values@[k] as nat == #[trigger] vs[k],
            seq_sum(vs) <= u64::MAX,
            total == seq_sum(vs.take(i as int)),
    {
        proof {
            lemma_sum_grows(vs, i + 1);
            assert(vs.take(i + 1).drop_last() =~= vs.take(i as int));
        }
        total = total + values[i];
    }
    assert(vs.take(vs.len() as int) =~= vs);
    Ok((CpuSample { idle, total }, true))
}

/// Reads the counters of the first line of `/proc/stat` with text
/// `contents`; see [`stat_result`].
pub fn parse_stat(contents: &str) -> (r: Result<CpuSample, SystemError>)
    ensures
        match stat_result(contents@) {
            Ok((idle, total)) => r matches Ok(s) && s.idle == idle && s.total == total,
            Err(what) => r matches Err(SystemError::Parse(w)) && w@ == what,
        },
{
    match scan_stat(contents) {
        Ok((s, fits)) => if fits {
            Ok(s)
        } else {
            Err(SystemError::parse("/proc/stat value out of range"))
        },
        Err(e) => Err(e),
    }
}

/// The sample that `contents` gives, or the zero sample when it gives
/// none.
pub open spec fn sample_or_zero(contents: Seq<char>) -> CpuSample {
    match stat_result(contents) {
        Ok((idle, total)) => CpuSample { idle: idle as u64, total: total as u64 },
        Err(_) => CpuSample { idle: 0, total: 0 },
    }
}

/// `a - b`, or 0 when `b` exceeds `a`.
pub open spec fn sat_sub(a: u64, b: u64) -> u64 {
    if a >= b {
        (a - b) as u64
    } else {
        0
    }
}

/// One reading of CPU usage from baseline `prev` and the text `contents`
/// of `/proc/stat`: the idle and total time elapsed since the baseline and
/// the new baseline. A failed reading keeps the baseline.
pub open spec fn cpu_step(prev: CpuSample, contents: Seq<char>) -> (
    Result<(u64, u64), Seq<char>>,
    CpuSample,
) {
    match stat_result(contents) {
        Ok((idle, total)) => (
            Ok((sat_sub(idle as u64, prev.idle), sat_sub(total as u64, prev.total))),
            CpuSample { idle: idle as u64, total: total as u64 },
        ),
        Err(what) => (Err(what), prev),
    }
}

/// Provides CPU usage over time by comparing two snapshots.
pub struct CpuProvider {
    prev: CpuSample,
}

impl View for CpuProvider {
    type V = CpuSample;

    /// The baseline sample the next reading is compared with.
    closed spec fn view(&self) -> CpuSample {
        self.prev
    }
}

impl CpuProvider {
    /// Creates a provider whose baseline is the sample that the text
    /// `stat_contents` of `/proc/stat` gives, or the zero sample when it
    /// gives none (pass empty text when the file cannot be read).
    pub fn new(stat_contents: &str) -> (p: CpuProvider)
        ensures
            p@ == sample_or_zero(stat_contents@),
    {
        let prev = match parse_stat(stat_contents) {
            Ok(s) => s,
            Err(_) => CpuSample { idle: 0, total: 0 },
        };
        CpuProvider { prev }
    }

    /// Reads CPU time since the last reading from the text `stat_contents`
    /// of `/proc/stat`: the idle and total time elapsed, each 0 when its
    /// counter went backwards. The sample becomes the new baseline; a text
    /// that gives no sample is an error and keeps the baseline.
    pub fn read_delta(&mut self, stat_contents: &str) -> (r: Result<(u64, u64), SystemError>)
        ensures
            final(self)@ == cpu_step(old(self)@, stat_contents@).1,
            match cpu_step(old(self)@, stat_contents@).0 {
                Ok(d) => r matches Ok(x) && x == d,
                Err(what) => r matches Err(SystemError::Parse(w)) && w@ == what,
            },
    {
        let current = match parse_stat(stat_contents) {
            Ok(s) => s,
            Err(e) => return Err(e),
        };
        let delta_idle = current.idle.saturating_sub(self.prev.idle);
        let delta_total = current.total.saturating_sub(self.prev.total);
        self.prev = current;
        Ok((delta_idle, delta_total))
    }
}

/// Reading the same counters twice in a row reports no elapsed time the
/// second time.
pub proof fn law_cpu_rereading_is_zero(prev: CpuSample, contents: Seq<char>)
    requires
        stat_result(contents) is Ok,
    ensures
        cpu_step(cpu_step(prev, contents).1, contents).0 == Ok::<(u64, u64), Seq<char>>((0, 0)),
{
}

/// A reading's baseline depends only on the text read, not on the earlier
/// baseline, once the text gives a sample.
pub proof fn law_cpu_baseline_is_last_sample(p: CpuSample, q: CpuSample, contents: Seq<char>)
    requires
        stat_result(contents) is Ok,
    ensures
        cpu_step(p, contents).1 == cpu_step(q, contents).1,
        cpu_step(p, contents).1 == sample_or_zero(contents),
{
}

} // verus!
