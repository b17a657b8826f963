//! Memory usage and the `/proc/meminfo` format.
use vstd::prelude::*;

use crate::error::SystemError;
use crate::text::{
    chars_eq, chars_of, lines, parse_decimal, parse_unsigned, split_lines, split_once,
    split_once_chars, split_words, trim, trim_chars, words,
};

verus! {

/// Snapshot of current memory usage.
#[derive(Debug, Clone, Copy)]
pub struct MemoryInfo {
    /// Total RAM in bytes.
    pub total_bytes: u64,
    /// Used RAM in bytes (total minus free minus buffers/cache where
    /// available).
    pub used_bytes: u64,
    /// Available RAM in bytes.
    pub available_bytes: u64,
}

/// Bytes in a mebibyte.
pub const MIB: u64 = 1048576;

impl MemoryInfo {
    /// Total memory in mebibytes, rounded down.
    pub fn total_mib(&self) -> (r: u64)
        ensures
            r == self.total_bytes / MIB,
    {
        self.total_bytes / (1024 * 1024)
    }

    /// Used memory in mebibytes, rounded down.
    pub fn used_mib(&self) -> (r: u64)
        ensures
            r == self.used_bytes / MIB,
    {
        self.used_bytes / (1024 * 1024)
    }
}

/// Linux implementation reading `/proc/meminfo`.
#[derive(Debug, Default, Clone, Copy)]
pub struct LinuxMemoryProvider;

/// The number a `/proc/meminfo` value starts with: its first word read as
/// a `u64`, or 0 when there is none or it is not a number.
pub open spec fn meminfo_number(value: Seq<char>) -> nat {
    let w = words(trim(value));
    if w.len() > 0 {
        match parse_unsigned(w[0], u64::MAX as nat) {
            Some(n) => n,
            None => 0,
        }
    } else {
        0
    }
}

/// The key and the number of a `/proc/meminfo` line: the trimmed text
/// before its first `:` and the number after it; none for a line without
/// `:`.
pub open spec fn meminfo_line(line: Seq<char>) -> Option<(Seq<char>, nat)> {
    match split_once(line, ':') {
        Some((k, v)) => Some((trim(k), meminfo_number(v))),
        None => None,
    }
}

/// Total and available memory in bytes (the numbers are in KiB) as the
/// last `MemTotal` and `MemAvailable` lines among `ls` give them.
pub open spec fn meminfo_scan(ls: Seq<Seq<char>>) -> (Option<nat>, Option<nat>)
    decreases ls.len(),
{
    if ls.len() == 0 {
        (None, None)
    } else {
        let prev = meminfo_scan(ls.drop_last());
        match meminfo_line(ls.last()) {
            Some((key, n)) => if key == "MemTotal"@ {
                (Some(n * 1024), prev.1)
            } else if key == "MemAvailable"@ {
                (prev.0, Some(n * 1024))
            } else {
                prev
            },
            None => prev,
        }
    }
}

/// Every number of every `/proc/meminfo` line in `ls` still fits a `u64`
/// once scaled from KiB to bytes.
pub open spec fn meminfo_fits(ls: Seq<Seq<char>>) -> bool {
    forall|i: int|
        0 <= i < ls.len() ==> match #[trigger] meminfo_line(ls[i]) {
            Some((_, n)) => n * 1024 <= u64::MAX,
            None => true,
        }
}

/// What reading `/proc/meminfo` with text `contents` gives.
/// A number that does not fit a `u64` once scaled to bytes is an error.
pub open spec fn meminfo_result(contents: Seq<char>) -> Result<(nat, nat), Seq<char>> {
    if !meminfo_fits(lines(contents)) {
        Err("/proc/meminfo value out of range"@)
    } else {
        match meminfo_scan(lines(contents)) {
            (None, _) => Err("MemTotal missing"@),
            (Some(_), None) => Err("MemAvailable missing"@),
            (Some(t), Some(a)) => Ok((t, a)),
        }
    }
}

fn number_of(value: &Vec<char>) -> (n: u64)
    ensures
        n as nat == meminfo_number(value@),
{
    let t = trim_chars(value);
    let w = split_words(&t);
    if w.len() > 0 {
        match parse_decimal(&w[0], u64::MAX) {
            Some(n) => n,
            None => 0,
        }
    } else {
        0
    }
}

fn line_of(line: &Vec<char>) -> (r: Option<(Vec<char>, u64)>)
    ensures
        match r {
            Some((k, n)) => meminfo_line(line@) == Some((k@, n as nat)),
            None => meminfo_line(line@) is None,
        },
{
    match split_once_chars(line, ':') {
        Some((k, v)) => Some((trim_chars(&k), number_of(&v))),
        None => None,
    }
}

/// Whether every number in `contents` still fits a `u64` once scaled from
/// KiB to bytes.
fn meminfo_in_range(contents: &str) -> (r: bool)
    ensures
        r == meminfo_fits(lines(contents@)),
{
    let ls = split_lines(&chars_of(contents));
    let ghost spec_ls = lines(contents@);
    for i in 0..ls.len()
        invariant
            spec_ls == lines(contents@),
            ls@.len() == spec_ls.len(),
            forall|k: int| 0 <= k < ls@.len() ==> (#[trigger] ls@[k])@ == spec_ls[k],
            forall|k: int|
                0 <= k < i ==> match #[trigger] meminfo_line(spec_ls[k]) {
                    Some((_, n)) => n * 1024 <= u64::MAX,
                    None => true,
                },
    {
        match line_of(&ls[i]) {
            Some((k, n)) => {
                if n > u64::MAX / 1024 {
                    proof {
                        let l = spec_ls[i as int];
                        assert(ls@[i as int]@ == l);
                        assert(meminfo_line(l) == Some((k@, n as nat)));
                        assert((n as nat) * 1024 > u64::MAX);
                        assert(!meminfo_fits(spec_ls));
                    }
                    return false;
                }
            },
            None => {},
        }
        assert(ls@[i as int]@ == spec_ls[i as int]);
    }
    true
}

/// Whether `line` of `/proc/meminfo` is a line for `key`: its trimmed text
/// before the first `:` is exactly `key`.
pub open spec fn meminfo_names(line: Seq<char>, key: Seq<char>) -> bool {
    match split_once(line, ':') {
        Some((k, _)) => trim(k) == key,
        None => false,
    }
}

/// The number of a `/proc/meminfo` line for `key` at index `i` of `ls`
/// that no later line for `key` follows gives the scan's value for `key`.
proof fn lemma_scan_last_line(ls: Seq<Seq<char>>, i: int, total: bool)
    requires
        0 <= i < ls.len(),
        meminfo_names(ls[i], if total { "MemTotal"@ } else { "MemAvailable"@ }),
        forall|j: int|
            i < j < ls.len() ==> !meminfo_names(
                #[trigger] ls[j],
                if total { "MemTotal"@ } else { "MemAvailable"@ },
            ),
    ensures
        ({
            let n = meminfo_line(ls[i])->Some_0.1 * 1024;
            if total {
                meminfo_scan(ls).0 == Some(n)
            } else {
                meminfo_scan(ls).1 == Some(n)
            }
        }),
    decreases ls.len(),
{
    reveal_strlit("MemTotal");
    reveal_strlit("MemAvailable");
    assert("MemTotal"@.len() == 8);
    assert("MemAvailable"@.len() == 12);
    let last = ls.len() - 1;
    if i < last {
        assert(!meminfo_names(ls[last], if total { "MemTotal"@ } else { "MemAvailable"@ }));
        assert(ls.drop_last()[i] == ls[i]);
        assert forall|j: int| i < j < ls.drop_last().len() implies !meminfo_names(
            #[trigger] ls.drop_last()[j],
            if total { "MemTotal"@ } else { "MemAvailable"@ },
        ) by {
            assert(ls.drop_last()[j] == ls[j]);
        }
        lemma_scan_last_line(ls.drop_last(), i, total);
    }
}

/// Without a `/proc/meminfo` line for `key` in `ls`, the scan has no value
/// for `key`.
proof fn lemma_scan_no_line(ls: Seq<Seq<char>>, total: bool)
    requires
        forall|j: int|
            0 <= j < ls.len() ==> !meminfo_names(
                #[trigger] ls[j],
                if total { "MemTotal"@ } else { "MemAvailable"@ },
            ),
    ensures
        if total {
            meminfo_scan(ls).0 is None
        } else {
            meminfo_scan(ls).1 is None
        },
    decreases ls.len(),
{
    reveal_strlit("MemTotal");
    reveal_strlit("MemAvailable");
    assert("MemTotal"@.len() == 8);
    assert("MemAvailable"@.len() == 12);
    if ls.len() > 0 {
        assert forall|j: int| 0 <= j < ls.drop_last().len() implies !meminfo_names(
            #[trigger] ls.drop_last()[j],
            if total { "MemTotal"@ } else { "MemAvailable"@ },
        ) by {
            assert(ls.drop_last()[j] == ls[j]);
        }
        assert(!meminfo_names(ls[ls.len() - 1], if total { "MemTotal"@ } else { "MemAvailable"@ }));
        lemma_scan_no_line(ls.drop_last(), total);
    }
}

/// A `/proc/meminfo` line for `key` anywhere in `ls` gives the scan a
/// value for `key`.
proof fn lemma_scan_has_line(ls: Seq<Seq<char>>, i: int, total: bool)
    requires
        0 <= i < ls.len(),
        meminfo_names(ls[i], if total { "MemTotal"@ } else { "MemAvailable"@ }),
    ensures
        if total {
            meminfo_scan(ls).0 is Some
        } else {
            meminfo_scan(ls).1 is Some
        },
    decreases ls.len(),
{
    reveal_strlit("MemTotal");
    reveal_strlit("MemAvailable");
    assert("MemTotal"@.len() == 8);
    assert("MemAvailable"@.len() == 12);
    let last = ls.len() - 1;
    if i < last && !meminfo_names(ls[last], if total { "MemTotal"@ } else { "MemAvailable"@ }) {
        assert(ls.drop_last()[i] == ls[i]);
        lemma_scan_has_line(ls.drop_last(), i, total);
    }
}

/// Total memory is the number of the last line whose key is exactly
/// `MemTotal`, in KiB scaled to bytes: lines for other keys, such as
/// `SwapTotal` or `HugePages_Total`, do not change it. With every number in
/// range, the only error left is a missing `MemAvailable` line.
pub proof fn law_meminfo_total_from_last_memtotal_line(contents: Seq<char>, i: int, n: nat)
    requires
        meminfo_fits(lines(contents)),
        0 <= i < lines(contents).len(),
        split_once(lines(contents)[i], ':') matches Some((k, v)) && trim(k) == "MemTotal"@
            && meminfo_number(v) == n,
        forall|j: int|
            i < j < lines(contents).len() ==> !meminfo_names(
                #[trigger] lines(contents)[j],
                "MemTotal"@,
            ),
    ensures
        match meminfo_result(contents) {
            Ok((t, _)) => t == n * 1024,
            Err(e) => e == "MemAvailable missing"@,
        },
{
    lemma_scan_last_line(lines(contents), i, true);
}

/// Available memory is the number of the last line whose key is exactly
/// `MemAvailable`, in KiB scaled to bytes. With every number in range, the
/// only error left is a missing `MemTotal` line.
pub proof fn law_meminfo_available_from_last_line(contents: Seq<char>, i: int, n: nat)
    requires
        meminfo_fits(lines(contents)),
        0 <= i < lines(contents).len(),
        split_once(lines(contents)[i], ':') matches Some((k, v)) && trim(k) == "MemAvailable"@
            && meminfo_number(v) == n,
        forall|j: int|
            i < j < lines(contents).len() ==> !meminfo_names(
                #[trigger] lines(contents)[j],
                "MemAvailable"@,
            ),
    ensures
        match meminfo_result(contents) {
            Ok((_, a)) => a == n * 1024,
            Err(e) => e == "MemTotal missing"@,
        },
{
    lemma_scan_last_line(lines(contents), i, false);
}

/// Text with no line whose key is exactly `MemTotal` is refused with
/// `MemTotal missing` (when its numbers are in range); text with such a
/// line but none for `MemAvailable` is refused with `MemAvailable missing`.
pub proof fn law_meminfo_missing_lines(contents: Seq<char>)
    requires
        meminfo_fits(lines(contents)),
    ensures
        (forall|j: int|
            0 <= j < lines(contents).len() ==> !meminfo_names(#[trigger] lines(contents)[j], "MemTotal"@))
            ==> meminfo_result(contents) == Err::<(nat, nat), Seq<char>>("MemTotal missing"@),
        (exists|j: int|
            0 <= j < lines(contents).len() && meminfo_names(#[trigger] lines(contents)[j], "MemTotal"@))
            && (forall|j: int|
            0 <= j < lines(contents).len() ==> !meminfo_names(
                #[trigger] lines(contents)[j],
                "MemAvailable"@,
            )) ==> meminfo_result(contents) == Err::<(nat, nat), Seq<char>>(
            "MemAvailable missing"@,
        ),
{
    let ls = lines(contents);
    if forall|j: int| 0 <= j < ls.len() ==> !meminfo_names(#[trigger] ls[j], "MemTotal"@) {
        lemma_scan_no_line(ls, true);
    }
    if exists|j: int| 0 <= j < ls.len() && meminfo_names(#[trigger] ls[j], "MemTotal"@) {
        if forall|j: int| 0 <= j < ls.len() ==> !meminfo_names(#[trigger] ls[j], "MemAvailable"@) {
            lemma_scan_no_line(ls, false);
            let j0 = choose|j: int| 0 <= j < ls.len() && meminfo_names(#[trigger] ls[j], "MemTotal"@);
            lemma_scan_has_line(ls, j0, true);
        }
    }
}

/// Reads memory usage from the text of `/proc/meminfo`: total and
/// available memory from the last `MemTotal` and `MemAvailable` lines
/// (KiB, scaled to bytes), used memory as total minus available (0 when
/// available exceeds total). A missing line, or a number too large to
/// scale to bytes, is a parse error.
pub fn parse_meminfo(contents: &str) -> (r: Result<MemoryInfo, SystemError>)
    ensures
        match meminfo_result(contents@) {
            Ok((t, a)) => r matches Ok(m) && m.total_bytes == t && m.available_bytes == a
                && m.used_bytes == (if t >= a {
                t - a
            } else {
                0
            }) && m.used_bytes <= m.total_bytes,
            Err(what) => r matches Err(SystemError::Parse(w)) && w@ == what,
        },
{
    if !meminfo_in_range(contents) {
        return Err(SystemError::parse("/proc/meminfo value out of range"));
    }
    let ls = split_lines(&chars_of(contents));
    let ghost spec_ls = lines(contents@);
    let mut total: Option<u64> = None;
    let mut available: Option<u64> = None;
    for i in 0..ls.len()
        invariant
            spec_ls == lines(contents@),
            ls@.len() == spec_ls.len(),
            meminfo_fits(spec_ls),
            forall|k: int| 0 <= k < ls@.len() ==> (#[trigger] ls@[k])@ == spec_ls[k],
            meminfo_scan(spec_ls.take(i as int)) == (
                match total {
                    Some(t) => Some(t as nat),
                    None => None::<nat>,
                },
                match available {
                    Some(a) => Some(a as nat),
                    None => None::<nat>,
                },
            ),
    {
        assert(spec_ls.take(i + 1).drop_last() =~= spec_ls.take(i as int));
        assert(ls@[i as int]@ == spec_ls[i as int]);
        assert(spec_ls.take(i + 1).last() == spec_ls[i as int]);
        match line_of(&ls[i]) {
            Some((key, n)) => {
                assert(match meminfo_line(spec_ls[i as int]) {
                    Some((_, m)) => m * 1024 <= u64::MAX,
                    None => true,
                });
                let bytes = n * 1024;
                if chars_eq(&key, "MemTotal") {
                    total = Some(bytes);
                } else if chars_eq(&key, "MemAvailable") {
                    available = Some(bytes);
                }
            },
            None => {},
        }
    }
    assert(spec_ls.take(ls@.len() as int) =~= spec_ls);
    let total = match total {
        Some(t) => t,
        None => return Err(SystemError::parse("MemTotal missing")),
    };
    let available = match available {
        Some(a) => a,
        None => return Err(SystemError::parse("MemAvailable missing")),
    };
    Ok(
        MemoryInfo {
            total_bytes: total,
            used_bytes: total.saturating_sub(available),
            available_bytes: available,
        },
    )
}

} // verus!
