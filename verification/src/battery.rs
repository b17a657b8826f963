//! Battery state and the `/sys/class/power_supply` format.
use vstd::prelude::*;

use crate::text::{
    chars_eq, chars_of, parse_decimal, parse_unsigned, string_of, to_uppercase, trim, trim_chars,
    uppercase,
};

verus! {

/// Battery status.
#[derive(Debug, Clone, Copy, PartialEq, Eq, Structural)]
pub enum BatteryState {
    Charging,
    Discharging,
    Full,
    NotCharging,
    Unknown,
}

impl BatteryState {
    /// The status as it is displayed.
    pub fn to_string(&self) -> (s: String)
        ensures
            s@ == match self {
                BatteryState::Charging => "Charging"@,
                BatteryState::Discharging => "Discharging"@,
                BatteryState::Full => "Full"@,
                BatteryState::NotCharging => "Not Charging"@,
                BatteryState::Unknown => "Unknown"@,
            },
    {
        let text = match self {
            BatteryState::Charging => "Charging",
            BatteryState::Discharging => "Discharging",
            BatteryState::Full => "Full",
            BatteryState::NotCharging => "Not Charging",
            BatteryState::Unknown => "Unknown",
        };
        string_of(&chars_of(text))
    }
}

/// A snapshot of battery information.
#[derive(Debug, Clone, Copy, PartialEq, Eq, Structural)]
pub struct BatteryStateInfo {
    /// Current charge percentage (0–100).
    pub percentage: u8,
    /// State of the battery.
    pub state: BatteryState,
    /// Whether a battery was detected at all.
    pub present: bool,
}

/// The information reported when no battery is found.
pub open spec fn no_battery() -> BatteryStateInfo {
    BatteryStateInfo { percentage: 0, state: BatteryState::Unknown, present: false }
}

impl Default for BatteryStateInfo {
    fn default() -> (r: Self)
        ensures
            r == no_battery(),
    {
        BatteryStateInfo { percentage: 0, state: BatteryState::Unknown, present: false }
    }
}

/// Linux implementation reading `/sys/class/power_supply/`.
#[derive(Debug, Default, Clone, Copy)]
pub struct LinuxBatteryProvider;

/// The files of one entry of `/sys/class/power_supply`, as read: its
/// file name (as bytes), the text of its `type` file (empty when it cannot
/// be read) and of its `capacity` and `status` files (none when they
/// cannot be read).
#[derive(Debug)]
pub struct PowerSupply {
    pub name: Vec<u8>,
    pub kind: String,
    pub capacity: Option<String>,
    pub status: Option<String>,
}

/// The charge in percent that a `capacity` file gives: its trimmed text
/// read as a `u8`, capped at 100; 0 when it is missing or is not such a
/// number.
pub open spec fn capacity_of(text: Option<Seq<char>>) -> u8 {
    match text {
        Some(t) => match parse_unsigned(trim(t), 255) {
            Some(n) => if n > 100 {
                100
            } else {
                n as u8
            },
            None => 0,
        },
        None => 0,
    }
}

/// The state that a `status` file gives: its trimmed text in upper case
/// compared with the kernel's status names; anything else, or a missing
/// file, is `Unknown`.
pub open spec fn state_of(text: Option<Seq<char>>) -> BatteryState {
    match text {
        Some(t) => {
            let u = uppercase(trim(t));
            if u == "CHARGING"@ {
                BatteryState::Charging
            } else if u == "DISCHARGING"@ {
                BatteryState::Discharging
            } else if u == "FULL"@ {
                BatteryState::Full
            } else if u == "NOT CHARGING"@ {
                BatteryState::NotCharging
            } else {
                BatteryState::Unknown
            }
        },
        None => BatteryState::Unknown,
    }
}

/// The text of an optional file.
pub open spec fn opt_view(t: Option<String>) -> Option<Seq<char>> {
    match t {
        Some(s) => Some(s@),
        None => None,
    }
}

/// Whether a power supply is a battery: its trimmed `type` is `Battery`.
pub open spec fn is_battery(p: PowerSupply) -> bool {
    trim(p.kind@) == "Battery"@
}

/// What a battery entry reports.
pub open spec fn battery_info(p: PowerSupply) -> BatteryStateInfo {
    BatteryStateInfo {
        percentage: capacity_of(opt_view(p.capacity)),
        state: state_of(opt_view(p.status)),
        present: true,
    }
}

/// Whether byte string `a` comes strictly before `b` in byte order (the
/// order of file names).
pub open spec fn bytes_lt(a: Seq<u8>, b: Seq<u8>) -> bool
    decreases a.len(),
{
    if a.len() == 0 {
        b.len() > 0
    } else if b.len() == 0 {
        false
    } else if a[0] != b[0] {
        a[0] < b[0]
    } else {
        bytes_lt(a.drop_first(), b.drop_first())
    }
}

/// The index of the battery with the least file name among `ps` (the
/// first such one, should names repeat); none when `ps` holds no battery.
pub open spec fn least_battery(ps: Seq<PowerSupply>) -> Option<int>
    decreases ps.len(),
{
    if ps.len() == 0 {
        None
    } else {
        let prev = least_battery(ps.drop_last());
        let k = ps.len() - 1;
        if !is_battery(ps[k]) {
            prev
        } else {
            match prev {
                None => Some(k),
                Some(b) => if bytes_lt(ps[k].name@, ps[b].name@) {
                    Some(k)
                } else {
                    prev
                },
            }
        }
    }
}

/// What the power supplies `ps` report: the battery with the least file
/// name, or no battery.
pub open spec fn battery_of(ps: Seq<PowerSupply>) -> BatteryStateInfo {
    match least_battery(ps) {
        Some(i) => battery_info(ps[i]),
        None => no_battery(),
    }
}

proof fn lemma_bytes_lt_irreflexive(a: Seq<u8>)
    ensures
        !bytes_lt(a, a),
    decreases a.len(),
{
    if a.len() > 0 {
        lemma_bytes_lt_irreflexive(a.drop_first());
    }
}

proof fn lemma_bytes_lt_transitive(a: Seq<u8>, b: Seq<u8>, c: Seq<u8>)
    requires
        bytes_lt(a, b),
        bytes_lt(b, c),
    ensures
        bytes_lt(a, c),
    decreases a.len(),
{
    if a.len() > 0 && b.len() > 0 && c.len() > 0 && a[0] == b[0] && b[0] == c[0] {
        lemma_bytes_lt_transitive(a.drop_first(), b.drop_first(), c.drop_first());
    }
}

proof fn lemma_bytes_lt_total(a: Seq<u8>, b: Seq<u8>)
    ensures
        bytes_lt(a, b) || bytes_lt(b, a) || a == b,
    decreases a.len(),
{
    if a.len() > 0 && b.len() > 0 && a[0] == b[0] {
        lemma_bytes_lt_total(a.drop_first(), b.drop_first());
        if a.drop_first() == b.drop_first() {
            assert(a =~= seq![a[0]] + a.drop_first());
            assert(b =~= seq![b[0]] + b.drop_first());
        }
    } else if a.len() == 0 && b.len() == 0 {
        assert(a =~= b);
    }
}

proof fn lemma_least_battery(ps: Seq<PowerSupply>)
    ensures
        match least_battery(ps) {
            Some(i) => 0 <= i < ps.len() && is_battery(ps[i]) && forall|j: int|
                0 <= j < ps.len() && is_battery(#[trigger] ps[j]) ==> !bytes_lt(
                    ps[j].name@,
                    ps[i].name@,
                ),
            None => forall|j: int| 0 <= j < ps.len() ==> !is_battery(#[trigger] ps[j]),
        },
    decreases ps.len(),
{
    if ps.len() > 0 {
        let d = ps.drop_last();
        lemma_least_battery(d);
        let k = ps.len() - 1;
        match least_battery(d) {
            Some(b) => {
                assert(ps[b] == d[b]);
                assert forall|j: int| 0 <= j < ps.len() && is_battery(#[trigger] ps[j]) implies !bytes_lt(
                    ps[j].name@,
                    ps[least_battery(ps)->0].name@,
                ) by {
                    if j < k {
                        assert(ps[j] == d[j]);
                    }
                    if is_battery(ps[k]) && bytes_lt(ps[k].name@, ps[b].name@) {
                        if j < k && bytes_lt(ps[j].name@, ps[k].name@) {
                            lemma_bytes_lt_transitive(ps[j].name@, ps[k].name@, ps[b].name@);
                        }
                        if j == k {
                            lemma_bytes_lt_irreflexive(ps[k].name@);
                        }
                    } else if j == k {
                    }
                }
            },
            None => {
                assert forall|j: int| 0 <= j < k implies !is_battery(#[trigger] ps[j]) by {
                    assert(ps[j] == d[j]);
                }
                if is_battery(ps[k]) {
                    lemma_bytes_lt_irreflexive(ps[k].name@);
                }
            },
        }
    }
}

/// File names are ordered byte by byte: past a common prefix of length
/// `k`, the first differing byte decides, and a name that ends there comes
/// before every longer one.
pub proof fn law_bytes_lt_is_lexicographic(a: Seq<u8>, b: Seq<u8>, k: int)
    requires
        0 <= k <= a.len(),
        k <= b.len(),
        a.take(k) == b.take(k),
    ensures
        k < a.len() && k < b.len() && a[k] != b[k] ==> bytes_lt(a, b) == (a[k] < b[k]),
        k == a.len() ==> bytes_lt(a, b) == (k < b.len()),
    decreases k,
{
    if k > 0 {
        assert(a[0] == a.take(k)[0]);
        assert(b[0] == b.take(k)[0]);
        assert(a.drop_first().take(k - 1) =~= a.take(k).drop_first());
        assert(b.drop_first().take(k - 1) =~= b.take(k).drop_first());
        law_bytes_lt_is_lexicographic(a.drop_first(), b.drop_first(), k - 1);
    }
}

/// The battery that power supplies report does not depend on the order in
/// which they are listed: when file names differ, a battery whose name
/// comes before no other battery's is the one reported.
pub proof fn law_least_named_battery_is_reported(ps: Seq<PowerSupply>, i: int)
    requires
        forall|a: int, b: int|
            0 <= a < b < ps.len() ==> (#[trigger] ps[a]).name@ != (#[trigger] ps[b]).name@,
        0 <= i < ps.len(),
        trim(ps[i].kind@) == "Battery"@,
        forall|j: int|
            0 <= j < ps.len() && trim((#[trigger] ps[j]).kind@) == "Battery"@ ==> !bytes_lt(
                ps[j].name@,
                ps[i].name@,
            ),
    ensures
        least_battery(ps) == Some(i),
        battery_of(ps) == battery_info(ps[i]),
{
    lemma_least_battery(ps);
    let b = least_battery(ps)->0;
    assert(0 <= b < ps.len());
    if b != i {
        lemma_bytes_lt_total(ps[i].name@, ps[b].name@);
        if b < i {
            assert(ps[b].name@ != ps[i].name@);
        } else {
            assert(ps[i].name@ != ps[b].name@);
        }
    }
}

/// The reported state follows the reported battery's `status` file, read
/// trimmed and in upper case: each of the kernel's status names gives its
/// own state, and any other text, or no file, gives `Unknown`.
pub proof fn law_battery_state_follows_status(ps: Seq<PowerSupply>, i: int)
    requires
        forall|a: int, b: int|
            0 <= a < b < ps.len() ==> (#[trigger] ps[a]).name@ != (#[trigger] ps[b]).name@,
        0 <= i < ps.len(),
        trim(ps[i].kind@) == "Battery"@,
        forall|j: int|
            0 <= j < ps.len() && trim((#[trigger] ps[j]).kind@) == "Battery"@ ==> !bytes_lt(
                ps[j].name@,
                ps[i].name@,
            ),
    ensures
        battery_of(ps).present,
        match ps[i].status {
            None => battery_of(ps).state == BatteryState::Unknown,
            Some(t) => {
                let u = uppercase(trim(t@));
                &&& u == "CHARGING"@ ==> battery_of(ps).state == BatteryState::Charging
                &&& u == "DISCHARGING"@ ==> battery_of(ps).state == BatteryState::Discharging
                &&& u == "FULL"@ ==> battery_of(ps).state == BatteryState::Full
                &&& u == "NOT CHARGING"@ ==> battery_of(ps).state == BatteryState::NotCharging
                &&& u != "CHARGING"@ && u != "DISCHARGING"@ && u != "FULL"@ && u
                    != "NOT CHARGING"@ ==> battery_of(ps).state == BatteryState::Unknown
            },
        },
{
    law_least_named_battery_is_reported(ps, i);
    reveal_strlit("CHARGING");
    reveal_strlit("DISCHARGING");
    reveal_strlit("FULL");
    reveal_strlit("NOT CHARGING");
    assert("CHARGING"@.len() == 8);
    assert("DISCHARGING"@.len() == 11);
    assert("FULL"@.len() == 4);
    assert("NOT CHARGING"@.len() == 12);
}

/// The reported charge follows the reported battery's `capacity` file: its
/// trimmed text read as a `u8`, capped at 100; 0 when the file is missing
/// or does not hold such a number.
pub proof fn law_battery_charge_follows_capacity(ps: Seq<PowerSupply>, i: int)
    requires
        forall|a: int, b: int|
            0 <= a < b < ps.len() ==> (#[trigger] ps[a]).name@ != (#[trigger] ps[b]).name@,
        0 <= i < ps.len(),
        trim(ps[i].kind@) == "Battery"@,
        forall|j: int|
            0 <= j < ps.len() && trim((#[trigger] ps[j]).kind@) == "Battery"@ ==> !bytes_lt(
                ps[j].name@,
                ps[i].name@,
            ),
    ensures
        match ps[i].capacity {
            None => battery_of(ps).percentage == 0,
            Some(t) => match parse_unsigned(trim(t@), 255) {
                None => battery_of(ps).percentage == 0,
                Some(n) => battery_of(ps).percentage as nat == if n > 100 {
                    100
                } else {
                    n
                },
            },
        },
{
    law_least_named_battery_is_reported(ps, i);
}

/// Without a battery among the power supplies, none is reported present.
pub proof fn law_no_battery_is_absent(ps: Seq<PowerSupply>)
    requires
        forall|j: int| 0 <= j < ps.len() ==> trim((#[trigger] ps[j]).kind@) != "Battery"@,
    ensures
        !battery_of(ps).present,
        battery_of(ps).percentage == 0,
        battery_of(ps).state == BatteryState::Unknown,
{
    lemma_least_battery(ps);
    if least_battery(ps) is Some {
        let b = least_battery(ps)->0;
        assert(is_battery(ps[b]));
    }
}

/// A reported charge is a percentage: it never exceeds 100.
pub proof fn law_battery_percentage_at_most_100(ps: Seq<PowerSupply>)
    ensures
        battery_of(ps).percentage <= 100,
{
}

fn bytes_less(a: &Vec<u8>, b: &Vec<u8>) -> (r: bool)
    ensures
        r == bytes_lt(a@, b@),
{
    let mut i: usize = 0;
    assert(a@.skip(0) =~= a@);
    assert(b@.skip(0) =~= b@);
    while i < a.len() && i < b.len() && a[i] == b[i]
        invariant
            i <= a@.len(),
            i <= b@.len(),
            bytes_lt(a@, b@) == bytes_lt(a@.skip(i as int), b@.skip(i as int)),
        decreases a@.len() - i,
    {
        assert(a@.skip(i as int).drop_first() =~= a@.skip(i + 1));
        assert(b@.skip(i as int).drop_first() =~= b@.skip(i + 1));
        i = i + 1;
    }
    if i == a.len() {
        i < b.len()
    } else if i == b.len() {
        false
    } else {
        a[i] < b[i]
    }
}

fn capacity_from(text: &Option<String>) -> (r: u8)
    ensures
        r == capacity_of(opt_view(*text)),
{
    match text {
        Some(t) => {
            let v = trim_chars(&chars_of(t.as_str()));
            match parse_decimal(&v, 255) {
                Some(n) => if n > 100 {
                    100
                } else {
                    n as u8
                },
                None => 0,
            }
        },
        None => 0,
    }
}

fn state_from(text: &Option<String>) -> (r: BatteryState)
    ensures
        r == state_of(opt_view(*text)),
{
    match text {
        Some(t) => {
            let trimmed = string_of(&trim_chars(&chars_of(t.as_str())));
            let u = chars_of(to_uppercase(trimmed.as_str()).as_str());
            if chars_eq(&u, "CHARGING") {
                BatteryState::Charging
            } else if chars_eq(&u, "DISCHARGING") {
                BatteryState::Discharging
            } else if chars_eq(&u, "FULL") {
                BatteryState::Full
            } else if chars_eq(&u, "NOT CHARGING") {
                BatteryState::NotCharging
            } else {
                BatteryState::Unknown
            }
        },
        None => BatteryState::Unknown,
    }
}

/// What the power supplies `supplies` report: the battery with the least
/// file name, whatever order they are listed in; see [`battery_of`].
pub fn battery_from_supplies(supplies: &Vec<PowerSupply>) -> (r: BatteryStateInfo)
    ensures
        r == battery_of(supplies@),
        r.percentage <= 100,
{
    let n = supplies.len();
    let mut best: Option<usize> = None;
    for i in 0..n
        invariant
            n == supplies@.len(),
            match best {
                Some(b) => b < i && least_battery(supplies@.take(i as int)) == Some(b as int),
                None => least_battery(supplies@.take(i as int)) is None,
            },
    {
        let ghost t = supplies@.take(i + 1);
        assert(t.drop_last() =~= supplies@.take(i as int));
        assert(t[i as int] == supplies@[i as int]);
        let p = &supplies[i];
        if chars_eq(&trim_chars(&chars_of(p.kind.as_str())), "Battery") {
            match best {
                None => {
                    best = Some(i);
                },
                Some(b) => {
                    assert(t[b as int] == supplies@[b as int]);
                    if bytes_less(&p.name, &supplies[b].name) {
                        best = Some(i);
                    }
                },
            }
        }
    }
    assert(supplies@.take(n as int) =~= supplies@);
    match best {
        Some(b) => {
            let p = &supplies[b];
            BatteryStateInfo {
                percentage: capacity_from(&p.capacity),
                state: state_from(&p.status),
                present: true,
            }
        },
        None => BatteryStateInfo { percentage: 0, state: BatteryState::Unknown, present: false },
    }
}

} // verus!
