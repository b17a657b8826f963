//! What the desktop does with applications and system readings.
use vstd::prelude::*;

use crate::apps::{find_id, registered, without_id, App, AppCategory, AppKind, LinuxAppRegistry};
use crate::battery::{BatteryState, BatteryStateInfo};
use crate::error::io_error_text;
use crate::text::{
    chars_eq, chars_of, concat, contains_chars, contains_seq, digits_value, extend_chars, is_digit,
    lowercase, occurs_at, parse_unsigned, string_of, to_lowercase, unsigned_digits,
};

verus! {

/// Human-readable availability text for a shortcut button.
pub fn status_text(app: &App) -> (s: &'static str)
    ensures
        s@ == match app.kind {
            AppKind::Native => "Included"@,
            AppKind::Planned => "Coming soon"@,
            AppKind::Host => if app.command is Some {
                "Available"@
            } else {
                "Not installed"@
            },
        },
{
    match app.kind {
        AppKind::Native => "Included",
        AppKind::Planned => "Coming soon",
        AppKind::Host => {
            if app.command.is_some() {
                "Available"
            } else {
                "Not installed"
            }
        },
    }
}

/// What activating an application does.
#[derive(Debug)]
pub enum Activation {
    /// Show the About Muaaz OS dialog.
    ShowAbout,
    /// Run this command with `sh -c`.
    Spawn(String),
    /// Tell the user this, in a toast.
    Notify(String),
}

/// The identifier of the About application.
pub const ABOUT_APP_ID: &'static str = "org.muaaz.about";

/// Decides what to do when an application is activated: the native About
/// application shows the About dialog; a host application runs its
/// command, or, having none, says so; any other application is not
/// available yet.
pub fn activation_for(app: &App) -> (a: Activation)
    ensures
        app.kind == AppKind::Native && app.id@ == ABOUT_APP_ID@ ==> a is ShowAbout,
        app.kind == AppKind::Host ==> match app.command {
            Some(c) => a matches Activation::Spawn(s) && s@ == c@,
            None => a matches Activation::Notify(m) && m@ == app.name@ + " has no launch command"@,
        },
        !(app.kind == AppKind::Native && app.id@ == ABOUT_APP_ID@) && app.kind != AppKind::Host
            ==> (a matches Activation::Notify(m) && m@ == app.name@ + " is not available yet"@),
{
    match app.kind {
        AppKind::Host => match &app.command {
            Some(c) => Activation::Spawn(c.clone()),
            None => Activation::Notify(concat(app.name.as_str(), " has no launch command")),
        },
        _ => {
            if app.kind == AppKind::Native && chars_eq(&chars_of(app.id.as_str()), ABOUT_APP_ID) {
                Activation::ShowAbout
            } else {
                Activation::Notify(concat(app.name.as_str(), " is not available yet"))
            }
        },
    }
}

/// The toast text for a host application whose command could not be
/// started.
pub fn spawn_failed_message(app: &App, error: &std::io::Error) -> (m: String)
    ensures
        exists|t: Seq<char>| m@ == "Failed to start "@ + app.name@ + ": "@ + t,
{
    let mut v: Vec<char> = Vec::new();
    extend_chars(&mut v, "Failed to start ");
    extend_chars(&mut v, app.name.as_str());
    extend_chars(&mut v, ": ");
    let t = io_error_text(error);
    extend_chars(&mut v, t.as_str());
    assert(v@ =~= "Failed to start "@ + app.name@ + ": "@ + t@);
    string_of(&v)
}

/// Whether launcher search text `needle` (already in lower case) matches
/// `app`: an empty needle matches everything; otherwise the lower-cased
/// name or summary, or the identifier, must contain it.
pub open spec fn search_matches(app: App, needle: Seq<char>) -> bool {
    ||| needle.len() == 0
    ||| contains_seq(lowercase(app.name@), needle)
    ||| contains_seq(lowercase(app.summary@), needle)
    ||| contains_seq(app.id@, needle)
}

/// A search matches an application when its text occurs at any position of
/// the lower-cased name, of the lower-cased summary or of the identifier.
pub proof fn law_search_matches_anywhere(app: App, needle: Seq<char>, i: int)
    requires
        0 <= i,
    ensures
        i + needle.len() <= lowercase(app.name@).len() && lowercase(app.name@).subrange(
            i,
            i + needle.len(),
        ) == needle ==> search_matches(app, needle),
        i + needle.len() <= lowercase(app.summary@).len() && lowercase(app.summary@).subrange(
            i,
            i + needle.len(),
        ) == needle ==> search_matches(app, needle),
        i + needle.len() <= app.id@.len() && app.id@.subrange(i, i + needle.len()) == needle
            ==> search_matches(app, needle),
{
    if i + needle.len() <= lowercase(app.name@).len() && lowercase(app.name@).subrange(
        i,
        i + needle.len(),
    ) == needle {
        assert(occurs_at(lowercase(app.name@), needle, i));
    }
    if i + needle.len() <= lowercase(app.summary@).len() && lowercase(app.summary@).subrange(
        i,
        i + needle.len(),
    ) == needle {
        assert(occurs_at(lowercase(app.summary@), needle, i));
    }
    if i + needle.len() <= app.id@.len() && app.id@.subrange(i, i + needle.len()) == needle {
        assert(occurs_at(app.id@, needle, i));
    }
}

/// A non-empty search that occurs at no position of the lower-cased name,
/// of the lower-cased summary or of the identifier does not match.
pub proof fn law_search_misses_elsewhere(app: App, needle: Seq<char>)
    requires
        needle.len() > 0,
        forall|i: int|
            0 <= i && i + needle.len() <= lowercase(app.name@).len() ==> #[trigger] lowercase(
                app.name@,
            ).subrange(i, i + needle.len()) != needle,
        forall|i: int|
            0 <= i && i + needle.len() <= lowercase(app.summary@).len() ==> #[trigger] lowercase(
                app.summary@,
            ).subrange(i, i + needle.len()) != needle,
        forall|i: int|
            0 <= i && i + needle.len() <= app.id@.len() ==> #[trigger] app.id@.subrange(
                i,
                i + needle.len(),
            ) != needle,
    ensures
        !search_matches(app, needle),
{
}

/// Whether launcher row `index`, showing `apps[index]`, stays visible
/// while the search field holds `search`: the search is compared in lower
/// case; an empty search shows every row, and a row without an application
/// shows only for an empty search.
pub fn row_visible(apps: &Vec<App>, index: usize, search: &str) -> (r: bool)
    ensures
        search@.len() == 0 ==> r,
        r == (search@.len() == 0 || (index < apps@.len() && search_matches(
            apps@[index as int],
            lowercase(search@),
        ))),
{
    let needle = chars_of(to_lowercase(search).as_str());
    if needle.len() == 0 {
        return true;
    }
    if index >= apps.len() {
        return false;
    }
    let app = &apps[index];
    contains_chars(&chars_of(to_lowercase(app.name.as_str()).as_str()), &needle)
        || contains_chars(&chars_of(to_lowercase(app.summary.as_str()).as_str()), &needle)
        || contains_chars(&chars_of(app.id.as_str()), &needle)
}

/// The index of the first application of `apps` whose identifier is
/// `name`, the widget name of an activated launcher row.
pub fn app_for_row(apps: &Vec<App>, name: &str) -> (r: Option<usize>)
    ensures
        match r {
            Some(i) => find_id(apps@, name@) == Some(i as int),
            None => find_id(apps@, name@) is None,
        },
{
    let n = apps.len();
    let target = chars_of(name);
    for i in 0..n
        invariant
            n == apps@.len(),
            target@ == name@,
            forall|j: int| 0 <= j < i ==> apps@[j].id@ != name@,
    {
        if chars_eq(&target, apps[i].id.as_str()) {
            assert(crate::apps::first_with_id(apps@, name@, i as int));
            let ghost c = choose|k: int| crate::apps::first_with_id(apps@, name@, k);
            assert(c == i) by {
                if c < i {
                } else if c > i {
                }
            }
            return Some(i);
        }
    }
    assert forall|k: int| !crate::apps::first_with_id(apps@, name@, k) by {}
    None
}

/// The character of decimal digit `d`.
pub open spec fn digit_char(d: nat) -> char {
    if d == 0 {
        '0'
    } else if d == 1 {
        '1'
    } else if d == 2 {
        '2'
    } else if d == 3 {
        '3'
    } else if d == 4 {
        '4'
    } else if d == 5 {
        '5'
    } else if d == 6 {
        '6'
    } else if d == 7 {
        '7'
    } else if d == 8 {
        '8'
    } else {
        '9'
    }
}

/// The decimal digits of `n`, without leading zeros.
pub open spec fn decimal(n: nat) -> Seq<char>
    decreases n,
{
    if n < 10 {
        seq![digit_char(n)]
    } else {
        decimal(n / 10) + seq![digit_char(n % 10)]
    }
}

proof fn lemma_digit_char_value(d: nat)
    requires
        d < 10,
    ensures
        is_digit(digit_char(d)),
        ((digit_char(d) as u32) - ('0' as u32)) as nat == d,
{
}

proof fn lemma_decimal_digits(n: nat)
    ensures
        decimal(n).len() > 0,
        forall|i: int| 0 <= i < decimal(n).len() ==> is_digit(#[trigger] decimal(n)[i]),
        digits_value(decimal(n)) == n,
        decimal(n)[0] == '0' ==> n == 0,
    decreases n,
{
    if n < 10 {
        lemma_digit_char_value(n);
        assert(decimal(n).drop_last() =~= Seq::<char>::empty());
        assert(digits_value(decimal(n)) == digits_value(decimal(n).drop_last()) * 10 + ((
        decimal(n).last() as u32) - ('0' as u32)) as nat);
    } else {
        lemma_decimal_digits(n / 10);
        lemma_digit_char_value(n % 10);
        let d = decimal(n);
        assert(d.drop_last() =~= decimal(n / 10));
        assert(d.last() == digit_char(n % 10));
        assert forall|i: int| 0 <= i < d.len() implies is_digit(#[trigger] d[i]) by {
            if i < d.len() - 1 {
                assert(d[i] == decimal(n / 10)[i]);
            }
        }
        assert(d[0] == decimal(n / 10)[0]);
        assert(digits_value(d) == digits_value(d.drop_last()) * 10 + ((d.last() as u32) - ('0' as u32)) as nat);
        assert((n / 10) * 10 + n % 10 == n) by (nonlinear_arith);
    }
}

/// The decimal text of a number reads back as that number: it is a
/// non-empty run of decimal digits, without a leading zero unless the
/// number is 0, and `str::parse` gives the number again.
pub proof fn law_decimal_reads_back(n: nat, max: nat)
    requires
        n <= max,
    ensures
        decimal(n).len() > 0,
        forall|i: int| 0 <= i < decimal(n).len() ==> is_digit(#[trigger] decimal(n)[i]),
        decimal(n)[0] == '0' ==> n == 0,
        parse_unsigned(decimal(n), max) == Some(n),
{
    lemma_decimal_digits(n);
    assert(unsigned_digits(decimal(n)) == decimal(n));
}

fn digit(d: u8) -> (c: char)
    requires
        d < 10,
    ensures
        c == digit_char(d as nat),
{
    if d == 0 {
        '0'
    } else if d == 1 {
        '1'
    } else if d == 2 {
        '2'
    } else if d == 3 {
        '3'
    } else if d == 4 {
        '4'
    } else if d == 5 {
        '5'
    } else if d == 6 {
        '6'
    } else if d == 7 {
        '7'
    } else if d == 8 {
        '8'
    } else {
        '9'
    }
}

/// The decimal text of `n`.
pub fn decimal_text(n: u8) -> (s: String)
    ensures
        s@ == decimal(n as nat),
{
    let mut v: Vec<char> = Vec::new();
    if n >= 100 {
        v.push(digit(n / 100));
        v.push(digit((n / 10) % 10));
        v.push(digit(n % 10));
        let ghost m = (n / 10) as nat;
        assert(m / 10 == (n / 100) as nat);
        assert(m % 10 == ((n / 10) % 10) as nat);
        assert(decimal((n / 100) as nat) == seq![digit_char((n / 100) as nat)]);
        assert(decimal(m) == decimal(m / 10) + seq![digit_char(m % 10)]);
        assert(decimal(n as nat) == decimal(m) + seq![digit_char((n % 10) as nat)]);
    } else if n >= 10 {
        v.push(digit(n / 10));
        v.push(digit(n % 10));
        assert(decimal((n / 10) as nat) == seq![digit_char((n / 10) as nat)]);
        assert(decimal(n as nat) == decimal((n / 10) as nat) + seq![digit_char((n % 10) as nat)]);
    } else {
        v.push(digit(n));
    }
    assert(v@ =~= decimal(n as nat));
    string_of(&v)
}

/// The panel's battery readout: the charge followed by `%`, and by ` +`
/// while charging; none when no battery is present (the readout is then
/// hidden).
pub fn battery_label(info: &BatteryStateInfo) -> (r: Option<String>)
    ensures
        info.present ==> (r matches Some(s) && s@ == decimal(info.percentage as nat) + "%"@ + (
        if info.state == BatteryState::Charging {
            " +"@
        } else {
            ""@
        })),
        !info.present ==> r is None,
{
    if !info.present {
        return None;
    }
    let digits = decimal_text(info.percentage);
    let with_percent = concat(digits.as_str(), "%");
    if info.state == BatteryState::Charging {
        Some(concat(with_percent.as_str(), " +"))
    } else {
        proof {
            reveal_strlit("");
            assert(with_percent@ + ""@ =~= with_percent@);
        }
        Some(with_percent)
    }
}

/// `a` has the given identifier, name, summary, icon, category, kind and
/// command.
pub open spec fn app_is(
    a: App,
    id: Seq<char>,
    name: Seq<char>,
    summary: Seq<char>,
    icon: Seq<char>,
    category: AppCategory,
    kind: AppKind,
    command: Option<Seq<char>>,
) -> bool {
    &&& a.id@ == id
    &&& a.name@ == name
    &&& a.summary@ == summary
    &&& a.icon_name@ == icon
    &&& a.category == category
    &&& a.kind == kind
    &&& match a.command {
        Some(c) => command == Some(c@),
        None => command is None,
    }
}

/// The identifiers of the applications the desktop offers.
pub open spec fn system_app_ids() -> Seq<Seq<char>> {
    seq![
        "org.muaaz.about"@,
        "org.muaaz.terminal"@,
        "org.muaaz.files"@,
        "org.muaaz.settings"@,
        "org.muaaz.software"@,
    ]
}

/// `apps` without the entries whose identifier is among `ids`.
pub open spec fn without_ids(apps: Seq<App>, ids: Seq<Seq<char>>) -> Seq<App>
    decreases ids.len(),
{
    if ids.len() == 0 {
        apps
    } else {
        without_id(without_ids(apps, ids.drop_last()), ids.last())
    }
}

proof fn lemma_without_id_append(s: Seq<App>, t: Seq<App>, id: Seq<char>)
    requires
        forall|k: int| 0 <= k < t.len() ==> (#[trigger] t[k]).id@ != id,
    ensures
        without_id(s + t, id) == without_id(s, id) + t,
    decreases t.len(),
{
    if t.len() == 0 {
        assert(s + t =~= s);
        assert(without_id(s, id) + t =~= without_id(s, id));
    } else {
        lemma_without_id_append(s, t.drop_last(), id);
        assert((s + t).drop_last() =~= s + t.drop_last());
        assert((s + t).last() == t.last());
        assert(t.last() == t[t.len() - 1]);
        assert(without_id(s, id) + t =~= (without_id(s, id) + t.drop_last()).push(t.last()));
    }
}

proof fn lemma_register_step(w: Seq<App>, news: Seq<App>, app: App)
    requires
        forall|k: int| 0 <= k < news.len() ==> (#[trigger] news[k]).id@ != app.id@,
    ensures
        registered(w + news, app) == without_id(w, app.id@) + news.push(app),
{
    lemma_without_id_append(w, news, app.id@);
    assert(without_id(w, app.id@) + news.push(app) =~= (without_id(w, app.id@) + news).push(app));
}

/// Populates the application registry with the applications the desktop
/// offers, registered in this order: About (native), Terminal, Files and
/// Settings (host programs) and Software (planned). Earlier entries with
/// these identifiers are replaced; the others are kept, in order.
pub fn register_system_apps(registry: &mut LinuxAppRegistry)
    ensures
        ({
            let w = without_ids(old(registry)@, system_app_ids());
            let r = final(registry)@;
            &&& r.len() == w.len() + 5
            &&& r.take(w.len() as int) == w
            &&& app_is(
                r[w.len() + 0int],
                "org.muaaz.about"@,
                "About"@,
                "About Muaaz OS"@,
                "help-about-symbolic"@,
                AppCategory::System,
                AppKind::Native,
                None,
            )
            &&& app_is(
                r[w.len() + 1int],
                "org.muaaz.terminal"@,
                "Terminal"@,
                "System terminal"@,
                "utilities-terminal-symbolic"@,
                AppCategory::Development,
                AppKind::Host,
                Some("x-terminal-emulator"@),
            )
            &&& app_is(
                r[w.len() + 2int],
                "org.muaaz.files"@,
                "Files"@,
                "Browse files"@,
                "system-file-manager-symbolic"@,
                AppCategory::Files,
                AppKind::Host,
                Some("nautilus"@),
            )
            &&& app_is(
                r[w.len() + 3int],
                "org.muaaz.settings"@,
                "Settings"@,
                "System preferences"@,
                "preferences-system-symbolic"@,
                AppCategory::System,
                AppKind::Host,
                Some("gnome-control-center"@),
            )
            &&& app_is(
                r[w.len() + 4int],
                "org.muaaz.software"@,
                "Software"@,
                "Install applications"@,
                "system-software-install-symbolic"@,
                AppCategory::Utilities,
                AppKind::Planned,
                None,
            )
        }),
{
    let ghost ids = system_app_ids();
    let ghost start = registry@;
    proof {
        reveal_strlit("org.muaaz.about");
        reveal_strlit("org.muaaz.terminal");
        reveal_strlit("org.muaaz.files");
        reveal_strlit("org.muaaz.settings");
        reveal_strlit("org.muaaz.software");
        assert(ids[0][10] != ids[2][10]);
        assert(ids[1][10] != ids[3][10]);
        assert(ids[1][10] != ids[4][10]);
        assert(ids[3][11] != ids[4][11]);
        assert(ids.take(1).drop_last() =~= ids.take(0));
        assert(ids.take(2).drop_last() =~= ids.take(1));
        assert(ids.take(3).drop_last() =~= ids.take(2));
        assert(ids.take(4).drop_last() =~= ids.take(3));
        assert(ids.take(5) =~= ids);
    }
    let a1 = App::native(
        "org.muaaz.about",
        "About",
        "About Muaaz OS",
        "help-about-symbolic",
        AppCategory::System,
    );
    let ghost v1 = a1;
    proof {
        lemma_register_step(start, seq![], a1);
        assert(start + seq![] =~= start);
        assert(ids.take(0).len() == 0);
        assert(seq![].push(v1) =~= seq![v1]);
    }
    registry.register(a1);
    proof {
        assert(ids.take(1).last() == ids[0]);
        assert(without_ids(start, ids.take(1)) == without_id(without_ids(start, ids.take(0)), ids[0]));
        assert(registry@ == without_ids(start, ids.take(1)) + seq![v1]);
    }
    let a2 = App::host(
        "org.muaaz.terminal",
        "Terminal",
        "System terminal",
        "utilities-terminal-symbolic",
        AppCategory::Development,
        "x-terminal-emulator",
    );
    let ghost v2 = a2;
    proof {
        lemma_register_step(without_ids(start, ids.take(1)), seq![v1], a2);
    }
    registry.register(a2);
    proof {
        assert(ids.take(2).last() == ids[1]);
        assert(without_ids(start, ids.take(2)) == without_id(without_ids(start, ids.take(1)), ids[1]));
        assert(registry@ == without_ids(start, ids.take(2)) + seq![v1, v2]);
    }
    let a3 = App::host(
        "org.muaaz.files",
        "Files",
        "Browse files",
        "system-file-manager-symbolic",
        AppCategory::Files,
        "nautilus",
    );
    let ghost v3 = a3;
    proof {
        assert(seq![v1].push(v2) =~= seq![v1, v2]);
        lemma_register_step(without_ids(start, ids.take(2)), seq![v1, v2], a3);
    }
    registry.register(a3);
    proof {
        assert(ids.take(3).last() == ids[2]);
        assert(without_ids(start, ids.take(3)) == without_id(without_ids(start, ids.take(2)), ids[2]));
        assert(registry@ == without_ids(start, ids.take(3)) + seq![v1, v2, v3]);
    }
    let a4 = App::host(
        "org.muaaz.settings",
        "Settings",
        "System preferences",
        "preferences-system-symbolic",
        AppCategory::System,
        "gnome-control-center",
    );
    let ghost v4 = a4;
    proof {
        assert(seq![v1, v2].push(v3) =~= seq![v1, v2, v3]);
        lemma_register_step(without_ids(start, ids.take(3)), seq![v1, v2, v3], a4);
    }
    registry.register(a4);
    proof {
        assert(ids.take(4).last() == ids[3]);
        assert(without_ids(start, ids.take(4)) == without_id(without_ids(start, ids.take(3)), ids[3]));
        assert(registry@ == without_ids(start, ids.take(4)) + seq![v1, v2, v3, v4]);
    }
    let a5 = App::planned(
        "org.muaaz.software",
        "Software",
        "Install applications",
        "system-software-install-symbolic",
        AppCategory::Utilities,
    );
    let ghost v5 = a5;
    proof {
        assert(seq![v1, v2, v3].push(v4) =~= seq![v1, v2, v3, v4]);
        lemma_register_step(without_ids(start, ids.take(4)), seq![v1, v2, v3, v4], a5);
    }
    registry.register(a5);
    proof {
        assert(ids.take(5).last() == ids[4]);
        assert(without_ids(start, ids.take(5)) == without_id(without_ids(start, ids.take(4)), ids[4]));
        assert(registry@ == without_ids(start, ids.take(5)) + seq![v1, v2, v3, v4, v5]);
    }
    proof {
        let w = without_ids(start, ids);
        assert(seq![v1, v2, v3, v4].push(v5) =~= seq![v1, v2, v3, v4, v5]);
        assert(registry@ == w + seq![v1, v2, v3, v4, v5]);
        assert((w + seq![v1, v2, v3, v4, v5]).take(w.len() as int) =~= w);
    }
}

} // verus!
