//! Desktop applications and the registry that holds them.
use vstd::prelude::*;

use crate::app_id::{is_blank, AppId};
use crate::error::io_error_text;
use crate::text::{chars_of, concat, split_words, string_of, words};

verus! {

/// Which kind of backing an application uses.
#[derive(Debug, Clone, Copy, PartialEq, Eq, Structural)]
pub enum AppKind {
    /// A Muaaz-native application implemented in this workspace.
    Native,
    /// An external (host) program spawned as a subprocess.
    Host,
    /// Declared for the future but not implemented yet.
    Planned,
}

/// Category used for grouping applications.
#[derive(Debug, Clone, Copy, PartialEq, Eq, Structural, Hash)]
pub enum AppCategory {
    System,
    Development,
    Files,
    Utilities,
    Unknown,
}

/// A single application known to the desktop launcher.
#[derive(Debug)]
pub struct App {
    /// Stable identifier (`org.muaaz.files`).
    pub id: AppId,
    /// Display name shown in the launcher.
    pub name: String,
    /// One-line description.
    pub summary: String,
    /// Icon theme name (e.g. `utilities-terminal`).
    pub icon_name: String,
    /// Grouping category.
    pub category: AppCategory,
    /// How this app is launched.
    pub kind: AppKind,
    /// Command used when `kind == AppKind::Host`.
    pub command: Option<String>,
}

fn own(s: &str) -> (r: String)
    ensures
        r@ == s@,
{
    string_of(&chars_of(s))
}

fn clone_command(c: &Option<String>) -> (r: Option<String>)
    ensures
        r == *c,
{
    match c {
        Some(s) => Some(s.clone()),
        None => None,
    }
}

impl Clone for App {
    fn clone(&self) -> (r: Self)
        ensures
            r == *self,
    {
        App {
            id: self.id.clone(),
            name: self.name.clone(),
            summary: self.summary.clone(),
            icon_name: self.icon_name.clone(),
            category: self.category,
            kind: self.kind,
            command: clone_command(&self.command),
        }
    }
}

impl App {
    /// Creates a native (Muaaz-implemented) app entry.
    pub fn native(id: &str, name: &str, summary: &str, icon_name: &str, category: AppCategory) -> (app: App)
        requires
            !is_blank(id@),
        ensures
            app.id@ == id@,
            app.name@ == name@,
            app.summary@ == summary@,
            app.icon_name@ == icon_name@,
            app.category == category,
            app.kind == AppKind::Native,
            app.command is None,
    {
        App {
            id: AppId::new(id),
            name: own(name),
            summary: own(summary),
            icon_name: own(icon_name),
            category,
            kind: AppKind::Native,
            command: None,
        }
    }

    /// Creates a host-backed app entry that spawns an external command.
    pub fn host(
        id: &str,
        name: &str,
        summary: &str,
        icon_name: &str,
        category: AppCategory,
        command: &str,
    ) -> (app: App)
        requires
            !is_blank(id@),
        ensures
            app.id@ == id@,
            app.name@ == name@,
            app.summary@ == summary@,
            app.icon_name@ == icon_name@,
            app.category == category,
            app.kind == AppKind::Host,
            app.command matches Some(c) && c@ == command@,
    {
        let mut app = Self::native(id, name, summary, icon_name, category);
        app.kind = AppKind::Host;
        app.command = Some(own(command));
        app
    }

    /// Creates a "coming soon" entry for a future Muaaz application.
    pub fn planned(id: &str, name: &str, summary: &str, icon_name: &str, category: AppCategory) -> (app: App)
        requires
            !is_blank(id@),
        ensures
            app.id@ == id@,
            app.name@ == name@,
            app.summary@ == summary@,
            app.icon_name@ == icon_name@,
            app.category == category,
            app.kind == AppKind::Planned,
            app.command is None,
    {
        let mut app = Self::native(id, name, summary, icon_name, category);
        app.kind = AppKind::Planned;
        app
    }
}

/// How launching an application can fail.
#[derive(Debug)]
pub enum LaunchError {
    /// App is declared but not yet implemented.
    NotImplemented(AppId),
    /// No launch command is defined for a host-backed app.
    MissingCommand(AppId),
    /// Could not spawn the external process.
    Spawn(AppId, std::io::Error),
}

impl LaunchError {
    /// The message shown for this error.
    pub fn to_string(&self) -> (s: String)
        ensures
            match self {
                LaunchError::NotImplemented(id) => s@ == id@ + " is not implemented yet"@,
                LaunchError::MissingCommand(id) => s@ == id@
                    + " has no launch command configured"@,
                LaunchError::Spawn(id, _) => exists|t: Seq<char>|
                    s@ == id@ + " failed to start: "@ + t,
            },
    {
        match self {
            LaunchError::NotImplemented(id) => concat(id.as_str(), " is not implemented yet"),
            LaunchError::MissingCommand(id) => concat(
                id.as_str(),
                " has no launch command configured",
            ),
            LaunchError::Spawn(id, e) => {
                let head = concat(id.as_str(), " failed to start: ");
                let t = io_error_text(e);
                let s = concat(head.as_str(), t.as_str());
                assert(s@ == id@ + " failed to start: "@ + t@);
                s
            },
        }
    }
}

/// The applications of `apps` whose identifier is not `id`, in order.
pub open spec fn without_id(apps: Seq<App>, id: Seq<char>) -> Seq<App>
    decreases apps.len(),
{
    if apps.len() == 0 {
        seq![]
    } else {
        let rest = without_id(apps.drop_last(), id);
        if apps.last().id@ == id {
            rest
        } else {
            rest.push(apps.last())
        }
    }
}

/// `apps` after registering `app`: every entry with `app`'s identifier
/// removed, then `app` appended.
pub open spec fn registered(apps: Seq<App>, app: App) -> Seq<App> {
    without_id(apps, app.id@).push(app)
}

/// No two entries of `apps` share an identifier.
pub open spec fn ids_unique(apps: Seq<App>) -> bool {
    forall|i: int, j: int| 0 <= i < j < apps.len() ==> apps[i].id@ != apps[j].id@
}

/// Whether some entry of `apps` has identifier `id`.
pub open spec fn has_id(apps: Seq<App>, id: Seq<char>) -> bool {
    exists|i: int| 0 <= i < apps.len() && apps[i].id@ == id
}

/// The index of the first entry of `apps` with identifier `id`.
pub open spec fn find_id(apps: Seq<App>, id: Seq<char>) -> Option<int> {
    if exists|i: int| first_with_id(apps, id, i) {
        Some(choose|i: int| first_with_id(apps, id, i))
    } else {
        None
    }
}

/// `i` is the first index of `apps` whose entry has identifier `id`.
pub open spec fn first_with_id(apps: Seq<App>, id: Seq<char>, i: int) -> bool {
    &&& 0 <= i < apps.len()
    &&& apps[i].id@ == id
    &&& forall|j: int| 0 <= j < i ==> apps[j].id@ != id
}

/// A registry of applications that the desktop launcher can offer.
///
/// The registry is intentionally a Vec so that future Muaaz applications
/// can register themselves at runtime. No two of its entries share an
/// identifier.
#[derive(Debug)]
pub struct LinuxAppRegistry {
    apps: Vec<App>,
}

impl View for LinuxAppRegistry {
    type V = Seq<App>;

    closed spec fn view(&self) -> Seq<App> {
        self.apps@
    }
}

impl LinuxAppRegistry {
    #[verifier::type_invariant]
    spec fn unique(self) -> bool {
        ids_unique(self.apps@)
    }

    /// Creates an empty registry.
    pub fn new() -> (r: LinuxAppRegistry)
        ensures
            r@ == Seq::<App>::empty(),
    {
        LinuxAppRegistry { apps: Vec::new() }
    }

    /// Registers an application, replacing any previous entry with the
    /// same id.
    pub fn register(&mut self, app: App)
        ensures
            final(self)@ == registered(old(self)@, app),
    {
        proof {
            use_type_invariant(&*self);
        }
        let ghost before = self.apps@;
        let mut kept: Vec<App> = Vec::new();
        let n = self.apps.len();
        for i in 0..n
            invariant
                n == self.apps@.len(),
                self.apps@ == before,
                kept@ == without_id(before.take(i as int), app.id@),
        {
            assert(before.take(i + 1).drop_last() =~= before.take(i as int));
            if self.apps[i].id != app.id {
                kept.push(self.apps[i].clone());
            }
        }
        assert(before.take(n as int) =~= before);
        proof {
            law_register_unique_ids(before, app);
        }
        kept.push(app);
        self.apps = kept;
    }

    /// All registered applications, in registration order.
    pub fn list(&self) -> (r: Vec<App>)
        ensures
            r@ == self@,
            ids_unique(r@),
    {
        proof {
            use_type_invariant(self);
        }
        let mut r: Vec<App> = Vec::new();
        for i in 0..self.apps.len()
            invariant
                r@ == self.apps@.take(i as int),
        {
            r.push(self.apps[i].clone());
            assert(r@ =~= self.apps@.take(i + 1));
        }
        assert(self.apps@.take(self.apps@.len() as int) =~= self.apps@);
        r
    }
}

impl Default for LinuxAppRegistry {
    fn default() -> (r: Self)
        ensures
            r@ == Seq::<App>::empty(),
    {
        Self::new()
    }
}

proof fn lemma_without_id_members(apps: Seq<App>, id: Seq<char>)
    ensures
        forall|k: int|
            0 <= k < without_id(apps, id).len() ==> apps.contains(
                #[trigger] without_id(apps, id)[k],
            ) && without_id(apps, id)[k].id@ != id,
        forall|i: int|
            0 <= i < apps.len() && apps[i].id@ != id ==> without_id(apps, id).contains(
                #[trigger] apps[i],
            ),
        without_id(apps, id).len() <= apps.len(),
    decreases apps.len(),
{
    if apps.len() > 0 {
        let rest = without_id(apps.drop_last(), id);
        lemma_without_id_members(apps.drop_last(), id);
        assert forall|k: int|
            0 <= k < without_id(apps, id).len() implies apps.contains(
            #[trigger] without_id(apps, id)[k],
        ) && without_id(apps, id)[k].id@ != id by {
            if k < rest.len() {
                assert(without_id(apps, id)[k] == rest[k]);
                let j = choose|j: int| 0 <= j < apps.drop_last().len() && apps.drop_last()[j] == rest[k];
                assert(apps[j] == rest[k]);
            } else {
                assert(apps[apps.len() - 1] == apps.last());
            }
        }
        assert forall|i: int|
            0 <= i < apps.len() && apps[i].id@ != id implies without_id(apps, id).contains(
            #[trigger] apps[i],
        ) by {
            if i < apps.len() - 1 {
                assert(apps[i] == apps.drop_last()[i]);
                let j = choose|j: int| 0 <= j < rest.len() && rest[j] == apps.drop_last()[i];
                assert(without_id(apps, id)[j] == rest[j]);
            } else {
                assert(without_id(apps, id)[rest.len() as int] == apps[i]);
            }
        }
    }
}

proof fn lemma_without_id_unique(apps: Seq<App>, id: Seq<char>)
    requires
        ids_unique(apps),
    ensures
        ids_unique(without_id(apps, id)),
    decreases apps.len(),
{
    if apps.len() > 0 {
        let rest = without_id(apps.drop_last(), id);
        lemma_without_id_unique(apps.drop_last(), id);
        lemma_without_id_members(apps.drop_last(), id);
        if apps.last().id@ != id {
            let r = rest.push(apps.last());
            assert forall|i: int, j: int| 0 <= i < j < r.len() implies r[i].id@ != r[j].id@ by {
                if j == r.len() - 1 {
                    assert(r[i] == rest[i]);
                    assert(apps.drop_last().contains(rest[i]));
                    let m = choose|m: int| 0 <= m < apps.drop_last().len() && apps.drop_last()[m] == rest[i];
                    assert(apps[m] == rest[i]);
                    assert(apps[apps.len() - 1] == apps.last());
                }
            }
        }
    }
}

proof fn lemma_without_id_len(apps: Seq<App>, id: Seq<char>)
    requires
        ids_unique(apps),
    ensures
        has_id(apps, id) ==> without_id(apps, id).len() + 1 == apps.len(),
        !has_id(apps, id) ==> without_id(apps, id).len() == apps.len(),
    decreases apps.len(),
{
    if apps.len() > 0 {
        let d = apps.drop_last();
        lemma_without_id_len(d, id);
        if apps.last().id@ == id {
            assert(apps[apps.len() - 1].id@ == id);
            assert(!has_id(d, id)) by {
                if has_id(d, id) {
                    let i = choose|i: int| 0 <= i < d.len() && d[i].id@ == id;
                    assert(apps[i] == d[i]);
                    assert(apps[i].id@ == apps[apps.len() - 1].id@);
                }
            }
        } else {
            if has_id(apps, id) {
                let i = choose|i: int| 0 <= i < apps.len() && apps[i].id@ == id;
                assert(i < apps.len() - 1);
                assert(d[i] == apps[i]);
            }
            if has_id(d, id) {
                let i = choose|i: int| 0 <= i < d.len() && d[i].id@ == id;
                assert(apps[i] == d[i]);
            }
        }
    }
}

proof fn lemma_without_id_absent(apps: Seq<App>, id: Seq<char>)
    requires
        !has_id(apps, id),
    ensures
        without_id(apps, id) == apps,
    decreases apps.len(),
{
    if apps.len() > 0 {
        let d = apps.drop_last();
        assert(!has_id(d, id)) by {
            if has_id(d, id) {
                let i = choose|i: int| 0 <= i < d.len() && d[i].id@ == id;
                assert(apps[i] == d[i]);
            }
        }
        lemma_without_id_absent(d, id);
        assert(apps[apps.len() - 1] == apps.last());
        assert(d.push(apps.last()) =~= apps);
    }
}

/// Registering keeps identifiers unique: a registry whose identifiers are
/// distinct still has distinct identifiers after a registration.
pub proof fn law_register_unique_ids(apps: Seq<App>, app: App)
    requires
        ids_unique(apps),
    ensures
        ids_unique(registered(apps, app)),
{
    lemma_without_id_unique(apps, app.id@);
    lemma_without_id_members(apps, app.id@);
    let w = without_id(apps, app.id@);
    let r = registered(apps, app);
    assert forall|i: int, j: int| 0 <= i < j < r.len() implies r[i].id@ != r[j].id@ by {
        if j == r.len() - 1 {
            assert(r[i] == w[i]);
        } else {
            assert(r[i] == w[i] && r[j] == w[j]);
        }
    }
}

/// Registering an application leaves exactly one entry with its
/// identifier: the application itself, as the last entry.
pub proof fn law_register_holds_app_once(apps: Seq<App>, app: App)
    ensures
        registered(apps, app).last() == app,
        forall|i: int|
            0 <= i < registered(apps, app).len() && #[trigger] registered(apps, app)[i].id@
                == app.id@ ==> i == registered(apps, app).len() - 1,
{
    lemma_without_id_members(apps, app.id@);
    let w = without_id(apps, app.id@);
    let r = registered(apps, app);
    assert forall|i: int| 0 <= i < r.len() && #[trigger] r[i].id@ == app.id@ implies i == r.len()
        - 1 by {
        if i < r.len() - 1 {
            assert(r[i] == w[i]);
        }
    }
}

/// Registering keeps every other application and adds nothing else: an
/// entry of the new registry is either the registered application or an
/// entry of the old one, and every old entry with another identifier stays.
pub proof fn law_register_keeps_others(apps: Seq<App>, app: App)
    ensures
        forall|i: int|
            0 <= i < apps.len() && apps[i].id@ != app.id@ ==> registered(apps, app).contains(
                #[trigger] apps[i],
            ),
        forall|k: int|
            0 <= k < registered(apps, app).len() ==> #[trigger] registered(apps, app)[k] == app
                || apps.contains(registered(apps, app)[k]),
{
    lemma_without_id_members(apps, app.id@);
    let w = without_id(apps, app.id@);
    let r = registered(apps, app);
    assert forall|i: int| 0 <= i < apps.len() && apps[i].id@ != app.id@ implies r.contains(
        #[trigger] apps[i],
    ) by {
        let j = choose|j: int| 0 <= j < w.len() && w[j] == apps[i];
        assert(r[j] == w[j]);
    }
    assert forall|k: int| 0 <= k < r.len() implies #[trigger] r[k] == app || apps.contains(r[k]) by {
        if k < w.len() {
            assert(r[k] == w[k]);
        }
    }
}

/// Registering an identifier that is already present keeps the number of
/// entries; registering a new one adds one entry.
pub proof fn law_register_len(apps: Seq<App>, app: App)
    requires
        ids_unique(apps),
    ensures
        has_id(apps, app.id@) ==> registered(apps, app).len() == apps.len(),
        !has_id(apps, app.id@) ==> registered(apps, app).len() == apps.len() + 1,
{
    lemma_without_id_len(apps, app.id@);
}

/// A registered application is found again under its identifier: it is
/// the first (and only) entry with that identifier, the last one.
pub proof fn law_register_then_find(apps: Seq<App>, app: App)
    ensures
        find_id(registered(apps, app), app.id@) == Some(registered(apps, app).len() - 1),
{
    law_register_holds_app_once(apps, app);
    let r = registered(apps, app);
    let last = r.len() - 1;
    assert(r[last] == app);
    assert(first_with_id(r, app.id@, last));
    let c = choose|i: int| first_with_id(r, app.id@, i);
    assert(c == last) by {
        if c < last {
        }
    }
}

/// Registering the same application twice is the same as registering it
/// once.
pub proof fn law_register_idempotent(apps: Seq<App>, app: App)
    ensures
        registered(registered(apps, app), app) == registered(apps, app),
{
    let w = without_id(apps, app.id@);
    let r = w.push(app);
    lemma_without_id_members(apps, app.id@);
    assert(!has_id(w, app.id@)) by {
        if has_id(w, app.id@) {
            let i = choose|i: int| 0 <= i < w.len() && w[i].id@ == app.id@;
        }
    }
    lemma_without_id_absent(w, app.id@);
    assert(r.drop_last() =~= w);
}


/// The program that a launch command runs: its first white-space
/// separated word, or the whole command when it has none.
pub open spec fn program_of(command: Seq<char>) -> Seq<char> {
    if words(command).len() > 0 {
        words(command)[0]
    } else {
        command
    }
}

/// The program that `command` runs; see [`program_of`].
pub fn program_name(command: &str) -> (p: String)
    ensures
        p@ == program_of(command@),
{
    let v = chars_of(command);
    let w = split_words(&v);
    if w.len() > 0 {
        string_of(&w[0])
    } else {
        string_of(&v)
    }
}

/// A host application cleared for launching: its command, and the
/// program that must be found on `PATH` before the command runs.
#[derive(Debug)]
pub struct LaunchRequest {
    /// The application being launched.
    pub id: AppId,
    /// The command handed to `sh -c`.
    pub command: String,
    /// The program the command runs.
    pub program: String,
}

impl LaunchRequest {
    /// Decides the launch once it is known whether the program was found
    /// on `PATH`: the command to run when it was, `NotImplemented` when it
    /// was not (the host does not ship the program).
    pub fn resolve_command(self, program_found: bool) -> (r: Result<String, LaunchError>)
        ensures
            program_found ==> (r matches Ok(c) && c@ == self.command@),
            !program_found ==> (r matches Err(LaunchError::NotImplemented(id)) && id@ == self.id@),
    {
        if program_found {
            Ok(self.command)
        } else {
            Err(LaunchError::NotImplemented(self.id))
        }
    }
}

impl LinuxAppRegistry {
    /// The index of the first registered application with identifier `id`.
    pub fn find(&self, id: &AppId) -> (r: Option<usize>)
        ensures
            match r {
                Some(i) => find_id(self@, id@) == Some(i as int),
                None => find_id(self@, id@) is None,
            },
    {
        let n = self.apps.len();
        for i in 0..n
            invariant
                n == self.apps@.len(),
                forall|j: int| 0 <= j < i ==> self.apps@[j].id@ != id@,
        {
            if self.apps[i].id == *id {
                assert(first_with_id(self@, id@, i as int));
                let ghost c = choose|k: int| first_with_id(self@, id@, k);
                assert(c == i) by {
                    if c < i {
                    } else if c > i {
                    }
                }
                return Some(i);
            }
        }
        assert forall|k: int| !first_with_id(self@, id@, k) by {}
        None
    }

    /// The first step of launching the application `id`: an unknown,
    /// native or planned application is not available; a host application
    /// without a command is missing it; a host application with a command
    /// gives the request to check and run.
    pub fn launch_request(&self, id: &AppId) -> (r: Result<LaunchRequest, LaunchError>)
        ensures
            match find_id(self@, id@) {
                None => r matches Err(LaunchError::NotImplemented(e)) && e@ == id@,
                Some(i) => {
                    let app = self@[i];
                    match app.kind {
                        AppKind::Host => match app.command {
                            None => r matches Err(LaunchError::MissingCommand(e)) && e@ == app.id@,
                            Some(cmd) => r matches Ok(req) && req.id@ == app.id@ && req.command@
                                == cmd@ && req.program@ == program_of(cmd@),
                        },
                        _ => r matches Err(LaunchError::NotImplemented(e)) && e@ == app.id@,
                    }
                },
            },
    {
        match self.find(id) {
            None => Err(LaunchError::NotImplemented(id.clone())),
            Some(i) => {
                let app = &self.apps[i];
                match app.kind {
                    AppKind::Planned => Err(LaunchError::NotImplemented(app.id.clone())),
                    AppKind::Native => Err(LaunchError::NotImplemented(app.id.clone())),
                    AppKind::Host => match &app.command {
                        None => Err(LaunchError::MissingCommand(app.id.clone())),
                        Some(cmd) => Ok(
                            LaunchRequest {
                                id: app.id.clone(),
                                command: cmd.clone(),
                                program: program_name(cmd.as_str()),
                            },
                        ),
                    },
                }
            },
        }
    }
}

} // verus!
