//! Static information about the host and the `os-release` format.
use vstd::prelude::*;

use crate::error::SystemError;
use crate::text::{
    chars_eq, chars_of, concat, lines, split_lines, split_once, split_once_chars, string_of, trim,
    trim_chars,
};

verus! {

/// Static information about the host system.
#[derive(Debug)]
pub struct SystemInfo {
    /// Hostname of the machine.
    pub hostname: String,
    /// Kernel release string (e.g. `6.11.3-arch1-1`).
    pub kernel_release: String,
    /// Kernel name (e.g. `Linux`).
    pub kernel_name: String,
    /// Human-readable operating system identifier, if known.
    pub os_pretty_name: Option<String>,
    /// Machine architecture (e.g. `x86_64`).
    pub architecture: Option<String>,
}

fn clone_opt(o: &Option<String>) -> (r: Option<String>)
    ensures
        r == *o,
{
    match o {
        Some(s) => Some(s.clone()),
        None => None,
    }
}

fn eq_opt(a: &Option<String>, b: &Option<String>) -> (r: bool)
    ensures
        r == (opt_text(*a) == opt_text(*b)),
{
    match (a, b) {
        (Some(x), Some(y)) => *x == *y,
        (None, None) => true,
        _ => false,
    }
}

/// The text of an optional string.
pub open spec fn opt_text(o: Option<String>) -> Option<Seq<char>> {
    match o {
        Some(s) => Some(s@),
        None => None,
    }
}

impl Clone for SystemInfo {
    fn clone(&self) -> (r: Self)
        ensures
            r == *self,
    {
        SystemInfo {
            hostname: self.hostname.clone(),
            kernel_release: self.kernel_release.clone(),
            kernel_name: self.kernel_name.clone(),
            os_pretty_name: clone_opt(&self.os_pretty_name),
            architecture: clone_opt(&self.architecture),
        }
    }
}

impl PartialEq for SystemInfo {
    fn eq(&self, other: &Self) -> (r: bool) {
        self.hostname == other.hostname && self.kernel_release == other.kernel_release
            && self.kernel_name == other.kernel_name && eq_opt(
            &self.os_pretty_name,
            &other.os_pretty_name,
        ) && eq_opt(&self.architecture, &other.architecture)
    }
}

impl Eq for SystemInfo {

}

impl vstd::std_specs::cmp::PartialEqSpecImpl for SystemInfo {
    open spec fn obeys_eq_spec() -> bool {
        true
    }

    open spec fn eq_spec(&self, other: &SystemInfo) -> bool {
        &&& self.hostname@ == other.hostname@
        &&& self.kernel_release@ == other.kernel_release@
        &&& self.kernel_name@ == other.kernel_name@
        &&& opt_text(self.os_pretty_name) == opt_text(other.os_pretty_name)
        &&& opt_text(self.architecture) == opt_text(other.architecture)
    }
}

impl SystemInfo {
    /// The summary shown for the host: hostname, then the kernel release
    /// in parentheses.
    pub fn to_string(&self) -> (s: String)
        ensures
            s@ == self.hostname@ + " ("@ + self.kernel_release@ + ")"@,
    {
        let a = concat(self.hostname.as_str(), " (");
        let b = concat(a.as_str(), self.kernel_release.as_str());
        concat(b.as_str(), ")")
    }
}

/// Linux implementation backed by `/proc` and `/sys`.
#[derive(Debug, Default, Clone, Copy)]
pub struct LinuxSystemInfo;

/// Where the operating system describes itself.
pub const OS_RELEASE_PATH: &'static str = "/etc/os-release";

/// Where the kernel gives its release.
pub const UTS_NAME_PATH: &'static str = "/proc/sys/kernel/osrelease";

/// Where the kernel gives the host name.
pub const UTS_NODENAME_PATH: &'static str = "/proc/sys/kernel/hostname";

/// Where the kernel gives the machine architecture.
pub const ARCH_NAME_PATH: &'static str = "/proc/sys/kernel/arch";

/// `s` without its leading `"` characters.
pub open spec fn trim_start_quotes(s: Seq<char>) -> Seq<char>
    decreases s.len(),
{
    if s.len() > 0 && s[0] == '"' {
        trim_start_quotes(s.drop_first())
    } else {
        s
    }
}

/// `s` without its trailing `"` characters.
pub open spec fn trim_end_quotes(s: Seq<char>) -> Seq<char>
    decreases s.len(),
{
    if s.len() > 0 && s.last() == '"' {
        trim_end_quotes(s.drop_last())
    } else {
        s
    }
}

/// `s` without leading and trailing `"`, as `str::trim_matches('"')`
/// gives it.
pub open spec fn trim_quotes(s: Seq<char>) -> Seq<char> {
    trim_end_quotes(trim_start_quotes(s))
}

/// The value of field `key` in `os-release` text `contents`: on the first
/// line of the form `key=value`, the value trimmed of white space and then
/// of quotes; none when no line names `key`.
pub open spec fn pretty_field(contents: Seq<char>, key: Seq<char>) -> Option<Seq<char>> {
    field_in_lines(lines(contents), key)
}

/// The value of field `key` on the first line of `ls` that names it.
pub open spec fn field_in_lines(ls: Seq<Seq<char>>, key: Seq<char>) -> Option<Seq<char>>
    decreases ls.len(),
{
    if ls.len() == 0 {
        None
    } else {
        match split_once(ls[0], '=') {
            Some((k, v)) => if k == key {
                Some(trim_quotes(trim(v)))
            } else {
                field_in_lines(ls.drop_first(), key)
            },
            None => field_in_lines(ls.drop_first(), key),
        }
    }
}

proof fn lemma_trim_start_quotes_skip(s: Seq<char>, i: int)
    requires
        0 <= i <= s.len(),
        forall|j: int| 0 <= j < i ==> #[trigger] s[j] == '"',
    ensures
        trim_start_quotes(s) == trim_start_quotes(s.skip(i)),
    decreases i,
{
    if i > 0 {
        assert(s.drop_first().skip(i - 1) =~= s.skip(i));
        lemma_trim_start_quotes_skip(s.drop_first(), i - 1);
    } else {
        assert(s.skip(0) =~= s);
    }
}

proof fn lemma_trim_end_quotes_take(s: Seq<char>, i: int)
    requires
        0 <= i <= s.len(),
        forall|j: int| i <= j < s.len() ==> #[trigger] s[j] == '"',
    ensures
        trim_end_quotes(s) == trim_end_quotes(s.take(i)),
    decreases s.len() - i,
{
    if i < s.len() {
        assert(s.drop_last().take(i) =~= s.take(i));
        lemma_trim_end_quotes_take(s.drop_last(), i);
    } else {
        assert(s.take(i) =~= s);
    }
}

fn trim_quote_chars(v: &Vec<char>) -> (r: Vec<char>)
    ensures
        r@ == trim_quotes(v@),
{
    let n = v.len();
    let mut a: usize = 0;
    while a < n && v[a] == '"'
        invariant
            a <= n == v@.len(),
            forall|j: int| 0 <= j < a ==> #[trigger] v@[j] == '"',
        decreases n - a,
    {
        a = a + 1;
    }
    proof {
        lemma_trim_start_quotes_skip(v@, a as int);
    }
    let ghost t = v@.skip(a as int);
    assert(trim_start_quotes(t) == t);
    let mut b: usize = n;
    while b > a && v[b - 1] == '"'
        invariant
            a <= b <= n == v@.len(),
            t == v@.skip(a as int),
            forall|j: int| b - a <= j < t.len() ==> #[trigger] t[j] == '"',
        decreases b,
    {
        b = b - 1;
    }
    proof {
        lemma_trim_end_quotes_take(t, b - a);
        if b > a {
            assert(t.take(b - a).last() == v@[b - 1]);
        }
    }
    let mut r: Vec<char> = Vec::new();
    for i in a..b
        invariant
            a <= b <= v@.len(),
            r@ == v@.subrange(a as int, i as int),
    {
        r.push(v[i]);
        assert(v@.subrange(a as int, i + 1) == v@.subrange(a as int, i as int).push(v@[i as int]));
    }
    assert(t.take(b - a) =~= v@.subrange(a as int, b as int));
    r
}

proof fn lemma_trim_start_quotes_shape(s: Seq<char>)
    ensures
        exists|a: int|
            0 <= a <= s.len() && trim_start_quotes(s) == s.skip(a) && forall|k: int|
                0 <= k < a ==> #[trigger] s[k] == '"',
        trim_start_quotes(s).len() == 0 || trim_start_quotes(s)[0] != '"',
    decreases s.len(),
{
    if s.len() > 0 && s[0] == '"' {
        let t = s.drop_first();
        lemma_trim_start_quotes_shape(t);
        let a = choose|a: int|
            0 <= a <= t.len() && trim_start_quotes(t) == t.skip(a) && forall|k: int|
                0 <= k < a ==> #[trigger] t[k] == '"';
        assert(t.skip(a) =~= s.skip(a + 1));
        assert forall|k: int| 0 <= k < a + 1 implies #[trigger] s[k] == '"' by {
            if k > 0 {
                assert(s[k] == t[k - 1]);
            }
        }
    } else {
        assert(s.skip(0) =~= s);
    }
}

proof fn lemma_trim_end_quotes_shape(s: Seq<char>)
    ensures
        exists|b: int|
            0 <= b <= s.len() && trim_end_quotes(s) == s.take(b) && forall|k: int|
                b <= k < s.len() ==> #[trigger] s[k] == '"',
        trim_end_quotes(s).len() == 0 || trim_end_quotes(s).last() != '"',
    decreases s.len(),
{
    if s.len() > 0 && s.last() == '"' {
        let t = s.drop_last();
        lemma_trim_end_quotes_shape(t);
        let b = choose|b: int|
            0 <= b <= t.len() && trim_end_quotes(t) == t.take(b) && forall|k: int|
                b <= k < t.len() ==> #[trigger] t[k] == '"';
        assert(t.take(b) =~= s.take(b));
        assert forall|k: int| b <= k < s.len() implies #[trigger] s[k] == '"' by {
            if k < s.len() - 1 {
                assert(s[k] == t[k]);
            }
        }
    } else {
        assert(s.take(s.len() as int) =~= s);
    }
}

/// Trimming quotes removes the `"` characters at both ends and nothing
/// else: what is left is a contiguous part of `s`, everything before and
/// after it is `"`, and it neither starts nor ends with `"`.
pub proof fn law_trim_quotes_strips_outer_quotes(s: Seq<char>)
    ensures
        exists|a: int, b: int|
            0 <= a <= b <= s.len() && trim_quotes(s) == s.subrange(a, b) && (forall|k: int|
                0 <= k < a ==> #[trigger] s[k] == '"') && (forall|k: int|
                b <= k < s.len() ==> #[trigger] s[k] == '"'),
        trim_quotes(s).len() == 0 || (trim_quotes(s)[0] != '"' && trim_quotes(s).last() != '"'),
{
    lemma_trim_start_quotes_shape(s);
    let t = trim_start_quotes(s);
    let a = choose|a: int|
        0 <= a <= s.len() && t == s.skip(a) && forall|k: int| 0 <= k < a ==> #[trigger] s[k] == '"';
    lemma_trim_end_quotes_shape(t);
    let b = choose|b: int|
        0 <= b <= t.len() && trim_end_quotes(t) == t.take(b) && forall|k: int|
            b <= k < t.len() ==> #[trigger] t[k] == '"';
    assert(trim_quotes(s) =~= s.subrange(a, a + b));
    assert forall|k: int| a + b <= k < s.len() implies #[trigger] s[k] == '"' by {
        assert(s[k] == t[k - a]);
    }
    if trim_quotes(s).len() > 0 {
        assert(trim_quotes(s)[0] == t[0]);
    }
}

/// Whether `line` of `os-release` text is of the form `key=value`: its text
/// before the first `=` is exactly `key`.
pub open spec fn names_field(line: Seq<char>, key: Seq<char>) -> bool {
    match split_once(line, '=') {
        Some((k, _)) => k == key,
        None => false,
    }
}

proof fn lemma_field_in_lines_first(ls: Seq<Seq<char>>, key: Seq<char>, i: int, v: Seq<char>)
    requires
        0 <= i < ls.len(),
        split_once(ls[i], '=') == Some((key, v)),
        forall|j: int| 0 <= j < i ==> !names_field(#[trigger] ls[j], key),
    ensures
        field_in_lines(ls, key) == Some(trim_quotes(trim(v))),
    decreases i,
{
    if i > 0 {
        assert(!names_field(ls[0], key));
        assert(ls.drop_first()[i - 1] == ls[i]);
        assert forall|j: int| 0 <= j < i - 1 implies !names_field(#[trigger] ls.drop_first()[j], key) by {
            assert(ls.drop_first()[j] == ls[j + 1]);
        }
        lemma_field_in_lines_first(ls.drop_first(), key, i - 1, v);
    }
}

proof fn lemma_field_in_lines_none(ls: Seq<Seq<char>>, key: Seq<char>)
    requires
        forall|j: int| 0 <= j < ls.len() ==> !names_field(#[trigger] ls[j], key),
    ensures
        field_in_lines(ls, key) is None,
    decreases ls.len(),
{
    if ls.len() > 0 {
        assert(!names_field(ls[0], key));
        assert forall|j: int| 0 <= j < ls.len() - 1 implies !names_field(#[trigger] ls.drop_first()[j], key) by {
            assert(ls.drop_first()[j] == ls[j + 1]);
        }
        lemma_field_in_lines_none(ls.drop_first(), key);
    }
}

/// The first line of `os-release` text of the form `key=value` gives the
/// field's value, trimmed of white space and then of quotes, wherever that
/// line stands and whatever follows it.
pub proof fn law_pretty_field_first_line_wins(
    contents: Seq<char>,
    key: Seq<char>,
    i: int,
    v: Seq<char>,
)
    requires
        0 <= i < lines(contents).len(),
        split_once(lines(contents)[i], '=') == Some((key, v)),
        forall|j: int| 0 <= j < i ==> !names_field(#[trigger] lines(contents)[j], key),
    ensures
        pretty_field(contents, key) == Some(trim_quotes(trim(v))),
{
    lemma_field_in_lines_first(lines(contents), key, i, v);
}

/// Text with no line of the form `key=value` has no field `key`.
pub proof fn law_pretty_field_absent(contents: Seq<char>, key: Seq<char>)
    requires
        forall|j: int| 0 <= j < lines(contents).len() ==> !names_field(#[trigger] lines(contents)[j], key),
    ensures
        pretty_field(contents, key) is None,
{
    lemma_field_in_lines_none(lines(contents), key);
}

/// The value of field `key` in `os-release` text `contents`; see
/// [`pretty_field`].
pub fn find_pretty_field(contents: &str, key: &str) -> (r: Option<String>)
    ensures
        match pretty_field(contents@, key@) {
            Some(v) => r matches Some(s) && s@ == v,
            None => r is None,
        },
{
    let ls = split_lines(&chars_of(contents));
    let ghost spec_ls = lines(contents@);
    assert(spec_ls.skip(0) =~= spec_ls);
    for i in 0..ls.len()
        invariant
            spec_ls == lines(contents@),
            ls@.len() == spec_ls.len(),
            forall|k: int| 0 <= k < ls@.len() ==> (#[trigger] ls@[k])@ == spec_ls[k],
            pretty_field(contents@, key@) == field_in_lines(spec_ls.skip(i as int), key@),
    {
        let ghost rest = spec_ls.skip(i as int);
        assert(rest[0] == ls@[i as int]@);
        assert(rest.drop_first() =~= spec_ls.skip(i + 1));
        match split_once_chars(&ls[i], '=') {
            Some((k, v)) => {
                if chars_eq(&k, key) {
                    return Some(string_of(&trim_quote_chars(&trim_chars(&v))));
                }
            },
            None => {},
        }
    }
    None
}

/// The value of field `key` in `os-release` text `contents` read from
/// `path`; a parse error `"{key} not found in {path}"` when no line names
/// it.
pub fn parse_pretty_field(contents: &str, key: &str, path: &str) -> (r: Result<
    String,
    SystemError,
>)
    ensures
        match pretty_field(contents@, key@) {
            Some(v) => r matches Ok(s) && s@ == v,
            None => r matches Err(SystemError::Parse(w)) && w@ == key@ + " not found in "@ + path@,
        },
{
    match find_pretty_field(contents, key) {
        Some(v) => Ok(v),
        None => {
            let a = concat(key, " not found in ");
            Err(SystemError::Parse(concat(a.as_str(), path)))
        },
    }
}

/// `text` trimmed of white space, as a new `String`.
pub fn trimmed(text: &str) -> (r: String)
    ensures
        r@ == trim(text@),
{
    string_of(&trim_chars(&chars_of(text)))
}

/// The text of a file that was read, or of none.
pub open spec fn read_text(r: Result<String, std::io::Error>) -> Option<Seq<char>> {
    match r {
        Ok(s) => Some(s@),
        Err(_) => None,
    }
}

impl LinuxSystemInfo {
    /// Assembles the host information from what reading its files gave:
    /// the host name file, `os-release`, the kernel release file and the
    /// architecture file.
    ///
    /// The host name is the trimmed host name file, or else the
    /// `PRETTY_NAME` of `os-release`; the kernel release is the trimmed
    /// release file; the kernel name is `Linux`; the pretty name and the
    /// architecture are given when their files give them. A host name or a
    /// kernel release that cannot be had is the error, the host name's
    /// first.
    pub fn assemble(
        nodename: Result<String, std::io::Error>,
        os_release: Result<String, std::io::Error>,
        osrelease: Result<String, std::io::Error>,
        arch: Result<String, std::io::Error>,
    ) -> (r: Result<SystemInfo, SystemError>)
        ensures
            ({
                let pretty = match read_text(os_release) {
                    Some(c) => pretty_field(c, "PRETTY_NAME"@),
                    None => None,
                };
                match read_text(nodename) {
                    Some(h) => match read_text(osrelease) {
                        Some(k) => r matches Ok(info) && info.hostname@ == trim(h)
                            && info.kernel_release@ == trim(k) && info.kernel_name@ == "Linux"@
                            && opt_text(info.os_pretty_name) == pretty && opt_text(
                            info.architecture,
                        ) == match read_text(arch) {
                            Some(a) => Some(trim(a)),
                            None => None,
                        },
                        None => r matches Err(SystemError::Io(e)) && osrelease
                            == Err::<String, std::io::Error>(e),
                    },
                    None => match read_text(os_release) {
                        None => r matches Err(SystemError::Io(e)) && os_release
                            == Err::<String, std::io::Error>(e),
                        Some(c) => match pretty {
                            None => r matches Err(SystemError::Parse(w)) && w@
                                == "PRETTY_NAME not found in /etc/os-release"@,
                            Some(p) => match read_text(osrelease) {
                                Some(k) => r matches Ok(info) && info.hostname@ == p
                                    && info.kernel_release@ == trim(k) && info.kernel_name@
                                    == "Linux"@ && opt_text(info.os_pretty_name) == pretty
                                    && opt_text(info.architecture) == match read_text(arch) {
                                    Some(a) => Some(trim(a)),
                                    None => None,
                                },
                                None => r matches Err(SystemError::Io(e)) && osrelease
                            == Err::<String, std::io::Error>(e),
                            },
                        },
                    },
                }
            }),
    {
        let pretty = match &os_release {
            Ok(c) => find_pretty_field(c.as_str(), "PRETTY_NAME"),
            Err(_) => None,
        };
        let hostname = match nodename {
            Ok(h) => trimmed(h.as_str()),
            Err(_) => match os_release {
                Ok(c) => match parse_pretty_field(c.as_str(), "PRETTY_NAME", OS_RELEASE_PATH) {
                    Ok(p) => p,
                    Err(e) => {
                        proof {
                            reveal_strlit("PRETTY_NAME");
                            reveal_strlit(" not found in ");
                            reveal_strlit("/etc/os-release");
                            reveal_strlit("PRETTY_NAME not found in /etc/os-release");
                            assert("PRETTY_NAME"@ + " not found in "@ + "/etc/os-release"@
                                =~= "PRETTY_NAME not found in /etc/os-release"@);
                        }
                        return Err(e);
                    },
                },
                Err(e) => return Err(SystemError::Io(e)),
            },
        };
        let kernel_release = match osrelease {
            Ok(k) => trimmed(k.as_str()),
            Err(e) => return Err(SystemError::Io(e)),
        };
        let architecture = match arch {
            Ok(a) => Some(trimmed(a.as_str())),
            Err(_) => None,
        };
        Ok(
            SystemInfo {
                hostname,
                kernel_release,
                kernel_name: string_of(&chars_of("Linux")),
                os_pretty_name: pretty,
                architecture,
            },
        )
    }
}

} // verus!
