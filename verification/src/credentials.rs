//! How a provider's credential setting is read: which source it names, where
//! systemd keeps credentials, and which environment variables serve as the
//! provider's fallback.
use vstd::prelude::*;
use vstd::string::*;
use crate::error::RouterError;
use crate::models::opt_view;
use crate::text::{has_prefix, has_suffix, owned, replace_char, replace_char_seq, starts_with, ends_with, chars_of, string_of_range, strip_prefix, trim, trim_seq};

verus! {

/// Full Unicode upper-casing of a string (`str::to_uppercase`).
pub uninterp spec fn unicode_upper(s: Seq<char>) -> Seq<char>;

/// Full Unicode lower-casing of a string (`str::to_lowercase`).
pub uninterp spec fn unicode_lower(s: Seq<char>) -> Seq<char>;

/// Every character is ASCII.
pub open spec fn is_ascii_seq(s: Seq<char>) -> bool {
    forall|i: int| 0 <= i < s.len() ==> (#[trigger] s[i] as u32) < 0x80
}

/// ASCII upper-casing of each character.
pub open spec fn ascii_upper_seq(s: Seq<char>) -> Seq<char> {
    s.map_values(|c: char| if 'a' <= c <= 'z' { ((c as u32) - 0x20) as char } else { c })
}

/// ASCII lower-casing of each character.
pub open spec fn ascii_lower_seq(s: Seq<char>) -> Seq<char> {
    s.map_values(|c: char| if 'A' <= c <= 'Z' { ((c as u32) + 0x20) as char } else { c })
}

/// `str::to_uppercase`: the result depends on the string alone, and on
/// ASCII text it is the ASCII upper-casing (Unicode maps `a`..`z` to
/// `A`..`Z` and leaves other ASCII characters as they are).
#[verifier::external_body]
fn to_uppercase(s: &str) -> (r: String)
    ensures
        r@ == unicode_upper(s@),
        is_ascii_seq(s@) ==> r@ == ascii_upper_seq(s@),
{
    s.to_uppercase()
}

/// `str::to_lowercase`: the result depends on the string alone, and on
/// ASCII text it is the ASCII lower-casing.
#[verifier::external_body]
fn to_lowercase(s: &str) -> (r: String)
    ensures
        r@ == unicode_lower(s@),
        is_ascii_seq(s@) ==> r@ == ascii_lower_seq(s@),
{
    s.to_lowercase()
}

/// Directory where systemd places this service's credentials when no
/// `CREDENTIALS_DIRECTORY` is given.
pub open spec fn service_credentials_dir() -> Seq<char> {
    "/run/credentials/routerd.service"@
}

/// Where a credential setting says to look.
pub enum CredentialSource {
    /// No setting (or a blank one): the provider's fallback names apply.
    ProviderFallback,
    /// `cred:<name>`: a systemd credential.
    Systemd(String),
    /// `env:<NAME>`, `${NAME}` or `$NAME`: an environment variable.
    Env(String),
    /// An absolute path: the file's contents if it exists, else the setting
    /// itself as the key.
    PathOrLiteral(String),
    /// Anything else: the key itself.
    Literal(String),
}

pub enum CredentialSourceView {
    ProviderFallback,
    Systemd(Seq<char>),
    Env(Seq<char>),
    PathOrLiteral(Seq<char>),
    Literal(Seq<char>),
}

impl View for CredentialSource {
    type V = CredentialSourceView;

    open spec fn view(&self) -> CredentialSourceView {
        match self {
            CredentialSource::ProviderFallback => CredentialSourceView::ProviderFallback,
            CredentialSource::Systemd(s) => CredentialSourceView::Systemd(s@),
            CredentialSource::Env(s) => CredentialSourceView::Env(s@),
            CredentialSource::PathOrLiteral(s) => CredentialSourceView::PathOrLiteral(s@),
            CredentialSource::Literal(s) => CredentialSourceView::Literal(s@),
        }
    }
}

pub open spec fn after(s: Seq<char>, n: int) -> Seq<char> {
    s.subrange(n, s.len() as int)
}

/// The source that a (trimmed) credential setting names, tried in this order:
/// `cred:`, `env:`, `${...}` with a non-empty name, `$`, an absolute path,
/// and the literal key.
pub open spec fn classify_spec(raw: Option<Seq<char>>) -> CredentialSourceView {
    match raw {
        None => CredentialSourceView::ProviderFallback,
        Some(r) => {
            let t = trim_seq(r);
            if t.len() == 0 {
                CredentialSourceView::ProviderFallback
            } else if has_prefix(t, "cred:"@) {
                CredentialSourceView::Systemd(after(t, 5))
            } else if has_prefix(t, "env:"@) {
                CredentialSourceView::Env(after(t, 4))
            } else if has_prefix(t, "${"@) && has_suffix(t, "}"@) && t.len() > 3 {
                CredentialSourceView::Env(t.subrange(2, t.len() - 1))
            } else if has_prefix(t, "$"@) {
                CredentialSourceView::Env(after(t, 1))
            } else if has_prefix(t, "/"@) {
                CredentialSourceView::PathOrLiteral(t)
            } else {
                CredentialSourceView::Literal(t)
            }
        },
    }
}

pub open spec fn opt_str_view(o: Option<&str>) -> Option<Seq<char>> {
    match o {
        Some(s) => Some(s@),
        None => None,
    }
}

/// Reads a credential setting.
pub fn classify_credential(raw: Option<&str>) -> (c: CredentialSource)
    ensures
        c@ == classify_spec(opt_str_view(raw)),
{
    proof {
        reveal_strlit("cred:");
        reveal_strlit("env:");
        reveal_strlit("${");
        reveal_strlit("}");
        reveal_strlit("$");
        reveal_strlit("/");
    }
    match raw {
        None => CredentialSource::ProviderFallback,
        Some(r) => {
            let t = trim(r);
            let ts = t.as_str();
            if ts.is_empty() {
                return CredentialSource::ProviderFallback;
            }
            if let Some(name) = strip_prefix(ts, "cred:") {
                return CredentialSource::Systemd(name);
            }
            if let Some(var) = strip_prefix(ts, "env:") {
                return CredentialSource::Env(var);
            }
            let v = chars_of(ts);
            if starts_with(ts, "${") && ends_with(ts, "}") && v.len() > 3 {
                return CredentialSource::Env(string_of_range(&v, 2, v.len() - 1));
            }
            if let Some(var) = strip_prefix(ts, "$") {
                return CredentialSource::Env(var);
            }
            if starts_with(ts, "/") {
                return CredentialSource::PathOrLiteral(t.clone());
            }
            CredentialSource::Literal(t.clone())
        },
    }
}

/// `PathBuf::join` on Unix: an absolute `name` replaces `dir`; otherwise a
/// separator is added where `dir` is non-empty and does not end in one.
pub open spec fn join_spec(dir: Seq<char>, name: Seq<char>) -> Seq<char> {
    if has_prefix(name, "/"@) || dir.len() == 0 {
        name
    } else if has_suffix(dir, "/"@) {
        dir + name
    } else {
        dir + "/"@ + name
    }
}

pub fn join_path(dir: &str, name: &str) -> (r: String)
    ensures
        r@ == join_spec(dir@, name@),
{
    proof {
        reveal_strlit("/");
    }
    if starts_with(name, "/") || dir.is_empty() {
        owned(name)
    } else if ends_with(dir, "/") {
        let mut r = owned(dir);
        r.append(name);
        r
    } else {
        let mut r = owned(dir);
        r.append("/");
        r.append(name);
        r
    }
}

/// The files that may hold systemd credential `name`, in the order they are
/// tried: under `$CREDENTIALS_DIRECTORY` where it is set, then under the
/// service's own credentials directory.
pub fn systemd_credential_paths(credentials_dir: Option<&str>, name: &str) -> (r: Vec<String>)
    ensures
        match credentials_dir {
            Some(d) => r@.len() == 2 && r@[0]@ == join_spec(d@, name@) && r@[1]@ == join_spec(
                service_credentials_dir(),
                name@,
            ),
            None => r@.len() == 1 && r@[0]@ == join_spec(service_credentials_dir(), name@),
        },
{
    let mut r: Vec<String> = Vec::new();
    if let Some(d) = credentials_dir {
        r.push(join_path(d, name));
    }
    r.push(join_path("/run/credentials/routerd.service", name));
    r
}

/// The environment variable that stands in for systemd credential `name`:
/// upper-cased, with `-` as `_`.
pub fn systemd_env_name(name: &str) -> (r: String)
    ensures
        r@ == unicode_upper(replace_char_seq(name@, '-', '_')),
{
    let n = replace_char(name, '-', '_');
    to_uppercase(n.as_str())
}

/// The names a provider's key is looked up under when its setting names no
/// source.
pub struct FallbackNames {
    /// The systemd credential `<id>_api_key`.
    pub credential: String,
    /// The variable `ROUTERD_<ID>_API_KEY`.
    pub prefixed_env: String,
    /// The variable `<ID>_API_KEY`.
    pub bare_env: String,
}

/// The provider id as fallback names use it: lower-cased, with `-` as `_`.
pub open spec fn clean_id(provider_id: Seq<char>) -> Seq<char> {
    unicode_lower(replace_char_seq(provider_id, '-', '_'))
}

pub fn provider_fallback_names(provider_id: &str) -> (f: FallbackNames)
    ensures
        f.credential@ == clean_id(provider_id@) + "_api_key"@,
        f.prefixed_env@ == "ROUTERD_"@ + unicode_upper(clean_id(provider_id@)) + "_API_KEY"@,
        f.bare_env@ == unicode_upper(clean_id(provider_id@)) + "_API_KEY"@,
{
    let replaced = replace_char(provider_id, '-', '_');
    let clean = to_lowercase(replaced.as_str());
    let upper = to_uppercase(clean.as_str());
    let mut credential = clean.clone();
    credential.append("_api_key");
    let mut prefixed_env = String::from_str("ROUTERD_");
    prefixed_env.append(upper.as_str());
    prefixed_env.append("_API_KEY");
    let mut bare_env = upper.clone();
    bare_env.append("_API_KEY");
    FallbackNames { credential, prefixed_env, bare_env }
}


/// A place a credential is looked up.
pub enum Lookup {
    /// A file, by its path.
    File(String),
    /// An environment variable, by its name.
    Env(String),
}

pub enum LookupView {
    File(Seq<char>),
    Env(Seq<char>),
}

impl View for Lookup {
    type V = LookupView;

    open spec fn view(&self) -> LookupView {
        match self {
            Lookup::File(p) => LookupView::File(p@),
            Lookup::Env(n) => LookupView::Env(n@),
        }
    }
}

pub open spec fn lookups_view(v: Seq<Lookup>) -> Seq<LookupView> {
    v.map_values(|l: Lookup| l@)
}

/// Where systemd credential `name` is looked for, in order: the files that
/// may hold it, then the variable standing in for it.
pub open spec fn systemd_plan(credentials_dir: Option<Seq<char>>, name: Seq<char>) -> Seq<LookupView> {
    let own = LookupView::File(join_spec(service_credentials_dir(), name));
    let var = LookupView::Env(unicode_upper(replace_char_seq(name, '-', '_')));
    match credentials_dir {
        Some(d) => seq![LookupView::File(join_spec(d, name)), own, var],
        None => seq![own, var],
    }
}

/// Every place a credential setting may be read from, in the order they are
/// consulted. A provider with no setting is looked up as the systemd
/// credential `<id>_api_key`, then as `ROUTERD_<ID>_API_KEY`, then as
/// `<ID>_API_KEY`.
pub open spec fn lookup_plan(
    source: CredentialSourceView,
    credentials_dir: Option<Seq<char>>,
    provider_id: Seq<char>,
) -> Seq<LookupView> {
    match source {
        CredentialSourceView::ProviderFallback => {
            let upper = unicode_upper(clean_id(provider_id));
            systemd_plan(credentials_dir, clean_id(provider_id) + "_api_key"@) + seq![
                LookupView::Env("ROUTERD_"@ + upper + "_API_KEY"@),
                LookupView::Env(upper + "_API_KEY"@),
            ]
        },
        CredentialSourceView::Systemd(n) => systemd_plan(credentials_dir, n),
        CredentialSourceView::Env(n) => seq![LookupView::Env(n)],
        CredentialSourceView::PathOrLiteral(p) => seq![LookupView::File(p)],
        CredentialSourceView::Literal(_) => Seq::empty(),
    }
}

fn systemd_lookups(out: &mut Vec<Lookup>, credentials_dir: Option<&str>, name: &str)
    ensures
        lookups_view(final(out)@) == lookups_view(old(out)@) + systemd_plan(
            opt_str_view(credentials_dir),
            name@,
        ),
{
    let ghost before = lookups_view(out@);
    match credentials_dir {
        Some(d) => {
            out.push(Lookup::File(join_path(d, name)));
        },
        None => {},
    }
    out.push(Lookup::File(join_path("/run/credentials/routerd.service", name)));
    out.push(Lookup::Env(systemd_env_name(name)));
    assert(lookups_view(out@) =~= before + systemd_plan(opt_str_view(credentials_dir), name@));
}

/// The places to read a credential from, in order (see `lookup_plan`).
pub fn credential_lookups(source: &CredentialSource, credentials_dir: Option<&str>, provider_id: &str) -> (plan: Vec<Lookup>)
    ensures
        lookups_view(plan@) == lookup_plan(source@, opt_str_view(credentials_dir), provider_id@),
{
    let mut out: Vec<Lookup> = Vec::new();
    assert(lookups_view(out@) =~= Seq::<LookupView>::empty());
    match source {
        CredentialSource::ProviderFallback => {
            let names = provider_fallback_names(provider_id);
            systemd_lookups(&mut out, credentials_dir, names.credential.as_str());
            let ghost mid = lookups_view(out@);
            out.push(Lookup::Env(names.prefixed_env));
            out.push(Lookup::Env(names.bare_env));
            assert(lookups_view(out@) =~= mid + seq![
                LookupView::Env("ROUTERD_"@ + unicode_upper(clean_id(provider_id@)) + "_API_KEY"@),
                LookupView::Env(unicode_upper(clean_id(provider_id@)) + "_API_KEY"@),
            ]);
        },
        CredentialSource::Systemd(n) => {
            systemd_lookups(&mut out, credentials_dir, n.as_str());
        },
        CredentialSource::Env(n) => {
            out.push(Lookup::Env(owned(n.as_str())));
            assert(lookups_view(out@) =~= seq![LookupView::Env(n@)]);
        },
        CredentialSource::PathOrLiteral(p) => {
            out.push(Lookup::File(owned(p.as_str())));
            assert(lookups_view(out@) =~= seq![LookupView::File(p@)]);
        },
        CredentialSource::Literal(_) => {},
    }
    out
}

/// What was found at a place looked up.
pub enum Found {
    /// The file does not exist, or the variable is not set (or not Unicode).
    Nothing,
    /// The file's contents, or the variable's value.
    Text(String),
    /// The file exists but could not be read: the message to report.
    Unreadable(String),
}

/// What a credential lookup settles on.
pub enum KeyOutcome {
    Key(Seq<char>),
    NoKey,
    Failed(Seq<char>),
}

pub open spec fn found_at(found: Seq<Found>, i: int) -> Found {
    if 0 <= i < found.len() {
        found[i]
    } else {
        Found::Nothing
    }
}

/// A value as a key: trimmed, and no key where blank.
pub open spec fn value_key(t: Seq<char>) -> KeyOutcome {
    if trim_seq(t).len() == 0 {
        KeyOutcome::NoKey
    } else {
        KeyOutcome::Key(trim_seq(t))
    }
}

/// A file settles the lookup once it exists: its value, or a failure where
/// it cannot be read.
pub open spec fn file_says(f: Found) -> Option<KeyOutcome> {
    match f {
        Found::Nothing => None,
        Found::Text(t) => Some(value_key(t@)),
        Found::Unreadable(m) => Some(KeyOutcome::Failed(m@)),
    }
}

/// A variable counts where it is set and not blank.
pub open spec fn env_says(f: Found) -> Option<Seq<char>> {
    match f {
        Found::Text(t) => if trim_seq(t@).len() == 0 {
            None
        } else {
            Some(trim_seq(t@))
        },
        _ => None,
    }
}

pub open spec fn env_outcome(f: Found) -> KeyOutcome {
    match env_says(f) {
        Some(v) => KeyOutcome::Key(v),
        None => KeyOutcome::NoKey,
    }
}

/// A systemd credential from `nfiles` files at `start` and the variable
/// after them: the first file that exists decides, else the variable.
pub open spec fn systemd_says(found: Seq<Found>, start: int, nfiles: int) -> KeyOutcome
    decreases nfiles,
{
    if nfiles <= 0 {
        env_outcome(found_at(found, start))
    } else {
        match file_says(found_at(found, start)) {
            Some(o) => o,
            None => systemd_says(found, start + 1, nfiles - 1),
        }
    }
}

/// The key a credential setting resolves to, given what was found at each
/// place of its `lookup_plan` (`has_dir`: whether a credentials directory
/// was given). Without a setting, a systemd credential counts only where it
/// gives a key; failures to read it pass on to the variables.
pub open spec fn resolve_spec(source: CredentialSourceView, has_dir: bool, found: Seq<Found>) -> KeyOutcome {
    let nfiles: int = if has_dir {
        2
    } else {
        1
    };
    match source {
        CredentialSourceView::Literal(k) => KeyOutcome::Key(k),
        CredentialSourceView::PathOrLiteral(p) => match file_says(found_at(found, 0)) {
            Some(o) => o,
            None => KeyOutcome::Key(p),
        },
        CredentialSourceView::Env(_) => env_outcome(found_at(found, 0)),
        CredentialSourceView::Systemd(_) => systemd_says(found, 0, nfiles),
        CredentialSourceView::ProviderFallback => match systemd_says(found, 0, nfiles) {
            KeyOutcome::Key(v) => KeyOutcome::Key(v),
            _ => match env_says(found_at(found, nfiles + 1)) {
                Some(v) => KeyOutcome::Key(v),
                None => env_outcome(found_at(found, nfiles + 2)),
            },
        },
    }
}

/// The result that carries an outcome.
pub open spec fn carries(r: Result<Option<String>, RouterError>, o: KeyOutcome) -> bool {
    match o {
        KeyOutcome::Key(v) => r matches Ok(Some(s)) && s@ == v,
        KeyOutcome::NoKey => r matches Ok(None),
        KeyOutcome::Failed(m) => r matches Err(RouterError::Credential(e)) && e@ == m,
    }
}

fn env_at(found: &Vec<Found>, i: usize) -> (r: Option<String>)
    ensures
        opt_view(r) == env_says(found_at(found@, i as int)),
{
    if i < found.len() {
        match &found[i] {
            Found::Text(t) => credential_value(t.as_str()),
            _ => None,
        }
    } else {
        None
    }
}

fn file_at(found: &Vec<Found>, i: usize) -> (r: Option<Result<Option<String>, RouterError>>)
    ensures
        match file_says(found_at(found@, i as int)) {
            None => r is None,
            Some(o) => r matches Some(x) && carries(x, o),
        },
{
    if i < found.len() {
        match &found[i] {
            Found::Nothing => None,
            Found::Text(t) => Some(Ok(credential_value(t.as_str()))),
            Found::Unreadable(m) => Some(Err(RouterError::Credential(owned(m.as_str())))),
        }
    } else {
        None
    }
}

fn systemd_at(found: &Vec<Found>, start: usize, nfiles: usize) -> (r: Result<Option<String>, RouterError>)
    requires
        start + nfiles < usize::MAX,
    ensures
        carries(r, systemd_says(found@, start as int, nfiles as int)),
    decreases nfiles,
{
    if nfiles == 0 {
        return Ok(env_at(found, start));
    }
    match file_at(found, start) {
        Some(r) => r,
        None => systemd_at(found, start + 1, nfiles - 1),
    }
}

/// The key a credential setting resolves to, given what was found at each
/// place of `credential_lookups` for it, in order; `has_dir` says whether a
/// credentials directory was given.
pub fn settle_credential(source: &CredentialSource, has_dir: bool, found: &Vec<Found>) -> (r: Result<Option<String>, RouterError>)
    ensures
        carries(r, resolve_spec(source@, has_dir, found@)),
{
    let nfiles: usize = if has_dir {
        2
    } else {
        1
    };
    match source {
        CredentialSource::Literal(k) => Ok(Some(owned(k.as_str()))),
        CredentialSource::PathOrLiteral(p) => match file_at(found, 0) {
            Some(r) => r,
            None => Ok(Some(owned(p.as_str()))),
        },
        CredentialSource::Env(_) => Ok(env_at(found, 0)),
        CredentialSource::Systemd(_) => systemd_at(found, 0, nfiles),
        CredentialSource::ProviderFallback => {
            let first = systemd_at(found, 0, nfiles);
            match first {
                Ok(Some(k)) => Ok(Some(k)),
                _ => match env_at(found, nfiles + 1) {
                    Some(k) => Ok(Some(k)),
                    None => Ok(env_at(found, nfiles + 2)),
                },
            }
        },
    }
}

/// A value read for a credential: trimmed, and nothing if blank.
pub fn credential_value(raw: &str) -> (r: Option<String>)
    ensures
        trim_seq(raw@).len() == 0 ==> r is None,
        trim_seq(raw@).len() > 0 ==> (r matches Some(v) && v@ == trim_seq(raw@)),
{
    let t = trim(raw);
    if t.as_str().is_empty() {
        None
    } else {
        Some(t)
    }
}

} // verus!
