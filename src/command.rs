use vstd::prelude::*;

use crate::settings::{
    default_props, find_prefix, lemma_push_entry, lemma_remove_entry,
    lemma_update_entry, opt_view, has_name, PrefixProperties, PrefixPropertiesView, Properties,
    PropertiesView,
};
use crate::translate::{
    bool_text, effective_path, environment_of, join, join_path, key_of, line,
    make_line, parse_bool, parse_property_key, prefix_path, render_report, report_of,
    retina_args_of, retina_mode_args, show_bool, text, to_environment, truthy, derived_prefix_path,
    PropertyKey,
};

verus! {

/// Name of the installed bundle inside the application data directory.
pub const GPTK_APP_FILE_NAME: &'static str = "Game Porting Toolkit.app";

/// Where the compatibility layer's executable sits inside the bundle.
pub const WINE_EXECUTABLE_PATH: &'static str = "Contents/Resources/wine/bin/wine64";

/// Why an operation failed.
#[derive(Clone, Debug, PartialEq, Eq)]
pub enum CiderError {
    /// The named prefix is not registered.
    NotFound(String),
    /// A prefix of that name is already registered.
    AlreadyExists(String),
    /// No prefix was named and no default is set.
    NoPrefixSpecified,
    /// The directory to register does not exist.
    PathNotFound(String),
    /// The path to install from is not a bundle of the expected layout.
    InvalidBundle(String),
    /// The configuration key is not one of the recognised ones.
    UnsupportedProperty(String),
    /// The compatibility layer's setup command did not succeed.
    ExternalToolFailure,
    /// A setting is not of the form `key=value` with exactly one `=`.
    MalformedSetting(String),
}

/// The name that applies: the explicit one, else the default.
pub open spec fn selected(explicit: Option<Seq<char>>, default: Option<Seq<char>>) -> Option<
    Seq<char>,
> {
    match explicit {
        Some(n) => Some(n),
        None => default,
    }
}

/// The registry after registering `name` with the settings `p`.
pub open spec fn with_prefix(v: PropertiesView, name: Seq<char>, p: PrefixPropertiesView) -> PropertiesView {
    PropertiesView { default_prefix: v.default_prefix, prefixes: v.prefixes.insert(name, p) }
}

/// The settings of a prefix registered by `add` or `create`.
pub open spec fn fresh_props(dir: Option<Seq<char>>) -> PrefixPropertiesView {
    PrefixPropertiesView { custom_dir: dir, ..default_props() }
}

/// The registry after removing `name`: the default is cleared if it named it.
pub open spec fn without_prefix(v: PropertiesView, name: Seq<char>) -> PropertiesView {
    PropertiesView {
        default_prefix: if v.default_prefix == Some(name) {
            None
        } else {
            v.default_prefix
        },
        prefixes: v.prefixes.remove(name),
    }
}

/// The line of `list` for a registered name.
pub open spec fn list_line(name: Seq<char>, default: Option<Seq<char>>) -> Seq<char> {
    if default == Some(name) {
        name + " (default)"@
    } else {
        name
    }
}

/// The report of `default` when no name is given.
pub open spec fn default_report(default: Option<Seq<char>>) -> Seq<char> {
    match default {
        Some(n) => "Default prefix: `"@ + n + "`"@,
        None => "No default prefix set"@,
    }
}

/// The settings after setting `key` to the text `v`.
pub open spec fn apply_key(p: PrefixPropertiesView, key: PropertyKey, v: Seq<char>) -> PrefixPropertiesView {
    match key {
        PropertyKey::Dir => PrefixPropertiesView {
            custom_dir: if v.len() == 0 {
                None
            } else {
                Some(v)
            },
            ..p
        },
        PropertyKey::Hud => PrefixPropertiesView { hud: truthy(v), ..p },
        PropertyKey::Esync => PrefixPropertiesView { esync: truthy(v), ..p },
        PropertyKey::RetinaMode => PrefixPropertiesView { retina_mode: truthy(v), ..p },
        PropertyKey::Avx => PrefixPropertiesView { avx: truthy(v), ..p },
        PropertyKey::Dxr => PrefixPropertiesView { dxr: truthy(v), ..p },
        PropertyKey::Metalfx => PrefixPropertiesView { metalfx: truthy(v), ..p },
    }
}

/// The settings after one edit; an unrecognised key changes nothing.
pub open spec fn apply_edit(p: PrefixPropertiesView, k: Seq<char>, v: Seq<char>) -> PrefixPropertiesView {
    match key_of(k) {
        Some(key) => apply_key(p, key, v),
        None => p,
    }
}

/// The line that setting `key` reports, given the settings after it.
pub open spec fn key_line(p: PrefixPropertiesView, key: PropertyKey) -> Seq<char> {
    match key {
        PropertyKey::Dir => line(
            "dir"@,
            match p.custom_dir {
                Some(d) => d,
                None => Seq::empty(),
            },
        ),
        PropertyKey::Hud => line("hud"@, bool_text(p.hud)),
        PropertyKey::Esync => line("esync"@, bool_text(p.esync)),
        PropertyKey::RetinaMode => line("retina_mode"@, bool_text(p.retina_mode)),
        PropertyKey::Avx => line("avx"@, bool_text(p.avx)),
        PropertyKey::Dxr => line("dxr"@, bool_text(p.dxr)),
        PropertyKey::Metalfx => line("metalfx"@, bool_text(p.metalfx)),
    }
}

/// The line an edit reports; an unrecognised key reports none.
pub open spec fn edit_line(p: PrefixPropertiesView, k: Seq<char>) -> Option<Seq<char>> {
    match key_of(k) {
        Some(key) => Some(key_line(p, key)),
        None => None,
    }
}

/// What a sequence of edits leaves: the settings and the lines reported.
pub ghost struct EditOutcome {
    pub props: PrefixPropertiesView,
    pub lines: Seq<Seq<char>>,
}

/// The edits applied in order to `p`.
pub open spec fn apply_edits(p: PrefixPropertiesView, e: Seq<(Seq<char>, Seq<char>)>) -> EditOutcome
    decreases e.len(),
{
    if e.len() == 0 {
        EditOutcome { props: p, lines: Seq::empty() }
    } else {
        let o = apply_edits(p, e.drop_last());
        let (k, v) = e.last();
        let q = apply_edit(o.props, k, v);
        EditOutcome {
            props: q,
            lines: match edit_line(q, k) {
                Some(l) => o.lines.push(l),
                None => o.lines,
            },
        }
    }
}

/// Every key of the edits is recognised.
pub open spec fn all_supported(e: Seq<(Seq<char>, Seq<char>)>) -> bool {
    forall|i: int| 0 <= i < e.len() ==> (#[trigger] key_of(e[i].0)) is Some
}

/// `k` is the first key of the edits that is not recognised.
pub open spec fn first_unsupported(e: Seq<(Seq<char>, Seq<char>)>, k: Seq<char>) -> bool {
    exists|i: int|
        0 <= i < e.len() && key_of(#[trigger] e[i].0) is None && e[i].0 == k && all_supported(
            e.take(i),
        )
}

/// The edits as pairs of character sequences.
pub open spec fn edits_view(s: Seq<(String, String)>) -> Seq<(Seq<char>, Seq<char>)> {
    s.map_values(|x: (String, String)| (x.0@, x.1@))
}

/// The settings once the registry edit for the retina mode has run: a
/// failure restores the retina mode stored before the edits, `previous`.
pub open spec fn settled(p: PrefixPropertiesView, previous: bool, succeeded: bool) -> PrefixPropertiesView {
    if succeeded {
        p
    } else {
        PrefixPropertiesView { retina_mode: previous, ..p }
    }
}

/// A run of the compatibility layer against a prefix.
#[derive(Debug)]
pub struct ToolCommand {
    /// Where the prefix is stored.
    pub prefix_path: String,
    /// The arguments handed to the compatibility layer.
    pub args: Vec<String>,
}

/// What a successful `configure` with edits leaves to do.
#[derive(Debug)]
pub struct ConfigChange {
    /// The prefix that was edited.
    pub name: String,
    /// One line per edit.
    pub lines: Vec<String>,
    /// The retina mode stored before the edits.
    pub previous_retina_mode: bool,
    /// The registry edit to run, where the edits changed the retina mode.
    pub retina: Option<ToolCommand>,
}

/// How to start the compatibility layer for `run`.
#[derive(Debug)]
pub struct Invocation {
    /// Where the prefix is stored.
    pub prefix_path: String,
    /// The variables that carry the prefix's settings.
    pub env: Vec<(String, String)>,
    /// The command followed by its arguments.
    pub args: Vec<String>,
}

/// Chooses the prefix name an operation applies to: the explicit name as it
/// is, else the registry's default.
pub fn select_prefix(prefix: Option<String>, properties: &Properties) -> (r: Result<String, CiderError>)
    ensures
        match selected(opt_view(prefix), properties@.default_prefix) {
            Some(n) => r matches Ok(s) && s@ == n,
            None => r == Err::<String, CiderError>(CiderError::NoPrefixSpecified),
        },
{
    match prefix {
        Some(p) => Ok(p),
        None => match &properties.default_prefix {
            Some(d) => Ok(d.clone()),
            None => Err(CiderError::NoPrefixSpecified),
        },
    }
}

/// Resolves the prefix and finds its entry: its name and index.
pub fn lookup_prefix(prefix: Option<String>, properties: &Properties) -> (r: Result<
    (String, usize),
    CiderError,
>)
    requires
        properties.wf(),
    ensures
        match selected(opt_view(prefix), properties@.default_prefix) {
            None => r == Err::<(String, usize), CiderError>(CiderError::NoPrefixSpecified),
            Some(n) => if properties@.prefixes.contains_key(n) {
                r matches Ok((s, i)) && s@ == n && i < properties.prefixes@.len()
                    && properties.prefixes@[i as int].0@ == n && properties@.prefixes[n]
                    == properties.prefixes@[i as int].1@
            } else {
                r matches Err(CiderError::NotFound(s)) && s@ == n
            },
        },
{
    let name = select_prefix(prefix, properties)?;
    match find_prefix(properties, &name) {
        Some(i) => Ok((name, i)),
        None => Err(CiderError::NotFound(name)),
    }
}

/// Registers an existing directory as the prefix `prefix`; `dir_exists`
/// tells whether the directory is there.
pub fn add_prefix(properties: &mut Properties, prefix: String, dir: String, dir_exists: bool) -> (r:
    Result<(), CiderError>)
    requires
        old(properties).wf(),
    ensures
        final(properties).wf(),
        old(properties)@.prefixes.contains_key(prefix@) ==> (r matches Err(
            CiderError::AlreadyExists(s),
        ) && s@ == prefix@),
        !old(properties)@.prefixes.contains_key(prefix@) && !dir_exists ==> (r matches Err(
            CiderError::PathNotFound(s),
        ) && s@ == dir@),
        r is Err ==> final(properties)@ == old(properties)@,
        r is Ok <==> !old(properties)@.prefixes.contains_key(prefix@) && dir_exists,
        r is Ok ==> final(properties)@ == with_prefix(
            old(properties)@,
            prefix@,
            fresh_props(Some(dir@)),
        ),
{
    if find_prefix(properties, &prefix).is_some() {
        return Err(CiderError::AlreadyExists(prefix));
    }
    if !dir_exists {
        return Err(CiderError::PathNotFound(dir));
    }
    register(properties, prefix, Some(dir));
    Ok(())
}

/// Appends a fresh entry for a name not yet registered.
fn register(properties: &mut Properties, prefix: String, dir: Option<String>)
    requires
        old(properties).wf(),
        !old(properties)@.prefixes.contains_key(prefix@),
    ensures
        final(properties).wf(),
        final(properties)@ == with_prefix(old(properties)@, prefix@, fresh_props(opt_view(dir))),
{
    let mut props = PrefixProperties::new();
    props.custom_dir = dir;
    proof {
        assert(!has_name(old(properties).prefixes@, prefix@));
        lemma_push_entry(old(properties).prefixes@, (prefix, props));
    }
    properties.prefixes.push((prefix, props));
}

/// The setup command of `create`: `winecfg`, run against the custom
/// directory, or the derived path of the name.
pub fn create_prefix_target(
    properties: &Properties,
    prefix: &String,
    dir: &Option<String>,
    app_dir: &str,
) -> (r: Result<ToolCommand, CiderError>)
    requires
        properties.wf(),
    ensures
        properties@.prefixes.contains_key(prefix@) ==> (r matches Err(CiderError::AlreadyExists(s))
            && s@ == prefix@),
        !properties@.prefixes.contains_key(prefix@) ==> (r matches Ok(c) && c.prefix_path@
            == effective_path(fresh_props(opt_view(*dir)), prefix@, app_dir@) && c.args@.len() == 1
            && c.args@[0]@ == "winecfg"@),
{
    if find_prefix(properties, prefix).is_some() {
        return Err(CiderError::AlreadyExists(prefix.clone()));
    }
    let prefix_path = match dir {
        Some(d) => d.clone(),
        None => derived_prefix_path(app_dir, prefix.as_str()),
    };
    let mut args: Vec<String> = Vec::new();
    args.push(text("winecfg"));
    Ok(ToolCommand { prefix_path, args })
}

/// Registers a newly provisioned prefix once its setup command has run;
/// `setup_succeeded` tells whether it exited successfully.
pub fn create_prefix(
    properties: &mut Properties,
    prefix: String,
    dir: Option<String>,
    setup_succeeded: bool,
) -> (r: Result<(), CiderError>)
    requires
        old(properties).wf(),
    ensures
        final(properties).wf(),
        old(properties)@.prefixes.contains_key(prefix@) ==> (r matches Err(
            CiderError::AlreadyExists(s),
        ) && s@ == prefix@),
        !old(properties)@.prefixes.contains_key(prefix@) && !setup_succeeded ==> r == Err::<
            (),
            CiderError,
        >(CiderError::ExternalToolFailure),
        r is Err ==> final(properties)@ == old(properties)@,
        r is Ok <==> !old(properties)@.prefixes.contains_key(prefix@) && setup_succeeded,
        r is Ok ==> final(properties)@ == with_prefix(
            old(properties)@,
            prefix@,
            fresh_props(opt_view(dir)),
        ),
{
    if find_prefix(properties, &prefix).is_some() {
        return Err(CiderError::AlreadyExists(prefix));
    }
    if !setup_succeeded {
        return Err(CiderError::ExternalToolFailure);
    }
    register(properties, prefix, dir);
    Ok(())
}

/// With a name: makes that registered prefix the default and says so.
/// Without: reports the current default, changing nothing.
pub fn default_prefix(properties: &mut Properties, prefix: Option<String>) -> (r: Result<
    String,
    CiderError,
>)
    requires
        old(properties).wf(),
    ensures
        final(properties).wf(),
        final(properties)@.prefixes == old(properties)@.prefixes,
        match prefix {
            Some(p) => if old(properties)@.prefixes.contains_key(p@) {
                r matches Ok(m) && m@ == "Prefix `"@ + p@ + "` set as default"@
                    && final(properties)@.default_prefix == Some(p@)
            } else {
                r matches Err(CiderError::NotFound(s)) && s@ == p@ && final(properties)@
                    == old(properties)@
            },
            None => r matches Ok(m) && m@ == default_report(old(properties)@.default_prefix)
                && final(properties)@ == old(properties)@,
        },
{
    match prefix {
        Some(p) => {
            if find_prefix(properties, &p).is_some() {
                let m = text("Prefix `").concat(p.as_str()).concat("` set as default");
                properties.default_prefix = Some(p);
                Ok(m)
            } else {
                Err(CiderError::NotFound(p))
            }
        },
        None => match &properties.default_prefix {
            Some(d) => Ok(text("Default prefix: `").concat(d.as_str()).concat("`")),
            None => Ok(text("No default prefix set")),
        },
    }
}

/// One line per registered prefix, in the registry's order, the default
/// marked.
pub fn list_prefixes(properties: &Properties) -> (r: Vec<String>)
    requires
        properties.wf(),
    ensures
        r@.len() == properties.prefixes@.len(),
        forall|i: int|
            0 <= i < r@.len() ==> (#[trigger] r@[i])@ == list_line(
                properties.prefixes@[i].0@,
                properties@.default_prefix,
            ),
        forall|n: Seq<char>|
            #[trigger] properties@.prefixes.contains_key(n) ==> exists|i: int|
                0 <= i < r@.len() && (#[trigger] r@[i])@ == list_line(
                    n,
                    properties@.default_prefix,
                ),
{
    let n = properties.prefixes.len();
    let mut r: Vec<String> = Vec::new();
    let mut i: usize = 0;
    while i < n
        invariant
            n == properties.prefixes@.len(),
            i <= n,
            r@.len() == i,
            forall|j: int|
                0 <= j < i ==> (#[trigger] r@[j])@ == list_line(
                    properties.prefixes@[j].0@,
                    properties@.default_prefix,
                ),
        decreases n - i,
    {
        let name = &properties.prefixes[i].0;
        let is_default = match &properties.default_prefix {
            Some(d) => *d == *name,
            None => false,
        };
        if is_default {
            r.push(text(name.as_str()).concat(" (default)"));
        } else {
            r.push(name.clone());
        }
        i += 1;
    }
    proof {
        assert forall|k: Seq<char>| #[trigger] properties@.prefixes.contains_key(k) implies exists|
            j: int,
        | 0 <= j < r@.len() && (#[trigger] r@[j])@ == list_line(k, properties@.default_prefix) by {
            let j = choose|j: int|
                0 <= j < properties.prefixes@.len() && #[trigger] properties.prefixes@[j].0@ == k;
            assert(r@[j]@ == list_line(k, properties@.default_prefix));
        }
    }
    r
}

/// The prefix that `remove` deletes and the directory to delete with it.
pub fn remove_prefix_target(
    properties: &Properties,
    prefix: Option<String>,
    app_dir: &str,
) -> (r: Result<(String, String), CiderError>)
    requires
        properties.wf(),
    ensures
        match selected(opt_view(prefix), properties@.default_prefix) {
            None => r == Err::<(String, String), CiderError>(CiderError::NoPrefixSpecified),
            Some(n) => if properties@.prefixes.contains_key(n) {
                r matches Ok((s, p)) && s@ == n && p@ == effective_path(
                    properties@.prefixes[n],
                    n,
                    app_dir@,
                )
            } else {
                r matches Err(CiderError::NotFound(s)) && s@ == n
            },
        },
{
    let (name, i) = lookup_prefix(prefix, properties)?;
    let path = prefix_path(&properties.prefixes[i].1, name.as_str(), app_dir);
    Ok((name, path))
}

/// Drops the prefix `name` from the registry, clearing the default if it
/// named it.
pub fn remove_prefix(properties: &mut Properties, name: &String) -> (r: Result<(), CiderError>)
    requires
        old(properties).wf(),
    ensures
        final(properties).wf(),
        r is Ok <==> old(properties)@.prefixes.contains_key(name@),
        r is Err ==> (r matches Err(CiderError::NotFound(s)) && s@ == name@ && final(properties)@
            == old(properties)@),
        r is Ok ==> final(properties)@ == without_prefix(old(properties)@, name@),
{
    match find_prefix(properties, name) {
        None => Err(CiderError::NotFound(name.clone())),
        Some(i) => {
            let clear = match &properties.default_prefix {
                Some(d) => *d == *name,
                None => false,
            };
            if clear {
                properties.default_prefix = None;
            }
            proof {
                lemma_remove_entry(properties.prefixes@, i as int);
            }
            properties.prefixes.remove(i);
            Ok(())
        },
    }
}

/// The full property report of a prefix: its name and one line per key.
pub fn prefix_report(properties: &Properties, prefix: Option<String>, app_dir: &str) -> (r: Result<
    (String, Vec<String>),
    CiderError,
>)
    requires
        properties.wf(),
    ensures
        match selected(opt_view(prefix), properties@.default_prefix) {
            None => r == Err::<(String, Vec<String>), CiderError>(CiderError::NoPrefixSpecified),
            Some(n) => if properties@.prefixes.contains_key(n) {
                r matches Ok((s, lines)) && s@ == n && lines@.len() == 7 && forall|i: int|
                    0 <= i < 7 ==> (#[trigger] lines@[i])@ == report_of(
                        properties@.prefixes[n],
                        n,
                        app_dir@,
                    )[i]
            } else {
                r matches Err(CiderError::NotFound(s)) && s@ == n
            },
        },
{
    let (name, i) = lookup_prefix(prefix, properties)?;
    let lines = render_report(&properties.prefixes[i].1, name.as_str(), app_dir);
    Ok((name, lines))
}

/// Sets `key` to the text `value`. Returns the line to report.
fn set_property(cur: &mut PrefixProperties, key: PropertyKey, value: &str) -> (r: String)
    ensures
        final(cur)@ == apply_key(old(cur)@, key, value@),
        r@ == key_line(final(cur)@, key),
{
    match key {
        PropertyKey::Dir => {
            cur.custom_dir = if value.unicode_len() == 0 {
                None
            } else {
                Some(text(value))
            };
            let shown = match &cur.custom_dir {
                Some(d) => d.clone(),
                None => String::new(),
            };
            make_line("dir", shown.as_str())
        },
        PropertyKey::Hud => {
            cur.hud = parse_bool(value);
            make_line("hud", show_bool(cur.hud).as_str())
        },
        PropertyKey::Esync => {
            cur.esync = parse_bool(value);
            make_line("esync", show_bool(cur.esync).as_str())
        },
        PropertyKey::RetinaMode => {
            cur.retina_mode = parse_bool(value);
            make_line("retina_mode", show_bool(cur.retina_mode).as_str())
        },
        PropertyKey::Avx => {
            cur.avx = parse_bool(value);
            make_line("avx", show_bool(cur.avx).as_str())
        },
        PropertyKey::Dxr => {
            cur.dxr = parse_bool(value);
            make_line("dxr", show_bool(cur.dxr).as_str())
        },
        PropertyKey::Metalfx => {
            cur.metalfx = parse_bool(value);
            make_line("metalfx", show_bool(cur.metalfx).as_str())
        },
    }
}

/// Applies `key=value` edits to the resolved prefix. Nothing changes unless
/// the prefix is registered and every key is recognised; the first key that is
/// not gives the error. Where the edits leave the retina mode other than it
/// was stored, a registry edit is asked for, run by the caller, whose outcome
/// `settle_retina_mode` then records.
pub fn prefix_config(
    properties: &mut Properties,
    prefix: Option<String>,
    settings: &Vec<(String, String)>,
    app_dir: &str,
) -> (r: Result<ConfigChange, CiderError>)
    requires
        old(properties).wf(),
    ensures
        final(properties).wf(),
        r is Err ==> final(properties)@ == old(properties)@,
        match selected(opt_view(prefix), old(properties)@.default_prefix) {
            None => r == Err::<ConfigChange, CiderError>(CiderError::NoPrefixSpecified),
            Some(n) => if !old(properties)@.prefixes.contains_key(n) {
                r matches Err(CiderError::NotFound(s)) && s@ == n
            } else if !all_supported(edits_view(settings@)) {
                r matches Err(CiderError::UnsupportedProperty(k)) && first_unsupported(
                    edits_view(settings@),
                    k@,
                )
            } else {
                let o = apply_edits(old(properties)@.prefixes[n], edits_view(settings@));
                &&& r matches Ok(c)
                &&& c.name@ == n
                &&& final(properties)@ == with_prefix(old(properties)@, n, o.props)
                &&& c.lines@.len() == o.lines.len()
                &&& forall|i: int| 0 <= i < c.lines@.len() ==> (#[trigger] c.lines@[i])@ == o.lines[i]
                &&& c.previous_retina_mode == old(properties)@.prefixes[n].retina_mode
                &&& c.retina is Some <==> o.props.retina_mode != c.previous_retina_mode
                &&& c.retina matches Some(rc) ==> {
                    &&& rc.prefix_path@ == effective_path(o.props, n, app_dir@)
                    &&& rc.args@.len() == 10
                    &&& forall|i: int|
                        0 <= i < 10 ==> (#[trigger] rc.args@[i])@ == retina_args_of(
                            o.props.retina_mode,
                        )[i]
                }
            },
        },
{
    let (name, idx) = lookup_prefix(prefix, properties)?;
    let ghost p0 = properties.prefixes@[idx as int].1@;
    let ghost ev = edits_view(settings@);
    let mut cur = properties.prefixes[idx].1.duplicate();
    let previous = properties.prefixes[idx].1.retina_mode;
    let mut lines: Vec<String> = Vec::new();
    let n = settings.len();
    let mut i: usize = 0;
    while i < n
        invariant
            *properties == *old(properties),
            properties.wf(),
            idx < properties.prefixes@.len(),
            properties.prefixes@[idx as int].0@ == name@,
            properties@.prefixes.contains_key(name@),
            p0 == properties@.prefixes[name@],
            selected(opt_view(prefix), properties@.default_prefix) == Some(name@),
            n == settings@.len() == ev.len(),
            ev == edits_view(settings@),
            i <= n,
            all_supported(ev.take(i as int)),
            cur@ == apply_edits(p0, ev.take(i as int)).props,
            previous == p0.retina_mode,
            lines@.len() == apply_edits(p0, ev.take(i as int)).lines.len(),
            forall|j: int|
                0 <= j < lines@.len() ==> (#[trigger] lines@[j])@ == apply_edits(
                    p0,
                    ev.take(i as int),
                ).lines[j],
        decreases n - i,
    {
        let key = &settings[i].0;
        let value = &settings[i].1;
        proof {
            assert(ev.take(i as int + 1).drop_last() =~= ev.take(i as int));
            assert(ev[i as int] == (key@, value@));
        }
        match parse_property_key(key.as_str()) {
            None => {
                proof {
                    assert(first_unsupported(ev, key@));
                }
                return Err(CiderError::UnsupportedProperty(key.clone()));
            },
            Some(k) => {
                let l = set_property(&mut cur, k, value.as_str());
                lines.push(l);
            },
        }
        proof {
            let o2 = apply_edits(p0, ev.take(i as int + 1));
            assert(o2.props == cur@);
            assert(o2.lines =~= lines@.map_values(|l: String| l@));
            assert forall|j: int| 0 <= j <= i implies (#[trigger] key_of(ev.take(i as int + 1)[j].0)) is Some by {
                if j < i {
                    assert(ev.take(i as int + 1)[j] == ev.take(i as int)[j]);
                }
            }
        }
        i += 1;
    }
    proof {
        assert(ev.take(n as int) =~= ev);
    }
    let retina = if cur.retina_mode != previous {
        let path = prefix_path(&cur, name.as_str(), app_dir);
        Some(ToolCommand { prefix_path: path, args: retina_mode_args(cur.retina_mode) })
    } else {
        None
    };
    let entry_name = name.clone();
    proof {
        lemma_update_entry(properties.prefixes@, idx as int, (entry_name, cur));
    }
    properties.prefixes[idx] = (entry_name, cur);
    Ok(ConfigChange { name, lines, previous_retina_mode: previous, retina })
}

/// Records the outcome of the registry edit for the retina mode of `name`:
/// where it failed, the retina mode goes back to `previous`, the value stored
/// before the edits. Returns the line that
/// reports the mode now stored.
pub fn settle_retina_mode(
    properties: &mut Properties,
    name: &String,
    previous: bool,
    succeeded: bool,
) -> (r: Result<
    String,
    CiderError,
>)
    requires
        old(properties).wf(),
    ensures
        final(properties).wf(),
        r is Ok <==> old(properties)@.prefixes.contains_key(name@),
        r is Err ==> (r matches Err(CiderError::NotFound(s)) && s@ == name@ && final(properties)@
            == old(properties)@),
        r matches Ok(l) ==> {
            let p = settled(old(properties)@.prefixes[name@], previous, succeeded);
            &&& final(properties)@ == with_prefix(old(properties)@, name@, p)
            &&& l@ == line("retina_mode"@, bool_text(p.retina_mode))
        },
{
    match find_prefix(properties, name) {
        None => Err(CiderError::NotFound(name.clone())),
        Some(i) => {
            let mut cur = properties.prefixes[i].1.duplicate();
            if !succeeded {
                cur.retina_mode = previous;
            }
            let l = make_line("retina_mode", show_bool(cur.retina_mode).as_str());
            let entry_name = name.clone();
            proof {
                lemma_update_entry(properties.prefixes@, i as int, (entry_name, cur));
            }
            properties.prefixes[i] = (entry_name, cur);
            Ok(l)
        },
    }
}

/// How to run `command` with `args` in the resolved prefix: where the prefix
/// is stored and the variables that carry its settings.
pub fn run(
    properties: &Properties,
    command: String,
    prefix: Option<String>,
    args: Vec<String>,
    app_dir: &str,
) -> (r: Result<Invocation, CiderError>)
    requires
        properties.wf(),
    ensures
        match selected(opt_view(prefix), properties@.default_prefix) {
            None => r == Err::<Invocation, CiderError>(CiderError::NoPrefixSpecified),
            Some(n) => if properties@.prefixes.contains_key(n) {
                &&& r matches Ok(inv)
                &&& inv.prefix_path@ == effective_path(properties@.prefixes[n], n, app_dir@)
                &&& inv.env@.len() == 5
                &&& forall|i: int|
                    0 <= i < 5 ==> (#[trigger] inv.env@[i].0@, inv.env@[i].1@) == environment_of(
                        properties@.prefixes[n],
                    )[i]
                &&& inv.args@ == seq![command].add(args@)
            } else {
                r matches Err(CiderError::NotFound(s)) && s@ == n
            },
        },
{
    let (name, i) = lookup_prefix(prefix, properties)?;
    let props = &properties.prefixes[i].1;
    let path = prefix_path(props, name.as_str(), app_dir);
    let env = to_environment(props);
    let mut all: Vec<String> = Vec::new();
    all.push(command);
    let mut rest = args;
    all.append(&mut rest);
    assert(all@ =~= seq![command].add(args@));
    Ok(Invocation { prefix_path: path, env, args: all })
}

/// Where the compatibility layer's executable sits in the bundle at `path`.
pub fn bundle_executable(path: &str) -> (r: String)
    ensures
        r@ == join_path(path@, WINE_EXECUTABLE_PATH@),
{
    join(path, WINE_EXECUTABLE_PATH)
}

/// Where the compatibility layer's executable is installed.
pub fn wine_executable(app_dir: &str) -> (r: String)
    ensures
        r@ == join_path(join_path(app_dir@, GPTK_APP_FILE_NAME@), WINE_EXECUTABLE_PATH@),
{
    let bundle = join(app_dir, GPTK_APP_FILE_NAME);
    join(bundle.as_str(), WINE_EXECUTABLE_PATH)
}

/// Checks a bundle to install and gives where it goes; `path_exists` and
/// `executable_exists` tell whether `path` and its executable are there.
pub fn install(path: String, app_dir: &str, path_exists: bool, executable_exists: bool) -> (r:
    Result<String, CiderError>)
    ensures
        r is Ok <==> path_exists && executable_exists,
        r is Err ==> (r matches Err(CiderError::InvalidBundle(s)) && s@ == path@),
        r matches Ok(t) ==> t@ == join_path(app_dir@, GPTK_APP_FILE_NAME@),
{
    if !path_exists || !executable_exists {
        return Err(CiderError::InvalidBundle(path));
    }
    Ok(join(app_dir, GPTK_APP_FILE_NAME))
}

/// Splits a setting `key=value` at its one `=`.
pub fn parse_key_value_pair(key_value_pair: &str) -> (r: Result<(String, String), CiderError>)
    ensures
        r is Ok <==> exists|pos: int| is_only_separator(key_value_pair@, pos),
        r matches Ok((k, v)) ==> exists|pos: int|
            is_only_separator(key_value_pair@, pos) && k@ == key_value_pair@.take(pos) && v@
                == key_value_pair@.skip(pos + 1),
        r matches Err(e) ==> (e matches CiderError::MalformedSetting(s) && s@ == key_value_pair@),
{
    let s = key_value_pair;
    let n = s.unicode_len();
    let mut pos: usize = n;
    let mut i: usize = 0;
    while i < n
        invariant
            s == key_value_pair,
            n == s@.len(),
            i <= n,
            pos == n || (pos < i && s@[pos as int] == '='),
            forall|j: int| 0 <= j < i && j != pos ==> #[trigger] s@[j] != '=',
            pos == n ==> forall|j: int| 0 <= j < i ==> #[trigger] s@[j] != '=',
        decreases n - i,
    {
        if s.get_char(i) == '=' {
            if pos < n {
                proof {
                    assert forall|p: int| !is_only_separator(s@, p) by {
                        if is_only_separator(s@, p) {
                            assert(s@[pos as int] == '=' && s@[i as int] == '=');
                        }
                    }
                }
                return Err(CiderError::MalformedSetting(text(s)));
            }
            pos = i;
        }
        i += 1;
    }
    if pos == n {
        proof {
            assert forall|p: int| !is_only_separator(s@, p) by {
                if is_only_separator(s@, p) {
                    assert(s@[p] == '=');
                }
            }
        }
        return Err(CiderError::MalformedSetting(text(s)));
    }
    let k = text(s.substring_char(0, pos));
    let v = text(s.substring_char(pos + 1, n));
    proof {
        assert(is_only_separator(s@, pos as int));
        assert(k@ =~= s@.take(pos as int));
        assert(v@ =~= s@.skip(pos as int + 1));
    }
    Ok((k, v))
}

/// `pos` holds the one `=` of `s`.
pub open spec fn is_only_separator(s: Seq<char>, pos: int) -> bool {
    &&& 0 <= pos < s.len()
    &&& s[pos] == '='
    &&& forall|j: int| 0 <= j < s.len() && j != pos ==> s[j] != '='
}

/// An explicit name is resolved as it is, whatever the default.
pub proof fn law_explicit_name_wins(v: PropertiesView, name: Seq<char>)
    ensures
        selected(Some(name), v.default_prefix) == Some(name),
{
}

/// With no name and no default, nothing is resolved.
pub proof fn law_no_default_no_name(v: PropertiesView)
    requires
        v.default_prefix is None,
    ensures
        selected(None, v.default_prefix) is None,
{
}

/// A prefix just added is registered, so `list` shows it and a second `add`
/// of the name is refused.
pub proof fn law_added_prefix_registered(v: PropertiesView, name: Seq<char>, dir: Seq<char>)
    ensures
        with_prefix(v, name, fresh_props(Some(dir))).prefixes.contains_key(name),
        with_prefix(v, name, fresh_props(Some(dir))).prefixes[name].custom_dir == Some(dir),
{
}

/// Removing the default prefix leaves no default.
pub proof fn law_remove_default_clears_it(v: PropertiesView, name: Seq<char>)
    requires
        v.default_prefix == Some(name),
    ensures
        without_prefix(v, name).default_prefix is None,
        !without_prefix(v, name).prefixes.contains_key(name),
{
}

/// Whatever the edits, a failed registry edit leaves the retina mode as it
/// was before them, and keeps every other edit.
pub proof fn law_failed_retina_edit_rolls_back(p: PrefixPropertiesView, e: Seq<(Seq<char>, Seq<char>)>)
    ensures
        settled(apply_edits(p, e).props, p.retina_mode, false).retina_mode == p.retina_mode,
        settled(apply_edits(p, e).props, p.retina_mode, false) == (PrefixPropertiesView {
            retina_mode: p.retina_mode,
            ..apply_edits(p, e).props
        }),
{
}

} // verus!
