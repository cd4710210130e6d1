use vstd::prelude::*;

use crate::settings::{PrefixProperties, PrefixPropertiesView, PREFIXES_DIR_NAME};

verus! {

/// The configuration keys that a prefix recognises.
#[derive(Clone, Copy, Debug, PartialEq, Eq, Structural)]
pub enum PropertyKey {
    Dir,
    Hud,
    Esync,
    RetinaMode,
    Avx,
    Dxr,
    Metalfx,
}

/// The key that a piece of text names, if any.
pub open spec fn key_of(k: Seq<char>) -> Option<PropertyKey> {
    if k == "dir"@ {
        Some(PropertyKey::Dir)
    } else if k == "hud"@ {
        Some(PropertyKey::Hud)
    } else if k == "esync"@ {
        Some(PropertyKey::Esync)
    } else if k == "retina_mode"@ {
        Some(PropertyKey::RetinaMode)
    } else if k == "avx"@ {
        Some(PropertyKey::Avx)
    } else if k == "dxr"@ {
        Some(PropertyKey::Dxr)
    } else if k == "metalfx"@ {
        Some(PropertyKey::Metalfx)
    } else {
        None
    }
}

/// Code point of `c` with ASCII upper case letters taken to lower case.
pub open spec fn lower_code(c: char) -> u32 {
    if 'A' <= c && c <= 'Z' {
        (c as u32 + 32) as u32
    } else {
        c as u32
    }
}

/// `s` is `t` but for the case of ASCII letters, `t` being in lower case.
pub open spec fn folds_to(s: Seq<char>, t: Seq<char>) -> bool {
    s.len() == t.len() && forall|i: int| 0 <= i < s.len() ==> lower_code(#[trigger] s[i]) == t[i] as u32
}

/// The text that reads as true: `true`, `yes`, `y` or `1` in any case.
pub open spec fn truthy(s: Seq<char>) -> bool {
    folds_to(s, "true"@) || folds_to(s, "yes"@) || folds_to(s, "y"@) || folds_to(s, "1"@)
}

/// How a boolean is shown in a report line.
pub open spec fn bool_text(b: bool) -> Seq<char> {
    if b {
        "true"@
    } else {
        "false"@
    }
}

/// How a boolean is handed to the compatibility layer.
pub open spec fn flag_text(b: bool) -> Seq<char> {
    if b {
        "1"@
    } else {
        "0"@
    }
}

/// Joining a relative or absolute part onto a path: an absolute part replaces
/// the path, else a separator is put between them unless the path is empty
/// or already ends in one.
pub open spec fn join_path(base: Seq<char>, part: Seq<char>) -> Seq<char> {
    if part.len() > 0 && part[0] == '/' {
        part
    } else if base.len() == 0 || base.last() == '/' {
        base + part
    } else {
        base + seq!['/'] + part
    }
}

/// Where a prefix without a custom directory is stored.
pub open spec fn derived_path(app_dir: Seq<char>, name: Seq<char>) -> Seq<char> {
    join_path(join_path(app_dir, PREFIXES_DIR_NAME@), name)
}

/// Where a prefix is stored: its custom directory, else the derived path.
pub open spec fn effective_path(p: PrefixPropertiesView, name: Seq<char>, app_dir: Seq<char>) -> Seq<
    char,
> {
    match p.custom_dir {
        Some(d) => d,
        None => derived_path(app_dir, name),
    }
}

/// A report line `key=value`.
pub open spec fn line(key: Seq<char>, value: Seq<char>) -> Seq<char> {
    key + "="@ + value
}

/// The variables handed to the compatibility layer, in order; the retina
/// mode is not among them.
pub open spec fn environment_of(p: PrefixPropertiesView) -> Seq<(Seq<char>, Seq<char>)> {
    seq![
        ("MTL_HUD_ENABLED"@, flag_text(p.hud)),
        ("WINEESYNC"@, flag_text(p.esync)),
        ("ROSETTA_ADVERTISE_AVX"@, flag_text(p.avx)),
        ("D3DM_SUPPORT_DXR"@, flag_text(p.dxr)),
        ("D3DM_ENABLE_METALFX"@, flag_text(p.metalfx)),
    ]
}

/// The arguments of the registry edit that switches the retina mode.
pub open spec fn retina_args_of(on: bool) -> Seq<Seq<char>> {
    seq![
        "reg"@,
        "add"@,
        "HKCU\\Software\\Wine\\Mac Driver"@,
        "/v"@,
        "RetinaMode"@,
        "/t"@,
        "REG_SZ"@,
        "/d"@,
        if on {
            "Y"@
        } else {
            "N"@
        },
        "/f"@,
    ]
}

/// The shown value of the directory of a prefix.
pub open spec fn dir_text(p: PrefixPropertiesView, name: Seq<char>, app_dir: Seq<char>) -> Seq<
    char,
> {
    match p.custom_dir {
        Some(d) => d,
        None => " # "@ + derived_path(app_dir, name) + " (default)"@,
    }
}

/// The report of every property of a prefix, one line per key.
pub open spec fn report_of(p: PrefixPropertiesView, name: Seq<char>, app_dir: Seq<char>) -> Seq<
    Seq<char>,
> {
    seq![
        line("dir"@, dir_text(p, name, app_dir)),
        line("hud"@, bool_text(p.hud)),
        line("esync"@, bool_text(p.esync)),
        line("retina_mode"@, bool_text(p.retina_mode)),
        line("avx"@, bool_text(p.avx)),
        line("dxr"@, bool_text(p.dxr)),
        line("metalfx"@, bool_text(p.metalfx)),
    ]
}

/// A string holding the characters of `s`.
pub fn text(s: &str) -> (r: String)
    ensures
        r@ == s@,
{
    String::from_str(s)
}

/// Whether two strings hold the same characters.
pub fn str_eq(a: &str, b: &str) -> (r: bool)
    ensures
        r == (a@ == b@),
{
    let n = a.unicode_len();
    if n != b.unicode_len() {
        return false;
    }
    let mut i: usize = 0;
    while i < n
        invariant
            n == a@.len() == b@.len(),
            i <= n,
            forall|j: int| 0 <= j < i ==> a@[j] == b@[j],
        decreases n - i,
    {
        if a.get_char(i) != b.get_char(i) {
            return false;
        }
        i += 1;
    }
    assert(a@ =~= b@);
    true
}

/// Whether `s` is `t` but for the case of ASCII letters.
pub fn eq_folded(s: &str, t: &str) -> (r: bool)
    ensures
        r == folds_to(s@, t@),
{
    let n = s.unicode_len();
    if n != t.unicode_len() {
        return false;
    }
    let mut i: usize = 0;
    while i < n
        invariant
            n == s@.len() == t@.len(),
            i <= n,
            forall|j: int| 0 <= j < i ==> lower_code(#[trigger] s@[j]) == t@[j] as u32,
        decreases n - i,
    {
        let c = s.get_char(i);
        let code: u32 = if 'A' <= c && c <= 'Z' {
            c as u32 + 32
        } else {
            c as u32
        };
        if code != t.get_char(i) as u32 {
            return false;
        }
        i += 1;
    }
    true
}

/// Reads a boolean leniently: `true`, `yes`, `y` and `1`, in any case, are
/// true; everything else is false.
pub fn parse_bool(value: &str) -> (r: bool)
    ensures
        r == truthy(value@),
{
    eq_folded(value, "true") || eq_folded(value, "yes") || eq_folded(value, "y") || eq_folded(
        value,
        "1",
    )
}

/// The key that `key` names, if it is one of the seven recognised ones.
pub fn parse_property_key(key: &str) -> (r: Option<PropertyKey>)
    ensures
        r == key_of(key@),
{
    if str_eq(key, "dir") {
        Some(PropertyKey::Dir)
    } else if str_eq(key, "hud") {
        Some(PropertyKey::Hud)
    } else if str_eq(key, "esync") {
        Some(PropertyKey::Esync)
    } else if str_eq(key, "retina_mode") {
        Some(PropertyKey::RetinaMode)
    } else if str_eq(key, "avx") {
        Some(PropertyKey::Avx)
    } else if str_eq(key, "dxr") {
        Some(PropertyKey::Dxr)
    } else if str_eq(key, "metalfx") {
        Some(PropertyKey::Metalfx)
    } else {
        None
    }
}

/// `true` or `false`.
pub fn show_bool(b: bool) -> (r: String)
    ensures
        r@ == bool_text(b),
{
    if b {
        text("true")
    } else {
        text("false")
    }
}

/// `1` or `0`.
pub fn show_flag(b: bool) -> (r: String)
    ensures
        r@ == flag_text(b),
{
    if b {
        text("1")
    } else {
        text("0")
    }
}

/// The line `key=value`.
pub fn make_line(key: &str, value: &str) -> (r: String)
    ensures
        r@ == line(key@, value@),
{
    text(key).concat("=").concat(value)
}

/// Joins `part` onto the path `base`.
pub fn join(base: &str, part: &str) -> (r: String)
    ensures
        r@ == join_path(base@, part@),
{
    proof {
        reveal_strlit("/");
    }
    let n = base.unicode_len();
    if part.unicode_len() > 0 && part.get_char(0) == '/' {
        text(part)
    } else if n == 0 || base.get_char(n - 1) == '/' {
        text(base).concat(part)
    } else {
        let r = text(base).concat("/").concat(part);
        assert(r@ =~= base@ + seq!['/'] + part@);
        r
    }
}

/// Where a prefix named `name` without a custom directory is stored.
pub fn derived_prefix_path(app_dir: &str, name: &str) -> (r: String)
    ensures
        r@ == derived_path(app_dir@, name@),
{
    let prefixes = join(app_dir, PREFIXES_DIR_NAME);
    join(prefixes.as_str(), name)
}

/// Where the prefix `name` with settings `props` is stored.
pub fn prefix_path(props: &PrefixProperties, name: &str, app_dir: &str) -> (r: String)
    ensures
        r@ == effective_path(props@, name@, app_dir@),
{
    match &props.custom_dir {
        Some(d) => d.clone(),
        None => derived_prefix_path(app_dir, name),
    }
}

/// The environment variables that carry the settings of a prefix, each `1`
/// or `0`.
pub fn to_environment(props: &PrefixProperties) -> (r: Vec<(String, String)>)
    ensures
        r@.len() == 5,
        forall|i: int| 0 <= i < 5 ==> (#[trigger] r@[i].0@, r@[i].1@) == environment_of(props@)[i],
{
    let mut r: Vec<(String, String)> = Vec::new();
    r.push((text("MTL_HUD_ENABLED"), show_flag(props.hud)));
    r.push((text("WINEESYNC"), show_flag(props.esync)));
    r.push((text("ROSETTA_ADVERTISE_AVX"), show_flag(props.avx)));
    r.push((text("D3DM_SUPPORT_DXR"), show_flag(props.dxr)));
    r.push((text("D3DM_ENABLE_METALFX"), show_flag(props.metalfx)));
    r
}

/// The arguments of the registry edit that sets the retina mode to `on`.
pub fn retina_mode_args(on: bool) -> (r: Vec<String>)
    ensures
        r@.len() == 10,
        forall|i: int| 0 <= i < 10 ==> (#[trigger] r@[i])@ == retina_args_of(on)[i],
{
    let mut r: Vec<String> = Vec::new();
    r.push(text("reg"));
    r.push(text("add"));
    r.push(text("HKCU\\Software\\Wine\\Mac Driver"));
    r.push(text("/v"));
    r.push(text("RetinaMode"));
    r.push(text("/t"));
    r.push(text("REG_SZ"));
    r.push(text("/d"));
    r.push(
        if on {
            text("Y")
        } else {
            text("N")
        },
    );
    r.push(text("/f"));
    r
}

/// The report of every property of the prefix `name`, one `key=value` line
/// per key, the directory first.
pub fn render_report(props: &PrefixProperties, name: &str, app_dir: &str) -> (r: Vec<String>)
    ensures
        r@.len() == 7,
        forall|i: int| 0 <= i < 7 ==> (#[trigger] r@[i])@ == report_of(props@, name@, app_dir@)[i],
{
    let dir = match &props.custom_dir {
        Some(d) => d.clone(),
        None => {
            let p = derived_prefix_path(app_dir, name);
            text(" # ").concat(p.as_str()).concat(" (default)")
        },
    };
    let hud = show_bool(props.hud);
    let esync = show_bool(props.esync);
    let retina = show_bool(props.retina_mode);
    let avx = show_bool(props.avx);
    let dxr = show_bool(props.dxr);
    let metalfx = show_bool(props.metalfx);
    let mut r: Vec<String> = Vec::new();
    r.push(make_line("dir", dir.as_str()));
    r.push(make_line("hud", hud.as_str()));
    r.push(make_line("esync", esync.as_str()));
    r.push(make_line("retina_mode", retina.as_str()));
    r.push(make_line("avx", avx.as_str()));
    r.push(make_line("dxr", dxr.as_str()));
    r.push(make_line("metalfx", metalfx.as_str()));
    r
}

/// Reading a boolean looks only at the text with its ASCII letters in lower
/// case: two texts with the same lower case form read the same.
pub proof fn law_parse_bool_ignores_case(s1: Seq<char>, s2: Seq<char>)
    requires
        s1.len() == s2.len(),
        forall|i: int| 0 <= i < s1.len() ==> lower_code(#[trigger] s1[i]) == lower_code(s2[i]),
    ensures
        truthy(s1) == truthy(s2),
{
    assert forall|t: Seq<char>| folds_to(s1, t) <==> folds_to(s2, t) by {
        if folds_to(s1, t) {
            assert forall|i: int| 0 <= i < s2.len() implies lower_code(#[trigger] s2[i]) == t[i] as u32 by {
                assert(lower_code(s1[i]) == t[i] as u32);
            }
        }
        if folds_to(s2, t) {
            assert forall|i: int| 0 <= i < s1.len() implies lower_code(#[trigger] s1[i]) == t[i] as u32 by {
                assert(lower_code(s2[i]) == t[i] as u32);
            }
        }
    }
}

} // verus!
