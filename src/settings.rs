use vstd::prelude::*;

verus! {

/// Name of the directory, under the application data directory, that holds
/// the prefixes without a custom directory.
pub const PREFIXES_DIR_NAME: &'static str = "Prefixes";

/// The settings of one prefix.
#[derive(Debug)]
pub struct PrefixProperties {
    pub custom_dir: Option<String>,
    pub hud: bool,
    pub esync: bool,
    pub retina_mode: bool,
    pub avx: bool,
    pub dxr: bool,
    pub metalfx: bool,
}

/// The settings of one prefix, with text as sequences of characters.
pub ghost struct PrefixPropertiesView {
    pub custom_dir: Option<Seq<char>>,
    pub hud: bool,
    pub esync: bool,
    pub retina_mode: bool,
    pub avx: bool,
    pub dxr: bool,
    pub metalfx: bool,
}

/// The persisted registry: the default prefix and every registered prefix,
/// each name at most once.
#[derive(Debug)]
pub struct Properties {
    pub default_prefix: Option<String>,
    pub prefixes: Vec<(String, PrefixProperties)>,
}

/// The registry as a mathematical value: the default name and a map from
/// each registered name to its settings.
pub ghost struct PropertiesView {
    pub default_prefix: Option<Seq<char>>,
    pub prefixes: Map<Seq<char>, PrefixPropertiesView>,
}

pub open spec fn opt_view(o: Option<String>) -> Option<Seq<char>> {
    match o {
        Some(s) => Some(s@),
        None => None,
    }
}

impl View for PrefixProperties {
    type V = PrefixPropertiesView;

    open spec fn view(&self) -> PrefixPropertiesView {
        PrefixPropertiesView {
            custom_dir: opt_view(self.custom_dir),
            hud: self.hud,
            esync: self.esync,
            retina_mode: self.retina_mode,
            avx: self.avx,
            dxr: self.dxr,
            metalfx: self.metalfx,
        }
    }
}

/// Every boolean off, no custom directory.
pub open spec fn default_props() -> PrefixPropertiesView {
    PrefixPropertiesView {
        custom_dir: None,
        hud: false,
        esync: false,
        retina_mode: false,
        avx: false,
        dxr: false,
        metalfx: false,
    }
}

/// No two entries share a name.
pub open spec fn names_unique(s: Seq<(String, PrefixProperties)>) -> bool {
    forall|i: int, j: int|
        0 <= i < s.len() && 0 <= j < s.len() && i != j ==> #[trigger] s[i].0@ != #[trigger] s[j].0@
}

/// Whether some entry carries the name `k`.
pub open spec fn has_name(s: Seq<(String, PrefixProperties)>, k: Seq<char>) -> bool {
    exists|i: int| 0 <= i < s.len() && #[trigger] s[i].0@ == k
}

/// The map from names to settings that a list of entries stands for.
pub open spec fn entries_map(s: Seq<(String, PrefixProperties)>) -> Map<
    Seq<char>,
    PrefixPropertiesView,
> {
    Map::new(
        |k: Seq<char>| has_name(s, k),
        |k: Seq<char>| s[choose|i: int| 0 <= i < s.len() && #[trigger] s[i].0@ == k].1@,
    )
}

impl View for Properties {
    type V = PropertiesView;

    open spec fn view(&self) -> PropertiesView {
        PropertiesView {
            default_prefix: opt_view(self.default_prefix),
            prefixes: entries_map(self.prefixes@),
        }
    }
}

impl Properties {
    /// Well-formed: each name is registered at most once.
    pub open spec fn wf(&self) -> bool {
        names_unique(self.prefixes@)
    }

    /// An empty registry: no prefixes, no default.
    pub fn new() -> (r: Properties)
        ensures
            r.wf(),
            r@.default_prefix is None,
            r@.prefixes == Map::<Seq<char>, PrefixPropertiesView>::empty(),
    {
        let r = Properties { default_prefix: None, prefixes: Vec::new() };
        assert(r@.prefixes =~= Map::<Seq<char>, PrefixPropertiesView>::empty());
        r
    }
}

impl PrefixProperties {
    /// Settings with every boolean off and no custom directory.
    pub fn new() -> (r: PrefixProperties)
        ensures
            r@ == default_props(),
    {
        PrefixProperties {
            custom_dir: None,
            hud: false,
            esync: false,
            retina_mode: false,
            avx: false,
            dxr: false,
            metalfx: false,
        }
    }

    /// A field-for-field copy.
    pub fn duplicate(&self) -> (r: PrefixProperties)
        ensures
            r@ == self@,
    {
        PrefixProperties {
            custom_dir: copy_opt_string(&self.custom_dir),
            hud: self.hud,
            esync: self.esync,
            retina_mode: self.retina_mode,
            avx: self.avx,
            dxr: self.dxr,
            metalfx: self.metalfx,
        }
    }
}

pub fn copy_opt_string(o: &Option<String>) -> (r: Option<String>)
    ensures
        opt_view(r) == opt_view(*o),
{
    match o {
        Some(s) => Some(s.clone()),
        None => None,
    }
}

/// The entry at index `i` is what the map gives for its name.
pub proof fn lemma_entry_in_map(s: Seq<(String, PrefixProperties)>, i: int)
    requires
        names_unique(s),
        0 <= i < s.len(),
    ensures
        entries_map(s).contains_key(s[i].0@),
        entries_map(s)[s[i].0@] == s[i].1@,
{
    let k = s[i].0@;
    assert(has_name(s, k));
    let j = choose|j: int| 0 <= j < s.len() && #[trigger] s[j].0@ == k;
    assert(j == i);
}

/// Appending an entry with a new name adds it to the map.
pub proof fn lemma_push_entry(s: Seq<(String, PrefixProperties)>, e: (String, PrefixProperties))
    requires
        names_unique(s),
        !has_name(s, e.0@),
    ensures
        names_unique(s.push(e)),
        entries_map(s.push(e)) == entries_map(s).insert(e.0@, e.1@),
{
    let t = s.push(e);
    assert forall|i: int, j: int|
        0 <= i < t.len() && 0 <= j < t.len() && i != j implies #[trigger] t[i].0@
        != #[trigger] t[j].0@ by {
        if i == s.len() {
            assert(s[j].0@ == t[j].0@);
        } else if j == s.len() {
            assert(s[i].0@ == t[i].0@);
        } else {
            assert(s[i] == t[i] && s[j] == t[j]);
        }
    }
    let m = entries_map(s).insert(e.0@, e.1@);
    assert forall|k: Seq<char>| #[trigger] has_name(t, k) == m.contains_key(k) by {
        if has_name(t, k) {
            let i = choose|i: int| 0 <= i < t.len() && #[trigger] t[i].0@ == k;
            if i < s.len() {
                assert(s[i] == t[i]);
            }
        }
        if has_name(s, k) {
            let i = choose|i: int| 0 <= i < s.len() && #[trigger] s[i].0@ == k;
            assert(s[i] == t[i]);
        }
        if k == e.0@ {
            assert(t[s.len() as int] == e);
        }
    }
    assert forall|k: Seq<char>| #[trigger] m.contains_key(k) implies entries_map(t)[k] == m[k] by {
        assert(has_name(t, k));
        let i = choose|i: int| 0 <= i < t.len() && #[trigger] t[i].0@ == k;
        lemma_entry_in_map(t, i);
        if i < s.len() {
            assert(s[i] == t[i]);
            lemma_entry_in_map(s, i);
        }
    }
    assert(entries_map(t) =~= m);
}

/// Replacing the settings at index `i`, name kept, updates the map there.
pub proof fn lemma_update_entry(
    s: Seq<(String, PrefixProperties)>,
    i: int,
    e: (String, PrefixProperties),
)
    requires
        names_unique(s),
        0 <= i < s.len(),
        e.0@ == s[i].0@,
    ensures
        names_unique(s.update(i, e)),
        entries_map(s.update(i, e)) == entries_map(s).insert(e.0@, e.1@),
{
    let t = s.update(i, e);
    assert forall|a: int, b: int|
        0 <= a < t.len() && 0 <= b < t.len() && a != b implies #[trigger] t[a].0@
        != #[trigger] t[b].0@ by {
        assert(t[a].0@ == s[a].0@ && t[b].0@ == s[b].0@);
    }
    let m = entries_map(s).insert(e.0@, e.1@);
    assert forall|k: Seq<char>| #[trigger] has_name(t, k) == m.contains_key(k) by {
        if has_name(t, k) {
            let a = choose|a: int| 0 <= a < t.len() && #[trigger] t[a].0@ == k;
            assert(s[a].0@ == k);
        }
        if has_name(s, k) {
            let a = choose|a: int| 0 <= a < s.len() && #[trigger] s[a].0@ == k;
            assert(t[a].0@ == k);
        }
        if k == e.0@ {
            assert(t[i].0@ == k);
        }
    }
    assert forall|k: Seq<char>| #[trigger] m.contains_key(k) implies entries_map(t)[k] == m[k] by {
        assert(has_name(t, k));
        let a = choose|a: int| 0 <= a < t.len() && #[trigger] t[a].0@ == k;
        lemma_entry_in_map(t, a);
        if a != i {
            lemma_entry_in_map(s, a);
        }
    }
    assert(entries_map(t) =~= m);
}

/// Removing the entry at index `i` removes its name from the map.
pub proof fn lemma_remove_entry(s: Seq<(String, PrefixProperties)>, i: int)
    requires
        names_unique(s),
        0 <= i < s.len(),
    ensures
        names_unique(s.remove(i)),
        entries_map(s.remove(i)) == entries_map(s).remove(s[i].0@),
{
    let t = s.remove(i);
    let k0 = s[i].0@;
    assert forall|a: int, b: int|
        0 <= a < t.len() && 0 <= b < t.len() && a != b implies #[trigger] t[a].0@
        != #[trigger] t[b].0@ by {
        let sa = if a < i { a } else { a + 1 };
        let sb = if b < i { b } else { b + 1 };
        assert(t[a] == s[sa] && t[b] == s[sb]);
    }
    let m = entries_map(s).remove(k0);
    assert forall|k: Seq<char>| #[trigger] has_name(t, k) == m.contains_key(k) by {
        if has_name(t, k) {
            let a = choose|a: int| 0 <= a < t.len() && #[trigger] t[a].0@ == k;
            let sa = if a < i { a } else { a + 1 };
            assert(t[a] == s[sa]);
            assert(s[sa].0@ == k);
        }
        if has_name(s, k) && k != k0 {
            let a = choose|a: int| 0 <= a < s.len() && #[trigger] s[a].0@ == k;
            let ta = if a < i { a } else { a - 1 };
            assert(t[ta] == s[a]);
        }
    }
    assert forall|k: Seq<char>| #[trigger] m.contains_key(k) implies entries_map(t)[k] == m[k] by {
        assert(has_name(t, k));
        let a = choose|a: int| 0 <= a < t.len() && #[trigger] t[a].0@ == k;
        let sa = if a < i { a } else { a + 1 };
        assert(t[a] == s[sa]);
        lemma_entry_in_map(t, a);
        lemma_entry_in_map(s, sa);
    }
    assert(entries_map(t) =~= m);
}

/// The index of the entry named `name`, if it is registered.
pub fn find_prefix(properties: &Properties, name: &String) -> (r: Option<usize>)
    requires
        properties.wf(),
    ensures
        r is Some <==> properties@.prefixes.contains_key(name@),
        r matches Some(i) ==> i < properties.prefixes@.len() && properties.prefixes@[i as int].0@
            == name@ && properties@.prefixes[name@] == properties.prefixes@[i as int].1@,
{
    let n = properties.prefixes.len();
    let mut i: usize = 0;
    while i < n
        invariant
            properties.wf(),
            n == properties.prefixes@.len(),
            i <= n,
            forall|j: int| 0 <= j < i ==> #[trigger] properties.prefixes@[j].0@ != name@,
        decreases n - i,
    {
        if properties.prefixes[i].0 == *name {
            proof {
                lemma_entry_in_map(properties.prefixes@, i as int);
            }
            return Some(i);
        }
        i += 1;
    }
    None
}

} // verus!
