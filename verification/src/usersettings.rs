//! User settings: the chosen appearance and the themes available to it.

use vstd::prelude::*;

use crate::theme::Theme;

verus! {

/// Appearance settings.
pub struct Appearance {
    /// Name (scheme) of the theme to draw with.
    pub theme: String,
}

/// `m` with each `(name, theme)` pair recorded in order, later pairs
/// replacing earlier ones of the same name.
pub open spec fn record_themes(m: Map<Seq<char>, Theme>, pairs: Seq<(String, Theme)>) -> Map<Seq<char>, Theme>
    decreases pairs.len(),
{
    if pairs.len() == 0 {
        m
    } else {
        record_themes(m, pairs.drop_last()).insert(pairs.last().0@, pairs.last().1)
    }
}

/// The themes of the library keyed by their scheme name.
pub open spec fn named_by_scheme(themes: Seq<Theme>) -> Seq<(String, Theme)> {
    themes.map_values(|t: Theme| (t.scheme, t))
}

/// No name occurs twice.
pub open spec fn names_unique(entries: Seq<(String, Theme)>) -> bool {
    forall|i: int, j: int| 0 <= i < entries.len() && 0 <= j < entries.len() && i != j
        ==> #[trigger] entries[i].0@ != #[trigger] entries[j].0@
}

/// The map that a list of named themes with unique names stands for.
pub open spec fn theme_map(entries: Seq<(String, Theme)>) -> Map<Seq<char>, Theme> {
    Map::new(
        |k: Seq<char>| exists|i: int| 0 <= i < entries.len() && entries[i].0@ == k,
        |k: Seq<char>| entries[choose|i: int| 0 <= i < entries.len() && entries[i].0@ == k].1,
    )
}

/// What the settings' contracts speak of.
pub struct UserSettingsView {
    pub appearance: Appearance,
    /// The themes by name.
    pub themes: Map<Seq<char>, Theme>,
    /// The theme drawn with when the appearance names none of the themes:
    /// the first one registered, if any.
    pub fallback: Option<Theme>,
}

/// The theme that the settings draw with: the one the appearance names, else
/// the fallback.
pub open spec fn chosen_theme(v: UserSettingsView) -> Option<Theme> {
    if v.themes.contains_key(v.appearance.theme@) {
        Some(v.themes[v.appearance.theme@])
    } else {
        v.fallback
    }
}

/// Equal settings draw with the same theme: repeated calls of `get_theme`
/// on unchanged settings agree.
pub proof fn chosen_theme_is_determined(a: UserSettingsView, b: UserSettingsView)
    requires
        a == b,
    ensures
        chosen_theme(a) == chosen_theme(b),
{
}

/// The themes by name, each name once. A list rather than a hash map: the
/// names are strings, and what a hash map's insertions and lookups do with
/// string keys is not known to the verifier, while the order it hands its
/// keys out in depends on a hasher seeded afresh in each process.
struct ThemeList {
    entries: Vec<(String, Theme)>,
}

impl ThemeList {
    #[verifier::type_invariant]
    spec fn inv(self) -> bool {
        names_unique(self.entries@)
    }

    fn empty() -> (l: Self)
        ensures
            l.entries@.len() == 0,
    {
        ThemeList { entries: Vec::new() }
    }

    /// Records `theme` under `name`, replacing a theme of the same name.
    fn insert(&mut self, name: String, theme: Theme)
        ensures
            theme_map(final(self).entries@) == theme_map(old(self).entries@).insert(name@, theme),
    {
        proof {
            use_type_invariant(&*self);
        }
        let mut entries: Vec<(String, Theme)> = Vec::new();
        std::mem::swap(&mut entries, &mut self.entries);
        let ghost before = entries@;
        let ghost key = name@;
        let mut i: usize = 0;
        while i < entries.len()
            invariant
                entries@ == before,
                before == old(self).entries@,
                key == name@,
                names_unique(before),
                i <= before.len(),
                forall|k: int| 0 <= k < i ==> before[k].0@ != key,
            decreases before.len() - i,
        {
            if entries[i].0 == name {
                entries.set(i, (name, theme));
                proof {
                    lemma_record_at(before, entries@, i as int, key, theme);
                }
                self.entries = entries;
                return;
            }
            i += 1;
        }
        entries.push((name, theme));
        proof {
            lemma_record_at(before, entries@, before.len() as int, key, theme);
        }
        self.entries = entries;
    }
}

/// Writing a theme under `key` at index `i` of a list with unique names
/// (over the entry already holding `key`, or past the end when none does)
/// keeps the names unique and records the theme under `key`.
proof fn lemma_record_at(before: Seq<(String, Theme)>, after: Seq<(String, Theme)>, i: int, key: Seq<char>, theme: Theme)
    requires
        names_unique(before),
        0 <= i <= before.len(),
        after.len() == (if i < before.len() { before.len() as int } else { before.len() + 1int }),
        after[i].0@ == key,
        after[i].1 == theme,
        forall|j: int| 0 <= j < after.len() && j != i ==> after[j] == before[j],
        i < before.len() ==> before[i].0@ == key,
        i == before.len() ==> forall|j: int| 0 <= j < before.len() ==> before[j].0@ != key,
    ensures
        names_unique(after),
        theme_map(after) == theme_map(before).insert(key, theme),
{
    assert forall|j: int| 0 <= j < before.len() && j != i implies #[trigger] before[j].0@ != key by {
        if i < before.len() {
            assert(before[i].0@ == key);
        }
    }
    assert forall|a: int, b: int| 0 <= a < after.len() && 0 <= b < after.len() && a != b
        implies #[trigger] after[a].0@ != #[trigger] after[b].0@ by {
        if a != i && b != i {
            assert(before[a] == after[a] && before[b] == after[b]);
        } else if a == i {
            assert(after[b] == before[b]);
        } else {
            assert(after[a] == before[a]);
        }
    }
    assert forall|k: Seq<char>| #[trigger] theme_map(after).contains_key(k)
        == theme_map(before).insert(key, theme).contains_key(k) by {
        if k == key {
            assert(after[i].0@ == k);
        } else if theme_map(before).contains_key(k) {
            let w = choose|x: int| 0 <= x < before.len() && before[x].0@ == k;
            assert(after[w].0@ == k);
        } else if theme_map(after).contains_key(k) {
            let w = choose|x: int| 0 <= x < after.len() && after[x].0@ == k;
            assert(before[w].0@ == k);
        }
    }
    assert forall|k: Seq<char>| #[trigger] theme_map(after).contains_key(k)
        implies theme_map(after)[k] == theme_map(before).insert(key, theme)[k] by {
        let w = choose|x: int| 0 <= x < after.len() && after[x].0@ == k;
        if k == key {
            assert(w == i);
        } else {
            let v = choose|x: int| 0 <= x < before.len() && before[x].0@ == k;
            assert(after[v].0@ == k);
            assert(w == v);
        }
    }
    assert(theme_map(after) =~= theme_map(before).insert(key, theme));
}

/// User settings: the appearance and the themes by name.
pub struct UserSettings {
    pub appearance: Appearance,
    themes: ThemeList,
}

impl View for UserSettings {
    type V = UserSettingsView;

    closed spec fn view(&self) -> UserSettingsView {
        UserSettingsView {
            appearance: self.appearance,
            themes: theme_map(self.themes.entries@),
            fallback: if self.themes.entries@.len() > 0 { Some(self.themes.entries@[0].1) } else { None },
        }
    }
}

impl UserSettings {
    /// Settings with `appearance` and the embedded themes, overridden by the
    /// themes found in the library (keyed by their scheme name) where names
    /// coincide; among equal names the later one wins.
    pub fn new(appearance: Appearance, embedded_themes: Vec<(String, Theme)>, library_themes: Vec<Theme>) -> (s: Self)
        ensures
            s@.appearance == appearance,
            s@.themes == record_themes(
                record_themes(Map::empty(), embedded_themes@),
                named_by_scheme(library_themes@),
            ),
    {
        let mut s = UserSettings { appearance, themes: ThemeList::empty() };
        proof {
            assert(theme_map(s.themes.entries@) =~= Map::<Seq<char>, Theme>::empty());
        }
        let ghost embedded = embedded_themes@;
        let mut i: usize = 0;
        while i < embedded_themes.len()
            invariant
                s.appearance == appearance,
                embedded == embedded_themes@,
                i <= embedded.len(),
                s@.themes == record_themes(Map::empty(), embedded.take(i as int)),
            decreases embedded.len() - i,
        {
            let name = embedded_themes[i].0.clone();
            let theme = embedded_themes[i].1.clone();
            proof {
                assert(embedded.take(i + 1).drop_last() =~= embedded.take(i as int));
            }
            s.themes.insert(name, theme);
            i += 1;
        }
        proof {
            assert(embedded.take(embedded.len() as int) =~= embedded);
        }
        let ghost after_embedded = s@.themes;
        let ghost library = library_themes@;
        let mut j: usize = 0;
        while j < library_themes.len()
            invariant
                s.appearance == appearance,
                library == library_themes@,
                j <= library.len(),
                s@.themes == record_themes(after_embedded, named_by_scheme(library).take(j as int)),
            decreases library.len() - j,
        {
            let theme = library_themes[j].clone();
            proof {
                assert(named_by_scheme(library).take(j + 1).drop_last() =~= named_by_scheme(library).take(j as int));
            }
            s.themes.insert(theme.scheme.clone(), theme);
            j += 1;
        }
        proof {
            assert(named_by_scheme(library).take(library.len() as int) =~= named_by_scheme(library));
        }
        s
    }

    /// The theme to draw with: the one the appearance names, else the first
    /// theme registered, else none.
    pub fn get_theme(&self) -> (r: Option<&Theme>)
        ensures
            ({
                let v = self@;
                let key = v.appearance.theme@;
                &&& match r {
                    Some(t) => chosen_theme(v) == Some(*t),
                    None => chosen_theme(v) is None,
                }
                &&& r is Some <==> exists|k: Seq<char>| v.themes.contains_key(k)
                &&& r matches Some(t) ==> exists|k: Seq<char>| v.themes.contains_key(k) && v.themes[k] == *t
            }),
    {
        proof {
            use_type_invariant(&self.themes);
        }
        let ghost entries = self.themes.entries@;
        let ghost key = self.appearance.theme@;
        let mut i: usize = 0;
        while i < self.themes.entries.len()
            invariant
                entries == self.themes.entries@,
                key == self.appearance.theme@,
                names_unique(entries),
                i <= entries.len(),
                forall|k: int| 0 <= k < i ==> entries[k].0@ != key,
            decreases entries.len() - i,
        {
            if self.themes.entries[i].0 == self.appearance.theme {
                proof {
                    assert(theme_map(entries).contains_key(key));
                    let w = choose|x: int| 0 <= x < entries.len() && entries[x].0@ == key;
                    assert(w == i as int);
                    assert(theme_map(entries)[key] == entries[i as int].1);
                }
                return Some(&self.themes.entries[i].1);
            }
            i += 1;
        }
        proof {
            assert(!theme_map(entries).contains_key(key));
        }
        if self.themes.entries.len() > 0 {
            proof {
                let k0 = entries[0].0@;
                assert(theme_map(entries).contains_key(k0));
                let w = choose|x: int| 0 <= x < entries.len() && entries[x].0@ == k0;
                assert(w == 0);
                assert(theme_map(entries).contains_key(k0) && theme_map(entries)[k0] == entries[0].1);
            }
            Some(&self.themes.entries[0].1)
        } else {
            proof {
                assert forall|k: Seq<char>| !theme_map(entries).contains_key(k) by {}
            }
            None
        }
    }

    /// The names of the themes, each once.
    pub fn get_theme_list(&self) -> (r: Vec<String>)
        ensures
            forall|k: Seq<char>| self@.themes.contains_key(k) <==> exists|i: int| 0 <= i < r@.len() && #[trigger] r@[i]@ == k,
            forall|i: int, j: int| 0 <= i < r@.len() && 0 <= j < r@.len() && i != j ==> #[trigger] r@[i]@ != #[trigger] r@[j]@,
            self@.themes.dom().finite(),
            r@.len() == self@.themes.dom().len(),
            r@.len() == 0 <==> chosen_theme(self@) is None,
    {
        proof {
            use_type_invariant(&self.themes);
        }
        let ghost entries = self.themes.entries@;
        let mut names: Vec<String> = Vec::new();
        let mut i: usize = 0;
        while i < self.themes.entries.len()
            invariant
                entries == self.themes.entries@,
                names_unique(entries),
                i <= entries.len(),
                names@.len() == i,
                forall|k: int| 0 <= k < i ==> #[trigger] names@[k]@ == entries[k].0@,
            decreases entries.len() - i,
        {
            names.push(self.themes.entries[i].0.clone());
            i += 1;
        }
        proof {
            assert forall|k: Seq<char>| theme_map(entries).contains_key(k) <==> exists|i: int| 0 <= i < names@.len() && #[trigger] names@[i]@ == k by {
                if theme_map(entries).contains_key(k) {
                    let w = choose|x: int| 0 <= x < entries.len() && entries[x].0@ == k;
                    assert(names@[w]@ == k);
                }
                if exists|i: int| 0 <= i < names@.len() && #[trigger] names@[i]@ == k {
                    let w = choose|i: int| 0 <= i < names@.len() && #[trigger] names@[i]@ == k;
                    assert(entries[w].0@ == k);
                }
            }
            lemma_theme_map_size(entries);
            if entries.len() > 0 {
                assert(theme_map(entries).contains_key(entries[0].0@));
            }
        }
        names
    }
}

/// Recording named themes in order leaves each name with the theme of its
/// last occurrence.
pub proof fn last_recorded_theme_wins(m: Map<Seq<char>, Theme>, pairs: Seq<(String, Theme)>, i: int)
    requires
        0 <= i < pairs.len(),
        forall|j: int| i < j < pairs.len() ==> #[trigger] pairs[j].0@ != pairs[i].0@,
    ensures
        record_themes(m, pairs).contains_key(pairs[i].0@),
        record_themes(m, pairs)[pairs[i].0@] == pairs[i].1,
    decreases pairs.len(),
{
    if i < pairs.len() - 1 {
        let rest = pairs.drop_last();
        assert forall|j: int| i < j < rest.len() implies #[trigger] rest[j].0@ != rest[i].0@ by {
            assert(rest[j] == pairs[j]);
        }
        last_recorded_theme_wins(m, rest, i);
        assert(pairs.last().0@ != pairs[i].0@) by {
            assert(pairs[pairs.len() - 1].0@ != pairs[i].0@);
        }
    }
}

/// A theme found in the library replaces the embedded theme of the same
/// scheme name (the last one found, where several share it).
pub proof fn library_theme_wins(embedded: Seq<(String, Theme)>, library: Seq<Theme>, i: int)
    requires
        0 <= i < library.len(),
        forall|j: int| i < j < library.len() ==> #[trigger] library[j].scheme@ != library[i].scheme@,
    ensures
        ({
            let themes = record_themes(record_themes(Map::empty(), embedded), named_by_scheme(library));
            themes.contains_key(library[i].scheme@) && themes[library[i].scheme@] == library[i]
        }),
{
    let pairs = named_by_scheme(library);
    assert forall|j: int| i < j < pairs.len() implies #[trigger] pairs[j].0@ != pairs[i].0@ by {
        assert(pairs[j].0 == library[j].scheme);
    }
    last_recorded_theme_wins(record_themes(Map::empty(), embedded), pairs, i);
}

/// A list of named themes with unique names stands for a finite map with as
/// many names as the list has entries.
proof fn lemma_theme_map_size(entries: Seq<(String, Theme)>)
    requires
        names_unique(entries),
    ensures
        theme_map(entries).dom().finite(),
        theme_map(entries).dom().len() == entries.len(),
{
    broadcast use vstd::seq_lib::seq_to_set_is_finite;
    let keys = entries.map_values(|e: (String, Theme)| e.0@);
    assert(theme_map(entries).dom() =~= keys.to_set()) by {
        assert forall|k: Seq<char>| theme_map(entries).dom().contains(k) implies keys.to_set().contains(k) by {
            let w = choose|x: int| 0 <= x < entries.len() && entries[x].0@ == k;
            assert(keys[w] == k);
        }
        assert forall|k: Seq<char>| keys.to_set().contains(k) implies theme_map(entries).dom().contains(k) by {
            let w = choose|x: int| 0 <= x < keys.len() && keys[x] == k;
            assert(entries[w].0@ == k);
        }
    }
    assert(keys.no_duplicates()) by {
        assert forall|i: int, j: int| 0 <= i < keys.len() && 0 <= j < keys.len() && i != j implies keys[i] != keys[j] by {
            assert(entries[i].0@ != entries[j].0@);
        }
    }
    keys.unique_seq_to_set();
}

} // verus!
