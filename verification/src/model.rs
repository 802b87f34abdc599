//! Data model: fonts, the font registry, script tags, and the platform's
//! static fallback tables, together with their mathematical views.

use vstd::prelude::*;

verus! {

/// Opaque handle identifying one registered font: a position in the
/// registry's record list. Stable for the lifetime of a search.
#[derive(Clone, Copy, PartialEq, Eq, Structural, Debug)]
pub struct FontKey {
    pub idx: usize,
}

/// The metadata the search reads about one registered font: its family name.
/// Matching is exact, case-sensitive equality on this string.
pub struct FontRecord {
    pub family: String,
}

/// A pre-populated, read-only table of font records; a `FontKey` names a
/// position in it. The search only ever reads it.
pub struct FontRegistry {
    pub fonts: Vec<FontRecord>,
}

/// One Unicode script, as an opaque numeric tag. The search uses it only as
/// a lookup key into the platform's script table.
#[derive(Clone, Copy, PartialEq, Eq, Structural, Debug)]
pub struct ScriptTag {
    pub code: u32,
}

/// The fallback families a script's table entry prescribes for one specific
/// locale, overriding the entry's locale-independent list.
pub struct LocaleFamilies {
    pub locale: String,
    pub families: Vec<String>,
}

/// The platform's fallback families for one script: an ordered list of
/// locale-specific overrides, and the list used when no override's locale
/// matches the active one exactly.
pub struct ScriptFamilies {
    pub script: ScriptTag,
    pub overrides: Vec<LocaleFamilies>,
    pub families: Vec<String>,
}

/// The platform's static fallback configuration: the per-script family
/// table, the universal common-family list, and the family names the
/// catch-all tier must never return.
pub struct FallbackTables {
    pub script_table: Vec<ScriptFamilies>,
    pub common: Vec<String>,
    pub forbidden: Vec<String>,
}

/// The character sequences of a list of family names.
pub open spec fn names_view(names: Seq<String>) -> Seq<Seq<char>> {
    names.map(|i: int, s: String| s@)
}

/// A registry as the sequence of its fonts' family names.
pub open spec fn registry_view(reg: FontRegistry) -> Seq<Seq<char>> {
    reg.fonts@.map(|i: int, r: FontRecord| r.family@)
}

/// A key resolves in the registry.
pub open spec fn key_ok(reg: Seq<Seq<char>>, key: FontKey) -> bool {
    key.idx < reg.len()
}

/// Every key of the eligible list resolves in the registry.
pub open spec fn keys_ok(reg: Seq<Seq<char>>, keys: Seq<FontKey>) -> bool {
    forall|i: int| 0 <= i < keys.len() ==> key_ok(reg, #[trigger] keys[i])
}

/// The family name of the font a key resolves to.
pub open spec fn fam_of(reg: Seq<Seq<char>>, key: FontKey) -> Seq<char> {
    reg[key.idx as int]
}

/// The families of the first override whose locale equals the active one,
/// if any override matches.
pub open spec fn override_families(ovs: Seq<LocaleFamilies>, locale: Seq<char>) -> Option<
    Seq<Seq<char>>,
>
    decreases ovs.len(),
{
    if ovs.len() == 0 {
        None
    } else if ovs[0].locale@ == locale {
        Some(names_view(ovs[0].families@))
    } else {
        override_families(ovs.drop_first(), locale)
    }
}

/// The family list one script-table entry yields under the active locale.
pub open spec fn entry_families(entry: ScriptFamilies, locale: Seq<char>) -> Seq<Seq<char>> {
    match override_families(entry.overrides@, locale) {
        Some(fams) => fams,
        None => names_view(entry.families@),
    }
}

/// The platform's ordered fallback-family list for a script under a locale:
/// the first table entry for that script decides; a script without an entry
/// has no fallback families.
pub open spec fn script_families(
    table: Seq<ScriptFamilies>,
    script: ScriptTag,
    locale: Seq<char>,
) -> Seq<Seq<char>>
    decreases table.len(),
{
    if table.len() == 0 {
        Seq::empty()
    } else if table[0].script == script {
        entry_families(table[0], locale)
    } else {
        script_families(table.drop_first(), script, locale)
    }
}

impl FontRegistry {
    /// Resolve a key to its font record. `None` means the key does not name
    /// a registered font: supplying such a key to a search is caller misuse.
    pub fn record(&self, key: FontKey) -> (r: Option<&FontRecord>)
        ensures
            match r {
                Some(rec) => key_ok(registry_view(*self), key) && rec.family@ == fam_of(
                    registry_view(*self),
                    key,
                ),
                None => !key_ok(registry_view(*self), key),
            },
    {
        if key.idx < self.fonts.len() {
            Some(&self.fonts[key.idx])
        } else {
            None
        }
    }
}

} // verus!
