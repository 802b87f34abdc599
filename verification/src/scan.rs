//! Executable scans over the eligible font list and the platform tables,
//! each proved against its mathematical counterpart.

use vstd::prelude::*;

use crate::candidates::first_match;
use crate::candidates::lemma_first_match_skip;
use crate::model::FontKey;
use crate::model::FontRegistry;
use crate::model::LocaleFamilies;
use crate::model::ScriptFamilies;
use crate::model::ScriptTag;
use crate::model::entry_families;
use crate::model::keys_ok;
use crate::model::names_view;
use crate::model::override_families;
use crate::model::registry_view;
use crate::model::script_families;

verus! {

/// Unrolls `override_families` at position `i` of the override list.
pub proof fn lemma_override_families_skip(ovs: Seq<LocaleFamilies>, locale: Seq<char>, i: int)
    requires
        0 <= i < ovs.len(),
    ensures
        override_families(ovs.skip(i), locale) == if ovs[i].locale@ == locale {
            Some(names_view(ovs[i].families@))
        } else {
            override_families(ovs.skip(i + 1), locale)
        },
{
    assert(ovs.skip(i)[0] == ovs[i]);
    assert(ovs.skip(i).drop_first() =~= ovs.skip(i + 1));
}

/// Unrolls `script_families` at position `i` of the script table.
pub proof fn lemma_script_families_skip(
    table: Seq<ScriptFamilies>,
    script: ScriptTag,
    locale: Seq<char>,
    i: int,
)
    requires
        0 <= i < table.len(),
    ensures
        script_families(table.skip(i), script, locale) == if table[i].script == script {
            entry_families(table[i], locale)
        } else {
            script_families(table.skip(i + 1), script, locale)
        },
{
    assert(table.skip(i)[0] == table[i]);
    assert(table.skip(i).drop_first() =~= table.skip(i + 1));
}

/// Scan the eligible list in order for the first font whose family name
/// equals `family` exactly.
pub fn find_family(reg: &FontRegistry, keys: &Vec<FontKey>, family: &String) -> (r: Option<
    FontKey,
>)
    requires
        keys_ok(registry_view(*reg), keys@),
    ensures
        r == first_match(registry_view(*reg), keys@, family@),
{
    let ghost regv = registry_view(*reg);
    proof {
        assert(keys@.skip(0) =~= keys@);
    }
    let mut i: usize = 0;
    while i < keys.len()
        invariant
            i <= keys.len(),
            keys_ok(regv, keys@),
            regv == registry_view(*reg),
            first_match(regv, keys@, family@) == first_match(regv, keys@.skip(i as int), family@),
        decreases keys.len() - i,
    {
        let key = keys[i];
        proof {
            assert(regv[key.idx as int] == reg.fonts@[key.idx as int].family@);
            lemma_first_match_skip(regv, keys@, family@, i as int);
        }
        if reg.fonts[key.idx].family == *family {
            return Some(key);
        }
        i = i + 1;
    }
    proof {
        assert(keys@.skip(keys.len() as int) =~= Seq::<FontKey>::empty());
    }
    None
}

/// Whether a family name occurs in a list of names, by exact equality.
pub fn contains_name(names: &Vec<String>, family: &String) -> (r: bool)
    ensures
        r == names_view(names@).contains(family@),
{
    let mut i: usize = 0;
    while i < names.len()
        invariant
            i <= names.len(),
            forall|j: int| 0 <= j < i ==> names@[j]@ != family@,
        decreases names.len() - i,
    {
        if names[i] == *family {
            proof {
                assert(names_view(names@)[i as int] == names@[i as int]@);
                assert(names_view(names@).contains(family@));
            }
            return true;
        }
        i = i + 1;
    }
    proof {
        assert forall|j: int| 0 <= j < names_view(names@).len() implies names_view(names@)[j]
            != family@ by {
            assert(names_view(names@)[j] == names@[j]@);
        }
    }
    false
}

/// The family list one script-table entry yields under the active locale:
/// the first override with exactly that locale, or the entry's
/// locale-independent list.
fn entry_families_under<'a>(entry: &'a ScriptFamilies, locale: &String) -> (r: &'a Vec<String>)
    ensures
        names_view(r@) == entry_families(*entry, locale@),
{
    proof {
        assert(entry.overrides@.skip(0) =~= entry.overrides@);
    }
    let mut i: usize = 0;
    while i < entry.overrides.len()
        invariant
            i <= entry.overrides.len(),
            override_families(entry.overrides@, locale@) == override_families(
                entry.overrides@.skip(i as int),
                locale@,
            ),
        decreases entry.overrides.len() - i,
    {
        proof {
            lemma_override_families_skip(entry.overrides@, locale@, i as int);
        }
        if entry.overrides[i].locale == *locale {
            return &entry.overrides[i].families;
        }
        i = i + 1;
    }
    proof {
        assert(entry.overrides@.skip(entry.overrides.len() as int) =~= Seq::<
            LocaleFamilies,
        >::empty());
    }
    &entry.families
}

/// The platform's fallback-family list for `script` under `locale`, looked
/// up fresh from the table on every call; `None` stands for the empty list
/// of a script the table does not know.
pub fn lookup_script_families<'a>(
    table: &'a Vec<ScriptFamilies>,
    script: ScriptTag,
    locale: &String,
) -> (r: Option<&'a Vec<String>>)
    ensures
        match r {
            Some(v) => names_view(v@) == script_families(table@, script, locale@),
            None => script_families(table@, script, locale@) == Seq::<Seq<char>>::empty(),
        },
{
    proof {
        assert(table@.skip(0) =~= table@);
    }
    let mut i: usize = 0;
    while i < table.len()
        invariant
            i <= table.len(),
            script_families(table@, script, locale@) == script_families(
                table@.skip(i as int),
                script,
                locale@,
            ),
        decreases table.len() - i,
    {
        proof {
            lemma_script_families_skip(table@, script, locale@, i as int);
        }
        if table[i].script == script {
            return Some(entry_families_under(&table[i], locale));
        }
        i = i + 1;
    }
    proof {
        assert(table@.skip(table.len() as int) =~= Seq::<ScriptFamilies>::empty());
    }
    None
}

} // verus!
