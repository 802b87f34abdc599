//! The mathematical candidate sequence of a search: for fixed inputs, the
//! exact ordered sequence of fonts the four fallback tiers produce, together
//! with the lemmas that relate prefixes and single steps of each tier.

use vstd::prelude::*;

use crate::model::FontKey;
use crate::model::ScriptFamilies;
use crate::model::ScriptTag;
use crate::model::fam_of;
use crate::model::keys_ok;
use crate::model::script_families;

verus! {

/// The read-only inputs of one search, as mathematical values: the registry
/// (family name per font), the eligible keys, the default families, the
/// run's scripts, the locale, and the platform tables.
pub struct SearchEnv {
    pub reg: Seq<Seq<char>>,
    pub keys: Seq<FontKey>,
    pub defaults: Seq<Seq<char>>,
    pub scripts: Seq<ScriptTag>,
    pub locale: Seq<char>,
    pub table: Seq<ScriptFamilies>,
    pub common: Seq<Seq<char>>,
    pub forbidden: Seq<Seq<char>>,
}

/// Every eligible key resolves in the registry.
pub open spec fn env_ok(e: SearchEnv) -> bool {
    keys_ok(e.reg, e.keys)
}

/// The first font of `keys`, in order, whose family name equals `family`.
pub open spec fn first_match(reg: Seq<Seq<char>>, keys: Seq<FontKey>, family: Seq<char>) -> Option<
    FontKey,
>
    decreases keys.len(),
{
    if keys.len() == 0 {
        None
    } else if fam_of(reg, keys[0]) == family {
        Some(keys[0])
    } else {
        first_match(reg, keys.drop_first(), family)
    }
}

/// What one target family contributes to a tier: its first eligible match,
/// or nothing.
pub open spec fn unit_match(reg: Seq<Seq<char>>, keys: Seq<FontKey>, family: Seq<char>) -> Seq<
    FontKey,
> {
    match first_match(reg, keys, family) {
        Some(k) => seq![k],
        None => Seq::empty(),
    }
}

/// For each target family in order, the first eligible font with that exact
/// family name, families without a match contributing nothing.
pub open spec fn family_matches(
    reg: Seq<Seq<char>>,
    keys: Seq<FontKey>,
    families: Seq<Seq<char>>,
) -> Seq<FontKey>
    decreases families.len(),
{
    if families.len() == 0 {
        Seq::empty()
    } else {
        unit_match(reg, keys, families[0]) + family_matches(reg, keys, families.drop_first())
    }
}

/// What one script contributes: the matches of its platform family list.
pub open spec fn script_unit(e: SearchEnv, script: ScriptTag) -> Seq<FontKey> {
    family_matches(e.reg, e.keys, script_families(e.table, script, e.locale))
}

/// The per-script tier: each script of the run, in run order, contributes
/// the matches of its platform family list.
pub open spec fn script_tier(e: SearchEnv, scripts: Seq<ScriptTag>) -> Seq<FontKey>
    decreases scripts.len(),
{
    if scripts.len() == 0 {
        Seq::empty()
    } else {
        script_unit(e, scripts[0]) + script_tier(e, scripts.drop_first())
    }
}

/// What one eligible font contributes to the catch-all tier: itself, unless
/// its family is forbidden.
pub open spec fn unit_allowed(
    reg: Seq<Seq<char>>,
    forbidden: Seq<Seq<char>>,
    key: FontKey,
) -> Seq<FontKey> {
    if forbidden.contains(fam_of(reg, key)) {
        Seq::empty()
    } else {
        seq![key]
    }
}

/// The catch-all tier: the eligible fonts in their original order, those
/// with a forbidden family name left out.
pub open spec fn catch_all_tier(
    reg: Seq<Seq<char>>,
    keys: Seq<FontKey>,
    forbidden: Seq<Seq<char>>,
) -> Seq<FontKey>
    decreases keys.len(),
{
    if keys.len() == 0 {
        Seq::empty()
    } else {
        unit_allowed(reg, forbidden, keys[0]) + catch_all_tier(reg, keys.drop_first(), forbidden)
    }
}

/// The default tier: matches of the caller's explicit default families.
pub open spec fn default_tier(e: SearchEnv) -> Seq<FontKey> {
    family_matches(e.reg, e.keys, e.defaults)
}

/// The common tier: matches of the platform's universal family list.
pub open spec fn common_tier(e: SearchEnv) -> Seq<FontKey> {
    family_matches(e.reg, e.keys, e.common)
}

/// The complete candidate sequence of a search: the four tiers in strict
/// priority order. The n-th advancement of a fresh search returns exactly
/// the n-th element, then reports exhaustion.
pub open spec fn candidates(e: SearchEnv) -> Seq<FontKey> {
    default_tier(e) + script_tier(e, e.scripts) + common_tier(e) + catch_all_tier(
        e.reg,
        e.keys,
        e.forbidden,
    )
}

/// No family of `fams[lo..hi]` has an eligible match.
pub open spec fn families_missed(
    reg: Seq<Seq<char>>,
    keys: Seq<FontKey>,
    fams: Seq<Seq<char>>,
    lo: int,
    hi: int,
) -> bool {
    forall|j: int| lo <= j < hi ==> first_match(reg, keys, #[trigger] fams[j]) is None
}

/// Every font of `keys[lo..hi]` carries a forbidden family name.
pub open spec fn keys_all_forbidden(
    reg: Seq<Seq<char>>,
    forbidden: Seq<Seq<char>>,
    keys: Seq<FontKey>,
    lo: int,
    hi: int,
) -> bool {
    forall|i: int| lo <= i < hi ==> forbidden.contains(fam_of(reg, #[trigger] keys[i]))
}

/// No fallback family between the script cursor `(o_lo, f_lo)` and script
/// `o_hi` (exclusive) has an eligible match: the tail of script `o_lo`'s
/// list from `f_lo` on, and the whole list of every script after it up to
/// `o_hi`.
pub open spec fn script_range_missed(e: SearchEnv, o_lo: int, f_lo: int, o_hi: int) -> bool {
    forall|o2: int, f2: int|
        o_lo <= o2 < o_hi && (if o2 == o_lo {
            f_lo
        } else {
            0
        }) <= f2 && f2 < script_families(e.table, e.scripts[o2], e.locale).len()
            ==> first_match(
            e.reg,
            e.keys,
            #[trigger] script_families(e.table, e.scripts[o2], e.locale)[f2],
        ) is None
}

/// Unrolls `first_match` at position `i` of the key list.
pub proof fn lemma_first_match_skip(
    reg: Seq<Seq<char>>,
    keys: Seq<FontKey>,
    family: Seq<char>,
    i: int,
)
    requires
        0 <= i < keys.len(),
    ensures
        first_match(reg, keys.skip(i), family) == if fam_of(reg, keys[i]) == family {
            Some(keys[i])
        } else {
            first_match(reg, keys.skip(i + 1), family)
        },
{
    assert(keys.skip(i)[0] == keys[i]);
    assert(keys.skip(i).drop_first() =~= keys.skip(i + 1));
}

/// A found match carries the requested family and comes from the key list;
/// a miss means no eligible font carries it.
pub proof fn lemma_first_match_props(reg: Seq<Seq<char>>, keys: Seq<FontKey>, family: Seq<char>)
    ensures
        match first_match(reg, keys, family) {
            Some(k) => keys.contains(k) && fam_of(reg, k) == family,
            None => forall|i: int|
                0 <= i < keys.len() ==> fam_of(reg, #[trigger] keys[i]) != family,
        },
    decreases keys.len(),
{
    if keys.len() == 0 {
    } else if fam_of(reg, keys[0]) == family {
        assert(keys.contains(keys[0]));
    } else {
        lemma_first_match_props(reg, keys.drop_first(), family);
        match first_match(reg, keys.drop_first(), family) {
            Some(k) => {
                let j = choose|j: int|
                    0 <= j < keys.drop_first().len() && keys.drop_first()[j] == k;
                assert(keys[j + 1] == k);
                assert(keys.contains(k));
            },
            None => {
                assert forall|i: int| 0 <= i < keys.len() implies fam_of(
                    reg,
                    #[trigger] keys[i],
                ) != family by {
                    if i > 0 {
                        assert(keys.drop_first()[i - 1] == keys[i]);
                    }
                }
            },
        }
    }
}

/// `family_matches` distributes over concatenation of family lists.
pub proof fn lemma_fm_concat(
    reg: Seq<Seq<char>>,
    keys: Seq<FontKey>,
    a: Seq<Seq<char>>,
    b: Seq<Seq<char>>,
)
    ensures
        family_matches(reg, keys, a + b) == family_matches(reg, keys, a) + family_matches(
            reg,
            keys,
            b,
        ),
    decreases a.len(),
{
    if a.len() == 0 {
        assert(a + b =~= b);
        assert(family_matches(reg, keys, a) + family_matches(reg, keys, b) =~= family_matches(
            reg,
            keys,
            b,
        ));
    } else {
        assert((a + b)[0] == a[0]);
        assert((a + b).drop_first() =~= a.drop_first() + b);
        lemma_fm_concat(reg, keys, a.drop_first(), b);
        assert(unit_match(reg, keys, a[0]) + (family_matches(reg, keys, a.drop_first())
            + family_matches(reg, keys, b)) =~= (unit_match(reg, keys, a[0]) + family_matches(
            reg,
            keys,
            a.drop_first(),
        )) + family_matches(reg, keys, b));
    }
}

/// Extending the processed prefix of a family list by one family appends
/// that family's contribution.
pub proof fn lemma_fm_step(reg: Seq<Seq<char>>, keys: Seq<FontKey>, fams: Seq<Seq<char>>, i: int)
    requires
        0 <= i < fams.len(),
    ensures
        family_matches(reg, keys, fams.take(i + 1)) == family_matches(reg, keys, fams.take(i))
            + unit_match(reg, keys, fams[i]),
{
    assert(fams.take(i + 1) =~= fams.take(i) + seq![fams[i]]);
    lemma_fm_concat(reg, keys, fams.take(i), seq![fams[i]]);
    assert(seq![fams[i]].drop_first() =~= Seq::<Seq<char>>::empty());
    assert(family_matches(reg, keys, Seq::<Seq<char>>::empty()) == Seq::<FontKey>::empty());
    assert(family_matches(reg, keys, seq![fams[i]]) == unit_match(reg, keys, fams[i])
        + Seq::<FontKey>::empty());
    assert(unit_match(reg, keys, fams[i]) + Seq::<FontKey>::empty() =~= unit_match(
        reg,
        keys,
        fams[i],
    ));
}

/// Splits a family list's matches around position `i`.
pub proof fn lemma_fm_split(reg: Seq<Seq<char>>, keys: Seq<FontKey>, fams: Seq<Seq<char>>, i: int)
    requires
        0 <= i < fams.len(),
    ensures
        family_matches(reg, keys, fams) == family_matches(reg, keys, fams.take(i)) + unit_match(
            reg,
            keys,
            fams[i],
        ) + family_matches(reg, keys, fams.skip(i + 1)),
{
    assert(fams =~= fams.take(i + 1) + fams.skip(i + 1));
    lemma_fm_concat(reg, keys, fams.take(i + 1), fams.skip(i + 1));
    lemma_fm_step(reg, keys, fams, i);
}

/// `script_tier` distributes over concatenation of script lists.
pub proof fn lemma_st_concat(e: SearchEnv, a: Seq<ScriptTag>, b: Seq<ScriptTag>)
    ensures
        script_tier(e, a + b) == script_tier(e, a) + script_tier(e, b),
    decreases a.len(),
{
    if a.len() == 0 {
        assert(a + b =~= b);
        assert(script_tier(e, a) + script_tier(e, b) =~= script_tier(e, b));
    } else {
        assert((a + b)[0] == a[0]);
        assert((a + b).drop_first() =~= a.drop_first() + b);
        lemma_st_concat(e, a.drop_first(), b);
        assert(script_unit(e, a[0]) + (script_tier(e, a.drop_first()) + script_tier(e, b))
            =~= (script_unit(e, a[0]) + script_tier(e, a.drop_first())) + script_tier(e, b));
    }
}

/// Extending the processed prefix of the script list by one script appends
/// that script's contribution.
pub proof fn lemma_st_step(e: SearchEnv, scripts: Seq<ScriptTag>, i: int)
    requires
        0 <= i < scripts.len(),
    ensures
        script_tier(e, scripts.take(i + 1)) == script_tier(e, scripts.take(i)) + script_unit(
            e,
            scripts[i],
        ),
{
    assert(scripts.take(i + 1) =~= scripts.take(i) + seq![scripts[i]]);
    lemma_st_concat(e, scripts.take(i), seq![scripts[i]]);
    assert(seq![scripts[i]].drop_first() =~= Seq::<ScriptTag>::empty());
    assert(script_tier(e, Seq::<ScriptTag>::empty()) == Seq::<FontKey>::empty());
    assert(script_tier(e, seq![scripts[i]]) == script_unit(e, scripts[i])
        + Seq::<FontKey>::empty());
    assert(script_unit(e, scripts[i]) + Seq::<FontKey>::empty() =~= script_unit(e, scripts[i]));
}

/// Splits the script tier around script `i`.
pub proof fn lemma_st_split(e: SearchEnv, scripts: Seq<ScriptTag>, i: int)
    requires
        0 <= i < scripts.len(),
    ensures
        script_tier(e, scripts) == script_tier(e, scripts.take(i)) + script_unit(e, scripts[i])
            + script_tier(e, scripts.skip(i + 1)),
{
    assert(scripts =~= scripts.take(i + 1) + scripts.skip(i + 1));
    lemma_st_concat(e, scripts.take(i + 1), scripts.skip(i + 1));
    lemma_st_step(e, scripts, i);
}

/// `catch_all_tier` distributes over concatenation of key lists.
pub proof fn lemma_ca_concat(
    reg: Seq<Seq<char>>,
    forbidden: Seq<Seq<char>>,
    a: Seq<FontKey>,
    b: Seq<FontKey>,
)
    ensures
        catch_all_tier(reg, a + b, forbidden) == catch_all_tier(reg, a, forbidden)
            + catch_all_tier(reg, b, forbidden),
    decreases a.len(),
{
    if a.len() == 0 {
        assert(a + b =~= b);
        assert(catch_all_tier(reg, a, forbidden) + catch_all_tier(reg, b, forbidden)
            =~= catch_all_tier(reg, b, forbidden));
    } else {
        assert((a + b)[0] == a[0]);
        assert((a + b).drop_first() =~= a.drop_first() + b);
        lemma_ca_concat(reg, forbidden, a.drop_first(), b);
        assert(unit_allowed(reg, forbidden, a[0]) + (catch_all_tier(reg, a.drop_first(), forbidden)
            + catch_all_tier(reg, b, forbidden)) =~= (unit_allowed(reg, forbidden, a[0])
            + catch_all_tier(reg, a.drop_first(), forbidden)) + catch_all_tier(reg, b, forbidden));
    }
}

/// Extending the processed prefix of the key list by one key appends that
/// key's contribution.
pub proof fn lemma_ca_step(reg: Seq<Seq<char>>, forbidden: Seq<Seq<char>>, keys: Seq<FontKey>, i: int)
    requires
        0 <= i < keys.len(),
    ensures
        catch_all_tier(reg, keys.take(i + 1), forbidden) == catch_all_tier(
            reg,
            keys.take(i),
            forbidden,
        ) + unit_allowed(reg, forbidden, keys[i]),
{
    assert(keys.take(i + 1) =~= keys.take(i) + seq![keys[i]]);
    lemma_ca_concat(reg, forbidden, keys.take(i), seq![keys[i]]);
    assert(seq![keys[i]].drop_first() =~= Seq::<FontKey>::empty());
    assert(catch_all_tier(reg, Seq::<FontKey>::empty(), forbidden) == Seq::<FontKey>::empty());
    assert(catch_all_tier(reg, seq![keys[i]], forbidden) == unit_allowed(reg, forbidden, keys[i])
        + Seq::<FontKey>::empty());
    assert(unit_allowed(reg, forbidden, keys[i]) + Seq::<FontKey>::empty() =~= unit_allowed(
        reg,
        forbidden,
        keys[i],
    ));
}

/// Splits the catch-all tier around key `i`.
pub proof fn lemma_ca_split(
    reg: Seq<Seq<char>>,
    forbidden: Seq<Seq<char>>,
    keys: Seq<FontKey>,
    i: int,
)
    requires
        0 <= i < keys.len(),
    ensures
        catch_all_tier(reg, keys, forbidden) == catch_all_tier(reg, keys.take(i), forbidden)
            + unit_allowed(reg, forbidden, keys[i]) + catch_all_tier(
            reg,
            keys.skip(i + 1),
            forbidden,
        ),
{
    assert(keys =~= keys.take(i + 1) + keys.skip(i + 1));
    lemma_ca_concat(reg, forbidden, keys.take(i + 1), keys.skip(i + 1));
    lemma_ca_step(reg, forbidden, keys, i);
}

} // verus!
