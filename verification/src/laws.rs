//! The ordering guarantees of the search, stated and proved over the
//! candidate sequence. Together with `next`'s contract — the n-th
//! advancement of a fresh search returns exactly `candidates(env)[n]` —
//! they pin down the whole observable behaviour of a search.

use vstd::prelude::*;

use crate::candidates::SearchEnv;
use crate::candidates::candidates;
use crate::candidates::catch_all_tier;
use crate::candidates::common_tier;
use crate::candidates::default_tier;
use crate::candidates::family_matches;
use crate::candidates::first_match;
use crate::candidates::lemma_first_match_props;
use crate::candidates::lemma_fm_split;
use crate::candidates::lemma_st_split;
use crate::candidates::script_tier;
use crate::candidates::unit_allowed;
use crate::candidates::unit_match;
use crate::model::FontKey;
use crate::model::fam_of;
use crate::model::script_families;
use crate::search::FontFallbackIter;

verus! {

/// Default families come strictly first: the default tier's matches occupy
/// the leading positions of the candidate sequence, and whenever some
/// default family has a matching eligible font, that tier is non-empty —
/// so an eligible font carrying exactly that default family name is
/// returned before any script, common or catch-all candidate.
pub proof fn lemma_defaults_first(e: SearchEnv, j: int)
    requires
        0 <= j < e.defaults.len(),
        first_match(e.reg, e.keys, e.defaults[j]) is Some,
    ensures
        default_tier(e).len() > 0,
        forall|i: int|
            0 <= i < default_tier(e).len() ==> #[trigger] candidates(e)[i] == default_tier(e)[i],
        exists|i: int|
            0 <= i < default_tier(e).len() && candidates(e)[i] == first_match(
                e.reg,
                e.keys,
                e.defaults[j],
            ).unwrap(),
        e.keys.contains(first_match(e.reg, e.keys, e.defaults[j]).unwrap()),
        fam_of(e.reg, first_match(e.reg, e.keys, e.defaults[j]).unwrap()) == e.defaults[j],
{
    lemma_first_match_props(e.reg, e.keys, e.defaults[j]);
    lemma_fm_split(e.reg, e.keys, e.defaults, j);
    let k = first_match(e.reg, e.keys, e.defaults[j]).unwrap();
    assert(unit_match(e.reg, e.keys, e.defaults[j]) == seq![k]);
    let b = family_matches(e.reg, e.keys, e.defaults.take(j));
    assert((b + seq![k])[b.len() as int] == k);
    assert(default_tier(e)[b.len() as int] == k);
    assert(candidates(e)[b.len() as int] == k);
}

/// Scripts are tried in the run's order, each script's platform family
/// list in table order: the script tier splits, around any script of the
/// run, into the candidates of the scripts before it, then the matches of
/// its own family list, then the candidates of the scripts after it.
/// (`lemma_fm_split` decomposes one script's matches around a family the
/// same way.)
pub proof fn lemma_script_order(e: SearchEnv, s: int)
    requires
        0 <= s < e.scripts.len(),
    ensures
        script_tier(e, e.scripts) == script_tier(e, e.scripts.take(s)) + family_matches(
            e.reg,
            e.keys,
            script_families(e.table, e.scripts[s], e.locale),
        ) + script_tier(e, e.scripts.skip(s + 1)),
{
    lemma_st_split(e, e.scripts, s);
}

/// Every member of the catch-all tier carries a family name outside the
/// forbidden set.
proof fn lemma_ca_members(reg: Seq<Seq<char>>, keys: Seq<FontKey>, forbidden: Seq<Seq<char>>)
    ensures
        forall|i: int|
            0 <= i < catch_all_tier(reg, keys, forbidden).len() ==> !forbidden.contains(
                fam_of(reg, #[trigger] catch_all_tier(reg, keys, forbidden)[i]),
            ),
    decreases keys.len(),
{
    if keys.len() == 0 {
    } else {
        lemma_ca_members(reg, keys.drop_first(), forbidden);
        let u = unit_allowed(reg, forbidden, keys[0]);
        let rest = catch_all_tier(reg, keys.drop_first(), forbidden);
        assert(catch_all_tier(reg, keys, forbidden) == u + rest);
        assert forall|i: int| 0 <= i < catch_all_tier(reg, keys, forbidden).len() implies !forbidden
            .contains(fam_of(reg, #[trigger] catch_all_tier(reg, keys, forbidden)[i])) by {
            if i < u.len() {
                assert(!forbidden.contains(fam_of(reg, keys[0])));
                assert(catch_all_tier(reg, keys, forbidden)[i] == keys[0]);
            } else {
                assert(catch_all_tier(reg, keys, forbidden)[i] == rest[i - u.len()]);
            }
        }
    }
}

/// The catch-all tier never returns a font with a forbidden family, and it
/// only activates after the default, script and common tiers are fully
/// exhausted: its candidates stand strictly after every candidate of the
/// three earlier tiers.
pub proof fn lemma_catch_all_clean(e: SearchEnv)
    ensures
        ({
            let lead = default_tier(e).len() + script_tier(e, e.scripts).len() + common_tier(
                e,
            ).len();
            &&& candidates(e).len() == lead + catch_all_tier(e.reg, e.keys, e.forbidden).len()
            &&& forall|i: int|
                lead <= i < candidates(e).len() ==> !e.forbidden.contains(
                    fam_of(e.reg, #[trigger] candidates(e)[i]),
                )
        }),
{
    let lead = default_tier(e).len() + script_tier(e, e.scripts).len() + common_tier(e).len();
    lemma_ca_members(e.reg, e.keys, e.forbidden);
    assert forall|i: int| lead <= i < candidates(e).len() implies !e.forbidden.contains(
        fam_of(e.reg, #[trigger] candidates(e)[i]),
    ) by {
        assert(candidates(e)[i] == catch_all_tier(e.reg, e.keys, e.forbidden)[i - lead]);
    }
}

/// Determinism: the candidate sequence is a function of the search inputs
/// alone, and the cursor position a function of inputs and indices — so,
/// with `next`'s contract, repeated full searches over identical inputs
/// produce the identical ordered sequence of candidates.
pub proof fn lemma_deterministic(x: FontFallbackIter, y: FontFallbackIter)
    requires
        x.env() == y.env(),
        x.default_i == y.default_i,
        x.script_outer == y.script_outer,
        x.script_inner == y.script_inner,
        x.common_i == y.common_i,
        x.other_i == y.other_i,
    ensures
        candidates(x.env()) == candidates(y.env()),
        x.pos() == y.pos(),
{
}

} // verus!
