//! The fallback search itself: a cursor over the four tiers, advanced one
//! candidate at a time. `next` is proved to return exactly the `pos`-th
//! element of the search's candidate sequence, so a full search enumerates
//! `candidates(env)` in order and then reports exhaustion, deterministically.

use vstd::prelude::*;

use crate::candidates::SearchEnv;
use crate::candidates::candidates;
use crate::candidates::catch_all_tier;
use crate::candidates::common_tier;
use crate::candidates::default_tier;
use crate::candidates::env_ok;
use crate::candidates::families_missed;
use crate::candidates::family_matches;
use crate::candidates::first_match;
use crate::candidates::keys_all_forbidden;
use crate::candidates::lemma_ca_split;
use crate::candidates::lemma_ca_step;
use crate::candidates::lemma_fm_split;
use crate::candidates::lemma_fm_step;
use crate::candidates::lemma_st_split;
use crate::candidates::lemma_st_step;
use crate::candidates::script_range_missed;
use crate::candidates::script_tier;
use crate::candidates::script_unit;
use crate::candidates::unit_allowed;
use crate::candidates::unit_match;
use crate::model::FallbackTables;
use crate::model::FontKey;
use crate::model::FontRegistry;
use crate::model::ScriptTag;
use crate::model::fam_of;
use crate::model::key_ok;
use crate::model::keys_ok;
use crate::model::names_view;
use crate::model::registry_view;
use crate::model::script_families;
use crate::scan::contains_name;
use crate::scan::find_family;
use crate::scan::lookup_script_families;

verus! {

/// Why a search ended where it did: the content of a caller's diagnostic
/// message, separated from any formatting.
#[derive(Clone, Debug, PartialEq, Eq)]
pub enum FallbackDiagnostic {
    /// The search is exhausted: no font anywhere satisfied the request.
    NoFallback,
    /// The last candidate came from the catch-all tier; this family was
    /// used although no preset fallback matched.
    UsedCatchAll { family: String },
    /// The run had scripts but none of their families matched; this common
    /// family is the one most recently tried.
    UsedCommon { family: String },
}

/// One advancement consumed default families only: every default family
/// from the old cursor up to the match had no eligible font, the matched
/// family's first eligible font is the candidate, `default_i` advanced
/// exactly past the match, and no later tier's index moved.
pub open spec fn default_step(pre: FontFallbackIter, post: FontFallbackIter, k: FontKey) -> bool {
    let e = pre.env();
    &&& pre.default_i < post.default_i && post.default_i <= e.defaults.len()
    &&& families_missed(e.reg, e.keys, e.defaults, pre.default_i as int, post.default_i as int - 1)
    &&& first_match(e.reg, e.keys, e.defaults[post.default_i as int - 1]) == Some(k)
    &&& post.script_outer == pre.script_outer && post.script_inner == pre.script_inner
    &&& post.common_i == pre.common_i && post.other_i == pre.other_i && post.end == pre.end
}

/// One advancement reached the per-script tier: the remaining default
/// families all missed, the scripts and families skipped on the way all
/// missed, the candidate is the first eligible font of the matched family,
/// and the script cursor lands exactly past that family — `(o, f + 1)` for
/// a match at family `f` of script `o` — with the common and catch-all
/// indices untouched.
pub open spec fn script_step(pre: FontFallbackIter, post: FontFallbackIter, k: FontKey) -> bool {
    let e = pre.env();
    let o = post.script_outer as int;
    let start = if pre.script_outer as int == o {
        pre.script_inner as int
    } else {
        0
    };
    &&& post.default_i == e.defaults.len()
    &&& families_missed(e.reg, e.keys, e.defaults, pre.default_i as int, e.defaults.len() as int)
    &&& pre.script_outer <= post.script_outer && o < e.scripts.len()
    &&& script_range_missed(e, pre.script_outer as int, pre.script_inner as int, o)
    &&& 1 <= post.script_inner && post.script_inner <= pre.fams_at(o).len()
    &&& start < post.script_inner as int
    &&& families_missed(e.reg, e.keys, pre.fams_at(o), start, post.script_inner as int - 1)
    &&& first_match(e.reg, e.keys, pre.fams_at(o)[post.script_inner as int - 1]) == Some(k)
    &&& post.common_i == pre.common_i && post.other_i == pre.other_i && post.end == pre.end
}

/// One advancement reached the common tier: the remaining defaults and all
/// remaining script families missed, the script cursor was left reset at
/// the end of the run, the skipped common families missed, the candidate is
/// the first eligible font of the matched common family, and `common_i`
/// lands exactly past it with `other_i` untouched.
pub open spec fn common_step(pre: FontFallbackIter, post: FontFallbackIter, k: FontKey) -> bool {
    let e = pre.env();
    &&& post.default_i == e.defaults.len()
    &&& families_missed(e.reg, e.keys, e.defaults, pre.default_i as int, e.defaults.len() as int)
    &&& post.script_outer == e.scripts.len() && post.script_inner == 0
    &&& script_range_missed(
        e,
        pre.script_outer as int,
        pre.script_inner as int,
        e.scripts.len() as int,
    )
    &&& pre.common_i < post.common_i && post.common_i <= e.common.len()
    &&& families_missed(e.reg, e.keys, e.common, pre.common_i as int, post.common_i as int - 1)
    &&& first_match(e.reg, e.keys, e.common[post.common_i as int - 1]) == Some(k)
    &&& post.other_i == pre.other_i && post.end == pre.end
}

/// One advancement reached the catch-all tier: every remaining default,
/// script and common family missed, the skipped eligible fonts all carry
/// forbidden families, the candidate is the first remaining non-forbidden
/// font, and `other_i` lands exactly past it.
pub open spec fn catch_all_step(pre: FontFallbackIter, post: FontFallbackIter, k: FontKey) -> bool {
    let e = pre.env();
    &&& post.default_i == e.defaults.len()
    &&& families_missed(e.reg, e.keys, e.defaults, pre.default_i as int, e.defaults.len() as int)
    &&& post.script_outer == e.scripts.len() && post.script_inner == 0
    &&& script_range_missed(
        e,
        pre.script_outer as int,
        pre.script_inner as int,
        e.scripts.len() as int,
    )
    &&& post.common_i == e.common.len()
    &&& families_missed(e.reg, e.keys, e.common, pre.common_i as int, e.common.len() as int)
    &&& pre.other_i < post.other_i && post.other_i <= e.keys.len()
    &&& keys_all_forbidden(e.reg, e.forbidden, e.keys, pre.other_i as int, post.other_i as int - 1)
    &&& k == e.keys[post.other_i as int - 1]
    &&& !e.forbidden.contains(fam_of(e.reg, k))
    &&& post.end == pre.end
}

/// One advancement found nothing: every remaining default, script and
/// common family missed, every remaining eligible font is forbidden, and
/// the cursor rests at the end of every tier with the search marked ended.
pub open spec fn exhaust_step(pre: FontFallbackIter, post: FontFallbackIter) -> bool {
    let e = pre.env();
    &&& post.default_i == e.defaults.len()
    &&& families_missed(e.reg, e.keys, e.defaults, pre.default_i as int, e.defaults.len() as int)
    &&& post.script_outer == e.scripts.len() && post.script_inner == 0
    &&& script_range_missed(
        e,
        pre.script_outer as int,
        pre.script_inner as int,
        e.scripts.len() as int,
    )
    &&& post.common_i == e.common.len()
    &&& families_missed(e.reg, e.keys, e.common, pre.common_i as int, e.common.len() as int)
    &&& post.other_i == e.keys.len()
    &&& keys_all_forbidden(e.reg, e.forbidden, e.keys, pre.other_i as int, e.keys.len() as int)
    &&& post.end
}

/// The fallback search state: the read-only inputs of the search and the
/// cursor over the four tiers. Indices only ever grow; no tier is revisited
/// once passed.
pub struct FontFallbackIter {
    pub registry: FontRegistry,
    pub font_keys: Vec<FontKey>,
    pub default_families: Vec<String>,
    pub scripts: Vec<ScriptTag>,
    pub locale: String,
    pub tables: FallbackTables,
    pub default_i: usize,
    pub script_outer: usize,
    pub script_inner: usize,
    pub common_i: usize,
    pub other_i: usize,
    pub end: bool,
}

impl FontFallbackIter {
    /// The search's read-only inputs as mathematical values.
    pub open spec fn env(self) -> SearchEnv {
        SearchEnv {
            reg: registry_view(self.registry),
            keys: self.font_keys@,
            defaults: names_view(self.default_families@),
            scripts: self.scripts@,
            locale: self.locale@,
            table: self.tables.script_table@,
            common: names_view(self.tables.common@),
            forbidden: names_view(self.tables.forbidden@),
        }
    }

    /// The platform family list of the run's script number `o`.
    pub open spec fn fams_at(self, o: int) -> Seq<Seq<char>> {
        script_families(self.env().table, self.env().scripts[o], self.env().locale)
    }

    /// Well-formedness: every eligible key resolves in the registry, each
    /// index is within its tier, and a tier's index may only have left zero
    /// once every earlier tier is fully consumed.
    pub open spec fn wf(self) -> bool {
        let e = self.env();
        &&& keys_ok(e.reg, e.keys)
        &&& self.default_i <= e.defaults.len()
        &&& self.script_outer <= e.scripts.len()
        &&& (self.script_outer < e.scripts.len() ==> self.script_inner <= self.fams_at(
            self.script_outer as int,
        ).len())
        &&& (self.script_outer == e.scripts.len() ==> self.script_inner == 0)
        &&& self.common_i <= e.common.len()
        &&& self.other_i <= e.keys.len()
        &&& (self.default_i < e.defaults.len() ==> self.script_outer == 0 && self.script_inner
            == 0 && self.common_i == 0 && self.other_i == 0 && !self.end)
        &&& (self.script_outer < e.scripts.len() ==> self.common_i == 0 && self.other_i == 0
            && !self.end)
        &&& (self.common_i < e.common.len() ==> self.other_i == 0 && !self.end)
        &&& (self.other_i < e.keys.len() ==> !self.end)
        &&& (self.end ==> self.default_i == e.defaults.len() && self.script_outer
            == e.scripts.len() && self.common_i == e.common.len() && self.other_i == e.keys.len())
    }

    /// How many candidates the search has already produced: the combined
    /// contribution of every tier prefix the cursor has passed.
    pub open spec fn pos(self) -> int {
        let e = self.env();
        family_matches(e.reg, e.keys, e.defaults.take(self.default_i as int)).len()
            + script_tier(e, e.scripts.take(self.script_outer as int)).len() + (
        if self.script_outer < e.scripts.len() {
            family_matches(
                e.reg,
                e.keys,
                self.fams_at(self.script_outer as int).take(self.script_inner as int),
            ).len() as int
        } else {
            0
        }) + family_matches(e.reg, e.keys, e.common.take(self.common_i as int)).len()
            + catch_all_tier(e.reg, e.keys.take(self.other_i as int), e.forbidden).len()
    }

    /// Start a search over `font_keys` (in that order) for the given default
    /// families, run scripts and locale, under the platform `tables`.
    /// Performs no lookups and no validation: every index starts at zero.
    pub fn new(
        registry: FontRegistry,
        font_keys: Vec<FontKey>,
        default_families: Vec<String>,
        scripts: Vec<ScriptTag>,
        locale: String,
        tables: FallbackTables,
    ) -> (r: Self)
        ensures
            r.env() == (SearchEnv {
                reg: registry_view(registry),
                keys: font_keys@,
                defaults: names_view(default_families@),
                scripts: scripts@,
                locale: locale@,
                table: tables.script_table@,
                common: names_view(tables.common@),
                forbidden: names_view(tables.forbidden@),
            }),
            r.default_i == 0 && r.script_outer == 0 && r.script_inner == 0 && r.common_i == 0
                && r.other_i == 0 && !r.end,
            r.pos() == 0,
            env_ok(r.env()) ==> r.wf(),
    {
        let r = FontFallbackIter {
            registry,
            font_keys,
            default_families,
            scripts,
            locale,
            tables,
            default_i: 0,
            script_outer: 0,
            script_inner: 0,
            common_i: 0,
            other_i: 0,
            end: false,
        };
        proof {
            let e = r.env();
            lemma_fm_take_zero(e.reg, e.keys, e.defaults);
            lemma_st_take_zero(e, e.scripts);
            if 0 < e.scripts.len() {
                lemma_fm_take_zero(e.reg, e.keys, r.fams_at(0));
            }
            lemma_fm_take_zero(e.reg, e.keys, e.common);
            lemma_ca_take_zero(e.reg, e.forbidden, e.keys);
        }
        r
    }

    /// The number of platform fallback families of the run's script number
    /// `o` under the active locale, computed fresh from the table.
    fn script_family_count(&self, o: usize) -> (n: usize)
        requires
            o < self.env().scripts.len(),
        ensures
            n == self.fams_at(o as int).len(),
    {
        match lookup_script_families(&self.tables.script_table, self.scripts[o], &self.locale) {
            Some(v) => v.len(),
            None => 0,
        }
    }

    /// The first eligible font matching family number `j` of the run's
    /// script number `o`, if any.
    fn find_script_match(&self, o: usize, j: usize) -> (r: Option<FontKey>)
        requires
            env_ok(self.env()),
            o < self.env().scripts.len(),
            j < self.fams_at(o as int).len(),
        ensures
            r == first_match(self.env().reg, self.env().keys, self.fams_at(o as int)[j as int]),
    {
        match lookup_script_families(&self.tables.script_table, self.scripts[o], &self.locale) {
            Some(v) => {
                proof {
                    assert(names_view(v@)[j as int] == v@[j as int]@);
                }
                find_family(&self.registry, &self.font_keys, &v[j])
            },
            None => {
                proof {
                    assert(false);
                }
                None
            },
        }
    }

    /// Produce the next candidate font, or report exhaustion.
    ///
    /// Exactly the `pos`-th element of `candidates` of the search's inputs
    /// is returned, and `pos` advances past it; once the sequence is used
    /// up, the search is marked ended, and every further call keeps
    /// reporting exhaustion. The inputs are never changed, and the cursor
    /// is pinned as well: exactly one tier's index advances, landing just
    /// past the match after skipping only entries that matched nothing,
    /// while every later tier's index stays put — or, on exhaustion, every
    /// index rests at its tier's end.
    pub fn next(&mut self) -> (r: Option<FontKey>)
        requires
            old(self).wf(),
        ensures
            final(self).wf(),
            final(self).env() == old(self).env(),
            ({
                let cs = candidates(old(self).env());
                let n = old(self).pos();
                &&& (n < cs.len() ==> r == Some(cs[n]))
                &&& (n < cs.len() ==> final(self).pos() == n + 1 && !final(self).end)
                &&& (n >= cs.len() ==> r == None::<FontKey>)
                &&& (n >= cs.len() ==> final(self).end && final(self).pos() == n)
            }),
            r matches Some(k) ==> (default_step(*old(self), *final(self), k) || script_step(
                *old(self),
                *final(self),
                k,
            ) || common_step(*old(self), *final(self), k) || catch_all_step(
                *old(self),
                *final(self),
                k,
            )),
            r is None ==> exhaust_step(*old(self), *final(self)),
            old(self).end ==> r == None::<FontKey> && final(self).end,
    {
        let ghost e = old(self).env();
        let ghost n0 = old(self).pos();

        while self.default_i < self.default_families.len()
            invariant
                self.wf(),
                self.env() == e,
                e == old(self).env(),
                self.pos() == n0,
                n0 == old(self).pos(),
                self.end == old(self).end,
                old(self).default_i <= self.default_i,
                self.script_outer == old(self).script_outer,
                self.script_inner == old(self).script_inner,
                self.common_i == old(self).common_i,
                self.other_i == old(self).other_i,
                families_missed(
                    e.reg,
                    e.keys,
                    e.defaults,
                    old(self).default_i as int,
                    self.default_i as int,
                ),
            decreases self.default_families.len() - self.default_i,
        {
            let i = self.default_i;
            let r = find_family(&self.registry, &self.font_keys, &self.default_families[i]);
            self.default_i = i + 1;
            proof {
                assert(e.defaults[i as int] == self.default_families@[i as int]@);
                assert(r == first_match(e.reg, e.keys, e.defaults[i as int]));
                lemma_fm_step(e.reg, e.keys, e.defaults, i as int);
                lemma_st_take_zero(e, e.scripts);
                if 0 < e.scripts.len() {
                    lemma_fm_take_zero(e.reg, e.keys, self.fams_at(0));
                }
                lemma_fm_take_zero(e.reg, e.keys, e.common);
                lemma_ca_take_zero(e.reg, e.forbidden, e.keys);
                assert(n0 == family_matches(e.reg, e.keys, e.defaults.take(i as int)).len());
            }
            match r {
                Some(k) => {
                    proof {
                        lemma_fm_split(e.reg, e.keys, e.defaults, i as int);
                        assert(unit_match(e.reg, e.keys, e.defaults[i as int]) == seq![k]);
                        let b = family_matches(e.reg, e.keys, e.defaults.take(i as int));
                        assert((b + seq![k])[b.len() as int] == k);
                        assert(default_tier(e)[n0] == k);
                        assert(n0 < default_tier(e).len());
                        assert(candidates(e)[n0] == k);
                        assert(self.pos() == n0 + 1);
                        assert(default_step(*old(self), *self, k));
                    }
                    return Some(k);
                },
                None => {
                    proof {
                        assert(first_match(e.reg, e.keys, e.defaults[i as int]) is None);
                        assert(unit_match(e.reg, e.keys, e.defaults[i as int])
                            == Seq::<FontKey>::empty());
                        assert(family_matches(e.reg, e.keys, e.defaults.take(i as int))
                            + Seq::<FontKey>::empty() =~= family_matches(
                            e.reg,
                            e.keys,
                            e.defaults.take(i as int),
                        ));
                    }
                },
            }
        }

        while self.script_outer < self.scripts.len()
            invariant
                self.wf(),
                self.env() == e,
                e == old(self).env(),
                self.pos() == n0,
                n0 == old(self).pos(),
                self.end == old(self).end,
                self.default_i == self.default_families.len(),
                families_missed(
                    e.reg,
                    e.keys,
                    e.defaults,
                    old(self).default_i as int,
                    e.defaults.len() as int,
                ),
                old(self).script_outer <= self.script_outer,
                (self.script_outer == old(self).script_outer ==> self.script_inner == old(self).script_inner),
                (self.script_outer != old(self).script_outer ==> self.script_inner == 0),
                self.common_i == old(self).common_i,
                self.other_i == old(self).other_i,
                script_range_missed(
                    e,
                    old(self).script_outer as int,
                    old(self).script_inner as int,
                    self.script_outer as int,
                ),
            decreases self.scripts.len() - self.script_outer,
        {
            let o = self.script_outer;
            let ghost start_o: int = if o == old(self).script_outer {
                old(self).script_inner as int
            } else {
                0
            };
            let n_fams = self.script_family_count(o);
            while self.script_inner < n_fams
                invariant
                    self.wf(),
                    self.env() == e,
                    e == old(self).env(),
                    self.pos() == n0,
                    n0 == old(self).pos(),
                    self.end == old(self).end,
                    self.default_i == self.default_families.len(),
                    self.script_outer == o,
                    o < e.scripts.len(),
                    n_fams == self.fams_at(o as int).len(),
                    families_missed(
                        e.reg,
                        e.keys,
                        e.defaults,
                        old(self).default_i as int,
                        e.defaults.len() as int,
                    ),
                    old(self).script_outer <= o,
                    (o == old(self).script_outer ==> start_o == old(self).script_inner as int),
                    (o != old(self).script_outer ==> start_o == 0),
                    start_o <= self.script_inner as int,
                    families_missed(
                        e.reg,
                        e.keys,
                        self.fams_at(o as int),
                        start_o,
                        self.script_inner as int,
                    ),
                    script_range_missed(
                        e,
                        old(self).script_outer as int,
                        old(self).script_inner as int,
                        o as int,
                    ),
                    self.common_i == old(self).common_i,
                    self.other_i == old(self).other_i,
                decreases n_fams - self.script_inner,
            {
                let j = self.script_inner;
                let r = self.find_script_match(o, j);
                self.script_inner = j + 1;
                proof {
                    lemma_fm_step(e.reg, e.keys, self.fams_at(o as int), j as int);
                }
                match r {
                    Some(k) => {
                        proof {
                            lemma_fm_take_all(e.reg, e.keys, e.defaults);
                            lemma_fm_take_zero(e.reg, e.keys, e.common);
                            lemma_ca_take_zero(e.reg, e.forbidden, e.keys);
                            let a = script_tier(e, e.scripts.take(o as int));
                            let b = family_matches(
                                e.reg,
                                e.keys,
                                self.fams_at(o as int).take(j as int),
                            );
                            assert(n0 == default_tier(e).len() + a.len() + b.len());
                            lemma_fm_split(e.reg, e.keys, self.fams_at(o as int), j as int);
                            lemma_st_split(e, e.scripts, o as int);
                            assert(script_unit(e, e.scripts[o as int]) == family_matches(
                                e.reg,
                                e.keys,
                                self.fams_at(o as int),
                            ));
                            assert(unit_match(
                                e.reg,
                                e.keys,
                                self.fams_at(o as int)[j as int],
                            ) == seq![k]);
                            assert((b + seq![k])[b.len() as int] == k);
                            assert(script_unit(e, e.scripts[o as int])[b.len() as int] == k);
                            assert(script_tier(e, e.scripts)[a.len() + b.len() as int] == k);
                            assert(n0 < candidates(e).len());
                            assert(candidates(e)[n0] == k);
                            assert(self.pos() == n0 + 1);
                            assert(old(self).fams_at(o as int) == self.fams_at(o as int));
                            assert(script_step(*old(self), *self, k));
                        }
                        return Some(k);
                    },
                    None => {
                        proof {
                            assert(first_match(
                                e.reg,
                                e.keys,
                                self.fams_at(o as int)[j as int],
                            ) is None);
                            assert(unit_match(e.reg, e.keys, self.fams_at(o as int)[j as int])
                                == Seq::<FontKey>::empty());
                            assert(family_matches(
                                e.reg,
                                e.keys,
                                self.fams_at(o as int).take(j as int),
                            ) + Seq::<FontKey>::empty() =~= family_matches(
                                e.reg,
                                e.keys,
                                self.fams_at(o as int).take(j as int),
                            ));
                        }
                    },
                }
            }
            proof {
                assert forall|o2: int, f2: int|
                    old(self).script_outer <= o2 < o as int + 1 && (if o2 == old(self).script_outer as int {
                        old(self).script_inner as int
                    } else {
                        0
                    }) <= f2 && f2 < script_families(e.table, e.scripts[o2], e.locale).len()
                        implies first_match(
                    e.reg,
                    e.keys,
                    #[trigger] script_families(e.table, e.scripts[o2], e.locale)[f2],
                ) is None by {
                    if o2 == o as int {
                        assert(self.fams_at(o as int) == script_families(
                            e.table,
                            e.scripts[o2],
                            e.locale,
                        ));
                        assert(first_match(e.reg, e.keys, self.fams_at(o as int)[f2]) is None);
                    }
                }
            }
            self.script_outer = o + 1;
            self.script_inner = 0;
            proof {
                lemma_st_step(e, e.scripts, o as int);
                lemma_fm_take_all(e.reg, e.keys, self.fams_at(o as int));
                if self.script_outer < e.scripts.len() {
                    lemma_fm_take_zero(e.reg, e.keys, self.fams_at(self.script_outer as int));
                }
            }
        }

        while self.common_i < self.tables.common.len()
            invariant
                self.wf(),
                self.env() == e,
                e == old(self).env(),
                self.pos() == n0,
                n0 == old(self).pos(),
                self.end == old(self).end,
                self.default_i == self.default_families.len(),
                self.script_outer == self.scripts.len(),
                self.script_inner == 0,
                families_missed(
                    e.reg,
                    e.keys,
                    e.defaults,
                    old(self).default_i as int,
                    e.defaults.len() as int,
                ),
                script_range_missed(
                    e,
                    old(self).script_outer as int,
                    old(self).script_inner as int,
                    e.scripts.len() as int,
                ),
                old(self).common_i <= self.common_i,
                families_missed(
                    e.reg,
                    e.keys,
                    e.common,
                    old(self).common_i as int,
                    self.common_i as int,
                ),
                self.other_i == old(self).other_i,
            decreases self.tables.common.len() - self.common_i,
        {
            let i = self.common_i;
            let r = find_family(&self.registry, &self.font_keys, &self.tables.common[i]);
            self.common_i = i + 1;
            proof {
                assert(e.common[i as int] == self.tables.common@[i as int]@);
                assert(r == first_match(e.reg, e.keys, e.common[i as int]));
                lemma_fm_step(e.reg, e.keys, e.common, i as int);
            }
            match r {
                Some(k) => {
                    proof {
                        lemma_fm_take_all(e.reg, e.keys, e.defaults);
                        lemma_st_take_all(e, e.scripts);
                        lemma_ca_take_zero(e.reg, e.forbidden, e.keys);
                        let b = family_matches(e.reg, e.keys, e.common.take(i as int));
                        assert(n0 == default_tier(e).len() + script_tier(e, e.scripts).len()
                            + b.len());
                        lemma_fm_split(e.reg, e.keys, e.common, i as int);
                        assert(unit_match(e.reg, e.keys, e.common[i as int]) == seq![k]);
                        assert((b + seq![k])[b.len() as int] == k);
                        assert(common_tier(e)[b.len() as int] == k);
                        assert(n0 < candidates(e).len());
                        assert(candidates(e)[n0] == k);
                        assert(self.pos() == n0 + 1);
                        assert(common_step(*old(self), *self, k));
                    }
                    return Some(k);
                },
                None => {
                    proof {
                        assert(first_match(e.reg, e.keys, e.common[i as int]) is None);
                        assert(unit_match(e.reg, e.keys, e.common[i as int])
                            == Seq::<FontKey>::empty());
                        assert(family_matches(e.reg, e.keys, e.common.take(i as int))
                            + Seq::<FontKey>::empty() =~= family_matches(
                            e.reg,
                            e.keys,
                            e.common.take(i as int),
                        ));
                    }
                },
            }
        }

        while self.other_i < self.font_keys.len()
            invariant
                self.wf(),
                self.env() == e,
                e == old(self).env(),
                self.pos() == n0,
                n0 == old(self).pos(),
                self.end == old(self).end,
                self.default_i == self.default_families.len(),
                self.script_outer == self.scripts.len(),
                self.script_inner == 0,
                self.common_i == self.tables.common.len(),
                families_missed(
                    e.reg,
                    e.keys,
                    e.defaults,
                    old(self).default_i as int,
                    e.defaults.len() as int,
                ),
                script_range_missed(
                    e,
                    old(self).script_outer as int,
                    old(self).script_inner as int,
                    e.scripts.len() as int,
                ),
                families_missed(
                    e.reg,
                    e.keys,
                    e.common,
                    old(self).common_i as int,
                    e.common.len() as int,
                ),
                old(self).other_i <= self.other_i,
                keys_all_forbidden(
                    e.reg,
                    e.forbidden,
                    e.keys,
                    old(self).other_i as int,
                    self.other_i as int,
                ),
            decreases self.font_keys.len() - self.other_i,
        {
            let i = self.other_i;
            let key = self.font_keys[i];
            proof {
                assert(key == e.keys[i as int]);
                assert(key_ok(e.reg, key));
                assert(fam_of(e.reg, key) == self.registry.fonts@[key.idx as int].family@);
            }
            let forbidden_hit = contains_name(
                &self.tables.forbidden,
                &self.registry.fonts[key.idx].family,
            );
            self.other_i = i + 1;
            proof {
                lemma_ca_step(e.reg, e.forbidden, e.keys, i as int);
            }
            if !forbidden_hit {
                proof {
                    lemma_fm_take_all(e.reg, e.keys, e.defaults);
                    lemma_st_take_all(e, e.scripts);
                    lemma_fm_take_all(e.reg, e.keys, e.common);
                    let b = catch_all_tier(e.reg, e.keys.take(i as int), e.forbidden);
                    assert(n0 == default_tier(e).len() + script_tier(e, e.scripts).len()
                        + common_tier(e).len() + b.len());
                    lemma_ca_split(e.reg, e.forbidden, e.keys, i as int);
                    assert(unit_allowed(e.reg, e.forbidden, key) == seq![key]);
                    assert((b + seq![key])[b.len() as int] == key);
                    assert(catch_all_tier(e.reg, e.keys, e.forbidden)[b.len() as int] == key);
                    assert(n0 < candidates(e).len());
                    assert(candidates(e)[n0] == key);
                    assert(self.pos() == n0 + 1);
                    assert(catch_all_step(*old(self), *self, key));
                }
                return Some(key);
            }
            proof {
                assert(e.forbidden.contains(fam_of(e.reg, key)));
                assert(unit_allowed(e.reg, e.forbidden, key) == Seq::<FontKey>::empty());
                assert(catch_all_tier(e.reg, e.keys.take(i as int), e.forbidden)
                    + Seq::<FontKey>::empty() =~= catch_all_tier(
                    e.reg,
                    e.keys.take(i as int),
                    e.forbidden,
                ));
            }
        }

        self.end = true;
        proof {
            lemma_fm_take_all(e.reg, e.keys, e.defaults);
            lemma_st_take_all(e, e.scripts);
            lemma_fm_take_all(e.reg, e.keys, e.common);
            lemma_ca_take_all(e.reg, e.forbidden, e.keys);
            assert(n0 == candidates(e).len());
            assert(exhaust_step(*old(self), *self));
        }
        None
    }

    /// The diagnostic content after the search stalled: exhaustion with
    /// nothing found; a catch-all font used in place of any preset
    /// fallback; or, on a run with scripts, the common family last tried.
    /// Reads the state and never changes it.
    pub fn check_missing(&self) -> (r: Option<FallbackDiagnostic>)
        requires
            self.wf(),
        ensures
            ({
                let e = self.env();
                if self.end {
                    r == Some(FallbackDiagnostic::NoFallback)
                } else if self.other_i > 0 {
                    r matches Some(FallbackDiagnostic::UsedCatchAll { family }) && family@
                        == fam_of(e.reg, e.keys[self.other_i as int - 1])
                } else if e.scripts.len() > 0 && self.common_i > 0 {
                    r matches Some(FallbackDiagnostic::UsedCommon { family }) && family@
                        == e.common[self.common_i as int - 1]
                } else {
                    r == None::<FallbackDiagnostic>
                }
            }),
    {
        if self.end {
            Some(FallbackDiagnostic::NoFallback)
        } else if self.other_i > 0 {
            let key = self.font_keys[self.other_i - 1];
            proof {
                assert(key == self.env().keys[self.other_i as int - 1]);
                assert(key_ok(self.env().reg, key));
                assert(fam_of(self.env().reg, key) == self.registry.fonts@[key.idx as int].family@);
            }
            let family = self.registry.fonts[key.idx].family.clone();
            Some(FallbackDiagnostic::UsedCatchAll { family })
        } else if self.scripts.len() > 0 && self.common_i > 0 {
            proof {
                assert(self.env().common[self.common_i as int - 1] == self.tables.common@[
                    self.common_i as int - 1]@);
            }
            let family = self.tables.common[self.common_i - 1].clone();
            Some(FallbackDiagnostic::UsedCommon { family })
        } else {
            None
        }
    }
}

proof fn lemma_fm_take_zero(reg: Seq<Seq<char>>, keys: Seq<FontKey>, fams: Seq<Seq<char>>)
    ensures
        family_matches(reg, keys, fams.take(0)) == Seq::<FontKey>::empty(),
{
    assert(fams.take(0) =~= Seq::<Seq<char>>::empty());
}

proof fn lemma_st_take_zero(e: SearchEnv, scripts: Seq<ScriptTag>)
    ensures
        script_tier(e, scripts.take(0)) == Seq::<FontKey>::empty(),
{
    assert(scripts.take(0) =~= Seq::<ScriptTag>::empty());
}

proof fn lemma_ca_take_zero(reg: Seq<Seq<char>>, forbidden: Seq<Seq<char>>, keys: Seq<FontKey>)
    ensures
        catch_all_tier(reg, keys.take(0), forbidden) == Seq::<FontKey>::empty(),
{
    assert(keys.take(0) =~= Seq::<FontKey>::empty());
}

proof fn lemma_fm_take_all(reg: Seq<Seq<char>>, keys: Seq<FontKey>, fams: Seq<Seq<char>>)
    ensures
        family_matches(reg, keys, fams.take(fams.len() as int)) == family_matches(reg, keys, fams),
{
    assert(fams.take(fams.len() as int) =~= fams);
}

proof fn lemma_st_take_all(e: SearchEnv, scripts: Seq<ScriptTag>)
    ensures
        script_tier(e, scripts.take(scripts.len() as int)) == script_tier(e, scripts),
{
    assert(scripts.take(scripts.len() as int) =~= scripts);
}

proof fn lemma_ca_take_all(reg: Seq<Seq<char>>, forbidden: Seq<Seq<char>>, keys: Seq<FontKey>)
    ensures
        catch_all_tier(reg, keys.take(keys.len() as int), forbidden) == catch_all_tier(
            reg,
            keys,
            forbidden,
        ),
{
    assert(keys.take(keys.len() as int) =~= keys);
}

} // verus!
