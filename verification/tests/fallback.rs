use font_fallback::model::FallbackTables;
use font_fallback::model::FontKey;
use font_fallback::model::FontRecord;
use font_fallback::model::FontRegistry;
use font_fallback::model::LocaleFamilies;
use font_fallback::model::ScriptFamilies;
use font_fallback::model::ScriptTag;
use font_fallback::search::FallbackDiagnostic;
use font_fallback::search::FontFallbackIter;

const ARABIC: ScriptTag = ScriptTag { code: 1 };
const HAN: ScriptTag = ScriptTag { code: 2 };

fn registry_of(families: &[&str]) -> (FontRegistry, Vec<FontKey>) {
    let mut fonts = Vec::new();
    let mut keys = Vec::new();
    for (i, fam) in families.iter().enumerate() {
        fonts.push(FontRecord {
            family: fam.to_string(),
        });
        keys.push(FontKey { idx: i });
    }
    (FontRegistry { fonts }, keys)
}

fn strings(names: &[&str]) -> Vec<String> {
    names.iter().map(|n| n.to_string()).collect()
}

fn no_tables() -> FallbackTables {
    FallbackTables {
        script_table: Vec::new(),
        common: Vec::new(),
        forbidden: Vec::new(),
    }
}

fn arabic_tables() -> FallbackTables {
    FallbackTables {
        script_table: vec![ScriptFamilies {
            script: ARABIC,
            overrides: vec![LocaleFamilies {
                locale: "ar".to_string(),
                families: strings(&["NotoSansArabic"]),
            }],
            families: strings(&["FallbackArabic"]),
        }],
        common: Vec::new(),
        forbidden: Vec::new(),
    }
}

fn drain(it: &mut FontFallbackIter) -> Vec<FontKey> {
    let mut out = Vec::new();
    while let Some(k) = it.next() {
        out.push(k);
    }
    out
}

#[test]
fn default_family_matches_first() {
    let (reg, keys) = registry_of(&["Helvetica", "NotoSansArabic"]);
    let mut it = FontFallbackIter::new(
        reg,
        keys,
        strings(&["Helvetica"]),
        Vec::new(),
        "en".to_string(),
        no_tables(),
    );
    assert_eq!(it.next(), Some(FontKey { idx: 0 }));
    // The cursor advanced exactly past the matched default family and no
    // later tier moved.
    assert_eq!(it.default_i, 1);
    assert_eq!((it.script_outer, it.script_inner), (0, 0));
    assert_eq!(it.common_i, 0);
    assert_eq!(it.other_i, 0);
}

#[test]
fn script_tier_serves_after_default_miss() {
    let (reg, keys) = registry_of(&["Helvetica", "NotoSansArabic"]);
    let mut it = FontFallbackIter::new(
        reg,
        keys,
        strings(&["Arial"]),
        vec![ARABIC],
        "ar".to_string(),
        arabic_tables(),
    );
    assert_eq!(it.next(), Some(FontKey { idx: 1 }));
    // The unmatched default was consumed within the same call, and the
    // script cursor rests just past the matched family of the first
    // script, not on the next script.
    assert_eq!(it.default_i, 1);
    assert_eq!((it.script_outer, it.script_inner), (0, 1));
    assert_eq!(it.common_i, 0);
    assert_eq!(it.other_i, 0);
}

#[test]
fn script_entry_families_used_when_no_override_locale_matches() {
    let (reg, keys) = registry_of(&["FallbackArabic", "NotoSansArabic"]);
    let mut it = FontFallbackIter::new(
        reg,
        keys,
        Vec::new(),
        vec![ARABIC],
        "en".to_string(),
        arabic_tables(),
    );
    // Locale "en" matches no override exactly, so the entry's own list is
    // used and "FallbackArabic" wins over "NotoSansArabic".
    assert_eq!(it.next(), Some(FontKey { idx: 0 }));
}

#[test]
fn common_tier_matches_and_leaves_diagnostic_silent() {
    let (reg, keys) = registry_of(&["DejaVu Sans"]);
    let mut tables = no_tables();
    tables.common = strings(&["DejaVu Sans"]);
    let mut it = FontFallbackIter::new(
        reg,
        keys,
        Vec::new(),
        Vec::new(),
        "en".to_string(),
        tables,
    );
    assert_eq!(it.next(), Some(FontKey { idx: 0 }));
    // A match occurred, the run had no scripts and the catch-all tier was
    // never entered: no diagnostic is triggered.
    assert_eq!(it.check_missing(), None);
}

#[test]
fn all_forbidden_reports_exhaustion() {
    let (reg, keys) = registry_of(&["Blocked One", "Blocked Two"]);
    let mut tables = no_tables();
    tables.forbidden = strings(&["Blocked One", "Blocked Two"]);
    let mut it = FontFallbackIter::new(
        reg,
        keys,
        Vec::new(),
        Vec::new(),
        "en".to_string(),
        tables,
    );
    assert_eq!(it.next(), None);
    assert_eq!(it.check_missing(), Some(FallbackDiagnostic::NoFallback));
}

#[test]
fn exhaustion_is_idempotent() {
    let (reg, keys) = registry_of(&["Blocked One"]);
    let mut tables = no_tables();
    tables.forbidden = strings(&["Blocked One"]);
    let mut it = FontFallbackIter::new(
        reg,
        keys,
        strings(&["Arial"]),
        Vec::new(),
        "en".to_string(),
        tables,
    );
    assert_eq!(it.next(), None);
    assert_eq!(it.next(), None);
    assert_eq!(it.next(), None);
    assert_eq!(it.check_missing(), Some(FallbackDiagnostic::NoFallback));
}

#[test]
fn identical_inputs_give_identical_sequences() {
    let build = || {
        let (reg, keys) = registry_of(&["Alpha", "Beta", "Gamma"]);
        let mut tables = arabic_tables();
        tables.common = strings(&["Beta"]);
        tables.forbidden = strings(&["Gamma"]);
        FontFallbackIter::new(
            reg,
            keys,
            strings(&["Alpha"]),
            vec![ARABIC],
            "ar".to_string(),
            tables,
        )
    };
    let mut a = build();
    let mut b = build();
    assert_eq!(drain(&mut a), drain(&mut b));
}

#[test]
fn defaults_precede_script_candidates() {
    let (reg, keys) = registry_of(&["NotoSansArabic", "Helvetica"]);
    let mut it = FontFallbackIter::new(
        reg,
        keys,
        strings(&["Helvetica"]),
        vec![ARABIC],
        "ar".to_string(),
        arabic_tables(),
    );
    // "Helvetica" is an explicit default; although the Arabic font stands
    // first in the eligible list, the default tier is served first.
    let got = drain(&mut it);
    assert_eq!(
        got,
        vec![
            FontKey { idx: 1 }, // default tier: Helvetica
            FontKey { idx: 0 }, // script tier: NotoSansArabic
            FontKey { idx: 0 }, // catch-all tier, in eligible order
            FontKey { idx: 1 },
        ]
    );
}

#[test]
fn scripts_tried_in_run_order_families_in_table_order() {
    let (reg, keys) = registry_of(&["Han B", "Arabic B", "Arabic A", "Han A"]);
    let tables = FallbackTables {
        script_table: vec![
            ScriptFamilies {
                script: ARABIC,
                overrides: Vec::new(),
                families: strings(&["Arabic A", "Arabic B"]),
            },
            ScriptFamilies {
                script: HAN,
                overrides: Vec::new(),
                families: strings(&["Han A", "Han B"]),
            },
        ],
        common: Vec::new(),
        forbidden: strings(&["Han B", "Arabic B", "Arabic A", "Han A"]),
    };
    let mut it = FontFallbackIter::new(
        reg,
        keys,
        Vec::new(),
        vec![HAN, ARABIC],
        "en".to_string(),
        tables,
    );
    // The run lists Han before Arabic, and each script's families follow
    // the platform table order; the catch-all tier is fully forbidden.
    let got = drain(&mut it);
    assert_eq!(
        got,
        vec![
            FontKey { idx: 3 }, // Han A
            FontKey { idx: 0 }, // Han B
            FontKey { idx: 2 }, // Arabic A
            FontKey { idx: 1 }, // Arabic B
        ]
    );
}

#[test]
fn catch_all_skips_forbidden_and_reports_family_used() {
    let (reg, keys) = registry_of(&["Blocked One", "Plain"]);
    let mut tables = no_tables();
    tables.forbidden = strings(&["Blocked One"]);
    let mut it = FontFallbackIter::new(
        reg,
        keys,
        strings(&["Arial"]),
        Vec::new(),
        "en".to_string(),
        tables,
    );
    assert_eq!(it.next(), Some(FontKey { idx: 1 }));
    assert_eq!(
        it.check_missing(),
        Some(FallbackDiagnostic::UsedCatchAll {
            family: "Plain".to_string()
        })
    );
}

#[test]
fn common_family_reported_when_script_fallback_missed() {
    let (reg, keys) = registry_of(&["DejaVu Sans"]);
    let mut tables = arabic_tables();
    tables.common = strings(&["DejaVu Sans"]);
    let mut it = FontFallbackIter::new(
        reg,
        keys,
        Vec::new(),
        vec![ARABIC],
        "ar".to_string(),
        tables,
    );
    // No Arabic fallback family is eligible, so the common tier serves.
    assert_eq!(it.next(), Some(FontKey { idx: 0 }));
    assert_eq!(
        it.check_missing(),
        Some(FallbackDiagnostic::UsedCommon {
            family: "DejaVu Sans".to_string()
        })
    );
}

#[test]
fn no_deduplication_across_tiers() {
    let (reg, keys) = registry_of(&["Helvetica"]);
    let mut it = FontFallbackIter::new(
        reg,
        keys,
        strings(&["Helvetica"]),
        Vec::new(),
        "en".to_string(),
        no_tables(),
    );
    // A font taken by the default tier is evaluated again — and returned
    // again — by the catch-all tier: deduplication across tiers is
    // deliberately not provided.
    assert_eq!(drain(&mut it), vec![FontKey { idx: 0 }, FontKey { idx: 0 }]);
}

#[test]
fn empty_inputs_exhaust_immediately() {
    let (reg, keys) = registry_of(&[]);
    let mut it = FontFallbackIter::new(
        reg,
        keys,
        Vec::new(),
        Vec::new(),
        "en".to_string(),
        no_tables(),
    );
    assert_eq!(it.next(), None);
    assert_eq!(it.check_missing(), Some(FallbackDiagnostic::NoFallback));
}

#[test]
fn registry_resolves_only_registered_keys() {
    let (reg, _) = registry_of(&["Helvetica"]);
    let rec = reg.record(FontKey { idx: 0 });
    assert!(rec.is_some());
    assert_eq!(rec.unwrap().family, "Helvetica");
    assert!(reg.record(FontKey { idx: 1 }).is_none());
}

#[test]
fn second_default_serves_after_first_misses() {
    let (reg, keys) = registry_of(&["Georgia", "Times"]);
    let mut it = FontFallbackIter::new(
        reg,
        keys,
        strings(&["Arial", "Times"]),
        Vec::new(),
        "en".to_string(),
        no_tables(),
    );
    assert_eq!(it.next(), Some(FontKey { idx: 1 }));
}

#[test]
fn locale_override_selects_specific_families() {
    let (reg, keys) = registry_of(&["Noto Sans CJK JP", "Noto Sans CJK SC"]);
    let tables = FallbackTables {
        script_table: vec![ScriptFamilies {
            script: HAN,
            overrides: vec![LocaleFamilies {
                locale: "zh-CN".to_string(),
                families: strings(&["Noto Sans CJK SC"]),
            }],
            families: strings(&["Noto Sans CJK JP"]),
        }],
        common: Vec::new(),
        forbidden: Vec::new(),
    };
    let mut it = FontFallbackIter::new(
        reg,
        keys,
        Vec::new(),
        vec![HAN],
        "zh-CN".to_string(),
        tables,
    );
    assert_eq!(it.next(), Some(FontKey { idx: 1 }));
}

#[test]
fn four_tiers_serve_in_strict_priority_order() {
    let (reg, keys) = registry_of(&["Extra", "DejaVu Sans", "NotoSansArabic", "Helvetica"]);
    let tables = FallbackTables {
        script_table: vec![ScriptFamilies {
            script: ARABIC,
            overrides: Vec::new(),
            families: strings(&["NotoSansArabic"]),
        }],
        common: strings(&["DejaVu Sans"]),
        forbidden: strings(&["Extra"]),
    };
    let mut it = FontFallbackIter::new(
        reg,
        keys,
        strings(&["Helvetica"]),
        vec![ARABIC],
        "ar".to_string(),
        tables,
    );
    assert_eq!(
        drain(&mut it),
        vec![
            FontKey { idx: 3 }, // default tier: Helvetica
            FontKey { idx: 2 }, // script tier: NotoSansArabic
            FontKey { idx: 1 }, // common tier: DejaVu Sans
            FontKey { idx: 1 }, // catch-all, eligible order, "Extra" skipped
            FontKey { idx: 2 },
            FontKey { idx: 3 },
        ]
    );
    assert_eq!(it.check_missing(), Some(FallbackDiagnostic::NoFallback));
}

#[test]
fn first_eligible_font_wins_among_equal_families() {
    let (reg, keys) = registry_of(&["Twin", "Twin"]);
    let mut it = FontFallbackIter::new(
        reg,
        keys,
        strings(&["Twin"]),
        Vec::new(),
        "en".to_string(),
        no_tables(),
    );
    assert_eq!(it.next(), Some(FontKey { idx: 0 }));
}
