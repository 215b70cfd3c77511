//! The chip database: the families and chips that probe-rs knows, and the
//! sorted, de-duplicated lists of targets the user picks from.
//!
//! Names are ordered by their ASCII-lowercase form; of several names that are
//! equal ignoring ASCII case only the first (in database order) is listed.

use vstd::prelude::*;
use crate::models::{TargetInfo, TargetInfoView, strings_view};
use crate::order::{
    by_key, lemma_filter_dedup, lemma_filter_stable_sort, lemma_filter_values, lemma_sort_dedup, lemma_stable_sort_sorted, seq_lt, dedup_by_key, dedup_keys, keyed_view, reverse_vec, stable_sort, stable_sort_by_key, values_of,
};
use crate::text::{
    chars_of, contains, has_infix, lemma_trim_lower, lemma_trim_spaces_around, lemma_trim_upper, lower_seq, to_ascii_lowercase,
    trim, trim_ws, upper_seq,
};

verus! {

/// One chip of a family, as plain values.
#[derive(Debug)]
pub struct ChipVariant {
    pub name: String,
    /// The `Debug` rendering of the type of each core, in order.
    pub core_types: Vec<String>,
    pub package_variants: Vec<String>,
}

/// One chip family, as plain values.
#[derive(Debug)]
pub struct ChipFamilyEntry {
    pub name: String,
    pub variants: Vec<ChipVariant>,
}

/// The name of the `i`-th of probe-rs's generic families.
pub open spec fn generic_family_name(i: int) -> Seq<char> {
    if i == 0 {
        "Generic ARMv6-M"@
    } else if i == 1 {
        "Generic ARMv7-M"@
    } else if i == 2 {
        "Generic ARMv7E-M"@
    } else if i == 3 {
        "Generic ARMv8-M"@
    } else if i == 4 {
        "Generic RISC-V"@
    } else {
        "Generic RISC-V 64-bit"@
    }
}

/// The chips of the `i`-th generic family: each chip's name and the `Debug`
/// text of its one core's type.
pub open spec fn generic_chips(i: int) -> Seq<(Seq<char>, Seq<char>)> {
    if i == 0 {
        seq![("Cortex-M0"@, "Armv6m"@), ("Cortex-M0+"@, "Armv6m"@), ("Cortex-M1"@, "Armv6m"@)]
    } else if i == 1 {
        seq![("Cortex-M3"@, "Armv7m"@)]
    } else if i == 2 {
        seq![("Cortex-M4"@, "Armv7em"@), ("Cortex-M7"@, "Armv7em"@)]
    } else if i == 3 {
        seq![("Cortex-M23"@, "Armv8m"@), ("Cortex-M33"@, "Armv8m"@), ("Cortex-M35P"@, "Armv8m"@), ("Cortex-M55"@, "Armv8m"@)]
    } else if i == 4 {
        seq![("riscv"@, "Riscv"@)]
    } else {
        seq![("riscv64"@, "Riscv64"@)]
    }
}

/// `f` is the `i`-th generic family: its name, and its chips in order, each
/// with one core of the given type and no package variants.
pub open spec fn is_generic_family(f: ChipFamilyEntry, i: int) -> bool {
    &&& f.name@ == generic_family_name(i)
    &&& f.variants@.len() == generic_chips(i).len()
    &&& forall|j: int|
        0 <= j < f.variants@.len() ==> {
            let c = #[trigger] f.variants@[j];
            &&& c.name@ == generic_chips(i)[j].0
            &&& strings_view(c.core_types@) == seq![generic_chips(i)[j].1]
            &&& c.package_variants@.len() == 0
        }
}

/// The family list ends with probe-rs's six generic families, in order.
pub open spec fn ends_with_generic_families(fams: Seq<ChipFamilyEntry>) -> bool {
    &&& fams.len() >= 6
    &&& forall|i: int| 0 <= i < 6 ==> is_generic_family(#[trigger] fams[fams.len() - 6 + i], i)
}

/// The chip families of probe-rs's builtin target database
/// (`probe_rs::config::Registry::from_builtin_families` and `families`),
/// each chip given by its name, the `Debug` text of its cores' types and its
/// package variants.
///
/// `from_builtin_families` copies the families loaded from the bundled
/// database (which other code may extend at run time) and then appends
/// probe-rs's six generic ARM and RISC-V families; only those last six are
/// stated.  Which chips come before them is left unsaid.
#[verifier::external_body]
pub(crate) fn builtin_families() -> (r: Vec<ChipFamilyEntry>)
    ensures
        ends_with_generic_families(r@),
{
    let registry = probe_rs::config::Registry::from_builtin_families();
    registry.families().iter().map(|family| ChipFamilyEntry {
        name: family.name.clone(),
        variants: family.variants.iter().map(|chip| ChipVariant {
            name: chip.name.clone(),
            core_types: chip.cores.iter().map(|core| format!("{:?}", core.core_type)).collect(),
            package_variants: chip.package_variants.clone(),
        }).collect(),
    }).collect()
}

/// The architecture shown for a chip: the type of its first core, or
/// `Unknown` for a chip without cores.
pub open spec fn architecture_of(chip: ChipVariant) -> Seq<char> {
    if chip.core_types@.len() > 0 {
        chip.core_types@[0]@
    } else {
        "Unknown"@
    }
}

/// The target record of a chip of the family named `family`.
pub open spec fn target_of(family: Seq<char>, chip: ChipVariant) -> TargetInfoView {
    TargetInfoView {
        name: chip.name@,
        family,
        architecture: architecture_of(chip),
        aliases: strings_view(chip.package_variants@),
    }
}

/// The target records of a family's chips, in order.
pub open spec fn family_targets(f: ChipFamilyEntry) -> Seq<TargetInfoView> {
    f.variants@.map_values(|c: ChipVariant| target_of(f.name@, c))
}

/// The target records of all chips of all families, in database order.
pub open spec fn all_targets(fams: Seq<ChipFamilyEntry>) -> Seq<TargetInfoView>
    decreases fams.len(),
{
    if fams.len() == 0 {
        Seq::empty()
    } else {
        all_targets(fams.drop_last()) + family_targets(fams.last())
    }
}

/// Target records keyed by their ASCII-lowercase name.
pub open spec fn keyed_targets(ts: Seq<TargetInfoView>) -> Seq<(Seq<char>, TargetInfoView)> {
    ts.map_values(|t: TargetInfoView| (lower_seq(t.name), t))
}

/// The target list: all chips' records, stably sorted by lowercase name, the
/// first kept of each group of names equal ignoring ASCII case.
pub open spec fn target_list(fams: Seq<ChipFamilyEntry>) -> Seq<TargetInfoView> {
    values_of(dedup_keys(stable_sort(keyed_targets(all_targets(fams)))))
}

/// The architecture text of a chip.
fn architecture(chip: &ChipVariant) -> (r: String)
    ensures
        r@ == architecture_of(*chip),
{
    if chip.core_types.len() > 0 {
        chip.core_types[0].clone()
    } else {
        "Unknown".to_owned()
    }
}

/// The target records of `families`, keyed by lowercase name, in database
/// order.
fn keyed_target_records(families: Vec<ChipFamilyEntry>) -> (r: Vec<(Vec<char>, TargetInfo)>)
    ensures
        keyed_view(r@) == keyed_targets(all_targets(families@)),
{
    let ghost f0 = families@;
    let nf = families.len();
    let mut fams = reverse_vec(families);
    let mut out: Vec<(Vec<char>, TargetInfo)> = Vec::new();
    let mut k: usize = 0;
    assert(f0.take(0) =~= Seq::<ChipFamilyEntry>::empty());
    while fams.len() > 0
        invariant
            nf == f0.len(),
            k + fams.len() == nf,
            forall|m: int| 0 <= m < fams.len() ==> #[trigger] fams@[m] == f0[nf - 1 - m],
            keyed_view(out@) == keyed_targets(all_targets(f0.take(k as int))),
        decreases fams.len(),
    {
        let ghost before = fams@;
        let family = fams.pop().unwrap();
        assert(family == f0[k as int]) by {
            assert(before[before.len() - 1] == family);
        }
        assert(forall|m: int| 0 <= m < fams.len() ==> fams@[m] == before[m]);
        let ghost fam_targets = family_targets(family);
        let ghost out0 = keyed_view(out@);
        let fam_name = family.name;
        let ghost fname = fam_name@;
        let nv = family.variants.len();
        let ghost v0 = family.variants@;
        let mut chips = reverse_vec(family.variants);
        let mut c: usize = 0;
        assert(keyed_targets(fam_targets.take(0)) =~= Seq::<(Seq<char>, TargetInfoView)>::empty());
        assert(out0 + keyed_targets(fam_targets.take(0)) =~= out0);
        while chips.len() > 0
            invariant
                nv == v0.len(),
                c + chips.len() == nv,
                fam_name@ == fname,
                fam_targets == v0.map_values(|ch: ChipVariant| target_of(fname, ch)),
                forall|m: int| 0 <= m < chips.len() ==> #[trigger] chips@[m] == v0[nv - 1 - m],
                keyed_view(out@) == out0 + keyed_targets(fam_targets.take(c as int)),
            decreases chips.len(),
        {
            let ghost cbefore = chips@;
            let chip = chips.pop().unwrap();
            assert(chip == v0[c as int]) by {
                assert(cbefore[cbefore.len() - 1] == chip);
            }
            assert(forall|m: int| 0 <= m < chips.len() ==> chips@[m] == cbefore[m]);
            let key = chars_of(to_ascii_lowercase(chip.name.as_str()).as_str());
            let arch = architecture(&chip);
            let record = TargetInfo {
                name: chip.name,
                family: fam_name.clone(),
                architecture: arch,
                aliases: chip.package_variants,
            };
            let ghost prev = keyed_view(out@);
            out.push((key, record));
            proof {
                assert(record@ == target_of(fname, chip));
                assert(fam_targets.take(c + 1) =~= fam_targets.take(c as int).push(fam_targets[c as int]));
                assert(keyed_view(out@) =~= prev.push((lower_seq(record@.name), record@)));
                assert(keyed_targets(fam_targets.take(c + 1)) =~= keyed_targets(fam_targets.take(c as int)).push(
                    (lower_seq(fam_targets[c as int].name), fam_targets[c as int]),
                ));
                assert(keyed_view(out@) =~= out0 + keyed_targets(fam_targets.take(c + 1)));
            }
            c = c + 1;
        }
        proof {
            assert(fam_targets.take(nv as int) =~= fam_targets);
            assert(f0.take(k + 1).drop_last() =~= f0.take(k as int));
            assert(f0.take(k + 1).last() == family);
            assert(keyed_targets(all_targets(f0.take(k + 1))) =~= keyed_targets(all_targets(f0.take(k as int)))
                + keyed_targets(fam_targets));
        }
        k = k + 1;
    }
    assert(f0.take(nf as int) =~= f0);
    out
}

/// The target list of the given chip families: every chip's record, stably
/// sorted by ASCII-lowercase name, of names equal ignoring ASCII case only
/// the first kept.
pub fn targets_from_families(families: Vec<ChipFamilyEntry>) -> (r: Vec<TargetInfo>)
    ensures
        r@.map_values(|t: TargetInfo| t@) == target_list(families@),
{
    let mut keyed = keyed_target_records(families);
    stable_sort_by_key(&mut keyed);
    dedup_by_key(keyed)
}

/// The target list is in strictly increasing order of ASCII-lowercase name:
/// it is sorted, and no two listed names are equal ignoring ASCII case.
pub proof fn lemma_target_list_sorted(fams: Seq<ChipFamilyEntry>)
    ensures
        forall|i: int, j: int|
            0 <= i < j < target_list(fams).len() ==> seq_lt(
                lower_seq(#[trigger] target_list(fams)[i].name),
                lower_seq(#[trigger] target_list(fams)[j].name),
            ),
{
    let s = keyed_targets(all_targets(fams));
    let d = dedup_keys(stable_sort(s));
    lemma_sort_dedup(s);
    assert forall|i: int, j: int| 0 <= i < j < target_list(fams).len() implies seq_lt(
        lower_seq(#[trigger] target_list(fams)[i].name),
        lower_seq(#[trigger] target_list(fams)[j].name),
    ) by {
        assert(s.contains(d[i]) && s.contains(d[j]));
        let a = choose|a: int| 0 <= a < s.len() && s[a] == d[i];
        let b = choose|b: int| 0 <= b < s.len() && s[b] == d[j];
        assert(seq_lt(d[i].0, d[j].0));
    }
}

/// Every listed target is the record of a chip in the database, and every
/// chip in the database has a listed target of the same ASCII-lowercase name.
pub proof fn lemma_target_list_complete(fams: Seq<ChipFamilyEntry>)
    ensures
        forall|i: int| 0 <= i < target_list(fams).len() ==> all_targets(fams).contains(#[trigger] target_list(fams)[i]),
        forall|k: int| 0 <= k < all_targets(fams).len() ==> exists|i: int| 0 <= i < target_list(fams).len()
            && lower_seq(#[trigger] target_list(fams)[i].name) == lower_seq(#[trigger] all_targets(fams)[k].name),
{
    let all = all_targets(fams);
    let s = keyed_targets(all);
    let d = dedup_keys(stable_sort(s));
    lemma_sort_dedup(s);
    assert forall|i: int| 0 <= i < target_list(fams).len() implies all.contains(#[trigger] target_list(fams)[i]) by {
        assert(s.contains(d[i]));
        let a = choose|a: int| 0 <= a < s.len() && s[a] == d[i];
        assert(all[a] == d[i].1);
    }
    assert forall|k: int| 0 <= k < all.len() implies exists|i: int| 0 <= i < target_list(fams).len()
        && lower_seq(#[trigger] target_list(fams)[i].name) == lower_seq(#[trigger] all[k].name) by {
        assert(s[k].0 == lower_seq(all[k].name));
        let i = choose|i: int| 0 <= i < d.len() && #[trigger] d[i].0 == s[k].0;
        assert(s.contains(d[i]));
        let a = choose|a: int| 0 <= a < s.len() && s[a] == d[i];
        assert(target_list(fams)[i] == d[i].1);
    }
}

// ---------------------------------------------------------------------------
// Searching names
// ---------------------------------------------------------------------------

/// The names of all chips of all families, in database order.
pub open spec fn chip_names(fams: Seq<ChipFamilyEntry>) -> Seq<Seq<char>>
    decreases fams.len(),
{
    if fams.len() == 0 {
        Seq::empty()
    } else {
        chip_names(fams.drop_last()) + fams.last().variants@.map_values(|c: ChipVariant| c.name@)
    }
}

/// A name matches a (lowercase, trimmed) query when the query is empty or
/// occurs in the name's lowercase form.
pub open spec fn name_matches(name: Seq<char>, query: Seq<char>) -> bool {
    query.len() == 0 || has_infix(lower_seq(name), query)
}

/// The matching names, keyed by lowercase name, in the given order.
pub open spec fn keyed_matches(names: Seq<Seq<char>>, query: Seq<char>) -> Seq<(Seq<char>, Seq<char>)>
    decreases names.len(),
{
    if names.len() == 0 {
        Seq::empty()
    } else if name_matches(names.last(), query) {
        keyed_matches(names.drop_last(), query).push((lower_seq(names.last()), names.last()))
    } else {
        keyed_matches(names.drop_last(), query)
    }
}

/// The chip names matching `query` (trimmed and lower-cased), stably sorted
/// by lowercase name, of names equal ignoring ASCII case only the first kept.
pub open spec fn matching_names(fams: Seq<ChipFamilyEntry>, query: Seq<char>) -> Seq<Seq<char>> {
    values_of(dedup_keys(stable_sort(keyed_matches(chip_names(fams), lower_seq(trim_ws(query))))))
}

/// The names of the chips in `families` that match `query`, sorted and
/// de-duplicated as `matching_names` says.
pub fn names_matching(families: &Vec<ChipFamilyEntry>, query: &str) -> (r: Vec<String>)
    ensures
        r@.map_values(|s: String| s@) == matching_names(families@, query@),
{
    let q = to_ascii_lowercase(trim(query));
    let ghost qv = q@;
    let mut keyed: Vec<(Vec<char>, String)> = Vec::new();
    let mut k: usize = 0;
    let ghost f0 = families@;
    assert(f0.take(0) =~= Seq::<ChipFamilyEntry>::empty());
    while k < families.len()
        invariant
            k <= families.len(),
            f0 == families@,
            qv == q@,
            keyed_view(keyed@) == keyed_matches(chip_names(f0.take(k as int)), qv),
        decreases families.len() - k,
    {
        let family = &families[k];
        let ghost names0 = chip_names(f0.take(k as int));
        let ghost fam_names = family.variants@.map_values(|c: ChipVariant| c.name@);
        let mut c: usize = 0;
        assert(names0 + fam_names.take(0) =~= names0);
        while c < family.variants.len()
            invariant
                c <= family.variants.len(),
                qv == q@,
                fam_names == family.variants@.map_values(|ch: ChipVariant| ch.name@),
                keyed_view(keyed@) == keyed_matches(names0 + fam_names.take(c as int), qv),
            decreases family.variants.len() - c,
        {
            let name = &family.variants[c].name;
            let lower = to_ascii_lowercase(name.as_str());
            let ghost all = names0 + fam_names.take(c + 1);
            assert(all.drop_last() =~= names0 + fam_names.take(c as int));
            assert(all.last() == name@);
            if q.as_str().is_empty() || contains(lower.as_str(), q.as_str()) {
                let ghost prev = keyed_view(keyed@);
                keyed.push((chars_of(lower.as_str()), name.clone()));
                assert(keyed_view(keyed@) =~= prev.push((lower_seq(name@), name@)));
            }
            c = c + 1;
        }
        proof {
            assert(fam_names.take(family.variants.len() as int) =~= fam_names);
            assert(f0.take(k + 1).drop_last() =~= f0.take(k as int));
            assert(f0.take(k + 1).last() == f0[k as int]);
        }
        k = k + 1;
    }
    assert(f0.take(families.len() as int) =~= f0);
    stable_sort_by_key(&mut keyed);
    dedup_by_key(keyed)
}

/// The search result is in strictly increasing order of ASCII-lowercase name,
/// every listed name is the name of a chip that matches the query, and every
/// chip name that matches the query is listed up to ASCII case.
pub proof fn lemma_matching_names(fams: Seq<ChipFamilyEntry>, query: Seq<char>)
    ensures
        forall|i: int, j: int|
            0 <= i < j < matching_names(fams, query).len() ==> seq_lt(
                lower_seq(#[trigger] matching_names(fams, query)[i]),
                lower_seq(#[trigger] matching_names(fams, query)[j]),
            ),
        forall|i: int| 0 <= i < matching_names(fams, query).len() ==> chip_names(fams).contains(
            #[trigger] matching_names(fams, query)[i],
        ) && name_matches(matching_names(fams, query)[i], lower_seq(trim_ws(query))),
        forall|k: int|
            0 <= k < chip_names(fams).len() && name_matches(#[trigger] chip_names(fams)[k], lower_seq(trim_ws(query)))
                ==> exists|i: int| 0 <= i < matching_names(fams, query).len()
                && lower_seq(#[trigger] matching_names(fams, query)[i]) == lower_seq(chip_names(fams)[k]),
{
    let q = lower_seq(trim_ws(query));
    let names = chip_names(fams);
    let s = keyed_matches(names, q);
    let d = dedup_keys(stable_sort(s));
    let r = matching_names(fams, query);
    lemma_sort_dedup(s);
    lemma_keyed_matches(names, q);
    assert forall|i: int, j: int| 0 <= i < j < r.len() implies seq_lt(
        lower_seq(#[trigger] r[i]),
        lower_seq(#[trigger] r[j]),
    ) by {
        assert(s.contains(d[i]) && s.contains(d[j]));
        let a = choose|a: int| 0 <= a < s.len() && s[a] == d[i];
        let b = choose|b: int| 0 <= b < s.len() && s[b] == d[j];
    }
    assert forall|i: int| 0 <= i < r.len() implies names.contains(#[trigger] r[i]) && name_matches(r[i], q) by {
        assert(s.contains(d[i]));
        let a = choose|a: int| 0 <= a < s.len() && s[a] == d[i];
    }
    assert forall|k: int| 0 <= k < names.len() && name_matches(#[trigger] names[k], q) implies exists|i: int|
        0 <= i < r.len() && lower_seq(#[trigger] r[i]) == lower_seq(names[k]) by {
        let a = choose|a: int| 0 <= a < s.len() && s[a] == (lower_seq(names[k]), names[k]);
        let i = choose|i: int| 0 <= i < d.len() && #[trigger] d[i].0 == s[a].0;
        assert(s.contains(d[i]));
        let b = choose|b: int| 0 <= b < s.len() && s[b] == d[i];
        assert(r[i] == d[i].1);
    }
}

/// The keyed matches hold exactly the matching names, each keyed by its
/// lowercase form.
proof fn lemma_keyed_matches(names: Seq<Seq<char>>, q: Seq<char>)
    ensures
        forall|a: int| 0 <= a < keyed_matches(names, q).len() ==> {
            let p = #[trigger] keyed_matches(names, q)[a];
            &&& p.0 == lower_seq(p.1)
            &&& names.contains(p.1)
            &&& name_matches(p.1, q)
        },
        forall|k: int| 0 <= k < names.len() && name_matches(#[trigger] names[k], q) ==> keyed_matches(names, q).contains(
            (lower_seq(names[k]), names[k]),
        ),
    decreases names.len(),
{
    if names.len() > 0 {
        let t = names.drop_last();
        lemma_keyed_matches(t, q);
        let km = keyed_matches(names, q);
        let kt = keyed_matches(t, q);
        assert forall|a: int| 0 <= a < km.len() implies {
            let p = #[trigger] km[a];
            &&& p.0 == lower_seq(p.1)
            &&& names.contains(p.1)
            &&& name_matches(p.1, q)
        } by {
            if a < kt.len() {
                assert(km[a] == kt[a]);
                let b = choose|b: int| 0 <= b < t.len() && t[b] == kt[a].1;
                assert(names[b] == t[b]);
            } else {
                assert(names[names.len() - 1] == names.last());
            }
        }
        assert forall|k: int| 0 <= k < names.len() && name_matches(#[trigger] names[k], q) implies km.contains(
            (lower_seq(names[k]), names[k]),
        ) by {
            if k < names.len() - 1 {
                assert(t[k] == names[k]);
                let b = choose|b: int| 0 <= b < kt.len() && kt[b] == (lower_seq(t[k]), t[k]);
                assert(km[b] == kt[b]);
            } else {
                assert(km[km.len() - 1] == (lower_seq(names[k]), names[k]));
            }
        }
    }
}


/// With probe-rs's generic families at its end, the database lists at least
/// one target, and a search for an empty (or blank) keyword finds at least
/// one chip.
pub proof fn lemma_generic_families_listed(fams: Seq<ChipFamilyEntry>, query: Seq<char>)
    requires
        ends_with_generic_families(fams),
    ensures
        target_list(fams).len() > 0,
        trim_ws(query).len() == 0 ==> matching_names(fams, query).len() > 0,
{
    let n = fams.len();
    let last = fams.last();
    assert(is_generic_family(fams[n - 6 + 5], 5));
    assert(fams[n - 1] == last);
    assert(last.variants@.len() == 1);
    let all = all_targets(fams);
    assert(all == all_targets(fams.drop_last()) + family_targets(last));
    assert(all.len() > 0);
    lemma_target_list_complete(fams);
    assert(lower_seq(all[all.len() - 1].name) == lower_seq(all[all.len() - 1].name));
    let names = chip_names(fams);
    assert(names == chip_names(fams.drop_last()) + last.variants@.map_values(|c: ChipVariant| c.name@));
    assert(names.len() > 0);
    if trim_ws(query).len() == 0 {
        let q = lower_seq(trim_ws(query));
        assert(q.len() == 0);
        assert(name_matches(names[names.len() - 1], q));
        lemma_matching_names(fams, query);
    }
}


/// A search ignores the ASCII case of the keyword and spaces around it.
pub proof fn lemma_search_ignores_case_and_spaces(fams: Seq<ChipFamilyEntry>, query: Seq<char>)
    ensures
        matching_names(fams, upper_seq(query)) == matching_names(fams, query),
        matching_names(fams, lower_seq(query)) == matching_names(fams, query),
        matching_names(fams, seq![' '] + query + seq![' ']) == matching_names(fams, query),
{
    lemma_trim_upper(query);
    lemma_trim_upper(trim_ws(query));
    lemma_trim_spaces_around(query);
    lemma_trim_lower(query);
}

/// The test that a chip name matches the (trimmed, lower-cased) keyword `q`.
pub open spec fn keyword_matches(q: Seq<char>) -> spec_fn(Seq<char>) -> bool {
    |name: Seq<char>| name_matches(name, q)
}

/// The same test on a lowercase name.
pub open spec fn key_has(q: Seq<char>) -> spec_fn(Seq<char>) -> bool {
    |key: Seq<char>| q.len() == 0 || has_infix(key, q)
}

/// A piece of a piece of `s` is a piece of `s`.
proof fn lemma_infix_transitive(s: Seq<char>, m: Seq<char>, q: Seq<char>)
    requires
        has_infix(s, m),
        has_infix(m, q),
    ensures
        has_infix(s, q),
{
    let b = choose|b: int| 0 <= b && b + q.len() <= m.len() && #[trigger] m.subrange(b, b + q.len()) == q;
    let a = choose|a: int| 0 <= a && a + m.len() <= s.len() && #[trigger] s.subrange(a, a + m.len()) == m;
    assert(s.subrange(a + b, a + b + q.len()) =~= m.subrange(b, b + q.len()));
}

/// With a narrower keyword the keyed matches are those of the wider one
/// that also match the narrower one.
proof fn lemma_keyed_matches_narrower(names: Seq<Seq<char>>, qw: Seq<char>, qn: Seq<char>)
    requires
        has_infix(qn, qw),
    ensures
        keyed_matches(names, qn) == keyed_matches(names, qw).filter(by_key(key_has(qn))),
    decreases names.len(),
{
    reveal(Seq::filter);
    if names.len() > 0 {
        let d = names.drop_last();
        let l = names.last();
        lemma_keyed_matches_narrower(d, qw, qn);
        let kw = keyed_matches(d, qw);
        let pair = (lower_seq(l), l);
        if name_matches(l, qn) && qn.len() > 0 {
            lemma_infix_transitive(lower_seq(l), qn, qw);
        }
        if qn.len() == 0 {
            let b = choose|b: int| 0 <= b && b + qw.len() <= qn.len() && #[trigger] qn.subrange(b, b + qw.len()) == qw;
        }
        if name_matches(l, qw) {
            assert(kw.push(pair).drop_last() =~= kw);
            assert(kw.push(pair).last() == pair);
        }
    }
}

/// A narrower keyword finds exactly the names that the wider keyword finds
/// and that also match the narrower one, in the same order: when the
/// (trimmed, lower-cased) wider keyword occurs in the narrower one, the
/// narrower search is the wider search filtered.  The empty keyword occurs
/// in every keyword, so every search result is part of the full list.
pub proof fn lemma_narrower_search(fams: Seq<ChipFamilyEntry>, wide: Seq<char>, narrow: Seq<char>)
    requires
        has_infix(lower_seq(trim_ws(narrow)), lower_seq(trim_ws(wide))),
    ensures
        matching_names(fams, narrow) == matching_names(fams, wide).filter(
            keyword_matches(lower_seq(trim_ws(narrow))),
        ),
{
    let qw = lower_seq(trim_ws(wide));
    let qn = lower_seq(trim_ws(narrow));
    let names = chip_names(fams);
    let k = keyed_matches(names, qw);
    let p = key_has(qn);
    lemma_keyed_matches_narrower(names, qw, qn);
    lemma_filter_stable_sort(k, p);
    lemma_stable_sort_sorted(k);
    lemma_filter_dedup(stable_sort(k), p);
    let d = dedup_keys(stable_sort(k));
    lemma_sort_dedup(k);
    lemma_keyed_matches(names, qw);
    assert forall|i: int| 0 <= i < d.len() implies p(#[trigger] d[i].0) == keyword_matches(qn)(d[i].1) by {
        assert(k.contains(d[i]));
        let a = choose|a: int| 0 <= a < k.len() && k[a] == d[i];
        assert(d[i].0 == lower_seq(d[i].1));
    }
    lemma_filter_values(d, p, keyword_matches(qn));
}

} // verus!
