//! The visible model list: the catalog of known models joined, by file name,
//! with the files found in the models directory.

use vstd::prelude::*;
use crate::text::{lex_le, lemma_lex_le_total, lemma_lex_le_transitive, lower_of, lowercase, occurs_at, occurs_at_exec, text_le};

verus! {

/// An entry of the static catalog of known models.
pub struct ConfigLanguageModel {
    pub name: String,
    pub filename: String,
    pub arquitecture: String,
    pub url: String,
    pub image: String,
    pub prompt_template: String,
    pub size: String,
}

/// The catalog's metadata about a model.
pub struct LanguageModelInfo {
    pub name: String,
    pub arquitecture: String,
    pub url: String,
    pub image: String,
    pub prompt_template: String,
    pub size: String,
}

/// One line of the visible model list.
pub struct LanguageModel {
    pub filename: String,
    pub current: bool,
    pub downloaded: bool,
    pub has_info: bool,
    pub info: Option<LanguageModelInfo>,
}

/// The visible model list.
pub struct GetLanguageModelsResponse {
    pub models: Vec<LanguageModel>,
}

/// The metadata that a catalog entry carries.
pub open spec fn info_of(c: ConfigLanguageModel) -> LanguageModelInfo {
    LanguageModelInfo {
        name: c.name,
        arquitecture: c.arquitecture,
        url: c.url,
        image: c.image,
        prompt_template: c.prompt_template,
        size: c.size,
    }
}

/// A file that the operating system leaves in folders (`.DS_Store` and the
/// like, in any case); it is never listed as a model.
pub open spec fn is_system_name(name: Seq<char>) -> bool {
    occurs_at(lower_of(name), ".ds_store"@, 0)
}

/// A model file of that name lies in the directory.
pub open spec fn on_disk(disk: Seq<String>, name: Seq<char>) -> bool {
    !is_system_name(name) && has_text(disk, name)
}

/// The catalog knows a model of that file name.
pub open spec fn in_catalog(catalog: Seq<ConfigLanguageModel>, name: Seq<char>) -> bool {
    exists|k: int| 0 <= k < catalog.len() && #[trigger] catalog[k].filename@ == name
}

/// The metadata of the last catalog entry with that file name.
pub open spec fn catalog_info(catalog: Seq<ConfigLanguageModel>, name: Seq<char>) -> Option<
    LanguageModelInfo,
>
    decreases catalog.len(),
{
    if catalog.len() == 0 {
        None
    } else if catalog.last().filename@ == name {
        Some(info_of(catalog.last()))
    } else {
        catalog_info(catalog.drop_last(), name)
    }
}

/// What the list says of one file name.
pub open spec fn describes(
    m: LanguageModel,
    disk: Seq<String>,
    catalog: Seq<ConfigLanguageModel>,
    current: Seq<char>,
) -> bool {
    &&& m.downloaded == on_disk(disk, m.filename@)
    &&& m.has_info == in_catalog(catalog, m.filename@)
    &&& m.info == catalog_info(catalog, m.filename@)
    &&& m.current == (m.downloaded && m.filename@ == current)
    &&& (m.downloaded || m.has_info)
}

/// No two texts of `s` are equal.
pub open spec fn distinct_texts(s: Seq<String>) -> bool {
    forall|i: int, j: int| 0 <= i < j < s.len() ==> s[i]@ != s[j]@
}

/// The list is in case-insensitive order of file names.
pub open spec fn sorted_by_lower_name(s: Seq<LanguageModel>) -> bool {
    forall|i: int, j: int|
        0 <= i < j < s.len() ==> lex_le(lower_of(s[i].filename@), lower_of(s[j].filename@))
}

proof fn lemma_catalog_info_some(catalog: Seq<ConfigLanguageModel>, name: Seq<char>)
    ensures
        (catalog_info(catalog, name) is Some) == in_catalog(catalog, name),
    decreases catalog.len(),
{
    if catalog.len() > 0 {
        lemma_catalog_info_some(catalog.drop_last(), name);
        if catalog.last().filename@ != name {
            if in_catalog(catalog, name) {
                let k = choose|k: int| 0 <= k < catalog.len() && #[trigger] catalog[k].filename@
                    == name;
                assert(catalog.drop_last()[k].filename@ == name);
            }
            if in_catalog(catalog.drop_last(), name) {
                let k = choose|k: int|
                    0 <= k < catalog.drop_last().len() && #[trigger] catalog.drop_last()[k].filename@
                        == name;
                assert(catalog[k].filename@ == name);
            }
        } else {
            assert(catalog[catalog.len() - 1].filename@ == name);
        }
    }
}

/// Tells whether a lower-case file name is that of a system file.
pub fn is_system_key(lower: &str) -> (r: bool)
    ensures
        r == occurs_at(lower@, ".ds_store"@, 0),
{
    occurs_at_exec(lower, ".ds_store", 0)
}

/// Tells whether the name is that of a system file.
pub fn is_system_file(name: &str) -> (r: bool)
    ensures
        r == is_system_name(name@),
{
    let lower = lowercase(name);
    is_system_key(lower.as_str())
}

/// The metadata that a catalog entry carries.
pub fn info_from(c: &ConfigLanguageModel) -> (r: LanguageModelInfo)
    ensures
        r == info_of(*c),
{
    LanguageModelInfo {
        name: c.name.clone(),
        arquitecture: c.arquitecture.clone(),
        url: c.url.clone(),
        image: c.image.clone(),
        prompt_template: c.prompt_template.clone(),
        size: c.size.clone(),
    }
}

fn contains_text_in(v: &Vec<String>, name: &String) -> (r: bool)
    ensures
        r == has_text(v@, name@),
{
    let mut i: usize = 0;
    while i < v.len()
        invariant
            i <= v.len(),
            forall|k: int| 0 <= k < i ==> v@[k]@ != name@,
        decreases v.len() - i,
    {
        if v[i] == *name {
            return true;
        }
        i = i + 1;
    }
    false
}

fn last_info(catalog: &Vec<ConfigLanguageModel>, name: &String) -> (r: Option<LanguageModelInfo>)
    ensures
        r == catalog_info(catalog@, name@),
{
    let mut i: usize = catalog.len();
    proof {
        assert(catalog@.subrange(0, i as int) =~= catalog@);
    }
    while i > 0
        invariant
            i <= catalog.len(),
            catalog_info(catalog@.subrange(0, i as int), name@) == catalog_info(catalog@, name@),
        decreases i,
    {
        let ghost prefix = catalog@.subrange(0, i as int);
        if catalog[i - 1].filename == *name {
            return Some(info_from(&catalog[i - 1]));
        }
        assert(prefix.drop_last() =~= catalog@.subrange(0, i - 1));
        i = i - 1;
    }
    None
}

/// Tells whether a model file of that name lies in the directory.
fn on_disk_exec(disk: &Vec<String>, name: &String) -> (r: bool)
    ensures
        r == on_disk(disk@, name@),
{
    !is_system_file(name.as_str()) && contains_text_in(disk, name)
}

/// The list line for one file name.
fn entry_for(
    name: &String,
    disk: &Vec<String>,
    catalog: &Vec<ConfigLanguageModel>,
    current: &str,
) -> (r: LanguageModel)
    requires
        on_disk(disk@, name@) || in_catalog(catalog@, name@),
    ensures
        r.filename == *name,
        describes(r, disk@, catalog@, current@),
{
    let downloaded = on_disk_exec(disk, name);
    let info = last_info(catalog, name);
    proof {
        lemma_catalog_info_some(catalog@, name@);
    }
    let has_info = info.is_some();
    let current_name = String::from_str(current);
    let is_current = downloaded && *name == current_name;
    LanguageModel { filename: name.clone(), current: is_current, downloaded, has_info, info }
}

/// Some text of `s` equals `t`.
pub open spec fn has_text(s: Seq<String>, t: Seq<char>) -> bool {
    exists|k: int| 0 <= k < s.len() && #[trigger] s[k]@ == t
}

/// Every file name that the list shows, each once, in the order in which
/// they are first met: the directory's first, then the catalog's.
fn collect_names(disk: &Vec<String>, catalog: &Vec<ConfigLanguageModel>) -> (r: Vec<String>)
    ensures
        distinct_texts(r@),
        forall|i: int|
            0 <= i < r.len() ==> on_disk(disk@, #[trigger] r@[i]@) || in_catalog(catalog@, r@[i]@),
        forall|k: int|
            0 <= k < disk.len() && !is_system_name(#[trigger] disk@[k]@) ==> has_text(r@, disk@[k]@),
        forall|k: int| 0 <= k < catalog.len() ==> has_text(r@, #[trigger] catalog@[k].filename@),
{
    let mut names: Vec<String> = Vec::new();
    let mut k: usize = 0;
    while k < disk.len()
        invariant
            k <= disk.len(),
            distinct_texts(names@),
            forall|i: int| 0 <= i < names.len() ==> on_disk(disk@, #[trigger] names@[i]@),
            forall|j: int|
                0 <= j < k && !is_system_name(#[trigger] disk@[j]@) ==> has_text(names@, disk@[j]@),
        decreases disk.len() - k,
    {
        let name = &disk[k];
        if !is_system_file(name.as_str()) && !contains_text_in(&names, name) {
            let ghost before = names@;
            names.push(name.clone());
            proof {
                assert(names@ =~= before.insert(before.len() as int, *name));
                lemma_insert_texts(before, before.len() as int, *name);
            }
        }
        k = k + 1;
    }
    let mut k: usize = 0;
    while k < catalog.len()
        invariant
            k <= catalog.len(),
            distinct_texts(names@),
            forall|i: int|
                0 <= i < names.len() ==> on_disk(disk@, #[trigger] names@[i]@) || in_catalog(
                    catalog@,
                    names@[i]@,
                ),
            forall|j: int|
                0 <= j < disk.len() && !is_system_name(#[trigger] disk@[j]@) ==> has_text(
                    names@,
                    disk@[j]@,
                ),
            forall|j: int| 0 <= j < k ==> has_text(names@, #[trigger] catalog@[j].filename@),
        decreases catalog.len() - k,
    {
        let name = &catalog[k].filename;
        if !contains_text_in(&names, name) {
            let ghost before = names@;
            names.push(name.clone());
            proof {
                assert(names@ =~= before.insert(before.len() as int, *name));
                lemma_insert_texts(before, before.len() as int, *name);
            }
        }
        k = k + 1;
    }
    names
}

/// `a` and `b` hold the same texts.
pub open spec fn same_texts(a: Seq<String>, b: Seq<String>) -> bool {
    &&& forall|i: int| 0 <= i < a.len() ==> has_text(b, #[trigger] a[i]@)
    &&& forall|j: int| 0 <= j < b.len() ==> has_text(a, #[trigger] b[j]@)
}

/// The keys are in `lex_le` order.
pub open spec fn keys_sorted(keys: Seq<String>) -> bool {
    forall|i: int, j: int| 0 <= i < j < keys.len() ==> lex_le(keys[i]@, keys[j]@)
}

proof fn lemma_insert_texts(s: Seq<String>, p: int, x: String)
    requires
        0 <= p <= s.len(),
    ensures
        forall|t: Seq<char>| #[trigger] has_text(s.insert(p, x), t) <==> (has_text(s, t) || x@ == t),
        distinct_texts(s) && !has_text(s, x@) ==> distinct_texts(s.insert(p, x)),
{
    let n = s.insert(p, x);
    assert forall|i: int| 0 <= i < n.len() implies n[i] == (if i < p {
        s[i]
    } else if i == p {
        x
    } else {
        s[i - 1]
    }) by {}
    assert forall|t: Seq<char>| has_text(n, t) <==> (has_text(s, t) || x@ == t) by {
        if has_text(n, t) {
            let i = choose|i: int| 0 <= i < n.len() && #[trigger] n[i]@ == t;
            if i < p {
                assert(s[i]@ == t);
            } else if i > p {
                assert(s[i - 1]@ == t);
            }
        }
        if has_text(s, t) {
            let i = choose|i: int| 0 <= i < s.len() && #[trigger] s[i]@ == t;
            if i < p {
                assert(n[i]@ == t);
            } else {
                assert(n[i + 1]@ == t);
            }
        }
        if x@ == t {
            assert(n[p]@ == t);
        }
    }
    if distinct_texts(s) && !has_text(s, x@) {
        assert forall|i: int, j: int| 0 <= i < j < n.len() implies n[i]@ != n[j]@ by {
            if i == p {
                assert(s[j - 1]@ != x@);
            } else if j == p {
                assert(s[i]@ != x@);
            }
        }
    }
}

/// Puts `name` with its `key` into `names` and `keys`, kept in key order,
/// after the names whose key is not greater; gives the position.
fn insert_in_order(keys: &mut Vec<String>, names: &mut Vec<String>, name: String, key: String) -> (p: usize)
    requires
        old(keys).len() == old(names).len(),
        keys_sorted(old(keys)@),
    ensures
        final(keys).len() == final(names).len(),
        keys_sorted(final(keys)@),
        p <= old(names).len(),
        final(names)@ == old(names)@.insert(p as int, name),
        final(keys)@ == old(keys)@.insert(p as int, key),
        forall|q: int| p <= q < old(keys).len() ==> !lex_le(#[trigger] old(keys)@[q]@, key@),
{
    let mut p: usize = keys.len();
    while p > 0 && !text_le(keys[p - 1].as_str(), key.as_str())
        invariant
            p <= keys.len(),
            forall|q: int| p <= q < keys.len() ==> !lex_le(#[trigger] keys@[q]@, key@),
        decreases p,
    {
        p = p - 1;
    }
    let ghost old_keys = keys@;
    let ghost old_names = names@;
    proof {
        assert forall|q: int| p <= q < old_keys.len() implies lex_le(key@, #[trigger] old_keys[q]@) by {
            lemma_lex_le_total(key@, old_keys[q]@);
        }
        if p > 0 {
            assert forall|i: int| 0 <= i < p implies lex_le(#[trigger] old_keys[i]@, key@) by {
                if i < p - 1 {
                    lemma_lex_le_transitive(old_keys[i]@, old_keys[p - 1]@, key@);
                }
            }
        }
    }
    keys.insert(p, key);
    names.insert(p, name);
    proof {
        let nk = keys@;
        let nn = names@;
        assert forall|i: int| 0 <= i < nk.len() implies (i < p ==> nk[i] == old_keys[i] && nn[i]
            == old_names[i]) && (i == p ==> nk[i] == key && nn[i] == name) && (i > p ==> nk[i]
            == old_keys[i - 1] && nn[i] == old_names[i - 1]) by {}
        assert forall|i: int, j: int| 0 <= i < j < nk.len() implies lex_le(nk[i]@, nk[j]@) by {
            if i < p && j > p {
                lemma_lex_le_transitive(nk[i]@, key@, nk[j]@);
            }
        }
    }
    p
}

/// Names with equal keys stand in `out` in the order in which they stand in
/// `names`.
pub open spec fn keeps_order_of_equal_keys(out: Seq<String>, names: Seq<String>, keys: Seq<String>) -> bool {
    forall|i: int, j: int, a: int, b: int|
        #![trigger out[i], out[j], names[a], names[b]]
        0 <= i < j < out.len() && 0 <= a < names.len() && 0 <= b < names.len() && names[a]@
            == out[i]@ && names[b]@ == out[j]@ && keys[a]@ == keys[b]@ ==> a < b
}

/// Some name among the first `bound` of `names` equals `name`, with `key`
/// at the same index of `keys`.
pub open spec fn comes_from(names: Seq<String>, keys: Seq<String>, bound: int, name: String, key: String) -> bool {
    exists|j: int| 0 <= j < bound && names[j]@ == name@ && keys[j] == key
}

/// Sorts distinct `names` by their `keys` (one key per name, at the same
/// index), into `lex_le` order of keys; names with equal keys keep their
/// order. The keys come out beside the names.
pub fn order_by_keys(names: &Vec<String>, keys: &Vec<String>) -> (r: (Vec<String>, Vec<String>))
    requires
        distinct_texts(names@),
        keys.len() == names.len(),
    ensures
        distinct_texts(r.0@),
        same_texts(r.0@, names@),
        r.1.len() == r.0.len(),
        keys_sorted(r.1@),
        forall|i: int|
            0 <= i < r.0.len() ==> comes_from(names@, keys@, names.len() as int, #[trigger] r.0@[i], r.1@[i]),
        keeps_order_of_equal_keys(r.0@, names@, keys@),
{
    let mut out_keys: Vec<String> = Vec::new();
    let mut out: Vec<String> = Vec::new();
    let mut k: usize = 0;
    while k < names.len()
        invariant
            k <= names.len(),
            keys.len() == names.len(),
            distinct_texts(names@),
            distinct_texts(out@),
            out_keys.len() == out.len(),
            keys_sorted(out_keys@),
            same_texts(out@, names@.subrange(0, k as int)),
            forall|i: int|
                0 <= i < out.len() ==> comes_from(names@, keys@, k as int, #[trigger] out@[i], out_keys@[i]),
            keeps_order_of_equal_keys(out@, names@, keys@),
        decreases names.len() - k,
    {
        let ghost before = out@;
        let ghost before_keys = out_keys@;
        let ghost prefix = names@.subrange(0, k as int);
        let name = names[k].clone();
        let key = keys[k].clone();
        proof {
            assert(!has_text(before, name@)) by {
                if has_text(before, name@) {
                    let i = choose|i: int| 0 <= i < before.len() && #[trigger] before[i]@ == name@;
                    assert(has_text(prefix, before[i]@));
                    let j = choose|j: int| 0 <= j < prefix.len() && #[trigger] prefix[j]@ == before[i]@;
                    assert(names@[j]@ == names@[k as int]@);
                }
            }
        }
        let p = insert_in_order(&mut out_keys, &mut out, name, key);
        proof {
            let p = p as int;
            lemma_insert_texts(before, p, name);
            let next = names@.subrange(0, k + 1);
            assert(next =~= prefix.insert(k as int, name));
            lemma_insert_texts(prefix, k as int, name);
            assert forall|i: int| 0 <= i < out.len() implies has_text(next, #[trigger] out@[i]@) by {
                assert(has_text(before.insert(p, name), out@[i]@));
                if out@[i]@ != name@ {
                    assert(has_text(before, out@[i]@));
                    let q = choose|q: int| 0 <= q < before.len() && #[trigger] before[q]@ == out@[i]@;
                    assert(has_text(prefix, before[q]@));
                }
                assert(has_text(prefix.insert(k as int, name), out@[i]@));
            }
            assert forall|j: int| 0 <= j < next.len() implies has_text(out@, #[trigger] next[j]@) by {
                assert(has_text(next, next[j]@));
                if next[j]@ != name@ {
                    assert(has_text(prefix, next[j]@));
                    let q = choose|q: int| 0 <= q < prefix.len() && #[trigger] prefix[q]@ == next[j]@;
                    assert(has_text(before, prefix[q]@));
                }
            }
            assert forall|i: int| 0 <= i < out.len() implies comes_from(names@, keys@, k + 1, #[trigger] out@[i], out_keys@[i]) by {
                if i == p {
                    assert(names@[k as int]@ == out@[i]@ && keys@[k as int] == out_keys@[i]);
                } else if i < p {
                    assert(out@[i] == before[i] && out_keys@[i] == before_keys[i]);
                    assert(comes_from(names@, keys@, k as int, before[i], before_keys[i]));
                } else {
                    assert(out@[i] == before[i - 1] && out_keys@[i] == before_keys[i - 1]);
                    assert(comes_from(names@, keys@, k as int, before[i - 1], before_keys[i - 1]));
                }
            }
            lemma_insert_keeps_order(before, before_keys, names@, keys@, k as int, p, name, key);
        }
        k = k + 1;
    }
    assert(names@.subrange(0, names.len() as int) =~= names@);
    let r = (out, out_keys);
    assert(r.0@ == out@ && r.1@ == out_keys@);
    r
}

proof fn lemma_insert_keeps_order(
    before: Seq<String>,
    before_keys: Seq<String>,
    names: Seq<String>,
    keys: Seq<String>,
    k: int,
    p: int,
    name: String,
    key: String,
)
    requires
        0 <= k < names.len(),
        keys.len() == names.len(),
        distinct_texts(names),
        name == names[k],
        key == keys[k],
        0 <= p <= before.len(),
        before_keys.len() == before.len(),
        forall|i: int|
            0 <= i < before.len() ==> comes_from(names, keys, k, #[trigger] before[i], before_keys[i]),
        forall|q: int| p <= q < before_keys.len() ==> !lex_le(#[trigger] before_keys[q]@, key@),
        keeps_order_of_equal_keys(before, names, keys),
    ensures
        keeps_order_of_equal_keys(before.insert(p, name), names, keys),
{
    let out = before.insert(p, name);
    assert forall|i: int, j: int, a: int, b: int|
        0 <= i < j < out.len() && 0 <= a < names.len() && 0 <= b < names.len() && names[a]@
            == out[i]@ && names[b]@ == out[j]@ && keys[a]@ == keys[b]@ implies a < b by {
        let oi = if i < p { i } else if i == p { -1 } else { i - 1 };
        let oj = if j < p { j } else if j == p { -1 } else { j - 1 };
        if i == p {
            assert(out[i] == name);
            assert(a == k) by {
                if a != k {
                    assert(names[a]@ != names[k]@);
                }
            }
            assert(out[j] == before[oj]);
            assert(comes_from(names, keys, k, before[oj], before_keys[oj]));
            let jb = choose|jb: int| 0 <= jb < k && names[jb]@ == before[oj]@ && keys[jb] == before_keys[oj];
            assert(b == jb) by {
                if b != jb {
                    assert(names[b]@ != names[jb]@);
                }
            }
            lemma_lex_le_total(key@, key@);
            assert(!lex_le(before_keys[oj]@, key@));
            assert(false);
        } else if j == p {
            assert(out[j] == name);
            assert(b == k) by {
                if b != k {
                    assert(names[b]@ != names[k]@);
                }
            }
            assert(out[i] == before[oi]);
            assert(comes_from(names, keys, k, before[oi], before_keys[oi]));
            let ia = choose|ia: int| 0 <= ia < k && names[ia]@ == before[oi]@ && keys[ia] == before_keys[oi];
            assert(a == ia) by {
                if a != ia {
                    assert(names[a]@ != names[ia]@);
                }
            }
        } else {
            assert(out[i] == before[oi]);
            assert(out[j] == before[oj]);
            assert(oi < oj);
            assert(names[a]@ == before[oi]@ && names[b]@ == before[oj]@);
        }
    }
}

/// Sorts distinct file names into case-insensitive order.
fn sort_by_lower(names: &Vec<String>) -> (r: Vec<String>)
    requires
        distinct_texts(names@),
    ensures
        distinct_texts(r@),
        same_texts(r@, names@),
        forall|i: int, j: int| 0 <= i < j < r.len() ==> lex_le(lower_of(r@[i]@), lower_of(r@[j]@)),
{
    let mut keys: Vec<String> = Vec::new();
    let mut i: usize = 0;
    while i < names.len()
        invariant
            i <= names.len(),
            keys.len() == i,
            forall|q: int| 0 <= q < i ==> (#[trigger] keys@[q])@ == lower_of(names@[q]@),
        decreases names.len() - i,
    {
        keys.push(lowercase(names[i].as_str()));
        i = i + 1;
    }
    let (out, out_keys) = order_by_keys(names, &keys);
    assert forall|i: int| 0 <= i < out.len() implies (#[trigger] out_keys@[i])@ == lower_of(out@[i]@) by {
        assert(comes_from(names@, keys@, names.len() as int, out@[i], out_keys@[i]));
        let j = choose|j: int|
            0 <= j < names.len() && names@[j]@ == out@[i]@ && keys@[j] == out_keys@[i];
        assert(keys@[j]@ == lower_of(names@[j]@));
    }
    assert forall|i: int, j: int| 0 <= i < j < out.len() implies lex_le(lower_of(out@[i]@), lower_of(out@[j]@)) by {
        assert(out_keys@[i]@ == lower_of(out@[i]@));
        assert(out_keys@[j]@ == lower_of(out@[j]@));
    }
    out
}

/// Some line of the list is about that file name.
pub open spec fn lists(models: Seq<LanguageModel>, name: Seq<char>) -> bool {
    exists|i: int| 0 <= i < models.len() && #[trigger] models[i].filename@ == name
}

/// Joins the files found in the models directory (`disk`) with the catalog:
/// one line per file name found in either, which says whether the file is
/// there, whether the catalog knows it (with the metadata of its last entry
/// of that name) and whether it is the file of the `current` model; system
/// files are left out, and the lines come in case-insensitive order of file
/// names.
pub fn reconcile_models(
    disk: &Vec<String>,
    catalog: &Vec<ConfigLanguageModel>,
    current: &str,
) -> (r: Vec<LanguageModel>)
    ensures
        forall|i: int| 0 <= i < r.len() ==> describes(#[trigger] r@[i], disk@, catalog@, current@),
        forall|i: int, j: int| 0 <= i < j < r.len() ==> r@[i].filename@ != r@[j].filename@,
        sorted_by_lower_name(r@),
        forall|k: int|
            0 <= k < disk.len() && !is_system_name(#[trigger] disk@[k]@) ==> lists(r@, disk@[k]@),
        forall|k: int| 0 <= k < catalog.len() ==> lists(r@, #[trigger] catalog@[k].filename@),
{
    let names = collect_names(disk, catalog);
    let sorted = sort_by_lower(&names);
    let mut r: Vec<LanguageModel> = Vec::new();
    let mut i: usize = 0;
    while i < sorted.len()
        invariant
            i <= sorted.len(),
            r.len() == i,
            same_texts(sorted@, names@),
            forall|q: int|
                0 <= q < names.len() ==> on_disk(disk@, #[trigger] names@[q]@) || in_catalog(
                    catalog@,
                    names@[q]@,
                ),
            forall|q: int| 0 <= q < i ==> (#[trigger] r@[q]).filename == sorted@[q],
            forall|q: int| 0 <= q < i ==> describes(#[trigger] r@[q], disk@, catalog@, current@),
        decreases sorted.len() - i,
    {
        proof {
            assert(has_text(names@, sorted@[i as int]@));
            let q = choose|q: int| 0 <= q < names.len() && #[trigger] names@[q]@ == sorted@[i as int]@;
            assert(on_disk(disk@, names@[q]@) || in_catalog(catalog@, names@[q]@));
        }
        let entry = entry_for(&sorted[i], disk, catalog, current);
        r.push(entry);
        i = i + 1;
    }
    proof {
        assert forall|q: int| 0 <= q < r.len() implies (#[trigger] r@[q]).filename@ == sorted@[q]@ by {}
        assert forall|a: int, b: int| 0 <= a < b < r.len() implies r@[a].filename@ != r@[b].filename@ by {
            assert(r@[a].filename@ == sorted@[a]@);
            assert(r@[b].filename@ == sorted@[b]@);
        }
        assert forall|a: int, b: int| 0 <= a < b < r.len() implies lex_le(
            lower_of(r@[a].filename@),
            lower_of(r@[b].filename@),
        ) by {
            assert(r@[a].filename@ == sorted@[a]@);
            assert(r@[b].filename@ == sorted@[b]@);
        }
        assert forall|t: Seq<char>| has_text(names@, t) implies lists(r@, t) by {
            let q = choose|q: int| 0 <= q < names.len() && #[trigger] names@[q]@ == t;
            assert(has_text(sorted@, names@[q]@));
            let p = choose|p: int| 0 <= p < sorted.len() && #[trigger] sorted@[p]@ == names@[q]@;
            assert(r@[p].filename@ == t);
        }
        assert forall|k: int| 0 <= k < disk.len() && !is_system_name(#[trigger] disk@[k]@) implies lists(
            r@,
            disk@[k]@,
        ) by {
            assert(has_text(names@, disk@[k]@));
        }
        assert forall|k: int| 0 <= k < catalog.len() implies lists(r@, #[trigger] catalog@[k].filename@) by {
            assert(has_text(names@, catalog@[k].filename@));
        }
    }
    r
}

/// The visible model list. `disk` is `None` when no models directory is
/// configured, and the list is then empty; otherwise it is the list of
/// `reconcile_models`.
pub fn list_language_models(
    disk: Option<Vec<String>>,
    catalog: &Vec<ConfigLanguageModel>,
    current: &str,
) -> (r: GetLanguageModelsResponse)
    ensures
        disk is None ==> r.models.len() == 0,
        disk is Some ==> {
            let d = disk->0@;
            &&& forall|i: int|
                0 <= i < r.models.len() ==> describes(#[trigger] r.models@[i], d, catalog@, current@)
            &&& forall|i: int, j: int|
                0 <= i < j < r.models.len() ==> r.models@[i].filename@ != r.models@[j].filename@
            &&& sorted_by_lower_name(r.models@)
            &&& forall|k: int|
                0 <= k < d.len() && !is_system_name(#[trigger] d[k]@) ==> lists(r.models@, d[k]@)
            &&& forall|k: int|
                0 <= k < catalog.len() ==> lists(r.models@, #[trigger] catalog@[k].filename@)
        },
{
    match disk {
        None => GetLanguageModelsResponse { models: Vec::new() },
        Some(d) => GetLanguageModelsResponse { models: reconcile_models(&d, catalog, current) },
    }
}

} // verus!
