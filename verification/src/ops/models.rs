//! The unified model catalog: models loaded by runtimed merged with the
//! models that modeld holds in storage.
use vstd::prelude::*;

use crate::json::{
    as_list, as_text, as_unsigned, deref_value, field_array, field_text, field_u64, field_u64_or,
    get, opt_text, unsigned_or, Json,
};
use crate::varlink::{is_call, VarlinkCall};

verus! {

/// Model metadata combining storage and memory residency.
#[derive(Debug, Clone)]
pub struct ModelEntry {
    pub name: String,
    pub status: String,
    pub size_bytes: u64,
    pub parameter_count: Option<u64>,
    pub backend: Option<String>,
    pub context_window: Option<usize>,
}

/// The content of a catalog entry.
pub ghost struct ModelSummary {
    pub name: Seq<char>,
    pub status: Seq<char>,
    pub size_bytes: u64,
    pub parameter_count: Option<u64>,
    pub backend: Option<Seq<char>>,
    pub context_window: Option<usize>,
}

impl View for ModelEntry {
    type V = ModelSummary;

    open spec fn view(&self) -> ModelSummary {
        ModelSummary {
            name: self.name@,
            status: self.status@,
            size_bytes: self.size_bytes,
            parameter_count: self.parameter_count,
            backend: opt_text(self.backend),
            context_window: self.context_window,
        }
    }
}

/// The catalog entry of a model that runtimed reports as loaded; models
/// without a name are left out.
pub open spec fn loaded_model(m: Json) -> Option<ModelSummary> {
    match as_text(get(m, "name"@)) {
        Some(name) => Some(
            ModelSummary {
                name,
                status: "loaded"@,
                size_bytes: unsigned_or(m, "memory_bytes"@, 0),
                parameter_count: as_unsigned(get(m, "parameter_count"@)),
                backend: as_text(get(m, "compute_backend"@)),
                context_window: match as_unsigned(get(m, "context_window"@)) {
                    Some(c) => Some(c as usize),
                    None => None,
                },
            },
        ),
        None => None,
    }
}

/// The catalog entry of a model that modeld holds in storage.
pub open spec fn cached_model(m: Json) -> Option<ModelSummary> {
    match as_text(get(m, "name"@)) {
        Some(name) => Some(
            ModelSummary {
                name,
                status: "cached"@,
                size_bytes: unsigned_or(m, "size_bytes"@, 0),
                parameter_count: None,
                backend: None,
                context_window: None,
            },
        ),
        None => None,
    }
}

/// The entries of the loaded models, in reply order.
pub open spec fn loaded_entries(ms: Seq<Json>) -> Seq<ModelSummary>
    decreases ms.len(),
{
    if ms.len() == 0 {
        Seq::empty()
    } else {
        let prev = loaded_entries(ms.drop_last());
        match loaded_model(ms.last()) {
            Some(e) => prev.push(e),
            None => prev,
        }
    }
}

/// Whether some entry of `entries` is named `name`.
pub open spec fn has_name(entries: Seq<ModelSummary>, name: Seq<char>) -> bool {
    exists|i: int| 0 <= i < entries.len() && #[trigger] entries[i].name == name
}

/// `entries` followed by the stored models whose name is not yet listed, in
/// reply order.
pub open spec fn with_cached(entries: Seq<ModelSummary>, ms: Seq<Json>) -> Seq<ModelSummary>
    decreases ms.len(),
{
    if ms.len() == 0 {
        entries
    } else {
        let prev = with_cached(entries, ms.drop_last());
        match cached_model(ms.last()) {
            Some(e) => if has_name(prev, e.name) {
                prev
            } else {
                prev.push(e)
            },
            None => prev,
        }
    }
}

/// The models array of a reply, if the daemon answered and the reply has one.
pub open spec fn listed_models(reply: Option<Json>) -> Option<Seq<Json>> {
    match reply {
        Some(r) => as_list(get(r, "models"@)),
        None => None,
    }
}

/// The entries of the loaded models of a runtimed reply.
pub open spec fn loaded_part(loaded: Option<Json>) -> Seq<ModelSummary> {
    match listed_models(loaded) {
        Some(ms) => loaded_entries(ms),
        None => Seq::empty(),
    }
}

/// The catalog: the loaded models, then the stored models that are not
/// loaded. `None` stands for a daemon that could not be asked.
pub open spec fn model_catalog(loaded: Option<Json>, cached: Option<Json>) -> Seq<ModelSummary> {
    match listed_models(cached) {
        Some(ms) => with_cached(loaded_part(loaded), ms),
        None => loaded_part(loaded),
    }
}

/// The call that asks runtimed for its loaded models.
pub fn loaded_models_call() -> (c: VarlinkCall)
    ensures
        is_call(c, "io.syntrop.Runtime1.ListLoadedModels"@, None),
{
    VarlinkCall { method: String::from_str("io.syntrop.Runtime1.ListLoadedModels"), parameters: None }
}

/// The call that asks modeld for its stored models.
pub fn cached_models_call() -> (c: VarlinkCall)
    ensures
        is_call(c, "io.syntrop.Model1.ListModels"@, None),
{
    VarlinkCall { method: String::from_str("io.syntrop.Model1.ListModels"), parameters: None }
}

fn loaded_entry(m: &Json) -> (r: Option<ModelEntry>)
    ensures
        match r {
            Some(e) => loaded_model(*m) == Some(e@),
            None => loaded_model(*m) is None,
        },
{
    match field_text(m, "name") {
        Some(name) => {
            let ctx = match field_u64(m, "context_window") {
                Some(c) => Some(c as usize),
                None => None,
            };
            Some(
                ModelEntry {
                    name,
                    status: String::from_str("loaded"),
                    size_bytes: field_u64_or(m, "memory_bytes", 0),
                    parameter_count: field_u64(m, "parameter_count"),
                    backend: field_text(m, "compute_backend"),
                    context_window: ctx,
                },
            )
        },
        None => None,
    }
}

fn cached_entry(m: &Json) -> (r: Option<ModelEntry>)
    ensures
        match r {
            Some(e) => cached_model(*m) == Some(e@),
            None => cached_model(*m) is None,
        },
{
    match field_text(m, "name") {
        Some(name) => Some(
            ModelEntry {
                name,
                status: String::from_str("cached"),
                size_bytes: field_u64_or(m, "size_bytes", 0),
                parameter_count: None,
                backend: None,
                context_window: None,
            },
        ),
        None => None,
    }
}

/// Whether some entry is named `name`.
fn names_taken(entries: &Vec<ModelEntry>, name: &String) -> (r: bool)
    ensures
        r == has_name(entries@.map_values(|e: ModelEntry| e@), name@),
{
    let ghost view = entries@.map_values(|e: ModelEntry| e@);
    let mut i: usize = 0;
    while i < entries.len()
        invariant
            i <= entries.len(),
            view == entries@.map_values(|e: ModelEntry| e@),
            forall|k: int| 0 <= k < i ==> view[k].name != name@,
        decreases entries.len() - i,
    {
        if entries[i].name == *name {
            assert(view[i as int].name == name@);
            return true;
        }
        i = i + 1;
    }
    false
}

/// Merges the replies of runtimed (`ListLoadedModels`) and modeld
/// (`ListModels`) into one catalog; `None` stands for a daemon that could
/// not be asked. Loaded models come first, in reply order; a stored model
/// is added only when no entry of its name is listed yet.
pub fn merge_model_catalog(loaded: Option<&Json>, cached: Option<&Json>) -> (r: Vec<ModelEntry>)
    ensures
        r@.map_values(|e: ModelEntry| e@) == model_catalog(deref_value(loaded), deref_value(cached)),
{
    let mut entries: Vec<ModelEntry> = Vec::new();
    let ghost loaded_v = deref_value(loaded);
    let ghost cached_v = deref_value(cached);
    let loaded_list = match loaded {
        Some(res) => field_array(res, "models"),
        None => None,
    };
    match loaded_list {
        Some(ms) => {
            let mut i: usize = 0;
            while i < ms.len()
                invariant
                    i <= ms.len(),
                    entries@.map_values(|e: ModelEntry| e@) == loaded_entries(
                        ms@.subrange(0, i as int),
                    ),
                decreases ms.len() - i,
            {
                assert(ms@.subrange(0, i + 1).drop_last() == ms@.subrange(0, i as int));
                let ghost before = entries@;
                match loaded_entry(&ms[i]) {
                    Some(e) => {
                        entries.push(e);
                        assert(entries@.map_values(|e: ModelEntry| e@) == before.map_values(
                            |e: ModelEntry| e@,
                        ).push(e@));
                    },
                    None => {},
                }
                i = i + 1;
            }
            assert(ms@.subrange(0, ms.len() as int) == ms@);
        },
        None => {},
    }
    assert(entries@.map_values(|e: ModelEntry| e@) == loaded_part(loaded_v));
    let ghost base = loaded_part(loaded_v);
    let cached_list = match cached {
        Some(res) => field_array(res, "models"),
        None => None,
    };
    match cached_list {
        Some(ms) => {
            let mut i: usize = 0;
            assert(with_cached(base, ms@.subrange(0, 0)) == base);
            while i < ms.len()
                invariant
                    i <= ms.len(),
                    entries@.map_values(|e: ModelEntry| e@) == with_cached(
                        base,
                        ms@.subrange(0, i as int),
                    ),
                decreases ms.len() - i,
            {
                assert(ms@.subrange(0, i + 1).drop_last() == ms@.subrange(0, i as int));
                let ghost before = entries@;
                match cached_entry(&ms[i]) {
                    Some(e) => {
                        if !names_taken(&entries, &e.name) {
                            entries.push(e);
                            assert(entries@.map_values(|e: ModelEntry| e@) == before.map_values(
                                |e: ModelEntry| e@,
                            ).push(e@));
                        }
                    },
                    None => {},
                }
                i = i + 1;
            }
            assert(ms@.subrange(0, ms.len() as int) == ms@);
        },
        None => {},
    }
    entries
}

// ---------------------------------------------------------------------------
// Catalog laws
// ---------------------------------------------------------------------------

/// Whether no two entries share a name.
pub open spec fn distinct_names(s: Seq<ModelSummary>) -> bool {
    forall|i: int, j: int| 0 <= i < j < s.len() ==> #[trigger] s[i].name != #[trigger] s[j].name
}

/// Whether every entry of `s` from position `from` on comes from storage
/// and bears a name that no entry before it bears.
pub open spec fn fresh_from_storage(s: Seq<ModelSummary>, from: int) -> bool {
    forall|k: int|
        from <= k < s.len() ==> (#[trigger] s[k]).status == "cached"@ && !has_name(
            s.subrange(0, k),
            s[k].name,
        )
}

proof fn lemma_with_cached(entries: Seq<ModelSummary>, ms: Seq<Json>)
    ensures
        with_cached(entries, ms).len() >= entries.len(),
        with_cached(entries, ms).subrange(0, entries.len() as int) == entries,
        fresh_from_storage(entries, entries.len() as int) ==> fresh_from_storage(
            with_cached(entries, ms),
            entries.len() as int,
        ),
        distinct_names(entries) ==> distinct_names(with_cached(entries, ms)),
        forall|i: int|
            0 <= i < ms.len() && #[trigger] cached_model(ms[i]) is Some ==> has_name(
                with_cached(entries, ms),
                cached_model(ms[i])->0.name,
            ),
    decreases ms.len(),
{
    if ms.len() == 0 {
        assert(entries.subrange(0, entries.len() as int) == entries);
    } else {
        let rest = ms.drop_last();
        lemma_with_cached(entries, rest);
        let prev = with_cached(entries, rest);
        let out = with_cached(entries, ms);
        match cached_model(ms.last()) {
            Some(e) => {
                if !has_name(prev, e.name) {
                    assert(out == prev.push(e));
                    assert(out.subrange(0, entries.len() as int) == prev.subrange(
                        0,
                        entries.len() as int,
                    ));
                    assert(out.subrange(0, prev.len() as int) == prev);
                    assert forall|k: int|
                        entries.len() <= k < out.len() && fresh_from_storage(
                            entries,
                            entries.len() as int,
                        ) implies (#[trigger] out[k]).status == "cached"@ && !has_name(
                        out.subrange(0, k),
                        out[k].name,
                    ) by {
                        if k < prev.len() {
                            assert(out.subrange(0, k) == prev.subrange(0, k));
                            assert(out[k] == prev[k]);
                        } else {
                            assert(out.subrange(0, k) == prev);
                        }
                    }
                    assert forall|a: int, b: int|
                        0 <= a < b < out.len() && distinct_names(entries) implies #[trigger] out[a].name
                        != #[trigger] out[b].name by {
                        if b == prev.len() {
                            if out[a].name == out[b].name {
                                assert(prev[a].name == e.name);
                            }
                        } else {
                            assert(out[a] == prev[a]);
                            assert(out[b] == prev[b]);
                        }
                    }
                    assert forall|i: int|
                        0 <= i < ms.len() && #[trigger] cached_model(ms[i]) is Some implies has_name(
                        out,
                        cached_model(ms[i])->0.name,
                    ) by {
                        if i == ms.len() - 1 {
                            assert(out[prev.len() as int].name == e.name);
                        } else {
                            assert(rest[i] == ms[i]);
                            let j = choose|j: int|
                                0 <= j < prev.len() && #[trigger] prev[j].name == cached_model(
                                    ms[i],
                                )->0.name;
                            assert(out[j] == prev[j]);
                        }
                    }
                } else {
                    assert forall|i: int|
                        0 <= i < ms.len() && #[trigger] cached_model(ms[i]) is Some implies has_name(
                        out,
                        cached_model(ms[i])->0.name,
                    ) by {
                        if i < ms.len() - 1 {
                            assert(rest[i] == ms[i]);
                        }
                    }
                }
            },
            None => {
                assert forall|i: int|
                    0 <= i < ms.len() && #[trigger] cached_model(ms[i]) is Some implies has_name(
                    out,
                    cached_model(ms[i])->0.name,
                ) by {
                    assert(i < ms.len() - 1);
                    assert(rest[i] == ms[i]);
                }
            },
        }
    }
}

/// The catalog lists the loaded models first, exactly as runtimed reports
/// them; every later entry comes from storage and bears a name that no
/// earlier entry bears, so a model that is both loaded and stored is listed
/// once, as loaded; every named stored model is listed under its name; and
/// when the loaded models have distinct names, so do all entries.
pub proof fn lemma_catalog_laws(loaded: Option<Json>, cached: Option<Json>)
    ensures
        model_catalog(loaded, cached).len() >= loaded_part(loaded).len(),
        model_catalog(loaded, cached).subrange(0, loaded_part(loaded).len() as int) == loaded_part(
            loaded,
        ),
        fresh_from_storage(model_catalog(loaded, cached), loaded_part(loaded).len() as int),
        listed_models(cached) matches Some(ms) ==> forall|i: int|
            0 <= i < ms.len() && #[trigger] cached_model(ms[i]) is Some ==> has_name(
                model_catalog(loaded, cached),
                cached_model(ms[i])->0.name,
            ),
        distinct_names(loaded_part(loaded)) ==> distinct_names(model_catalog(loaded, cached)),
{
    let l = loaded_part(loaded);
    assert(fresh_from_storage(l, l.len() as int));
    match listed_models(cached) {
        Some(ms) => {
            lemma_with_cached(l, ms);
        },
        None => {
            assert(l.subrange(0, l.len() as int) == l);
        },
    }
}

/// Whether a model entry of a reply has a name.
pub open spec fn is_named(m: Json) -> bool {
    as_text(get(m, "name"@)) is Some
}

/// The models of `ms` that have a name, in order.
pub open spec fn named_models(ms: Seq<Json>) -> Seq<Json> {
    ms.filter(|m: Json| is_named(m))
}

proof fn lemma_loaded_entries_named(ms: Seq<Json>)
    ensures
        loaded_entries(ms).len() == named_models(ms).len(),
        forall|k: int|
            0 <= k < named_models(ms).len() ==> loaded_model(#[trigger] named_models(ms)[k])
                == Some(loaded_entries(ms)[k]),
    decreases ms.len(),
{
    reveal(Seq::filter);
    if ms.len() > 0 {
        lemma_loaded_entries_named(ms.drop_last());
        let prev = named_models(ms.drop_last());
        assert(named_models(ms) == if is_named(ms.last()) {
            prev.push(ms.last())
        } else {
            prev
        });
    }
}

/// Every model that runtimed reports with a name is listed, in reply
/// order, as one loaded entry at the head of the catalog: the entry bears
/// the model's name, its memory size (0 when it reports none), its
/// parameter count, compute backend and context window. Models without a
/// name are not listed, and no other entry precedes the storage entries.
pub proof fn lemma_loaded_models_listed(loaded: Json, ms: Seq<Json>, cached: Option<Json>)
    requires
        as_list(get(loaded, "models"@)) == Some(ms),
    ensures
        loaded_part(Some(loaded)).len() == named_models(ms).len(),
        model_catalog(Some(loaded), cached).len() >= named_models(ms).len(),
        forall|k: int|
            0 <= k < named_models(ms).len() ==> {
                let m = named_models(ms)[k];
                let e = #[trigger] model_catalog(Some(loaded), cached)[k];
                &&& Some(e.name) == as_text(get(m, "name"@))
                &&& e.status == "loaded"@
                &&& e.size_bytes == (match as_unsigned(get(m, "memory_bytes"@)) {
                    Some(u) => u,
                    None => 0,
                })
                &&& e.parameter_count == as_unsigned(get(m, "parameter_count"@))
                &&& e.backend == as_text(get(m, "compute_backend"@))
                &&& e.context_window == (match as_unsigned(get(m, "context_window"@)) {
                    Some(c) => Some(c as usize),
                    None => None,
                })
            },
{
    lemma_loaded_entries_named(ms);
    lemma_catalog_laws(Some(loaded), cached);
    let cat = model_catalog(Some(loaded), cached);
    let l = loaded_part(Some(loaded));
    assert forall|k: int| 0 <= k < named_models(ms).len() implies {
        let m = named_models(ms)[k];
        let e = #[trigger] cat[k];
        &&& Some(e.name) == as_text(get(m, "name"@))
        &&& e.status == "loaded"@
        &&& e.size_bytes == (match as_unsigned(get(m, "memory_bytes"@)) {
            Some(u) => u,
            None => 0,
        })
        &&& e.parameter_count == as_unsigned(get(m, "parameter_count"@))
        &&& e.backend == as_text(get(m, "compute_backend"@))
        &&& e.context_window == (match as_unsigned(get(m, "context_window"@)) {
            Some(c) => Some(c as usize),
            None => None,
        })
    } by {
        assert(cat.subrange(0, l.len() as int)[k] == cat[k]);
        assert(loaded_model(named_models(ms)[k]) == Some(l[k]));
    }
}

/// Every entry after the loaded models comes from a model that modeld
/// stores under that name: it is marked cached, carries that model's stored
/// size (0 when it reports none) and no runtime details; and every model
/// that modeld stores with a name is listed under that name.
pub proof fn lemma_stored_models_listed(loaded: Option<Json>, cached: Json, ms: Seq<Json>)
    requires
        as_list(get(cached, "models"@)) == Some(ms),
    ensures
        forall|k: int|
            loaded_part(loaded).len() <= k < model_catalog(loaded, Some(cached)).len() ==> {
                let e = #[trigger] model_catalog(loaded, Some(cached))[k];
                &&& e.status == "cached"@
                &&& e.parameter_count is None
                &&& e.backend is None
                &&& e.context_window is None
                &&& exists|j: int|
                    0 <= j < ms.len() && as_text(get(#[trigger] ms[j], "name"@)) == Some(e.name)
                        && e.size_bytes == (match as_unsigned(get(ms[j], "size_bytes"@)) {
                        Some(u) => u,
                        None => 0,
                    })
            },
        forall|j: int|
            0 <= j < ms.len() && #[trigger] as_text(get(ms[j], "name"@)) is Some ==> has_name(
                model_catalog(loaded, Some(cached)),
                as_text(get(ms[j], "name"@))->0,
            ),
{
    lemma_catalog_laws(loaded, Some(cached));
    lemma_with_cached_sources(loaded_part(loaded), ms);
    assert forall|j: int|
        0 <= j < ms.len() && #[trigger] as_text(get(ms[j], "name"@)) is Some implies has_name(
        model_catalog(loaded, Some(cached)),
        as_text(get(ms[j], "name"@))->0,
    ) by {
        assert(cached_model(ms[j]) is Some);
    }
}

proof fn lemma_with_cached_sources(entries: Seq<ModelSummary>, ms: Seq<Json>)
    ensures
        with_cached(entries, ms).len() >= entries.len(),
        forall|k: int|
            entries.len() <= k < with_cached(entries, ms).len() ==> {
                let e = #[trigger] with_cached(entries, ms)[k];
                &&& e.status == "cached"@
                &&& e.parameter_count is None
                &&& e.backend is None
                &&& e.context_window is None
                &&& exists|j: int|
                    0 <= j < ms.len() && as_text(get(#[trigger] ms[j], "name"@)) == Some(e.name)
                        && e.size_bytes == (match as_unsigned(get(ms[j], "size_bytes"@)) {
                        Some(u) => u,
                        None => 0,
                    })
            },
    decreases ms.len(),
{
    if ms.len() > 0 {
        let rest = ms.drop_last();
        lemma_with_cached_sources(entries, rest);
        let prev = with_cached(entries, rest);
        let out = with_cached(entries, ms);
        assert forall|k: int| entries.len() <= k < out.len() implies {
            let e = #[trigger] out[k];
            &&& e.status == "cached"@
            &&& e.parameter_count is None
            &&& e.backend is None
            &&& e.context_window is None
            &&& exists|j: int|
                0 <= j < ms.len() && as_text(get(#[trigger] ms[j], "name"@)) == Some(e.name)
                    && e.size_bytes == (match as_unsigned(get(ms[j], "size_bytes"@)) {
                    Some(u) => u,
                    None => 0,
                })
        } by {
            if k < prev.len() {
                assert(out[k] == prev[k]);
                let j = choose|j: int|
                    0 <= j < rest.len() && as_text(get(#[trigger] rest[j], "name"@)) == Some(
                        prev[k].name,
                    ) && prev[k].size_bytes == (match as_unsigned(get(rest[j], "size_bytes"@)) {
                        Some(u) => u,
                        None => 0,
                    });
                assert(rest[j] == ms[j]);
            } else {
                let j = ms.len() - 1;
                assert(ms[j] == ms.last());
            }
        }
    }
}

} // verus!
