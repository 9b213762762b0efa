//! The model segment: the pricing list, its cache, the lookup of a model's
//! pricing and the model's display name.
//!
//! Ratios are carried as the bit patterns of the `f64` values that the pricing
//! service sends (`f64::to_bits`); the library only moves them around.

use vstd::prelude::*;
use crate::clock::{now_rfc3339, rfc3339_accepts, seconds_since_rfc3339};
use crate::settings::{endpoint, endpoint_url};
use crate::text::{same_text, starts_with, starts_with_text};

verus! {

/// The model segment.
#[derive(Default)]
pub struct ModelSegment;

/// Pricing of one model; the ratios are `f64` bit patterns.
pub struct ModelPricing {
    pub model_name: String,
    pub model_ratio: u64,
    pub completion_ratio: u64,
}

impl Clone for ModelPricing {
    fn clone(&self) -> (r: Self)
        ensures
            r == *self,
    {
        ModelPricing {
            model_name: self.model_name.clone(),
            model_ratio: self.model_ratio,
            completion_ratio: self.completion_ratio,
        }
    }
}

/// One entry of the pricing service's answer; a ratio may be missing.
pub struct PricingEntry {
    pub model_name: String,
    pub model_ratio: Option<u64>,
    pub completion_ratio: Option<u64>,
}

/// The pricing list as cached on disk, with the RFC 3339 time it was fetched.
pub struct PricingCache {
    pub data: Vec<ModelPricing>,
    pub cached_at: String,
}

/// How a pricing entry's name is held against the model id.
#[derive(PartialEq, Eq, Structural, Debug, Clone, Copy)]
pub enum MatchRule {
    /// The name is the id.
    Exact,
    /// The id starts with the name.
    IdExtendsName,
    /// The name starts with the id.
    NameExtendsId,
    /// Any of the three above.
    Any,
}

pub open spec fn matches_rule(rule: MatchRule, m: ModelPricing, id: Seq<char>) -> bool {
    match rule {
        MatchRule::Exact => m.model_name@ == id,
        MatchRule::IdExtendsName => starts_with(id, m.model_name@),
        MatchRule::NameExtendsId => starts_with(m.model_name@, id),
        MatchRule::Any => {
            ||| m.model_name@ == id
            ||| starts_with(id, m.model_name@)
            ||| starts_with(m.model_name@, id)
        },
    }
}

/// The index of the first entry that matches by `rule`.
pub open spec fn first_match(list: Seq<ModelPricing>, rule: MatchRule, id: Seq<char>) -> Option<
    int,
>
    decreases list.len(),
{
    if list.len() == 0 {
        None
    } else if matches_rule(rule, list[0], id) {
        Some(0)
    } else {
        match first_match(list.drop_first(), rule, id) {
            Some(i) => Some(i + 1),
            None => None,
        }
    }
}

/// The first entry that matches by `rule`.
pub open spec fn first_matching(list: Seq<ModelPricing>, rule: MatchRule, id: Seq<char>) -> Option<
    ModelPricing,
> {
    match first_match(list, rule, id) {
        Some(i) => Some(list[i]),
        None => None,
    }
}

/// The pricing of model `id` in `list`: the first entry named `id`; failing
/// that, the first whose name `id` starts with; failing that, the first whose
/// name starts with `id`.
pub open spec fn pricing_for(list: Seq<ModelPricing>, id: Seq<char>) -> Option<ModelPricing> {
    if first_match(list, MatchRule::Exact, id) is Some {
        first_matching(list, MatchRule::Exact, id)
    } else if first_match(list, MatchRule::IdExtendsName, id) is Some {
        first_matching(list, MatchRule::IdExtendsName, id)
    } else {
        first_matching(list, MatchRule::NameExtendsId, id)
    }
}

/// An entry with both ratios, as a pricing; else nothing.
pub open spec fn complete_entry(e: PricingEntry) -> Option<ModelPricing> {
    match (e.model_ratio, e.completion_ratio) {
        (Some(a), Some(b)) => Some(
            ModelPricing { model_name: e.model_name, model_ratio: a, completion_ratio: b },
        ),
        _ => None,
    }
}

/// The entries of `list` that have both ratios, in order.
pub open spec fn complete_entries(list: Seq<PricingEntry>) -> Seq<ModelPricing> {
    list.filter_map(|e: PricingEntry| complete_entry(e))
}

/// `first_match` finds `k` when no entry before `k` matches and entry `k`
/// does; it finds nothing when no entry matches.
pub proof fn lemma_first_match(list: Seq<ModelPricing>, rule: MatchRule, id: Seq<char>, k: int)
    requires
        0 <= k <= list.len(),
        forall|j: int| 0 <= j < k ==> !matches_rule(rule, #[trigger] list[j], id),
        k < list.len() ==> matches_rule(rule, list[k], id),
    ensures
        first_match(list, rule, id) == (if k < list.len() {
            Some(k)
        } else {
            None::<int>
        }),
    decreases list.len(),
{
    if list.len() > 0 && k > 0 {
        let rest = list.drop_first();
        assert forall|j: int| 0 <= j < k - 1 implies !matches_rule(rule, #[trigger] rest[j], id) by {
            assert(rest[j] == list[j + 1]);
        }
        lemma_first_match(rest, rule, id, k - 1);
    }
}

/// What `first_match` finds matches, and nothing before it does.
pub proof fn lemma_first_match_found(list: Seq<ModelPricing>, rule: MatchRule, id: Seq<char>)
    ensures
        first_match(list, rule, id) matches Some(i) ==> 0 <= i < list.len() && matches_rule(
            rule,
            list[i],
            id,
        ),
        first_match(list, rule, id) matches Some(i) ==> forall|j: int|
            0 <= j < i ==> !matches_rule(rule, #[trigger] list[j], id),
    decreases list.len(),
{
    if list.len() > 0 && !matches_rule(rule, list[0], id) {
        lemma_first_match_found(list.drop_first(), rule, id);
        if let Some(i) = first_match(list, rule, id) {
            assert forall|j: int| 0 <= j < i implies !matches_rule(rule, #[trigger] list[j], id) by {
                if j > 0 {
                    assert(list[j] == list.drop_first()[j - 1]);
                }
            }
        }
    }
}

/// Whether `m` matches `id` by `rule`.
fn rule_holds(m: &ModelPricing, id: &str, rule: MatchRule) -> (r: bool)
    ensures
        r == matches_rule(rule, *m, id@),
{
    let name = m.model_name.as_str();
    match rule {
        MatchRule::Exact => same_text(name, id),
        MatchRule::IdExtendsName => starts_with_text(id, name),
        MatchRule::NameExtendsId => starts_with_text(name, id),
        MatchRule::Any => same_text(name, id) || starts_with_text(id, name) || starts_with_text(
            name,
            id,
        ),
    }
}

/// The position of the first entry of `list` that matches `id` by `rule`.
pub fn first_match_index(list: &Vec<ModelPricing>, id: &str, rule: MatchRule) -> (r: Option<usize>)
    ensures
        match r {
            Some(i) => first_match(list@, rule, id@) == Some(i as int),
            None => first_match(list@, rule, id@) is None,
        },
        r matches Some(i) ==> i < list@.len(),
{
    let n = list.len();
    let mut i: usize = 0;
    while i < n
        invariant
            i <= n,
            n == list@.len(),
            forall|j: int| 0 <= j < i ==> !matches_rule(rule, #[trigger] list@[j], id@),
        decreases n - i,
    {
        if rule_holds(&list[i], id, rule) {
            proof {
                lemma_first_match(list@, rule, id@, i as int);
            }
            return Some(i);
        }
        i = i + 1;
    }
    proof {
        lemma_first_match(list@, rule, id@, n as int);
    }
    None
}

impl ModelSegment {
    pub fn new() -> Self {
        ModelSegment
    }

    /// The pricing options in force: the cache lifetime in seconds (3600 when
    /// not configured) and the request timeout in seconds (3 when not configured).
    pub fn pricing_options(cache_duration: Option<u64>, timeout: Option<u64>) -> (r: (u64, u64))
        ensures
            r.0 == (match cache_duration {
                Some(d) => d,
                None => 3600,
            }),
            r.1 == (match timeout {
                Some(t) => t,
                None => 3,
            }),
    {
        let d = match cache_duration {
            Some(d) => d,
            None => 3600,
        };
        let t = match timeout {
            Some(t) => t,
            None => 3,
        };
        (d, t)
    }

    /// The pricing of model `model_id` in `list`: an entry named exactly so
    /// comes first, then one whose name `model_id` starts with, then one whose
    /// name starts with `model_id`; within each kind the earliest entry wins.
    pub fn find_pricing(list: &Vec<ModelPricing>, model_id: &str) -> (r: Option<ModelPricing>)
        ensures
            r == pricing_for(list@, model_id@),
    {
        let mut found = first_match_index(list, model_id, MatchRule::Exact);
        if found.is_none() {
            found = first_match_index(list, model_id, MatchRule::IdExtendsName);
        }
        if found.is_none() {
            found = first_match_index(list, model_id, MatchRule::NameExtendsId);
        }
        match found {
            Some(i) => Some(list[i].clone()),
            None => None,
        }
    }

    /// The first entry of `list` that matches `model_id` in any of the three
    /// ways: the lookup used on a stale cache when no base URL is known.
    pub fn find_pricing_loosely(list: &Vec<ModelPricing>, model_id: &str) -> (r: Option<
        ModelPricing,
    >)
        ensures
            r == first_matching(list@, MatchRule::Any, model_id@),
    {
        match first_match_index(list, model_id, MatchRule::Any) {
            Some(i) => Some(list[i].clone()),
            None => None,
        }
    }

    /// The entries that carry both ratios, in their order, as pricings.
    pub fn complete_pricing(entries: Vec<PricingEntry>) -> (r: Vec<ModelPricing>)
        ensures
            r@ == complete_entries(entries@),
    {
        let mut out: Vec<ModelPricing> = Vec::new();
        let n = entries.len();
        let mut i: usize = 0;
        let ghost f = |e: PricingEntry| complete_entry(e);
        while i < n
            invariant
                i <= n,
                n == entries@.len(),
                f == (|e: PricingEntry| complete_entry(e)),
                out@ =~= entries@.take(i as int).filter_map(f),
            decreases n - i,
        {
            let e = &entries[i];
            assert(entries@.take(i + 1).drop_last() =~= entries@.take(i as int));
            assert(entries@.take(i + 1).last() == entries@[i as int]);
            match (e.model_ratio, e.completion_ratio) {
                (Some(a), Some(b)) => {
                    out.push(
                        ModelPricing {
                            model_name: e.model_name.clone(),
                            model_ratio: a,
                            completion_ratio: b,
                        },
                    );
                },
                _ => {},
            }
            i = i + 1;
        }
        assert(entries@.take(n as int) =~= entries@);
        out
    }

    /// Whether a cache stamped `elapsed` seconds ago is still fresh for a
    /// lifetime of `cache_duration` seconds; the lifetime is compared as an
    /// `i64`, wrapping as `as` does.
    pub fn cache_fresh(elapsed: i64, cache_duration: u64) -> (r: bool)
        ensures
            r == (elapsed < cache_duration as i64),
    {
        elapsed < cache_duration as i64
    }

    /// Whether `cache` is still fresh: its stamp parses as RFC 3339 and less
    /// than `cache_duration` seconds have passed since (see `cache_fresh`). The
    /// clock decides the second part; a stamp that does not parse is never fresh.
    pub fn is_cache_valid(cache: &PricingCache, cache_duration: u64) -> (r: bool)
        ensures
            r ==> rfc3339_accepts(cache.cached_at@),
    {
        match seconds_since_rfc3339(cache.cached_at.as_str()) {
            Some(elapsed) => Self::cache_fresh(elapsed, cache_duration),
            None => false,
        }
    }

    /// The name the segment shows: the configured display name for `id` when
    /// there is one; else `display_name` (or `id` when that is empty) followed
    /// by the configured suffix for `id`, if any.
    pub fn format_model_name(
        &self,
        id: &str,
        display_name: &str,
        config_name: Option<String>,
        config_suffix: Option<String>,
    ) -> (r: String)
        ensures
            r@ == model_name_text(id@, display_name@, config_name, config_suffix),
    {
        match config_name {
            Some(name) => name,
            None => {
                let mut base = if display_name.unicode_len() == 0 {
                    String::from_str(id)
                } else {
                    String::from_str(display_name)
                };
                match config_suffix {
                    Some(suffix) => {
                        base.append(suffix.as_str());
                        base
                    },
                    None => base,
                }
            },
        }
    }
}

pub open spec fn model_name_text(
    id: Seq<char>,
    display_name: Seq<char>,
    config_name: Option<String>,
    config_suffix: Option<String>,
) -> Seq<char> {
    match config_name {
        Some(name) => name@,
        None => {
            let base = if display_name.len() == 0 {
                id
            } else {
                display_name
            };
            match config_suffix {
                Some(suffix) => base + suffix@,
                None => base,
            }
        },
    }
}

impl PricingCache {
    /// A cache of `data` stamped with the current time.
    pub fn stamped(data: Vec<ModelPricing>) -> (r: PricingCache)
        ensures
            r.data == data,
    {
        PricingCache { data, cached_at: now_rfc3339() }
    }
}


/// What comes next while a model's pricing is looked up. The lookup asks for
/// outside work (reading the environment and settings, a request to the
/// pricing service, writing the cache) one step at a time.
pub enum PricingStep {
    /// Find the base URL and report it with `PricingLookup::on_base_url`.
    ResolveBaseUrl,
    /// Fetch the pricing list from `url` and report the outcome with
    /// `PricingLookup::on_fetched`.
    Fetch { url: String },
    /// The lookup is over with `found`; when `save` holds a list, it is to be
    /// stored as the new cache.
    Finish { found: Option<ModelPricing>, save: Option<Vec<ModelPricing>> },
}

/// A lookup of one model's pricing, with the cache read from disk, if any.
pub struct PricingLookup {
    pub model_id: String,
    pub cached: Option<PricingCache>,
}

/// The cached list, empty when there is no cache.
pub open spec fn cached_list(cached: Option<PricingCache>) -> Seq<ModelPricing> {
    match cached {
        Some(c) => c.data@,
        None => Seq::empty(),
    }
}

/// The path of the pricing endpoint under the base URL.
pub open spec fn pricing_path() -> Seq<char> {
    "api/pricing"@
}

impl PricingLookup {
    pub fn new(model_id: String, cached: Option<PricingCache>) -> (r: PricingLookup)
        ensures
            r.model_id == model_id,
            r.cached == cached,
    {
        PricingLookup { model_id, cached }
    }

    /// The first step: a fresh cache answers at once, without asking the
    /// network; otherwise the base URL is wanted. Whether the cache is fresh
    /// rests on the clock (see `ModelSegment::is_cache_valid`); without a cache,
    /// or with a stamp that does not parse, the base URL is always wanted.
    pub fn start(&self, cache_duration: u64) -> (r: PricingStep)
        ensures
            r is ResolveBaseUrl || r is Finish,
            r is Finish ==> self.cached is Some && rfc3339_accepts(self.cached->0.cached_at@),
            r matches PricingStep::Finish { found, save } ==> found == pricing_for(
                cached_list(self.cached),
                self.model_id@,
            ) && save is None,
    {
        let valid = match &self.cached {
            Some(c) => ModelSegment::is_cache_valid(c, cache_duration),
            None => false,
        };
        self.after_cache_check(valid)
    }

    /// The step once the cache has been judged: fresh (`cache_valid`) and
    /// present, the cached list answers; else the base URL is wanted.
    pub fn after_cache_check(&self, cache_valid: bool) -> (r: PricingStep)
        ensures
            if cache_valid && self.cached is Some {
                r matches PricingStep::Finish { found, save } && found == pricing_for(
                    cached_list(self.cached),
                    self.model_id@,
                ) && save is None
            } else {
                r is ResolveBaseUrl
            },
    {
        match &self.cached {
            Some(c) => {
                if cache_valid {
                    PricingStep::Finish {
                        found: ModelSegment::find_pricing(&c.data, self.model_id.as_str()),
                        save: None,
                    }
                } else {
                    PricingStep::ResolveBaseUrl
                }
            },
            None => PricingStep::ResolveBaseUrl,
        }
    }

    /// The step once the base URL is known: with none, the stale cache is
    /// searched with the loose match; with one, the pricing list is fetched
    /// from its pricing endpoint.
    pub fn on_base_url(&self, base_url: Option<&str>) -> (r: PricingStep)
        ensures
            match base_url {
                None => r matches PricingStep::Finish { found, save } && found == (if self.cached
                    is Some {
                    first_matching(cached_list(self.cached), MatchRule::Any, self.model_id@)
                } else {
                    None
                }) && save is None,
                Some(u) => r matches PricingStep::Fetch { url } && url@ == endpoint(
                    u@,
                    pricing_path(),
                ),
            },
    {
        match base_url {
            None => {
                let found = match &self.cached {
                    Some(c) => ModelSegment::find_pricing_loosely(&c.data, self.model_id.as_str()),
                    None => None,
                };
                PricingStep::Finish { found, save: None }
            },
            Some(u) => PricingStep::Fetch { url: endpoint_url(u, "api/pricing") },
        }
    }

    /// The last step, once the fetch is over: a fetched list answers and is to
    /// be cached; when the fetch failed, the cached list answers (an empty one
    /// without a cache) and nothing is saved.
    pub fn on_fetched(self, fetched: Option<Vec<ModelPricing>>) -> (r: PricingStep)
        ensures
            r matches PricingStep::Finish { found, save } && match fetched {
                Some(d) => found == pricing_for(d@, self.model_id@) && save == Some(d),
                None => found == pricing_for(cached_list(self.cached), self.model_id@)
                    && save is None,
            },
    {
        match fetched {
            Some(d) => {
                let found = ModelSegment::find_pricing(&d, self.model_id.as_str());
                PricingStep::Finish { found, save: Some(d) }
            },
            None => {
                let list = match self.cached {
                    Some(c) => c.data,
                    None => Vec::new(),
                };
                let found = ModelSegment::find_pricing(&list, self.model_id.as_str());
                PricingStep::Finish { found, save: None }
            },
        }
    }
}


/// An entry named exactly as the model is what the lookup finds, when the
/// list has one.
pub proof fn lemma_exact_name_wins(list: Seq<ModelPricing>, id: Seq<char>, i: int)
    requires
        0 <= i < list.len(),
        list[i].model_name@ == id,
    ensures
        pricing_for(list, id) matches Some(m) && m.model_name@ == id,
{
    lemma_first_match_found(list, MatchRule::Exact, id);
    if first_match(list, MatchRule::Exact, id) is None {
        lemma_first_match_none(list, MatchRule::Exact, id, i);
    }
}

/// A rule that holds of entry `i` leaves `first_match` something to find.
pub proof fn lemma_first_match_none(list: Seq<ModelPricing>, rule: MatchRule, id: Seq<char>, i: int)
    requires
        0 <= i < list.len(),
        matches_rule(rule, list[i], id),
    ensures
        first_match(list, rule, id) is Some,
    decreases list.len(),
{
    if i > 0 && !matches_rule(rule, list[0], id) {
        assert(list.drop_first()[i - 1] == list[i]);
        lemma_first_match_none(list.drop_first(), rule, id, i - 1);
    }
}

/// What the lookup finds is an entry of the list whose name equals the
/// model id, is a prefix of it, or starts with it; and it finds one whenever
/// the list holds such an entry, exactly when the loose lookup does.
pub proof fn lemma_lookup_sound_and_complete(list: Seq<ModelPricing>, id: Seq<char>)
    ensures
        pricing_for(list, id) matches Some(m) ==> list.contains(m) && matches_rule(
            MatchRule::Any,
            m,
            id,
        ),
        pricing_for(list, id) is Some <==> (exists|i: int|
            0 <= i < list.len() && matches_rule(MatchRule::Any, #[trigger] list[i], id)),
        pricing_for(list, id) is Some <==> first_matching(list, MatchRule::Any, id) is Some,
{
    lemma_first_match_found(list, MatchRule::Exact, id);
    lemma_first_match_found(list, MatchRule::IdExtendsName, id);
    lemma_first_match_found(list, MatchRule::NameExtendsId, id);
    lemma_first_match_found(list, MatchRule::Any, id);
    if exists|i: int| 0 <= i < list.len() && matches_rule(MatchRule::Any, #[trigger] list[i], id) {
        let i = choose|i: int| 0 <= i < list.len() && matches_rule(MatchRule::Any, #[trigger] list[i], id);
        lemma_first_match_none(list, MatchRule::Any, id, i);
        if list[i].model_name@ == id {
            lemma_first_match_none(list, MatchRule::Exact, id, i);
        } else if starts_with(id, list[i].model_name@) {
            lemma_first_match_none(list, MatchRule::IdExtendsName, id, i);
        } else {
            lemma_first_match_none(list, MatchRule::NameExtendsId, id, i);
        }
    }
    if let Some(m) = pricing_for(list, id) {
        let k = if first_match(list, MatchRule::Exact, id) is Some {
            first_match(list, MatchRule::Exact, id)->0
        } else if first_match(list, MatchRule::IdExtendsName, id) is Some {
            first_match(list, MatchRule::IdExtendsName, id)->0
        } else {
            first_match(list, MatchRule::NameExtendsId, id)->0
        };
        assert(list[k] == m);
        assert(matches_rule(MatchRule::Any, list[k], id));
    }
}


/// When no entry is named exactly as the model, an entry whose name the model
/// id starts with is preferred to every entry whose name merely starts with
/// the id: the lookup gives the earliest entry whose name is a prefix of the id.
pub proof fn lemma_prefix_of_id_before_extensions(list: Seq<ModelPricing>, id: Seq<char>, i: int)
    requires
        forall|j: int| 0 <= j < list.len() ==> (#[trigger] list[j]).model_name@ != id,
        0 <= i < list.len(),
        starts_with(id, list[i].model_name@),
    ensures
        pricing_for(list, id) matches Some(m) && exists|k: int|
            0 <= k < list.len() && m == list[k] && starts_with(id, list[k].model_name@) && (
            forall|j: int| 0 <= j < k ==> !starts_with(id, (#[trigger] list[j]).model_name@)),
{
    assert forall|j: int| 0 <= j < list.len() implies !matches_rule(
        MatchRule::Exact,
        #[trigger] list[j],
        id,
    ) by {}
    lemma_first_match(list, MatchRule::Exact, id, list.len() as int);
    lemma_first_match_none(list, MatchRule::IdExtendsName, id, i);
    lemma_first_match_found(list, MatchRule::IdExtendsName, id);
    let k = first_match(list, MatchRule::IdExtendsName, id)->0;
    assert(forall|j: int| 0 <= j < k ==> !matches_rule(MatchRule::IdExtendsName, #[trigger] list[j], id));
    assert forall|j: int| 0 <= j < k implies !starts_with(id, (#[trigger] list[j]).model_name@) by {
        assert(!matches_rule(MatchRule::IdExtendsName, list[j], id));
    }
}

/// When no entry is named as the model and no entry's name is a prefix of the
/// model id, the lookup gives the earliest entry whose name starts with the id,
/// and nothing when there is none.
pub proof fn lemma_extension_of_id_last(list: Seq<ModelPricing>, id: Seq<char>)
    requires
        forall|j: int| 0 <= j < list.len() ==> (#[trigger] list[j]).model_name@ != id,
        forall|j: int| 0 <= j < list.len() ==> !starts_with(id, (#[trigger] list[j]).model_name@),
    ensures
        match pricing_for(list, id) {
            Some(m) => exists|k: int|
                0 <= k < list.len() && m == list[k] && starts_with(list[k].model_name@, id) && (
                forall|j: int| 0 <= j < k ==> !starts_with((#[trigger] list[j]).model_name@, id)),
            None => forall|j: int| 0 <= j < list.len() ==> !starts_with(
                (#[trigger] list[j]).model_name@,
                id,
            ),
        },
{
    assert forall|j: int| 0 <= j < list.len() implies !matches_rule(
        MatchRule::Exact,
        #[trigger] list[j],
        id,
    ) by {}
    assert forall|j: int| 0 <= j < list.len() implies !matches_rule(
        MatchRule::IdExtendsName,
        #[trigger] list[j],
        id,
    ) by {}
    lemma_first_match(list, MatchRule::Exact, id, list.len() as int);
    lemma_first_match(list, MatchRule::IdExtendsName, id, list.len() as int);
    lemma_first_match_found(list, MatchRule::NameExtendsId, id);
    if let Some(k) = first_match(list, MatchRule::NameExtendsId, id) {
        assert forall|j: int| 0 <= j < k implies !starts_with((#[trigger] list[j]).model_name@, id) by {
            assert(!matches_rule(MatchRule::NameExtendsId, list[j], id));
        }
    } else {
        assert forall|j: int| 0 <= j < list.len() implies !starts_with(
            (#[trigger] list[j]).model_name@,
            id,
        ) by {
            if starts_with(list[j].model_name@, id) {
                lemma_first_match_none(list, MatchRule::NameExtendsId, id, j);
            }
        }
    }
}

/// Without a configured name, the shown name starts with the display name, or
/// with the id when the display name is empty; it is followed by the configured
/// suffix and nothing else, so without a suffix it is exactly that base. A
/// configured name is shown as it is.
pub proof fn lemma_model_name_parts(
    id: Seq<char>,
    display_name: Seq<char>,
    config_name: Option<String>,
    config_suffix: Option<String>,
)
    ensures
        config_name matches Some(n) ==> model_name_text(id, display_name, config_name, config_suffix)
            == n@,
        config_name is None ==> {
            let shown = model_name_text(id, display_name, config_name, config_suffix);
            let base = if display_name.len() > 0 {
                display_name
            } else {
                id
            };
            let extra: Seq<char> = match config_suffix {
                Some(s) => s@,
                None => Seq::empty(),
            };
            &&& shown.len() == base.len() + extra.len()
            &&& starts_with(shown, base)
            &&& shown.subrange(base.len() as int, shown.len() as int) == extra
            &&& (config_suffix is None ==> shown == base)
        },
{
    if config_name is None {
        let shown = model_name_text(id, display_name, config_name, config_suffix);
        let base = if display_name.len() > 0 {
            display_name
        } else {
            id
        };
        match config_suffix {
            Some(s) => {
                assert(shown =~= base + s@);
                assert(shown.subrange(0, base.len() as int) =~= base);
                assert(shown.subrange(base.len() as int, shown.len() as int) =~= s@);
            },
            None => {
                assert(shown =~= base);
                assert(shown.subrange(0, base.len() as int) =~= base);
                assert(shown.subrange(base.len() as int, shown.len() as int) =~= Seq::<char>::empty());
            },
        }
    }
}

} // verus!
