//! The quota segment: the account's name and what is left of its token quota.

use vstd::prelude::*;
use crate::segment::{pairs_view, SegmentData};
use crate::text::{
    bool_text, bool_to_text, decimal, decimal_text, join, join_texts, same_text, signed_decimal,
    signed_decimal_text, sort_texts, text_before, text_before_char, text_order, texts_view, trim,
    trim_text,
};

verus! {

/// The quota segment.
#[derive(Default)]
pub struct QuotaSegment;

/// The account's token usage, as the usage endpoint reports it; of the model
/// limits only the model names are kept.
pub struct TokenUsageData {
    pub object: String,
    pub name: String,
    pub total_granted: u64,
    pub total_used: u64,
    pub total_available: u64,
    pub unlimited_quota: bool,
    pub model_limit_names: Vec<String>,
    pub model_limits_enabled: bool,
    pub expires_at: i64,
}

/// The usage endpoint's answer.
pub struct QuotaResponse {
    pub code: bool,
    pub data: TokenUsageData,
}

/// The unit in which a token count is shown.
#[derive(PartialEq, Eq, Structural, Debug, Clone, Copy)]
pub enum CountUnit {
    /// Below a thousand: the plain number.
    Units,
    /// From a thousand: thousands, with `k`.
    Thousands,
    /// From a million: millions, with `M`.
    Millions,
    /// From a billion: billions, with `B`.
    Billions,
}

pub open spec fn unit_for(value: u64) -> CountUnit {
    if value >= 1_000_000_000 {
        CountUnit::Billions
    } else if value >= 1_000_000 {
        CountUnit::Millions
    } else if value >= 1_000 {
        CountUnit::Thousands
    } else {
        CountUnit::Units
    }
}

impl CountUnit {
    /// How many tokens one unit stands for.
    pub fn divisor(self) -> (r: u64)
        ensures
            r == match self {
                CountUnit::Units => 1u64,
                CountUnit::Thousands => 1_000u64,
                CountUnit::Millions => 1_000_000u64,
                CountUnit::Billions => 1_000_000_000u64,
            },
    {
        match self {
            CountUnit::Units => 1,
            CountUnit::Thousands => 1_000,
            CountUnit::Millions => 1_000_000,
            CountUnit::Billions => 1_000_000_000,
        }
    }

    /// The letter written after a scaled count; none for plain numbers.
    pub fn suffix(self) -> (r: Option<char>)
        ensures
            r == match self {
                CountUnit::Units => None,
                CountUnit::Thousands => Some('k'),
                CountUnit::Millions => Some('M'),
                CountUnit::Billions => Some('B'),
            },
    {
        match self {
            CountUnit::Units => None,
            CountUnit::Thousands => Some('k'),
            CountUnit::Millions => Some('M'),
            CountUnit::Billions => Some('B'),
        }
    }
}

/// The name shown for an account: the trimmed name up to its first `(`,
/// trimmed again; the whole trimmed name when nothing is left of that.
pub open spec fn display_name_of(name: Seq<char>) -> Seq<char> {
    let t = trim(name);
    let short = trim(text_before(t, '('));
    if short.len() == 0 {
        t
    } else {
        short
    }
}

/// Whether the usage endpoint's answer is one the segment shows.
pub open spec fn response_accepted(response: QuotaResponse) -> bool {
    response.code && response.data.object@ == "token_usage"@
}

/// When the quota runs out, as shown: `never` for 0.
pub open spec fn expiry_text(expires_at: i64) -> Seq<char> {
    if expires_at == 0 {
        "never"@
    } else {
        signed_decimal(expires_at as int)
    }
}

/// The details the quota segment reports, in order.
pub open spec fn quota_metadata(base_url: Seq<char>, d: TokenUsageData) -> Seq<
    (Seq<char>, Seq<char>),
> {
    let names = texts_view(d.model_limit_names@);
    let fixed = seq![
        ("name"@, d.name@),
        ("total_granted"@, decimal(d.total_granted as nat)),
        ("total_used"@, decimal(d.total_used as nat)),
        ("total_available"@, decimal(d.total_available as nat)),
        ("unlimited_quota"@, bool_text(d.unlimited_quota)),
        ("model_limits_enabled"@, bool_text(d.model_limits_enabled)),
        ("model_limit_count"@, decimal(names.len())),
        ("expires_at"@, signed_decimal(d.expires_at as int)),
        ("expires_at_display"@, expiry_text(d.expires_at)),
        ("base_url"@, base_url),
    ];
    if names.len() > 0 {
        fixed.push(("model_limits"@, join(names.sort_by(text_order()), ","@)))
    } else {
        fixed
    }
}

/// Adds a pair to `pairs`.
fn push_pair(pairs: &mut Vec<(String, String)>, key: &str, value: String)
    ensures
        pairs_view(final(pairs)@) == pairs_view(old(pairs)@).push((key@, value@)),
{
    let ghost before = pairs_view(pairs@);
    pairs.push((String::from_str(key), value));
    assert(pairs_view(pairs@) =~= before.push((key@, value@)));
}

impl QuotaSegment {
    pub fn new() -> Self {
        QuotaSegment
    }

    /// The unit in which `value` tokens are shown: billions from a billion,
    /// millions from a million, thousands from a thousand, else plain.
    pub fn count_unit(value: u64) -> (r: CountUnit)
        ensures
            r == unit_for(value),
    {
        if value >= 1_000_000_000 {
            CountUnit::Billions
        } else if value >= 1_000_000 {
            CountUnit::Millions
        } else if value >= 1_000 {
            CountUnit::Thousands
        } else {
            CountUnit::Units
        }
    }

    /// The name shown for an account (see `display_name_of`).
    pub fn format_display_name(name: &str) -> (r: String)
        ensures
            r@ == display_name_of(name@),
    {
        let trimmed = trim_text(name);
        let before = text_before_char(trimmed.as_str(), '(');
        let short = trim_text(before.as_str());
        if short.unicode_len() == 0 {
            trimmed
        } else {
            short
        }
    }

    /// Whether the usage endpoint's answer is one the segment shows: its
    /// `code` is set and its data is of the `token_usage` kind.
    pub fn accepts(response: &QuotaResponse) -> (r: bool)
        ensures
            r == response_accepted(*response),
    {
        response.code && same_text(response.data.object.as_str(), "token_usage")
    }

    /// The details of a usage answer: counts and flags in decimal and
    /// `true`/`false`, the expiry (`never` for 0), the base URL, and the model
    /// names of the limits, sorted and joined with `,`, when there are any.
    pub fn quota_details(base_url: &str, d: &TokenUsageData) -> (r: Vec<(String, String)>)
        ensures
            pairs_view(r@) == quota_metadata(base_url@, *d),
    {
        let mut m: Vec<(String, String)> = Vec::new();
        push_pair(&mut m, "name", d.name.clone());
        push_pair(&mut m, "total_granted", decimal_text(d.total_granted));
        push_pair(&mut m, "total_used", decimal_text(d.total_used));
        push_pair(&mut m, "total_available", decimal_text(d.total_available));
        push_pair(&mut m, "unlimited_quota", bool_to_text(d.unlimited_quota));
        push_pair(&mut m, "model_limits_enabled", bool_to_text(d.model_limits_enabled));
        let count = d.model_limit_names.len();
        push_pair(&mut m, "model_limit_count", decimal_text(count as u64));
        push_pair(&mut m, "expires_at", signed_decimal_text(d.expires_at));
        let expiry = if d.expires_at == 0 {
            String::from_str("never")
        } else {
            signed_decimal_text(d.expires_at)
        };
        push_pair(&mut m, "expires_at_display", expiry);
        push_pair(&mut m, "base_url", String::from_str(base_url));
        if count > 0 {
            let sorted = sort_texts(&d.model_limit_names);
            push_pair(&mut m, "model_limits", join_texts(&sorted, ","));
        }
        assert(pairs_view(m@) =~= quota_metadata(base_url@, *d));
        m
    }

    /// The segment for a usage answer: nothing when the answer is not accepted
    /// (see `accepts`); else the account's display name, `· ` followed by
    /// `quota_display`, and the details of `quota_details`.
    pub fn segment_from_response(base_url: &str, response: &QuotaResponse, quota_display: &str) -> (r:
        Option<SegmentData>)
        ensures
            r is None <==> !response_accepted(*response),
            r matches Some(seg) ==> {
                &&& seg.primary@ == display_name_of(response.data.name@)
                &&& seg.secondary@ == "\u{b7} "@ + quota_display@
                &&& pairs_view(seg.metadata@) == quota_metadata(base_url@, response.data)
            },
    {
        if !Self::accepts(response) {
            return None;
        }
        let primary = Self::format_display_name(response.data.name.as_str());
        let mut secondary = String::from_str("\u{b7} ");
        secondary.append(quota_display);
        let metadata = Self::quota_details(base_url, &response.data);
        Some(SegmentData { primary, secondary, metadata })
    }
}

/// Showing an account's name is idempotent: the shown name of a shown name is
/// the shown name itself.
pub proof fn lemma_display_name_idempotent(name: Seq<char>)
    ensures
        display_name_of(display_name_of(name)) == display_name_of(name),
{
    let t = trim(name);
    let before = text_before(t, '(');
    let short = trim(before);
    crate::text::lemma_trim_idempotent(name);
    crate::text::lemma_trim_idempotent(before);
    if short.len() == 0 {
        assert(display_name_of(name) == t);
        assert(trim(t) == t);
    } else {
        crate::text::lemma_text_before_lacks(t, '(');
        crate::text::lemma_trim_keeps_absent(before, '(');
        crate::text::lemma_text_before_absent(short, '(');
        assert(trim(short) == short);
    }
}


/// The details do not depend on the order in which the model limits come (the
/// usage answer holds them in a map, whose order is arbitrary): two answers
/// that differ only in that order give the same details.
pub proof fn lemma_details_ignore_limit_order(base_url: Seq<char>, a: TokenUsageData, b: TokenUsageData)
    requires
        a.name@ == b.name@,
        a.total_granted == b.total_granted,
        a.total_used == b.total_used,
        a.total_available == b.total_available,
        a.unlimited_quota == b.unlimited_quota,
        a.model_limits_enabled == b.model_limits_enabled,
        a.expires_at == b.expires_at,
        texts_view(a.model_limit_names@).to_multiset() == texts_view(
            b.model_limit_names@,
        ).to_multiset(),
    ensures
        quota_metadata(base_url, a) == quota_metadata(base_url, b),
{
    broadcast use vstd::seq_lib::group_to_multiset_ensures;

    let va = texts_view(a.model_limit_names@);
    let vb = texts_view(b.model_limit_names@);
    assert(va.len() == va.to_multiset().len());
    assert(vb.len() == vb.to_multiset().len());
    crate::text::lemma_sort_ignores_order(va, vb);
}


/// The expiry is shown as `never` exactly when it is 0; any other expiry is
/// shown as its own decimal text, the same text as the raw `expires_at` detail,
/// which reads back as the expiry.
pub proof fn lemma_expiry_display(base_url: Seq<char>, d: TokenUsageData)
    ensures
        ({
            let m = quota_metadata(base_url, d);
            &&& m[7].0 == "expires_at"@
            &&& m[8].0 == "expires_at_display"@
            &&& (m[8].1 == "never"@ <==> d.expires_at == 0)
            &&& d.expires_at != 0 ==> m[8].1 == m[7].1
            &&& d.expires_at >= 0 ==> crate::text::digits_value(m[7].1) == d.expires_at
            &&& d.expires_at < 0 ==> m[7].1[0] == '-' && crate::text::digits_value(
                m[7].1.drop_first(),
            ) == -d.expires_at
        }),
{
    reveal_strlit("never");
    crate::text::lemma_signed_decimal_reads_back(d.expires_at as int);
    let m = quota_metadata(base_url, d);
    let text = signed_decimal(d.expires_at as int);
    assert(m[7].1 == text);
    if d.expires_at != 0 {
        assert(m[8].1 == text);
        assert("never"@[0] == 'n');
        assert(text != "never"@);
    }
}

} // verus!
