use ccline::model::{
    ModelPricing, ModelSegment, PricingCache, PricingEntry, PricingLookup, PricingStep,
};
use ccline::quota::{CountUnit, QuotaResponse, QuotaSegment, TokenUsageData};
use ccline::settings::{
    bearer_header, choose_settings_source, debug_flag_enabled, endpoint_url, http_ok,
    needs_settings, resolve_credential, ClaudeEnv, ClaudeSettings, Credential, SettingsSource,
};
use ccline::text::{
    ascii_lowercase, decimal_text, join_texts, signed_decimal_text, sort_texts, starts_with_text,
    text_before_char, text_le_exec, trim_text,
};

fn pricing(name: &str, r: f64, c: f64) -> ModelPricing {
    ModelPricing { model_name: name.to_string(), model_ratio: r.to_bits(), completion_ratio: c.to_bits() }
}

fn names(list: &Option<ModelPricing>) -> Option<String> {
    list.as_ref().map(|m| m.model_name.clone())
}

#[test]
fn trim_removes_unicode_whitespace() {
    assert_eq!(trim_text("  \t hello world \n"), "hello world");
    assert_eq!(trim_text("\u{3000}x\u{a0}"), "x");
    assert_eq!(trim_text("   "), "");
    assert_eq!(trim_text(""), "");
    assert_eq!(trim_text("a b"), "a b");
}

#[test]
fn text_before_first_paren() {
    assert_eq!(text_before_char("Team (pro)", '('), "Team ");
    assert_eq!(text_before_char("no paren", '('), "no paren");
    assert_eq!(text_before_char("(x)", '('), "");
}

#[test]
fn decimals_as_to_string() {
    for n in [0u64, 7, 10, 99, 100, 12345, u64::MAX] {
        assert_eq!(decimal_text(n), n.to_string());
    }
    for i in [0i64, -1, 42, -987654, i64::MIN, i64::MAX] {
        assert_eq!(signed_decimal_text(i), i.to_string());
    }
}

#[test]
fn lowercase_and_prefix() {
    assert_eq!(ascii_lowercase("TrUe-Ü"), "true-Ü");
    assert!(starts_with_text("sonnet-3-opus", "sonnet-3"));
    assert!(!starts_with_text("sonnet", "sonnet-3"));
    assert!(starts_with_text("anything", ""));
}

#[test]
fn lexicographic_order_matches_std() {
    let pairs = [("a", "b"), ("b", "a"), ("ab", "a"), ("a", "ab"), ("", "x"), ("x", "x"), ("é", "z"), ("z", "é")];
    for (a, b) in pairs {
        assert_eq!(text_le_exec(a, b), a <= b, "{a} {b}");
    }
}

#[test]
fn sort_and_join_like_std() {
    let input: Vec<String> = ["gpt-4", "sonnet", "Zeta", "sonnet-3", "a"].iter().map(|s| s.to_string()).collect();
    let sorted = sort_texts(&input);
    let mut expected = input.clone();
    expected.sort();
    assert_eq!(sorted, expected);
    assert_eq!(join_texts(&sorted, ","), expected.join(","));
    assert_eq!(join_texts(&Vec::new(), ","), "");
}

#[test]
fn sort_ignores_input_order() {
    let a: Vec<String> = ["m2", "m1", "m3"].iter().map(|s| s.to_string()).collect();
    let b: Vec<String> = ["m3", "m2", "m1"].iter().map(|s| s.to_string()).collect();
    assert_eq!(sort_texts(&a), sort_texts(&b));
}

#[test]
fn debug_flag_words() {
    for v in ["1", "true", "TRUE", "Yes", "on", "ON"] {
        assert!(debug_flag_enabled(Some(v)), "{v}");
    }
    for v in ["0", "false", "", " true", "enabled"] {
        assert!(!debug_flag_enabled(Some(v)), "{v}");
    }
    assert!(!debug_flag_enabled(None));
}

#[test]
fn settings_source_prefers_config_dir() {
    assert_eq!(choose_settings_source(Some(true), Some(true)), Some(SettingsSource::ConfigDir));
    assert_eq!(choose_settings_source(Some(false), Some(true)), Some(SettingsSource::Home));
    assert_eq!(choose_settings_source(None, Some(true)), Some(SettingsSource::Home));
    assert_eq!(choose_settings_source(Some(false), Some(false)), None);
    assert_eq!(choose_settings_source(None, None), None);
}

fn settings(url: Option<&str>, token: Option<&str>) -> ClaudeSettings {
    ClaudeSettings {
        env: Some(ClaudeEnv {
            anthropic_base_url: url.map(str::to_string),
            anthropic_auth_token: token.map(str::to_string),
        }),
    }
}

#[test]
fn credential_environment_wins() {
    let s = settings(Some("https://file.example"), Some("file-token"));
    assert_eq!(
        resolve_credential(Some("  https://env.example  "), Some(&s), Credential::BaseUrl),
        Some("https://env.example".to_string())
    );
    assert!(!needs_settings(Some(" https://env.example ")));
}

#[test]
fn credential_falls_back_to_settings() {
    let s = settings(Some(" https://file.example/ "), Some(" tok "));
    assert!(needs_settings(Some("   ")));
    assert!(needs_settings(None));
    assert_eq!(resolve_credential(Some("   "), Some(&s), Credential::BaseUrl), Some("https://file.example/".to_string()));
    assert_eq!(resolve_credential(None, Some(&s), Credential::AuthToken), Some("tok".to_string()));
}

#[test]
fn credential_blank_everywhere_is_none() {
    let s = settings(Some("  "), None);
    assert_eq!(resolve_credential(None, Some(&s), Credential::BaseUrl), None);
    assert_eq!(resolve_credential(None, Some(&s), Credential::AuthToken), None);
    assert_eq!(resolve_credential(None, None, Credential::BaseUrl), None);
    assert_eq!(resolve_credential(None, Some(&ClaudeSettings { env: None }), Credential::BaseUrl), None);
}

#[test]
fn endpoints_have_one_slash() {
    assert_eq!(endpoint_url("https://h.example", "api/pricing"), "https://h.example/api/pricing");
    assert_eq!(endpoint_url("https://h.example/", "api/pricing"), "https://h.example/api/pricing");
    assert_eq!(endpoint_url("https://h.example/", "api/usage/token/"), "https://h.example/api/usage/token/");
    assert_eq!(bearer_header("abc"), "Bearer abc");
    assert!(http_ok(200));
    assert!(!http_ok(204));
}

#[test]
fn lookup_prefers_exact_then_prefixes() {
    let list = vec![
        pricing("sonnet-3", 1.0, 2.0),
        pricing("sonnet-3-opus-20240229", 3.0, 4.0),
        pricing("sonnet-3-opus", 5.0, 6.0),
    ];
    assert_eq!(names(&ModelSegment::find_pricing(&list, "sonnet-3-opus")), Some("sonnet-3-opus".to_string()));
    assert_eq!(names(&ModelSegment::find_pricing(&list, "sonnet-3-opus-x")), Some("sonnet-3".to_string()));
    assert_eq!(names(&ModelSegment::find_pricing(&list, "sonnet")), Some("sonnet-3".to_string()));
    assert_eq!(names(&ModelSegment::find_pricing(&list, "gpt")), None);
    assert_eq!(names(&ModelSegment::find_pricing(&Vec::new(), "gpt")), None);
    let found = ModelSegment::find_pricing(&list, "sonnet-3-opus").unwrap();
    assert_eq!(f64::from_bits(found.model_ratio), 5.0);
    assert_eq!(f64::from_bits(found.completion_ratio), 6.0);
}

#[test]
fn loose_lookup_takes_first_of_any_kind() {
    let list = vec![pricing("sonnet-3-opus-long", 1.0, 1.0), pricing("sonnet-3-opus", 2.0, 2.0)];
    assert_eq!(names(&ModelSegment::find_pricing_loosely(&list, "sonnet-3-opus")), Some("sonnet-3-opus-long".to_string()));
    assert_eq!(names(&ModelSegment::find_pricing(&list, "sonnet-3-opus")), Some("sonnet-3-opus".to_string()));
    assert_eq!(names(&ModelSegment::find_pricing_loosely(&list, "other")), None);
}

#[test]
fn complete_pricing_drops_partial_entries() {
    let entries = vec![
        PricingEntry { model_name: "a".into(), model_ratio: Some(1.5f64.to_bits()), completion_ratio: Some(2.0f64.to_bits()) },
        PricingEntry { model_name: "b".into(), model_ratio: None, completion_ratio: Some(2.0f64.to_bits()) },
        PricingEntry { model_name: "c".into(), model_ratio: Some(1.0f64.to_bits()), completion_ratio: None },
        PricingEntry { model_name: "d".into(), model_ratio: Some(0.5f64.to_bits()), completion_ratio: Some(4.0f64.to_bits()) },
    ];
    let out = ModelSegment::complete_pricing(entries);
    let got: Vec<&str> = out.iter().map(|m| m.model_name.as_str()).collect();
    assert_eq!(got, vec!["a", "d"]);
    assert_eq!(f64::from_bits(out[0].model_ratio), 1.5);
    assert_eq!(f64::from_bits(out[1].completion_ratio), 4.0);
}

#[test]
fn cache_freshness() {
    assert!(ModelSegment::cache_fresh(10, 3600));
    assert!(!ModelSegment::cache_fresh(3600, 3600));
    assert!(ModelSegment::cache_fresh(-5, 0));
    // a lifetime beyond i64::MAX wraps to a negative number
    assert!(!ModelSegment::cache_fresh(0, u64::MAX));
    let bad = PricingCache { data: Vec::new(), cached_at: "not a time".into() };
    assert!(!ModelSegment::is_cache_valid(&bad, u64::MAX / 4));
    let long_ago = PricingCache { data: Vec::new(), cached_at: "2000-01-01T00:00:00+00:00".into() };
    assert!(!ModelSegment::is_cache_valid(&long_ago, 3600));
    assert!(ModelSegment::is_cache_valid(&long_ago, 1u64 << 62));
}

#[test]
fn stamped_cache_is_fresh() {
    let cache = PricingCache::stamped(vec![pricing("m", 1.0, 1.0)]);
    assert_eq!(cache.data.len(), 1);
    assert!(ModelSegment::is_cache_valid(&cache, 3600));
}

#[test]
fn pricing_options_defaults() {
    assert_eq!(ModelSegment::pricing_options(None, None), (3600, 3));
    assert_eq!(ModelSegment::pricing_options(Some(10), Some(7)), (10, 7));
}

#[test]
fn fresh_cache_answers_without_network() {
    let cache = PricingCache::stamped(vec![pricing("sonnet-x", 1.0, 2.0)]);
    let lookup = PricingLookup::new("sonnet-x".into(), Some(cache));
    match lookup.start(3600) {
        PricingStep::Finish { found, save } => {
            assert_eq!(names(&found), Some("sonnet-x".to_string()));
            assert!(save.is_none());
        }
        _ => panic!("a fresh cache answers at once"),
    }
}

#[test]
fn stale_cache_asks_for_base_url() {
    let cache = PricingCache { data: vec![pricing("sonnet-x", 1.0, 2.0)], cached_at: "2000-01-01T00:00:00Z".into() };
    let lookup = PricingLookup::new("sonnet-x".into(), Some(cache));
    assert!(matches!(lookup.start(3600), PricingStep::ResolveBaseUrl));
    assert!(matches!(PricingLookup::new("m".into(), None).start(3600), PricingStep::ResolveBaseUrl));
    assert!(matches!(lookup.after_cache_check(false), PricingStep::ResolveBaseUrl));
    assert!(matches!(lookup.after_cache_check(true), PricingStep::Finish { .. }));
}

#[test]
fn base_url_leads_to_fetch_or_fallback() {
    let cache = PricingCache { data: vec![pricing("sonnet-x-long", 1.0, 2.0)], cached_at: "bad".into() };
    let lookup = PricingLookup::new("sonnet-x".into(), Some(cache));
    match lookup.on_base_url(Some("https://h.example/")) {
        PricingStep::Fetch { url } => assert_eq!(url, "https://h.example/api/pricing"),
        _ => panic!("a base URL means a fetch"),
    }
    match lookup.on_base_url(None) {
        PricingStep::Finish { found, save } => {
            assert_eq!(names(&found), Some("sonnet-x-long".to_string()));
            assert!(save.is_none());
        }
        _ => panic!("no base URL falls back to the cache"),
    }
    match PricingLookup::new("m".into(), None).on_base_url(None) {
        PricingStep::Finish { found, save } => assert!(found.is_none() && save.is_none()),
        _ => panic!(),
    }
}

#[test]
fn fetched_list_is_used_and_saved() {
    let cache = PricingCache { data: vec![pricing("old", 1.0, 1.0)], cached_at: "bad".into() };
    let lookup = PricingLookup::new("new".into(), Some(cache));
    match lookup.on_fetched(Some(vec![pricing("new", 2.0, 3.0)])) {
        PricingStep::Finish { found, save } => {
            assert_eq!(names(&found), Some("new".to_string()));
            assert_eq!(save.map(|d| d.len()), Some(1));
        }
        _ => panic!(),
    }
    let cache = PricingCache { data: vec![pricing("old", 1.0, 1.0)], cached_at: "bad".into() };
    let lookup = PricingLookup::new("old".into(), Some(cache));
    match lookup.on_fetched(None) {
        PricingStep::Finish { found, save } => {
            assert_eq!(names(&found), Some("old".to_string()));
            assert!(save.is_none());
        }
        _ => panic!(),
    }
}

#[test]
fn model_name_formatting() {
    let seg = ModelSegment::new();
    assert_eq!(seg.format_model_name("id-1", "Display", Some("Configured".into()), Some("!".into())), "Configured");
    assert_eq!(seg.format_model_name("id-1", "Display", None, Some(" [1m]".into())), "Display [1m]");
    assert_eq!(seg.format_model_name("id-1", "", None, None), "id-1");
    assert_eq!(seg.format_model_name("id-1", "", None, Some("+".into())), "id-1+");
}

#[test]
fn display_name_cuts_at_paren() {
    assert_eq!(QuotaSegment::format_display_name("  Team Plan (monthly) "), "Team Plan");
    assert_eq!(QuotaSegment::format_display_name("(only parens)"), "(only parens)");
    assert_eq!(QuotaSegment::format_display_name("  plain  "), "plain");
    assert_eq!(QuotaSegment::format_display_name("   "), "");
    assert_eq!(QuotaSegment::format_display_name(" ( a ) (b) "), "( a ) (b)");
}

#[test]
fn display_name_idempotent_examples() {
    for s in ["  Team Plan (monthly) ", "(x) y", " a ( ", "", " \u{2003}k(z)"] {
        let once = QuotaSegment::format_display_name(s);
        assert_eq!(QuotaSegment::format_display_name(&once), once);
    }
}

#[test]
fn count_units() {
    assert_eq!(QuotaSegment::count_unit(999), CountUnit::Units);
    assert_eq!(QuotaSegment::count_unit(1_000), CountUnit::Thousands);
    assert_eq!(QuotaSegment::count_unit(999_999), CountUnit::Thousands);
    assert_eq!(QuotaSegment::count_unit(1_000_000), CountUnit::Millions);
    assert_eq!(QuotaSegment::count_unit(1_000_000_000), CountUnit::Billions);
    assert_eq!(QuotaSegment::count_unit(u64::MAX), CountUnit::Billions);
    assert_eq!(CountUnit::Millions.divisor(), 1_000_000);
    assert_eq!(CountUnit::Thousands.suffix(), Some('k'));
    assert_eq!(CountUnit::Units.suffix(), None);
    assert_eq!(CountUnit::Billions.suffix(), Some('B'));
}

fn usage(object: &str, limits: &[&str], expires_at: i64) -> TokenUsageData {
    TokenUsageData {
        object: object.into(),
        name: " Pro (team) ".into(),
        total_granted: 1000,
        total_used: 250,
        total_available: 750,
        unlimited_quota: false,
        model_limit_names: limits.iter().map(|s| s.to_string()).collect(),
        model_limits_enabled: true,
        expires_at,
    }
}

#[test]
fn quota_segment_built_from_answer() {
    let response = QuotaResponse { code: true, data: usage("token_usage", &["m-b", "m-a"], 0) };
    assert!(QuotaSegment::accepts(&response));
    let seg = QuotaSegment::segment_from_response("https://h.example", &response, "750 (75%)").unwrap();
    assert_eq!(seg.primary, "Pro");
    assert_eq!(seg.secondary, "\u{b7} 750 (75%)");
    let m: std::collections::HashMap<String, String> = seg.metadata.iter().cloned().collect();
    assert_eq!(m["name"], " Pro (team) ");
    assert_eq!(m["total_granted"], "1000");
    assert_eq!(m["total_used"], "250");
    assert_eq!(m["total_available"], "750");
    assert_eq!(m["unlimited_quota"], "false");
    assert_eq!(m["model_limits_enabled"], "true");
    assert_eq!(m["model_limit_count"], "2");
    assert_eq!(m["expires_at"], "0");
    assert_eq!(m["expires_at_display"], "never");
    assert_eq!(m["base_url"], "https://h.example");
    assert_eq!(m["model_limits"], "m-a,m-b");
    assert_eq!(seg.metadata.len(), 11);
}

#[test]
fn quota_without_limits_or_with_expiry() {
    let response = QuotaResponse { code: true, data: usage("token_usage", &[], -17) };
    let seg = QuotaSegment::segment_from_response("u", &response, "x").unwrap();
    let m: std::collections::HashMap<String, String> = seg.metadata.iter().cloned().collect();
    assert!(!m.contains_key("model_limits"));
    assert_eq!(m["model_limit_count"], "0");
    assert_eq!(m["expires_at"], "-17");
    assert_eq!(m["expires_at_display"], "-17");
    assert_eq!(seg.metadata.len(), 10);
}

#[test]
fn quota_answer_rejected() {
    let wrong_code = QuotaResponse { code: false, data: usage("token_usage", &[], 0) };
    assert!(QuotaSegment::segment_from_response("u", &wrong_code, "x").is_none());
    let wrong_object = QuotaResponse { code: true, data: usage("other", &[], 0) };
    assert!(!QuotaSegment::accepts(&wrong_object));
    assert!(QuotaSegment::segment_from_response("u", &wrong_object, "x").is_none());
}

#[test]
fn quota_details_ignore_limit_order() {
    let a = QuotaSegment::quota_details("u", &usage("token_usage", &["z", "y", "x"], 5));
    let b = QuotaSegment::quota_details("u", &usage("token_usage", &["x", "z", "y"], 5));
    assert_eq!(a, b);
}

#[test]
fn segments_construct() {
    let _m = ModelSegment::new();
    let _q = QuotaSegment::new();
    let _d: ModelSegment = Default::default();
    let _e: QuotaSegment = Default::default();
}
