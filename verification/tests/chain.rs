use auto_prompt::chain::{
    ChainState, get_iteration, increment_llm_failure_count, increment_verification_count,
    reset_iteration, reset_llm_failure_count,
};
use auto_prompt::config::{
    AutoPromptConfig, ConfigCache, Environment, OrchestrationProvider, invalidate_config_cache,
};
use auto_prompt::context::StopPhase;

#[test]
fn iterations_count_up_until_the_chain_is_stale() {
    let mut chain = ChainState::new();
    assert_eq!(get_iteration(&mut chain, 1_000), 1);
    assert_eq!(get_iteration(&mut chain, 1_300), 2);
    assert_eq!(get_iteration(&mut chain, 1_601), 1);
    assert_eq!(get_iteration(&mut chain, 900), 2);
    assert_eq!(chain.last_iteration_secs, 900);
    chain.iteration = u32::MAX;
    assert_eq!(get_iteration(&mut chain, 901), 0);
}

#[test]
fn a_reset_keeps_only_the_time() {
    let mut chain = ChainState::new();
    get_iteration(&mut chain, 50);
    increment_verification_count(&mut chain);
    assert_eq!(increment_llm_failure_count(&mut chain), 1);
    assert_eq!(increment_llm_failure_count(&mut chain), 2);
    assert_eq!(chain.stop_phase(), StopPhase::PreStop);
    reset_llm_failure_count(&mut chain);
    assert_eq!(chain.llm_failure_count, 0);
    assert_eq!(chain.verification_count, 1);
    reset_iteration(&mut chain);
    assert_eq!(
        chain,
        ChainState {
            last_iteration_secs: 50,
            ..ChainState::new()
        }
    );
    assert_eq!(chain.stop_phase(), StopPhase::Working);
}

#[test]
fn delays_double_up_to_a_minute() {
    let mut config = AutoPromptConfig::default();
    let delays: Vec<u64> = (0..8).map(|n| config.backoff_delay_ms(n)).collect();
    assert_eq!(
        delays,
        vec![2_000, 4_000, 8_000, 16_000, 32_000, 60_000, 60_000, 60_000]
    );
    config.backoff_base_ms = 10;
    assert_eq!(config.backoff_delay_ms(9), 5_120);
    config.backoff_base_ms = 100;
    assert_eq!(config.backoff_delay_ms(9), 51_200);
    assert_eq!(config.backoff_delay_ms(10), 60_000);
    config.backoff_base_ms = 1;
    assert_eq!(config.backoff_delay_ms(15), 32_768);
    assert_eq!(config.backoff_delay_ms(u32::MAX), 60_000);
    config.backoff_base_ms = 0;
    assert_eq!(config.backoff_delay_ms(u32::MAX), 0);
    config.backoff_base_ms = u64::MAX;
    assert_eq!(config.backoff_delay_ms(1), 60_000);
}

fn environment() -> Environment {
    Environment {
        system_prompt: None,
        max_iterations: None,
        max_context_tokens: None,
        backoff_base_ms: None,
        max_verification_attempts: None,
        max_llm_retries: None,
        same_thread_token_threshold: None,
        orchestration_provider: None,
        verdict_log_path: None,
        call_timeout_first_token_secs: None,
        call_timeout_per_event_secs: None,
        call_timeout_total_secs: None,
    }
}

#[test]
fn an_empty_environment_gives_the_defaults() {
    assert_eq!(
        AutoPromptConfig::from_env(environment()),
        AutoPromptConfig::default()
    );
}

#[test]
fn the_environment_overrides_what_it_can_read() {
    let text = |s: &str| Some(s.to_string());
    let config = AutoPromptConfig::from_env(Environment {
        system_prompt: text("mine"),
        max_iterations: text("7"),
        max_context_tokens: text("1e3"),
        backoff_base_ms: text("+9"),
        max_verification_attempts: text("4294967296"),
        max_llm_retries: text(""),
        same_thread_token_threshold: text("12"),
        orchestration_provider: text("Local-Only"),
        verdict_log_path: text("/tmp/v"),
        call_timeout_first_token_secs: text("90"),
        call_timeout_per_event_secs: text("x"),
        call_timeout_total_secs: text("180"),
    });
    assert_eq!(config.system_prompt.as_deref(), Some("mine"));
    assert_eq!(config.max_iterations, 7);
    assert_eq!(config.max_context_tokens, 80_000);
    assert_eq!(config.backoff_base_ms, 9);
    assert_eq!(config.max_verification_attempts, 2);
    assert_eq!(config.max_llm_retries, 3);
    assert_eq!(config.same_thread_token_threshold, 12);
    assert_eq!(config.orchestration_provider, OrchestrationProvider::LocalOnly);
    assert_eq!(config.verdict_log_path.as_deref(), Some("/tmp/v"));
    assert_eq!(config.call_timeouts.first_token_secs, 90);
    assert_eq!(config.call_timeouts.per_event_secs, 30);
    assert_eq!(config.call_timeouts.total_secs, 180);
    for (name, provider) in [
        ("AUTO", OrchestrationProvider::Auto),
        ("localonly", OrchestrationProvider::LocalOnly),
        ("local_only", OrchestrationProvider::LocalOnly),
        ("cloud", OrchestrationProvider::Cloud),
        ("other", OrchestrationProvider::Cloud),
    ] {
        let config = AutoPromptConfig::from_env(Environment {
            orchestration_provider: text(name),
            ..environment()
        });
        assert_eq!(config.orchestration_provider, provider, "{name}");
    }
}

#[test]
fn cached_settings_last_until_the_file_changes() {
    let mut cache = ConfigCache::new();
    assert_eq!(cache.current(None), None);
    let config = AutoPromptConfig {
        max_iterations: 3,
        ..Default::default()
    };
    cache.store(config.clone(), Some(10), 99);
    assert_eq!(cache.current(Some(10)), Some(&config));
    assert_eq!(cache.current(Some(11)), None);
    assert_eq!(cache.current(None), Some(&config));
    cache.store(config.clone(), None, 99);
    assert_eq!(cache.current(Some(99)), Some(&config));
    invalidate_config_cache(&mut cache);
    assert_eq!(cache.current(None), None);
}
