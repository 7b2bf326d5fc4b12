//! Settings of the auto-prompt system.

use vstd::arithmetic::power2::{lemma_pow2_strictly_increases, lemma_pow2_unfold, lemma2_to64, pow2};
use vstd::prelude::*;
use crate::numbers;
use crate::score;
use crate::score::Score;
use crate::text;

verus! {

/// Which model is asked whether to go on.
#[derive(Clone, Copy, Debug, PartialEq, Eq, Structural)]
pub enum OrchestrationProvider {
    /// The editor's default model.
    Cloud,
    /// Local models only; without an answer, the chain stops.
    LocalOnly,
    /// Local models first, the editor's default model behind them.
    Auto,
}

impl Default for OrchestrationProvider {
    fn default() -> (r: OrchestrationProvider)
        ensures
            r == OrchestrationProvider::Cloud,
    {
        OrchestrationProvider::Cloud
    }
}

/// One local model behind an OpenAI-compatible endpoint.
#[derive(Clone, Debug, PartialEq, Eq)]
pub struct TierConfig {
    /// Base URL of the endpoint.
    pub endpoint: String,
    /// Name of the model on that endpoint.
    pub model: String,
    /// The least confidence for which a verdict of this tier is trusted.
    pub confidence_threshold: Score,
    /// Time limit of one call, in milliseconds.
    pub timeout_ms: u64,
}

/// When local tiers hand over to the editor's default model.
#[derive(Clone, Debug, PartialEq, Eq)]
pub struct CloudFallbackConfig {
    pub enabled: bool,
    /// The events that lead there.
    pub on: Vec<String>,
}

/// Routing to local models.
#[derive(Clone, Debug, PartialEq, Eq)]
pub struct LocalRoutingConfig {
    pub enabled: bool,
    /// Time limit of a health check, in milliseconds.
    pub health_check_ms: u64,
    /// The fast tier, for routine decisions.
    pub t1: TierConfig,
    /// The reasoning tier, for decisions that need judgment.
    pub t2: TierConfig,
    pub cloud_fallback: CloudFallbackConfig,
}

/// When and how far old messages are shortened.
#[derive(Clone, Copy, Debug, PartialEq, Eq, Structural)]
pub struct CompactionConfig {
    pub enabled: bool,
    /// The number of tokens above which messages are shortened.
    pub compact_at: usize,
    /// The number of tokens to get down to.
    pub compact_target: usize,
    /// The number of newest messages that stay as they are.
    pub keep_recent: usize,
    pub use_llm_for_assistant_abstracts: bool,
}

/// Time limits of one streamed model call, in seconds.
#[derive(Clone, Copy, Debug, PartialEq, Eq, Structural)]
pub struct CallTimeouts {
    /// Until the first event.
    pub first_token_secs: u64,
    /// Between two events.
    pub per_event_secs: u64,
    /// For the whole call.
    pub total_secs: u64,
}

impl Default for CallTimeouts {
    fn default() -> (r: CallTimeouts)
        ensures
            r == spec_default_timeouts(),
    {
        CallTimeouts { first_token_secs: 120, per_event_secs: 30, total_secs: 300 }
    }
}

/// The time limits without settings.
pub open spec fn spec_default_timeouts() -> CallTimeouts {
    CallTimeouts { first_token_secs: 120, per_event_secs: 30, total_secs: 300 }
}

impl CallTimeouts {
    /// Seconds until the first event.
    pub fn first_token(&self) -> (r: u64)
        ensures
            r == self.first_token_secs,
    {
        self.first_token_secs
    }

    /// Seconds between two events.
    pub fn per_event(&self) -> (r: u64)
        ensures
            r == self.per_event_secs,
    {
        self.per_event_secs
    }

    /// Seconds for the whole call.
    pub fn total(&self) -> (r: u64)
        ensures
            r == self.total_secs,
    {
        self.total_secs
    }

    /// The seconds that the next event may take, `elapsed` seconds into the
    /// call: the limit for the first event or for a later one, but no longer
    /// than the whole call has left.
    pub fn wait_limit_secs(&self, has_event: bool, elapsed: u64) -> (r: u64)
        ensures
            r == spec_wait_limit(*self, has_event, elapsed as nat),
    {
        let window: u64 = if has_event {
            self.per_event_secs
        } else {
            self.first_token_secs
        };
        let left: u64 = if elapsed < self.total_secs {
            self.total_secs - elapsed
        } else {
            0
        };
        if window < left {
            window
        } else {
            left
        }
    }
}

/// The seconds that the next event may take.
pub open spec fn spec_wait_limit(timeouts: CallTimeouts, has_event: bool, elapsed: nat) -> int {
    let window = if has_event {
        timeouts.per_event_secs
    } else {
        timeouts.first_token_secs
    };
    let left = if elapsed < timeouts.total_secs {
        timeouts.total_secs - elapsed
    } else {
        0
    };
    if window < left {
        window as int
    } else {
        left
    }
}

/// The settings of the auto-prompt system.
#[derive(Clone, Debug, PartialEq, Eq)]
pub struct AutoPromptConfig {
    /// The system prompt for the model, in place of the built-in one.
    pub system_prompt: Option<String>,
    /// The number of iterations after which a chain stops.
    pub max_iterations: u32,
    /// The number of tokens above which a context counts as too large.
    pub max_context_tokens: usize,
    /// The first delay after an error, in milliseconds.
    pub backoff_base_ms: u64,
    /// The number of times a stop is verified.
    pub max_verification_attempts: u32,
    /// The number of times a failed call is retried.
    pub max_llm_retries: u32,
    /// The number of tokens below which a chain stays in its thread.
    pub same_thread_token_threshold: usize,
    pub orchestration_provider: OrchestrationProvider,
    pub local_routing: Option<LocalRoutingConfig>,
    /// The file that verdicts of local tiers are appended to.
    pub verdict_log_path: Option<String>,
    pub compaction: Option<CompactionConfig>,
    /// The number of tokens from which a chain moves to a new thread.
    pub fork_at: usize,
    pub call_timeouts: CallTimeouts,
}

// ---------------------------------------------------------------------------
// Defaults
// ---------------------------------------------------------------------------

/// A feature that is on without settings.
pub fn default_true() -> (r: bool)
    ensures
        r,
{
    true
}

/// The number of iterations of a chain without settings.
pub fn default_max_iterations() -> (r: u32)
    ensures
        r == 20,
{
    20
}

/// The size of a context that is too large, without settings.
pub fn default_max_context_tokens() -> (r: usize)
    ensures
        r == 80_000,
{
    80_000
}

/// The first delay after an error without settings.
pub fn default_backoff_base_ms() -> (r: u64)
    ensures
        r == 2_000,
{
    2_000
}

/// The number of verifications of a stop without settings.
pub fn default_max_verification_attempts() -> (r: u32)
    ensures
        r == 2,
{
    2
}

/// The number of retries of a failed call without settings.
pub fn default_max_llm_retries() -> (r: u32)
    ensures
        r == 3,
{
    3
}

/// The size below which a chain stays in its thread, without settings.
pub fn default_same_thread_token_threshold() -> (r: usize)
    ensures
        r == 50_000,
{
    50_000
}

/// The confidence that a tier must reach without settings.
pub fn default_tier_confidence() -> (r: Score)
    ensures
        r == (Score { bits: score::THREE_QUARTERS_BITS }),
{
    Score { bits: score::THREE_QUARTERS_BITS }
}

/// The time limit of a call to a tier without settings.
pub fn default_tier_timeout_ms() -> (r: u64)
    ensures
        r == 10_000,
{
    10_000
}

/// The time limit of a health check without settings.
pub fn default_health_check_ms() -> (r: u64)
    ensures
        r == 500,
{
    500
}

/// The size from which a chain moves to a new thread, without settings.
pub fn default_fork_at() -> (r: usize)
    ensures
        r == 70_000,
{
    70_000
}

/// The events that lead from local tiers to the default model, without settings.
pub open spec fn spec_default_triggers() -> Seq<Seq<char>> {
    seq!["critical"@, "low_confidence"@, "server_down"@, "parse_error"@]
}

/// The events that lead from local tiers to the default model, without settings.
pub fn default_cloud_fallback_triggers() -> (r: Vec<String>)
    ensures
        r.deep_view() == spec_default_triggers(),
{
    let r = vec![
        text::owned("critical"),
        text::owned("low_confidence"),
        text::owned("server_down"),
        text::owned("parse_error"),
    ];
    assert(r.deep_view() =~= spec_default_triggers());
    r
}

impl Default for CloudFallbackConfig {
    fn default() -> (r: CloudFallbackConfig)
        ensures
            r.enabled,
            r.on.deep_view() == spec_default_triggers(),
    {
        CloudFallbackConfig { enabled: default_true(), on: default_cloud_fallback_triggers() }
    }
}

impl Default for LocalRoutingConfig {
    fn default() -> (r: LocalRoutingConfig)
        ensures
            !r.enabled,
            r.health_check_ms == 500,
            r.t1.endpoint@ == "http://127.0.0.1:8081/v1"@,
            r.t1.model@ == "mlx-community/Llama-3.2-1B-Instruct-4bit"@,
            r.t1.confidence_threshold.bits == score::EIGHTY_FIVE_PERCENT_BITS,
            r.t1.timeout_ms == 4_000,
            r.t2.endpoint@ == "http://127.0.0.1:8082/v1"@,
            r.t2.model@ == "mlx-community/gemma-4-E4B-it-qat-4bit"@,
            r.t2.confidence_threshold.bits == score::SEVEN_TENTHS_BITS,
            r.t2.timeout_ms == 15_000,
            r.cloud_fallback.enabled,
            r.cloud_fallback.on.deep_view() == spec_default_triggers(),
    {
        LocalRoutingConfig {
            enabled: false,
            health_check_ms: default_health_check_ms(),
            t1: TierConfig {
                endpoint: text::owned("http://127.0.0.1:8081/v1"),
                model: text::owned("mlx-community/Llama-3.2-1B-Instruct-4bit"),
                confidence_threshold: Score { bits: score::EIGHTY_FIVE_PERCENT_BITS },
                timeout_ms: 4_000,
            },
            t2: TierConfig {
                endpoint: text::owned("http://127.0.0.1:8082/v1"),
                model: text::owned("mlx-community/gemma-4-E4B-it-qat-4bit"),
                confidence_threshold: Score { bits: score::SEVEN_TENTHS_BITS },
                timeout_ms: 15_000,
            },
            cloud_fallback: CloudFallbackConfig {
                enabled: default_true(),
                on: default_cloud_fallback_triggers(),
            },
        }
    }
}

impl Default for AutoPromptConfig {
    fn default() -> (r: AutoPromptConfig)
        ensures
            r.system_prompt is None,
            r.max_iterations == 20,
            r.max_context_tokens == 80_000,
            r.backoff_base_ms == 2_000,
            r.max_verification_attempts == 2,
            r.max_llm_retries == 3,
            r.same_thread_token_threshold == 50_000,
            r.orchestration_provider == OrchestrationProvider::Cloud,
            r.local_routing is None,
            r.verdict_log_path is None,
            r.compaction is None,
            r.fork_at == 70_000,
            r.call_timeouts == spec_default_timeouts(),
    {
        AutoPromptConfig {
            system_prompt: None,
            max_iterations: default_max_iterations(),
            max_context_tokens: default_max_context_tokens(),
            backoff_base_ms: default_backoff_base_ms(),
            max_verification_attempts: default_max_verification_attempts(),
            max_llm_retries: default_max_llm_retries(),
            same_thread_token_threshold: default_same_thread_token_threshold(),
            orchestration_provider: OrchestrationProvider::Cloud,
            local_routing: None,
            verdict_log_path: None,
            compaction: None,
            fork_at: default_fork_at(),
            call_timeouts: CallTimeouts {
                first_token_secs: 120,
                per_event_secs: 30,
                total_secs: 300,
            },
        }
    }
}

// ---------------------------------------------------------------------------
// Settings from the environment
// ---------------------------------------------------------------------------

/// The values of the environment variables that hold settings.
#[derive(Clone, Debug, PartialEq, Eq)]
pub struct Environment {
    pub system_prompt: Option<String>,
    pub max_iterations: Option<String>,
    pub max_context_tokens: Option<String>,
    pub backoff_base_ms: Option<String>,
    pub max_verification_attempts: Option<String>,
    pub max_llm_retries: Option<String>,
    pub same_thread_token_threshold: Option<String>,
    pub orchestration_provider: Option<String>,
    pub verdict_log_path: Option<String>,
    pub call_timeout_first_token_secs: Option<String>,
    pub call_timeout_per_event_secs: Option<String>,
    pub call_timeout_total_secs: Option<String>,
}

/// The number that a variable holds, `fallback` where it holds none of at most `max`.
pub open spec fn spec_number(value: Option<Seq<char>>, max: nat, fallback: nat) -> nat {
    match value {
        Some(s) => match numbers::spec_parse_unsigned(s, max) {
            Some(n) => n,
            None => fallback,
        },
        None => fallback,
    }
}

fn number(value: &Option<String>, max: u64, fallback: u64) -> (r: u64)
    ensures
        r == spec_number(value.deep_view(), max as nat, fallback as nat),
        fallback <= max ==> r <= max,
{
    match value {
        Some(s) => match numbers::parse_unsigned(s.as_str(), max) {
            Some(n) => n,
            None => fallback,
        },
        None => fallback,
    }
}

/// The provider that a variable names, in any ASCII case.
pub open spec fn spec_provider(value: Option<Seq<char>>) -> OrchestrationProvider {
    match value {
        Some(s) => {
            let lower = text::spec_ascii_lowercase(s);
            if lower == "auto"@ {
                OrchestrationProvider::Auto
            } else if lower == "local_only"@ || lower == "local-only"@ || lower == "localonly"@ {
                OrchestrationProvider::LocalOnly
            } else {
                OrchestrationProvider::Cloud
            }
        },
        None => OrchestrationProvider::Cloud,
    }
}

fn provider(value: &Option<String>) -> (r: OrchestrationProvider)
    ensures
        r == spec_provider(value.deep_view()),
{
    match value {
        Some(s) => {
            let lower = text::to_ascii_lowercase(s.as_str());
            let lower = lower.as_str();
            if text::str_eq(lower, "auto") {
                OrchestrationProvider::Auto
            } else if text::str_eq(lower, "local_only") || text::str_eq(lower, "local-only")
                || text::str_eq(lower, "localonly") {
                OrchestrationProvider::LocalOnly
            } else {
                OrchestrationProvider::Cloud
            }
        },
        None => OrchestrationProvider::Cloud,
    }
}

/// The delay before a retry: the base doubled for each retry, one minute at most.
pub open spec fn spec_backoff_ms(base: nat, retry_count: nat) -> nat {
    let delay = base * pow2(retry_count);
    if delay < 60_000 {
        delay
    } else {
        60_000
    }
}

proof fn lemma_backoff_grows(base: nat, n: nat, m: nat)
    requires
        n <= m,
    ensures
        base * pow2(n) <= base * pow2(m),
{
    if n < m {
        lemma_pow2_strictly_increases(n, m);
    }
    assert(base * pow2(n) <= base * pow2(m)) by (nonlinear_arith)
        requires
            pow2(n) <= pow2(m),
    ;
}

impl AutoPromptConfig {
    /// The settings that the environment gives, defaults for the others.
    pub fn from_env(env: Environment) -> (r: AutoPromptConfig)
        ensures
            r.system_prompt.deep_view() == env.system_prompt.deep_view(),
            r.max_iterations == spec_number(env.max_iterations.deep_view(), u32::MAX as nat, 20),
            r.max_context_tokens == spec_number(
                env.max_context_tokens.deep_view(),
                usize::MAX as nat,
                80_000,
            ),
            r.backoff_base_ms == spec_number(
                env.backoff_base_ms.deep_view(),
                u64::MAX as nat,
                2_000,
            ),
            r.max_verification_attempts == spec_number(
                env.max_verification_attempts.deep_view(),
                u32::MAX as nat,
                2,
            ),
            r.max_llm_retries == spec_number(env.max_llm_retries.deep_view(), u32::MAX as nat, 3),
            r.same_thread_token_threshold == spec_number(
                env.same_thread_token_threshold.deep_view(),
                usize::MAX as nat,
                50_000,
            ),
            r.orchestration_provider == spec_provider(env.orchestration_provider.deep_view()),
            r.local_routing is None,
            r.verdict_log_path.deep_view() == env.verdict_log_path.deep_view(),
            r.compaction is None,
            r.fork_at == 70_000,
            r.call_timeouts.first_token_secs == spec_number(
                env.call_timeout_first_token_secs.deep_view(),
                u64::MAX as nat,
                120,
            ),
            r.call_timeouts.per_event_secs == spec_number(
                env.call_timeout_per_event_secs.deep_view(),
                u64::MAX as nat,
                30,
            ),
            r.call_timeouts.total_secs == spec_number(
                env.call_timeout_total_secs.deep_view(),
                u64::MAX as nat,
                300,
            ),
    {
        let max_u32: u64 = u32::MAX as u64;
        let max_usize: u64 = usize::MAX as u64;
        AutoPromptConfig {
            max_iterations: number(
                &env.max_iterations,
                max_u32,
                default_max_iterations() as u64,
            ) as u32,
            max_context_tokens: number(
                &env.max_context_tokens,
                max_usize,
                default_max_context_tokens() as u64,
            ) as usize,
            backoff_base_ms: number(&env.backoff_base_ms, u64::MAX, default_backoff_base_ms()),
            max_verification_attempts: number(
                &env.max_verification_attempts,
                max_u32,
                default_max_verification_attempts() as u64,
            ) as u32,
            max_llm_retries: number(
                &env.max_llm_retries,
                max_u32,
                default_max_llm_retries() as u64,
            ) as u32,
            same_thread_token_threshold: number(
                &env.same_thread_token_threshold,
                max_usize,
                default_same_thread_token_threshold() as u64,
            ) as usize,
            orchestration_provider: provider(&env.orchestration_provider),
            local_routing: None,
            compaction: None,
            fork_at: default_fork_at(),
            call_timeouts: CallTimeouts {
                first_token_secs: number(&env.call_timeout_first_token_secs, u64::MAX, 120),
                per_event_secs: number(&env.call_timeout_per_event_secs, u64::MAX, 30),
                total_secs: number(&env.call_timeout_total_secs, u64::MAX, 300),
            },
            system_prompt: env.system_prompt,
            verdict_log_path: env.verdict_log_path,
        }
    }

    /// The delay before retry `retry_count`, in milliseconds: doubled with each
    /// retry, one minute at most.
    pub fn backoff_delay_ms(&self, retry_count: u32) -> (r: u64)
        ensures
            r == spec_backoff_ms(self.backoff_base_ms as nat, retry_count as nat),
    {
        if self.backoff_base_ms == 0 {
            return 0;
        }
        let mut delay: u64 = self.backoff_base_ms;
        let mut i: u32 = 0;
        proof {
            lemma2_to64();
        }
        while i < retry_count && delay < 60_000
            invariant
                i <= retry_count,
                delay == self.backoff_base_ms * pow2(i as nat),
            decreases retry_count - i,
        {
            proof {
                lemma_pow2_unfold((i + 1) as nat);
                let half = pow2(i as nat);
                let base = self.backoff_base_ms;
                assert(base * (2 * half) == (base * half) * 2) by (nonlinear_arith);
            }
            delay = delay * 2;
            i = i + 1;
        }
        if delay < 60_000 {
            delay
        } else {
            proof {
                lemma_backoff_grows(self.backoff_base_ms as nat, i as nat, retry_count as nat);
            }
            60_000
        }
    }
}

// ---------------------------------------------------------------------------
// The cache
// ---------------------------------------------------------------------------

/// The settings that were read last, with the time stamp of the file they
/// were read from.
#[derive(Clone, Debug)]
pub struct ConfigCache {
    pub entry: Option<(AutoPromptConfig, i128)>,
}

/// The cached settings, unless the file has another time stamp than they have.
pub open spec fn spec_current(
    entry: Option<(AutoPromptConfig, i128)>,
    modified: Option<i128>,
) -> Option<AutoPromptConfig> {
    match (entry, modified) {
        (Some((config, time)), Some(file_time)) => if time == file_time {
            Some(config)
        } else {
            None
        },
        (Some((config, _)), None) => Some(config),
        (None, _) => None,
    }
}

/// Settings under the file's time stamp, or under the present time where the
/// file has none.
pub open spec fn spec_stored(
    config: AutoPromptConfig,
    modified: Option<i128>,
    now: i128,
) -> Option<(AutoPromptConfig, i128)> {
    Some(
        (
            config,
            match modified {
                Some(time) => time,
                None => now,
            },
        ),
    )
}

impl ConfigCache {
    /// A cache that holds nothing.
    pub fn new() -> (r: ConfigCache)
        ensures
            r.entry is None,
    {
        ConfigCache { entry: None }
    }

    /// The cached settings, unless the file has another time stamp than they have.
    pub fn current(&self, modified: Option<i128>) -> (r: Option<&AutoPromptConfig>)
        ensures
            match (r, spec_current(self.entry, modified)) {
                (Some(config), Some(current)) => *config == current,
                (None, None) => true,
                _ => false,
            },
    {
        match &self.entry {
            Some(entry) => match modified {
                Some(time) => if entry.1 == time {
                    Some(&entry.0)
                } else {
                    None
                },
                None => Some(&entry.0),
            },
            None => None,
        }
    }

    /// Caches settings under the file's time stamp, or under the present time
    /// where the file has none.
    pub fn store(&mut self, config: AutoPromptConfig, modified: Option<i128>, now: i128)
        ensures
            final(self).entry == spec_stored(config, modified, now),
    {
        let time: i128 = match modified {
            Some(time) => time,
            None => now,
        };
        self.entry = Some((config, time));
    }
}

/// Drops the cached settings, so that the next use reads them again.
pub fn invalidate_config_cache(cache: &mut ConfigCache)
    ensures
        final(cache).entry is None,
{
    cache.entry = None;
}

// ---------------------------------------------------------------------------
// Laws
// ---------------------------------------------------------------------------

/// The delay never exceeds one minute and never shrinks from one retry to the next.
pub proof fn law_backoff_is_capped_and_grows(base: nat, retry_count: nat)
    ensures
        spec_backoff_ms(base, retry_count) <= 60_000,
        spec_backoff_ms(base, retry_count) <= spec_backoff_ms(base, retry_count + 1),
{
    lemma_backoff_grows(base, retry_count, retry_count + 1);
}

/// No wait goes beyond the time limit of the whole call.
pub proof fn law_waits_stay_within_the_call(timeouts: CallTimeouts, has_event: bool, elapsed: nat)
    ensures
        elapsed <= timeouts.total_secs ==> elapsed + spec_wait_limit(timeouts, has_event, elapsed)
            <= timeouts.total_secs,
        elapsed >= timeouts.total_secs ==> spec_wait_limit(timeouts, has_event, elapsed) == 0,
{
}

/// The default time limits leave room for a slow start: the first event may
/// take at least as long as any later one, and the whole call longer than that.
pub proof fn law_default_timeouts_are_ordered()
    ensures
        spec_default_timeouts().first_token_secs >= spec_default_timeouts().per_event_secs,
        spec_default_timeouts().total_secs > spec_default_timeouts().first_token_secs,
{
}

/// Stored settings are given back until the file has another time stamp, or
/// for as long as it has none.
pub proof fn law_cached_settings_last_until_the_file_changes(
    config: AutoPromptConfig,
    modified: Option<i128>,
    now: i128,
    later: Option<i128>,
)
    ensures
        later is None || later == modified ==> spec_current(
            spec_stored(config, modified, now),
            later,
        ) == Some(config),
        modified is Some && later is Some && later != modified ==> spec_current(
            spec_stored(config, modified, now),
            later,
        ) is None,
{
}

/// Each further try waits twice as long as the one before it, up to a minute.
pub proof fn law_each_wait_is_twice_the_last(base: nat, retry_count: nat)
    ensures
        spec_backoff_ms(base, 0) == if base < 60_000 {
            base
        } else {
            60_000
        },
        spec_backoff_ms(base, retry_count + 1) == if 2 * spec_backoff_ms(base, retry_count)
            < 60_000 {
            2 * spec_backoff_ms(base, retry_count)
        } else {
            60_000
        },
{
    lemma2_to64();
    lemma_pow2_unfold(retry_count + 1);
    let p = pow2(retry_count);
    assert(base * (2 * p) == 2 * (base * p)) by (nonlinear_arith);
    assert(base * pow2(retry_count + 1) == 2 * (base * p));
    assert(base * pow2(0) == base) by (nonlinear_arith)
        requires
            pow2(0) == 1,
    ;
}

/// A wait ends with its window, which is the one for the first event until there
/// was one, or with the call, whichever comes first.
pub proof fn law_wait_ends_with_window_or_call(timeouts: CallTimeouts, has_event: bool, elapsed: nat)
    ensures
        ({
            let wait = spec_wait_limit(timeouts, has_event, elapsed);
            let window = if has_event {
                timeouts.per_event_secs
            } else {
                timeouts.first_token_secs
            };
            &&& elapsed + window < timeouts.total_secs ==> wait == window
            &&& elapsed <= timeouts.total_secs <= elapsed + window ==> elapsed + wait
                == timeouts.total_secs
            &&& elapsed >= timeouts.total_secs ==> wait == 0
        }),
{
}

/// By default the first event is waited for two minutes, each further one half a
/// minute, and a call takes five minutes at most.
pub proof fn law_default_timeouts()
    ensures
        spec_default_timeouts().first_token_secs == 120,
        spec_default_timeouts().per_event_secs == 30,
        spec_default_timeouts().total_secs == 300,
        spec_default_triggers() == seq![
            "critical"@,
            "low_confidence"@,
            "server_down"@,
            "parse_error"@,
        ],
{
}

/// A written number within the limit is taken; anything else leaves the default.
pub proof fn law_written_number_is_taken(n: nat, max: nat, fallback: nat)
    ensures
        spec_number(Some(numbers::spec_decimal(n)), max, fallback) == if n <= max {
            n
        } else {
            fallback
        },
        spec_number(None, max, fallback) == fallback,
        spec_number(Some(seq![]), max, fallback) == fallback,
{
    numbers::law_written_number_is_parsed(n, max);
}

/// The provider is chosen by name, in capitals or not; the local-only mode has
/// three spellings, and any other name means the cloud.
pub proof fn law_provider_is_chosen_by_name(name: Seq<char>)
    ensures
        ({
            let lower = text::spec_ascii_lowercase(name);
            &&& spec_provider(Some(name)) == OrchestrationProvider::Auto <==> lower == "auto"@
            &&& spec_provider(Some(name)) == OrchestrationProvider::LocalOnly <==> (lower
                == "local_only"@ || lower == "local-only"@ || lower == "localonly"@)
            &&& spec_provider(None) == OrchestrationProvider::Cloud
        }),
{
    reveal_strlit("auto");
    reveal_strlit("local_only");
    reveal_strlit("local-only");
    reveal_strlit("localonly");
    assert("auto"@.len() == 4);
    assert("local_only"@.len() == 10);
    assert("local-only"@.len() == 10);
    assert("localonly"@.len() == 9);
}

/// Settings from a file whose time is not known are stored under the present
/// time.
pub proof fn law_unknown_file_time_is_the_present(config: AutoPromptConfig, now: i128)
    ensures
        spec_stored(config, None, now) == Some((config, now)),
        forall|time: i128| #[trigger] spec_stored(config, Some(time), now) == Some((config, time)),
{
}

/// The defaults: twenty iterations, two verifications, three retries that start
/// at two seconds, a context of eighty thousand tokens, a new thread from seventy
/// thousand on, and the cloud.
pub proof fn law_default_settings(r: AutoPromptConfig)
    requires
        call_ensures(AutoPromptConfig::default, (), r),
    ensures
        r.system_prompt is None,
        r.max_iterations == 20,
        r.max_verification_attempts == 2,
        r.max_llm_retries == 3,
        r.backoff_base_ms == 2_000,
        r.max_context_tokens == 80_000,
        r.same_thread_token_threshold == 50_000,
        r.fork_at == 70_000,
        r.orchestration_provider == OrchestrationProvider::Cloud,
        r.local_routing is None,
        r.verdict_log_path is None,
        r.compaction is None,
        r.call_timeouts == (CallTimeouts {
            first_token_secs: 120,
            per_event_secs: 30,
            total_secs: 300,
        }),
{
}

/// By default the local tiers are off, and the cloud may be asked in their place.
/// The fast one has to be surer than the other, and answer sooner.
pub proof fn law_default_tiers(r: LocalRoutingConfig)
    requires
        call_ensures(LocalRoutingConfig::default, (), r),
    ensures
        !r.enabled,
        r.cloud_fallback.enabled,
        r.health_check_ms == 500,
        r.t1.confidence_threshold.bits == 0x3feb_3333_3333_3333,
        r.t2.confidence_threshold.bits == 0x3fe6_6666_6666_6666,
        r.t1.timeout_ms == 4_000,
        r.t2.timeout_ms == 15_000,
{
}

/// A variable that holds a number sets its own setting and no other; one that is
/// not set leaves the default.
pub proof fn law_variables_set_their_own_settings(env: Environment, r: AutoPromptConfig, n: u32)
    requires
        call_ensures(AutoPromptConfig::from_env, (env,), r),
    ensures
        ({
            let written = numbers::spec_decimal(n as nat);
            &&& env.max_iterations is None ==> r.max_iterations == 20
            &&& env.max_iterations.deep_view() == Some(written) ==> r.max_iterations == n
            &&& env.max_context_tokens is None ==> r.max_context_tokens == 80_000
            &&& env.max_context_tokens.deep_view() == Some(written) ==> r.max_context_tokens == n
            &&& env.backoff_base_ms is None ==> r.backoff_base_ms == 2_000
            &&& env.backoff_base_ms.deep_view() == Some(written) ==> r.backoff_base_ms == n
            &&& env.max_verification_attempts is None ==> r.max_verification_attempts == 2
            &&& env.max_verification_attempts.deep_view() == Some(written)
                ==> r.max_verification_attempts == n
            &&& env.max_llm_retries is None ==> r.max_llm_retries == 3
            &&& env.max_llm_retries.deep_view() == Some(written) ==> r.max_llm_retries == n
            &&& env.same_thread_token_threshold is None ==> r.same_thread_token_threshold == 50_000
            &&& env.same_thread_token_threshold.deep_view() == Some(written)
                ==> r.same_thread_token_threshold == n
            &&& env.call_timeout_first_token_secs is None ==> r.call_timeouts.first_token_secs
                == 120
            &&& env.call_timeout_first_token_secs.deep_view() == Some(written)
                ==> r.call_timeouts.first_token_secs == n
            &&& env.call_timeout_per_event_secs is None ==> r.call_timeouts.per_event_secs == 30
            &&& env.call_timeout_per_event_secs.deep_view() == Some(written)
                ==> r.call_timeouts.per_event_secs == n
            &&& env.call_timeout_total_secs is None ==> r.call_timeouts.total_secs == 300
            &&& env.call_timeout_total_secs.deep_view() == Some(written)
                ==> r.call_timeouts.total_secs == n
            &&& r.fork_at == 70_000 && r.local_routing is None && r.compaction is None
            &&& r.system_prompt.deep_view() == env.system_prompt.deep_view()
            &&& r.verdict_log_path.deep_view() == env.verdict_log_path.deep_view()
        }),
{
    numbers::law_written_number_is_parsed(n as nat, u32::MAX as nat);
    numbers::law_written_number_is_parsed(n as nat, u64::MAX as nat);
    numbers::law_written_number_is_parsed(n as nat, usize::MAX as nat);
}

/// What a file leaves out has these values.
pub proof fn law_left_out_settings(
    enabled: bool,
    iterations: u32,
    tokens: usize,
    backoff: u64,
    verifications: u32,
    retries: u32,
    threshold: usize,
    confidence: Score,
    timeout: u64,
    health: u64,
    fork_at: usize,
)
    requires
        call_ensures(default_true, (), enabled),
        call_ensures(default_max_iterations, (), iterations),
        call_ensures(default_max_context_tokens, (), tokens),
        call_ensures(default_backoff_base_ms, (), backoff),
        call_ensures(default_max_verification_attempts, (), verifications),
        call_ensures(default_max_llm_retries, (), retries),
        call_ensures(default_same_thread_token_threshold, (), threshold),
        call_ensures(default_tier_confidence, (), confidence),
        call_ensures(default_tier_timeout_ms, (), timeout),
        call_ensures(default_health_check_ms, (), health),
        call_ensures(default_fork_at, (), fork_at),
    ensures
        enabled,
        iterations == 20,
        tokens == 80_000,
        backoff == 2_000,
        verifications == 2,
        retries == 3,
        threshold == 50_000,
        confidence.bits == 0x3fe8_0000_0000_0000,
        timeout == 10_000,
        health == 500,
        fork_at == 70_000,
{
}

} // verus!
