//! The settings of the agent: their defaults, how a file and the command line
//! change them, and how older files are brought up to date.

use vstd::prelude::*;

use crate::text;

pub mod endpoint;
pub mod file;

verus! {

pub(crate) fn copy_text(o: &Option<String>) -> (r: Option<String>)
    ensures
        r == *o,
{
    match o {
        Some(s) => Some(s.clone()),
        None => None,
    }
}

/// What was asked for on the command line.
#[derive(Debug)]
pub struct Flags {
    pub model: Option<String>,
    pub provider: Option<String>,
    pub endpoint: Option<String>,
    pub base_url: Option<String>,
    pub classic: bool,
    pub verbose: bool,
}

impl Default for Flags {
    fn default() -> (r: Flags)
        ensures
            r == (Flags {
                model: None,
                provider: None,
                endpoint: None,
                base_url: None,
                classic: false,
                verbose: false,
            }),
    {
        Flags {
            model: None,
            provider: None,
            endpoint: None,
            base_url: None,
            classic: false,
            verbose: false,
        }
    }
}

/// The model that is talked to.
#[derive(Debug)]
pub struct ModelConfig {
    pub provider: String,
    pub name: String,
    pub base_url: String,
    pub timeout: u64,
    pub api_key: Option<String>,
}

impl Clone for ModelConfig {
    fn clone(&self) -> (r: ModelConfig)
        ensures
            r == *self,
    {
        ModelConfig {
            provider: self.provider.clone(),
            name: self.name.clone(),
            base_url: self.base_url.clone(),
            timeout: self.timeout,
            api_key: copy_text(&self.api_key),
        }
    }
}

/// The context window and what of it is used.
#[derive(Debug)]
pub struct ContextConfig {
    pub max_budget_pct: u32,
    pub detected_window: u32,
    pub working_memory_tokens: u32,
    pub summary_threshold: u32,
}

impl ContextConfig {
    /// What holds when nothing is set.
    pub open spec fn preset() -> ContextConfig {
        ContextConfig {
            max_budget_pct: 70,
            detected_window: 128_000,
            working_memory_tokens: 500,
            summary_threshold: 200,
        }
    }
}

impl Default for ContextConfig {
    fn default() -> (r: ContextConfig)
        ensures
            r == ContextConfig::preset(),
    {
        ContextConfig {
            max_budget_pct: 70,
            detected_window: 128_000,
            working_memory_tokens: 500,
            summary_threshold: 200,
        }
    }
}

impl Clone for ContextConfig {
    fn clone(&self) -> (r: ContextConfig)
        ensures
            r == *self,
    {
        ContextConfig {
            max_budget_pct: self.max_budget_pct,
            detected_window: self.detected_window,
            working_memory_tokens: self.working_memory_tokens,
            summary_threshold: self.summary_threshold,
        }
    }
}

/// How tools are run.
#[derive(Debug)]
pub struct ToolsConfig {
    pub bash_timeout: u32,
    /// "direct", "two_stage" or "auto".
    pub tool_routing: String,
    pub web_browse: bool,
    /// One shell for the whole session.
    pub shell_persist: bool,
    /// The shell stays under the project's root.
    pub shell_contain: bool,
    /// Calls that are not JSON are read too.
    pub rtk: bool,
}

impl Clone for ToolsConfig {
    fn clone(&self) -> (r: ToolsConfig)
        ensures
            r == *self,
    {
        ToolsConfig {
            bash_timeout: self.bash_timeout,
            tool_routing: self.tool_routing.clone(),
            web_browse: self.web_browse,
            shell_persist: self.shell_persist,
            shell_contain: self.shell_contain,
            rtk: self.rtk,
        }
    }
}

/// Safeguards for small models.
#[derive(Debug)]
pub struct FeaturesConfig {
    pub snapshot: bool,
    pub snapshot_auto_rollback: bool,
    /// No file is written that was not read in the same turn.
    pub write_guard: bool,
    pub bootstrap: bool,
    pub bootstrap_max_chars: usize,
    pub trust_decay: bool,
    pub temp_adapt: bool,
    /// Zero leaves the budget to the kind of task.
    pub thinking_budget: u32,
    pub clarifier: bool,
    pub semantic_merge: bool,
    pub error_diagnosis: bool,
    pub validate_edits: bool,
    pub context_retrieval: bool,
    pub contract: bool,
}

impl FeaturesConfig {
    /// What holds when nothing is set.
    pub open spec fn preset() -> FeaturesConfig {
        FeaturesConfig {
            snapshot: true,
            snapshot_auto_rollback: true,
            write_guard: true,
            bootstrap: true,
            bootstrap_max_chars: 4000,
            trust_decay: true,
            temp_adapt: true,
            thinking_budget: 0,
            clarifier: true,
            semantic_merge: true,
            error_diagnosis: true,
            validate_edits: false,
            context_retrieval: true,
            contract: true,
        }
    }
}

impl Default for FeaturesConfig {
    fn default() -> (r: FeaturesConfig)
        ensures
            r == FeaturesConfig::preset(),
    {
        FeaturesConfig {
            snapshot: true,
            snapshot_auto_rollback: true,
            write_guard: true,
            bootstrap: true,
            bootstrap_max_chars: 4000,
            trust_decay: true,
            temp_adapt: true,
            thinking_budget: 0,
            clarifier: true,
            semantic_merge: true,
            error_diagnosis: true,
            validate_edits: false,
            context_retrieval: true,
            contract: true,
        }
    }
}

impl Clone for FeaturesConfig {
    fn clone(&self) -> (r: FeaturesConfig)
        ensures
            r == *self,
    {
        FeaturesConfig {
            snapshot: self.snapshot,
            snapshot_auto_rollback: self.snapshot_auto_rollback,
            write_guard: self.write_guard,
            bootstrap: self.bootstrap,
            bootstrap_max_chars: self.bootstrap_max_chars,
            trust_decay: self.trust_decay,
            temp_adapt: self.temp_adapt,
            thinking_budget: self.thinking_budget,
            clarifier: self.clarifier,
            semantic_merge: self.semantic_merge,
            error_diagnosis: self.error_diagnosis,
            validate_edits: self.validate_edits,
            context_retrieval: self.context_retrieval,
            contract: self.contract,
        }
    }
}

/// What the view looks like.
#[derive(Debug)]
pub struct TuiConfig {
    pub show_token_usage: bool,
    pub auto_approve: bool,
    pub theme: String,
    pub classic: bool,
}

impl Clone for TuiConfig {
    fn clone(&self) -> (r: TuiConfig)
        ensures
            r == *self,
    {
        TuiConfig {
            show_token_usage: self.show_token_usage,
            auto_approve: self.auto_approve,
            theme: self.theme.clone(),
            classic: self.classic,
        }
    }
}

#[derive(Debug)]
pub struct GitConfig {
    pub auto_commit: bool,
}

impl GitConfig {
    /// What holds when nothing is set.
    pub open spec fn preset() -> GitConfig {
        GitConfig {
            auto_commit: false,
        }
    }
}

impl Default for GitConfig {
    fn default() -> (r: GitConfig)
        ensures
            r == GitConfig::preset(),
    {
        GitConfig {
            auto_commit: false,
        }
    }
}

impl Clone for GitConfig {
    fn clone(&self) -> (r: GitConfig)
        ensures
            r == *self,
    {
        GitConfig {
            auto_commit: self.auto_commit,
        }
    }
}

/// One model for each tier.
#[derive(Debug)]
pub struct MultiModels {
    pub fast: String,
    pub default: String,
    pub strong: String,
}

impl Clone for MultiModels {
    fn clone(&self) -> (r: MultiModels)
        ensures
            r == *self,
    {
        MultiModels {
            fast: self.fast.clone(),
            default: self.default.clone(),
            strong: self.strong.clone(),
        }
    }
}

/// Hard limits of a run.
#[derive(Debug)]
pub struct LimitsConfig {
    pub max_tool_calls_per_turn: u32,
    /// Zero leaves the limit to the thinking budget.
    pub max_output_tokens: u32,
    pub request_timeout_ms: u64,
}

impl LimitsConfig {
    /// What holds when nothing is set.
    pub open spec fn preset() -> LimitsConfig {
        LimitsConfig {
            max_tool_calls_per_turn: 250,
            max_output_tokens: 0,
            request_timeout_ms: 120_000,
        }
    }

    /// How many tokens an answer may take: as many as are set or, without a
    /// limit of its own, the thinking budget and four thousand more.
    pub fn output_limit(&self, thinking_budget: u32) -> (r: u64)
        ensures
            r == (if self.max_output_tokens == 0 {
                thinking_budget + 4096
            } else {
                self.max_output_tokens as int
            }),
    {
        if self.max_output_tokens == 0 {
            thinking_budget as u64 + 4096
        } else {
            self.max_output_tokens as u64
        }
    }
}

impl Default for LimitsConfig {
    fn default() -> (r: LimitsConfig)
        ensures
            r == LimitsConfig::preset(),
    {
        LimitsConfig {
            max_tool_calls_per_turn: 250,
            max_output_tokens: 0,
            request_timeout_ms: 120_000,
        }
    }
}

impl Clone for LimitsConfig {
    fn clone(&self) -> (r: LimitsConfig)
        ensures
            r == *self,
    {
        LimitsConfig {
            max_tool_calls_per_turn: self.max_tool_calls_per_turn,
            max_output_tokens: self.max_output_tokens,
            request_timeout_ms: self.request_timeout_ms,
        }
    }
}

/// What may be reached.
#[derive(Debug)]
pub struct SecurityConfig {
    pub allow_outside_paths: bool,
    pub allow_public_endpoints: bool,
    pub web_respect_robots: bool,
    pub searx_url: Option<String>,
}

impl SecurityConfig {
    /// What holds when nothing is set.
    pub open spec fn preset() -> SecurityConfig {
        SecurityConfig {
            allow_outside_paths: true,
            allow_public_endpoints: false,
            web_respect_robots: false,
            searx_url: None,
        }
    }
}

impl Default for SecurityConfig {
    fn default() -> (r: SecurityConfig)
        ensures
            r == SecurityConfig::preset(),
    {
        SecurityConfig {
            allow_outside_paths: true,
            allow_public_endpoints: false,
            web_respect_robots: false,
            searx_url: None,
        }
    }
}

impl Clone for SecurityConfig {
    fn clone(&self) -> (r: SecurityConfig)
        ensures
            r == *self,
    {
        SecurityConfig {
            allow_outside_paths: self.allow_outside_paths,
            allow_public_endpoints: self.allow_public_endpoints,
            web_respect_robots: self.web_respect_robots,
            searx_url: copy_text(&self.searx_url),
        }
    }
}

/// How files that were read before are shown.
#[derive(Debug)]
pub struct DiffConfig {
    pub context: bool,
    pub context_lines: usize,
    /// The largest ratio of change that is shown as a diff: the bits of a double.
    pub max_ratio_bits: u64,
    pub ttl_minutes: u64,
}

impl DiffConfig {
    /// What holds when nothing is set.
    pub open spec fn preset() -> DiffConfig {
        DiffConfig {
            context: false,
            context_lines: 3,
            max_ratio_bits: 0x3fe0_0000_0000_0000,
            ttl_minutes: 30,
        }
    }
}

impl Default for DiffConfig {
    fn default() -> (r: DiffConfig)
        ensures
            r == DiffConfig::preset(),
    {
        DiffConfig {
            context: false,
            context_lines: 3,
            max_ratio_bits: 0x3fe0_0000_0000_0000,
            ttl_minutes: 30,
        }
    }
}

impl Clone for DiffConfig {
    fn clone(&self) -> (r: DiffConfig)
        ensures
            r == *self,
    {
        DiffConfig {
            context: self.context,
            context_lines: self.context_lines,
            max_ratio_bits: self.max_ratio_bits,
            ttl_minutes: self.ttl_minutes,
        }
    }
}

#[derive(Debug)]
pub struct FileTreeConfig {
    pub max: usize,
    pub sort_mtime: bool,
}

impl FileTreeConfig {
    /// What holds when nothing is set.
    pub open spec fn preset() -> FileTreeConfig {
        FileTreeConfig {
            max: 200,
            sort_mtime: false,
        }
    }
}

impl Default for FileTreeConfig {
    fn default() -> (r: FileTreeConfig)
        ensures
            r == FileTreeConfig::preset(),
    {
        FileTreeConfig {
            max: 200,
            sort_mtime: false,
        }
    }
}

impl Clone for FileTreeConfig {
    fn clone(&self) -> (r: FileTreeConfig)
        ensures
            r == *self,
    {
        FileTreeConfig {
            max: self.max,
            sort_mtime: self.sort_mtime,
        }
    }
}

#[derive(Debug)]
pub struct SnapshotPathsConfig {
    pub dir: Option<String>,
}

impl SnapshotPathsConfig {
    /// What holds when nothing is set.
    pub open spec fn preset() -> SnapshotPathsConfig {
        SnapshotPathsConfig {
            dir: None,
        }
    }
}

impl Default for SnapshotPathsConfig {
    fn default() -> (r: SnapshotPathsConfig)
        ensures
            r == SnapshotPathsConfig::preset(),
    {
        SnapshotPathsConfig {
            dir: None,
        }
    }
}

impl Clone for SnapshotPathsConfig {
    fn clone(&self) -> (r: SnapshotPathsConfig)
        ensures
            r == *self,
    {
        SnapshotPathsConfig {
            dir: copy_text(&self.dir),
        }
    }
}

#[derive(Debug)]
pub struct CodeGraphConfig {
    pub db: Option<String>,
    pub disable: bool,
}

impl CodeGraphConfig {
    /// What holds when nothing is set.
    pub open spec fn preset() -> CodeGraphConfig {
        CodeGraphConfig {
            db: None,
            disable: false,
        }
    }
}

impl Default for CodeGraphConfig {
    fn default() -> (r: CodeGraphConfig)
        ensures
            r == CodeGraphConfig::preset(),
    {
        CodeGraphConfig {
            db: None,
            disable: false,
        }
    }
}

impl Clone for CodeGraphConfig {
    fn clone(&self) -> (r: CodeGraphConfig)
        ensures
            r == *self,
    {
        CodeGraphConfig {
            db: copy_text(&self.db),
            disable: self.disable,
        }
    }
}

#[derive(Debug)]
pub struct TestsConfig {
    pub disable: bool,
    pub runner: Option<String>,
}

impl TestsConfig {
    /// What holds when nothing is set.
    pub open spec fn preset() -> TestsConfig {
        TestsConfig {
            disable: false,
            runner: None,
        }
    }
}

impl Default for TestsConfig {
    fn default() -> (r: TestsConfig)
        ensures
            r == TestsConfig::preset(),
    {
        TestsConfig {
            disable: false,
            runner: None,
        }
    }
}

impl Clone for TestsConfig {
    fn clone(&self) -> (r: TestsConfig)
        ensures
            r == *self,
    {
        TestsConfig {
            disable: self.disable,
            runner: copy_text(&self.runner),
        }
    }
}

#[derive(Debug)]
pub struct TracesConfig {
    pub disable: bool,
}

impl TracesConfig {
    /// What holds when nothing is set.
    pub open spec fn preset() -> TracesConfig {
        TracesConfig {
            disable: false,
        }
    }
}

impl Default for TracesConfig {
    fn default() -> (r: TracesConfig)
        ensures
            r == TracesConfig::preset(),
    {
        TracesConfig {
            disable: false,
        }
    }
}

impl Clone for TracesConfig {
    fn clone(&self) -> (r: TracesConfig)
        ensures
            r == *self,
    {
        TracesConfig {
            disable: self.disable,
        }
    }
}

/// How repeated calls are caught.
#[derive(Debug)]
pub struct DedupConfig {
    pub enabled: bool,
    pub window: usize,
    pub ttl_secs: u64,
    /// A repeated call is warned about, not answered from memory.
    pub soft: bool,
    /// From which likeness on a call counts as repeated: the bits of a double.
    pub similarity_bits: u64,
    /// Further tools that may repeat themselves.
    pub noisy_extra: Vec<String>,
}

#[derive(Debug)]
pub struct EvidenceConfig {
    pub disable: bool,
}

impl EvidenceConfig {
    /// What holds when nothing is set.
    pub open spec fn preset() -> EvidenceConfig {
        EvidenceConfig {
            disable: false,
        }
    }
}

impl Default for EvidenceConfig {
    fn default() -> (r: EvidenceConfig)
        ensures
            r == EvidenceConfig::preset(),
    {
        EvidenceConfig {
            disable: false,
        }
    }
}

impl Clone for EvidenceConfig {
    fn clone(&self) -> (r: EvidenceConfig)
        ensures
            r == *self,
    {
        EvidenceConfig {
            disable: self.disable,
        }
    }
}

#[derive(Debug)]
pub struct PluginsConfig {
    pub spec: Option<String>,
    pub timeout_secs: u64,
}

impl PluginsConfig {
    /// What holds when nothing is set.
    pub open spec fn preset() -> PluginsConfig {
        PluginsConfig {
            spec: None,
            timeout_secs: 30,
        }
    }
}

impl Default for PluginsConfig {
    fn default() -> (r: PluginsConfig)
        ensures
            r == PluginsConfig::preset(),
    {
        PluginsConfig {
            spec: None,
            timeout_secs: 30,
        }
    }
}

impl Clone for PluginsConfig {
    fn clone(&self) -> (r: PluginsConfig)
        ensures
            r == *self,
    {
        PluginsConfig {
            spec: copy_text(&self.spec),
            timeout_secs: self.timeout_secs,
        }
    }
}

/// A second model for independent opinions. Where a field is missing, the main model takes its place.
#[derive(Debug)]
pub struct SecondOpinionConfig {
    pub model: Option<String>,
    pub endpoint: Option<String>,
}

impl SecondOpinionConfig {
    /// What holds when nothing is set.
    pub open spec fn preset() -> SecondOpinionConfig {
        SecondOpinionConfig {
            model: None,
            endpoint: None,
        }
    }
}

impl Default for SecondOpinionConfig {
    fn default() -> (r: SecondOpinionConfig)
        ensures
            r == SecondOpinionConfig::preset(),
    {
        SecondOpinionConfig {
            model: None,
            endpoint: None,
        }
    }
}

impl Clone for SecondOpinionConfig {
    fn clone(&self) -> (r: SecondOpinionConfig)
        ensures
            r == *self,
    {
        SecondOpinionConfig {
            model: copy_text(&self.model),
            endpoint: copy_text(&self.endpoint),
        }
    }
}

#[derive(Debug)]
pub struct DiagConfig {
    pub verbose: bool,
    pub profile: Option<String>,
    pub debug_sigtstp: bool,
}

impl DiagConfig {
    /// What holds when nothing is set.
    pub open spec fn preset() -> DiagConfig {
        DiagConfig {
            verbose: false,
            profile: None,
            debug_sigtstp: false,
        }
    }
}

impl Default for DiagConfig {
    fn default() -> (r: DiagConfig)
        ensures
            r == DiagConfig::preset(),
    {
        DiagConfig {
            verbose: false,
            profile: None,
            debug_sigtstp: false,
        }
    }
}

impl Clone for DiagConfig {
    fn clone(&self) -> (r: DiagConfig)
        ensures
            r == *self,
    {
        DiagConfig {
            verbose: self.verbose,
            profile: copy_text(&self.profile),
            debug_sigtstp: self.debug_sigtstp,
        }
    }
}

impl DedupConfig {
    /// Whether two settings say the same.
    pub open spec fn agrees(self, other: DedupConfig) -> bool {
        &&& self.enabled == other.enabled
        &&& self.window == other.window
        &&& self.ttl_secs == other.ttl_secs
        &&& self.soft == other.soft
        &&& self.similarity_bits == other.similarity_bits
        &&& text::texts(self.noisy_extra@) == text::texts(other.noisy_extra@)
    }

    /// What holds when nothing is set.
    pub open spec fn is_preset(self) -> bool {
        &&& self.enabled
        &&& self.window == 5
        &&& self.ttl_secs == 30
        &&& !self.soft
        &&& self.similarity_bits == 0x3fed_70a3_d70a_3d71
        &&& self.noisy_extra@.len() == 0
    }
}

impl Default for DedupConfig {
    fn default() -> (r: DedupConfig)
        ensures
            r.is_preset(),
    {
        DedupConfig {
            enabled: true,
            window: 5,
            ttl_secs: 30,
            soft: false,
            similarity_bits: 0x3fed_70a3_d70a_3d71,
            noisy_extra: Vec::new(),
        }
    }
}

impl Clone for DedupConfig {
    fn clone(&self) -> (r: DedupConfig)
        ensures
            r.agrees(*self),
    {
        let n: usize = self.noisy_extra.len();
        let noisy_extra = text::leading_of(&self.noisy_extra, n);
        assert(text::texts(self.noisy_extra@).len() == n);
        DedupConfig {
            enabled: self.enabled,
            window: self.window,
            ttl_secs: self.ttl_secs,
            soft: self.soft,
            similarity_bits: self.similarity_bits,
            noisy_extra,
        }
    }
}

impl ModelConfig {
    /// What holds when nothing is set.
    pub open spec fn is_preset(self) -> bool {
        &&& self.provider@ == "openai"@
        &&& self.name@.len() == 0
        &&& self.base_url@ == DEFAULT_BASE_URL@
        &&& self.timeout == 300
        &&& self.api_key is None
    }
}

impl Default for ModelConfig {
    fn default() -> (r: ModelConfig)
        ensures
            r.is_preset(),
    {
        ModelConfig {
            provider: "openai".to_owned(),
            name: String::new(),
            base_url: DEFAULT_BASE_URL.to_owned(),
            timeout: 300,
            api_key: None,
        }
    }
}

impl ToolsConfig {
    /// What holds when nothing is set.
    pub open spec fn is_preset(self) -> bool {
        &&& self.bash_timeout == 30
        &&& self.tool_routing@ == "direct"@
        &&& !self.web_browse
        &&& self.shell_persist
        &&& !self.shell_contain
        &&& self.rtk
    }
}

impl Default for ToolsConfig {
    fn default() -> (r: ToolsConfig)
        ensures
            r.is_preset(),
    {
        ToolsConfig {
            bash_timeout: 30,
            tool_routing: "direct".to_owned(),
            web_browse: false,
            shell_persist: true,
            shell_contain: false,
            rtk: true,
        }
    }
}

impl TuiConfig {
    /// What holds when nothing is set.
    pub open spec fn is_preset(self) -> bool {
        &&& self.show_token_usage
        &&& !self.auto_approve
        &&& self.theme@ == "dark"@
        &&& !self.classic
    }
}

impl Default for TuiConfig {
    fn default() -> (r: TuiConfig)
        ensures
            r.is_preset(),
    {
        TuiConfig {
            show_token_usage: true,
            auto_approve: false,
            theme: "dark".to_owned(),
            classic: false,
        }
    }
}

/// Where a model is looked for when nothing is set.
pub const DEFAULT_BASE_URL: &'static str = "http://localhost:1234/v1";

/// Puts a section in place of another, when there is one.
fn overlay<T: Clone>(slot: &mut T, new: &Option<T>)
    ensures
        match *new {
            Some(x) => vstd::pervasive::cloned(x, *final(slot)),
            None => *final(slot) == *old(slot),
        },
{
    match new {
        Some(x) => {
            *slot = x.clone();
        },
        None => {},
    }
}

/// All settings.
#[derive(Debug)]
pub struct Config {
    pub model: ModelConfig,
    pub context: ContextConfig,
    pub tools: ToolsConfig,
    pub tui: TuiConfig,
    pub git: GitConfig,
    pub features: FeaturesConfig,
    pub models: Option<MultiModels>,
    pub limits: LimitsConfig,
    pub security: SecurityConfig,
    pub diff: DiffConfig,
    pub filetree: FileTreeConfig,
    pub snapshots: SnapshotPathsConfig,
    pub code_graph: CodeGraphConfig,
    pub tests: TestsConfig,
    pub traces: TracesConfig,
    pub dedup: DedupConfig,
    pub evidence: EvidenceConfig,
    pub plugins: PluginsConfig,
    pub diag: DiagConfig,
    pub second_opinion: SecondOpinionConfig,
}

impl Clone for Config {
    fn clone(&self) -> (r: Config)
        ensures
            r.dedup.agrees(self.dedup),
            r == (Config { dedup: r.dedup, ..*self }),
    {
        Config {
            model: self.model.clone(),
            context: self.context.clone(),
            tools: self.tools.clone(),
            tui: self.tui.clone(),
            git: self.git.clone(),
            features: self.features.clone(),
            models: match &self.models {
                Some(x) => Some(x.clone()),
                None => None,
            },
            limits: self.limits.clone(),
            security: self.security.clone(),
            diff: self.diff.clone(),
            filetree: self.filetree.clone(),
            snapshots: self.snapshots.clone(),
            code_graph: self.code_graph.clone(),
            tests: self.tests.clone(),
            traces: self.traces.clone(),
            dedup: self.dedup.clone(),
            evidence: self.evidence.clone(),
            plugins: self.plugins.clone(),
            diag: self.diag.clone(),
            second_opinion: self.second_opinion.clone(),
        }
    }
}

/// The settings as a file holds them: a section may be missing.
#[derive(Debug)]
pub struct ConfigFile {
    pub version: String,
    pub model: Option<ModelConfig>,
    pub context: Option<ContextConfig>,
    pub tools: Option<ToolsConfig>,
    pub tui: Option<TuiConfig>,
    pub git: Option<GitConfig>,
    pub features: Option<FeaturesConfig>,
    pub models: Option<MultiModels>,
    pub limits: Option<LimitsConfig>,
    pub security: Option<SecurityConfig>,
    pub diff: Option<DiffConfig>,
    pub filetree: Option<FileTreeConfig>,
    pub snapshots: Option<SnapshotPathsConfig>,
    pub code_graph: Option<CodeGraphConfig>,
    pub tests: Option<TestsConfig>,
    pub traces: Option<TracesConfig>,
    pub dedup: Option<DedupConfig>,
    pub evidence: Option<EvidenceConfig>,
    pub plugins: Option<PluginsConfig>,
    pub diag: Option<DiagConfig>,
    pub second_opinion: Option<SecondOpinionConfig>,
}

impl Config {
    /// What holds when nothing is set.
    pub open spec fn is_preset(self) -> bool {
        &&& self.model.is_preset()
        &&& self.context == ContextConfig::preset()
        &&& self.tools.is_preset()
        &&& self.tui.is_preset()
        &&& self.git == GitConfig::preset()
        &&& self.features == FeaturesConfig::preset()
        &&& self.models is None
        &&& self.limits == LimitsConfig::preset()
        &&& self.security == SecurityConfig::preset()
        &&& self.diff == DiffConfig::preset()
        &&& self.filetree == FileTreeConfig::preset()
        &&& self.snapshots == SnapshotPathsConfig::preset()
        &&& self.code_graph == CodeGraphConfig::preset()
        &&& self.tests == TestsConfig::preset()
        &&& self.traces == TracesConfig::preset()
        &&& self.dedup.is_preset()
        &&& self.evidence == EvidenceConfig::preset()
        &&& self.plugins == PluginsConfig::preset()
        &&& self.diag == DiagConfig::preset()
        &&& self.second_opinion == SecondOpinionConfig::preset()
    }

    /// The settings that a file leaves of some others: each section that the
    /// file has takes the place of the other.
    pub open spec fn is_overlaid(self, base: Config, file: ConfigFile) -> bool {
        &&& self.model == (match file.model {
            Some(x) => x,
            None => base.model,
        })
        &&& self.context == (match file.context {
            Some(x) => x,
            None => base.context,
        })
        &&& self.tools == (match file.tools {
            Some(x) => x,
            None => base.tools,
        })
        &&& self.tui == (match file.tui {
            Some(x) => x,
            None => base.tui,
        })
        &&& self.git == (match file.git {
            Some(x) => x,
            None => base.git,
        })
        &&& self.features == (match file.features {
            Some(x) => x,
            None => base.features,
        })
        &&& self.models == (if file.models is Some {
            file.models
        } else {
            base.models
        })
        &&& self.limits == (match file.limits {
            Some(x) => x,
            None => base.limits,
        })
        &&& self.security == (match file.security {
            Some(x) => x,
            None => base.security,
        })
        &&& self.diff == (match file.diff {
            Some(x) => x,
            None => base.diff,
        })
        &&& self.filetree == (match file.filetree {
            Some(x) => x,
            None => base.filetree,
        })
        &&& self.snapshots == (match file.snapshots {
            Some(x) => x,
            None => base.snapshots,
        })
        &&& self.code_graph == (match file.code_graph {
            Some(x) => x,
            None => base.code_graph,
        })
        &&& self.tests == (match file.tests {
            Some(x) => x,
            None => base.tests,
        })
        &&& self.traces == (match file.traces {
            Some(x) => x,
            None => base.traces,
        })
        &&& match file.dedup {
            Some(x) => self.dedup.agrees(x),
            None => self.dedup == base.dedup,
        }
        &&& self.evidence == (match file.evidence {
            Some(x) => x,
            None => base.evidence,
        })
        &&& self.plugins == (match file.plugins {
            Some(x) => x,
            None => base.plugins,
        })
        &&& self.diag == (match file.diag {
            Some(x) => x,
            None => base.diag,
        })
        &&& self.second_opinion == (match file.second_opinion {
            Some(x) => x,
            None => base.second_opinion,
        })
    }
}

impl Default for Config {
    fn default() -> (r: Config)
        ensures
            r.is_preset(),
    {
        Config {
            model: ModelConfig::default(),
            context: ContextConfig::default(),
            tools: ToolsConfig::default(),
            tui: TuiConfig::default(),
            git: GitConfig::default(),
            features: FeaturesConfig::default(),
            models: None,
            limits: LimitsConfig::default(),
            security: SecurityConfig::default(),
            diff: DiffConfig::default(),
            filetree: FileTreeConfig::default(),
            snapshots: SnapshotPathsConfig::default(),
            code_graph: CodeGraphConfig::default(),
            tests: TestsConfig::default(),
            traces: TracesConfig::default(),
            dedup: DedupConfig::default(),
            evidence: EvidenceConfig::default(),
            plugins: PluginsConfig::default(),
            diag: DiagConfig::default(),
            second_opinion: SecondOpinionConfig::default(),
        }
    }
}

impl ConfigFile {
    /// Puts the sections of the file in place of those of some settings.
    pub fn apply_to(&self, config: &mut Config)
        ensures
            final(config).is_overlaid(*old(config), *self),
    {
        overlay(&mut config.model, &self.model);
        overlay(&mut config.context, &self.context);
        overlay(&mut config.tools, &self.tools);
        overlay(&mut config.tui, &self.tui);
        overlay(&mut config.git, &self.git);
        overlay(&mut config.features, &self.features);
        match &self.models {
            Some(x) => {
                config.models = Some(x.clone());
            },
            None => {},
        }
        overlay(&mut config.limits, &self.limits);
        overlay(&mut config.security, &self.security);
        overlay(&mut config.diff, &self.diff);
        overlay(&mut config.filetree, &self.filetree);
        overlay(&mut config.snapshots, &self.snapshots);
        overlay(&mut config.code_graph, &self.code_graph);
        overlay(&mut config.tests, &self.tests);
        overlay(&mut config.traces, &self.traces);
        overlay(&mut config.dedup, &self.dedup);
        overlay(&mut config.evidence, &self.evidence);
        overlay(&mut config.plugins, &self.plugins);
        overlay(&mut config.diag, &self.diag);
        overlay(&mut config.second_opinion, &self.second_opinion);
    }

    /// The file that holds some settings. A second opinion that is not set is
    /// left out.
    pub fn from_config(c: &Config) -> (r: ConfigFile)
        ensures
            r.version@ == file::CURRENT_CONFIG_VERSION@,
            r.model == Some(c.model),
            r.context == Some(c.context),
            r.tools == Some(c.tools),
            r.tui == Some(c.tui),
            r.git == Some(c.git),
            r.features == Some(c.features),
            r.models == c.models,
            r.limits == Some(c.limits),
            r.security == Some(c.security),
            r.diff == Some(c.diff),
            r.filetree == Some(c.filetree),
            r.snapshots == Some(c.snapshots),
            r.code_graph == Some(c.code_graph),
            r.tests == Some(c.tests),
            r.traces == Some(c.traces),
            r.dedup matches Some(x) && x.agrees(c.dedup),
            r.evidence == Some(c.evidence),
            r.plugins == Some(c.plugins),
            r.diag == Some(c.diag),
            r.second_opinion == (if c.second_opinion.is_set() {
                Some(c.second_opinion)
            } else {
                None
            }),
    {
        ConfigFile {
            version: file::CURRENT_CONFIG_VERSION.to_owned(),
            model: Some(c.model.clone()),
            context: Some(c.context.clone()),
            tools: Some(c.tools.clone()),
            tui: Some(c.tui.clone()),
            git: Some(c.git.clone()),
            features: Some(c.features.clone()),
            models: match &c.models {
                Some(x) => Some(x.clone()),
                None => None,
            },
            limits: Some(c.limits.clone()),
            security: Some(c.security.clone()),
            diff: Some(c.diff.clone()),
            filetree: Some(c.filetree.clone()),
            snapshots: Some(c.snapshots.clone()),
            code_graph: Some(c.code_graph.clone()),
            tests: Some(c.tests.clone()),
            traces: Some(c.traces.clone()),
            dedup: Some(c.dedup.clone()),
            evidence: Some(c.evidence.clone()),
            plugins: Some(c.plugins.clone()),
            diag: Some(c.diag.clone()),
            second_opinion: if c.second_opinion.model.is_some() || c.second_opinion.endpoint.is_some() {
                Some(c.second_opinion.clone())
            } else {
                None
            },
        }
    }
}

impl SecondOpinionConfig {
    /// Whether a model or an endpoint of its own is set.
    pub open spec fn is_set(self) -> bool {
        self.model is Some || self.endpoint is Some
    }

    /// Whether a model or an endpoint of its own is set.
    pub fn is_configured(&self) -> (r: bool)
        ensures
            r == self.is_set(),
    {
        self.model.is_some() || self.endpoint.is_some()
    }

    /// Whether the second opinion comes from another model, or from another
    /// endpoint, than the first.
    pub open spec fn differs(self, main: Config) -> bool {
        (self.model matches Some(m) && m@ != main.model.name@) || (self.endpoint matches Some(e)
            && e@ != main.model.base_url@)
    }

    /// Whether the second opinion comes from another model, or from another
    /// endpoint, than the first.
    pub fn is_distinct(&self, main: &Config) -> (r: bool)
        ensures
            r == self.differs(*main),
    {
        let other_model = match &self.model {
            Some(m) => !text::same(m, &main.model.name),
            None => false,
        };
        let other_endpoint = match &self.endpoint {
            Some(e) => !text::same(e, &main.model.base_url),
            None => false,
        };
        other_model || other_endpoint
    }

    /// The model that gives the second opinion.
    pub fn resolved_model(&self, main: &Config) -> (r: String)
        ensures
            r == match self.model {
                Some(m) => m,
                None => main.model.name,
            },
    {
        match &self.model {
            Some(m) => m.clone(),
            None => main.model.name.clone(),
        }
    }

    /// The endpoint that is asked for the second opinion.
    pub fn resolved_endpoint(&self, main: &Config) -> (r: String)
        ensures
            r == match self.endpoint {
                Some(e) => e,
                None => main.model.base_url,
            },
    {
        match &self.endpoint {
            Some(e) => e.clone(),
            None => main.model.base_url.clone(),
        }
    }
}

pub open spec fn is_letter(c: char) -> bool {
    ('a' <= c && c <= 'z') || ('A' <= c && c <= 'Z')
}

/// Whether a scheme can hold a character behind its first one.
pub open spec fn is_scheme_char(c: char) -> bool {
    is_letter(c) || text::is_digit(c) || c == '+' || c == '-' || c == '.'
}

/// Whether a text is the name of a scheme.
pub open spec fn is_scheme(s: Seq<char>) -> bool {
    &&& s.len() > 0
    &&& is_letter(s[0])
    &&& forall|k: int| 0 <= k < s.len() ==> is_scheme_char(#[trigger] s[k])
}

/// Whether an address names how it is spoken to: it begins with a scheme and
/// `://`.
pub open spec fn has_scheme(s: Seq<char>) -> bool {
    exists|n: int| #[trigger] text::at(s, "://"@, n) && is_scheme(s.take(n))
}

fn check_scheme_char(c: char) -> (r: bool)
    ensures
        r == is_scheme_char(c),
{
    ('a' <= c && c <= 'z') || ('A' <= c && c <= 'Z') || ('0' <= c && c <= '9') || c == '+' || c == '-'
        || c == '.'
}

fn check_scheme(s: &str) -> (r: bool)
    ensures
        r == has_scheme(s@),
{
    proof {
        reveal_strlit("://");
    }
    let v = text::chars(s);
    let mut n: usize = 0;
    while n < v.len() && check_scheme_char(v[n])
        invariant
            v@ == s@,
            n <= v.len(),
            forall|k: int| 0 <= k < n ==> is_scheme_char(#[trigger] s@[k]),
        decreases v.len() - n,
    {
        n = n + 1;
    }
    let ghost p = "://"@;
    let r = n > 0 && !('0' <= v[0] && v[0] <= '9') && v[0] != '+' && v[0] != '-' && v[0] != '.'
        && v.len() - n >= 3 && v[n] == ':' && v[n + 1] == '/' && v[n + 2] == '/';
    proof {
        if r {
            assert(s@.subrange(n as int, n + 3) =~= p);
            assert(text::at(s@, p, n as int));
            let t = s@.take(n as int);
            assert forall|k: int| 0 <= k < t.len() implies is_scheme_char(#[trigger] t[k]) by {
                assert(t[k] == s@[k]);
            }
            assert(is_scheme(t));
        }
        if has_scheme(s@) {
            let m = choose|m: int| #[trigger] text::at(s@, p, m) && is_scheme(s@.take(m));
            let t = s@.take(m);
            let sub = s@.subrange(m, m + 3);
            assert(sub[0] == s@[m] && sub[1] == s@[m + 1] && sub[2] == s@[m + 2]);
            assert(t[0] == s@[0]);
            if n < m {
                assert(is_scheme_char(t[n as int]));
            }
            if m < n {
                assert(is_scheme_char(s@[m]));
            }
            assert(m == n);
        }
    }
    r
}

/// An address without blanks around it and without slashes at its end, and
/// with a scheme.
pub open spec fn normalized_url(raw: Seq<char>) -> Seq<char> {
    let bare = text::stripped_end(text::trimmed(raw), "/"@);
    if bare.len() == 0 {
        DEFAULT_BASE_URL@
    } else if has_scheme(bare) {
        bare
    } else {
        "http://"@ + bare
    }
}

/// An address without blanks around it and without slashes at its end, and
/// with a scheme.
pub fn normalize_base_url(raw: &str) -> (r: String)
    ensures
        r@ == normalized_url(raw@),
{
    let bare = text::trim_end_set(&text::trim(raw), "/");
    if bare.as_str().is_empty() {
        DEFAULT_BASE_URL.to_owned()
    } else if check_scheme(&bare) {
        bare
    } else {
        text::cat2("http://", &bare)
    }
}

/// An address that was normalized always names how it is spoken to.
pub proof fn law_url_has_scheme(raw: Seq<char>)
    ensures
        has_scheme(normalized_url(raw)),
{
    reveal_strlit("http://localhost:1234/v1");
    reveal_strlit("http://");
    reveal_strlit("://");
    let n = normalized_url(raw);
    let bare = text::stripped_end(text::trimmed(raw), "/"@);
    if bare.len() == 0 || !has_scheme(bare) {
        assert(n.subrange(4, 7) =~= "://"@);
        assert(text::at(n, "://"@, 4));
        let t = n.take(4);
        assert(t =~= seq!['h', 't', 't', 'p']);
        assert(is_scheme(t));
    }
}

/// An address that names how it is spoken to keeps what it says.
pub proof fn law_scheme_is_kept(raw: Seq<char>)
    requires
        has_scheme(text::stripped_end(text::trimmed(raw), "/"@)),
    ensures
        normalized_url(raw) == text::stripped_end(text::trimmed(raw), "/"@),
{
    let bare = text::stripped_end(text::trimmed(raw), "/"@);
    reveal_strlit("://");
    let n = choose|n: int| #[trigger] text::at(bare, "://"@, n) && is_scheme(bare.take(n));
    assert(bare.len() > 0);
}

/// The address that the command line asks for.
pub open spec fn flag_url(f: Flags) -> Option<String> {
    if f.endpoint is Some {
        f.endpoint
    } else {
        f.base_url
    }
}

/// The settings after the command line had its say over some others.
pub open spec fn is_flagged(c: Config, base: Config, f: Flags) -> bool {
    &&& c.model.name == (match f.model {
        Some(m) => m,
        None => base.model.name,
    })
    &&& c.model.provider == (match f.provider {
        Some(p) => p,
        None => base.model.provider,
    })
    &&& c.model.base_url@ == normalized_url(
        match flag_url(f) {
            Some(u) => u@,
            None => base.model.base_url@,
        },
    )
    &&& c.model.timeout == base.model.timeout
    &&& c.model.api_key == base.model.api_key
    &&& c.tui == (TuiConfig { classic: f.classic || base.tui.classic, ..base.tui })
    &&& c.diag == (DiagConfig { verbose: f.verbose || base.diag.verbose, ..base.diag })
    &&& c == (Config { model: c.model, tui: c.tui, diag: c.diag, ..base })
}

fn apply_model_flags(model: &mut ModelConfig, flags: &Flags)
    ensures
        final(model).name == (match flags.model {
            Some(m) => m,
            None => old(model).name,
        }),
        final(model).provider == (match flags.provider {
            Some(p) => p,
            None => old(model).provider,
        }),
        final(model).base_url@ == normalized_url(
            match flag_url(*flags) {
                Some(u) => u@,
                None => old(model).base_url@,
            },
        ),
        final(model).timeout == old(model).timeout,
        final(model).api_key == old(model).api_key,
{
    match &flags.model {
        Some(m) => {
            model.name = m.clone();
        },
        None => {},
    }
    match &flags.provider {
        Some(p) => {
            model.provider = p.clone();
        },
        None => {},
    }
    let url = match &flags.endpoint {
        Some(b) => normalize_base_url(b),
        None => match &flags.base_url {
            Some(b) => normalize_base_url(b),
            None => normalize_base_url(&model.base_url),
        },
    };
    model.base_url = url;
}

/// Lets the command line have its say.
pub fn apply_flags(config: &mut Config, flags: &Flags)
    ensures
        is_flagged(*final(config), *old(config), *flags),
{
    apply_model_flags(&mut config.model, flags);
    if flags.classic {
        config.tui.classic = true;
    }
    if flags.verbose {
        config.diag.verbose = true;
    }
}

/// The settings: the defaults, with the file over them and the command line
/// over both.
pub fn load_config(file: &Option<ConfigFile>, flags: &Flags) -> (r: Config)
    ensures
        exists|base: Config, overlaid: Config|
            {
                &&& #[trigger] base.is_preset()
                &&& match *file {
                    Some(f) => overlaid.is_overlaid(base, f),
                    None => overlaid == base,
                }
                &&& #[trigger] is_flagged(r, overlaid, *flags)
            },
{
    let mut config = Config::default();
    let ghost base = config;
    match file {
        Some(f) => {
            f.apply_to(&mut config);
        },
        None => {},
    }
    let ghost overlaid = config;
    apply_flags(&mut config, flags);
    assert(base.is_preset() && is_flagged(config, overlaid, *flags));
    config
}

/// Writing some settings to a file and reading them back changes none of them.
pub proof fn law_file_keeps_settings(c: Config, base: Config, file: ConfigFile, back: Config)
    requires
        base.is_preset(),
        file.model == Some(c.model),
        file.context == Some(c.context),
        file.tools == Some(c.tools),
        file.tui == Some(c.tui),
        file.git == Some(c.git),
        file.features == Some(c.features),
        file.models == c.models,
        file.limits == Some(c.limits),
        file.security == Some(c.security),
        file.diff == Some(c.diff),
        file.filetree == Some(c.filetree),
        file.snapshots == Some(c.snapshots),
        file.code_graph == Some(c.code_graph),
        file.tests == Some(c.tests),
        file.traces == Some(c.traces),
        file.dedup matches Some(x) && x.agrees(c.dedup),
        file.evidence == Some(c.evidence),
        file.plugins == Some(c.plugins),
        file.diag == Some(c.diag),
        file.second_opinion == (if c.second_opinion.is_set() {
            Some(c.second_opinion)
        } else {
            None
        }),
        back.is_overlaid(base, file),
    ensures
        back.dedup.agrees(c.dedup),
        back == (Config { dedup: back.dedup, ..c }),
{
}

/// A note that nothing more has to be read: all settings live in the file.
pub fn load_dotenv() {
}

/// Which variable of the environment holds the key of which provider.
pub fn provider_env_map() -> (r: Vec<(&'static str, &'static str)>)
    ensures
        r@.len() == 3,
        r@[0].0@ == "anthropic"@ && r@[0].1@ == "ANTHROPIC_API_KEY"@,
        r@[1].0@ == "openai"@ && r@[1].1@ == "OPENAI_API_KEY"@,
        r@[2].0@ == "deepseek"@ && r@[2].1@ == "DEEPSEEK_API_KEY"@,
{
    vec![
        ("anthropic", "ANTHROPIC_API_KEY"),
        ("openai", "OPENAI_API_KEY"),
        ("deepseek", "DEEPSEEK_API_KEY"),
    ]
}

/// Whether everything that is needed is there: it always is.
pub fn deps_ok() -> (r: Result<(), String>)
    ensures
        r is Ok,
{
    Ok(())
}

/// The settings without any file: what they are.
pub proof fn law_presets(c: Config)
    requires
        c.is_preset(),
    ensures
        c.model.provider@ == "openai"@ && c.model.timeout == 300 && c.model.api_key is None,
        c.context.max_budget_pct == 70 && c.context.detected_window == 128_000
            && c.context.working_memory_tokens == 500 && c.context.summary_threshold == 200,
        c.tools.bash_timeout == 30 && c.tools.shell_persist && c.tools.rtk && !c.tools.web_browse
            && !c.tools.shell_contain && c.tools.tool_routing@ == "direct"@,
        !c.tui.auto_approve && c.tui.show_token_usage && !c.tui.classic && c.tui.theme@ == "dark"@,
        !c.git.auto_commit,
        c.features.snapshot && c.features.snapshot_auto_rollback && c.features.write_guard
            && c.features.bootstrap && c.features.trust_decay && c.features.temp_adapt
            && c.features.clarifier && c.features.semantic_merge && c.features.error_diagnosis
            && c.features.context_retrieval && c.features.contract && !c.features.validate_edits,
        c.features.bootstrap_max_chars == 4000 && c.features.thinking_budget == 0,
        c.limits.max_tool_calls_per_turn == 250 && c.limits.max_output_tokens == 0
            && c.limits.request_timeout_ms == 120_000,
        c.security.allow_outside_paths && !c.security.allow_public_endpoints
            && !c.security.web_respect_robots && c.security.searx_url is None,
        !c.diff.context && c.diff.context_lines == 3 && c.diff.ttl_minutes == 30,
        c.filetree.max == 200 && !c.filetree.sort_mtime,
        c.snapshots.dir is None && c.code_graph.db is None && !c.code_graph.disable
            && !c.tests.disable && c.tests.runner is None && !c.traces.disable
            && !c.evidence.disable,
        c.dedup.enabled && c.dedup.window == 5 && c.dedup.ttl_secs == 30 && !c.dedup.soft,
        c.plugins.spec is None && c.plugins.timeout_secs == 30 && !c.diag.verbose
            && c.diag.profile is None && !c.diag.debug_sigtstp,
        c.second_opinion.model is None && c.second_opinion.endpoint is None && c.models is None,
{
}

/// A section of a file replaces the settings of that section, and only those.
pub proof fn law_sections_replace(c: Config, base: Config, file: ConfigFile)
    requires
        c.is_overlaid(base, file),
    ensures
        file.model matches Some(x) ==> c.model == x,
        file.model is None ==> c.model == base.model,
        file.context matches Some(x) ==> c.context == x,
        file.context is None ==> c.context == base.context,
        file.tools matches Some(x) ==> c.tools == x,
        file.tools is None ==> c.tools == base.tools,
        file.tui matches Some(x) ==> c.tui == x,
        file.tui is None ==> c.tui == base.tui,
        file.git matches Some(x) ==> c.git == x,
        file.git is None ==> c.git == base.git,
        file.features matches Some(x) ==> c.features == x,
        file.features is None ==> c.features == base.features,
        file.limits matches Some(x) ==> c.limits == x,
        file.limits is None ==> c.limits == base.limits,
        file.security matches Some(x) ==> c.security == x,
        file.security is None ==> c.security == base.security,
        file.second_opinion matches Some(x) ==> c.second_opinion == x,
        file.second_opinion is None ==> c.second_opinion == base.second_opinion,
        file.models is None ==> c.models == base.models,
        file.models is Some ==> c.models == file.models,
        file.dedup is None ==> c.dedup == base.dedup,
        file.plugins is None ==> c.plugins == base.plugins,
        file.plugins matches Some(x) ==> c.plugins == x,
{
}

/// A second model differs from the first in its name or in its address.
pub proof fn law_second_models(s: SecondOpinionConfig, main: Config)
    ensures
        s.model is None && s.endpoint is None ==> !s.is_set() && !s.differs(main),
        s.model matches Some(m) ==> s.is_set() && (m@ != main.model.name@ ==> s.differs(main)),
        s.endpoint matches Some(e) ==> s.is_set() && (e@ != main.model.base_url@ ==> s.differs(main)),
        s.differs(main) ==> s.is_set(),
{
}

/// What the command line says goes before what is configured, and the rest
/// stays.
pub proof fn law_flags(c: Config, base: Config, f: Flags)
    requires
        is_flagged(c, base, f),
    ensures
        f.model matches Some(m) ==> c.model.name == m,
        f.model is None ==> c.model.name == base.model.name,
        f.provider matches Some(p) ==> c.model.provider == p,
        f.provider is None ==> c.model.provider == base.model.provider,
        f.endpoint matches Some(u) ==> c.model.base_url@ == normalized_url(u@),
        f.endpoint is None ==> (f.base_url matches Some(u) ==> c.model.base_url@ == normalized_url(
            u@,
        )),
        f.classic ==> c.tui.classic,
        f.verbose ==> c.diag.verbose,
        base.tui.classic ==> c.tui.classic,
        base.diag.verbose ==> c.diag.verbose,
        c.tui.auto_approve == base.tui.auto_approve,
        c.context == base.context && c.tools == base.tools && c.features == base.features
            && c.limits == base.limits && c.security == base.security && c.git == base.git,
{
}

/// An address without a scheme gets the plain one, slashes at its end are taken
/// off, and without any address the usual one is taken.
pub proof fn law_addresses(host: Seq<char>)
    requires
        host.len() > 0,
        text::trimmed(host) == host,
        host.last() != '/',
    ensures
        !has_scheme(host) ==> normalized_url(host) == "http://"@ + host,
        has_scheme(host) ==> normalized_url(host) == host,
        text::trimmed(host.push('/')) == host.push('/') ==> normalized_url(host.push('/'))
            == normalized_url(host),
        normalized_url(Seq::empty()) == DEFAULT_BASE_URL@,
{
    reveal_strlit("/");
    let set = "/"@;
    assert(set.len() == 1 && set[0] == '/');
    assert(set.contains('/'));
    assert(!set.contains(host.last())) by {
        if set.contains(host.last()) {
            let k = choose|k: int| 0 <= k < set.len() && set[k] == host.last();
        }
    }
    text::law_stripped(host, set, '/');
    assert(text::stripped_end(host, set) == host);
    text::law_trimmed(Seq::empty());
    assert(text::trimmed(Seq::empty()).len() == 0);
    assert(text::trimmed(Seq::empty()) =~= Seq::<char>::empty());
}

/// An answer may take as many tokens as are set; where none are, the thinking
/// and four thousand and ninety-six more. A second model is the one that is set,
/// or else the first.
pub proof fn law_settings_are_used(
    l: &LimitsConfig,
    budget: u32,
    n: u64,
    s: &SecondOpinionConfig,
    main: &Config,
    model: String,
    url: String,
)
    requires
        call_ensures(LimitsConfig::output_limit, (l, budget), n),
        call_ensures(SecondOpinionConfig::resolved_model, (s, main), model),
        call_ensures(SecondOpinionConfig::resolved_endpoint, (s, main), url),
    ensures
        l.max_output_tokens > 0 ==> n == l.max_output_tokens,
        l.max_output_tokens == 0 ==> n == budget + 4096,
        s.model matches Some(m) ==> model == m,
        s.model is None ==> model == main.model.name,
        s.endpoint matches Some(e) ==> url == e,
        s.endpoint is None ==> url == main.model.base_url,
{
}

} // verus!
