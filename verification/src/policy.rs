//! What a worker may start.
use vstd::prelude::*;

use crate::paths::{
    file_name, final_name, is_name, last_start, law_final_name, law_final_name_is_a_part_of_the_path,
};
use crate::protocol::{DecisionKind, OperationRequest, PolicyDecision, RiskLevel, RunSpec};
use crate::text::{enclosed, occurs_at, occurs_in, optional_text, prefixed, same};

verus! {

/// The text between quotes and with escapes that `{:?}` gives for a string.
pub uninterp spec fn debug_text(s: Seq<char>) -> Seq<char>;

/// Formats with `{:?}`, which is `core::fmt::Debug` of `str`. The text is a function of the string.
#[verifier::external_body]
fn format_debug(s: &str) -> (r: String)
    ensures
        r@ == debug_text(s@),
{
    format!("{:?}", s)
}

/// Who decides what may be started.
pub trait PolicyEngine: Send + Sync {
    /// Whether a decision is this policy's on an operation and the run that it is about.
    spec fn decides(
        &self,
        operation: OperationRequest,
        spec: RunSpec,
        decision: PolicyDecision,
    ) -> bool;

    /// Decides on an operation and the run that it is about.
    fn authorize(&self, operation: &OperationRequest, spec: &RunSpec) -> (r: PolicyDecision)
        ensures
            self.decides(*operation, *spec, r),
    ;
}

/// Whether a decision lets an operation pass for the given reason and in the given sandbox.
pub open spec fn allows(
    decision: PolicyDecision,
    reason: Seq<char>,
    sandbox_profile: Seq<char>,
) -> bool {
    &&& decision.decision == DecisionKind::Allow
    &&& decision.reason@ == reason
    &&& decision.risk == RiskLevel::Medium
    &&& optional_text(decision.sandbox_profile) == Some(sandbox_profile)
    &&& !decision.requires_human_approval
    &&& decision.warnings@.len() == 0
}

/// Whether a decision stops an operation for the given reason.
pub open spec fn denies(decision: PolicyDecision, reason: Seq<char>) -> bool {
    &&& decision.decision == DecisionKind::Deny
    &&& decision.reason@ == reason
    &&& decision.risk == RiskLevel::High
    &&& decision.sandbox_profile is None
    &&& !decision.requires_human_approval
    &&& decision.warnings@.len() == 0
}

/// The policy that lets everything pass.
#[derive(Clone, Debug)]
pub struct AllowAllPolicy;

impl Default for AllowAllPolicy {
    fn default() -> Self {
        AllowAllPolicy
    }
}

impl PolicyEngine for AllowAllPolicy {
    open spec fn decides(
        &self,
        operation: OperationRequest,
        spec: RunSpec,
        decision: PolicyDecision,
    ) -> bool {
        allows(decision, "allow_all mode"@, "none"@)
    }

    fn authorize(&self, _operation: &OperationRequest, _spec: &RunSpec) -> (r: PolicyDecision) {
        PolicyDecision::allow_all()
    }
}

/// What holds of commands that no list names.
#[derive(Clone, Copy, Debug, PartialEq, Eq, Structural)]
pub enum PolicyMode {
    AllowAll,
    DenyAll,
}

impl Default for PolicyMode {
    fn default() -> (r: Self)
        ensures
            r == PolicyMode::AllowAll,
    {
        PolicyMode::AllowAll
    }
}

/// The sandbox that a policy asks for.
#[derive(Clone, Debug)]
pub struct SandboxPolicyConfig {
    pub profile: Option<String>,
    pub backend: Option<String>,
}

/// A policy as it is written down.
#[derive(Clone, Debug)]
pub struct PolicyConfig {
    pub version: u32,
    pub mode: PolicyMode,
    pub allow_commands: Vec<String>,
    pub deny_commands: Vec<String>,
    pub sandbox: Option<SandboxPolicyConfig>,
}

impl PolicyConfig {
    /// Whether this is the policy that holds where none is written down: everything may be
    /// started, without a sandbox.
    pub open spec fn is_default(self) -> bool {
        &&& self.version == 1
        &&& self.mode == PolicyMode::AllowAll
        &&& self.allow_commands@.len() == 0
        &&& self.deny_commands@.len() == 0
        &&& self.sandbox matches Some(s) && optional_text(s.profile) == Some("none"@)
            && optional_text(s.backend) == Some("none"@)
    }
}

impl Default for PolicyConfig {
    fn default() -> (r: Self)
        ensures
            r.is_default(),
    {
        PolicyConfig {
            version: 1,
            mode: PolicyMode::AllowAll,
            allow_commands: Vec::new(),
            deny_commands: Vec::new(),
            sandbox: Some(
                SandboxPolicyConfig {
                    profile: Some("none".to_owned()),
                    backend: Some("none".to_owned()),
                },
            ),
        }
    }
}

/// A policy and the path of the file it was read from, if it was.
#[derive(Clone, Debug)]
pub struct ConfigPolicy {
    pub config: PolicyConfig,
    pub source: Option<String>,
}

impl Default for ConfigPolicy {
    fn default() -> (r: Self)
        ensures
            r.config.is_default(),
            r.source is None,
    {
        ConfigPolicy { config: PolicyConfig::default(), source: None }
    }
}

/// Whether a command is meant by a pattern: the pattern is the command or the name at its end.
pub open spec fn is_meant(command: Seq<char>, pattern: Seq<char>) -> bool {
    command == pattern || final_name(command) == Some(pattern)
}

/// Whether a command is meant by one of the patterns.
pub open spec fn is_listed(command: Seq<char>, patterns: Seq<String>) -> bool {
    exists|i: int| 0 <= i < patterns.len() && is_meant(command, (#[trigger] patterns[i])@)
}

/// Whether a command is meant by a pattern.
pub fn command_matches(command: &str, pattern: &str) -> (r: bool)
    ensures
        r == is_meant(command@, pattern@),
{
    if same(command, pattern) {
        return true;
    }
    match file_name(command) {
        Some(name) => same(name.as_str(), pattern),
        None => false,
    }
}

/// Whether a command is meant by one of the patterns.
pub fn command_matches_any(command: &str, patterns: &Vec<String>) -> (r: bool)
    ensures
        r == is_listed(command@, patterns@),
{
    for i in 0..patterns.len()
        invariant
            forall|k: int| 0 <= k < i ==> !is_meant(command@, (#[trigger] patterns@[k])@),
    {
        if command_matches(command, patterns[i].as_str()) {
            return true;
        }
    }
    false
}

/// The command of a run: its first word, or the empty text.
pub open spec fn command_of(spec: RunSpec) -> Seq<char> {
    if spec.argv@.len() > 0 {
        spec.argv@[0]@
    } else {
        Seq::empty()
    }
}

impl ConfigPolicy {
    /// Why the policy lets commands pass.
    pub open spec fn allow_reason(self) -> Seq<char> {
        match self.source {
            Some(source) => "allowed by policy "@ + source@,
            None => "allow_all mode"@,
        }
    }

    /// The sandbox in which commands run.
    pub open spec fn profile(self) -> Seq<char> {
        match self.config.sandbox {
            Some(sandbox) => match sandbox.profile {
                Some(profile) => profile@,
                None => "none"@,
            },
            None => "none"@,
        }
    }

    /// Whether a command may be started: no denial names it, and where all is denied an
    /// allowance does.
    pub open spec fn permits(self, command: Seq<char>) -> bool {
        &&& !is_listed(command, self.config.deny_commands@)
        &&& self.config.mode == PolicyMode::DenyAll ==> is_listed(
            command,
            self.config.allow_commands@,
        )
    }

    /// Why a command may not be started; `shown` is the command as it is shown.
    pub open spec fn deny_reason(self, command: Seq<char>, shown: Seq<char>) -> Seq<char> {
        if is_listed(command, self.config.deny_commands@) {
            "command "@ + shown + " denied by worker policy"@
        } else {
            "command "@ + shown + " is not allowed by worker policy"@
        }
    }

    /// Whether a decision is this policy's on a command.
    pub open spec fn is_decision(
        self,
        command: Seq<char>,
        shown: Seq<char>,
        r: PolicyDecision,
    ) -> bool {
        if self.permits(command) {
            allows(r, self.allow_reason(), self.profile())
        } else {
            denies(r, self.deny_reason(command, shown))
        }
    }

    /// The decision that lets a command pass.
    fn allow_decision(&self) -> (r: PolicyDecision)
        ensures
            allows(r, self.allow_reason(), self.profile()),
    {
        let mut decision = PolicyDecision::allow_all();
        match &self.source {
            Some(source) => {
                decision.reason = prefixed("allowed by policy ", source.as_str());
            },
            None => {},
        }
        match &self.config.sandbox {
            Some(sandbox) => match &sandbox.profile {
                Some(profile) => {
                    decision.sandbox_profile = Some(profile.clone());
                },
                None => {},
            },
            None => {},
        }
        decision
    }

    /// The decision that stops a command.
    fn deny_decision(&self, reason: String) -> (r: PolicyDecision)
        ensures
            denies(r, reason@),
    {
        PolicyDecision {
            decision: DecisionKind::Deny,
            reason,
            risk: RiskLevel::High,
            sandbox_profile: None,
            requires_human_approval: false,
            warnings: Vec::new(),
        }
    }
}

impl ConfigPolicy {
    /// Decides on a command; `shown` is the command as a denial shows it.
    pub fn decide(&self, command: &str, shown: &str) -> (r: PolicyDecision)
        ensures
            self.is_decision(command@, shown@, r),
    {
        if command_matches_any(command, &self.config.deny_commands) {
            return self.deny_decision(enclosed("command ", shown, " denied by worker policy"));
        }
        match self.config.mode {
            PolicyMode::AllowAll => self.allow_decision(),
            PolicyMode::DenyAll => {
                if command_matches_any(command, &self.config.allow_commands) {
                    self.allow_decision()
                } else {
                    self.deny_decision(
                        enclosed("command ", shown, " is not allowed by worker policy"),
                    )
                }
            },
        }
    }
}

impl PolicyEngine for ConfigPolicy {
    open spec fn decides(
        &self,
        operation: OperationRequest,
        spec: RunSpec,
        decision: PolicyDecision,
    ) -> bool {
        self.is_decision(command_of(spec), debug_text(command_of(spec)), decision)
    }

    fn authorize(&self, _operation: &OperationRequest, spec: &RunSpec) -> (r: PolicyDecision) {
        proof {
            reveal_strlit("");
            assert(""@ =~= Seq::<char>::empty());
        }
        let command = if spec.argv.len() > 0 {
            spec.argv[0].as_str()
        } else {
            ""
        };
        let shown = format_debug(command);
        self.decide(command, shown.as_str())
    }
}

/// A command that is both allowed and denied is denied, in whatever mode.
pub proof fn law_denial_wins(policy: ConfigPolicy, command: Seq<char>)
    requires
        is_listed(command, policy.config.deny_commands@),
    ensures
        !policy.permits(command),
{
}

/// Where all is denied, a command may be started exactly when it is allowed and not denied; where
/// all is allowed, exactly when it is not denied.
pub proof fn law_mode_decides_the_rest(policy: ConfigPolicy, command: Seq<char>)
    ensures
        policy.config.mode == PolicyMode::DenyAll ==> policy.permits(command) == (is_listed(
            command,
            policy.config.allow_commands@,
        ) && !is_listed(command, policy.config.deny_commands@)),
        policy.config.mode == PolicyMode::AllowAll ==> policy.permits(command) == !is_listed(
            command,
            policy.config.deny_commands@,
        ),
{
}

/// A pattern that names a program means it under any directory.
pub proof fn law_directory_does_not_hide_a_command(directory: Seq<char>, name: Seq<char>)
    requires
        name.len() > 0,
        !name.contains('/'),
        name != seq!['.'],
        name != seq!['.', '.'],
    ensures
        is_meant(directory + seq!['/'] + name, name),
{
    let path = directory + seq!['/'] + name;
    lemma_start_of_name(directory, name);
    assert(path.last() == name.last());
    assert(name.contains(name.last()));
    assert(path.skip(directory.len() as int + 1) =~= name);
}

/// The name at the end of a path begins after the slash before it.
proof fn lemma_start_of_name(directory: Seq<char>, name: Seq<char>)
    requires
        !name.contains('/'),
    ensures
        last_start(directory + seq!['/'] + name) == directory.len() + 1,
    decreases name.len(),
{
    let path = directory + seq!['/'] + name;
    if name.len() == 0 {
        assert(path.last() == '/');
    } else {
        let shorter = name.drop_last();
        assert forall|i: int| 0 <= i < shorter.len() implies shorter[i] != '/' by {
            assert(name.contains(name[i]));
        }
        lemma_start_of_name(directory, shorter);
        assert(path.drop_last() =~= directory + seq!['/'] + shorter);
        assert(path.last() == name.last());
        assert(name.contains(name.last()));
    }
}

/// A command that a denial names, as it is or as the name after a directory, is denied in every
/// mode, and the reason says so.
pub proof fn law_denied_command_is_denied(
    policy: ConfigPolicy,
    command: Seq<char>,
    shown: Seq<char>,
    d: PolicyDecision,
    i: int,
    directory: Seq<char>,
)
    requires
        policy.is_decision(command, shown, d),
        0 <= i < policy.config.deny_commands@.len(),
        policy.config.deny_commands@[i]@ == command || (is_name(policy.config.deny_commands@[i]@)
            && command == directory + seq!['/'] + policy.config.deny_commands@[i]@),
    ensures
        d.decision == DecisionKind::Deny,
        d.risk == RiskLevel::High,
        d.reason@ == "command "@ + shown + " denied by worker policy"@,
        d.sandbox_profile is None,
        !d.requires_human_approval,
        d.warnings@.len() == 0,
{
    let pattern = policy.config.deny_commands@[i]@;
    law_final_name(directory, pattern);
    assert(is_meant(command, policy.config.deny_commands@[i]@));
}

/// A command that no denial names passes where all is allowed. Where all is denied it passes
/// exactly if an allowance names it.
pub proof fn law_other_commands_go_by_the_mode(
    policy: ConfigPolicy,
    command: Seq<char>,
    shown: Seq<char>,
    d: PolicyDecision,
)
    requires
        policy.is_decision(command, shown, d),
        forall|i: int|
            0 <= i < policy.config.deny_commands@.len() ==> !names_command(
                (#[trigger] policy.config.deny_commands@[i])@,
                command,
            ),
    ensures
        policy.config.mode == PolicyMode::AllowAll ==> d.decision == DecisionKind::Allow,
        policy.config.mode == PolicyMode::DenyAll && (exists|i: int|
            0 <= i < policy.config.allow_commands@.len() && names_command(
                (#[trigger] policy.config.allow_commands@[i])@,
                command,
            )) ==> d.decision == DecisionKind::Allow,
        policy.config.mode == PolicyMode::DenyAll && !(exists|i: int|
            0 <= i < policy.config.allow_commands@.len() && names_command(
                (#[trigger] policy.config.allow_commands@[i])@,
                command,
            )) ==> d.decision == DecisionKind::Deny && d.reason@ == "command "@ + shown
            + " is not allowed by worker policy"@,
        d.decision == DecisionKind::Allow ==> {
            &&& d.risk == RiskLevel::Medium
            &&& !d.requires_human_approval
            &&& d.warnings@.len() == 0
            &&& policy.source matches Some(source) ==> d.reason@ == "allowed by policy "@ + source@
            &&& policy.source is None ==> d.reason@ == "allow_all mode"@
            &&& d.sandbox_profile is Some
            &&& policy.config.sandbox is None ==> d.sandbox_profile->0@ == "none"@
            &&& policy.config.sandbox matches Some(sandbox) ==> {
                &&& sandbox.profile is None ==> d.sandbox_profile->0@ == "none"@
                &&& sandbox.profile matches Some(profile) ==> d.sandbox_profile->0@ == profile@
            }
        },
{
    assert forall|i: int| 0 <= i < policy.config.deny_commands@.len() implies !is_meant(
        command,
        (#[trigger] policy.config.deny_commands@[i])@,
    ) by {}
    assert(!is_listed(command, policy.config.deny_commands@));
    if exists|i: int|
        0 <= i < policy.config.allow_commands@.len() && names_command(
            (#[trigger] policy.config.allow_commands@[i])@,
            command,
        ) {
        let i = choose|i: int|
            0 <= i < policy.config.allow_commands@.len() && names_command(
                (#[trigger] policy.config.allow_commands@[i])@,
                command,
            );
        assert(is_meant(command, policy.config.allow_commands@[i]@));
    }
    if is_listed(command, policy.config.allow_commands@) {
        let i = choose|i: int|
            0 <= i < policy.config.allow_commands@.len() && is_meant(
                command,
                (#[trigger] policy.config.allow_commands@[i])@,
            );
        assert(names_command(policy.config.allow_commands@[i]@, command));
    }
}

/// Whether a pattern names a command: as it is, or as the name at its end.
pub open spec fn names_command(pattern: Seq<char>, command: Seq<char>) -> bool {
    pattern == command || final_name(command) == Some(pattern)
}

/// A pattern that does not stand in a command names something else; for a command without a slash
/// only the command itself is a pattern.
pub proof fn law_other_patterns_do_not_name_a_command(pattern: Seq<char>, command: Seq<char>)
    ensures
        !occurs_in(command, pattern) ==> !is_meant(command, pattern),
        is_name(command) ==> (is_meant(command, pattern) <==> pattern == command),
        pattern == command ==> is_meant(command, pattern),
{
    law_final_name_is_a_part_of_the_path(command);
    if is_name(command) {
        law_final_name(Seq::empty(), command);
    }
    if is_meant(command, pattern) {
        if pattern == command {
            assert(command.subrange(0, command.len() as int) =~= pattern);
            assert(occurs_at(command, pattern, 0));
        } else {
            let at = choose|at: int|
                0 <= at && at + pattern.len() <= command.len() && #[trigger] command.subrange(
                    at,
                    at + pattern.len(),
                ) == pattern;
            assert(occurs_at(command, pattern, at));
        }
    }
}

/// The policy decides on the first word of a run, or on the empty text where there is none.
pub proof fn law_policy_decides_on_the_first_word(
    policy: ConfigPolicy,
    operation: OperationRequest,
    spec: RunSpec,
    d: PolicyDecision,
)
    requires
        policy.decides(operation, spec, d),
    ensures
        spec.argv@.len() > 0 ==> policy.is_decision(
            spec.argv@[0]@,
            debug_text(spec.argv@[0]@),
            d,
        ),
        spec.argv@.len() == 0 ==> policy.is_decision(
            Seq::empty(),
            debug_text(Seq::empty()),
            d,
        ),
{
}

/// The policy that lets everything pass lets everything pass.
pub proof fn law_allow_all_allows(
    policy: AllowAllPolicy,
    operation: OperationRequest,
    spec: RunSpec,
    d: PolicyDecision,
)
    requires
        policy.decides(operation, spec, d),
    ensures
        d.decision == DecisionKind::Allow,
        d.reason@ == "allow_all mode"@,
        d.risk == RiskLevel::Medium,
        d.sandbox_profile is Some && d.sandbox_profile->0@ == "none"@,
        !d.requires_human_approval,
        d.warnings@.len() == 0,
{
}

/// The policy that holds where none is written down lets every command pass, without a sandbox.
pub proof fn law_default_policy_allows(
    policy: ConfigPolicy,
    command: Seq<char>,
    shown: Seq<char>,
    d: PolicyDecision,
)
    requires
        policy.config.is_default(),
        policy.source is None,
        policy.is_decision(command, shown, d),
    ensures
        policy.config.version == 1,
        policy.config.allow_commands@.len() == 0,
        policy.config.deny_commands@.len() == 0,
        d.decision == DecisionKind::Allow,
        d.reason@ == "allow_all mode"@,
        d.sandbox_profile is Some && d.sandbox_profile->0@ == "none"@,
{
    assert(!is_listed(command, policy.config.deny_commands@));
}

} // verus!
