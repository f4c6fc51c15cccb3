//! Sub-agent profiles: the registry of named profiles (with the built-in
//! ones), resolution of single-parent inheritance with cycle detection, and
//! per-launch overrides.

use vstd::prelude::*;
use vstd::string::*;

use crate::dup::{lemma_seq_view_push, lemma_seq_view_update, seq_view, Duplicate};
use crate::find::{first_index, lemma_first_index_absent, lemma_first_index_found, lemma_first_index_spec};

verus! {

/// The role a sub-agent plays.
#[derive(Debug, Clone, Copy, PartialEq, Eq, Structural)]
pub enum SubagentKind {
    Developer,
    Planner,
    Explorer,
}

/// One model a sub-agent may run on.
#[derive(Debug, Clone, PartialEq, Eq)]
pub struct ModelCandidate {
    pub provider: String,
    pub model: String,
    pub reasoning_effort: Option<String>,
}

pub struct CandidateView {
    pub provider: Seq<char>,
    pub model: Seq<char>,
    pub reasoning_effort: Option<Seq<char>>,
}

impl View for ModelCandidate {
    type V = CandidateView;

    open spec fn view(&self) -> CandidateView {
        CandidateView {
            provider: self.provider@,
            model: self.model@,
            reasoning_effort: match self.reasoning_effort {
                Some(e) => Some(e@),
                None => None,
            },
        }
    }
}

impl Duplicate for ModelCandidate {
    fn duplicate(&self) -> (r: Self) {
        ModelCandidate {
            provider: self.provider.duplicate(),
            model: self.model.duplicate(),
            reasoning_effort: crate::dup::duplicate_opt(&self.reasoning_effort),
        }
    }
}

/// Which tools a sub-agent gets.
#[derive(Debug, Clone, PartialEq, Eq)]
pub enum ToolPolicy {
    /// The tools of the profile it inherits from (all tools at the root).
    Inherit,
    /// Exactly these tools.
    Replace { tools: Vec<String> },
}

pub enum ToolPolicyView {
    Inherit,
    Replace { tools: Seq<Seq<char>> },
}

impl View for ToolPolicy {
    type V = ToolPolicyView;

    open spec fn view(&self) -> ToolPolicyView {
        match self {
            ToolPolicy::Inherit => ToolPolicyView::Inherit,
            ToolPolicy::Replace { tools } => ToolPolicyView::Replace { tools: seq_view(tools@) },
        }
    }
}

impl Duplicate for ToolPolicy {
    fn duplicate(&self) -> (r: Self) {
        match self {
            ToolPolicy::Inherit => ToolPolicy::Inherit,
            ToolPolicy::Replace { tools } => ToolPolicy::Replace { tools: crate::dup::duplicate_vec(tools) },
        }
    }
}

/// A named sub-agent profile.
#[derive(Debug, Clone, PartialEq, Eq)]
pub struct SubagentProfile {
    pub name: String,
    pub version: u32,
    pub description: Option<String>,
    pub kind: Option<SubagentKind>,
    /// The profile this one inherits unset fields from.
    pub inherits: Option<String>,
    pub system_prompt: Option<String>,
    /// Candidate models, in order of preference.
    pub models: Vec<ModelCandidate>,
    pub tools: ToolPolicy,
    pub default_timeout_ms: Option<u64>,
}

pub struct ProfileView {
    pub name: Seq<char>,
    pub version: u32,
    pub description: Option<Seq<char>>,
    pub kind: Option<SubagentKind>,
    pub inherits: Option<Seq<char>>,
    pub system_prompt: Option<Seq<char>>,
    pub models: Seq<CandidateView>,
    pub tools: ToolPolicyView,
    pub default_timeout_ms: Option<u64>,
}

pub open spec fn text_opt(o: Option<String>) -> Option<Seq<char>> {
    match o {
        Some(s) => Some(s@),
        None => None,
    }
}

impl View for SubagentProfile {
    type V = ProfileView;

    open spec fn view(&self) -> ProfileView {
        ProfileView {
            name: self.name@,
            version: self.version,
            description: text_opt(self.description),
            kind: self.kind,
            inherits: text_opt(self.inherits),
            system_prompt: text_opt(self.system_prompt),
            models: seq_view(self.models@),
            tools: self.tools@,
            default_timeout_ms: self.default_timeout_ms,
        }
    }
}

impl Duplicate for SubagentProfile {
    fn duplicate(&self) -> (r: Self) {
        SubagentProfile {
            name: self.name.duplicate(),
            version: self.version,
            description: crate::dup::duplicate_opt(&self.description),
            kind: self.kind,
            inherits: crate::dup::duplicate_opt(&self.inherits),
            system_prompt: crate::dup::duplicate_opt(&self.system_prompt),
            models: crate::dup::duplicate_vec(&self.models),
            tools: self.tools.duplicate(),
            default_timeout_ms: self.default_timeout_ms,
        }
    }
}

impl Default for SubagentProfile {
    fn default() -> (r: Self)
        ensures
            r@.name.len() == 0,
            r.version == 1,
            r.description.is_none(),
            r.kind.is_none(),
            r.inherits.is_none(),
            r.system_prompt.is_none(),
            r.models@.len() == 0,
            r.tools == ToolPolicy::Inherit,
            r.default_timeout_ms.is_none(),
    {
        let name = String::from_str("");
        proof {
            reveal_strlit("");
        }
        SubagentProfile {
            name,
            version: 1,
            description: None,
            kind: None,
            inherits: None,
            system_prompt: None,
            models: Vec::new(),
            tools: ToolPolicy::Inherit,
            default_timeout_ms: None,
        }
    }
}

/// Per-launch changes to a resolved profile.
#[derive(Debug, Clone, PartialEq, Eq)]
pub struct SubagentOverrides {
    pub system_prompt: Option<String>,
    pub model: Option<ModelCandidate>,
    pub tools: Option<ToolPolicy>,
    pub timeout_ms: Option<u64>,
}

impl Default for SubagentOverrides {
    fn default() -> (r: Self)
        ensures
            r.system_prompt.is_none(),
            r.model.is_none(),
            r.tools.is_none(),
            r.timeout_ms.is_none(),
    {
        SubagentOverrides { system_prompt: None, model: None, tools: None, timeout_ms: None }
    }
}

/// Why a profile cannot be resolved.
#[derive(Debug, Clone, PartialEq, Eq)]
pub enum SubagentProfileError {
    NotFound { name: String },
    CircularInheritance { chain: Vec<String> },
}

pub enum ProfileErrorView {
    NotFound { name: Seq<char> },
    CircularInheritance { chain: Seq<Seq<char>> },
}

impl View for SubagentProfileError {
    type V = ProfileErrorView;

    open spec fn view(&self) -> ProfileErrorView {
        match self {
            SubagentProfileError::NotFound { name } => ProfileErrorView::NotFound { name: name@ },
            SubagentProfileError::CircularInheritance { chain } => ProfileErrorView::CircularInheritance {
                chain: seq_view(chain@),
            },
        }
    }
}

/// Names joined by `" -> "`.
pub open spec fn arrow_chain(names: Seq<Seq<char>>) -> Seq<char>
    decreases names.len(),
{
    if names.len() == 0 {
        Seq::empty()
    } else if names.len() == 1 {
        names[0]
    } else {
        arrow_chain(names.drop_last()) + " -> "@ + names.last()
    }
}

/// The message of a resolution error.
pub open spec fn profile_error_text(e: ProfileErrorView) -> Seq<char> {
    match e {
        ProfileErrorView::NotFound { name } => "subagent profile not found: "@ + name,
        ProfileErrorView::CircularInheritance { chain } => "circular subagent profile inheritance: "@ + arrow_chain(
            chain,
        ),
    }
}

impl SubagentProfileError {
    /// The human-readable message of this error.
    pub fn message(&self) -> (s: String)
        ensures
            s@ == profile_error_text(self@),
    {
        match self {
            SubagentProfileError::NotFound { name } => {
                let mut s = String::from_str("subagent profile not found: ");
                s.append(name.as_str());
                s
            },
            SubagentProfileError::CircularInheritance { chain } => {
                let mut s = String::from_str("circular subagent profile inheritance: ");
                let ghost base = s@;
                let ghost names = seq_view(chain@);
                let mut i: usize = 0;
                while i < chain.len()
                    invariant
                        i <= chain.len(),
                        names == seq_view(chain@),
                        s@ == base + arrow_chain(names.take(i as int)),
                    decreases chain.len() - i,
                {
                    proof {
                        assert(names.take(i + 1).drop_last() =~= names.take(i as int));
                    }
                    if i > 0 {
                        s.append(" -> ");
                    }
                    s.append(chain[i].as_str());
                    proof {
                        if i == 0 {
                            assert(arrow_chain(names.take(1)) == names[0]);
                        }
                        assert(s@ =~= base + arrow_chain(names.take(i + 1)));
                    }
                    i = i + 1;
                }
                proof {
                    assert(names.take(names.len() as int) =~= names);
                }
                s
            },
        }
    }
}

pub open spec fn profile_named(name: Seq<char>) -> spec_fn(ProfileView) -> bool {
    |p: ProfileView| p.name == name
}

/// A resolved profile inheriting from its resolved parent: the child's set
/// fields win, its models replace the parent's when it has any, its tool
/// policy wins unless it inherits, and nothing is left to inherit.
pub open spec fn merge_spec(parent: ProfileView, child: ProfileView) -> ProfileView {
    ProfileView {
        name: child.name,
        version: child.version,
        description: if child.description.is_some() { child.description } else { parent.description },
        kind: if child.kind.is_some() { child.kind } else { parent.kind },
        inherits: None,
        system_prompt: if child.system_prompt.is_some() { child.system_prompt } else { parent.system_prompt },
        models: if child.models.len() > 0 { child.models } else { parent.models },
        tools: match child.tools {
            ToolPolicyView::Inherit => parent.tools,
            _ => child.tools,
        },
        default_timeout_ms: if child.default_timeout_ms.is_some() { child.default_timeout_ms } else { parent.default_timeout_ms },
    }
}

/// The inheritance chain of `name`, root first, having visited `path`
/// already; a name met twice (or a chain longer than `fuel`) is circular.
pub open spec fn chain_spec(reg: Seq<ProfileView>, name: Seq<char>, path: Seq<Seq<char>>, fuel: nat) -> Result<
    Seq<ProfileView>,
    ProfileErrorView,
>
    decreases fuel,
{
    if path.contains(name) || fuel == 0 {
        Err(ProfileErrorView::CircularInheritance { chain: path.push(name) })
    } else if first_index(reg, profile_named(name)) < 0 {
        Err(ProfileErrorView::NotFound { name })
    } else {
        let p = reg[first_index(reg, profile_named(name))];
        match p.inherits {
            None => Ok(seq![p]),
            Some(parent) => match chain_spec(reg, parent, path.push(name), (fuel - 1) as nat) {
                Ok(c) => Ok(c.push(p)),
                Err(e) => Err(e),
            },
        }
    }
}

/// The profile a chain resolves to: the root with its `inherits` cleared,
/// then each descendant merged over it.
pub open spec fn fold_chain(c: Seq<ProfileView>) -> ProfileView
    decreases c.len(),
{
    if c.len() <= 1 {
        ProfileView { inherits: None, ..c[0] }
    } else {
        merge_spec(fold_chain(c.drop_last()), c.last())
    }
}

/// How `name` resolves in `reg`.
pub open spec fn resolve_spec(reg: Seq<ProfileView>, name: Seq<char>) -> Result<ProfileView, ProfileErrorView> {
    match chain_spec(reg, name, Seq::empty(), (reg.len() + 1) as nat) {
        Ok(c) => Ok(fold_chain(c)),
        Err(e) => Err(e),
    }
}

/// A resolved profile with per-launch overrides applied.
pub open spec fn override_spec(p: ProfileView, o: SubagentOverrides) -> ProfileView {
    ProfileView {
        system_prompt: match o.system_prompt {
            Some(s) => Some(s@),
            None => p.system_prompt,
        },
        models: match o.model {
            Some(m) => seq![m@],
            None => p.models,
        },
        tools: match o.tools {
            Some(t) => t@,
            None => p.tools,
        },
        default_timeout_ms: match o.timeout_ms {
            Some(t) => Some(t),
            None => p.default_timeout_ms,
        },
        ..p
    }
}

/// Registered profiles, looked up by name.
pub struct SubagentProfileRegistry {
    profiles: Vec<SubagentProfile>,
}

impl View for SubagentProfileRegistry {
    type V = Seq<ProfileView>;

    closed spec fn view(&self) -> Seq<ProfileView> {
        seq_view(self.profiles@)
    }
}

/// Reverses a sequence.
pub open spec fn reversed<T>(s: Seq<T>) -> Seq<T> {
    Seq::new(s.len(), |i: int| s[s.len() - 1 - i])
}

/// A chain result with `tail` appended.
pub open spec fn then_tail(r: Result<Seq<ProfileView>, ProfileErrorView>, tail: Seq<ProfileView>) -> Result<
    Seq<ProfileView>,
    ProfileErrorView,
> {
    match r {
        Ok(c) => Ok(c + tail),
        Err(e) => Err(e),
    }
}

fn opt_text(o: &Option<String>) -> (r: Option<String>)
    ensures
        text_opt(r) == text_opt(*o),
{
    crate::dup::duplicate_opt(o)
}

/// `child` inheriting from the resolved `parent`; see [`merge_spec`].
fn merge(parent: SubagentProfile, child: &SubagentProfile) -> (r: SubagentProfile)
    ensures
        r@ == merge_spec(parent@, child@),
{
    let description = if child.description.is_some() { opt_text(&child.description) } else { parent.description };
    let system_prompt = if child.system_prompt.is_some() { opt_text(&child.system_prompt) } else { parent.system_prompt };
    let models = if child.models.len() > 0 { crate::dup::duplicate_vec(&child.models) } else { parent.models };
    let tools = match &child.tools {
        ToolPolicy::Inherit => parent.tools,
        _ => child.tools.duplicate(),
    };
    SubagentProfile {
        name: child.name.duplicate(),
        version: child.version,
        description,
        kind: if child.kind.is_some() { child.kind } else { parent.kind },
        inherits: None,
        system_prompt,
        models,
        tools,
        default_timeout_ms: if child.default_timeout_ms.is_some() { child.default_timeout_ms } else { parent.default_timeout_ms },
    }
}

fn contains_name(names: &Vec<String>, name: &String) -> (r: bool)
    ensures
        r == seq_view(names@).contains(name@),
{
    let mut i: usize = 0;
    while i < names.len()
        invariant
            i <= names.len(),
            forall|k: int| 0 <= k < i ==> seq_view(names@)[k] != name@,
        decreases names.len() - i,
    {
        if names[i] == *name {
            proof {
                assert(seq_view(names@)[i as int] == name@);
            }
            return true;
        }
        i = i + 1;
    }
    false
}

impl SubagentProfileRegistry {
    /// An empty registry.
    pub fn new() -> (r: Self)
        ensures
            r@.len() == 0,
    {
        let r = SubagentProfileRegistry { profiles: Vec::new() };
        proof {
            assert(r@ =~= Seq::<ProfileView>::empty());
        }
        r
    }

    fn find(&self, name: &String) -> (r: Option<usize>)
        ensures
            match r {
                Some(i) => i == first_index(self@, profile_named(name@)),
                None => first_index(self@, profile_named(name@)) == -1,
            },
    {
        let mut i: usize = 0;
        while i < self.profiles.len()
            invariant
                i <= self.profiles.len(),
                forall|j: int| 0 <= j < i ==> !profile_named(name@)(self@[j]),
            decreases self.profiles.len() - i,
        {
            if self.profiles[i].name == *name {
                proof {
                    lemma_first_index_found(self@, profile_named(name@), i as int);
                }
                return Some(i);
            }
            i = i + 1;
        }
        proof {
            lemma_first_index_absent(self@, profile_named(name@));
        }
        None
    }

    /// Registers `profile`, replacing the profile of the same name if any.
    pub fn register(&mut self, profile: SubagentProfile)
        ensures
            final(self)@ == if first_index(old(self)@, profile_named(profile@.name)) >= 0 {
                old(self)@.update(first_index(old(self)@, profile_named(profile@.name)), profile@)
            } else {
                old(self)@.push(profile@)
            },
    {
        proof {
            lemma_first_index_spec(self@, profile_named(profile@.name));
        }
        match self.find(&profile.name) {
            Some(i) => {
                proof {
                    lemma_seq_view_update(self.profiles@, i as int, profile);
                }
                self.profiles.set(i, profile);
            },
            None => {
                proof {
                    lemma_seq_view_push(self.profiles@, profile);
                }
                self.profiles.push(profile);
            },
        }
    }

    /// Resolves `name` with its inheritance chain; see [`resolve_spec`].
    pub fn resolve(&self, name: &str) -> (r: Result<SubagentProfile, SubagentProfileError>)
        ensures
            match r {
                Ok(p) => resolve_spec(self@, name@) == Ok::<ProfileView, ProfileErrorView>(p@),
                Err(e) => resolve_spec(self@, name@) == Err::<ProfileView, ProfileErrorView>(e@),
            },
    {
        let ghost reg = self@;
        let ghost total = (reg.len() + 1) as nat;
        let mut current = String::from_str(name);
        let mut path: Vec<String> = Vec::new();
        let mut walked: Vec<SubagentProfile> = Vec::new();
        let mut fuel: usize = self.profiles.len();
        proof {
            assert(seq_view(walked@) =~= Seq::<ProfileView>::empty());
            assert(reversed(Seq::<ProfileView>::empty()) =~= Seq::<ProfileView>::empty());
            assert(seq_view(path@) =~= Seq::<Seq<char>>::empty());
        }
        loop
            invariant
                reg == self@,
                total == reg.len() + 1,
                fuel + 1 + path.len() == total,
                walked.len() == path.len(),
                chain_spec(reg, name@, Seq::empty(), total) == then_tail(
                    chain_spec(reg, current@, seq_view(path@), (fuel + 1) as nat),
                    reversed(seq_view(walked@)),
                ),
            decreases fuel,
        {
            if contains_name(&path, &current) {
                let mut chain = path;
                proof {
                    lemma_seq_view_push(chain@, current);
                }
                chain.push(current);
                return Err(SubagentProfileError::CircularInheritance { chain });
            }
            let i = match self.find(&current) {
                Some(i) => i,
                None => {
                    return Err(SubagentProfileError::NotFound { name: current });
                },
            };
            proof {
                lemma_first_index_spec(reg, profile_named(current@));
            }
            let p = self.profiles[i].duplicate();
            let ghost w0 = seq_view(walked@);
            let ghost p_view = p@;
            match &self.profiles[i].inherits {
                None => {
                    proof {
                        lemma_seq_view_push(walked@, p);
                    }
                    walked.push(p);
                    proof {
                        assert(reversed(w0.push(p_view)) =~= seq![p_view] + reversed(w0));
                    }
                    return Ok(fold_walked(walked));
                },
                Some(parent) => {
                    if fuel == 0 {
                        let mut chain = path;
                        proof {
                            assert(chain_spec(reg, parent@, seq_view(chain@).push(current@), 0) == Err::<Seq<ProfileView>, ProfileErrorView>(
                                ProfileErrorView::CircularInheritance { chain: seq_view(chain@).push(current@).push(parent@) },
                            ));
                            lemma_seq_view_push(chain@, current);
                        }
                        chain.push(current);
                        let next = parent.duplicate();
                        proof {
                            lemma_seq_view_push(chain@, next);
                        }
                        chain.push(next);
                        return Err(SubagentProfileError::CircularInheritance { chain });
                    }
                    let next = parent.duplicate();
                    proof {
                        let x = chain_spec(reg, parent@, seq_view(path@).push(current@), fuel as nat);
                        if let Ok(c) = x {
                            assert(c.push(p_view) =~= c + seq![p_view]);
                        }
                        assert(p_view == reg[first_index(reg, profile_named(current@))]);
                        assert(p_view.inherits == Some(parent@));
                        assert(chain_spec(reg, current@, seq_view(path@), (fuel + 1) as nat) == then_tail(x, seq![p_view]));
                        lemma_then_tail_assoc(x, seq![p_view], reversed(w0));
                        lemma_seq_view_push(path@, current);
                        lemma_seq_view_push(walked@, p);
                        assert(reversed(w0.push(p_view)) =~= seq![p_view] + reversed(w0));
                    }
                    path.push(current);
                    walked.push(p);
                    current = next;
                    fuel = fuel - 1;
                },
            }
        }
    }

    /// Resolves `name` and applies `overrides`; see [`override_spec`].
    pub fn resolve_effective(&self, name: &str, overrides: &SubagentOverrides) -> (r: Result<
        SubagentProfile,
        SubagentProfileError,
    >)
        ensures
            match r {
                Ok(p) => resolve_spec(self@, name@) matches Ok(base) && p@ == override_spec(base, *overrides),
                Err(e) => resolve_spec(self@, name@) == Err::<ProfileView, ProfileErrorView>(e@),
            },
    {
        let mut p = self.resolve(name)?;
        match &overrides.system_prompt {
            Some(s) => {
                p.system_prompt = Some(s.duplicate());
            },
            None => {},
        }
        match &overrides.model {
            Some(m) => {
                let mut models: Vec<ModelCandidate> = Vec::new();
                let c = m.duplicate();
                proof {
                    lemma_seq_view_push(models@, c);
                    assert(seq_view(models@.push(c)) =~= seq![c@]);
                }
                models.push(c);
                p.models = models;
            },
            None => {},
        }
        match &overrides.tools {
            Some(t) => {
                p.tools = t.duplicate();
            },
            None => {},
        }
        match overrides.timeout_ms {
            Some(t) => {
                p.default_timeout_ms = Some(t);
            },
            None => {},
        }
        Ok(p)
    }
}

proof fn lemma_then_tail_assoc(r: Result<Seq<ProfileView>, ProfileErrorView>, a: Seq<ProfileView>, b: Seq<ProfileView>)
    ensures
        then_tail(then_tail(r, a), b) == then_tail(r, a + b),
{
    if let Ok(c) = r {
        assert((c + a) + b =~= c + (a + b));
    }
}

/// Folds a walked chain (child first, root last); see [`fold_chain`].
fn fold_walked(walked: Vec<SubagentProfile>) -> (r: SubagentProfile)
    requires
        walked.len() > 0,
    ensures
        r@ == fold_chain(reversed(seq_view(walked@))),
{
    let ghost w = seq_view(walked@);
    let ghost c = reversed(w);
    let n = walked.len();
    let mut acc = walked[n - 1].duplicate();
    acc.inherits = None;
    proof {
        assert(c.take(1) =~= seq![w[n - 1]]);
    }
    let mut k: usize = 1;
    while k < n
        invariant
            1 <= k <= n,
            n == walked.len(),
            w == seq_view(walked@),
            c == reversed(w),
            acc@ == fold_chain(c.take(k as int)),
        decreases n - k,
    {
        proof {
            assert(c.take(k + 1).drop_last() =~= c.take(k as int));
            assert(c.take(k + 1).last() == w[n - 1 - k]);
        }
        acc = merge(acc, &walked[n - 1 - k]);
        k = k + 1;
    }
    proof {
        assert(c.take(n as int) =~= c);
    }
    acc
}

/// The view of a built-in profile.
pub open spec fn builtin_view(name: Seq<char>, description: Seq<char>, kind: SubagentKind, prompt: Seq<char>) -> ProfileView {
    ProfileView {
        name,
        version: 1,
        description: Some(description),
        kind: Some(kind),
        inherits: None,
        system_prompt: Some(prompt),
        models: Seq::empty(),
        tools: ToolPolicyView::Inherit,
        default_timeout_ms: None,
    }
}

fn builtin(name: &str, description: &str, kind: SubagentKind, prompt: &str) -> (r: SubagentProfile)
    ensures
        r@ == builtin_view(name@, description@, kind, prompt@),
{
    let r = SubagentProfile {
        name: String::from_str(name),
        version: 1,
        description: Some(String::from_str(description)),
        kind: Some(kind),
        inherits: None,
        system_prompt: Some(String::from_str(prompt)),
        models: Vec::new(),
        tools: ToolPolicy::Inherit,
        default_timeout_ms: None,
    };
    proof {
        assert(seq_view(r.models@) =~= Seq::<CandidateView>::empty());
    }
    r
}

impl SubagentProfileRegistry {
    /// A registry holding the built-in developer, planner and explorer profiles.
    pub fn with_builtins() -> (r: Self)
        ensures
            r@ == seq![
                builtin_view(
                    "builtin:developer"@,
                    "Implements focused code changes"@,
                    SubagentKind::Developer,
                    "You are a developer sub-agent. Carry out the coding task you are given with focused changes and report what you changed."@,
                ),
                builtin_view(
                    "builtin:planner"@,
                    "Breaks a request into an ordered plan"@,
                    SubagentKind::Planner,
                    "You are a planner sub-agent. Investigate the request and return a concise, ordered plan without modifying files."@,
                ),
                builtin_view(
                    "builtin:explorer"@,
                    "Searches the workspace to answer questions"@,
                    SubagentKind::Explorer,
                    "You are an explorer sub-agent. Read and search the workspace to answer the question you are given without modifying files."@,
                ),
            ],
    {
        let mut profiles: Vec<SubagentProfile> = Vec::new();
        let d = builtin(
            "builtin:developer",
            "Implements focused code changes",
            SubagentKind::Developer,
            "You are a developer sub-agent. Carry out the coding task you are given with focused changes and report what you changed.",
        );
        let p = builtin(
            "builtin:planner",
            "Breaks a request into an ordered plan",
            SubagentKind::Planner,
            "You are a planner sub-agent. Investigate the request and return a concise, ordered plan without modifying files.",
        );
        let e = builtin(
            "builtin:explorer",
            "Searches the workspace to answer questions",
            SubagentKind::Explorer,
            "You are an explorer sub-agent. Read and search the workspace to answer the question you are given without modifying files.",
        );
        proof {
            lemma_seq_view_push(profiles@, d);
            lemma_seq_view_push(profiles@.push(d), p);
            lemma_seq_view_push(profiles@.push(d).push(p), e);
        }
        profiles.push(d);
        profiles.push(p);
        profiles.push(e);
        let r = SubagentProfileRegistry { profiles };
        proof {
            assert(r@ =~= seq![d@, p@, e@]);
        }
        r
    }
}

} // verus!
