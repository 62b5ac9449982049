//! File names, limits and endpoints, and the paths that are set at start-up.

use crate::text;
use crate::text::same;
use vstd::prelude::*;
use vstd::string::*;

verus! {

pub const DEFAULT_WORKSPACE: &'static str = "/workspace/ai_sandbox/canon";

pub const OBJECTIVES_FILE: &'static str = "agent_state/OBJECTIVES.json";

pub const OBJECTIVES_MD_FILE: &'static str = "PLANS/OBJECTIVES.md";

pub const MASTER_PLAN_FILE: &'static str = "agent_state/PLAN.json";

pub const VIOLATIONS_FILE: &'static str = "agent_state/VIOLATIONS.json";

pub const ISSUES_FILE: &'static str = "agent_state/ISSUES.json";

pub const INVARIANTS_FILE: &'static str = "INVARIANTS.json";

pub const INVARIANTS_MD_FILE: &'static str = "INVARIANT.md";

pub const WS_PORT_CANDIDATES: [u16; 6] = [9103, 9104, 9105, 9106, 9107, 9108];

pub const MAX_STEPS: usize = 2000;

pub const EXECUTOR_STEP_LIMIT: usize = 70;

/// A prompt above this size floods the model with noise.
pub const PROMPT_OVERFLOW_BYTES: usize = 80000;

pub const MAX_FULL_READ_LINES: usize = 1000;

pub const MAX_SNIPPET: usize = 20000;

pub const DEFAULT_RESPONSE_TIMEOUT_SECS: u64 = 60;

pub const DEFAULT_LLM_RETRY_COUNT: u32 = 3;

pub const DEFAULT_LLM_RETRY_DELAY_SECS: u64 = 5;

/// The directory of the agent's own runtime state.
pub const DEFAULT_AGENT_STATE_DIR: &'static str =
    "/workspace/ai_sandbox/canon-mini-agent/agent_state";

/// The planner projection where none was set.
pub const DEFAULT_PLANNER_PROJECTION_FILE: &'static str =
    "agent_state/default/planner-default.json";

/// The time that a role has to respond, where one is set for it.
pub open spec fn role_timeout(role: Seq<char>) -> Option<u64> {
    if role == "planner"@ || role == "mini_planner"@ {
        Some(60)
    } else if role == "executor"@ {
        Some(30)
    } else {
        None
    }
}

/// The time that a role has to respond, where one is set for it.
pub fn role_timeout_secs(role: &str) -> (r: Option<u64>)
    ensures
        r == role_timeout(role@),
{
    if same(role, "planner") || same(role, "mini_planner") {
        Some(60)
    } else if same(role, "executor") {
        Some(30)
    } else {
        None
    }
}

/// What is set at start-up and while the agent runs.
#[derive(Debug)]
pub struct RuntimeContext {
    pub workspace: Option<String>,
    pub agent_state_dir: Option<String>,
    pub planner_projection_file: Option<String>,
    pub active_task_id: String,
}

/// What an optional text holds, else a default.
pub open spec fn text_or(o: Option<String>, default: Seq<char>) -> Seq<char> {
    match o {
        Some(s) => s@,
        None => default,
    }
}

impl RuntimeContext {
    /// Nothing is set yet.
    pub fn new() -> (r: Self)
        ensures
            r.workspace is None,
            r.agent_state_dir is None,
            r.planner_projection_file is None,
            r.active_task_id@ == ""@,
    {
        RuntimeContext {
            workspace: None,
            agent_state_dir: None,
            planner_projection_file: None,
            active_task_id: "".to_owned(),
        }
    }
}

/// Records the plan task that is now in progress; the empty text clears it.
pub fn set_active_task_id(ctx: &mut RuntimeContext, id: &str)
    ensures
        final(ctx).active_task_id@ == id@,
        final(ctx).workspace == old(ctx).workspace,
        final(ctx).agent_state_dir == old(ctx).agent_state_dir,
        final(ctx).planner_projection_file == old(ctx).planner_projection_file,
{
    ctx.active_task_id = id.to_owned();
}

/// The plan task in progress, the empty text if none is.
pub fn active_task_id(ctx: &RuntimeContext) -> (r: String)
    ensures
        r@ == ctx.active_task_id@,
{
    ctx.active_task_id.clone()
}

/// Sets the workspace.
pub fn set_workspace(ctx: &mut RuntimeContext, path: String)
    ensures
        *final(ctx) == (RuntimeContext { workspace: Some(path), ..*old(ctx) }),
{
    ctx.workspace = Some(path);
}

/// The workspace, or the default one.
pub fn workspace(ctx: &RuntimeContext) -> (r: &str)
    ensures
        r@ == text_or(ctx.workspace, DEFAULT_WORKSPACE@),
{
    match &ctx.workspace {
        Some(path) => path.as_str(),
        None => DEFAULT_WORKSPACE,
    }
}

/// Sets the directory of the agent's own state.
pub fn set_agent_state_dir(ctx: &mut RuntimeContext, path: String)
    ensures
        *final(ctx) == (RuntimeContext { agent_state_dir: Some(path), ..*old(ctx) }),
{
    ctx.agent_state_dir = Some(path);
}

/// The directory of the agent's own state, or the default one.
pub fn agent_state_dir(ctx: &RuntimeContext) -> (r: &str)
    ensures
        r@ == text_or(ctx.agent_state_dir, DEFAULT_AGENT_STATE_DIR@),
{
    match &ctx.agent_state_dir {
        Some(path) => path.as_str(),
        None => DEFAULT_AGENT_STATE_DIR,
    }
}

/// An absolute path in its plainest form: each `/` begins a component that is neither
/// empty nor a lone dot, and nothing in it is a separator or a prefix elsewhere.
pub open spec fn plain_path(p: Seq<char>) -> bool {
    &&& p.len() > 1
    &&& p[0] == '/'
    &&& forall|i: int|
        0 <= i < p.len() ==> (#[trigger] p[i]) != '\\' && p[i] != ':' && (p[i] == '/'
            ==> begins_component(p, i + 1))
}

/// A component that is neither empty nor a lone dot begins at `i`.
pub open spec fn begins_component(p: Seq<char>, i: int) -> bool {
    &&& i < p.len()
    &&& p[i] != '/'
    &&& p[i] == '.' ==> i + 1 < p.len() && p[i + 1] != '/'
}

/// Where the last `/` of a path stands, -1 where it has none.
pub open spec fn last_slash(p: Seq<char>) -> int
    decreases p.len(),
{
    if p.len() == 0 {
        -1
    } else if p.last() == '/' {
        p.len() - 1
    } else {
        last_slash(p.drop_last())
    }
}

/// The directory above a plain path: what stands before its last component, and the root
/// where nothing does.
pub open spec fn directory_above(p: Seq<char>) -> Seq<char> {
    if last_slash(p) <= 0 {
        "/"@
    } else {
        p.take(last_slash(p))
    }
}

/// `std::path::Path::parent` gives a path without its final component, where it has one.
/// Claimed are a plain path, where that is the text before the last `/`, or the root, and
/// the empty path and the root, which have none. How other paths are cut depends on the
/// platform.
#[verifier::external_body]
fn parent_of(path: &str) -> (r: Option<String>)
    ensures
        plain_path(path@) ==> text::optional(r) == Some(directory_above(path@)),
        (path@.len() == 0 || path@ == "/"@) ==> r is None,
{
    std::path::Path::new(path).parent().map(|p| p.to_string_lossy().into_owned())
}

/// The workspace is the directory above the agent's own state, given as
/// `state_dir_parent`, where there is one.
pub fn is_source_tree(ctx: &RuntimeContext, state_dir_parent: Option<&str>) -> (r: bool)
    ensures
        r == (match state_dir_parent {
            Some(parent) => text_or(ctx.workspace, DEFAULT_WORKSPACE@) == parent@,
            None => false,
        }),
{
    match state_dir_parent {
        Some(parent) => same(workspace(ctx), parent),
        None => false,
    }
}

/// The workspace is the agent's own source tree: the directory above its state. What is
/// above a path that is not plain is for the platform to say.
pub fn is_self_modification_mode(ctx: &RuntimeContext) -> (r: bool)
    ensures
        ({
            let state_dir = text_or(ctx.agent_state_dir, DEFAULT_AGENT_STATE_DIR@);
            &&& plain_path(state_dir) ==> r == (text_or(ctx.workspace, DEFAULT_WORKSPACE@)
                == directory_above(state_dir))
            &&& state_dir.len() == 0 || state_dir == "/"@ ==> !r
        }),
{
    match parent_of(agent_state_dir(ctx)) {
        Some(parent) => is_source_tree(ctx, Some(parent.as_str())),
        None => is_source_tree(ctx, None),
    }
}

/// An endpoint that serves a role.
#[derive(Debug)]
pub struct EndpointSpec {
    pub id: &'static str,
    pub role: &'static str,
    pub role_markdown: &'static str,
    pub urls: Vec<&'static str>,
    pub stateful: bool,
    pub max_tabs: usize,
}

/// The planner and the executor pool share one conversation.
pub const SHARED_CONVERSATION_URL: &'static str =
    "https://chatgpt.com/gg/69e927d762c481a3a2ae6038794f2a3a";

/// The endpoints: one planner tab and an executor pool of two.
pub fn endpoint_specs() -> (r: Vec<EndpointSpec>)
    ensures
        r@.len() == 2,
        r@[0].id@ == "mini_planner_chatgpt"@,
        r@[0].role@ == "mini_planner"@,
        r@[0].role_markdown@ == "builtin:planner"@,
        r@[0].urls@ == seq![SHARED_CONVERSATION_URL],
        r@[0].stateful,
        r@[0].max_tabs == 1,
        r@[1].id@ == "executor_pool"@,
        r@[1].role@ == "executor"@,
        r@[1].role_markdown@ == "builtin:planner"@,
        r@[1].urls@ == seq![SHARED_CONVERSATION_URL],
        r@[1].stateful,
        r@[1].max_tabs == 2,
{
    let mut urls: Vec<&'static str> = Vec::new();
    urls.push(SHARED_CONVERSATION_URL);
    let planner = EndpointSpec {
        id: "mini_planner_chatgpt",
        role: "mini_planner",
        role_markdown: "builtin:planner",
        urls,
        stateful: true,
        max_tabs: 1,
    };
    let mut urls: Vec<&'static str> = Vec::new();
    urls.push(SHARED_CONVERSATION_URL);
    let executor = EndpointSpec {
        id: "executor_pool",
        role: "executor",
        role_markdown: "builtin:planner",
        urls,
        stateful: true,
        max_tabs: 2,
    };
    let mut specs: Vec<EndpointSpec> = Vec::new();
    specs.push(planner);
    specs.push(executor);
    specs
}

/// The planner projection of an instance.
pub open spec fn projection_name(instance: Seq<char>) -> Seq<char> {
    "agent_state/"@ + instance + "/planner-"@ + instance + ".json"@
}

/// The planner projection of an instance.
pub fn planner_projection_file_for_instance(instance_id: &str) -> (r: String)
    ensures
        r@ == projection_name(instance_id@),
{
    let mut name = "agent_state/".to_owned();
    name.append(instance_id);
    name.append("/planner-");
    name.append(instance_id);
    name.append(".json");
    name
}

/// The lane plan of an instance and an endpoint.
pub fn lane_plan_file_for_instance(instance_id: &str, endpoint_id: &str) -> (r: String)
    ensures
        r@ == "agent_state/"@ + instance_id@ + "/executor-"@ + endpoint_id@ + ".json"@,
{
    let mut name = "agent_state/".to_owned();
    name.append(instance_id);
    name.append("/executor-");
    name.append(endpoint_id);
    name.append(".json");
    name
}

/// The planner projection, or that of the default instance. Once set it stays.
pub fn planner_projection_file(ctx: &RuntimeContext) -> (r: &str)
    ensures
        r@ == text_or(ctx.planner_projection_file, DEFAULT_PLANNER_PROJECTION_FILE@),
{
    match &ctx.planner_projection_file {
        Some(path) => path.as_str(),
        None => DEFAULT_PLANNER_PROJECTION_FILE,
    }
}

/// Sets the planner projection where none is set yet, and says whether it did.
pub fn set_planner_projection_file(ctx: &mut RuntimeContext, path: String) -> (r: bool)
    ensures
        r == (old(ctx).planner_projection_file is None),
        *final(ctx) == (if r {
            (RuntimeContext { planner_projection_file: Some(path), ..*old(ctx) })
        } else {
            *old(ctx)
        }),
{
    if ctx.planner_projection_file.is_none() {
        ctx.planner_projection_file = Some(path);
        true
    } else {
        false
    }
}

/// The planner projection of an instance, under its older name.
pub fn diagnostics_file_for_instance(instance_id: &str) -> (r: String)
    ensures
        r@ == projection_name(instance_id@),
{
    planner_projection_file_for_instance(instance_id)
}

/// The planner projection, under its older name.
pub fn diagnostics_file(ctx: &RuntimeContext) -> (r: &str)
    ensures
        r@ == text_or(ctx.planner_projection_file, DEFAULT_PLANNER_PROJECTION_FILE@),
{
    planner_projection_file(ctx)
}

/// Without an instance of its own the agent uses that of the instance `default`.
pub proof fn law_default_projection_is_that_of_the_default_instance()
    ensures
        projection_name("default"@) == DEFAULT_PLANNER_PROJECTION_FILE@,
{
    reveal_strlit("default");
    reveal_strlit("agent_state/");
    reveal_strlit("/planner-");
    reveal_strlit(".json");
    reveal_strlit("agent_state/default/planner-default.json");
    assert(projection_name("default"@) =~= DEFAULT_PLANNER_PROJECTION_FILE@);
}

} // verus!
