//! Source trees: which git commands keep them up to date, and how the Python
//! files that define a model are found and presented.
use vstd::prelude::*;

use crate::cli::first_index;
use crate::text::{
    chars_of, occurs_at, str_concat, str_concat3, contains, contains_chars, join, join_strings, owned, push_string,
    split_chars, split_on, string_of, trim, trim_str, views,
};

verus! {

broadcast use vstd::seq_lib::group_seq_properties;

/// One configured source tree.
#[derive(Debug, PartialEq, Eq)]
pub struct SourceConfig {
    /// Local path to the git working tree.
    pub path: String,
    /// Remote origin URL (SSH or HTTPS). Required for cloning from scratch.
    pub origin: Option<String>,
    /// Branch to track. Defaults to "main".
    pub branch: Option<String>,
    /// Path to SSH private key (used with SSH origins).
    pub ssh_key: Option<String>,
    /// Bearer token for HTTPS origins (GitHub PAT, GitLab token, etc.).
    pub token: Option<String>,
    /// Pull this source automatically when `serve` starts.
    pub update_on_serve: bool,
}

/// The model of a source entry.
pub struct SourceV {
    pub path: Seq<char>,
    pub origin: Option<Seq<char>>,
    pub branch: Option<Seq<char>>,
    pub ssh_key: Option<Seq<char>>,
    pub token: Option<Seq<char>>,
    pub update_on_serve: bool,
}

impl View for SourceConfig {
    type V = SourceV;

    open spec fn view(&self) -> SourceV {
        SourceV {
            path: self.path@,
            origin: self.origin.deep_view(),
            branch: self.branch.deep_view(),
            ssh_key: self.ssh_key.deep_view(),
            token: self.token.deep_view(),
            update_on_serve: self.update_on_serve,
        }
    }
}

/// A copy of an optional string.
pub fn copy_opt(o: &Option<String>) -> (r: Option<String>)
    ensures
        r.deep_view() == o.deep_view(),
{
    match o {
        Some(s) => Some(s.clone()),
        None => None,
    }
}

impl Clone for SourceConfig {
    fn clone(&self) -> (r: Self)
        ensures
            r@ == self@,
    {
        SourceConfig {
            path: self.path.clone(),
            origin: copy_opt(&self.origin),
            branch: copy_opt(&self.branch),
            ssh_key: copy_opt(&self.ssh_key),
            token: copy_opt(&self.token),
            update_on_serve: self.update_on_serve,
        }
    }
}

impl Default for SourceConfig {
    fn default() -> (r: Self)
        ensures
            r@ == (SourceV {
                path: Seq::empty(),
                origin: None,
                branch: None,
                ssh_key: None,
                token: None,
                update_on_serve: false,
            }),
    {
        SourceConfig {
            path: String::new(),
            origin: None,
            branch: None,
            ssh_key: None,
            token: None,
            update_on_serve: false,
        }
    }
}

/// Errors of source management.
#[derive(Debug, PartialEq, Eq)]
pub enum SourceError {
    NotARepository { path: String },
    NoSources,
    NoFilesFound { model: String },
    NoModelClass { model: String },
}

impl SourceError {
    pub open spec fn spec_message(&self) -> Seq<char> {
        match self {
            SourceError::NotARepository { path } => path@
                + ": not a git repo and no origin configured"@,
            SourceError::NoSources => "No sources configured for this profile. Add `sources:` to config.yaml."@,
            SourceError::NoFilesFound { model } => "No Python files found referencing model '"@
                + model@ + "'"@,
            SourceError::NoModelClass { model } => "No Odoo model class found for '"@ + model@
                + "' (files matched but none define/inherit it)"@,
        }
    }

    /// The error as a line of text.
    pub fn message(&self) -> (r: String)
        ensures
            r@ == self.spec_message(),
    {
        match self {
            SourceError::NotARepository { path } => str_concat(
                path.as_str(),
                ": not a git repo and no origin configured",
            ),
            SourceError::NoSources => owned(
                "No sources configured for this profile. Add `sources:` to config.yaml.",
            ),
            SourceError::NoFilesFound { model } => str_concat3(
                "No Python files found referencing model '",
                model.as_str(),
                "'",
            ),
            SourceError::NoModelClass { model } => str_concat3(
                "No Odoo model class found for '",
                model.as_str(),
                "' (files matched but none define/inherit it)",
            ),
        }
    }
}

// ── git invocations ──────────────────────────────────────────────────────────

/// One run of `git`: the working directory, the arguments after `git`, the
/// `GIT_SSH_COMMAND` to set, if any, and the subcommand alone (for messages).
#[derive(Debug, PartialEq, Eq)]
pub struct GitCommand {
    pub work_dir: Option<String>,
    pub args: Vec<String>,
    pub ssh_command: Option<String>,
    pub subcommand: Vec<String>,
}

pub struct GitCall {
    pub work_dir: Option<Seq<char>>,
    pub args: Seq<Seq<char>>,
    pub ssh_command: Option<Seq<char>>,
    pub subcommand: Seq<Seq<char>>,
}

impl View for GitCommand {
    type V = GitCall;

    open spec fn view(&self) -> GitCall {
        GitCall {
            work_dir: self.work_dir.deep_view(),
            args: views(self.args@),
            ssh_command: self.ssh_command.deep_view(),
            subcommand: views(self.subcommand@),
        }
    }
}

/// The arguments of a git run: a token becomes an `http.extraHeader`
/// option, which must come before the subcommand.
pub open spec fn git_args(sub_args: Seq<Seq<char>>, token: Option<Seq<char>>) -> Seq<Seq<char>> {
    match token {
        Some(t) => seq!["-c"@, "http.extraHeader=Authorization: Bearer "@ + t] + sub_args,
        None => sub_args,
    }
}

/// The ssh command used with an SSH key.
pub open spec fn ssh_command_for(key: Seq<char>) -> Seq<char> {
    "ssh -i "@ + key + " -o StrictHostKeyChecking=no -o BatchMode=yes"@
}

/// The git run of `sub_args` for `src`.
pub open spec fn git_call(work_dir: Option<Seq<char>>, sub_args: Seq<Seq<char>>, src: SourceV) -> GitCall {
    GitCall {
        work_dir,
        args: git_args(sub_args, src.token),
        ssh_command: match src.ssh_key {
            Some(k) => Some(ssh_command_for(k)),
            None => None,
        },
        subcommand: sub_args,
    }
}

/// Builds the git run of `sub_args` for `src`.
pub fn git_command(work_dir: Option<&str>, sub_args: &Vec<String>, src: &SourceConfig) -> (r:
    GitCommand)
    ensures
        r@ == git_call(
            match work_dir {
                Some(d) => Some(d@),
                None => None,
            },
            views(sub_args@),
            src@,
        ),
{
    let mut args: Vec<String> = Vec::new();
    match &src.token {
        Some(t) => {
            push_string(&mut args, owned("-c"));
            push_string(&mut args, str_concat("http.extraHeader=Authorization: Bearer ", t.as_str()));
        },
        None => {},
    }
    let ghost start = views(args@);
    let mut subcommand: Vec<String> = Vec::new();
    let mut i: usize = 0;
    while i < sub_args.len()
        invariant
            i <= sub_args@.len(),
            views(args@) =~= start + views(sub_args@).take(i as int),
            views(subcommand@) =~= views(sub_args@).take(i as int),
        decreases sub_args@.len() - i,
    {
        push_string(&mut args, sub_args[i].clone());
        push_string(&mut subcommand, sub_args[i].clone());
        proof {
            assert(views(args@) =~= start + views(sub_args@).take(i + 1));
            assert(views(subcommand@) =~= views(sub_args@).take(i + 1));
        }
        i += 1;
    }
    proof {
        assert(views(sub_args@).take(sub_args@.len() as int) =~= views(sub_args@));
        assert(views(args@) =~= git_args(views(sub_args@), src@.token));
    }
    let ssh_command = match &src.ssh_key {
        Some(k) => Some(str_concat3("ssh -i ", k.as_str(), " -o StrictHostKeyChecking=no -o BatchMode=yes")),
        None => None,
    };
    let work_dir = match work_dir {
        Some(d) => Some(owned(d)),
        None => None,
    };
    GitCommand { work_dir, args, ssh_command, subcommand }
}

/// The error text of a git run that exited with failure.
pub open spec fn git_failure_text(sub_args: Seq<Seq<char>>, stderr: Seq<char>) -> Seq<char> {
    "git "@ + join(sub_args, " "@) + " failed:\n"@ + trim(stderr)
}

/// Describes a git run that failed, quoting its trimmed error output.
pub fn git_failure(sub_args: &Vec<String>, stderr: &str) -> (r: String)
    ensures
        r@ == git_failure_text(views(sub_args@), stderr@),
{
    let joined = join_strings(sub_args, " ");
    let mut out = str_concat3("git ", joined.as_str(), " failed:\n");
    let t = trim_str(stderr);
    out.append(t.as_str());
    out
}

/// Describes a git run that could not be started.
pub fn git_launch_failure(sub_args: &Vec<String>) -> (r: String)
    ensures
        r@ == "Failed to run: git "@ + join(views(sub_args@), " "@),
{
    let joined = join_strings(sub_args, " ");
    str_concat("Failed to run: git ", joined.as_str())
}

// ── updating a source ────────────────────────────────────────────────────────

/// A git run, and the message that replaces its error.
#[derive(Debug, PartialEq, Eq)]
pub struct GitStep {
    pub command: GitCommand,
    pub context: String,
}

/// The runs that update a source, in order, and the line reported when all
/// of them succeed.
#[derive(Debug, PartialEq, Eq)]
pub struct UpdatePlan {
    pub steps: Vec<GitStep>,
    pub done: String,
}

pub struct StepV {
    pub call: GitCall,
    pub context: Seq<char>,
}

pub struct PlanV {
    pub steps: Seq<StepV>,
    pub done: Seq<char>,
}

impl View for UpdatePlan {
    type V = PlanV;

    open spec fn view(&self) -> PlanV {
        PlanV {
            steps: Seq::new(
                self.steps@.len(),
                |i: int| StepV { call: self.steps@[i].command@, context: self.steps@[i].context@ },
            ),
            done: self.done@,
        }
    }
}

/// The branch a source tracks.
pub open spec fn branch_of(src: SourceV) -> Seq<char> {
    match src.branch {
        Some(b) => b,
        None => "main"@,
    }
}

/// How a source is brought up to date: a working tree is fetched, checked
/// out and reset to its origin branch; a missing one is cloned from its
/// origin; without an origin nothing can be done.
pub open spec fn update_plan(src: SourceV, has_git_dir: bool) -> Option<PlanV> {
    let branch = branch_of(src);
    if has_git_dir {
        Some(
            PlanV {
                steps: seq![
                    StepV {
                        call: git_call(Some(src.path), seq!["fetch"@, "origin"@], src),
                        context: "git fetch failed"@,
                    },
                    StepV {
                        call: git_call(Some(src.path), seq!["checkout"@, branch], src),
                        context: "git checkout failed"@,
                    },
                    StepV {
                        call: git_call(
                            Some(src.path),
                            seq!["reset"@, "--hard"@, "origin/"@ + branch],
                            src,
                        ),
                        context: "git reset failed"@,
                    },
                ],
                done: src.path + " (reset to origin/"@ + branch + ")"@,
            },
        )
    } else {
        match src.origin {
            Some(origin) => Some(
                PlanV {
                    steps: seq![
                        StepV {
                            call: git_call(
                                None,
                                seq!["clone"@, "--single-branch"@, "--branch"@, branch, origin, src.path],
                                src,
                            ),
                            context: "git clone failed"@,
                        },
                    ],
                    done: "Cloned "@ + origin + " → "@ + src.path,
                },
            ),
            None => None,
        }
    }
}

fn strings2(a: &str, b: &str) -> (r: Vec<String>)
    ensures
        views(r@) == seq![a@, b@],
{
    let mut v: Vec<String> = Vec::new();
    push_string(&mut v, owned(a));
    push_string(&mut v, owned(b));
    proof {
        assert(views(v@) =~= seq![a@, b@]);
    }
    v
}

/// Pull or clone a single source: the git runs that do it, given whether its
/// path already holds a `.git` directory.
pub fn update_source(src: &SourceConfig, has_git_dir: bool) -> (r: Result<UpdatePlan, SourceError>)
    ensures
        match update_plan(src@, has_git_dir) {
            Some(p) => r matches Ok(plan) && plan@ == p,
            None => r matches Err(SourceError::NotARepository { path }) && path@ == src.path@,
        },
{
    let branch = match &src.branch {
        Some(b) => b.clone(),
        None => owned("main"),
    };
    let path = src.path.as_str();
    if has_git_dir {
        let fetch = git_command(Some(path), &strings2("fetch", "origin"), src);
        let checkout = git_command(Some(path), &strings2("checkout", branch.as_str()), src);
        let target = str_concat("origin/", branch.as_str());
        let mut reset_args = strings2("reset", "--hard");
        let ghost ra = views(reset_args@);
        push_string(&mut reset_args, target);
        proof {
            assert(views(reset_args@) =~= seq!["reset"@, "--hard"@, "origin/"@ + branch@]);
        }
        let reset = git_command(Some(path), &reset_args, src);
        let mut steps: Vec<GitStep> = Vec::new();
        steps.push(GitStep { command: fetch, context: owned("git fetch failed") });
        steps.push(GitStep { command: checkout, context: owned("git checkout failed") });
        steps.push(GitStep { command: reset, context: owned("git reset failed") });
        let mut done = str_concat3(path, " (reset to origin/", branch.as_str());
        done.append(")");
        let plan = UpdatePlan { steps, done };
        proof {
            let p = update_plan(src@, has_git_dir)->0;
            assert(plan@.steps =~= p.steps);
        }
        Ok(plan)
    } else {
        match &src.origin {
            Some(origin) => {
                let mut args = strings2("clone", "--single-branch");
                push_string(&mut args, owned("--branch"));
                push_string(&mut args, branch.clone());
                push_string(&mut args, origin.clone());
                push_string(&mut args, src.path.clone());
                proof {
                    assert(views(args@) =~= seq![
                        "clone"@,
                        "--single-branch"@,
                        "--branch"@,
                        branch@,
                        origin@,
                        src.path@,
                    ]);
                }
                let clone = git_command(None, &args, src);
                let mut steps: Vec<GitStep> = Vec::new();
                steps.push(GitStep { command: clone, context: owned("git clone failed") });
                let mut done = str_concat3("Cloned ", origin.as_str(), " → ");
                done.append(path);
                let plan = UpdatePlan { steps, done };
                proof {
                    let p = update_plan(src@, has_git_dir)->0;
                    assert(plan@.steps =~= p.steps);
                }
                Ok(plan)
            },
            None => Err(SourceError::NotARepository { path: src.path.clone() }),
        }
    }
}

/// The outcome of `update_source` for one entry, as a model.
pub open spec fn update_outcome_matches(
    src: SourceV,
    has_git_dir: bool,
    r: Result<UpdatePlan, SourceError>,
) -> bool {
    match update_plan(src, has_git_dir) {
        Some(p) => r matches Ok(plan) && plan@ == p,
        None => r matches Err(SourceError::NotARepository { path }) && path@ == src.path,
    }
}

/// The plan an outcome carries, if any.
pub open spec fn outcome_plan(r: Result<UpdatePlan, SourceError>) -> Option<PlanV> {
    match r {
        Ok(plan) => Some(plan@),
        Err(_) => None,
    }
}

/// What updating each source comes to: its path and its plan (none where
/// it cannot be updated).
pub open spec fn update_results(srcs: Seq<SourceV>, flags: Seq<bool>) -> Seq<(Seq<char>, Option<PlanV>)> {
    Seq::new(srcs.len(), |i: int| (srcs[i].path, update_plan(srcs[i], flags[i])))
}

/// The results of `update_all`, as a model.
pub open spec fn results_view(r: Seq<(String, Result<UpdatePlan, SourceError>)>) -> Seq<(Seq<char>, Option<PlanV>)> {
    Seq::new(r.len(), |i: int| (r[i].0@, outcome_plan(r[i].1)))
}

/// Update all sources: each source's path with its own plan, in order.
pub fn update_all(sources: &Vec<SourceConfig>, has_git_dir: &Vec<bool>) -> (r: Vec<
    (String, Result<UpdatePlan, SourceError>),
>)
    requires
        has_git_dir@.len() == sources@.len(),
    ensures
        r@.len() == sources@.len(),
        forall|i: int|
            0 <= i < r@.len() ==> #[trigger] r@[i].0@ == sources@[i].path@ && update_outcome_matches(
                sources@[i]@,
                has_git_dir@[i],
                r@[i].1,
            ),
        results_view(r@) == update_results(sources@.map_values(|s: SourceConfig| s@), has_git_dir@),
{
    let mut out: Vec<(String, Result<UpdatePlan, SourceError>)> = Vec::new();
    let mut i: usize = 0;
    while i < sources.len()
        invariant
            i <= sources@.len(),
            has_git_dir@.len() == sources@.len(),
            out@.len() == i,
            forall|k: int|
                0 <= k < i ==> #[trigger] out@[k].0@ == sources@[k].path@ && update_outcome_matches(
                    sources@[k]@,
                    has_git_dir@[k],
                    out@[k].1,
                ),
        decreases sources@.len() - i,
    {
        let result = update_source(&sources[i], has_git_dir[i]);
        out.push((sources[i].path.clone(), result));
        i += 1;
    }
    proof {
        lemma_results_view(out@, sources@, has_git_dir@);
    }
    out
}

proof fn lemma_results_view(
    r: Seq<(String, Result<UpdatePlan, SourceError>)>,
    sources: Seq<SourceConfig>,
    flags: Seq<bool>,
)
    requires
        r.len() == sources.len(),
        flags.len() == sources.len(),
        forall|i: int|
            0 <= i < r.len() ==> #[trigger] r[i].0@ == sources[i].path@ && update_outcome_matches(
                sources[i]@,
                flags[i],
                r[i].1,
            ),
    ensures
        results_view(r) == update_results(sources.map_values(|s: SourceConfig| s@), flags),
{
    let srcs = sources.map_values(|s: SourceConfig| s@);
    assert forall|i: int| 0 <= i < r.len() implies #[trigger] results_view(r)[i] == update_results(srcs, flags)[i] by {
        assert(r[i].0@ == sources[i].path@);
        assert(srcs[i] == sources[i]@);
    }
    assert(results_view(r) =~= update_results(srcs, flags));
}

/// Updating a source works on its configured branch (`main` where none is
/// configured): a clone fetches that branch from the origin into the path;
/// a pull fetches, checks that branch out and resets to it. Only a source
/// with neither a working tree nor an origin cannot be updated.
pub proof fn law_update_uses_configured_branch(src: SourceV, has_git_dir: bool)
    ensures
        ({
            let branch = match src.branch {
                Some(b) => b,
                None => "main"@,
            };
            &&& update_plan(src, has_git_dir) is None <==> (!has_git_dir && src.origin is None)
            &&& (!has_git_dir && src.origin is Some) ==> ({
                let steps = update_plan(src, has_git_dir)->0.steps;
                &&& steps.len() == 1
                &&& steps[0].call.subcommand == seq![
                    "clone"@,
                    "--single-branch"@,
                    "--branch"@,
                    branch,
                    src.origin->0,
                    src.path,
                ]
                &&& steps[0].call.work_dir is None
            })
            &&& has_git_dir ==> ({
                let steps = update_plan(src, has_git_dir)->0.steps;
                &&& steps.len() == 3
                &&& steps[0].call.subcommand == seq!["fetch"@, "origin"@]
                &&& steps[1].call.subcommand == seq!["checkout"@, branch]
                &&& steps[2].call.subcommand == seq!["reset"@, "--hard"@, "origin/"@ + branch]
                &&& forall|i: int| 0 <= i < 3 ==> (#[trigger] steps[i]).call.work_dir == Some(src.path)
            })
        }),
{
    if has_git_dir {
        let steps = update_plan(src, has_git_dir)->0.steps;
        assert forall|i: int| 0 <= i < 3 implies (#[trigger] steps[i]).call.work_dir == Some(src.path) by {
            if i == 0 {
            } else if i == 1 {
            } else {
            }
        }
    }
}

/// A file that declares a model class and assigns the model's name to
/// `_name` or `_inherit`, in double or in single quotes, defines or inherits
/// that model; and a file that defines a model names it in quotes and
/// declares a model class.
pub proof fn law_model_assignment_recognized(c: Seq<char>, m: Seq<char>)
    ensures
        (contains(c, "models.Model"@) || contains(c, "models.TransientModel"@) || contains(
            c,
            "models.AbstractModel"@,
        )) && (contains(c, "_name = \""@ + m + "\""@) || contains(c, "_name = '"@ + m + "'"@)
            || contains(c, "_inherit = \""@ + m + "\""@) || contains(c, "_inherit = '"@ + m + "'"@))
            ==> defines_model(c, m),
        defines_model(c, m) ==> (contains(c, "models.Model"@) || contains(c, "models.TransientModel"@)
            || contains(c, "models.AbstractModel"@)),
{
    reveal_strlit("_name = \"");
    reveal_strlit("_name = '");
    reveal_strlit("_inherit = \"");
    reveal_strlit("_inherit = '");
    reveal_strlit("_name = ");
    reveal_strlit("_inherit = ");
    reveal_strlit("\"");
    reveal_strlit("'");
    assert("_name = \""@ + m + "\""@ =~= "_name = "@ + double_quoted(m));
    assert("_name = '"@ + m + "'"@ =~= "_name = "@ + single_quoted(m));
    assert("_inherit = \""@ + m + "\""@ =~= "_inherit = "@ + double_quoted(m));
    assert("_inherit = '"@ + m + "'"@ =~= "_inherit = "@ + single_quoted(m));
}

/// Updating a list of sources is updating its parts in turn: the results of
/// two lists joined are the results of each, joined; no source, no result.
pub proof fn law_update_all_concat(a: Seq<SourceV>, fa: Seq<bool>, b: Seq<SourceV>, fb: Seq<bool>)
    requires
        fa.len() == a.len(),
        fb.len() == b.len(),
    ensures
        update_results(a + b, fa + fb) == update_results(a, fa) + update_results(b, fb),
        update_results(Seq::empty(), Seq::empty()).len() == 0,
{
    assert(update_results(a + b, fa + fb) =~= update_results(a, fa) + update_results(b, fb));
}

/// The sources that `serve` updates when it starts.
pub fn sources_to_update_on_serve(sources: &Vec<SourceConfig>) -> (r: Vec<SourceConfig>)
    ensures
        r@.map_values(|s: SourceConfig| s@) == sources@.map_values(|s: SourceConfig| s@).filter(
            |s: SourceV| s.update_on_serve,
        ),
{
    let ghost pred = |s: SourceV| s.update_on_serve;
    let mut out: Vec<SourceConfig> = Vec::new();
    let mut i: usize = 0;
    proof {
        reveal(Seq::filter);
        assert(sources@.map_values(|s: SourceConfig| s@).take(0).filter(pred) =~= Seq::empty());
    }
    while i < sources.len()
        invariant
            i <= sources@.len(),
            pred == (|s: SourceV| s.update_on_serve),
            out@.map_values(|s: SourceConfig| s@) =~= sources@.map_values(
                |s: SourceConfig| s@,
            ).take(i as int).filter(pred),
        decreases sources@.len() - i,
    {
        let ghost all = sources@.map_values(|s: SourceConfig| s@);
        proof {
            assert(all.take(i + 1) =~= all.take(i as int).push(sources@[i as int]@));
            all.take(i as int).lemma_filter_push(sources@[i as int]@, pred);
        }
        if sources[i].update_on_serve {
            out.push(sources[i].clone());
        }
        i += 1;
    }
    proof {
        let all = sources@.map_values(|s: SourceConfig| s@);
        assert(all.take(sources@.len() as int) =~= all);
    }
    out
}

// ── finding the source of a model ────────────────────────────────────────────

/// The model name in double quotes.
pub open spec fn double_quoted(model: Seq<char>) -> Seq<char> {
    "\""@ + model + "\""@
}

/// The model name in single quotes.
pub open spec fn single_quoted(model: Seq<char>) -> Seq<char> {
    "'"@ + model + "'"@
}

/// The text of a list value that starts at `i`: from there up to the first
/// `]` (or to the end where none follows).
pub open spec fn list_value(content: Seq<char>, i: int) -> Seq<char> {
    let rest = content.skip(i);
    match first_index(rest, ']') {
        Some(k) => rest.take(k),
        None => rest,
    }
}

/// A list-style `_inherit = [..]` whose value names the model, quoted either
/// way.
#[verifier::opaque]
pub open spec fn inherits_in_list(content: Seq<char>, model: Seq<char>) -> bool {
    exists|i: int|
        occurs_at(content, "_inherit = ["@, i) && (contains(
            #[trigger] list_value(content, i + 12),
            double_quoted(model),
        ) || contains(list_value(content, i + 12), single_quoted(model)))
}

/// `content` is an Odoo model file that defines or inherits `model`: it
/// assigns the quoted name to `_name` or `_inherit`, or names it inside a
/// list-style `_inherit = [..]` value, and it declares a model class.
pub open spec fn defines_model(content: Seq<char>, model: Seq<char>) -> bool {
    let dq = double_quoted(model);
    let sq = single_quoted(model);
    let references = contains(content, "_name = "@ + dq) || contains(content, "_name = "@ + sq)
        || contains(content, "_inherit = "@ + dq) || contains(content, "_inherit = "@ + sq)
        || inherits_in_list(content, model);
    let is_model_class = contains(content, "models.Model"@) || contains(
        content,
        "models.TransientModel"@,
    ) || contains(content, "models.AbstractModel"@);
    references && is_model_class
}

/// Whether a list-style `_inherit = [..]` in `c` names the model.
#[verifier::spinoff_prover]
#[verifier::rlimit(40)]
fn inherits_listed(c: &Vec<char>, dq: &Vec<char>, sq: &Vec<char>, model: &str) -> (r: bool)
    requires
        dq@ == double_quoted(model@),
        sq@ == single_quoted(model@),
    ensures
        r == inherits_in_list(c@, model@),
{
    let opener = chars_of("_inherit = [");
    proof {
        reveal_strlit("_inherit = [");
        reveal(inherits_in_list);
    }
    assert(opener@.len() == 12);
    let n = c.len();
    let mut i: usize = 0;
    while n >= 12 && i <= n - 12
        invariant
            n == c@.len(),
            opener@ == "_inherit = ["@,
            opener@.len() == 12,
            dq@ == double_quoted(model@),
            sq@ == single_quoted(model@),
            forall|j: int|
                0 <= j < i ==> !(occurs_at(c@, "_inherit = ["@, j) && (contains(
                    #[trigger] list_value(c@, j + 12),
                    double_quoted(model@),
                ) || contains(list_value(c@, j + 12), single_quoted(model@)))),
        decreases n - i,
    {
        if crate::text::matches_at(c, &opener, i) {
            let start = i + 12;
            let mut k: usize = start;
            while k < n && c[k] != ']'
                invariant
                    start <= k <= n == c@.len(),
                    forall|m: int| start <= m < k ==> c@[m] != ']',
                decreases n - k,
            {
                k += 1;
            }
            let value = crate::text::slice_chars(c, start, k);
            proof {
                let rest = c@.skip(start as int);
                assert forall|m: int| 0 <= m < k - start implies rest[m] != ']' by {
                    assert(rest[m] == c@[start + m]);
                }
                crate::cli::lemma_first_index(rest, ']', k - start);
                if k < n {
                    assert(rest.skip(k - start)[0] == ']');
                    assert(first_index(rest, ']') == Some((k - start) as int));
                    assert(value@ =~= rest.take(k - start));
                } else {
                    assert(rest.skip(k - start).len() == 0);
                    assert(first_index(rest, ']') is None);
                    assert(value@ =~= rest);
                }
                assert(value@ == list_value(c@, i + 12));
            }
            if contains_chars(&value, dq) || contains_chars(&value, sq) {
                proof {
                    reveal(inherits_in_list);
                    assert(occurs_at(c@, "_inherit = ["@, i as int));
                }
                return true;
            }
        }
        i += 1;
    }
    proof {
        reveal(inherits_in_list);
        assert forall|j: int| !(occurs_at(c@, "_inherit = ["@, j) && (contains(
            #[trigger] list_value(c@, j + 12),
            double_quoted(model@),
        ) || contains(list_value(c@, j + 12), single_quoted(model@)))) by {
            if occurs_at(c@, "_inherit = ["@, j) {
                assert(j < i);
            }
        }
    }
    false
}

fn has(content: &Vec<char>, needle: &str) -> (r: bool)
    ensures
        r == contains(content@, needle@),
{
    let n = chars_of(needle);
    contains_chars(content, &n)
}

/// Whether `content` is an Odoo model file that defines or inherits `model`.
pub fn is_model_definition(content: &str, model: &str) -> (r: bool)
    ensures
        r == defines_model(content@, model@),
{
    let c = chars_of(content);
    let dq = str_concat3("\"", model, "\"");
    let sq = str_concat3("'", model, "'");
    let name_dq = str_concat("_name = ", dq.as_str());
    let name_sq = str_concat("_name = ", sq.as_str());
    let inherit_dq = str_concat("_inherit = ", dq.as_str());
    let inherit_sq = str_concat("_inherit = ", sq.as_str());
    let dq_chars = chars_of(dq.as_str());
    let sq_chars = chars_of(sq.as_str());
    let references = has(&c, name_dq.as_str()) || has(&c, name_sq.as_str()) || has(
        &c,
        inherit_dq.as_str(),
    ) || has(&c, inherit_sq.as_str()) || inherits_listed(&c, &dq_chars, &sq_chars, model);
    let is_model_class = has(&c, "models.Model") || has(&c, "models.TransientModel") || has(
        &c,
        "models.AbstractModel",
    );
    references && is_model_class
}

/// The arguments of the `grep` run that lists candidate files: recursive,
/// file names only, `*.py` files, either quoting of the model, then every
/// source path.
pub open spec fn grep_args_for(model: Seq<char>, paths: Seq<Seq<char>>) -> Seq<Seq<char>> {
    seq!["-rl"@, "--include=*.py"@, "-e"@, double_quoted(model), "-e"@, single_quoted(model)]
        + paths
}

/// The paths of a list of sources.
pub open spec fn source_paths(sources: Seq<SourceConfig>) -> Seq<Seq<char>> {
    sources.map_values(|s: SourceConfig| s.path@)
}

/// The `grep` arguments that find files naming `model`; fails when no
/// source is configured.
pub fn model_grep_args(model: &str, sources: &Vec<SourceConfig>) -> (r: Result<
    Vec<String>,
    SourceError,
>)
    ensures
        sources@.len() == 0 ==> r matches Err(SourceError::NoSources),
        sources@.len() > 0 ==> (r matches Ok(args) && views(args@) == grep_args_for(
            model@,
            source_paths(sources@),
        )),
{
    if sources.len() == 0 {
        return Err(SourceError::NoSources);
    }
    let mut args: Vec<String> = Vec::new();
    push_string(&mut args, owned("-rl"));
    push_string(&mut args, owned("--include=*.py"));
    push_string(&mut args, owned("-e"));
    push_string(&mut args, str_concat3("\"", model, "\""));
    push_string(&mut args, owned("-e"));
    push_string(&mut args, str_concat3("'", model, "'"));
    let ghost start = views(args@);
    proof {
        assert(start =~= seq![
            "-rl"@,
            "--include=*.py"@,
            "-e"@,
            double_quoted(model@),
            "-e"@,
            single_quoted(model@),
        ]);
    }
    let mut i: usize = 0;
    while i < sources.len()
        invariant
            i <= sources@.len(),
            views(args@) =~= start + source_paths(sources@).take(i as int),
        decreases sources@.len() - i,
    {
        push_string(&mut args, sources[i].path.clone());
        proof {
            assert(views(args@) =~= start + source_paths(sources@).take(i + 1));
        }
        i += 1;
    }
    proof {
        assert(source_paths(sources@).take(sources@.len() as int) =~= source_paths(sources@));
    }
    Ok(args)
}

/// The arguments of the `grep` run that searches the Python files of every
/// source path for a fixed text, with line numbers.
pub open spec fn search_grep_args_for(pattern: Seq<char>, paths: Seq<Seq<char>>) -> Seq<Seq<char>> {
    seq!["-rn"@, "--include=*.py"@, "-F"@, "-e"@, pattern] + paths
}

/// The `grep` arguments that search the source trees for `pattern`; fails
/// when no source is configured.
pub fn search_grep_args(pattern: &str, sources: &Vec<SourceConfig>) -> (r: Result<
    Vec<String>,
    SourceError,
>)
    ensures
        sources@.len() == 0 ==> r matches Err(SourceError::NoSources),
        sources@.len() > 0 ==> (r matches Ok(args) && views(args@) == search_grep_args_for(
            pattern@,
            source_paths(sources@),
        )),
{
    if sources.len() == 0 {
        return Err(SourceError::NoSources);
    }
    let mut args: Vec<String> = Vec::new();
    push_string(&mut args, owned("-rn"));
    push_string(&mut args, owned("--include=*.py"));
    push_string(&mut args, owned("-F"));
    push_string(&mut args, owned("-e"));
    push_string(&mut args, owned(pattern));
    let ghost start = views(args@);
    proof {
        assert(start =~= seq!["-rn"@, "--include=*.py"@, "-F"@, "-e"@, pattern@]);
    }
    let mut i: usize = 0;
    while i < sources.len()
        invariant
            i <= sources@.len(),
            views(args@) =~= start + source_paths(sources@).take(i as int),
        decreases sources@.len() - i,
    {
        push_string(&mut args, sources[i].path.clone());
        proof {
            assert(views(args@) =~= start + source_paths(sources@).take(i + 1));
        }
        i += 1;
    }
    proof {
        assert(source_paths(sources@).take(sources@.len() as int) =~= source_paths(sources@));
    }
    Ok(args)
}

/// A line without the `\r` of a `\r\n` ending.
pub open spec fn strip_cr(line: Seq<char>) -> Seq<char> {
    if line.len() > 0 && line.last() == '\r' {
        line.drop_last()
    } else {
        line
    }
}

/// The lines of `s` as `str::lines` yields them: split at `\n`, a `\r`
/// before the `\n` dropped.
pub open spec fn line_pieces(s: Seq<char>) -> Seq<Seq<char>> {
    let parts = split_on(s, '\n');
    Seq::new(
        parts.len(),
        |i: int|
            if i + 1 < parts.len() {
                strip_cr(parts[i])
            } else {
                parts[i]
            },
    )
}

/// The non-empty lines of `s`.
pub open spec fn nonempty_lines(s: Seq<char>) -> Seq<Seq<char>> {
    line_pieces(s).filter(|l: Seq<char>| l.len() > 0)
}

/// The file names in `grep -l` output: its non-empty lines.
pub fn grep_output_files(stdout: &str) -> (r: Vec<String>)
    ensures
        views(r@) == nonempty_lines(stdout@),
{
    let cs = chars_of(stdout);
    let parts = split_chars(&cs, '\n');
    let ghost pieces = line_pieces(stdout@);
    let ghost pred = |l: Seq<char>| l.len() > 0;
    let mut out: Vec<String> = Vec::new();
    let mut i: usize = 0;
    proof {
        reveal(Seq::filter);
        assert(pieces.take(0).filter(pred) =~= Seq::<Seq<char>>::empty());
    }
    while i < parts.len()
        invariant
            i <= parts@.len(),
            parts@.len() == split_on(stdout@, '\n').len(),
            forall|k: int|
                0 <= k < parts@.len() ==> #[trigger] parts@[k]@ == split_on(stdout@, '\n')[k],
            pieces == line_pieces(stdout@),
            pred == (|l: Seq<char>| l.len() > 0),
            views(out@) =~= pieces.take(i as int).filter(pred),
        decreases parts@.len() - i,
    {
        let part = &parts[i];
        let n = part.len();
        let line = if i + 1 < parts.len() && n > 0 && part[n - 1] == '\r' {
            crate::text::slice_chars(part, 0, n - 1)
        } else {
            crate::text::slice_chars(part, 0, n)
        };
        proof {
            assert(line@ == pieces[i as int]);
            assert(pieces.take(i + 1) =~= pieces.take(i as int).push(pieces[i as int]));
            pieces.take(i as int).lemma_filter_push(pieces[i as int], pred);
        }
        if line.len() > 0 {
            out.push(string_of(&line));
            proof {
                assert(views(out@) =~= pieces.take(i + 1).filter(pred));
            }
        }
        i += 1;
    }
    proof {
        assert(pieces.take(parts@.len() as int) =~= pieces);
    }
    out
}

/// The line between the files of a model's source.
pub open spec fn file_separator() -> Seq<char> {
    "\n\n# "@ + Seq::new(72, |i: int| '─') + "\n"@
}

/// A file's section: a header naming it, then its content.
pub open spec fn file_section(entry: (Seq<char>, Seq<char>)) -> Seq<char> {
    "# "@ + entry.0 + "\n\n"@ + entry.1
}

/// The files, among `files` (name and content), that define `model`.
pub open spec fn model_files(files: Seq<(Seq<char>, Seq<char>)>, model: Seq<char>) -> Seq<
    (Seq<char>, Seq<char>),
> {
    files.filter(|e: (Seq<char>, Seq<char>)| defines_model(e.1, model))
}

/// The source of `model` from the files `grep` found: the sections of the
/// files that define it, with separators between them; fails when grep found
/// nothing or none of the files defines the model.
pub open spec fn model_source(files: Seq<(Seq<char>, Seq<char>)>, model: Seq<char>) -> Option<
    Seq<char>,
> {
    let defining = model_files(files, model);
    if defining.len() == 0 {
        None
    } else {
        Some(join(defining.map_values(|e: (Seq<char>, Seq<char>)| file_section(e)), file_separator()))
    }
}

/// The character sequences of a list of (name, content) pairs.
pub open spec fn file_views(files: Seq<(String, String)>) -> Seq<(Seq<char>, Seq<char>)> {
    files.map_values(|f: (String, String)| (f.0@, f.1@))
}

fn separator() -> (r: String)
    ensures
        r@ == file_separator(),
{
    let mut out = owned("\n\n# ");
    let mut k: usize = 0;
    while k < 72
        invariant
            k <= 72,
            out@ == "\n\n# "@ + Seq::new(k as nat, |i: int| '─'),
        decreases 72 - k,
    {
        proof {
            assert("\n\n# "@ + Seq::new((k + 1) as nat, |i: int| '─') =~= out@.push('─'));
        }
        crate::text::push_char(&mut out, '─');
        k += 1;
    }
    out.append("\n");
    out
}

/// Find and return the Python source of `model` from the files that `grep`
/// listed, each given with its content, in grep's order.
///
/// Files that assign the model to `_name` or `_inherit` (quoted either way,
/// or in list-style `_inherit`) and declare a model class are kept.
#[verifier::spinoff_prover]
#[verifier::rlimit(40)]
pub fn find_model_source(model: &str, files: &Vec<(String, String)>) -> (r: Result<
    String,
    SourceError,
>)
    ensures
        files@.len() == 0 ==> (r matches Err(SourceError::NoFilesFound { model: m }) && m@
            == model@),
        files@.len() > 0 ==> match model_source(file_views(files@), model@) {
            Some(text) => r matches Ok(out) && out@ == text,
            None => r matches Err(SourceError::NoModelClass { model: m }) && m@ == model@,
        },
{
    if files.len() == 0 {
        return Err(SourceError::NoFilesFound { model: owned(model) });
    }
    let sep = separator();
    let ghost all = file_views(files@);
    let ghost pred = |e: (Seq<char>, Seq<char>)| defines_model(e.1, model@);
    let ghost section = |e: (Seq<char>, Seq<char>)| file_section(e);
    let mut out = String::new();
    let mut count: usize = 0;
    let mut i: usize = 0;
    proof {
        reveal(Seq::filter);
        assert(all.take(0).filter(pred) =~= Seq::<(Seq<char>, Seq<char>)>::empty());
    }
    while i < files.len()
        invariant
            i <= files@.len(),
            all == file_views(files@),
            sep@ == file_separator(),
            pred == (|e: (Seq<char>, Seq<char>)| defines_model(e.1, model@)),
            section == (|e: (Seq<char>, Seq<char>)| file_section(e)),
            count == all.take(i as int).filter(pred).len(),
            out@ == join(all.take(i as int).filter(pred).map_values(section), file_separator()),
        decreases files@.len() - i,
    {
        let ghost before = all.take(i as int).filter(pred);
        proof {
            assert(all.take(i + 1) =~= all.take(i as int).push(all[i as int]));
            all.take(i as int).lemma_filter_push(all[i as int], pred);
            lemma_filter_len_le(all.take(i as int), pred);
        }
        let file = files[i].0.as_str();
        let content = files[i].1.as_str();
        if is_model_definition(content, model) {
            let ghost prev_out = out@;
            if count > 0 {
                out.append(sep.as_str());
            }
            out.append("# ");
            out.append(file);
            out.append("\n\n");
            out.append(content);
            proof {
                let after = before.push(all[i as int]);
                assert(after.map_values(section).drop_last() =~= before.map_values(section));
                if before.len() == 0 {
                    assert(before.map_values(section) =~= Seq::<Seq<char>>::empty());
                    assert(after.map_values(section) =~= seq![file_section(all[i as int])]);
                }
                assert(out@ =~= join(after.map_values(section), file_separator()));
            }
            count += 1;
        }
        i += 1;
    }
    proof {
        assert(all.take(files@.len() as int) =~= all);
    }
    if count == 0 {
        Err(SourceError::NoModelClass { model: owned(model) })
    } else {
        Ok(out)
    }
}

proof fn lemma_filter_len_le<A>(s: Seq<A>, p: spec_fn(A) -> bool)
    ensures
        s.filter(p).len() <= s.len(),
    decreases s.len(),
{
    reveal(Seq::filter);
    if s.len() > 0 {
        lemma_filter_len_le(s.drop_last(), p);
    }
}

} // verus!
