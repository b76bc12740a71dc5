//! The external runtimes: planning one execution of a script against an
//! installed interpreter, and classifying how the child process ended.
//!
//! Probing for the interpreter binary and actually spawning the child are
//! process I/O and happen outside the library; what is verified here is every
//! decision around them: which command and arguments to run, which
//! environment to inject, which timeout bounds the wait, and which error each
//! kind of outcome maps to.

use vstd::prelude::*;

use crate::env_store::{EnvVar, EnvVarModel};
use crate::errors::PluginError;
use crate::text::{chars_of, collect_string, split_chars, split_spec, trim_chars, trim_spec};

verus! {

/// The default timeout for one execution, in milliseconds.
pub const DEFAULT_TIMEOUT_MS: u64 = 30000;

/// Specification-level shape of a runtime.
pub struct RuntimeModel {
    pub installed: bool,
    pub path: Seq<char>,
    pub base_args: Seq<Seq<char>>,
    pub timeout_ms: u64,
}

/// The fixed minimal-privilege flags every plugin execution runs under.
pub open spec fn base_args_spec() -> Seq<Seq<char>> {
    seq![
        "run"@,
        "--no-check"@,
        "--allow-read"@,
        "--allow-write"@,
        "--allow-net"@,
        "--allow-env"@,
        "--allow-run"@,
    ]
}

/// Everything the caller needs to run one script: write `script` to
/// `temp_path`, run `program` with `args` and `env`, bound the wait by
/// `timeout_ms`, and remove `temp_path` afterwards on every path.
pub struct ExecutionPlan {
    pub program: String,
    pub args: Vec<String>,
    pub env: Vec<EnvVar>,
    pub script: String,
    pub temp_path: String,
    pub timeout_ms: u64,
}

/// Specification-level shape of an execution plan.
pub struct PlanModel {
    pub program: Seq<char>,
    pub args: Seq<Seq<char>>,
    pub env: Seq<EnvVarModel>,
    pub script: Seq<char>,
    pub temp_path: Seq<char>,
    pub timeout_ms: u64,
}

impl View for ExecutionPlan {
    type V = PlanModel;

    open spec fn view(&self) -> PlanModel {
        PlanModel {
            program: self.program@,
            args: self.args.deep_view(),
            env: self.env.deep_view(),
            script: self.script@,
            temp_path: self.temp_path@,
            timeout_ms: self.timeout_ms,
        }
    }
}

/// How the child process ended: it finished with an exit status and its two
/// output streams, or the configured timeout won the race first.
pub enum ProcessOutcome {
    Completed { success: bool, stdout: String, stderr: String },
    TimedOut,
}

/// Classifies one finished execution: success yields the trimmed stdout, a
/// non-zero exit yields the plugin's own failure with the stderr text, and a
/// lost race against the timeout yields `Timeout`.
pub fn interpret_outcome(outcome: &ProcessOutcome) -> (r: Result<String, PluginError>)
    ensures
        match outcome {
            ProcessOutcome::TimedOut => r matches Err(PluginError::Timeout),
            ProcessOutcome::Completed { success, stdout, stderr } => {
                if *success {
                    r matches Ok(s) && s@ == trim_spec(stdout@)
                } else {
                    r matches Err(PluginError::PluginRuntimeError(m)) && m@ == stderr@
                }
            },
        },
{
    match outcome {
        ProcessOutcome::TimedOut => Err(PluginError::Timeout),
        ProcessOutcome::Completed { success, stdout, stderr } => {
            if *success {
                let cs = chars_of(stdout.as_str());
                let trimmed = trim_chars(&cs);
                Ok(collect_string(&trimmed))
            } else {
                Err(PluginError::PluginRuntimeError(stderr.clone()))
            }
        },
    }
}

/// The candidate locations where the interpreter binary may live when the
/// bare command is not on the path: a fixed list of well-known install
/// locations, then one candidate per entry of the `PATH` variable.
pub open spec fn candidate_paths_spec(path_var: Seq<char>, user_profile: Seq<char>) -> Seq<
    Seq<char>,
> {
    seq![
        "deno.exe"@,
        "C:\\Program Files\\deno\\deno.exe"@,
        "C:\\ProgramData\\chocolatey\\bin\\deno.exe"@,
        user_profile + "/.deno/bin/deno.exe"@,
    ] + split_spec(path_var, ';').map_values(|p: Seq<char>| trim_spec(p) + "/deno.exe"@)
}

/// Lists the candidate interpreter locations to probe, in order.
pub fn candidate_paths(path_var: &str, user_profile: &str) -> (r: Vec<String>)
    ensures
        r.deep_view() == candidate_paths_spec(path_var@, user_profile@),
{
    let mut out: Vec<String> = Vec::new();
    out.push(String::from_str("deno.exe"));
    out.push(String::from_str("C:\\Program Files\\deno\\deno.exe"));
    out.push(String::from_str("C:\\ProgramData\\chocolatey\\bin\\deno.exe"));
    let mut profile_candidate = String::new();
    profile_candidate.append(user_profile);
    profile_candidate.append("/.deno/bin/deno.exe");
    out.push(profile_candidate);
    let cs = chars_of(path_var);
    let entries = split_chars(&cs, ';');
    let ghost all = split_spec(path_var@, ';');
    let ghost fixed = out.deep_view();
    let n: usize = entries.len();
    let mut i: usize = 0;
    proof {
        assert(fixed =~= candidate_paths_spec(path_var@, user_profile@).take(4));
    }
    while i < n
        invariant
            all == split_spec(path_var@, ';'),
            entries.deep_view() == all,
            n == entries@.len(),
            i <= n,
            fixed.len() == 4,
            out.deep_view() == fixed + all.map_values(
                |p: Seq<char>| trim_spec(p) + "/deno.exe"@,
            ).take(i as int),
        decreases n - i,
    {
        let ghost oldout = out.deep_view();
        let trimmed = trim_chars(&entries[i]);
        let mut cand = String::new();
        cand.append(collect_string(&trimmed).as_str());
        cand.append("/deno.exe");
        proof {
            assert(entries@[i as int].deep_view() =~= entries@[i as int]@);
            assert(cand@ == trim_spec(all[i as int]) + "/deno.exe"@);
        }
        out.push(cand);
        i = i + 1;
        proof {
            let m = all.map_values(|p: Seq<char>| trim_spec(p) + "/deno.exe"@);
            assert(m[i - 1] == trim_spec(all[i - 1]) + "/deno.exe"@);
            assert(out.deep_view() =~= oldout.push(m[i - 1]));
            assert(oldout.push(m[i - 1]) =~= fixed + m.take(i as int));
        }
    }
    proof {
        let m = all.map_values(|p: Seq<char>| trim_spec(p) + "/deno.exe"@);
        assert(m.take(n as int) =~= m);
        assert(out.deep_view() =~= candidate_paths_spec(path_var@, user_profile@));
    }
    out
}

/// The version token of the interpreter's version output: the second
/// space-separated word of the first line, or `unknown` when the output has
/// no such word.
pub open spec fn version_of_output(out: Seq<char>) -> Seq<char> {
    let words = nonblank_words(split_spec(first_line(out), ' '));
    if words.len() >= 2 {
        words[1]
    } else {
        "unknown"@
    }
}

/// The first line of `out`.
pub open spec fn first_line(out: Seq<char>) -> Seq<char> {
    split_spec(out, '\n')[0]
}

/// The non-empty tokens of a split, in order.
pub open spec fn nonblank_words(ws: Seq<Seq<char>>) -> Seq<Seq<char>>
    decreases ws.len(),
{
    if ws.len() == 0 {
        Seq::<Seq<char>>::empty()
    } else if ws[0].len() > 0 {
        seq![ws[0]] + nonblank_words(ws.skip(1))
    } else {
        nonblank_words(ws.skip(1))
    }
}

proof fn lemma_nonblank_push(ws: Seq<Seq<char>>, x: Seq<char>)
    ensures
        nonblank_words(ws.push(x)) == if x.len() > 0 {
            nonblank_words(ws).push(x)
        } else {
            nonblank_words(ws)
        },
    decreases ws.len(),
{
    if ws.len() == 0 {
        assert(ws.push(x)[0] == x);
        assert(ws.push(x).skip(1) =~= Seq::<Seq<char>>::empty());
        assert(nonblank_words(Seq::<Seq<char>>::empty()) =~= Seq::<Seq<char>>::empty());
        if x.len() > 0 {
            assert(nonblank_words(ws.push(x)) =~= seq![x] + Seq::<Seq<char>>::empty());
            assert(seq![x] + Seq::<Seq<char>>::empty() =~= nonblank_words(ws).push(x));
        } else {
            assert(nonblank_words(ws.push(x)) =~= nonblank_words(ws));
        }
    } else {
        assert(ws.push(x)[0] == ws[0]);
        assert(ws.push(x).skip(1) =~= ws.skip(1).push(x));
        lemma_nonblank_push(ws.skip(1), x);
        if ws[0].len() > 0 && x.len() > 0 {
            assert(seq![ws[0]] + nonblank_words(ws.skip(1)).push(x) =~= (seq![ws[0]]
                + nonblank_words(ws.skip(1))).push(x));
        }
    }
}

/// Extracts the interpreter's version from its version output.
pub fn parse_version_output(out: &str) -> (r: String)
    ensures
        r@ == version_of_output(out@),
{
    let cs = chars_of(out);
    let lines = split_chars(&cs, '\n');
    proof {
        crate::text::lemma_split_len(out@, '\n');
        assert(lines@[0].deep_view() =~= lines@[0]@);
    }
    let first = &lines[0];
    let words = split_chars(first, ' ');
    let ghost all_words = split_spec(first_line(out@), ' ');
    let n: usize = words.len();
    let mut found: usize = 0;
    let mut i: usize = 0;
    let mut second: Option<String> = None;
    proof {
        assert(all_words.take(0) =~= Seq::<Seq<char>>::empty());
    }
    while i < n
        invariant
            all_words == split_spec(first_line(out@), ' '),
            words.deep_view() == all_words,
            n == words@.len(),
            i <= n,
            found <= 2,
            found == 2 || found == nonblank_words(all_words.take(i as int)).len(),
            found < 2 ==> nonblank_words(all_words.take(i as int)).len() < 2,
            match second {
                Some(s) => found == 2 && nonblank_words(all_words.take(i as int)).len() >= 2
                    && s@ == nonblank_words(all_words.take(i as int))[1],
                None => found < 2,
            },
        decreases n - i,
    {
        let ghost pref = all_words.take(i as int);
        proof {
            assert(all_words.take(i + 1).drop_last() =~= pref);
            assert(all_words.take(i + 1) =~= pref.push(all_words[i as int]));
            lemma_nonblank_push(pref, all_words[i as int]);
            assert(words@[i as int].deep_view() =~= words@[i as int]@);
        }
        let w = &words[i];
        if w.len() > 0 {
            if found == 1 {
                second = Some(collect_string(w));
                found = 2;
                proof {
                    let nb = nonblank_words(all_words.take(i + 1));
                    assert(nb == nonblank_words(pref).push(all_words[i as int]));
                    assert(nb[1] == all_words[i as int]);
                }
            } else if found == 0 {
                found = 1;
            }
        }
        i = i + 1;
    }
    proof {
        assert(all_words.take(n as int) =~= all_words);
    }
    match second {
        Some(s) => s,
        None => String::from_str("unknown"),
    }
}

/// The Deno runtime: whether it is installed, where its binary lives, which
/// flags it runs with, and the timeout bounding each execution.
pub struct DenoRuntime {
    is_installed: bool,
    base_args: Vec<String>,
    deno_path: String,
    timeout_ms: u64,
}

impl View for DenoRuntime {
    type V = RuntimeModel;

    closed spec fn view(&self) -> RuntimeModel {
        RuntimeModel {
            installed: self.is_installed,
            path: self.deno_path@,
            base_args: self.base_args.deep_view(),
            timeout_ms: self.timeout_ms,
        }
    }
}

impl DenoRuntime {
    /// Builds the fixed argument list every execution runs with.
    pub fn get_base_args() -> (r: Vec<String>)
        ensures
            r.deep_view() == base_args_spec(),
    {
        let mut v: Vec<String> = Vec::new();
        v.push(String::from_str("run"));
        v.push(String::from_str("--no-check"));
        v.push(String::from_str("--allow-read"));
        v.push(String::from_str("--allow-write"));
        v.push(String::from_str("--allow-net"));
        v.push(String::from_str("--allow-env"));
        v.push(String::from_str("--allow-run"));
        proof {
            assert(v.deep_view() =~= base_args_spec());
        }
        v
    }

    /// Creates a runtime from the caller's probe of the interpreter binary:
    /// whether some candidate location answered, and which one.
    pub fn new(is_installed: bool, deno_path: String) -> (r: Self)
        ensures
            r@.installed == is_installed,
            r@.path == deno_path@,
            r@.base_args == base_args_spec(),
            r@.timeout_ms == DEFAULT_TIMEOUT_MS,
    {
        DenoRuntime { is_installed, base_args: Self::get_base_args(), deno_path, timeout_ms: 30000 }
    }

    /// Sets the timeout bounding each execution.
    pub fn set_timeout(&mut self, timeout_ms: u64)
        ensures
            final(self)@ == (RuntimeModel { timeout_ms, ..old(self)@ }),
    {
        self.timeout_ms = timeout_ms;
    }

    /// Whether an interpreter was found at probe time.
    pub fn check_installed(&self) -> (r: bool)
        ensures
            r == self@.installed,
    {
        self.is_installed
    }

    /// Plans one execution of `script`: refused with `RuntimeNotInstalled`
    /// when no interpreter is installed, and otherwise exactly the probed
    /// binary, the fixed minimal-privilege flags plus the temporary script
    /// path, the given environment, and the configured timeout.
    pub fn plan_execution(&self, script: String, env: Vec<EnvVar>, temp_path: String) -> (r:
        Result<ExecutionPlan, PluginError>)
        ensures
            self@.installed <==> r is Ok,
            !self@.installed ==> r matches Err(PluginError::RuntimeNotInstalled),
            r matches Ok(p) ==> p@ == (PlanModel {
                program: self@.path,
                args: self@.base_args.push(temp_path@),
                env: env.deep_view(),
                script: script@,
                temp_path: temp_path@,
                timeout_ms: self@.timeout_ms,
            }),
    {
        if !self.is_installed {
            return Err(PluginError::RuntimeNotInstalled);
        }
        let mut args: Vec<String> = Vec::new();
        let mut i: usize = 0;
        let n: usize = self.base_args.len();
        proof {
            assert(args.deep_view() =~= self.base_args.deep_view().take(0));
        }
        while i < n
            invariant
                n == self.base_args@.len(),
                i <= n,
                args.deep_view() == self.base_args.deep_view().take(i as int),
            decreases n - i,
        {
            let ghost oldargs = args.deep_view();
            args.push(self.base_args[i].clone());
            i = i + 1;
            proof {
                assert(args.deep_view() =~= oldargs.push(self.base_args.deep_view()[i - 1]));
                assert(oldargs.push(self.base_args.deep_view()[i - 1])
                    =~= self.base_args.deep_view().take(i as int));
            }
        }
        proof {
            assert(self.base_args.deep_view().take(n as int) =~= self.base_args.deep_view());
        }
        let ghost before = args.deep_view();
        args.push(temp_path.clone());
        proof {
            assert(args.deep_view() =~= before.push(temp_path@));
        }
        Ok(ExecutionPlan {
            program: self.deno_path.clone(),
            args,
            env,
            script,
            temp_path,
            timeout_ms: self.timeout_ms,
        })
    }
}

/// The Node runtime: the same planning against a `node` binary found on the
/// path, with no extra flags.
pub struct NodeRuntime {
    is_installed: bool,
    timeout_ms: u64,
}

impl View for NodeRuntime {
    type V = RuntimeModel;

    closed spec fn view(&self) -> RuntimeModel {
        RuntimeModel {
            installed: self.is_installed,
            path: "node"@,
            base_args: Seq::<Seq<char>>::empty(),
            timeout_ms: self.timeout_ms,
        }
    }
}

impl NodeRuntime {
    /// Creates a runtime from the caller's probe of the `node` binary.
    pub fn new(is_installed: bool) -> (r: Self)
        ensures
            r@.installed == is_installed,
            r@.path == "node"@,
            r@.base_args == Seq::<Seq<char>>::empty(),
            r@.timeout_ms == DEFAULT_TIMEOUT_MS,
    {
        NodeRuntime { is_installed, timeout_ms: 30000 }
    }

    /// Sets the timeout bounding each execution.
    pub fn set_timeout(&mut self, timeout_ms: u64)
        ensures
            final(self)@ == (RuntimeModel { timeout_ms, ..old(self)@ }),
    {
        self.timeout_ms = timeout_ms;
    }

    /// Whether the `node` binary answered at probe time.
    pub fn check_installed(&self) -> (r: bool)
        ensures
            r == self@.installed,
    {
        self.is_installed
    }

    /// Plans one execution of `script` against `node`, as
    /// `DenoRuntime::plan_execution` does for Deno.
    pub fn plan_execution(&self, script: String, env: Vec<EnvVar>, temp_path: String) -> (r:
        Result<ExecutionPlan, PluginError>)
        ensures
            self@.installed <==> r is Ok,
            !self@.installed ==> r matches Err(PluginError::RuntimeNotInstalled),
            r matches Ok(p) ==> p@ == (PlanModel {
                program: "node"@,
                args: seq![temp_path@],
                env: env.deep_view(),
                script: script@,
                temp_path: temp_path@,
                timeout_ms: self@.timeout_ms,
            }),
    {
        if !self.is_installed {
            return Err(PluginError::RuntimeNotInstalled);
        }
        let mut args: Vec<String> = Vec::new();
        args.push(temp_path.clone());
        proof {
            assert(args.deep_view() =~= seq![temp_path@]);
        }
        Ok(ExecutionPlan {
            program: String::from_str("node"),
            args,
            env,
            script,
            temp_path,
            timeout_ms: self.timeout_ms,
        })
    }
}

} // verus!
