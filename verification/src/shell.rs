//! The shell plugin manager: script plugins whose tools run as one shell
//! function call. Building the exact command line — with every argument value
//! quoted and escaped for the shell's single-quoted literal rules — and
//! classifying the run's output are verified here; spawning the shell is the
//! caller's work.

use vstd::prelude::*;

use crate::text::{chars_of, collect_string, trim_chars, trim_spec};

verus! {

/// One declared parameter of a shell plugin.
pub struct PluginArg {
    pub name: String,
    pub arg_type: String,
    pub description: String,
    pub required: bool,
    pub default_value: Option<String>,
}

/// One shell plugin: a script whose `main` function is the tool.
pub struct Plugin {
    pub name: String,
    pub description: String,
    pub enabled: bool,
    pub script_content: String,
    pub args: Vec<PluginArg>,
}

/// One named argument value handed to a plugin invocation.
pub struct CommandArg {
    pub name: String,
    pub value: String,
}

/// Specification-level shape of one argument value.
pub struct CommandArgModel {
    pub name: Seq<char>,
    pub value: Seq<char>,
}

impl View for CommandArg {
    type V = CommandArgModel;

    open spec fn view(&self) -> CommandArgModel {
        CommandArgModel { name: self.name@, value: self.value@ }
    }
}

impl DeepView for CommandArg {
    type V = CommandArgModel;

    open spec fn deep_view(&self) -> CommandArgModel {
        self@
    }
}

/// How one character of an argument value is escaped inside the shell's
/// single-quoted literal: a quote is tripled, everything else stands for
/// itself.
pub open spec fn shell_escape_char(c: char) -> Seq<char> {
    if c == '\'' {
        seq!['\'', '\'', '\'']
    } else {
        seq![c]
    }
}

/// A whole argument value escaped.
pub open spec fn shell_escape_spec(s: Seq<char>) -> Seq<char>
    decreases s.len(),
{
    if s.len() == 0 {
        Seq::<char>::empty()
    } else {
        shell_escape_char(s[0]) + shell_escape_spec(s.skip(1))
    }
}

proof fn lemma_shell_escape_concat(a: Seq<char>, b: Seq<char>)
    ensures
        shell_escape_spec(a + b) == shell_escape_spec(a) + shell_escape_spec(b),
    decreases a.len(),
{
    if a.len() == 0 {
        assert(a + b =~= b);
        assert(shell_escape_spec(a) + shell_escape_spec(b) =~= shell_escape_spec(b));
    } else {
        assert((a + b).skip(1) =~= a.skip(1) + b);
        lemma_shell_escape_concat(a.skip(1), b);
        assert(shell_escape_char((a + b)[0]) + (shell_escape_spec(a.skip(1))
            + shell_escape_spec(b)) =~= (shell_escape_char(a[0]) + shell_escape_spec(a.skip(1)))
            + shell_escape_spec(b));
    }
}

/// Escapes one argument value for the shell's single-quoted literal.
pub fn shell_escape(s: &str) -> (r: String)
    ensures
        r@ == shell_escape_spec(s@),
{
    let cs = chars_of(s);
    let n: usize = cs.len();
    let mut out: Vec<char> = Vec::new();
    let mut i: usize = 0;
    while i < n
        invariant
            n == cs@.len(),
            cs@ == s@,
            i <= n,
            out@ == shell_escape_spec(cs@.take(i as int)),
        decreases n - i,
    {
        let c = cs[i];
        if c == '\'' {
            out.push('\'');
            out.push('\'');
            out.push('\'');
        } else {
            out.push(c);
        }
        proof {
            lemma_shell_escape_concat(cs@.take(i as int), seq![cs@[i as int]]);
            assert(cs@.take(i as int) + seq![cs@[i as int]] =~= cs@.take(i + 1));
            let single = seq![cs@[i as int]];
            assert(single.skip(1) =~= Seq::<char>::empty());
            assert(shell_escape_spec(Seq::<char>::empty()) == Seq::<char>::empty());
            assert(shell_escape_spec(single) == shell_escape_char(single[0]) + shell_escape_spec(
                single.skip(1),
            ));
            assert(shell_escape_char(cs@[i as int]) + Seq::<char>::empty() =~= shell_escape_char(
                cs@[i as int],
            ));
            assert(out@ =~= shell_escape_spec(cs@.take(i as int)) + shell_escape_char(
                cs@[i as int],
            ));
        }
        i = i + 1;
    }
    proof {
        assert(cs@.take(n as int) =~= cs@);
    }
    collect_string(&out)
}

/// One argument as it stands on the command line: `-name 'escaped value'`.
pub open spec fn arg_text_spec(a: CommandArgModel) -> Seq<char> {
    "-"@ + a.name + " '"@ + shell_escape_spec(a.value) + "'"@
}

/// The whole argument list, space-separated.
pub open spec fn args_text_spec(vs: Seq<CommandArgModel>) -> Seq<char>
    decreases vs.len(),
{
    if vs.len() == 0 {
        Seq::<char>::empty()
    } else if vs.len() == 1 {
        arg_text_spec(vs[0])
    } else {
        arg_text_spec(vs[0]) + " "@ + args_text_spec(vs.skip(1))
    }
}

proof fn lemma_args_text_push(vs: Seq<CommandArgModel>, x: CommandArgModel)
    ensures
        vs.len() == 0 ==> args_text_spec(vs.push(x)) == arg_text_spec(x),
        vs.len() > 0 ==> args_text_spec(vs.push(x)) == args_text_spec(vs) + " "@ + arg_text_spec(
            x,
        ),
    decreases vs.len(),
{
    if vs.len() == 0 {
        assert(vs.push(x)[0] == x);
    } else {
        assert(vs.push(x)[0] == vs[0]);
        assert(vs.push(x).skip(1) =~= vs.skip(1).push(x));
        lemma_args_text_push(vs.skip(1), x);
        if vs.len() == 1 {
            assert(vs.skip(1).len() == 0);
            assert(args_text_spec(vs.push(x)) =~= args_text_spec(vs) + " "@ + arg_text_spec(x));
        } else {
            assert(args_text_spec(vs.push(x)) =~= args_text_spec(vs) + " "@ + arg_text_spec(x));
        }
    }
}

/// The full command handed to the shell: the plugin's script text, then one
/// call of its `main` function with the escaped arguments, then the captured
/// output.
pub open spec fn shell_command_spec(script: Seq<char>, args: Seq<CommandArgModel>) -> Seq<char> {
    script + "; $output = main "@ + args_text_spec(args) + "; $output"@
}

/// Builds the exact shell command for one plugin invocation.
pub fn build_shell_command(script_content: &str, args: &Vec<CommandArg>) -> (r: String)
    ensures
        r@ == shell_command_spec(script_content@, args.deep_view()),
{
    let mut s = String::new();
    s.append(script_content);
    s.append("; $output = main ");
    let n: usize = args.len();
    let mut i: usize = 0;
    proof {
        assert(args.deep_view().take(0) =~= Seq::<CommandArgModel>::empty());
        assert(s@ =~= script_content@ + "; $output = main "@ + args_text_spec(
            args.deep_view().take(0),
        ));
    }
    while i < n
        invariant
            n == args@.len(),
            i <= n,
            s@ == script_content@ + "; $output = main "@ + args_text_spec(
                args.deep_view().take(i as int),
            ),
        decreases n - i,
    {
        proof {
            assert(args.deep_view().take(i + 1).drop_last() =~= args.deep_view().take(i as int));
            assert(args.deep_view().take(i + 1) =~= args.deep_view().take(i as int).push(
                args.deep_view()[i as int],
            ));
            lemma_args_text_push(args.deep_view().take(i as int), args.deep_view()[i as int]);
        }
        if i > 0 {
            s.append(" ");
        }
        s.append("-");
        s.append(args[i].name.as_str());
        s.append(" '");
        let escaped = shell_escape(args[i].value.as_str());
        s.append(escaped.as_str());
        s.append("'");
        i = i + 1;
        proof {
            assert(s@ =~= script_content@ + "; $output = main "@ + args_text_spec(
                args.deep_view().take(i as int),
            ));
        }
    }
    proof {
        assert(args.deep_view().take(n as int) =~= args.deep_view());
    }
    s.append("; $output");
    s
}

/// Classifies one shell run: a failed exit reports the plugin's failure with
/// the stderr text; success yields the trimmed stdout, or `No output` when
/// the trimmed stdout is empty.
pub fn interpret_shell_output(success: bool, stdout: &str, stderr: &str) -> (r: Result<
    String,
    crate::errors::PluginError,
>)
    ensures
        !success ==> (r matches Err(crate::errors::PluginError::PluginRuntimeError(m)) && m@
            == stderr@),
        success && trim_spec(stdout@).len() == 0 ==> (r matches Ok(s) && s@ == "No output"@),
        success && trim_spec(stdout@).len() > 0 ==> (r matches Ok(s) && s@ == trim_spec(stdout@)),
{
    if !success {
        return Err(crate::errors::PluginError::PluginRuntimeError(stderr.to_owned()));
    }
    let cs = chars_of(stdout);
    let trimmed = trim_chars(&cs);
    if trimmed.len() == 0 {
        Ok(String::from_str("No output"))
    } else {
        Ok(collect_string(&trimmed))
    }
}

/// The catalog of shell plugins, keyed by name, with the same rules as the
/// JavaScript catalog.
pub struct PluginManager {
    plugins: crate::string_map::StringMap<Plugin>,
}

impl View for PluginManager {
    type V = Map<Seq<char>, Plugin>;

    closed spec fn view(&self) -> Map<Seq<char>, Plugin> {
        self.plugins@
    }
}

impl PluginManager {
    /// Plugin names are unique.
    pub closed spec fn wf(&self) -> bool {
        self.plugins.wf()
    }

    /// An empty catalog; the caller loads each stored plugin into it.
    pub fn new() -> (r: Self)
        ensures
            r.wf(),
            r@ == Map::<Seq<char>, Plugin>::empty(),
    {
        PluginManager { plugins: crate::string_map::StringMap::new() }
    }

    /// Loads one plugin into the catalog under its own name.
    pub fn load_plugin(&mut self, plugin: Plugin)
        requires
            old(self).wf(),
        ensures
            final(self).wf(),
            final(self)@ == old(self)@.insert(plugin.name@, plugin),
    {
        let key = plugin.name.clone();
        self.plugins.insert(key, plugin);
    }

    /// The plugin of that name, if any.
    pub fn get_plugin(&self, name: &str) -> (r: Option<&Plugin>)
        requires
            self.wf(),
        ensures
            r is Some <==> self@.contains_key(name@),
            r matches Some(p) ==> self@.contains_key(name@) && *p == self@[name@],
    {
        self.plugins.get(name)
    }

    /// Removes the plugin of that name; removing an unknown name is not an
    /// error. Returns whether a plugin was removed.
    pub fn remove_plugin(&mut self, name: &str) -> (r: bool)
        requires
            old(self).wf(),
        ensures
            final(self).wf(),
            r == old(self)@.contains_key(name@),
            final(self)@ == old(self)@.remove(name@),
    {
        let present = self.plugins.contains(name);
        self.plugins.remove(name);
        present
    }

    /// Builds the command for one invocation of a named plugin's tool; an
    /// unknown name fails with `NotFound`.
    pub fn execute_plugin(&self, name: &str, args: &Vec<CommandArg>) -> (r: Result<
        String,
        crate::errors::PluginError,
    >)
        requires
            self.wf(),
        ensures
            !self@.contains_key(name@) ==> (r matches Err(crate::errors::PluginError::NotFound(m))
                && m@ == name@),
            self@.contains_key(name@) ==> (r matches Ok(cmd) && cmd@ == shell_command_spec(
                self@[name@].script_content@,
                args.deep_view(),
            )),
    {
        match self.plugins.get(name) {
            Some(p) => Ok(build_shell_command(p.script_content.as_str(), args)),
            None => Err(crate::errors::PluginError::NotFound(name.to_owned())),
        }
    }
}

} // verus!
