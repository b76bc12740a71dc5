//! The environment store: key/value pairs injected into every plugin and
//! service invocation, persisted as newline-delimited `KEY=VALUE` text.
//!
//! Parsing and formatting of that text is verified here; reading and writing
//! the file itself is the caller's business, so edits take effect on the next
//! load.

use vstd::prelude::*;

use crate::text::{chars_of, collect_string, split_chars, split_spec, trim_chars, trim_spec,
    trim_start_spec};

verus! {

/// One environment variable.
pub struct EnvVar {
    pub key: String,
    pub value: String,
}

/// Specification-level shape of an environment variable.
pub struct EnvVarModel {
    pub key: Seq<char>,
    pub value: Seq<char>,
}

impl View for EnvVar {
    type V = EnvVarModel;

    open spec fn view(&self) -> EnvVarModel {
        EnvVarModel { key: self.key@, value: self.value@ }
    }
}

impl DeepView for EnvVar {
    type V = EnvVarModel;

    open spec fn deep_view(&self) -> EnvVarModel {
        self@
    }
}

/// Index of the first `sep` in `s`, or `s.len()` when none occurs.
pub open spec fn first_sep(s: Seq<char>, sep: char) -> int
    decreases s.len(),
{
    if s.len() == 0 {
        0
    } else if s[0] == sep {
        0
    } else {
        1 + first_sep(s.skip(1), sep)
    }
}

pub proof fn lemma_first_sep(s: Seq<char>, sep: char)
    ensures
        0 <= first_sep(s, sep) <= s.len(),
        first_sep(s, sep) < s.len() ==> s[first_sep(s, sep)] == sep,
        forall|j: int| 0 <= j < first_sep(s, sep) ==> s[j] != sep,
    decreases s.len(),
{
    if s.len() > 0 && s[0] != sep {
        lemma_first_sep(s.skip(1), sep);
        assert forall|j: int| 0 <= j < first_sep(s, sep) implies s[j] != sep by {
            if j > 0 {
                assert(s.skip(1)[j - 1] == s[j]);
            }
        }
    }
}

/// How one line of the environment file parses: blank lines and lines whose
/// first character is `#` are ignored, a line without `=` is ignored, and
/// otherwise the text before the first `=` is the key and the text after it
/// the value, both trimmed.
pub open spec fn parse_env_line(l: Seq<char>) -> Option<EnvVarModel> {
    let k = first_sep(l, '=');
    if trim_spec(l).len() == 0 {
        None
    } else if l[0] == '#' {
        None
    } else if k == l.len() {
        None
    } else {
        Some(EnvVarModel { key: trim_spec(l.take(k)), value: trim_spec(l.skip(k + 1)) })
    }
}

/// The variables parsed from a sequence of lines, in order.
pub open spec fn parse_env_lines(ls: Seq<Seq<char>>) -> Seq<EnvVarModel>
    decreases ls.len(),
{
    if ls.len() == 0 {
        Seq::<EnvVarModel>::empty()
    } else {
        match parse_env_line(ls[0]) {
            Some(v) => seq![v] + parse_env_lines(ls.skip(1)),
            None => parse_env_lines(ls.skip(1)),
        }
    }
}

/// The variables parsed from the environment file's text.
pub open spec fn parse_env_spec(text: Seq<char>) -> Seq<EnvVarModel> {
    parse_env_lines(split_spec(text, '\n'))
}

proof fn lemma_env_lines_push(ls: Seq<Seq<char>>, x: Seq<char>)
    ensures
        parse_env_lines(ls.push(x)) == match parse_env_line(x) {
            Some(v) => parse_env_lines(ls).push(v),
            None => parse_env_lines(ls),
        },
    decreases ls.len(),
{
    if ls.len() == 0 {
        assert(ls.push(x)[0] == x);
        assert(ls.push(x).skip(1) =~= Seq::<Seq<char>>::empty());
        assert(parse_env_lines(Seq::<Seq<char>>::empty()) =~= Seq::<EnvVarModel>::empty());
        match parse_env_line(x) {
            Some(v) => {
                assert(parse_env_lines(ls.push(x)) =~= seq![v] + parse_env_lines(
                    Seq::<Seq<char>>::empty(),
                ));
                assert(seq![v] + Seq::<EnvVarModel>::empty() =~= parse_env_lines(ls).push(v));
            },
            None => {
                assert(parse_env_lines(ls.push(x)) =~= parse_env_lines(ls));
            },
        }
    } else {
        assert(ls.push(x)[0] == ls[0]);
        assert(ls.push(x).skip(1) =~= ls.skip(1).push(x));
        lemma_env_lines_push(ls.skip(1), x);
        match parse_env_line(ls[0]) {
            Some(v0) => {
                match parse_env_line(x) {
                    Some(v) => {
                        assert(seq![v0] + parse_env_lines(ls.skip(1)).push(v) =~= (seq![v0]
                            + parse_env_lines(ls.skip(1))).push(v));
                    },
                    None => {},
                }
            },
            None => {},
        }
    }
}

/// Finds the first `=` in `line`, as `first_sep` counts it.
fn find_eq(line: &Vec<char>) -> (r: usize)
    ensures
        r == first_sep(line@, '='),
{
    let n: usize = line.len();
    let mut i: usize = 0;
    proof {
        assert(line@.skip(0) =~= line@);
    }
    while i < n
        invariant
            n == line@.len(),
            i <= n,
            first_sep(line@, '=') == i + first_sep(line@.skip(i as int), '='),
            forall|j: int| 0 <= j < i ==> line@[j] != '=',
        decreases n - i,
    {
        proof {
            assert(line@.skip(i as int)[0] == line@[i as int]);
            assert(line@.skip(i as int).skip(1) =~= line@.skip(i + 1));
        }
        if line[i] == '=' {
            proof {
                lemma_first_sep(line@.skip(i as int), '=');
            }
            return i;
        }
        i = i + 1;
    }
    proof {
        assert(line@.skip(n as int) =~= Seq::<char>::empty());
    }
    n
}

/// Parses the environment file's text into its variables.
pub fn parse_env_text(text: &str) -> (r: Vec<EnvVar>)
    ensures
        r.deep_view() == parse_env_spec(text@),
{
    let cs = chars_of(text);
    let lines = split_chars(&cs, '\n');
    let ghost all = split_spec(text@, '\n');
    let n: usize = lines.len();
    let mut out: Vec<EnvVar> = Vec::new();
    let mut i: usize = 0;
    proof {
        assert(all.take(0) =~= Seq::<Seq<char>>::empty());
        assert(out.deep_view() =~= parse_env_lines(all.take(0)));
    }
    while i < n
        invariant
            all == split_spec(text@, '\n'),
            lines.deep_view() == all,
            n == lines@.len(),
            i <= n,
            out.deep_view() == parse_env_lines(all.take(i as int)),
        decreases n - i,
    {
        let ghost line_v = all[i as int];
        proof {
            assert(lines@[i as int].deep_view() =~= lines@[i as int]@);
            assert(all.take(i + 1).drop_last() =~= all.take(i as int));
            assert(all.take(i + 1) =~= all.take(i as int).push(line_v));
            lemma_env_lines_push(all.take(i as int), line_v);
        }
        let line = &lines[i];
        let trimmed = trim_chars(line);
        let ghost oldout = out.deep_view();
        proof {
            if line@.len() == 0 {
                assert(trim_start_spec(line@) == line@);
                assert(trim_spec(line@).len() == 0);
            }
        }
        if trimmed.len() > 0 && line[0] != '#' {
            let k = find_eq(line);
            if k < line.len() {
                proof {
                    lemma_first_sep(line_v, '=');
                }
                let mut key_part: Vec<char> = Vec::new();
                let mut j: usize = 0;
                while j < k
                    invariant
                        j <= k <= line@.len(),
                        key_part@ == line@.take(k as int).take(j as int),
                    decreases k - j,
                {
                    key_part.push(line[j]);
                    j = j + 1;
                    proof {
                        assert(line@.take(k as int).take(j as int) =~= key_part@);
                    }
                }
                proof {
                    assert(line@.take(k as int).take(k as int) =~= line@.take(k as int));
                }
                let mut value_part: Vec<char> = Vec::new();
                let nn: usize = line.len();
                let mut j2: usize = k + 1;
                while j2 < nn
                    invariant
                        k + 1 <= j2 <= nn,
                        nn == line@.len(),
                        value_part@ == line@.skip(k + 1).take(j2 - (k + 1)),
                    decreases nn - j2,
                {
                    value_part.push(line[j2]);
                    j2 = j2 + 1;
                    proof {
                        assert(line@.skip(k + 1).take(j2 - (k + 1)) =~= value_part@);
                    }
                }
                proof {
                    assert(line@.skip(k + 1).take(nn - (k + 1)) =~= line@.skip(k + 1));
                }
                let key_trimmed = trim_chars(&key_part);
                let value_trimmed = trim_chars(&value_part);
                let var = EnvVar {
                    key: collect_string(&key_trimmed),
                    value: collect_string(&value_trimmed),
                };
                proof {
                    assert(line@ =~= line_v);
                    assert(parse_env_line(line_v) matches Some(m) && m == var.deep_view());
                }
                out.push(var);
                proof {
                    assert(out.deep_view() =~= oldout.push(
                        parse_env_line(line_v)->Some_0,
                    ));
                }
            } else {
                proof {
                    assert(line@ =~= line_v);
                    lemma_first_sep(line_v, '=');
                    assert(parse_env_line(line_v) is None);
                }
            }
        } else {
            proof {
                assert(line@ =~= line_v);
                assert(trimmed@.len() == 0 || line_v[0] == '#');
                assert(parse_env_line(line_v) is None);
            }
        }
        i = i + 1;
    }
    proof {
        assert(all.take(n as int) =~= all);
    }
    out
}

/// The environment file's text for a list of variables: one `KEY=VALUE` line
/// per variable, joined by newlines.
pub open spec fn format_env_spec(vs: Seq<EnvVarModel>) -> Seq<char>
    decreases vs.len(),
{
    if vs.len() == 0 {
        Seq::<char>::empty()
    } else if vs.len() == 1 {
        vs[0].key + "="@ + vs[0].value
    } else {
        vs[0].key + "="@ + vs[0].value + "\n"@ + format_env_spec(vs.skip(1))
    }
}

proof fn lemma_format_env_push(vs: Seq<EnvVarModel>, x: EnvVarModel)
    ensures
        vs.len() == 0 ==> format_env_spec(vs.push(x)) == x.key + "="@ + x.value,
        vs.len() > 0 ==> format_env_spec(vs.push(x)) == format_env_spec(vs) + "\n"@ + x.key + "="@
            + x.value,
    decreases vs.len(),
{
    if vs.len() == 0 {
        assert(vs.push(x)[0] == x);
    } else {
        assert(vs.push(x)[0] == vs[0]);
        assert(vs.push(x).skip(1) =~= vs.skip(1).push(x));
        lemma_format_env_push(vs.skip(1), x);
        if vs.len() == 1 {
            assert(vs.skip(1).len() == 0);
            assert(format_env_spec(vs.push(x)) =~= format_env_spec(vs) + "\n"@ + x.key + "="@
                + x.value);
        } else {
            assert(format_env_spec(vs.push(x)) =~= format_env_spec(vs) + "\n"@ + x.key + "="@
                + x.value);
        }
    }
}

/// Formats the variables as the environment file's text.
pub fn format_env_text(vars: &Vec<EnvVar>) -> (r: String)
    ensures
        r@ == format_env_spec(vars.deep_view()),
{
    let n: usize = vars.len();
    let mut s = String::new();
    let mut i: usize = 0;
    proof {
        assert(vars.deep_view().take(0) =~= Seq::<EnvVarModel>::empty());
    }
    while i < n
        invariant
            n == vars@.len(),
            i <= n,
            s@ == format_env_spec(vars.deep_view().take(i as int)),
        decreases n - i,
    {
        proof {
            assert(vars.deep_view().take(i + 1).drop_last() =~= vars.deep_view().take(i as int));
            assert(vars.deep_view().take(i + 1) =~= vars.deep_view().take(i as int).push(
                vars.deep_view()[i as int],
            ));
            lemma_format_env_push(vars.deep_view().take(i as int), vars.deep_view()[i as int]);
        }
        if i > 0 {
            s.append("\n");
        }
        s.append(vars[i].key.as_str());
        s.append("=");
        s.append(vars[i].value.as_str());
        i = i + 1;
    }
    proof {
        assert(vars.deep_view().take(n as int) =~= vars.deep_view());
    }
    s
}

/// The environment manager: knows where the environment file lives under the
/// configuration directory; the caller reads and writes that path.
pub struct EnvManager {
    env_file: String,
}

impl EnvManager {
    /// The path of the environment file under `config_dir`.
    pub open spec fn env_path_spec(config_dir: Seq<char>) -> Seq<char> {
        config_dir + "/plugins/.env"@
    }

    /// Where this manager's environment file lives.
    pub closed spec fn path(&self) -> Seq<char> {
        self.env_file@
    }

    /// Creates a manager for the environment file under `config_dir`.
    pub fn new(config_dir: &str) -> (r: Self)
        ensures
            r.path() == Self::env_path_spec(config_dir@),
    {
        let mut p = String::new();
        p.append(config_dir);
        p.append("/plugins/.env");
        EnvManager { env_file: p }
    }

    /// The environment file's path, for the caller that does the reading and
    /// writing.
    pub fn env_file(&self) -> (r: &str)
        ensures
            r@ == self.path(),
    {
        self.env_file.as_str()
    }

    /// Parses the loaded text of the environment file; loading happens fresh
    /// before every execution, so edits take effect immediately.
    pub fn load(&self, text: &str) -> (r: Vec<EnvVar>)
        ensures
            r.deep_view() == parse_env_spec(text@),
    {
        parse_env_text(text)
    }

    /// Formats the text to store for `vars`.
    pub fn save(&self, vars: &Vec<EnvVar>) -> (r: String)
        ensures
            r@ == format_env_spec(vars.deep_view()),
    {
        format_env_text(vars)
    }
}

} // verus!
