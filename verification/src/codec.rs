//! The tool-invocation codec: builds the wrapper script an interpreter runs
//! to bridge one structured tool call, and decodes the script's stdout back
//! into a value or a typed error.
//!
//! The escaping primitive is the security-relevant core: the JSON text of the
//! arguments is spliced into a single-quoted string literal of the generated
//! script, so every backslash, quote and line break must be escaped such that
//! the target language's own literal parser reconstructs the text exactly.

use vstd::prelude::*;

use crate::errors::PluginError;
use crate::json::{
    clone_value, get_field, parse_json, parse_rep, rep_of, text_of_rep, to_json_text, value_as_str,
    JsonRep,
};
use crate::text::{chars_of, collect_string, split_chars, split_spec, trim_chars, trim_spec};

verus! {

/// How one character is escaped before being spliced into a single-quoted
/// string literal of the generated script.
pub open spec fn escape_char(c: char) -> Seq<char> {
    if c == '\\' {
        seq!['\\', '\\']
    } else if c == '\'' {
        seq!['\\', '\'']
    } else if c == '"' {
        seq!['\\', '"']
    } else if c == '\n' {
        seq!['\\', 'n']
    } else if c == '\r' {
        seq!['\\', 'r']
    } else {
        seq![c]
    }
}

/// The whole text escaped, character by character.
pub open spec fn escape_spec(s: Seq<char>) -> Seq<char>
    decreases s.len(),
{
    if s.len() == 0 {
        Seq::<char>::empty()
    } else {
        escape_char(s[0]) + escape_spec(s.skip(1))
    }
}

/// How the target script language decodes a backslash escape inside a
/// string literal: `\n` and `\r` become the control character, any other
/// escaped character stands for itself.
pub open spec fn unescape_spec(s: Seq<char>) -> Seq<char>
    decreases s.len(),
{
    if s.len() == 0 {
        Seq::<char>::empty()
    } else if s[0] == '\\' && s.len() >= 2 {
        let d = s[1];
        let c = if d == 'n' {
            '\n'
        } else if d == 'r' {
            '\r'
        } else {
            d
        };
        seq![c] + unescape_spec(s.skip(2))
    } else {
        seq![s[0]] + unescape_spec(s.skip(1))
    }
}

proof fn lemma_escape_concat(a: Seq<char>, b: Seq<char>)
    ensures
        escape_spec(a + b) == escape_spec(a) + escape_spec(b),
    decreases a.len(),
{
    if a.len() == 0 {
        assert(a + b =~= b);
        assert(escape_spec(a) + escape_spec(b) =~= escape_spec(b));
    } else {
        assert((a + b).skip(1) =~= a.skip(1) + b);
        lemma_escape_concat(a.skip(1), b);
        assert(escape_char((a + b)[0]) + (escape_spec(a.skip(1)) + escape_spec(b))
            =~= (escape_char(a[0]) + escape_spec(a.skip(1))) + escape_spec(b));
    }
}

/// Escaping round-trips: whatever text is escaped and spliced into the
/// generated script, the target language's string-literal decoding yields
/// the original text back, for every input.
pub proof fn lemma_escape_round_trip(s: Seq<char>)
    ensures
        unescape_spec(escape_spec(s)) == s,
    decreases s.len(),
{
    if s.len() == 0 {
    } else {
        let c = s[0];
        let e = escape_char(c) + escape_spec(s.skip(1));
        lemma_escape_round_trip(s.skip(1));
        if c == '\\' || c == '\'' || c == '"' || c == '\n' || c == '\r' {
            assert(e[0] == '\\' && e.len() >= 2);
            assert(e.skip(2) =~= escape_spec(s.skip(1)));
            assert(unescape_spec(e) =~= seq![c] + s.skip(1));
        } else {
            assert(e[0] == c && c != '\\');
            assert(e.skip(1) =~= escape_spec(s.skip(1)));
            assert(unescape_spec(e) =~= seq![c] + s.skip(1));
        }
        assert(seq![c] + s.skip(1) =~= s);
    }
}

/// Escapes `s` for splicing into a single-quoted string literal of the
/// generated script.
pub fn escape_embedded(s: &str) -> (r: String)
    ensures
        r@ == escape_spec(s@),
{
    let cs = chars_of(s);
    let n: usize = cs.len();
    let mut out: Vec<char> = Vec::new();
    let mut i: usize = 0;
    while i < n
        invariant
            n == cs@.len(),
            cs@ == s@,
            i <= n,
            out@ == escape_spec(cs@.take(i as int)),
        decreases n - i,
    {
        let c = cs[i];
        if c == '\\' {
            out.push('\\');
            out.push('\\');
        } else if c == '\'' {
            out.push('\\');
            out.push('\'');
        } else if c == '"' {
            out.push('\\');
            out.push('"');
        } else if c == '\n' {
            out.push('\\');
            out.push('n');
        } else if c == '\r' {
            out.push('\\');
            out.push('r');
        } else {
            out.push(c);
        }
        proof {
            lemma_escape_concat(cs@.take(i as int), seq![cs@[i as int]]);
            assert(cs@.take(i as int) + seq![cs@[i as int]] =~= cs@.take(i + 1));
            let single = seq![cs@[i as int]];
            assert(single.skip(1) =~= Seq::<char>::empty());
            assert(escape_spec(Seq::<char>::empty()) == Seq::<char>::empty());
            assert(escape_spec(single) == escape_char(single[0]) + escape_spec(single.skip(1)));
            assert(escape_char(cs@[i as int]) + Seq::<char>::empty() =~= escape_char(
                cs@[i as int],
            ));
            assert(escape_spec(single) =~= escape_char(cs@[i as int]));
            assert(out@ =~= escape_spec(cs@.take(i as int)) + escape_char(cs@[i as int]));
        }
        i = i + 1;
    }
    proof {
        assert(cs@.take(n as int) =~= cs@);
    }
    collect_string(&out)
}

/// Decodes a backslash-escaped text the way the target script language's
/// string-literal parser does; the executable model used by tests to check
/// the escaping round trip.
pub fn unescape_embedded(s: &str) -> (r: String)
    ensures
        r@ == unescape_spec(s@),
{
    let cs = chars_of(s);
    let n: usize = cs.len();
    let mut out: Vec<char> = Vec::new();
    let mut i: usize = 0;
    proof {
        assert(cs@.skip(0) =~= cs@);
        assert(out@ + unescape_spec(cs@) =~= unescape_spec(cs@));
    }
    while i < n
        invariant
            n == cs@.len(),
            cs@ == s@,
            i <= n,
            unescape_spec(cs@) == out@ + unescape_spec(cs@.skip(i as int)),
        decreases n - i,
    {
        let ghost tail = cs@.skip(i as int);
        proof {
            assert(tail[0] == cs@[i as int]);
        }
        let c = cs[i];
        if c == '\\' && i + 1 < n {
            proof {
                assert(tail[1] == cs@[i + 1]);
                assert(tail.skip(2) =~= cs@.skip(i + 2));
            }
            let d = cs[i + 1];
            let ghost oldout = out@;
            if d == 'n' {
                out.push('\n');
            } else if d == 'r' {
                out.push('\r');
            } else {
                out.push(d);
            }
            proof {
                assert(out@ =~= oldout + unescape_spec(tail).take(1));
                assert(unescape_spec(tail).take(1) + unescape_spec(cs@.skip(i + 2))
                    =~= unescape_spec(tail));
                assert(oldout + unescape_spec(tail) =~= (oldout + unescape_spec(tail).take(1))
                    + unescape_spec(cs@.skip(i + 2)));
            }
            i = i + 2;
        } else {
            proof {
                assert(tail.skip(1) =~= cs@.skip(i + 1));
                if c == '\\' {
                    assert(tail.len() == 1);
                }
            }
            let ghost oldout = out@;
            out.push(c);
            proof {
                assert(unescape_spec(tail) =~= seq![cs@[i as int]] + unescape_spec(
                    cs@.skip(i + 1),
                ));
                assert(out@ =~= oldout + seq![cs@[i as int]]);
                assert(oldout + unescape_spec(tail) =~= out@ + unescape_spec(cs@.skip(i + 1)));
            }
            i = i + 1;
        }
    }
    proof {
        assert(cs@.skip(n as int) =~= Seq::<char>::empty());
        assert(out@ + Seq::<char>::empty() =~= out@);
    }
    collect_string(&out)
}

/// The exact text of the wrapper script that invokes one tool of a plugin:
/// it imports the plugin from `path`, resolves `tool` as a callable, decodes
/// the escaped JSON argument literal, and prints one JSON line holding
/// either `{"result": ...}` or `{"error": ...}`.
pub open spec fn invocation_script_spec(path: Seq<char>, tool: Seq<char>, escaped_args: Seq<
    char,
>) -> Seq<char> {
    "(async () => {\n    try {\n        const plugin = await import('file://"@ + path
        + "');\n        const targetFunction = plugin['"@ + tool
        + "'];\n        if (typeof targetFunction !== 'function') {\n            throw new Error(\"unknown tool: "@
        + tool
        + "\");\n        }\n        const parsedArgs = JSON.parse('"@ + escaped_args
        + "');\n        const result = await targetFunction(parsedArgs);\n        console.log(JSON.stringify({ result: result !== undefined ? result : null }));\n    } catch (e) {\n        console.log(JSON.stringify({ error: e instanceof Error ? e.message : String(e) }));\n    }\n})();\n"@
}

/// Builds the invocation wrapper script for one tool call.
///
/// `args_json` is the JSON text of the call's arguments; it is escaped here
/// before being spliced, so the script's own parser reconstructs it exactly.
pub fn build_invocation_script(path: &str, tool: &str, args_json: &str) -> (r: String)
    ensures
        r@ == invocation_script_spec(path@, tool@, escape_spec(args_json@)),
{
    let escaped = escape_embedded(args_json);
    let mut s = String::new();
    s.append("(async () => {\n    try {\n        const plugin = await import('file://");
    s.append(path);
    s.append("');\n        const targetFunction = plugin['");
    s.append(tool);
    s.append("'];\n        if (typeof targetFunction !== 'function') {\n            throw new Error(\"unknown tool: ");
    s.append(tool);
    s.append("\");\n        }\n        const parsedArgs = JSON.parse('");
    s.append(escaped.as_str());
    s.append("');\n        const result = await targetFunction(parsedArgs);\n        console.log(JSON.stringify({ result: result !== undefined ? result : null }));\n    } catch (e) {\n        console.log(JSON.stringify({ error: e instanceof Error ? e.message : String(e) }));\n    }\n})();\n");
    s
}

/// The exact text of the introspection script: it imports the plugin from
/// `path`, enumerates its exported tool table, and prints one JSON object
/// `{name, description, tools}` describing the plugin.
pub open spec fn introspection_script_spec(path: Seq<char>) -> Seq<char> {
    "const plugin = await import('file://"@ + path
        + "');\nconst tools = Object.entries(plugin.default.tools || {})\n    .map(([key, value]) => {\n        const res = {\n            name: key || \"undefined\",\n            description: value.description || \"\",\n        };\n        if (value.parameters) {\n            res.parameters = value.parameters;\n        }\n        return res;\n    });\nconsole.log(JSON.stringify({\n    name: plugin.default.name || \"undefined\",\n    description: plugin.default.description || \"\",\n    tools\n}));\n"@
}

/// Builds the introspection script that extracts a plugin's metadata.
pub fn build_introspection_script(path: &str) -> (r: String)
    ensures
        r@ == introspection_script_spec(path@),
{
    let mut s = String::new();
    s.append("const plugin = await import('file://");
    s.append(path);
    s.append("');\nconst tools = Object.entries(plugin.default.tools || {})\n    .map(([key, value]) => {\n        const res = {\n            name: key || \"undefined\",\n            description: value.description || \"\",\n        };\n        if (value.parameters) {\n            res.parameters = value.parameters;\n        }\n        return res;\n    });\nconsole.log(JSON.stringify({\n    name: plugin.default.name || \"undefined\",\n    description: plugin.default.description || \"\",\n    tools\n}));\n");
    s
}

/// The last line of `ls` whose trimmed text is non-empty, trimmed.
pub open spec fn last_nonblank(ls: Seq<Seq<char>>) -> Option<Seq<char>>
    decreases ls.len(),
{
    if ls.len() == 0 {
        None
    } else if trim_spec(ls.last()).len() > 0 {
        Some(trim_spec(ls.last()))
    } else {
        last_nonblank(ls.drop_last())
    }
}

/// The canonical result channel of the wrapper protocol: the last non-empty
/// stdout line, trimmed.
pub open spec fn last_content_line(raw: Seq<char>) -> Option<Seq<char>> {
    last_nonblank(split_spec(raw, '\n'))
}

/// What decoding a wrapper's stdout yields.
pub enum DecodedOutcome {
    /// No line parsed as JSON; the raw text is reported.
    NoJson,
    /// The wrapper reported `{"error": ...}`: the plugin's own code failed.
    Failure(Seq<char>),
    /// The decoded value: the `result` field if present, else the whole
    /// parsed document.
    Success(JsonRep),
}

/// The message reported for an `error` field: the string itself, or the
/// field's JSON text when the plugin threw a non-string value.
pub open spec fn error_message_spec(e: JsonRep) -> Seq<char> {
    match e {
        JsonRep::Str(s) => s,
        _ => text_of_rep(e),
    }
}

/// How the wrapper protocol's stdout decodes, over the JSON model.
pub open spec fn decode_spec(raw: Seq<char>) -> DecodedOutcome {
    match last_content_line(raw) {
        Option::None => DecodedOutcome::NoJson,
        Option::Some(line) => match parse_rep(line) {
            Option::None => DecodedOutcome::NoJson,
            Option::Some(j) => match j {
                JsonRep::Obj(m) => if m.contains_key("error"@) {
                    DecodedOutcome::Failure(error_message_spec(m["error"@]))
                } else if m.contains_key("result"@) {
                    DecodedOutcome::Success(m["result"@])
                } else {
                    DecodedOutcome::Success(j)
                },
                _ => DecodedOutcome::Success(j),
            },
        },
    }
}

/// Finds the last non-empty line of `raw`, trimmed.
fn find_last_content_line(raw: &str) -> (r: Option<String>)
    ensures
        match r {
            Option::Some(l) => last_content_line(raw@) == Some(l@),
            Option::None => last_content_line(raw@) is None,
        },
{
    let cs = chars_of(raw);
    let lines = split_chars(&cs, '\n');
    let ghost all = split_spec(raw@, '\n');
    let mut j: usize = lines.len();
    proof {
        assert(all.take(j as int) =~= all);
    }
    while j > 0
        invariant
            all == split_spec(raw@, '\n'),
            lines.deep_view() == all,
            j <= lines@.len(),
            last_nonblank(all) == last_nonblank(all.take(j as int)),
        decreases j,
    {
        let trimmed = trim_chars(&lines[j - 1]);
        proof {
            assert(all[j - 1] == lines@[j - 1].deep_view());
            assert(lines@[j - 1].deep_view() =~= lines@[j - 1]@);
            assert(all.take(j as int).last() == all[j - 1]);
            assert(all.take(j as int).drop_last() =~= all.take(j - 1));
            assert(trimmed@ == trim_spec(all.take(j as int).last()));
        }
        if trimmed.len() > 0 {
            proof {
                assert(last_nonblank(all.take(j as int)) == Some(trimmed@));
            }
            return Some(collect_string(&trimmed));
        }
        j = j - 1;
    }
    proof {
        assert(all.take(0) =~= Seq::<Seq<char>>::empty());
    }
    None
}

/// Decodes the interpreter's stdout for one tool invocation.
///
/// The last non-empty line is the result channel: `{"error": m}` becomes a
/// plugin-runtime failure, `{"result": v}` becomes `Ok(v)`, any other JSON
/// document is returned whole, and output with no JSON line is a `Json`
/// decode error carrying the raw text.
pub fn decode_output(raw: &str) -> (r: Result<serde_json::Value, PluginError>)
    ensures
        match decode_spec(raw@) {
            DecodedOutcome::NoJson => r matches Err(PluginError::Json(m)) && m@ == raw@,
            DecodedOutcome::Failure(msg) => r matches Err(PluginError::PluginRuntimeError(e))
                && e@ == msg,
            DecodedOutcome::Success(j) => r matches Ok(v) && rep_of(v) == j,
        },
{
    let line = match find_last_content_line(raw) {
        Some(l) => l,
        None => {
            return Err(PluginError::Json(raw.to_owned()));
        },
    };
    let parsed = match parse_json(line.as_str()) {
        Some(v) => v,
        None => {
            return Err(PluginError::Json(raw.to_owned()));
        },
    };
    match get_field(&parsed, "error") {
        Some(e) => {
            let msg = match value_as_str(e) {
                Some(m) => m.to_owned(),
                None => to_json_text(e),
            };
            Err(PluginError::PluginRuntimeError(msg))
        },
        None => {
            match get_field(&parsed, "result") {
                Some(rv) => Ok(clone_value(rv)),
                None => Ok(parsed),
            }
        },
    }
}

} // verus!
