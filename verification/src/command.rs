//! Which program runs a tool, and how the command is summarized in
//! messages.
use vstd::prelude::*;

use crate::error::AppError;
use crate::text::{chars_of, concat2, copy_range, is_blank, is_white_space, is_white_space_char, joined, string_of, trimmed};
use crate::tool::Tool;
use vstd::slice::slice_to_vec;
use vstd::string::StringSliceAdditionalSpecFns;
use vstd::utf8::encode_utf8;

verus! {

/// The most characters of a script that a command summary shows.
pub const MAX_PREVIEW_CHARS: usize = 160;

/// `s` with its whitespace runs between words made single spaces and
/// leading and trailing whitespace dropped (the words of
/// `split_whitespace`, joined by one space).
pub open spec fn squeezed(s: Seq<char>) -> Seq<char>
    decreases s.len(),
{
    if s.len() == 0 {
        Seq::empty()
    } else {
        let t = squeezed(s.drop_last());
        let c = s.last();
        if is_white_space(c) {
            t
        } else if s.len() >= 2 && is_white_space(s[s.len() - 2]) && t.len() > 0 {
            t.push(' ').push(c)
        } else {
            t.push(c)
        }
    }
}

/// The summary of a script: its squeezed text, cut to 160 characters with
/// `...` after a cut.
pub open spec fn preview_of(s: Seq<char>) -> Seq<char> {
    let q = squeezed(s);
    if q.len() <= MAX_PREVIEW_CHARS {
        q
    } else {
        q.subrange(0, MAX_PREVIEW_CHARS as int) + "..."@
    }
}

proof fn lemma_squeezed_chars(s: Seq<char>)
    ensures
        forall|i: int|
            0 <= i < squeezed(s).len() ==> #[trigger] squeezed(s)[i] == ' ' || !is_white_space(
                squeezed(s)[i],
            ),
    decreases s.len(),
{
    if s.len() > 0 {
        let t = squeezed(s.drop_last());
        lemma_squeezed_chars(s.drop_last());
        let q = squeezed(s);
        assert forall|i: int| 0 <= i < q.len() implies #[trigger] q[i] == ' ' || !is_white_space(q[i]) by {
            if i < t.len() {
                assert(q[i] == t[i]);
            }
        }
    }
}

/// A command summary fits on one line: it holds no whitespace but single
/// spaces, and at most 160 characters of the script and `...`.
pub proof fn lemma_preview_one_line(s: Seq<char>)
    ensures
        preview_of(s).len() <= MAX_PREVIEW_CHARS + 3,
        forall|i: int|
            0 <= i < preview_of(s).len() ==> #[trigger] preview_of(s)[i] == ' ' || !is_white_space(
                preview_of(s)[i],
            ),
{
    reveal_strlit("...");
    lemma_squeezed_chars(s);
    let q = squeezed(s);
    if q.len() > MAX_PREVIEW_CHARS {
        let p = preview_of(s);
        assert forall|i: int| 0 <= i < p.len() implies #[trigger] p[i] == ' ' || !is_white_space(p[i]) by {
            if i < MAX_PREVIEW_CHARS {
                assert(p[i] == q[i]);
            } else {
                assert(p[i] == '.');
            }
        }
    }
}

/// The words of `s` (`str::split_whitespace`): its maximal runs of
/// characters that are not whitespace, in order.
pub open spec fn words(s: Seq<char>) -> Seq<Seq<char>>
    decreases s.len(),
{
    if s.len() == 0 {
        Seq::empty()
    } else {
        let w = words(s.drop_last());
        let c = s.last();
        if is_white_space(c) {
            w
        } else if s.len() >= 2 && !is_white_space(s[s.len() - 2]) {
            w.drop_last().push(w.last().push(c))
        } else {
            w.push(seq![c])
        }
    }
}

proof fn lemma_squeezed_words(s: Seq<char>)
    ensures
        forall|i: int| 0 <= i < words(s).len() ==> (#[trigger] words(s)[i]).len() > 0,
        s.len() > 0 && !is_white_space(s.last()) ==> words(s).len() > 0,
        squeezed(s).len() > 0 <==> words(s).len() > 0,
        squeezed(s) == joined(words(s), seq![' ']),
    decreases s.len(),
{
    if s.len() > 0 {
        let p = s.drop_last();
        let w = words(p);
        let c = s.last();
        lemma_squeezed_words(p);
        if !is_white_space(c) {
            if s.len() >= 2 && !is_white_space(s[s.len() - 2]) {
                assert(p.last() == s[s.len() - 2]);
                let n = w.drop_last().push(w.last().push(c));
                assert(n.drop_last() == w.drop_last());
                assert forall|i: int| 0 <= i < n.len() implies (#[trigger] n[i]).len() > 0 by {
                    if i < n.len() - 1 {
                        assert(n[i] == w[i]);
                    }
                }
                if w.len() >= 2 {
                    assert(w.drop_last().len() >= 1);
                } else {
                    assert(w.drop_last().len() == 0);
                    assert(n =~= seq![w[0].push(c)]);
                    assert(squeezed(s) =~= joined(n, seq![' ']));
                }
            } else {
                let n = w.push(seq![c]);
                assert(n.drop_last() == w);
                assert forall|i: int| 0 <= i < n.len() implies (#[trigger] n[i]).len() > 0 by {
                    if i < n.len() - 1 {
                        assert(n[i] == w[i]);
                    }
                }
                if w.len() == 0 {
                    assert(squeezed(p).len() == 0);
                    assert(squeezed(s) =~= seq![c]);
                }
            }
        }
    }
}

/// A command summary is the script's words (`split_whitespace`) joined by
/// single spaces, cut to its first 160 characters with `...` after a cut.
pub proof fn lemma_preview_is_joined_words(s: Seq<char>)
    ensures
        preview_of(s) == ({
            let q = joined(words(s), seq![' ']);
            if q.len() <= MAX_PREVIEW_CHARS {
                q
            } else {
                q.subrange(0, MAX_PREVIEW_CHARS as int) + "..."@
            }
        }),
{
    lemma_squeezed_words(s);
}

/// A one-line summary of a script.
pub fn command_preview(command: &str) -> (r: String)
    ensures
        r@ == preview_of(command@),
{
    let cs = chars_of(command);
    let mut out: Vec<char> = Vec::new();
    let mut i: usize = 0;
    while i < cs.len()
        invariant
            cs@ == command@,
            i <= cs@.len(),
            out@ == squeezed(cs@.subrange(0, i as int)),
        decreases cs@.len() - i,
    {
        let c = cs[i];
        let ghost s = cs@.subrange(0, i + 1);
        assert(s.drop_last() =~= cs@.subrange(0, i as int));
        if is_white_space_char(c) {
        } else if i >= 1 && is_white_space_char(cs[i - 1]) && out.len() > 0 {
            out.push(' ');
            out.push(c);
        } else {
            out.push(c);
        }
        i = i + 1;
    }
    assert(cs@.subrange(0, cs@.len() as int) =~= cs@);
    if out.len() <= MAX_PREVIEW_CHARS {
        string_of(out.as_slice())
    } else {
        let head = copy_range(&out, 0, MAX_PREVIEW_CHARS);
        let head_text = string_of(head.as_slice());
        concat2(head_text.as_str(), "...")
    }
}

/// The shell that runs script bodies, and the flag that hands it a script.
pub fn script_shell() -> (r: (String, &'static str))
    ensures
        r.0@ == "sh"@,
        r.1@ == "-c"@,
{
    (String::from_str("sh"), "-c")
}

/// The lines that make PowerShell read and write UTF-8 without a byte
/// order mark.
pub const POWERSHELL_UTF8_PRELUDE: &'static str = "$utf8NoBom = [System.Text.UTF8Encoding]::new($false)\n[Console]::InputEncoding = $utf8NoBom\n[Console]::OutputEncoding = $utf8NoBom\n$OutputEncoding = $utf8NoBom\n";

/// The UTF-8 byte order mark.
pub open spec fn utf8_bom() -> Seq<u8> {
    seq![0xEFu8, 0xBBu8, 0xBFu8]
}

/// What the script file that PowerShell runs holds: a byte order mark,
/// the UTF-8 prelude, then the script.
pub open spec fn powershell_file_bytes(script: Seq<char>) -> Seq<u8> {
    utf8_bom() + encode_utf8(POWERSHELL_UTF8_PRELUDE@) + encode_utf8(script)
}

/// The bytes of the script file that PowerShell runs for a script body.
pub fn powershell_script_file(script: &str) -> (r: Vec<u8>)
    ensures
        r@ == powershell_file_bytes(script@),
{
    let mut r: Vec<u8> = vec![0xEFu8, 0xBBu8, 0xBFu8];
    let mut prelude = slice_to_vec(POWERSHELL_UTF8_PRELUDE.as_bytes());
    let mut body = slice_to_vec(script.as_bytes());
    r.append(&mut prelude);
    r.append(&mut body);
    assert(r@ =~= powershell_file_bytes(script@));
    r
}

/// The program and arguments that run a PowerShell script file, before
/// the file's path.
pub fn powershell_command() -> (r: (&'static str, Vec<&'static str>))
    ensures
        r.0@ == "powershell.exe"@,
        r.1@.len() == 4,
        r.1@[0]@ == "-NoProfile"@,
        r.1@[1]@ == "-ExecutionPolicy"@,
        r.1@[2]@ == "Bypass"@,
        r.1@[3]@ == "-File"@,
{
    ("powershell.exe", vec!["-NoProfile", "-ExecutionPolicy", "Bypass", "-File"])
}

/// How a PowerShell run of the script file at `path` is summarised.
pub fn powershell_summary(path: &str) -> (r: String)
    ensures
        r@ == "powershell.exe -NoProfile -ExecutionPolicy Bypass -File "@ + path@,
{
    concat2("powershell.exe -NoProfile -ExecutionPolicy Bypass -File ", path)
}

/// How a tool is run.
#[derive(Debug)]
pub enum ToolCommand {
    /// A script body handed to a shell with a flag.
    Shell { shell: String, flag: String, script: String, summary: String },
    /// A script body run by PowerShell from a temporary file.
    PowerShellFile { script: String },
    /// A script file run directly.
    Program { path: String, summary: String },
}

/// How a tool is run: a script body that is not blank takes precedence
/// (through PowerShell on Windows, through `sh -c` elsewhere), then a
/// script path that is not blank.
pub open spec fn command_matches(tool: Tool, windows: bool, c: ToolCommand) -> bool {
    match tool.script_body {
        Some(b) if trimmed(b@).len() > 0 => if windows {
            match c {
                ToolCommand::PowerShellFile { script } => script@ == b@,
                _ => false,
            }
        } else {
            match c {
                ToolCommand::Shell { shell, flag, script, summary } => shell@ == "sh"@ && flag@
                    == "-c"@ && script@ == b@ && summary@ == "sh -c "@ + preview_of(b@),
                _ => false,
            }
        },
        _ => match (tool.script_path, c) {
            (Some(p), ToolCommand::Program { path, summary }) => trimmed(p@).len() > 0 && path@ == p@
                && summary@ == p@,
            _ => false,
        },
    }
}

/// Whether a tool has something to run.
pub open spec fn has_runnable_source(tool: Tool) -> bool {
    (tool.script_body matches Some(b) && trimmed(b@).len() > 0) || (tool.script_path matches Some(
        p,
    ) && trimmed(p@).len() > 0)
}

/// Chooses how to run a tool.
pub fn command_for_tool(tool: &Tool, windows: bool) -> (r: Result<ToolCommand, AppError>)
    ensures
        match r {
            Ok(c) => command_matches(*tool, windows, c),
            Err(e) => !has_runnable_source(*tool) && (e matches AppError::Validation(m) && m@
                == "tool must include script_body or script_path"@),
        },
{
    if let Some(body) = &tool.script_body {
        if !is_blank(body.as_str()) {
            if windows {
                return Ok(ToolCommand::PowerShellFile { script: body.clone() });
            }
            let (shell, flag) = script_shell();
            let preview = command_preview(body.as_str());
            let summary = concat2(concat2(concat2(shell.as_str(), " ").as_str(), flag).as_str(), concat2(" ", preview.as_str()).as_str());
            proof {
                reveal_strlit("sh");
                reveal_strlit("-c");
                reveal_strlit(" ");
                reveal_strlit("sh -c ");
                assert(summary@ =~= "sh -c "@ + preview_of(body@));
            }
            return Ok(
                ToolCommand::Shell {
                    shell,
                    flag: String::from_str(flag),
                    script: body.clone(),
                    summary,
                },
            );
        }
    }
    if let Some(path) = &tool.script_path {
        if !is_blank(path.as_str()) {
            return Ok(ToolCommand::Program { path: path.clone(), summary: path.clone() });
        }
    }
    Err(AppError::validation("tool must include script_body or script_path"))
}

} // verus!
