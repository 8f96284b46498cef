//! The runner's own decisions: how the verifier is invoked, and how its output becomes
//! a report or a lemma list. Spawning the process and reading its pipe stay outside.
use vstd::prelude::*;

use crate::diagnostics::{
    diagnostic_of, diagnostics_view, is_compiler_message, message_of, parse_message, parse_target,
    str_member, Diagnostic, DiagnosticView,
};
use crate::json::{field, int_field, json_of, parse_json, render_json, str_field, JsonValue};
use crate::text::{line_len, lines_of, split_lines, strip_cr};

verus! {

/// The runner holds no state between calls.
pub struct FluxRunner {}

pub struct VerifyRepositoryArgs {
    pub repo_path: String,
}

pub struct VerifyPackageArgs {
    pub repo_path: String,
    pub packages: Vec<String>,
}

pub struct GetLemmaArgs {
    pub repo_path: String,
}

/// The outcome of one run: whether the process exited successfully, and what it reported.
pub struct VerificationReport {
    pub success: bool,
    pub diagnostics: Vec<Diagnostic>,
}

/// A named fact the verifier's solver can use.
pub struct Lemma {
    pub name: String,
    pub file_name: String,
    pub start_line: i64,
    pub start_col: i64,
    pub end_line: i64,
    pub end_col: i64,
}

pub struct LemmaView {
    pub name: Seq<char>,
    pub file_name: Seq<char>,
    pub start_line: i64,
    pub start_col: i64,
    pub end_line: i64,
    pub end_col: i64,
}

impl View for Lemma {
    type V = LemmaView;

    open spec fn view(&self) -> LemmaView {
        LemmaView {
            name: self.name@,
            file_name: self.file_name@,
            start_line: self.start_line,
            start_col: self.start_col,
            end_line: self.end_line,
            end_col: self.end_col,
        }
    }
}

pub open spec fn lemmas_view(v: Seq<Lemma>) -> Seq<LemmaView> {
    v.map_values(|l: Lemma| l@)
}

/// How to start the verifier: program, working directory, arguments, and the value to
/// give the environment variable `flags_var` where one is set.
pub struct FluxCommand {
    pub program: String,
    pub current_dir: String,
    pub args: Vec<String>,
    pub flags_var: String,
    pub flags_env: Option<String>,
}

/// `-p <name>` for each package, in order.
pub open spec fn package_args(ps: Seq<Seq<char>>) -> Seq<Seq<char>>
    decreases ps.len(),
{
    if ps.len() == 0 {
        Seq::empty()
    } else {
        package_args(ps.drop_last()) + seq!["-p"@, ps.last()]
    }
}

/// The words joined with one space between each two.
pub open spec fn join_spaces(ws: Seq<Seq<char>>) -> Seq<char>
    decreases ws.len(),
{
    if ws.len() == 0 {
        Seq::empty()
    } else if ws.len() == 1 {
        ws[0]
    } else {
        join_spaces(ws.drop_last()) + " "@ + ws.last()
    }
}

pub open spec fn strs_of(s: Seq<&str>) -> Seq<Seq<char>> {
    s.map_values(|x: &str| x@)
}

/// The arguments after the program: the subcommand, the package filters, and the
/// request for JSON output.
pub open spec fn command_args(packages: Option<Seq<Seq<char>>>) -> Seq<Seq<char>> {
    seq!["flux"@] + match packages {
        Some(ps) => package_args(ps),
        None => Seq::empty(),
    } + seq!["--message-format=json"@]
}

/// The name of the environment variable that carries the verifier's extra flags.
pub open spec fn flags_variable() -> Seq<char> {
    "FLUXFLAGS"@
}

/// The flag that asks the verifier for its lemma catalogue.
pub open spec fn dump_lemmas_flag() -> Seq<char> {
    "-Fdump-lemmas"@
}

/// A lemma record: all six fields are required, the bounds as `i64`.
pub open spec fn lemma_fields_of(m: JsonValue) -> Option<LemmaView> {
    match (
        str_field(m, "lemma_name"@),
        str_field(m, "file_name"@),
        int_field(m, "start_line"@),
        int_field(m, "start_col"@),
        int_field(m, "end_line"@),
        int_field(m, "end_col"@),
    ) {
        (Some(name), Some(file_name), Some(start_line), Some(start_col), Some(end_line), Some(end_col)) => {
            Some(LemmaView { name, file_name, start_line, start_col, end_line, end_col })
        },
        _ => None,
    }
}

/// The lemma that one parsed line of lemma output carries, if any.
pub open spec fn lemma_of(j: JsonValue) -> Option<LemmaView> {
    if is_compiler_message(j) {
        match field(j, "message"@) {
            Some(m) => lemma_fields_of(m),
            None => None,
        }
    } else {
        None
    }
}

pub open spec fn line_lemma(line: Seq<char>) -> Option<LemmaView> {
    match json_of(line) {
        Some(j) => lemma_of(j),
        None => None,
    }
}

/// The lemmas of a sequence of lines, in the order of the lines.
pub open spec fn lemmas_of(lines: Seq<Seq<char>>) -> Seq<LemmaView>
    decreases lines.len(),
{
    if lines.len() == 0 {
        Seq::empty()
    } else {
        let before = lemmas_of(lines.drop_last());
        match line_lemma(lines.last()) {
            Some(l) => before.push(l),
            None => before,
        }
    }
}

pub open spec fn line_diagnostic(line: Seq<char>) -> Option<DiagnosticView> {
    match json_of(line) {
        Some(j) => diagnostic_of(j),
        None => None,
    }
}

/// The diagnostics of a sequence of lines, in the order of the lines.
pub open spec fn diagnostics_of(lines: Seq<Seq<char>>) -> Seq<DiagnosticView>
    decreases lines.len(),
{
    if lines.len() == 0 {
        Seq::empty()
    } else {
        let before = diagnostics_of(lines.drop_last());
        match line_diagnostic(lines.last()) {
            Some(d) => before.push(d),
            None => before,
        }
    }
}

/// The diagnostics of two runs of lines, one after the other, are those of the first
/// followed by those of the second: each line's diagnostic keeps its place in the
/// order of the lines.
pub proof fn lemma_diagnostics_keep_line_order(a: Seq<Seq<char>>, b: Seq<Seq<char>>)
    ensures
        diagnostics_of(a + b) == diagnostics_of(a) + diagnostics_of(b),
    decreases b.len(),
{
    if b.len() == 0 {
        assert(a + b =~= a);
        assert(diagnostics_of(a) + diagnostics_of(b) =~= diagnostics_of(a));
    } else {
        lemma_diagnostics_keep_line_order(a, b.drop_last());
        assert((a + b).drop_last() =~= a + b.drop_last());
        assert((a + b).last() == b.last());
        match line_diagnostic(b.last()) {
            Some(d) => {
                assert(diagnostics_of(a) + diagnostics_of(b.drop_last()).push(d) =~= (diagnostics_of(a)
                    + diagnostics_of(b.drop_last())).push(d));
            },
            None => {},
        }
    }
}

/// The lemmas of two runs of lines, one after the other, are those of the first
/// followed by those of the second.
pub proof fn lemma_lemmas_keep_line_order(a: Seq<Seq<char>>, b: Seq<Seq<char>>)
    ensures
        lemmas_of(a + b) == lemmas_of(a) + lemmas_of(b),
    decreases b.len(),
{
    if b.len() == 0 {
        assert(a + b =~= a);
        assert(lemmas_of(a) + lemmas_of(b) =~= lemmas_of(a));
    } else {
        lemma_lemmas_keep_line_order(a, b.drop_last());
        assert((a + b).drop_last() =~= a + b.drop_last());
        assert((a + b).last() == b.last());
        match line_lemma(b.last()) {
            Some(l) => {
                assert(lemmas_of(a) + lemmas_of(b.drop_last()).push(l) =~= (lemmas_of(a) + lemmas_of(
                    b.drop_last(),
                )).push(l));
            },
            None => {},
        }
    }
}

/// A line that carries no diagnostic adds nothing to the result and leaves the lines
/// around it as they were.
proof fn lemma_line_without_diagnostic(before: Seq<Seq<char>>, line: Seq<char>, after: Seq<Seq<char>>)
    requires
        line_diagnostic(line) is None,
    ensures
        diagnostics_of(before + seq![line] + after) == diagnostics_of(before) + diagnostics_of(after),
{
    lemma_diagnostics_keep_line_order(before + seq![line], after);
    lemma_diagnostics_keep_line_order(before, seq![line]);
    assert(seq![line].drop_last() =~= Seq::<Seq<char>>::empty());
    assert(seq![line].last() == line);
    assert(diagnostics_of(seq![line]) == diagnostics_of(Seq::<Seq<char>>::empty()));
    assert(diagnostics_of(before) + Seq::<DiagnosticView>::empty() =~= diagnostics_of(before));
}

/// A line that carries no lemma adds nothing to the result and leaves the lines around
/// it as they were.
proof fn lemma_line_without_lemma(before: Seq<Seq<char>>, line: Seq<char>, after: Seq<Seq<char>>)
    requires
        line_lemma(line) is None,
    ensures
        lemmas_of(before + seq![line] + after) == lemmas_of(before) + lemmas_of(after),
{
    lemma_lemmas_keep_line_order(before + seq![line], after);
    lemma_lemmas_keep_line_order(before, seq![line]);
    assert(seq![line].drop_last() =~= Seq::<Seq<char>>::empty());
    assert(seq![line].last() == line);
    assert(lemmas_of(seq![line]) == lemmas_of(Seq::<Seq<char>>::empty()));
    assert(lemmas_of(before) + Seq::<LemmaView>::empty() =~= lemmas_of(before));
}

/// A line that is no JSON, or JSON whose `reason` is not `"compiler-message"`, yields
/// no diagnostic and no lemma, and the lines after it are read as if it were not there.
pub proof fn lemma_unmatched_line_skipped(before: Seq<Seq<char>>, line: Seq<char>, after: Seq<Seq<char>>)
    requires
        json_of(line) is None || !is_compiler_message(json_of(line)->0),
    ensures
        diagnostics_of(before + seq![line] + after) == diagnostics_of(before) + diagnostics_of(after),
        lemmas_of(before + seq![line] + after) == lemmas_of(before) + lemmas_of(after),
{
    lemma_line_without_diagnostic(before, line, after);
    lemma_line_without_lemma(before, line, after);
}

/// A compiler message whose `message` object lacks a string `level` or a string
/// `message` is left out; the diagnostics of all other lines stay as they are.
pub proof fn lemma_incomplete_message_dropped(before: Seq<Seq<char>>, line: Seq<char>, after: Seq<Seq<char>>)
    requires
        json_of(line) is Some,
        is_compiler_message(json_of(line)->0),
        field(json_of(line)->0, "message"@) is Some,
        str_field(field(json_of(line)->0, "message"@)->0, "level"@) is None || str_field(
            field(json_of(line)->0, "message"@)->0,
            "message"@,
        ) is None,
    ensures
        diagnostics_of(before + seq![line] + after) == diagnostics_of(before) + diagnostics_of(after),
{
    assert(message_of(field(json_of(line)->0, "message"@)->0) is None);
    lemma_line_without_diagnostic(before, line, after);
}

proof fn lemma_line_len_of_line(s: Seq<char>)
    requires
        forall|i: int| 0 <= i < s.len() ==> s[i] != '\n',
    ensures
        line_len(s.push('\n')) == s.len(),
    decreases s.len(),
{
    if s.len() > 0 {
        assert(s.push('\n').drop_first() =~= s.drop_first().push('\n'));
        lemma_line_len_of_line(s.drop_first());
    }
}

/// Output that is one line carrying a diagnostic, ended by a newline, yields exactly that
/// one diagnostic; with `verification_report`, whose success is the exit status alone,
/// a run that exits successfully and reports one error gives a successful report with
/// one diagnostic.
pub proof fn lemma_single_line_output(line: Seq<char>)
    requires
        forall|i: int| 0 <= i < line.len() ==> line[i] != '\n',
        line.len() == 0 || line.last() != '\r',
        line_diagnostic(line) is Some,
    ensures
        diagnostics_of(lines_of(line.push('\n'))) == seq![line_diagnostic(line)->0],
{
    let s = line.push('\n');
    lemma_line_len_of_line(line);
    assert(s.take(line.len() as int) =~= line);
    assert(s.skip((line.len() + 1) as int) =~= Seq::<char>::empty());
    assert(strip_cr(line) == line);
    assert(lines_of(Seq::<char>::empty()) =~= Seq::<Seq<char>>::empty());
    assert(line_len(s) < s.len());
    assert(lines_of(s) == seq![strip_cr(s.take(line_len(s) as int))] + lines_of(s.skip((line_len(s) + 1) as int)));
    assert(lines_of(s) =~= seq![line]);
    assert(seq![line].drop_last() =~= Seq::<Seq<char>>::empty());
    assert(seq![line].last() == line);
    assert(diagnostics_of(Seq::<Seq<char>>::empty()).push(line_diagnostic(line)->0) =~= seq![
        line_diagnostic(line)->0,
    ]);
}

/// Joins words with single spaces.
fn join_with_spaces(ws: &[&str]) -> (r: String)
    ensures
        r@ == join_spaces(strs_of(ws@)),
{
    let mut res = String::new();
    let mut i: usize = 0;
    while i < ws.len()
        invariant
            i <= ws@.len(),
            res@ == join_spaces(strs_of(ws@).take(i as int)),
        decreases ws@.len() - i,
    {
        proof {
            assert(strs_of(ws@).take(i + 1).drop_last() =~= strs_of(ws@).take(i as int));
        }
        if i > 0 {
            res.append(" ");
        }
        res.append(ws[i]);
        i = i + 1;
    }
    proof {
        assert(strs_of(ws@).take(ws@.len() as int) =~= strs_of(ws@));
    }
    res
}

fn compiler_message_reason(j: &JsonValue) -> (r: bool)
    ensures
        r == is_compiler_message(*j),
{
    let expected = "compiler-message".to_owned();
    match str_member(j, "reason") {
        Some(reason) => reason == expected,
        None => false,
    }
}

impl FluxRunner {
    pub fn new() -> Self {
        FluxRunner {}
    }

    /// The invocation of the verifier in `repo_root`, with the package filters and the
    /// extra flags where they are given.
    pub fn flux_command(repo_root: &str, packages: Option<&[&str]>, flux_flags: Option<&[&str]>) -> (r: FluxCommand)
        ensures
            r.program@ == "cargo"@,
            r.current_dir@ == repo_root@,
            r.args@.map_values(|a: String| a@) == command_args(
                match packages {
                    Some(ps) => Some(strs_of(ps@)),
                    None => None,
                },
            ),
            r.flags_var@ == flags_variable(),
            r.flags_env matches Some(e) ==> flux_flags matches Some(fs) && e@ == join_spaces(strs_of(fs@)),
            r.flags_env is None <==> flux_flags is None,
    {
        let flags_env = match flux_flags {
            Some(fs) => Some(join_with_spaces(fs)),
            None => None,
        };
        let mut args: Vec<String> = Vec::new();
        args.push("flux".to_owned());
        let ghost pkgs: Seq<Seq<char>> = match packages {
            Some(ps) => strs_of(ps@),
            None => Seq::empty(),
        };
        match packages {
            Some(ps) => {
                let mut i: usize = 0;
                while i < ps.len()
                    invariant
                        i <= ps@.len(),
                        pkgs == strs_of(ps@),
                        args@.map_values(|a: String| a@) == seq!["flux"@] + package_args(pkgs.take(i as int)),
                    decreases ps@.len() - i,
                {
                    proof {
                        assert(pkgs.take(i + 1).drop_last() =~= pkgs.take(i as int));
                    }
                    let ghost before = args@;
                    args.push("-p".to_owned());
                    args.push(ps[i].to_owned());
                    proof {
                        assert(args@.map_values(|a: String| a@) =~= before.map_values(|a: String| a@) + seq![
                            "-p"@,
                            ps@[i as int]@,
                        ]);
                    }
                    i = i + 1;
                }
                proof {
                    assert(pkgs.take(ps@.len() as int) =~= pkgs);
                }
            },
            None => {
                assert(args@.map_values(|a: String| a@) =~= seq!["flux"@] + package_args(pkgs));
            },
        }
        let ghost before = args@;
        args.push("--message-format=json".to_owned());
        proof {
            assert(args@.map_values(|a: String| a@) =~= before.map_values(|a: String| a@) + seq![
                "--message-format=json"@,
            ]);
        }
        FluxCommand {
            program: "cargo".to_owned(),
            current_dir: repo_root.to_owned(),
            args,
            flags_var: "FLUXFLAGS".to_owned(),
            flags_env,
        }
    }

    /// The invocation that checks the repository at `repo_path`, limited to `packages`
    /// where they are given.
    pub fn verification_command(repo_path: &str, packages: Option<&[&str]>) -> (r: FluxCommand)
        ensures
            r.program@ == "cargo"@,
            r.current_dir@ == repo_path@,
            r.args@.map_values(|a: String| a@) == command_args(
                match packages {
                    Some(ps) => Some(strs_of(ps@)),
                    None => None,
                },
            ),
            r.flags_var@ == flags_variable(),
            r.flags_env is None,
    {
        Self::flux_command(repo_path, packages, None)
    }

    /// The invocation that asks the verifier for the lemma catalogue of `repo_path`.
    pub fn lemmas_command(repo_path: &str) -> (r: FluxCommand)
        ensures
            r.program@ == "cargo"@,
            r.current_dir@ == repo_path@,
            r.args@.map_values(|a: String| a@) == command_args(None),
            r.flags_var@ == flags_variable(),
            r.flags_env matches Some(e) && e@ == dump_lemmas_flag(),
    {
        let flags: [&str; 1] = ["-Fdump-lemmas"];
        let fs = flags.as_slice();
        let r = Self::flux_command(repo_path, None, Some(fs));
        assert(strs_of(fs@) =~= seq![dump_lemmas_flag()]);
        r
    }

    /// The report of a finished run: success is the exit status alone, whatever the
    /// diagnostics say.
    pub fn verification_report(exit_success: bool, output: &str) -> (r: VerificationReport)
        ensures
            r.success == exit_success,
            diagnostics_view(r.diagnostics@) == diagnostics_of(lines_of(output@)),
    {
        VerificationReport { success: exit_success, diagnostics: Self::parse_flux_output(output) }
    }

    /// Reads one line of output as a diagnostic; `None` for any line that carries none.
    pub fn parse_diagnostic_line(line: &str) -> (r: Option<Diagnostic>)
        ensures
            r matches Some(d) ==> line_diagnostic(line@) == Some(d@),
            r is None <==> line_diagnostic(line@) is None,
    {
        let j = match parse_json(line) {
            Some(j) => j,
            None => return None,
        };
        if !compiler_message_reason(&j) {
            return None;
        }
        let message = match j.get("message") {
            Some(m) => match parse_message(m) {
                Some(msg) => msg,
                None => return None,
            },
            None => return None,
        };
        let target = match j.get("target") {
            Some(t) => parse_target(t),
            None => None,
        };
        let package_id = match j.get("package_id") {
            Some(p) => Some(render_json(p)),
            None => None,
        };
        Some(Diagnostic { message, package_id, target })
    }

    /// The diagnostics that the verifier's output carries, in the order of its lines.
    pub fn parse_flux_output(output: &str) -> (r: Vec<Diagnostic>)
        ensures
            diagnostics_view(r@) == diagnostics_of(lines_of(output@)),
    {
        let lines = split_lines(output);
        let ghost ls = lines_of(output@);
        let mut res: Vec<Diagnostic> = Vec::new();
        let mut i: usize = 0;
        while i < lines.len()
            invariant
                i <= lines@.len(),
                lines@.map_values(|l: String| l@) == ls,
                diagnostics_view(res@) == diagnostics_of(ls.take(i as int)),
            decreases lines@.len() - i,
        {
            proof {
                assert(ls.take(i + 1).drop_last() =~= ls.take(i as int));
                assert(ls[i as int] == lines@[i as int]@);
            }
            match Self::parse_diagnostic_line(lines[i].as_str()) {
                Some(d) => {
                    let ghost before = res@;
                    res.push(d);
                    proof {
                        assert(diagnostics_view(res@) =~= diagnostics_view(before).push(d@));
                    }
                },
                None => {},
            }
            i = i + 1;
        }
        proof {
            assert(ls.take(lines@.len() as int) =~= ls);
        }
        res
    }

    /// Reads the lemma fields of a message; `None` where one is missing or malformed.
    pub fn parse_lemma(message: &JsonValue) -> (r: Option<Lemma>)
        ensures
            r matches Some(l) ==> lemma_fields_of(*message) == Some(l@),
            r is None <==> lemma_fields_of(*message) is None,
    {
        let name = match str_member(message, "lemma_name") {
            Some(s) => s,
            None => return None,
        };
        let file_name = match str_member(message, "file_name") {
            Some(s) => s,
            None => return None,
        };
        let start_line = match message.get("start_line") {
            Some(v) => match v.as_i64() {
                Some(i) => i,
                None => return None,
            },
            None => return None,
        };
        let end_line = match message.get("end_line") {
            Some(v) => match v.as_i64() {
                Some(i) => i,
                None => return None,
            },
            None => return None,
        };
        let start_col = match message.get("start_col") {
            Some(v) => match v.as_i64() {
                Some(i) => i,
                None => return None,
            },
            None => return None,
        };
        let end_col = match message.get("end_col") {
            Some(v) => match v.as_i64() {
                Some(i) => i,
                None => return None,
            },
            None => return None,
        };
        Some(Lemma { name, file_name, start_line, start_col, end_line, end_col })
    }

    /// Reads one line of lemma output; `None` for any line that carries no lemma.
    pub fn parse_lemma_line(line: &str) -> (r: Option<Lemma>)
        ensures
            r matches Some(l) ==> line_lemma(line@) == Some(l@),
            r is None <==> line_lemma(line@) is None,
    {
        let j = match parse_json(line) {
            Some(j) => j,
            None => return None,
        };
        if !compiler_message_reason(&j) {
            return None;
        }
        match j.get("message") {
            Some(m) => Self::parse_lemma(m),
            None => None,
        }
    }

    /// The lemmas that the verifier's output carries, in the order of its lines.
    pub fn parse_flux_lemmas(output: &str) -> (r: Vec<Lemma>)
        ensures
            lemmas_view(r@) == lemmas_of(lines_of(output@)),
    {
        let lines = split_lines(output);
        let ghost ls = lines_of(output@);
        let mut res: Vec<Lemma> = Vec::new();
        let mut i: usize = 0;
        while i < lines.len()
            invariant
                i <= lines@.len(),
                lines@.map_values(|l: String| l@) == ls,
                lemmas_view(res@) == lemmas_of(ls.take(i as int)),
            decreases lines@.len() - i,
        {
            proof {
                assert(ls.take(i + 1).drop_last() =~= ls.take(i as int));
                assert(ls[i as int] == lines@[i as int]@);
            }
            match Self::parse_lemma_line(lines[i].as_str()) {
                Some(l) => {
                    let ghost before = res@;
                    res.push(l);
                    proof {
                        assert(lemmas_view(res@) =~= lemmas_view(before).push(l@));
                    }
                },
                None => {},
            }
            i = i + 1;
        }
        proof {
            assert(ls.take(lines@.len() as int) =~= ls);
        }
        res
    }
}

} // verus!
