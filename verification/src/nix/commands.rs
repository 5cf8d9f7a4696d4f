//! The command lines of Nix's programs, and what their output says.

use vstd::prelude::*;

use crate::chunks;
use crate::chunks::piece_end;
use crate::collections::StrMap;
use crate::error;
use crate::error::Error;
use crate::nix;
use crate::nix::{store_paths, store_paths_to_strings, StorePath};
use crate::proto::OutputMode;
use crate::text;
use crate::text::{
    chars_of, concat2, concat3, concat4, concat5, contains_str, decimal_string, lines_of,
    lowered_chars, push_text, push_texts, trim_text,
};
use vstd::slice::slice_subrange;

verus! {

/// The most store paths that one command line carries.
pub const PATH_ARG_CHUNK_SIZE: usize = 512;

// ---------------------------------------------------------------------------
// Evaluation
// ---------------------------------------------------------------------------

/// How the client evaluates what it wants built.
pub struct EvalOptions {
    pub impure: bool,
    pub refresh: bool,
    pub override_inputs: Vec<OverrideInput>,
}

/// A flake input that is replaced for an evaluation.
pub struct OverrideInput {
    pub input_path: String,
    pub flake_url: String,
}

impl Default for EvalOptions {
    fn default() -> (r: Self)
        ensures
            !r.impure,
            !r.refresh,
            r.override_inputs@.len() == 0,
    {
        EvalOptions { impure: false, refresh: false, override_inputs: Vec::new() }
    }
}

/// The arguments that replace flake inputs.
pub open spec fn override_args(inputs: Seq<OverrideInput>) -> Seq<Seq<char>>
    decreases inputs.len(),
{
    if inputs.len() == 0 {
        Seq::empty()
    } else {
        override_args(inputs.drop_last()) + seq![
            "--override-input"@,
            inputs.last().input_path@,
            inputs.last().flake_url@,
        ]
    }
}

pub open spec fn flag(set: bool, name: Seq<char>) -> Seq<Seq<char>> {
    if set {
        seq![name]
    } else {
        Seq::empty()
    }
}

/// A command line that evaluates an installable: the command, the options,
/// and the installable last.
pub open spec fn eval_line(
    base: Seq<Seq<char>>,
    installable: Seq<char>,
    options: EvalOptions,
) -> Seq<Seq<char>> {
    base + flag(options.impure, "--impure"@) + flag(options.refresh, "--refresh"@) + override_args(
        options.override_inputs@,
    ) + seq![installable]
}

pub fn eval_args(base: &[&str], installable: &str, options: &EvalOptions) -> (r: Vec<String>)
    ensures
        text::texts(r@) == eval_line(text::str_texts(base@), installable@, *options),
{
    let mut args: Vec<String> = text::strings_of(base);
    let ghost mut so_far = text::texts(args@);
    if options.impure {
        push_text(&mut args, "--impure");
    }
    proof {
        assert(text::texts(args@) =~= so_far + flag(options.impure, "--impure"@));
        so_far = text::texts(args@);
    }
    if options.refresh {
        push_text(&mut args, "--refresh");
    }
    proof {
        assert(text::texts(args@) =~= so_far + flag(options.refresh, "--refresh"@));
        so_far = text::texts(args@);
    }
    let inputs: &Vec<OverrideInput> = &options.override_inputs;
    let mut i: usize = 0;
    assert(inputs@.take(0).len() == 0);
    assert(so_far + override_args(inputs@.take(0)) =~= so_far);
    while i < inputs.len()
        invariant
            i <= inputs@.len(),
            text::texts(args@) == so_far + override_args(inputs@.take(i as int)),
        decreases inputs@.len() - i,
    {
        push_text(&mut args, "--override-input");
        push_text(&mut args, inputs[i].input_path.as_str());
        push_text(&mut args, inputs[i].flake_url.as_str());
        proof {
            let longer = inputs@.take(i + 1);
            assert(longer.drop_last() =~= inputs@.take(i as int));
            assert(text::texts(args@) =~= so_far + override_args(longer));
        }
        i = i + 1;
    }
    assert(inputs@.take(i as int) =~= inputs@);
    let ghost before_last = text::texts(args@);
    push_text(&mut args, installable);
    assert(text::texts(args@) =~= before_last + seq![installable@]);
    args
}

/// Pairs of arguments as inputs to override.
pub open spec fn override_pairs(list: Seq<Seq<char>>) -> Seq<(Seq<char>, Seq<char>)> {
    Seq::new((list.len() / 2) as nat, |i: int| (list[2 * i], list[2 * i + 1]))
}

pub open spec fn input_views(inputs: Seq<OverrideInput>) -> Seq<(Seq<char>, Seq<char>)> {
    Seq::new(inputs.len(), |i: int| (inputs[i].input_path@, inputs[i].flake_url@))
}

/// The evaluation options of a command line, whose `--override-input` values
/// come in pairs.
pub fn eval_options(impure: bool, refresh: bool, override_input: &[String]) -> (r: Result<
    EvalOptions,
    Error,
>)
    ensures
        match r {
            Ok(options) => {
                &&& override_input@.len() % 2 == 0
                &&& options.impure == impure
                &&& options.refresh == refresh
                &&& input_views(options.override_inputs@) == override_pairs(
                    text::texts(override_input@),
                )
            },
            Err(e) => {
                &&& override_input@.len() % 2 != 0
                &&& e@ == seq!["--override-input requires INPUT_PATH and FLAKE_URL"@]
            },
        },
{
    if override_input.len() % 2 != 0 {
        return Err(Error::of("--override-input requires INPUT_PATH and FLAKE_URL"));
    }
    let mut inputs: Vec<OverrideInput> = Vec::new();
    let mut i: usize = 0;
    while i < override_input.len()
        invariant
            i <= override_input@.len(),
            i % 2 == 0,
            override_input@.len() % 2 == 0,
            inputs@.len() == i / 2,
            forall|j: int|
                0 <= j < inputs@.len() ==> (#[trigger] inputs@[j]).input_path@ == override_input@[2
                    * j]@ && inputs@[j].flake_url@ == override_input@[2 * j + 1]@,
        decreases override_input@.len() - i,
    {
        inputs.push(
            OverrideInput {
                input_path: override_input[i].clone(),
                flake_url: override_input[i + 1].clone(),
            },
        );
        i = i + 2;
    }
    assert(input_views(inputs@) =~= override_pairs(text::texts(override_input@)));
    Ok(EvalOptions { impure, refresh, override_inputs: inputs })
}

// ---------------------------------------------------------------------------
// Builds
// ---------------------------------------------------------------------------

/// What realising a derivation came to.
pub struct RealiseResult {
    pub success: bool,
    pub output_paths: Vec<StorePath>,
}

/// The arguments that realise a derivation: with a check of the earlier result
/// where it is rebuilt, and with the log in the client's format.
pub open spec fn realise_line(output_mode: OutputMode, rebuild: bool) -> Seq<Seq<char>> {
    seq!["--realise"@] + flag(rebuild, "--check"@) + seq![
        "--log-format"@,
        match output_mode {
            OutputMode::Nom => "internal-json"@,
            OutputMode::Plain => "raw"@,
        },
        "-v"@,
    ]
}

pub fn realise_args(output_mode: OutputMode, rebuild: bool) -> (r: Vec<String>)
    ensures
        text::texts(r@) == realise_line(output_mode, rebuild),
{
    let mut args: Vec<String> = Vec::new();
    assert(text::texts(args@) =~= Seq::<Seq<char>>::empty());
    push_text(&mut args, "--realise");
    if rebuild {
        push_text(&mut args, "--check");
    }
    push_text(&mut args, "--log-format");
    match output_mode {
        OutputMode::Nom => push_text(&mut args, "internal-json"),
        OutputMode::Plain => push_text(&mut args, "raw"),
    }
    push_text(&mut args, "-v");
    assert(text::texts(args@) =~= realise_line(output_mode, rebuild));
    args
}

/// The arguments that ask for the outputs of a derivation.
pub fn outputs_args(path: &StorePath) -> (r: Vec<String>)
    ensures
        text::texts(r@) == seq!["-q"@, "--outputs"@, path@],
{
    let args: Vec<String> = text::strings_of(&["-q", "--outputs", path.as_str()]);
    assert(text::texts(args@) =~= seq!["-q"@, "--outputs"@, path@]);
    args
}

/// One entry of a build plan: the store path of each output, by its name.
pub struct BuildPlanEntry {
    pub outputs: StrMap<String>,
}

/// The values of a map in the order of its keys.
pub open spec fn values_in_order(map: StrMap<String>) -> Seq<Seq<char>> {
    Seq::new(map.keys().len(), |i: int| map@[map.keys()[i]]@)
}

/// The outputs that a build plan names: there must be one entry, and its
/// outputs must be store paths.
pub open spec fn plan_outputs(plan: Seq<BuildPlanEntry>) -> Result<
    Seq<Seq<char>>,
    Seq<Seq<char>>,
> {
    if plan.len() != 1 {
        Err(seq!["expected one build plan entry, got "@ + text::decimal(plan.len())])
    } else {
        nix::checked_store_paths(values_in_order(plan[0].outputs))
    }
}

pub fn build_plan_outputs(plan: &[BuildPlanEntry]) -> (r: Result<Vec<StorePath>, Error>)
    ensures
        nix::paths_outcome(r) == plan_outputs(plan@),
{
    if plan.len() != 1 {
        return Err(
            Error::new(
                concat2(
                    "expected one build plan entry, got ",
                    decimal_string(plan.len() as u64).as_str(),
                ),
            ),
        );
    }
    let outputs: &StrMap<String> = &plan[0].outputs;
    let mut values: Vec<String> = Vec::new();
    let mut i: usize = 0;
    assert(text::texts(values@) =~= values_in_order(*outputs).take(0));
    while i < outputs.len()
        invariant
            i <= outputs.keys().len(),
            text::texts(values@) == values_in_order(*outputs).take(i as int),
        decreases outputs.keys().len() - i,
    {
        push_text(&mut values, outputs.value_at(i).as_str());
        assert(text::texts(values@) =~= values_in_order(*outputs).take(i + 1));
        i = i + 1;
    }
    assert(values_in_order(*outputs).take(i as int) =~= values_in_order(*outputs));
    store_paths(values.as_slice())
}

// ---------------------------------------------------------------------------
// Output of programs
// ---------------------------------------------------------------------------

/// The lines of an output that say something, without the white space around
/// them.
pub open spec fn said_lines(lines: Seq<Seq<char>>) -> Seq<Seq<char>>
    decreases lines.len(),
{
    if lines.len() == 0 {
        Seq::empty()
    } else {
        let earlier = said_lines(lines.drop_last());
        let line = text::trim(lines.last());
        if line.len() > 0 {
            earlier.push(line)
        } else {
            earlier
        }
    }
}

/// A line without the white space around it, where something is left.
pub fn non_empty_line(line: &str) -> (r: Option<String>)
    ensures
        text::optional_text(r) == (if text::trim(line@).len() > 0 {
            Some(text::trim(line@))
        } else {
            None
        }),
{
    let trimmed: String = trim_text(line);
    let chars: Vec<char> = chars_of(trimmed.as_str());
    if chars.len() > 0 {
        Some(trimmed)
    } else {
        None
    }
}

pub fn non_empty_lines(output: &str) -> (r: Vec<String>)
    ensures
        text::texts(r@) == said_lines(text::lines(output@)),
{
    let chars: Vec<char> = chars_of(output);
    let lines: Vec<String> = lines_of(chars.as_slice());
    let ghost all = text::lines(output@);
    let mut out: Vec<String> = Vec::new();
    let mut i: usize = 0;
    assert(all.take(0).len() == 0);
    assert(text::texts(out@) =~= said_lines(all.take(0)));
    while i < lines.len()
        invariant
            i <= lines@.len(),
            text::texts(lines@) == all,
            text::texts(out@) == said_lines(all.take(i as int)),
        decreases lines@.len() - i,
    {
        proof {
            assert(all.take(i + 1).drop_last() =~= all.take(i as int));
            assert(all.take(i + 1).last() == lines@[i as int]@);
        }
        match non_empty_line(lines[i].as_str()) {
            Some(line) => push_text(&mut out, line.as_str()),
            None => {},
        }
        i = i + 1;
    }
    assert(all.take(i as int) =~= all);
    out
}

/// What a program that was run came to: its output as text, or the error that
/// it wrote.
pub open spec fn program_output(
    program: Seq<char>,
    success: bool,
    stdout: Seq<u8>,
    stderr: Seq<char>,
) -> Result<Seq<char>, Seq<Seq<char>>> {
    if !success {
        Err(seq![program + " failed: "@ + text::trim(stderr)])
    } else if vstd::utf8::valid_utf8(stdout) {
        Ok(vstd::utf8::decode_utf8(stdout))
    } else {
        Err(seq!["command output was not UTF-8"@, text::utf8_error_of(stdout)])
    }
}

pub fn command_text(program: &str, success: bool, stdout: &[u8], stderr: &str) -> (r: Result<
    String,
    Error,
>)
    ensures
        error::text_outcome(r) == program_output(program@, success, stdout@, stderr@),
{
    if !success {
        return Err(Error::new(concat3(program, " failed: ", trim_text(stderr).as_str())));
    }
    match text::text_of_utf8(stdout) {
        Ok(output) => Ok(output),
        Err(why) => Err(Error::caused("command output was not UTF-8".to_string(), why)),
    }
}

/// What a `nix` command that was run came to.
pub open spec fn nix_command_result(
    purpose: Seq<char>,
    success: bool,
    status: Seq<char>,
    stderr: Seq<char>,
) -> Result<(), Seq<Seq<char>>> {
    if success {
        Ok(())
    } else if text::trim(stderr).len() == 0 {
        Err(seq![purpose + " failed with "@ + status])
    } else {
        Err(seq![purpose + " failed: "@ + text::trim(stderr)])
    }
}

pub fn nix_command_outcome(purpose: &str, success: bool, status: &str, stderr: &str) -> (r: Result<
    (),
    Error,
>)
    ensures
        error::outcome(r) == nix_command_result(purpose@, success, status@, stderr@),
{
    if success {
        return Ok(());
    }
    match non_empty_line(stderr) {
        None => Err(Error::new(concat3(purpose, " failed with ", status))),
        Some(said) => Err(Error::new(concat3(purpose, " failed: ", said.as_str()))),
    }
}

/// The derivation that an evaluation printed: its first line that says
/// something.
pub open spec fn printed_derivation(output: Seq<char>) -> Result<Seq<char>, Seq<Seq<char>>> {
    let said = said_lines(text::lines(output));
    if said.len() == 0 {
        Err(seq!["nix did not return a derivation path"@])
    } else {
        nix::checked_store_path(said[0])
    }
}

pub fn parse_derivation(output: &str) -> (r: Result<StorePath, Error>)
    ensures
        nix::path_outcome(r) == printed_derivation(output@),
{
    let said: Vec<String> = non_empty_lines(output);
    assert(text::texts(said@).len() == said@.len());
    if said.len() == 0 {
        return Err(Error::of("nix did not return a derivation path"));
    }
    StorePath::new(said[0].as_str())
}

/// The store paths that a program printed, one on a line.
pub fn parse_store_paths(output: &str) -> (r: Result<Vec<StorePath>, Error>)
    ensures
        nix::paths_outcome(r) == nix::checked_store_paths(said_lines(text::lines(output@))),
{
    let said: Vec<String> = non_empty_lines(output);
    store_paths(said.as_slice())
}

/// A list without its repetitions: each text where it stands first.
pub open spec fn distinct(list: Seq<Seq<char>>) -> Seq<Seq<char>>
    decreases list.len(),
{
    if list.len() == 0 {
        Seq::empty()
    } else {
        let earlier = distinct(list.drop_last());
        if earlier.contains(list.last()) {
            earlier
        } else {
            earlier.push(list.last())
        }
    }
}

/// A list without repetitions holds each text once, and just the texts of the
/// list.
pub proof fn law_distinct(list: Seq<Seq<char>>)
    ensures
        distinct(list).no_duplicates(),
        distinct(list).to_set() == list.to_set(),
        list.no_duplicates() ==> distinct(list) == list,
    decreases list.len(),
{
    if list.len() > 0 {
        let shorter = list.drop_last();
        let earlier = distinct(shorter);
        law_distinct(shorter);
        assert forall|t: Seq<char>| distinct(list).contains(t) == list.contains(t) by {
            assert(earlier.contains(t) == earlier.to_set().contains(t));
            assert(shorter.contains(t) == shorter.to_set().contains(t));
            if list.contains(t) {
                let i = choose|i: int| 0 <= i < list.len() && list[i] == t;
                if i < shorter.len() {
                    assert(shorter[i] == t);
                }
            }
            if shorter.contains(t) {
                let i = choose|i: int| 0 <= i < shorter.len() && shorter[i] == t;
                assert(list[i] == t);
            }
            assert(list[list.len() - 1] == list.last());
            let pushed = earlier.push(list.last());
            assert(pushed[pushed.len() - 1] == list.last());
            if earlier.contains(t) {
                let i = choose|i: int| 0 <= i < earlier.len() && earlier[i] == t;
                assert(pushed[i] == t);
            }
            if pushed.contains(t) {
                let i = choose|i: int| 0 <= i < pushed.len() && pushed[i] == t;
                if i < earlier.len() {
                    assert(earlier[i] == t);
                }
            }
        }
        assert(distinct(list).to_set() =~= list.to_set());
        if list.no_duplicates() {
            assert(shorter.no_duplicates());
            assert(earlier == shorter);
            if earlier.contains(list.last()) {
                let i = choose|i: int| 0 <= i < shorter.len() && shorter[i] == list.last();
                assert(list[i] == list[list.len() - 1]);
            }
            assert(shorter.push(list.last()) =~= list);
        }
    } else {
        assert(distinct(list) =~= list);
    }
}

/// The closure that `nix-store -qR` printed, without repetitions.
pub open spec fn printed_closure(output: Seq<char>) -> Result<Seq<Seq<char>>, Seq<Seq<char>>> {
    match nix::checked_store_paths(said_lines(text::lines(output))) {
        Ok(list) => Ok(distinct(list)),
        Err(e) => Err(e),
    }
}

pub fn distinct_paths(list: &[StorePath]) -> (r: Vec<StorePath>)
    ensures
        nix::path_texts(r@) == distinct(nix::path_texts(list@)),
{
    let ghost all = nix::path_texts(list@);
    let mut out: Vec<StorePath> = Vec::new();
    let mut i: usize = 0;
    assert(all.take(0).len() == 0);
    assert(nix::path_texts(out@) =~= distinct(all.take(0)));
    while i < list.len()
        invariant
            i <= list.len(),
            all == nix::path_texts(list@),
            nix::path_texts(out@) == distinct(all.take(i as int)),
        decreases list.len() - i,
    {
        let ghost earlier = nix::path_texts(out@);
        proof {
            assert(all.take(i + 1).drop_last() =~= all.take(i as int));
            assert(all.take(i + 1).last() == list@[i as int]@);
        }
        if !nix::contains_path(out.as_slice(), &list[i]) {
            out.push(list[i].clone());
            assert(nix::path_texts(out@) =~= earlier.push(list@[i as int]@));
        }
        i = i + 1;
    }
    assert(all.take(i as int) =~= all);
    out
}

pub fn parse_closure(output: &str) -> (r: Result<Vec<StorePath>, Error>)
    ensures
        nix::paths_outcome(r) == printed_closure(output@),
{
    match parse_store_paths(output) {
        Ok(list) => {
            proof {
                nix::law_store_path_lists_are_accepted(said_lines(text::lines(output@)));
            }
            Ok(distinct_paths(list.as_slice()))
        },
        Err(e) => Err(e),
    }
}

/// The arguments that ask for the closure of some paths. Of no paths nothing
/// is asked.
pub open spec fn closure_line(paths: Seq<Seq<char>>) -> Option<Seq<Seq<char>>> {
    if paths.len() == 0 {
        None
    } else {
        Some(seq!["-qR"@] + paths)
    }
}

pub open spec fn optional_texts(r: Option<Vec<String>>) -> Option<Seq<Seq<char>>> {
    match r {
        Some(list) => Some(text::texts(list@)),
        None => None,
    }
}

pub fn closure_args(paths: &[StorePath]) -> (r: Option<Vec<String>>)
    ensures
        optional_texts(r) == closure_line(nix::path_texts(paths@)),
{
    if paths.len() == 0 {
        return None;
    }
    Some(args_with_paths(&["-qR"], paths))
}

/// A command line that ends in store paths.
pub fn args_with_paths(base: &[&str], paths: &[StorePath]) -> (r: Vec<String>)
    ensures
        text::texts(r@) == text::str_texts(base@) + nix::path_texts(paths@),
{
    let mut args: Vec<String> = text::strings_of(base);
    let list: Vec<String> = store_paths_to_strings(paths);
    push_texts(&mut args, list.as_slice());
    args
}

// ---------------------------------------------------------------------------
// Missing paths
// ---------------------------------------------------------------------------

/// One command line for each piece of a list of paths.
pub open spec fn lines_with_pieces(base: Seq<Seq<char>>, pieces: Seq<Seq<Seq<char>>>) -> Seq<
    Seq<Seq<char>>,
> {
    Seq::new(pieces.len(), |i: int| base + pieces[i])
}

pub open spec fn line_views(lines: Seq<Vec<String>>) -> Seq<Seq<Seq<char>>> {
    Seq::new(lines.len(), |i: int| text::texts(lines[i]@))
}

/// A piece of a list of paths, as texts.
proof fn lemma_path_texts_subrange(paths: Seq<StorePath>, from: int, to: int)
    requires
        0 <= from <= to <= paths.len(),
    ensures
        nix::path_texts(paths.subrange(from, to)) == nix::path_texts(paths).subrange(from, to),
{
    assert(nix::path_texts(paths.subrange(from, to)) =~= nix::path_texts(paths).subrange(from, to));
}

/// The command lines that carry a list of paths, piece by piece.
pub fn chunked_args(base: &[&str], paths: &[StorePath]) -> (r: Vec<Vec<String>>)
    ensures
        line_views(r@) == lines_with_pieces(
            text::str_texts(base@),
            chunks::pieces(nix::path_texts(paths@), PATH_ARG_CHUNK_SIZE as int),
        ),
{
    let ghost first = text::str_texts(base@);
    let ghost all = nix::path_texts(paths@);
    let ghost cut = chunks::pieces(all, PATH_ARG_CHUNK_SIZE as int);
    let mut out: Vec<Vec<String>> = Vec::new();
    let mut from: usize = 0;
    assert(all.skip(0) =~= all);
    assert(cut.take(0) + chunks::pieces(all.skip(0), PATH_ARG_CHUNK_SIZE as int) =~= cut);
    assert(line_views(out@) =~= lines_with_pieces(first, cut.take(0)));
    while from < paths.len()
        invariant
            from <= paths@.len(),
            all == nix::path_texts(paths@),
            first == text::str_texts(base@),
            cut == chunks::pieces(all, PATH_ARG_CHUNK_SIZE as int),
            out@.len() <= cut.len(),
            cut.take(out@.len() as int) + chunks::pieces(
                all.skip(from as int),
                PATH_ARG_CHUNK_SIZE as int,
            ) == cut,
            line_views(out@) == lines_with_pieces(first, cut.take(out@.len() as int)),
        decreases paths@.len() - from,
    {
        let to: usize = piece_end(paths.len(), from, PATH_ARG_CHUNK_SIZE);
        let piece: &[StorePath] = slice_subrange(paths, from, to);
        let ghost n = out@.len() as int;
        let ghost rest = chunks::pieces(all.skip(to as int), PATH_ARG_CHUNK_SIZE as int);
        proof {
            chunks::lemma_next_piece(all, PATH_ARG_CHUNK_SIZE as int, from as int, to as int);
            lemma_path_texts_subrange(paths@, from as int, to as int);
            let now = all.subrange(from as int, to as int);
            assert(cut.take(n) + (seq![now] + rest) =~= cut);
            assert((cut.take(n) + (seq![now] + rest))[n] == now);
            assert(cut.take(n + 1) =~= cut.take(n).push(now));
            assert(cut.take(n + 1) + rest =~= cut);
        }
        let ghost earlier = line_views(out@);
        let line: Vec<String> = args_with_paths(base, piece);
        let ghost line_text = text::texts(line@);
        out.push(line);
        proof {
            assert(line_views(out@) =~= earlier.push(line_text));
            assert(line_views(out@) =~= lines_with_pieces(first, cut.take(n + 1)));
        }
        from = to;
    }
    proof {
        assert(all.skip(from as int) =~= Seq::<Seq<char>>::empty());
        assert(cut.take(out@.len() as int) =~= cut);
    }
    out
}

pub open spec fn missing_base() -> Seq<Seq<char>> {
    seq!["--check-validity"@, "--print-invalid"@]
}

/// The command lines that ask which paths the store lacks.
pub fn missing_paths_queries(paths: &[StorePath]) -> (r: Vec<Vec<String>>)
    ensures
        line_views(r@) == lines_with_pieces(
            missing_base(),
            chunks::pieces(nix::path_texts(paths@), PATH_ARG_CHUNK_SIZE as int),
        ),
{
    let base: [&str; 2] = ["--check-validity", "--print-invalid"];
    assert(text::str_texts(base@) =~= missing_base());
    chunked_args(&base, paths)
}

/// The paths that the queries printed, in the order in which they did.
pub open spec fn printed_missing(outputs: Seq<Seq<char>>) -> Result<
    Seq<Seq<char>>,
    Seq<Seq<char>>,
>
    decreases outputs.len(),
{
    if outputs.len() == 0 {
        Ok(Seq::empty())
    } else {
        match printed_missing(outputs.drop_last()) {
            Err(e) => Err(e),
            Ok(earlier) => match nix::checked_store_paths(
                said_lines(text::lines(outputs.last())),
            ) {
                Err(e) => Err(e),
                Ok(list) => Ok(earlier + list),
            },
        }
    }
}

/// The members of a list that are in another one, in the order of the list.
pub open spec fn kept(list: Seq<Seq<char>>, keep: Seq<Seq<char>>) -> Seq<Seq<char>>
    decreases list.len(),
{
    if list.len() == 0 {
        Seq::empty()
    } else {
        let earlier = kept(list.drop_last(), keep);
        if keep.contains(list.last()) {
            earlier.push(list.last())
        } else {
            earlier
        }
    }
}

/// The paths of a list that the store lacks, as its answers say.
pub open spec fn missing_of(paths: Seq<Seq<char>>, outputs: Seq<Seq<char>>) -> Result<
    Seq<Seq<char>>,
    Seq<Seq<char>>,
> {
    match printed_missing(outputs) {
        Ok(missing) => Ok(kept(paths, missing)),
        Err(e) => Err(e),
    }
}

fn append_paths(list: &mut Vec<StorePath>, more: &[StorePath])
    ensures
        nix::path_texts(final(list)@) == nix::path_texts(old(list)@) + nix::path_texts(more@),
{
    let ghost earlier = nix::path_texts(list@);
    let mut i: usize = 0;
    assert(earlier + nix::path_texts(more@).take(0) =~= earlier);
    while i < more.len()
        invariant
            i <= more.len(),
            nix::path_texts(list@) == earlier + nix::path_texts(more@).take(i as int),
        decreases more.len() - i,
    {
        let ghost so_far = nix::path_texts(list@);
        list.push(more[i].clone());
        assert(nix::path_texts(list@) =~= so_far.push(more@[i as int]@));
        assert(nix::path_texts(list@) =~= earlier + nix::path_texts(more@).take(i + 1));
        i = i + 1;
    }
    assert(nix::path_texts(more@).take(i as int) =~= nix::path_texts(more@));
}

/// The paths of a list that the store lacks, from what the queries printed.
pub fn missing_paths(paths: &[StorePath], outputs: &[String]) -> (r: Result<Vec<StorePath>, Error>)
    ensures
        nix::paths_outcome(r) == missing_of(nix::path_texts(paths@), text::texts(outputs@)),
{
    let ghost said = text::texts(outputs@);
    let mut missing: Vec<StorePath> = Vec::new();
    let mut i: usize = 0;
    assert(said.take(0).len() == 0);
    assert(nix::path_texts(missing@) =~= Seq::<Seq<char>>::empty());
    while i < outputs.len()
        invariant
            i <= outputs.len(),
            said == text::texts(outputs@),
            printed_missing(said.take(i as int)) == Ok::<Seq<Seq<char>>, Seq<Seq<char>>>(
                nix::path_texts(missing@),
            ),
        decreases outputs.len() - i,
    {
        proof {
            assert(said.take(i + 1).drop_last() =~= said.take(i as int));
            assert(said.take(i + 1).last() == outputs@[i as int]@);
        }
        match parse_store_paths(outputs[i].as_str()) {
            Ok(list) => append_paths(&mut missing, list.as_slice()),
            Err(e) => {
                proof {
                    lemma_printed_missing_fails(said, i + 1);
                }
                return Err(e);
            },
        }
        i = i + 1;
    }
    assert(said.take(i as int) =~= said);
    Ok(keep_paths(paths, missing.as_slice()))
}

/// An answer that cannot be read fails the whole query.
proof fn lemma_printed_missing_fails(outputs: Seq<Seq<char>>, n: int)
    requires
        0 <= n <= outputs.len(),
        printed_missing(outputs.take(n)) is Err,
    ensures
        printed_missing(outputs) == printed_missing(outputs.take(n)),
    decreases outputs.len() - n,
{
    if n < outputs.len() {
        assert(outputs.take(n + 1).drop_last() =~= outputs.take(n));
        lemma_printed_missing_fails(outputs, n + 1);
    } else {
        assert(outputs.take(n) =~= outputs);
    }
}

fn keep_paths(paths: &[StorePath], keep: &[StorePath]) -> (r: Vec<StorePath>)
    ensures
        nix::path_texts(r@) == kept(nix::path_texts(paths@), nix::path_texts(keep@)),
{
    let ghost all = nix::path_texts(paths@);
    let mut out: Vec<StorePath> = Vec::new();
    let mut i: usize = 0;
    assert(all.take(0).len() == 0);
    assert(nix::path_texts(out@) =~= kept(all.take(0), nix::path_texts(keep@)));
    while i < paths.len()
        invariant
            i <= paths.len(),
            all == nix::path_texts(paths@),
            nix::path_texts(out@) == kept(all.take(i as int), nix::path_texts(keep@)),
        decreases paths.len() - i,
    {
        let ghost earlier = nix::path_texts(out@);
        proof {
            assert(all.take(i + 1).drop_last() =~= all.take(i as int));
            assert(all.take(i + 1).last() == paths@[i as int]@);
        }
        if nix::contains_path(keep, &paths[i]) {
            out.push(paths[i].clone());
            assert(nix::path_texts(out@) =~= earlier.push(paths@[i as int]@));
        }
        i = i + 1;
    }
    assert(all.take(i as int) =~= all);
    out
}

/// What is kept of a list are its members that are to be kept, and nothing is
/// lost where all of them are.
pub proof fn law_kept(list: Seq<Seq<char>>, keep: Seq<Seq<char>>)
    ensures
        forall|t: Seq<char>|
            kept(list, keep).contains(t) == (list.contains(t) && keep.contains(t)),
        (forall|i: int| 0 <= i < list.len() ==> keep.contains(#[trigger] list[i])) ==> kept(
            list,
            keep,
        ) == list,
    decreases list.len(),
{
    if list.len() > 0 {
        let shorter = list.drop_last();
        let earlier = kept(shorter, keep);
        law_kept(shorter, keep);
        let pushed = earlier.push(list.last());
        assert forall|t: Seq<char>|
            kept(list, keep).contains(t) == (list.contains(t) && keep.contains(t)) by {
            if list.contains(t) {
                let i = choose|i: int| 0 <= i < list.len() && list[i] == t;
                if i < shorter.len() {
                    assert(shorter[i] == t);
                }
            }
            if shorter.contains(t) {
                let i = choose|i: int| 0 <= i < shorter.len() && shorter[i] == t;
                assert(list[i] == t);
            }
            assert(list[list.len() - 1] == list.last());
            assert(pushed[pushed.len() - 1] == list.last());
            if earlier.contains(t) {
                let i = choose|i: int| 0 <= i < earlier.len() && earlier[i] == t;
                assert(pushed[i] == t);
            }
            if pushed.contains(t) {
                let i = choose|i: int| 0 <= i < pushed.len() && pushed[i] == t;
                if i < earlier.len() {
                    assert(earlier[i] == t);
                }
            }
        }
        if forall|i: int| 0 <= i < list.len() ==> keep.contains(#[trigger] list[i]) {
            assert forall|i: int| 0 <= i < shorter.len() implies keep.contains(
                #[trigger] shorter[i],
            ) by {
                assert(shorter[i] == list[i]);
            }
            assert(keep.contains(list[list.len() - 1]));
            assert(shorter.push(list.last()) =~= list);
        }
    } else {
        assert(kept(list, keep) =~= list);
    }
}

// ---------------------------------------------------------------------------
// Copies between stores and caches
// ---------------------------------------------------------------------------

/// The URL of a binary cache in a directory, which is signed where there is a
/// key for it.
pub open spec fn file_url(cache_dir: Seq<char>, secret_key: Option<Seq<char>>) -> Seq<char> {
    match secret_key {
        Some(key) => "file://"@ + cache_dir + "?secret-key="@ + key
            + "&compression=zstd&compression-level=1"@,
        None => "file://"@ + cache_dir,
    }
}

pub open spec fn optional_str(value: Option<&str>) -> Option<Seq<char>> {
    match value {
        Some(s) => Some(s@),
        None => None,
    }
}

pub fn file_cache_url(cache_dir: &str, secret_key: Option<&str>) -> (r: String)
    ensures
        r@ == file_url(cache_dir@, optional_str(secret_key)),
{
    match secret_key {
        Some(key) => concat5(
            "file://",
            cache_dir,
            "?secret-key=",
            key,
            "&compression=zstd&compression-level=1",
        ),
        None => concat2("file://", cache_dir),
    }
}

/// The command lines that copy paths to a signed binary cache.
pub open spec fn copy_to_lines(
    paths: Seq<Seq<char>>,
    cache_dir: Seq<char>,
    secret_key: Seq<char>,
) -> Seq<Seq<Seq<char>>> {
    lines_with_pieces(
        seq!["copy"@, "--to"@, file_url(cache_dir, Some(secret_key))],
        chunks::pieces(paths, PATH_ARG_CHUNK_SIZE as int),
    )
}

pub fn copy_to_cache_args(paths: &[StorePath], cache_dir: &str, secret_key: &str) -> (r: Vec<
    Vec<String>,
>)
    ensures
        line_views(r@) == copy_to_lines(nix::path_texts(paths@), cache_dir@, secret_key@),
        line_views(r@) == lines_with_pieces(
            seq!["copy"@, "--to"@, file_url(cache_dir@, Some(secret_key@))],
            chunks::pieces(nix::path_texts(paths@), PATH_ARG_CHUNK_SIZE as int),
        ),
{
    let url: String = file_cache_url(cache_dir, Some(secret_key));
    let base: [&str; 3] = ["copy", "--to", url.as_str()];
    assert(text::str_texts(base@) =~= seq![
        "copy"@,
        "--to"@,
        file_url(cache_dir@, Some(secret_key@)),
    ]);
    chunked_args(&base, paths)
}

/// How an import from a signed cache is trusted.
#[derive(Debug, Clone, Copy, PartialEq, Eq, Structural)]
pub enum SignedCacheImportTrust {
    CanPassPublicKey,
    KeyAlreadyTrusted,
}

pub open spec fn copy_from_base(
    cache_url: Seq<char>,
    public_key: Seq<char>,
    trust: SignedCacheImportTrust,
) -> Seq<Seq<char>> {
    match trust {
        SignedCacheImportTrust::CanPassPublicKey => seq![
            "copy"@,
            "--from"@,
            cache_url,
            "--option"@,
            "require-sigs"@,
            "true"@,
            "--option"@,
            "trusted-public-keys"@,
            public_key,
        ],
        SignedCacheImportTrust::KeyAlreadyTrusted => seq!["copy"@, "--from"@, cache_url],
    }
}

/// The command lines that copy paths from a signed cache. No paths need none,
/// and an empty key is refused.
pub open spec fn copy_from_lines(
    cache_url: Seq<char>,
    public_key: Seq<char>,
    trust: SignedCacheImportTrust,
    paths: Seq<Seq<char>>,
) -> Result<Seq<Seq<Seq<char>>>, Seq<Seq<char>>> {
    if paths.len() == 0 {
        Ok(Seq::empty())
    } else if text::trim(public_key).len() == 0 {
        Err(seq!["trusted public key is empty"@])
    } else {
        Ok(
            lines_with_pieces(
                copy_from_base(cache_url, text::trim(public_key), trust),
                chunks::pieces(paths, PATH_ARG_CHUNK_SIZE as int),
            ),
        )
    }
}

pub open spec fn lines_outcome(r: Result<Vec<Vec<String>>, Error>) -> Result<
    Seq<Seq<Seq<char>>>,
    Seq<Seq<char>>,
> {
    match r {
        Ok(lines) => Ok(line_views(lines@)),
        Err(e) => Err(e@),
    }
}

/// Command lines that all begin with the same words, and say more.
pub open spec fn all_begin_with(lines: Seq<Seq<Seq<char>>>, words: Seq<Seq<char>>) -> bool {
    forall|i: int|
        0 <= i < lines.len() ==> (#[trigger] lines[i]).len() > words.len() && lines[i].take(
            words.len() as int,
        ) == words
}

pub fn copy_from_cache_args(
    cache_url: &str,
    public_key: &str,
    trust: SignedCacheImportTrust,
    paths: &[StorePath],
) -> (r: Result<Vec<Vec<String>>, Error>)
    ensures
        lines_outcome(r) == copy_from_lines(
            cache_url@,
            public_key@,
            trust,
            nix::path_texts(paths@),
        ),
        r matches Ok(lines) ==> all_begin_with(
            line_views(lines@),
            seq!["copy"@, "--from"@, cache_url@],
        ),
{
    proof {
        lemma_copies_begin(cache_url@, public_key@, trust, nix::path_texts(paths@));
    }
    if paths.len() == 0 {
        let none: Vec<Vec<String>> = Vec::new();
        assert(line_views(none@) =~= Seq::<Seq<Seq<char>>>::empty());
        return Ok(none);
    }
    let key: String = match non_empty_line(public_key) {
        Some(key) => key,
        None => {
            return Err(Error::of("trusted public key is empty"));
        },
    };
    match trust {
        SignedCacheImportTrust::CanPassPublicKey => {
            let base: [&str; 9] = [
                "copy",
                "--from",
                cache_url,
                "--option",
                "require-sigs",
                "true",
                "--option",
                "trusted-public-keys",
                key.as_str(),
            ];
            assert(text::str_texts(base@) =~= copy_from_base(cache_url@, key@, trust));
            Ok(chunked_args(&base, paths))
        },
        SignedCacheImportTrust::KeyAlreadyTrusted => {
            let base: [&str; 3] = ["copy", "--from", cache_url];
            assert(text::str_texts(base@) =~= copy_from_base(cache_url@, key@, trust));
            Ok(chunked_args(&base, paths))
        },
    }
}

/// Whether an error of Nix is about signatures or the trust in them.
pub open spec fn speaks_of_trust(message: Seq<char>) -> bool {
    let lowered = text::lowered(message);
    ||| text::contains_text(lowered, "signature"@)
    ||| text::contains_text(lowered, "trusted public"@)
    ||| text::contains_text(lowered, "trusted-public-keys"@)
    ||| text::contains_text(lowered, "trusted key"@)
    ||| text::contains_text(lowered, "public key"@)
}

pub fn is_signature_or_trust_error(message: &str) -> (r: bool)
    ensures
        r == speaks_of_trust(message@),
{
    let chars: Vec<char> = chars_of(message);
    let lowered: Vec<char> = lowered_chars(chars.as_slice());
    let s: &[char] = lowered.as_slice();
    contains_str(s, "signature") || contains_str(s, "trusted public") || contains_str(
        s,
        "trusted-public-keys",
    ) || contains_str(s, "trusted key") || contains_str(s, "public key")
}

/// The error of a copy from a cache, which names the signatures where they are
/// at fault.
pub open spec fn copy_from_fault(error: Seq<Seq<char>>) -> Seq<Seq<char>> {
    if speaks_of_trust(error[0]) {
        seq![
            "signed cache/public key import failed; Nix rejected cache signatures/trust: "@
                + error[0],
        ]
    } else {
        error
    }
}

pub fn copy_from_cache_error(error: Error) -> (r: Error)
    ensures
        r@ == copy_from_fault(error@),
{
    let message: String = error.message();
    if is_signature_or_trust_error(message.as_str()) {
        Error::new(
            concat2(
                "signed cache/public key import failed; Nix rejected cache signatures/trust: ",
                message.as_str(),
            ),
        )
    } else {
        error
    }
}

// ---------------------------------------------------------------------------
// Imports of uploaded paths
// ---------------------------------------------------------------------------

/// How many bytes of an upload are read at most: one more than are allowed, so
/// that an upload that is too long shows.
pub open spec fn read_limit(max_bytes: Option<u64>) -> Option<u64> {
    match max_bytes {
        Some(max) => Some((if max < u64::MAX { max + 1 } else { max as int }) as u64),
        None => None,
    }
}

pub fn upload_read_limit(max_bytes: Option<u64>) -> (limit: Option<u64>)
    ensures
        limit == read_limit(max_bytes),
{
    match max_bytes {
        Some(max) => Some(max.saturating_add(1)),
        None => None,
    }
}

pub open spec fn upload_fault(copied: u64, max_bytes: Option<u64>) -> Option<Seq<char>> {
    match max_bytes {
        Some(max) => if copied > max {
            Some("upload exceeded max bytes: "@ + text::decimal(copied as nat))
        } else {
            None
        },
        None => None,
    }
}

/// Refuses an upload that had more bytes than allowed.
fn check_upload_size(copied: u64, max_bytes: Option<u64>) -> (r: Result<(), Error>)
    ensures
        match r {
            Ok(()) => upload_fault(copied, max_bytes) is None,
            Err(e) => upload_fault(copied, max_bytes) matches Some(fault) && e@ == seq![fault],
        },
{
    match max_bytes {
        Some(max) => {
            if copied > max {
                return Err(
                    Error::new(
                        concat2("upload exceeded max bytes: ", decimal_string(copied).as_str()),
                    ),
                );
            }
        },
        None => {},
    }
    Ok(())
}

/// The error of an upload that broke off, with what the importer wrote.
fn upload_stream_error(cause: &str, stderr: &str) -> (e: Error)
    ensures
        e@ == seq![
            "stream nix-store import: "@ + cause@ + "; nix-store stderr: "@ + text::trim(stderr@),
        ],
{
    Error::new(
        concat4(
            "stream nix-store import: ",
            cause,
            "; nix-store stderr: ",
            trim_text(stderr).as_str(),
        ),
    )
}

/// How much is read of an upload of `len` bytes.
pub open spec fn read_of_upload(len: nat, limit: Option<u64>) -> nat {
    match limit {
        Some(limit) => if len <= limit {
            len
        } else {
            limit as nat
        },
        None => len,
    }
}

/// What the end of an export or import program came to.
pub open spec fn store_program_result(
    what: Seq<char>,
    success: bool,
    stderr: Seq<char>,
) -> Result<(), Seq<Seq<char>>> {
    if success {
        Ok(())
    } else {
        Err(seq![what + " failed: "@ + text::trim(stderr)])
    }
}

/// The end of `nix-store --export` or `nix-store --import`.
pub fn store_program_outcome(what: &str, success: bool, stderr: &str) -> (r: Result<(), Error>)
    ensures
        error::outcome(r) == store_program_result(what@, success, stderr@),
{
    if success {
        Ok(())
    } else {
        Err(Error::new(concat3(what, " failed: ", trim_text(stderr).as_str())))
    }
}

// ---------------------------------------------------------------------------
// The import of an upload
// ---------------------------------------------------------------------------

/// The arguments that import what was exported, signed or not.
pub fn import_args() -> (r: Vec<String>)
    ensures
        text::texts(r@) == seq!["--option"@, "require-sigs"@, "false"@, "--import"@],
{
    let args: Vec<String> = text::strings_of(&["--option", "require-sigs", "false", "--import"]);
    assert(text::texts(args@) =~= seq!["--option"@, "require-sigs"@, "false"@, "--import"@]);
    args
}

/// The arguments that export paths, where there are any.
pub open spec fn export_line(paths: Seq<Seq<char>>) -> Option<Seq<Seq<char>>> {
    if paths.len() == 0 {
        None
    } else {
        Some(seq!["--export"@] + paths)
    }
}

pub fn export_args(paths: &[StorePath]) -> (r: Option<Vec<String>>)
    ensures
        optional_texts(r) == export_line(nix::path_texts(paths@)),
{
    if paths.len() == 0 {
        return None;
    }
    Some(args_with_paths(&["--export"], paths))
}

/// What is done once all of an upload was read, or it broke off.
pub enum UploadStep {
    /// The importer is waited for.
    Wait { copied: Result<u64, String> },
    /// The importer is stopped.
    Kill { error: Error },
}

/// The view of what is done.
pub enum UploadStepView {
    Wait { copied: Result<u64, Seq<char>> },
    Kill { error: Seq<Seq<char>> },
}

pub open spec fn copied_view(copied: Result<u64, String>) -> Result<u64, Seq<char>> {
    match copied {
        Ok(bytes) => Ok(bytes),
        Err(why) => Err(why@),
    }
}

impl View for UploadStep {
    type V = UploadStepView;

    open spec fn view(&self) -> UploadStepView {
        match *self {
            UploadStep::Wait { copied } => UploadStepView::Wait { copied: copied_view(copied) },
            UploadStep::Kill { error } => UploadStepView::Kill { error: error@ },
        }
    }
}

/// An importer that was given too much does not get to its end.
pub open spec fn upload_step(copied: Result<u64, Seq<char>>, max_bytes: Option<u64>) ->
    UploadStepView {
    match copied {
        Ok(bytes) => match upload_fault(bytes, max_bytes) {
            Some(fault) => UploadStepView::Kill { error: seq![fault] },
            None => UploadStepView::Wait { copied },
        },
        Err(_) => UploadStepView::Wait { copied },
    }
}

/// Decides about an importer by how many bytes it was given, or why it was
/// given no more.
pub fn after_upload(copied: Result<u64, String>, max_bytes: Option<u64>) -> (step: UploadStep)
    ensures
        step@ == upload_step(copied_view(copied), max_bytes),
{
    match &copied {
        Ok(bytes) => match check_upload_size(*bytes, max_bytes) {
            Err(error) => {
                return UploadStep::Kill { error };
            },
            Ok(()) => {},
        },
        Err(_) => {},
    }
    UploadStep::Wait { copied }
}

/// What an import came to, by how many bytes the importer was given and how it
/// ended.
pub open spec fn upload_result(
    copied: Result<u64, Seq<char>>,
    success: bool,
    stderr: Seq<char>,
) -> Result<u64, Seq<Seq<char>>> {
    match copied {
        Err(why) => Err(
            seq![
                "stream nix-store import: "@ + why + "; nix-store stderr: "@ + text::trim(stderr),
            ],
        ),
        Ok(bytes) => match store_program_result("nix-store --import"@, success, stderr) {
            Err(error) => Err(error),
            Ok(()) => Ok(bytes),
        },
    }
}

/// Tells what an import came to.
pub fn upload_outcome(copied: Result<u64, String>, success: bool, stderr: &str) -> (r: Result<
    u64,
    Error,
>)
    ensures
        error::outcome(r) == upload_result(copied_view(copied), success, stderr@),
{
    match copied {
        Err(why) => Err(upload_stream_error(why.as_str(), stderr)),
        Ok(bytes) => match store_program_outcome("nix-store --import", success, stderr) {
            Err(error) => Err(error),
            Ok(()) => Ok(bytes),
        },
    }
}

/// An upload is accepted exactly where it has no more bytes than allowed,
/// though no more than one byte beyond that is read.
pub proof fn law_upload_limit_is_exact(len: u64, max: u64)
    ensures
        ({
            let read = read_of_upload(len as nat, read_limit(Some(max)));
            &&& upload_step(Ok(read as u64), Some(max)) is Wait <==> len <= max
            &&& read <= max + 1
        }),
{
}

// ---------------------------------------------------------------------------
// Laws of the command lines
// ---------------------------------------------------------------------------

/// What follows the first words of each of some command lines.
pub open spec fn rests(lines: Seq<Seq<Seq<char>>>, words: int) -> Seq<Seq<Seq<char>>> {
    Seq::new(lines.len(), |i: int| lines[i].skip(words))
}

/// Command lines that begin with the same words and between them carry a list of
/// paths: each carries at least one, and all of them are carried, in their order.
pub open spec fn carry(
    lines: Seq<Seq<Seq<char>>>,
    words: Seq<Seq<char>>,
    paths: Seq<Seq<char>>,
) -> bool {
    &&& forall|i: int|
        0 <= i < lines.len() ==> {
            &&& (#[trigger] lines[i]).len() > words.len()
            &&& lines[i].take(words.len() as int) == words
        }
    &&& chunks::assembled(rests(lines, words.len() as int)) == paths
}

/// Command lines made of pieces carry the whole list.
proof fn lemma_pieces_carry(base: Seq<Seq<char>>, paths: Seq<Seq<char>>)
    ensures
        carry(
            lines_with_pieces(base, chunks::pieces(paths, PATH_ARG_CHUNK_SIZE as int)),
            base,
            paths,
        ),
{
    let pieces = chunks::pieces(paths, PATH_ARG_CHUNK_SIZE as int);
    let lines = lines_with_pieces(base, pieces);
    chunks::law_pieces_assemble(paths, PATH_ARG_CHUNK_SIZE as int);
    assert forall|i: int| 0 <= i < lines.len() implies {
        &&& (#[trigger] lines[i]).len() > base.len()
        &&& lines[i].take(base.len() as int) == base
        &&& lines[i].skip(base.len() as int) == pieces[i]
    } by {
        assert(pieces[i].len() > 0);
        assert(lines[i].take(base.len() as int) =~= base);
        assert(lines[i].skip(base.len() as int) =~= pieces[i]);
    }
    assert(rests(lines, base.len() as int) =~= pieces);
}

/// Every command line of a copy from a cache says so first, and from which.
proof fn lemma_copies_begin(
    cache_url: Seq<char>,
    public_key: Seq<char>,
    trust: SignedCacheImportTrust,
    paths: Seq<Seq<char>>,
)
    ensures
        copy_from_lines(cache_url, public_key, trust, paths) matches Ok(lines) ==> all_begin_with(
            lines,
            seq!["copy"@, "--from"@, cache_url],
        ),
{
    law_copies_come_from_the_cache(cache_url, public_key, paths);
    if let Ok(lines) = copy_from_lines(cache_url, public_key, trust, paths) {
        assert forall|i: int| 0 <= i < lines.len() implies (#[trigger] lines[i]).len() > 3
            && lines[i].take(3) == seq!["copy"@, "--from"@, cache_url] by {
            let n = match trust {
                SignedCacheImportTrust::KeyAlreadyTrusted => 3int,
                SignedCacheImportTrust::CanPassPublicKey => 9int,
            };
            assert(lines[i].take(3) =~= lines[i].take(n).take(3));
            assert(lines[i].take(n).take(3) =~= seq!["copy"@, "--from"@, cache_url]);
        }
    }
}

/// A copy from a cache takes every path that is asked for out of that cache. Where
/// the key can be passed, the copy insists on signatures by that key; where it
/// is trusted already, nothing but the paths is said. Only a key without a
/// character is refused, and only where there is something to copy.
pub proof fn law_copies_come_from_the_cache(
    cache_url: Seq<char>,
    public_key: Seq<char>,
    paths: Seq<Seq<char>>,
)
    ensures
        match copy_from_lines(
            cache_url,
            public_key,
            SignedCacheImportTrust::KeyAlreadyTrusted,
            paths,
        ) {
            Ok(lines) => carry(lines, seq!["copy"@, "--from"@, cache_url], paths),
            Err(error) => paths.len() > 0 && text::trim(public_key).len() == 0 && error == seq![
                "trusted public key is empty"@,
            ],
        },
        match copy_from_lines(
            cache_url,
            public_key,
            SignedCacheImportTrust::CanPassPublicKey,
            paths,
        ) {
            Ok(lines) => carry(
                lines,
                seq![
                    "copy"@,
                    "--from"@,
                    cache_url,
                    "--option"@,
                    "require-sigs"@,
                    "true"@,
                    "--option"@,
                    "trusted-public-keys"@,
                    text::trim(public_key),
                ],
                paths,
            ),
            Err(error) => paths.len() > 0 && text::trim(public_key).len() == 0 && error == seq![
                "trusted public key is empty"@,
            ],
        },
        forall|trust: SignedCacheImportTrust|
            (#[trigger] copy_from_lines(cache_url, public_key, trust, paths)) is Err <==> (
            paths.len() > 0 && text::trim(public_key).len() == 0),
{
    lemma_pieces_carry(seq!["copy"@, "--from"@, cache_url], paths);
    lemma_pieces_carry(
        seq![
            "copy"@,
            "--from"@,
            cache_url,
            "--option"@,
            "require-sigs"@,
            "true"@,
            "--option"@,
            "trusted-public-keys"@,
            text::trim(public_key),
        ],
        paths,
    );
    if paths.len() == 0 {
        let none = Seq::<Seq<Seq<char>>>::empty();
        assert(rests(none, 3) =~= none);
        assert(rests(none, 9) =~= none);
        assert(chunks::assembled(none) =~= paths);
    }
}

/// The URL of a signed cache names the directory and then the key, so that what
/// is copied there is signed by that key: other keys and other directories have
/// other URLs. The URL of a cache that is only read names no key.
pub proof fn law_signed_caches_name_their_key(cache_dir: Seq<char>, key: Seq<char>)
    ensures
        ("file://"@ + cache_dir + "?secret-key="@ + key).is_prefix_of(
            file_url(cache_dir, Some(key)),
        ),
        file_url(cache_dir, Some(key)).skip(
            ("file://"@ + cache_dir + "?secret-key="@ + key).len() as int,
        ) == "&compression=zstd&compression-level=1"@,
        file_url(cache_dir, None).take("file://"@.len() as int) == "file://"@,
        file_url(cache_dir, None).skip("file://"@.len() as int) == cache_dir,
        forall|other: Seq<char>|
            other != key ==> #[trigger] file_url(cache_dir, Some(other)) != file_url(
                cache_dir,
                Some(key),
            ),
{
    let start = "file://"@ + cache_dir + "?secret-key="@ + key;
    let url = file_url(cache_dir, Some(key));
    assert(start =~= url.take(start.len() as int));
    assert(url.skip(start.len() as int) =~= "&compression=zstd&compression-level=1"@);
    assert(file_url(cache_dir, None).take("file://"@.len() as int) =~= "file://"@);
    assert(file_url(cache_dir, None).skip("file://"@.len() as int) =~= cache_dir);
    assert forall|other: Seq<char>| other != key implies #[trigger] file_url(
        cache_dir,
        Some(other),
    ) != url by {
        let with_other = file_url(cache_dir, Some(other));
        let from = ("file://"@ + cache_dir + "?secret-key="@).len();
        if with_other == url {
            assert(other.len() == key.len());
            assert(with_other.subrange(from as int, (from + other.len()) as int) =~= other);
            assert(url.subrange(from as int, (from + key.len()) as int) =~= key);
        }
    }
}

/// What is built goes into the cache whole, under a URL with the key that signs
/// it.
pub proof fn law_copies_go_to_the_signed_cache(
    paths: Seq<Seq<char>>,
    cache_dir: Seq<char>,
    secret_key: Seq<char>,
)
    ensures
        carry(
            copy_to_lines(paths, cache_dir, secret_key),
            seq![
                "copy"@,
                "--to"@,
                "file://"@ + cache_dir + "?secret-key="@ + secret_key
                    + "&compression=zstd&compression-level=1"@,
            ],
            paths,
        ),
{
    lemma_pieces_carry(
        seq!["copy"@, "--to"@, file_url(cache_dir, Some(secret_key))],
        paths,
    );
}

/// The store is asked about every path.
pub proof fn law_every_path_is_asked_about(paths: Seq<Seq<char>>)
    ensures
        carry(
            lines_with_pieces(
                missing_base(),
                chunks::pieces(paths, PATH_ARG_CHUNK_SIZE as int),
            ),
            seq!["--check-validity"@, "--print-invalid"@],
            paths,
        ),
{
    lemma_pieces_carry(missing_base(), paths);
}

/// The closure of a list is asked for with one command line that names the whole
/// list, and a list is exported by one; neither is done for nothing.
pub proof fn law_closures_and_exports_are_of_the_whole_list(paths: Seq<Seq<char>>)
    ensures
        closure_line(paths) is None <==> paths.len() == 0,
        closure_line(paths) matches Some(line) ==> line[0] == "-qR"@ && line.skip(1) == paths,
        export_line(paths) is None <==> paths.len() == 0,
        export_line(paths) matches Some(line) ==> line[0] == "--export"@ && line.skip(1) == paths,
{
    assert((seq!["-qR"@] + paths).skip(1) =~= paths);
    assert((seq!["--export"@] + paths).skip(1) =~= paths);
}

/// Three words of a command line replace a flake input.
pub open spec fn is_override(line: Seq<Seq<char>>, at: int, input: OverrideInput) -> bool {
    &&& line[at] == "--override-input"@
    &&& line[at + 1] == input.input_path@
    &&& line[at + 2] == input.flake_url@
}

/// An evaluation is of the installable, which is its last word, and is asked for
/// with the given command and with each option that was given, and no other.
pub proof fn law_evaluations_follow_the_options(
    base: Seq<Seq<char>>,
    installable: Seq<char>,
    options: EvalOptions,
)
    ensures
        ({
            let line = eval_line(base, installable, options);
            let inputs = options.override_inputs@;
            let first = base.len() + (if options.impure {
                1int
            } else {
                0
            }) + (if options.refresh {
                1int
            } else {
                0
            });
            &&& line.len() == first + 3 * inputs.len() + 1
            &&& line.take(base.len() as int) == base
            &&& options.impure ==> line[base.len() as int] == "--impure"@
            &&& options.refresh ==> line[first - 1] == "--refresh"@
            &&& forall|i: int|
                0 <= i < inputs.len() ==> is_override(line, first + 3 * i, #[trigger] inputs[i])
            &&& line.last() == installable
        }),
{
    let line = eval_line(base, installable, options);
    let inputs = options.override_inputs@;
    let flags = base + flag(options.impure, "--impure"@) + flag(options.refresh, "--refresh"@);
    let first = flags.len() as int;
    lemma_override_args(inputs);
    assert(line.take(base.len() as int) =~= base);
    assert forall|i: int| 0 <= i < inputs.len() implies is_override(
        line,
        first + 3 * i,
        #[trigger] inputs[i],
    ) by {
        let args = override_args(inputs);
        assert(is_override(args, 3 * i, inputs[i]));
        assert(line[first + 3 * i] == args[3 * i]);
        assert(line[first + 3 * i + 1] == args[3 * i + 1]);
        assert(line[first + 3 * i + 2] == args[3 * i + 2]);
    }
}

proof fn lemma_override_args(inputs: Seq<OverrideInput>)
    ensures
        override_args(inputs).len() == 3 * inputs.len(),
        forall|i: int|
            0 <= i < inputs.len() ==> is_override(
                override_args(inputs),
                3 * i,
                #[trigger] inputs[i],
            ),
    decreases inputs.len(),
{
    if inputs.len() > 0 {
        let shorter = inputs.drop_last();
        lemma_override_args(shorter);
        let all = override_args(inputs);
        let earlier = override_args(shorter);
        assert forall|i: int| 0 <= i < inputs.len() implies is_override(
            all,
            3 * i,
            #[trigger] inputs[i],
        ) by {
            if i < shorter.len() {
                assert(is_override(earlier, 3 * i, shorter[i]));
                assert(all[3 * i] == earlier[3 * i]);
                assert(all[3 * i + 1] == earlier[3 * i + 1]);
                assert(all[3 * i + 2] == earlier[3 * i + 2]);
            }
        }
    }
}

/// Each pair of words after `--override-input` is one input and what replaces it.
pub proof fn law_overrides_come_in_pairs(list: Seq<Seq<char>>)
    ensures
        list.len() % 2 == 0 ==> 2 * override_pairs(list).len() == list.len(),
        forall|i: int|
            0 <= i < override_pairs(list).len() ==> (#[trigger] override_pairs(list)[i]).0
                == list[2 * i] && override_pairs(list)[i].1 == list[2 * i + 1],
{
}

/// A derivation is realised, checked against an earlier result exactly where it
/// is to be built again, and logged in the format that the client reads.
pub proof fn law_realisations_follow_the_request(output_mode: OutputMode, rebuild: bool)
    ensures
        ({
            let line = realise_line(output_mode, rebuild);
            &&& line[0] == "--realise"@
            &&& line.len() == (if rebuild {
                5int
            } else {
                4
            })
            &&& rebuild ==> line[1] == "--check"@
            &&& line[line.len() - 3] == "--log-format"@
            &&& line[line.len() - 2] == (if output_mode == OutputMode::Plain {
                "raw"@
            } else {
                "internal-json"@
            })
            &&& line.last() == "-v"@
        }),
{
}

/// The outputs of a build plan are the values of its one entry, in the order of
/// their names, and are all store paths.
pub proof fn law_planned_outputs_are_those_of_one_entry(plan: Seq<BuildPlanEntry>)
    ensures
        plan_outputs(plan) matches Ok(list) ==> {
            &&& plan.len() == 1
            &&& list.len() == plan[0].outputs.keys().len()
            &&& forall|i: int|
                0 <= i < list.len() ==> (#[trigger] list[i])
                    == plan[0].outputs@[plan[0].outputs.keys()[i]]@ && nix::is_store_path(list[i])
        },
        plan.len() != 1 ==> plan_outputs(plan) is Err,
        plan.len() == 1 && (forall|i: int|
            0 <= i < plan[0].outputs.keys().len() ==> nix::is_store_path(
                #[trigger] plan[0].outputs@[plan[0].outputs.keys()[i]]@,
            )) ==> plan_outputs(plan) is Ok,
{
    if plan.len() == 1 {
        let values = values_in_order(plan[0].outputs);
        nix::law_store_path_lists_are_accepted(values);
        if forall|i: int|
            0 <= i < plan[0].outputs.keys().len() ==> nix::is_store_path(
                #[trigger] plan[0].outputs@[plan[0].outputs.keys()[i]]@,
            ) {
            assert forall|i: int| 0 <= i < values.len() implies nix::is_store_path(
                #[trigger] values[i],
            ) by {
                assert(values[i] == plan[0].outputs@[plan[0].outputs.keys()[i]]@);
            }
        }
    }
}

/// A program that succeeded has its output read, where it is text; one that
/// failed is reported by its name and what it wrote, whatever its output is.
pub proof fn law_failed_programs_are_reported(
    program: Seq<char>,
    success: bool,
    stdout: Seq<u8>,
    stderr: Seq<char>,
    status: Seq<char>,
)
    ensures
        program_output(program, success, stdout, stderr) is Ok <==> success
            && vstd::utf8::valid_utf8(stdout),
        program_output(program, success, stdout, stderr) matches Ok(output) ==> output
            == vstd::utf8::decode_utf8(stdout),
        !success ==> program_output(program, success, stdout, stderr) == Err::<
            Seq<char>,
            Seq<Seq<char>>,
        >(seq![program + " failed: "@ + text::trim(stderr)]),
        nix_command_result(program, success, status, stderr) is Ok <==> success,
        nix_command_result(program, success, status, stderr) matches Err(error) ==> error == seq![
            if text::trim(stderr).len() > 0 {
                program + " failed: "@ + text::trim(stderr)
            } else {
                program + " failed with "@ + status
            },
        ],
        store_program_result(program, success, stderr) is Ok <==> success,
        store_program_result(program, success, stderr) matches Err(error) ==> error == seq![
            program + " failed: "@ + text::trim(stderr),
        ],
{
}

/// An import went well exactly where all of the upload came in and the importer
/// ended well, and then it counts the bytes that came in.
pub proof fn law_imports_of_uploads_are_counted(
    copied: Result<u64, Seq<char>>,
    success: bool,
    stderr: Seq<char>,
)
    ensures
        upload_result(copied, success, stderr) is Ok <==> copied is Ok && success,
        upload_result(copied, success, stderr) is Ok ==> upload_result(copied, success, stderr)->Ok_0
            == copied->Ok_0,
        copied matches Ok(bytes) && !success ==> upload_result(copied, success, stderr) == Err::<
            u64,
            Seq<Seq<char>>,
        >(seq!["nix-store --import failed: "@ + text::trim(stderr)]),
        copied matches Err(why) ==> upload_result(copied, success, stderr) == Err::<
            u64,
            Seq<Seq<char>>,
        >(
            seq![
                "stream nix-store import: "@ + why + "; nix-store stderr: "@ + text::trim(stderr),
            ],
        ),
        forall|max: u64|
            copied matches Ok(bytes) ==> (#[trigger] upload_step(copied, Some(max)) is Kill <==> bytes
                > max),
        upload_step(copied, None) == (UploadStepView::Wait { copied }),
        copied is Err ==> forall|max: Option<u64>|
            #[trigger] upload_step(copied, max) == (UploadStepView::Wait { copied }),
{
    reveal_strlit("nix-store --import");
    reveal_strlit(" failed: ");
    reveal_strlit("nix-store --import failed: ");
    assert("nix-store --import"@ + " failed: "@ =~= "nix-store --import failed: "@);
}

/// Nix's complaints about signatures are said to be about signatures and are
/// quoted; other errors stay what they are.
pub proof fn law_rejected_signatures_are_named(error: Seq<Seq<char>>, at: int)
    ensures
        text::stands_at(text::lowered(error[0]), "signature"@, at) || text::stands_at(
            text::lowered(error[0]),
            "public key"@,
            at,
        ) || text::stands_at(text::lowered(error[0]), "trusted key"@, at) || text::stands_at(
            text::lowered(error[0]),
            "trusted public"@,
            at,
        ) || text::stands_at(text::lowered(error[0]), "trusted-public-keys"@, at)
            ==> copy_from_fault(error) == seq![
            "signed cache/public key import failed; Nix rejected cache signatures/trust: "@
                + error[0],
        ],
        !text::contains_text(text::lowered(error[0]), "signature"@) && !text::contains_text(
            text::lowered(error[0]),
            "public key"@,
        ) && !text::contains_text(text::lowered(error[0]), "trusted key"@) && !text::contains_text(
            text::lowered(error[0]),
            "trusted public"@,
        ) && !text::contains_text(text::lowered(error[0]), "trusted-public-keys"@)
            ==> copy_from_fault(error) == error,
{
}

/// Store paths that a program printed one on a line are read back, all of them in their
/// order.
pub proof fn law_printed_paths_are_read_back(list: Seq<Seq<char>>)
    requires
        forall|i: int| 0 <= i < list.len() ==> nix::is_store_path(#[trigger] list[i]),
    ensures
        said_lines(text::lines(text::printed(list))) == list,
        nix::checked_store_paths(said_lines(text::lines(text::printed(list)))) == Ok::<
            Seq<Seq<char>>,
            Seq<Seq<char>>,
        >(list),
        list.len() > 0 ==> printed_derivation(text::printed(list)) == Ok::<
            Seq<char>,
            Seq<Seq<char>>,
        >(list[0]),
        list.no_duplicates() ==> printed_closure(text::printed(list)) == Ok::<
            Seq<Seq<char>>,
            Seq<Seq<char>>,
        >(list),
        printed_closure(text::printed(list)) matches Ok(closure) && closure.no_duplicates()
            && closure.to_set() == list.to_set(),
{
    assert forall|i: int| 0 <= i < list.len() implies !(#[trigger] list[i]).contains('\n') && (
    list[i].len() > 0 ==> list[i].last() != '\r') by {
        nix::law_store_paths_have_no_space(list[i]);
        if list[i].contains('\n') {
            let j = choose|j: int| 0 <= j < list[i].len() && list[i][j] == '\n';
            assert(text::is_space(list[i][j]));
        }
        assert(!text::is_space(list[i][list[i].len() - 1]));
    }
    text::law_lines_are_read_back(list);
    lemma_all_lines_say_something(list);
    nix::law_store_path_lists_are_accepted(list);
    law_distinct(list);
    if list.len() > 0 {
        nix::law_store_paths_are_accepted(list[0]);
    }
}

proof fn lemma_all_lines_say_something(list: Seq<Seq<char>>)
    requires
        forall|i: int| 0 <= i < list.len() ==> nix::is_store_path(#[trigger] list[i]),
    ensures
        said_lines(list) == list,
    decreases list.len(),
{
    if list.len() > 0 {
        let shorter = list.drop_last();
        assert forall|i: int| 0 <= i < shorter.len() implies nix::is_store_path(
            #[trigger] shorter[i],
        ) by {
            assert(shorter[i] == list[i]);
        }
        lemma_all_lines_say_something(shorter);
        assert(list.last() == list[list.len() - 1]);
        nix::law_store_paths_have_no_space(list.last());
        assert(shorter.push(list.last()) =~= list);
    } else {
        assert(said_lines(list) =~= list);
    }
}

/// Of a list the paths are missing that the store's answers print, all of these and no
/// others, in the order of the list.
pub proof fn law_missing_paths_are_those_printed(
    paths: Seq<Seq<char>>,
    answers: Seq<Seq<Seq<char>>>,
    outputs: Seq<Seq<char>>,
)
    requires
        outputs.len() == answers.len(),
        forall|k: int|
            0 <= k < outputs.len() ==> (#[trigger] outputs[k]) == text::printed(answers[k]),
        forall|k: int, i: int|
            0 <= k < answers.len() && 0 <= i < answers[k].len() ==> nix::is_store_path(
                #[trigger] answers[k][i],
            ),
    ensures
        missing_of(paths, outputs) matches Ok(missing) && forall|t: Seq<char>|
            #[trigger] missing.contains(t) <==> paths.contains(t) && exists|k: int|
                0 <= k < answers.len() && (#[trigger] answers[k]).contains(t),
        (forall|i: int|
            0 <= i < paths.len() ==> exists|k: int|
                0 <= k < answers.len() && (#[trigger] answers[k]).contains(#[trigger] paths[i]))
            ==> missing_of(paths, outputs) == Ok::<Seq<Seq<char>>, Seq<Seq<char>>>(paths),
        (forall|k: int| 0 <= k < answers.len() ==> (#[trigger] answers[k]).len() == 0)
            ==> missing_of(paths, outputs) == Ok::<Seq<Seq<char>>, Seq<Seq<char>>>(Seq::empty()),
{
    lemma_answers_are_read(answers, outputs);
    let said = printed_missing(outputs)->Ok_0;
    law_kept(paths, said);
    let missing = kept(paths, said);
    assert forall|t: Seq<char>| #[trigger] missing.contains(t) <==> paths.contains(t) && exists|
        k: int,
    |
        0 <= k < answers.len() && (#[trigger] answers[k]).contains(t) by {
        assert(said.contains(t) <==> exists|k: int|
            0 <= k < answers.len() && (#[trigger] answers[k]).contains(t));
    }
    if forall|k: int| 0 <= k < answers.len() ==> (#[trigger] answers[k]).len() == 0 {
        if missing.len() > 0 {
            assert(missing.contains(missing[0]));
        }
        assert(missing =~= Seq::<Seq<char>>::empty());
    }
    if forall|i: int|
        0 <= i < paths.len() ==> exists|k: int|
            0 <= k < answers.len() && (#[trigger] answers[k]).contains(#[trigger] paths[i]) {
        assert forall|i: int| 0 <= i < paths.len() implies said.contains(#[trigger] paths[i]) by {
            let k = choose|k: int|
                0 <= k < answers.len() && (#[trigger] answers[k]).contains(paths[i]);
            assert(answers[k].contains(paths[i]));
        }
    }
}

proof fn lemma_answers_are_read(answers: Seq<Seq<Seq<char>>>, outputs: Seq<Seq<char>>)
    requires
        outputs.len() == answers.len(),
        forall|k: int|
            0 <= k < outputs.len() ==> (#[trigger] outputs[k]) == text::printed(answers[k]),
        forall|k: int, i: int|
            0 <= k < answers.len() && 0 <= i < answers[k].len() ==> nix::is_store_path(
                #[trigger] answers[k][i],
            ),
    ensures
        printed_missing(outputs) is Ok,
        forall|t: Seq<char>|
            #[trigger] printed_missing(outputs)->Ok_0.contains(t) <==> exists|k: int|
                0 <= k < answers.len() && (#[trigger] answers[k]).contains(t),
    decreases outputs.len(),
{
    if outputs.len() > 0 {
        let n = outputs.len() - 1;
        let fewer = outputs.drop_last();
        let earlier = answers.drop_last();
        assert forall|k: int| 0 <= k < fewer.len() implies (#[trigger] fewer[k]) == text::printed(
            earlier[k],
        ) by {
            assert(fewer[k] == outputs[k]);
        }
        assert forall|k: int, i: int|
            0 <= k < earlier.len() && 0 <= i < earlier[k].len() implies nix::is_store_path(
            #[trigger] earlier[k][i],
        ) by {
            assert(earlier[k] == answers[k]);
        }
        lemma_answers_are_read(earlier, fewer);
        let last = answers[n];
        assert forall|i: int| 0 <= i < last.len() implies nix::is_store_path(#[trigger] last[i]) by {
            assert(answers[n][i] == last[i]);
        }
        law_printed_paths_are_read_back(last);
        assert(outputs.last() == outputs[n]);
        let before = printed_missing(fewer)->Ok_0;
        let all = printed_missing(outputs)->Ok_0;
        assert(all == before + last);
        assert forall|t: Seq<char>| #[trigger] all.contains(t) <==> exists|k: int|
            0 <= k < answers.len() && (#[trigger] answers[k]).contains(t) by {
            if all.contains(t) {
                let i = choose|i: int| 0 <= i < all.len() && all[i] == t;
                if i < before.len() {
                    assert(before[i] == t);
                    assert(before.contains(t));
                    let k = choose|k: int|
                        0 <= k < earlier.len() && (#[trigger] earlier[k]).contains(t);
                    assert(answers[k] == earlier[k]);
                } else {
                    assert(last[i - before.len()] == t);
                    assert(answers[n].contains(t));
                }
            }
            if exists|k: int| 0 <= k < answers.len() && (#[trigger] answers[k]).contains(t) {
                let k = choose|k: int| 0 <= k < answers.len() && (#[trigger] answers[k]).contains(t);
                if k < n {
                    assert(earlier[k] == answers[k]);
                    assert(before.contains(t));
                    let i = choose|i: int| 0 <= i < before.len() && before[i] == t;
                    assert(all[i] == t);
                } else {
                    let i = choose|i: int| 0 <= i < last.len() && last[i] == t;
                    assert(all[before.len() + i] == t);
                }
            }
        }
    }
}

/// How many paths stand on one command line.
pub proof fn law_command_lines_are_short()
    ensures
        PATH_ARG_CHUNK_SIZE == 512,
{
}

/// What Nix prints that is of no use is told: a plan of another number of
/// entries, an output that is no text, or no derivation at all.
pub proof fn law_useless_outputs_are_told(
    plan: Seq<BuildPlanEntry>,
    program: Seq<char>,
    stdout: Seq<u8>,
    stderr: Seq<char>,
)
    ensures
        plan.len() != 1 ==> plan_outputs(plan) == Err::<Seq<Seq<char>>, Seq<Seq<char>>>(
            seq!["expected one build plan entry, got "@ + text::decimal(plan.len())],
        ),
        !vstd::utf8::valid_utf8(stdout) ==> (program_output(program, true, stdout, stderr) matches Err(
            e,
        ) && e.len() == 2 && e[0] == "command output was not UTF-8"@),
        printed_derivation(Seq::empty()) == Err::<Seq<char>, Seq<Seq<char>>>(
            seq!["nix did not return a derivation path"@],
        ),
{
    assert(text::lines(Seq::empty()) =~= Seq::<Seq<char>>::empty());
}

/// An upload may have as many bytes as are allowed, and not one more.
pub proof fn law_uploads_are_limited(copied: u64, max: u64)
    ensures
        copied <= max ==> upload_fault(copied, Some(max)) is None,
        copied > max ==> upload_fault(copied, Some(max)) == Some(
            "upload exceeded max bytes: "@ + text::decimal(copied as nat),
        ),
        upload_fault(copied, None) is None,
{
}

} // verus!
