//! What the client says of a build when it is over.

use vstd::prelude::*;

use crate::endpoint::EndpointId;
use crate::hex;
use crate::human;
use crate::human::human_bytes;
use crate::text;
use crate::text::{chars_of, concat2, concat3, concat4, concat5, decimal_string, push_text, push_texts, string_of};
use vstd::slice::slice_subrange;

verus! {

/// One path, or several.
pub open spec fn word_for_paths(count: nat) -> Seq<char> {
    if count == 1 {
        "path"@
    } else {
        "paths"@
    }
}

pub fn path_word(count: usize) -> (r: &'static str)
    ensures
        r@ == word_for_paths(count as nat),
{
    if count == 1 {
        "path"
    } else {
        "paths"
    }
}

/// A number of paths.
pub open spec fn counted_paths(count: nat) -> Seq<char> {
    text::decimal(count) + " "@ + word_for_paths(count)
}

pub fn count_paths(count: usize) -> (r: String)
    ensures
        r@ == counted_paths(count as nat),
{
    concat3(decimal_string(count as u64).as_str(), " ", path_word(count))
}

/// The beginning and the end of a long name.
pub open spec fn shortened(name: Seq<char>) -> Seq<char> {
    if name.len() <= 14 {
        name
    } else {
        name.take(8) + "..."@ + name.skip(name.len() - 4)
    }
}

/// An endpoint's id, short enough to be read.
pub fn short_endpoint_id(id: &EndpointId) -> (r: String)
    ensures
        r@ == shortened(hex::hex_text(id@)),
{
    let name: String = id.to_text();
    let chars: Vec<char> = chars_of(name.as_str());
    let n: usize = chars.len();
    if n <= 14 {
        return name;
    }
    let start: String = string_of(slice_subrange(chars.as_slice(), 0, 8));
    let end: String = string_of(slice_subrange(chars.as_slice(), n - 4, n));
    assert(chars@.subrange(0, 8) =~= chars@.take(8));
    assert(chars@.subrange(n - 4, n as int) =~= chars@.skip(n - 4));
    concat3(start.as_str(), "...", end.as_str())
}

/// Outputs that were there already.
pub open spec fn local_lines(installable: Seq<char>, output_paths: Seq<Seq<char>>) -> Seq<
    Seq<char>,
> {
    seq![
        "drv-thru: outputs already present locally"@,
        ""@,
        "installable  "@ + installable,
        "outputs      "@ + counted_paths(output_paths.len()),
        "remote       skipped"@,
        ""@,
        "output paths:"@,
    ] + output_paths
}

/// What is said where all outputs are there already.
pub fn local_outputs_text(installable: &str, output_paths: &[String]) -> (r: Vec<String>)
    ensures
        text::texts(r@) == local_lines(installable@, text::texts(output_paths@)),
{
    let mut lines: Vec<String> = Vec::new();
    assert(text::texts(lines@) =~= Seq::<Seq<char>>::empty());
    push_text(&mut lines, "drv-thru: outputs already present locally");
    push_text(&mut lines, "");
    push_text(&mut lines, concat2("installable  ", installable).as_str());
    push_text(
        &mut lines,
        concat2("outputs      ", count_paths(output_paths.len()).as_str()).as_str(),
    );
    push_text(&mut lines, "remote       skipped");
    push_text(&mut lines, "");
    push_text(&mut lines, "output paths:");
    push_texts(&mut lines, output_paths);
    assert(text::texts(lines@) =~= local_lines(installable@, text::texts(output_paths@)));
    lines
}

/// What a build came to.
pub struct BuildSummary {
    pub server_id: EndpointId,
    pub installable: String,
    pub drv_path: String,
    pub closure_path_count: usize,
    pub missing_path_count: usize,
    pub build_success: bool,
    pub output_paths: Vec<String>,
    pub received_bytes: u64,
}

/// The view of what a build came to.
pub struct SummaryView {
    pub server_id: Seq<u8>,
    pub installable: Seq<char>,
    pub drv_path: Seq<char>,
    pub closure_path_count: nat,
    pub missing_path_count: nat,
    pub build_success: bool,
    pub output_paths: Seq<Seq<char>>,
    pub received_bytes: u64,
}

impl View for BuildSummary {
    type V = SummaryView;

    open spec fn view(&self) -> SummaryView {
        SummaryView {
            server_id: self.server_id@,
            installable: self.installable@,
            drv_path: self.drv_path@,
            closure_path_count: self.closure_path_count as nat,
            missing_path_count: self.missing_path_count as nat,
            build_success: self.build_success,
            output_paths: text::texts(self.output_paths@),
            received_bytes: self.received_bytes,
        }
    }
}

/// What is said of a build, with the bytes that were received written so.
pub open spec fn lines_with(s: SummaryView, received: Seq<char>) -> Seq<Seq<char>> {
    seq![
        if s.build_success {
            "drv-thru: build complete"@
        } else {
            "drv-thru: remote build failed"@
        },
        ""@,
        "drv-thru -> "@ + shortened(hex::hex_text(s.server_id)),
        "installable  "@ + s.installable,
        "drv          "@ + s.drv_path,
        "inputs       "@ + text::decimal(s.missing_path_count) + " missing / "@ + counted_paths(
            s.closure_path_count,
        ),
        "queue        started"@,
        if s.build_success {
            "build        succeeded"@
        } else {
            "build        failed; see logs above"@
        },
        "outputs      "@ + counted_paths(s.output_paths.len()),
        "received     "@ + received + " ("@ + text::decimal(s.received_bytes as nat)
            + " bytes)"@,
        ""@,
        "output paths:"@,
    ] + s.output_paths
}

/// What is said of a build.
pub open spec fn build_lines(s: SummaryView) -> Seq<Seq<char>> {
    lines_with(s, human::human_bytes_text(s.received_bytes))
}

/// What is said when a build is over.
pub fn build_text(summary: &BuildSummary) -> (r: Vec<String>)
    ensures
        text::texts(r@) == build_lines(summary@),
{
    build_text_with(summary, human_bytes(summary.received_bytes).as_str())
}

/// What is said when a build is over, with the bytes that were received
/// written so.
pub fn build_text_with(summary: &BuildSummary, received: &str) -> (r: Vec<String>)
    ensures
        text::texts(r@) == lines_with(summary@, received@),
{
    let mut lines: Vec<String> = Vec::new();
    assert(text::texts(lines@) =~= Seq::<Seq<char>>::empty());
    push_text(
        &mut lines,
        if summary.build_success {
            "drv-thru: build complete"
        } else {
            "drv-thru: remote build failed"
        },
    );
    push_text(&mut lines, "");
    push_text(
        &mut lines,
        concat2("drv-thru -> ", short_endpoint_id(&summary.server_id).as_str()).as_str(),
    );
    push_text(&mut lines, concat2("installable  ", summary.installable.as_str()).as_str());
    push_text(&mut lines, concat2("drv          ", summary.drv_path.as_str()).as_str());
    push_text(
        &mut lines,
        concat4(
            "inputs       ",
            decimal_string(summary.missing_path_count as u64).as_str(),
            " missing / ",
            count_paths(summary.closure_path_count).as_str(),
        ).as_str(),
    );
    push_text(&mut lines, "queue        started");
    push_text(
        &mut lines,
        if summary.build_success {
            "build        succeeded"
        } else {
            "build        failed; see logs above"
        },
    );
    push_text(
        &mut lines,
        concat2("outputs      ", count_paths(summary.output_paths.len()).as_str()).as_str(),
    );
    push_text(
        &mut lines,
        concat5(
            "received     ",
            received,
            " (",
            decimal_string(summary.received_bytes).as_str(),
            " bytes)",
        ).as_str(),
    );
    push_text(&mut lines, "");
    push_text(&mut lines, "output paths:");
    push_texts(&mut lines, summary.output_paths.as_slice());
    assert(text::texts(lines@) =~= lines_with(summary@, received@));
    lines
}

/// A long name is told by its first eight and its last four characters, a short one
/// whole.
pub proof fn law_short_names_show_both_ends(name: Seq<char>)
    ensures
        name.len() <= 14 ==> shortened(name) == name,
        name.len() > 14 ==> {
            &&& shortened(name).take(8) == name.take(8)
            &&& shortened(name).skip(8).take("..."@.len() as int) == "..."@
            &&& shortened(name).skip(8 + "..."@.len() as int) == name.skip(name.len() - 4)
        },
{
    if name.len() > 14 {
        let short = shortened(name);
        assert(short.take(8) =~= name.take(8));
        assert(short.skip(8).take("..."@.len() as int) =~= "..."@);
        assert(short.skip(8 + "..."@.len() as int) =~= name.skip(name.len() - 4));
    }
}

/// Where nothing is built, the user is told so, and of each output where it is.
pub proof fn law_local_outputs_are_listed(installable: Seq<char>, output_paths: Seq<Seq<char>>)
    ensures
        ({
            let lines = local_lines(installable, output_paths);
            &&& lines[0] == "drv-thru: outputs already present locally"@
            &&& lines[1] == ""@
            &&& lines[4] == "remote       skipped"@
            &&& lines[5] == ""@
            &&& lines[6] == "output paths:"@
            &&& lines[2] == "installable  "@ + installable
            &&& lines[3] == "outputs      "@ + (text::decimal(output_paths.len()) + " "@ + (if
            output_paths.len() == 1 {
                "path"@
            } else {
                "paths"@
            }))
            &&& lines.skip(7) == output_paths
        }),
{
    assert(local_lines(installable, output_paths).skip(7) =~= output_paths);
}

/// A report names the builder, and of each output where it is.
pub proof fn law_reports_name_the_builder(s: SummaryView, received: Seq<char>)
    ensures
        lines_with(s, received)[1] == ""@,
        lines_with(s, received)[6] == "queue        started"@,
        lines_with(s, received)[10] == ""@,
        lines_with(s, received)[2] == "drv-thru -> "@ + shortened(hex::hex_text(s.server_id)),
        lines_with(s, received).skip(12) == s.output_paths,
        lines_with(s, received)[9] == "received     "@ + received + " ("@ + text::decimal(
            s.received_bytes as nat,
        ) + " bytes)"@,
{
    assert(lines_with(s, received).skip(12) =~= s.output_paths);
}

} // verus!
