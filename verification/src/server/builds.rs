//! What a client may ask to be built, and what it gets of it.

use vstd::prelude::*;

use crate::error::Error;
use crate::nix;
use crate::nix::commands::RealiseResult;
use crate::nix::{contains_path, store_paths, store_paths_to_strings, StorePath};
use crate::proto::{BuildFinished, BuildRequest, BuildRequestView, Message, MessageView, OutputMode};
use crate::text;
use crate::text::{concat2, decimal_string};

verus! {

/// A request to build, all of whose paths are store paths.
pub struct CheckedBuildRequest {
    pub installable: String,
    pub drv_path: StorePath,
    pub output_mode: OutputMode,
    pub rebuild: bool,
    pub closure_paths: Vec<StorePath>,
    pub output_paths: Vec<StorePath>,
}

/// The view of such a request.
pub struct CheckedBuildView {
    pub installable: Seq<char>,
    pub drv_path: Seq<char>,
    pub output_mode: OutputMode,
    pub rebuild: bool,
    pub closure_paths: Seq<Seq<char>>,
    pub output_paths: Seq<Seq<char>>,
}

impl View for CheckedBuildRequest {
    type V = CheckedBuildView;

    open spec fn view(&self) -> CheckedBuildView {
        CheckedBuildView {
            installable: self.installable@,
            drv_path: self.drv_path@,
            output_mode: self.output_mode,
            rebuild: self.rebuild,
            closure_paths: nix::path_texts(self.closure_paths@),
            output_paths: nix::path_texts(self.output_paths@),
        }
    }
}

/// A list with an item at its end, where it is not in it yet.
pub open spec fn completed(list: Seq<Seq<char>>, item: Seq<char>) -> Seq<Seq<char>> {
    if list.contains(item) {
        list
    } else {
        list.push(item)
    }
}

/// What a request comes to: its paths must be store paths, it must ask for
/// outputs, and the derivation is part of its closure.
pub open spec fn checked_request(
    request: BuildRequestView,
    closure_paths: Seq<Seq<char>>,
) -> Result<CheckedBuildView, Seq<Seq<char>>> {
    match nix::checked_store_path(request.drv_path) {
        Err(e) => Err(e),
        Ok(drv_path) => match nix::checked_store_paths(request.output_paths) {
            Err(e) => Err(e),
            Ok(output_paths) => if output_paths.len() == 0 {
                Err(seq!["build request did not include output paths"@])
            } else {
                match nix::checked_store_paths(closure_paths) {
                    Err(e) => Err(e),
                    Ok(closure_paths) => Ok(
                        CheckedBuildView {
                            installable: request.installable,
                            drv_path,
                            output_mode: request.output_mode,
                            rebuild: request.rebuild,
                            closure_paths: completed(closure_paths, drv_path),
                            output_paths,
                        },
                    ),
                }
            },
        },
    }
}

pub open spec fn checked_outcome(r: Result<CheckedBuildRequest, Error>) -> Result<
    CheckedBuildView,
    Seq<Seq<char>>,
> {
    match r {
        Ok(build) => Ok(build@),
        Err(e) => Err(e@),
    }
}

pub fn check_build_request(request: BuildRequest, closure_paths: &[String]) -> (r: Result<
    CheckedBuildRequest,
    Error,
>)
    ensures
        checked_outcome(r) == checked_request(request@, text::texts(closure_paths@)),
{
    let drv_path: StorePath = match StorePath::new(request.drv_path.as_str()) {
        Ok(path) => path,
        Err(e) => {
            return Err(e);
        },
    };
    let output_paths: Vec<StorePath> = match store_paths(request.output_paths.as_slice()) {
        Ok(paths) => paths,
        Err(e) => {
            return Err(e);
        },
    };
    if output_paths.len() == 0 {
        return Err(Error::of("build request did not include output paths"));
    }
    let mut closure: Vec<StorePath> = match store_paths(closure_paths) {
        Ok(paths) => paths,
        Err(e) => {
            return Err(e);
        },
    };
    if !contains_path(closure.as_slice(), &drv_path) {
        let ghost before = nix::path_texts(closure@);
        closure.push(drv_path.clone());
        assert(nix::path_texts(closure@) =~= before.push(drv_path@));
    }
    Ok(
        CheckedBuildRequest {
            installable: request.installable,
            drv_path,
            output_mode: request.output_mode,
            rebuild: request.rebuild,
            closure_paths: closure,
            output_paths,
        },
    )
}

/// The outputs that were asked for, or the first that was not realised.
pub open spec fn selected(requested: Seq<Seq<char>>, realised: Seq<Seq<char>>) -> Result<
    Seq<Seq<char>>,
    Seq<Seq<char>>,
>
    decreases requested.len(),
{
    if requested.len() == 0 {
        Ok(requested)
    } else if !realised.contains(requested[0]) {
        Err(seq!["requested output was not realised: "@ + requested[0]])
    } else {
        match selected(requested.skip(1), realised) {
            Ok(_) => Ok(requested),
            Err(e) => Err(e),
        }
    }
}

proof fn lemma_selected(requested: Seq<Seq<char>>, realised: Seq<Seq<char>>, i: int)
    requires
        0 <= i <= requested.len(),
        forall|j: int| 0 <= j < i ==> realised.contains(#[trigger] requested[j]),
        i < requested.len() ==> !realised.contains(requested[i]),
    ensures
        selected(requested, realised) == (if i < requested.len() {
            Err::<Seq<Seq<char>>, Seq<Seq<char>>>(
                seq!["requested output was not realised: "@ + requested[i]],
            )
        } else {
            Ok(requested)
        }),
    decreases requested.len(),
{
    if i > 0 {
        let rest = requested.skip(1);
        assert forall|j: int| 0 <= j < i - 1 implies realised.contains(#[trigger] rest[j]) by {
            assert(rest[j] == requested[j + 1]);
        }
        lemma_selected(rest, realised, i - 1);
        assert(realised.contains(requested[0]));
    }
}

/// Selects the outputs that were asked for from those that were realised.
pub fn selected_outputs(requested_outputs: &[StorePath], all_outputs: &[StorePath]) -> (r: Result<
    Vec<StorePath>,
    Error,
>)
    ensures
        nix::paths_outcome(r) == selected(
            nix::path_texts(requested_outputs@),
            nix::path_texts(all_outputs@),
        ),
{
    let ghost requested = nix::path_texts(requested_outputs@);
    let ghost realised = nix::path_texts(all_outputs@);
    let mut i: usize = 0;
    while i < requested_outputs.len()
        invariant
            i <= requested_outputs@.len(),
            requested == nix::path_texts(requested_outputs@),
            realised == nix::path_texts(all_outputs@),
            forall|j: int| 0 <= j < i ==> realised.contains(#[trigger] requested[j]),
        decreases requested_outputs@.len() - i,
    {
        assert(requested[i as int] == requested_outputs@[i as int]@);
        if !contains_path(all_outputs, &requested_outputs[i]) {
            proof {
                lemma_selected(requested, realised, i as int);
            }
            return Err(
                Error::new(
                    concat2(
                        "requested output was not realised: ",
                        requested_outputs[i].as_str(),
                    ),
                ),
            );
        }
        i = i + 1;
    }
    proof {
        lemma_selected(requested, realised, i as int);
    }
    Ok(nix::clone_store_paths(requested_outputs))
}

/// The outputs that the client is told of: those that it asked for where the
/// build succeeded, and none otherwise.
pub open spec fn delivered(
    success: bool,
    requested: Seq<Seq<char>>,
    realised: Seq<Seq<char>>,
) -> Result<Seq<Seq<char>>, Seq<Seq<char>>> {
    if success {
        selected(requested, realised)
    } else {
        Ok(Seq::empty())
    }
}

/// Selects what the client is told of.
pub fn delivered_outputs(result: &RealiseResult, requested_outputs: &[StorePath]) -> (r: Result<
    Vec<StorePath>,
    Error,
>)
    ensures
        nix::paths_outcome(r) == delivered(
            result.success,
            nix::path_texts(requested_outputs@),
            nix::path_texts(result.output_paths@),
        ),
{
    if result.success {
        selected_outputs(requested_outputs, result.output_paths.as_slice())
    } else {
        let none: Vec<StorePath> = Vec::new();
        assert(nix::path_texts(none@) =~= Seq::<Seq<char>>::empty());
        Ok(none)
    }
}

/// The message that tells how a build ended.
pub fn finished_message(success: bool, outputs: &[StorePath]) -> (m: Message)
    ensures
        m@ == (MessageView::BuildFinished { success, output_paths: nix::path_texts(outputs@) }),
{
    Message::BuildFinished(
        BuildFinished { success, output_paths: store_paths_to_strings(outputs) },
    )
}

pub open spec fn upload_incomplete(still_missing: Seq<Seq<char>>) -> Option<Seq<char>> {
    if still_missing.len() > 0 {
        Some("missing paths after import: "@ + text::decimal(still_missing.len()))
    } else {
        None
    }
}

/// Refuses an upload after which paths are still missing.
pub fn check_upload_complete(still_missing: &[StorePath]) -> (r: Result<(), Error>)
    ensures
        match r {
            Ok(()) => upload_incomplete(nix::path_texts(still_missing@)) is None,
            Err(e) => upload_incomplete(nix::path_texts(still_missing@)) matches Some(fault) && e@
                == seq![fault],
        },
{
    if still_missing.len() > 0 {
        return Err(
            Error::new(
                concat2(
                    "missing paths after import: ",
                    decimal_string(still_missing.len() as u64).as_str(),
                ),
            ),
        );
    }
    Ok(())
}

// ---------------------------------------------------------------------------
// Laws
// ---------------------------------------------------------------------------

/// A request that was accepted asks for outputs, names nothing but store
/// paths, and has the derivation in its closure, beside what the client sent.
pub proof fn law_checked_requests(
    request: BuildRequestView,
    closure_paths: Seq<Seq<char>>,
    build: CheckedBuildView,
)
    requires
        checked_request(request, closure_paths) == Ok::<CheckedBuildView, Seq<Seq<char>>>(build),
    ensures
        build.output_paths.len() > 0,
        build.output_paths == request.output_paths,
        build.drv_path == request.drv_path,
        build.closure_paths.contains(build.drv_path),
        closure_paths.is_prefix_of(build.closure_paths),
        nix::is_store_path(build.drv_path),
        forall|i: int|
            0 <= i < build.closure_paths.len() ==> nix::is_store_path(
                #[trigger] build.closure_paths[i],
            ),
        forall|i: int|
            0 <= i < build.output_paths.len() ==> nix::is_store_path(
                #[trigger] build.output_paths[i],
            ),
{
    nix::law_store_paths_are_accepted(request.drv_path);
    nix::law_store_path_lists_are_accepted(request.output_paths);
    nix::law_store_path_lists_are_accepted(closure_paths);
    let pushed = closure_paths.push(build.drv_path);
    assert(pushed[pushed.len() - 1] == build.drv_path);
    assert(closure_paths =~= pushed.take(closure_paths.len() as int));
    assert(closure_paths =~= closure_paths.take(closure_paths.len() as int));
}

/// A client is told of exactly the outputs that it asked for, all of them
/// realised, and of none where the build failed.
pub proof fn law_delivered_outputs_were_asked_for(
    success: bool,
    requested: Seq<Seq<char>>,
    realised: Seq<Seq<char>>,
)
    ensures
        delivered(success, requested, realised) matches Ok(outputs) ==> (if success {
            outputs == requested && forall|i: int|
                0 <= i < requested.len() ==> realised.contains(#[trigger] requested[i])
        } else {
            outputs.len() == 0
        }),
    decreases requested.len(),
{
    if success && requested.len() > 0 {
        let rest = requested.skip(1);
        law_delivered_outputs_were_asked_for(success, rest, realised);
        if selected(requested, realised) is Ok {
            assert forall|i: int| 0 <= i < requested.len() implies realised.contains(
                #[trigger] requested[i],
            ) by {
                if i > 0 {
                    assert(requested[i] == rest[i - 1]);
                }
            }
        }
    }
}

/// A client whose outputs were all built is told of all of them.
pub proof fn law_realised_outputs_are_delivered(
    requested: Seq<Seq<char>>,
    realised: Seq<Seq<char>>,
)
    requires
        forall|i: int| 0 <= i < requested.len() ==> realised.contains(#[trigger] requested[i]),
    ensures
        delivered(true, requested, realised) == Ok::<Seq<Seq<char>>, Seq<Seq<char>>>(requested),
{
    lemma_selected(requested, realised, requested.len() as int);
}

/// A request for outputs that names nothing but store paths is accepted, whatever it
/// asks to build and however many paths it names; nothing of it is changed, and its
/// closure is what the client sent, with the derivation at its end where it was not
/// in it.
pub proof fn law_good_requests_are_accepted(
    request: BuildRequestView,
    closure_paths: Seq<Seq<char>>,
)
    requires
        nix::is_store_path(request.drv_path),
        request.output_paths.len() > 0,
        forall|i: int|
            0 <= i < request.output_paths.len() ==> nix::is_store_path(
                #[trigger] request.output_paths[i],
            ),
        forall|i: int|
            0 <= i < closure_paths.len() ==> nix::is_store_path(#[trigger] closure_paths[i]),
    ensures
        checked_request(request, closure_paths) matches Ok(build) && {
            &&& build.installable == request.installable
            &&& build.drv_path == request.drv_path
            &&& build.output_mode == request.output_mode
            &&& build.rebuild == request.rebuild
            &&& build.output_paths == request.output_paths
            &&& closure_paths.contains(request.drv_path) ==> build.closure_paths == closure_paths
            &&& !closure_paths.contains(request.drv_path) ==> build.closure_paths
                == closure_paths.push(request.drv_path)
        },
{
    nix::law_store_paths_are_accepted(request.drv_path);
    nix::law_store_path_lists_are_accepted(request.output_paths);
    nix::law_store_path_lists_are_accepted(closure_paths);
}

/// A request that asks for nothing is refused for that.
pub proof fn law_requests_ask_for_outputs(
    request: BuildRequestView,
    closure_paths: Seq<Seq<char>>,
)
    requires
        nix::is_store_path(request.drv_path),
        request.output_paths.len() == 0,
    ensures
        checked_request(request, closure_paths) == Err::<CheckedBuildView, Seq<Seq<char>>>(
            seq!["build request did not include output paths"@],
        ),
{
    nix::law_store_paths_are_accepted(request.drv_path);
}

/// An upload is complete exactly where the store lacks nothing any more, and
/// otherwise it is said how many paths it still lacks.
pub proof fn law_uploads_have_to_be_complete(still_missing: Seq<Seq<char>>)
    ensures
        upload_incomplete(still_missing) is None <==> still_missing.len() == 0,
        still_missing.len() > 0 ==> upload_incomplete(still_missing) == Some(
            "missing paths after import: "@ + text::decimal(still_missing.len()),
        ),
{
}

/// An output that was asked for and not realised fails the delivery.
pub proof fn law_missing_outputs_fail_the_delivery(
    requested: Seq<Seq<char>>,
    realised: Seq<Seq<char>>,
    i: int,
)
    requires
        0 <= i < requested.len(),
        !realised.contains(requested[i]),
    ensures
        delivered(true, requested, realised) is Err,
        delivered(false, requested, realised) matches Ok(outputs) && outputs.len() == 0,
{
    law_delivered_outputs_were_asked_for(true, requested, realised);
}

/// The outputs that were asked for are delivered where all were realised, and
/// the first that was not is told.
pub proof fn law_outputs_that_were_not_realised_are_told(
    requested: Seq<Seq<char>>,
    realised: Seq<Seq<char>>,
    n: int,
)
    requires
        0 <= n <= requested.len(),
        forall|i: int| 0 <= i < n ==> realised.contains(#[trigger] requested[i]),
        n < requested.len() ==> !realised.contains(requested[n]),
    ensures
        n == requested.len() ==> selected(requested, realised) == Ok::<
            Seq<Seq<char>>,
            Seq<Seq<char>>,
        >(requested),
        n < requested.len() ==> selected(requested, realised) == Err::<
            Seq<Seq<char>>,
            Seq<Seq<char>>,
        >(seq!["requested output was not realised: "@ + requested[n]]),
{
    lemma_selected(requested, realised, n);
}

} // verus!
