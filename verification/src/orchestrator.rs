//! The course of one directory through the tool, as a machine that is
//! told what happened and answers with what to do next. The caller does
//! the work that touches the file system and the terminal.

use vstd::prelude::*;
use vstd::string::StringExecFns;
use crate::scan::{
    DirEntryView, EntryClass, class_of, lemma_non_image_is_reported, lemma_scan_partitions, scan_of,
};

verus! {

/// The switches that hold for the processing of one directory.
#[derive(Clone, Copy, Debug, PartialEq, Eq, Structural)]
pub struct Configuration {
    /// Keep the images' own file names in the archive.
    pub no_rename: bool,
    /// Remove the directory once its archive is written.
    pub delete: bool,
    /// Decode every image before it is accepted.
    pub verify: bool,
    /// Replace an existing archive without asking.
    pub overwrite: bool,
}

/// Where the processing of a directory stands.
#[derive(Clone, Copy, Debug, PartialEq, Eq, Structural)]
pub enum State {
    /// Nothing is known yet of the output path.
    Init,
    /// The operator was asked whether to replace the existing archive.
    ConfirmOverwrite,
    /// The directory is being scanned.
    Scanning,
    /// The archive is being written.
    Building,
    /// The directory is being removed.
    Deleting,
    /// The directory was skipped; nothing was written or removed.
    Aborted,
    /// The archive is written and, where asked for, the directory removed.
    Done,
    /// A step failed, or the machine was told something it did not await.
    Failed,
}

/// What the caller reports to the machine.
#[derive(Clone, Copy, Debug, PartialEq, Eq, Structural)]
pub enum Event {
    /// The output path was derived; `exists` says whether a file is there.
    OutputChecked { exists: bool },
    /// The operator answered the prompt.
    Answered { affirmative: bool },
    /// The scan ended and found `non_images` entries that are no images.
    Scanned { non_images: usize },
    /// The archive was written in full.
    Built,
    /// The directory was removed.
    Deleted,
    /// The step that was asked for failed.
    Failure,
}

/// What the machine asks the caller to do next.
#[derive(Clone, Copy, Debug, PartialEq, Eq, Structural)]
pub enum Action {
    /// Ask the operator whether the existing archive may be replaced.
    Prompt,
    /// Read and scan the directory.
    Scan,
    /// Show the entries that are no images to the operator, then stop.
    ReportNonImages,
    /// Write the archive.
    Build,
    /// Remove the directory and everything in it.
    Delete,
    /// Nothing more is to be done for this directory.
    Stop,
}

/// Lower case of a string, as `str::to_lowercase` gives it.
pub uninterp spec fn lowercase_of(text: Seq<char>) -> Seq<char>;

/// A string without leading and trailing white space, as `str::trim`
/// gives it.
pub uninterp spec fn trimmed(text: Seq<char>) -> Seq<char>;

/// Whether a normalised answer is a yes.
pub open spec fn is_yes_text(text: Seq<char>) -> bool {
    text == "y"@ || text == "yes"@
}

/// Whether the operator's answer allows the archive to be replaced: in
/// lower case and without surrounding white space it reads `y` or `yes`.
pub open spec fn affirmative(answer: Seq<char>) -> bool {
    is_yes_text(trimmed(lowercase_of(answer)))
}

/// Whether a state is final: the machine stays in it.
pub open spec fn is_terminal(state: State) -> bool {
    state == State::Aborted || state == State::Done || state == State::Failed
}

/// The transition of the machine: the state after `event`, and what the
/// caller is to do.
pub open spec fn step_of(config: Configuration, state: State, event: Event) -> (State, Action) {
    match (state, event) {
        (State::Aborted, _) => (State::Aborted, Action::Stop),
        (State::Done, _) => (State::Done, Action::Stop),
        (State::Failed, _) => (State::Failed, Action::Stop),
        (State::Init, Event::OutputChecked { exists }) => if exists && !config.overwrite {
            (State::ConfirmOverwrite, Action::Prompt)
        } else {
            (State::Scanning, Action::Scan)
        },
        (State::ConfirmOverwrite, Event::Answered { affirmative }) => if affirmative {
            (State::Scanning, Action::Scan)
        } else {
            (State::Aborted, Action::Stop)
        },
        (State::Scanning, Event::Scanned { non_images }) => if non_images > 0 {
            (State::Aborted, Action::ReportNonImages)
        } else {
            (State::Building, Action::Build)
        },
        (State::Building, Event::Built) => if config.delete {
            (State::Deleting, Action::Delete)
        } else {
            (State::Done, Action::Stop)
        },
        (State::Deleting, Event::Deleted) => (State::Done, Action::Stop),
        _ => (State::Failed, Action::Stop),
    }
}

/// Calls `str::to_lowercase`. Trusted: the result is a function of the
/// text alone, named `lowercase_of`.
#[verifier::external_body]
fn lowercase(text: &str) -> (lower: String)
    ensures
        lower@ == lowercase_of(text@),
{
    text.to_lowercase()
}

/// Calls `str::trim`. Trusted: the result is a function of the text alone,
/// named `trimmed`.
#[verifier::external_body]
fn trim(text: &str) -> (inner: &str)
    ensures
        inner@ == trimmed(text@),
{
    text.trim()
}

/// Whether a normalised answer reads `y` or `yes`.
pub fn is_yes(text: &str) -> (yes: bool)
    ensures
        yes == is_yes_text(text@),
{
    let given = String::from_str(text);
    given == String::from_str("y") || given == String::from_str("yes")
}

/// Whether the operator's answer to the overwrite prompt is a yes. Case
/// and surrounding white space do not count.
pub fn is_affirmative(answer: &str) -> (yes: bool)
    ensures
        yes == affirmative(answer@),
{
    let lower = lowercase(answer);
    is_yes(trim(lower.as_str()))
}

/// Advances the machine by one event.
pub fn step(config: &Configuration, state: State, event: Event) -> (next: (State, Action))
    ensures
        next == step_of(*config, state, event),
{
    match (state, event) {
        (State::Aborted, _) => (State::Aborted, Action::Stop),
        (State::Done, _) => (State::Done, Action::Stop),
        (State::Failed, _) => (State::Failed, Action::Stop),
        (State::Init, Event::OutputChecked { exists }) => if exists && !config.overwrite {
            (State::ConfirmOverwrite, Action::Prompt)
        } else {
            (State::Scanning, Action::Scan)
        },
        (State::ConfirmOverwrite, Event::Answered { affirmative }) => if affirmative {
            (State::Scanning, Action::Scan)
        } else {
            (State::Aborted, Action::Stop)
        },
        (State::Scanning, Event::Scanned { non_images }) => if non_images > 0 {
            (State::Aborted, Action::ReportNonImages)
        } else {
            (State::Building, Action::Build)
        },
        (State::Building, Event::Built) => if config.delete {
            (State::Deleting, Action::Delete)
        } else {
            (State::Done, Action::Stop)
        },
        (State::Deleting, Event::Deleted) => (State::Done, Action::Stop),
        _ => (State::Failed, Action::Stop),
    }
}

/// The states through which a run of events leads, starting in `state`.
pub open spec fn state_after(config: Configuration, state: State, events: Seq<Event>) -> State
    decreases events.len(),
{
    if events.len() == 0 {
        state
    } else {
        step_of(config, state_after(config, state, events.drop_last()), events.last()).0
    }
}

/// The archive is written only after a scan that found nothing but images
/// and excluded files: one entry that is no image keeps the machine from
/// ever asking for the build.
pub proof fn lemma_build_needs_clean_scan(
    config: Configuration,
    state: State,
    event: Event,
    non_images: usize,
)
    ensures
        step_of(config, state, event).1 == Action::Build <==> state == State::Scanning && event
            == (Event::Scanned { non_images: 0 }),
        non_images > 0 ==> step_of(config, State::Scanning, Event::Scanned { non_images }) == (
            State::Aborted,
            Action::ReportNonImages,
        ),
{
}

/// One entry that is no image blocks the whole directory: whatever else
/// the listing holds, the machine answers its scan by reporting and
/// aborting, and asks for no build.
pub proof fn lemma_non_image_blocks_build(
    config: Configuration,
    listing: Seq<DirEntryView>,
    verify: bool,
    i: int,
)
    requires
        listing.len() <= usize::MAX,
        0 <= i < listing.len(),
        class_of(listing[i], verify) == EntryClass::NonImage,
    ensures
        step_of(
            config,
            State::Scanning,
            Event::Scanned { non_images: scan_of(listing, verify).non_images.len() as usize },
        ) == (State::Aborted, Action::ReportNonImages),
{
    lemma_non_image_is_reported(listing, verify, i);
    lemma_scan_partitions(listing, verify);
}

/// The directory is removed only when removal was asked for and the build
/// has just reported success. A failed build leads to `Failed` and asks
/// for nothing.
pub proof fn lemma_delete_needs_built(config: Configuration, state: State, event: Event)
    ensures
        step_of(config, state, event).1 == Action::Delete <==> state == State::Building && event
            == Event::Built && config.delete,
        state == State::Building && event == Event::Failure ==> step_of(config, state, event) == (
            State::Failed,
            Action::Stop,
        ),
{
}

/// An existing archive is replaced only with leave: with `overwrite` the
/// scan starts at once, without it the operator is asked, and any answer
/// but a yes skips the directory.
pub proof fn lemma_overwrite_needs_leave(config: Configuration, exists: bool, affirmative: bool)
    ensures
        step_of(config, State::Init, Event::OutputChecked { exists }) == if exists
            && !config.overwrite {
            (State::ConfirmOverwrite, Action::Prompt)
        } else {
            (State::Scanning, Action::Scan)
        },
        step_of(config, State::ConfirmOverwrite, Event::Answered { affirmative }) == if affirmative {
            (State::Scanning, Action::Scan)
        } else {
            (State::Aborted, Action::Stop)
        },
{
}

/// A final state is never left, and in it the machine asks for nothing:
/// after a directory was skipped or a step failed, no later event brings
/// a build or a removal.
pub proof fn lemma_terminal_stays(config: Configuration, state: State, events: Seq<Event>)
    requires
        is_terminal(state),
    ensures
        state_after(config, state, events) == state,
        forall|event: Event| #[trigger] step_of(config, state, event) == (state, Action::Stop),
    decreases events.len(),
{
    if events.len() > 0 {
        lemma_terminal_stays(config, state, events.drop_last());
    }
}

} // verus!
