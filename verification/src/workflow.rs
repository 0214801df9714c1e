//! The update workflow.
//!
//! The workflow is a state machine without retries. The caller performs each
//! `Action` that the machine asks for and reports what came of it as an
//! `Event`; the machine answers with the next state and the next action. All
//! decisions are taken here: the caller reads, writes, fetches and renames,
//! and nothing else.
//!
//! The live script is replaced when the version of the candidate equals the
//! version of the live script, and the candidate is discarded when the two
//! differ.

use vstd::prelude::*;
use vstd::string::StringExecFns;
use crate::clock::local_time_text;
use crate::error::{ErrorView, UpdaterError};
use crate::prefs::{malformed_declaration, merge, minify};
use crate::version::{get_version_info, parse_header, Version, VersionView};

verus! {

/// The path of the live script.
pub const LIVE_FILE: &'static str = "user.js";

/// The path of the overrides file.
pub const OVERRIDES_FILE: &'static str = "user-overrides.js";

/// The path of the staging file.
pub const STAGING_FILE: &'static str = "user.js.new";

/// What the caller chose on the command line.
#[derive(Debug, Clone, Copy)]
pub struct Arguments {
    /// Run without asking the user.
    pub unattended: bool,
    /// Merge the overrides into the candidate; without it they are appended.
    pub minify: bool,
    /// Reserved; the workflow does not read it.
    pub single_backup: bool,
}

/// Where a run stands. The first six states wait for the outcome of the
/// action that was asked for last; the last five are final.
#[derive(Debug)]
pub enum State {
    /// Waiting for the header of the live script.
    ReadingLive,
    /// Waiting for the user's choice from the menu.
    Prompting { old: Version },
    /// Waiting for the upstream script.
    Fetching { old: Version },
    /// Waiting for the text of the overrides file.
    ReadingOverrides { old: Version, candidate: String },
    /// Waiting for the staging file to be written.
    WritingStaging { old: Version },
    /// Waiting for the header of the staging file.
    ReadingStaging { old: Version },
    /// Waiting for the live script to be renamed to its backup.
    BackingUp { version: Version },
    /// Waiting for the staging file to be renamed to the live script.
    Promoting,
    /// Waiting for the staging file to be removed.
    Discarding,
    /// The candidate replaced the live script.
    Committed,
    /// The candidate was dropped; the live script is as it was.
    Discarded,
    /// The user left at the menu.
    Cancelled,
    /// The user asked for the help text.
    HelpShown,
    /// The run failed.
    Failed(UpdaterError),
}

/// What the caller is asked to do next.
#[derive(Debug)]
pub enum Action {
    /// Read the first four lines of the live script.
    ReadLiveHeader,
    /// Show the menu and take the user's choice.
    Prompt,
    /// Show the help text; the run is over.
    ShowHelp,
    /// Fetch the upstream script.
    Fetch,
    /// Read the whole overrides file.
    ReadOverrides,
    /// Write this text to the staging file.
    WriteStaging(String),
    /// Read the first four lines of the staging file.
    ReadStagingHeader,
    /// Rename the live script to this name.
    BackupLive(String),
    /// Rename the staging file to the live script.
    PromoteStaging,
    /// Remove the staging file.
    RemoveStaging,
    /// Nothing; the run is over.
    Stop,
}

/// What came of the action that was asked for last.
#[derive(Debug)]
pub enum Event {
    /// The text that was read or fetched.
    Text(String),
    /// The file to read does not exist.
    Missing,
    /// The entry chosen from the menu, counted from 0; `None` when the user
    /// left the menu without choosing.
    Selected(Option<usize>),
    /// The file was written, renamed or removed.
    Done,
    /// A file operation, or the menu, failed.
    IoFailed(String),
    /// The fetch failed.
    NetworkFailed(String),
}

/// A `State` with its texts as character sequences.
pub enum StateView {
    ReadingLive,
    Prompting { old: VersionView },
    Fetching { old: VersionView },
    ReadingOverrides { old: VersionView, candidate: Seq<char> },
    WritingStaging { old: VersionView },
    ReadingStaging { old: VersionView },
    BackingUp { version: VersionView },
    Promoting,
    Discarding,
    Committed,
    Discarded,
    Cancelled,
    HelpShown,
    Failed(ErrorView),
}

/// An `Action` with its texts as character sequences.
pub enum ActionView {
    ReadLiveHeader,
    Prompt,
    ShowHelp,
    Fetch,
    ReadOverrides,
    WriteStaging(Seq<char>),
    ReadStagingHeader,
    BackupLive(Seq<char>),
    PromoteStaging,
    RemoveStaging,
    Stop,
}

/// An `Event` with its texts as character sequences.
pub enum EventView {
    Text(Seq<char>),
    Missing,
    Selected(Option<usize>),
    Done,
    IoFailed(Seq<char>),
    NetworkFailed(Seq<char>),
}

impl View for State {
    type V = StateView;

    open spec fn view(&self) -> StateView {
        match self {
            State::ReadingLive => StateView::ReadingLive,
            State::Prompting { old } => StateView::Prompting { old: old@ },
            State::Fetching { old } => StateView::Fetching { old: old@ },
            State::ReadingOverrides { old, candidate } => StateView::ReadingOverrides {
                old: old@,
                candidate: candidate@,
            },
            State::WritingStaging { old } => StateView::WritingStaging { old: old@ },
            State::ReadingStaging { old } => StateView::ReadingStaging { old: old@ },
            State::BackingUp { version } => StateView::BackingUp { version: version@ },
            State::Promoting => StateView::Promoting,
            State::Discarding => StateView::Discarding,
            State::Committed => StateView::Committed,
            State::Discarded => StateView::Discarded,
            State::Cancelled => StateView::Cancelled,
            State::HelpShown => StateView::HelpShown,
            State::Failed(e) => StateView::Failed(e@),
        }
    }
}

impl View for Action {
    type V = ActionView;

    open spec fn view(&self) -> ActionView {
        match self {
            Action::ReadLiveHeader => ActionView::ReadLiveHeader,
            Action::Prompt => ActionView::Prompt,
            Action::ShowHelp => ActionView::ShowHelp,
            Action::Fetch => ActionView::Fetch,
            Action::ReadOverrides => ActionView::ReadOverrides,
            Action::WriteStaging(text) => ActionView::WriteStaging(text@),
            Action::ReadStagingHeader => ActionView::ReadStagingHeader,
            Action::BackupLive(name) => ActionView::BackupLive(name@),
            Action::PromoteStaging => ActionView::PromoteStaging,
            Action::RemoveStaging => ActionView::RemoveStaging,
            Action::Stop => ActionView::Stop,
        }
    }
}

impl View for Event {
    type V = EventView;

    open spec fn view(&self) -> EventView {
        match self {
            Event::Text(text) => EventView::Text(text@),
            Event::Missing => EventView::Missing,
            Event::Selected(choice) => EventView::Selected(*choice),
            Event::Done => EventView::Done,
            Event::IoFailed(cause) => EventView::IoFailed(cause@),
            Event::NetworkFailed(cause) => EventView::NetworkFailed(cause@),
        }
    }
}

/// The name of the backup made at the time that `stamp` states.
pub open spec fn backup_name_of(stamp: Seq<char>) -> Seq<char> {
    "user-backup-"@ + stamp + ".js"@
}

/// The text of the candidate: the upstream script with the overrides merged
/// into it, or with the overrides after it and a line feed between the two.
pub open spec fn candidate_text(merging: bool, upstream: Seq<char>, overrides: Seq<char>) -> Result<
    Seq<char>,
    ErrorView,
> {
    if merging {
        match merge(upstream, overrides) {
            Some(text) => Ok(text),
            None => Err(malformed_declaration()),
        }
    } else {
        Ok(upstream + "\n"@ + overrides)
    }
}

/// The run is over in this state.
pub open spec fn is_final(state: StateView) -> bool {
    state is Committed || state is Discarded || state is Cancelled || state is HelpShown
        || state is Failed
}

/// How a run ends when an event comes that the state does not wait for.
pub open spec fn out_of_turn() -> (StateView, ActionView) {
    (StateView::Failed(ErrorView::IoError("Unexpected event"@)), ActionView::Stop)
}

/// How a run ends with an error.
pub open spec fn fail(e: ErrorView) -> (StateView, ActionView) {
    (StateView::Failed(e), ActionView::Stop)
}

/// The next state and the next action, for a state and the event that
/// answers its action. `stamp` is the local time as text; it is read only
/// where the live script is about to be backed up.
pub open spec fn step(args: Arguments, state: StateView, event: EventView, stamp: Seq<char>) -> (
    StateView,
    ActionView,
) {
    if is_final(state) {
        (state, ActionView::Stop)
    } else if let EventView::IoFailed(cause) = event {
        fail(ErrorView::IoError(cause))
    } else {
        match (state, event) {
            (StateView::ReadingLive, EventView::Text(header)) => match parse_header(header) {
                Ok(old) => if args.unattended {
                    (StateView::Fetching { old }, ActionView::Fetch)
                } else {
                    (StateView::Prompting { old }, ActionView::Prompt)
                },
                Err(e) => fail(e),
            },
            (StateView::ReadingLive, EventView::Missing) => fail(ErrorView::MissingScript),
            (StateView::Prompting { old }, EventView::Selected(choice)) => match choice {
                None => (StateView::Cancelled, ActionView::Stop),
                Some(n) => if n == 2 {
                    (StateView::Cancelled, ActionView::Stop)
                } else if n == 1 {
                    (StateView::HelpShown, ActionView::ShowHelp)
                } else {
                    (StateView::Fetching { old }, ActionView::Fetch)
                },
            },
            (StateView::Fetching { old }, EventView::Text(upstream)) => (
                StateView::ReadingOverrides { old, candidate: upstream },
                ActionView::ReadOverrides,
            ),
            (StateView::Fetching { old }, EventView::NetworkFailed(cause)) => fail(
                ErrorView::NetworkError(cause),
            ),
            (StateView::ReadingOverrides { old, candidate }, EventView::Text(overrides)) => {
                match candidate_text(args.minify, candidate, overrides) {
                    Ok(text) => (StateView::WritingStaging { old }, ActionView::WriteStaging(text)),
                    Err(e) => fail(e),
                }
            },
            (StateView::ReadingOverrides { old, candidate }, EventView::Missing) => fail(
                ErrorView::MissingOverrides,
            ),
            (StateView::WritingStaging { old }, EventView::Done) => (
                StateView::ReadingStaging { old },
                ActionView::ReadStagingHeader,
            ),
            (StateView::ReadingStaging { old }, EventView::Text(header)) => match parse_header(
                header,
            ) {
                Ok(new) => if new == old {
                    (
                        StateView::BackingUp { version: new },
                        ActionView::BackupLive(backup_name_of(stamp)),
                    )
                } else {
                    (StateView::Discarding, ActionView::RemoveStaging)
                },
                Err(e) => fail(e),
            },
            (StateView::BackingUp { version }, EventView::Done) => (
                StateView::Promoting,
                ActionView::PromoteStaging,
            ),
            (StateView::Promoting, EventView::Done) => (StateView::Committed, ActionView::Stop),
            (StateView::Discarding, EventView::Done) => (StateView::Discarded, ActionView::Stop),
            _ => out_of_turn(),
        }
    }
}

/// The action writes, renames or removes a file.
pub open spec fn changes_files(action: ActionView) -> bool {
    action is WriteStaging || action is BackupLive || action is PromoteStaging
        || action is RemoveStaging
}

/// The action renames the live script, or puts a file in its place.
pub open spec fn touches_live(action: ActionView) -> bool {
    action is BackupLive || action is PromoteStaging
}

/// The action ends the run.
pub open spec fn ends_run(action: ActionView) -> bool {
    action is Stop || action is ShowHelp
}

/// An upper bound on the number of steps that a run in `state` has left.
pub open spec fn steps_left(state: StateView) -> nat {
    match state {
        StateView::ReadingLive => 9,
        StateView::Prompting { .. } => 8,
        StateView::Fetching { .. } => 7,
        StateView::ReadingOverrides { .. } => 6,
        StateView::WritingStaging { .. } => 5,
        StateView::ReadingStaging { .. } => 4,
        StateView::BackingUp { .. } => 3,
        StateView::Promoting => 2,
        StateView::Discarding => 2,
        _ => 0,
    }
}

/// The workflow is linear and has no retries: every step of a run that is
/// not over brings it nearer to its end, the run is over exactly when the
/// action that came with the state ends it, and a run that is over stays as
/// it is.
pub proof fn lemma_no_retries(args: Arguments, state: StateView, event: EventView, stamp: Seq<char>)
    ensures
        !is_final(state) ==> steps_left(step(args, state, event, stamp).0) < steps_left(state),
        is_final(step(args, state, event, stamp).0) <==> ends_run(
            step(args, state, event, stamp).1,
        ),
        is_final(state) ==> step(args, state, event, stamp) == (state, ActionView::Stop),
{
}

/// A live script that is absent fails the run with `MissingScript`, and the
/// upstream script is asked for only after the header of the live script was
/// read and recognized.
pub proof fn lemma_fetch_follows_live_header(
    args: Arguments,
    state: StateView,
    event: EventView,
    stamp: Seq<char>,
)
    ensures
        step(args, StateView::ReadingLive, EventView::Missing, stamp) == fail(
            ErrorView::MissingScript,
        ),
        step(args, state, event, stamp).1 is Fetch ==> {
            ||| state is Prompting
            ||| state is ReadingLive && event is Text && parse_header(event->Text_0) is Ok
        },
{
}

/// An overrides file that is absent fails the run with `MissingOverrides`,
/// and no file is written, renamed or removed before the overrides were
/// read.
pub proof fn lemma_overrides_before_files(
    args: Arguments,
    state: StateView,
    event: EventView,
    stamp: Seq<char>,
)
    ensures
        state is ReadingOverrides && event is Missing ==> step(args, state, event, stamp) == fail(
            ErrorView::MissingOverrides,
        ),
        changes_files(step(args, state, event, stamp).1) ==> {
            ||| state is ReadingOverrides && event is Text
            ||| state is WritingStaging
            ||| state is ReadingStaging
            ||| state is BackingUp
        },
{
}

/// The decision: when the header of the staging file is read as the version
/// of the live script, the live script is backed up under the name for the
/// time given; when it is read as another version, the staging file is
/// removed; when it cannot be read, the run fails and nothing is renamed.
pub proof fn lemma_decision(
    args: Arguments,
    old: VersionView,
    header: Seq<char>,
    stamp: Seq<char>,
)
    ensures
        ({
            let next = step(
                args,
                StateView::ReadingStaging { old },
                EventView::Text(header),
                stamp,
            );
            match parse_header(header) {
                Ok(new) => if new == old {
                    next == (
                        StateView::BackingUp { version: new },
                        ActionView::BackupLive(backup_name_of(stamp)),
                    )
                } else {
                    next == (StateView::Discarding, ActionView::RemoveStaging)
                },
                Err(e) => next == fail(e),
            }
        }),
{
}

/// The live script is touched by the two renames of a commit and by nothing
/// else: the backup is asked for only when the two versions are equal, and
/// the promotion only when the backup was made.
pub proof fn lemma_live_is_safe(
    args: Arguments,
    state: StateView,
    event: EventView,
    stamp: Seq<char>,
)
    ensures
        step(args, state, event, stamp).1 is BackupLive ==> state is ReadingStaging && event is Text
            && parse_header(event->Text_0) == Ok::<VersionView, ErrorView>(
            state->ReadingStaging_old,
        ),
        step(args, state, event, stamp).1 is PromoteStaging ==> state is BackingUp
            && event is Done,
        step(args, state, event, stamp).0 is Committed ==> state is Committed || (
        state is Promoting && event is Done),
{
}

/// The staging file is on disk before the live script is touched: its
/// header is asked for only after it was written, and the decision is taken
/// only on that header.
pub proof fn lemma_staging_comes_first(
    args: Arguments,
    state: StateView,
    event: EventView,
    stamp: Seq<char>,
)
    ensures
        step(args, state, event, stamp).0 is ReadingStaging ==> state is WritingStaging
            && event is Done,
        step(args, state, event, stamp).0 is BackingUp ==> state is ReadingStaging,
        step(args, state, event, stamp).0 is Discarding ==> state is ReadingStaging,
{
}

/// The time is read only for the name of the backup: two steps from one
/// state on one event differ in nothing else.
pub proof fn lemma_stamp_only_names_backup(
    args: Arguments,
    state: StateView,
    event: EventView,
    one: Seq<char>,
    other: Seq<char>,
)
    ensures
        step(args, state, event, one).0 == step(args, state, event, other).0,
        !(step(args, state, event, one).1 is BackupLive) ==> step(args, state, event, one) == step(
            args,
            state,
            event,
            other,
        ),
{
}

/// The name of the backup made at the time that `stamp` states.
pub fn backup_name(stamp: &str) -> (r: String)
    ensures
        r@ == backup_name_of(stamp@),
{
    let mut name = String::from_str("user-backup-");
    name.append(stamp);
    name.append(".js");
    name
}

/// Builds the candidate from the upstream script and the overrides.
///
/// With `merging` the overrides are merged into the upstream script, which
/// fails if and only if a declaration line of either is malformed. Without it
/// the result is the upstream script, a line feed and the overrides, as they
/// are.
pub fn build_candidate(merging: bool, upstream: String, overrides: String) -> (r: Result<
    String,
    UpdaterError,
>)
    ensures
        match r {
            Ok(text) => candidate_text(merging, upstream@, overrides@) == Ok::<
                Seq<char>,
                ErrorView,
            >(text@),
            Err(e) => candidate_text(merging, upstream@, overrides@) == Err::<
                Seq<char>,
                ErrorView,
            >(e@),
        },
{
    if merging {
        minify(upstream, overrides)
    } else {
        let mut text = upstream;
        text.append("\n");
        text.append(overrides.as_str());
        Ok(text)
    }
}

/// The state and the action with which every run begins.
pub fn start() -> (r: (State, Action))
    ensures
        r.0@ == StateView::ReadingLive,
        r.1@ == ActionView::ReadLiveHeader,
{
    (State::ReadingLive, Action::ReadLiveHeader)
}

/// Whether the run is over in `state`.
pub fn finished(state: &State) -> (r: bool)
    ensures
        r == is_final(state@),
{
    match state {
        State::Committed => true,
        State::Discarded => true,
        State::Cancelled => true,
        State::HelpShown => true,
        State::Failed(_) => true,
        _ => false,
    }
}

/// The run ends with the error `e`.
fn failed(e: UpdaterError) -> (r: (State, Action))
    ensures
        (r.0@, r.1@) == fail(e@),
{
    (State::Failed(e), Action::Stop)
}

/// The run ends because `event` came out of turn.
fn unexpected() -> (r: (State, Action))
    ensures
        (r.0@, r.1@) == out_of_turn(),
{
    (State::Failed(UpdaterError::IoError(String::from_str("Unexpected event"))), Action::Stop)
}

/// One step of the workflow, with the local time given as `stamp`.
pub fn decide(args: &Arguments, state: State, event: Event, stamp: &str) -> (r: (State, Action))
    ensures
        (r.0@, r.1@) == step(*args, state@, event@, stamp@),
{
    if finished(&state) {
        return (state, Action::Stop);
    }
    match event {
        Event::IoFailed(cause) => failed(UpdaterError::IoError(cause)),
        Event::Text(text) => match state {
            State::ReadingLive => match get_version_info(text.as_str()) {
                Ok(old) => if args.unattended {
                    (State::Fetching { old }, Action::Fetch)
                } else {
                    (State::Prompting { old }, Action::Prompt)
                },
                Err(e) => failed(e),
            },
            State::Fetching { old } => (
                State::ReadingOverrides { old, candidate: text },
                Action::ReadOverrides,
            ),
            State::ReadingOverrides { old, candidate } => match build_candidate(
                args.minify,
                candidate,
                text,
            ) {
                Ok(built) => (State::WritingStaging { old }, Action::WriteStaging(built)),
                Err(e) => failed(e),
            },
            State::ReadingStaging { old } => match get_version_info(text.as_str()) {
                Ok(new) => if new == old {
                    (State::BackingUp { version: new }, Action::BackupLive(backup_name(stamp)))
                } else {
                    (State::Discarding, Action::RemoveStaging)
                },
                Err(e) => failed(e),
            },
            _ => unexpected(),
        },
        Event::Missing => match state {
            State::ReadingLive => failed(UpdaterError::MissingScript),
            State::ReadingOverrides { old, candidate } => failed(UpdaterError::MissingOverrides),
            _ => unexpected(),
        },
        Event::Selected(choice) => match state {
            State::Prompting { old } => match choice {
                None => (State::Cancelled, Action::Stop),
                Some(n) => if n == 2 {
                    (State::Cancelled, Action::Stop)
                } else if n == 1 {
                    (State::HelpShown, Action::ShowHelp)
                } else {
                    (State::Fetching { old }, Action::Fetch)
                },
            },
            _ => unexpected(),
        },
        Event::Done => match state {
            State::WritingStaging { old } => (
                State::ReadingStaging { old },
                Action::ReadStagingHeader,
            ),
            State::BackingUp { version } => (State::Promoting, Action::PromoteStaging),
            State::Promoting => (State::Committed, Action::Stop),
            State::Discarding => (State::Discarded, Action::Stop),
            _ => unexpected(),
        },
        Event::NetworkFailed(cause) => match state {
            State::Fetching { old } => failed(UpdaterError::NetworkError(cause)),
            _ => unexpected(),
        },
    }
}

/// One step of the workflow. Where the live script is about to be backed up,
/// the name of the backup holds the local time of this call.
pub fn advance(args: &Arguments, state: State, event: Event) -> (r: (State, Action))
    ensures
        exists|stamp: Seq<char>| (r.0@, r.1@) == step(*args, state@, event@, stamp),
{
    let stamp = match state {
        State::ReadingStaging { .. } => local_time_text("%Y-%m-%d_%H-%M-%S"),
        _ => String::new(),
    };
    decide(args, state, event, stamp.as_str())
}

} // verus!
