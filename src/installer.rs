use vstd::prelude::*;
use crate::env_vars::{default_root, root_of};
use crate::planner::{plan, spec_plan, str_opt_view, Plan};

verus! {

/// Relies on std::io::Error only as an opaque value carried by `Error::IO`.
#[verifier::external_type_specification]
#[verifier::external_body]
pub struct ExIoError(std::io::Error);

/// Why a run did not end with the SDK ready at its default root.
#[derive(Debug)]
pub enum Error {
    IO(std::io::Error),
    FailedCurlSetup(String),
    FailedSdkDownload,
    FailedCommand(String),
    FailedSetEnvVar,
    /// User has sdk in non default directory
    /// Recommend continuing silently
    NonDefaultDir,
    /// Env vars needed to be reset
    /// Probably the user has not sourced .bash_profile yet
    /// Recommend continuing silently
    ResetEnvVars(String),
    /// User has chosen not to install the sdk
    ChoseNotToInstall,
}

/// Asks the user whether to install.
pub trait Question {
    spec fn ready(&self) -> bool;

    fn ask(&mut self) -> bool
        requires
            old(self).ready(),
    ;
}

/// Told the progress of the download: `(downloaded_so_far, total)`.
/// Returning `false` cancels it.
pub trait Progress {
    spec fn ready(&self) -> bool;

    fn report(&mut self, downloaded: u64, total: u64) -> bool
        requires
            old(self).ready(),
    ;
}

/// Told that a stage of the install has been reached.
pub trait Notice {
    spec fn ready(&self) -> bool;

    fn notify(&mut self)
        requires
            old(self).ready(),
    ;
}

impl<F: FnMut() -> bool> Question for F {
    open spec fn ready(&self) -> bool {
        call_requires(*self, ())
    }

    fn ask(&mut self) -> bool {
        (self)()
    }
}

impl<F: FnMut(u64, u64) -> bool> Progress for F {
    open spec fn ready(&self) -> bool {
        forall|d: u64, t: u64| call_requires(*self, (d, t))
    }

    fn report(&mut self, downloaded: u64, total: u64) -> bool {
        (self)(downloaded, total)
    }
}

impl<F: FnMut()> Notice for F {
    open spec fn ready(&self) -> bool {
        call_requires(*self, ())
    }

    fn notify(&mut self) {
        (self)()
    }
}

/// Specify callbacks to the user
/// for the install.
pub struct Message {
    /// Initial question, do they want to install?
    pub question: Box<dyn Question>,
    /// This function gives progress while the download is happening
    /// (download_so_far, total_file_size)
    pub progress: Box<dyn Progress>,
    /// Message for when unpacking tar
    pub unpacking: Box<dyn Notice>,
    /// Message for when complete
    pub complete: Box<dyn Notice>,
}

/// Either install silently
/// or with a call messages.
pub enum Install {
    Silent,
    Message(Message),
}

/// How a run ended: exactly one per run.
#[derive(Debug)]
pub enum Outcome {
    AlreadyInstalled,
    TemporarilyFixedUp,
    Installed,
    DeclinedByUser,
    NonDefaultLocation,
    Failed(Error),
}

/// Where a run stands.
#[derive(Clone, Copy, Debug, PartialEq, Eq, Structural)]
pub enum Stage {
    Planning,
    AwaitingConsent,
    Downloading,
    Unpacking,
    Persisting,
    Applying,
    FixingUp,
    Done,
}

/// What the caller does next, on the installer's behalf.
#[derive(Debug)]
pub enum Action {
    /// Ask the user (the question callback) and report the answer.
    AskConsent,
    /// Download the archive into a temporary directory.
    Download,
    /// Move the archive under the install root and extract it there.
    Unpack,
    /// Persist every variable of the persistent plan, in order.
    PersistAll,
    /// Apply every variable of the process plan to this process, in order.
    ApplyAll,
    /// Stop: the run is over.
    Finish(Outcome),
    /// Nothing: the event did not fit the stage.
    Idle,
}

/// What the caller reports back after the last action.
#[derive(Debug)]
pub enum Event {
    /// The primary variable, and whether the default root exists and holds files.
    Inspected { sdk_var: Option<String>, root_exists: bool, root_nonempty: bool },
    Consent(bool),
    Downloaded(Result<(), Error>),
    Unpacked(Result<(), Error>),
    Persisted(Result<(), Error>),
    Applied(Result<(), Error>),
}

/// The installation state machine.
pub struct Installer {
    pub silent: bool,
    pub root: String,
    pub stage: Stage,
}

/// After a step that reported `r`: on to `next` with `a`, or the run ends
/// failed with the reported error.
pub open spec fn finish_or(r: Result<(), Error>, next: Stage, a: Action) -> (Stage, Action) {
    match r {
        Ok(_) => (next, a),
        Err(e) => (Stage::Done, Action::Finish(Outcome::Failed(e))),
    }
}

/// One transition: from `stage`, on `e`, to the next stage and its action.
pub open spec fn spec_step(silent: bool, root: Seq<char>, stage: Stage, e: Event) -> (Stage, Action) {
    match (stage, e) {
        (Stage::Planning, Event::Inspected { sdk_var, root_exists, root_nonempty }) => match spec_plan(
            str_opt_view(sdk_var),
            root,
            root_exists,
            root_nonempty,
        ) {
            Plan::NoOp => (Stage::Done, Action::Finish(Outcome::AlreadyInstalled)),
            Plan::Reject => (Stage::Done, Action::Finish(Outcome::NonDefaultLocation)),
            Plan::TempFixup => (Stage::FixingUp, Action::ApplyAll),
            Plan::FullInstall => if silent {
                (Stage::Downloading, Action::Download)
            } else {
                (Stage::AwaitingConsent, Action::AskConsent)
            },
        },
        (Stage::AwaitingConsent, Event::Consent(yes)) => if yes {
            (Stage::Downloading, Action::Download)
        } else {
            (Stage::Done, Action::Finish(Outcome::DeclinedByUser))
        },
        (Stage::Downloading, Event::Downloaded(r)) => finish_or(r, Stage::Unpacking, Action::Unpack),
        (Stage::Unpacking, Event::Unpacked(r)) => finish_or(r, Stage::Persisting, Action::PersistAll),
        (Stage::Persisting, Event::Persisted(r)) => finish_or(r, Stage::Applying, Action::ApplyAll),
        (Stage::Applying, Event::Applied(r)) => finish_or(
            r,
            Stage::Done,
            Action::Finish(Outcome::Installed),
        ),
        (Stage::FixingUp, Event::Applied(r)) => finish_or(
            r,
            Stage::Done,
            Action::Finish(Outcome::TemporarilyFixedUp),
        ),
        _ => (stage, Action::Idle),
    }
}

/// The actions of a run that starts at `stage` and is handed `events`.
pub open spec fn run(silent: bool, root: Seq<char>, stage: Stage, events: Seq<Event>) -> Seq<Action>
    decreases events.len(),
{
    if events.len() == 0 {
        Seq::empty()
    } else {
        let (next, a) = spec_step(silent, root, stage, events[0]);
        seq![a] + run(silent, root, next, events.drop_first())
    }
}

/// An action that touches neither the disk, the network, the profile nor
/// the process environment.
pub open spec fn is_quiet(a: Action) -> bool {
    a is Idle || a is Finish
}

/// `r` is what a caller gets for the outcome `o` when the install root is
/// `root`: the root itself after an install or when already installed, an
/// error that names the outcome otherwise.
pub open spec fn spec_result(o: Outcome, root: Seq<char>, r: Result<String, Error>) -> bool {
    match o {
        Outcome::AlreadyInstalled | Outcome::Installed => r is Ok && r->Ok_0@ == root,
        Outcome::TemporarilyFixedUp => match r {
            Err(Error::ResetEnvVars(p)) => p@ == root,
            _ => false,
        },
        Outcome::DeclinedByUser => r matches Err(Error::ChoseNotToInstall),
        Outcome::NonDefaultLocation => r matches Err(Error::NonDefaultDir),
        Outcome::Failed(e) => r == Err::<String, Error>(e),
    }
}

fn finish_or_exec(r: Result<(), Error>, next: Stage, a: Action) -> (p: (Stage, Action))
    ensures
        p == finish_or(r, next, a),
{
    match r {
        Ok(_) => (next, a),
        Err(e) => (Stage::Done, Action::Finish(Outcome::Failed(e))),
    }
}

impl Installer {
    /// A run for the user whose home directory is `home`, at its start.
    pub fn new(install: &Install, home: &str) -> (r: Installer)
        ensures
            r.silent == (*install is Silent),
            r.root@ == root_of(home@),
            r.stage == Stage::Planning,
    {
        let silent = match install {
            Install::Silent => true,
            Install::Message(_) => false,
        };
        Installer { silent, root: default_root(home), stage: Stage::Planning }
    }

    /// Takes the report of the last action and returns the next one.
    pub fn step(&mut self, e: Event) -> (a: Action)
        ensures
            (final(self).stage, a) == spec_step(old(self).silent, old(self).root@, old(self).stage, e),
            final(self).silent == old(self).silent,
            final(self).root == old(self).root,
    {
        let (next, a) = match (self.stage, e) {
            (Stage::Planning, Event::Inspected { sdk_var, root_exists, root_nonempty }) => {
                match plan(&sdk_var, &self.root, root_exists, root_nonempty) {
                    Plan::NoOp => (Stage::Done, Action::Finish(Outcome::AlreadyInstalled)),
                    Plan::Reject => (Stage::Done, Action::Finish(Outcome::NonDefaultLocation)),
                    Plan::TempFixup => (Stage::FixingUp, Action::ApplyAll),
                    Plan::FullInstall => if self.silent {
                        (Stage::Downloading, Action::Download)
                    } else {
                        (Stage::AwaitingConsent, Action::AskConsent)
                    },
                }
            },
            (Stage::AwaitingConsent, Event::Consent(yes)) => if yes {
                (Stage::Downloading, Action::Download)
            } else {
                (Stage::Done, Action::Finish(Outcome::DeclinedByUser))
            },
            (Stage::Downloading, Event::Downloaded(r)) => finish_or_exec(
                r,
                Stage::Unpacking,
                Action::Unpack,
            ),
            (Stage::Unpacking, Event::Unpacked(r)) => finish_or_exec(
                r,
                Stage::Persisting,
                Action::PersistAll,
            ),
            (Stage::Persisting, Event::Persisted(r)) => finish_or_exec(
                r,
                Stage::Applying,
                Action::ApplyAll,
            ),
            (Stage::Applying, Event::Applied(r)) => finish_or_exec(
                r,
                Stage::Done,
                Action::Finish(Outcome::Installed),
            ),
            (Stage::FixingUp, Event::Applied(r)) => finish_or_exec(
                r,
                Stage::Done,
                Action::Finish(Outcome::TemporarilyFixedUp),
            ),
            (stage, _) => (stage, Action::Idle),
        };
        self.stage = next;
        a
    }

    /// What `check_or_install` hands its caller: the install root, or
    /// the error that stands for the outcome.
    pub fn result(&self, o: Outcome) -> (r: Result<String, Error>)
        ensures
            spec_result(o, self.root@, r),
    {
        match o {
            Outcome::AlreadyInstalled => Ok(self.root.clone()),
            Outcome::Installed => Ok(self.root.clone()),
            Outcome::TemporarilyFixedUp => Err(Error::ResetEnvVars(self.root.clone())),
            Outcome::DeclinedByUser => Err(Error::ChoseNotToInstall),
            Outcome::NonDefaultLocation => Err(Error::NonDefaultDir),
            Outcome::Failed(e) => Err(e),
        }
    }
}

/// Unfolds one step of a run whose first event is `e`.
proof fn lemma_run_cons(silent: bool, root: Seq<char>, stage: Stage, e: Event, rest: Seq<Event>)
    ensures
        run(silent, root, stage, seq![e] + rest) == seq![spec_step(silent, root, stage, e).1] + run(
            silent,
            root,
            spec_step(silent, root, stage, e).0,
            rest,
        ),
{
    let events = seq![e] + rest;
    assert(events[0] == e);
    assert(events.drop_first() =~= rest);
}

/// Once a run is over, every further event is ignored.
pub proof fn lemma_done_is_idle(silent: bool, root: Seq<char>, events: Seq<Event>)
    ensures
        run(silent, root, Stage::Done, events).len() == events.len(),
        forall|i: int|
            0 <= i < events.len() ==> #[trigger] run(silent, root, Stage::Done, events)[i] is Idle,
    decreases events.len(),
{
    if events.len() > 0 {
        lemma_done_is_idle(silent, root, events.drop_first());
    }
}

/// While the process variables are being fixed up, nothing but that
/// fix-up is done: every further action is quiet.
pub proof fn lemma_fixing_up_is_quiet(silent: bool, root: Seq<char>, events: Seq<Event>)
    ensures
        run(silent, root, Stage::FixingUp, events).len() == events.len(),
        forall|i: int|
            0 <= i < events.len() ==> is_quiet(#[trigger] run(silent, root, Stage::FixingUp, events)[i]),
    decreases events.len(),
{
    if events.len() > 0 {
        let (next, a) = spec_step(silent, root, Stage::FixingUp, events[0]);
        if next == Stage::Done {
            lemma_done_is_idle(silent, root, events.drop_first());
        } else {
            lemma_fixing_up_is_quiet(silent, root, events.drop_first());
        }
    }
}

/// When the primary variable names the default root and the SDK is there,
/// the run ends at once as already installed and does nothing else.
pub proof fn lemma_installed_default_is_kept(
    silent: bool,
    root: Seq<char>,
    sdk_var: String,
    rest: Seq<Event>,
)
    requires
        sdk_var@ == root,
    ensures
        ({
            let acts = run(
                silent,
                root,
                Stage::Planning,
                seq![Event::Inspected { sdk_var: Some(sdk_var), root_exists: true, root_nonempty: true }]
                    + rest,
            );
            &&& acts.len() == rest.len() + 1
            &&& acts[0] matches Action::Finish(Outcome::AlreadyInstalled)
            &&& forall|i: int| 1 <= i < acts.len() ==> #[trigger] acts[i] is Idle
        }),
{
    let e = Event::Inspected { sdk_var: Some(sdk_var), root_exists: true, root_nonempty: true };
    lemma_run_cons(silent, root, Stage::Planning, e, rest);
    lemma_done_is_idle(silent, root, rest);
}

/// When the primary variable is set to anything but an installed default
/// root, the run ends at once as a non-default location: nothing is
/// downloaded, unpacked, persisted or applied.
pub proof fn lemma_other_location_is_untouched(
    silent: bool,
    root: Seq<char>,
    sdk_var: String,
    root_exists: bool,
    root_nonempty: bool,
    rest: Seq<Event>,
)
    requires
        !(sdk_var@ == root && root_exists && root_nonempty),
    ensures
        ({
            let acts = run(
                silent,
                root,
                Stage::Planning,
                seq![Event::Inspected { sdk_var: Some(sdk_var), root_exists, root_nonempty }]
                    + rest,
            );
            &&& acts.len() == rest.len() + 1
            &&& acts[0] matches Action::Finish(Outcome::NonDefaultLocation)
            &&& forall|i: int| 1 <= i < acts.len() ==> #[trigger] acts[i] is Idle
        }),
{
    let e = Event::Inspected { sdk_var: Some(sdk_var), root_exists, root_nonempty };
    lemma_run_cons(silent, root, Stage::Planning, e, rest);
    lemma_done_is_idle(silent, root, rest);
}

/// When the primary variable is unset but the root is on disk, the run
/// applies the process plan and nothing else: no download, no unpacking,
/// nothing persisted.
pub proof fn lemma_fixup_only_applies(
    silent: bool,
    root: Seq<char>,
    root_nonempty: bool,
    rest: Seq<Event>,
)
    ensures
        ({
            let acts = run(
                silent,
                root,
                Stage::Planning,
                seq![Event::Inspected { sdk_var: None, root_exists: true, root_nonempty }] + rest,
            );
            &&& acts.len() == rest.len() + 1
            &&& acts[0] is ApplyAll
            &&& forall|i: int| 1 <= i < acts.len() ==> is_quiet(#[trigger] acts[i])
        }),
{
    let e = Event::Inspected { sdk_var: None, root_exists: true, root_nonempty };
    lemma_run_cons(silent, root, Stage::Planning, e, rest);
    lemma_fixing_up_is_quiet(silent, root, rest);
}

/// When the user declines, the run ends as declined right after the
/// question, and nothing is downloaded, unpacked, persisted or applied.
pub proof fn lemma_declined_does_nothing(
    root: Seq<char>,
    root_nonempty: bool,
    rest: Seq<Event>,
)
    ensures
        ({
            let acts = run(
                false,
                root,
                Stage::Planning,
                seq![
                    Event::Inspected { sdk_var: None, root_exists: false, root_nonempty },
                    Event::Consent(false),
                ] + rest,
            );
            &&& acts.len() == rest.len() + 2
            &&& acts[0] is AskConsent
            &&& acts[1] matches Action::Finish(Outcome::DeclinedByUser)
            &&& forall|i: int| 2 <= i < acts.len() ==> #[trigger] acts[i] is Idle
        }),
{
    let e0 = Event::Inspected { sdk_var: None, root_exists: false, root_nonempty };
    let e1 = Event::Consent(false);
    assert(seq![e0, e1] + rest =~= seq![e0] + (seq![e1] + rest));
    lemma_run_cons(false, root, Stage::Planning, e0, seq![e1] + rest);
    lemma_run_cons(false, root, Stage::AwaitingConsent, e1, rest);
    lemma_done_is_idle(false, root, rest);
}

/// A silent install where every step succeeds downloads, unpacks, persists
/// and applies, in that order, and ends as installed.
pub proof fn lemma_silent_install_runs_every_step(root: Seq<char>, root_nonempty: bool)
    ensures
        ({
            let acts = run(
                true,
                root,
                Stage::Planning,
                seq![
                    Event::Inspected { sdk_var: None, root_exists: false, root_nonempty },
                    Event::Downloaded(Ok(())),
                    Event::Unpacked(Ok(())),
                    Event::Persisted(Ok(())),
                    Event::Applied(Ok(())),
                ],
            );
            &&& acts.len() == 5
            &&& acts[0] is Download
            &&& acts[1] is Unpack
            &&& acts[2] is PersistAll
            &&& acts[3] is ApplyAll
            &&& acts[4] matches Action::Finish(Outcome::Installed)
        }),
{
    let e0 = Event::Inspected { sdk_var: None, root_exists: false, root_nonempty };
    let e1 = Event::Downloaded(Ok(()));
    let e2 = Event::Unpacked(Ok(()));
    let e3 = Event::Persisted(Ok(()));
    let e4 = Event::Applied(Ok(()));
    let empty = Seq::<Event>::empty();
    assert(seq![e0, e1, e2, e3, e4] =~= seq![e0] + (seq![e1] + (seq![e2] + (seq![e3] + (seq![e4]
        + empty)))));
    lemma_run_cons(true, root, Stage::Planning, e0, seq![e1] + (seq![e2] + (seq![e3] + (seq![e4]
        + empty))));
    lemma_run_cons(true, root, Stage::Downloading, e1, seq![e2] + (seq![e3] + (seq![e4] + empty)));
    lemma_run_cons(true, root, Stage::Unpacking, e2, seq![e3] + (seq![e4] + empty));
    lemma_run_cons(true, root, Stage::Persisting, e3, seq![e4] + empty);
    lemma_run_cons(true, root, Stage::Applying, e4, empty);
}

} // verus!
