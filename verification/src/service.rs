//! The launchd agent `moji install` writes, and the paths it lives at.
//!
//! macOS keys a permission grant to the program launchd starts, so the agent names the running
//! binary with its symlinks resolved: inside `Moji.app` that is the bundle path both grants belong
//! to, while a loose binary is identified by a path that moves with every version. `KeepAlive` is
//! a `PathState` on that same program, so launchd does not restart the daemon while an upgrade is
//! still swapping the bundle underneath it.
//!
//! Installing and uninstalling are [`Install`] and [`Uninstall`]: each names one task after the
//! other, and learns how it went before it names the next.

use vstd::prelude::*;

use crate::clock::{Duration, Instant, MILLISECOND, SECOND};
use crate::paths::{a_relative_name_stays_under_its_base, join, joined};
use crate::text::{append_decimal, decimal};

verus! {

broadcast use vstd::string::group_string_axioms;

/// How long a job may take to go away.
pub const UNLOAD_TIMEOUT: Duration = 5 * SECOND;

/// How often launchd is asked whether it is gone.
pub const UNLOAD_POLL: Duration = 100 * MILLISECOND;

/// The launchd label of the agent `moji install` writes.
pub const LABEL: &'static str = "dev.pkarpovich.moji";

/// What is said of a directory or a file that was refused without a reason.
pub const REFUSED: &'static str = "it was refused";

/// What can go wrong while loading or unloading the agent.
#[derive(Debug, PartialEq, Eq)]
pub enum ServiceError {
    /// `HOME` is not set, so neither the agent nor the logs have a place to live.
    NoHome,
    /// The running binary could not be located, so the agent has no program to name.
    Executable {
        /// Why it could not be located.
        reason: String,
    },
    /// A directory the agent or its logs need could not be created.
    Directory {
        /// The directory that was refused.
        path: String,
        /// Why the file system refused it.
        reason: String,
    },
    /// The agent file could not be written.
    Write {
        /// The file that was refused.
        path: String,
        /// Why the file system refused it.
        reason: String,
    },
    /// The agent file could not be removed.
    Remove {
        /// The file that could not be removed.
        path: String,
        /// Why the file system refused it.
        reason: String,
    },
    /// `launchctl` itself could not be run.
    Launchctl {
        /// Why the process could not be spawned.
        reason: String,
    },
    /// `launchctl` ran and refused to load the agent.
    Bootstrap {
        /// The agent it refused.
        path: String,
    },
    /// `launchctl` ran and the job is still loaded after the wait.
    Bootout {
        /// The label that would not go away.
        label: String,
    },
}

/// A service error as plain text.
pub enum ServiceErrorView {
    /// `HOME` is not set.
    NoHome,
    /// The running binary could not be located.
    Executable {
        /// Why.
        reason: Seq<char>,
    },
    /// A directory could not be created.
    Directory {
        /// The directory.
        path: Seq<char>,
        /// Why.
        reason: Seq<char>,
    },
    /// The agent file could not be written.
    Write {
        /// The file.
        path: Seq<char>,
        /// Why.
        reason: Seq<char>,
    },
    /// The agent file could not be removed.
    Remove {
        /// The file.
        path: Seq<char>,
        /// Why.
        reason: Seq<char>,
    },
    /// `launchctl` itself could not be run.
    Launchctl {
        /// Why.
        reason: Seq<char>,
    },
    /// `launchctl` refused to load the agent.
    Bootstrap {
        /// The agent.
        path: Seq<char>,
    },
    /// The job is still loaded after the wait.
    Bootout {
        /// Its label.
        label: Seq<char>,
    },
}

impl View for ServiceError {
    type V = ServiceErrorView;

    open spec fn view(&self) -> ServiceErrorView {
        match self {
            ServiceError::NoHome => ServiceErrorView::NoHome,
            ServiceError::Executable { reason } => ServiceErrorView::Executable {
                reason: reason@,
            },
            ServiceError::Directory { path, reason } => ServiceErrorView::Directory {
                path: path@,
                reason: reason@,
            },
            ServiceError::Write { path, reason } => ServiceErrorView::Write {
                path: path@,
                reason: reason@,
            },
            ServiceError::Remove { path, reason } => ServiceErrorView::Remove {
                path: path@,
                reason: reason@,
            },
            ServiceError::Launchctl { reason } => ServiceErrorView::Launchctl { reason: reason@ },
            ServiceError::Bootstrap { path } => ServiceErrorView::Bootstrap { path: path@ },
            ServiceError::Bootout { label } => ServiceErrorView::Bootout { label: label@ },
        }
    }
}

impl ServiceErrorView {
    /// The error in words.
    pub open spec fn words(self) -> Seq<char> {
        match self {
            ServiceErrorView::NoHome =>
                "HOME is not set, so the service paths cannot be resolved"@,
            ServiceErrorView::Executable { reason } =>
                "the running binary could not be located: "@ + reason,
            ServiceErrorView::Directory { path, reason } => path + " could not be created: "@
                + reason,
            ServiceErrorView::Write { path, reason } => path + " could not be written: "@ + reason,
            ServiceErrorView::Remove { path, reason } => path + " could not be removed: "@
                + reason,
            ServiceErrorView::Launchctl { reason } => "launchctl could not be run: "@ + reason,
            ServiceErrorView::Bootstrap { path } => "launchctl refused to load "@ + path,
            ServiceErrorView::Bootout { label } => label
                + " is still loaded, so launchctl refused to unload it"@,
        }
    }
}

fn about(subject: &str, said: &str, reason: &str) -> (printed: String)
    ensures
        printed@ == subject@ + said@ + reason@,
{
    let mut printed = subject.to_string();
    printed.append(said);
    printed.append(reason);
    printed
}

impl ServiceError {
    /// Returns the error in words.
    pub fn to_string(&self) -> (printed: String)
        ensures
            printed@ == self@.words(),
    {
        match self {
            ServiceError::NoHome =>
                "HOME is not set, so the service paths cannot be resolved".to_string(),
            ServiceError::Executable { reason } => {
                let mut printed = "the running binary could not be located: ".to_string();
                printed.append(reason.as_str());
                printed
            },
            ServiceError::Directory { path, reason } => about(
                path.as_str(),
                " could not be created: ",
                reason.as_str(),
            ),
            ServiceError::Write { path, reason } => about(
                path.as_str(),
                " could not be written: ",
                reason.as_str(),
            ),
            ServiceError::Remove { path, reason } => about(
                path.as_str(),
                " could not be removed: ",
                reason.as_str(),
            ),
            ServiceError::Launchctl { reason } => {
                let mut printed = "launchctl could not be run: ".to_string();
                printed.append(reason.as_str());
                printed
            },
            ServiceError::Bootstrap { path } => {
                let mut printed = "launchctl refused to load ".to_string();
                printed.append(path.as_str());
                printed
            },
            ServiceError::Bootout { label } => {
                let mut printed = label.clone();
                printed.append(" is still loaded, so launchctl refused to unload it");
                printed
            },
        }
    }
}

/// Whether the running binary sits inside an application bundle.
///
/// It decides whether the Input Monitoring and Accessibility grants survive an upgrade: a bundle
/// is identified by its bundle id at a path that does not move, while a loose binary is identified
/// by its path alone, and every new version gets a path of its own.
#[derive(Debug, Clone, Copy, PartialEq, Eq, Structural)]
pub enum Housing {
    /// The binary is inside a `.app`, so the grants follow the bundle id.
    Bundle,
    /// The binary is loose, so the grants follow a path that changes with every version.
    Loose,
}

/// Where the agent and its logs live under a home directory.
#[derive(Debug, PartialEq, Eq)]
pub struct Layout {
    /// The agent file launchd reads.
    pub agent: String,
    /// Where the daemon's standard output is captured.
    pub log: String,
    /// Where the daemon's standard error is captured.
    pub errors: String,
}

impl Clone for Layout {
    fn clone(&self) -> (copy: Layout)
        ensures
            copy == *self,
    {
        Layout {
            agent: self.agent.clone(),
            log: self.log.clone(),
            errors: self.errors.clone(),
        }
    }
}

/// The directory the agent lives in.
pub open spec fn agents_under(home: Seq<char>) -> Seq<char> {
    joined(joined(home, "Library"@), "LaunchAgents"@)
}

/// The directory the logs live in.
pub open spec fn logs_under(home: Seq<char>) -> Seq<char> {
    joined(joined(joined(home, "Library"@), "Logs"@), "moji"@)
}

/// The agent file.
pub open spec fn agent_under(home: Seq<char>) -> Seq<char> {
    joined(agents_under(home), LABEL@ + ".plist"@)
}

/// The file the standard output is captured in.
pub open spec fn log_under(home: Seq<char>) -> Seq<char> {
    joined(logs_under(home), "moji.log"@)
}

/// The file the standard error is captured in.
pub open spec fn errors_under(home: Seq<char>) -> Seq<char> {
    joined(logs_under(home), "moji.err.log"@)
}

impl Layout {
    /// Whether this is the layout under a home directory.
    pub open spec fn is_under(self, home: Seq<char>) -> bool {
        &&& self.agent@ == agent_under(home)
        &&& self.log@ == log_under(home)
        &&& self.errors@ == errors_under(home)
    }
}

fn agents_dir(home: &str) -> (path: String)
    ensures
        path@ == agents_under(home@),
{
    join(join(home, "Library").as_str(), "LaunchAgents")
}

fn logs_dir(home: &str) -> (path: String)
    ensures
        path@ == logs_under(home@),
{
    join(join(join(home, "Library").as_str(), "Logs").as_str(), "moji")
}

/// Resolves the agent layout under a home directory.
pub fn layout(home: &str) -> (layout: Layout)
    ensures
        layout.is_under(home@),
{
    let agents = agents_dir(home);
    let logs = logs_dir(home);
    let mut file = LABEL.to_string();
    file.append(".plist");
    Layout {
        agent: join(agents.as_str(), file.as_str()),
        log: join(logs.as_str(), "moji.log"),
        errors: join(logs.as_str(), "moji.err.log"),
    }
}

/// Whether a name that ends in `.app` ends right before `end`, where `end` closes the path or a
/// component of it.
pub open spec fn bundle_ends(path: Seq<char>, end: int) -> bool {
    &&& 4 <= end <= path.len()
    &&& path[end - 4] == '.'
    &&& path[end - 3] == 'a'
    &&& path[end - 2] == 'p'
    &&& path[end - 1] == 'p'
    &&& end == path.len() || path[end] == '/'
}

/// Where a path leads through an application bundle, or to one.
pub open spec fn housed(path: Seq<char>) -> Housing {
    if exists|end: int| bundle_ends(path, end) {
        Housing::Bundle
    } else {
        Housing::Loose
    }
}

fn characters(text: &str) -> (characters: Vec<char>)
    ensures
        characters@ == text@,
{
    let mut characters: Vec<char> = Vec::new();
    for character in it: text.chars()
        invariant
            it.seq() == text@,
            characters@ == text@.take(it.index()),
    {
        characters.push(character);
        assert(characters@ =~= text@.take(it.index() + 1));
    }
    assert(text@.take(text@.len() as int) =~= text@);
    characters
}

/// Returns whether the program sits inside an application bundle.
pub fn housing(program: &str) -> (housing: Housing)
    ensures
        housing == housed(program@),
{
    let path = characters(program);
    let len: usize = path.len();
    let mut end: usize = 0;
    while end < len
        invariant
            len == path@.len(),
            path@ == program@,
            end <= len,
            forall|earlier: int| earlier <= end ==> !bundle_ends(program@, earlier),
        decreases len - end,
    {
        end += 1;
        if end >= 4 && path[end - 4] == '.' && path[end - 3] == 'a' && path[end - 2] == 'p'
            && path[end - 1] == 'p' && (end == len || path[end] == '/') {
            assert(bundle_ends(program@, end as int));
            return Housing::Bundle;
        }
    }
    Housing::Loose
}

/// What one character is written as in an XML text.
pub open spec fn entity(character: char) -> Seq<char> {
    if character == '&' {
        "&amp;"@
    } else if character == '<' {
        "&lt;"@
    } else if character == '>' {
        "&gt;"@
    } else {
        seq![character]
    }
}

/// A value as it is written in an XML text.
pub open spec fn escaped(value: Seq<char>) -> Seq<char>
    decreases value.len(),
{
    if value.len() == 0 {
        Seq::empty()
    } else {
        escaped(value.drop_last()) + entity(value.last())
    }
}

/// Returns the value as it is written in an XML text.
pub fn escape(value: &str) -> (written: String)
    ensures
        written@ == escaped(value@),
{
    let mut written = String::new();
    for character in it: value.chars()
        invariant
            it.seq() == value@,
            written@ == escaped(value@.take(it.index())),
    {
        proof {
            assert(value@.take(it.index() + 1).drop_last() =~= value@.take(it.index()));
        }
        match character {
            '&' => written.append("&amp;"),
            '<' => written.append("&lt;"),
            '>' => written.append("&gt;"),
            other => {
                written.push(other);
            },
        }
        assert(written@ =~= escaped(value@.take(it.index() + 1)));
    }
    assert(value@.take(value@.len() as int) =~= value@);
    written
}

/// The agent file: the label, the program that is run, and where its output goes.
pub open spec fn agent_text(program: Seq<char>, log: Seq<char>, errors: Seq<char>) -> Seq<char> {
    "<?xml version=\"1.0\" encoding=\"UTF-8\"?>\n"@
        + "<!DOCTYPE plist PUBLIC \"-//Apple//DTD PLIST 1.0//EN\" \"http://www.apple.com/DTDs/PropertyList-1.0.dtd\">\n"@
        + "<plist version=\"1.0\">\n<dict>\n\t<key>Label</key>\n\t<string>"@ + LABEL@
        + "</string>\n\t<key>ProgramArguments</key>\n\t<array>\n\t\t<string>"@ + escaped(program)
        + "</string>\n\t\t<string>run</string>\n\t</array>\n\t<key>RunAtLoad</key>\n\t<true/>\n"@
        + "\t<key>KeepAlive</key>\n\t<dict>\n\t\t<key>PathState</key>\n\t\t<dict>\n\t\t\t<key>"@
        + escaped(program)
        + "</key>\n\t\t\t<true/>\n\t\t</dict>\n\t</dict>\n\t<key>StandardOutPath</key>\n\t<string>"@
        + escaped(log) + "</string>\n\t<key>StandardErrorPath</key>\n\t<string>"@ + escaped(errors)
        + "</string>\n</dict>\n</plist>\n"@
}

/// Returns the agent file that runs `program` and captures its output in `log` and `errors`.
pub fn agent_plist(program: &str, log: &str, errors: &str) -> (plist: String)
    ensures
        plist@ == agent_text(program@, log@, errors@),
{
    let program = escape(program);
    let mut plist = "<?xml version=\"1.0\" encoding=\"UTF-8\"?>\n".to_string();
    plist.append(
        "<!DOCTYPE plist PUBLIC \"-//Apple//DTD PLIST 1.0//EN\" \"http://www.apple.com/DTDs/PropertyList-1.0.dtd\">\n",
    );
    plist.append("<plist version=\"1.0\">\n<dict>\n\t<key>Label</key>\n\t<string>");
    plist.append(LABEL);
    plist.append("</string>\n\t<key>ProgramArguments</key>\n\t<array>\n\t\t<string>");
    plist.append(program.as_str());
    plist.append(
        "</string>\n\t\t<string>run</string>\n\t</array>\n\t<key>RunAtLoad</key>\n\t<true/>\n",
    );
    plist.append(
        "\t<key>KeepAlive</key>\n\t<dict>\n\t\t<key>PathState</key>\n\t\t<dict>\n\t\t\t<key>",
    );
    plist.append(program.as_str());
    plist.append(
        "</key>\n\t\t\t<true/>\n\t\t</dict>\n\t</dict>\n\t<key>StandardOutPath</key>\n\t<string>",
    );
    plist.append(escape(log).as_str());
    plist.append("</string>\n\t<key>StandardErrorPath</key>\n\t<string>");
    plist.append(escape(errors).as_str());
    plist.append("</string>\n</dict>\n</plist>\n");
    plist
}

/// Returns what `launchctl` calls the domain of a user's agents.
pub fn domain(uid: u32) -> (target: String)
    ensures
        target@ == "gui/"@ + decimal(uid as nat),
{
    let mut target = "gui/".to_string();
    append_decimal(&mut target, uid as u64);
    target
}

/// Returns what `launchctl` calls the agent of a user.
pub fn job(uid: u32) -> (target: String)
    ensures
        target@ == "gui/"@ + decimal(uid as nat) + "/"@ + LABEL@,
{
    let mut target = domain(uid);
    target.append("/");
    target.append(LABEL);
    target
}

/// What the wait comes to by the clock: launchd is asked while there is time, and a job that is
/// still there when it is up would not go away.
pub open spec fn by_the_clock(ends: Instant, now: Instant) -> WaitStep {
    if now < ends {
        WaitStep::Ask
    } else {
        WaitStep::Over(Outcome::Refused)
    }
}

/// What the wait comes to by launchd's answer: launchd refuses to print a job that is gone, and
/// prints one that is still there. A question that could not be asked ends the wait with why.
pub open spec fn by_the_answer(answer: Outcome) -> WaitStep {
    match answer {
        Outcome::Refused => WaitStep::Over(Outcome::Done),
        Outcome::Done => WaitStep::Pause,
        unasked => WaitStep::Over(unasked),
    }
}

/// How a wait went, or nothing where it still goes on, given what the clock says each time it is
/// read and launchd's answer to the question that follows.
///
/// The steps are carried out as they come: a question is asked when the clock leaves time for it,
/// and the clock is read again after the pause that an answer asks for.
pub open spec fn waited(ends: Instant, readings: Seq<(Instant, Outcome)>) -> Option<Outcome>
    decreases readings.len(),
{
    if readings.len() == 0 {
        None
    } else {
        match by_the_clock(ends, readings[0].0) {
            WaitStep::Over(outcome) => Some(outcome),
            WaitStep::Pause => waited(ends, readings.skip(1)),
            WaitStep::Ask => match by_the_answer(readings[0].1) {
                WaitStep::Over(outcome) => Some(outcome),
                _ => waited(ends, readings.skip(1)),
            },
        }
    }
}

/// Whether the job was still there, and time was left, at each of these readings.
pub open spec fn goes_on(ends: Instant, readings: Seq<(Instant, Outcome)>) -> bool {
    forall|i: int|
        0 <= i < readings.len() ==> (#[trigger] readings[i]).0 < ends && readings[i].1 is Done
}

/// The wait for a job to go away.
#[derive(Debug, Clone, Copy, PartialEq, Eq, Structural)]
pub struct UnloadWait {
    deadline: Instant,
}

impl UnloadWait {
    /// When the wait is given up.
    pub closed spec fn ends(self) -> Instant {
        self.deadline
    }

    /// Starts the wait.
    pub fn start(now: Instant) -> (wait: UnloadWait)
        requires
            now + UNLOAD_TIMEOUT <= u64::MAX,
        ensures
            wait.ends() == now + UNLOAD_TIMEOUT,
    {
        UnloadWait { deadline: now + UNLOAD_TIMEOUT }
    }

    /// Returns what the wait comes to by the clock: launchd is asked while there is time, and a job
    /// that is still there when it is up would not go away.
    ///
    /// The clock is read before the first question and again after every pause.
    pub fn on_clock(&self, now: Instant) -> (step: WaitStep)
        ensures
            step == by_the_clock(self.ends(), now),
    {
        if now < self.deadline {
            return WaitStep::Ask;
        }
        WaitStep::Over(Outcome::Refused)
    }

    /// Returns what the wait comes to by launchd's answer: launchd refuses to print a job that is
    /// gone, and prints one that is still there. A question that could not be asked ends the wait
    /// with why.
    pub fn on_print(&self, outcome: Outcome) -> (step: WaitStep)
        ensures
            step == by_the_answer(outcome),
    {
        match outcome {
            Outcome::Refused => WaitStep::Over(Outcome::Done),
            Outcome::Done => WaitStep::Pause,
            unasked => WaitStep::Over(unasked),
        }
    }
}

/// What the wait for a job to go away comes to.
#[derive(Debug, PartialEq, Eq)]
pub enum WaitStep {
    /// Ask launchd to print the job.
    Ask,
    /// Pause for [`UNLOAD_POLL`], then read the clock.
    Pause,
    /// The wait is over, and this is how it went.
    Over(Outcome),
}

/// What has to be done next while the agent is installed or uninstalled.
#[derive(Debug, PartialEq, Eq)]
pub enum Task {
    /// Ask launchd to unload the job.
    Unload,
    /// Wait until launchd says that the job is gone.
    AwaitUnloaded,
    /// Create this directory and whatever it needs above it.
    CreateDirectory {
        /// The directory.
        path: String,
    },
    /// Write this file.
    Write {
        /// The file.
        path: String,
        /// What it holds.
        contents: String,
    },
    /// Ask launchd to load this agent.
    Load {
        /// The agent file.
        agent: String,
    },
    /// Remove this file.
    Remove {
        /// The file.
        path: String,
    },
    /// Nothing is left to do.
    Nothing,
}

/// A task as plain text.
pub enum TaskView {
    /// Ask launchd to unload the job.
    Unload,
    /// Wait until launchd says that the job is gone.
    AwaitUnloaded,
    /// Create a directory.
    CreateDirectory {
        /// The directory.
        path: Seq<char>,
    },
    /// Write a file.
    Write {
        /// The file.
        path: Seq<char>,
        /// What it holds.
        contents: Seq<char>,
    },
    /// Ask launchd to load an agent.
    Load {
        /// The agent file.
        agent: Seq<char>,
    },
    /// Remove a file.
    Remove {
        /// The file.
        path: Seq<char>,
    },
    /// Nothing is left to do.
    Nothing,
}

impl View for Task {
    type V = TaskView;

    open spec fn view(&self) -> TaskView {
        match self {
            Task::Unload => TaskView::Unload,
            Task::AwaitUnloaded => TaskView::AwaitUnloaded,
            Task::CreateDirectory { path } => TaskView::CreateDirectory { path: path@ },
            Task::Write { path, contents } => TaskView::Write {
                path: path@,
                contents: contents@,
            },
            Task::Load { agent } => TaskView::Load { agent: agent@ },
            Task::Remove { path } => TaskView::Remove { path: path@ },
            Task::Nothing => TaskView::Nothing,
        }
    }
}

/// How a task went.
#[derive(Debug, PartialEq, Eq)]
pub enum Outcome {
    /// It was done.
    Done,
    /// It was carried out and refused: launchd would not, or the job is still there.
    Refused,
    /// It could not be carried out, as what it needs was not there.
    Missing {
        /// Why.
        reason: String,
    },
    /// It could not be carried out at all.
    Failed {
        /// Why.
        reason: String,
    },
}

/// Where an installation stands.
#[derive(Debug, Clone, Copy, PartialEq, Eq, Structural)]
pub enum InstallStage {
    /// Whatever is loaded under the label is being unloaded.
    Unloading,
    /// It is on its way out.
    Awaiting,
    /// The directory of the agent is being created.
    CreatingAgents,
    /// The directory of the logs is being created.
    CreatingLogs,
    /// The agent is being written.
    Writing,
    /// The agent is being loaded.
    Loading,
    /// The agent is loaded.
    Loaded,
}

/// An installation as plain text.
#[verifier::ext_equal]
pub struct InstallView {
    /// The home directory it is made under.
    pub home: Seq<char>,
    /// The program the agent names.
    pub program: Seq<char>,
    /// Where it stands.
    pub stage: InstallStage,
}

impl InstallView {
    /// What has to be done next.
    pub open spec fn asks(self) -> TaskView {
        match self.stage {
            InstallStage::Unloading => TaskView::Unload,
            InstallStage::Awaiting => TaskView::AwaitUnloaded,
            InstallStage::CreatingAgents => TaskView::CreateDirectory {
                path: agents_under(self.home),
            },
            InstallStage::CreatingLogs => TaskView::CreateDirectory {
                path: logs_under(self.home),
            },
            InstallStage::Writing => TaskView::Write {
                path: agent_under(self.home),
                contents: agent_text(
                    self.program,
                    log_under(self.home),
                    errors_under(self.home),
                ),
            },
            InstallStage::Loading => TaskView::Load { agent: agent_under(self.home) },
            InstallStage::Loaded => TaskView::Nothing,
        }
    }

    /// Where it stands once the task was done.
    pub open spec fn next_stage(self) -> InstallStage {
        match self.stage {
            InstallStage::Unloading => InstallStage::Awaiting,
            InstallStage::Awaiting => InstallStage::CreatingAgents,
            InstallStage::CreatingAgents => InstallStage::CreatingLogs,
            InstallStage::CreatingLogs => InstallStage::Writing,
            InstallStage::Writing => InstallStage::Loading,
            InstallStage::Loading => InstallStage::Loaded,
            InstallStage::Loaded => InstallStage::Loaded,
        }
    }

    /// What the installation fails with when the task could not be carried out.
    pub open spec fn failure(self, reason: Seq<char>) -> Option<ServiceErrorView> {
        match self.stage {
            InstallStage::Unloading => Some(ServiceErrorView::Launchctl { reason }),
            InstallStage::Awaiting => Some(ServiceErrorView::Launchctl { reason }),
            InstallStage::CreatingAgents => Some(
                ServiceErrorView::Directory { path: agents_under(self.home), reason },
            ),
            InstallStage::CreatingLogs => Some(
                ServiceErrorView::Directory { path: logs_under(self.home), reason },
            ),
            InstallStage::Writing => Some(
                ServiceErrorView::Write { path: agent_under(self.home), reason },
            ),
            InstallStage::Loading => Some(ServiceErrorView::Launchctl { reason }),
            InstallStage::Loaded => None,
        }
    }

    /// What the installation fails with when the task was refused: a job that would not go away, a
    /// directory or a file that was not made, and an agent that was not loaded. That nothing was
    /// unloaded is no failure.
    pub open spec fn refusal(self) -> Option<ServiceErrorView> {
        match self.stage {
            InstallStage::Unloading => None,
            InstallStage::Awaiting => Some(ServiceErrorView::Bootout { label: LABEL@ }),
            InstallStage::Loading => Some(
                ServiceErrorView::Bootstrap { path: agent_under(self.home) },
            ),
            _ => self.failure(REFUSED@),
        }
    }

    /// What the installation fails with once the task went this way, if it fails.
    pub open spec fn fails_with(self, outcome: Outcome) -> Option<ServiceErrorView> {
        match outcome {
            Outcome::Failed { reason } => self.failure(reason@),
            Outcome::Missing { reason } => self.failure(reason@),
            Outcome::Refused => self.refusal(),
            Outcome::Done => None,
        }
    }
}

/// What an installation came to, for the caller to report.
#[derive(Debug, PartialEq, Eq)]
pub struct Installed {
    /// The program the agent names.
    pub program: String,
    /// The agent file that was written.
    pub agent: String,
    /// Whether that program is inside an application bundle.
    pub housing: Housing,
}

impl Clone for Installed {
    fn clone(&self) -> (copy: Installed)
        ensures
            copy == *self,
    {
        Installed {
            program: self.program.clone(),
            agent: self.agent.clone(),
            housing: self.housing,
        }
    }
}

/// Loads the running binary as a launchd agent, replacing whatever was loaded under the label.
#[derive(Debug, PartialEq, Eq)]
pub struct Install {
    home: String,
    program: String,
    stage: InstallStage,
}

impl View for Install {
    type V = InstallView;

    closed spec fn view(&self) -> InstallView {
        InstallView { home: self.home@, program: self.program@, stage: self.stage }
    }
}

impl Install {
    /// Starts an installation, given the home directory and where the running binary is.
    ///
    /// # Errors
    ///
    /// Returns [`ServiceError::NoHome`] when `HOME` is not set, and [`ServiceError::Executable`]
    /// when the running binary cannot be located.
    pub fn start(home: Option<String>, program: Result<String, String>) -> (install: Result<
        Install,
        ServiceError,
    >)
        ensures
            match install {
                Ok(install) => home is Some && program is Ok && install@ == (InstallView {
                    home: home->0@,
                    program: program->Ok_0@,
                    stage: InstallStage::Unloading,
                }),
                Err(error) => if home is None {
                    error@ == ServiceErrorView::NoHome
                } else {
                    program matches Err(reason) && error@ == (ServiceErrorView::Executable {
                        reason: reason@,
                    })
                },
            },
    {
        let Some(home) = home else {
            return Err(ServiceError::NoHome);
        };
        match program {
            Ok(program) => Ok(Install { home, program, stage: InstallStage::Unloading }),
            Err(reason) => Err(ServiceError::Executable { reason }),
        }
    }

    /// Returns what has to be done next.
    pub fn task(&self) -> (task: Task)
        ensures
            task@ == self@.asks(),
    {
        match self.stage {
            InstallStage::Unloading => Task::Unload,
            InstallStage::Awaiting => Task::AwaitUnloaded,
            InstallStage::CreatingAgents => Task::CreateDirectory {
                path: agents_dir(self.home.as_str()),
            },
            InstallStage::CreatingLogs => Task::CreateDirectory {
                path: logs_dir(self.home.as_str()),
            },
            InstallStage::Writing => {
                let layout = layout(self.home.as_str());
                let contents = agent_plist(
                    self.program.as_str(),
                    layout.log.as_str(),
                    layout.errors.as_str(),
                );
                Task::Write { path: layout.agent, contents }
            },
            InstallStage::Loading => Task::Load { agent: layout(self.home.as_str()).agent },
            InstallStage::Loaded => Task::Nothing,
        }
    }

    /// Learns how the task went.
    ///
    /// # Errors
    ///
    /// Returns [`ServiceError::Directory`] or [`ServiceError::Write`] when the agent cannot be
    /// written, [`ServiceError::Bootout`] when a job already loaded under the label will not go
    /// away, and [`ServiceError::Launchctl`] or [`ServiceError::Bootstrap`] when launchd refuses
    /// to load it.
    pub fn on_outcome(self, outcome: Outcome) -> (next: Result<Install, ServiceError>)
        ensures
            match next {
                Ok(next) => self@.fails_with(outcome) is None && next@ == (InstallView {
                    stage: self@.next_stage(),
                    ..self@
                }),
                Err(error) => self@.fails_with(outcome) == Some(error@),
            },
    {
        match outcome {
            Outcome::Failed { reason } => self.failed(reason),
            Outcome::Missing { reason } => self.failed(reason),
            Outcome::Refused => self.refused(),
            Outcome::Done => Ok(self.advanced()),
        }
    }

    fn failed(self, reason: String) -> (next: Result<Install, ServiceError>)
        ensures
            match next {
                Ok(next) => self@.failure(reason@) is None && next@ == (InstallView {
                    stage: self@.next_stage(),
                    ..self@
                }),
                Err(error) => self@.failure(reason@) == Some(error@),
            },
    {
        match self.stage {
            InstallStage::Unloading => Err(ServiceError::Launchctl { reason }),
            InstallStage::Awaiting => Err(ServiceError::Launchctl { reason }),
            InstallStage::CreatingAgents => Err(
                ServiceError::Directory { path: agents_dir(self.home.as_str()), reason },
            ),
            InstallStage::CreatingLogs => Err(
                ServiceError::Directory { path: logs_dir(self.home.as_str()), reason },
            ),
            InstallStage::Writing => Err(
                ServiceError::Write { path: layout(self.home.as_str()).agent, reason },
            ),
            InstallStage::Loading => Err(ServiceError::Launchctl { reason }),
            InstallStage::Loaded => Ok(self),
        }
    }

    fn refused(self) -> (next: Result<Install, ServiceError>)
        ensures
            match next {
                Ok(next) => self@.refusal() is None && next@ == (InstallView {
                    stage: self@.next_stage(),
                    ..self@
                }),
                Err(error) => self@.refusal() == Some(error@),
            },
    {
        match self.stage {
            InstallStage::Unloading => Ok(self.advanced()),
            InstallStage::Awaiting => Err(ServiceError::Bootout { label: LABEL.to_string() }),
            InstallStage::Loading => Err(
                ServiceError::Bootstrap { path: layout(self.home.as_str()).agent },
            ),
            _ => self.failed(REFUSED.to_string()),
        }
    }

    fn advanced(self) -> (next: Install)
        ensures
            next@ == (InstallView { stage: self@.next_stage(), ..self@ }),
    {
        let stage = match self.stage {
            InstallStage::Unloading => InstallStage::Awaiting,
            InstallStage::Awaiting => InstallStage::CreatingAgents,
            InstallStage::CreatingAgents => InstallStage::CreatingLogs,
            InstallStage::CreatingLogs => InstallStage::Writing,
            InstallStage::Writing => InstallStage::Loading,
            InstallStage::Loading => InstallStage::Loaded,
            InstallStage::Loaded => InstallStage::Loaded,
        };
        Install { home: self.home, program: self.program, stage }
    }

    /// Returns what the installation came to, once the agent is loaded.
    pub fn installed(&self) -> (installed: Option<Installed>)
        ensures
            installed is Some <==> self@.stage is Loaded,
            installed matches Some(installed) ==> {
                &&& installed.program@ == self@.program
                &&& installed.agent@ == agent_under(self@.home)
                &&& installed.housing == housed(self@.program)
            },
    {
        match self.stage {
            InstallStage::Loaded => Some(
                Installed {
                    program: self.program.clone(),
                    agent: layout(self.home.as_str()).agent,
                    housing: housing(self.program.as_str()),
                },
            ),
            _ => None,
        }
    }
}

/// Where an uninstallation stands.
#[derive(Debug, Clone, Copy, PartialEq, Eq, Structural)]
pub enum UninstallStage {
    /// The job is being unloaded.
    Unloading,
    /// It is on its way out.
    Awaiting,
    /// The agent is being removed.
    Removing,
    /// The agent is removed.
    Removed,
}

/// An uninstallation as plain text.
#[verifier::ext_equal]
pub struct UninstallView {
    /// The home directory the agent lives under.
    pub home: Seq<char>,
    /// Where it stands.
    pub stage: UninstallStage,
}

impl UninstallView {
    /// What has to be done next.
    pub open spec fn asks(self) -> TaskView {
        match self.stage {
            UninstallStage::Unloading => TaskView::Unload,
            UninstallStage::Awaiting => TaskView::AwaitUnloaded,
            UninstallStage::Removing => TaskView::Remove { path: agent_under(self.home) },
            UninstallStage::Removed => TaskView::Nothing,
        }
    }

    /// Where it stands once the task was done.
    pub open spec fn next_stage(self) -> UninstallStage {
        match self.stage {
            UninstallStage::Unloading => UninstallStage::Awaiting,
            UninstallStage::Awaiting => UninstallStage::Removing,
            UninstallStage::Removing => UninstallStage::Removed,
            UninstallStage::Removed => UninstallStage::Removed,
        }
    }

    /// What it fails with once the task went this way, if it fails: a job that would not go away
    /// leaves the agent in place, and an agent that was never there is no failure.
    pub open spec fn fails_with(self, outcome: Outcome) -> Option<ServiceErrorView> {
        match (self.stage, outcome) {
            (UninstallStage::Removed, _) => None,
            (UninstallStage::Removing, Outcome::Failed { reason }) => Some(
                ServiceErrorView::Remove { path: agent_under(self.home), reason: reason@ },
            ),
            (UninstallStage::Removing, Outcome::Refused) => Some(
                ServiceErrorView::Remove { path: agent_under(self.home), reason: REFUSED@ },
            ),
            (UninstallStage::Removing, _) => None,
            (_, Outcome::Failed { reason }) => Some(
                ServiceErrorView::Launchctl { reason: reason@ },
            ),
            (_, Outcome::Missing { reason }) => Some(
                ServiceErrorView::Launchctl { reason: reason@ },
            ),
            (UninstallStage::Awaiting, Outcome::Refused) => Some(
                ServiceErrorView::Bootout { label: LABEL@ },
            ),
            _ => None,
        }
    }
}

/// Unloads the agent and removes it, leaving the binary and the logs alone.
#[derive(Debug, PartialEq, Eq)]
pub struct Uninstall {
    home: String,
    stage: UninstallStage,
}

impl View for Uninstall {
    type V = UninstallView;

    closed spec fn view(&self) -> UninstallView {
        UninstallView { home: self.home@, stage: self.stage }
    }
}

impl Uninstall {
    /// Starts an uninstallation, given the home directory.
    ///
    /// # Errors
    ///
    /// Returns [`ServiceError::NoHome`] when `HOME` is not set.
    pub fn start(home: Option<String>) -> (uninstall: Result<Uninstall, ServiceError>)
        ensures
            match uninstall {
                Ok(uninstall) => home is Some && uninstall@ == (UninstallView {
                    home: home->0@,
                    stage: UninstallStage::Unloading,
                }),
                Err(error) => home is None && error@ == ServiceErrorView::NoHome,
            },
    {
        let Some(home) = home else {
            return Err(ServiceError::NoHome);
        };
        Ok(Uninstall { home, stage: UninstallStage::Unloading })
    }

    /// Returns what has to be done next.
    pub fn task(&self) -> (task: Task)
        ensures
            task@ == self@.asks(),
    {
        match self.stage {
            UninstallStage::Unloading => Task::Unload,
            UninstallStage::Awaiting => Task::AwaitUnloaded,
            UninstallStage::Removing => Task::Remove { path: layout(self.home.as_str()).agent },
            UninstallStage::Removed => Task::Nothing,
        }
    }

    /// Learns how the task went.
    ///
    /// # Errors
    ///
    /// Returns [`ServiceError::Launchctl`] when launchctl cannot be run, [`ServiceError::Bootout`]
    /// when the job is still loaded after the wait - the agent is left in place then, so a retry
    /// still has something to unload - and [`ServiceError::Remove`] when the agent file cannot be
    /// removed.
    pub fn on_outcome(self, outcome: Outcome) -> (next: Result<Uninstall, ServiceError>)
        ensures
            match next {
                Ok(next) => self@.fails_with(outcome) is None && next@ == (UninstallView {
                    stage: self@.next_stage(),
                    ..self@
                }),
                Err(error) => self@.fails_with(outcome) == Some(error@),
            },
    {
        let stage = match self.stage {
            UninstallStage::Unloading => match outcome {
                Outcome::Failed { reason } => {
                    return Err(ServiceError::Launchctl { reason });
                },
                Outcome::Missing { reason } => {
                    return Err(ServiceError::Launchctl { reason });
                },
                Outcome::Refused => UninstallStage::Awaiting,
                Outcome::Done => UninstallStage::Awaiting,
            },
            UninstallStage::Awaiting => match outcome {
                Outcome::Failed { reason } => {
                    return Err(ServiceError::Launchctl { reason });
                },
                Outcome::Missing { reason } => {
                    return Err(ServiceError::Launchctl { reason });
                },
                Outcome::Refused => {
                    return Err(ServiceError::Bootout { label: LABEL.to_string() });
                },
                Outcome::Done => UninstallStage::Removing,
            },
            UninstallStage::Removing => match outcome {
                Outcome::Failed { reason } => {
                    return Err(
                        ServiceError::Remove { path: layout(self.home.as_str()).agent, reason },
                    );
                },
                Outcome::Refused => {
                    return Err(
                        ServiceError::Remove {
                            path: layout(self.home.as_str()).agent,
                            reason: REFUSED.to_string(),
                        },
                    );
                },
                Outcome::Missing { reason: _ } => UninstallStage::Removed,
                Outcome::Done => UninstallStage::Removed,
            },
            UninstallStage::Removed => UninstallStage::Removed,
        };
        Ok(Uninstall { home: self.home, stage })
    }

    /// Returns where the agent and the logs that were left alone live.
    pub fn layout(&self) -> (layout: Layout)
        ensures
            layout.is_under(self@.home),
    {
        layout(self.home.as_str())
    }
}

/// A value without special characters is written as it is.
pub proof fn an_ordinary_value_is_written_as_it_is(value: Seq<char>)
    requires
        forall|i: int|
            0 <= i < value.len() ==> #[trigger] value[i] != '&' && value[i] != '<' && value[i]
                != '>',
    ensures
        escaped(value) == value,
    decreases value.len(),
{
    if value.len() > 0 {
        let shorter = value.drop_last();
        assert forall|i: int| 0 <= i < shorter.len() implies #[trigger] shorter[i] != '&'
            && shorter[i] != '<' && shorter[i] != '>' by {
            assert(shorter[i] == value[i]);
        }
        an_ordinary_value_is_written_as_it_is(shorter);
        assert(value[value.len() - 1] == value.last());
        assert(escaped(value) =~= value);
    }
}

/// A value that is written as it is has no special characters.
pub proof fn only_an_ordinary_value_is_written_as_it_is(value: Seq<char>)
    requires
        escaped(value) == value,
    ensures
        forall|i: int|
            0 <= i < value.len() ==> #[trigger] value[i] != '&' && value[i] != '<' && value[i]
                != '>',
    decreases value.len(),
{
    reveal_strlit("&amp;");
    reveal_strlit("&lt;");
    reveal_strlit("&gt;");
    if value.len() > 0 {
        let shorter = value.drop_last();
        lemma_writing_never_shortens(shorter);
        assert(entity(value.last()).len() == 1);
        assert(escaped(shorter) =~= shorter) by {
            assert forall|i: int| 0 <= i < shorter.len() implies escaped(shorter)[i]
                == shorter[i] by {
                assert(escaped(value)[i] == escaped(shorter)[i]);
            }
        }
        only_an_ordinary_value_is_written_as_it_is(shorter);
        assert forall|i: int| 0 <= i < value.len() implies #[trigger] value[i] != '&' && value[i]
            != '<' && value[i] != '>' by {
            if i < shorter.len() {
                assert(shorter[i] == value[i]);
            }
        }
    }
}

proof fn lemma_writing_never_shortens(value: Seq<char>)
    ensures
        escaped(value).len() >= value.len(),
    decreases value.len(),
{
    reveal_strlit("&amp;");
    reveal_strlit("&lt;");
    reveal_strlit("&gt;");
    if value.len() > 0 {
        lemma_writing_never_shortens(value.drop_last());
    }
}

/// Two values one after another are written one after another.
pub proof fn values_are_written_one_after_another(left: Seq<char>, right: Seq<char>)
    ensures
        escaped(left + right) == escaped(left) + escaped(right),
    decreases right.len(),
{
    if right.len() == 0 {
        assert(left + right =~= left);
        assert(escaped(left) + escaped(right) =~= escaped(left));
    } else {
        assert((left + right).drop_last() =~= left + right.drop_last());
        values_are_written_one_after_another(left, right.drop_last());
        assert(escaped(left) + escaped(right) =~= (escaped(left) + escaped(right.drop_last()))
            + entity(right.last()));
    }
}

/// The value a written text stands for: each entity is the character it is written for, and every
/// other character is itself.
pub open spec fn unescaped(written: Seq<char>) -> Seq<char>
    decreases written.len(),
{
    if written.len() == 0 {
        Seq::empty()
    } else if written.len() >= 5 && written.take(5) == "&amp;"@ {
        seq!['&'] + unescaped(written.skip(5))
    } else if written.len() >= 4 && written.take(4) == "&lt;"@ {
        seq!['<'] + unescaped(written.skip(4))
    } else if written.len() >= 4 && written.take(4) == "&gt;"@ {
        seq!['>'] + unescaped(written.skip(4))
    } else {
        seq![written[0]] + unescaped(written.skip(1))
    }
}

/// Reading a written value gives the value back, so no two values are ever written the same.
pub proof fn a_written_value_reads_back(value: Seq<char>)
    ensures
        unescaped(escaped(value)) == value,
    decreases value.len(),
{
    if value.len() > 0 {
        let first = seq![value[0]];
        let rest = value.skip(1);
        assert(value =~= first + rest);
        values_are_written_one_after_another(first, rest);
        assert(first.drop_last() =~= Seq::empty());
        assert(escaped(first.drop_last()) =~= Seq::empty());
        assert(escaped(first) =~= entity(value[0]));
        lemma_an_entity_reads_back(value[0], escaped(rest));
        a_written_value_reads_back(rest);
        assert(first + rest =~= value);
    }
}

proof fn lemma_an_entity_reads_back(character: char, rest: Seq<char>)
    ensures
        unescaped(entity(character) + rest) == seq![character] + unescaped(rest),
{
    reveal_strlit("&amp;");
    reveal_strlit("&lt;");
    reveal_strlit("&gt;");
    let written = entity(character) + rest;
    let len = entity(character).len() as int;
    assert(written.skip(len) =~= rest);
    assert(written.take(len) =~= entity(character));
    assert(written.len() >= 5 ==> written.take(5)[0] == written[0] && written.take(5)[1]
        == written[1]);
    assert(written.len() >= 4 ==> written.take(4)[0] == written[0] && written.take(4)[1]
        == written[1]);
}

/// Whether an entity is written at `i`.
pub open spec fn entity_at(written: Seq<char>, i: int) -> bool {
    ||| i + 5 <= written.len() && written.subrange(i, i + 5) == "&amp;"@
    ||| i + 4 <= written.len() && written.subrange(i, i + 4) == "&lt;"@
    ||| i + 4 <= written.len() && written.subrange(i, i + 4) == "&gt;"@
}

/// A written value never breaks the text it stands in: it opens and closes no tag, and every
/// ampersand in it starts an entity.
pub proof fn a_written_value_breaks_nothing(value: Seq<char>)
    ensures
        forall|i: int|
            0 <= i < escaped(value).len() ==> #[trigger] escaped(value)[i] != '<' && escaped(
                value,
            )[i] != '>',
        forall|i: int|
            0 <= i < escaped(value).len() && #[trigger] escaped(value)[i] == '&' ==> entity_at(
                escaped(value),
                i,
            ),
    decreases value.len(),
{
    reveal_strlit("&amp;");
    reveal_strlit("&lt;");
    reveal_strlit("&gt;");
    if value.len() > 0 {
        let before = escaped(value.drop_last());
        let last = entity(value.last());
        let written = escaped(value);
        a_written_value_breaks_nothing(value.drop_last());
        assert(written == before + last);
        assert forall|i: int| 0 <= i < written.len() implies #[trigger] written[i] != '<'
            && written[i] != '>' by {
            if i < before.len() {
                assert(written[i] == before[i]);
            } else {
                assert(written[i] == last[i - before.len()]);
            }
        }
        assert forall|i: int| 0 <= i < written.len() && #[trigger] written[i] == '&' implies
            entity_at(written, i) by {
            if i < before.len() {
                assert(before[i] == '&');
                assert(entity_at(before, i));
                if i + 5 <= before.len() {
                    assert(written.subrange(i, i + 5) =~= before.subrange(i, i + 5));
                }
                if i + 4 <= before.len() {
                    assert(written.subrange(i, i + 4) =~= before.subrange(i, i + 4));
                }
            } else {
                assert(written[i] == last[i - before.len()]);
                assert(i == before.len());
                assert(written.subrange(i, i + last.len()) =~= last);
            }
        }
    }
}

/// The agent and both logs live under the home directory.
pub proof fn everything_lives_under_the_home_directory(home: Seq<char>)
    ensures
        home.is_prefix_of(agent_under(home)),
        home.is_prefix_of(log_under(home)),
        home.is_prefix_of(errors_under(home)),
{
    reveal_strlit("Library");
    reveal_strlit("LaunchAgents");
    reveal_strlit("Logs");
    reveal_strlit("moji");
    reveal_strlit("moji.log");
    reveal_strlit("moji.err.log");
    reveal_strlit("dev.pkarpovich.moji");
    let library = joined(home, "Library"@);
    let logs = joined(library, "Logs"@);
    a_relative_name_stays_under_its_base(home, "Library"@);
    a_relative_name_stays_under_its_base(library, "LaunchAgents"@);
    a_relative_name_stays_under_its_base(agents_under(home), LABEL@ + ".plist"@);
    a_relative_name_stays_under_its_base(library, "Logs"@);
    a_relative_name_stays_under_its_base(logs, "moji"@);
    a_relative_name_stays_under_its_base(logs_under(home), "moji.log"@);
    a_relative_name_stays_under_its_base(logs_under(home), "moji.err.log"@);
    lemma_prefix_is_transitive(home, library, agents_under(home));
    lemma_prefix_is_transitive(home, agents_under(home), agent_under(home));
    lemma_prefix_is_transitive(home, library, logs);
    lemma_prefix_is_transitive(home, logs, logs_under(home));
    lemma_prefix_is_transitive(home, logs_under(home), log_under(home));
    lemma_prefix_is_transitive(home, logs_under(home), errors_under(home));
}

proof fn lemma_prefix_is_transitive(first: Seq<char>, second: Seq<char>, third: Seq<char>)
    requires
        first.is_prefix_of(second),
        second.is_prefix_of(third),
    ensures
        first.is_prefix_of(third),
{
    assert(first =~= third.subrange(0, first.len() as int)) by {
        assert forall|i: int| 0 <= i < first.len() implies first[i] == third[i] by {
            assert(second.subrange(0, first.len() as int)[i] == second[i]);
            assert(third.subrange(0, second.len() as int)[i] == third[i]);
        }
    }
}

/// The installation after this many tasks that were all done.
pub open spec fn after_done(install: InstallView, done: nat) -> InstallView
    decreases done,
{
    if done == 0 {
        install
    } else {
        let before = after_done(install, (done - 1) as nat);
        InstallView { stage: before.next_stage(), ..before }
    }
}

/// An installation unloads what is there and waits for it to go before it writes anything, and
/// loads the agent only once it is written; after six tasks that were done the agent is loaded.
pub proof fn an_installation_takes_its_tasks_in_order(home: Seq<char>, program: Seq<char>)
    ensures
        ({
            let started = InstallView { home, program, stage: InstallStage::Unloading };
            &&& started.asks() is Unload
            &&& after_done(started, 1).asks() is AwaitUnloaded
            &&& after_done(started, 2).asks() == (TaskView::CreateDirectory {
                path: agents_under(home),
            })
            &&& after_done(started, 3).asks() == (TaskView::CreateDirectory {
                path: logs_under(home),
            })
            &&& after_done(started, 4).asks() == (TaskView::Write {
                path: agent_under(home),
                contents: agent_text(program, log_under(home), errors_under(home)),
            })
            &&& after_done(started, 5).asks() == (TaskView::Load { agent: agent_under(home) })
            &&& after_done(started, 6).stage is Loaded
        }),
{
    reveal_with_fuel(after_done, 7);
}

/// A job that will not go away stops both, before anything is written and before anything is
/// removed.
pub proof fn a_job_that_stays_loaded_stops_everything(
    install: InstallView,
    uninstall: UninstallView,
)
    requires
        install.stage is Awaiting,
        uninstall.stage is Awaiting,
    ensures
        install.fails_with(Outcome::Refused) == Some(ServiceErrorView::Bootout { label: LABEL@ }),
        uninstall.fails_with(Outcome::Refused) == Some(
            ServiceErrorView::Bootout { label: LABEL@ },
        ),
{
}

/// An installation leaves a task behind only once it was done, so that no agent is loaded that was
/// not written. The one exception is the job that launchd did not unload, as none may be loaded.
pub proof fn an_installation_goes_on_only_with_what_was_done(install: InstallView, outcome: Outcome)
    requires
        !(install.stage is Loaded),
    ensures
        install.fails_with(outcome) is None <==> outcome is Done || (install.stage is Unloading
            && outcome is Refused),
{
}

/// An uninstallation leaves a task behind only once it was done. The exceptions are the job that
/// launchd did not unload, as none may be loaded, and the agent that was never there.
pub proof fn an_uninstallation_goes_on_only_with_what_was_done(
    uninstall: UninstallView,
    outcome: Outcome,
)
    requires
        !(uninstall.stage is Removed),
    ensures
        uninstall.fails_with(outcome) is None <==> outcome is Done || (
        uninstall.stage is Unloading && outcome is Refused) || (uninstall.stage is Removing
            && outcome is Missing),
{
}

/// A wait goes on while the clock leaves time and launchd prints the job, and the reading after
/// that decides it: it is given up once the time is up, whatever launchd would say; it is done
/// once launchd refuses to print the job; and a question that could not be asked ends it as it
/// came.
pub proof fn a_wait_ends_at_the_first_reading_that_decides_it(
    ends: Instant,
    readings: Seq<(Instant, Outcome)>,
    first: int,
)
    requires
        0 <= first <= readings.len(),
        goes_on(ends, readings.take(first)),
    ensures
        first == readings.len() ==> waited(ends, readings) is None,
        first < readings.len() ==> {
            let (now, answer) = readings[first];
            &&& now >= ends ==> waited(ends, readings) == Some(Outcome::Refused)
            &&& now < ends && answer is Refused ==> waited(ends, readings) == Some(Outcome::Done)
            &&& now < ends && (answer is Missing || answer is Failed) ==> waited(ends, readings)
                == Some(answer)
        },
    decreases first,
{
    if first > 0 {
        let rest = readings.skip(1);
        assert(readings.take(first)[0] == readings[0]);
        assert forall|i: int| 0 <= i < first - 1 implies (#[trigger] rest.take(first - 1)[i]).0
            < ends && rest.take(first - 1)[i].1 is Done by {
            assert(rest.take(first - 1)[i] == readings.take(first)[i + 1]);
        }
        a_wait_ends_at_the_first_reading_that_decides_it(ends, rest, first - 1);
    }
}

/// A wait says that the job is gone only where launchd refused to print it while there was time.
pub proof fn a_wait_is_done_only_once_the_job_is_gone(
    ends: Instant,
    readings: Seq<(Instant, Outcome)>,
)
    requires
        waited(ends, readings) == Some(Outcome::Done),
    ensures
        exists|first: int| #[trigger]
            is_gone_at(ends, readings, first) && goes_on(ends, readings.take(first)),
    decreases readings.len(),
{
    if readings[0].0 < ends && readings[0].1 is Done {
        let rest = readings.skip(1);
        a_wait_is_done_only_once_the_job_is_gone(ends, rest);
        let first = choose|first: int| #[trigger]
            is_gone_at(ends, rest, first) && goes_on(ends, rest.take(first));
        assert(is_gone_at(ends, readings, first + 1));
        assert forall|i: int| 0 <= i < first + 1 implies (#[trigger] readings.take(first + 1)[i]).0
            < ends && readings.take(first + 1)[i].1 is Done by {
            if i > 0 {
                assert(readings.take(first + 1)[i] == rest.take(first)[i - 1]);
            }
        }
        assert(goes_on(ends, readings.take(first + 1)));
    } else {
        assert(is_gone_at(ends, readings, 0));
        assert(goes_on(ends, readings.take(0)));
    }
}

/// Whether launchd refused to print the job at this reading, while there was time.
pub open spec fn is_gone_at(ends: Instant, readings: Seq<(Instant, Outcome)>, i: int) -> bool {
    &&& 0 <= i < readings.len()
    &&& readings[i].0 < ends
    &&& readings[i].1 is Refused
}

/// A wait is over by the fiftieth pause at the latest, as each takes [`UNLOAD_POLL`] or longer.
pub proof fn a_wait_is_over_by_the_fiftieth_pause(
    wait: UnloadWait,
    started: Instant,
    readings: Seq<(Instant, Outcome)>,
)
    requires
        wait.ends() == started + UNLOAD_TIMEOUT,
        readings.len() > 50,
        started <= readings[0].0,
        forall|i: int|
            0 < i < readings.len() ==> readings[i - 1].0 + UNLOAD_POLL <= (
            #[trigger] readings[i]).0,
    ensures
        waited(wait.ends(), readings) is Some,
{
    lemma_every_pause_takes_its_time(started, readings, 50);
    if waited(wait.ends(), readings) is None {
        lemma_what_goes_on_has_time_left(wait.ends(), readings);
        assert(readings[50].0 < wait.ends());
    }
}

proof fn lemma_every_pause_takes_its_time(
    started: Instant,
    readings: Seq<(Instant, Outcome)>,
    paused: int,
)
    requires
        0 <= paused < readings.len(),
        started <= readings[0].0,
        forall|i: int|
            0 < i < readings.len() ==> readings[i - 1].0 + UNLOAD_POLL <= (
            #[trigger] readings[i]).0,
    ensures
        started + paused * UNLOAD_POLL <= readings[paused].0,
    decreases paused,
{
    if paused > 0 {
        lemma_every_pause_takes_its_time(started, readings, paused - 1);
        assert(readings[paused - 1].0 + UNLOAD_POLL <= readings[paused].0);
    }
}

proof fn lemma_what_goes_on_has_time_left(ends: Instant, readings: Seq<(Instant, Outcome)>)
    requires
        waited(ends, readings) is None,
    ensures
        goes_on(ends, readings),
    decreases readings.len(),
{
    if readings.len() > 0 {
        let rest = readings.skip(1);
        lemma_what_goes_on_has_time_left(ends, rest);
        assert forall|i: int| 0 <= i < readings.len() implies (#[trigger] readings[i]).0 < ends
            && readings[i].1 is Done by {
            if i > 0 {
                assert(rest[i - 1] == readings[i]);
            }
        }
    }
}

/// Removing an agent that was never there is no failure.
pub proof fn an_agent_that_was_never_there_is_no_failure(
    uninstall: UninstallView,
    outcome: Outcome,
)
    requires
        uninstall.stage is Removing,
        outcome is Missing,
    ensures
        uninstall.fails_with(outcome) is None,
        uninstall.next_stage() is Removed,
{
}

/// Under a home directory that ends in no slash, the agent and both logs are at the paths launchd
/// and the user look for them at.
pub proof fn everything_lives_where_it_is_looked_for(home: Seq<char>)
    requires
        home.len() > 0,
        home.last() != '/',
    ensures
        agents_under(home) == home + "/Library/LaunchAgents"@,
        logs_under(home) == home + "/Library/Logs/moji"@,
        agent_under(home) == home + "/Library/LaunchAgents/dev.pkarpovich.moji.plist"@,
        log_under(home) == home + "/Library/Logs/moji/moji.log"@,
        errors_under(home) == home + "/Library/Logs/moji/moji.err.log"@,
{
    reveal_strlit("/");
    reveal_strlit("Library");
    reveal_strlit("LaunchAgents");
    reveal_strlit("Logs");
    reveal_strlit("moji");
    reveal_strlit("moji.log");
    reveal_strlit("moji.err.log");
    reveal_strlit("dev.pkarpovich.moji");
    reveal_strlit(".plist");
    reveal_strlit("/Library/LaunchAgents");
    reveal_strlit("/Library/Logs/moji");
    reveal_strlit("/Library/LaunchAgents/dev.pkarpovich.moji.plist");
    reveal_strlit("/Library/Logs/moji/moji.log");
    reveal_strlit("/Library/Logs/moji/moji.err.log");
    assert(agents_under(home) =~= home + "/Library/LaunchAgents"@);
    assert(logs_under(home) =~= home + "/Library/Logs/moji"@);
    assert(agent_under(home) =~= home + "/Library/LaunchAgents/dev.pkarpovich.moji.plist"@);
    assert(log_under(home) =~= home + "/Library/Logs/moji/moji.log"@);
    assert(errors_under(home) =~= home + "/Library/Logs/moji/moji.err.log"@);
}

/// One more character of a value is written behind all the others: as its entity where it is an
/// ampersand or an angle bracket, and as itself otherwise.
pub proof fn every_character_is_written_for_itself(value: Seq<char>, character: char)
    ensures
        escaped(Seq::empty()).len() == 0,
        escaped(value.push(character)) == escaped(value) + (if character == '&' {
            "&amp;"@
        } else if character == '<' {
            "&lt;"@
        } else if character == '>' {
            "&gt;"@
        } else {
            seq![character]
        }),
{
    assert(value.push(character).drop_last() =~= value);
}

/// The agent file runs the program with `run`, keeps it alive while that same program is there, and
/// sends its output to the two logs. Between those values it says the same whatever they are.
pub proof fn the_agent_names_its_program_and_its_logs(
    program: Seq<char>,
    log: Seq<char>,
    errors: Seq<char>,
)
    ensures
        agent_text(program, log, errors) == "<?xml version=\"1.0\" encoding=\"UTF-8\"?>\n"@
            + "<!DOCTYPE plist PUBLIC \"-//Apple//DTD PLIST 1.0//EN\" \"http://www.apple.com/DTDs/PropertyList-1.0.dtd\">\n"@
            + "<plist version=\"1.0\">\n<dict>\n"@ + (
        "\t<key>Label</key>\n\t<string>dev.pkarpovich.moji</string>\n"@) + (
        "\t<key>ProgramArguments</key>\n\t<array>\n\t\t<string>"@ + escaped(program)
            + "</string>\n\t\t<string>run</string>\n\t</array>\n"@) + (
        "\t<key>RunAtLoad</key>\n\t<true/>\n"@) + (
        "\t<key>KeepAlive</key>\n\t<dict>\n\t\t<key>PathState</key>\n\t\t<dict>\n\t\t\t<key>"@
            + escaped(program) + "</key>\n\t\t\t<true/>\n\t\t</dict>\n\t</dict>\n"@) + (
        "\t<key>StandardOutPath</key>\n\t<string>"@ + escaped(log) + "</string>\n"@) + (
        "\t<key>StandardErrorPath</key>\n\t<string>"@ + escaped(errors) + "</string>\n"@)
            + "</dict>\n</plist>\n"@,
{
    reveal_strlit("<plist version=\"1.0\">\n<dict>\n\t<key>Label</key>\n\t<string>");
    reveal_strlit("dev.pkarpovich.moji");
    reveal_strlit("</string>\n\t<key>ProgramArguments</key>\n\t<array>\n\t\t<string>");
    reveal_strlit(
        "</string>\n\t\t<string>run</string>\n\t</array>\n\t<key>RunAtLoad</key>\n\t<true/>\n",
    );
    reveal_strlit(
        "</key>\n\t\t\t<true/>\n\t\t</dict>\n\t</dict>\n\t<key>StandardOutPath</key>\n\t<string>",
    );
    reveal_strlit("</string>\n\t<key>StandardErrorPath</key>\n\t<string>");
    reveal_strlit("</string>\n</dict>\n</plist>\n");
    reveal_strlit("<plist version=\"1.0\">\n<dict>\n");
    reveal_strlit("\t<key>Label</key>\n\t<string>dev.pkarpovich.moji</string>\n");
    reveal_strlit("\t<key>ProgramArguments</key>\n\t<array>\n\t\t<string>");
    reveal_strlit("</string>\n\t\t<string>run</string>\n\t</array>\n");
    reveal_strlit("\t<key>RunAtLoad</key>\n\t<true/>\n");
    reveal_strlit("</key>\n\t\t\t<true/>\n\t\t</dict>\n\t</dict>\n");
    reveal_strlit("\t<key>StandardOutPath</key>\n\t<string>");
    reveal_strlit("\t<key>StandardErrorPath</key>\n\t<string>");
    reveal_strlit("</string>\n");
    reveal_strlit("</dict>\n</plist>\n");
    assert("<plist version=\"1.0\">\n<dict>\n\t<key>Label</key>\n\t<string>"@ + LABEL@
        + "</string>\n\t<key>ProgramArguments</key>\n\t<array>\n\t\t<string>"@
        =~= "<plist version=\"1.0\">\n<dict>\n"@
        + "\t<key>Label</key>\n\t<string>dev.pkarpovich.moji</string>\n"@
        + "\t<key>ProgramArguments</key>\n\t<array>\n\t\t<string>"@);
    assert("</string>\n\t\t<string>run</string>\n\t</array>\n\t<key>RunAtLoad</key>\n\t<true/>\n"@
        =~= "</string>\n\t\t<string>run</string>\n\t</array>\n"@
        + "\t<key>RunAtLoad</key>\n\t<true/>\n"@);
    assert("</key>\n\t\t\t<true/>\n\t\t</dict>\n\t</dict>\n\t<key>StandardOutPath</key>\n\t<string>"@
        =~= "</key>\n\t\t\t<true/>\n\t\t</dict>\n\t</dict>\n"@
        + "\t<key>StandardOutPath</key>\n\t<string>"@);
    assert("</string>\n\t<key>StandardErrorPath</key>\n\t<string>"@ =~= "</string>\n"@
        + "\t<key>StandardErrorPath</key>\n\t<string>"@);
    assert("</string>\n</dict>\n</plist>\n"@ =~= "</string>\n"@ + "</dict>\n</plist>\n"@);
    assert(agent_text(program, log, errors)
        =~= "<?xml version=\"1.0\" encoding=\"UTF-8\"?>\n"@
        + "<!DOCTYPE plist PUBLIC \"-//Apple//DTD PLIST 1.0//EN\" \"http://www.apple.com/DTDs/PropertyList-1.0.dtd\">\n"@
        + "<plist version=\"1.0\">\n<dict>\n"@ + (
    "\t<key>Label</key>\n\t<string>dev.pkarpovich.moji</string>\n"@) + (
    "\t<key>ProgramArguments</key>\n\t<array>\n\t\t<string>"@ + escaped(program)
        + "</string>\n\t\t<string>run</string>\n\t</array>\n"@) + (
    "\t<key>RunAtLoad</key>\n\t<true/>\n"@) + (
    "\t<key>KeepAlive</key>\n\t<dict>\n\t\t<key>PathState</key>\n\t\t<dict>\n\t\t\t<key>"@
        + escaped(program) + "</key>\n\t\t\t<true/>\n\t\t</dict>\n\t</dict>\n"@) + (
    "\t<key>StandardOutPath</key>\n\t<string>"@ + escaped(log) + "</string>\n"@) + (
    "\t<key>StandardErrorPath</key>\n\t<string>"@ + escaped(errors) + "</string>\n"@)
        + "</dict>\n</plist>\n"@);
}

/// A program is in a bundle exactly where its path leads through a name that ends in `.app`: where
/// it ends there, or where a slash follows.
pub proof fn a_bundle_is_a_name_that_ends_in_app(path: Seq<char>)
    ensures
        housed(path) is Bundle <==> exists|before: Seq<char>, after: Seq<char>|
            path == #[trigger] (before + ".app"@ + after) && (after.len() == 0 || after[0] == '/'),
{
    reveal_strlit(".app");
    if exists|end: int| bundle_ends(path, end) {
        let end = choose|end: int| bundle_ends(path, end);
        let before = path.take(end - 4);
        let after = path.skip(end);
        assert(path =~= before + ".app"@ + after);
    }
    if exists|before: Seq<char>, after: Seq<char>|
        path == #[trigger] (before + ".app"@ + after) && (after.len() == 0 || after[0] == '/') {
        let (before, after) = choose|before: Seq<char>, after: Seq<char>|
            path == #[trigger] (before + ".app"@ + after) && (after.len() == 0 || after[0] == '/');
        assert(bundle_ends(path, (before.len() + 4) as int));
    }
}

/// Each step of an installation asks for its own task and is followed by the next one; a task that
/// could not be carried out, or was refused where that matters, fails it with what it was about.
pub proof fn an_installation_fails_with_what_it_was_about(install: InstallView, reason: String)
    ensures
        ({
            let failed = install.fails_with(Outcome::Failed { reason });
            let missing = install.fails_with(Outcome::Missing { reason });
            let refused = install.fails_with(Outcome::Refused);
            let home = install.home;
            &&& install.fails_with(Outcome::Done) is None
            &&& missing == failed
            &&& match install.stage {
                InstallStage::Unloading => {
                    &&& install.asks() is Unload
                    &&& install.next_stage() is Awaiting
                    &&& failed == Some(ServiceErrorView::Launchctl { reason: reason@ })
                    &&& refused is None
                },
                InstallStage::Awaiting => {
                    &&& install.asks() is AwaitUnloaded
                    &&& install.next_stage() is CreatingAgents
                    &&& failed == Some(ServiceErrorView::Launchctl { reason: reason@ })
                    &&& refused == Some(
                        ServiceErrorView::Bootout { label: "dev.pkarpovich.moji"@ },
                    )
                },
                InstallStage::CreatingAgents => {
                    &&& install.asks() == (TaskView::CreateDirectory { path: agents_under(home) })
                    &&& install.next_stage() is CreatingLogs
                    &&& failed == Some(
                        ServiceErrorView::Directory { path: agents_under(home), reason: reason@ },
                    )
                    &&& refused matches Some(
                        ServiceErrorView::Directory { path, reason: _ },
                    ) && path == agents_under(home)
                },
                InstallStage::CreatingLogs => {
                    &&& install.asks() == (TaskView::CreateDirectory { path: logs_under(home) })
                    &&& install.next_stage() is Writing
                    &&& failed == Some(
                        ServiceErrorView::Directory { path: logs_under(home), reason: reason@ },
                    )
                    &&& refused matches Some(
                        ServiceErrorView::Directory { path, reason: _ },
                    ) && path == logs_under(home)
                },
                InstallStage::Writing => {
                    &&& install.asks() == (TaskView::Write {
                        path: agent_under(home),
                        contents: agent_text(
                            install.program,
                            log_under(home),
                            errors_under(home),
                        ),
                    })
                    &&& install.next_stage() is Loading
                    &&& failed == Some(
                        ServiceErrorView::Write { path: agent_under(home), reason: reason@ },
                    )
                    &&& refused matches Some(ServiceErrorView::Write { path, reason: _ }) && path
                        == agent_under(home)
                },
                InstallStage::Loading => {
                    &&& install.asks() == (TaskView::Load { agent: agent_under(home) })
                    &&& install.next_stage() is Loaded
                    &&& failed == Some(ServiceErrorView::Launchctl { reason: reason@ })
                    &&& refused == Some(ServiceErrorView::Bootstrap { path: agent_under(home) })
                },
                InstallStage::Loaded => install.asks() is Nothing
                    && install.next_stage() is Loaded && failed is None && refused is None,
            }
        }),
{
}

/// Each step of an uninstallation asks for its own task and is followed by the next one; what could
/// not be carried out, or was refused where that matters, fails it with what it was about.
pub proof fn an_uninstallation_fails_with_what_it_was_about(
    uninstall: UninstallView,
    reason: String,
)
    ensures
        ({
            let failed = uninstall.fails_with(Outcome::Failed { reason });
            let missing = uninstall.fails_with(Outcome::Missing { reason });
            let refused = uninstall.fails_with(Outcome::Refused);
            let home = uninstall.home;
            &&& uninstall.fails_with(Outcome::Done) is None
            &&& match uninstall.stage {
                UninstallStage::Unloading => {
                    &&& uninstall.asks() is Unload
                    &&& uninstall.next_stage() is Awaiting
                    &&& failed == Some(ServiceErrorView::Launchctl { reason: reason@ })
                    &&& missing == failed
                    &&& refused is None
                },
                UninstallStage::Awaiting => {
                    &&& uninstall.asks() is AwaitUnloaded
                    &&& uninstall.next_stage() is Removing
                    &&& failed == Some(ServiceErrorView::Launchctl { reason: reason@ })
                    &&& missing == failed
                    &&& refused == Some(
                        ServiceErrorView::Bootout { label: "dev.pkarpovich.moji"@ },
                    )
                },
                UninstallStage::Removing => {
                    &&& uninstall.asks() == (TaskView::Remove { path: agent_under(home) })
                    &&& uninstall.next_stage() is Removed
                    &&& failed == Some(
                        ServiceErrorView::Remove { path: agent_under(home), reason: reason@ },
                    )
                    &&& missing is None
                    &&& refused matches Some(ServiceErrorView::Remove { path, reason: _ }) && path
                        == agent_under(home)
                },
                UninstallStage::Removed => uninstall.asks() is Nothing
                    && uninstall.next_stage() is Removed && failed is None && missing is None
                    && refused is None,
            }
        }),
{
}

/// Every error names what it is about and why.
pub proof fn every_service_error_names_what_it_is_about(subject: Seq<char>, reason: Seq<char>)
    ensures
        (ServiceErrorView::Executable { reason }).words()
            == "the running binary could not be located: "@ + reason,
        (ServiceErrorView::Directory { path: subject, reason }).words() == subject
            + " could not be created: "@ + reason,
        (ServiceErrorView::Write { path: subject, reason }).words() == subject
            + " could not be written: "@ + reason,
        (ServiceErrorView::Remove { path: subject, reason }).words() == subject
            + " could not be removed: "@ + reason,
        (ServiceErrorView::Launchctl { reason }).words() == "launchctl could not be run: "@
            + reason,
        (ServiceErrorView::Bootstrap { path: subject }).words() == "launchctl refused to load "@
            + subject,
        (ServiceErrorView::Bootout { label: subject }).words() == subject
            + " is still loaded, so launchctl refused to unload it"@,
{
}

/// An error, a task and a layout on disk say what they are, with every path and reason as it is.
pub proof fn a_task_and_an_error_say_what_they_are(
    path: String,
    contents: String,
    reason: String,
    layout: Layout,
    home: Seq<char>,
)
    ensures
        Task::Unload@ is Unload,
        Task::AwaitUnloaded@ is AwaitUnloaded,
        Task::Nothing@ is Nothing,
        (Task::CreateDirectory { path })@ == (TaskView::CreateDirectory { path: path@ }),
        (Task::Write { path, contents })@ == (TaskView::Write {
            path: path@,
            contents: contents@,
        }),
        (Task::Load { agent: path })@ == (TaskView::Load { agent: path@ }),
        (Task::Remove { path })@ == (TaskView::Remove { path: path@ }),
        ServiceError::NoHome@ is NoHome,
        (ServiceError::Executable { reason })@ == (ServiceErrorView::Executable {
            reason: reason@,
        }),
        (ServiceError::Directory { path, reason })@ == (ServiceErrorView::Directory {
            path: path@,
            reason: reason@,
        }),
        (ServiceError::Write { path, reason })@ == (ServiceErrorView::Write {
            path: path@,
            reason: reason@,
        }),
        (ServiceError::Remove { path, reason })@ == (ServiceErrorView::Remove {
            path: path@,
            reason: reason@,
        }),
        (ServiceError::Launchctl { reason })@ == (ServiceErrorView::Launchctl { reason: reason@ }),
        (ServiceError::Bootstrap { path })@ == (ServiceErrorView::Bootstrap { path: path@ }),
        (ServiceError::Bootout { label: path })@ == (ServiceErrorView::Bootout { label: path@ }),
        layout.is_under(home) <==> layout.agent@ == agent_under(home) && layout.log@ == log_under(
            home,
        ) && layout.errors@ == errors_under(home),
{
}

/// While there is time launchd is asked, and from the deadline on the job counts as one that would
/// not go away. A job launchd refuses to print is gone, one it prints is asked for again after a
/// pause, and a question that could not be asked ends the wait with why.
pub proof fn each_step_of_a_wait_follows_from_the_clock_or_the_answer(
    ends: Instant,
    now: Instant,
    reason: String,
)
    ensures
        now < ends ==> by_the_clock(ends, now) is Ask,
        now >= ends ==> by_the_clock(ends, now) == WaitStep::Over(Outcome::Refused),
        by_the_answer(Outcome::Refused) == WaitStep::Over(Outcome::Done),
        by_the_answer(Outcome::Done) is Pause,
        by_the_answer(Outcome::Missing { reason }) == WaitStep::Over(Outcome::Missing { reason }),
        by_the_answer(Outcome::Failed { reason }) == WaitStep::Over(Outcome::Failed { reason }),
        UNLOAD_TIMEOUT == 5_000_000_000,
        UNLOAD_POLL == 100_000_000,
{
}

} // verus!
