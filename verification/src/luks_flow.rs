//! The `open`, `close` and `status` sub-commands as a state machine.
//!
//! A [`LuksSession`] emits one [`Step`] at a time; the caller carries it out
//! and reports the outcome as an [`Event`]. The session holds only the
//! decisions: which question to ask next, what to print, which command to
//! run, when to roll back and how the sub-command ends.

use vstd::prelude::*;
use crate::luks::{
    argv_view, privileged_argv, privileged_command, push_arg, LuksError, PrivilegeRunner,
};
use crate::text::push_str;

verus! {

/// The sub-command a session carries out.
#[derive(Clone, Copy, Debug, PartialEq, Eq, Structural)]
pub enum Flow {
    Open,
    Close,
    Status,
}

/// A question about the system.
#[derive(Clone, Copy, Debug, PartialEq, Eq, Structural)]
pub enum Query {
    /// Does `/dev/mapper/<name>` exist?
    DeviceOpen,
    /// Is the mount point listed in the mount table?
    Mounted,
    /// Does `cryptsetup isLuks` accept the container file?
    IsLuks,
    /// Is the mount point a directory?
    MountPointIsDir,
}

/// A command that changes the system.
#[derive(Clone, Copy, Debug, PartialEq, Eq, Structural)]
pub enum Tool {
    OpenContainer,
    CloseContainer,
    Mount,
    Unmount,
}

/// A line to print.
#[derive(Debug)]
pub enum Note {
    Remounting,
    Opening,
    Mounting,
    OpenedAndMounted,
    OpenSpaceHeading,
    SpaceLine(String),
    Unmounting,
    Closing,
    Closed,
    NotOpen,
    StatusContainer,
    StatusDevice,
    StatusMountPoint,
    StatusOpen,
    StatusClosed,
    StatusMounted,
    StatusNotMounted,
    StatusSpaceHeading,
}

/// What the caller is asked to do next.
#[derive(Debug)]
pub enum Step {
    /// Answer with [`Event::Answer`] (`IsLuks` may also be answered with [`Event::Failed`]).
    Ask(Query),
    /// Print the note's text; answer with [`Event::Done`].
    Say(Note),
    /// Run the tool's command line; answer with [`Event::Ran`] or [`Event::Failed`].
    Run(Tool),
    /// Run the tool's command line with its output discarded and its outcome
    /// ignored; answer with [`Event::Done`].
    RunQuietly(Tool),
    /// Create the mount point and its parents; answer with [`Event::Done`] or [`Event::Failed`].
    CreateMountPoint,
    /// Ask `df -h` about the mount point; answer with [`Event::Space`] or [`Event::Failed`].
    MeasureSpace,
    /// Remove the (empty) mount point directory, ignoring failure; answer with [`Event::Done`].
    RemoveMountPoint,
    /// The sub-command is over.
    Finish(Result<(), LuksError>),
}

/// What happened when the caller carried out a step.
#[derive(Debug)]
pub enum Event {
    Answer(bool),
    Done,
    /// The command ran; whether it reported success.
    Ran(bool),
    /// The action could not be carried out; the system's description.
    Failed(String),
    /// The last non-blank line of `df`, if any.
    Space(Option<String>),
}

/// Where a session stands: the step it has emitted and waits on.
#[derive(Debug)]
pub enum Stage {
    OpenCheckDevice,
    OpenCheckMounted,
    OpenCheckLuks,
    OpenAnnounceOpening,
    OpenRunOpen,
    OpenAnnounceRemount,
    OpenCreateMountPoint,
    OpenRollbackCreate { reason: String },
    OpenAnnounceMount,
    OpenRunMount,
    OpenRollbackMount,
    OpenReportMounted,
    OpenSpaceHeading,
    OpenMeasureSpace,
    OpenShowSpace,
    CloseCheckMounted,
    CloseAnnounceUnmount,
    CloseRunUnmount,
    CloseCheckDevice,
    CloseAnnounceClose,
    CloseRunClose,
    CloseCheckDir,
    CloseRemoveDir,
    CloseReport,
    StatusShowContainer,
    StatusShowDevice,
    StatusShowMountPoint,
    StatusCheckDevice,
    StatusShowOpen,
    StatusCheckMounted,
    StatusShowMounted,
    StatusSpaceHeading,
    StatusMeasureSpace,
    StatusReport,
    Finished,
}

/// One run of `open`, `close` or `status` on a container.
#[derive(Debug)]
pub struct LuksSession {
    pub luks_file: String,
    pub luks_name: String,
    pub mount_point: String,
    pub runner: PrivilegeRunner,
    pub stage: Stage,
    /// The container was opened by this session (and is closed again if mounting fails).
    pub opened_here: bool,
    /// Something was unmounted or closed by this session.
    pub cleanup_needed: bool,
}

/// The session with a new stage.
pub open spec fn at(s: LuksSession, stage: Stage) -> LuksSession {
    LuksSession { stage, ..s }
}

/// The session once it has ended.
pub open spec fn finished(s: LuksSession) -> LuksSession {
    at(s, Stage::Finished)
}

/// The first stage and step of a flow.
pub open spec fn start_of(flow: Flow) -> (Stage, Step) {
    match flow {
        Flow::Open => (Stage::OpenCheckDevice, Step::Ask(Query::DeviceOpen)),
        Flow::Close => (Stage::CloseCheckMounted, Step::Ask(Query::Mounted)),
        Flow::Status => (Stage::StatusShowContainer, Step::Say(Note::StatusContainer)),
    }
}

/// The events a stage waits for.
pub open spec fn accepts(s: LuksSession, ev: Event) -> bool {
    match s.stage {
        Stage::OpenCheckDevice | Stage::OpenCheckMounted | Stage::CloseCheckMounted
        | Stage::CloseCheckDevice | Stage::CloseCheckDir | Stage::StatusCheckDevice
        | Stage::StatusCheckMounted => ev is Answer,
        Stage::OpenCheckLuks => ev is Answer || ev is Failed,
        Stage::OpenRunOpen | Stage::OpenRunMount | Stage::CloseRunUnmount
        | Stage::CloseRunClose => ev is Ran || ev is Failed,
        Stage::OpenCreateMountPoint => ev is Done || ev is Failed,
        Stage::OpenMeasureSpace | Stage::StatusMeasureSpace => ev is Space || ev is Failed,
        Stage::Finished => false,
        _ => ev is Done,
    }
}

/// The close flow's last part: remove the mount point after a cleanup, then report.
pub open spec fn close_wrap_up(s: LuksSession) -> (LuksSession, Step) {
    if s.cleanup_needed {
        (at(s, Stage::CloseCheckDir), Step::Ask(Query::MountPointIsDir))
    } else {
        (at(s, Stage::CloseReport), Step::Say(Note::NotOpen))
    }
}

/// The transition table: the next session and step after `ev`.
pub open spec fn transition(s: LuksSession, ev: Event) -> (LuksSession, Step) {
    let io_error = |m: String| (finished(s), Step::Finish(Err(LuksError::Io { reason: m })));
    match (s.stage, ev) {
        // open
        (Stage::OpenCheckDevice, Event::Answer(true)) => (
            at(s, Stage::OpenCheckMounted),
            Step::Ask(Query::Mounted),
        ),
        (Stage::OpenCheckDevice, Event::Answer(false)) => (
            at(s, Stage::OpenCheckLuks),
            Step::Ask(Query::IsLuks),
        ),
        (Stage::OpenCheckMounted, Event::Answer(true)) => (
            finished(s),
            Step::Finish(
                Err(LuksError::AlreadyMounted { name: s.luks_name, mount: s.mount_point }),
            ),
        ),
        (Stage::OpenCheckMounted, Event::Answer(false)) => (
            at(s, Stage::OpenAnnounceRemount),
            Step::Say(Note::Remounting),
        ),
        (Stage::OpenCheckLuks, Event::Answer(true)) => (
            at(s, Stage::OpenAnnounceOpening),
            Step::Say(Note::Opening),
        ),
        (Stage::OpenCheckLuks, Event::Answer(false)) => (
            finished(s),
            Step::Finish(Err(LuksError::NotLuks { path: s.luks_file })),
        ),
        (Stage::OpenCheckLuks, Event::Failed(m)) => io_error(m),
        (Stage::OpenAnnounceOpening, _) => (at(s, Stage::OpenRunOpen), Step::Run(Tool::OpenContainer)),
        (Stage::OpenRunOpen, Event::Ran(true)) => (
            LuksSession { stage: Stage::OpenCreateMountPoint, opened_here: true, ..s },
            Step::CreateMountPoint,
        ),
        (Stage::OpenRunOpen, Event::Ran(false)) => (
            finished(s),
            Step::Finish(Err(LuksError::OpenFailed)),
        ),
        (Stage::OpenRunOpen, Event::Failed(m)) => io_error(m),
        (Stage::OpenAnnounceRemount, _) => (
            at(s, Stage::OpenCreateMountPoint),
            Step::CreateMountPoint,
        ),
        (Stage::OpenCreateMountPoint, Event::Failed(m)) => if s.opened_here {
            (at(s, Stage::OpenRollbackCreate { reason: m }), Step::RunQuietly(Tool::CloseContainer))
        } else {
            (
                finished(s),
                Step::Finish(
                    Err(LuksError::MountPointFailed { mount: s.mount_point, reason: m }),
                ),
            )
        },
        (Stage::OpenCreateMountPoint, _) => (
            at(s, Stage::OpenAnnounceMount),
            Step::Say(Note::Mounting),
        ),
        (Stage::OpenRollbackCreate { reason }, _) => (
            finished(s),
            Step::Finish(Err(LuksError::MountPointFailed { mount: s.mount_point, reason })),
        ),
        (Stage::OpenAnnounceMount, _) => (at(s, Stage::OpenRunMount), Step::Run(Tool::Mount)),
        (Stage::OpenRunMount, Event::Ran(true)) => (
            at(s, Stage::OpenReportMounted),
            Step::Say(Note::OpenedAndMounted),
        ),
        (Stage::OpenRunMount, Event::Ran(false)) => if s.opened_here {
            (at(s, Stage::OpenRollbackMount), Step::RunQuietly(Tool::CloseContainer))
        } else {
            (finished(s), Step::Finish(Err(LuksError::MountFailed)))
        },
        (Stage::OpenRunMount, Event::Failed(m)) => io_error(m),
        (Stage::OpenRollbackMount, _) => (finished(s), Step::Finish(Err(LuksError::MountFailed))),
        (Stage::OpenReportMounted, _) => (
            at(s, Stage::OpenSpaceHeading),
            Step::Say(Note::OpenSpaceHeading),
        ),
        (Stage::OpenSpaceHeading, _) => (at(s, Stage::OpenMeasureSpace), Step::MeasureSpace),
        (Stage::OpenMeasureSpace, Event::Space(Some(l))) => (
            at(s, Stage::OpenShowSpace),
            Step::Say(Note::SpaceLine(l)),
        ),
        (Stage::OpenMeasureSpace, Event::Failed(m)) => io_error(m),
        (Stage::OpenMeasureSpace, _) => (finished(s), Step::Finish(Ok(()))),
        (Stage::OpenShowSpace, _) => (finished(s), Step::Finish(Ok(()))),
        // close
        (Stage::CloseCheckMounted, Event::Answer(true)) => (
            at(s, Stage::CloseAnnounceUnmount),
            Step::Say(Note::Unmounting),
        ),
        (Stage::CloseCheckMounted, _) => (
            at(s, Stage::CloseCheckDevice),
            Step::Ask(Query::DeviceOpen),
        ),
        (Stage::CloseAnnounceUnmount, _) => (at(s, Stage::CloseRunUnmount), Step::Run(Tool::Unmount)),
        (Stage::CloseRunUnmount, Event::Ran(true)) => (
            LuksSession { stage: Stage::CloseCheckDevice, cleanup_needed: true, ..s },
            Step::Ask(Query::DeviceOpen),
        ),
        (Stage::CloseRunUnmount, Event::Ran(false)) => (
            finished(s),
            Step::Finish(Err(LuksError::UnmountFailed)),
        ),
        (Stage::CloseRunUnmount, Event::Failed(m)) => io_error(m),
        (Stage::CloseCheckDevice, Event::Answer(true)) => (
            at(s, Stage::CloseAnnounceClose),
            Step::Say(Note::Closing),
        ),
        (Stage::CloseCheckDevice, _) => close_wrap_up(s),
        (Stage::CloseAnnounceClose, _) => (
            at(s, Stage::CloseRunClose),
            Step::Run(Tool::CloseContainer),
        ),
        (Stage::CloseRunClose, Event::Ran(true)) => close_wrap_up(
            LuksSession { cleanup_needed: true, ..s },
        ),
        (Stage::CloseRunClose, Event::Ran(false)) => (
            finished(s),
            Step::Finish(Err(LuksError::CloseFailed)),
        ),
        (Stage::CloseRunClose, Event::Failed(m)) => io_error(m),
        (Stage::CloseCheckDir, Event::Answer(true)) => (
            at(s, Stage::CloseRemoveDir),
            Step::RemoveMountPoint,
        ),
        (Stage::CloseCheckDir, _) => (at(s, Stage::CloseReport), Step::Say(Note::Closed)),
        (Stage::CloseRemoveDir, _) => (at(s, Stage::CloseReport), Step::Say(Note::Closed)),
        (Stage::CloseReport, _) => (finished(s), Step::Finish(Ok(()))),
        // status
        (Stage::StatusShowContainer, _) => (
            at(s, Stage::StatusShowDevice),
            Step::Say(Note::StatusDevice),
        ),
        (Stage::StatusShowDevice, _) => (
            at(s, Stage::StatusShowMountPoint),
            Step::Say(Note::StatusMountPoint),
        ),
        (Stage::StatusShowMountPoint, _) => (
            at(s, Stage::StatusCheckDevice),
            Step::Ask(Query::DeviceOpen),
        ),
        (Stage::StatusCheckDevice, Event::Answer(true)) => (
            at(s, Stage::StatusShowOpen),
            Step::Say(Note::StatusOpen),
        ),
        (Stage::StatusCheckDevice, _) => (at(s, Stage::StatusReport), Step::Say(Note::StatusClosed)),
        (Stage::StatusShowOpen, _) => (at(s, Stage::StatusCheckMounted), Step::Ask(Query::Mounted)),
        (Stage::StatusCheckMounted, Event::Answer(true)) => (
            at(s, Stage::StatusShowMounted),
            Step::Say(Note::StatusMounted),
        ),
        (Stage::StatusCheckMounted, _) => (
            at(s, Stage::StatusReport),
            Step::Say(Note::StatusNotMounted),
        ),
        (Stage::StatusShowMounted, _) => (
            at(s, Stage::StatusSpaceHeading),
            Step::Say(Note::StatusSpaceHeading),
        ),
        (Stage::StatusSpaceHeading, _) => (at(s, Stage::StatusMeasureSpace), Step::MeasureSpace),
        (Stage::StatusMeasureSpace, Event::Space(Some(l))) => (
            at(s, Stage::StatusReport),
            Step::Say(Note::SpaceLine(l)),
        ),
        (Stage::StatusMeasureSpace, Event::Failed(m)) => io_error(m),
        (Stage::StatusMeasureSpace, _) => (finished(s), Step::Finish(Ok(()))),
        (Stage::StatusReport, _) => (finished(s), Step::Finish(Ok(()))),
        // not reached for accepted events
        (Stage::OpenCheckDevice, _) | (Stage::OpenCheckMounted, _) | (Stage::OpenCheckLuks, _) | (
            Stage::OpenRunOpen,
            _,
        ) | (Stage::OpenRunMount, _) | (Stage::CloseRunUnmount, _) | (Stage::CloseRunClose, _) | (
            Stage::Finished,
            _,
        ) => (finished(s), Step::Finish(Ok(()))),
    }
}

/// The text printed for a note.
pub open spec fn note_text(s: LuksSession, n: Note) -> Seq<char> {
    match n {
        Note::Remounting => "Device is open but not mounted. Attempting to mount..."@,
        Note::Opening => "Opening LUKS container..."@,
        Note::Mounting => "Mounting filesystem..."@,
        Note::OpenedAndMounted => "LUKS container '"@ + s.luks_file@ + "' opened and mounted at '"@
            + s.mount_point@ + "'"@,
        Note::OpenSpaceHeading => "Available space:"@,
        Note::SpaceLine(l) => l@,
        Note::Unmounting => "Unmounting filesystem..."@,
        Note::Closing => "Closing LUKS device..."@,
        Note::Closed => "LUKS container '"@ + s.luks_file@ + "' closed successfully"@,
        Note::NotOpen => "LUKS container '"@ + s.luks_name@ + "' was not open"@,
        Note::StatusContainer => "LUKS Container: "@ + s.luks_file@,
        Note::StatusDevice => "Device Name: "@ + s.luks_name@,
        Note::StatusMountPoint => "Mount Point: "@ + s.mount_point@,
        Note::StatusOpen => "Status: Device is OPEN"@,
        Note::StatusClosed => "Status: Device is CLOSED"@,
        Note::StatusMounted => "Mount Status: MOUNTED at "@ + s.mount_point@,
        Note::StatusNotMounted => "Mount Status: NOT MOUNTED"@,
        Note::StatusSpaceHeading => "Available Space:"@,
    }
}

/// The command line run for a tool.
pub open spec fn tool_argv(s: LuksSession, t: Tool) -> Seq<Seq<char>> {
    match t {
        Tool::OpenContainer => privileged_argv(s.runner, "cryptsetup"@) + seq![
            "open"@,
            "--type"@,
            "luks"@,
            s.luks_file@,
            s.luks_name@,
        ],
        Tool::CloseContainer => privileged_argv(s.runner, "cryptsetup"@) + seq![
            "close"@,
            s.luks_name@,
        ],
        Tool::Mount => privileged_argv(s.runner, "mount"@) + seq![
            "/dev/mapper/"@ + s.luks_name@,
            s.mount_point@,
        ],
        Tool::Unmount => privileged_argv(s.runner, "umount"@) + seq![s.mount_point@],
    }
}

impl LuksSession {
    /// A new session for `flow` and its first step.
    pub fn start(
        flow: Flow,
        luks_file: String,
        luks_name: String,
        mount_point: String,
        runner: PrivilegeRunner,
    ) -> (r: (LuksSession, Step))
        ensures
            r.0.luks_file == luks_file,
            r.0.luks_name == luks_name,
            r.0.mount_point == mount_point,
            r.0.runner == runner,
            !r.0.opened_here,
            !r.0.cleanup_needed,
            (r.0.stage, r.1) == start_of(flow),
    {
        let (stage, step) = match flow {
            Flow::Open => (Stage::OpenCheckDevice, Step::Ask(Query::DeviceOpen)),
            Flow::Close => (Stage::CloseCheckMounted, Step::Ask(Query::Mounted)),
            Flow::Status => (Stage::StatusShowContainer, Step::Say(Note::StatusContainer)),
        };
        (
            LuksSession {
                luks_file,
                luks_name,
                mount_point,
                runner,
                stage,
                opened_here: false,
                cleanup_needed: false,
            },
            step,
        )
    }

    /// Whether the session waits for an event of this kind.
    pub fn accepts(&self, ev: &Event) -> (b: bool)
        ensures
            b == accepts(*self, *ev),
    {
        match self.stage {
            Stage::OpenCheckDevice | Stage::OpenCheckMounted | Stage::CloseCheckMounted
            | Stage::CloseCheckDevice | Stage::CloseCheckDir | Stage::StatusCheckDevice
            | Stage::StatusCheckMounted => matches!(ev, Event::Answer(_)),
            Stage::OpenCheckLuks => matches!(ev, Event::Answer(_)) || matches!(ev, Event::Failed(_)),
            Stage::OpenRunOpen | Stage::OpenRunMount | Stage::CloseRunUnmount
            | Stage::CloseRunClose => matches!(ev, Event::Ran(_)) || matches!(ev, Event::Failed(_)),
            Stage::OpenCreateMountPoint => matches!(ev, Event::Done) || matches!(ev, Event::Failed(_)),
            Stage::OpenMeasureSpace | Stage::StatusMeasureSpace => matches!(ev, Event::Space(_))
                || matches!(ev, Event::Failed(_)),
            Stage::Finished => false,
            _ => matches!(ev, Event::Done),
        }
    }

    fn close_wrap_up(self) -> (r: (LuksSession, Step))
        requires
            self.stage is Finished,
        ensures
            r == close_wrap_up(self),
    {
        if self.cleanup_needed {
            (LuksSession { stage: Stage::CloseCheckDir, ..self }, Step::Ask(Query::MountPointIsDir))
        } else {
            (LuksSession { stage: Stage::CloseReport, ..self }, Step::Say(Note::NotOpen))
        }
    }

    /// The next session and step after `ev`.
    pub fn step(self, ev: Event) -> (r: (LuksSession, Step))
        requires
            accepts(self, ev),
        ensures
            r == transition(self, ev),
    {
        let ghost s0 = self;
        let mut s = self;
        let mut stage = Stage::Finished;
        std::mem::swap(&mut stage, &mut s.stage);
        assert(s == finished(s0));
        match (stage, ev) {
            (Stage::OpenCheckDevice, Event::Answer(true)) => (
                LuksSession { stage: Stage::OpenCheckMounted, ..s },
                Step::Ask(Query::Mounted),
            ),
            (Stage::OpenCheckDevice, _) => (
                LuksSession { stage: Stage::OpenCheckLuks, ..s },
                Step::Ask(Query::IsLuks),
            ),
            (Stage::OpenCheckMounted, Event::Answer(true)) => {
                let name = s.luks_name.clone();
                let mount = s.mount_point.clone();
                (s, Step::Finish(Err(LuksError::AlreadyMounted { name, mount })))
            },
            (Stage::OpenCheckMounted, _) => (
                LuksSession { stage: Stage::OpenAnnounceRemount, ..s },
                Step::Say(Note::Remounting),
            ),
            (Stage::OpenCheckLuks, Event::Answer(true)) => (
                LuksSession { stage: Stage::OpenAnnounceOpening, ..s },
                Step::Say(Note::Opening),
            ),
            (Stage::OpenCheckLuks, Event::Failed(m)) => (
                s,
                Step::Finish(Err(LuksError::Io { reason: m })),
            ),
            (Stage::OpenCheckLuks, _) => {
                let path = s.luks_file.clone();
                (s, Step::Finish(Err(LuksError::NotLuks { path })))
            },
            (Stage::OpenAnnounceOpening, _) => (
                LuksSession { stage: Stage::OpenRunOpen, ..s },
                Step::Run(Tool::OpenContainer),
            ),
            (Stage::OpenRunOpen, Event::Ran(true)) => (
                LuksSession { stage: Stage::OpenCreateMountPoint, opened_here: true, ..s },
                Step::CreateMountPoint,
            ),
            (Stage::OpenRunOpen, Event::Failed(m)) => (
                s,
                Step::Finish(Err(LuksError::Io { reason: m })),
            ),
            (Stage::OpenRunOpen, _) => (s, Step::Finish(Err(LuksError::OpenFailed))),
            (Stage::OpenAnnounceRemount, _) => (
                LuksSession { stage: Stage::OpenCreateMountPoint, ..s },
                Step::CreateMountPoint,
            ),
            (Stage::OpenCreateMountPoint, Event::Failed(m)) => {
                if s.opened_here {
                    (
                        LuksSession { stage: Stage::OpenRollbackCreate { reason: m }, ..s },
                        Step::RunQuietly(Tool::CloseContainer),
                    )
                } else {
                    let mount = s.mount_point.clone();
                    (s, Step::Finish(Err(LuksError::MountPointFailed { mount, reason: m })))
                }
            },
            (Stage::OpenCreateMountPoint, _) => (
                LuksSession { stage: Stage::OpenAnnounceMount, ..s },
                Step::Say(Note::Mounting),
            ),
            (Stage::OpenRollbackCreate { reason }, _) => {
                let mount = s.mount_point.clone();
                (s, Step::Finish(Err(LuksError::MountPointFailed { mount, reason })))
            },
            (Stage::OpenAnnounceMount, _) => (
                LuksSession { stage: Stage::OpenRunMount, ..s },
                Step::Run(Tool::Mount),
            ),
            (Stage::OpenRunMount, Event::Ran(true)) => (
                LuksSession { stage: Stage::OpenReportMounted, ..s },
                Step::Say(Note::OpenedAndMounted),
            ),
            (Stage::OpenRunMount, Event::Failed(m)) => (
                s,
                Step::Finish(Err(LuksError::Io { reason: m })),
            ),
            (Stage::OpenRunMount, _) => {
                if s.opened_here {
                    (
                        LuksSession { stage: Stage::OpenRollbackMount, ..s },
                        Step::RunQuietly(Tool::CloseContainer),
                    )
                } else {
                    (s, Step::Finish(Err(LuksError::MountFailed)))
                }
            },
            (Stage::OpenRollbackMount, _) => (s, Step::Finish(Err(LuksError::MountFailed))),
            (Stage::OpenReportMounted, _) => (
                LuksSession { stage: Stage::OpenSpaceHeading, ..s },
                Step::Say(Note::OpenSpaceHeading),
            ),
            (Stage::OpenSpaceHeading, _) => (
                LuksSession { stage: Stage::OpenMeasureSpace, ..s },
                Step::MeasureSpace,
            ),
            (Stage::OpenMeasureSpace, Event::Space(Some(l))) => (
                LuksSession { stage: Stage::OpenShowSpace, ..s },
                Step::Say(Note::SpaceLine(l)),
            ),
            (Stage::OpenMeasureSpace, Event::Failed(m)) => (
                s,
                Step::Finish(Err(LuksError::Io { reason: m })),
            ),
            (Stage::OpenMeasureSpace, _) => (s, Step::Finish(Ok(()))),
            (Stage::OpenShowSpace, _) => (s, Step::Finish(Ok(()))),
            (Stage::CloseCheckMounted, Event::Answer(true)) => (
                LuksSession { stage: Stage::CloseAnnounceUnmount, ..s },
                Step::Say(Note::Unmounting),
            ),
            (Stage::CloseCheckMounted, _) => (
                LuksSession { stage: Stage::CloseCheckDevice, ..s },
                Step::Ask(Query::DeviceOpen),
            ),
            (Stage::CloseAnnounceUnmount, _) => (
                LuksSession { stage: Stage::CloseRunUnmount, ..s },
                Step::Run(Tool::Unmount),
            ),
            (Stage::CloseRunUnmount, Event::Ran(true)) => (
                LuksSession { stage: Stage::CloseCheckDevice, cleanup_needed: true, ..s },
                Step::Ask(Query::DeviceOpen),
            ),
            (Stage::CloseRunUnmount, Event::Failed(m)) => (
                s,
                Step::Finish(Err(LuksError::Io { reason: m })),
            ),
            (Stage::CloseRunUnmount, _) => (s, Step::Finish(Err(LuksError::UnmountFailed))),
            (Stage::CloseCheckDevice, Event::Answer(true)) => (
                LuksSession { stage: Stage::CloseAnnounceClose, ..s },
                Step::Say(Note::Closing),
            ),
            (Stage::CloseCheckDevice, _) => s.close_wrap_up(),
            (Stage::CloseAnnounceClose, _) => (
                LuksSession { stage: Stage::CloseRunClose, ..s },
                Step::Run(Tool::CloseContainer),
            ),
            (Stage::CloseRunClose, Event::Ran(true)) => LuksSession {
                cleanup_needed: true,
                ..s
            }.close_wrap_up(),
            (Stage::CloseRunClose, Event::Failed(m)) => (
                s,
                Step::Finish(Err(LuksError::Io { reason: m })),
            ),
            (Stage::CloseRunClose, _) => (s, Step::Finish(Err(LuksError::CloseFailed))),
            (Stage::CloseCheckDir, Event::Answer(true)) => (
                LuksSession { stage: Stage::CloseRemoveDir, ..s },
                Step::RemoveMountPoint,
            ),
            (Stage::CloseCheckDir, _) => (
                LuksSession { stage: Stage::CloseReport, ..s },
                Step::Say(Note::Closed),
            ),
            (Stage::CloseRemoveDir, _) => (
                LuksSession { stage: Stage::CloseReport, ..s },
                Step::Say(Note::Closed),
            ),
            (Stage::CloseReport, _) => (s, Step::Finish(Ok(()))),
            (Stage::StatusShowContainer, _) => (
                LuksSession { stage: Stage::StatusShowDevice, ..s },
                Step::Say(Note::StatusDevice),
            ),
            (Stage::StatusShowDevice, _) => (
                LuksSession { stage: Stage::StatusShowMountPoint, ..s },
                Step::Say(Note::StatusMountPoint),
            ),
            (Stage::StatusShowMountPoint, _) => (
                LuksSession { stage: Stage::StatusCheckDevice, ..s },
                Step::Ask(Query::DeviceOpen),
            ),
            (Stage::StatusCheckDevice, Event::Answer(true)) => (
                LuksSession { stage: Stage::StatusShowOpen, ..s },
                Step::Say(Note::StatusOpen),
            ),
            (Stage::StatusCheckDevice, _) => (
                LuksSession { stage: Stage::StatusReport, ..s },
                Step::Say(Note::StatusClosed),
            ),
            (Stage::StatusShowOpen, _) => (
                LuksSession { stage: Stage::StatusCheckMounted, ..s },
                Step::Ask(Query::Mounted),
            ),
            (Stage::StatusCheckMounted, Event::Answer(true)) => (
                LuksSession { stage: Stage::StatusShowMounted, ..s },
                Step::Say(Note::StatusMounted),
            ),
            (Stage::StatusCheckMounted, _) => (
                LuksSession { stage: Stage::StatusReport, ..s },
                Step::Say(Note::StatusNotMounted),
            ),
            (Stage::StatusShowMounted, _) => (
                LuksSession { stage: Stage::StatusSpaceHeading, ..s },
                Step::Say(Note::StatusSpaceHeading),
            ),
            (Stage::StatusSpaceHeading, _) => (
                LuksSession { stage: Stage::StatusMeasureSpace, ..s },
                Step::MeasureSpace,
            ),
            (Stage::StatusMeasureSpace, Event::Space(Some(l))) => (
                LuksSession { stage: Stage::StatusReport, ..s },
                Step::Say(Note::SpaceLine(l)),
            ),
            (Stage::StatusMeasureSpace, Event::Failed(m)) => (
                s,
                Step::Finish(Err(LuksError::Io { reason: m })),
            ),
            (Stage::StatusMeasureSpace, _) => (s, Step::Finish(Ok(()))),
            (Stage::StatusReport, _) => (s, Step::Finish(Ok(()))),
            (Stage::Finished, _) => (s, Step::Finish(Ok(()))),
        }
    }

    /// The text printed for a note.
    pub fn note_line(&self, n: &Note) -> (line: String)
        ensures
            line@ == note_text(*self, *n),
    {
        let mut out = String::new();
        match n {
            Note::Remounting => push_str(
                &mut out,
                "Device is open but not mounted. Attempting to mount...",
            ),
            Note::Opening => push_str(&mut out, "Opening LUKS container..."),
            Note::Mounting => push_str(&mut out, "Mounting filesystem..."),
            Note::OpenedAndMounted => {
                push_str(&mut out, "LUKS container '");
                push_str(&mut out, self.luks_file.as_str());
                push_str(&mut out, "' opened and mounted at '");
                push_str(&mut out, self.mount_point.as_str());
                push_str(&mut out, "'");
            },
            Note::OpenSpaceHeading => push_str(&mut out, "Available space:"),
            Note::SpaceLine(l) => push_str(&mut out, l.as_str()),
            Note::Unmounting => push_str(&mut out, "Unmounting filesystem..."),
            Note::Closing => push_str(&mut out, "Closing LUKS device..."),
            Note::Closed => {
                push_str(&mut out, "LUKS container '");
                push_str(&mut out, self.luks_file.as_str());
                push_str(&mut out, "' closed successfully");
            },
            Note::NotOpen => {
                push_str(&mut out, "LUKS container '");
                push_str(&mut out, self.luks_name.as_str());
                push_str(&mut out, "' was not open");
            },
            Note::StatusContainer => {
                push_str(&mut out, "LUKS Container: ");
                push_str(&mut out, self.luks_file.as_str());
            },
            Note::StatusDevice => {
                push_str(&mut out, "Device Name: ");
                push_str(&mut out, self.luks_name.as_str());
            },
            Note::StatusMountPoint => {
                push_str(&mut out, "Mount Point: ");
                push_str(&mut out, self.mount_point.as_str());
            },
            Note::StatusOpen => push_str(&mut out, "Status: Device is OPEN"),
            Note::StatusClosed => push_str(&mut out, "Status: Device is CLOSED"),
            Note::StatusMounted => {
                push_str(&mut out, "Mount Status: MOUNTED at ");
                push_str(&mut out, self.mount_point.as_str());
            },
            Note::StatusNotMounted => push_str(&mut out, "Mount Status: NOT MOUNTED"),
            Note::StatusSpaceHeading => push_str(&mut out, "Available Space:"),
        }
        assert(out@ =~= note_text(*self, *n));
        out
    }

    /// The command line run for a tool (program first).
    pub fn command_line(&self, t: Tool) -> (argv: Vec<String>)
        ensures
            argv_view(argv@) == tool_argv(*self, t),
    {
        match t {
            Tool::OpenContainer => {
                let mut argv = privileged_command(&self.runner, "cryptsetup");
                push_arg(&mut argv, "open");
                push_arg(&mut argv, "--type");
                push_arg(&mut argv, "luks");
                push_arg(&mut argv, self.luks_file.as_str());
                push_arg(&mut argv, self.luks_name.as_str());
                assert(argv_view(argv@) =~= tool_argv(*self, t));
                argv
            },
            Tool::CloseContainer => {
                let mut argv = privileged_command(&self.runner, "cryptsetup");
                push_arg(&mut argv, "close");
                push_arg(&mut argv, self.luks_name.as_str());
                assert(argv_view(argv@) =~= tool_argv(*self, t));
                argv
            },
            Tool::Mount => {
                let mut argv = privileged_command(&self.runner, "mount");
                let mut device = String::new();
                push_str(&mut device, "/dev/mapper/");
                push_str(&mut device, self.luks_name.as_str());
                push_arg(&mut argv, device.as_str());
                push_arg(&mut argv, self.mount_point.as_str());
                assert(argv_view(argv@) =~= tool_argv(*self, t));
                argv
            },
            Tool::Unmount => {
                let mut argv = privileged_command(&self.runner, "umount");
                push_arg(&mut argv, self.mount_point.as_str());
                assert(argv_view(argv@) =~= tool_argv(*self, t));
                argv
            },
        }
    }
}

/// How many more steps a stage can take at most.
pub open spec fn rank(stage: Stage) -> nat {
    match stage {
        Stage::OpenCheckDevice => 15,
        Stage::OpenCheckMounted => 14,
        Stage::OpenCheckLuks => 14,
        Stage::OpenAnnounceOpening => 13,
        Stage::OpenRunOpen => 12,
        Stage::OpenAnnounceRemount => 12,
        Stage::OpenCreateMountPoint => 11,
        Stage::OpenRollbackCreate { .. } => 1,
        Stage::OpenAnnounceMount => 10,
        Stage::OpenRunMount => 9,
        Stage::OpenRollbackMount => 1,
        Stage::OpenReportMounted => 4,
        Stage::OpenSpaceHeading => 3,
        Stage::OpenMeasureSpace => 2,
        Stage::OpenShowSpace => 1,
        Stage::CloseCheckMounted => 10,
        Stage::CloseAnnounceUnmount => 9,
        Stage::CloseRunUnmount => 8,
        Stage::CloseCheckDevice => 7,
        Stage::CloseAnnounceClose => 6,
        Stage::CloseRunClose => 5,
        Stage::CloseCheckDir => 4,
        Stage::CloseRemoveDir => 3,
        Stage::CloseReport => 2,
        Stage::StatusShowContainer => 10,
        Stage::StatusShowDevice => 9,
        Stage::StatusShowMountPoint => 8,
        Stage::StatusCheckDevice => 7,
        Stage::StatusShowOpen => 6,
        Stage::StatusCheckMounted => 5,
        Stage::StatusShowMounted => 4,
        Stage::StatusSpaceHeading => 3,
        Stage::StatusMeasureSpace => 2,
        Stage::StatusReport => 1,
        Stage::Finished => 0,
    }
}

/// Stages of the `status` flow.
pub open spec fn is_status_stage(stage: Stage) -> bool {
    ||| stage is StatusShowContainer
    ||| stage is StatusShowDevice
    ||| stage is StatusShowMountPoint
    ||| stage is StatusCheckDevice
    ||| stage is StatusShowOpen
    ||| stage is StatusCheckMounted
    ||| stage is StatusShowMounted
    ||| stage is StatusSpaceHeading
    ||| stage is StatusMeasureSpace
    ||| stage is StatusReport
}

/// Stages of the `open` flow after the mount point has been asked for.
pub open spec fn is_open_mount_stage(stage: Stage) -> bool {
    ||| stage is OpenCreateMountPoint
    ||| stage is OpenRollbackCreate
    ||| stage is OpenAnnounceMount
    ||| stage is OpenRunMount
    ||| stage is OpenRollbackMount
    ||| stage is OpenReportMounted
    ||| stage is OpenSpaceHeading
    ||| stage is OpenMeasureSpace
    ||| stage is OpenShowSpace
}

/// Stages of the `close` flow after the device check.
pub open spec fn is_close_cleanup_stage(stage: Stage) -> bool {
    ||| stage is CloseCheckDevice
    ||| stage is CloseAnnounceClose
    ||| stage is CloseRunClose
    ||| stage is CloseCheckDir
    ||| stage is CloseRemoveDir
    ||| stage is CloseReport
}

/// What every session reachable from a start satisfies.
pub open spec fn well_formed(s: LuksSession) -> bool {
    &&& s.opened_here ==> (is_open_mount_stage(s.stage) || s.stage is Finished)
    &&& s.cleanup_needed ==> (is_close_cleanup_stage(s.stage) || s.stage is Finished)
    &&& (s.stage is OpenRollbackCreate || s.stage is OpenRollbackMount) ==> s.opened_here
}

/// Every session starts well formed.
pub proof fn lemma_start_well_formed(s: LuksSession, flow: Flow)
    requires
        !s.opened_here,
        !s.cleanup_needed,
        s.stage == start_of(flow).0,
    ensures
        well_formed(s),
{
}

/// Every accepted event keeps a session well formed.
pub proof fn lemma_step_keeps_well_formed(s: LuksSession, ev: Event)
    requires
        well_formed(s),
        accepts(s, ev),
    ensures
        well_formed(transition(s, ev).0),
{
}

/// Every flow ends: each accepted event brings the session strictly closer
/// to its end, and a session has ended exactly when it emits `Finish`.
pub proof fn lemma_step_progresses(s: LuksSession, ev: Event)
    requires
        accepts(s, ev),
    ensures
        rank(transition(s, ev).0.stage) < rank(s.stage),
        transition(s, ev).1 is Finish <==> transition(s, ev).0.stage is Finished,
        transition(s, ev).0.luks_file == s.luks_file,
        transition(s, ev).0.luks_name == s.luks_name,
        transition(s, ev).0.mount_point == s.mount_point,
        transition(s, ev).0.runner == s.runner,
{
}

/// `status` only looks: it asks, prints and measures, never runs a command
/// or touches the mount point, and it stays in the `status` flow until it ends.
pub proof fn lemma_status_only_observes(s: LuksSession, ev: Event)
    requires
        is_status_stage(s.stage),
        accepts(s, ev),
    ensures
        ({
            let (n, st) = transition(s, ev);
            &&& st is Ask || st is Say || st is MeasureSpace || st is Finish
            &&& st matches Step::Finish(Err(e)) ==> e is Io
            &&& is_status_stage(n.stage) || n.stage is Finished
        }),
{
}

/// Rollback: once `open` has opened the container itself, a failure to
/// create the mount point or to mount closes the container again before the
/// error is reported; without such an opening, nothing is closed.
pub proof fn lemma_open_rolls_back(s: LuksSession, ev: Event)
    requires
        well_formed(s),
        accepts(s, ev),
    ensures
        ({
            let (n, st) = transition(s, ev);
            &&& (st matches Step::Finish(Err(e)) && (e is MountPointFailed || e is MountFailed)
                && s.opened_here) ==> (s.stage is OpenRollbackCreate || s.stage is OpenRollbackMount)
            &&& ((n.stage is OpenRollbackCreate || n.stage is OpenRollbackMount) && !(
            s.stage is OpenRollbackCreate || s.stage is OpenRollbackMount)) ==> (st
                == Step::RunQuietly(Tool::CloseContainer) && s.opened_here)
            &&& st is RunQuietly ==> s.opened_here && st == Step::RunQuietly(Tool::CloseContainer)
        }),
{
}

/// The run of a session on a list of events: after each accepted event, the
/// new session and the step it emitted (the run stops at the first event
/// the session does not accept).
pub open spec fn run_of(s: LuksSession, events: Seq<Event>) -> Seq<(LuksSession, Step)>
    decreases events.len(),
{
    if events.len() == 0 || !accepts(s, events[0]) {
        seq![]
    } else {
        let (n, st) = transition(s, events[0]);
        seq![(n, st)] + run_of(n, events.drop_first())
    }
}

/// The session before the `k`-th step of a run.
pub open spec fn before_step(s: LuksSession, run: Seq<(LuksSession, Step)>, k: int) -> LuksSession {
    if k == 0 {
        s
    } else {
        run[k - 1].0
    }
}

/// Every flow ends: whatever happens, a session emits at most `rank` of its
/// stage more steps (at most 15 for `open`), and a run that is as long as
/// the session accepts ends with `Finish`.
pub proof fn lemma_run_is_bounded(s: LuksSession, events: Seq<Event>)
    ensures
        run_of(s, events).len() <= rank(s.stage),
        run_of(s, events).len() > 0 && run_of(s, events).last().1 is Finish ==> run_of(
            s,
            events,
        ).last().0.stage is Finished,
    decreases events.len(),
{
    if events.len() > 0 && accepts(s, events[0]) {
        lemma_step_progresses(s, events[0]);
        let (n, st) = transition(s, events[0]);
        lemma_run_is_bounded(n, events.drop_first());
        let rest = run_of(n, events.drop_first());
        if rest.len() > 0 {
            assert(run_of(s, events).last() == rest.last());
        }
    }
}

/// A step that reports a failed mount point or mount.
pub open spec fn is_mount_failure(st: Step) -> bool {
    st matches Step::Finish(Err(e)) && (e is MountPointFailed || e is MountFailed)
}

/// Rollback over whole runs: whenever a session that opened the container
/// itself reports a failed mount point or mount, the step just before closed
/// the container again.
pub proof fn lemma_run_rolls_back(s: LuksSession, events: Seq<Event>, k: int)
    requires
        well_formed(s),
        !(s.stage is OpenRollbackCreate || s.stage is OpenRollbackMount),
        0 <= k < run_of(s, events).len(),
        is_mount_failure(run_of(s, events)[k].1),
        before_step(s, run_of(s, events), k).opened_here,
    ensures
        k > 0,
        run_of(s, events)[k - 1].1 == Step::RunQuietly(Tool::CloseContainer),
    decreases events.len(),
{
    let (n, st) = transition(s, events[0]);
    lemma_step_keeps_well_formed(s, events[0]);
    let run = run_of(s, events);
    let rest = run_of(n, events.drop_first());
    assert(run == seq![(n, st)] + rest);
    if k == 0 {
        lemma_open_rolls_back(s, events[0]);
        assert(false);
    } else if k == 1 {
        assert(run[1] == rest[0]);
        assert(run[0] == (n, st));
        if !(n.stage is OpenRollbackCreate || n.stage is OpenRollbackMount) {
            lemma_open_rolls_back(n, events.drop_first()[0]);
            assert(false);
        } else {
            lemma_open_rolls_back(s, events[0]);
        }
    } else {
        assert(run[k] == rest[k - 1]);
        assert(run[k - 1] == rest[k - 2]);
        assert(before_step(s, run, k) == before_step(n, rest, k - 1));
        if n.stage is OpenRollbackCreate || n.stage is OpenRollbackMount {
            // a rollback stage finishes at its next step, so the run ends there
            let e1 = events.drop_first();
            assert(e1.len() > 0 && accepts(n, e1[0]));
            let n1 = transition(n, e1[0]).0;
            assert(n1.stage is Finished);
            assert(run_of(n1, e1.drop_first()).len() == 0) by {
                if e1.drop_first().len() > 0 {
                    assert(!accepts(n1, e1.drop_first()[0]));
                }
            }
            assert(rest.len() == 1);
            assert(false);
        } else {
            lemma_run_rolls_back(n, events.drop_first(), k - 1);
        }
    }
}

/// Only a successful `cryptsetup open` of this session marks the container
/// as opened here.
pub proof fn lemma_opened_here_only_by_opening(s: LuksSession, ev: Event)
    requires
        accepts(s, ev),
        !s.opened_here,
        transition(s, ev).0.opened_here,
    ensures
        s.stage is OpenRunOpen,
        ev == Event::Ran(true),
        transition(s, ev).1 == Step::CreateMountPoint,
{
}

/// Commands are issued only after the checks that call for them: the
/// container is unlocked only after it was found closed and accepted as LUKS,
/// mounted only once its device is open, unmounted only when the mount point
/// was found mounted, and closed only when its device was found open (or to
/// roll back an opening of this session).
pub proof fn lemma_commands_follow_checks(s: LuksSession, ev: Event)
    requires
        well_formed(s),
        accepts(s, ev),
    ensures
        ({
            let (n, st) = transition(s, ev);
            &&& st == Step::Run(Tool::OpenContainer) ==> s.stage is OpenAnnounceOpening
            &&& n.stage is OpenAnnounceOpening ==> (s.stage is OpenCheckLuks && ev
                == Event::Answer(true))
            &&& st == Step::Run(Tool::Mount) ==> s.stage is OpenAnnounceMount
            &&& n.stage is OpenAnnounceMount ==> s.stage is OpenCreateMountPoint
            &&& n.stage is OpenCreateMountPoint ==> ((s.stage is OpenRunOpen && ev == Event::Ran(
                true,
            )) || s.stage is OpenAnnounceRemount)
            &&& n.stage is OpenAnnounceRemount ==> (s.stage is OpenCheckMounted && ev
                == Event::Answer(false))
            &&& st == Step::Run(Tool::Unmount) ==> s.stage is CloseAnnounceUnmount
            &&& n.stage is CloseAnnounceUnmount ==> (s.stage is CloseCheckMounted && ev
                == Event::Answer(true))
            &&& st == Step::Run(Tool::CloseContainer) ==> s.stage is CloseAnnounceClose
            &&& n.stage is CloseAnnounceClose ==> (s.stage is CloseCheckDevice && ev
                == Event::Answer(true))
        }),
{
}

/// The measured space is printed: when `open` or `status` measures the free
/// space and `df` answers with a line, the next step prints exactly that
/// line, and only the step after it ends the sub-command, with success.
pub proof fn lemma_space_line_printed(s: LuksSession, l: String)
    requires
        s.stage is StatusMeasureSpace || s.stage is OpenMeasureSpace,
    ensures
        ({
            let (n, st) = transition(s, Event::Space(Some(l)));
            &&& accepts(s, Event::Space(Some(l)))
            &&& st == Step::Say(Note::SpaceLine(l))
            &&& note_text(n, Note::SpaceLine(l)) == l@
            &&& !(n.stage is Finished)
            &&& accepts(n, Event::Done)
            &&& transition(n, Event::Done).1 == Step::Finish(Ok(()))
        }),
{
}

/// `was not open` is reported only when the device was found closed before
/// anything was unmounted or closed: the session was at the device check,
/// the answer was no, and no cleanup had been done.
pub proof fn lemma_not_open_only_when_nothing_done(s: LuksSession, ev: Event)
    requires
        accepts(s, ev),
        transition(s, ev).1 == Step::Say(Note::NotOpen),
    ensures
        s.stage is CloseCheckDevice,
        ev == Event::Answer(false),
        !s.cleanup_needed,
{
}

/// A successful `cryptsetup close` is followed by the cleanup: the session
/// marks that something was closed and asks whether the mount point is a
/// directory; if it is, the directory is removed, and either way the flow
/// reports the container closed and then ends with success.
pub proof fn lemma_successful_close_reports_closed(s: LuksSession, is_dir: bool)
    requires
        s.stage is CloseRunClose,
    ensures
        ({
            let (n1, st1) = transition(s, Event::Ran(true));
            let (n2, st2) = transition(n1, Event::Answer(is_dir));
            &&& accepts(s, Event::Ran(true))
            &&& n1.cleanup_needed
            &&& st1 == Step::Ask(Query::MountPointIsDir)
            &&& accepts(n1, Event::Answer(is_dir))
            &&& if is_dir {
                let (n3, st3) = transition(n2, Event::Done);
                &&& st2 == Step::RemoveMountPoint
                &&& accepts(n2, Event::Done)
                &&& st3 == Step::Say(Note::Closed)
                &&& accepts(n3, Event::Done)
                &&& transition(n3, Event::Done).1 == Step::Finish(Ok(()))
            } else {
                &&& st2 == Step::Say(Note::Closed)
                &&& accepts(n2, Event::Done)
                &&& transition(n2, Event::Done).1 == Step::Finish(Ok(()))
            }
        }),
{
}

/// `status` reports what it found: a closed device is reported closed and
/// the report ends; an open device is reported open and its mount checked;
/// an unmounted one is reported not mounted and the report ends; a mounted
/// one is reported mounted, then the space heading is printed and the space
/// measured.
pub proof fn lemma_status_reports_findings(s: LuksSession, device_open: bool, mounted: bool)
    requires
        s.stage is StatusCheckDevice,
    ensures
        ({
            let (n1, st1) = transition(s, Event::Answer(device_open));
            let (n2, st2) = transition(n1, Event::Done);
            &&& accepts(s, Event::Answer(device_open))
            &&& accepts(n1, Event::Done)
            &&& if !device_open {
                &&& st1 == Step::Say(Note::StatusClosed)
                &&& st2 == Step::Finish(Ok(()))
            } else {
                let (n3, st3) = transition(n2, Event::Answer(mounted));
                let (n4, st4) = transition(n3, Event::Done);
                &&& st1 == Step::Say(Note::StatusOpen)
                &&& st2 == Step::Ask(Query::Mounted)
                &&& accepts(n2, Event::Answer(mounted))
                &&& accepts(n3, Event::Done)
                &&& if !mounted {
                    &&& st3 == Step::Say(Note::StatusNotMounted)
                    &&& st4 == Step::Finish(Ok(()))
                } else {
                    &&& st3 == Step::Say(Note::StatusMounted)
                    &&& st4 == Step::Say(Note::StatusSpaceHeading)
                    &&& note_text(n4, Note::StatusSpaceHeading) == "Available Space:"@
                    &&& accepts(n4, Event::Done)
                    &&& transition(n4, Event::Done).1 == Step::MeasureSpace
                }
            }
        }),
{
}

} // verus!
