//! The recording state machine.
//!
//! A finite-state controller gates whether captured samples are persisted.
//! Every transition validates the state it starts from and fails with a
//! descriptive error otherwise, leaving the controller untouched.  Time is
//! passed in as a millisecond reading of a monotonic clock, so the elapsed
//! bookkeeping is verified arithmetic.

use vstd::prelude::*;
use vstd::string::StringExecFns;

verus! {

/// The externally visible state of the recording controller.
#[derive(Clone, Copy, Debug, PartialEq, Eq, Structural)]
pub enum RecordingState {
    Idle,
    Starting,
    Recording { start_time_ms: u64, elapsed_ms: u64 },
    Paused { pause_time_ms: u64, elapsed_ms: u64 },
    Resuming,
    Stopping,
}

/// A command the controller accepts from the command surface.
#[derive(Clone, Debug)]
pub enum RecordingCommand {
    Start { path: String, format: String, quality: String },
    Pause,
    Resume,
    Stop,
}

/// What a recording session was asked to produce.
#[derive(Clone, Debug)]
pub struct RecordingSettings {
    pub path: String,
    pub format: String,
    pub quality: String,
}

/// Bookkeeping for one active recording: when the current active interval
/// began and how much active time earlier intervals accumulated.
#[derive(Clone, Debug)]
pub struct RecordingSession {
    pub config: RecordingSettings,
    pub start_time_ms: u64,
    pub total_elapsed_ms: u64,
}

/// The name of a state's variant, used in error messages.
pub open spec fn spec_state_name(s: RecordingState) -> Seq<char> {
    match s {
        RecordingState::Idle => "Idle"@,
        RecordingState::Starting => "Starting"@,
        RecordingState::Recording { .. } => "Recording"@,
        RecordingState::Paused { .. } => "Paused"@,
        RecordingState::Resuming => "Resuming"@,
        RecordingState::Stopping => "Stopping"@,
    }
}

/// Renders the variant name of a state.
pub fn state_name(state: &RecordingState) -> (r: String)
    ensures
        r@ == spec_state_name(*state),
{
    match state {
        RecordingState::Idle => String::from_str("Idle"),
        RecordingState::Starting => String::from_str("Starting"),
        RecordingState::Recording { .. } => String::from_str("Recording"),
        RecordingState::Paused { .. } => String::from_str("Paused"),
        RecordingState::Resuming => String::from_str("Resuming"),
        RecordingState::Stopping => String::from_str("Stopping"),
    }
}

/// The recording controller: the current state, the session bookkeeping,
/// and the flag that gates whether captured samples are written.
pub struct Recorder {
    state: RecordingState,
    session: Option<RecordingSession>,
    writing_enabled: bool,
}

impl Recorder {
    pub closed spec fn spec_state(self) -> RecordingState {
        self.state
    }

    pub closed spec fn spec_session(self) -> Option<RecordingSession> {
        self.session
    }

    pub closed spec fn spec_writing(self) -> bool {
        self.writing_enabled
    }

    /// Internal sanity of the stored times: while recording or paused a
    /// session exists, its accumulated time never exceeds the clock reading
    /// at which the current interval began, and the pause instant does not
    /// precede that interval's start.
    pub open spec fn wf(self) -> bool {
        &&& (self.spec_state() matches RecordingState::Recording { start_time_ms, .. } ==> {
            &&& self.spec_session() matches Some(sess)
            &&& self.spec_session()->0.start_time_ms == start_time_ms
            &&& self.spec_session()->0.total_elapsed_ms <= start_time_ms
        })
        &&& (self.spec_state() matches RecordingState::Paused { pause_time_ms, .. } ==> {
            &&& self.spec_session() matches Some(sess)
            &&& self.spec_session()->0.start_time_ms <= pause_time_ms
            &&& self.spec_session()->0.total_elapsed_ms <= self.spec_session()->0.start_time_ms
        })
    }

    /// The controller after a successful pause at `now_ms`: writing off,
    /// the state carrying the pause instant and the elapsed active time.
    pub closed spec fn spec_after_pause(self, now_ms: u64) -> Recorder {
        Recorder {
            state: RecordingState::Paused {
                pause_time_ms: now_ms,
                elapsed_ms: (now_ms - self.session->0.start_time_ms
                    + self.session->0.total_elapsed_ms) as u64,
            },
            session: self.session,
            writing_enabled: false,
        }
    }

    /// The controller after a successful resume at `now_ms`: writing on,
    /// recording anew, the just-ended active interval added to the
    /// session's accumulated total.
    pub closed spec fn spec_after_resume(self, now_ms: u64) -> Recorder {
        Recorder {
            state: RecordingState::Recording { start_time_ms: now_ms, elapsed_ms: 0 },
            session: Some(
                RecordingSession {
                    config: self.session->0.config,
                    start_time_ms: now_ms,
                    total_elapsed_ms: (self.session->0.total_elapsed_ms + (
                    self.state->Paused_pause_time_ms - self.session->0.start_time_ms)) as u64,
                },
            ),
            writing_enabled: true,
        }
    }

    /// The clock reading handed to a command must not lie before the
    /// instants already stored: the clock is monotonic.
    pub open spec fn clock_ok(self, now_ms: u64) -> bool {
        match self.spec_state() {
            RecordingState::Recording { start_time_ms, .. } => now_ms >= start_time_ms,
            RecordingState::Paused { pause_time_ms, .. } => now_ms >= pause_time_ms,
            _ => true,
        }
    }

    pub fn new() -> (r: Recorder)
        ensures
            r.wf(),
            r.spec_state() == RecordingState::Idle,
            r.spec_session() is None,
            !r.spec_writing(),
    {
        Recorder { state: RecordingState::Idle, session: None, writing_enabled: false }
    }

    pub fn get_current_state(&self) -> (r: RecordingState)
        ensures
            r == self.spec_state(),
    {
        self.state
    }

    pub fn set_writing_enabled(&mut self, enabled: bool)
        ensures
            final(self).spec_writing() == enabled,
            final(self).spec_state() == old(self).spec_state(),
            final(self).spec_session() == old(self).spec_session(),
            old(self).wf() ==> final(self).wf(),
    {
        self.writing_enabled = enabled;
    }

    pub fn is_writing_enabled(&self) -> (r: bool)
        ensures
            r == self.spec_writing(),
    {
        self.writing_enabled
    }

    /// Starts a recording.  Allowed only from `Idle`: the controller passes
    /// through `Starting` into `Recording`, a fresh session is created and
    /// writing is enabled.  In any other state the command fails and the
    /// controller is unchanged.
    pub fn handle_start_command(
        &mut self,
        path: String,
        format: String,
        quality: String,
        now_ms: u64,
    ) -> (r: Result<(String, Vec<RecordingState>), String>)
        requires
            old(self).wf(),
        ensures
            final(self).wf(),
            r is Ok <==> old(self).spec_state() == RecordingState::Idle,
            r matches Ok(ok) ==> {
                &&& ok.0@ == "Started recording to: "@ + path@
                &&& ok.1@ == seq![
                    RecordingState::Starting,
                    RecordingState::Recording { start_time_ms: now_ms, elapsed_ms: 0 },
                ]
                &&& final(self).spec_state() == RecordingState::Recording {
                    start_time_ms: now_ms,
                    elapsed_ms: 0,
                }
                &&& final(self).spec_session() matches Some(sess)
                &&& final(self).spec_session()->0.config.path@ == path@
                &&& final(self).spec_session()->0.config.format@ == format@
                &&& final(self).spec_session()->0.config.quality@ == quality@
                &&& final(self).spec_session()->0.start_time_ms == now_ms
                &&& final(self).spec_session()->0.total_elapsed_ms == 0
                &&& final(self).spec_writing()
            },
            r matches Err(m) ==> {
                &&& *final(self) == *old(self)
                &&& m@ == "Cannot start recording in state: "@ + spec_state_name(
                    old(self).spec_state(),
                )
            },
    {
        match self.state {
            RecordingState::Idle => {
                let message = String::from_str("Started recording to: ").concat(path.as_str());
                let session = RecordingSession {
                    config: RecordingSettings { path, format, quality },
                    start_time_ms: now_ms,
                    total_elapsed_ms: 0,
                };
                self.session = Some(session);
                self.writing_enabled = true;
                let mut events: Vec<RecordingState> = Vec::new();
                events.push(RecordingState::Starting);
                let recording = RecordingState::Recording { start_time_ms: now_ms, elapsed_ms: 0 };
                events.push(recording);
                self.state = recording;
                assert(events@ =~= seq![
                    RecordingState::Starting,
                    RecordingState::Recording { start_time_ms: now_ms, elapsed_ms: 0 },
                ]);
                Ok((message, events))
            },
            _ => {
                let name = state_name(&self.state);
                Err(String::from_str("Cannot start recording in state: ").concat(name.as_str()))
            },
        }
    }

    /// Pauses a recording.  Allowed only while `Recording`: writing is
    /// disabled and the state carries the pause instant and the elapsed
    /// active time so far; capture itself keeps running elsewhere.
    pub fn handle_pause_command(&mut self, now_ms: u64) -> (r: Result<
        (String, Vec<RecordingState>),
        String,
    >)
        requires
            old(self).wf(),
            old(self).clock_ok(now_ms),
        ensures
            final(self).wf(),
            r is Ok <==> old(self).spec_state() matches RecordingState::Recording { .. },
            r matches Ok(ok) ==> {
                &&& old(self).spec_session() matches Some(sess)
                &&& ok.0@ == "Recording paused"@
                &&& ok.1@ == seq![final(self).spec_state()]
                &&& final(self).spec_state() == RecordingState::Paused {
                    pause_time_ms: now_ms,
                    elapsed_ms: (now_ms - old(self).spec_session()->0.start_time_ms
                        + old(self).spec_session()->0.total_elapsed_ms) as u64,
                }
                &&& final(self).spec_session() == old(self).spec_session()
                &&& !final(self).spec_writing()
                &&& *final(self) == old(self).spec_after_pause(now_ms)
            },
            r matches Err(m) ==> {
                &&& *final(self) == *old(self)
                &&& m@ == "Cannot pause in state: "@ + spec_state_name(old(self).spec_state())
            },
    {
        match self.state {
            RecordingState::Recording { .. } => {
                let sess_start = match &self.session {
                    Some(sess) => sess.start_time_ms,
                    None => 0,
                };
                let sess_total = match &self.session {
                    Some(sess) => sess.total_elapsed_ms,
                    None => 0,
                };
                self.writing_enabled = false;
                let paused = RecordingState::Paused {
                    pause_time_ms: now_ms,
                    elapsed_ms: now_ms - sess_start + sess_total,
                };
                self.state = paused;
                let mut events: Vec<RecordingState> = Vec::new();
                events.push(paused);
                assert(events@ =~= seq![final(self).spec_state()]);
                Ok((String::from_str("Recording paused"), events))
            },
            _ => {
                let name = state_name(&self.state);
                Err(String::from_str("Cannot pause in state: ").concat(name.as_str()))
            },
        }
    }

    /// Resumes a paused recording: the just-ended interval's active time is
    /// added to the session's accumulated total, the active-interval start
    /// is reset to now, writing is re-enabled, and the controller passes
    /// through `Resuming` back into `Recording`.
    pub fn handle_resume_command(&mut self, now_ms: u64) -> (r: Result<
        (String, Vec<RecordingState>),
        String,
    >)
        requires
            old(self).wf(),
            old(self).clock_ok(now_ms),
        ensures
            final(self).wf(),
            r is Ok <==> old(self).spec_state() matches RecordingState::Paused { .. },
            r matches Ok(ok) ==> {
                &&& old(self).spec_state() matches RecordingState::Paused { pause_time_ms, .. }
                &&& old(self).spec_session() matches Some(sess)
                &&& ok.0@ == "Recording resumed"@
                &&& ok.1@ == seq![
                    RecordingState::Resuming,
                    RecordingState::Recording { start_time_ms: now_ms, elapsed_ms: 0 },
                ]
                &&& final(self).spec_state() == RecordingState::Recording {
                    start_time_ms: now_ms,
                    elapsed_ms: 0,
                }
                &&& final(self).spec_session() matches Some(new_sess)
                &&& final(self).spec_session()->0.config == old(self).spec_session()->0.config
                &&& final(self).spec_session()->0.start_time_ms == now_ms
                &&& final(self).spec_session()->0.total_elapsed_ms as int == old(
                    self,
                ).spec_session()->0.total_elapsed_ms as int + (
                (old(self).spec_state()->Paused_pause_time_ms) as int - old(
                    self,
                ).spec_session()->0.start_time_ms as int)
                &&& final(self).spec_writing()
                &&& *final(self) == old(self).spec_after_resume(now_ms)
            },
            r matches Err(m) ==> {
                &&& *final(self) == *old(self)
                &&& m@ == "Cannot resume in state: "@ + spec_state_name(old(self).spec_state())
            },
    {
        match self.state {
            RecordingState::Paused { pause_time_ms, .. } => {
                let mut events: Vec<RecordingState> = Vec::new();
                events.push(RecordingState::Resuming);
                let new_session = match &self.session {
                    Some(sess) => Some(
                        RecordingSession {
                            config: RecordingSettings {
                                path: sess.config.path.clone(),
                                format: sess.config.format.clone(),
                                quality: sess.config.quality.clone(),
                            },
                            start_time_ms: now_ms,
                            total_elapsed_ms: sess.total_elapsed_ms + (pause_time_ms
                                - sess.start_time_ms),
                        },
                    ),
                    None => None,
                };
                self.session = new_session;
                self.writing_enabled = true;
                let recording = RecordingState::Recording { start_time_ms: now_ms, elapsed_ms: 0 };
                events.push(recording);
                self.state = recording;
                assert(events@ =~= seq![
                    RecordingState::Resuming,
                    RecordingState::Recording { start_time_ms: now_ms, elapsed_ms: 0 },
                ]);
                Ok((String::from_str("Recording resumed"), events))
            },
            _ => {
                let name = state_name(&self.state);
                Err(String::from_str("Cannot resume in state: ").concat(name.as_str()))
            },
        }
    }

    /// Stops a recording.  Allowed from `Recording` or `Paused`: writing is
    /// disabled, the session is cleared and its target path returned, and
    /// the controller passes through `Stopping` back to `Idle`.
    pub fn handle_stop_command(&mut self) -> (r: Result<(String, Vec<RecordingState>), String>)
        requires
            old(self).wf(),
        ensures
            final(self).wf(),
            r is Ok <==> (old(self).spec_state() matches RecordingState::Recording { .. } || old(
                self,
            ).spec_state() matches RecordingState::Paused { .. }),
            r matches Ok(ok) ==> {
                &&& ok.0@ == (match old(self).spec_session() {
                    Some(sess) => sess.config.path@,
                    None => "recording.wav"@,
                })
                &&& ok.1@ == seq![RecordingState::Stopping, RecordingState::Idle]
                &&& final(self).spec_state() == RecordingState::Idle
                &&& final(self).spec_session() is None
                &&& !final(self).spec_writing()
            },
            r matches Err(m) ==> {
                &&& *final(self) == *old(self)
                &&& m@ == "Cannot stop in state: "@ + spec_state_name(old(self).spec_state())
            },
    {
        let stoppable = match self.state {
            RecordingState::Recording { .. } => true,
            RecordingState::Paused { .. } => true,
            _ => false,
        };
        if stoppable {
            self.writing_enabled = false;
            let path = match &self.session {
                Some(sess) => sess.config.path.clone(),
                None => String::from_str("recording.wav"),
            };
            self.session = None;
            self.state = RecordingState::Idle;
            let mut events: Vec<RecordingState> = Vec::new();
            events.push(RecordingState::Stopping);
            events.push(RecordingState::Idle);
            assert(events@ =~= seq![RecordingState::Stopping, RecordingState::Idle]);
            Ok((path, events))
        } else {
            let name = state_name(&self.state);
            Err(String::from_str("Cannot stop in state: ").concat(name.as_str()))
        }
    }

    /// Dispatches one command to its handler: each command succeeds exactly
    /// from the states its transition allows, a failed command leaves the
    /// controller untouched, and pause and resume land on the states their
    /// transition functions describe.
    pub fn process_command(&mut self, command: RecordingCommand, now_ms: u64) -> (r: Result<
        (String, Vec<RecordingState>),
        String,
    >)
        requires
            old(self).wf(),
            old(self).clock_ok(now_ms),
        ensures
            final(self).wf(),
            r is Err ==> *final(self) == *old(self),
            command matches RecordingCommand::Start { .. } ==> (r is Ok <==> old(self).spec_state()
                == RecordingState::Idle),
            command is Pause ==> {
                &&& (r is Ok <==> old(self).spec_state() matches RecordingState::Recording { .. })
                &&& (r is Ok ==> *final(self) == old(self).spec_after_pause(now_ms))
            },
            command is Resume ==> {
                &&& (r is Ok <==> old(self).spec_state() matches RecordingState::Paused { .. })
                &&& (r is Ok ==> *final(self) == old(self).spec_after_resume(now_ms))
            },
            command is Stop ==> {
                &&& (r is Ok <==> (old(self).spec_state() matches RecordingState::Recording { .. }
                    || old(self).spec_state() matches RecordingState::Paused { .. }))
                &&& (r is Ok ==> final(self).spec_state() == RecordingState::Idle
                    && final(self).spec_session() is None && !final(self).spec_writing())
            },
    {
        match command {
            RecordingCommand::Start { path, format, quality } => {
                self.handle_start_command(path, format, quality, now_ms)
            },
            RecordingCommand::Pause => self.handle_pause_command(now_ms),
            RecordingCommand::Resume => self.handle_resume_command(now_ms),
            RecordingCommand::Stop => self.handle_stop_command(),
        }
    }
}

/// Pausing and then resuming keeps the session and accumulates exactly
/// the just-ended active interval into its total: a recording that started
/// with total `T` and interval start `s`, paused at `t1` and resumed at
/// `t2`, records again with total `T + (t1 - s)`.
pub proof fn lemma_pause_resume_accumulates(r: Recorder, t1: u64, t2: u64)
    requires
        r.wf(),
        r.spec_state() matches RecordingState::Recording { .. },
        r.clock_ok(t1),
        t2 >= t1,
    ensures
        ({
            let resumed = r.spec_after_pause(t1).spec_after_resume(t2);
            &&& resumed.spec_state() == RecordingState::Recording {
                start_time_ms: t2,
                elapsed_ms: 0,
            }
            &&& resumed.spec_session() matches Some(sess)
            &&& resumed.spec_session()->0.total_elapsed_ms as int == r.spec_session(
            )->0.total_elapsed_ms as int + (t1 - r.spec_session()->0.start_time_ms)
            &&& resumed.spec_session()->0.config == r.spec_session()->0.config
            &&& resumed.wf()
            &&& resumed.spec_writing()
        }),
{
}

/// Zero-padded two-digit rendering of a calendar field.
pub open spec fn spec_pad2(n: int) -> Seq<char> {
    if n < 10 {
        seq!['0'] + crate::text::dec_str(n)
    } else {
        crate::text::dec_str(n)
    }
}

fn pad2(n: u64) -> (r: String)
    requires
        n < 100,
    ensures
        r@ == spec_pad2(n as int),
{
    if n < 10 {
        proof {
            reveal_strlit("0");
            assert("0"@ =~= seq!['0']);
        }
        let mut out = String::from_str("0");
        let d = crate::text::u64_to_dec(n);
        out.append(d.as_str());
        out
    } else {
        crate::text::u64_to_dec(n)
    }
}

/// The file name a recording gets when none was asked for, derived from the
/// local time the recording started.
pub open spec fn spec_default_file_name(
    year: int,
    month: int,
    day: int,
    hour: int,
    minute: int,
    second: int,
    extension: Seq<char>,
) -> Seq<char> {
    "recording-"@ + crate::text::dec_str(year) + spec_pad2(month) + spec_pad2(day) + "-"@
        + spec_pad2(hour) + spec_pad2(minute) + spec_pad2(second) + "."@ + extension
}

/// Builds the timestamp-derived recording file name
/// `recording-YYYYMMDD-HHMMSS.<extension>`.
pub fn default_file_name(
    year: u64,
    month: u64,
    day: u64,
    hour: u64,
    minute: u64,
    second: u64,
    extension: &str,
) -> (r: String)
    requires
        month < 100,
        day < 100,
        hour < 100,
        minute < 100,
        second < 100,
    ensures
        r@ == spec_default_file_name(
            year as int,
            month as int,
            day as int,
            hour as int,
            minute as int,
            second as int,
            extension@,
        ),
{
    let mut out = String::from_str("recording-");
    let y = crate::text::u64_to_dec(year);
    out.append(y.as_str());
    let mo = pad2(month);
    out.append(mo.as_str());
    let d = pad2(day);
    out.append(d.as_str());
    out.append("-");
    let h = pad2(hour);
    out.append(h.as_str());
    let mi = pad2(minute);
    out.append(mi.as_str());
    let sec = pad2(second);
    out.append(sec.as_str());
    out.append(".");
    out.append(extension);
    out
}

/// The file extension a requested container format implies.
pub fn extension_for_format(format: &str) -> (r: &'static str)
    ensures
        format@ == "mp3"@ ==> r@ == "mp3"@,
        format@ != "mp3"@ ==> r@ == "wav"@,
{
    if crate::text::str_eq(format, "mp3") {
        "mp3"
    } else {
        "wav"
    }
}

} // verus!
