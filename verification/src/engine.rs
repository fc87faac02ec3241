//! The audio engine: what it does with each command, and what it tells of it.
//! Opening the device, reading files and decoding them are done for it.
use crate::api::UNIT;
use crate::views::{opt_view, views};
use vstd::prelude::*;

verus! {

broadcast use crate::views::group_views;

/// What the engine is asked to do. A stream comes with the name of its kind.
#[derive(Debug, PartialEq)]
#[allow(inconsistent_fields)]
pub enum EngineCommand {
    Play { path: String, volume_ppb: u32 },
    PlayStream { mime_type: String, volume_ppb: u32 },
    Pause,
    Resume,
    Stop,
    Seek { position_nanos: u64 },
    SetVolume { volume_ppb: u32 },
}

#[allow(inconsistent_fields)]
pub enum EngineCommandModel {
    Play { path: Seq<char>, volume_ppb: u32 },
    PlayStream { mime_type: Seq<char>, volume_ppb: u32 },
    Pause,
    Resume,
    Stop,
    Seek { position_nanos: u64 },
    SetVolume { volume_ppb: u32 },
}

impl View for EngineCommand {
    type V = EngineCommandModel;

    open spec fn view(&self) -> EngineCommandModel {
        match *self {
            EngineCommand::Play { path, volume_ppb } => EngineCommandModel::Play {
                path: path@,
                volume_ppb,
            },
            EngineCommand::PlayStream { mime_type, volume_ppb } => EngineCommandModel::PlayStream {
                mime_type: mime_type@,
                volume_ppb,
            },
            EngineCommand::Pause => EngineCommandModel::Pause,
            EngineCommand::Resume => EngineCommandModel::Resume,
            EngineCommand::Stop => EngineCommandModel::Stop,
            EngineCommand::Seek { position_nanos } => EngineCommandModel::Seek {
                position_nanos,
            },
            EngineCommand::SetVolume { volume_ppb } => EngineCommandModel::SetVolume {
                volume_ppb,
            },
        }
    }
}

/// What is to be done for the engine.
#[derive(Debug, PartialEq)]
#[allow(inconsistent_fields)]
pub enum EngineAction {
    OpenOutput,
    LoadFile { path: String },
    LoadStream { mime_type: String },
    Start { amplitude_ppb: u32 },
    Pause,
    Resume,
    Stop,
    Seek { position_nanos: u64 },
    SetAmplitude { amplitude_ppb: u32 },
    TellStarted,
    TellFinished,
    TellFailed { message: String },
}

#[allow(inconsistent_fields)]
pub enum EngineActionModel {
    OpenOutput,
    LoadFile { path: Seq<char> },
    LoadStream { mime_type: Seq<char> },
    Start { amplitude_ppb: u32 },
    Pause,
    Resume,
    Stop,
    Seek { position_nanos: u64 },
    SetAmplitude { amplitude_ppb: u32 },
    TellStarted,
    TellFinished,
    TellFailed { message: Seq<char> },
}

impl View for EngineAction {
    type V = EngineActionModel;

    open spec fn view(&self) -> EngineActionModel {
        match *self {
            EngineAction::OpenOutput => EngineActionModel::OpenOutput,
            EngineAction::LoadFile { path } => EngineActionModel::LoadFile {
                path: path@,
            },
            EngineAction::LoadStream { mime_type } => EngineActionModel::LoadStream {
                mime_type: mime_type@,
            },
            EngineAction::Start { amplitude_ppb } => EngineActionModel::Start {
                amplitude_ppb,
            },
            EngineAction::Pause => EngineActionModel::Pause,
            EngineAction::Resume => EngineActionModel::Resume,
            EngineAction::Stop => EngineActionModel::Stop,
            EngineAction::Seek { position_nanos } => EngineActionModel::Seek {
                position_nanos,
            },
            EngineAction::SetAmplitude { amplitude_ppb } => EngineActionModel::SetAmplitude {
                amplitude_ppb,
            },
            EngineAction::TellStarted => EngineActionModel::TellStarted,
            EngineAction::TellFinished => EngineActionModel::TellFinished,
            EngineAction::TellFailed { message } => EngineActionModel::TellFailed {
                message: message@,
            },
        }
    }
}

/// What came of it.
#[derive(Debug, PartialEq)]
#[allow(inconsistent_fields)]
pub enum EngineReport {
    OutputOpened,
    OutputFailed { error: String },
    Unreadable { error: String },
    Undecodable { error: String },
    Decoded,
    SeekFailed { error: String },
}

#[allow(inconsistent_fields)]
pub enum EngineReportModel {
    OutputOpened,
    OutputFailed { error: Seq<char> },
    Unreadable { error: Seq<char> },
    Undecodable { error: Seq<char> },
    Decoded,
    SeekFailed { error: Seq<char> },
}

impl View for EngineReport {
    type V = EngineReportModel;

    open spec fn view(&self) -> EngineReportModel {
        match *self {
            EngineReport::OutputOpened => EngineReportModel::OutputOpened,
            EngineReport::OutputFailed { error } => EngineReportModel::OutputFailed {
                error: error@,
            },
            EngineReport::Unreadable { error } => EngineReportModel::Unreadable {
                error: error@,
            },
            EngineReport::Undecodable { error } => EngineReportModel::Undecodable {
                error: error@,
            },
            EngineReport::Decoded => EngineReportModel::Decoded,
            EngineReport::SeekFailed { error } => EngineReportModel::SeekFailed {
                error: error@,
            },
        }
    }
}

/// A track that the engine is about to play.
#[derive(Debug, PartialEq)]
#[allow(inconsistent_fields)]
pub enum Loading {
    File { path: String, volume_ppb: u32 },
    Stream { mime_type: String, volume_ppb: u32 },
}

#[allow(inconsistent_fields)]
pub enum LoadingModel {
    File { path: Seq<char>, volume_ppb: u32 },
    Stream { mime_type: Seq<char>, volume_ppb: u32 },
}

impl View for Loading {
    type V = LoadingModel;

    open spec fn view(&self) -> LoadingModel {
        match *self {
            Loading::File { path, volume_ppb } => LoadingModel::File {
                path: path@,
                volume_ppb,
            },
            Loading::Stream { mime_type, volume_ppb } => LoadingModel::Stream {
                mime_type: mime_type@,
                volume_ppb,
            },
        }
    }
}

/// The engine.
#[derive(Debug, PartialEq)]
pub struct Engine {
    pub output_open: bool,
    pub track_loaded: bool,
    pub queue_len: usize,
    pub position_ms: u64,
    pub loading: Option<Loading>,
}

pub struct EngineModel {
    pub output_open: bool,
    pub track_loaded: bool,
    pub queue_len: usize,
    pub position_ms: u64,
    pub loading: Option<LoadingModel>,
}

impl View for Engine {
    type V = EngineModel;

    open spec fn view(&self) -> EngineModel {
        EngineModel {
            output_open: self.output_open,
            track_loaded: self.track_loaded,
            queue_len: self.queue_len,
            position_ms: self.position_ms,
            loading: opt_view(self.loading),
        }
    }
}

/// How strong the signal is at a volume: it grows with the cube, as loudness is
/// heard.
pub open spec fn loudness(volume_ppb: int) -> int {
    let volume = if volume_ppb < 0 {
        0
    } else if volume_ppb > UNIT {
        UNIT as int
    } else {
        volume_ppb
    };
    volume * volume / UNIT as int * volume / UNIT as int
}

pub fn amplitude(volume_ppb: i64) -> (r: u32)
    ensures
        r == loudness(volume_ppb as int),
        r <= UNIT,
{
    let volume: u64 = if volume_ppb < 0 {
        0
    } else if volume_ppb > UNIT as i64 {
        UNIT as u64
    } else {
        volume_ppb as u64
    };
    proof {
        assert(volume * volume <= 1_000_000_000 * 1_000_000_000) by (nonlinear_arith)
            requires
                volume <= 1_000_000_000,
        ;
    }
    let square: u64 = volume * volume / UNIT as u64;
    proof {
        assert(square * volume <= 1_000_000_000 * 1_000_000_000) by (nonlinear_arith)
            requires
                volume <= 1_000_000_000,
                square <= 1_000_000_000,
        ;
    }
    (square * volume / UNIT as u64) as u32
}

/// Silence stays silence, and full volume is full.
pub proof fn loudness_keeps_the_ends()
    ensures
        loudness(0) == 0,
        loudness(UNIT as int) == UNIT,
{
    assert(0int * 0int / 1_000_000_000 * 0int / 1_000_000_000 == 0) by (nonlinear_arith);
    assert(1_000_000_000int * 1_000_000_000int / 1_000_000_000 * 1_000_000_000int / 1_000_000_000
        == 1_000_000_000) by (nonlinear_arith);
}

/// A louder volume never sounds softer.
pub proof fn loudness_grows(a: int, b: int)
    requires
        a <= b,
    ensures
        loudness(a) <= loudness(b),
{
    let clamp = |v: int|
        if v < 0 {
            0
        } else if v > UNIT {
            UNIT as int
        } else {
            v
        };
    let x = clamp(a);
    let y = clamp(b);
    assert(x * x <= y * y) by (nonlinear_arith)
        requires
            0 <= x <= y,
    ;
    let p = x * x / UNIT as int;
    let q = y * y / UNIT as int;
    vstd::arithmetic::div_mod::lemma_div_is_ordered(x * x, y * y, UNIT as int);
    assert(0 <= x * x) by (nonlinear_arith)
        requires
            0 <= x,
    ;
    vstd::arithmetic::div_mod::lemma_div_pos_is_pos(x * x, UNIT as int);
    assert(p * x <= q * y) by (nonlinear_arith)
        requires
            0 <= p <= q,
            0 <= x <= y,
    ;
    vstd::arithmetic::div_mod::lemma_div_is_ordered(p * x, q * y, UNIT as int);
}

pub open spec fn load_action(loading: LoadingModel) -> EngineActionModel {
    match loading {
        LoadingModel::File { path, .. } => EngineActionModel::LoadFile { path },
        LoadingModel::Stream { mime_type, .. } => EngineActionModel::LoadStream { mime_type },
    }
}

pub open spec fn load_volume(loading: LoadingModel) -> u32 {
    match loading {
        LoadingModel::File { volume_ppb, .. } => volume_ppb,
        LoadingModel::Stream { volume_ppb, .. } => volume_ppb,
    }
}

/// Why a track could not be decoded.
pub open spec fn undecodable(loading: LoadingModel, error: Seq<char>) -> Seq<char> {
    match loading {
        LoadingModel::File { path, .. } => "cannot decode "@ + path + ": "@ + error,
        LoadingModel::Stream { .. } => "cannot decode federated stream: "@ + error,
    }
}

impl EngineModel {
    /// The engine is about to play a track; the device is opened where it is
    /// not.
    pub open spec fn about_to_play(self, loading: LoadingModel) -> (Self, Seq<EngineActionModel>) {
        (
            EngineModel { loading: Some(loading), ..self },
            if self.output_open {
                seq![load_action(loading)]
            } else {
                seq![EngineActionModel::OpenOutput]
            },
        )
    }

    /// What a command does, and what is to be done about it. Without a device
    /// there is nothing to pause, to resume or to turn.
    pub open spec fn commanded(self, command: EngineCommandModel) -> (Self, Seq<EngineActionModel>) {
        match command {
            EngineCommandModel::Play { path, volume_ppb } => self.about_to_play(
                LoadingModel::File { path, volume_ppb },
            ),
            EngineCommandModel::PlayStream { mime_type, volume_ppb } => self.about_to_play(
                LoadingModel::Stream { mime_type, volume_ppb },
            ),
            EngineCommandModel::Pause => (self, self.if_open(EngineActionModel::Pause)),
            EngineCommandModel::Resume => (self, self.if_open(EngineActionModel::Resume)),
            EngineCommandModel::Stop => (
                EngineModel { position_ms: 0, track_loaded: false, ..self },
                self.if_open(EngineActionModel::Stop),
            ),
            EngineCommandModel::Seek { position_nanos } => (
                self,
                self.if_open(EngineActionModel::Seek { position_nanos }),
            ),
            EngineCommandModel::SetVolume { volume_ppb } => (
                self,
                self.if_open(
                    EngineActionModel::SetAmplitude {
                        amplitude_ppb: loudness(volume_ppb as int) as u32,
                    },
                ),
            ),
        }
    }

    pub open spec fn if_open(self, action: EngineActionModel) -> Seq<EngineActionModel> {
        if self.output_open {
            seq![action]
        } else {
            Seq::empty()
        }
    }

    /// What follows from what came of an action.
    pub open spec fn reported(self, report: EngineReportModel) -> (Self, Seq<EngineActionModel>) {
        match report {
            EngineReportModel::OutputOpened => (
                EngineModel { output_open: true, ..self },
                match self.loading {
                    Some(loading) => seq![load_action(loading)],
                    None => Seq::empty(),
                },
            ),
            EngineReportModel::OutputFailed { error } => (
                EngineModel { loading: None, ..self },
                seq![
                    EngineActionModel::TellFailed {
                        message: "cannot open audio output: "@ + error,
                    },
                ],
            ),
            EngineReportModel::Unreadable { error } => (
                EngineModel { loading: None, ..self },
                match self.loading {
                    Some(LoadingModel::File { path, .. }) => seq![
                        EngineActionModel::TellFailed {
                            message: "cannot open "@ + path + ": "@ + error,
                        },
                    ],
                    _ => Seq::empty(),
                },
            ),
            EngineReportModel::Undecodable { error } => (
                EngineModel { loading: None, ..self },
                match self.loading {
                    Some(loading) => seq![
                        EngineActionModel::TellFailed { message: undecodable(loading, error) },
                    ],
                    None => Seq::empty(),
                },
            ),
            EngineReportModel::Decoded => match self.loading {
                Some(loading) => (
                    EngineModel { loading: None, position_ms: 0, track_loaded: true, ..self },
                    seq![
                        EngineActionModel::Start {
                            amplitude_ppb: loudness(load_volume(loading) as int) as u32,
                        },
                        EngineActionModel::TellStarted,
                    ],
                ),
                None => (self, Seq::empty()),
            },
            EngineReportModel::SeekFailed { error } => (
                self,
                seq![EngineActionModel::TellFailed { message: "cannot seek: "@ + error }],
            ),
        }
    }

    /// Time passes: the device plays at a position and has so many tracks left.
    /// A track that was loaded has finished once there are fewer than before.
    pub open spec fn polled(self, queue_len: usize, position_ms: u64) -> (Self, Seq<EngineActionModel>) {
        if !self.output_open {
            (self, Seq::empty())
        } else {
            let finished = self.track_loaded && queue_len < self.queue_len;
            (
                EngineModel {
                    position_ms,
                    queue_len,
                    track_loaded: self.track_loaded && !finished,
                    ..self
                },
                if finished {
                    seq![EngineActionModel::TellFinished]
                } else {
                    Seq::empty()
                },
            )
        }
    }
}

fn one(action: EngineAction) -> (r: Vec<EngineAction>)
    ensures
        views(r@) == seq![action@],
{
    let mut r: Vec<EngineAction> = Vec::new();
    r.push(action);
    assert(views(r@) =~= seq![action@]);
    r
}

fn failure(before: &str, error: &str) -> (r: Vec<EngineAction>)
    ensures
        views(r@) == seq![EngineActionModel::TellFailed { message: before@ + error@ }],
{
    let mut message = before.to_owned();
    message.push_str(error);
    one(EngineAction::TellFailed { message })
}

fn nothing() -> (r: Vec<EngineAction>)
    ensures
        views(r@) == Seq::<EngineActionModel>::empty(),
{
    let r: Vec<EngineAction> = Vec::new();
    assert(views(r@) =~= Seq::empty());
    r
}

fn load(loading: &Loading) -> (r: EngineAction)
    ensures
        r@ == load_action(loading@),
{
    match loading {
        Loading::File { path, .. } => EngineAction::LoadFile { path: path.clone() },
        Loading::Stream { mime_type, .. } => EngineAction::LoadStream {
            mime_type: mime_type.clone(),
        },
    }
}

impl Engine {
    pub fn new() -> (r: Self)
        ensures
            r@ == (EngineModel {
                output_open: false,
                track_loaded: false,
                queue_len: 0,
                position_ms: 0,
                loading: None,
            }),
    {
        Engine {
            output_open: false,
            track_loaded: false,
            queue_len: 0,
            position_ms: 0,
            loading: None,
        }
    }

    fn prepare(&mut self, loading: Loading) -> (r: Vec<EngineAction>)
        ensures
            (final(self)@, views(r@)) == old(self)@.about_to_play(loading@),
    {
        let action = if self.output_open {
            load(&loading)
        } else {
            EngineAction::OpenOutput
        };
        self.loading = Some(loading);
        one(action)
    }

    fn when_open(&self, action: EngineAction) -> (r: Vec<EngineAction>)
        ensures
            views(r@) == self@.if_open(action@),
    {
        if self.output_open {
            one(action)
        } else {
            nothing()
        }
    }

    /// Does what it is asked.
    pub fn handle(&mut self, command: EngineCommand) -> (r: Vec<EngineAction>)
        ensures
            (final(self)@, views(r@)) == old(self)@.commanded(command@),
    {
        match command {
            EngineCommand::Play { path, volume_ppb } => self.prepare(
                Loading::File { path, volume_ppb },
            ),
            EngineCommand::PlayStream { mime_type, volume_ppb } => self.prepare(
                Loading::Stream { mime_type, volume_ppb },
            ),
            EngineCommand::Pause => self.when_open(EngineAction::Pause),
            EngineCommand::Resume => self.when_open(EngineAction::Resume),
            EngineCommand::Stop => {
                self.position_ms = 0;
                self.track_loaded = false;
                self.when_open(EngineAction::Stop)
            },
            EngineCommand::Seek { position_nanos } => self.when_open(
                EngineAction::Seek { position_nanos },
            ),
            EngineCommand::SetVolume { volume_ppb } => self.when_open(
                EngineAction::SetAmplitude { amplitude_ppb: amplitude(volume_ppb as i64) },
            ),
        }
    }

    /// Takes note of what came of an action.
    pub fn report(&mut self, report: EngineReport) -> (r: Vec<EngineAction>)
        ensures
            (final(self)@, views(r@)) == old(self)@.reported(report@),
    {
        match report {
            EngineReport::OutputOpened => {
                self.output_open = true;
                match &self.loading {
                    Some(loading) => one(load(loading)),
                    None => nothing(),
                }
            },
            EngineReport::OutputFailed { error } => {
                self.loading = None;
                failure("cannot open audio output: ", error.as_str())
            },
            EngineReport::Unreadable { error } => {
                let r = match &self.loading {
                    Some(Loading::File { path, .. }) => {
                        let mut message = "cannot open ".to_owned();
                        message.push_str(path.as_str());
                        message.push_str(": ");
                        failure(message.as_str(), error.as_str())
                    },
                    _ => nothing(),
                };
                self.loading = None;
                r
            },
            EngineReport::Undecodable { error } => {
                let r = match &self.loading {
                    Some(Loading::File { path, .. }) => {
                        let mut message = "cannot decode ".to_owned();
                        message.push_str(path.as_str());
                        message.push_str(": ");
                        failure(message.as_str(), error.as_str())
                    },
                    Some(Loading::Stream { .. }) => failure(
                        "cannot decode federated stream: ",
                        error.as_str(),
                    ),
                    None => nothing(),
                };
                self.loading = None;
                r
            },
            EngineReport::Decoded => {
                let volume_ppb: u32 = match &self.loading {
                    Some(Loading::File { volume_ppb, .. }) => *volume_ppb,
                    Some(Loading::Stream { volume_ppb, .. }) => *volume_ppb,
                    None => {
                        return nothing();
                    },
                };
                self.loading = None;
                self.position_ms = 0;
                self.track_loaded = true;
                let mut r: Vec<EngineAction> = Vec::new();
                r.push(EngineAction::Start { amplitude_ppb: amplitude(volume_ppb as i64) });
                r.push(EngineAction::TellStarted);
                assert(views(r@) =~= old(self)@.reported(report@).1);
                r
            },
            EngineReport::SeekFailed { error } => failure("cannot seek: ", error.as_str()),
        }
    }

    /// Takes note of how many tracks the device has, after a command.
    pub fn settle(&mut self, queue_len: usize)
        ensures
            final(self)@ == (EngineModel { queue_len, ..old(self)@ }),
    {
        self.queue_len = queue_len;
    }

    /// Takes note of how far the device is.
    pub fn poll(&mut self, queue_len: usize, position_ms: u64) -> (r: Vec<EngineAction>)
        ensures
            (final(self)@, views(r@)) == old(self)@.polled(queue_len, position_ms),
    {
        if !self.output_open {
            return nothing();
        }
        let finished = self.track_loaded && queue_len < self.queue_len;
        self.position_ms = position_ms;
        self.queue_len = queue_len;
        if finished {
            self.track_loaded = false;
            one(EngineAction::TellFinished)
        } else {
            nothing()
        }
    }
}

/// The end of a track is told once.
pub proof fn an_end_is_told_once(
    engine: EngineModel,
    queue_len: usize,
    position_ms: u64,
    then_len: usize,
    then_ms: u64,
)
    requires
        engine.polled(queue_len, position_ms).1 == seq![EngineActionModel::TellFinished],
    ensures
        engine.polled(queue_len, position_ms).0.polled(then_len, then_ms).1.len() == 0,
{
    assert(engine.polled(queue_len, position_ms).1.len() == 1);
}

/// A track that was stopped does not end.
pub proof fn a_stopped_track_does_not_end(engine: EngineModel, queue_len: usize, position_ms: u64)
    ensures
        engine.commanded(EngineCommandModel::Stop).0.polled(queue_len, position_ms).1.len() == 0,
{
}

/// A track that is to play is loaded, by its path or its kind, once there is a
/// device, and starts as loud as it was asked for once it is decoded.
pub proof fn a_track_is_loaded_and_started(engine: EngineModel, path: Seq<char>, volume_ppb: u32)
    ensures
        ({
            let (asked, first) = engine.commanded(EngineCommandModel::Play { path, volume_ppb });
            let (ready, second) = if engine.output_open {
                (asked, first)
            } else {
                asked.reported(EngineReportModel::OutputOpened)
            };
            let (playing, third) = ready.reported(EngineReportModel::Decoded);
            &&& !engine.output_open ==> first == seq![EngineActionModel::OpenOutput]
            &&& ready.output_open
            &&& second == seq![EngineActionModel::LoadFile { path }]
            &&& playing.track_loaded
            &&& playing.position_ms == 0
            &&& playing.loading is None
            &&& third == seq![
                EngineActionModel::Start { amplitude_ppb: loudness(volume_ppb as int) as u32 },
                EngineActionModel::TellStarted,
            ]
        }),
{
}

/// A stream is loaded by its kind and started as a file is.
pub proof fn a_stream_is_loaded_and_started(
    engine: EngineModel,
    mime_type: Seq<char>,
    volume_ppb: u32,
)
    requires
        engine.output_open,
    ensures
        ({
            let (asked, first) = engine.commanded(
                EngineCommandModel::PlayStream { mime_type, volume_ppb },
            );
            let (playing, second) = asked.reported(EngineReportModel::Decoded);
            &&& first == seq![EngineActionModel::LoadStream { mime_type }]
            &&& playing.track_loaded
            &&& playing.position_ms == 0
            &&& second == seq![
                EngineActionModel::Start { amplitude_ppb: loudness(volume_ppb as int) as u32 },
                EngineActionModel::TellStarted,
            ]
        }),
{
}

/// With a device, each command is carried out as it was given; without one
/// there is nothing to do. Only stopping changes what is played.
pub proof fn commands_are_carried_out(engine: EngineModel, position_nanos: u64, volume_ppb: u32)
    ensures
        engine.commanded(EngineCommandModel::Pause).0 == engine,
        engine.commanded(EngineCommandModel::Resume).0 == engine,
        engine.commanded(EngineCommandModel::Seek { position_nanos }).0 == engine,
        engine.commanded(EngineCommandModel::SetVolume { volume_ppb }).0 == engine,
        !engine.commanded(EngineCommandModel::Stop).0.track_loaded,
        engine.commanded(EngineCommandModel::Stop).0.position_ms == 0,
        engine.output_open ==> {
            &&& engine.commanded(EngineCommandModel::Pause).1 == seq![EngineActionModel::Pause]
            &&& engine.commanded(EngineCommandModel::Resume).1 == seq![EngineActionModel::Resume]
            &&& engine.commanded(EngineCommandModel::Stop).1 == seq![EngineActionModel::Stop]
            &&& engine.commanded(EngineCommandModel::Seek { position_nanos }).1
                == seq![EngineActionModel::Seek { position_nanos }]
            &&& engine.commanded(EngineCommandModel::SetVolume { volume_ppb }).1
                == seq![
                EngineActionModel::SetAmplitude {
                    amplitude_ppb: loudness(volume_ppb as int) as u32,
                },
            ]
        },
        !engine.output_open ==> engine.commanded(EngineCommandModel::Pause).1.len() == 0
            && engine.commanded(EngineCommandModel::Resume).1.len() == 0 && engine.commanded(
            EngineCommandModel::Stop,
        ).1.len() == 0,
{
}

/// What goes wrong is told, once, and nothing is loaded any more; an engine
/// that plays shows where the device is.
pub proof fn failures_are_told(
    engine: EngineModel,
    error: Seq<char>,
    queue_len: usize,
    position_ms: u64,
)
    ensures
        ({
            let (closed, first) = engine.reported(EngineReportModel::OutputFailed { error });
            let (unread, second) = engine.reported(EngineReportModel::Undecodable { error });
            let (still, third) = engine.reported(EngineReportModel::SeekFailed { error });
            &&& closed.loading is None
            &&& first.len() == 1 && first[0] is TellFailed
            &&& unread.loading is None
            &&& engine.loading is Some ==> second.len() == 1 && second[0] is TellFailed
            &&& still == engine
            &&& third.len() == 1 && third[0] is TellFailed
            &&& engine.output_open ==> engine.polled(queue_len, position_ms).0.position_ms
                == position_ms && engine.polled(queue_len, position_ms).0.queue_len == queue_len
            &&& !engine.output_open ==> engine.polled(queue_len, position_ms).0 == engine
        }),
{
}

} // verus!
