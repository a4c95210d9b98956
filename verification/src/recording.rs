//! Recordings of terminal sessions and their playback as video frames.
use crate::frame;
use crate::frame::Frame;
use crate::replay;
use crate::replay::Replay;
use crate::shot;
use crate::shot::{Shot, ShotError};
use crate::text;
use vstd::prelude::*;

verus! {

/// Highest frame rate of a video.
pub const MAX_VIDEO_FPS: u32 = 1000;

/// Schema version written in the header of every `.cellshot` recording.
pub const FORMAT_VERSION: u8 = 1;

/// Source of bytes written to the application while recording a session.
#[derive(Clone, Copy, Debug, PartialEq, Eq, Structural)]
pub enum InputOrigin {
    Client,
    Host,
}

/// One entry in a `.cellshot` recording timeline.
#[derive(Debug)]
pub enum Entry {
    Header { version: u8, cols: u16, rows: u16, cell_width: u16, cell_height: u16 },
    Output { at_ms: u64, bytes: Vec<u8> },
    Input { at_ms: u64, origin: InputOrigin, bytes: Vec<u8> },
    Resize { at_ms: u64, cols: u16, rows: u16, cell_width: u16, cell_height: u16 },
    Marker { at_ms: u64, name: String },
}

/// A named moment of a recording, in milliseconds from its start.
#[derive(Debug, PartialEq, Eq)]
pub struct Marker {
    pub at_ms: u64,
    pub name: String,
}

impl View for Marker {
    type V = (u64, Seq<char>);

    open spec fn view(&self) -> (u64, Seq<char>) {
        (self.at_ms, self.name@)
    }
}

/// Parsed recording metadata and timeline entries.
#[derive(Debug)]
pub struct Recording {
    pub cols: u16,
    pub rows: u16,
    pub cell_width: u16,
    pub cell_height: u16,
    pub events: Vec<Entry>,
}

/// Why a recording cannot be read or played.
#[derive(Debug)]
pub enum RecordingError {
    Empty,
    MissingHeader,
    UnsupportedVersion { version: u8 },
    Geometry,
    RepeatedHeader,
    ZeroFrameRate,
    ExcessiveFrameRate,
    NothingVisible,
    MissingMarker { name: String },
}

impl RecordingError {
    /// What the error says.
    pub open spec fn says(&self) -> Seq<char> {
        match *self {
            RecordingError::Empty => "recording is empty"@,
            RecordingError::MissingHeader => "recording does not start with a header"@,
            RecordingError::UnsupportedVersion { version } => "unsupported recording version "@
                + text::decimal_text(version as nat),
            RecordingError::Geometry => "terminal dimensions must be greater than zero"@,
            RecordingError::RepeatedHeader => "recording contains a header after the first line"@,
            RecordingError::ZeroFrameRate => "--fps must be greater than zero"@,
            RecordingError::ExcessiveFrameRate => "--fps must not exceed "@ + text::decimal_text(
                MAX_VIDEO_FPS as nat,
            ),
            RecordingError::NothingVisible => "recording contains no visible output frames"@,
            RecordingError::MissingMarker { name } => "recording contains no marker named "@
                + name@,
        }
    }

    /// Writes out the error.
    pub fn message(&self) -> (message: String)
        ensures
            message@ == self.says(),
    {
        match self {
            RecordingError::Empty => "recording is empty".to_owned(),
            RecordingError::MissingHeader => "recording does not start with a header".to_owned(),
            RecordingError::UnsupportedVersion { version } => {
                let mut message = "unsupported recording version ".to_owned();
                message.append(text::decimal(*version as u64).as_str());
                message
            },
            RecordingError::Geometry => "terminal dimensions must be greater than zero".to_owned(),
            RecordingError::RepeatedHeader => {
                "recording contains a header after the first line".to_owned()
            },
            RecordingError::ZeroFrameRate => "--fps must be greater than zero".to_owned(),
            RecordingError::ExcessiveFrameRate => {
                let mut message = "--fps must not exceed ".to_owned();
                message.append(text::decimal(MAX_VIDEO_FPS as u64).as_str());
                message
            },
            RecordingError::NothingVisible => {
                "recording contains no visible output frames".to_owned()
            },
            RecordingError::MissingMarker { name } => {
                let mut message = "recording contains no marker named ".to_owned();
                message.append(name.as_str());
                message
            },
        }
    }
}

/// The header of a recording that is written.
pub open spec fn header(cols: u16, rows: u16, cell_width: u16, cell_height: u16) -> Entry {
    Entry::Header { version: FORMAT_VERSION, cols, rows, cell_width, cell_height }
}

/// Writes a recording entry by entry. Instants are in milliseconds on one clock.
#[derive(Clone, Copy, Debug, PartialEq, Eq, Structural)]
pub struct Writer {
    pub started: u64,
}

impl Writer {
    /// Starts a recording with its header.
    pub fn new(started: u64, cols: u16, rows: u16, cell_width: u16, cell_height: u16) -> (result:
        Result<(Writer, Entry), ShotError>)
        ensures
            result is Ok <==> rows != 0 && cols != 0,
            result matches Ok((writer, first)) ==> {
                &&& writer.started == started
                &&& first == header(cols, rows, cell_width, cell_height)
            },
            result matches Err(error) ==> error is ZeroGeometry,
    {
        match shot::validate_geometry(rows, cols) {
            Ok(()) => Ok(
                (
                    Writer { started },
                    Entry::Header {
                        version: FORMAT_VERSION,
                        cols,
                        rows,
                        cell_width,
                        cell_height,
                    },
                ),
            ),
            Err(error) => Err(error),
        }
    }

    /// The entry for output that was read `at_ms` after the start.
    pub fn output(&self, at_ms: u64, bytes: &[u8]) -> (entry: Entry)
        ensures
            entry matches Entry::Output { at_ms: at, bytes: kept } && at == at_ms && kept@
                == bytes@,
    {
        Entry::Output { at_ms, bytes: vstd::slice::slice_to_vec(bytes) }
    }

    /// The entry for input that was written at `now`.
    pub fn input(&self, origin: InputOrigin, bytes: &[u8], now: u64) -> (entry: Entry)
        ensures
            entry matches Entry::Input { at_ms, origin: from, bytes: kept } && at_ms
                == now.saturating_sub(self.started) && from == origin && kept@ == bytes@,
    {
        Entry::Input {
            at_ms: now.saturating_sub(self.started),
            origin,
            bytes: vstd::slice::slice_to_vec(bytes),
        }
    }

    /// The entry for a change of size at `now`.
    pub fn resize(
        &self,
        cols: u16,
        rows: u16,
        cell_width: u16,
        cell_height: u16,
        now: u64,
    ) -> (result: Result<Entry, ShotError>)
        ensures
            result is Ok <==> rows != 0 && cols != 0,
            result matches Ok(entry) ==> entry == (Entry::Resize {
                at_ms: now.saturating_sub(self.started),
                cols,
                rows,
                cell_width,
                cell_height,
            }),
            result matches Err(error) ==> error is ZeroGeometry,
    {
        match shot::validate_geometry(rows, cols) {
            Ok(()) => Ok(
                Entry::Resize {
                    at_ms: now.saturating_sub(self.started),
                    cols,
                    rows,
                    cell_width,
                    cell_height,
                },
            ),
            Err(error) => Err(error),
        }
    }

    /// The entry that names the moment `now`.
    pub fn marker(&self, name: &str, now: u64) -> (entry: Entry)
        ensures
            entry matches Entry::Marker { at_ms, name: kept } && at_ms == now.saturating_sub(
                self.started,
            ) && kept@ == name@,
    {
        Entry::Marker { at_ms: now.saturating_sub(self.started), name: name.to_owned() }
    }
}

/// Reads the header of a recording, which is its first entry.
pub fn read_header(first: Option<Entry>) -> (result: Result<Recording, RecordingError>)
    ensures
        result is Ok <==> first is Some && (first->0 matches Entry::Header {
            version,
            cols,
            rows,
            cell_width,
            cell_height,
        } && version == FORMAT_VERSION && rows != 0 && cols != 0),
        result matches Ok(recording) ==> (first->0 matches Entry::Header {
            version,
            cols,
            rows,
            cell_width,
            cell_height,
        } && recording.cols == cols && recording.rows == rows && recording.cell_width == cell_width
            && recording.cell_height == cell_height && recording.events@ == Seq::<Entry>::empty()),
        result matches Err(error) ==> error == match first {
            None => RecordingError::Empty,
            Some(Entry::Header { version, .. }) => if version != FORMAT_VERSION {
                RecordingError::UnsupportedVersion { version }
            } else {
                RecordingError::Geometry
            },
            Some(_) => RecordingError::MissingHeader,
        },
{
    match first {
        None => Err(RecordingError::Empty),
        Some(Entry::Header { version, cols, rows, cell_width, cell_height }) => {
            if version != FORMAT_VERSION {
                return Err(RecordingError::UnsupportedVersion { version });
            }
            if shot::validate_geometry(rows, cols).is_err() {
                return Err(RecordingError::Geometry);
            }
            Ok(Recording { cols, rows, cell_width, cell_height, events: Vec::new() })
        },
        Some(_) => Err(RecordingError::MissingHeader),
    }
}

/// Whether no entry is a header.
pub open spec fn without_header(events: Seq<Entry>) -> bool {
    forall|i: int| 0 <= i < events.len() ==> !((#[trigger] events[i]) is Header)
}

impl Recording {
    /// Takes the entries behind the header. None of them may be a header.
    pub fn with_events(self, events: Vec<Entry>) -> (result: Result<Recording, RecordingError>)
        ensures
            result is Ok <==> without_header(events@),
            result matches Ok(recording) ==> recording == (Recording { events, ..self }),
            result matches Err(error) ==> error is RepeatedHeader,
    {
        let mut index: usize = 0;
        while index < events.len()
            invariant
                index <= events@.len(),
                forall|i: int| 0 <= i < index ==> !((#[trigger] events@[i]) is Header),
            decreases events@.len() - index,
        {
            match &events[index] {
                Entry::Header { .. } => {
                    assert(events@[index as int] is Header);
                    return Err(RecordingError::RepeatedHeader);
                },
                _ => {},
            }
            index += 1;
        }
        Ok(
            Recording {
                cols: self.cols,
                rows: self.rows,
                cell_width: self.cell_width,
                cell_height: self.cell_height,
                events,
            },
        )
    }
}

/// Why a recording with this header and these entries cannot be read, if it cannot.
pub open spec fn read_failure(first: Option<Entry>, events: Seq<Entry>) -> Option<RecordingError> {
    match first {
        None => Some(RecordingError::Empty),
        Some(Entry::Header { version, cols, rows, .. }) => if version != FORMAT_VERSION {
            Some(RecordingError::UnsupportedVersion { version })
        } else if rows == 0 || cols == 0 {
            Some(RecordingError::Geometry)
        } else if !without_header(events) {
            Some(RecordingError::RepeatedHeader)
        } else {
            None
        },
        Some(_) => Some(RecordingError::MissingHeader),
    }
}

impl Recording {
    /// The first entry of the recording.
    pub open spec fn first(&self) -> Entry {
        header(self.cols, self.rows, self.cell_width, self.cell_height)
    }
}

/// Reads a recording from its header and the entries behind it.
pub fn read(first: Option<Entry>, events: Vec<Entry>) -> (result: Result<Recording, RecordingError>)
    ensures
        result is Ok <==> read_failure(first, events@) is None,
        result matches Ok(recording) ==> first == Some(recording.first()) && recording.events
            == events,
        result matches Err(error) ==> read_failure(first, events@) == Some(error),
{
    match read_header(first) {
        Ok(recording) => recording.with_events(events),
        Err(error) => Err(error),
    }
}

/// What is recorded can be read: a header that was written is accepted, and so is every entry that
/// was written behind it.
pub proof fn lemma_written_recording_is_read(
    cols: u16,
    rows: u16,
    cell_width: u16,
    cell_height: u16,
    events: Seq<Entry>,
)
    requires
        cols != 0,
        rows != 0,
        forall|i: int|
            0 <= i < events.len() ==> (#[trigger] events[i]) is Output || events[i] is Input
                || events[i] is Resize || events[i] is Marker,
    ensures
        read_failure(Some(header(cols, rows, cell_width, cell_height)), events) is None,
{
}

/// A frame and when it first showed, in milliseconds from the start of the recording.
#[derive(Debug)]
pub struct VideoFrame {
    pub at_ms: u64,
    pub frame: Frame,
}

impl View for VideoFrame {
    type V = (u64, frame::FrameView);

    open spec fn view(&self) -> (u64, frame::FrameView) {
        (self.at_ms, self.frame@)
    }
}

/// When each of `frames` first showed, and what it shows.
pub open spec fn video_views(frames: Seq<VideoFrame>) -> Seq<(u64, frame::FrameView)> {
    Seq::new(frames.len(), |i: int| frames[i]@)
}

/// The playback of a recording up to some entry.
#[verifier::ext_equal]
pub struct Playback {
    pub rows: u16,
    pub cols: u16,
    /// What was fed to the terminal since it had this size.
    pub chunks: Seq<Seq<u8>>,
    /// Everything that was written.
    pub output: Seq<u8>,
    /// Each frame that differs from the one before it.
    pub frames: Seq<(u64, frame::FrameView)>,
}

impl Playback {
    /// What the terminal shows.
    pub open spec fn shown(self) -> frame::FrameView {
        replay::replayed_frame(self.rows, self.cols, self.chunks)
    }

    /// Whether a terminal can have this size and show this output.
    pub open spec fn fits(self) -> bool {
        replay::can_emulate(self.rows, self.cols) && replay::can_replay(
            self.rows,
            self.cols,
            self.output,
        )
    }

    /// Keeps what the terminal shows, unless it shows the same as before.
    pub open spec fn sampled(self, at_ms: u64) -> Playback {
        if self.frames.len() > 0 && self.frames.last().1 == self.shown() {
            self
        } else {
            Playback { frames: self.frames.push((at_ms, self.shown())), ..self }
        }
    }

    /// The playback after one more entry. A change of size replays all output at the new size.
    pub open spec fn after(self, entry: Entry) -> Playback {
        match entry {
            Entry::Output { at_ms, bytes } => (Playback {
                chunks: self.chunks.push(bytes@),
                output: self.output + bytes@,
                ..self
            }).sampled(at_ms),
            Entry::Resize { at_ms, cols, rows, .. } => (Playback {
                rows,
                cols,
                chunks: seq![self.output],
                ..self
            }).sampled(at_ms),
            _ => self,
        }
    }
}

impl Recording {
    /// The playback of the first `count` entries.
    pub open spec fn playback(&self, count: nat) -> Playback
        decreases count,
    {
        if count == 0 {
            Playback {
                rows: self.rows,
                cols: self.cols,
                chunks: Seq::empty(),
                output: Seq::empty(),
                frames: seq![
                    (0u64, replay::replayed_frame(self.rows, self.cols, Seq::<Seq<u8>>::empty())),
                ],
            }
        } else {
            self.playback((count - 1) as nat).after(self.events@[count - 1])
        }
    }

    /// Whether a terminal can replay the recording: at every moment it has a size that can be
    /// emulated, and output that can be replayed at that size.
    pub open spec fn playable(&self) -> bool {
        forall|count: nat| count <= self.events@.len() ==> (#[trigger] self.playback(count)).fits()
    }

    /// Whether a terminal can replay the recording.
    pub fn is_playable(&self) -> (result: bool)
        ensures
            result == self.playable(),
    {
        let mut rows: u16 = self.rows;
        let mut cols: u16 = self.cols;
        let mut output: Vec<u8> = Vec::new();
        let mut index: usize = 0;
        while index < self.events.len()
            invariant
                index <= self.events@.len(),
                ({
                    let played = self.playback(index as nat);
                    played.rows == rows && played.cols == cols && played.output == output@
                }),
                forall|count: nat| count < index ==> (#[trigger] self.playback(count)).fits(),
            decreases self.events@.len() - index,
        {
            if !replay::is_size(rows, cols) || !replay::is_replayable(
                rows,
                cols,
                output.as_slice(),
            ) {
                assert(!self.playback(index as nat).fits());
                return false;
            }
            match &self.events[index] {
                Entry::Output { bytes, .. } => text::append_bytes(&mut output, bytes.as_slice()),
                Entry::Resize { cols: new_cols, rows: new_rows, .. } => {
                    cols = *new_cols;
                    rows = *new_rows;
                },
                _ => {},
            }
            index += 1;
            assert(self.playback(index as nat) == self.playback((index - 1) as nat).after(
                self.events@[index - 1],
            ));
        }
        let fits = replay::is_size(rows, cols) && replay::is_replayable(
            rows,
            cols,
            output.as_slice(),
        );
        assert(fits == self.playback(index as nat).fits());
        fits
    }
}

/// Every distinct frame of a recording, with the time at which it first showed.
pub fn states(recording: &Recording) -> (frames: Vec<VideoFrame>)
    requires
        recording.playable(),
    ensures
        video_views(frames@) == recording.playback(recording.events@.len()).frames,
        frames@.len() > 0,
{
    assert(recording.playback(0).fits());
    let mut terminal = Replay::new(recording.rows, recording.cols);
    let mut output: Vec<u8> = Vec::new();
    let mut frames: Vec<VideoFrame> = Vec::new();
    frames.push(VideoFrame { at_ms: 0, frame: terminal.frame() });
    assert(video_views(frames@) =~= recording.playback(0).frames);
    let mut index: usize = 0;
    while index < recording.events.len()
        invariant
            index <= recording.events@.len(),
            recording.playable(),
            frames@.len() > 0,
            ({
                let played = recording.playback(index as nat);
                &&& replay::made_with(terminal) == (played.rows, played.cols)
                &&& replay::fed(terminal) == played.chunks
                &&& replay::joined(played.chunks) == played.output
                &&& output@ == played.output
                &&& video_views(frames@) == played.frames
            }),
        decreases recording.events@.len() - index,
    {
        let ghost before = recording.playback(index as nat);
        let ghost after = recording.playback((index + 1) as nat);
        assert(after.fits());
        assert(after == before.after(recording.events@[index as int]));
        let at_ms: Option<u64> = match &recording.events[index] {
            Entry::Output { at_ms, bytes } => {
                text::append_bytes(&mut output, bytes.as_slice());
                proof {
                    let chunks = before.chunks.push(bytes@);
                    assert(chunks.drop_last() =~= before.chunks);
                }
                terminal.process(bytes.as_slice());
                Some(*at_ms)
            },
            Entry::Resize { at_ms, cols, rows, .. } => {
                terminal = Replay::new(*rows, *cols);
                proof {
                    replay::lemma_joined_one(output@);
                    assert(replay::fed(terminal).push(output@) =~= seq![output@]);
                }
                terminal.process(output.as_slice());
                Some(*at_ms)
            },
            _ => None,
        };
        if let Some(at_ms) = at_ms {
            let frame = terminal.frame();
            let ghost held = video_views(frames@);
            let repeated = frames[frames.len() - 1].frame == frame;
            assert(held.last() == frames@[frames@.len() - 1]@);
            if !repeated {
                let ghost view = (at_ms, frame@);
                frames.push(VideoFrame { at_ms, frame });
                assert(video_views(frames@) =~= held.push(view));
            }
        }
        index += 1;
    }
    frames
}

impl Entry {
    /// When the entry was written, in milliseconds from the start. The header comes first.
    pub open spec fn time(&self) -> u64 {
        match *self {
            Entry::Header { .. } => 0,
            Entry::Output { at_ms, .. } => at_ms,
            Entry::Input { at_ms, .. } => at_ms,
            Entry::Resize { at_ms, .. } => at_ms,
            Entry::Marker { at_ms, .. } => at_ms,
        }
    }

    /// When the entry was written.
    pub fn at(&self) -> (at_ms: u64)
        ensures
            at_ms == self.time(),
    {
        match self {
            Entry::Header { .. } => 0,
            Entry::Output { at_ms, .. } => *at_ms,
            Entry::Input { at_ms, .. } => *at_ms,
            Entry::Resize { at_ms, .. } => *at_ms,
            Entry::Marker { at_ms, .. } => *at_ms,
        }
    }
}

impl Recording {
    /// How many of the first `count` entries come before the first that was written after `until`.
    pub open spec fn written_by(&self, until: u64, count: nat) -> nat
        decreases count,
    {
        if count == 0 {
            0
        } else {
            let before = self.written_by(until, (count - 1) as nat);
            if before == count - 1 && self.events@[count - 1].time() <= until {
                count
            } else {
                before
            }
        }
    }

    /// How many entries are replayed to show a moment, or the end.
    pub open spec fn replayed(&self, at_ms: Option<u64>) -> nat {
        match at_ms {
            Some(until) => self.written_by(until, self.events@.len()),
            None => self.events@.len(),
        }
    }
}

proof fn lemma_written_by(recording: Recording, until: u64, index: nat, count: nat)
    requires
        index <= count <= recording.events@.len(),
        recording.written_by(until, index) == index,
        index < recording.events@.len() ==> recording.events@[index as int].time() > until,
    ensures
        recording.written_by(until, count) == index,
    decreases count,
{
    if index < count {
        lemma_written_by(recording, until, index, (count - 1) as nat);
    }
}

impl Entry {
    /// Whether the entry names a moment so.
    pub open spec fn marks(&self, name: Seq<char>) -> bool {
        *self matches Entry::Marker { name: given, .. } && given@ == name
    }
}

/// The first of `events` from `index` on that names a moment so.
pub open spec fn marked(events: Seq<Entry>, name: Seq<char>, index: int) -> Option<int>
    decreases events.len() - index,
{
    if index < 0 || index >= events.len() {
        None
    } else if events[index].marks(name) {
        Some(index)
    } else {
        marked(events, name, index + 1)
    }
}

/// The named moments among `events`, in their order.
pub open spec fn markers_of(events: Seq<Entry>) -> Seq<(u64, Seq<char>)>
    decreases events.len(),
{
    if events.len() == 0 {
        Seq::empty()
    } else {
        let before = markers_of(events.drop_last());
        match events.last() {
            Entry::Marker { at_ms, name } => before.push((at_ms, name@)),
            _ => before,
        }
    }
}

/// What each of `markers` names, and when.
pub open spec fn marker_views(markers: Seq<Marker>) -> Seq<(u64, Seq<char>)> {
    Seq::new(markers.len(), |i: int| markers[i]@)
}

/// The named moments of a recording.
pub fn markers(recording: &Recording) -> (markers: Vec<Marker>)
    ensures
        marker_views(markers@) == markers_of(recording.events@),
{
    let mut markers: Vec<Marker> = Vec::new();
    let mut index: usize = 0;
    assert(marker_views(markers@) =~= markers_of(recording.events@.take(0)));
    while index < recording.events.len()
        invariant
            index <= recording.events@.len(),
            marker_views(markers@) == markers_of(recording.events@.take(index as int)),
        decreases recording.events@.len() - index,
    {
        let ghost held = marker_views(markers@);
        assert(recording.events@.take(index + 1).drop_last() =~= recording.events@.take(
            index as int,
        ));
        match &recording.events[index] {
            Entry::Marker { at_ms, name } => {
                markers.push(Marker { at_ms: *at_ms, name: name.clone() });
                assert(marker_views(markers@) =~= held.push((*at_ms, name@)));
            },
            _ => {},
        }
        index += 1;
    }
    assert(recording.events@.take(index as int) =~= recording.events@);
    markers
}

impl Recording {
    /// Finds the marker of a name.
    fn find_marker(&self, name: &str) -> (found: Option<usize>)
        ensures
            (match found {
                Some(index) => Some(index as int),
                None => None,
            }) == marked(self.events@, name@, 0),
            found matches Some(index) ==> index < self.events@.len(),
    {
        let mut index: usize = 0;
        while index < self.events.len()
            invariant
                index <= self.events@.len(),
                marked(self.events@, name@, 0) == marked(self.events@, name@, index as int),
            decreases self.events@.len() - index,
        {
            match &self.events[index] {
                Entry::Marker { name: given, .. } => {
                    if text::same_text(given.as_str(), name) {
                        return Some(index);
                    }
                },
                _ => {},
            }
            index += 1;
        }
        None
    }

    /// Counts the entries that are replayed to show a moment, or the end.
    fn count_until(&self, at_ms: Option<u64>) -> (count: usize)
        ensures
            count == self.replayed(at_ms),
            count <= self.events@.len(),
    {
        let until: u64 = match at_ms {
            Some(until) => until,
            None => {
                return self.events.len();
            },
        };
        let mut index: usize = 0;
        while index < self.events.len()
            invariant
                index <= self.events@.len(),
                self.written_by(until, index as nat) == index,
                at_ms == Some(until),
            decreases self.events@.len() - index,
        {
            if self.events[index].at() > until {
                proof {
                    lemma_written_by(*self, until, index as nat, self.events@.len());
                }
                return index;
            }
            index += 1;
        }
        index
    }

    /// What the recording shows after its first `count` entries, and the output that led there.
    fn shot_after(&self, count: usize) -> (shot: Shot)
        requires
            self.playable(),
            count <= self.events@.len(),
        ensures
            shot.frame@ == self.playback(count as nat).shown(),
            shot.ansi@ == self.playback(count as nat).output,
    {
        assert(self.playback(0).fits());
        let mut terminal = Replay::new(self.rows, self.cols);
        let mut output: Vec<u8> = Vec::new();
        let mut index: usize = 0;
        while index < count
            invariant
                index <= count <= self.events@.len(),
                self.playable(),
                ({
                    let played = self.playback(index as nat);
                    &&& replay::made_with(terminal) == (played.rows, played.cols)
                    &&& replay::fed(terminal) == played.chunks
                    &&& replay::joined(played.chunks) == played.output
                    &&& output@ == played.output
                }),
            decreases count - index,
        {
            let ghost before = self.playback(index as nat);
            let ghost after = self.playback((index + 1) as nat);
            assert(after.fits());
            assert(after == before.after(self.events@[index as int]));
            match &self.events[index] {
                Entry::Output { bytes, .. } => {
                    text::append_bytes(&mut output, bytes.as_slice());
                    proof {
                        let chunks = before.chunks.push(bytes@);
                        assert(chunks.drop_last() =~= before.chunks);
                    }
                    terminal.process(bytes.as_slice());
                },
                Entry::Resize { cols, rows, .. } => {
                    terminal = Replay::new(*rows, *cols);
                    proof {
                        replay::lemma_joined_one(output@);
                        assert(replay::fed(terminal).push(output@) =~= seq![output@]);
                    }
                    terminal.process(output.as_slice());
                },
                _ => {},
            }
            index += 1;
        }
        Shot { frame: terminal.frame(), ansi: output }
    }
}

/// What a recording shows at its end, at a moment in milliseconds from its start or at a moment
/// that was named, together with the output that led there.
pub fn shot_at(recording: &Recording, at_ms: Option<u64>, at_marker: Option<&str>) -> (result:
    Result<Shot, RecordingError>)
    requires
        recording.playable(),
        at_ms is None || at_marker is None,
    ensures
        result is Ok <==> (at_marker matches Some(name) ==> marked(recording.events@, name@, 0)
            is Some),
        result matches Ok(shot) ==> {
            let count = match at_marker {
                Some(name) => marked(recording.events@, name@, 0)->0 as nat,
                None => recording.replayed(at_ms),
            };
            &&& shot.frame@ == recording.playback(count).shown()
            &&& shot.ansi@ == recording.playback(count).output
        },
        result matches Err(error) ==> error is MissingMarker && Some(error->MissingMarker_name@)
            == (match at_marker {
            Some(name) => Some(name@),
            None => None,
        }),
{
    let count: usize = match at_marker {
        Some(name) => match recording.find_marker(name) {
            Some(count) => count,
            None => {
                return Err(RecordingError::MissingMarker { name: name.to_owned() });
            },
        },
        None => recording.count_until(at_ms),
    };
    Ok(recording.shot_after(count))
}

/// Playing an entry does what the entry says. Output is fed to the terminal. A change of size replays
/// all output so far in a terminal of the new size. What shows then becomes a state at the time of
/// the entry, unless it showed before. Everything else changes nothing.
pub proof fn lemma_entries_are_played(recording: Recording, index: nat)
    requires
        index < recording.events@.len(),
    ensures
        ({
            let before = recording.playback(index);
            let after = recording.playback(index + 1);
            match recording.events@[index as int] {
                Entry::Output { at_ms, bytes } => {
                    let shows = replay::replayed_frame(
                        before.rows,
                        before.cols,
                        before.chunks.push(bytes@),
                    );
                    &&& after.rows == before.rows
                    &&& after.cols == before.cols
                    &&& after.chunks == before.chunks.push(bytes@)
                    &&& after.output == before.output + bytes@
                    &&& after.frames == if before.frames.len() > 0 && before.frames.last().1
                        == shows {
                        before.frames
                    } else {
                        before.frames.push((at_ms, shows))
                    }
                },
                Entry::Resize { at_ms, cols, rows, .. } => {
                    let shows = replay::replayed_frame(rows, cols, seq![before.output]);
                    &&& after.rows == rows
                    &&& after.cols == cols
                    &&& after.chunks == seq![before.output]
                    &&& after.output == before.output
                    &&& after.frames == if before.frames.len() > 0 && before.frames.last().1
                        == shows {
                        before.frames
                    } else {
                        before.frames.push((at_ms, shows))
                    }
                },
                _ => after == before,
            }
        }),
{
}

/// A playback starts with an empty terminal of the recorded size at time zero. Its last state is
/// always what the terminal shows, and no two states in a row are the same.
pub proof fn lemma_states_follow_the_screen(recording: Recording, count: nat, index: int)
    requires
        count <= recording.events@.len(),
    ensures
        ({
            let played = recording.playback(count);
            let frames = played.frames;
            &&& recording.playback(0).rows == recording.rows
            &&& recording.playback(0).cols == recording.cols
            &&& recording.playback(0).output.len() == 0
            &&& frames.len() > 0
            &&& frames[0] == (0u64, replay::replayed_frame(
                recording.rows,
                recording.cols,
                Seq::<Seq<u8>>::empty(),
            ))
            &&& frames.last().1 == replay::replayed_frame(played.rows, played.cols, played.chunks)
            &&& 0 < index < frames.len() ==> frames[index - 1].1 != frames[index].1
        }),
    decreases count,
{
    if count > 0 {
        let before = recording.playback((count - 1) as nat);
        lemma_states_follow_the_screen(recording, (count - 1) as nat, index);
        lemma_states_follow_the_screen(recording, (count - 1) as nat, before.frames.len() - 1);
    }
}

/// What is replayed to show a moment: every entry up to the first one that was written later, and
/// without a moment every entry.
pub proof fn lemma_moment_is_replayed(recording: Recording, until: u64)
    ensures
        ({
            let count = recording.replayed(Some(until));
            &&& recording.replayed(None) == recording.events@.len()
            &&& count <= recording.events@.len()
            &&& forall|i: int|
                0 <= i < count ==> (#[trigger] recording.events@[i]).time() <= until
            &&& count < recording.events@.len() ==> recording.events@[count as int].time() > until
        }),
{
    lemma_written_count(recording, until, recording.events@.len());
}

proof fn lemma_written_count(recording: Recording, until: u64, count: nat)
    requires
        count <= recording.events@.len(),
    ensures
        ({
            let written = recording.written_by(until, count);
            &&& written <= count
            &&& forall|i: int|
                0 <= i < written ==> (#[trigger] recording.events@[i]).time() <= until
            &&& written < count ==> recording.events@[written as int].time() > until
        }),
    decreases count,
{
    if count > 0 {
        lemma_written_count(recording, until, (count - 1) as nat);
    }
}

/// An entry has the time at which it was written, and a header stands at the start.
pub proof fn lemma_entry_has_its_time(entry: Entry)
    ensures
        match entry {
            Entry::Header { .. } => entry.time() == 0,
            Entry::Output { at_ms, .. }
            | Entry::Input { at_ms, .. }
            | Entry::Resize { at_ms, .. }
            | Entry::Marker { at_ms, .. } => entry.time() == at_ms,
        },
{
}

/// A name means the first moment that was marked with it, and nothing where none was.
pub proof fn lemma_name_means_the_first_marker(events: Seq<Entry>, name: Seq<char>)
    ensures
        match marked(events, name, 0) {
            Some(found) => {
                &&& 0 <= found < events.len()
                &&& events[found] matches Entry::Marker { name: given, .. } && given@ == name
                &&& forall|i: int|
                    0 <= i < found ==> !((#[trigger] events[i]) is Marker
                        && events[i]->Marker_name@ == name)
            },
            None => forall|i: int|
                0 <= i < events.len() ==> !((#[trigger] events[i]) is Marker
                    && events[i]->Marker_name@ == name),
        },
{
    lemma_marked_from(events, name, 0);
}

proof fn lemma_marked_from(events: Seq<Entry>, name: Seq<char>, index: int)
    requires
        0 <= index,
    ensures
        match marked(events, name, index) {
            Some(found) => {
                &&& index <= found < events.len()
                &&& events[found] is Marker && events[found]->Marker_name@ == name
                &&& forall|i: int|
                    index <= i < found ==> !((#[trigger] events[i]) is Marker
                        && events[i]->Marker_name@ == name)
            },
            None => forall|i: int|
                index <= i < events.len() ==> !((#[trigger] events[i]) is Marker
                    && events[i]->Marker_name@ == name),
        },
    decreases events.len() - index,
{
    if index < events.len() && !events[index].marks(name) {
        lemma_marked_from(events, name, index + 1);
    }
}

/// The named moments of a recording are those of its parts, one after the other. A marker is listed
/// with its time and its name, and nothing else is.
pub proof fn lemma_markers_are_listed(left: Seq<Entry>, right: Seq<Entry>, entry: Entry)
    ensures
        markers_of(left + right) == markers_of(left) + markers_of(right),
        markers_of(seq![entry]) == match entry {
            Entry::Marker { at_ms, name } => seq![(at_ms, name@)],
            _ => Seq::empty(),
        },
{
    lemma_markers_join(left, right);
    assert(seq![entry].drop_last() =~= Seq::<Entry>::empty());
    assert(markers_of(seq![entry].drop_last()) =~= Seq::<(u64, Seq<char>)>::empty());
    match entry {
        Entry::Marker { at_ms, name } => {
            assert(markers_of(seq![entry]) =~= seq![(at_ms, name@)]);
        },
        _ => {},
    }
}

proof fn lemma_markers_join(left: Seq<Entry>, right: Seq<Entry>)
    ensures
        markers_of(left + right) == markers_of(left) + markers_of(right),
    decreases right.len(),
{
    if right.len() == 0 {
        assert(left + right =~= left);
        assert(markers_of(left) + markers_of(right) =~= markers_of(left));
    } else {
        assert((left + right).drop_last() =~= left + right.drop_last());
        lemma_markers_join(left, right.drop_last());
        assert(markers_of(left + right) =~= markers_of(left) + markers_of(right));
    }
}

/// A recording can be read exactly if it starts with a header of this version for a terminal that is
/// not empty, and no other header follows.
pub proof fn lemma_readable_recordings(first: Option<Entry>, events: Seq<Entry>)
    ensures
        read_failure(first, events) is None <==> {
            &&& first matches Some(Entry::Header { version, cols, rows, .. }) && version == 1
                && cols > 0 && rows > 0
            &&& forall|i: int| 0 <= i < events.len() ==> !((#[trigger] events[i]) is Header)
        },
{
}

/// A marker changes nothing of what a recording plays.
pub proof fn lemma_marker_leaves_the_playback(recording: Recording, index: nat)
    requires
        index < recording.events@.len(),
        recording.events@[index as int] is Marker,
    ensures
        recording.playback(index + 1) == recording.playback(index),
{
}

proof fn lemma_playback_of_prefix(recording: Recording, longer: Recording, count: nat)
    requires
        recording.rows == longer.rows,
        recording.cols == longer.cols,
        count <= recording.events@.len() <= longer.events@.len(),
        recording.events@ == longer.events@.take(recording.events@.len() as int),
    ensures
        longer.playback(count) == recording.playback(count),
    decreases count,
{
    if count > 0 {
        lemma_playback_of_prefix(recording, longer, (count - 1) as nat);
        assert(recording.events@[count - 1] == longer.events@[count - 1]);
    }
}

proof fn lemma_first_mark(events: Seq<Entry>, name: Seq<char>, at: int, index: int)
    requires
        0 <= index <= at < events.len(),
        events[at].marks(name),
        forall|i: int| 0 <= i < at ==> !(#[trigger] events[i]).marks(name),
    ensures
        marked(events, name, index) == Some(at),
    decreases at - index,
{
    if index < at {
        lemma_first_mark(events, name, at, index + 1);
    }
}

/// A name that is marked for the first time means the moment at which it was marked: whatever is
/// recorded later, the recording shows there what it showed at its end when it was marked.
pub proof fn lemma_mark_names_the_moment(
    recording: Recording,
    marker: Entry,
    longer: Recording,
    name: Seq<char>,
)
    requires
        recording.rows == longer.rows,
        recording.cols == longer.cols,
        forall|i: int| 0 <= i < recording.events@.len() ==> !(#[trigger] recording.events@[i]).marks(name),
        marker.marks(name),
        recording.events@.push(marker).is_prefix_of(longer.events@),
    ensures
        marked(longer.events@, name, 0) == Some(recording.events@.len() as int),
        longer.playback(recording.events@.len()) == recording.playback(recording.replayed(None)),
{
    let count = recording.events@.len() as int;
    let marked_events = recording.events@.push(marker);
    assert(longer.events@.take(count + 1) == marked_events);
    assert(longer.events@[count] == longer.events@.take(count + 1)[count]);
    assert forall|i: int| 0 <= i < count implies !(#[trigger] longer.events@[i]).marks(name) by {
        assert(longer.events@[i] == longer.events@.take(count + 1)[i]);
        assert(marked_events[i] == recording.events@[i]);
    }
    lemma_first_mark(longer.events@, name, count, 0);
    assert(longer.events@.take(count) =~= recording.events@) by {
        assert forall|i: int| 0 <= i < count implies longer.events@[i] == recording.events@[i] by {
            assert(longer.events@[i] == longer.events@.take(count + 1)[i]);
        }
    }
    lemma_playback_of_prefix(recording, longer, recording.events@.len());
}

/// A recording shows at its end what it shows at any moment after its last entry.
pub proof fn lemma_end_is_the_last_moment(recording: Recording, until: u64)
    requires
        forall|i: int|
            0 <= i < recording.events@.len() ==> (#[trigger] recording.events@[i]).time() <= until,
    ensures
        recording.replayed(Some(until)) == recording.replayed(None),
{
    lemma_all_written(recording, until, recording.events@.len());
}

proof fn lemma_all_written(recording: Recording, until: u64, count: nat)
    requires
        count <= recording.events@.len(),
        forall|i: int|
            0 <= i < recording.events@.len() ==> (#[trigger] recording.events@[i]).time() <= until,
    ensures
        recording.written_by(until, count) == count,
    decreases count,
{
    if count > 0 {
        lemma_all_written(recording, until, (count - 1) as nat);
    }
}

/// Largest number of columns of any frame.
pub open spec fn most_cols(frames: Seq<frame::FrameView>) -> u16
    decreases frames.len(),
{
    if frames.len() == 0 {
        0
    } else if frames.last().cols > most_cols(frames.drop_last()) {
        frames.last().cols
    } else {
        most_cols(frames.drop_last())
    }
}

/// Largest number of rows of any frame.
pub open spec fn most_rows(frames: Seq<frame::FrameView>) -> u16
    decreases frames.len(),
{
    if frames.len() == 0 {
        0
    } else if frames.last().rows > most_rows(frames.drop_last()) {
        frames.last().rows
    } else {
        most_rows(frames.drop_last())
    }
}

/// No frame has more columns or rows than the most.
pub proof fn lemma_most_cover(frames: Seq<frame::FrameView>, index: int)
    requires
        0 <= index < frames.len(),
    ensures
        frames[index].cols <= most_cols(frames),
        frames[index].rows <= most_rows(frames),
    decreases frames.len(),
{
    if index < frames.len() - 1 {
        lemma_most_cover(frames.drop_last(), index);
    }
}

/// Some frame has as many columns as the most, and some frame as many rows.
pub proof fn lemma_most_is_reached(frames: Seq<frame::FrameView>)
    requires
        frames.len() > 0,
    ensures
        exists|i: int| 0 <= i < frames.len() && (#[trigger] frames[i]).cols == most_cols(frames),
        exists|i: int| 0 <= i < frames.len() && (#[trigger] frames[i]).rows == most_rows(frames),
    decreases frames.len(),
{
    let front = frames.drop_last();
    assert(frames[frames.len() - 1] == frames.last());
    if front.len() > 0 {
        lemma_most_is_reached(front);
        let i = choose|i: int| 0 <= i < front.len() && (#[trigger] front[i]).cols == most_cols(front);
        let j = choose|j: int| 0 <= j < front.len() && (#[trigger] front[j]).rows == most_rows(front);
        assert(frames[i] == front[i]);
        assert(frames[j] == front[j]);
    }
}

/// Gives every frame the same size, large enough for all of them.
pub fn common_canvas(frames: Vec<Frame>) -> (result: Vec<Frame>)
    ensures
        result@.len() == frames@.len(),
        forall|i: int|
            0 <= i < frames@.len() ==> #[trigger] result@[i] == (Frame {
                cols: most_cols(frame_views(frames@)),
                rows: most_rows(frame_views(frames@)),
                ..frames@[i]
            }),
{
    let ghost views = frame_views(frames@);
    let mut cols: u16 = 0;
    let mut rows: u16 = 0;
    let mut index: usize = 0;
    while index < frames.len()
        invariant
            index <= frames@.len(),
            views == frame_views(frames@),
            cols == most_cols(views.take(index as int)),
            rows == most_rows(views.take(index as int)),
        decreases frames@.len() - index,
    {
        assert(views.take(index + 1).drop_last() =~= views.take(index as int));
        if frames[index].cols > cols {
            cols = frames[index].cols;
        }
        if frames[index].rows > rows {
            rows = frames[index].rows;
        }
        index += 1;
    }
    assert(views.take(index as int) =~= views);
    let ghost before = frames@;
    let mut result = frames;
    let mut index: usize = 0;
    while index < result.len()
        invariant
            index <= result@.len(),
            result@.len() == before.len(),
            forall|i: int|
                0 <= i < before.len() ==> #[trigger] result@[i] == if i < index {
                    Frame { cols, rows, ..before[i] }
                } else {
                    before[i]
                },
        decreases result@.len() - index,
    {
        result[index].cols = cols;
        result[index].rows = rows;
        index += 1;
    }
    result
}

/// Whether a frame holds text other than white space.
pub open spec fn shows_text(view: frame::FrameView) -> bool {
    exists|i: int| 0 <= i < view.cells.len() && !frame::blank((#[trigger] view.cells[i]).text)
}

/// Whether `frame` holds text other than white space.
pub fn has_non_whitespace_text(frame: &Frame) -> (result: bool)
    ensures
        result == shows_text(frame@),
{
    let mut index: usize = 0;
    while index < frame.cells.len()
        invariant
            index <= frame.cells@.len(),
            forall|i: int|
                0 <= i < index ==> frame::blank((#[trigger] frame@.cells[i]).text),
        decreases frame.cells@.len() - index,
    {
        assert(frame@.cells[index as int] == frame.cells@[index as int]@);
        if !frame::is_blank(frame.cells[index].text.as_str()) {
            assert(!frame::blank(frame@.cells[index as int].text));
            return true;
        }
        index += 1;
    }
    false
}

/// The first of the states from `index` on that shows text.
pub open spec fn first_text(states: Seq<(u64, frame::FrameView)>, index: int) -> Option<int>
    decreases states.len() - index,
{
    if index < 0 || index >= states.len() {
        None
    } else if shows_text(states[index].1) {
        Some(index)
    } else {
        first_text(states, index + 1)
    }
}

/// The first of the states from `index` on that shows anything.
pub open spec fn first_content(states: Seq<(u64, frame::FrameView)>, index: int) -> Option<int>
    decreases states.len() - index,
{
    if index < 0 || index >= states.len() {
        None
    } else if states[index].1.has_visible_content() {
        Some(index)
    } else {
        first_content(states, index + 1)
    }
}

/// The first state of a video: the first with text, or else the first with any content. With the
/// startup included it is the first of all.
pub open spec fn first_visible(
    states: Seq<(u64, frame::FrameView)>,
    include_startup: bool,
) -> int {
    if include_startup {
        0
    } else {
        match first_text(states, 0) {
            Some(index) => index,
            None => match first_content(states, 0) {
                Some(index) => index,
                None => states.len() as int,
            },
        }
    }
}

proof fn lemma_first_text(states: Seq<(u64, frame::FrameView)>, index: int)
    requires
        0 <= index,
    ensures
        match first_text(states, index) {
            Some(first) => index <= first < states.len() && shows_text(states[first].1)
                && forall|i: int| index <= i < first ==> !shows_text((#[trigger] states[i]).1),
            None => forall|i: int|
                index <= i < states.len() ==> !shows_text((#[trigger] states[i]).1),
        },
    decreases states.len() - index,
{
    if index < states.len() && !shows_text(states[index].1) {
        lemma_first_text(states, index + 1);
    }
}

proof fn lemma_first_content(states: Seq<(u64, frame::FrameView)>, index: int)
    requires
        0 <= index,
    ensures
        match first_content(states, index) {
            Some(first) => index <= first < states.len() && states[first].1.has_visible_content()
                && forall|i: int|
                index <= i < first ==> !(#[trigger] states[i]).1.has_visible_content(),
            None => forall|i: int|
                index <= i < states.len() ==> !(#[trigger] states[i]).1.has_visible_content(),
        },
    decreases states.len() - index,
{
    if index < states.len() && !states[index].1.has_visible_content() {
        lemma_first_content(states, index + 1);
    }
}

/// A video starts with the first state that has text other than white space. Where none has, it
/// starts with the first state that is painted in another color than its background. Where there is
/// none either, it has no state. With the startup included it starts with the first state of all.
pub proof fn lemma_video_starts_when_something_shows(states: Seq<(u64, frame::FrameView)>)
    ensures
        first_visible(states, true) == 0,
        ({
            let first = first_visible(states, false);
            let blank = |i: int|
                forall|k: int|
                    0 <= k < states[i].1.cells.len() ==> frame::blank(
                        (#[trigger] states[i].1.cells[k]).text,
                    );
            let unpainted = |i: int|
                forall|k: int|
                    0 <= k < states[i].1.cells.len() ==> (
                    #[trigger] states[i].1.cells[k]).background == states[i].1.background;
            let without_text = forall|i: int| 0 <= i < states.len() ==> #[trigger] blank(i);
            &&& 0 <= first <= states.len()
            &&& !without_text ==> first < states.len() && !blank(first) && forall|i: int|
                0 <= i < first ==> #[trigger] blank(i)
            &&& without_text && first < states.len() ==> !unpainted(first)
            &&& without_text ==> forall|i: int| 0 <= i < first ==> #[trigger] unpainted(i)
        }),
{
    lemma_first_text(states, 0);
    lemma_first_content(states, 0);
    let blank = |i: int|
        forall|k: int|
            0 <= k < states[i].1.cells.len() ==> frame::blank(
                (#[trigger] states[i].1.cells[k]).text,
            );
    let unpainted = |i: int|
        forall|k: int|
            0 <= k < states[i].1.cells.len() ==> (#[trigger] states[i].1.cells[k]).background
                == states[i].1.background;
    assert forall|i: int| 0 <= i < states.len() implies #[trigger] blank(i) == !shows_text(
        states[i].1,
    ) by {
        if !blank(i) {
            let k = choose|k: int|
                0 <= k < states[i].1.cells.len() && !frame::blank(
                    (#[trigger] states[i].1.cells[k]).text,
                );
            assert(!frame::blank(states[i].1.cells[k].text));
        }
    }
    assert forall|i: int| 0 <= i < states.len() && blank(i) implies #[trigger] unpainted(i)
        == !states[i].1.has_visible_content() by {
        let view = states[i].1;
        if !unpainted(i) {
            let k = choose|k: int|
                0 <= k < view.cells.len() && (#[trigger] view.cells[k]).background
                    != view.background;
            assert(frame::cell_visible(view.cells[k], view.background));
        }
        if view.has_visible_content() {
            let k = choose|k: int|
                0 <= k < view.cells.len() && frame::cell_visible(
                    #[trigger] view.cells[k],
                    view.background,
                );
            assert(frame::blank(view.cells[k].text));
        }
    }
    let first = first_visible(states, false);
    let without_text = forall|i: int| 0 <= i < states.len() ==> #[trigger] blank(i);
    if without_text {
        assert(first_text(states, 0) is None) by {
            if let Some(found) = first_text(states, 0) {
                assert(blank(found));
            }
        }
        assert forall|i: int| 0 <= i < first implies #[trigger] unpainted(i) by {
            assert(blank(i));
            assert(!states[i].1.has_visible_content());
        }
        if first < states.len() {
            assert(blank(first));
            assert(unpainted(first) == !states[first].1.has_visible_content());
        }
    } else {
        let some = choose|i: int| 0 <= i < states.len() && !(#[trigger] blank(i));
        assert(shows_text(states[some].1));
        assert(first_text(states, 0) is Some);
        assert(!blank(first));
        assert forall|i: int| 0 <= i < first implies #[trigger] blank(i) by {
            assert(!shows_text(states[i].1));
        }
    }
}

/// The states of a video without what comes before anything shows.
pub fn visible_states(states: &[VideoFrame], include_startup: bool) -> (visible: &[VideoFrame])
    ensures
        0 <= first_visible(video_views(states@), include_startup) <= states@.len(),
        visible@ == states@.subrange(
            first_visible(video_views(states@), include_startup),
            states@.len() as int,
        ),
{
    let ghost views = video_views(states@);
    if include_startup {
        assert(states@.subrange(0, states@.len() as int) =~= states@);
        return states;
    }
    let mut index: usize = 0;
    while index < states.len()
        invariant
            index <= states@.len(),
            views == video_views(states@),
            !include_startup,
            first_text(views, index as int) == first_text(views, 0),
        decreases states@.len() - index,
    {
        assert(views[index as int] == states@[index as int]@);
        if has_non_whitespace_text(&states[index].frame) {
            return vstd::slice::slice_subrange(states, index, states.len());
        }
        index += 1;
    }
    let mut index: usize = 0;
    while index < states.len()
        invariant
            index <= states@.len(),
            views == video_views(states@),
            !include_startup,
            first_text(views, 0) is None,
            first_content(views, index as int) == first_content(views, 0),
        decreases states@.len() - index,
    {
        assert(views[index as int] == states@[index as int]@);
        if states[index].frame.has_visible_content() {
            return vstd::slice::slice_subrange(states, index, states.len());
        }
        index += 1;
    }
    vstd::slice::slice_subrange(states, index, states.len())
}

/// How a recording becomes a video. Durations are in milliseconds.
#[derive(Clone, Copy, Debug, PartialEq, Eq, Structural)]
pub struct VideoOptions {
    pub fps: u32,
    pub max_idle: Option<u64>,
    pub tail: u64,
    pub include_startup: bool,
}

/// The time for which a state shows before the next one: the recorded time, but no longer than
/// the idle limit.
pub open spec fn shown_for(at_ms: u64, next_ms: u64, max_idle: Option<u64>) -> u64 {
    let gap = next_ms.saturating_sub(at_ms);
    match max_idle {
        Some(max) => if gap < max {
            gap
        } else {
            max
        },
        None => gap,
    }
}

/// When the state at `index` shows in the video.
pub open spec fn video_time(
    states: Seq<(u64, frame::FrameView)>,
    max_idle: Option<u64>,
    index: nat,
) -> u64
    decreases index,
{
    if index == 0 {
        0
    } else {
        video_time(states, max_idle, (index - 1) as nat).saturating_add(
            shown_for(states[index - 1].0, states[index as int].0, max_idle),
        )
    }
}

/// When the video ends.
pub open spec fn video_end(states: Seq<(u64, frame::FrameView)>, options: VideoOptions) -> u64 {
    video_time(states, options.max_idle, (states.len() - 1) as nat).saturating_add(options.tail)
}

/// When a sample is taken, in whole milliseconds.
pub open spec fn sample_time(sample: int, fps: u32) -> int {
    (sample * 1000) / (fps as int)
}

/// How many samples are taken up to and including `end`.
pub open spec fn sample_count(end: u64, fps: u32) -> int {
    ((end + 1) * fps + 999) / 1000
}

/// The state that shows at `time`, looking from `index` on.
pub open spec fn showing(
    states: Seq<(u64, frame::FrameView)>,
    max_idle: Option<u64>,
    time: int,
    index: int,
) -> int
    decreases states.len() - index,
{
    if 0 <= index && index + 1 < states.len() && video_time(states, max_idle, (index + 1) as nat)
        <= time {
        showing(states, max_idle, time, index + 1)
    } else {
        index
    }
}

/// The frames sampled from the states of a video. The last one is always the last state.
pub open spec fn sampled_frames(
    states: Seq<(u64, frame::FrameView)>,
    options: VideoOptions,
) -> Seq<frame::FrameView> {
    if states.len() == 0 {
        Seq::empty()
    } else {
        let count = sample_count(video_end(states, options), options.fps);
        let frames = Seq::new(
            count as nat,
            |sample: int|
                states[showing(
                    states,
                    options.max_idle,
                    sample_time(sample, options.fps),
                    0,
                )].1,
        );
        if frames.last() != states.last().1 {
            frames.push(states.last().1)
        } else {
            frames
        }
    }
}

/// States follow one another in the video as in the recording, and no state shows longer than the
/// idle limit before the next one.
pub proof fn lemma_video_time(
    states: Seq<(u64, frame::FrameView)>,
    max_idle: Option<u64>,
    index: nat,
)
    ensures
        video_time(states, max_idle, index) <= video_time(states, max_idle, index + 1),
        max_idle matches Some(max) ==> video_time(states, max_idle, index + 1) - video_time(
            states,
            max_idle,
            index,
        ) <= max,
{
}

proof fn lemma_video_time_order(
    states: Seq<(u64, frame::FrameView)>,
    max_idle: Option<u64>,
    first: nat,
    second: nat,
)
    requires
        first <= second,
    ensures
        video_time(states, max_idle, first) <= video_time(states, max_idle, second),
    decreases second,
{
    if first < second {
        lemma_video_time_order(states, max_idle, first, (second - 1) as nat);
        lemma_video_time(states, max_idle, (second - 1) as nat);
    }
}

proof fn lemma_showing_skips(
    states: Seq<(u64, frame::FrameView)>,
    max_idle: Option<u64>,
    time: int,
    from: int,
    index: int,
)
    requires
        0 <= from <= index < states.len(),
        video_time(states, max_idle, index as nat) <= time || index == from,
    ensures
        showing(states, max_idle, time, from) == showing(states, max_idle, time, index),
    decreases index - from,
{
    if from < index {
        lemma_video_time_order(states, max_idle, (from + 1) as nat, index as nat);
        lemma_showing_skips(states, max_idle, time, from + 1, index);
    }
}

/// A sample shows the last state that has begun by its time: never one that begins later, and
/// never one that has been followed by another.
pub proof fn lemma_showing_is_current(
    states: Seq<(u64, frame::FrameView)>,
    max_idle: Option<u64>,
    time: int,
    index: int,
)
    requires
        0 <= index < states.len(),
    ensures
        index <= showing(states, max_idle, time, index) < states.len(),
        ({
            let shown = showing(states, max_idle, time, index);
            &&& shown == index || video_time(states, max_idle, shown as nat) <= time
            &&& shown + 1 < states.len() ==> video_time(states, max_idle, (shown + 1) as nat) > time
        }),
    decreases states.len() - index,
{
    if index + 1 < states.len() && video_time(states, max_idle, (index + 1) as nat) <= time {
        lemma_showing_is_current(states, max_idle, time, index + 1);
    }
}

/// A sample belongs to the video exactly when it is taken before the video ends.
pub proof fn lemma_sample_count(sample: int, end: u64, fps: u32)
    requires
        0 <= sample,
        fps > 0,
    ensures
        sample_time(sample, fps) <= end <==> sample < sample_count(end, fps),
        sample_count(end, fps) > 0,
{
    let rate = fps as int;
    let limit = (end + 1) * rate;
    assert(limit >= 1) by (nonlinear_arith)
        requires
            limit == (end + 1) * rate,
            rate >= 1,
            end >= 0,
    ;
    let time = (sample * 1000) / rate;
    assert(time * rate <= sample * 1000 < (time + 1) * rate) by (nonlinear_arith)
        requires
            time == (sample * 1000) / rate,
            rate >= 1,
    ;
    if time <= end {
        assert((time + 1) * rate <= limit) by (nonlinear_arith)
            requires
                time <= end,
                limit == (end + 1) * rate,
                rate >= 1,
        ;
    } else {
        assert(time * rate >= limit) by (nonlinear_arith)
            requires
                time >= end + 1,
                limit == (end + 1) * rate,
                rate >= 1,
        ;
    }
}

/// The first state of a video shows at its start, and each further one as long after the one before
/// it as was recorded, but no longer than the idle limit.
pub proof fn lemma_video_keeps_the_recorded_time(
    states: Seq<(u64, frame::FrameView)>,
    max_idle: Option<u64>,
    index: int,
)
    requires
        0 <= index < states.len(),
    ensures
        video_time(states, max_idle, 0) == 0,
        index + 1 < states.len() ==> {
            let at = video_time(states, max_idle, index as nat);
            let next = video_time(states, max_idle, (index + 1) as nat);
            let gap = if states[index + 1].0 > states[index].0 {
                states[index + 1].0 - states[index].0
            } else {
                0
            };
            let kept = if max_idle is Some && max_idle->0 < gap {
                max_idle->0 as int
            } else {
                gap
            };
            if at + kept <= u64::MAX {
                next == at + kept
            } else {
                next == u64::MAX
            }
        },
{
}

/// Without an idle limit a video has the recorded timing: a state shows as long after the first one
/// as it did when it was recorded.
pub proof fn lemma_video_has_the_recorded_timing(
    states: Seq<(u64, frame::FrameView)>,
    index: int,
)
    requires
        0 <= index < states.len(),
        forall|i: int, j: int| 0 <= i <= j < states.len() ==> (#[trigger] states[i]).0 <= (
        #[trigger] states[j]).0,
    ensures
        video_time(states, None, index as nat) == states[index].0 - states[0].0,
    decreases index,
{
    if index > 0 {
        lemma_video_has_the_recorded_timing(states, index - 1);
        assert(states[index - 1].0 <= states[index].0);
    }
}

proof fn lemma_showing_state(
    states: Seq<(u64, frame::FrameView)>,
    max_idle: Option<u64>,
    time: int,
    index: int,
)
    requires
        0 <= index < states.len(),
        video_time(states, max_idle, index as nat) <= time,
        index + 1 < states.len() ==> time < video_time(states, max_idle, (index + 1) as nat),
    ensures
        showing(states, max_idle, time, 0) == index,
{
    lemma_showing_skips(states, max_idle, time, 0, index);
}

/// A video has the frame of a state in every sample from the moment the state begins until the next
/// one does, and the last state is held for the tail. After that nothing follows but, where no
/// sample fell into it, the last state itself.
pub proof fn lemma_samples_show_the_states(
    states: Seq<(u64, frame::FrameView)>,
    options: VideoOptions,
    sample: int,
    index: int,
)
    requires
        options.fps > 0,
        0 <= index < states.len(),
        0 <= sample,
    ensures
        ({
            let frames = sampled_frames(states, options);
            let time = (sample * 1000) / (options.fps as int);
            let begins = video_time(states, options.max_idle, index as nat);
            let last = video_time(states, options.max_idle, (states.len() - 1) as nat);
            let ends = if last + options.tail <= u64::MAX {
                last + options.tail
            } else {
                u64::MAX as int
            };
            &&& index + 1 < states.len() && begins <= time < video_time(
                states,
                options.max_idle,
                (index + 1) as nat,
            ) ==> sample < frames.len() && frames[sample] == states[index].1
            &&& index == states.len() - 1 && begins <= time <= ends ==> sample < frames.len()
                && frames[sample] == states[index].1
            &&& time > ends ==> sample + 1 >= frames.len()
            &&& frames.len() > 0 && frames.last() == states.last().1
            &&& frames.len() > 1 && frames[frames.len() - 2] == frames.last() ==> time > ends
                ==> sample >= frames.len()
        }),
{
    let frames = sampled_frames(states, options);
    let last = video_time(states, options.max_idle, (states.len() - 1) as nat);
    let end = video_end(states, options);
    let time = sample_time(sample, options.fps);
    let count = sample_count(end, options.fps);
    lemma_sample_count(sample, end, options.fps);
    lemma_sample_count(0, end, options.fps);
    lemma_video_time_order(states, options.max_idle, index as nat, (states.len() - 1) as nat);
    if index + 1 < states.len() {
        lemma_video_time_order(
            states,
            options.max_idle,
            (index + 1) as nat,
            (states.len() - 1) as nat,
        );
    }
    let begins = video_time(states, options.max_idle, index as nat);
    if begins <= time && (if index + 1 < states.len() {
        time < video_time(states, options.max_idle, (index + 1) as nat)
    } else {
        time <= end
    }) {
        lemma_showing_state(states, options.max_idle, time, index);
        assert(frames[sample] == states[index].1);
    }
}

proof fn lemma_sample_times(first: int, second: int, fps: u32)
    requires
        0 <= first <= second,
        fps > 0,
    ensures
        sample_time(first, fps) <= sample_time(second, fps),
{
    let rate = fps as int;
    assert((first * 1000) / rate <= (second * 1000) / rate) by (nonlinear_arith)
        requires
            0 <= first <= second,
            rate > 0,
    ;
}

/// What each of `frames` shows.
pub open spec fn frame_views(frames: Seq<Frame>) -> Seq<frame::FrameView> {
    Seq::new(frames.len(), |i: int| frames[i]@)
}

/// Samples the states of a video at its frame rate.
pub fn samples(states: &[VideoFrame], options: &VideoOptions) -> (output: Vec<Frame>)
    requires
        options.fps > 0,
    ensures
        frame_views(output@) == sampled_frames(video_views(states@), *options),
        states@.len() > 0 ==> output@.len() > 0 && output@.last()@ == states@.last().frame@,
{
    let ghost views = video_views(states@);
    let mut output: Vec<Frame> = Vec::new();
    if states.len() == 0 {
        assert(frame_views(output@) =~= Seq::<frame::FrameView>::empty());
        return output;
    }
    let mut timeline: Vec<u64> = Vec::new();
    let mut at_ms: u64 = 0;
    let mut index: usize = 0;
    while index < states.len()
        invariant
            index <= states@.len(),
            states@.len() > 0,
            views == video_views(states@),
            timeline@.len() == index,
            forall|i: int|
                0 <= i < index ==> #[trigger] timeline@[i] == video_time(
                    views,
                    options.max_idle,
                    i as nat,
                ),
            at_ms == video_time(
                views,
                options.max_idle,
                (if index < states@.len() {
                    index as int
                } else {
                    states@.len() - 1
                }) as nat,
            ),
        decreases states@.len() - index,
    {
        timeline.push(at_ms);
        if states.len() - index > 1 {
            assert(views[index as int] == states@[index as int]@);
            assert(views[index + 1] == states@[index + 1]@);
            let gap: u64 = states[index + 1].at_ms.saturating_sub(states[index].at_ms);
            let gap: u64 = match options.max_idle {
                Some(max) => if gap < max {
                    gap
                } else {
                    max
                },
                None => gap,
            };
            at_ms = at_ms.saturating_add(gap);
        }
        index += 1;
    }
    let end_ms: u64 = at_ms.saturating_add(options.tail);
    assert(end_ms == video_end(views, *options));
    let ghost count = sample_count(end_ms, options.fps);
    let ghost frames = Seq::new(
        count as nat,
        |sample: int|
            views[showing(views, options.max_idle, sample_time(sample, options.fps), 0)].1,
    );
    let mut state: usize = 0;
    let mut sample: u128 = 0;
    proof {
        lemma_sample_count(0, end_ms, options.fps);
        assert(count <= 0x1_0000_0000_0000_0000_0000_0000) by (nonlinear_arith)
            requires
                count == ((end_ms + 1) * options.fps + 999) / 1000,
                0 <= end_ms <= 0xffff_ffff_ffff_ffff,
                0 <= options.fps <= 0xffff_ffff,
        ;
    }
    loop
        invariant
            0 < options.fps,
            views == video_views(states@),
            views.len() > 0,
            states@.len() == views.len(),
            timeline@.len() == views.len(),
            forall|i: int|
                0 <= i < views.len() ==> #[trigger] timeline@[i] == video_time(
                    views,
                    options.max_idle,
                    i as nat,
                ),
            count == sample_count(end_ms, options.fps),
            0 < count <= 0x1_0000_0000_0000_0000_0000_0000,
            frames == Seq::new(
                count as nat,
                |sample: int|
                    views[showing(views, options.max_idle, sample_time(sample, options.fps), 0)].1,
            ),
            0 <= sample <= count,
            output@.len() == sample,
            forall|i: int| 0 <= i < sample ==> (#[trigger] output@[i])@ == frames[i],
            state < views.len(),
            state == 0 || sample > 0 && video_time(views, options.max_idle, state as nat)
                <= sample_time(sample - 1, options.fps),
        ensures
            output@.len() == count,
            forall|i: int| 0 <= i < count ==> (#[trigger] output@[i])@ == frames[i],
        decreases count - sample,
    {
        proof {
            lemma_sample_count(sample as int, end_ms, options.fps);
        }
        let sample_ms: u128 = sample * 1000 / (options.fps as u128);
        assert(sample_ms == sample_time(sample as int, options.fps));
        if sample_ms > end_ms as u128 {
            break ;
        }
        let sample_ms: u64 = sample_ms as u64;
        proof {
            if sample > 0 {
                lemma_sample_times(sample - 1, sample as int, options.fps);
            }
            lemma_showing_skips(views, options.max_idle, sample_ms as int, 0, state as int);
        }
        while states.len() - state > 1 && timeline[state + 1] <= sample_ms
            invariant
                states@.len() == views.len(),
                timeline@.len() == views.len(),
                forall|i: int|
                    0 <= i < views.len() ==> #[trigger] timeline@[i] == video_time(
                        views,
                        options.max_idle,
                        i as nat,
                    ),
                state < views.len(),
                showing(views, options.max_idle, sample_ms as int, state as int) == showing(
                    views,
                    options.max_idle,
                    sample_ms as int,
                    0,
                ),
                state == 0 || video_time(views, options.max_idle, state as nat) <= sample_ms,
            decreases states@.len() - state,
        {
            state += 1;
        }
        assert(views[state as int] == states@[state as int]@);
        output.push(states[state].frame.clone());
        sample += 1;
    }
    assert(frame_views(output@) =~= frames);
    let last = &states[states.len() - 1].frame;
    assert(views.last() == states@.last()@);
    assert(frames.last() == output@[count - 1]@);
    if !(output[output.len() - 1] == *last) {
        let copy = last.clone();
        let ghost view = copy@;
        output.push(copy);
        assert(frame_views(output@) =~= frames.push(view));
    }
    output
}

/// Checks a frame rate.
pub fn check_rate(fps: u32) -> (result: Result<(), RecordingError>)
    ensures
        result is Ok <==> 0 < fps <= MAX_VIDEO_FPS,
        result matches Err(error) ==> error == if fps == 0 {
            RecordingError::ZeroFrameRate
        } else {
            RecordingError::ExcessiveFrameRate
        },
{
    if fps == 0 {
        return Err(RecordingError::ZeroFrameRate);
    }
    if fps > MAX_VIDEO_FPS {
        return Err(RecordingError::ExcessiveFrameRate);
    }
    Ok(())
}

/// The states of a recording that its video shows.
pub open spec fn video_states(
    recording: Recording,
    include_startup: bool,
) -> Seq<(u64, frame::FrameView)> {
    let states = recording.playback(recording.events@.len()).frames;
    states.subrange(first_visible(states, include_startup), states.len() as int)
}

/// The frames of a recording's video, all of the largest size that any of them has.
pub fn video(recording: &Recording, options: &VideoOptions) -> (result: Result<
    Vec<Frame>,
    RecordingError,
>)
    requires
        recording.playable(),
    ensures
        result is Ok <==> 0 < options.fps <= MAX_VIDEO_FPS && video_states(
            *recording,
            options.include_startup,
        ).len() > 0,
        result matches Err(error) ==> error == if options.fps == 0 {
            RecordingError::ZeroFrameRate
        } else if options.fps > MAX_VIDEO_FPS {
            RecordingError::ExcessiveFrameRate
        } else {
            RecordingError::NothingVisible
        },
        result matches Ok(frames) ==> {
            let sampled = sampled_frames(
                video_states(*recording, options.include_startup),
                *options,
            );
            &&& frames@.len() == sampled.len()
            &&& forall|i: int|
                0 <= i < frames@.len() ==> (#[trigger] frames@[i])@ == (frame::FrameView {
                    cols: most_cols(sampled),
                    rows: most_rows(sampled),
                    ..sampled[i]
                }) && sampled[i].cols <= most_cols(sampled) && sampled[i].rows <= most_rows(sampled)
        },
{
    match check_rate(options.fps) {
        Ok(()) => {},
        Err(error) => {
            return Err(error);
        },
    }
    let all = states(recording);
    let visible = visible_states(all.as_slice(), options.include_startup);
    assert(video_views(visible@) =~= video_states(*recording, options.include_startup));
    if visible.len() == 0 {
        return Err(RecordingError::NothingVisible);
    }
    let sampled = samples(visible, options);
    let ghost views = frame_views(sampled@);
    let ghost before = sampled@;
    let frames = common_canvas(sampled);
    proof {
        assert forall|i: int| 0 <= i < frames@.len() implies (#[trigger] frames@[i])@ == (
        frame::FrameView { cols: most_cols(views), rows: most_rows(views), ..views[i] })
            && views[i].cols <= most_cols(views) && views[i].rows <= most_rows(views) by {
            lemma_most_cover(views, i);
            assert(views[i] == before[i]@);
        }
    }
    Ok(frames)
}

} // verus!
