//! Copying a disk to a file, block by block, with a way to go on after a read error.
//!
//! The decisions of the copy stand here: what to ask of the device and of the file next, and what
//! to make of the answer. The program that runs a copy performs each action and hands back what
//! came of it.
use vstd::prelude::*;

verus! {

/// What went wrong while copying. `Text` is `String` in programs and `Seq<char>` in contracts.
#[derive(Debug, PartialEq)]
pub enum CopyError<Text = String> {
    /// The disk could not be read.
    Read(Text),
    /// The file could not be written.
    Write(Text),
    /// Nothing went wrong.
    NoError,
}

impl View for CopyError<String> {
    type V = CopyError<Seq<char>>;

    open spec fn view(&self) -> CopyError<Seq<char>> {
        match self {
            CopyError::Read(message) => CopyError::Read(message@),
            CopyError::Write(message) => CopyError::Write(message@),
            CopyError::NoError => CopyError::NoError,
        }
    }
}

/// What a copy waits for.
#[derive(Clone, Copy, Debug, PartialEq, Eq, Structural)]
pub enum CopyPhase {
    /// A read of at most so many bytes.
    Reading(usize),
    /// The device, opened anew and set to the place where reading failed.
    Reopening,
    /// The writing of so many bytes.
    Writing(usize),
    /// Nothing: the copy has ended.
    Ended,
}

/// How far a copy has come.
#[derive(Clone, Copy, Debug, PartialEq, Eq, Structural)]
pub struct CopyState {
    /// How many bytes are read from the device each time it is opened.
    pub length: usize,
    /// How many bytes are read at once.
    pub buffer_len: usize,
    /// How many bytes are still to be read from the device as it was opened last.
    pub limit: usize,
    /// How many bytes have been read in all.
    pub position: usize,
    pub phase: CopyPhase,
}

/// What came of an action. `Text` is `String` in programs and `Seq<char>` in contracts.
#[derive(Debug, PartialEq)]
pub enum CopyEvent<Text = String> {
    /// So many bytes were read.
    Read(usize),
    /// Reading was interrupted before it began.
    ReadInterrupted,
    /// Reading failed.
    ReadFailed(Text),
    /// The device was opened anew and set to the given place.
    Reopened,
    /// The device was opened anew and could not be set to the given place.
    SeekFailed(Text),
    /// The bytes were written.
    Written,
    /// The bytes could not be written.
    WriteFailed(Text),
}

impl View for CopyEvent<String> {
    type V = CopyEvent<Seq<char>>;

    open spec fn view(&self) -> CopyEvent<Seq<char>> {
        match self {
            CopyEvent::Read(n) => CopyEvent::Read(*n),
            CopyEvent::ReadInterrupted => CopyEvent::ReadInterrupted,
            CopyEvent::ReadFailed(message) => CopyEvent::ReadFailed(message@),
            CopyEvent::Reopened => CopyEvent::Reopened,
            CopyEvent::SeekFailed(message) => CopyEvent::SeekFailed(message@),
            CopyEvent::Written => CopyEvent::Written,
            CopyEvent::WriteFailed(message) => CopyEvent::WriteFailed(message@),
        }
    }
}

/// What to do next. `Text` is `String` in programs and `Seq<char>` in contracts.
#[derive(Debug, PartialEq)]
pub enum CopyAction<Text = String> {
    /// Read at most so many bytes from the device into the buffer.
    Read(usize),
    /// Open the device anew and set it to so many bytes from its start.
    Reopen(usize),
    /// Write the first so many bytes of the buffer to the file.
    Write(usize),
    /// Stop: all is copied.
    Finish,
    /// Stop: the copy failed.
    Fail(CopyError<Text>),
}

impl View for CopyAction<String> {
    type V = CopyAction<Seq<char>>;

    open spec fn view(&self) -> CopyAction<Seq<char>> {
        match self {
            CopyAction::Read(n) => CopyAction::Read(*n),
            CopyAction::Reopen(n) => CopyAction::Reopen(*n),
            CopyAction::Write(n) => CopyAction::Write(*n),
            CopyAction::Finish => CopyAction::Finish,
            CopyAction::Fail(error) => CopyAction::Fail(error@),
        }
    }
}

/// What is made of an event: first what is told of it, then what to do next. `Text` is `String` in
/// programs and `Seq<char>` in contracts.
#[derive(Debug, PartialEq)]
pub struct CopyStep<Text = String> {
    /// How many bytes were read, if that is to be told.
    pub progress: Option<usize>,
    /// What went wrong without ending the copy, or that all is well again, if that is to be told.
    pub notice: Option<CopyError<Text>>,
    pub action: CopyAction<Text>,
}

impl View for CopyStep<String> {
    type V = CopyStep<Seq<char>>;

    open spec fn view(&self) -> CopyStep<Seq<char>> {
        CopyStep {
            progress: self.progress,
            notice: match self.notice {
                Some(notice) => Some(notice@),
                None => None,
            },
            action: self.action@,
        }
    }
}

impl CopyState {
    /// What holds of a copy at all times.
    pub open spec fn wf(self) -> bool {
        &&& self.limit <= self.length
        &&& match self.phase {
            CopyPhase::Reading(max) => self.limit > 0 && max == if self.buffer_len < self.limit {
                self.buffer_len
            } else {
                self.limit
            },
            CopyPhase::Writing(n) => 0 < n <= self.position && n <= self.buffer_len,
            _ => true,
        }
    }

    /// Whether `event` can come of the action that was asked for last. A device gives no more than
    /// was asked for, and the number of bytes read in all fits in a `usize`.
    pub open spec fn awaits<Text>(self, event: CopyEvent<Text>) -> bool {
        match event {
            CopyEvent::Read(n) => {
                &&& self.phase matches CopyPhase::Reading(max)
                &&& n <= max
                &&& self.position + n <= usize::MAX
            },
            CopyEvent::ReadInterrupted => self.phase is Reading,
            CopyEvent::ReadFailed(_) => self.phase is Reading,
            CopyEvent::Reopened => self.phase is Reopening,
            CopyEvent::SeekFailed(_) => self.phase is Reopening,
            CopyEvent::Written => self.phase is Writing,
            CopyEvent::WriteFailed(_) => self.phase is Writing,
        }
    }
}

/// `state`, ready to read on, and what to do for that: nothing is left to do where nothing is left
/// to read.
pub open spec fn reading_on<Text>(state: CopyState) -> (CopyState, CopyAction<Text>) {
    if state.limit == 0 {
        (CopyState { phase: CopyPhase::Ended, ..state }, CopyAction::Finish)
    } else {
        let max = if state.buffer_len < state.limit {
            state.buffer_len
        } else {
            state.limit
        };
        (CopyState { phase: CopyPhase::Reading(max), ..state }, CopyAction::Read(max))
    }
}

/// A copy of `length` bytes, `buffer_len` at once, of which nothing has been read.
pub open spec fn copy_begun<Text>(length: usize, buffer_len: usize) -> (
    CopyState,
    CopyAction<Text>,
) {
    reading_on(
        CopyState { length, buffer_len, limit: length, position: 0, phase: CopyPhase::Ended },
    )
}

/// `next`, with nothing told.
pub open spec fn quietly<Text>(next: (CopyState, CopyAction<Text>)) -> (
    CopyState,
    CopyStep<Text>,
) {
    (next.0, CopyStep { progress: None, notice: None, action: next.1 })
}

/// What a copy in `state` makes of `event`.
pub open spec fn copy_step<Text>(state: CopyState, event: CopyEvent<Text>) -> (
    CopyState,
    CopyStep<Text>,
) {
    let ended = CopyState { phase: CopyPhase::Ended, ..state };
    match event {
        CopyEvent::Read(n) => if n == 0 {
            quietly((ended, CopyAction::Finish))
        } else {
            (
                CopyState {
                    limit: (state.limit - n) as usize,
                    position: (state.position + n) as usize,
                    phase: CopyPhase::Writing(n),
                    ..state
                },
                CopyStep {
                    progress: Some(n),
                    notice: Some(CopyError::NoError),
                    action: CopyAction::Write(n),
                },
            )
        },
        CopyEvent::ReadInterrupted => quietly(reading_on(state)),
        CopyEvent::ReadFailed(message) => (
            CopyState { phase: CopyPhase::Reopening, ..state },
            CopyStep {
                progress: None,
                notice: Some(CopyError::Read(message)),
                action: CopyAction::Reopen(state.position),
            },
        ),
        CopyEvent::Reopened => quietly(reading_on(CopyState { limit: state.length, ..state })),
        CopyEvent::SeekFailed(message) => quietly(
            (ended, CopyAction::Fail(CopyError::Read(message))),
        ),
        CopyEvent::Written => quietly(reading_on(state)),
        CopyEvent::WriteFailed(message) => quietly(
            (ended, CopyAction::Fail(CopyError::Write(message))),
        ),
    }
}

impl CopyState {
    fn read_on(&mut self) -> (r: CopyAction)
        requires
            old(self).limit <= old(self).length,
        ensures
            (*final(self), r@) == reading_on::<Seq<char>>(*old(self)),
            final(self).wf(),
    {
        if self.limit == 0 {
            self.phase = CopyPhase::Ended;
            CopyAction::Finish
        } else {
            let max = if self.buffer_len < self.limit {
                self.buffer_len
            } else {
                self.limit
            };
            self.phase = CopyPhase::Reading(max);
            CopyAction::Read(max)
        }
    }

    /// Begins a copy of `length` bytes, `buffer_len` at once, from a device that was just opened.
    pub fn begin(length: usize, buffer_len: usize) -> (r: (CopyState, CopyAction))
        ensures
            (r.0, r.1@) == copy_begun::<Seq<char>>(length, buffer_len),
            r.0.wf(),
    {
        let mut state = CopyState {
            length,
            buffer_len,
            limit: length,
            position: 0,
            phase: CopyPhase::Ended,
        };
        let action = state.read_on();
        (state, action)
    }

    /// Goes on with the copy after `event`.
    pub fn step(&mut self, event: CopyEvent) -> (r: CopyStep)
        requires
            old(self).wf(),
            old(self).awaits(event),
        ensures
            (*final(self), r@) == copy_step(*old(self), event@),
            final(self).wf(),
    {
        match event {
            CopyEvent::Read(n) => {
                if n == 0 {
                    self.phase = CopyPhase::Ended;
                    return CopyStep { progress: None, notice: None, action: CopyAction::Finish };
                }
                self.limit = self.limit - n;
                self.position = self.position + n;
                self.phase = CopyPhase::Writing(n);
                CopyStep {
                    progress: Some(n),
                    notice: Some(CopyError::NoError),
                    action: CopyAction::Write(n),
                }
            },
            CopyEvent::ReadInterrupted | CopyEvent::Written => {
                let action = self.read_on();
                CopyStep { progress: None, notice: None, action }
            },
            CopyEvent::ReadFailed(message) => {
                self.phase = CopyPhase::Reopening;
                CopyStep {
                    progress: None,
                    notice: Some(CopyError::Read(message)),
                    action: CopyAction::Reopen(self.position),
                }
            },
            CopyEvent::Reopened => {
                self.limit = self.length;
                let action = self.read_on();
                CopyStep { progress: None, notice: None, action }
            },
            CopyEvent::SeekFailed(message) => {
                self.phase = CopyPhase::Ended;
                let error = CopyError::Read(message);
                CopyStep { progress: None, notice: None, action: CopyAction::Fail(error) }
            },
            CopyEvent::WriteFailed(message) => {
                self.phase = CopyPhase::Ended;
                let error = CopyError::Write(message);
                CopyStep { progress: None, notice: None, action: CopyAction::Fail(error) }
            },
        }
    }
}

/// The device, the buffer and the file of a copy, as the actions change them.
pub struct CopyWorld {
    /// Where the device reads next.
    pub offset: int,
    /// What was read last.
    pub buffer: Seq<u8>,
    /// What has been written.
    pub file: Seq<u8>,
}

/// The action that a copy of `length` bytes, `buffer_len` at once, asked for last before the event
/// `i`.
pub open spec fn asked(
    length: usize,
    buffer_len: usize,
    events: Seq<CopyEvent<Seq<char>>>,
    states: Seq<CopyState>,
    i: int,
) -> CopyAction<Seq<char>> {
    if i <= 0 {
        copy_begun(length, buffer_len).1
    } else {
        copy_step(states[i - 1], events[i - 1]).1.action
    }
}

/// Whether a device that holds `source`, a buffer and a file can go from `w` to `next` as `action`
/// is performed and `event` comes of it. What was read and written, and where the device was set,
/// is what `action` says. A device that failed to read may be set anywhere, and a file that failed
/// to be written may hold anything.
pub open spec fn world_moves(
    source: Seq<u8>,
    action: CopyAction<Seq<char>>,
    event: CopyEvent<Seq<char>>,
    w: CopyWorld,
    next: CopyWorld,
) -> bool {
    match event {
        CopyEvent::Read(n) => {
            &&& action matches CopyAction::Read(max)
            &&& n <= max
            &&& 0 <= w.offset
            &&& w.offset + n <= source.len()
            &&& next.buffer == source.subrange(w.offset, w.offset + n)
            &&& next.offset == w.offset + n
            &&& next.file == w.file
        },
        CopyEvent::ReadInterrupted => next == w,
        CopyEvent::ReadFailed(_) => next.file == w.file,
        CopyEvent::Reopened => {
            &&& action matches CopyAction::Reopen(place)
            &&& next.offset == place
            &&& next.file == w.file
        },
        CopyEvent::SeekFailed(_) => next.file == w.file,
        CopyEvent::Written => {
            &&& action matches CopyAction::Write(n)
            &&& next.offset == w.offset
            &&& next.file == w.file + w.buffer.take(n as int)
        },
        CopyEvent::WriteFailed(_) => true,
    }
}

/// Whether `states` and `worlds` are what a copy of `length` bytes, `buffer_len` at once, goes
/// through as it learns of `events`, from a device that holds `source`. The file may hold anything
/// when the copy begins.
pub open spec fn is_copy(
    source: Seq<u8>,
    length: usize,
    buffer_len: usize,
    events: Seq<CopyEvent<Seq<char>>>,
    states: Seq<CopyState>,
    worlds: Seq<CopyWorld>,
) -> bool {
    &&& states.len() == events.len() + 1
    &&& worlds.len() == events.len() + 1
    &&& states[0] == copy_begun::<Seq<char>>(length, buffer_len).0
    &&& worlds[0].offset == 0
    &&& forall|i: int|
        #![trigger events[i]]
        0 <= i < events.len() ==> {
            &&& states[i].awaits(events[i])
            &&& states[i + 1] == copy_step(states[i], events[i]).0
            &&& world_moves(
                source,
                asked(length, buffer_len, events, states, i),
                events[i],
                worlds[i],
                worlds[i + 1],
            )
        }
}

/// Whether `action` is the one whose event a copy in `state` waits for.
pub open spec fn asks_for(action: CopyAction<Seq<char>>, state: CopyState) -> bool {
    match state.phase {
        CopyPhase::Reading(max) => action == CopyAction::<Seq<char>>::Read(max),
        CopyPhase::Reopening => action == CopyAction::<Seq<char>>::Reopen(state.position),
        CopyPhase::Writing(n) => action == CopyAction::<Seq<char>>::Write(n),
        CopyPhase::Ended => action is Finish || action is Fail,
    }
}

/// Whatever a copy learns, it asks for the action that it then waits for: the same number of bytes
/// to be read or written, and the place up to which it has read.
pub proof fn law_copy_asks_for_what_it_awaits(
    length: usize,
    buffer_len: usize,
    state: CopyState,
    event: CopyEvent<Seq<char>>,
)
    ensures
        asks_for(copy_begun(length, buffer_len).1, copy_begun::<Seq<char>>(length, buffer_len).0),
        asks_for(copy_step(state, event).1.action, copy_step(state, event).0),
{
}

/// A copy begins with nothing read and its whole length before it: it reads at once, as much as the
/// buffer and the length allow, or is finished where the length is zero.
pub proof fn law_copy_begins_with_the_whole_length(length: usize, buffer_len: usize)
    ensures
        ({
            let (state, action) = copy_begun::<Seq<char>>(length, buffer_len);
            &&& state.length == length
            &&& state.buffer_len == buffer_len
            &&& state.limit == length
            &&& state.position == 0
            &&& length == 0 ==> action == CopyAction::<Seq<char>>::Finish
            &&& 0 < length <= buffer_len ==> action == CopyAction::<Seq<char>>::Read(length)
            &&& buffer_len < length ==> action == CopyAction::<Seq<char>>::Read(buffer_len)
        }),
{
}

/// Bytes that were read are counted, told of and written, all of them and no others, and that all
/// is well is told with them. Nothing else is told of as progress, and nothing else is written.
pub proof fn law_bytes_read_are_written(state: CopyState, event: CopyEvent<Seq<char>>, n: usize)
    requires
        state.wf(),
        state.awaits(event),
    ensures
        ({
            let (next, step) = copy_step(state, event);
            let read = event == CopyEvent::<Seq<char>>::Read(n) && n > 0;
            &&& step.action == CopyAction::<Seq<char>>::Write(n) <==> read
            &&& step.progress == Some(n) <==> read
            &&& read ==> step.notice == Some(CopyError::<Seq<char>>::NoError)
            &&& step.notice == Some(CopyError::<Seq<char>>::NoError) ==> step.action is Write
            &&& read ==> next.position == state.position + n && next.limit == state.limit - n
            &&& !(event is Read) ==> next.position == state.position
            &&& !(event is Read || event is Reopened) ==> next.limit == state.limit
            &&& next.length == state.length
            &&& next.buffer_len == state.buffer_len
        }),
{
}

/// Each error is told as what it is, with its message: a failed read is told and the device opened
/// anew where reading stopped; a device that cannot be set there ends the copy with a read error,
/// and a failed write ends it with a write error. Nothing else is told of as an error, opens the
/// device anew or ends the copy with one.
pub proof fn law_errors_are_told(
    state: CopyState,
    event: CopyEvent<Seq<char>>,
    message: Seq<char>,
    place: usize,
)
    requires
        state.wf(),
        state.awaits(event),
    ensures
        ({
            let step = copy_step(state, event).1;
            &&& step.notice == Some(CopyError::Read(message)) <==> event == CopyEvent::ReadFailed(
                message,
            )
            &&& step.action == CopyAction::<Seq<char>>::Reopen(place) <==> event is ReadFailed
                && place == state.position
            &&& step.action == CopyAction::Fail(CopyError::Read(message)) <==> event
                == CopyEvent::SeekFailed(message)
            &&& step.action == CopyAction::Fail(CopyError::Write(message)) <==> event
                == CopyEvent::WriteFailed(message)
            &&& step.notice != Some(CopyError::Write(message))
            &&& step.action != CopyAction::Fail(CopyError::<Seq<char>>::NoError)
        }),
{
}

/// Reading goes on after a write, an interruption or a new opening as long as anything is left to be
/// read, as much at once as the buffer and what is left allow. The copy is finished when nothing is
/// left, or when the device gives no byte, and never else. A new opening leaves the whole length to
/// be read.
pub proof fn law_reading_goes_on(state: CopyState, event: CopyEvent<Seq<char>>, max: usize)
    requires
        state.wf(),
        state.awaits(event),
    ensures
        ({
            let (next, step) = copy_step(state, event);
            let left = if event is Reopened {
                state.length
            } else {
                state.limit
            };
            let resumes = event is Written || event is ReadInterrupted || event is Reopened;
            &&& step.action == CopyAction::<Seq<char>>::Read(max) <==> resumes && left > 0
                && max == lesser(state.buffer_len as int, left as int)
            &&& step.action is Finish <==> resumes && left == 0 || event == CopyEvent::<
                Seq<char>,
            >::Read(0)
            &&& resumes ==> next.limit == left && step.progress is None && step.notice is None
            &&& step.action is Finish ==> step.progress is None && step.notice is None
        }),
{
}

/// Whether the file holds, behind `start`, what was read from `source`, all but the bytes that wait
/// to be written.
pub open spec fn in_step(
    source: Seq<u8>,
    start: Seq<u8>,
    state: CopyState,
    w: CopyWorld,
) -> bool {
    &&& state.position <= source.len()
    &&& match state.phase {
        CopyPhase::Reading(_) => {
            &&& w.offset == state.position
            &&& w.file == start + source.take(state.position as int)
        },
        CopyPhase::Reopening => w.file == start + source.take(state.position as int),
        CopyPhase::Writing(n) => {
            &&& n <= state.position
            &&& w.offset == state.position
            &&& w.file == start + source.take(state.position - n)
            &&& w.buffer == source.subrange(state.position - n, state.position as int)
        },
        CopyPhase::Ended => w.file == start + source.take(state.position as int),
    }
}

/// What is read is what is written: at any time, unless a write failed, the file holds what it held
/// at first and then the first bytes of the disk, as many as were read, all but those that wait to
/// be written. So does the file of a copy that had to open the device anew.
pub proof fn law_copy_is_faithful(
    source: Seq<u8>,
    length: usize,
    buffer_len: usize,
    events: Seq<CopyEvent<Seq<char>>>,
    states: Seq<CopyState>,
    worlds: Seq<CopyWorld>,
    i: int,
)
    requires
        is_copy(source, length, buffer_len, events, states, worlds),
        0 <= i <= events.len(),
    ensures
        states[i].wf(),
        i > 0 && events[i - 1] is WriteFailed || in_step(
            source,
            worlds[0].file,
            states[i],
            worlds[i],
        ),
    decreases i,
{
    if i == 0 {
        assert(worlds[0].file =~= worlds[0].file + source.take(0));
    } else {
        let k = i - 1;
        law_copy_is_faithful(source, length, buffer_len, events, states, worlds, k);
        assert(states[k].awaits(events[k]));
        lemma_asked_is_awaited(source, length, buffer_len, events, states, worlds, k);
        if k > 0 {
            assert(states[k - 1].awaits(events[k - 1]));
            assert(!(events[k - 1] is WriteFailed));
        }
        lemma_stays_in_step(
            source,
            worlds[0].file,
            states[k],
            asked(length, buffer_len, events, states, k),
            events[k],
            worlds[k],
            worlds[i],
        );
    }
}

/// One step keeps the file in step with what was read.
proof fn lemma_stays_in_step(
    source: Seq<u8>,
    start: Seq<u8>,
    state: CopyState,
    action: CopyAction<Seq<char>>,
    event: CopyEvent<Seq<char>>,
    w: CopyWorld,
    next: CopyWorld,
)
    requires
        state.wf(),
        state.awaits(event),
        asks_for(action, state),
        in_step(source, start, state, w),
        world_moves(source, action, event, w, next),
    ensures
        copy_step(state, event).0.wf(),
        event is WriteFailed || in_step(source, start, copy_step(state, event).0, next),
{
    let at = state.position as int;
    match event {
        CopyEvent::Read(n) => {
            assert(source.take(at) =~= source.take(at + n - n));
        },
        CopyEvent::Written => {
            let n = state.phase->Writing_0 as int;
            assert(w.buffer.take(n) =~= w.buffer);
            assert((start + source.take(at - n)) + source.subrange(at - n, at) =~= start
                + source.take(at));
        },
        _ => {},
    }
}

/// The action that was asked for last is the one whose event is awaited.
proof fn lemma_asked_is_awaited(
    source: Seq<u8>,
    length: usize,
    buffer_len: usize,
    events: Seq<CopyEvent<Seq<char>>>,
    states: Seq<CopyState>,
    worlds: Seq<CopyWorld>,
    i: int,
)
    requires
        is_copy(source, length, buffer_len, events, states, worlds),
        0 <= i <= events.len(),
    ensures
        asks_for(asked(length, buffer_len, events, states, i), states[i]),
{
    if i > 0 {
        let k = i - 1;
        assert(states[k].awaits(events[k]));
        law_copy_asks_for_what_it_awaits(length, buffer_len, states[k], events[k]);
    }
}

/// A copy in which no read fails reads the disk no further than its length: what was read and what
/// is still to be read add up to it. If the device never ran out, so that the copy ended for
/// having read all, the file holds, behind what it held at first, exactly that many of the first
/// bytes of the disk.
pub proof fn law_copy_without_read_errors_is_exact(
    source: Seq<u8>,
    length: usize,
    buffer_len: usize,
    events: Seq<CopyEvent<Seq<char>>>,
    states: Seq<CopyState>,
    worlds: Seq<CopyWorld>,
    i: int,
)
    requires
        is_copy(source, length, buffer_len, events, states, worlds),
        0 <= i <= events.len(),
        forall|k: int| 0 <= k < i ==> !(#[trigger] events[k] is ReadFailed),
    ensures
        states[i].position + states[i].limit == length,
        states[i].phase !is Reopening,
        states[i].phase is Ended && !(i > 0 && (events[i - 1] is WriteFailed || events[i - 1]
            == CopyEvent::<Seq<char>>::Read(0))) ==> worlds[i].file == worlds[0].file
            + source.take(length as int),
    decreases i,
{
    law_copy_is_faithful(source, length, buffer_len, events, states, worlds, i);
    if i > 0 {
        let k = i - 1;
        law_copy_without_read_errors_is_exact(
            source,
            length,
            buffer_len,
            events,
            states,
            worlds,
            k,
        );
        law_copy_is_faithful(source, length, buffer_len, events, states, worlds, k);
        assert(states[k].awaits(events[k]));
        assert(!(events[k] is ReadFailed));
    }
}

/// How much had been read when the device was opened last, before the step `i`.
pub open spec fn opened_at(
    events: Seq<CopyEvent<Seq<char>>>,
    states: Seq<CopyState>,
    i: int,
) -> nat
    decreases i,
{
    if i <= 0 {
        0
    } else if events[i - 1] is Reopened {
        states[i - 1].position as nat
    } else {
        opened_at(events, states, i - 1)
    }
}

/// Whether a copy asks for nothing more after the event before `i`, for all is copied.
pub open spec fn has_finished(
    length: usize,
    buffer_len: usize,
    events: Seq<CopyEvent<Seq<char>>>,
    states: Seq<CopyState>,
    i: int,
) -> bool {
    &&& 0 <= i <= events.len()
    &&& asked(length, buffer_len, events, states, i) is Finish
}

/// Whether the device gave no byte only at its end, up to the step `i`.
pub open spec fn ends_where_device_ends(
    source: Seq<u8>,
    events: Seq<CopyEvent<Seq<char>>>,
    worlds: Seq<CopyWorld>,
    i: int,
) -> bool {
    forall|k: int|
        0 <= k < i && #[trigger] events[k] == CopyEvent::<Seq<char>>::Read(0) ==> worlds[k].offset
            >= source.len()
}

/// The smaller of two numbers.
pub open spec fn lesser(a: int, b: int) -> int {
    if a < b {
        a
    } else {
        b
    }
}

/// What was read and what is still to be read add up to the length, counted from where the device
/// was opened last.
pub proof fn law_limit_counts_from_opening(
    source: Seq<u8>,
    length: usize,
    buffer_len: usize,
    events: Seq<CopyEvent<Seq<char>>>,
    states: Seq<CopyState>,
    worlds: Seq<CopyWorld>,
    i: int,
)
    requires
        is_copy(source, length, buffer_len, events, states, worlds),
        0 <= i <= events.len(),
    ensures
        states[i].length == length,
        states[i].buffer_len == buffer_len,
        states[i].position + states[i].limit == opened_at(events, states, i) + length,
    decreases i,
{
    if i > 0 {
        let k = i - 1;
        law_limit_counts_from_opening(source, length, buffer_len, events, states, worlds, k);
        law_copy_is_faithful(source, length, buffer_len, events, states, worlds, k);
        assert(states[k].awaits(events[k]));
        if k > 0 {
            assert(states[k - 1].awaits(events[k - 1]));
        }
    }
}

/// A read asks for as much as the buffer holds and the length, counted from where the device was
/// opened last, leaves: no less and no more. What was written so far tells how much is left.
pub proof fn law_reads_fill_the_buffer(
    source: Seq<u8>,
    length: usize,
    buffer_len: usize,
    events: Seq<CopyEvent<Seq<char>>>,
    states: Seq<CopyState>,
    worlds: Seq<CopyWorld>,
    i: int,
)
    requires
        is_copy(source, length, buffer_len, events, states, worlds),
        0 <= i <= events.len(),
    ensures
        asked(length, buffer_len, events, states, i) matches CopyAction::Read(max) ==> max > 0
            || buffer_len == 0,
        asked(length, buffer_len, events, states, i) matches CopyAction::Read(max) ==> max
            == lesser(
            buffer_len as int,
            opened_at(events, states, i) + length - (worlds[i].file.len() - worlds[0].file.len()),
        ),
        asked(length, buffer_len, events, states, i) matches CopyAction::Reopen(place) ==> place
            == worlds[i].file.len() - worlds[0].file.len(),
{
    law_copy_is_faithful(source, length, buffer_len, events, states, worlds, i);
    law_limit_counts_from_opening(source, length, buffer_len, events, states, worlds, i);
    lemma_asked_is_awaited(source, length, buffer_len, events, states, worlds, i);
    if i > 0 {
        assert(states[i - 1].awaits(events[i - 1]));
    }
}

/// What a finished copy has written, whatever reads failed on the way: the file holds, behind what
/// it held at first, the first bytes of the disk, up to the length counted from where the device
/// was opened last, or all of them where the device has fewer.
pub proof fn law_finished_copy_reads_from_last_opening(
    source: Seq<u8>,
    length: usize,
    buffer_len: usize,
    events: Seq<CopyEvent<Seq<char>>>,
    states: Seq<CopyState>,
    worlds: Seq<CopyWorld>,
    i: int,
)
    requires
        is_copy(source, length, buffer_len, events, states, worlds),
        has_finished(length, buffer_len, events, states, i),
        buffer_len > 0,
        ends_where_device_ends(source, events, worlds, i),
    ensures
        worlds[i].file == worlds[0].file + source.take(
            lesser(source.len() as int, opened_at(events, states, i) + length),
        ),
{
    law_copy_is_faithful(source, length, buffer_len, events, states, worlds, i);
    law_limit_counts_from_opening(source, length, buffer_len, events, states, worlds, i);
    lemma_asked_is_awaited(source, length, buffer_len, events, states, worlds, i);
    if i > 0 {
        let k = i - 1;
        law_copy_is_faithful(source, length, buffer_len, events, states, worlds, k);
        law_limit_counts_from_opening(source, length, buffer_len, events, states, worlds, k);
        assert(states[k].awaits(events[k]));
    }
}

/// A finished copy is the disk: behind what the file held at first, as many bytes from the start of
/// the disk as its length tells, or all of them where the device has fewer. Read errors do not
/// matter where the device has no more than its length, or where nothing had been read yet.
pub proof fn law_finished_copy_is_the_disk(
    source: Seq<u8>,
    length: usize,
    buffer_len: usize,
    events: Seq<CopyEvent<Seq<char>>>,
    states: Seq<CopyState>,
    worlds: Seq<CopyWorld>,
    i: int,
)
    requires
        is_copy(source, length, buffer_len, events, states, worlds),
        has_finished(length, buffer_len, events, states, i),
        buffer_len > 0,
        ends_where_device_ends(source, events, worlds, i),
        source.len() <= length || forall|k: int|
            0 <= k < i ==> (#[trigger] events[k] is ReadFailed ==> states[k].position == 0),
    ensures
        worlds[i].file == worlds[0].file + source.take(
            lesser(source.len() as int, length as int),
        ),
{
    law_finished_copy_reads_from_last_opening(source, length, buffer_len, events, states, worlds, i);
    if source.len() > length {
        lemma_opened_at_start(source, length, buffer_len, events, states, worlds, i);
    }
}

/// A copy in which one read failed, after `p` bytes, reads its length anew from there: once
/// finished, the file holds, behind what it held at first, the first bytes of the disk, `p` and the
/// length together, or all of them where the device has fewer.
pub proof fn law_copy_with_one_read_error(
    source: Seq<u8>,
    length: usize,
    buffer_len: usize,
    events: Seq<CopyEvent<Seq<char>>>,
    states: Seq<CopyState>,
    worlds: Seq<CopyWorld>,
    i: int,
    at: int,
    p: int,
)
    requires
        is_copy(source, length, buffer_len, events, states, worlds),
        has_finished(length, buffer_len, events, states, i),
        buffer_len > 0,
        ends_where_device_ends(source, events, worlds, i),
        0 <= at < i,
        events[at] is ReadFailed,
        states[at].position == p,
        forall|k: int| 0 <= k < i && k != at ==> !(#[trigger] events[k] is ReadFailed),
    ensures
        worlds[i].file == worlds[0].file + source.take(
            lesser(source.len() as int, p + length),
        ),
{
    law_finished_copy_reads_from_last_opening(source, length, buffer_len, events, states, worlds, i);
    lemma_opened_after_failure(source, length, buffer_len, events, states, worlds, i, at);
}

/// Where reads failed only before the first byte, the device was opened at its start each time.
proof fn lemma_opened_at_start(
    source: Seq<u8>,
    length: usize,
    buffer_len: usize,
    events: Seq<CopyEvent<Seq<char>>>,
    states: Seq<CopyState>,
    worlds: Seq<CopyWorld>,
    i: int,
)
    requires
        is_copy(source, length, buffer_len, events, states, worlds),
        0 <= i <= events.len(),
        forall|k: int|
            0 <= k < i ==> (#[trigger] events[k] is ReadFailed ==> states[k].position == 0),
    ensures
        opened_at(events, states, i) == 0,
    decreases i,
{
    if i > 0 {
        let k = i - 1;
        assert(states[k].awaits(events[k]));
        if events[k] is Reopened {
            assert(states[k - 1].awaits(events[k - 1]));
            assert(events[k - 1] is ReadFailed);
        } else {
            lemma_opened_at_start(source, length, buffer_len, events, states, worlds, k);
        }
    }
}

/// After the one failed read the device was opened where it failed, unless the copy waits for that
/// or failed.
proof fn lemma_opened_after_failure(
    source: Seq<u8>,
    length: usize,
    buffer_len: usize,
    events: Seq<CopyEvent<Seq<char>>>,
    states: Seq<CopyState>,
    worlds: Seq<CopyWorld>,
    i: int,
    at: int,
)
    requires
        is_copy(source, length, buffer_len, events, states, worlds),
        0 <= at < i <= events.len(),
        events[at] is ReadFailed,
        forall|k: int| 0 <= k < i && k != at ==> !(#[trigger] events[k] is ReadFailed),
    ensures
        i == at + 1 ==> states[i].phase is Reopening && states[i].position == states[at].position,
        i > at + 1 ==> opened_at(events, states, i) == states[at].position || events[at
            + 1] is SeekFailed && i == at + 2,
    decreases i,
{
    assert(states[at].awaits(events[at]));
    let k = i - 1;
    assert(states[k].awaits(events[k]));
    if k > at {
        lemma_opened_after_failure(source, length, buffer_len, events, states, worlds, k, at);
        if k > at + 1 && events[k] is Reopened {
            assert(states[k - 1].awaits(events[k - 1]));
            assert(events[k - 1] is ReadFailed);
        }
    }
}

/// A copy with room for no byte at once never reads or writes one.
pub proof fn law_copy_without_buffer_writes_nothing(
    source: Seq<u8>,
    length: usize,
    events: Seq<CopyEvent<Seq<char>>>,
    states: Seq<CopyState>,
    worlds: Seq<CopyWorld>,
    i: int,
)
    requires
        is_copy(source, length, 0, events, states, worlds),
        0 <= i <= events.len(),
    ensures
        states[i].position == 0,
        worlds[i].file == worlds[0].file,
    decreases i,
{
    law_copy_is_faithful(source, length, 0, events, states, worlds, i);
    law_limit_counts_from_opening(source, length, 0, events, states, worlds, i);
    if i > 0 {
        let k = i - 1;
        law_copy_without_buffer_writes_nothing(source, length, events, states, worlds, k);
        law_copy_is_faithful(source, length, 0, events, states, worlds, k);
        law_limit_counts_from_opening(source, length, 0, events, states, worlds, k);
        assert(states[k].awaits(events[k]));
    }
}

/// A copy fails only with an error to tell of, and what goes wrong without ending it is never the
/// writing.
pub proof fn law_errors_are_what_they_seem(state: CopyState, event: CopyEvent<Seq<char>>)
    requires
        state.wf(),
        state.awaits(event),
    ensures
        copy_step(state, event).1.action matches CopyAction::Fail(error) ==> !(error is NoError),
        copy_step(state, event).1.notice matches Some(error) ==> !(error is Write),
{
}

/// How many bytes were told of in the first `k` steps of a copy.
pub open spec fn bytes_told(
    events: Seq<CopyEvent<Seq<char>>>,
    states: Seq<CopyState>,
    k: int,
) -> int
    decreases k,
{
    if k <= 0 {
        0
    } else {
        bytes_told(events, states, k - 1) + match copy_step(
            states[k - 1],
            events[k - 1],
        ).1.progress {
            Some(n) => n as int,
            None => 0,
        }
    }
}

/// The bytes that are told of as progress add up to all that was read, also over read errors.
pub proof fn law_progress_adds_up(
    source: Seq<u8>,
    length: usize,
    buffer_len: usize,
    events: Seq<CopyEvent<Seq<char>>>,
    states: Seq<CopyState>,
    worlds: Seq<CopyWorld>,
    i: int,
)
    requires
        is_copy(source, length, buffer_len, events, states, worlds),
        0 <= i <= events.len(),
    ensures
        bytes_told(events, states, i) == states[i].position,
    decreases i,
{
    if i > 0 {
        law_progress_adds_up(source, length, buffer_len, events, states, worlds, i - 1);
        law_copy_is_faithful(source, length, buffer_len, events, states, worlds, i - 1);
        assert(states[i - 1].awaits(events[i - 1]));
    }
}

/// After a failed read the device is opened anew at the first byte that has not been read, and
/// reading goes on from there with the full length before it.
pub proof fn law_copy_recovers(state: CopyState, message: Seq<char>)
    requires
        state.wf(),
        state.phase is Reading,
    ensures
        ({
            let (failed, told) = copy_step(state, CopyEvent::ReadFailed(message));
            let (again, next) = copy_step::<Seq<char>>(failed, CopyEvent::Reopened);
            &&& told.notice == Some(CopyError::Read(message))
            &&& told.action == CopyAction::<Seq<char>>::Reopen(state.position)
            &&& failed.awaits(CopyEvent::<Seq<char>>::Reopened)
            &&& next.action is Read
            &&& again.position == state.position
            &&& again.limit == state.length
            &&& again.wf()
        }),
{
}

/// Contracts see an event and a step as they are: the same kind, the same numbers, and each text as
/// it reads.
pub proof fn law_copy_is_seen_as_it_is(event: CopyEvent, step: CopyStep)
    ensures
        match event {
            CopyEvent::Read(n) => event@ == CopyEvent::<Seq<char>>::Read(n),
            CopyEvent::ReadInterrupted => event@ is ReadInterrupted,
            CopyEvent::ReadFailed(message) => event@ == CopyEvent::ReadFailed(message@),
            CopyEvent::Reopened => event@ is Reopened,
            CopyEvent::SeekFailed(message) => event@ == CopyEvent::SeekFailed(message@),
            CopyEvent::Written => event@ is Written,
            CopyEvent::WriteFailed(message) => event@ == CopyEvent::WriteFailed(message@),
        },
        step@.progress == step.progress,
        match step.notice {
            Some(CopyError::Read(message)) => step@.notice == Some(CopyError::Read(message@)),
            Some(CopyError::Write(message)) => step@.notice == Some(CopyError::Write(message@)),
            Some(CopyError::NoError) => step@.notice == Some(CopyError::<Seq<char>>::NoError),
            None => step@.notice is None,
        },
        match step.action {
            CopyAction::Read(n) => step@.action == CopyAction::<Seq<char>>::Read(n),
            CopyAction::Reopen(n) => step@.action == CopyAction::<Seq<char>>::Reopen(n),
            CopyAction::Write(n) => step@.action == CopyAction::<Seq<char>>::Write(n),
            CopyAction::Finish => step@.action is Finish,
            CopyAction::Fail(CopyError::Read(message)) => step@.action == CopyAction::Fail(
                CopyError::Read(message@),
            ),
            CopyAction::Fail(CopyError::Write(message)) => step@.action == CopyAction::Fail(
                CopyError::Write(message@),
            ),
            CopyAction::Fail(CopyError::NoError) => step@.action == CopyAction::Fail(
                CopyError::<Seq<char>>::NoError,
            ),
        },
{
}

} // verus!
