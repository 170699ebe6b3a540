use crate::key_table::{entries, table_get, table_insert, table_keys, table_new};
use vec_map::VecMap;
use vstd::prelude::*;

pub mod step;

verus! {

/// Identifies a physical key. The input backend chooses the numbers; the
/// library only uses them to tell keys apart.
#[derive(Clone, Copy, Debug, PartialEq, Eq, Structural)]
pub struct KeyCode(pub u16);

/// The raw edge that the input backend reports for a key.
#[derive(Clone, Copy, Debug, PartialEq, Eq, Structural)]
pub enum ElementState {
    /// The key went down.
    Pressed,
    /// The key went up.
    Released,
}

/// Where a key stands in its press and release cycle. Each variant carries
/// the timestamp of the transition that led to it; 0 stands for "never".
#[derive(Clone, Copy, Debug, PartialEq, Eq, Structural)]
pub enum KeyState {
    /// The key went down during this frame.
    Pressed(u64),
    /// The key is down and went down in an earlier frame.
    Held(u64),
    /// The key went up during this frame.
    Released(u64),
    /// The key is up and went up in an earlier frame, or was never touched.
    NotPressed(u64),
}

/// A raw key event that contradicts the state the key is in: a press of a
/// key that is already down in this frame, or a release of a key that is not
/// held.
#[derive(Clone, Copy, Debug, PartialEq, Eq, Structural)]
pub struct KeyError {
    /// The edge that arrived.
    pub edge: ElementState,
    /// The state the key was in when the edge arrived.
    pub current: KeyState,
}

/// The state a key is in according to `table`: what the table holds for it,
/// and `NotPressed(0)` for a key the table has never seen.
pub open spec fn status_in(table: Map<KeyCode, KeyState>, key: KeyCode) -> KeyState {
    if table.contains_key(key) {
        table[key]
    } else {
        KeyState::NotPressed(0)
    }
}

/// Whether a key in state `state` is down.
pub open spec fn is_down(state: KeyState) -> bool {
    state is Pressed || state is Held
}

/// The state that follows `current` when the backend reports `edge` at
/// `time`, or `None` where no key in state `current` can produce that edge.
pub open spec fn reduce(current: KeyState, edge: ElementState, time: u64) -> Option<KeyState> {
    match (edge, current) {
        (ElementState::Pressed, KeyState::NotPressed(_)) => Some(KeyState::Pressed(time)),
        (ElementState::Released, KeyState::Held(_)) => Some(KeyState::Released(time)),
        (ElementState::Pressed, KeyState::Held(since)) => Some(KeyState::Held(since)),
        _ => None,
    }
}

/// The state that follows `state` when a new frame starts at `time`: the
/// two edge states decay to their steady states, which stay as they are.
pub open spec fn advance(state: KeyState, time: u64) -> KeyState {
    match state {
        KeyState::Pressed(_) => KeyState::Held(time),
        KeyState::Released(_) => KeyState::NotPressed(time),
        KeyState::Held(since) => KeyState::Held(since),
        KeyState::NotPressed(since) => KeyState::NotPressed(since),
    }
}

/// The table that a new frame starting at `time` makes of `table`.
pub open spec fn advance_all(table: Map<KeyCode, KeyState>, time: u64) -> Map<KeyCode, KeyState> {
    table.map_values(|state: KeyState| advance(state, time))
}

/// The table that one raw event makes of `table`, or `None` where the event
/// contradicts the state of its key.
pub open spec fn apply_event(
    table: Map<KeyCode, KeyState>,
    key: KeyCode,
    edge: ElementState,
    time: u64,
) -> Option<Map<KeyCode, KeyState>> {
    match reduce(status_in(table, key), edge, time) {
        Some(next) => Some(table.insert(key, next)),
        None => None,
    }
}

/// Computes `reduce`.
pub fn next_state(current: KeyState, edge: ElementState, time: u64) -> (next: Option<KeyState>)
    ensures
        next == reduce(current, edge, time),
{
    match (edge, current) {
        (ElementState::Pressed, KeyState::NotPressed(_)) => Some(KeyState::Pressed(time)),
        (ElementState::Released, KeyState::Held(_)) => Some(KeyState::Released(time)),
        (ElementState::Pressed, KeyState::Held(since)) => Some(KeyState::Held(since)),
        _ => None,
    }
}

/// Computes `advance`.
pub fn next_frame_state(state: KeyState, time: u64) -> (next: KeyState)
    ensures
        next == advance(state, time),
{
    match state {
        KeyState::Pressed(_) => KeyState::Held(time),
        KeyState::Released(_) => KeyState::NotPressed(time),
        KeyState::Held(since) => KeyState::Held(since),
        KeyState::NotPressed(since) => KeyState::NotPressed(since),
    }
}

/// The states of all keys that have been observed so far. A key enters the
/// table with its first accepted event and stays; every other key reads as
/// `NotPressed(0)`.
pub struct Keys {
    keys: VecMap<KeyState>,
}

impl View for Keys {
    type V = Map<KeyCode, KeyState>;

    closed spec fn view(&self) -> Map<KeyCode, KeyState> {
        Map::new(
            |key: KeyCode| entries(self.keys).contains_key(key.0 as usize),
            |key: KeyCode| entries(self.keys)[key.0 as usize],
        )
    }
}

impl Keys {
    /// Creates a table that has observed no key.
    pub fn new() -> (keys: Keys)
        ensures
            keys@ == Map::<KeyCode, KeyState>::empty(),
    {
        Keys { keys: table_new() }
    }

    /// The state of `key`.
    pub fn status(&self, key: KeyCode) -> (state: KeyState)
        ensures
            state == status_in(self@, key),
    {
        match table_get(&self.keys, key.0 as usize) {
            Some(state) => state,
            None => KeyState::NotPressed(0),
        }
    }

    /// Whether `key` is down, be it since this frame or an earlier one.
    pub fn held(&self, key: KeyCode) -> (down: bool)
        ensures
            down == is_down(status_in(self@, key)),
    {
        match self.status(key) {
            KeyState::Pressed(_) | KeyState::Held(_) => true,
            KeyState::Released(_) | KeyState::NotPressed(_) => false,
        }
    }

    /// Whether `key` went down during this frame.
    pub fn pressed(&self, key: KeyCode) -> (edge: bool)
        ensures
            edge == (status_in(self@, key) is Pressed),
    {
        match self.status(key) {
            KeyState::Pressed(_) => true,
            KeyState::Released(_) | KeyState::NotPressed(_) | KeyState::Held(_) => false,
        }
    }

    /// The complement of `pressed`; it is true of a key that is held since an
    /// earlier frame.
    pub fn not_pressed(&self, key: KeyCode) -> (none: bool)
        ensures
            none == !(status_in(self@, key) is Pressed),
    {
        !self.pressed(key)
    }

    /// Takes in one raw event for `key`. Events are applied in the order in
    /// which they arrive, after the frame's `update`. An event that
    /// contradicts the state of its key is refused and leaves the table as it
    /// was.
    pub fn update_key(&mut self, key: KeyCode, state: ElementState, time: u64) -> (done: Result<(), KeyError>)
        ensures
            match apply_event(old(self)@, key, state, time) {
                Some(table) => done is Ok && final(self)@ == table,
                None => {
                    &&& done matches Err(error)
                    &&& error.edge == state && error.current == status_in(old(self)@, key)
                    &&& final(self)@ == old(self)@
                },
            },
    {
        let current = self.status(key);
        match next_state(current, state, time) {
            Some(next) => {
                table_insert(&mut self.keys, key.0 as usize, next);
                Ok(())
            },
            None => Err(KeyError { edge: state, current }),
        }
    }

    /// Starts a new frame at `time`: every key that is in an edge state
    /// moves on to its steady state. It runs once per frame, before the
    /// frame's raw events are taken in.
    pub fn update(&mut self, time: u64)
        ensures
            final(self)@ == advance_all(old(self)@, time),
    {
        let stored = table_keys(&self.keys);
        let ghost before = entries(self.keys);
        let mut i: usize = 0;
        while i < stored.len()
            invariant
                i <= stored@.len(),
                forall|a: int, b: int| 0 <= a < b < stored@.len() ==> stored@[a] < stored@[b],
                forall|k: usize| stored@.contains(k) <==> before.contains_key(k),
                entries(self.keys).dom() == before.dom(),
                forall|a: int|
                    0 <= a < i ==> entries(self.keys)[#[trigger] stored@[a]] == advance(
                        before[stored@[a]],
                        time,
                    ),
                forall|a: int|
                    i <= a < stored@.len() ==> entries(self.keys)[#[trigger] stored@[a]]
                        == before[stored@[a]],
            decreases stored@.len() - i,
        {
            let index = stored[i];
            match table_get(&self.keys, index) {
                Some(state) => {
                    table_insert(&mut self.keys, index, next_frame_state(state, time));
                },
                None => {},
            }
            i += 1;
        }
    }
}

/// What taking in the raw events `events` at `time`, one after the other,
/// makes of `table`, or `None` where one of them is refused.
pub open spec fn apply_events(
    table: Map<KeyCode, KeyState>,
    events: Seq<(KeyCode, ElementState)>,
    time: u64,
) -> Option<Map<KeyCode, KeyState>>
    decreases events.len(),
{
    if events.len() == 0 {
        Some(table)
    } else {
        match apply_event(table, events.first().0, events.first().1, time) {
            Some(next) => apply_events(next, events.drop_first(), time),
            None => None,
        }
    }
}

/// What one frame makes of `table`: the frame starts at `time` and then
/// takes in `events`.
pub open spec fn frame(
    table: Map<KeyCode, KeyState>,
    time: u64,
    events: Seq<(KeyCode, ElementState)>,
) -> Option<Map<KeyCode, KeyState>> {
    apply_events(advance_all(table, time), events, time)
}

/// Whether `events` holds the event `edge` for `key`.
pub open spec fn names(events: Seq<(KeyCode, ElementState)>, key: KeyCode, edge: ElementState) -> bool {
    exists|i: int| 0 <= i < events.len() && #[trigger] events[i] == (key, edge)
}

/// What the events of one frame can do to a key. A key in an edge state
/// stays in it, a held key stays held or is released, and an idle key stays
/// idle or is pressed. A key that no event names stays as it is, and does
/// not appear in the table if it was not there.
pub proof fn lemma_within_frame(
    table: Map<KeyCode, KeyState>,
    events: Seq<(KeyCode, ElementState)>,
    time: u64,
    key: KeyCode,
)
    requires
        apply_events(table, events, time) is Some,
    ensures
        ({
            let before = status_in(table, key);
            let after = status_in(apply_events(table, events, time).unwrap(), key);
            let end = apply_events(table, events, time).unwrap();
            &&& before is Pressed || before is Released ==> after == before
            &&& before is Held ==> after == before || after == KeyState::Released(time)
            &&& before is NotPressed ==> after == before || after == KeyState::Pressed(time)
            &&& after is Released && before is Held ==> names(events, key, ElementState::Released)
            &&& after is Pressed && before is NotPressed ==> names(events, key, ElementState::Pressed)
            &&& !names(events, key, ElementState::Pressed) && !names(events, key, ElementState::Released)
                ==> after == before && (end.contains_key(key) <==> table.contains_key(key))
        }),
    decreases events.len(),
{
    if events.len() > 0 {
        let first = events.first();
        let rest = events.drop_first();
        let next = apply_event(table, first.0, first.1, time).unwrap();
        lemma_within_frame(next, rest, time, key);
    }
}

/// A press shows as `Pressed` for exactly one frame. When a key that is up
/// is pressed, it reads as `Pressed` from then to the end of the frame,
/// whatever other events the frame takes in. In the frame that follows it
/// does not read as `Pressed`, and it reads as down unless that frame
/// releases it.
pub proof fn lemma_press_lasts_one_frame(
    table: Map<KeyCode, KeyState>,
    key: KeyCode,
    time: u64,
    rest: Seq<(KeyCode, ElementState)>,
    next_time: u64,
    next_events: Seq<(KeyCode, ElementState)>,
)
    requires
        status_in(table, key) is NotPressed,
        apply_events(apply_event(table, key, ElementState::Pressed, time).unwrap(), rest, time) is Some,
        frame(
            apply_events(apply_event(table, key, ElementState::Pressed, time).unwrap(), rest, time).unwrap(),
            next_time,
            next_events,
        ) is Some,
    ensures
        ({
            let pressed = apply_event(table, key, ElementState::Pressed, time).unwrap();
            let end = apply_events(pressed, rest, time).unwrap();
            let next = frame(end, next_time, next_events).unwrap();
            &&& status_in(pressed, key) == KeyState::Pressed(time)
            &&& status_in(end, key) == KeyState::Pressed(time)
            &&& !(status_in(next, key) is Pressed)
            &&& !names(next_events, key, ElementState::Released) ==> status_in(next, key) == KeyState::Held(
                next_time,
            )
        }),
{
    let pressed = apply_event(table, key, ElementState::Pressed, time).unwrap();
    let end = apply_events(pressed, rest, time).unwrap();
    lemma_within_frame(pressed, rest, time, key);
    lemma_within_frame(advance_all(end, next_time), next_events, next_time, key);
}

/// A release shows as `Released` for exactly one frame. When a held key is
/// released, it reads as `Released` from then to the end of the frame. In
/// the frame that follows it does not read as `Released`, and it reads as
/// `NotPressed` unless that frame presses it again.
pub proof fn lemma_release_lasts_one_frame(
    table: Map<KeyCode, KeyState>,
    key: KeyCode,
    time: u64,
    rest: Seq<(KeyCode, ElementState)>,
    next_time: u64,
    next_events: Seq<(KeyCode, ElementState)>,
)
    requires
        status_in(table, key) is Held,
        apply_events(apply_event(table, key, ElementState::Released, time).unwrap(), rest, time) is Some,
        frame(
            apply_events(apply_event(table, key, ElementState::Released, time).unwrap(), rest, time).unwrap(),
            next_time,
            next_events,
        ) is Some,
    ensures
        ({
            let released = apply_event(table, key, ElementState::Released, time).unwrap();
            let end = apply_events(released, rest, time).unwrap();
            let next = frame(end, next_time, next_events).unwrap();
            &&& status_in(released, key) == KeyState::Released(time)
            &&& status_in(end, key) == KeyState::Released(time)
            &&& !(status_in(next, key) is Released)
            &&& !is_down(status_in(next, key)) || status_in(next, key) == KeyState::Pressed(next_time)
            &&& !names(next_events, key, ElementState::Pressed) ==> status_in(next, key)
                == KeyState::NotPressed(next_time)
        }),
{
    let released = apply_event(table, key, ElementState::Released, time).unwrap();
    let end = apply_events(released, rest, time).unwrap();
    lemma_within_frame(released, rest, time, key);
    lemma_within_frame(advance_all(end, next_time), next_events, next_time, key);
}

/// A steady state lasts until an event ends it: a frame that does not name
/// a key that is held or idle leaves the key as it is.
pub proof fn lemma_steady_state_stays(
    table: Map<KeyCode, KeyState>,
    key: KeyCode,
    time: u64,
    events: Seq<(KeyCode, ElementState)>,
)
    requires
        status_in(table, key) is Held || status_in(table, key) is NotPressed,
        !names(events, key, ElementState::Pressed),
        !names(events, key, ElementState::Released),
        frame(table, time, events) is Some,
    ensures
        status_in(frame(table, time, events).unwrap(), key) == status_in(table, key),
{
    lemma_within_frame(advance_all(table, time), events, time, key);
}

/// A key that has not been observed reads as `NotPressed(0)`, and a frame
/// that does not name it leaves it unobserved.
pub proof fn lemma_unobserved_key(
    table: Map<KeyCode, KeyState>,
    key: KeyCode,
    time: u64,
    events: Seq<(KeyCode, ElementState)>,
)
    requires
        !table.contains_key(key),
        !names(events, key, ElementState::Pressed),
        !names(events, key, ElementState::Released),
        frame(table, time, events) is Some,
    ensures
        status_in(table, key) == KeyState::NotPressed(0),
        !frame(table, time, events).unwrap().contains_key(key),
        status_in(frame(table, time, events).unwrap(), key) == KeyState::NotPressed(0),
{
    lemma_within_frame(advance_all(table, time), events, time, key);
}

/// Signals whether the frame loop goes on or ends.
#[derive(Clone, Copy, Debug, PartialEq, Eq, Structural)]
pub enum StepResult {
    /// Run another frame.
    Continue,
    /// Leave the loop.
    Stop,
}

} // verus!
