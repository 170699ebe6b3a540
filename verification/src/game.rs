use crate::clock::precise_time_ns;
use crate::event::{advance_all, apply_event, status_in};
use crate::event::{ElementState, KeyCode, KeyError, KeyState, Keys, StepResult};
use crate::scene::{Scene, SceneError, SceneManager};
use vstd::prelude::*;

verus! {

/// What the window reports between two frames, as far as the game cares.
#[derive(Clone, Copy, Debug, PartialEq, Eq, Structural)]
pub enum Event {
    /// The window was closed.
    Closed,
    /// A key went down or up.
    KeyboardInput(ElementState, KeyCode),
}

/// Why a frame was given up.
#[derive(Clone, Copy, Debug, PartialEq, Eq, Structural)]
pub enum GameError {
    /// A raw key event contradicted the state of its key.
    Key(KeyError),
    /// The scene manager refused a transition.
    Scene(SceneError),
}

/// How the events of one frame were taken in.
pub enum Intake {
    /// All events were taken in.
    Drained,
    /// The window was closed; the events after that were dropped.
    Closed,
    /// A key event was refused; the events after it were dropped.
    Refused(KeyError),
}

/// What taking in `events` at `time`, one after the other, makes of `table`,
/// and how it ends.
pub open spec fn take_in(table: Map<KeyCode, KeyState>, events: Seq<Event>, time: u64) -> (
    Map<KeyCode, KeyState>,
    Intake,
)
    decreases events.len(),
{
    if events.len() == 0 {
        (table, Intake::Drained)
    } else {
        match events.first() {
            Event::Closed => (table, Intake::Closed),
            Event::KeyboardInput(edge, key) => match apply_event(table, key, edge, time) {
                Some(next) => take_in(next, events.drop_first(), time),
                None => (table, Intake::Refused(KeyError { edge, current: status_in(table, key) })),
            },
        }
    }
}

/// A game: a scene manager, the key table that its scenes read, and the
/// clock readings of the run.
pub struct Game<M: SceneManager> {
    scene_mgr: M,
    keys: Keys,
    time_started: u64,
    time_now: u64,
}

impl<M: SceneManager> Game<M> {
    /// The scene manager.
    pub closed spec fn manager(&self) -> M {
        self.scene_mgr
    }

    /// The key table.
    pub closed spec fn table(&self) -> Map<KeyCode, KeyState> {
        self.keys@
    }

    /// The clock reading at which the run started, 0 before it has.
    pub closed spec fn started(&self) -> u64 {
        self.time_started
    }

    /// The clock reading of the latest frame, 0 before the first.
    pub closed spec fn now(&self) -> u64 {
        self.time_now
    }

    /// Whether taking in `events` in a frame at the clock reading `now` may
    /// turn this game into `end` and the frame finish with `done`.
    ///
    /// The key table is what taking in `events` in a new frame makes of it.
    /// After a closed window the answer is `Stop`, after a refused key event
    /// it is the error of that event; in both cases the manager is as
    /// before. Where all events are taken in, the manager gets the frame.
    pub open spec fn intake_gives(
        self,
        now: u64,
        events: Seq<Event>,
        end: Game<M>,
        done: Result<StepResult, GameError>,
    ) -> bool {
        &&& end.started() == self.started()
        &&& end.table() == take_in(advance_all(self.table(), now), events, now).0
        &&& match take_in(advance_all(self.table(), now), events, now).1 {
            Intake::Closed => {
                &&& done matches Ok(StepResult::Stop)
                &&& end.manager() == self.manager()
            },
            Intake::Refused(error) => {
                &&& done matches Err(GameError::Key(e)) && e == error
                &&& end.manager() == self.manager()
            },
            Intake::Drained => true,
        }
    }

    /// Creates a game around `mgr` that has seen no key and no frame.
    pub fn new(mgr: M) -> (game: Game<M>)
        ensures
            game.manager() == mgr,
            game.table() == Map::<KeyCode, KeyState>::empty(),
            game.started() == 0,
            game.now() == 0,
    {
        Game { scene_mgr: mgr, keys: Keys::new(), time_started: 0, time_now: 0 }
    }

    /// The scene manager.
    pub fn scene_mgr(&self) -> (mgr: &M)
        ensures
            *mgr == self.manager(),
    {
        &self.scene_mgr
    }

    /// The key table.
    pub fn keys(&self) -> (keys: &Keys)
        ensures
            keys@ == self.table(),
    {
        &self.keys
    }

    /// Runs one frame at the clock reading `now`, `dt` nanoseconds after the
    /// last one.
    ///
    /// The key table starts its new frame and takes in `events` in order. A
    /// closed window ends the frame at once with `Stop`, and a refused key
    /// event with its error; in both cases the scenes get nothing. Otherwise
    /// the game calls `update` on the manager, with `dt` and the key table
    /// as it now is. If the manager refuses the transition the frame ends
    /// with that error. If no scene is left the frame ends with `Stop`. Else
    /// the game calls `display` on the manager, with `surface`, and the
    /// answer is `Continue`.
    pub fn frame_at(
        &mut self,
        now: u64,
        dt: u64,
        events: &Vec<Event>,
        surface: &<M::Scene as Scene>::Surface,
    ) -> (done: Result<StepResult, GameError>)
        ensures
            final(self).now() == now,
            old(self).intake_gives(now, events@, *final(self), done),
            take_in(advance_all(old(self).table(), now), events@, now).1 is Drained ==> exists|
                mgr: &mut M,
                keys: Keys,
                answer: Result<(), SceneError>,
            |
                {
                    &&& *mgr == old(self).manager() && keys@ == final(self).table()
                    &&& #[trigger] call_ensures(M::update, (mgr, dt, &keys), answer)
                    &&& match answer {
                        Err(error) => {
                            &&& done matches Err(GameError::Scene(e)) && e == error
                            &&& final(self).manager() == *final(mgr)
                        },
                        Ok(_) => if final(mgr).scenes().len() == 0 {
                            &&& done matches Ok(StepResult::Stop)
                            &&& final(self).manager() == *final(mgr)
                        } else {
                            &&& done matches Ok(StepResult::Continue)
                            &&& exists|shown: &mut M|
                                {
                                    &&& *shown == *final(mgr) && *final(shown) == final(self).manager()
                                    &&& #[trigger] call_ensures(M::display, (shown, surface), ())
                                }
                        },
                    }
                },
    {
        self.time_now = now;
        self.keys.update(now);
        let ghost start = self.keys@;
        let mut i: usize = 0;
        assert(events@.skip(0) =~= events@);
        while i < events.len()
            invariant
                i <= events@.len(),
                start == advance_all(old(self).keys@, now),
                take_in(start, events@, now) == take_in(self.keys@, events@.skip(i as int), now),
                self.scene_mgr == old(self).scene_mgr,
                self.time_started == old(self).time_started,
                self.time_now == now,
            decreases events@.len() - i,
        {
            assert(events@.skip(i as int).drop_first() =~= events@.skip(i + 1));
            match events[i] {
                Event::Closed => {
                    return Ok(StepResult::Stop);
                },
                Event::KeyboardInput(edge, key) => {
                    match self.keys.update_key(key, edge, now) {
                        Ok(()) => {},
                        Err(error) => {
                            return Err(GameError::Key(error));
                        },
                    }
                },
            }
            i += 1;
        }
        let answer = self.scene_mgr.update(dt, &self.keys);
        let done = match answer {
            Err(error) => Err(GameError::Scene(error)),
            Ok(()) => {
                if self.scene_mgr.get_scenes().len() == 0 {
                    Ok(StepResult::Stop)
                } else {
                    self.scene_mgr.display(surface);
                    Ok(StepResult::Continue)
                }
            },
        };
        done
    }

    /// Marks the start of the run with a reading of the clock: `start_at`
    /// with that reading, whatever it is.
    pub fn start(&mut self)
        ensures
            final(self).manager() == old(self).manager(),
            final(self).table() == old(self).table(),
            final(self).now() == old(self).now(),
    {
        self.start_at(precise_time_ns());
    }

    /// Marks the start of the run with the clock reading `now`.
    pub fn start_at(&mut self, now: u64)
        ensures
            final(self).started() == now,
            final(self).manager() == old(self).manager(),
            final(self).table() == old(self).table(),
            final(self).now() == old(self).now(),
    {
        self.time_started = now;
    }

    /// The clock reading at which the run started, 0 before it has.
    pub fn time_started(&self) -> (started: u64)
        ensures
            started == self.started(),
    {
        self.time_started
    }

    /// Runs one frame at the current reading of the clock: `frame_at` with
    /// that reading, whatever it is.
    pub fn frame(&mut self, dt: u64, events: &Vec<Event>, surface: &<M::Scene as Scene>::Surface) -> (done:
        Result<StepResult, GameError>)
        ensures
            old(self).intake_gives(final(self).now(), events@, *final(self), done),
            take_in(advance_all(old(self).table(), final(self).now()), events@, final(self).now()).1 is Drained ==> exists|
                mgr: &mut M,
                keys: Keys,
                answer: Result<(), SceneError>,
            |
                {
                    &&& *mgr == old(self).manager() && keys@ == final(self).table()
                    &&& #[trigger] call_ensures(M::update, (mgr, dt, &keys), answer)
                    &&& match answer {
                        Err(error) => {
                            &&& done matches Err(GameError::Scene(e)) && e == error
                            &&& final(self).manager() == *final(mgr)
                        },
                        Ok(_) => if final(mgr).scenes().len() == 0 {
                            &&& done matches Ok(StepResult::Stop)
                            &&& final(self).manager() == *final(mgr)
                        } else {
                            &&& done matches Ok(StepResult::Continue)
                            &&& exists|shown: &mut M|
                                {
                                    &&& *shown == *final(mgr) && *final(shown) == final(self).manager()
                                    &&& #[trigger] call_ensures(M::display, (shown, surface), ())
                                }
                        },
                    }
                },
    {
        let now = precise_time_ns();
        self.frame_at(now, dt, events, surface)
    }
}

} // verus!
