use crate::event::Keys;
use crate::scene::stage::{delivered, drawn, follows, initial, lemma_topmost, settled, silent, topmost, Call, Request, Stage};
use crate::traits::HasId;
use vstd::prelude::*;

pub mod stage;

verus! {

/// What a scene asks of its manager at the end of a tick.
pub enum SceneTransition<S> {
    /// Leave the stack as it is.
    Nothing,
    /// Put the given scene on top of the current one, which stays on the
    /// stack.
    Push(S),
    /// Remove the current scene and return to the one below it.
    Pop,
    /// Remove scenes until the topmost scene with the given identity is on
    /// top, for instance to get back to a parent menu.
    PopUntil(usize),
}

/// A unit of behaviour that occupies one slot of a scene stack. Only the
/// scene on top of the stack receives input, ticks and draw requests. All
/// scenes of one stack share a value of type `State` and draw into a
/// `Surface`. Every call leaves the identity of the scene as it is. What
/// else a scene promises of a call, in the `ensures` of its own functions,
/// the contracts of the manager hand on to the manager's callers.
pub trait Scene: HasId + Sized {
    /// The application state that the scenes of a stack share.
    type State;

    /// What a scene draws into.
    type Surface;

    /// Called each time this scene becomes the top of the stack.
    fn enter(&mut self, state: &mut Self::State)
        ensures
            final(self).id() == old(self).id(),
    {
    }

    /// Called each time this scene stops being the top of the stack, also
    /// right before it is dropped.
    fn leave(&mut self, state: &mut Self::State)
        ensures
            final(self).id() == old(self).id(),
    {
    }

    /// Called once per frame, before `tick`, with the key table of the frame.
    fn keypress(&mut self, state: &mut Self::State, keys: &Keys)
        ensures
            final(self).id() == old(self).id(),
    {
    }

    /// Called once per frame to draw into `surface`.
    fn display(&mut self, state: &mut Self::State, surface: &Self::Surface)
        ensures
            final(self).id() == old(self).id(),
    {
    }

    /// Called once per frame to advance the state by `dt` nanoseconds. The
    /// answer says what the manager is to do next. A scene that does not
    /// write its own `tick` changes nothing and asks to be popped.
    fn tick(&mut self, state: &mut Self::State, dt: u64) -> (next: SceneTransition<Self>)
        ensures
            final(self).id() == old(self).id(),
        default_ensures
            next is Pop,
            *final(self) == *old(self),
            *final(state) == *old(state),
    {
        SceneTransition::Pop
    }
}

/// Why a transition was refused. A refused transition changes nothing.
#[derive(Clone, Copy, Debug, PartialEq, Eq, Structural)]
pub enum SceneError {
    /// `PopUntil` met an empty stack.
    PopUntilEmpty,
    /// `PopUntil` met a stack of one scene, with nothing beneath the top to
    /// return to.
    PopUntilSingle,
    /// `PopUntil` named an identity that no scene on the stack has.
    PopUntilMissing(usize),
}

impl<S: Scene> SceneTransition<S> {
    /// The request that this transition makes.
    pub open spec fn request(self) -> Request {
        match self {
            SceneTransition::Nothing => Request::Nothing,
            SceneTransition::Push(scene) => Request::Push(scene.id()),
            SceneTransition::Pop => Request::Pop,
            SceneTransition::PopUntil(id) => Request::PopUntil(id),
        }
    }
}

/// The identities of `scenes`, in the same order.
pub open spec fn ids_of<S: Scene>(scenes: Seq<S>) -> Seq<usize> {
    scenes.map_values(|scene: S| scene.id())
}

/// Owns the scenes of an application and applies the transitions that they
/// ask for. Every manager follows the discipline that `step` lays down.
pub trait SceneManager {
    /// The scenes that this manager holds.
    type Scene: Scene;

    /// The scenes that this manager holds, the active one last.
    spec fn scenes(&self) -> Seq<Self::Scene>;

    /// The stage that this manager is in.
    spec fn stage(&self) -> Stage;

    /// The application state that the scenes share.
    spec fn state(&self) -> <Self::Scene as Scene>::State;

    /// The stage lists the identities of the scenes that the manager holds.
    proof fn lemma_stage_ids(&self)
        ensures
            self.stage().ids == ids_of(self.scenes()),
    ;

    /// The scenes, the active one last.
    fn get_scenes(&self) -> (scenes: &Vec<Self::Scene>)
        ensures
            scenes@ == self.scenes(),
    ;

    /// The scenes, the active one last, for the caller to change. The
    /// manager takes the stack as the caller leaves it and counts no call
    /// for what the caller does to it.
    fn get_scenes_mut(&mut self) -> (scenes: &mut Vec<Self::Scene>)
        ensures
            scenes@ == old(self).scenes(),
            final(self).scenes() == final(scenes)@,
            final(self).stage().ids == ids_of(final(scenes)@),
            final(self).stage().numbers == old(self).stage().numbers,
            final(self).stage().pushed == old(self).stage().pushed,
            final(self).stage().calls == old(self).stage().calls,
            final(self).state() == old(self).state(),
    ;

    /// Applies one transition. A refused transition makes no call and
    /// changes nothing.
    fn handle_transition(&mut self, trans: SceneTransition<Self::Scene>) -> (done: Result<
        (),
        SceneError,
    >)
        ensures
            follows(old(self).stage(), trans.request(), final(self).stage(), done),
    ;

    /// Delivers one frame to the active scene. Without a scene nothing
    /// happens. Otherwise the manager calls `keypress` on the top with the
    /// shared state and `keys`. Then it calls `tick` on what that made of
    /// the scene and the state, with `dt`. Then it follows the transition
    /// that `tick` returned. Where that transition is `Nothing`, the top and
    /// the shared state are as `tick` left them. Every scene beneath the
    /// top that the transition leaves untouched stays as it was.
    fn update(&mut self, dt: u64, keys: &Keys) -> (done: Result<(), SceneError>)
        ensures
            old(self).scenes().len() == 0 ==> done is Ok && final(self).stage() == old(self).stage(),
            old(self).scenes().len() == 0 ==> final(self).scenes() == old(self).scenes(),
            old(self).scenes().len() == 0 ==> final(self).state() == old(self).state(),
            old(self).scenes().len() > 0 ==> exists|
                top: &mut Self::Scene,
                shared: &mut <Self::Scene as Scene>::State,
                ticked: &mut Self::Scene,
                moved: &mut <Self::Scene as Scene>::State,
                next: SceneTransition<Self::Scene>,
            |
                {
                    &&& *top == old(self).scenes().last() && *shared == old(self).state()
                    &&& #[trigger] call_ensures(<Self::Scene as Scene>::keypress, (top, shared, keys), ())
                    &&& *ticked == *final(top) && *moved == *final(shared)
                    &&& #[trigger] call_ensures(<Self::Scene as Scene>::tick, (ticked, moved, dt), next)
                    &&& follows(delivered(old(self).stage()), next.request(), final(self).stage(), done)
                    &&& next is Nothing ==> final(self).scenes() == old(self).scenes().update(
                        old(self).scenes().len() - 1,
                        *final(ticked),
                    ) && final(self).state() == *final(moved)
                    &&& forall|i: int|
                        0 <= i < settled(old(self).stage(), next.request()) && i < old(self).scenes().len() - 1
                            ==> final(self).scenes()[i] == old(self).scenes()[i]
                },
    ;

    /// Has the active scene draw: the manager calls `display` on the top,
    /// with the shared state and `surface`, and on no other scene. Without a
    /// scene nothing happens.
    fn display(&mut self, surface: &<Self::Scene as Scene>::Surface)
        ensures
            final(self).stage() == drawn(old(self).stage()),
            final(self).scenes().len() == old(self).scenes().len(),
            final(self).scenes().drop_last() == old(self).scenes().drop_last(),
            old(self).scenes().len() == 0 ==> final(self).state() == old(self).state(),
            old(self).scenes().len() > 0 ==> exists|
                top: &mut Self::Scene,
                shared: &mut <Self::Scene as Scene>::State,
            |
                {
                    &&& *top == old(self).scenes().last() && *final(top) == final(self).scenes().last()
                    &&& *shared == old(self).state() && *final(shared) == final(self).state()
                    &&& #[trigger] call_ensures(<Self::Scene as Scene>::display, (top, shared, surface), ())
                },
    ;
}

/// A scene manager that keeps its scenes on a stack. The scene on top is the
/// active one.
pub struct StackSceneManager<S: Scene> {
    scenes: Vec<S>,
    state: S::State,
    numbers: Ghost<Seq<nat>>,
    pushed: Ghost<nat>,
    calls: Ghost<Seq<Call>>,
}

impl<S: Scene> View for StackSceneManager<S> {
    type V = Stage;

    closed spec fn view(&self) -> Stage {
        Stage {
            ids: ids_of(self.scenes@),
            numbers: self.numbers@,
            pushed: self.pushed@,
            calls: self.calls@,
        }
    }
}

impl<S: Scene> StackSceneManager<S> {
    /// Creates a manager with an empty stack that has made no call yet.
    pub fn new(state: S::State) -> (manager: StackSceneManager<S>)
        ensures
            manager@ == initial(),
            manager.scenes() == Seq::<S>::empty(),
            manager.state() == state,
    {
        let manager = StackSceneManager {
            scenes: Vec::new(),
            state,
            numbers: Ghost(Seq::empty()),
            pushed: Ghost(0),
            calls: Ghost(Seq::empty()),
        };
        assert(ids_of(manager.scenes@) =~= Seq::empty());
        manager
    }

    /// Creates a manager whose stack holds `scene`, on which `enter` has
    /// been called with `state`: the scene and the shared state are as that
    /// call left them.
    pub fn with_scene(state: S::State, scene: S) -> (manager: StackSceneManager<S>)
        ensures
            manager@ == (Stage {
                ids: seq![scene.id()],
                numbers: seq![0],
                pushed: 1,
                calls: seq![Call::Enter(0)],
            }),
            manager.scenes().len() == 1,
            exists|entered: &mut S, shared: &mut S::State|
                {
                    &&& *entered == scene && *final(entered) == manager.scenes()[0]
                    &&& *shared == state && *final(shared) == manager.state()
                    &&& #[trigger] call_ensures(S::enter, (entered, shared), ())
                },
    {
        let mut manager = StackSceneManager::new(state);
        let _ = manager.handle_transition(SceneTransition::Push(scene));
        assert(manager@.ids =~= seq![scene.id()]);
        manager
    }

    fn find_topmost(&self, id: usize) -> (found: Option<usize>)
        ensures
            match found {
                Some(position) => position == topmost(self@.ids, id),
                None => topmost(self@.ids, id) < 0,
            },
    {
        let ghost ids = ids_of(self.scenes@);
        let mut above: usize = self.scenes.len();
        assert(ids.take(above as int) =~= ids);
        while above > 0
            invariant
                above <= self.scenes@.len(),
                ids == ids_of(self.scenes@),
                topmost(ids, id) == topmost(ids.take(above as int), id),
            decreases above,
        {
            assert(ids.take(above as int).drop_last() =~= ids.take(above - 1));
            if self.scenes[above - 1].get_id() == id {
                return Some(above - 1);
            }
            above -= 1;
        }
        None
    }
}

impl<S: Scene> SceneManager for StackSceneManager<S> {
    type Scene = S;

    closed spec fn scenes(&self) -> Seq<S> {
        self.scenes@
    }

    open spec fn stage(&self) -> Stage {
        self@
    }

    closed spec fn state(&self) -> S::State {
        self.state
    }

    proof fn lemma_stage_ids(&self) {
    }

    fn get_scenes(&self) -> (scenes: &Vec<S>) {
        &self.scenes
    }

    fn get_scenes_mut(&mut self) -> (scenes: &mut Vec<S>) {
        &mut self.scenes
    }

    /// Applies one transition. The scenes beneath the lowest one that gets a
    /// call stay as they are, and so does the shared state where no call is
    /// made. Where calls are made, the scenes they are made on and the
    /// shared state end as the calls leave them:
    ///
    /// - `Push` on an empty stack: `enter` on the pushed scene.
    /// - `Push` on other stacks: `leave` on the top, then `enter` on the
    ///   pushed scene with the state as `leave` left it.
    /// - `Pop`: `leave` on the top, which is then dropped.
    /// - `PopUntil`: `leave` on the top, then `enter` on the target with the
    ///   state as `leave` left it. The scenes that are removed in between
    ///   get no call.
    fn handle_transition(&mut self, trans: SceneTransition<S>) -> (done: Result<(), SceneError>)
        ensures
            final(self).scenes().take(settled(old(self)@, trans.request())) == old(self).scenes().take(
                settled(old(self)@, trans.request()),
            ),
            silent(old(self)@, trans.request()) ==> final(self).state() == old(self).state(),
            final(self).scenes().len() == final(self)@.ids.len(),
            trans matches SceneTransition::Push(pushed) ==> old(self).scenes().len() == 0 ==> exists|
                scene: &mut S,
                shared: &mut S::State,
            |
                {
                    &&& *scene == pushed && *final(scene) == final(self).scenes().last()
                    &&& *shared == old(self).state() && *final(shared) == final(self).state()
                    &&& #[trigger] call_ensures(S::enter, (scene, shared), ())
                },
            trans matches SceneTransition::Push(pushed) ==> old(self).scenes().len() > 0 ==> exists|
                top: &mut S,
                shared: &mut S::State,
                scene: &mut S,
                moved: &mut S::State,
            |
                {
                    &&& *top == old(self).scenes().last()
                    &&& *final(top) == final(self).scenes()[old(self).scenes().len() - 1]
                    &&& *shared == old(self).state()
                    &&& #[trigger] call_ensures(S::leave, (top, shared), ())
                    &&& *scene == pushed && *final(scene) == final(self).scenes().last()
                    &&& *moved == *final(shared) && *final(moved) == final(self).state()
                    &&& #[trigger] call_ensures(S::enter, (scene, moved), ())
                },
            trans is Pop ==> old(self).scenes().len() > 0 ==> exists|top: &mut S, shared: &mut S::State|
                {
                    &&& *top == old(self).scenes().last()
                    &&& *shared == old(self).state() && *final(shared) == final(self).state()
                    &&& #[trigger] call_ensures(S::leave, (top, shared), ())
                },
            trans matches SceneTransition::PopUntil(id) ==> done is Ok ==> exists|
                top: &mut S,
                shared: &mut S::State,
                scene: &mut S,
                moved: &mut S::State,
            |
                {
                    &&& *top == old(self).scenes().last()
                    &&& *shared == old(self).state()
                    &&& #[trigger] call_ensures(S::leave, (top, shared), ())
                    &&& *scene == if topmost(old(self)@.ids, id) == old(self).scenes().len() - 1 {
                        *final(top)
                    } else {
                        old(self).scenes()[topmost(old(self)@.ids, id)]
                    }
                    &&& *final(scene) == final(self).scenes().last()
                    &&& *moved == *final(shared) && *final(moved) == final(self).state()
                    &&& #[trigger] call_ensures(S::enter, (scene, moved), ())
                },
    {
        let count = self.scenes.len();
        let ghost before = self.scenes@;
        match trans {
            SceneTransition::Nothing => Ok(()),
            SceneTransition::Push(scene) => {
                if count > 0 {
                    self.scenes[count - 1].leave(&mut self.state);
                    proof {
                        self.calls@ = self.calls@.push(Call::Leave(self.numbers@.last()));
                    }
                }
                self.scenes.push(scene);
                self.scenes[count].enter(&mut self.state);
                proof {
                    self.calls@ = self.calls@.push(Call::Enter(self.pushed@));
                    self.numbers@ = self.numbers@.push(self.pushed@);
                    self.pushed@ = self.pushed@ + 1;
                }
                assert(ids_of(self.scenes@) =~= ids_of(before).push(scene.id()));
                Ok(())
            },
            SceneTransition::Pop => {
                match self.scenes.pop() {
                    Some(mut scene) => {
                        scene.leave(&mut self.state);
                        proof {
                            self.calls@ = self.calls@.push(Call::Leave(self.numbers@.last()));
                            self.numbers@ = self.numbers@.drop_last();
                        }
                        assert(ids_of(self.scenes@) =~= ids_of(before).drop_last());
                    },
                    None => {},
                }
                Ok(())
            },
            SceneTransition::PopUntil(id) => {
                if count == 0 {
                    return Err(SceneError::PopUntilEmpty);
                }
                if count == 1 {
                    return Err(SceneError::PopUntilSingle);
                }
                match self.find_topmost(id) {
                    None => Err(SceneError::PopUntilMissing(id)),
                    Some(target) => {
                        proof {
                            lemma_topmost(ids_of(before), id);
                        }
                        self.scenes[count - 1].leave(&mut self.state);
                        proof {
                            self.calls@ = self.calls@.push(Call::Leave(self.numbers@.last()));
                        }
                        let ghost unfocused = *self;
                        let ghost reached = if target == count - 1 {
                            self.scenes@[target as int]
                        } else {
                            before[target as int]
                        };
                        let ghost was_left = exists|top: &mut S, shared: &mut S::State|
                            {
                                &&& *top == before[count - 1] && *final(top) == unfocused.scenes@[count - 1]
                                &&& *shared == old(self).state && *final(shared) == unfocused.state
                                &&& #[trigger] call_ensures(S::leave, (top, shared), ())
                            };
                        assert(was_left);
                        while self.scenes.len() > target + 1
                            invariant
                                target < self.scenes@.len() <= count,
                                count == before.len(),
                                self.numbers == unfocused.numbers,
                                self.pushed == unfocused.pushed,
                                self.calls == unfocused.calls,
                                self.state == unfocused.state,
                                self.scenes@[target as int] == reached,
                                ids_of(self.scenes@) == ids_of(before).take(self.scenes@.len() as int),
                                self.scenes@.take(target as int) == before.take(target as int),
                            decreases self.scenes@.len(),
                        {
                            self.scenes.pop();
                        }
                        self.scenes[target].enter(&mut self.state);
                        proof {
                            self.calls@ = self.calls@.push(Call::Enter(self.numbers@[target as int]));
                            self.numbers@ = self.numbers@.take(target + 1);
                        }
                        assert(ids_of(self.scenes@) =~= ids_of(before).take(target + 1));
                        Ok(())
                    },
                }
            },
        }
    }

    fn update(&mut self, dt: u64, keys: &Keys) -> (done: Result<(), SceneError>) {
        let count = self.scenes.len();
        if count == 0 {
            return Ok(());
        }
        let ghost before = self.scenes@;
        self.scenes[count - 1].keypress(&mut self.state, keys);
        proof {
            self.calls@ = self.calls@.push(Call::Keypress(self.numbers@.last()));
        }
        let trans = self.scenes[count - 1].tick(&mut self.state, dt);
        proof {
            self.calls@ = self.calls@.push(Call::Tick(self.numbers@.last()));
        }
        assert(ids_of(self.scenes@) =~= ids_of(before));
        let ghost ticked = self.scenes@;
        let ghost request = trans.request();
        let done = self.handle_transition(trans);
        proof {
            if trans is Nothing {
                assert(self@.ids.len() == self.scenes@.len());
                assert(self.scenes@.take(count as int) =~= self.scenes@);
                assert(ticked.take(count as int) =~= ticked);
            }
        }
        let ghost low = settled(old(self)@, request);
        proof {
            if let Request::PopUntil(id) = request {
                lemma_topmost(old(self)@.ids, id);
            }
        }
        assert(low <= self.scenes@.len()) by {
            assert(self@.ids.len() == self.scenes@.len());
        }
        assert forall|i: int| 0 <= i < low && i < count - 1 implies self.scenes()[i] == old(self).scenes()[i] by {
            assert(self.scenes@.take(low)[i] == ticked.take(low)[i]);
        }
        done
    }

    fn display(&mut self, surface: &S::Surface) {
        let count = self.scenes.len();
        if count > 0 {
            self.scenes[count - 1].display(&mut self.state, surface);
            proof {
                self.calls@ = self.calls@.push(Call::Display(self.numbers@.last()));
            }
            assert(ids_of(self.scenes@) =~= ids_of(old(self).scenes@));
        }
    }
}

} // verus!
