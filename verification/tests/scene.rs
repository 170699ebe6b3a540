use gg::event::Keys;
use gg::scene::{Scene, SceneError, SceneManager, SceneTransition, StackSceneManager};
use gg::traits::HasId;
use std::cell::RefCell;
use std::rc::Rc;

const DT: u64 = 16_666_667;

struct TestData {
    has_been_modified: usize,
    has_entered: usize,
    has_left: usize,
    log: Vec<(&'static str, usize)>,
}

type State = Rc<RefCell<TestData>>;

fn create_state() -> State {
    Rc::new(RefCell::new(TestData { has_been_modified: 0, has_entered: 0, has_left: 0, log: Vec::new() }))
}

struct FakeSurface {
    cleared: RefCell<usize>,
}

/// A scene that pops itself on its second tick.
struct OneShot;

impl HasId for OneShot {
    fn id(&self) -> usize {
        0
    }

    fn get_id(&self) -> usize {
        0
    }
}

impl Scene for OneShot {
    type State = State;
    type Surface = FakeSurface;

    fn enter(&mut self, data: &mut State) {
        data.borrow_mut().has_entered += 1;
    }

    fn leave(&mut self, data: &mut State) {
        data.borrow_mut().has_left += 1;
    }

    fn tick(&mut self, data: &mut State, _dt: u64) -> SceneTransition<Self> {
        if data.borrow().has_been_modified > 0 {
            return SceneTransition::Pop;
        }
        data.borrow_mut().has_been_modified = 1;
        SceneTransition::Nothing
    }
}

#[test]
fn enter_leave_scene_manager() {
    let mut state = create_state();
    let mut mgr = StackSceneManager::new(state.clone());

    mgr.handle_transition(SceneTransition::Push(OneShot)).unwrap();

    assert_eq!(mgr.get_scenes().len(), 1);

    let answer = mgr.get_scenes_mut().last_mut().unwrap().tick(&mut state, DT);
    mgr.handle_transition(answer).unwrap();

    assert_eq!(state.borrow().has_been_modified, 1);

    let answer = mgr.get_scenes_mut().last_mut().unwrap().tick(&mut state, DT);
    mgr.handle_transition(answer).unwrap();

    assert_eq!(mgr.get_scenes().len(), 0);
    assert_eq!(state.borrow().has_entered, 1);
    assert_eq!(state.borrow().has_left, 1);
}

/// A scene that only draws.
struct Painter;

impl HasId for Painter {
    fn id(&self) -> usize {
        0
    }

    fn get_id(&self) -> usize {
        0
    }
}

impl Scene for Painter {
    type State = State;
    type Surface = FakeSurface;

    fn display(&mut self, data: &mut Self::State, display: &FakeSurface) {
        *display.cleared.borrow_mut() += 1;
        data.borrow_mut().has_been_modified = 1;
    }
}

#[test]
fn fake_display() {
    let mut state = create_state();
    let display = FakeSurface { cleared: RefCell::new(0) };

    let mut scene = Painter;

    scene.display(&mut state, &display);

    assert_eq!(state.borrow().has_been_modified, 1);
}

/// The three screens of a small menu tree, and scenes with free identities
/// for the other tests.
enum Menu {
    Main,
    Sub,
    SubSub,
    Plain(usize),
}

impl Menu {
    fn number(&self) -> usize {
        match self {
            Menu::Main => 0,
            Menu::Sub => 1,
            Menu::SubSub => 2,
            Menu::Plain(id) => *id,
        }
    }
}

impl HasId for Menu {
    fn id(&self) -> usize {
        self.number()
    }

    fn get_id(&self) -> usize {
        self.number()
    }
}

impl Scene for Menu {
    type State = State;
    type Surface = FakeSurface;

    fn enter(&mut self, data: &mut State) {
        let mut data = data.borrow_mut();
        data.has_entered += 1;
        data.log.push(("enter", self.number()));
    }

    fn leave(&mut self, data: &mut State) {
        let mut data = data.borrow_mut();
        data.has_left += 1;
        data.log.push(("leave", self.number()));
    }

    fn keypress(&mut self, data: &mut State, _keys: &Keys) {
        data.borrow_mut().log.push(("keypress", self.number()));
    }

    fn display(&mut self, data: &mut State, surface: &FakeSurface) {
        *surface.cleared.borrow_mut() += 1;
        data.borrow_mut().log.push(("display", self.number()));
    }

    fn tick(&mut self, data: &mut State, _dt: u64) -> SceneTransition<Self> {
        data.borrow_mut().log.push(("tick", self.number()));
        match self {
            Menu::Main => SceneTransition::Push(Menu::Sub),
            Menu::Sub => SceneTransition::Push(Menu::SubSub),
            Menu::SubSub => SceneTransition::PopUntil(0),
            Menu::Plain(_) => SceneTransition::Nothing,
        }
    }
}

fn ids(mgr: &StackSceneManager<Menu>) -> Vec<usize> {
    mgr.get_scenes().iter().map(|scene| scene.get_id()).collect()
}

fn stack_of(state: &State, scenes: &[usize]) -> StackSceneManager<Menu> {
    let mut mgr = StackSceneManager::new(state.clone());
    for id in scenes {
        mgr.handle_transition(SceneTransition::Push(Menu::Plain(*id))).unwrap();
    }
    state.borrow_mut().log.clear();
    mgr
}

#[test]
fn popuntil_manager() {
    let mut state = create_state();
    let mut mgr = StackSceneManager::new(state.clone());

    mgr.handle_transition(SceneTransition::Push(Menu::Main)).unwrap();

    let answer = mgr.get_scenes_mut().last_mut().unwrap().tick(&mut state, DT);
    mgr.handle_transition(answer).unwrap();

    assert_eq!(mgr.get_scenes().len(), 2);

    let answer = mgr.get_scenes_mut().last_mut().unwrap().tick(&mut state, DT);
    mgr.handle_transition(answer).unwrap();

    assert_eq!(mgr.get_scenes().len(), 3);

    let answer = mgr.get_scenes_mut().last_mut().unwrap().tick(&mut state, DT);
    mgr.handle_transition(answer).unwrap();

    assert_eq!(mgr.get_scenes().len(), 1);

    // Main -> Sub -> SubSub -> Main
    assert_eq!(state.borrow().has_entered, 4);

    // Main -> Sub -> SubSub
    assert_eq!(state.borrow().has_left, 3);

    assert_eq!(ids(&mgr), vec![0]);
}

#[test]
fn nothing_changes_nothing() {
    let state = create_state();
    let mut mgr = stack_of(&state, &[4, 5]);
    assert_eq!(mgr.handle_transition(SceneTransition::Nothing), Ok(()));
    assert_eq!(ids(&mgr), vec![4, 5]);
    assert!(state.borrow().log.is_empty());
}

#[test]
fn push_leaves_old_top_then_enters_new() {
    let state = create_state();
    let mut mgr = stack_of(&state, &[4]);
    assert_eq!(mgr.handle_transition(SceneTransition::Push(Menu::Plain(9))), Ok(()));
    assert_eq!(ids(&mgr), vec![4, 9]);
    assert_eq!(state.borrow().log, vec![("leave", 4), ("enter", 9)]);
}

#[test]
fn push_on_empty_stack_only_enters() {
    let state = create_state();
    let mut mgr = stack_of(&state, &[]);
    assert_eq!(mgr.handle_transition(SceneTransition::Push(Menu::Plain(9))), Ok(()));
    assert_eq!(ids(&mgr), vec![9]);
    assert_eq!(state.borrow().log, vec![("enter", 9)]);
}

#[test]
fn with_scene_enters_the_scene() {
    let state = create_state();
    let mgr = StackSceneManager::with_scene(state.clone(), Menu::Plain(3));
    assert_eq!(ids(&mgr), vec![3]);
    assert_eq!(state.borrow().log, vec![("enter", 3)]);
}

#[test]
fn pop_leaves_the_top_and_does_not_enter_the_one_below() {
    let state = create_state();
    let mut mgr = stack_of(&state, &[4, 5, 6]);
    assert_eq!(mgr.handle_transition(SceneTransition::Pop), Ok(()));
    assert_eq!(ids(&mgr), vec![4, 5]);
    assert_eq!(state.borrow().log, vec![("leave", 6)]);
}

#[test]
fn pop_on_empty_stack_is_tolerated() {
    let state = create_state();
    let mut mgr = stack_of(&state, &[]);
    assert_eq!(mgr.handle_transition(SceneTransition::Pop), Ok(()));
    assert_eq!(mgr.get_scenes().len(), 0);
    assert!(state.borrow().log.is_empty());
}

#[test]
fn pop_until_removes_the_scenes_above_the_target() {
    let state = create_state();
    let mut mgr = stack_of(&state, &[1, 2, 3, 4, 5]);
    assert_eq!(mgr.handle_transition(SceneTransition::PopUntil(2)), Ok(()));
    assert_eq!(ids(&mgr), vec![1, 2]);
    assert_eq!(state.borrow().log, vec![("leave", 5), ("enter", 2)]);
}

#[test]
fn pop_until_stops_at_the_topmost_match() {
    let state = create_state();
    let mut mgr = stack_of(&state, &[7, 1, 7, 2, 3]);
    assert_eq!(mgr.handle_transition(SceneTransition::PopUntil(7)), Ok(()));
    assert_eq!(ids(&mgr), vec![7, 1, 7]);
    assert_eq!(state.borrow().log, vec![("leave", 3), ("enter", 7)]);
}

#[test]
fn pop_until_the_top_itself_leaves_and_enters_it() {
    let state = create_state();
    let mut mgr = stack_of(&state, &[1, 2]);
    assert_eq!(mgr.handle_transition(SceneTransition::PopUntil(2)), Ok(()));
    assert_eq!(ids(&mgr), vec![1, 2]);
    assert_eq!(state.borrow().log, vec![("leave", 2), ("enter", 2)]);
}

#[test]
fn pop_until_reaches_the_bottom() {
    let state = create_state();
    let mut mgr = stack_of(&state, &[1, 2, 3]);
    assert_eq!(mgr.handle_transition(SceneTransition::PopUntil(1)), Ok(()));
    assert_eq!(ids(&mgr), vec![1]);
    assert_eq!(state.borrow().log, vec![("leave", 3), ("enter", 1)]);
}

#[test]
fn pop_until_on_empty_stack_is_refused() {
    let state = create_state();
    let mut mgr = stack_of(&state, &[]);
    assert_eq!(mgr.handle_transition(SceneTransition::PopUntil(0)), Err(SceneError::PopUntilEmpty));
    assert!(state.borrow().log.is_empty());
}

#[test]
fn pop_until_on_single_scene_is_refused_even_if_it_matches() {
    let state = create_state();
    let mut mgr = stack_of(&state, &[8]);
    assert_eq!(mgr.handle_transition(SceneTransition::PopUntil(8)), Err(SceneError::PopUntilSingle));
    assert_eq!(ids(&mgr), vec![8]);
    assert!(state.borrow().log.is_empty());
}

#[test]
fn pop_until_absent_id_is_refused_and_changes_nothing() {
    let state = create_state();
    let mut mgr = stack_of(&state, &[1, 2, 3]);
    assert_eq!(mgr.handle_transition(SceneTransition::PopUntil(9)), Err(SceneError::PopUntilMissing(9)));
    assert_eq!(ids(&mgr), vec![1, 2, 3]);
    assert!(state.borrow().log.is_empty());
}

#[test]
fn enter_never_falls_behind_leave_while_no_pop_uncovers_a_scene() {
    let state = create_state();
    let mut mgr = StackSceneManager::new(state.clone());
    mgr.handle_transition(SceneTransition::Push(Menu::Plain(1))).unwrap();
    mgr.handle_transition(SceneTransition::Push(Menu::Plain(2))).unwrap();
    mgr.handle_transition(SceneTransition::Push(Menu::Plain(3))).unwrap();
    let log = state.borrow().log.clone();
    for id in 1..=3 {
        let entered = log.iter().filter(|call| **call == ("enter", id)).count();
        let left = log.iter().filter(|call| **call == ("leave", id)).count();
        assert_eq!(entered, 1);
        assert_eq!(left, if id == 3 { 0 } else { 1 });
    }
}

#[test]
fn update_delivers_keypress_then_tick_then_the_transition() {
    let state = create_state();
    let mut mgr = StackSceneManager::with_scene(state.clone(), Menu::Main);
    state.borrow_mut().log.clear();
    let keys = Keys::new();
    assert_eq!(mgr.update(DT, &keys), Ok(()));
    assert_eq!(ids(&mgr), vec![0, 1]);
    assert_eq!(state.borrow().log, vec![("keypress", 0), ("tick", 0), ("leave", 0), ("enter", 1)]);
}

#[test]
fn update_on_empty_stack_does_nothing() {
    let state = create_state();
    let mut mgr: StackSceneManager<Menu> = StackSceneManager::new(state.clone());
    assert_eq!(mgr.update(DT, &Keys::new()), Ok(()));
    assert!(state.borrow().log.is_empty());
}

#[test]
fn update_hands_on_a_refused_transition() {
    let state = create_state();
    let mut mgr = StackSceneManager::with_scene(state.clone(), Menu::SubSub);
    assert_eq!(mgr.update(DT, &Keys::new()), Err(SceneError::PopUntilSingle));
    assert_eq!(ids(&mgr), vec![2]);
}

#[test]
fn display_draws_the_top_only() {
    let state = create_state();
    let mut mgr = stack_of(&state, &[1, 2]);
    let surface = FakeSurface { cleared: RefCell::new(0) };
    mgr.display(&surface);
    assert_eq!(*surface.cleared.borrow(), 1);
    assert_eq!(state.borrow().log, vec![("display", 2)]);
}

#[test]
fn default_tick_pops() {
    let mut state = create_state();
    let mut scene = Painter;
    assert!(matches!(scene.tick(&mut state, DT), SceneTransition::Pop));
    assert_eq!(state.borrow().has_been_modified, 0);
    assert_eq!(state.borrow().has_entered, 0);
    assert_eq!(state.borrow().has_left, 0);
}

#[test]
fn display_on_empty_stack_draws_nothing() {
    let state = create_state();
    let mut mgr = stack_of(&state, &[]);
    let surface = FakeSurface { cleared: RefCell::new(0) };
    mgr.display(&surface);
    assert_eq!(*surface.cleared.borrow(), 0);
    assert!(state.borrow().log.is_empty());
}
