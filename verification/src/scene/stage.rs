use crate::scene::SceneError;
use vstd::prelude::*;

verus! {

/// One call that a manager made on a scene. The number names the scene: a
/// manager numbers its scenes in the order in which they were pushed,
/// starting at 0.
pub enum Call {
    /// `enter` was called on the scene: it got the focus.
    Enter(nat),
    /// `leave` was called on the scene: it lost the focus.
    Leave(nat),
    /// `keypress` was called on the scene.
    Keypress(nat),
    /// `tick` was called on the scene.
    Tick(nat),
    /// `display` was called on the scene.
    Display(nat),
}

/// What a transition asks for, with the pushed scene reduced to its
/// identity.
pub enum Request {
    /// Nothing.
    Nothing,
    /// Push a scene with this identity.
    Push(usize),
    /// Pop the top.
    Pop,
    /// Pop until the topmost scene with this identity is on top.
    PopUntil(usize),
}

/// The abstract state of a scene manager: the stack and the history of the
/// calls that the manager made on its scenes. The history is the manager's
/// own record, by which calls can be counted. What a call was handed and
/// what it did is stated by the contracts of the manager's functions.
pub struct Stage {
    /// The identities of the scenes on the stack, bottom first.
    pub ids: Seq<usize>,
    /// The numbers of the scenes on the stack, bottom first.
    pub numbers: Seq<nat>,
    /// How many scenes have been pushed so far.
    pub pushed: nat,
    /// The calls made so far, oldest first.
    pub calls: Seq<Call>,
}

/// The position of the topmost scene with identity `id`, or -1 where no
/// scene has it.
pub open spec fn topmost(ids: Seq<usize>, id: usize) -> int
    decreases ids.len(),
{
    if ids.len() == 0 {
        -1
    } else if ids.last() == id {
        ids.len() - 1
    } else {
        topmost(ids.drop_last(), id)
    }
}

/// What a request makes of a stage.
///
/// - `Nothing` changes nothing.
/// - `Push` calls `leave` on the top, if there is one, then puts the new
///   scene on the stack and calls `enter` on it.
/// - `Pop` removes the top, if there is one, and calls `leave` on it. The
///   scene beneath gets no call.
/// - `PopUntil` is refused on a stack of fewer than two scenes and where no
///   scene has the identity. Otherwise it calls `leave` on the top, removes
///   every scene above the topmost one with the identity, and calls `enter`
///   on that one.
pub open spec fn step(stage: Stage, request: Request) -> Result<Stage, SceneError> {
    match request {
        Request::Nothing => Ok(stage),
        Request::Push(id) => Ok(
            Stage {
                ids: stage.ids.push(id),
                numbers: stage.numbers.push(stage.pushed),
                pushed: stage.pushed + 1,
                calls: if stage.ids.len() > 0 {
                    stage.calls.push(Call::Leave(stage.numbers.last())).push(Call::Enter(stage.pushed))
                } else {
                    stage.calls.push(Call::Enter(stage.pushed))
                },
            },
        ),
        Request::Pop => if stage.ids.len() == 0 {
            Ok(stage)
        } else {
            Ok(
                Stage {
                    ids: stage.ids.drop_last(),
                    numbers: stage.numbers.drop_last(),
                    pushed: stage.pushed,
                    calls: stage.calls.push(Call::Leave(stage.numbers.last())),
                },
            )
        },
        Request::PopUntil(id) => if stage.ids.len() == 0 {
            Err(SceneError::PopUntilEmpty)
        } else if stage.ids.len() == 1 {
            Err(SceneError::PopUntilSingle)
        } else if topmost(stage.ids, id) < 0 {
            Err(SceneError::PopUntilMissing(id))
        } else {
            let target = topmost(stage.ids, id);
            Ok(
                Stage {
                    ids: stage.ids.take(target + 1),
                    numbers: stage.numbers.take(target + 1),
                    pushed: stage.pushed,
                    calls: stage.calls.push(Call::Leave(stage.numbers.last())).push(
                        Call::Enter(stage.numbers[target]),
                    ),
                },
            )
        },
    }
}

/// What delivering a frame to the active scene makes of a stage, before the
/// scene's request is followed: the manager calls `keypress` and then `tick`
/// on the top. Without a scene it makes no call.
pub open spec fn delivered(stage: Stage) -> Stage {
    if stage.ids.len() == 0 {
        stage
    } else {
        Stage {
            calls: stage.calls.push(Call::Keypress(stage.numbers.last())).push(
                Call::Tick(stage.numbers.last()),
            ),
            ..stage
        }
    }
}

/// What drawing makes of a stage: the manager calls `display` on the top.
/// Without a scene it makes no call.
pub open spec fn drawn(stage: Stage) -> Stage {
    if stage.ids.len() == 0 {
        stage
    } else {
        Stage { calls: stage.calls.push(Call::Display(stage.numbers.last())), ..stage }
    }
}

/// Whether a manager that was in stage `before` and got `request` may end in
/// stage `after` with the answer `done`: an accepted request leads to the
/// stage that `step` gives, a refused one changes nothing.
pub open spec fn follows(before: Stage, request: Request, after: Stage, done: Result<(), SceneError>) -> bool {
    match step(before, request) {
        Ok(stage) => done is Ok && after == stage,
        Err(error) => done matches Err(e) && e == error && after == before,
    }
}

/// How many scenes at the bottom of the stack a request leaves untouched:
/// all those beneath the lowest scene that gets a call.
pub open spec fn settled(stage: Stage, request: Request) -> int {
    match request {
        Request::Nothing => stage.ids.len() as int,
        Request::Push(_) | Request::Pop => if stage.ids.len() > 0 {
            stage.ids.len() - 1
        } else {
            0
        },
        Request::PopUntil(id) => if step(stage, request) is Ok {
            topmost(stage.ids, id)
        } else {
            stage.ids.len() as int
        },
    }
}

/// Whether a request leads to no call on any scene.
pub open spec fn silent(stage: Stage, request: Request) -> bool {
    match request {
        Request::Nothing => true,
        Request::Push(_) => false,
        Request::Pop => stage.ids.len() == 0,
        Request::PopUntil(_) => step(stage, request) is Err,
    }
}

/// `topmost` finds a position that holds `id` and has no `id` above it, or
/// -1 where `id` does not occur.
pub proof fn lemma_topmost(ids: Seq<usize>, id: usize)
    ensures
        -1 <= topmost(ids, id) < ids.len(),
        topmost(ids, id) >= 0 ==> ids[topmost(ids, id)] == id,
        forall|j: int| topmost(ids, id) < j < ids.len() ==> ids[j] != id,
    decreases ids.len(),
{
    if ids.len() > 0 && ids.last() != id {
        let below = ids.drop_last();
        lemma_topmost(below, id);
        assert forall|j: int| topmost(ids, id) < j < ids.len() implies ids[j] != id by {
            if j < below.len() {
                assert(below[j] == ids[j]);
            }
        }
    }
}

/// How often `enter` was called on the scene with number `scene`.
pub open spec fn entered(calls: Seq<Call>, scene: nat) -> nat
    decreases calls.len(),
{
    if calls.len() == 0 {
        0
    } else if calls.last() == Call::Enter(scene) {
        entered(calls.drop_last(), scene) + 1
    } else {
        entered(calls.drop_last(), scene)
    }
}

/// How often `leave` was called on the scene with number `scene`.
pub open spec fn left(calls: Seq<Call>, scene: nat) -> nat
    decreases calls.len(),
{
    if calls.len() == 0 {
        0
    } else if calls.last() == Call::Leave(scene) {
        left(calls.drop_last(), scene) + 1
    } else {
        left(calls.drop_last(), scene)
    }
}

/// Whether the scene with number `scene` is on top of the stack.
pub open spec fn on_top(stage: Stage, scene: nat) -> bool {
    stage.numbers.len() > 0 && stage.numbers.last() == scene
}

/// Whether the focus calls on one scene are in balance: the scene has been
/// entered once more than left if it is on top, and as often as left if it
/// is not.
pub open spec fn in_balance(stage: Stage, scene: nat) -> bool {
    entered(stage.calls, scene) == left(stage.calls, scene) + if on_top(stage, scene) {
        1nat
    } else {
        0nat
    }
}

/// Whether the focus calls of a stage are in balance: those on every scene
/// are, be it on the stack, removed from it or never pushed. The scenes on
/// the stack carry distinct numbers that have been given out, in rising
/// order.
pub open spec fn balanced(stage: Stage) -> bool {
    &&& stage.numbers.len() == stage.ids.len()
    &&& forall|i: int| 0 <= i < stage.numbers.len() ==> stage.numbers[i] < stage.pushed
    &&& forall|i: int, j: int| 0 <= i < j < stage.numbers.len() ==> stage.numbers[i] < stage.numbers[j]
    &&& forall|scene: nat| in_balance(stage, scene)
}

/// Whether a request removes the top of a stack and uncovers the scene
/// beneath it. That scene becomes the active one without a call to `enter`,
/// and the next transition calls `leave` on it once more.
pub open spec fn uncovers(stage: Stage, request: Request) -> bool {
    request is Pop && stage.ids.len() >= 2
}

/// The stage that a request leads to; a refused request leaves the stage as
/// it is.
pub open spec fn after(stage: Stage, request: Request) -> Stage {
    match step(stage, request) {
        Ok(next) => next,
        Err(_) => stage,
    }
}

/// The stage that a run of requests leads to.
pub open spec fn run(stage: Stage, requests: Seq<Request>) -> Stage
    decreases requests.len(),
{
    if requests.len() == 0 {
        stage
    } else {
        run(after(stage, requests.first()), requests.drop_first())
    }
}

/// Whether no request of a run uncovers a scene.
pub open spec fn keeps_focus(stage: Stage, requests: Seq<Request>) -> bool
    decreases requests.len(),
{
    if requests.len() == 0 {
        true
    } else {
        !uncovers(stage, requests.first()) && keeps_focus(
            after(stage, requests.first()),
            requests.drop_first(),
        )
    }
}

/// The stage of a manager that was just created.
pub open spec fn initial() -> Stage {
    Stage { ids: Seq::empty(), numbers: Seq::empty(), pushed: 0, calls: Seq::empty() }
}

proof fn lemma_count_push(calls: Seq<Call>, call: Call, scene: nat)
    ensures
        entered(calls.push(call), scene) == entered(calls, scene) + if call == Call::Enter(scene) {
            1nat
        } else {
            0nat
        },
        left(calls.push(call), scene) == left(calls, scene) + if call == Call::Leave(scene) {
            1nat
        } else {
            0nat
        },
{
    assert(calls.push(call).drop_last() =~= calls);
}

/// A request that does not uncover a scene keeps the focus calls in
/// balance.
pub proof fn lemma_balance_kept(stage: Stage, request: Request)
    requires
        balanced(stage),
        !uncovers(stage, request),
    ensures
        balanced(after(stage, request)),
{
    let next = after(stage, request);
    if let Request::PopUntil(id) = request {
        lemma_topmost(stage.ids, id);
    }
    assert forall|scene: nat| in_balance(next, scene) by {
        assert(in_balance(stage, scene));
        let top = Call::Leave(stage.numbers.last());
        match request {
            Request::Nothing => {},
            Request::Push(_) => {
                if stage.ids.len() > 0 {
                    lemma_count_push(stage.calls, top, scene);
                    lemma_count_push(stage.calls.push(top), Call::Enter(stage.pushed), scene);
                } else {
                    lemma_count_push(stage.calls, Call::Enter(stage.pushed), scene);
                }
            },
            Request::Pop => {
                if stage.ids.len() > 0 {
                    lemma_count_push(stage.calls, top, scene);
                }
            },
            Request::PopUntil(id) => {
                if step(stage, request) is Ok {
                    lemma_count_push(stage.calls, top, scene);
                    lemma_count_push(
                        stage.calls.push(top),
                        Call::Enter(stage.numbers[topmost(stage.ids, id)]),
                        scene,
                    );
                }
            },
        }
    }
}

/// Focus calls stay in balance. Take any run of requests on a new manager in
/// which no `Pop` uncovers a scene. After it every scene that was ever
/// pushed has been entered at least as often as left and at most once more,
/// and it has been entered once more than left exactly if it is on top.
pub proof fn lemma_balance(requests: Seq<Request>)
    requires
        keeps_focus(initial(), requests),
    ensures
        balanced(run(initial(), requests)),
        forall|scene: nat|
            left(run(initial(), requests).calls, scene) <= #[trigger] entered(
                run(initial(), requests).calls,
                scene,
            ) <= left(run(initial(), requests).calls, scene) + 1,
        forall|scene: nat|
            #[trigger] on_top(run(initial(), requests), scene) <==> entered(
                run(initial(), requests).calls,
                scene,
            ) == left(run(initial(), requests).calls, scene) + 1,
{
    lemma_balance_from(initial(), requests);
    let end = run(initial(), requests);
    assert forall|scene: nat|
        left(end.calls, scene) <= #[trigger] entered(end.calls, scene) <= left(end.calls, scene) + 1 by {
        assert(in_balance(end, scene));
    }
    assert forall|scene: nat| #[trigger]
        on_top(end, scene) <==> entered(end.calls, scene) == left(end.calls, scene) + 1 by {
        assert(in_balance(end, scene));
    }
}

/// Delivering a frame and drawing keep the focus calls in balance: they
/// give the focus to no scene and take it from none.
pub proof fn lemma_frame_keeps_balance(stage: Stage)
    requires
        balanced(stage),
    ensures
        balanced(delivered(stage)),
        balanced(drawn(stage)),
{
    let top = stage.numbers.last();
    assert forall|scene: nat| in_balance(delivered(stage), scene) && in_balance(drawn(stage), scene) by {
        assert(in_balance(stage, scene));
        lemma_count_push(stage.calls, Call::Keypress(top), scene);
        lemma_count_push(stage.calls.push(Call::Keypress(top)), Call::Tick(top), scene);
        lemma_count_push(stage.calls, Call::Display(top), scene);
    }
}

/// A `Pop` that uncovers a scene breaks the balance: the uncovered scene is
/// on top and has been left as often as entered.
pub proof fn lemma_uncovering_breaks_balance(stage: Stage, request: Request)
    requires
        balanced(stage),
        uncovers(stage, request),
    ensures
        !balanced(after(stage, request)),
        !in_balance(after(stage, request), stage.numbers[stage.ids.len() - 2]),
{
    let uncovered = stage.numbers[stage.ids.len() - 2];
    assert(in_balance(stage, uncovered));
    lemma_count_push(stage.calls, Call::Leave(stage.numbers.last()), uncovered);
    assert(!in_balance(after(stage, request), uncovered));
}

proof fn lemma_balance_from(stage: Stage, requests: Seq<Request>)
    requires
        balanced(stage),
        keeps_focus(stage, requests),
    ensures
        balanced(run(stage, requests)),
    decreases requests.len(),
{
    if requests.len() > 0 {
        lemma_balance_kept(stage, requests.first());
        lemma_balance_from(after(stage, requests.first()), requests.drop_first());
    }
}

/// `PopUntil` returns to the topmost scene with the identity. On a stack of
/// two or more scenes where `position` holds the identity and no scene above
/// it does, the scenes above `position` are removed and the others stay.
/// The history gains `leave` on the scene that was on top and then `enter`
/// on the scene at `position`, and nothing else.
pub proof fn lemma_pop_until_target(stage: Stage, position: int, id: usize)
    requires
        stage.ids.len() >= 2,
        0 <= position < stage.ids.len(),
        stage.ids[position] == id,
        forall|j: int| position < j < stage.ids.len() ==> stage.ids[j] != id,
    ensures
        step(stage, Request::PopUntil(id)) == Ok::<Stage, SceneError>(
            (Stage {
                ids: stage.ids.take(position + 1),
                numbers: stage.numbers.take(position + 1),
                pushed: stage.pushed,
                calls: stage.calls.push(Call::Leave(stage.numbers.last())).push(
                    Call::Enter(stage.numbers[position]),
                ),
            }),
        ),
{
    lemma_topmost(stage.ids, id);
}

/// `PopUntil` with an identity that no scene on the stack has is refused,
/// however many scenes there are.
pub proof fn lemma_pop_until_absent(stage: Stage, id: usize)
    requires
        !stage.ids.contains(id),
    ensures
        step(stage, Request::PopUntil(id)) is Err,
        stage.ids.len() >= 2 ==> step(stage, Request::PopUntil(id)) == Err::<Stage, SceneError>(
            SceneError::PopUntilMissing(id),
        ),
{
    lemma_topmost(stage.ids, id);
}

} // verus!
