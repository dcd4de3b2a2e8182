//! The order in which the rays of one pixel are cast, and how deep they go.
//!
//! A ray that strikes a surface may spawn a reflected ray and a refracted
//! ray, each one level deeper.  A ray deeper than [`MAX_DEPTH`] is not cast:
//! it takes the background colour.  The [`Tracer`] holds the rays that are
//! under way, outermost first.  It says what to do next (an [`Action`]); the
//! caller does it in its own arithmetic and reports what came of it (an
//! [`Event`]).  Every run ends after at most [`STEP_BOUND`] reports, of which
//! at most [`CAST_BOUND`] are of rays cast against the scene.

use vstd::prelude::*;
use crate::scalar::Scalar;

verus! {

/// The deepest level at which a ray is still cast against the scene.
pub const MAX_DEPTH: u32 = 3;

/// No run of the tracer takes more reports than this.
pub const STEP_BOUND: u32 = 76;

/// No run of the tracer casts more rays against the scene than this: one at
/// depth 0 and twice as many at each further depth up to [`MAX_DEPTH`].
pub const CAST_BOUND: u32 = 15;

/// Why a ray was cast.
#[derive(Clone, Copy, Debug, PartialEq, Eq, Structural)]
pub enum Role {
    /// The ray through the pixel.
    Primary,
    /// The mirror image of its parent at a reflective surface.
    Reflection,
    /// The continuation of its parent through a transparent surface.
    Refraction,
}

/// How far a ray has come.
#[derive(Clone, Copy, Debug, PartialEq, Eq, Structural)]
pub enum Phase {
    /// Not cast yet.
    Cast,
    /// It struck a surface.  The flags say which secondary rays are still to
    /// be spawned from there.
    Lit { reflect: bool, refract: bool },
}

/// A ray that is under way.
#[derive(Clone, Copy, Debug, PartialEq, Eq, Structural)]
pub struct Frame {
    pub depth: u32,
    pub role: Role,
    pub phase: Phase,
}

/// What the caller is to do next, always with the innermost ray.
#[derive(Clone, Copy, Debug, PartialEq, Eq, Structural)]
pub enum Action {
    /// Cast the ray against the scene and report `Missed` or `Struck`.
    Intersect,
    /// The ray is too deep to be cast: give it the background colour, hand
    /// that colour to its parent, and report `Done`.
    Background,
    /// Start the reflected ray and report `Done`.
    SpawnReflection,
    /// Start the refracted ray and report `Done`.
    SpawnRefraction,
    /// Both secondary rays are settled: compose the ray's colour, hand it to
    /// its parent, and report `Done`.
    Compose,
    /// The primary ray has its colour.
    Finish,
}

/// What came of an action.
#[derive(Clone, Copy, Debug)]
pub enum Event {
    /// The ray met nothing; it took the background colour and handed it to
    /// its parent.
    Missed,
    /// The ray struck a surface with these two material coefficients.
    Struck { reflectivity: Scalar, transparency: Scalar },
    /// The action has been carried out.
    Done,
}

/// The action that a stack of rays calls for.
pub open spec fn pending(stack: Seq<Frame>) -> Action {
    if stack.len() == 0 {
        Action::Finish
    } else {
        let top = stack.last();
        match top.phase {
            Phase::Cast => if top.depth > MAX_DEPTH {
                Action::Background
            } else {
                Action::Intersect
            },
            Phase::Lit { reflect, refract } => if reflect {
                Action::SpawnReflection
            } else if refract {
                Action::SpawnRefraction
            } else {
                Action::Compose
            },
        }
    }
}

/// The report answers the action that is pending.
pub open spec fn answers(stack: Seq<Frame>, event: Event) -> bool {
    match pending(stack) {
        Action::Intersect => event is Missed || event is Struck,
        Action::Finish => false,
        _ => event is Done,
    }
}

/// The stack after a report.  A report that does not answer the pending
/// action changes nothing.
///
/// A ray that missed, was too deep, or is composed leaves the stack.  A ray
/// that struck a surface stays, and is to spawn a reflected ray if the
/// reflectivity is above zero and a refracted ray if the transparency is
/// above zero.  A spawned ray enters the stack one level deeper than its
/// parent.
pub open spec fn step(stack: Seq<Frame>, event: Event) -> Seq<Frame> {
    if !answers(stack, event) {
        stack
    } else {
        let top = stack.last();
        match pending(stack) {
            Action::Intersect => match event {
                Event::Struck { reflectivity, transparency } => stack.drop_last().push(
                    Frame {
                        depth: top.depth,
                        role: top.role,
                        phase: Phase::Lit {
                            reflect: reflectivity.is_positive(),
                            refract: transparency.is_positive(),
                        },
                    },
                ),
                _ => stack.drop_last(),
            },
            Action::SpawnReflection => stack.drop_last().push(
                Frame {
                    depth: top.depth,
                    role: top.role,
                    phase: Phase::Lit { reflect: false, refract: top.phase->refract },
                },
            ).push(
                Frame { depth: (top.depth + 1) as u32, role: Role::Reflection, phase: Phase::Cast },
            ),
            Action::SpawnRefraction => stack.drop_last().push(
                Frame {
                    depth: top.depth,
                    role: top.role,
                    phase: Phase::Lit { reflect: false, refract: false },
                },
            ).push(
                Frame { depth: (top.depth + 1) as u32, role: Role::Refraction, phase: Phase::Cast },
            ),
            _ => stack.drop_last(),
        }
    }
}

/// The stack of a pixel whose primary ray is about to be cast.
pub open spec fn initial() -> Seq<Frame> {
    seq![Frame { depth: 0, role: Role::Primary, phase: Phase::Cast }]
}

/// The rays under way nest: the primary ray is outermost at depth 0, each
/// further ray is one level deeper than the one before it and was spawned by
/// it, and only the innermost may still be uncast.  No ray is deeper than
/// one level past [`MAX_DEPTH`], and one that deep is never cast.
pub open spec fn well_formed(stack: Seq<Frame>) -> bool {
    &&& forall|i: int| 0 <= i < stack.len() ==> (#[trigger] stack[i]).depth == i
    &&& forall|i: int| 0 <= i < stack.len() ==> (#[trigger] stack[i]).depth <= MAX_DEPTH + 1
    &&& forall|i: int|
        0 <= i < stack.len() ==> ((#[trigger] stack[i]).role == Role::Primary <==> i == 0)
    &&& forall|i: int| 0 <= i < stack.len() - 1 ==> (#[trigger] stack[i]).phase is Lit
    &&& forall|i: int|
        0 <= i < stack.len() && (#[trigger] stack[i]).depth > MAX_DEPTH ==> stack[i].phase
            is Cast
}

/// The most reports that a ray at this depth can take from being pushed to
/// leaving the stack, its descendants included.
pub open spec fn ray_work(depth: nat) -> nat
    decreases MAX_DEPTH + 1 - depth,
{
    if depth > MAX_DEPTH {
        1
    } else {
        4 + 2 * ray_work(depth + 1)
    }
}

/// The most reports that a ray under way can still take, not counting the
/// ray above it on the stack.
pub open spec fn frame_work(frame: Frame) -> nat {
    match frame.phase {
        Phase::Cast => ray_work(frame.depth as nat),
        Phase::Lit { reflect, refract } => 1 + (if reflect {
            1 + ray_work(frame.depth as nat + 1)
        } else {
            0
        }) + (if refract {
            1 + ray_work(frame.depth as nat + 1)
        } else {
            0
        }),
    }
}

/// The most reports that a stack can still take before it is empty.
pub open spec fn remaining_work(stack: Seq<Frame>) -> nat
    decreases stack.len(),
{
    if stack.len() == 0 {
        0
    } else {
        remaining_work(stack.drop_last()) + frame_work(stack.last())
    }
}

/// The stack after a run of reports.
pub open spec fn run(stack: Seq<Frame>, events: Seq<Event>) -> Seq<Frame>
    decreases events.len(),
{
    if events.len() == 0 {
        stack
    } else {
        step(run(stack, events.drop_last()), events.last())
    }
}

/// Each report of the run answers the action that was pending when it came.
pub open spec fn answers_in_turn(stack: Seq<Frame>, events: Seq<Event>) -> bool
    decreases events.len(),
{
    events.len() == 0 || (answers_in_turn(stack, events.drop_last()) && answers(
        run(stack, events.drop_last()),
        events.last(),
    ))
}

/// The most rays that a ray at this depth can make to be cast against the
/// scene, itself included.
pub open spec fn ray_casts(depth: nat) -> nat
    decreases MAX_DEPTH + 1 - depth,
{
    if depth > MAX_DEPTH {
        0
    } else {
        1 + 2 * ray_casts(depth + 1)
    }
}

/// The most rays that a ray under way can still make to be cast, not
/// counting those of the ray above it on the stack.
pub open spec fn frame_casts(frame: Frame) -> nat {
    match frame.phase {
        Phase::Cast => ray_casts(frame.depth as nat),
        Phase::Lit { reflect, refract } => (if reflect {
            ray_casts(frame.depth as nat + 1)
        } else {
            0
        }) + (if refract {
            ray_casts(frame.depth as nat + 1)
        } else {
            0
        }),
    }
}

/// The most rays that can still be cast before a stack is empty.
pub open spec fn remaining_casts(stack: Seq<Frame>) -> nat
    decreases stack.len(),
{
    if stack.len() == 0 {
        0
    } else {
        remaining_casts(stack.drop_last()) + frame_casts(stack.last())
    }
}

/// The number of rays that a run has cast against the scene: its reports
/// that answer `Intersect`.
pub open spec fn rays_cast(stack: Seq<Frame>, events: Seq<Event>) -> nat
    decreases events.len(),
{
    if events.len() == 0 {
        0
    } else {
        let before = run(stack, events.drop_last());
        rays_cast(stack, events.drop_last()) + (if pending(before) == Action::Intersect && answers(
            before,
            events.last(),
        ) {
            1nat
        } else {
            0nat
        })
    }
}

/// A report leaves a well-formed stack well-formed.
pub proof fn law_step_keeps_well_formed(stack: Seq<Frame>, event: Event)
    requires
        well_formed(stack),
    ensures
        well_formed(step(stack, event)),
{
}

/// The rays under way never number more than `MAX_DEPTH + 2`.
pub proof fn law_depth_is_bounded(stack: Seq<Frame>)
    requires
        well_formed(stack),
    ensures
        stack.len() <= MAX_DEPTH + 2,
{
    if stack.len() > 0 {
        assert(stack[stack.len() - 1].depth == stack.len() - 1);
    }
}

/// A ray at any depth takes at least one report, and the primary ray with
/// all its descendants takes at most [`STEP_BOUND`].
pub proof fn law_ray_work(depth: nat)
    ensures
        ray_work(depth) >= 1,
        ray_work(0) == STEP_BOUND,
    decreases MAX_DEPTH + 1 - depth,
{
    reveal_with_fuel(ray_work, 6);
    if depth <= MAX_DEPTH {
        law_ray_work(depth + 1);
    }
}

proof fn lemma_work_of_push(stack: Seq<Frame>, frame: Frame)
    ensures
        remaining_work(stack.push(frame)) == remaining_work(stack) + frame_work(frame),
{
    assert(stack.push(frame).drop_last() =~= stack);
}

/// A report that answers the pending action brings the end nearer: the work
/// that remains goes down by at least one.
pub proof fn law_step_makes_progress(stack: Seq<Frame>, event: Event)
    requires
        well_formed(stack),
        answers(stack, event),
    ensures
        remaining_work(step(stack, event)) < remaining_work(stack),
{
    let top = stack.last();
    let rest = stack.drop_last();
    law_ray_work(top.depth as nat);
    law_ray_work(top.depth as nat + 1);
    assert(stack =~= rest.push(top));
    lemma_work_of_push(rest, top);
    match pending(stack) {
        Action::Intersect => {
            match event {
                Event::Struck { reflectivity, transparency } => {
                    let lit = Frame {
                        depth: top.depth,
                        role: top.role,
                        phase: Phase::Lit {
                            reflect: reflectivity.is_positive(),
                            refract: transparency.is_positive(),
                        },
                    };
                    lemma_work_of_push(rest, lit);
                },
                _ => {},
            }
        },
        Action::SpawnReflection => {
            let parent = Frame {
                depth: top.depth,
                role: top.role,
                phase: Phase::Lit { reflect: false, refract: top.phase->refract },
            };
            let child = Frame {
                depth: (top.depth + 1) as u32,
                role: Role::Reflection,
                phase: Phase::Cast,
            };
            lemma_work_of_push(rest, parent);
            lemma_work_of_push(rest.push(parent), child);
        },
        Action::SpawnRefraction => {
            let parent = Frame {
                depth: top.depth,
                role: top.role,
                phase: Phase::Lit { reflect: false, refract: false },
            };
            let child = Frame {
                depth: (top.depth + 1) as u32,
                role: Role::Refraction,
                phase: Phase::Cast,
            };
            lemma_work_of_push(rest, parent);
            lemma_work_of_push(rest.push(parent), child);
        },
        _ => {},
    }
}

/// Tracing a pixel terminates: a run in which every report answers the
/// pending action keeps the stack well-formed and is at most [`STEP_BOUND`]
/// reports long, whatever the scene makes the rays strike.  This holds of a
/// corridor of facing mirrors as of any other scene.
pub proof fn law_run_is_bounded(events: Seq<Event>)
    requires
        answers_in_turn(initial(), events),
    ensures
        well_formed(run(initial(), events)),
        events.len() + remaining_work(run(initial(), events)) <= STEP_BOUND,
        events.len() <= STEP_BOUND,
    decreases events.len(),
{
    if events.len() == 0 {
        law_ray_work(0);
        assert(initial().drop_last() =~= Seq::<Frame>::empty());
        assert(remaining_work(initial()) == ray_work(0)) by {
            reveal_with_fuel(remaining_work, 2);
        }
    } else {
        law_run_is_bounded(events.drop_last());
        let before = run(initial(), events.drop_last());
        law_step_keeps_well_formed(before, events.last());
        law_step_makes_progress(before, events.last());
    }
}

proof fn lemma_casts_of_push(stack: Seq<Frame>, frame: Frame)
    ensures
        remaining_casts(stack.push(frame)) == remaining_casts(stack) + frame_casts(frame),
{
    assert(stack.push(frame).drop_last() =~= stack);
}

/// A report never adds to the rays that can still be cast, and one that
/// tells of a ray that was cast takes one away.
pub proof fn law_step_spends_casts(stack: Seq<Frame>, event: Event)
    requires
        well_formed(stack),
    ensures
        remaining_casts(step(stack, event)) <= remaining_casts(stack),
        pending(stack) == Action::Intersect && answers(stack, event) ==> remaining_casts(
            step(stack, event),
        ) < remaining_casts(stack),
{
    if answers(stack, event) {
        let top = stack.last();
        let rest = stack.drop_last();
        reveal_with_fuel(ray_casts, 2);
        assert(stack =~= rest.push(top));
        lemma_casts_of_push(rest, top);
        match pending(stack) {
            Action::Intersect => {
                match event {
                    Event::Struck { reflectivity, transparency } => {
                        let lit = Frame {
                            depth: top.depth,
                            role: top.role,
                            phase: Phase::Lit {
                                reflect: reflectivity.is_positive(),
                                refract: transparency.is_positive(),
                            },
                        };
                        lemma_casts_of_push(rest, lit);
                    },
                    _ => {},
                }
            },
            Action::SpawnReflection => {
                let parent = Frame {
                    depth: top.depth,
                    role: top.role,
                    phase: Phase::Lit { reflect: false, refract: top.phase->refract },
                };
                let child = Frame {
                    depth: (top.depth + 1) as u32,
                    role: Role::Reflection,
                    phase: Phase::Cast,
                };
                lemma_casts_of_push(rest, parent);
                lemma_casts_of_push(rest.push(parent), child);
            },
            Action::SpawnRefraction => {
                let parent = Frame {
                    depth: top.depth,
                    role: top.role,
                    phase: Phase::Lit { reflect: false, refract: false },
                };
                let child = Frame {
                    depth: (top.depth + 1) as u32,
                    role: Role::Refraction,
                    phase: Phase::Cast,
                };
                lemma_casts_of_push(rest, parent);
                lemma_casts_of_push(rest.push(parent), child);
            },
            _ => {},
        }
    }
}

/// The work of a pixel is bounded by the depth limit alone: a run casts at
/// most [`CAST_BOUND`] rays against the scene, whatever they strike.
pub proof fn law_rays_cast_are_bounded(events: Seq<Event>)
    requires
        answers_in_turn(initial(), events),
    ensures
        rays_cast(initial(), events) + remaining_casts(run(initial(), events)) <= CAST_BOUND,
        rays_cast(initial(), events) <= CAST_BOUND,
    decreases events.len(),
{
    if events.len() == 0 {
        assert(initial().drop_last() =~= Seq::<Frame>::empty());
        assert(remaining_casts(initial()) == ray_casts(0)) by {
            reveal_with_fuel(remaining_casts, 2);
        }
        assert(ray_casts(0) == CAST_BOUND) by {
            reveal_with_fuel(ray_casts, 6);
        }
    } else {
        law_rays_cast_are_bounded(events.drop_last());
        law_run_is_bounded(events.drop_last());
        law_step_spends_casts(run(initial(), events.drop_last()), events.last());
    }
}

/// Once the stack is empty the run is over: no report answers, and every
/// report leaves the stack empty.
pub proof fn law_finished_stays_finished(stack: Seq<Frame>, event: Event)
    requires
        pending(stack) == Action::Finish,
    ensures
        stack.len() == 0,
        !answers(stack, event),
        step(stack, event) == stack,
{
}

/// Until the stack is empty some report answers the pending action, so a
/// run can always go on to its end.
pub proof fn law_unfinished_can_go_on(stack: Seq<Frame>)
    requires
        pending(stack) != Action::Finish,
    ensures
        answers(stack, Event::Done) || answers(stack, Event::Missed),
{
}

/// A ray deeper than [`MAX_DEPTH`] is never cast against the scene: the
/// only action it calls for is `Background`, and after the report it is
/// gone without having spawned anything.
pub proof fn law_too_deep_takes_background(stack: Seq<Frame>)
    requires
        well_formed(stack),
        stack.len() > 0,
        stack.last().depth > MAX_DEPTH,
    ensures
        pending(stack) == Action::Background,
        step(stack, Event::Done) == stack.drop_last(),
{
}

pub struct Tracer {
    stack: Vec<Frame>,
}

impl View for Tracer {
    type V = Seq<Frame>;

    closed spec fn view(&self) -> Seq<Frame> {
        self.stack@
    }
}

impl Tracer {
    #[verifier::type_invariant]
    spec fn inv(self) -> bool {
        well_formed(self.stack@)
    }

    /// A tracer for one pixel, with the primary ray about to be cast.
    pub fn new() -> (t: Tracer)
        ensures
            t@ == initial(),
            well_formed(t@),
    {
        let mut stack: Vec<Frame> = Vec::new();
        stack.push(Frame { depth: 0, role: Role::Primary, phase: Phase::Cast });
        assert(stack@ =~= initial());
        Tracer { stack }
    }

    /// What is to be done next.
    pub fn action(&self) -> (a: Action)
        ensures
            a == pending(self@),
            well_formed(self@),
    {
        proof {
            use_type_invariant(self);
        }
        let n: usize = self.stack.len();
        if n == 0 {
            Action::Finish
        } else {
            let top = self.stack[n - 1];
            match top.phase {
                Phase::Cast => if top.depth > MAX_DEPTH {
                    Action::Background
                } else {
                    Action::Intersect
                },
                Phase::Lit { reflect, refract } => if reflect {
                    Action::SpawnReflection
                } else if refract {
                    Action::SpawnRefraction
                } else {
                    Action::Compose
                },
            }
        }
    }

    /// Takes the report of what came of the pending action, and says what is
    /// to be done next.  A report that does not answer the pending action is
    /// ignored.
    pub fn step(&mut self, event: Event) -> (a: Action)
        ensures
            final(self)@ == step(old(self)@, event),
            a == pending(final(self)@),
            well_formed(final(self)@),
    {
        proof {
            use_type_invariant(&*self);
        }
        let action = self.action();
        let mut stack: Vec<Frame> = Vec::new();
        std::mem::swap(&mut stack, &mut self.stack);
        let ghost before = stack@;
        match action {
            Action::Finish => {},
            Action::Intersect => {
                match event {
                    Event::Missed => {
                        stack.pop();
                    },
                    Event::Struck { reflectivity, transparency } => {
                        let top = stack.pop().unwrap();
                        stack.push(
                            Frame {
                                depth: top.depth,
                                role: top.role,
                                phase: Phase::Lit {
                                    reflect: reflectivity.is_positive(),
                                    refract: transparency.is_positive(),
                                },
                            },
                        );
                    },
                    Event::Done => {},
                }
            },
            Action::SpawnReflection => {
                match event {
                    Event::Done => {
                        let top = stack.pop().unwrap();
                        let refract = match top.phase {
                            Phase::Lit { reflect, refract } => refract,
                            Phase::Cast => false,
                        };
                        stack.push(
                            Frame {
                                depth: top.depth,
                                role: top.role,
                                phase: Phase::Lit { reflect: false, refract },
                            },
                        );
                        stack.push(
                            Frame { depth: top.depth + 1, role: Role::Reflection, phase: Phase::Cast },
                        );
                    },
                    _ => {},
                }
            },
            Action::SpawnRefraction => {
                match event {
                    Event::Done => {
                        let top = stack.pop().unwrap();
                        stack.push(
                            Frame {
                                depth: top.depth,
                                role: top.role,
                                phase: Phase::Lit { reflect: false, refract: false },
                            },
                        );
                        stack.push(
                            Frame { depth: top.depth + 1, role: Role::Refraction, phase: Phase::Cast },
                        );
                    },
                    _ => {},
                }
            },
            _ => {
                match event {
                    Event::Done => {
                        stack.pop();
                    },
                    _ => {},
                }
            },
        }
        proof {
            assert(stack@ =~= step(before, event));
            law_step_keeps_well_formed(before, event);
        }
        self.stack = stack;
        self.action()
    }

    /// The innermost ray under way, if any.
    pub fn current(&self) -> (f: Option<Frame>)
        ensures
            f == (if self@.len() == 0 {
                None
            } else {
                Some(self@.last())
            }),
    {
        let n: usize = self.stack.len();
        if n == 0 {
            None
        } else {
            Some(self.stack[n - 1])
        }
    }

    /// The number of rays under way.
    pub fn depth(&self) -> (n: usize)
        ensures
            n == self@.len(),
            n <= MAX_DEPTH + 2,
    {
        proof {
            use_type_invariant(self);
            if self.stack@.len() > 0 {
                assert(self.stack@[self.stack@.len() - 1].depth == self.stack@.len() - 1);
            }
        }
        self.stack.len()
    }
}

} // verus!
