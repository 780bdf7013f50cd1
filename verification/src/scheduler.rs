//! The scheduler: the systems of a game with what each depends on, an order
//! that honours the dependencies, and the tick that runs them in that order.

use vstd::prelude::*;
use crate::animator::Animator;
use crate::error::EcsError;
use crate::keyboard::Keyboard;
use crate::model::{ComponentKind, WorldModel};
use crate::physics::Physics;
use crate::world::GameWorld;

verus! {

/// The systems, by name.
#[derive(Debug, Clone, Copy, PartialEq, Eq, Structural)]
pub enum SystemKind {
    Keyboard,
    Physics,
    Animator,
}

impl SystemKind {
    /// The component kinds that the system reads and does not write.
    pub open spec fn reads(self) -> Set<ComponentKind> {
        match self {
            SystemKind::Keyboard => set![ComponentKind::KeyboardControlled],
            SystemKind::Physics => set![ComponentKind::Velocity],
            SystemKind::Animator => set![ComponentKind::Velocity],
        }
    }

    /// The component kinds that the system writes.
    pub open spec fn writes(self) -> Set<ComponentKind> {
        match self {
            SystemKind::Keyboard => set![ComponentKind::Velocity],
            SystemKind::Physics => set![ComponentKind::Position],
            SystemKind::Animator => set![ComponentKind::MovementAnimation, ComponentKind::Sprite],
        }
    }

    /// Whether the system reads the movement command. No system writes it.
    pub open spec fn reads_command(self) -> bool {
        self == SystemKind::Keyboard
    }

    /// Whether two systems touch a common kind that one of them writes: such
    /// systems must not run unordered.
    pub open spec fn conflicts(self, other: SystemKind) -> bool {
        exists|kind: ComponentKind|
            (self.writes().contains(kind) && (other.writes().contains(kind)
                || other.reads().contains(kind))) || (other.writes().contains(kind)
                && self.reads().contains(kind))
    }

    /// What the system reports of a world: the error that it finds there,
    /// if any.
    pub open spec fn outcome(self, world: WorldModel) -> Result<(), EcsError> {
        match self {
            SystemKind::Keyboard => Keyboard::outcome(world),
            SystemKind::Physics => Physics::outcome(world),
            SystemKind::Animator => Animator::outcome(world),
        }
    }

    /// The world after the system has run on it. A system that reports an
    /// error has still done what it could for every other entity.
    pub open spec fn step(self, world: WorldModel) -> WorldModel {
        match self {
            SystemKind::Keyboard => world.input_step(),
            SystemKind::Physics => world.motion_step(),
            SystemKind::Animator => world.animation_step(),
        }
    }

    /// Whether the system reads components of `kind` without writing them.
    pub fn reads_kind(self, kind: ComponentKind) -> (reads: bool)
        ensures
            reads == self.reads().contains(kind),
    {
        match self {
            SystemKind::Keyboard => kind == ComponentKind::KeyboardControlled,
            SystemKind::Physics => kind == ComponentKind::Velocity,
            SystemKind::Animator => kind == ComponentKind::Velocity,
        }
    }

    /// Whether the system writes components of `kind`.
    pub fn writes_kind(self, kind: ComponentKind) -> (writes: bool)
        ensures
            writes == self.writes().contains(kind),
    {
        match self {
            SystemKind::Keyboard => kind == ComponentKind::Velocity,
            SystemKind::Physics => kind == ComponentKind::Position,
            SystemKind::Animator => kind == ComponentKind::MovementAnimation || kind
                == ComponentKind::Sprite,
        }
    }

    /// Whether this system and `other` touch a common kind that one of them
    /// writes.
    pub fn conflicts_with(self, other: SystemKind) -> (conflict: bool)
        ensures
            conflict == self.conflicts(other),
    {
        let conflict = match (self, other) {
            (SystemKind::Physics, SystemKind::Animator) => false,
            (SystemKind::Animator, SystemKind::Physics) => false,
            _ => true,
        };
        proof {
            let shared = match (self, other) {
                (SystemKind::Physics, SystemKind::Physics) => ComponentKind::Position,
                (SystemKind::Animator, SystemKind::Animator) => ComponentKind::Sprite,
                _ => ComponentKind::Velocity,
            };
            if conflict {
                assert((self.writes().contains(shared) && (other.writes().contains(shared)
                    || other.reads().contains(shared))) || (other.writes().contains(shared)
                    && self.reads().contains(shared)));
            }
        }
        conflict
    }

    /// Runs the system on `world`.
    pub fn run(self, world: &mut GameWorld) -> (result: Result<(), EcsError>)
        requires
            old(world).wf(),
        ensures
            final(world).wf(),
            result == self.outcome(old(world)@),
            final(world)@ == self.step(old(world)@),
    {
        match self {
            SystemKind::Keyboard => {
                let mut system = Keyboard;
                system.run(world)
            },
            SystemKind::Physics => {
                let mut system = Physics;
                system.run(world)
            },
            SystemKind::Animator => {
                let mut system = Animator;
                system.run(world)
            },
        }
    }
}

/// How a tick ends: with the error of the first system that reported one,
/// if any, and with the world as that system and those before it left it.
pub struct Ticked {
    pub result: Result<(), EcsError>,
    pub world: WorldModel,
}

/// What running the systems of `order` one after the other makes of `world`.
/// Each system sees what the one before it wrote; the first that reports an
/// error ends the tick, and the systems after it do not run.
pub open spec fn ticked(order: Seq<SystemKind>, world: WorldModel) -> Ticked
    decreases order.len(),
{
    if order.len() == 0 {
        Ticked { result: Ok(()), world }
    } else {
        let before = ticked(order.drop_last(), world);
        if before.result is Err {
            before
        } else {
            Ticked {
                result: order.last().outcome(before.world),
                world: order.last().step(before.world),
            }
        }
    }
}

/// Runs the systems of `order` on `world`, one after the other.
pub fn run_in_order(order: &Vec<SystemKind>, world: &mut GameWorld) -> (result: Result<
    (),
    EcsError,
>)
    requires
        old(world).wf(),
    ensures
        final(world).wf(),
        result == ticked(order@, old(world)@).result,
        final(world)@ == ticked(order@, old(world)@).world,
{
    let ghost start = world@;
    let mut at: usize = 0;
    while at < order.len()
        invariant
            world.wf(),
            start == old(world)@,
            0 <= at <= order.len(),
            ticked(order@.take(at as int), start) == (Ticked { result: Ok(()), world: world@ }),
        decreases order.len() - at,
    {
        let system = order[at];
        let ran = system.run(world);
        at += 1;
        proof {
            assert(order@.take(at as int).drop_last() =~= order@.take(at - 1));
            assert(order@.take(at as int).last() == system);
        }
        if ran.is_err() {
            proof {
                lemma_ticked_stops(order@, at as int, start);
            }
            return ran;
        }
    }
    assert(order@.take(at as int) =~= order@);
    Ok(())
}

/// Once a system has failed, the later ones do not run.
pub proof fn lemma_ticked_stops(order: Seq<SystemKind>, upto: int, world: WorldModel)
    requires
        0 <= upto <= order.len(),
        ticked(order.take(upto), world).result is Err,
    ensures
        ticked(order, world) == ticked(order.take(upto), world),
    decreases order.len() - upto,
{
    if upto < order.len() {
        assert(order.take(upto + 1).drop_last() =~= order.take(upto));
        lemma_ticked_stops(order, upto + 1, world);
    } else {
        assert(order.take(upto) =~= order);
    }
}


/// One system of a game, with the systems that must have run before it in
/// each tick.
#[derive(Debug)]
pub struct SystemDecl {
    pub system: SystemKind,
    pub depends_on: Vec<SystemKind>,
}

/// Why a set of declarations cannot be scheduled.
#[derive(Debug, Clone, Copy, PartialEq, Eq, Structural)]
pub enum ScheduleError {
    /// A system is declared twice.
    DuplicateSystem,
    /// A system depends on one that is not declared.
    UnknownDependency,
    /// The dependencies go round in a circle.
    CyclicDependency,
}

/// The systems that `decls` declares, in the order of their declaration.
pub open spec fn names(decls: Seq<SystemDecl>) -> Seq<SystemKind> {
    decls.map_values(|decl: SystemDecl| decl.system)
}

/// Whether every dependency in `decls` is itself declared there.
pub open spec fn closed(decls: Seq<SystemDecl>) -> bool {
    forall|i: int, k: int|
        0 <= i < decls.len() && 0 <= k < decls[i].depends_on@.len() ==> names(decls).contains(
            #[trigger] decls[i].depends_on@[k],
        )
}

/// Whether `system` stands in `order` before the place `at`.
pub open spec fn before(order: Seq<SystemKind>, system: SystemKind, at: int) -> bool {
    exists|q: int| 0 <= q < at && #[trigger] order[q] == system
}

/// Whether all that `decl` depends on stands in `order`.
pub open spec fn ready(decl: SystemDecl, order: Seq<SystemKind>) -> bool {
    forall|k: int| 0 <= k < decl.depends_on@.len() ==> order.contains(#[trigger] decl.depends_on@[k])
}

/// Whether in `order` every system stands after all that it depends on.
pub open spec fn ordered(decls: Seq<SystemDecl>, order: Seq<SystemKind>) -> bool {
    forall|i: int, p: int, k: int|
        #![trigger order[p], decls[i].depends_on@[k]]
        0 <= i < decls.len() && 0 <= p < order.len() && order[p] == decls[i].system && 0 <= k
            < decls[i].depends_on@.len() ==> before(order, decls[i].depends_on@[k], p)
}

/// Whether `order` is a way to run the systems of `decls`: each of them
/// once, and none before a system that it depends on.
pub open spec fn honours(decls: Seq<SystemDecl>, order: Seq<SystemKind>) -> bool {
    &&& order.no_duplicates()
    &&& forall|system: SystemKind| #[trigger]
        order.contains(system) == names(decls).contains(system)
    &&& ordered(decls, order)
}

/// Whether `system` is in `order`.
fn listed(order: &Vec<SystemKind>, system: SystemKind) -> (found: bool)
    ensures
        found == order@.contains(system),
{
    let mut at: usize = 0;
    while at < order.len()
        invariant
            0 <= at <= order.len(),
            forall|q: int| 0 <= q < at ==> order@[q] != system,
        decreases order.len() - at,
    {
        if order[at] == system {
            return true;
        }
        at += 1;
    }
    false
}

/// Whether `decls` declares `system`.
fn declares(decls: &Vec<SystemDecl>, system: SystemKind) -> (found: bool)
    ensures
        found == names(decls@).contains(system),
{
    let mut at: usize = 0;
    while at < decls.len()
        invariant
            0 <= at <= decls.len(),
            forall|q: int| 0 <= q < at ==> names(decls@)[q] != system,
        decreases decls.len() - at,
    {
        if decls[at].system == system {
            assert(names(decls@)[at as int] == system);
            return true;
        }
        at += 1;
    }
    false
}

/// Whether all that `decl` depends on is in `order`.
fn is_ready(decl: &SystemDecl, order: &Vec<SystemKind>) -> (all: bool)
    ensures
        all == ready(*decl, order@),
{
    let mut at: usize = 0;
    while at < decl.depends_on.len()
        invariant
            0 <= at <= decl.depends_on.len(),
            forall|k: int| 0 <= k < at ==> order@.contains(#[trigger] decl.depends_on@[k]),
        decreases decl.depends_on.len() - at,
    {
        if !listed(order, decl.depends_on[at]) {
            return false;
        }
        at += 1;
    }
    true
}

/// Whether no system is declared twice in `decls`.
fn all_distinct(decls: &Vec<SystemDecl>) -> (distinct: bool)
    ensures
        distinct == names(decls@).no_duplicates(),
{
    let mut at: usize = 0;
    while at < decls.len()
        invariant
            0 <= at <= decls.len(),
            forall|i: int, j: int| 0 <= i < j < at ==> names(decls@)[i] != names(decls@)[j],
        decreases decls.len() - at,
    {
        let mut earlier: usize = 0;
        while earlier < at
            invariant
                0 <= earlier <= at < decls.len(),
                forall|i: int| 0 <= i < earlier ==> names(decls@)[i] != names(decls@)[at as int],
            decreases at - earlier,
        {
            if decls[earlier].system == decls[at].system {
                assert(names(decls@)[earlier as int] == names(decls@)[at as int]);
                return false;
            }
            earlier += 1;
        }
        at += 1;
    }
    true
}

/// Whether every dependency in `decls` is declared there.
fn all_known(decls: &Vec<SystemDecl>) -> (known: bool)
    ensures
        known == closed(decls@),
{
    let mut at: usize = 0;
    while at < decls.len()
        invariant
            0 <= at <= decls.len(),
            forall|i: int, k: int|
                0 <= i < at && 0 <= k < decls@[i].depends_on@.len() ==> names(decls@).contains(
                    #[trigger] decls@[i].depends_on@[k],
                ),
        decreases decls.len() - at,
    {
        let mut dep: usize = 0;
        while dep < decls[at].depends_on.len()
            invariant
                0 <= at < decls.len(),
                0 <= dep <= decls@[at as int].depends_on@.len(),
                forall|k: int|
                    0 <= k < dep ==> names(decls@).contains(
                        #[trigger] decls@[at as int].depends_on@[k],
                    ),
            decreases decls@[at as int].depends_on@.len() - dep,
        {
            if !declares(decls, decls[at].depends_on[dep]) {
                return false;
            }
            dep += 1;
        }
        at += 1;
    }
    true
}

/// Two lists without repetitions that hold the same items are equally long.
proof fn lemma_same_length(first: Seq<SystemKind>, second: Seq<SystemKind>)
    requires
        first.no_duplicates(),
        second.no_duplicates(),
        forall|system: SystemKind| #[trigger] first.contains(system) == second.contains(system),
    ensures
        first.len() == second.len(),
{
    first.unique_seq_to_set();
    second.unique_seq_to_set();
    assert(first.to_set() =~= second.to_set());
}

/// A list without repetitions that is longer than another holds an item that
/// the other lacks; `at` is the first place of such an item.
proof fn lemma_first_missing(longer: Seq<SystemKind>, shorter: Seq<SystemKind>) -> (at: int)
    requires
        longer.no_duplicates(),
        shorter.no_duplicates(),
        longer.len() > shorter.len(),
    ensures
        0 <= at < longer.len(),
        !shorter.contains(longer[at]),
        forall|q: int| 0 <= q < at ==> shorter.contains(#[trigger] longer[q]),
{
    if forall|q: int| 0 <= q < longer.len() ==> shorter.contains(#[trigger] longer[q]) {
        longer.unique_seq_to_set();
        shorter.unique_seq_to_set();
        vstd::seq_lib::seq_to_set_is_finite(shorter);
        assert(longer.to_set().subset_of(shorter.to_set())) by {
            assert forall|system: SystemKind| longer.to_set().contains(system) implies shorter.to_set().contains(
                system,
            ) by {
                let q = choose|q: int| 0 <= q < longer.len() && longer[q] == system;
                assert(shorter.contains(longer[q]));
            }
        }
        vstd::set_lib::lemma_len_subset(longer.to_set(), shorter.to_set());
    }
    let some = choose|q: int| 0 <= q < longer.len() && !shorter.contains(#[trigger] longer[q]);
    lemma_least_missing(longer, shorter, some)
}

/// The first place at or before `upto` of an item that `shorter` lacks.
proof fn lemma_least_missing(longer: Seq<SystemKind>, shorter: Seq<SystemKind>, upto: int) -> (at:
    int)
    requires
        0 <= upto < longer.len(),
        !shorter.contains(longer[upto]),
    ensures
        0 <= at <= upto,
        !shorter.contains(longer[at]),
        forall|q: int| 0 <= q < at ==> shorter.contains(#[trigger] longer[q]),
    decreases upto,
{
    if exists|q: int| 0 <= q < upto && !shorter.contains(#[trigger] longer[q]) {
        let q = choose|q: int| 0 <= q < upto && !shorter.contains(#[trigger] longer[q]);
        lemma_least_missing(longer, shorter, q)
    } else {
        upto
    }
}

/// Where systems are left over and none of them is ready, no order honours
/// the declarations: the first system of such an order that is left over
/// would have all it depends on before it, and so be ready.
proof fn lemma_stuck(decls: Seq<SystemDecl>, order: Seq<SystemKind>)
    requires
        names(decls).no_duplicates(),
        order.no_duplicates(),
        order.len() < decls.len(),
        forall|i: int|
            0 <= i < decls.len() ==> order.contains(#[trigger] decls[i].system) || !ready(
                decls[i],
                order,
            ),
    ensures
        forall|other: Seq<SystemKind>| !honours(decls, other),
{
    assert forall|other: Seq<SystemKind>| !honours(decls, other) by {
        if honours(decls, other) {
            lemma_same_length(other, names(decls));
            let p = lemma_first_missing(other, order);
            assert(other.contains(other[p]));
            assert(names(decls).contains(other[p]));
            let i = choose|i: int| 0 <= i < names(decls).len() && names(decls)[i] == other[p];
            assert(decls[i].system == other[p]);
            assert(!ready(decls[i], order));
            let k = choose|k: int|
                0 <= k < decls[i].depends_on@.len() && !order.contains(
                    #[trigger] decls[i].depends_on@[k],
                );
            assert(before(other, decls[i].depends_on@[k], p));
            let q = choose|q: int| 0 <= q < p && #[trigger] other[q] == decls[i].depends_on@[k];
            assert(order.contains(other[q]));
        }
    }
}

/// An order without repetitions that is as long as the declarations, and
/// made of declared systems only, holds each of them.
proof fn lemma_covers(decls: Seq<SystemDecl>, order: Seq<SystemKind>)
    requires
        names(decls).no_duplicates(),
        order.no_duplicates(),
        order.len() == decls.len(),
        forall|p: int| 0 <= p < order.len() ==> names(decls).contains(#[trigger] order[p]),
    ensures
        forall|system: SystemKind| #[trigger]
            order.contains(system) == names(decls).contains(system),
{
    order.unique_seq_to_set();
    names(decls).unique_seq_to_set();
    vstd::seq_lib::seq_to_set_is_finite(order);
    vstd::seq_lib::seq_to_set_is_finite(names(decls));
    assert(order.to_set().subset_of(names(decls).to_set()));
    vstd::set_lib::lemma_subset_equality(order.to_set(), names(decls).to_set());
    assert forall|system: SystemKind| #[trigger]
        order.contains(system) == names(decls).contains(system) by {
        assert(order.to_set().contains(system) == names(decls).to_set().contains(system));
    }
}

/// A declaration that is left over and ready, if there is one.
fn next_ready(decls: &Vec<SystemDecl>, order: &Vec<SystemKind>) -> (next: Option<usize>)
    ensures
        match next {
            Some(i) => i < decls.len() && !order@.contains(decls@[i as int].system) && ready(
                decls@[i as int],
                order@,
            ),
            None => forall|i: int|
                0 <= i < decls.len() ==> order@.contains(#[trigger] decls@[i].system) || !ready(
                    decls@[i],
                    order@,
                ),
        },
{
    let mut at: usize = 0;
    while at < decls.len()
        invariant
            0 <= at <= decls.len(),
            forall|i: int|
                0 <= i < at ==> order@.contains(#[trigger] decls@[i].system) || !ready(
                    decls@[i],
                    order@,
                ),
        decreases decls.len() - at,
    {
        if !listed(order, decls[at].system) && is_ready(&decls[at], order) {
            return Some(at);
        }
        at += 1;
    }
    None
}

/// A scheduler: the declarations of a game and the order in which a tick
/// runs their systems. Both are fixed once the scheduler is made.
pub struct Scheduler {
    decls: Vec<SystemDecl>,
    order: Vec<SystemKind>,
}

impl Scheduler {
    /// The declarations that the scheduler was made from.
    pub closed spec fn declarations(&self) -> Seq<SystemDecl> {
        self.decls@
    }

    /// The order in which a tick runs the systems.
    pub closed spec fn plan(&self) -> Seq<SystemKind> {
        self.order@
    }

    /// Makes a scheduler for `decls`, with an order that honours them. There
    /// is none where a system is declared twice, where a dependency is not
    /// declared, or where the dependencies go round in a circle.
    pub fn new(decls: Vec<SystemDecl>) -> (result: Result<Scheduler, ScheduleError>)
        ensures
            match result {
                Ok(scheduler) => scheduler.declarations() == decls@ && honours(
                    decls@,
                    scheduler.plan(),
                ),
                Err(ScheduleError::DuplicateSystem) => !names(decls@).no_duplicates(),
                Err(ScheduleError::UnknownDependency) => names(decls@).no_duplicates() && !closed(
                    decls@,
                ),
                Err(ScheduleError::CyclicDependency) => names(decls@).no_duplicates() && closed(
                    decls@,
                ) && forall|order: Seq<SystemKind>| !honours(decls@, order),
            },
    {
        if !all_distinct(&decls) {
            return Err(ScheduleError::DuplicateSystem);
        }
        if !all_known(&decls) {
            return Err(ScheduleError::UnknownDependency);
        }
        let mut order: Vec<SystemKind> = Vec::new();
        while order.len() < decls.len()
            invariant
                names(decls@).no_duplicates(),
                closed(decls@),
                order@.no_duplicates(),
                order.len() <= decls.len(),
                forall|p: int| 0 <= p < order.len() ==> names(decls@).contains(#[trigger] order@[p]),
                ordered(decls@, order@),
            decreases decls.len() - order.len(),
        {
            match next_ready(&decls, &order) {
                None => {
                    proof {
                        lemma_stuck(decls@, order@);
                    }
                    return Err(ScheduleError::CyclicDependency);
                },
                Some(i) => {
                    let ghost earlier = order@;
                    let system = decls[i].system;
                    order.push(system);
                    proof {
                        assert(names(decls@)[i as int] == system);
                        assert forall|j: int, p: int, k: int|
                            #![trigger order@[p], decls@[j].depends_on@[k]]
                            0 <= j < decls.len() && 0 <= p < order.len() && order@[p]
                                == decls@[j].system && 0 <= k
                                < decls@[j].depends_on@.len() implies before(
                            order@,
                            decls@[j].depends_on@[k],
                            p,
                        ) by {
                            let wanted = decls@[j].depends_on@[k];
                            if p < earlier.len() {
                                assert(earlier[p] == decls@[j].system);
                                assert(before(earlier, wanted, p));
                                let q = choose|q: int| 0 <= q < p && #[trigger] earlier[q] == wanted;
                                assert(order@[q] == wanted);
                            } else {
                                assert(names(decls@)[j] == names(decls@)[i as int]);
                                assert(j == i);
                                assert(earlier.contains(wanted));
                                let q = choose|q: int| 0 <= q < earlier.len() && earlier[q] == wanted;
                                assert(order@[q] == wanted);
                            }
                        }
                    }
                },
            }
        }
        proof {
            lemma_covers(decls@, order@);
        }
        Ok(Scheduler { decls, order })
    }

    /// The scheduler of the game as it stands: the input pass first, then
    /// the motion pass and the animation pass, which both depend on it and
    /// not on each other.
    pub fn standard() -> (scheduler: Scheduler)
        ensures
            is_standard(scheduler.declarations()),
            honours(scheduler.declarations(), scheduler.plan()),
    {
        let decls = standard_declarations();
        let ghost shown = decls@;
        let result = Scheduler::new(decls);
        proof {
            let order = seq![SystemKind::Keyboard, SystemKind::Physics, SystemKind::Animator];
            assert(names(shown) =~= order);
            assert(order[0] == SystemKind::Keyboard);
            assert(honours(shown, order)) by {
                assert forall|system: SystemKind| #[trigger]
                    order.contains(system) == names(shown).contains(system) by {}
                assert forall|i: int, p: int, k: int|
                    #![trigger order[p], shown[i].depends_on@[k]]
                    0 <= i < shown.len() && 0 <= p < order.len() && order[p] == shown[i].system
                        && 0 <= k < shown[i].depends_on@.len() implies before(
                    order,
                    shown[i].depends_on@[k],
                    p,
                ) by {
                    assert(shown[i].depends_on@[k] == SystemKind::Keyboard);
                    assert(p >= 1);
                    assert(order[0] == SystemKind::Keyboard);
                }
            }
            assert(closed(shown)) by {
                assert forall|i: int, k: int|
                    0 <= i < shown.len() && 0 <= k < shown[i].depends_on@.len() implies names(
                    shown,
                ).contains(#[trigger] shown[i].depends_on@[k]) by {
                    assert(names(shown)[0] == SystemKind::Keyboard);
                }
            }
        }
        result.unwrap()
    }

    /// The order in which a tick runs the systems.
    pub fn order(&self) -> (order: &Vec<SystemKind>)
        ensures
            order@ == self.plan(),
    {
        &self.order
    }

    /// Runs one tick: the systems in the order of the plan, each on what the
    /// one before it left. The first system that reports an error ends the
    /// tick with that error, and the systems after it do not run.
    pub fn tick(&self, world: &mut GameWorld) -> (result: Result<(), EcsError>)
        requires
            old(world).wf(),
        ensures
            final(world).wf(),
            result == ticked(self.plan(), old(world)@).result,
            final(world)@ == ticked(self.plan(), old(world)@).world,
    {
        run_in_order(&self.order, world)
    }
}

/// Whether `decls` are the declarations of the game as it stands: the input
/// pass, on which the motion pass and the animation pass depend.
pub open spec fn is_standard(decls: Seq<SystemDecl>) -> bool {
    &&& decls.len() == 3
    &&& decls[0].system == SystemKind::Keyboard
    &&& decls[0].depends_on@ == Seq::<SystemKind>::empty()
    &&& decls[1].system == SystemKind::Physics
    &&& decls[1].depends_on@ == seq![SystemKind::Keyboard]
    &&& decls[2].system == SystemKind::Animator
    &&& decls[2].depends_on@ == seq![SystemKind::Keyboard]
}

/// The declarations of the game as it stands.
pub fn standard_declarations() -> (decls: Vec<SystemDecl>)
    ensures
        is_standard(decls@),
{
    let mut decls: Vec<SystemDecl> = Vec::new();
    decls.push(SystemDecl { system: SystemKind::Keyboard, depends_on: Vec::new() });
    let mut after_input: Vec<SystemKind> = Vec::new();
    after_input.push(SystemKind::Keyboard);
    decls.push(SystemDecl { system: SystemKind::Physics, depends_on: after_input });
    let mut after_input: Vec<SystemKind> = Vec::new();
    after_input.push(SystemKind::Keyboard);
    decls.push(SystemDecl { system: SystemKind::Animator, depends_on: after_input });
    assert(decls@[1].depends_on@ =~= seq![SystemKind::Keyboard]);
    assert(decls@[2].depends_on@ =~= seq![SystemKind::Keyboard]);
    decls
}

} // verus!
