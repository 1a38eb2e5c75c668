//! The life of the app as the system tells it, and who is told of it.

use crate::text;
use vstd::prelude::*;
use vstd::utf8::*;

verus! {

/// What the system tells of the app.
#[derive(Clone, Copy, Debug, PartialEq, Eq, Structural)]
pub enum IosLifecycleEvent {
    DidBecomeActive,
    WillResignActive,
    DidEnterBackground,
    WillEnterForeground,
    WillTerminate,
}

/// What the app is doing.
#[derive(Clone, Copy, Debug, PartialEq, Eq, Structural)]
pub enum AppLifecycleState {
    NotInitialized,
    Inactive,
    Active,
    Background,
    Terminating,
}

/// What the app does once the system has told something of it.
pub open spec fn state_after(event: IosLifecycleEvent) -> AppLifecycleState {
    match event {
        IosLifecycleEvent::DidBecomeActive => AppLifecycleState::Active,
        IosLifecycleEvent::WillResignActive => AppLifecycleState::Inactive,
        IosLifecycleEvent::DidEnterBackground => AppLifecycleState::Background,
        IosLifecycleEvent::WillEnterForeground => AppLifecycleState::Inactive,
        IosLifecycleEvent::WillTerminate => AppLifecycleState::Terminating,
    }
}

/// Those who are told of the life of the app, by their numbers. While they are told, new
/// ones wait, and those who left are noted.
#[derive(Clone, Debug, PartialEq, Eq)]
pub struct IosLifecycleObserverRegistry {
    /// None before anything was told, and while something is.
    pub observers: Option<Vec<usize>>,
    pub pending_observers: Vec<usize>,
    pub dropped_during_dispatch: Vec<usize>,
    pub next_observer_id: usize,
}

/// Those who are told.
pub struct RegistryView {
    pub observers: Option<Seq<usize>>,
    pub pending: Seq<usize>,
    pub dropped: Seq<usize>,
    pub next: int,
}

impl View for IosLifecycleObserverRegistry {
    type V = RegistryView;

    open spec fn view(&self) -> RegistryView {
        RegistryView {
            observers: match self.observers {
                Some(observers) => Some(observers@),
                None => None,
            },
            pending: self.pending_observers@,
            dropped: self.dropped_during_dispatch@,
            next: self.next_observer_id as int,
        }
    }
}

/// Whether numbers stand in their order, each once, all below a limit.
pub open spec fn in_order(ids: Seq<usize>, limit: int) -> bool {
    &&& forall|i: int, j: int| 0 <= i < j < ids.len() ==> (#[trigger] ids[i]) < (#[trigger] ids[j])
    &&& forall|i: int| 0 <= i < ids.len() ==> (#[trigger] ids[i]) < limit
}

/// What holds of the registry at all times: every number was given out, and the lists are
/// in the order in which they were.
pub open spec fn registry_wf(registry: RegistryView) -> bool {
    &&& registry.observers matches Some(observers) ==> in_order(observers, registry.next)
    &&& in_order(registry.pending, registry.next)
}

/// A list without the numbers of another one.
pub open spec fn without(ids: Seq<usize>, dropped: Seq<usize>) -> Seq<usize>
    decreases ids.len(),
{
    if ids.len() == 0 {
        ids
    } else if dropped.contains(ids.last()) {
        without(ids.drop_last(), dropped)
    } else {
        without(ids.drop_last(), dropped).push(ids.last())
    }
}

/// The registry with one more observer.
pub open spec fn observed(registry: RegistryView) -> RegistryView {
    match registry.observers {
        Some(observers) => RegistryView {
            observers: Some(observers.push(registry.next as usize)),
            next: registry.next + 1,
            ..registry
        },
        None => RegistryView {
            pending: registry.pending.push(registry.next as usize),
            next: registry.next + 1,
            ..registry
        },
    }
}

/// The registry once an observer has left.
pub open spec fn unobserved(registry: RegistryView, id: usize) -> RegistryView {
    match registry.observers {
        Some(observers) => RegistryView { observers: Some(without(observers, seq![id])), ..registry },
        None => if registry.pending.contains(id) {
            RegistryView { pending: without(registry.pending, seq![id]), ..registry }
        } else {
            RegistryView { dropped: registry.dropped.push(id), ..registry }
        },
    }
}

/// Those who are told now.
pub open spec fn told_now(registry: RegistryView) -> Seq<usize> {
    match registry.observers {
        Some(observers) => observers,
        None => Seq::empty(),
    }
}

/// The registry while something is told.
pub open spec fn telling(registry: RegistryView) -> RegistryView {
    RegistryView { observers: None, ..registry }
}

fn holds_id(ids: &[usize], id: usize) -> (yes: bool)
    ensures
        yes == ids@.contains(id),
{
    let mut i: usize = 0;
    while i < ids.len()
        invariant
            i <= ids@.len(),
            forall|j: int| 0 <= j < i ==> ids@[j] != id,
        decreases ids@.len() - i,
    {
        if ids[i] == id {
            assert(ids@[i as int] == id);
            return true;
        }
        i = i + 1;
    }
    false
}

fn remove_ids(ids: &[usize], dropped: &[usize]) -> (result: Vec<usize>)
    ensures
        result@ == without(ids@, dropped@),
{
    let mut result: Vec<usize> = Vec::new();
    let mut i: usize = 0;
    while i < ids.len()
        invariant
            i <= ids@.len(),
            result@ == without(ids@.take(i as int), dropped@),
        decreases ids@.len() - i,
    {
        proof {
            let taken = ids@.take(i + 1);
            assert(taken.drop_last() =~= ids@.take(i as int));
            assert(taken.last() == ids@[i as int]);
        }
        if !holds_id(dropped, ids[i]) {
            result.push(ids[i]);
        }
        i = i + 1;
    }
    assert(ids@.take(ids@.len() as int) =~= ids@);
    result
}

fn remove_id(ids: &[usize], id: usize) -> (result: Vec<usize>)
    ensures
        result@ == without(ids@, seq![id]),
{
    let dropped = vec![id];
    assert(dropped@ =~= seq![id]);
    remove_ids(ids, dropped.as_slice())
}

proof fn lemma_without_holds(ids: Seq<usize>, dropped: Seq<usize>, id: usize)
    ensures
        without(ids, dropped).contains(id) <==> ids.contains(id) && !dropped.contains(id),
    decreases ids.len(),
{
    if ids.len() > 0 {
        let shorter = ids.drop_last();
        let last = ids.last();
        let kept = without(shorter, dropped);
        lemma_without_holds(shorter, dropped, id);
        assert(ids =~= shorter.push(last));
        assert(ids.contains(id) <==> shorter.contains(id) || id == last) by {
            if shorter.contains(id) {
                let k = choose|k: int| 0 <= k < shorter.len() && shorter[k] == id;
                assert(ids[k] == id);
            }
            if id == last {
                assert(ids[ids.len() - 1] == id);
            }
        }
        assert(kept.push(last).contains(id) <==> kept.contains(id) || id == last) by {
            if kept.contains(id) {
                let k = choose|k: int| 0 <= k < kept.len() && kept[k] == id;
                assert(kept.push(last)[k] == id);
            }
            if id == last {
                assert(kept.push(last)[kept.len() as int] == id);
            }
        }
    }
}

proof fn lemma_without_in_order(ids: Seq<usize>, dropped: Seq<usize>, limit: int)
    requires
        in_order(ids, limit),
    ensures
        in_order(without(ids, dropped), limit),
    decreases ids.len(),
{
    if ids.len() > 0 {
        let shorter = ids.drop_last();
        let kept = without(shorter, dropped);
        lemma_without_in_order(shorter, dropped, limit);
        assert forall|i: int| 0 <= i < kept.len() implies (#[trigger] kept[i]) < ids.last() by {
            lemma_without_holds(shorter, dropped, kept[i]);
            assert(kept.contains(kept[i]));
            let k = choose|k: int| 0 <= k < shorter.len() && shorter[k] == kept[i];
            assert(ids[k] < ids[ids.len() - 1]);
        }
    }
}

/// The registry once all were told: those who left meanwhile are gone, and those who came
/// meanwhile are there.
pub open spec fn told_all(registry: RegistryView, told: Seq<usize>) -> RegistryView {
    RegistryView {
        observers: Some(without(told, registry.dropped) + registry.pending),
        pending: Seq::empty(),
        dropped: Seq::empty(),
        ..registry
    }
}

impl IosLifecycleObserverRegistry {
    /// Whether every number was given out, and the lists are in order.
    pub open spec fn wf(self) -> bool {
        registry_wf(self@)
    }

    /// A registry without observers.
    pub fn new() -> (registry: Self)
        ensures
            registry.wf(),
            registry@ == (RegistryView {
                observers: None,
                pending: Seq::empty(),
                dropped: Seq::empty(),
                next: 0,
            }),
    {
        IosLifecycleObserverRegistry {
            observers: None,
            pending_observers: Vec::new(),
            dropped_during_dispatch: Vec::new(),
            next_observer_id: 0,
        }
    }

    /// Lets an observer go.
    pub fn remove_observer(&mut self, id: usize)
        requires
            old(self).wf(),
        ensures
            final(self).wf(),
            final(self)@ == unobserved(old(self)@, id),
    {
        let ghost before = self@;
        match self.observers.take() {
            Some(observers) => {
                let rest = remove_id(observers.as_slice(), id);
                proof {
                    lemma_without_in_order(observers@, seq![id], before.next);
                }
                self.observers = Some(rest);
            },
            None => {
                if holds_id(self.pending_observers.as_slice(), id) {
                    proof {
                        lemma_without_in_order(before.pending, seq![id], before.next);
                    }
                    self.pending_observers = remove_id(self.pending_observers.as_slice(), id);
                } else {
                    self.dropped_during_dispatch.push(id);
                }
            },
        }
    }

    /// Ends telling something, to those who were told.
    pub fn finish_dispatch(&mut self, told: Vec<usize>)
        requires
            old(self).wf(),
            in_order(told@ + old(self)@.pending, old(self)@.next),
        ensures
            final(self).wf(),
            final(self)@ == told_all(old(self)@, told@),
    {
        let ghost before = self@;
        let mut observers = remove_ids(told.as_slice(), self.dropped_during_dispatch.as_slice());
        proof {
            let both = told@ + before.pending;
            assert forall|i: int, j: int| 0 <= i < j < told@.len() implies (#[trigger] told@[i])
                < (#[trigger] told@[j]) by {
                assert(both[i] < both[j]);
            }
            assert forall|i: int| 0 <= i < told@.len() implies (#[trigger] told@[i])
                < before.next by {
                assert(both[i] < before.next);
            }
            lemma_without_in_order(told@, before.dropped, before.next);
            let kept = without(told@, before.dropped);
            assert forall|i: int, j: int|
                0 <= i < kept.len() && 0 <= j < before.pending.len() implies (#[trigger] kept[i])
                < (#[trigger] before.pending[j]) by {
                lemma_without_holds(told@, before.dropped, kept[i]);
                assert(kept.contains(kept[i]));
                let k = choose|k: int| 0 <= k < told@.len() && told@[k] == kept[i];
                assert(both[k] < both[told@.len() + j]);
            }
        }
        observers.append(&mut self.pending_observers);
        self.observers = Some(observers);
        self.dropped_during_dispatch = Vec::new();
        proof {
            assert(self@.pending =~= Seq::empty());
            assert(self@.observers->0 =~= without(told@, before.dropped) + before.pending);
        }
    }
}

/// Takes an observer in; its number.
pub fn observe_ios_lifecycle(registry: &mut IosLifecycleObserverRegistry) -> (id: usize)
    requires
        old(registry).wf(),
        old(registry)@.next < usize::MAX,
    ensures
        final(registry).wf(),
        id == old(registry)@.next,
        final(registry)@ == observed(old(registry)@),
{
    let id: usize = registry.next_observer_id;
    registry.next_observer_id = id + 1;
    match registry.observers.take() {
        Some(mut observers) => {
            observers.push(id);
            registry.observers = Some(observers);
        },
        None => {
            registry.pending_observers.push(id);
        },
    }
    id
}

/// Begins to tell something: who is told, in this order.
pub fn dispatch_lifecycle_event(registry: &mut IosLifecycleObserverRegistry) -> (told: Vec<usize>)
    requires
        old(registry).wf(),
    ensures
        final(registry).wf(),
        told@ == told_now(old(registry)@),
        final(registry)@ == telling(old(registry)@),
        in_order(told@, old(registry)@.next),
{
    match registry.observers.take() {
        Some(observers) => observers,
        None => Vec::new(),
    }
}

/// One who comes while something is told is not told of it, but is told the next time.
pub proof fn law_newcomers_are_told_next_time(registry: RegistryView)
    requires
        registry_wf(registry),
        registry.observers is Some,
        registry.next < usize::MAX,
    ensures
        ({
            let newcomer = registry.next as usize;
            let told = told_now(registry);
            let after = told_all(observed(telling(registry)), told);
            &&& !told.contains(newcomer)
            &&& told_now(after).contains(newcomer)
        }),
{
    let newcomer = registry.next as usize;
    let during = observed(telling(registry));
    let after = told_all(during, told_now(registry));
    let kept = without(told_now(registry), during.dropped);
    assert(during.pending.last() == newcomer);
    assert(told_now(after)[kept.len() + during.pending.len() - 1] == newcomer);
}

/// The registry in the course of time: those who are being told something, if something is told.
pub struct CourseView {
    pub registry: RegistryView,
    pub told: Option<Seq<usize>>,
}

/// What holds in the course of time: nobody waits and nobody is noted to have left unless
/// something is told or nothing was told yet, and those who wait came after those who are told.
pub open spec fn course_wf(course: CourseView) -> bool {
    &&& registry_wf(course.registry)
    &&& 0 <= course.registry.next <= usize::MAX
    &&& course.registry.observers is Some ==> {
        &&& course.told is None
        &&& course.registry.pending.len() == 0
        &&& course.registry.dropped.len() == 0
    }
    &&& course.told matches Some(told) ==> in_order(
        told + course.registry.pending,
        course.registry.next,
    )
}

/// What happens to the registry.
pub enum Happening {
    /// One more observer comes.
    Join,
    /// An observer leaves.
    Leave(usize),
    /// Something begins to be told.
    Begin,
    /// All were told.
    Finish,
}

/// Whether something can happen now: nothing is told while something else is, and there is a
/// number for one who comes.
pub open spec fn can_happen(course: CourseView, happening: Happening) -> bool {
    match happening {
        Happening::Join => course.registry.next < usize::MAX,
        Happening::Leave(_) => true,
        Happening::Begin => course.told is None,
        Happening::Finish => course.told is Some,
    }
}

/// The registry once something has happened.
pub open spec fn happened(course: CourseView, happening: Happening) -> CourseView {
    match happening {
        Happening::Join => CourseView { registry: observed(course.registry), ..course },
        Happening::Leave(id) => CourseView { registry: unobserved(course.registry, id), ..course },
        Happening::Begin => CourseView {
            registry: telling(course.registry),
            told: Some(told_now(course.registry)),
        },
        Happening::Finish => CourseView {
            registry: told_all(course.registry, course.told->0),
            told: None,
        },
    }
}

/// The registry once one thing after another has happened.
pub open spec fn all_happened(course: CourseView, happenings: Seq<Happening>) -> CourseView
    decreases happenings.len(),
{
    if happenings.len() == 0 {
        course
    } else {
        happened(all_happened(course, happenings.drop_last()), happenings.last())
    }
}

/// Whether one thing after another can happen.
pub open spec fn all_can_happen(course: CourseView, happenings: Seq<Happening>) -> bool
    decreases happenings.len(),
{
    happenings.len() > 0 ==> all_can_happen(course, happenings.drop_last()) && can_happen(
        all_happened(course, happenings.drop_last()),
        happenings.last(),
    )
}

proof fn lemma_in_order_parts(first: Seq<usize>, second: Seq<usize>, limit: int)
    requires
        in_order(first + second, limit),
    ensures
        in_order(first, limit),
        in_order(second, limit),
        forall|i: int, j: int|
            0 <= i < first.len() && 0 <= j < second.len() ==> (#[trigger] first[i])
                < #[trigger] second[j],
{
    let both = first + second;
    assert forall|i: int, j: int| 0 <= i < j < first.len() implies (#[trigger] first[i]) < (
    #[trigger] first[j]) by {
        assert(both[i] < both[j]);
    }
    assert forall|i: int| 0 <= i < first.len() implies (#[trigger] first[i]) < limit by {
        assert(both[i] < limit);
    }
    assert forall|i: int, j: int| 0 <= i < j < second.len() implies (#[trigger] second[i]) < (
    #[trigger] second[j]) by {
        assert(both[first.len() + i] < both[first.len() + j]);
    }
    assert forall|i: int| 0 <= i < second.len() implies (#[trigger] second[i]) < limit by {
        assert(both[first.len() + i] < limit);
    }
    assert forall|i: int, j: int|
        0 <= i < first.len() && 0 <= j < second.len() implies (#[trigger] first[i])
        < #[trigger] second[j] by {
        assert(both[i] < both[first.len() + j]);
    }
}

proof fn lemma_in_order_joined(first: Seq<usize>, second: Seq<usize>, limit: int)
    requires
        in_order(first, limit),
        in_order(second, limit),
        forall|i: int, j: int|
            0 <= i < first.len() && 0 <= j < second.len() ==> (#[trigger] first[i])
                < #[trigger] second[j],
    ensures
        in_order(first + second, limit),
{
}

proof fn lemma_kept_stay_below(first: Seq<usize>, dropped: Seq<usize>, bound: int)
    requires
        forall|i: int| 0 <= i < first.len() ==> (#[trigger] first[i]) < bound,
    ensures
        forall|i: int|
            0 <= i < without(first, dropped).len() ==> (#[trigger] without(first, dropped)[i])
                < bound,
{
    let kept = without(first, dropped);
    assert forall|i: int| 0 <= i < kept.len() implies (#[trigger] kept[i]) < bound by {
        lemma_without_holds(first, dropped, kept[i]);
        assert(kept.contains(kept[i]));
        let k = choose|k: int| 0 <= k < first.len() && first[k] == kept[i];
        assert(first[k] < bound);
    }
}

proof fn lemma_course_stays_sound(course: CourseView, happening: Happening)
    requires
        course_wf(course),
        can_happen(course, happening),
    ensures
        course_wf(happened(course, happening)),
        happened(course, happening).registry.next >= course.registry.next,
{
    let registry = course.registry;
    let told = match course.told {
        Some(told) => told,
        None => Seq::empty(),
    };
    assert(Seq::<usize>::empty() + registry.pending =~= registry.pending);
    lemma_in_order_parts(told, registry.pending, registry.next);
    match happening {
        Happening::Join => {
            if registry.observers is None {
                assert(told + registry.pending.push(registry.next as usize) =~= (told
                    + registry.pending).push(registry.next as usize));
            }
        },
        Happening::Leave(id) => {
            match registry.observers {
                Some(observers) => {
                    lemma_without_in_order(observers, seq![id], registry.next);
                },
                None => {
                    let kept = without(registry.pending, seq![id]);
                    lemma_without_in_order(registry.pending, seq![id], registry.next);
                    assert forall|i: int, j: int|
                        0 <= i < told.len() && 0 <= j < kept.len() implies (#[trigger] told[i])
                        < #[trigger] kept[j] by {
                        lemma_without_holds(registry.pending, seq![id], kept[j]);
                        assert(kept.contains(kept[j]));
                        let k = choose|k: int|
                            0 <= k < registry.pending.len() && registry.pending[k] == kept[j];
                        assert(told[i] < registry.pending[k]);
                    }
                    lemma_in_order_joined(told, kept, registry.next);
                },
            }
        },
        Happening::Begin => {
            let begun = told_now(registry);
            if registry.observers is Some {
                assert(begun + registry.pending =~= begun);
            } else {
                assert(begun + registry.pending =~= registry.pending);
            }
        },
        Happening::Finish => {
            let kept = without(told, registry.dropped);
            lemma_without_in_order(told, registry.dropped, registry.next);
            assert forall|i: int, j: int|
                0 <= i < kept.len() && 0 <= j < registry.pending.len() implies (#[trigger] kept[i])
                < #[trigger] registry.pending[j] by {
                lemma_kept_stay_below(told, registry.dropped, registry.pending[j] as int);
            }
            lemma_in_order_joined(kept, registry.pending, registry.next);
        },
    }
}

/// Whether one will be told of what is told from now on.
pub open spec fn stays_registered(course: CourseView, id: usize) -> bool {
    ||| course.registry.observers matches Some(observers) && observers.contains(id)
    ||| course.registry.pending.contains(id)
    ||| course.told matches Some(told) && told.contains(id) && !course.registry.dropped.contains(id)
}

proof fn lemma_contains_push(ids: Seq<usize>, last: usize, id: usize)
    ensures
        ids.push(last).contains(id) <==> ids.contains(id) || id == last,
{
    if ids.contains(id) {
        let k = choose|k: int| 0 <= k < ids.len() && ids[k] == id;
        assert(ids.push(last)[k] == id);
    }
    if id == last {
        assert(ids.push(last)[ids.len() as int] == id);
    }
}

proof fn lemma_contains_joined(first: Seq<usize>, second: Seq<usize>, id: usize)
    ensures
        (first + second).contains(id) <==> first.contains(id) || second.contains(id),
{
    if first.contains(id) {
        let k = choose|k: int| 0 <= k < first.len() && first[k] == id;
        assert((first + second)[k] == id);
    }
    if second.contains(id) {
        let k = choose|k: int| 0 <= k < second.len() && second[k] == id;
        assert((first + second)[first.len() + k] == id);
    }
}

proof fn lemma_leaving_removes(course: CourseView, id: usize)
    requires
        course_wf(course),
    ensures
        !stays_registered(happened(course, Happening::Leave(id)), id),
{
    let registry = course.registry;
    assert(seq![id][0] == id);
    lemma_without_holds(told_now(registry), seq![id], id);
    lemma_without_holds(registry.pending, seq![id], id);
    lemma_contains_push(registry.dropped, id, id);
    if course.told is Some {
        lemma_in_order_parts(course.told->0, registry.pending, registry.next);
    }
}

proof fn lemma_nobody_comes_back(course: CourseView, happening: Happening, id: usize)
    requires
        course_wf(course),
        can_happen(course, happening),
        id < course.registry.next,
        !stays_registered(course, id),
    ensures
        !stays_registered(happened(course, happening), id),
{
    let registry = course.registry;
    match happening {
        Happening::Join => {
            let newcomer = registry.next as usize;
            lemma_contains_push(told_now(registry), newcomer, id);
            lemma_contains_push(registry.pending, newcomer, id);
        },
        Happening::Leave(other) => {
            lemma_without_holds(told_now(registry), seq![other], id);
            lemma_without_holds(registry.pending, seq![other], id);
            lemma_contains_push(registry.dropped, other, id);
        },
        Happening::Begin => {},
        Happening::Finish => {
            lemma_without_holds(course.told->0, registry.dropped, id);
            lemma_contains_joined(
                without(course.told->0, registry.dropped),
                registry.pending,
                id,
            );
        },
    }
}

proof fn lemma_nobody_ever_comes_back(course: CourseView, happenings: Seq<Happening>, id: usize)
    requires
        course_wf(course),
        all_can_happen(course, happenings),
        id < course.registry.next,
        !stays_registered(course, id),
    ensures
        course_wf(all_happened(course, happenings)),
        id < all_happened(course, happenings).registry.next,
        !stays_registered(all_happened(course, happenings), id),
    decreases happenings.len(),
{
    if happenings.len() > 0 {
        let before = all_happened(course, happenings.drop_last());
        lemma_nobody_ever_comes_back(course, happenings.drop_last(), id);
        lemma_course_stays_sound(before, happenings.last());
        lemma_nobody_comes_back(before, happenings.last(), id);
    }
}

/// One who has left, while something was told or while nothing was, is told nothing that begins
/// to be told later, whoever else comes and leaves.
pub proof fn law_those_who_left_are_not_told(
    course: CourseView,
    id: usize,
    happenings: Seq<Happening>,
)
    requires
        course_wf(course),
        id < course.registry.next,
        all_can_happen(happened(course, Happening::Leave(id)), happenings),
    ensures
        !told_now(
            all_happened(happened(course, Happening::Leave(id)), happenings).registry,
        ).contains(id),
{
    lemma_leaving_removes(course, id);
    lemma_course_stays_sound(course, Happening::Leave(id));
    lemma_nobody_ever_comes_back(happened(course, Happening::Leave(id)), happenings, id);
}

proof fn lemma_who_stays_is_registered(course: CourseView, happening: Happening, id: usize)
    requires
        course_wf(course),
        can_happen(course, happening),
        stays_registered(course, id),
        happening != Happening::Leave(id),
    ensures
        stays_registered(happened(course, happening), id),
{
    let registry = course.registry;
    match happening {
        Happening::Join => {
            let newcomer = registry.next as usize;
            lemma_contains_push(told_now(registry), newcomer, id);
            lemma_contains_push(registry.pending, newcomer, id);
        },
        Happening::Leave(other) => {
            lemma_without_holds(told_now(registry), seq![other], id);
            lemma_without_holds(registry.pending, seq![other], id);
            lemma_contains_push(registry.dropped, other, id);
        },
        Happening::Begin => {},
        Happening::Finish => {
            let kept = without(course.told->0, registry.dropped);
            lemma_without_holds(course.told->0, registry.dropped, id);
            lemma_contains_joined(kept, registry.pending, id);
        },
    }
}

/// One who has come and does not leave is told everything that begins to be told once something
/// was told before, whoever else comes and leaves.
pub proof fn law_those_who_stay_are_told(
    course: CourseView,
    id: usize,
    happenings: Seq<Happening>,
)
    requires
        course_wf(course),
        all_can_happen(course, happenings),
        stays_registered(course, id),
        forall|i: int| 0 <= i < happenings.len() ==> #[trigger] happenings[i] != Happening::Leave(id),
    ensures
        ({
            let after = all_happened(course, happenings);
            &&& course_wf(after)
            &&& stays_registered(after, id)
            &&& after.registry.observers is Some ==> told_now(after.registry).contains(id)
        }),
    decreases happenings.len(),
{
    if happenings.len() > 0 {
        let earlier = happenings.drop_last();
        let last = happenings.last();
        assert forall|i: int| 0 <= i < earlier.len() implies #[trigger] earlier[i]
            != Happening::Leave(id) by {
            assert(earlier[i] == happenings[i]);
        }
        law_those_who_stay_are_told(course, id, earlier);
        assert(happenings[happenings.len() - 1] != Happening::Leave(id));
        lemma_course_stays_sound(all_happened(course, earlier), last);
        lemma_who_stays_is_registered(all_happened(course, earlier), last, id);
    }
}

/// Whether two courses differ in one observer at most, who is missing in the second.
pub open spec fn alike_but_for(course: CourseView, other: CourseView, id: usize) -> bool {
    &&& other.registry.next == course.registry.next
    &&& other.registry.observers == match course.registry.observers {
        Some(observers) => Some(without(observers, seq![id])),
        None => None,
    }
    &&& other.registry.pending == without(course.registry.pending, seq![id])
    &&& forall|left: usize|
        left != id ==> (#[trigger] other.registry.dropped.contains(left)
            <==> course.registry.dropped.contains(left))
    &&& other.told == match course.told {
        Some(told) => Some(without(told, seq![id])),
        None => None,
    }
}

/// What happens, without the leaving of one.
pub open spec fn without_leaving(happenings: Seq<Happening>, id: usize) -> Seq<Happening>
    decreases happenings.len(),
{
    if happenings.len() == 0 {
        happenings
    } else if happenings.last() == Happening::Leave(id) {
        without_leaving(happenings.drop_last(), id)
    } else {
        without_leaving(happenings.drop_last(), id).push(happenings.last())
    }
}

/// The course in which a number is passed over: nobody gets it.
pub open spec fn passed_over(course: CourseView) -> CourseView {
    CourseView {
        registry: RegistryView { next: course.registry.next + 1, ..course.registry },
        ..course
    }
}

proof fn lemma_without_push(ids: Seq<usize>, last: usize, dropped: Seq<usize>)
    ensures
        without(ids.push(last), dropped) == if dropped.contains(last) {
            without(ids, dropped)
        } else {
            without(ids, dropped).push(last)
        },
{
    assert(ids.push(last).drop_last() =~= ids);
}

proof fn lemma_without_joined(first: Seq<usize>, second: Seq<usize>, dropped: Seq<usize>)
    ensures
        without(first + second, dropped) == without(first, dropped) + without(second, dropped),
    decreases second.len(),
{
    if second.len() == 0 {
        assert(first + second =~= first);
        assert(without(first, dropped) + without(second, dropped) =~= without(first, dropped));
    } else {
        let shorter = second.drop_last();
        lemma_without_joined(first, shorter, dropped);
        assert((first + second).drop_last() =~= first + shorter);
        assert(without(first, dropped) + without(shorter, dropped).push(second.last()) =~= (without(
            first,
            dropped,
        ) + without(shorter, dropped)).push(second.last()));
    }
}

proof fn lemma_without_both(ids: Seq<usize>, first: Seq<usize>, second: Seq<usize>, id: usize)
    requires
        forall|left: usize|
            left != id ==> (#[trigger] second.contains(left) <==> first.contains(left)),
    ensures
        without(without(ids, first), seq![id]) == without(without(ids, seq![id]), second),
    decreases ids.len(),
{
    assert(seq![id][0] == id);
    if ids.len() > 0 {
        let shorter = ids.drop_last();
        let last = ids.last();
        lemma_without_both(shorter, first, second, id);
        lemma_without_push(without(shorter, first), last, seq![id]);
        lemma_without_push(without(shorter, seq![id]), last, second);
        assert(seq![id].contains(last) <==> last == id);
        assert(last != id ==> (second.contains(last) <==> first.contains(last)));
    }
}

proof fn lemma_without_twice(ids: Seq<usize>, id: usize)
    ensures
        without(without(ids, seq![id]), seq![id]) == without(ids, seq![id]),
    decreases ids.len(),
{
    if ids.len() > 0 {
        lemma_without_twice(ids.drop_last(), id);
        lemma_without_push(without(ids.drop_last(), seq![id]), ids.last(), seq![id]);
    }
}

proof fn lemma_without_stranger(ids: Seq<usize>, limit: int, id: usize)
    requires
        in_order(ids, limit),
        limit <= id,
    ensures
        without(ids, seq![id]) == ids,
    decreases ids.len(),
{
    if ids.len() > 0 {
        let shorter = ids.drop_last();
        assert(in_order(shorter, limit));
        lemma_without_stranger(shorter, limit, id);
        assert(ids[ids.len() - 1] < limit);
        assert(!seq![id].contains(ids.last()));
        assert(shorter.push(ids.last()) =~= ids);
    }
}

proof fn lemma_alike_after(course: CourseView, other: CourseView, happening: Happening, id: usize)
    requires
        alike_but_for(course, other, id),
        can_happen(course, happening),
        0 <= course.registry.next,
        id < course.registry.next,
        happening != Happening::Leave(id),
    ensures
        can_happen(other, happening),
        alike_but_for(happened(course, happening), happened(other, happening), id),
        happened(course, happening).registry.next >= course.registry.next,
{
    let registry = course.registry;
    assert forall|x: usize| #[trigger] seq![id].contains(x) <==> x == id by {
        assert(seq![id][0] == id);
    }
    match happening {
        Happening::Join => {
            let newcomer = registry.next as usize;
            lemma_without_push(told_now(registry), newcomer, seq![id]);
            lemma_without_push(registry.pending, newcomer, seq![id]);
        },
        Happening::Leave(left) => {
            lemma_without_both(told_now(registry), seq![left], seq![left], id);
            lemma_without_both(registry.pending, seq![left], seq![left], id);
            lemma_without_holds(registry.pending, seq![id], left);
            assert forall|x: usize| x != id implies (#[trigger] other.registry.dropped.push(
                left,
            ).contains(x) <==> registry.dropped.push(left).contains(x)) by {
                lemma_contains_push(other.registry.dropped, left, x);
                lemma_contains_push(registry.dropped, left, x);
                assert(other.registry.dropped.contains(x) <==> registry.dropped.contains(x));
            }
        },
        Happening::Begin => {
            assert(without(Seq::<usize>::empty(), seq![id]) =~= Seq::empty());
        },
        Happening::Finish => {
            let told = course.told->0;
            lemma_without_both(told, registry.dropped, other.registry.dropped, id);
            lemma_without_joined(without(told, registry.dropped), registry.pending, seq![id]);
            assert(without(Seq::<usize>::empty(), seq![id]) =~= Seq::empty());
        },
    }
}

proof fn lemma_alike_after_leaving(course: CourseView, other: CourseView, id: usize)
    requires
        alike_but_for(course, other, id),
    ensures
        alike_but_for(happened(course, Happening::Leave(id)), other, id),
{
    let registry = course.registry;
    lemma_without_twice(told_now(registry), id);
    lemma_without_twice(registry.pending, id);
    assert forall|x: usize| x != id implies (#[trigger] other.registry.dropped.contains(x)
        <==> registry.dropped.push(id).contains(x)) by {
        lemma_contains_push(registry.dropped, id, x);
    }
}

proof fn lemma_alike_for_ever(
    course: CourseView,
    other: CourseView,
    happenings: Seq<Happening>,
    id: usize,
)
    requires
        alike_but_for(course, other, id),
        all_can_happen(course, happenings),
        0 <= course.registry.next,
        id < course.registry.next,
    ensures
        all_can_happen(other, without_leaving(happenings, id)),
        alike_but_for(
            all_happened(course, happenings),
            all_happened(other, without_leaving(happenings, id)),
            id,
        ),
        all_happened(course, happenings).registry.next >= course.registry.next,
    decreases happenings.len(),
{
    if happenings.len() > 0 {
        let earlier = happenings.drop_last();
        let last = happenings.last();
        lemma_alike_for_ever(course, other, earlier, id);
        let before = all_happened(course, earlier);
        let other_before = all_happened(other, without_leaving(earlier, id));
        if last == Happening::Leave(id) {
            lemma_alike_after_leaving(before, other_before, id);
        } else {
            lemma_alike_after(before, other_before, last, id);
            assert(without_leaving(happenings, id).drop_last() =~= without_leaving(earlier, id));
        }
    }
}

/// All others are told as if one who came had never been there, whether that one leaves or not,
/// and whenever: the same ones, in the same order, now and at any later time.
pub proof fn law_others_are_told_as_if_one_had_never_come(
    course: CourseView,
    happenings: Seq<Happening>,
)
    requires
        course_wf(course),
        can_happen(course, Happening::Join),
        all_can_happen(happened(course, Happening::Join), happenings),
    ensures
        ({
            let id = course.registry.next as usize;
            let after = all_happened(happened(course, Happening::Join), happenings);
            let happenings_without = without_leaving(happenings, id);
            let after_without = all_happened(passed_over(course), happenings_without);
            &&& all_can_happen(passed_over(course), happenings_without)
            &&& told_now(after_without.registry) == without(told_now(after.registry), seq![id])
            &&& after_without.told == match after.told {
                Some(told) => Some(without(told, seq![id])),
                None => None,
            }
        }),
{
    let registry = course.registry;
    let id = registry.next as usize;
    let joined = happened(course, Happening::Join);
    let other = passed_over(course);
    assert(seq![id][0] == id);
    assert(seq![id].contains(id));
    lemma_without_push(told_now(registry), id, seq![id]);
    lemma_without_push(registry.pending, id, seq![id]);
    if registry.observers is Some {
        lemma_without_stranger(told_now(registry), registry.next, id);
    }
    lemma_without_stranger(registry.pending, registry.next, id);
    if course.told is Some {
        lemma_in_order_parts(course.told->0, registry.pending, registry.next);
        lemma_without_stranger(course.told->0, registry.next, id);
    }
    assert(alike_but_for(joined, other, id));
    lemma_alike_for_ever(joined, other, happenings, id);
    assert(without(Seq::<usize>::empty(), seq![id]) =~= Seq::empty());
}

/// Everyone is told everything: if nobody comes or leaves, the same ones are told the next
/// time, in the same order.
pub proof fn law_observers_stay(registry: RegistryView)
    requires
        registry.observers is Some,
        registry.pending.len() == 0,
        registry.dropped.len() == 0,
    ensures
        told_now(told_all(telling(registry), told_now(registry))) == told_now(registry),
{
    lemma_without_nothing(told_now(registry), registry.dropped);
    assert(told_now(registry) + registry.pending =~= told_now(registry));
}

proof fn lemma_without_nothing(ids: Seq<usize>, dropped: Seq<usize>)
    requires
        dropped.len() == 0,
    ensures
        without(ids, dropped) == ids,
    decreases ids.len(),
{
    if ids.len() > 0 {
        lemma_without_nothing(ids.drop_last(), dropped);
        assert(ids.drop_last().push(ids.last()) =~= ids);
    }
}

/// The life of the app.
#[derive(Clone, Debug, PartialEq, Eq)]
pub struct IosLifecycle {
    pub initialized: bool,
    pub state: AppLifecycleState,
}

/// What is done when the system opens an address with the app.
#[derive(Clone, Debug, PartialEq, Eq)]
pub enum OpenUrl {
    /// The app has not begun yet.
    Ignored,
    /// There is no address.
    Missing,
    Opened(String),
    /// The address is not UTF-8.
    InvalidUtf8,
}

impl IosLifecycle {
    /// The app before it has begun.
    pub fn new() -> (app: Self)
        ensures
            !app.initialized,
            app.state == AppLifecycleState::NotInitialized,
    {
        IosLifecycle { initialized: false, state: AppLifecycleState::NotInitialized }
    }
}

/// Whether the app has begun.
pub fn is_initialized(app: &IosLifecycle) -> (yes: bool)
    ensures
        yes == app.initialized,
{
    app.initialized
}

/// Notes what the app is doing.
pub fn set_lifecycle_state(app: &mut IosLifecycle, state: AppLifecycleState)
    ensures
        final(app).state == state,
        final(app).initialized == old(app).initialized,
{
    app.state = state;
}

/// The app once it has begun.
pub open spec fn begun(app: IosLifecycle) -> IosLifecycle {
    IosLifecycle {
        initialized: true,
        state: if app.initialized {
            app.state
        } else {
            AppLifecycleState::Inactive
        },
    }
}

/// Notes that the app has begun; whether it begins only now.
pub fn gpui_ios_initialize(app: &mut IosLifecycle) -> (first: bool)
    ensures
        first == !old(app).initialized,
        *final(app) == begun(*old(app)),
{
    if app.initialized {
        return false;
    }
    app.initialized = true;
    set_lifecycle_state(app, AppLifecycleState::Inactive);
    true
}

/// Whether a frame that is asked for is drawn.
pub fn gpui_ios_request_frame(app: &IosLifecycle) -> (draws: bool)
    ensures
        draws == app.initialized,
{
    is_initialized(app)
}

fn told(app: &mut IosLifecycle, event: IosLifecycleEvent, state: AppLifecycleState) -> (tell: Option<
    IosLifecycleEvent,
>)
    requires
        state == state_after(event),
    ensures
        event_taken(*old(app), *final(app), event, tell),
{
    if !is_initialized(app) {
        return None;
    }
    set_lifecycle_state(app, state);
    Some(event)
}

/// The app has become active; what the observers are told.
pub fn gpui_ios_did_become_active(app: &mut IosLifecycle) -> (tell: Option<IosLifecycleEvent>)
    ensures
        event_taken(*old(app), *final(app), IosLifecycleEvent::DidBecomeActive, tell),
{
    told(app, IosLifecycleEvent::DidBecomeActive, AppLifecycleState::Active)
}

/// The app is about to stop being active; what the observers are told.
pub fn gpui_ios_will_resign_active(app: &mut IosLifecycle) -> (tell: Option<IosLifecycleEvent>)
    ensures
        event_taken(*old(app), *final(app), IosLifecycleEvent::WillResignActive, tell),
{
    told(app, IosLifecycleEvent::WillResignActive, AppLifecycleState::Inactive)
}

/// The app has gone to the background; what the observers are told.
pub fn gpui_ios_did_enter_background(app: &mut IosLifecycle) -> (tell: Option<IosLifecycleEvent>)
    ensures
        event_taken(*old(app), *final(app), IosLifecycleEvent::DidEnterBackground, tell),
{
    told(app, IosLifecycleEvent::DidEnterBackground, AppLifecycleState::Background)
}

/// The app is about to come to the foreground; what the observers are told.
pub fn gpui_ios_will_enter_foreground(app: &mut IosLifecycle) -> (tell: Option<IosLifecycleEvent>)
    ensures
        event_taken(*old(app), *final(app), IosLifecycleEvent::WillEnterForeground, tell),
{
    told(app, IosLifecycleEvent::WillEnterForeground, AppLifecycleState::Inactive)
}

/// The app is about to end; what the observers are told.
pub fn gpui_ios_will_terminate(app: &mut IosLifecycle) -> (tell: Option<IosLifecycleEvent>)
    ensures
        event_taken(*old(app), *final(app), IosLifecycleEvent::WillTerminate, tell),
{
    told(app, IosLifecycleEvent::WillTerminate, AppLifecycleState::Terminating)
}

/// What is done when the system opens an address with the app.
pub enum OpenUrlView {
    Ignored,
    Missing,
    Opened(Seq<char>),
    InvalidUtf8,
}

/// What is done when the system opens an address with the app.
pub open spec fn url_opened(app: IosLifecycle, url: Option<Seq<u8>>) -> OpenUrlView {
    if !app.initialized {
        OpenUrlView::Ignored
    } else {
        match url {
            None => OpenUrlView::Missing,
            Some(bytes) => if valid_utf8(text::c_bytes(bytes)) {
                OpenUrlView::Opened(decode_utf8(text::c_bytes(bytes)))
            } else {
                OpenUrlView::InvalidUtf8
            },
        }
    }
}

/// The system opens an address with the app; the address is read up to its first NUL.
pub fn gpui_ios_open_url(app: &IosLifecycle, url: Option<Vec<u8>>) -> (result: OpenUrl)
    ensures
        url_opened(
            *app,
            match url {
                Some(bytes) => Some(bytes@),
                None => None,
            },
        ) == match result {
            OpenUrl::Ignored => OpenUrlView::Ignored,
            OpenUrl::Missing => OpenUrlView::Missing,
            OpenUrl::Opened(opened) => OpenUrlView::Opened(opened@),
            OpenUrl::InvalidUtf8 => OpenUrlView::InvalidUtf8,
        },
{
    if !is_initialized(app) {
        return OpenUrl::Ignored;
    }
    match url {
        None => OpenUrl::Missing,
        Some(bytes) => match text::text_from_c_bytes(bytes) {
            Some(opened) => OpenUrl::Opened(opened),
            None => OpenUrl::InvalidUtf8,
        },
    }
}

/// How the app takes what the system tells: before it has begun, not at all.
pub open spec fn event_taken(
    before: IosLifecycle,
    after: IosLifecycle,
    event: IosLifecycleEvent,
    tell: Option<IosLifecycleEvent>,
) -> bool {
    if before.initialized {
        &&& tell == Some(event)
        &&& after.initialized
        &&& after.state == state_after(event)
    } else {
        &&& tell is None
        &&& after == before
    }
}

/// Once the app has begun, the last thing that the system told decides what it does: it is active
/// exactly if that was that it became active, in the background exactly if it went there, and it ends
/// exactly if that was announced.
pub proof fn law_last_news_decide_the_state(
    before: IosLifecycle,
    between: IosLifecycle,
    after: IosLifecycle,
    first: IosLifecycleEvent,
    last: IosLifecycleEvent,
    told_first: Option<IosLifecycleEvent>,
    told_last: Option<IosLifecycleEvent>,
)
    requires
        event_taken(before, between, first, told_first),
        event_taken(between, after, last, told_last),
    ensures
        after.initialized == before.initialized,
        before.initialized ==> {
            &&& after.state is Active <==> last is DidBecomeActive
            &&& after.state is Background <==> last is DidEnterBackground
            &&& after.state is Terminating <==> last is WillTerminate
            &&& after.state is Inactive <==> last is WillResignActive || last is WillEnterForeground
            &&& told_first == Some(first)
            &&& told_last == Some(last)
        },
        !before.initialized ==> after == before && told_first is None && told_last is None,
{
}

/// The app begins once: it is inactive then, and beginning again changes nothing, whatever it does
/// meanwhile.
pub proof fn law_app_begins_once(app: IosLifecycle)
    ensures
        begun(app).initialized,
        begun(begun(app)) == begun(app),
        app.initialized ==> begun(app) == app,
        !app.initialized ==> begun(app).state is Inactive,
{
}

/// An address that the system hands over is opened as it was written once the app has begun, and
/// nothing is opened before.
pub proof fn law_addresses_are_opened_as_written(app: IosLifecycle, url: Seq<char>)
    requires
        forall|i: int| 0 <= i < encode_utf8(url).len() ==> (#[trigger] encode_utf8(url)[i]) != 0,
    ensures
        app.initialized ==> url_opened(app, Some(encode_utf8(url))) == OpenUrlView::Opened(url),
        !app.initialized ==> url_opened(app, Some(encode_utf8(url))) is Ignored,
        url_opened(app, None) is Missing <==> app.initialized,
        forall|bytes: Option<Seq<u8>>|
            (#[trigger] url_opened(app, bytes)) is Ignored <==> !app.initialized,
        forall|bytes: Seq<u8>|
            (#[trigger] url_opened(app, Some(bytes))) is InvalidUtf8 <==> app.initialized
                && !valid_utf8(text::c_bytes(bytes)),
{
    text::lemma_c_bytes_of_free(encode_utf8(url));
    encode_utf8_valid_utf8(url);
    encode_utf8_decode_utf8(url);
}

} // verus!
