//! Connected workers by namespace and activity type.

use vstd::prelude::*;
use vstd::string::*;

use crate::order::{in_order, sorted, Ranked};
use crate::table::{keys_distinct, pair_map, pair_map_holds, pair_map_index, Key, Table};
use crate::text::{same_text, text_at_most, text_order_total, text_order_transitive, text_precedes};

verus! {

/// Stable identifier assigned to a connected worker stream.
#[derive(Clone, Copy, Debug, PartialEq, Eq, Structural, PartialOrd, Ord, Hash)]
pub struct WorkerId(pub u64);

impl WorkerId {
    /// Raw numeric value, as carried on the wire.
    pub fn value(self) -> (value: u64)
        ensures
            value == self.0,
    {
        self.0
    }
}

impl View for WorkerId {
    type V = WorkerId;

    open spec fn view(&self) -> WorkerId {
        *self
    }
}

impl Key for WorkerId {
    fn same_key(&self, other: &Self) -> (same: bool) {
        self.0 == other.0
    }
}

/// A namespace together with an activity type.
#[derive(Debug)]
pub struct ActivityKey {
    /// Namespace.
    pub namespace: String,
    /// Activity type.
    pub activity_type: String,
}

impl View for ActivityKey {
    type V = (Seq<char>, Seq<char>);

    open spec fn view(&self) -> (Seq<char>, Seq<char>) {
        (self.namespace@, self.activity_type@)
    }
}

impl Key for ActivityKey {
    fn same_key(&self, other: &Self) -> (same: bool) {
        same_text(self.namespace.as_str(), other.namespace.as_str()) && same_text(
            self.activity_type.as_str(),
            other.activity_type.as_str(),
        )
    }
}

/// Name of an activity type, ordered by its bytes.
#[derive(Debug, PartialEq, Eq)]
pub struct ActivityType {
    /// The name.
    pub name: String,
}

impl Ranked for ActivityType {
    open spec fn at_most(&self, other: &Self) -> bool {
        text_at_most(self.name@, other.name@)
    }

    fn precedes(&self, other: &Self) -> (precedes: bool) {
        text_precedes(self.name.as_str(), other.name.as_str())
    }

    proof fn at_most_total(a: Self, b: Self) {
        text_order_total(a.name@, b.name@);
    }

    proof fn at_most_transitive(a: Self, b: Self, c: Self) {
        text_order_transitive(a.name@, b.name@, c.name@);
    }
}

/// The names of a list of activity types.
pub open spec fn type_names(types: Seq<ActivityType>) -> Set<Seq<char>> {
    Set::new(|name: Seq<char>| exists|i: int| 0 <= i < types.len() && (#[trigger] types[i]).name@ == name)
}

/// No name occurs twice.
pub open spec fn types_distinct(types: Seq<ActivityType>) -> bool {
    forall|i: int, j: int|
        #![trigger types[i], types[j]]
        0 <= i < j < types.len() ==> types[i].name@ != types[j].name@
}

/// The texts of a list of strings, as a set.
pub open spec fn text_set(strings: Seq<String>) -> Set<Seq<char>> {
    Set::new(|name: Seq<char>| exists|i: int| 0 <= i < strings.len() && (#[trigger] strings[i])@ == name)
}

fn has_type(types: &Vec<ActivityType>, name: &str) -> (found: bool)
    ensures
        found == type_names(types@).contains(name@),
{
    let mut i: usize = 0;
    while i < types.len()
        invariant
            i <= types.len(),
            forall|j: int| 0 <= j < i ==> (#[trigger] types@[j]).name@ != name@,
        decreases types.len() - i,
    {
        if same_text(types[i].name.as_str(), name) {
            return true;
        }
        i += 1;
    }
    false
}

fn clone_types(types: &Vec<ActivityType>) -> (copy: Vec<ActivityType>)
    ensures
        copy@ == types@,
{
    let mut copy: Vec<ActivityType> = Vec::new();
    let mut i: usize = 0;
    while i < types.len()
        invariant
            i <= types.len(),
            copy@ == types@.take(i as int),
        decreases types.len() - i,
    {
        copy.push(ActivityType { name: types[i].name.clone() });
        assert(types@.take(i + 1) =~= types@.take(i as int).push(types@[i as int]));
        i += 1;
    }
    assert(types@.take(i as int) =~= types@);
    copy
}

/// The distinct names of a list, in order.
pub fn distinct_types(names: &Vec<String>) -> (types: Vec<ActivityType>)
    ensures
        types_distinct(types@),
        in_order(types@),
        type_names(types@) == text_set(names@),
{
    let mut types: Vec<ActivityType> = Vec::new();
    let mut i: usize = 0;
    while i < names.len()
        invariant
            i <= names.len(),
            types_distinct(types@),
            type_names(types@) =~= text_set(names@.take(i as int)),
        decreases names.len() - i,
    {
        let ghost before = types@;
        let ghost seen = names@.take(i as int);
        let ghost next = names@.take(i + 1);
        assert(next =~= seen.push(names@[i as int]));
        if !has_type(&types, names[i].as_str()) {
            types.push(ActivityType { name: names[i].clone() });
            assert(types_distinct(types@)) by {
                assert forall|a: int, b: int|
                    #![trigger types@[a], types@[b]]
                    0 <= a < b < types@.len() implies types@[a].name@ != types@[b].name@ by {
                    if b == before.len() {
                        assert(before[a].name@ != names@[i as int]@) by {
                            assert(!type_names(before).contains(names@[i as int]@));
                        }
                    }
                }
            }
        }
        assert(type_names(types@) =~= text_set(next)) by {
            assert forall|name: Seq<char>| type_names(types@).contains(name) <==> text_set(
                next,
            ).contains(name) by {
                if text_set(next).contains(name) {
                    let k = choose|k: int| 0 <= k < next.len() && (#[trigger] next[k])@ == name;
                    if k < i {
                        assert(seen[k]@ == name);
                        assert(text_set(seen).contains(name));
                        let a = choose|a: int|
                            0 <= a < before.len() && (#[trigger] before[a]).name@ == name;
                        assert(types@[a].name@ == name);
                    } else if types@.len() > before.len() {
                        assert(types@[before.len() as int].name@ == name);
                    } else {
                        assert(type_names(before).contains(name));
                    }
                }
                if type_names(types@).contains(name) {
                    let a = choose|a: int|
                        0 <= a < types@.len() && (#[trigger] types@[a]).name@ == name;
                    if a < before.len() {
                        assert(before[a].name@ == name);
                        assert(text_set(seen).contains(name));
                        let k = choose|k: int| 0 <= k < seen.len() && (#[trigger] seen[k])@ == name;
                        assert(next[k]@ == name);
                    } else {
                        assert(next[i as int]@ == name);
                    }
                }
            }
        }
        i += 1;
    }
    assert(names@.take(i as int) =~= names@);
    let result = sorted(types);
    proof {
        sorted_types(types@, result@);
    }
    result
}

proof fn sorted_types(before: Seq<ActivityType>, after: Seq<ActivityType>)
    requires
        before.to_multiset() == after.to_multiset(),
        types_distinct(before),
    ensures
        types_distinct(after),
        type_names(after) == type_names(before),
{
    assert(before.no_duplicates()) by {
        assert forall|i: int, j: int|
            0 <= i < before.len() && 0 <= j < before.len() && i != j implies before[i]
            != before[j] by {
            if i < j {
                assert(before[i].name@ != before[j].name@);
            } else {
                assert(before[j].name@ != before[i].name@);
            }
        }
    }
    before.lemma_multiset_has_no_duplicates();
    after.lemma_multiset_has_no_duplicates_conv();
    assert forall|i: int, j: int|
        #![trigger after[i], after[j]]
        0 <= i < j < after.len() implies after[i].name@ != after[j].name@ by {
        crate::order::same_elements_contain(before, after, after[i]);
        crate::order::same_elements_contain(before, after, after[j]);
        assert(after.contains(after[i]));
        assert(after.contains(after[j]));
        let x = choose|x: int| 0 <= x < before.len() && before[x] == after[i];
        let y = choose|y: int| 0 <= y < before.len() && before[y] == after[j];
        if x < y {
            assert(before[x].name@ != before[y].name@);
        } else if y < x {
            assert(before[y].name@ != before[x].name@);
        }
    }
    assert(type_names(after) =~= type_names(before)) by {
        assert forall|name: Seq<char>| type_names(after).contains(name) <==> type_names(
            before,
        ).contains(name) by {
            if type_names(after).contains(name) {
                let i = choose|i: int| 0 <= i < after.len() && (#[trigger] after[i]).name@ == name;
                crate::order::same_elements_contain(before, after, after[i]);
                assert(after.contains(after[i]));
                let x = choose|x: int| 0 <= x < before.len() && before[x] == after[i];
                assert(before[x].name@ == name);
            }
            if type_names(before).contains(name) {
                let i = choose|i: int|
                    0 <= i < before.len() && (#[trigger] before[i]).name@ == name;
                crate::order::same_elements_contain(before, after, before[i]);
                assert(before.contains(before[i]));
                let x = choose|x: int| 0 <= x < after.len() && after[x] == before[i];
                assert(after[x].name@ == name);
            }
        }
    }
}

/// Handle for a registered worker stream.
#[derive(Debug, PartialEq, Eq)]
pub struct WorkerHandle {
    id: WorkerId,
    namespace: String,
    activity_types: Vec<ActivityType>,
    channel: u64,
}

/// Mathematical value of a [`WorkerHandle`], apart from its identifier.
pub struct WorkerView {
    /// Namespace authorized for the worker.
    pub namespace: Seq<char>,
    /// Activity types that the worker advertised.
    pub activity_types: Set<Seq<char>>,
    /// Number under which the caller keeps the channel to the worker.
    pub channel: u64,
}

impl View for WorkerHandle {
    type V = WorkerView;

    closed spec fn view(&self) -> WorkerView {
        WorkerView {
            namespace: self.namespace@,
            activity_types: type_names(self.activity_types@),
            channel: self.channel,
        }
    }
}

impl WorkerHandle {
    #[verifier::type_invariant]
    spec fn ordered(self) -> bool {
        &&& types_distinct(self.activity_types@)
        &&& in_order(self.activity_types@)
    }

    /// Identifier assigned to the worker.
    pub closed spec fn number(&self) -> WorkerId {
        self.id
    }

    /// Worker identifier assigned by this server process.
    pub fn id(&self) -> (id: WorkerId)
        ensures
            id == self.number(),
    {
        self.id
    }

    /// Namespace authorized for the worker.
    pub fn namespace(&self) -> (namespace: &str)
        ensures
            namespace@ == self@.namespace,
    {
        self.namespace.as_str()
    }

    /// Activity types that the worker advertised, in order and without repetition.
    pub fn activity_types(&self) -> (types: &Vec<ActivityType>)
        ensures
            type_names(types@) == self@.activity_types,
            types_distinct(types@),
            in_order(types@),
    {
        proof {
            use_type_invariant(self);
        }
        &self.activity_types
    }

    /// Number under which the caller keeps the channel to the worker.
    pub fn sender(&self) -> (channel: u64)
        ensures
            channel == self@.channel,
    {
        self.channel
    }
}

impl Clone for WorkerHandle {
    fn clone(&self) -> (copy: Self)
        ensures
            copy@ == self@,
            copy.number() == self.number(),
    {
        proof {
            use_type_invariant(self);
        }
        WorkerHandle {
            id: self.id,
            namespace: self.namespace.clone(),
            activity_types: clone_types(&self.activity_types),
            channel: self.channel,
        }
    }
}

/// Order of workers: by identifier.
impl Ranked for WorkerHandle {
    open spec fn at_most(&self, other: &Self) -> bool {
        self.number().0 <= other.number().0
    }

    fn precedes(&self, other: &Self) -> (precedes: bool) {
        self.id.0 <= other.id.0
    }

    proof fn at_most_total(a: Self, b: Self) {
    }

    proof fn at_most_transitive(a: Self, b: Self, c: Self) {
    }
}

impl WorkerView {
    /// The worker takes activities of the namespace and type.
    pub open spec fn serves(self, key: (Seq<char>, Seq<char>)) -> bool {
        self.namespace == key.0 && self.activity_types.contains(key.1)
    }
}

/// The worker is connected and takes activities of the namespace and type.
pub open spec fn serves(
    workers: Map<WorkerId, WorkerView>,
    id: WorkerId,
    key: (Seq<char>, Seq<char>),
) -> bool {
    workers.contains_key(id) && workers[id].serves(key)
}

/// Some connected worker takes activities of the namespace and type.
pub open spec fn served(
    workers: Map<WorkerId, WorkerView>,
    key: (Seq<char>, Seq<char>),
) -> bool {
    exists|id: WorkerId| #[trigger] serves(workers, id, key)
}

/// `roster` holds the workers of a namespace and type, by ascending identifier.
pub open spec fn is_roster(
    roster: Seq<WorkerId>,
    workers: Map<WorkerId, WorkerView>,
    key: (Seq<char>, Seq<char>),
) -> bool {
    &&& forall|i: int, j: int|
        #![trigger roster[i], roster[j]]
        0 <= i < j < roster.len() ==> roster[i].0 < roster[j].0
    &&& forall|id: WorkerId| #[trigger] roster.contains(id) <==> serves(workers, id, key)
}

/// Mathematical value of a [`ConnectedWorkerRegistry`].
#[verifier::ext_equal]
pub struct RegistryView {
    /// Identifier of the next worker.
    pub next: u64,
    /// Connected workers by identifier.
    pub workers: Map<WorkerId, WorkerView>,
    /// Rotation cursor of every namespace and type that was asked for and is still served.
    pub cursors: Map<(Seq<char>, Seq<char>), usize>,
}

/// The registry without a worker: the worker leaves every roster, and the cursor of a roster that
/// becomes empty goes with it.
pub open spec fn without(registry: RegistryView, id: WorkerId) -> RegistryView {
    let workers = registry.workers.remove(id);
    RegistryView {
        next: registry.next,
        workers,
        cursors: registry.cursors.restrict(
            registry.cursors.dom().filter(|key: (Seq<char>, Seq<char>)| served(workers, key)),
        ),
    }
}

/// Identifiers of a list of workers.
pub open spec fn handle_numbers(workers: Seq<WorkerHandle>) -> Seq<WorkerId> {
    workers.map_values(|handle: WorkerHandle| handle.number())
}

/// The cursor of a namespace and type: zero until it is first asked for.
pub open spec fn cursor_of(registry: RegistryView, key: (Seq<char>, Seq<char>)) -> usize {
    if registry.cursors.contains_key(key) {
        registry.cursors[key]
    } else {
        0
    }
}

/// A roster that starts at the given position and wraps around.
pub open spec fn rotated(roster: Seq<WorkerId>, start: int) -> Seq<WorkerId> {
    roster.skip(start) + roster.take(start)
}

/// One request for workers: the roster is rotated by the cursor, and the cursor moves on, wrapping
/// around behind the greatest number. An empty roster leaves no trace.
pub open spec fn rotation_step(
    before: RegistryView,
    after: RegistryView,
    key: (Seq<char>, Seq<char>),
    offered: Seq<WorkerId>,
) -> bool {
    exists|roster: Seq<WorkerId>| #[trigger]
        is_roster(roster, before.workers, key) && {
            if roster.len() == 0 {
                offered == roster && after == before
            } else {
                let cursor = cursor_of(before, key);
                &&& offered == rotated(roster, cursor as int % roster.len() as int)
                &&& after == (RegistryView {
                    cursors: before.cursors.insert(
                        key,
                        if cursor < usize::MAX {
                            (cursor + 1) as usize
                        } else {
                            0
                        },
                    ),
                    ..before
                })
            }
        }
}

/// How many of the attempts were taken.
pub open spec fn deliveries(attempts: Seq<(WorkerId, bool)>) -> nat
    decreases attempts.len(),
{
    if attempts.len() == 0 {
        0
    } else {
        deliveries(attempts.drop_last()) + if attempts.last().1 {
            1nat
        } else {
            0nat
        }
    }
}

/// The registry without the workers whose attempt failed.
pub open spec fn drained(registry: RegistryView, attempts: Seq<(WorkerId, bool)>) -> RegistryView
    decreases attempts.len(),
{
    if attempts.len() == 0 {
        registry
    } else {
        let rest = drained(registry, attempts.drop_last());
        if attempts.last().1 {
            rest
        } else {
            without(rest, attempts.last().0)
        }
    }
}

/// The registry with one more worker under the next identifier. Identifiers grow until they are
/// exhausted; from then on the last one is given away again.
pub open spec fn registered(registry: RegistryView, worker: WorkerView) -> RegistryView {
    let id = WorkerId(registry.next);
    let base = without(registry, id);
    RegistryView {
        next: if registry.next < u64::MAX {
            (registry.next + 1) as u64
        } else {
            u64::MAX
        },
        workers: base.workers.insert(id, worker),
        cursors: base.cursors,
    }
}

spec fn worker_views(workers: Map<WorkerId, WorkerHandle>) -> Map<WorkerId, WorkerView> {
    workers.map_values(|handle: WorkerHandle| handle@)
}

spec fn index_matches(
    index: Map<(Seq<char>, Seq<char>), Vec<WorkerId>>,
    workers: Map<WorkerId, WorkerView>,
) -> bool {
    &&& forall|key: (Seq<char>, Seq<char>)| #[trigger]
        index.contains_key(key) ==> index[key]@.len() > 0 && is_roster(
            index[key]@,
            workers,
            key,
        )
    &&& forall|id: WorkerId, key: (Seq<char>, Seq<char>)| #[trigger]
        serves(workers, id, key) ==> index.contains_key(key)
}

/// Registry of connected worker streams.
#[derive(Debug)]
pub struct ConnectedWorkerRegistry {
    next_worker_id: u64,
    workers: Table<WorkerId, WorkerHandle>,
    by_activity: Table<ActivityKey, Vec<WorkerId>>,
    rotation: Table<ActivityKey, usize>,
}

impl View for ConnectedWorkerRegistry {
    type V = RegistryView;

    closed spec fn view(&self) -> RegistryView {
        RegistryView {
            next: self.next_worker_id,
            workers: worker_views(self.workers@),
            cursors: self.rotation@,
        }
    }
}

/// What a worker stream holds of its registration.
#[derive(Debug, PartialEq, Eq)]
pub struct WorkerRegistration {
    worker_id: WorkerId,
    namespace: String,
    activity_types: Vec<ActivityType>,
}

impl WorkerRegistration {
    #[verifier::type_invariant]
    spec fn ordered(self) -> bool {
        &&& types_distinct(self.activity_types@)
        &&& in_order(self.activity_types@)
    }

    /// Worker that was registered.
    pub closed spec fn number(&self) -> WorkerId {
        self.worker_id
    }

    /// Namespace of the registration.
    pub closed spec fn scope(&self) -> Seq<char> {
        self.namespace@
    }

    /// Advertised activity types.
    pub closed spec fn types(&self) -> Set<Seq<char>> {
        type_names(self.activity_types@)
    }

    /// Worker id assigned to this registration.
    pub fn worker_id(&self) -> (id: WorkerId)
        ensures
            id == self.number(),
    {
        self.worker_id
    }

    /// Authorized namespace of this registration.
    pub fn namespace(&self) -> (namespace: &str)
        ensures
            namespace@ == self.scope(),
    {
        self.namespace.as_str()
    }

    /// Activity types advertised by this registration, in order and without repetition.
    pub fn activity_types(&self) -> (types: &Vec<ActivityType>)
        ensures
            type_names(types@) == self.types(),
            types_distinct(types@),
            in_order(types@),
    {
        proof {
            use_type_invariant(self);
        }
        &self.activity_types
    }

    /// Removes the worker from the registry.
    pub fn deregister(self, registry: &mut ConnectedWorkerRegistry)
        ensures
            final(registry)@ == without(old(registry)@, self.number()),
    {
        registry.deregister(self.worker_id);
    }
}

impl Default for ConnectedWorkerRegistry {
    fn default() -> (registry: Self)
        ensures
            registry@ == (RegistryView { next: 1, workers: Map::empty(), cursors: Map::empty() }),
    {
        ConnectedWorkerRegistry::new()
    }
}

impl ConnectedWorkerRegistry {
    #[verifier::type_invariant]
    spec fn consistent(self) -> bool {
        &&& index_matches(self.by_activity@, worker_views(self.workers@))
        &&& forall|id: WorkerId| #[trigger]
            self.workers@.contains_key(id) ==> self.workers@[id].number() == id && (id.0
                < self.next_worker_id || self.next_worker_id == u64::MAX)
        &&& forall|key: (Seq<char>, Seq<char>)| #[trigger]
            self.rotation@.contains_key(key) ==> self.by_activity@.contains_key(key)
    }

    proof fn every_view_is_valid(&self)
        requires
            self.consistent(),
        ensures
            valid(self@),
    {
        assert forall|key: (Seq<char>, Seq<char>)| #[trigger]
            self@.cursors.contains_key(key) implies served(self@.workers, key) by {
            let roster = self.by_activity@[key]@;
            assert(roster.contains(roster[0]));
            assert(serves(self@.workers, roster[0], key));
        }
    }

    /// A registry without workers.
    pub fn new() -> (registry: Self)
        ensures
            registry@ == (RegistryView { next: 1, workers: Map::empty(), cursors: Map::empty() }),
            valid(registry@),
    {
        let workers: Table<WorkerId, WorkerHandle> = Table::new();
        assert(worker_views(workers@) =~= Map::empty());
        ConnectedWorkerRegistry {
            next_worker_id: 1,
            workers,
            by_activity: Table::new(),
            rotation: Table::new(),
        }
    }

    /// Whether a worker stream is currently registered.
    pub fn is_registered(&self, worker_id: WorkerId) -> (registered: bool)
        ensures
            registered == self@.workers.contains_key(worker_id),
    {
        self.workers.contains_key(&worker_id)
    }

    /// Number of rotation cursors that are held.
    pub fn rotation_key_count(&self) -> (count: usize)
        ensures
            count == self@.cursors.len(),
    {
        self.rotation.len()
    }

    /// Removes a worker from every roster that it was in, and returns its namespace.
    fn remove_worker(&mut self, worker_id: WorkerId) -> (namespace: Option<String>)
        ensures
            final(self)@ == without(old(self)@, worker_id),
            namespace is Some <==> old(self)@.workers.contains_key(worker_id),
            namespace matches Some(name) ==> name@ == old(self)@.workers[worker_id].namespace,
    {
        proof {
            use_type_invariant(&*self);
        }
        let ghost before = self@;
        let mut taken = ConnectedWorkerRegistry::new();
        core::mem::swap(self, &mut taken);
        let ConnectedWorkerRegistry {
            next_worker_id,
            mut workers,
            mut by_activity,
            mut rotation,
        } = taken;
        let ghost handles = workers@;
        let handle = match workers.remove(&worker_id) {
            Some(handle) => handle,
            None => {
                proof {
                    assert(workers@ =~= handles);
                    absent_worker(before, worker_id, by_activity@);
                }
                *self = ConnectedWorkerRegistry { next_worker_id, workers, by_activity, rotation };
                return None;
            },
        };
        proof {
            use_type_invariant(&handle);
        }
        let ghost all = worker_views(handles);
        let ghost rest = all.remove(worker_id);
        let ghost types = handle.activity_types@;
        let ghost name = handle.namespace@;
        let ghost channel = handle.channel;
        proof {
            assert(worker_views(workers@) =~= rest);
            let whole = partial(name, types, channel);
            assert(types.skip(0) =~= types);
            assert(all =~= rest.insert(worker_id, whole));
        }
        let mut i: usize = 0;
        while i < handle.activity_types.len()
            invariant
                i <= handle.activity_types.len(),
                handle.activity_types@ == types,
                handle.namespace@ == name,
                types_distinct(types),
                !rest.contains_key(worker_id),
                index_matches(
                    by_activity@,
                    rest.insert(worker_id, partial(name, types.skip(i as int), channel)),
                ),
                forall|key: (Seq<char>, Seq<char>)| #[trigger]
                    rotation@.contains_key(key) ==> by_activity@.contains_key(key),
                forall|key: (Seq<char>, Seq<char>)| #[trigger]
                    rotation@.contains_key(key) ==> before.cursors.contains_key(key)
                        && rotation@[key] == before.cursors[key],
                forall|key: (Seq<char>, Seq<char>)| #[trigger]
                    before.cursors.contains_key(key) && by_activity@.contains_key(key)
                        ==> rotation@.contains_key(key),
            decreases handle.activity_types.len() - i,
        {
            let ghost index = by_activity@;
            let ghost current = rest.insert(
                worker_id,
                partial(name, types.skip(i as int), channel),
            );
            let ghost next = rest.insert(worker_id, partial(name, types.skip(i + 1), channel));
            let key = ActivityKey {
                namespace: handle.namespace.clone(),
                activity_type: handle.activity_types[i].name.clone(),
            };
            proof {
                assert(types.skip(i as int)[0].name@ == key@.1);
                assert(current[worker_id].serves(key@));
                assert(serves(current, worker_id, key@));
                skip_one_type(rest, worker_id, name, types, channel, i as int);
            }
            match by_activity.remove(&key) {
                Some(roster) => {
                    let ghost full = roster@;
                    let smaller = without_id(roster, worker_id);
                    proof {
                        assert(is_roster(smaller@, next, key@)) by {
                            assert(is_roster(full, current, key@));
                        }
                    }
                    if smaller.len() == 0 {
                        let _ = rotation.remove(&key);
                        proof {
                            assert(index_matches(by_activity@, next)) by {
                                assert forall|k: (Seq<char>, Seq<char>)| #[trigger]
                                    by_activity@.contains_key(k) implies by_activity@[k]@.len() > 0
                                    && is_roster(by_activity@[k]@, next, k) by {
                                    assert(index.contains_key(k));
                                    same_roster(by_activity@[k]@, current, next, k);
                                }
                                assert forall|id: WorkerId, k: (Seq<char>, Seq<char>)| #[trigger]
                                    serves(next, id, k) implies by_activity@.contains_key(k) by {
                                    assert(serves(current, id, k));
                                    if k == key@ {
                                        assert(smaller@.contains(id));
                                    }
                                }
                            }
                        }
                    } else {
                        let _ = by_activity.insert(key, smaller);
                        proof {
                            assert(index_matches(by_activity@, next)) by {
                                assert forall|k: (Seq<char>, Seq<char>)| #[trigger]
                                    by_activity@.contains_key(k) implies by_activity@[k]@.len() > 0
                                    && is_roster(by_activity@[k]@, next, k) by {
                                    if k != key@ {
                                        assert(index.contains_key(k));
                                        same_roster(by_activity@[k]@, current, next, k);
                                    }
                                }
                                assert forall|id: WorkerId, k: (Seq<char>, Seq<char>)| #[trigger]
                                    serves(next, id, k) implies by_activity@.contains_key(k) by {
                                    assert(serves(current, id, k));
                                }
                            }
                        }
                    }
                },
                None => {
                    assert(false);
                },
            }
            i += 1;
        }
        proof {
            assert(types.skip(i as int) =~= Seq::empty());
            let idle = rest.insert(worker_id, partial(name, types.skip(i as int), channel));
            assert(index_matches(by_activity@, rest)) by {
                assert forall|id: WorkerId, k: (Seq<char>, Seq<char>)| #[trigger]
                    serves(rest, id, k) <==> serves(idle, id, k) by {
                    if id == worker_id && serves(idle, id, k) {
                        assert(type_names(Seq::<ActivityType>::empty()).contains(k.1));
                    }
                }
                assert forall|k: (Seq<char>, Seq<char>)| #[trigger]
                    by_activity@.contains_key(k) implies by_activity@[k]@.len() > 0 && is_roster(
                    by_activity@[k]@,
                    rest,
                    k,
                ) by {
                    same_roster(by_activity@[k]@, idle, rest, k);
                }
                assert forall|id: WorkerId, k: (Seq<char>, Seq<char>)| #[trigger]
                    serves(rest, id, k) implies by_activity@.contains_key(k) by {
                    assert(serves(idle, id, k));
                }
            }
            assert(rotation@ =~= without(before, worker_id).cursors) by {
                assert forall|k: (Seq<char>, Seq<char>)| #[trigger]
                    rotation@.contains_key(k) <==> without(
                        before,
                        worker_id,
                    ).cursors.contains_key(k) by {
                    if rotation@.contains_key(k) {
                        let roster = by_activity@[k]@;
                        assert(roster.contains(roster[0]));
                        assert(serves(rest, roster[0], k));
                    }
                    if without(before, worker_id).cursors.contains_key(k) {
                        assert(served(rest, k));
                        let id = choose|id: WorkerId| #[trigger] serves(rest, id, k);
                        assert(by_activity@.contains_key(k));
                    }
                }
            }
        }
        *self = ConnectedWorkerRegistry { next_worker_id, workers, by_activity, rotation };
        Some(handle.namespace)
    }

    /// Inserts an already authorized worker stream.
    pub fn register(
        &mut self,
        namespace: &str,
        activity_types: &Vec<String>,
        channel: u64,
    ) -> (registration: WorkerRegistration)
        ensures
            registration.number().0 == old(self)@.next,
            registration.scope() == namespace@,
            registration.types() == text_set(activity_types@),
            final(self)@ == registered(
                old(self)@,
                WorkerView {
                    namespace: namespace@,
                    activity_types: text_set(activity_types@),
                    channel,
                },
            ),
            old(self)@.next < u64::MAX ==> !old(self)@.workers.contains_key(
                WorkerId(old(self)@.next),
            ) && without(old(self)@, WorkerId(old(self)@.next)) == old(self)@,
            valid(final(self)@),
    {
        proof {
            use_type_invariant(&*self);
        }
        let worker_id = WorkerId(self.next_worker_id);
        let ghost start = self@;
        proof {
            if !start.workers.contains_key(worker_id) {
                absent_worker(start, worker_id, self.by_activity@);
            }
        }
        let _ = self.remove_worker(worker_id);
        let ghost before = self@;
        proof {
            use_type_invariant(&*self);
            assert(start.next < u64::MAX ==> !start.workers.contains_key(worker_id));
            assert(start.next < u64::MAX ==> without(start, worker_id) == start);
        }
        let types = distinct_types(activity_types);
        let mut taken = ConnectedWorkerRegistry::new();
        core::mem::swap(self, &mut taken);
        let ConnectedWorkerRegistry { next_worker_id, mut workers, mut by_activity, rotation } =
            taken;
        let ghost rest = worker_views(workers@);
        let ghost name = namespace@;
        let ghost kinds = types@;
        proof {
            assert(kinds.take(0) =~= Seq::empty());
            let idle = rest.insert(worker_id, partial(name, kinds.take(0), channel));
            assert forall|id: WorkerId, k: (Seq<char>, Seq<char>)| #[trigger]
                serves(rest, id, k) <==> serves(idle, id, k) by {
                if id == worker_id && serves(idle, id, k) {
                    assert(type_names(Seq::<ActivityType>::empty()).contains(k.1));
                }
            }
            assert(index_matches(by_activity@, idle)) by {
                assert forall|k: (Seq<char>, Seq<char>)| #[trigger]
                    by_activity@.contains_key(k) implies by_activity@[k]@.len() > 0 && is_roster(
                    by_activity@[k]@,
                    idle,
                    k,
                ) by {
                    same_roster(by_activity@[k]@, rest, idle, k);
                }
                assert forall|id: WorkerId, k: (Seq<char>, Seq<char>)| #[trigger]
                    serves(idle, id, k) implies by_activity@.contains_key(k) by {
                    assert(serves(rest, id, k));
                }
            }
        }
        let mut i: usize = 0;
        while i < types.len()
            invariant
                i <= types.len(),
                types@ == kinds,
                name == namespace@,
                types_distinct(kinds),
                !rest.contains_key(worker_id),
                forall|id: WorkerId| #[trigger] rest.contains_key(id) ==> id.0 < worker_id.0,
                index_matches(
                    by_activity@,
                    rest.insert(worker_id, partial(name, kinds.take(i as int), channel)),
                ),
                forall|key: (Seq<char>, Seq<char>)| #[trigger]
                    rotation@.contains_key(key) ==> by_activity@.contains_key(key),
            decreases types.len() - i,
        {
            let ghost index = by_activity@;
            let ghost current = rest.insert(
                worker_id,
                partial(name, kinds.take(i as int), channel),
            );
            let ghost next = rest.insert(worker_id, partial(name, kinds.take(i + 1), channel));
            let key = ActivityKey {
                namespace: namespace.to_owned(),
                activity_type: types[i].name.clone(),
            };
            let ghost place = key@;
            proof {
                take_one_type(rest, worker_id, name, kinds, channel, i as int);
            }
            let mut roster = match by_activity.remove(&key) {
                Some(roster) => roster,
                None => Vec::new(),
            };
            let ghost earlier = roster@;
            proof {
                assert(is_roster(earlier, current, place)) by {
                    if !index.contains_key(place) {
                        assert forall|id: WorkerId| #[trigger] earlier.contains(id) <==> serves(
                            current,
                            id,
                            place,
                        ) by {
                            if serves(current, id, place) {
                                assert(index.contains_key(place));
                            }
                        }
                    }
                }
            }
            roster.push(worker_id);
            let ghost grown = roster;
            proof {
                assert(is_roster(grown@, next, place)) by {
                    assert(grown@ =~= earlier.push(worker_id));
                    assert forall|a: int, b: int|
                        #![trigger grown@[a], grown@[b]]
                        0 <= a < b < grown@.len() implies grown@[a].0 < grown@[b].0 by {
                        if b == earlier.len() {
                            assert(earlier.contains(earlier[a]));
                            assert(serves(current, earlier[a], place));
                        }
                    }
                    assert forall|id: WorkerId| #[trigger] grown@.contains(id) <==> serves(
                        next,
                        id,
                        place,
                    ) by {
                        if grown@.contains(id) {
                            let a = choose|a: int| 0 <= a < grown@.len() && grown@[a] == id;
                            if a < earlier.len() {
                                assert(earlier[a] == id);
                                assert(earlier.contains(id));
                            }
                        }
                        if serves(next, id, place) {
                            if id == worker_id {
                                assert(grown@[earlier.len() as int] == id);
                            } else {
                                assert(serves(current, id, place));
                                assert(earlier.contains(id));
                                let a = choose|a: int| 0 <= a < earlier.len() && earlier[a] == id;
                                assert(grown@[a] == id);
                            }
                        }
                    }
                }
            }
            let _ = by_activity.insert(key, roster);
            proof {
                assert(index_matches(by_activity@, next)) by {
                    assert forall|k: (Seq<char>, Seq<char>)| #[trigger]
                        by_activity@.contains_key(k) implies by_activity@[k]@.len() > 0
                        && is_roster(by_activity@[k]@, next, k) by {
                        if k != place {
                            assert(index.contains_key(k));
                            same_roster(by_activity@[k]@, current, next, k);
                        }
                    }
                    assert forall|id: WorkerId, k: (Seq<char>, Seq<char>)| #[trigger]
                        serves(next, id, k) implies by_activity@.contains_key(k) by {
                        if k != place {
                            assert(serves(current, id, k));
                        }
                    }
                }
            }
            i += 1;
        }
        let handle = WorkerHandle {
            id: worker_id,
            namespace: namespace.to_owned(),
            activity_types: clone_types(&types),
            channel,
        };
        let ghost view = handle@;
        let _ = workers.insert(worker_id, handle);
        proof {
            assert(kinds.take(i as int) =~= kinds);
            assert(worker_views(workers@) =~= rest.insert(worker_id, view));
        }
        let next_worker_id: u64 = if next_worker_id < u64::MAX {
            next_worker_id + 1
        } else {
            u64::MAX
        };
        *self = ConnectedWorkerRegistry { next_worker_id, workers, by_activity, rotation };
        proof {
            assert(self@ =~= registered(start, view));
            self.every_view_is_valid();
        }
        WorkerRegistration {
            worker_id,
            namespace: namespace.to_owned(),
            activity_types: types,
        }
    }

    /// Inserts a worker stream whose namespace was authorized; a refused one is not inserted.
    pub fn accept_registration<E>(
        &mut self,
        scoped_namespace: Result<String, E>,
        activity_types: &Vec<String>,
        channel: u64,
    ) -> (registration: Result<WorkerRegistration, E>)
        ensures
            match scoped_namespace {
                Ok(namespace) => {
                    &&& registration matches Ok(token) && token.number().0 == old(self)@.next
                        && token.scope() == namespace@ && token.types() == text_set(
                        activity_types@,
                    )
                    &&& final(self)@ == registered(
                        old(self)@,
                        WorkerView {
                            namespace: namespace@,
                            activity_types: text_set(activity_types@),
                            channel,
                        },
                    )
                },
                Err(refusal) => registration == Err::<WorkerRegistration, E>(refusal)
                    && final(self)@ == old(self)@,
            },
    {
        match scoped_namespace {
            Ok(namespace) => Ok(self.register(namespace.as_str(), activity_types, channel)),
            Err(refusal) => Err(refusal),
        }
    }

    /// The workers of a namespace and activity type, by ascending identifier and then rotated, so
    /// that each call starts from the next worker of the roster. A roster without workers has no
    /// rotation.
    pub fn workers_for(&mut self, namespace: &str, activity_type: &str) -> (workers: Vec<
        WorkerHandle,
    >)
        ensures
            rotation_step(
                old(self)@,
                final(self)@,
                (namespace@, activity_type@),
                handle_numbers(workers@),
            ),
            forall|i: int|
                0 <= i < workers@.len() ==> (#[trigger] workers@[i])@
                    == old(self)@.workers[workers@[i].number()],
            valid(final(self)@),
    {
        proof {
            use_type_invariant(&*self);
        }
        let ghost before = self@;
        let key = ActivityKey {
            namespace: namespace.to_owned(),
            activity_type: activity_type.to_owned(),
        };
        let ghost place = key@;
        let roster = match self.by_activity.get(&key) {
            Some(roster) => clone_roster(roster),
            None => {
                let none: Vec<WorkerHandle> = Vec::new();
                proof {
                    let empty = Seq::<WorkerId>::empty();
                    assert(is_roster(empty, before.workers, place)) by {
                        assert forall|id: WorkerId| #[trigger] empty.contains(id) <==> serves(
                            before.workers,
                            id,
                            place,
                        ) by {
                            if serves(before.workers, id, place) {
                                assert(self.by_activity@.contains_key(place));
                            }
                        }
                    }
                    assert(handle_numbers(none@) =~= empty);
                    self.every_view_is_valid();
                }
                return none;
            },
        };
        let ghost ids = roster@;
        let cursor: usize = match self.rotation.get(&key) {
            Some(cursor) => *cursor,
            None => 0,
        };
        let start: usize = cursor % roster.len();
        let mut rotation: Table<ActivityKey, usize> = Table::new();
        core::mem::swap(&mut rotation, &mut self.rotation);
        let next: usize = if cursor < usize::MAX {
            cursor + 1
        } else {
            0
        };
        let _ = rotation.insert(key, next);
        self.rotation = rotation;
        let mut workers: Vec<WorkerHandle> = Vec::new();
        let mut i: usize = 0;
        while i < roster.len()
            invariant
                i <= roster.len(),
                roster@ == ids,
                ids.len() > 0,
                start < ids.len(),
                is_roster(ids, before.workers, place),
                self@ == (RegistryView {
                    cursors: before.cursors.insert(place, next),
                    ..before
                }),
                worker_views(self.workers@) == before.workers,
                forall|id: WorkerId| #[trigger]
                    self.workers@.contains_key(id) ==> self.workers@[id].number() == id,
                workers@.len() == i,
                forall|j: int|
                    0 <= j < i ==> (#[trigger] workers@[j]).number() == rotated(
                        ids,
                        start as int,
                    )[j] && workers@[j]@ == before.workers[workers@[j].number()],
            decreases roster.len() - i,
        {
            let at: usize = if i < roster.len() - start {
                start + i
            } else {
                i - (roster.len() - start)
            };
            let id = roster[at];
            assert(rotated(ids, start as int)[i as int] == id);
            assert(ids.contains(id));
            assert(serves(before.workers, id, place));
            match self.workers.get(&id) {
                Some(handle) => {
                    workers.push(handle.clone());
                },
                None => {
                    assert(false);
                },
            }
            i += 1;
        }
        proof {
            assert(handle_numbers(workers@) =~= rotated(ids, start as int));
            use_type_invariant(&*self);
            self.every_view_is_valid();
            assert(self@ =~= RegistryView {
                cursors: before.cursors.insert(place, next),
                ..before
            });
        }
        workers
    }

    /// Every connected worker, by ascending identifier.
    pub fn all_workers(&self) -> (workers: Vec<WorkerHandle>)
        ensures
            in_order(workers@),
            handle_numbers(workers@).no_duplicates(),
            forall|id: WorkerId| #[trigger]
                handle_numbers(workers@).contains(id) <==> self@.workers.contains_key(id),
            forall|i: int|
                0 <= i < workers@.len() ==> (#[trigger] workers@[i])@
                    == self@.workers[workers@[i].number()],
    {
        proof {
            use_type_invariant(self);
        }
        let entries = self.workers.entries();
        let ghost pairs = entries@;
        let mut found: Vec<crate::order::Keyed<usize, WorkerHandle>> = Vec::new();
        let mut i: usize = 0;
        while i < entries.len()
            invariant
                i <= entries.len(),
                entries@ == pairs,
                keys_distinct(pairs),
                pair_map(pairs) == self.workers@,
                forall|id: WorkerId| #[trigger]
                    self.workers@.contains_key(id) ==> self.workers@[id].number() == id,
                found@.len() == i,
                forall|j: int|
                    0 <= j < i ==> (#[trigger] found@[j]).key == j && found@[j].item.number()
                        == pairs[j].0 && found@[j].item@ == self@.workers[pairs[j].0],
            decreases entries.len() - i,
        {
            proof {
                pair_map_holds(pairs, i as int);
            }
            found.push(crate::order::Keyed { key: i, item: entries[i].1.clone() });
            i += 1;
        }
        let ghost chosen = found@;
        assert(crate::order::keys_of(chosen).no_duplicates());
        let ordered = crate::order::sorted_pairs(found);
        proof {
            assert forall|a: int| 0 <= a < ordered@.len() implies exists|j: int|
                0 <= j < pairs.len() && #[trigger] chosen[j] == ordered@[a] && ordered@[a].key
                    == j && ordered@[a].item.number() == pairs[j].0 && (#[trigger] ordered@[a]).item@
                    == self@.workers[pairs[j].0] by {
                assert(ordered@.contains(ordered@[a]));
                let j = choose|j: int| 0 <= j < chosen.len() && chosen[j] == ordered@[a];
                assert(chosen[j].key == j);
            }
        }
        let workers = crate::order::without_keys(ordered);
        proof {
            let numbers = handle_numbers(workers@);
            assert(workers@ =~= crate::order::items_of(ordered@));
            assert forall|a: int, b: int|
                0 <= a < numbers.len() && 0 <= b < numbers.len() && a != b implies numbers[a]
                != numbers[b] by {
                let x = choose|j: int|
                    0 <= j < pairs.len() && #[trigger] chosen[j] == ordered@[a] && ordered@[a].key
                        == j && ordered@[a].item.number() == pairs[j].0;
                let y = choose|j: int|
                    0 <= j < pairs.len() && #[trigger] chosen[j] == ordered@[b] && ordered@[b].key
                        == j && ordered@[b].item.number() == pairs[j].0;
                assert(crate::order::keys_of(ordered@)[a] != crate::order::keys_of(ordered@)[b]);
                if x < y {
                    assert(pairs[x].0@ != pairs[y].0@);
                } else {
                    assert(pairs[y].0@ != pairs[x].0@);
                }
            }
            assert forall|id: WorkerId| #[trigger]
                numbers.contains(id) <==> self@.workers.contains_key(id) by {
                if numbers.contains(id) {
                    let a = choose|a: int| 0 <= a < numbers.len() && numbers[a] == id;
                    let x = choose|j: int|
                        0 <= j < pairs.len() && #[trigger] chosen[j] == ordered@[a]
                            && ordered@[a].key == j && ordered@[a].item.number() == pairs[j].0;
                    pair_map_holds(pairs, x);
                }
                if self@.workers.contains_key(id) {
                    let j = pair_map_index(pairs, id);
                    assert(chosen.contains(chosen[j]));
                    assert(ordered@.contains(chosen[j]));
                    let a = choose|a: int| 0 <= a < ordered@.len() && ordered@[a] == chosen[j];
                    assert(numbers[a] == id);
                }
            }
            assert forall|a: int, b: int|
                #![trigger workers@[a], workers@[b]]
                0 <= a < b < workers@.len() implies workers@[a].at_most(&workers@[b]) by {
                assert(ordered@[a].at_most(&ordered@[b]));
            }
        }
        workers
    }

    /// Accounts for a drain request that was sent to the given workers: those that took it are
    /// counted, and those whose channel is gone are removed.
    pub fn broadcast_drain(&mut self, attempts: &Vec<(WorkerId, bool)>) -> (delivered: usize)
        ensures
            delivered == deliveries(attempts@),
            final(self)@ == drained(old(self)@, attempts@),
    {
        let ghost before = self@;
        let mut delivered: usize = 0;
        let mut i: usize = 0;
        assert(attempts@.take(0) =~= Seq::empty());
        while i < attempts.len()
            invariant
                i <= attempts.len(),
                delivered <= i,
                delivered == deliveries(attempts@.take(i as int)),
                self@ == drained(before, attempts@.take(i as int)),
            decreases attempts.len() - i,
        {
            assert(attempts@.take(i + 1).drop_last() =~= attempts@.take(i as int));
            assert(attempts@.take(i + 1).last() == attempts@[i as int]);
            if attempts[i].1 {
                delivered += 1;
            } else {
                self.deregister(attempts[i].0);
            }
            i += 1;
        }
        assert(attempts@.take(i as int) =~= attempts@);
        delivered
    }

    /// Removes a worker from every roster that it was in; an unknown worker is passed over.
    pub fn deregister(&mut self, worker_id: WorkerId)
        ensures
            final(self)@ == without(old(self)@, worker_id),
            valid(final(self)@),
    {
        let _ = self.remove_worker(worker_id);
        proof {
            use_type_invariant(&*self);
            self.every_view_is_valid();
        }
    }
}

spec fn partial(namespace: Seq<char>, types: Seq<ActivityType>, channel: u64) -> WorkerView {
    WorkerView { namespace, activity_types: type_names(types), channel }
}

proof fn absent_worker(
    registry: RegistryView,
    id: WorkerId,
    index: Map<(Seq<char>, Seq<char>), Vec<WorkerId>>,
)
    requires
        !registry.workers.contains_key(id),
        index_matches(index, registry.workers),
        forall|key: (Seq<char>, Seq<char>)| #[trigger]
            registry.cursors.contains_key(key) ==> index.contains_key(key),
    ensures
        without(registry, id) == registry,
{
    assert(registry.workers.remove(id) =~= registry.workers);
    assert forall|key: (Seq<char>, Seq<char>)| #[trigger]
        registry.cursors.contains_key(key) implies served(registry.workers, key) by {
        let roster = index[key]@;
        assert(roster.contains(roster[0]));
        assert(serves(registry.workers, roster[0], key));
    }
    assert(without(registry, id).cursors =~= registry.cursors);
}

proof fn skip_one_type(
    rest: Map<WorkerId, WorkerView>,
    id: WorkerId,
    name: Seq<char>,
    types: Seq<ActivityType>,
    channel: u64,
    i: int,
)
    requires
        types_distinct(types),
        0 <= i < types.len(),
        !rest.contains_key(id),
    ensures
        ({
            let current = rest.insert(id, partial(name, types.skip(i), channel));
            let next = rest.insert(id, partial(name, types.skip(i + 1), channel));
            forall|other: WorkerId, key: (Seq<char>, Seq<char>)|
                serves(next, other, key) <==> serves(current, other, key) && !(other == id && key
                    == (name, types[i].name@))
        }),
{
    let current = rest.insert(id, partial(name, types.skip(i), channel));
    let next = rest.insert(id, partial(name, types.skip(i + 1), channel));
    let here = types.skip(i);
    let there = types.skip(i + 1);
    assert forall|t: Seq<char>| #[trigger] type_names(there).contains(t) <==> type_names(
        here,
    ).contains(t) && t != types[i].name@ by {
        if type_names(there).contains(t) {
            let a = choose|a: int| 0 <= a < there.len() && (#[trigger] there[a]).name@ == t;
            assert(here[a + 1].name@ == t);
            assert(types[i].name@ != types[i + 1 + a].name@);
        }
        if type_names(here).contains(t) && t != types[i].name@ {
            let a = choose|a: int| 0 <= a < here.len() && (#[trigger] here[a]).name@ == t;
            assert(here[0].name@ == types[i].name@);
            assert(there[a - 1].name@ == t);
        }
    }
}

proof fn take_one_type(
    rest: Map<WorkerId, WorkerView>,
    id: WorkerId,
    name: Seq<char>,
    types: Seq<ActivityType>,
    channel: u64,
    i: int,
)
    requires
        types_distinct(types),
        0 <= i < types.len(),
        !rest.contains_key(id),
    ensures
        ({
            let current = rest.insert(id, partial(name, types.take(i), channel));
            let next = rest.insert(id, partial(name, types.take(i + 1), channel));
            &&& forall|other: WorkerId, key: (Seq<char>, Seq<char>)|
                serves(next, other, key) <==> serves(current, other, key) || (other == id && key
                    == (name, types[i].name@))
            &&& !serves(current, id, (name, types[i].name@))
        }),
{
    let here = types.take(i);
    let there = types.take(i + 1);
    assert forall|t: Seq<char>| #[trigger] type_names(there).contains(t) <==> type_names(
        here,
    ).contains(t) || t == types[i].name@ by {
        if type_names(there).contains(t) {
            let a = choose|a: int| 0 <= a < there.len() && (#[trigger] there[a]).name@ == t;
            if a < i {
                assert(here[a].name@ == t);
            }
        }
        if type_names(here).contains(t) {
            let a = choose|a: int| 0 <= a < here.len() && (#[trigger] here[a]).name@ == t;
            assert(there[a].name@ == t);
        }
        if t == types[i].name@ {
            assert(there[i].name@ == t);
        }
    }
    if type_names(here).contains(types[i].name@) {
        let a = choose|a: int| 0 <= a < here.len() && (#[trigger] here[a]).name@
            == types[i].name@;
        assert(types[a].name@ != types[i].name@);
    }
}

proof fn same_roster(
    roster: Seq<WorkerId>,
    before: Map<WorkerId, WorkerView>,
    after: Map<WorkerId, WorkerView>,
    key: (Seq<char>, Seq<char>),
)
    requires
        is_roster(roster, before, key),
        forall|id: WorkerId| serves(before, id, key) <==> serves(after, id, key),
    ensures
        is_roster(roster, after, key),
{
    assert forall|id: WorkerId| #[trigger] roster.contains(id) <==> serves(after, id, key) by {
        assert(serves(before, id, key) <==> serves(after, id, key));
    }
}

fn clone_roster(roster: &Vec<WorkerId>) -> (copy: Vec<WorkerId>)
    ensures
        copy@ == roster@,
{
    let mut copy: Vec<WorkerId> = Vec::new();
    let mut i: usize = 0;
    while i < roster.len()
        invariant
            i <= roster.len(),
            copy@ == roster@.take(i as int),
        decreases roster.len() - i,
    {
        copy.push(roster[i]);
        assert(roster@.take(i + 1) =~= roster@.take(i as int).push(roster@[i as int]));
        i += 1;
    }
    assert(roster@.take(i as int) =~= roster@);
    copy
}

fn without_id(roster: Vec<WorkerId>, id: WorkerId) -> (smaller: Vec<WorkerId>)
    requires
        forall|i: int, j: int|
            #![trigger roster@[i], roster@[j]]
            0 <= i < j < roster@.len() ==> roster@[i].0 < roster@[j].0,
    ensures
        forall|i: int, j: int|
            #![trigger smaller@[i], smaller@[j]]
            0 <= i < j < smaller@.len() ==> smaller@[i].0 < smaller@[j].0,
        forall|other: WorkerId| #[trigger]
            smaller@.contains(other) <==> roster@.contains(other) && other != id,
{
    let ghost full = roster@;
    let mut smaller = roster;
    let mut i: usize = 0;
    while i < smaller.len()
        invariant
            i <= smaller.len(),
            smaller@ == full,
            roster@ == full,
            forall|a: int, b: int|
                #![trigger full[a], full[b]]
                0 <= a < b < full.len() ==> full[a].0 < full[b].0,
            forall|j: int| 0 <= j < i ==> #[trigger] full[j] != id,
        decreases smaller.len() - i,
    {
        if smaller[i].0 == id.0 {
            let _ = smaller.remove(i);
            proof {
                assert(smaller@ =~= full.remove(i as int));
                assert forall|other: WorkerId| #[trigger]
                    smaller@.contains(other) <==> full.contains(other) && other != id by {
                    if smaller@.contains(other) {
                        let a = choose|a: int| 0 <= a < smaller@.len() && smaller@[a] == other;
                        if a < i {
                            assert(full[a] == other);
                            assert(full[a].0 < full[i as int].0);
                        } else {
                            assert(full[a + 1] == other);
                            assert(full[i as int].0 < full[a + 1].0);
                        }
                    }
                    if full.contains(other) && other != id {
                        let a = choose|a: int| 0 <= a < full.len() && full[a] == other;
                        if a < i {
                            assert(smaller@[a] == other);
                        } else {
                            assert(smaller@[a - 1] == other);
                        }
                    }
                }
            }
            return smaller;
        }
        i += 1;
    }
    smaller
}

/// What holds of every registry: a cursor is only kept for a namespace and type that is served, and
/// identifiers are given out in ascending order until they are exhausted.
pub open spec fn valid(registry: RegistryView) -> bool {
    &&& forall|key: (Seq<char>, Seq<char>)| #[trigger]
        registry.cursors.contains_key(key) ==> served(registry.workers, key)
    &&& forall|id: WorkerId| #[trigger]
        registry.workers.contains_key(id) ==> id.0 < registry.next || registry.next == u64::MAX
}

/// Deregistering a worker undoes its registration, except that its identifier is spent.
pub proof fn deregistration_undoes_registration(registry: RegistryView, worker: WorkerView)
    requires
        valid(registry),
        registry.next < u64::MAX,
    ensures
        without(registered(registry, worker), WorkerId(registry.next)) == (RegistryView {
            next: (registry.next + 1) as u64,
            ..registry
        }),
{
    let id = WorkerId(registry.next);
    assert(!registry.workers.contains_key(id));
    assert(registry.workers.remove(id) =~= registry.workers);
    assert(without(registry, id).cursors =~= registry.cursors);
    let after = registered(registry, worker);
    assert(after.workers.remove(id) =~= registry.workers);
    assert(without(after, id).cursors =~= registry.cursors);
}

/// A worker is only ever offered for its own namespace and for a type that it advertised, and every
/// such worker is offered.
pub proof fn only_matching_workers_are_offered(
    before: RegistryView,
    after: RegistryView,
    key: (Seq<char>, Seq<char>),
    offered: Seq<WorkerId>,
    id: WorkerId,
)
    requires
        rotation_step(before, after, key, offered),
    ensures
        offered.contains(id) <==> before.workers.contains_key(id) && before.workers[id].namespace
            == key.0 && before.workers[id].activity_types.contains(key.1),
        offered.no_duplicates(),
        after.workers == before.workers,
{
    let roster = choose|roster: Seq<WorkerId>| #[trigger]
        is_roster(roster, before.workers, key) && {
            if roster.len() == 0 {
                offered == roster && after == before
            } else {
                offered == rotated(
                    roster,
                    cursor_of(before, key) as int % roster.len() as int,
                )
            }
        };
    assert(roster.contains(id) <==> serves(before.workers, id, key));
    if roster.len() > 0 {
        let start = cursor_of(before, key) as int % roster.len() as int;
        vstd::arithmetic::div_mod::lemma_mod_bound(
            cursor_of(before, key) as int,
            roster.len() as int,
        );
        rotation_keeps_members(roster, start, id);
    }
}

proof fn rotation_keeps_members(roster: Seq<WorkerId>, start: int, id: WorkerId)
    requires
        0 <= start < roster.len(),
        forall|i: int, j: int|
            #![trigger roster[i], roster[j]]
            0 <= i < j < roster.len() ==> roster[i].0 < roster[j].0,
    ensures
        rotated(roster, start).contains(id) <==> roster.contains(id),
        rotated(roster, start).no_duplicates(),
        rotated(roster, start).len() == roster.len(),
{
    let turned = rotated(roster, start);
    let n = roster.len() as int;
    if roster.contains(id) {
        let i = choose|i: int| 0 <= i < roster.len() && roster[i] == id;
        if i >= start {
            assert(turned[i - start] == id);
        } else {
            assert(turned[n - start + i] == id);
        }
    }
    if turned.contains(id) {
        let i = choose|i: int| 0 <= i < turned.len() && turned[i] == id;
        if i < n - start {
            assert(roster[start + i] == id);
        } else {
            assert(roster[i - (n - start)] == id);
        }
    }
    assert forall|i: int, j: int|
        0 <= i < turned.len() && 0 <= j < turned.len() && i != j implies turned[i]
        != turned[j] by {
        let x = if i < n - start {
            start + i
        } else {
            i - (n - start)
        };
        let y = if j < n - start {
            start + j
        } else {
            j - (n - start)
        };
        if x < y {
            assert(roster[x].0 < roster[y].0);
        } else {
            assert(roster[y].0 < roster[x].0);
        }
    }
}

/// Round robin: while the roster stays the same, as many requests as there are workers start with
/// different workers, so that each of them comes first once. The cursor must not reach the greatest
/// number on the way, where it starts over.
pub proof fn consecutive_requests_start_with_different_workers(
    roster: Seq<WorkerId>,
    workers: Map<WorkerId, WorkerView>,
    key: (Seq<char>, Seq<char>),
    cursor: usize,
    i: int,
    j: int,
)
    requires
        is_roster(roster, workers, key),
        0 <= i < j < roster.len(),
        cursor + roster.len() <= usize::MAX,
    ensures
        rotated(roster, (cursor + i) % roster.len() as int)[0] != rotated(
            roster,
            (cursor + j) % roster.len() as int,
        )[0],
{
    let n = roster.len() as int;
    let x = (cursor + i) % n;
    let y = (cursor + j) % n;
    vstd::arithmetic::div_mod::lemma_mod_bound(cursor + i, n);
    vstd::arithmetic::div_mod::lemma_mod_bound(cursor + j, n);
    vstd::arithmetic::div_mod::lemma_mod_equivalence(cursor + j, cursor + i, n);
    vstd::arithmetic::div_mod::lemma_small_mod((j - i) as nat, n as nat);
    assert(x != y);
    assert(rotated(roster, x)[0] == roster[x]);
    assert(rotated(roster, y)[0] == roster[y]);
    if x < y {
        assert(roster[x].0 < roster[y].0);
    } else {
        assert(roster[y].0 < roster[x].0);
    }
}

/// One use of a registry.
pub enum RegistryStep {
    /// A worker is registered.
    Register(WorkerView),
    /// A worker is removed.
    Remove(WorkerId),
    /// Workers are asked for.
    Ask((Seq<char>, Seq<char>)),
    /// Workers whose attempt failed are removed.
    Drain(Seq<(WorkerId, bool)>),
}

/// What a registry becomes by one use.
pub open spec fn stepped(before: RegistryView, step: RegistryStep, after: RegistryView) -> bool {
    match step {
        RegistryStep::Register(worker) => after == registered(before, worker),
        RegistryStep::Remove(id) => after == without(before, id),
        RegistryStep::Ask(key) => exists|offered: Seq<WorkerId>| #[trigger]
            rotation_step(before, after, key, offered),
        RegistryStep::Drain(attempts) => after == drained(before, attempts),
    }
}

/// A registry goes through `states`, from an empty one on, as it is used.
pub open spec fn used(states: Seq<RegistryView>, steps: Seq<RegistryStep>) -> bool {
    &&& states.len() == steps.len() + 1
    &&& states[0] == (RegistryView { next: 1, workers: Map::empty(), cursors: Map::empty() })
    &&& forall|k: int|
        0 <= k < steps.len() ==> stepped(states[k], #[trigger] steps[k], states[k + 1])
}

/// How many workers were registered.
pub open spec fn registrations(steps: Seq<RegistryStep>) -> nat
    decreases steps.len(),
{
    if steps.len() == 0 {
        0
    } else {
        registrations(steps.drop_last()) + if steps.last() is Register {
            1nat
        } else {
            0nat
        }
    }
}

/// The identifier that the next registration gets.
pub open spec fn next_number(registry: RegistryView) -> WorkerId {
    WorkerId(registry.next)
}

proof fn draining_gives_no_number_back(registry: RegistryView, attempts: Seq<(WorkerId, bool)>)
    ensures
        drained(registry, attempts).next == registry.next,
    decreases attempts.len(),
{
    if attempts.len() > 0 {
        draining_gives_no_number_back(registry, attempts.drop_last());
    }
}

proof fn numbers_count_registrations(
    states: Seq<RegistryView>,
    steps: Seq<RegistryStep>,
    done: int,
)
    requires
        used(states, steps),
        0 <= done <= steps.len(),
    ensures
        states[done].next == (if registrations(steps.take(done)) < u64::MAX {
            registrations(steps.take(done)) + 1
        } else {
            u64::MAX as nat
        }),
    decreases done,
{
    if done == 0 {
        assert(steps.take(0).len() == 0);
    } else {
        let step = steps[done - 1];
        numbers_count_registrations(states, steps, done - 1);
        assert(steps.take(done).drop_last() =~= steps.take(done - 1));
        assert(stepped(states[done - 1], step, states[done - 1 + 1]));
        if let RegistryStep::Drain(attempts) = step {
            draining_gives_no_number_back(states[done - 1], attempts);
        }
    }
}

/// The `i`-th registration of a registry gets the number `i`, whatever else is done with the
/// registry in between, until the greatest number is reached.
pub proof fn registrations_are_numbered(
    states: Seq<RegistryView>,
    steps: Seq<RegistryStep>,
    place: int,
)
    requires
        used(states, steps),
        0 <= place < steps.len(),
        steps[place] is Register,
        registrations(steps.take(place + 1)) <= u64::MAX,
    ensures
        next_number(states[place]).0 == registrations(steps.take(place + 1)),
{
    numbers_count_registrations(states, steps, place);
    assert(steps.take(place + 1).drop_last() =~= steps.take(place));
}

proof fn registrations_add_up(steps: Seq<RegistryStep>, earlier: int, later: int)
    requires
        0 <= earlier < later <= steps.len(),
    ensures
        registrations(steps.take(earlier)) <= registrations(steps.take(later)),
        steps[later - 1] is Register ==> registrations(steps.take(earlier)) < registrations(
            steps.take(later),
        ),
    decreases later - earlier,
{
    assert(steps.take(later).drop_last() =~= steps.take(later - 1));
    if earlier < later - 1 {
        registrations_add_up(steps, earlier, later - 1);
    }
}

/// Of two registrations the later gets the greater number, so that no two workers share one, until
/// the greatest number is reached.
pub proof fn numbers_are_never_given_twice(
    states: Seq<RegistryView>,
    steps: Seq<RegistryStep>,
    earlier: int,
    later: int,
)
    requires
        used(states, steps),
        0 <= earlier < later < steps.len(),
        steps[earlier] is Register,
        steps[later] is Register,
        registrations(steps.take(later + 1)) <= u64::MAX,
    ensures
        next_number(states[earlier]).0 < next_number(states[later]).0,
{
    registrations_add_up(steps, earlier + 1, later + 1);
    registrations_are_numbered(states, steps, earlier);
    registrations_are_numbered(states, steps, later);
}

/// A registered worker is kept under the next number as it was registered, and a later registration
/// gets another number, until the greatest is reached. The other workers stay as they were.
pub proof fn registered_workers_are_kept(registry: RegistryView, worker: WorkerView, other: WorkerId)
    ensures
        ({
            let after = registered(registry, worker);
            let id = WorkerId(registry.next);
            &&& after.workers.contains_key(id)
            &&& after.workers[id] == worker
            &&& registry.next < u64::MAX ==> after.next == registry.next + 1
            &&& registry.next == u64::MAX ==> after.next == u64::MAX
            &&& other != id ==> (after.workers.contains_key(other)
                <==> registry.workers.contains_key(other))
            &&& other != id && registry.workers.contains_key(other) ==> after.workers[other]
                == registry.workers[other]
        }),
{
}

/// A removed worker is gone and the others stay as they were. A rotation goes on where it was while a
/// worker is left for its namespace and type, and is forgotten with the last one.
pub proof fn removed_workers_are_gone(
    registry: RegistryView,
    id: WorkerId,
    other: WorkerId,
    key: (Seq<char>, Seq<char>),
)
    ensures
        ({
            let after = without(registry, id);
            &&& !after.workers.contains_key(id)
            &&& other != id ==> (after.workers.contains_key(other)
                <==> registry.workers.contains_key(other))
            &&& other != id && registry.workers.contains_key(other) ==> after.workers[other]
                == registry.workers[other]
            &&& after.next == registry.next
            &&& after.cursors.contains_key(key) ==> registry.cursors.contains_key(key)
                && after.cursors[key] == registry.cursors[key] && exists|left: WorkerId|
                left != id && #[trigger] registry.workers.contains_key(left)
                    && registry.workers[left].namespace == key.0
                    && registry.workers[left].activity_types.contains(key.1)
            &&& registry.cursors.contains_key(key) && other != id
                && registry.workers.contains_key(other) && registry.workers[other].namespace
                == key.0 && registry.workers[other].activity_types.contains(key.1)
                ==> after.cursors.contains_key(key)
        }),
{
    let after = without(registry, id);
    if after.cursors.contains_key(key) {
        assert(served(after.workers, key));
        let left = choose|left: WorkerId| #[trigger] serves(after.workers, left, key);
        assert(registry.workers.contains_key(left));
    }
    if other != id && registry.workers.contains_key(other) && registry.workers[other].namespace
        == key.0 && registry.workers[other].activity_types.contains(key.1) {
        assert(serves(after.workers, other, key));
    }
}

/// There is one roster of a namespace and type.
proof fn rosters_are_determined(
    a: Seq<WorkerId>,
    b: Seq<WorkerId>,
    workers: Map<WorkerId, WorkerView>,
    key: (Seq<char>, Seq<char>),
)
    requires
        is_roster(a, workers, key),
        is_roster(b, workers, key),
    ensures
        a == b,
    decreases a.len() + b.len(),
{
    rosters_agree(a, b, workers, key, a.len() as int);
    rosters_agree(b, a, workers, key, b.len() as int);
    assert(a =~= b);
}

proof fn rosters_agree(
    a: Seq<WorkerId>,
    b: Seq<WorkerId>,
    workers: Map<WorkerId, WorkerView>,
    key: (Seq<char>, Seq<char>),
    k: int,
)
    requires
        is_roster(a, workers, key),
        is_roster(b, workers, key),
        0 <= k <= a.len(),
    ensures
        k <= b.len(),
        forall|i: int| 0 <= i < k ==> #[trigger] a[i] == b[i],
    decreases k,
{
    if k > 0 {
        rosters_agree(a, b, workers, key, k - 1);
        assert(a.contains(a[k - 1]));
        assert(b.contains(a[k - 1]));
        let j = choose|j: int| 0 <= j < b.len() && b[j] == a[k - 1];
        if j < k - 1 {
            assert(a[j] == b[j]);
            assert(a[j].0 < a[k - 1].0);
        } else if j > k - 1 {
            assert(b.contains(b[k - 1]));
            assert(a.contains(b[k - 1]));
            let i = choose|i: int| 0 <= i < a.len() && a[i] == b[k - 1];
            assert(b[k - 1].0 < b[j].0);
            if i < k - 1 {
                assert(a[i] == b[i]);
                assert(b[i].0 < b[k - 1].0);
            } else if i > k - 1 {
                assert(a[k - 1].0 < a[i].0);
            }
        }
    }
}

/// Of two requests for the same workers, one behind the other, the second offers the same workers
/// with the first of them moved to the end, so that every worker gets its turn. The rotations of
/// other namespaces and types stay where they were.
pub proof fn every_worker_gets_its_turn(
    before: RegistryView,
    between: RegistryView,
    after: RegistryView,
    key: (Seq<char>, Seq<char>),
    other: (Seq<char>, Seq<char>),
    first: Seq<WorkerId>,
    second: Seq<WorkerId>,
)
    requires
        rotation_step(before, between, key, first),
        rotation_step(between, after, key, second),
        cursor_of(before, key) < usize::MAX,
    ensures
        first.len() > 0 ==> second == first.skip(1) + first.take(1),
        first.len() == 0 ==> second == first,
        other != key ==> cursor_of(between, other) == cursor_of(before, other),
{
    only_matching_workers_are_offered(before, between, key, first, WorkerId(0));
    let a = choose|roster: Seq<WorkerId>| #[trigger]
        is_roster(roster, before.workers, key) && {
            if roster.len() == 0 {
                first == roster && between == before
            } else {
                let cursor = cursor_of(before, key);
                &&& first == rotated(roster, cursor as int % roster.len() as int)
                &&& between == (RegistryView {
                    cursors: before.cursors.insert(
                        key,
                        if cursor < usize::MAX {
                            (cursor + 1) as usize
                        } else {
                            0
                        },
                    ),
                    ..before
                })
            }
        };
    let b = choose|roster: Seq<WorkerId>| #[trigger]
        is_roster(roster, between.workers, key) && {
            if roster.len() == 0 {
                second == roster && after == between
            } else {
                second == rotated(roster, cursor_of(between, key) as int % roster.len() as int)
            }
        };
    rosters_are_determined(a, b, before.workers, key);
    if a.len() > 0 {
        let n = a.len() as int;
        let c = cursor_of(before, key) as int;
        assert(cursor_of(between, key) == c + 1);
        vstd::arithmetic::div_mod::lemma_mod_bound(c, n);
        vstd::arithmetic::div_mod::lemma_mod_bound(c + 1, n);
        let x = c % n;
        let y = (c + 1) % n;
        assert(y == if x + 1 < n {
            x + 1
        } else {
            0
        }) by (nonlinear_arith)
            requires
                n > 0,
                x == c % n,
                y == (c + 1) % n,
                0 <= x < n,
                0 <= y < n,
                c >= 0,
        ;
        assert(first == a.skip(x) + a.take(x));
        assert(second == a.skip(y) + a.take(y));
        assert(second =~= first.skip(1) + first.take(1));
    }
}

/// Draining removes exactly the workers that an attempt failed for, and counts every attempt that was
/// taken.
pub proof fn draining_removes_the_unreachable(
    registry: RegistryView,
    attempts: Seq<(WorkerId, bool)>,
    id: WorkerId,
)
    ensures
        drained(registry, attempts).workers.contains_key(id) <==> registry.workers.contains_key(id)
            && !attempts.contains((id, false)),
        drained(registry, attempts).workers.contains_key(id) ==> drained(
            registry,
            attempts,
        ).workers[id] == registry.workers[id],
        deliveries(attempts) <= attempts.len(),
        deliveries(attempts) == attempts.len() <==> forall|i: int|
            0 <= i < attempts.len() ==> (#[trigger] attempts[i]).1,
        deliveries(attempts) == 0 <==> forall|i: int|
            0 <= i < attempts.len() ==> !(#[trigger] attempts[i]).1,
    decreases attempts.len(),
{
    if attempts.len() > 0 {
        let rest = attempts.drop_last();
        let last = attempts[attempts.len() - 1];
        draining_removes_the_unreachable(registry, rest, id);
        assert(forall|i: int| 0 <= i < rest.len() ==> #[trigger] rest[i] == attempts[i]);
        if rest.contains((id, false)) {
            let i = choose|i: int| 0 <= i < rest.len() && rest[i] == (id, false);
            assert(attempts[i] == (id, false));
        }
        if attempts.contains((id, false)) {
            let i = choose|i: int| 0 <= i < attempts.len() && attempts[i] == (id, false);
            if i < rest.len() {
                assert(rest[i] == (id, false));
            }
        }
        if forall|i: int| 0 <= i < attempts.len() ==> (#[trigger] attempts[i]).1 {
            assert(forall|i: int| 0 <= i < rest.len() ==> (#[trigger] rest[i]).1);
            assert(last.1);
        }
        if forall|i: int| 0 <= i < rest.len() ==> (#[trigger] rest[i]).1 {
            if last.1 {
                assert forall|i: int| 0 <= i < attempts.len() implies (#[trigger] attempts[i]).1 by {
                    if i < rest.len() {
                        assert(rest[i].1);
                    }
                }
            }
        }
        if forall|i: int| 0 <= i < attempts.len() ==> !(#[trigger] attempts[i]).1 {
            assert(forall|i: int| 0 <= i < rest.len() ==> !(#[trigger] rest[i]).1);
            assert(!last.1);
        }
        if forall|i: int| 0 <= i < rest.len() ==> !(#[trigger] rest[i]).1 {
            if !last.1 {
                assert forall|i: int| 0 <= i < attempts.len() implies !(
                #[trigger] attempts[i]).1 by {
                    if i < rest.len() {
                        assert(!rest[i].1);
                    }
                }
            }
        }
    }
}

/// A worker advertises exactly the types that it named.
pub proof fn workers_advertise_what_they_named(
    names: Seq<String>,
    types: Seq<ActivityType>,
    name: Seq<char>,
)
    ensures
        text_set(names).contains(name) <==> exists|i: int|
            0 <= i < names.len() && (#[trigger] names[i])@ == name,
        type_names(types).contains(name) <==> exists|i: int|
            0 <= i < types.len() && (#[trigger] types[i]).name@ == name,
{
}

} // verus!
