//! Chunk mesh streaming: which tiles are visible, built, being built or out
//! of date, and which build requests to hand to the mesh workers. The caller
//! sends the requests and feeds the finished builds back.
use vstd::prelude::*;

use crate::render::ChunkRenderKey;
use crate::ui::lod::{block_change_dirty_keys, block_change_keys};

verus! {

/// A request to build the mesh of a tile at a version.
#[derive(Clone, Copy, Debug, PartialEq, Eq)]
pub struct ChunkBuildRequest {
    pub key: ChunkRenderKey,
    pub version: u64,
}

/// Whether two tiles are the same.
pub fn same_key(a: &ChunkRenderKey, b: &ChunkRenderKey) -> (same: bool)
    ensures
        same == (*a == *b),
{
    a.origin_chunk.0 == b.origin_chunk.0 && a.origin_chunk.1 == b.origin_chunk.1 && a.lod_level == b.lod_level
}

fn index_of(v: &Vec<ChunkRenderKey>, k: &ChunkRenderKey) -> (i: Option<usize>)
    ensures
        match i {
            Some(j) => j < v@.len() && v@[j as int] == *k,
            None => !v@.contains(*k),
        },
{
    let mut j: usize = 0;
    while j < v.len()
        invariant
            j <= v@.len(),
            forall|a: int| 0 <= a < j ==> v@[a] != *k,
        decreases v@.len() - j,
    {
        if same_key(&v[j], k) {
            return Some(j);
        }
        j = j + 1;
    }
    None
}

fn set_contains(v: &Vec<ChunkRenderKey>, k: &ChunkRenderKey) -> (b: bool)
    ensures
        b == v@.to_set().contains(*k),
{
    index_of(v, k).is_some()
}

fn set_insert(v: &mut Vec<ChunkRenderKey>, k: ChunkRenderKey)
    requires
        old(v)@.no_duplicates(),
    ensures
        final(v)@.no_duplicates(),
        final(v)@.to_set() == old(v)@.to_set().insert(k),
{
    match index_of(v, &k) {
        Some(_) => {
            proof {
                assert(old(v)@.to_set().insert(k) =~= old(v)@.to_set());
            }
        },
        None => {
            v.push(k);
            proof {
                assert(final(v)@.to_set() =~= old(v)@.to_set().insert(k)) by {
                    assert forall|a: ChunkRenderKey| final(v)@.contains(a) <==> old(v)@.contains(a) || a == k by {
                        if final(v)@.contains(a) {
                            let i = choose|i: int| 0 <= i < final(v)@.len() && final(v)@[i] == a;
                            if i < old(v)@.len() {
                                assert(old(v)@[i] == a);
                            }
                        }
                        if old(v)@.contains(a) {
                            let i = choose|i: int| 0 <= i < old(v)@.len() && old(v)@[i] == a;
                            assert(final(v)@[i] == a);
                        }
                        if a == k {
                            assert(final(v)@[old(v)@.len() as int] == k);
                        }
                    }
                }
            }
        },
    }
}

fn set_remove(v: &mut Vec<ChunkRenderKey>, k: &ChunkRenderKey)
    requires
        old(v)@.no_duplicates(),
    ensures
        final(v)@.no_duplicates(),
        final(v)@.to_set() == old(v)@.to_set().remove(*k),
{
    match index_of(v, k) {
        Some(i) => {
            v.remove(i);
            proof {
                let o = old(v)@;
                let n = final(v)@;
                assert forall|a: ChunkRenderKey| n.contains(a) <==> o.contains(a) && a != *k by {
                    if n.contains(a) {
                        let j = choose|j: int| 0 <= j < n.len() && n[j] == a;
                        if j < i {
                            assert(o[j] == a);
                            assert(j != i);
                        } else {
                            assert(o[j + 1] == a);
                        }
                    }
                    if o.contains(a) && a != *k {
                        let j = choose|j: int| 0 <= j < o.len() && o[j] == a;
                        if j < i {
                            assert(n[j] == a);
                        } else {
                            assert(j != i);
                            assert(n[j - 1] == a);
                        }
                    }
                }
                assert(n.to_set() =~= o.to_set().remove(*k));
            }
        },
        None => {
            proof {
                assert(old(v)@.to_set().remove(*k) =~= old(v)@.to_set());
            }
        },
    }
}

/// The versions as a map: each tile with the version of its newest build.
pub open spec fn versions_map(vs: Seq<(ChunkRenderKey, u64)>) -> Map<ChunkRenderKey, u64>
    decreases vs.len(),
{
    if vs.len() == 0 {
        Map::empty()
    } else {
        versions_map(vs.drop_last()).insert(vs.last().0, vs.last().1)
    }
}

/// No tile has two versions.
pub open spec fn keys_distinct(vs: Seq<(ChunkRenderKey, u64)>) -> bool {
    forall|i: int, j: int| 0 <= i < j < vs.len() ==> #[trigger] vs[i].0 != #[trigger] vs[j].0
}

proof fn lemma_versions_map(vs: Seq<(ChunkRenderKey, u64)>)
    requires
        keys_distinct(vs),
    ensures
        forall|i: int| 0 <= i < vs.len() ==> versions_map(vs).dom().contains(#[trigger] vs[i].0) && versions_map(vs)[vs[i].0]
            == vs[i].1,
        forall|k: ChunkRenderKey| versions_map(vs).dom().contains(k) ==> exists|i: int| 0 <= i < vs.len() && #[trigger] vs[i].0 == k,
    decreases vs.len(),
{
    if vs.len() > 0 {
        let d = vs.drop_last();
        assert(keys_distinct(d)) by {
            assert forall|i: int, j: int| 0 <= i < j < d.len() implies #[trigger] d[i].0 != #[trigger] d[j].0 by {
                assert(d[i] == vs[i] && d[j] == vs[j]);
            }
        }
        lemma_versions_map(d);
        assert forall|i: int| 0 <= i < vs.len() implies versions_map(vs).dom().contains(#[trigger] vs[i].0) && versions_map(
            vs,
        )[vs[i].0] == vs[i].1 by {
            if i < vs.len() - 1 {
                assert(d[i] == vs[i]);
                assert(vs[i].0 != vs.last().0);
            }
        }
        assert forall|k: ChunkRenderKey| versions_map(vs).dom().contains(k) implies exists|i: int|
            0 <= i < vs.len() && #[trigger] vs[i].0 == k by {
            if k == vs.last().0 {
                assert(vs[vs.len() - 1].0 == k);
            } else {
                assert(versions_map(d).dom().contains(k));
                let i = choose|i: int| 0 <= i < d.len() && #[trigger] d[i].0 == k;
                assert(vs[i].0 == k);
            }
        }
    }
}

proof fn lemma_versions_update(vs: Seq<(ChunkRenderKey, u64)>, i: int, version: u64)
    requires
        keys_distinct(vs),
        0 <= i < vs.len(),
    ensures
        keys_distinct(vs.update(i, (vs[i].0, version))),
        versions_map(vs.update(i, (vs[i].0, version))) == versions_map(vs).insert(vs[i].0, version),
    decreases vs.len(),
{
    let u = vs.update(i, (vs[i].0, version));
    assert(keys_distinct(u)) by {
        assert forall|a: int, b: int| 0 <= a < b < u.len() implies #[trigger] u[a].0 != #[trigger] u[b].0 by {
            assert(u[a].0 == vs[a].0 && u[b].0 == vs[b].0);
        }
    }
    let d = vs.drop_last();
    assert(keys_distinct(d)) by {
        assert forall|a: int, b: int| 0 <= a < b < d.len() implies #[trigger] d[a].0 != #[trigger] d[b].0 by {
            assert(d[a] == vs[a] && d[b] == vs[b]);
        }
    }
    if i == vs.len() - 1 {
        assert(u.drop_last() =~= d);
        assert(versions_map(u) =~= versions_map(vs).insert(vs[i].0, version));
    } else {
        lemma_versions_update(d, i, version);
        assert(u.drop_last() =~= d.update(i, (vs[i].0, version)));
        assert(vs[i].0 != vs.last().0);
        assert(versions_map(u) =~= versions_map(vs).insert(vs[i].0, version));
    }
}

/// Streaming state as plain values.
pub ghost struct StreamView {
    pub visible: Set<ChunkRenderKey>,
    pub resident: Set<ChunkRenderKey>,
    pub requested: Set<ChunkRenderKey>,
    pub dirty: Set<ChunkRenderKey>,
    pub versions: Map<ChunkRenderKey, u64>,
}

/// The version a tile's next build gets: its current one, or 1 for a tile
/// never built.
pub open spec fn version_or_one(v: StreamView, k: ChunkRenderKey) -> u64 {
    if v.versions.dom().contains(k) {
        v.versions[k]
    } else {
        1
    }
}

/// The state after a build of `k` is requested unless one is under way.
pub open spec fn requested_state(v: StreamView, k: ChunkRenderKey) -> StreamView {
    if v.requested.contains(k) {
        v
    } else {
        StreamView { requested: v.requested.insert(k), versions: v.versions.insert(k, version_or_one(v, k)), ..v }
    }
}

/// The request `requested_state` makes, if any.
pub open spec fn request_made(v: StreamView, k: ChunkRenderKey) -> Option<ChunkBuildRequest> {
    if v.requested.contains(k) {
        None
    } else {
        Some(ChunkBuildRequest { key: k, version: version_or_one(v, k) })
    }
}

/// A visible tile needs a build unless it is built and up to date.
pub open spec fn needs_build(v: StreamView, k: ChunkRenderKey) -> bool {
    !(v.resident.contains(k) && !v.dirty.contains(k))
}

/// Requests builds for `desired[i..]` in order, skipping tiles that are up
/// to date or under way, and stopping once `max_in_flight` builds are under
/// way: the final state and the requests, in order.
pub open spec fn schedule_from(v: StreamView, desired: Seq<ChunkRenderKey>, i: int, max_in_flight: nat) -> (StreamView, Seq<ChunkBuildRequest>)
    decreases desired.len() - i,
{
    if i < 0 || i >= desired.len() {
        (v, Seq::empty())
    } else {
        let k = desired[i];
        if !needs_build(v, k) {
            schedule_from(v, desired, i + 1, max_in_flight)
        } else if v.requested.len() >= max_in_flight {
            (v, Seq::empty())
        } else {
            let next = schedule_from(requested_state(v, k), desired, i + 1, max_in_flight);
            match request_made(v, k) {
                Some(r) => (next.0, seq![r] + next.1),
                None => next,
            }
        }
    }
}

/// Scheduling keeps the builds under way within the budget: starting from
/// at most `max_in_flight` of them, it never goes past that number.
pub proof fn lemma_schedule_within_budget(v: StreamView, desired: Seq<ChunkRenderKey>, i: int, max_in_flight: nat)
    requires
        v.requested.finite(),
        v.requested.len() <= max_in_flight,
    ensures
        schedule_from(v, desired, i, max_in_flight).0.requested.finite(),
        schedule_from(v, desired, i, max_in_flight).0.requested.len() <= max_in_flight,
    decreases desired.len() - i,
{
    if 0 <= i < desired.len() {
        let k = desired[i];
        if !needs_build(v, k) {
            lemma_schedule_within_budget(v, desired, i + 1, max_in_flight);
        } else if v.requested.len() < max_in_flight {
            let next = requested_state(v, k);
            assert(next.requested.finite());
            assert(next.requested.len() <= v.requested.len() + 1);
            lemma_schedule_within_budget(next, desired, i + 1, max_in_flight);
        }
    }
}

/// The version a tile has after it is marked out of date.
pub open spec fn bumped_version(v: StreamView, k: ChunkRenderKey) -> u64 {
    if v.versions.dom().contains(k) {
        if v.versions[k] == u64::MAX {
            u64::MAX
        } else {
            (v.versions[k] + 1) as u64
        }
    } else {
        1
    }
}

/// The state after `k` is marked out of date: a new version, and a build
/// request when it is visible and none is under way.
pub open spec fn dirty_state(v: StreamView, k: ChunkRenderKey) -> (StreamView, Option<ChunkBuildRequest>) {
    let versions = v.versions.insert(k, bumped_version(v, k));
    let dirty = v.dirty.insert(k);
    if v.visible.contains(k) && !v.requested.contains(k) {
        (
            StreamView { versions, dirty, requested: v.requested.insert(k), ..v },
            Some(ChunkBuildRequest { key: k, version: bumped_version(v, k) }),
        )
    } else {
        (StreamView { versions, dirty, ..v }, None)
    }
}

/// Marks `keys[i..]` out of date in order: the final state and the requests.
pub open spec fn dirty_from(v: StreamView, keys: Seq<ChunkRenderKey>, i: int) -> (StreamView, Seq<ChunkBuildRequest>)
    decreases keys.len() - i,
{
    if i < 0 || i >= keys.len() {
        (v, Seq::empty())
    } else {
        let (v2, r) = dirty_state(v, keys[i]);
        let next = dirty_from(v2, keys, i + 1);
        match r {
            Some(req) => (next.0, seq![req] + next.1),
            None => next,
        }
    }
}

/// What to do with a finished build.
#[derive(Clone, Copy, Debug, PartialEq, Eq)]
pub enum BuildResultAction {
    /// The build is out of date: a newer one was asked for (this request,
    /// when none was under way).
    Rebuild(Option<ChunkBuildRequest>),
    /// The tile is no longer visible: drop the mesh.
    Discard,
    /// Upload the mesh: the tile is now built and up to date.
    Upload,
}

/// The state and action after a build of `k` at `version` finished.
pub open spec fn result_state(v: StreamView, k: ChunkRenderKey, version: u64) -> (StreamView, BuildResultAction) {
    let v1 = StreamView { requested: v.requested.remove(k), ..v };
    let newest: int = if v.versions.dom().contains(k) {
        v.versions[k] as int
    } else {
        0
    };
    if version != newest {
        (requested_state(v1, k), BuildResultAction::Rebuild(request_made(v1, k)))
    } else if !v.visible.contains(k) {
        (v1, BuildResultAction::Discard)
    } else {
        (StreamView { resident: v1.resident.insert(k), dirty: v1.dirty.remove(k), ..v1 }, BuildResultAction::Upload)
    }
}

/// Visible tiles still wait for a build: fewer are built or being built than
/// are visible, or a visible tile is out of date with no build under way.
pub open spec fn pending_work(v: StreamView) -> bool {
    &&& v.visible.len() > 0
    &&& (v.resident.len() + v.requested.len() < v.visible.len() || exists|k: ChunkRenderKey|
        #[trigger] v.dirty.contains(k) && v.visible.contains(k) && !v.requested.contains(k))
}

/// The streaming state.  Its sets and the version map are vectors with no
/// tile listed twice: a tile key is a struct of three integers, and vstd
/// specifies `HashMap` and `HashSet` only for keys that it knows to hash
/// consistently (single primitive integers and booleans), which a key of
/// several fields is not without an unproved assumption.
pub struct ChunkStream {
    visible: Vec<ChunkRenderKey>,
    resident: Vec<ChunkRenderKey>,
    requested: Vec<ChunkRenderKey>,
    dirty: Vec<ChunkRenderKey>,
    versions: Vec<(ChunkRenderKey, u64)>,
}

impl View for ChunkStream {
    type V = StreamView;

    closed spec fn view(&self) -> StreamView {
        StreamView {
            visible: self.visible@.to_set(),
            resident: self.resident@.to_set(),
            requested: self.requested@.to_set(),
            dirty: self.dirty@.to_set(),
            versions: versions_map(self.versions@),
        }
    }
}

impl ChunkStream {
    /// Each set lists a tile once, and each tile has one version.
    pub closed spec fn wf(&self) -> bool {
        &&& self.visible@.no_duplicates()
        &&& self.resident@.no_duplicates()
        &&& self.requested@.no_duplicates()
        &&& self.dirty@.no_duplicates()
        &&& keys_distinct(self.versions@)
    }

    /// Nothing visible, built or requested.
    pub fn new() -> (s: Self)
        ensures
            s.wf(),
            s@.visible.is_empty(),
            s@.resident.is_empty(),
            s@.requested.is_empty(),
            s@.dirty.is_empty(),
            s@.versions == Map::<ChunkRenderKey, u64>::empty(),
    {
        let s = ChunkStream {
            visible: Vec::new(),
            resident: Vec::new(),
            requested: Vec::new(),
            dirty: Vec::new(),
            versions: Vec::new(),
        };
        proof {
            assert(s@.visible =~= Set::<ChunkRenderKey>::empty());
            assert(s@.resident =~= Set::<ChunkRenderKey>::empty());
            assert(s@.requested =~= Set::<ChunkRenderKey>::empty());
            assert(s@.dirty =~= Set::<ChunkRenderKey>::empty());
        }
        s
    }

    proof fn lemma_sizes(&self)
        requires
            self.wf(),
        ensures
            self@.visible.len() == self.visible@.len(),
            self@.resident.len() == self.resident@.len(),
            self@.requested.len() == self.requested@.len(),
            self@.dirty.len() == self.dirty@.len(),
            self@.visible.finite(),
            self@.requested.finite(),
    {
        self.visible@.unique_seq_to_set();
        self.resident@.unique_seq_to_set();
        self.requested@.unique_seq_to_set();
        self.dirty@.unique_seq_to_set();
        vstd::seq_lib::seq_to_set_is_finite(self.visible@);
        vstd::seq_lib::seq_to_set_is_finite(self.requested@);
    }

    fn version_index(&self, k: &ChunkRenderKey) -> (i: Option<usize>)
        requires
            self.wf(),
        ensures
            match i {
                Some(j) => j < self.versions@.len() && self.versions@[j as int].0 == *k && self@.versions.dom().contains(*k)
                    && self@.versions[*k] == self.versions@[j as int].1,
                None => !self@.versions.dom().contains(*k),
            },
    {
        proof {
            lemma_versions_map(self.versions@);
        }
        let mut j: usize = 0;
        while j < self.versions.len()
            invariant
                self.wf(),
                j <= self.versions@.len(),
                forall|a: int| 0 <= a < j ==> self.versions@[a].0 != *k,
            decreases self.versions@.len() - j,
        {
            if same_key(&self.versions[j].0, k) {
                proof {
                    lemma_versions_map(self.versions@);
                }
                return Some(j);
            }
            j = j + 1;
        }
        None
    }

    /// Sets the version of `k`, adding it when it has none.
    fn set_version(&mut self, k: ChunkRenderKey, version: u64)
        requires
            old(self).wf(),
        ensures
            final(self).wf(),
            final(self)@ == (StreamView { versions: old(self)@.versions.insert(k, version), ..old(self)@ }),
    {
        match self.version_index(&k) {
            Some(j) => {
                proof {
                    lemma_versions_update(self.versions@, j as int, version);
                }
                self.versions.set(j, (k, version));
            },
            None => {
                proof {
                    lemma_versions_map(self.versions@);
                    assert forall|i: int| 0 <= i < self.versions@.len() implies self.versions@[i].0 != k by {
                        assert(versions_map(self.versions@).dom().contains(self.versions@[i].0));
                    }
                }
                self.versions.push((k, version));
                proof {
                    assert(self.versions@.drop_last() =~= old(self).versions@);
                }
            },
        }
    }

    /// The version of the newest build of `k`, if one was ever requested.
    pub fn version_of(&self, k: &ChunkRenderKey) -> (version: Option<u64>)
        requires
            self.wf(),
        ensures
            version == if self@.versions.dom().contains(*k) {
                Some(self@.versions[*k])
            } else {
                None::<u64>
            },
    {
        match self.version_index(k) {
            Some(j) => Some(self.versions[j].1),
            None => None,
        }
    }

    /// Requests a build of `k` unless one is under way (see `requested_state`
    /// and `request_made`).
    pub fn ensure_requested(&mut self, k: ChunkRenderKey) -> (request: Option<ChunkBuildRequest>)
        requires
            old(self).wf(),
        ensures
            final(self).wf(),
            final(self)@ == requested_state(old(self)@, k),
            request == request_made(old(self)@, k),
    {
        if set_contains(&self.requested, &k) {
            return None;
        }
        let version = match self.version_of(&k) {
            Some(v) => v,
            None => 1,
        };
        self.set_version(k, version);
        set_insert(&mut self.requested, k);
        Some(ChunkBuildRequest { key: k, version })
    }

    /// Forgets the request for `k` (its build request could not be sent).
    pub fn abandon_request(&mut self, k: &ChunkRenderKey)
        requires
            old(self).wf(),
        ensures
            final(self).wf(),
            final(self)@ == (StreamView { requested: old(self)@.requested.remove(*k), ..old(self)@ }),
    {
        set_remove(&mut self.requested, k);
    }

    /// Makes `desired` the visible tiles and requests builds for them in
    /// order (see `schedule_from`); returns the requests to send.
    pub fn schedule(&mut self, desired: &Vec<ChunkRenderKey>, max_in_flight: usize) -> (requests: Vec<ChunkBuildRequest>)
        requires
            old(self).wf(),
        ensures
            final(self).wf(),
            ({
                let start = StreamView { visible: desired@.to_set(), ..old(self)@ };
                let (after, made) = schedule_from(start, desired@, 0, max_in_flight as nat);
                final(self)@ == after && requests@ == made
            }),
    {
        let mut visible: Vec<ChunkRenderKey> = Vec::new();
        let mut j: usize = 0;
        while j < desired.len()
            invariant
                j <= desired@.len(),
                visible@.no_duplicates(),
                visible@.to_set() == desired@.subrange(0, j as int).to_set(),
            decreases desired@.len() - j,
        {
            set_insert(&mut visible, desired[j]);
            proof {
                assert(desired@.subrange(0, j + 1).to_set() =~= desired@.subrange(0, j as int).to_set().insert(desired@[j as int])) by {
                    let s = desired@.subrange(0, j + 1);
                    let t = desired@.subrange(0, j as int);
                    assert forall|a: ChunkRenderKey| s.contains(a) <==> t.contains(a) || a == desired@[j as int] by {
                        if s.contains(a) {
                            let i = choose|i: int| 0 <= i < s.len() && s[i] == a;
                            if i < j {
                                assert(t[i] == a);
                            }
                        }
                        if t.contains(a) {
                            let i = choose|i: int| 0 <= i < t.len() && t[i] == a;
                            assert(s[i] == a);
                        }
                        if a == desired@[j as int] {
                            assert(s[j as int] == a);
                        }
                    }
                }
            }
            j = j + 1;
        }
        proof {
            assert(desired@.subrange(0, desired@.len() as int) =~= desired@);
        }
        self.visible = visible;
        let ghost start = self@;
        let mut requests: Vec<ChunkBuildRequest> = Vec::new();
        let mut i: usize = 0;
        while i < desired.len()
            invariant_except_break
                self.wf(),
                i <= desired@.len(),
                schedule_from(start, desired@, 0, max_in_flight as nat) == ({
                    let rest = schedule_from(self@, desired@, i as int, max_in_flight as nat);
                    (rest.0, requests@ + rest.1)
                }),
            ensures
                self.wf(),
                schedule_from(start, desired@, 0, max_in_flight as nat) == (self@, requests@),
            decreases desired@.len() - i,
        {
            let k = desired[i];
            let ghost before = self@;
            let ghost made = requests@;
            proof {
                self.lemma_sizes();
            }
            let resident = set_contains(&self.resident, &k);
            let dirty = set_contains(&self.dirty, &k);
            if resident && !dirty {
                i = i + 1;
                continue;
            }
            if self.requested.len() >= max_in_flight {
                proof {
                    assert(schedule_from(before, desired@, i as int, max_in_flight as nat) == (before, Seq::<ChunkBuildRequest>::empty()));
                    assert(made + Seq::<ChunkBuildRequest>::empty() =~= made);
                }
                break;
            }
            match self.ensure_requested(k) {
                Some(r) => {
                    requests.push(r);
                    proof {
                        let rest = schedule_from(self@, desired@, i + 1, max_in_flight as nat);
                        assert(made + (seq![r] + rest.1) =~= requests@ + rest.1);
                    }
                },
                None => {},
            }
            i = i + 1;
        }
        proof {
            if i >= desired@.len() {
                assert(requests@ + Seq::<ChunkBuildRequest>::empty() =~= requests@);
            }
        }
        requests
    }

    /// Marks `k` out of date (see `dirty_state`); returns the build request
    /// to send, if any.
    pub fn mark_dirty(&mut self, k: ChunkRenderKey) -> (request: Option<ChunkBuildRequest>)
        requires
            old(self).wf(),
        ensures
            final(self).wf(),
            (final(self)@, request) == dirty_state(old(self)@, k),
    {
        let version = match self.version_of(&k) {
            Some(v) => v.saturating_add(1),
            None => 1,
        };
        self.set_version(k, version);
        set_insert(&mut self.dirty, k);
        if set_contains(&self.visible, &k) && !set_contains(&self.requested, &k) {
            set_insert(&mut self.requested, k);
            Some(ChunkBuildRequest { key: k, version })
        } else {
            None
        }
    }

    /// Marks out of date every tile that a change to block column `(x, z)`
    /// touches (see `block_change_keys`); returns the requests to send.
    pub fn mark_block_change_dirty(&mut self, x: i64, z: i64) -> (requests: Vec<ChunkBuildRequest>)
        requires
            old(self).wf(),
        ensures
            final(self).wf(),
            (final(self)@, requests@) == dirty_from(old(self)@, block_change_keys(x, z), 0),
    {
        let keys = block_change_dirty_keys(x, z);
        let ghost start = self@;
        let mut requests: Vec<ChunkBuildRequest> = Vec::new();
        let mut i: usize = 0;
        while i < keys.len()
            invariant
                self.wf(),
                i <= keys@.len(),
                keys@ == block_change_keys(x, z),
                dirty_from(start, keys@, 0) == ({
                    let rest = dirty_from(self@, keys@, i as int);
                    (rest.0, requests@ + rest.1)
                }),
            decreases keys@.len() - i,
        {
            let ghost made = requests@;
            match self.mark_dirty(keys[i]) {
                Some(r) => {
                    requests.push(r);
                    proof {
                        let rest = dirty_from(self@, keys@, i + 1);
                        assert(made + (seq![r] + rest.1) =~= requests@ + rest.1);
                    }
                },
                None => {},
            }
            i = i + 1;
        }
        proof {
            assert(requests@ + Seq::<ChunkBuildRequest>::empty() =~= requests@);
        }
        requests
    }

    /// Takes in a finished build of `k` at `version` (see `result_state`).
    pub fn on_build_result(&mut self, k: ChunkRenderKey, version: u64) -> (action: BuildResultAction)
        requires
            old(self).wf(),
        ensures
            final(self).wf(),
            (final(self)@, action) == result_state(old(self)@, k, version),
    {
        set_remove(&mut self.requested, &k);
        let newest: u64 = match self.version_of(&k) {
            Some(v) => v,
            None => 0,
        };
        let stale = match self.version_of(&k) {
            Some(v) => version != v,
            None => version != 0,
        };
        if stale {
            let request = self.ensure_requested(k);
            return BuildResultAction::Rebuild(request);
        }
        if !set_contains(&self.visible, &k) {
            return BuildResultAction::Discard;
        }
        set_insert(&mut self.resident, k);
        set_remove(&mut self.dirty, &k);
        let _ = newest;
        BuildResultAction::Upload
    }

    /// Whether visible tiles still wait for a build (see `pending_work`).
    pub fn has_pending_visible_chunk_work(&self) -> (pending: bool)
        requires
            self.wf(),
        ensures
            pending == pending_work(self@),
    {
        proof {
            self.lemma_sizes();
        }
        if self.visible.len() == 0 {
            proof {
                assert(self.visible@ =~= Seq::<ChunkRenderKey>::empty());
            }
            return false;
        }
        proof {
            assert(self@.visible.contains(self.visible@[0]));
        }
        let loaded_or_inflight = self.resident.len() as u128 + self.requested.len() as u128;
        if loaded_or_inflight < self.visible.len() as u128 {
            return true;
        }
        let mut j: usize = 0;
        while j < self.dirty.len()
            invariant
                j <= self.dirty@.len(),
                forall|a: int| 0 <= a < j ==> !(self@.visible.contains(self.dirty@[a]) && !self@.requested.contains(#[trigger] self.dirty@[a])),
            decreases self.dirty@.len() - j,
        {
            let k = self.dirty[j];
            if set_contains(&self.visible, &k) && !set_contains(&self.requested, &k) {
                proof {
                    assert(self@.dirty.contains(k));
                }
                return true;
            }
            j = j + 1;
        }
        proof {
            assert forall|k: ChunkRenderKey| #[trigger] self@.dirty.contains(k) implies !(self@.visible.contains(k)
                && !self@.requested.contains(k)) by {
                let a = choose|a: int| 0 <= a < self.dirty@.len() && self.dirty@[a] == k;
            }
        }
        false
    }

    /// Whether `k` is built and uploaded.
    pub fn is_resident(&self, k: &ChunkRenderKey) -> (b: bool)
        ensures
            b == self@.resident.contains(*k),
    {
        set_contains(&self.resident, k)
    }

    /// How many builds are under way.
    pub fn requested_count(&self) -> (n: usize)
        requires
            self.wf(),
        ensures
            n == self@.requested.len(),
    {
        proof {
            self.lemma_sizes();
        }
        self.requested.len()
    }
}

} // verus!
