//! The client's side of the protocol: its cached, gap-free view of the
//! event sequence. The cache is a pair of parallel vectors — records and
//! their ids, both ordered by id — fed by the responses the session's
//! receiver drains, with duplicates detected by binary search and dropped.
//! The gap tracker walks the sorted id list to compute exactly the ids
//! still missing below the highest one received, for backfill requests.

use vstd::prelude::*;
use crate::event::{
    now_timestamp, ClientMessage, ErrorSerdeView, Event, EventDB, EventDBErrorSerde, EventDBView,
    ServerResponse, ServerResponseView,
};

verus! {

/// Who is submitting events: the author's name and the machine they are on.
pub struct State<'a> {
    pub author: &'a str,
    pub machine: &'a str,
}

/// The text the application is editing: the event body being typed, and the
/// server endpoint fields.
pub struct AppBufs {
    pub log: String,
    pub server: String,
    pub port: String,
}

/// The client application core: submission state, edit buffers, and the
/// id-ordered event cache with its parallel sorted id list.
pub struct App<'a> {
    pub state: State<'a>,
    pub logs: Vec<EventDB>,
    pub log_ids: Vec<u64>,
    pub bufs: AppBufs,
}

/// Strictly ascending: sorted with no duplicate entries.
pub open spec fn sorted_strict(ids: Seq<u64>) -> bool {
    forall|i: int, j: int| 0 <= i < j < ids.len() ==> ids[i] < ids[j]
}

/// The id is somewhere in the list.
pub open spec fn spec_has_id(ids: Seq<u64>, id: u64) -> bool {
    exists|i: int| 0 <= i < ids.len() && ids[i] == id
}

/// Where a fresh id belongs in the sorted list: after every smaller entry.
pub open spec fn spec_insert_pos(ids: Seq<u64>, id: u64) -> int
    decreases ids.len(),
{
    if ids.len() == 0 {
        0
    } else if ids.last() < id {
        ids.len() as int
    } else {
        spec_insert_pos(ids.drop_last(), id)
    }
}

/// The id list after one arrival: unchanged for a duplicate, otherwise the
/// id is placed at its sorted position.
pub open spec fn spec_insert_id(ids: Seq<u64>, id: u64) -> Seq<u64> {
    if spec_has_id(ids, id) {
        ids
    } else {
        ids.insert(spec_insert_pos(ids, id), id)
    }
}

/// The record cache after one arrival, kept aligned with the id list.
pub open spec fn spec_insert_log(
    logs: Seq<EventDBView>,
    ids: Seq<u64>,
    e: EventDBView,
) -> Seq<EventDBView> {
    if spec_has_id(ids, e.id) {
        logs
    } else {
        logs.insert(spec_insert_pos(ids, e.id), e)
    }
}

proof fn lemma_insert_pos_range(ids: Seq<u64>, id: u64)
    ensures
        0 <= spec_insert_pos(ids, id) <= ids.len(),
    decreases ids.len(),
{
    if ids.len() > 0 && !(ids.last() < id) {
        lemma_insert_pos_range(ids.drop_last(), id);
    }
}

/// The sorted position is characterized by its neighbours: everything
/// before it is smaller, everything from it on is larger.
proof fn lemma_insert_pos_char(ids: Seq<u64>, id: u64, pos: int)
    requires
        0 <= pos <= ids.len(),
        forall|k: int| 0 <= k < pos ==> ids[k] < id,
        forall|k: int| pos <= k < ids.len() ==> ids[k] > id,
    ensures
        spec_insert_pos(ids, id) == pos,
    decreases ids.len(),
{
    if ids.len() == 0 {
    } else if ids.last() < id {
        assert(pos > ids.len() - 1);
    } else {
        assert(pos < ids.len());
        lemma_insert_pos_char(ids.drop_last(), id, pos);
    }
}

/// The gap tracker's insertion is idempotent: an id the list already holds
/// is detected and dropped, so inserting the same record twice gives the
/// same id list and the same record cache — in particular the same
/// cardinality — as inserting it once.
pub proof fn lemma_insert_idempotent(logs: Seq<EventDBView>, ids: Seq<u64>, e: EventDBView)
    ensures
        spec_insert_id(spec_insert_id(ids, e.id), e.id) == spec_insert_id(ids, e.id),
        spec_insert_log(spec_insert_log(logs, ids, e), spec_insert_id(ids, e.id), e)
            == spec_insert_log(logs, ids, e),
        spec_insert_id(spec_insert_id(ids, e.id), e.id).len() == spec_insert_id(ids, e.id).len(),
        spec_insert_log(spec_insert_log(logs, ids, e), spec_insert_id(ids, e.id), e).len()
            == spec_insert_log(logs, ids, e).len(),
{
    if !spec_has_id(ids, e.id) {
        let pos = spec_insert_pos(ids, e.id);
        lemma_insert_pos_range(ids, e.id);
        ids.insert_ensures(pos, e.id);
        assert(spec_has_id(ids.insert(pos, e.id), e.id));
    }
}

fn binary_search_ids(ids: &Vec<u64>, id: u64) -> (r: Result<usize, usize>)
    requires
        sorted_strict(ids@),
    ensures
        (r matches Ok(i) ==> i < ids@.len() && ids@[i as int] == id && spec_has_id(ids@, id)),
        (r matches Err(i) ==> i <= ids@.len() && !spec_has_id(ids@, id) && (forall|k: int|
            0 <= k < i ==> ids@[k] < id) && (forall|k: int|
            i <= k < ids@.len() ==> ids@[k] > id)),
{
    let mut lo: usize = 0;
    let mut hi: usize = ids.len();
    while lo < hi
        invariant
            lo <= hi <= ids@.len(),
            sorted_strict(ids@),
            forall|k: int| 0 <= k < lo ==> ids@[k] < id,
            forall|k: int| hi <= k < ids@.len() ==> ids@[k] > id,
        decreases hi - lo,
    {
        let mid = lo + (hi - lo) / 2;
        let v = ids[mid];
        if v == id {
            return Ok(mid);
        } else if v < id {
            proof {
                assert forall|k: int| 0 <= k < mid + 1 implies ids@[k] < id by {
                    if k < mid {
                        assert(ids@[k] < ids@[mid as int]);
                    }
                }
            }
            lo = mid + 1;
        } else {
            proof {
                assert forall|k: int| mid <= k < ids@.len() implies ids@[k] > id by {
                    if k > mid {
                        assert(ids@[mid as int] < ids@[k]);
                    }
                }
            }
            hi = mid;
        }
    }
    proof {
        assert forall|k: int| 0 <= k < ids@.len() implies ids@[k] != id by {
            if k < lo {
            } else {
                assert(ids@[k] > id);
            }
        }
    }
    Err(lo)
}

impl<'a> App<'a> {
    /// The cache invariant: the id list and the record cache have the same
    /// cardinality, agree position by position, and the id list is sorted
    /// with no duplicate entries.
    pub open spec fn wf(self) -> bool {
        &&& self.log_ids@.len() == self.logs@.len()
        &&& forall|i: int|
            0 <= i < self.logs@.len() ==> (#[trigger] self.logs.deep_view()[i]).id
                == self.log_ids@[i]
        &&& sorted_strict(self.log_ids@)
    }

    /// A fresh client core with an empty cache and default identity.
    pub fn new() -> (app: App<'static>)
        ensures
            app.wf(),
            app.logs@.len() == 0,
            app.log_ids@.len() == 0,
            app.state.author@ == "Anonymous"@,
            app.state.machine@ == "Unknown"@,
            app.bufs.log@ == Seq::<char>::empty(),
            app.bufs.server@ == "localhost"@,
            app.bufs.port@ == "8080"@,
    {
        App {
            state: State { author: "Anonymous", machine: "Unknown" },
            logs: Vec::new(),
            log_ids: Vec::new(),
            bufs: AppBufs {
                log: String::new(),
                server: "localhost".to_owned(),
                port: "8080".to_owned(),
            },
        }
    }

    /// The event the edit buffer holds right now, stamped with the clock.
    pub fn create_event_from_buf(&self) -> (ev: Event)
        ensures
            ev.author@ == self.state.author@,
            ev.machine@ == self.state.machine@,
            ev.event@ == self.bufs.log@,
    {
        Event {
            time: now_timestamp(),
            author: self.state.author.to_owned(),
            event: self.bufs.log.clone(),
            machine: self.state.machine.to_owned(),
        }
    }

    /// Package the edit buffer as a submission and clear it; the caller
    /// hands the message to the session's outbound queue.
    pub fn send_log(&mut self) -> (m: ClientMessage)
        ensures
            (m matches ClientMessage::NewEvent(ev) && ev.author@ == old(self).state.author@
                && ev.machine@ == old(self).state.machine@ && ev.event@ == old(self).bufs.log@),
            final(self).bufs.log@ == Seq::<char>::empty(),
            final(self).bufs.server == old(self).bufs.server,
            final(self).bufs.port == old(self).bufs.port,
            final(self).logs == old(self).logs,
            final(self).log_ids == old(self).log_ids,
            final(self).state == old(self).state,
    {
        let ev = self.create_event_from_buf();
        self.bufs.log = String::new();
        ClientMessage::NewEvent(ev)
    }

    /// Drop the whole cache, for a fresh backfill.
    pub fn clear_logs(&mut self)
        ensures
            final(self).wf(),
            final(self).logs@.len() == 0,
            final(self).log_ids@.len() == 0,
            final(self).state == old(self).state,
            final(self).bufs == old(self).bufs,
    {
        self.logs.clear();
        self.log_ids.clear();
    }

    /// One arrived record: a duplicate id is detected by binary search and
    /// dropped; a fresh id is placed at its sorted position in the id list
    /// and the record at the matching position in the cache. Says whether
    /// the record was fresh.
    pub fn insert_log(&mut self, event: EventDB) -> (fresh: bool)
        requires
            old(self).wf(),
        ensures
            final(self).wf(),
            fresh == !spec_has_id(old(self).log_ids@, event._id),
            final(self).log_ids@ == spec_insert_id(old(self).log_ids@, event._id),
            final(self).logs.deep_view() == spec_insert_log(
                old(self).logs.deep_view(),
                old(self).log_ids@,
                event@,
            ),
            final(self).state == old(self).state,
            final(self).bufs == old(self).bufs,
    {
        let ghost ids0 = self.log_ids@;
        let ghost logs0 = self.logs.deep_view();
        let ghost ev = event@;
        let id = event._id;
        match binary_search_ids(&self.log_ids, id) {
            Ok(_) => false,
            Err(pos) => {
                proof {
                    lemma_insert_pos_char(ids0, id, pos as int);
                    ids0.insert_ensures(pos as int, id);
                    logs0.insert_ensures(pos as int, ev);
                }
                self.log_ids.insert(pos, id);
                self.logs.insert(pos, event);
                proof {
                    let ids1 = self.log_ids@;
                    let logs1 = self.logs.deep_view();
                    assert forall|k: int| 0 <= k < logs1.len() implies logs1[k] == logs0.insert(
                        pos as int,
                        ev,
                    )[k] by {
                        if k < pos {
                            assert(self.logs@[k] == old(self).logs@[k]);
                        } else if k == pos {
                            assert(self.logs@[k] == event);
                        } else {
                            assert(self.logs@[k] == old(self).logs@[k - 1]);
                        }
                    }
                    assert(logs1 =~= logs0.insert(pos as int, ev));
                    assert forall|i: int, j: int| 0 <= i < j < ids1.len() implies ids1[i]
                        < ids1[j] by {
                        if j < pos {
                        } else if i > pos {
                            assert(ids1[i] == ids0[i - 1] && ids1[j] == ids0[j - 1]);
                        } else if i == pos {
                            assert(ids1[j] == ids0[j - 1] && ids0[j - 1] > id);
                        } else if j == pos {
                            assert(ids1[i] == ids0[i] && ids0[i] < id);
                        } else {
                            assert(ids1[i] == ids0[i] && ids1[j] == ids0[j - 1]);
                            if i < pos <= j - 1 {
                                assert(ids0[i] < id && ids0[j - 1] > id);
                            }
                        }
                    }
                    assert forall|k: int| 0 <= k < logs1.len() implies (#[trigger] logs1[k]).id
                        == ids1[k] by {
                        if k < pos {
                            assert(logs1[k] == logs0[k] && ids1[k] == ids0[k]);
                        } else if k == pos {
                        } else {
                            assert(logs1[k] == logs0[k - 1] && ids1[k] == ids0[k - 1]);
                        }
                    }
                }
                true
            },
        }
    }
}

/// What draining a batch of responses does to the cache, response by
/// response: each event record is inserted (duplicates dropped), the first
/// error response stops the drain and is reported, pongs and closes are
/// passed over.
pub open spec fn spec_apply_responses(
    logs: Seq<EventDBView>,
    ids: Seq<u64>,
    rs: Seq<ServerResponseView>,
) -> (Seq<EventDBView>, Seq<u64>, Option<ErrorSerdeView>)
    decreases rs.len(),
{
    if rs.len() == 0 {
        (logs, ids, None)
    } else {
        match rs[0] {
            ServerResponseView::Event(e) => spec_apply_responses(
                spec_insert_log(logs, ids, e),
                spec_insert_id(ids, e.id),
                rs.drop_first(),
            ),
            ServerResponseView::Error(er) => (logs, ids, Some(er)),
            ServerResponseView::Pong(_) => spec_apply_responses(logs, ids, rs.drop_first()),
            ServerResponseView::Close(_) => spec_apply_responses(logs, ids, rs.drop_first()),
        }
    }
}

proof fn lemma_contains_push(s: Seq<u64>, v: u64, y: u64)
    ensures
        s.push(v).contains(y) <==> (s.contains(y) || y == v),
{
    if s.contains(y) {
        let i = choose|i: int| 0 <= i < s.len() && s[i] == y;
        assert(s.push(v)[i] == y);
    }
    if y == v {
        assert(s.push(v)[s.len() as int] == y);
    }
    if s.push(v).contains(y) {
        let i = choose|i: int| 0 <= i < s.push(v).len() && s.push(v)[i] == y;
        if i < s.len() {
            assert(s[i] == y);
        }
    }
}

/// In a strictly ascending list, entries spread at least as fast as their
/// positions.
proof fn lemma_sorted_spread(ids: Seq<u64>, i: int, j: int)
    requires
        sorted_strict(ids),
        0 <= i <= j < ids.len(),
    ensures
        ids[j] >= ids[i] + (j - i),
    decreases j - i,
{
    if i < j {
        lemma_sorted_spread(ids, i, j - 1);
    }
}

impl<'a> App<'a> {
    /// Drain a batch of arrived responses into the cache, in order: event
    /// records are inserted with duplicates dropped, the first error stops
    /// the drain and is handed back, everything else is passed over.
    #[verifier::loop_isolation(false)]
    pub fn get_logs(&mut self, responses: &Vec<ServerResponse>) -> (err: Option<
        EventDBErrorSerde,
    >)
        requires
            old(self).wf(),
        ensures
            ({
                let t = spec_apply_responses(
                    old(self).logs.deep_view(),
                    old(self).log_ids@,
                    responses.deep_view(),
                );
                &&& final(self).wf()
                &&& final(self).logs.deep_view() == t.0
                &&& final(self).log_ids@ == t.1
                &&& (err matches Some(e) ==> t.2 == Some(e@))
                &&& (err is None ==> t.2 is None)
                &&& final(self).state == old(self).state
                &&& final(self).bufs == old(self).bufs
            }),
    {
        let ghost logs0 = old(self).logs.deep_view();
        let ghost ids0 = old(self).log_ids@;
        let ghost rsv = responses.deep_view();
        proof {
            assert(rsv.skip(0) =~= rsv);
        }
        let mut j: usize = 0;
        while j < responses.len()
            invariant
                j <= responses@.len(),
                rsv == responses.deep_view(),
                rsv.len() == responses@.len(),
                self.wf(),
                self.state == old(self).state,
                self.bufs == old(self).bufs,
                spec_apply_responses(logs0, ids0, rsv) == spec_apply_responses(
                    self.logs.deep_view(),
                    self.log_ids@,
                    rsv.skip(j as int),
                ),
            decreases responses@.len() - j,
        {
            let resp = &responses[j];
            proof {
                assert(rsv.skip(j as int)[0] == rsv[j as int]);
                assert(rsv.skip(j as int).drop_first() =~= rsv.skip(j + 1));
                assert(rsv[j as int] == responses@[j as int].deep_view());
            }
            match resp {
                ServerResponse::Event(rec) => {
                    proof {
                        assert(rsv[j as int] == ServerResponseView::Event(rec@));
                    }
                    let _fresh = self.insert_log(rec.clone());
                },
                ServerResponse::Error(e) => {
                    proof {
                        assert(rsv[j as int] == ServerResponseView::Error(e@));
                        assert(rsv.skip(j as int).len() > 0);
                        assert(spec_apply_responses(
                            self.logs.deep_view(),
                            self.log_ids@,
                            rsv.skip(j as int),
                        ) == (self.logs.deep_view(), self.log_ids@, Some(e@)));
                    }
                    return Some(e.clone());
                },
                ServerResponse::Pong(_) => {},
                ServerResponse::Close(_) => {},
            }
            j = j + 1;
        }
        proof {
            assert(rsv.skip(responses@.len() as int).len() == 0);
        }
        None
    }

    /// The gap tracker's backfill computation: walk the sorted id list with
    /// a running expected-id cursor and collect, in ascending order, every
    /// id below the highest received one that the cache does not hold. The
    /// caller issues one `GetEvent` request per returned id. The count that
    /// comes out always equals the highest id minus the number of ids
    /// already held, plus one.
    #[verifier::loop_isolation(false)]
    pub fn get_missing_logs(&self) -> (missing: Vec<u64>)
        requires
            self.wf(),
        ensures
            sorted_strict(missing@),
            forall|x: u64|
                missing@.contains(x) <==> (self.log_ids@.len() > 0 && x < self.log_ids@.last()
                    && !spec_has_id(self.log_ids@, x)),
            self.log_ids@.len() == 0 ==> missing@.len() == 0,
            self.log_ids@.len() > 0 ==> missing@.len() + self.log_ids@.len()
                == self.log_ids@.last() + 1,
    {
        let ghost ids = self.log_ids@;
        let mut missing: Vec<u64> = Vec::new();
        let n = self.log_ids.len();
        if n == 0 {
            return missing;
        }
        if self.log_ids[n - 1] == (n - 1) as u64 {
            proof {
                assert forall|k: int| 0 <= k < n implies ids[k] == k as u64 by {
                    if k < n - 1 {
                        lemma_sorted_spread(ids, 0, k);
                        lemma_sorted_spread(ids, k, n - 1);
                    }
                }
                assert forall|x: u64| x < ids.last() implies spec_has_id(ids, x) by {
                    assert(ids[x as int] == x);
                }
            }
            return missing;
        }
        let mut cursor: u64 = 0;
        let ghost bound: int = 0;
        let mut i: usize = 0;
        while i < n
            invariant
                i <= n,
                i < n ==> cursor as int == bound,
                bound == (if i == 0 {
                    0int
                } else {
                    ids[i - 1] + 1
                }),
                forall|x: u64|
                    missing@.contains(x) <==> ((x as int) < bound && !spec_has_id(ids, x)),
                sorted_strict(missing@),
                forall|k: int| 0 <= k < missing@.len() ==> (#[trigger] missing@[k]) < bound,
                missing@.len() + i == bound,
            decreases n - i,
        {
            let v = self.log_ids[i];
            proof {
                if i > 0 {
                    assert(ids[i - 1] < ids[i as int]);
                }
            }
            let mut x = cursor;
            while x < v
                invariant
                    cursor <= x <= v,
                    forall|y: u64|
                        missing@.contains(y) <==> ((y as int) < x as int && !spec_has_id(ids, y)),
                    sorted_strict(missing@),
                    forall|k: int| 0 <= k < missing@.len() ==> (#[trigger] missing@[k]) < x,
                    missing@.len() + i == x as int,
                decreases v - x,
            {
                proof {
                    assert forall|k: int| 0 <= k < ids.len() implies ids[k] != x by {
                        if k < i {
                            if k < i - 1 {
                                assert(ids[k] < ids[i - 1]);
                            }
                        } else if k > i {
                            assert(ids[i as int] < ids[k]);
                        }
                    }
                    lemma_contains_push(missing@, x, x);
                }
                let ghost missing_before = missing@;
                missing.push(x);
                proof {
                    assert forall|y: u64|
                        missing@.contains(y) <==> ((y as int) < x as int + 1 && !spec_has_id(
                            ids,
                            y,
                        )) by {
                        lemma_contains_push(missing_before, x, y);
                    }
                    assert forall|p: int, q: int|
                        0 <= p < q < missing@.len() implies missing@[p] < missing@[q] by {
                        if q < missing@.len() - 1 {
                            assert(missing_before[p] < missing_before[q]);
                        } else {
                            assert(missing@[p] == missing_before[p]);
                        }
                    }
                }
                x = x + 1;
            }
            proof {
                assert(spec_has_id(ids, v)) by {
                    assert(ids[i as int] == v);
                }
                assert forall|y: u64|
                    missing@.contains(y) <==> ((y as int) < v as int + 1 && !spec_has_id(
                        ids,
                        y,
                    )) by {}
                bound = v as int + 1;
            }
            if i + 1 < n {
                proof {
                    assert(ids[i as int] < ids[i + 1]);
                }
                cursor = v + 1;
            }
            i = i + 1;
        }
        proof {
            assert(spec_has_id(ids, ids.last())) by {
                assert(ids[n - 1] == ids.last());
            }
        }
        missing
    }
}

} // verus!
