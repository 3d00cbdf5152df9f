use std::collections::BTreeMap;

use xraft_server::actions::{ActionRun, Step};
use xraft_server::captured::CapturedResponse;
use xraft_server::config::{
    FetchDirection, TriggeredSnapshotInfo, MAX_PENDING_READS, MAX_SNAPSHOT_INSTALL_BYTES,
};
use xraft_server::driver::{begin_event, Event, Task};
use xraft_server::error::XRaftError;
use xraft_server::fetch::effective_log_tip;
use xraft_server::host::{Effect, Observation, Outcome, Request, StoredChunk};
use xraft_server::lifecycle::{
    abandon, admit_in_drain, after_event, after_startup, before_serving, begin_drain, begin_final,
    continue_final, course, halt_error, next_in_drain, turn_away, Course, DrainNext, FinalNext,
};
use xraft_server::message::{
    actions_in_range, Action, FetchQuery, FetchRequest, FetchResponse, FetchSnapshotChunk,
    FetchSnapshotRequest, Input, LogTruncation, OutboundMessage, PreVoteRequest, VoteRequest,
    VoteResponse,
};
use xraft_server::reads::PendingRead;
use xraft_server::roles::RoleTracker;
use xraft_server::router::{OutboundResult, SnapshotAssembly};
use xraft_server::state::DriverState;
use xraft_server::types::{
    canonical_snapshot_id, Entry, EntryPayload, LogIndex, NodeId, NodeRole, NodeView, PeerProgress,
    SnapshotMeta, Term, VoterSet,
};

/// What the engine does on a call, where a test wants something of its own.
type Script = Box<dyn FnMut(&Input, &mut NodeView) -> Option<Vec<Action>>>;

/// Storage, state machine and engine in memory.
struct Host {
    node: NodeView,
    last_log_term: Term,
    log: BTreeMap<u64, Entry>,
    first_valid: u64,
    persisted: Vec<LogIndex>,
    saved: Vec<(SnapshotMeta, Vec<u8>)>,
    payload: Vec<u8>,
    snapshots_taken: usize,
    restored: Vec<Vec<u8>>,
    applied: Vec<(u64, Vec<u8>)>,
    acked: Vec<(NodeId, LogIndex)>,
    calls: Vec<&'static str>,
    failing: Vec<&'static str>,
    script: Option<Script>,
}

fn storage(msg: &str) -> XRaftError {
    XRaftError::Storage(msg.to_string())
}

impl Host {
    fn new(node: NodeView) -> Host {
        Host {
            node,
            last_log_term: Term(0),
            log: BTreeMap::new(),
            first_valid: 1,
            persisted: vec![],
            saved: vec![],
            payload: vec![],
            snapshots_taken: 0,
            restored: vec![],
            applied: vec![],
            acked: vec![],
            calls: vec![],
            failing: vec![],
            script: None,
        }
    }

    fn seed(&mut self, entries: Vec<Entry>) {
        for e in entries {
            self.last_log_term = e.term;
            self.node.last_log_index = e.index;
            self.log.insert(e.index.0, e);
        }
    }

    fn fails(&mut self, call: &'static str) -> bool {
        self.calls.push(call);
        match self.failing.iter().position(|f| *f == call) {
            Some(i) => {
                self.failing.remove(i);
                true
            }
            None => false,
        }
    }

    fn done(&mut self, call: &'static str) -> Result<(), XRaftError> {
        if self.fails(call) {
            Err(storage("injected"))
        } else {
            Ok(())
        }
    }

    fn step_engine(&mut self, input: Input) -> Vec<Action> {
        if let Some(mut script) = self.script.take() {
            let reaction = script(&input, &mut self.node);
            self.script = Some(script);
            if let Some(actions) = reaction {
                return actions;
            }
        }
        match input {
            Input::ClientPropose(command) => {
                let index = LogIndex(self.node.last_log_index.0 + 1);
                self.node.last_log_index = index;
                self.node.commit_index = index;
                let from = LogIndex(self.node.last_applied.0 + 1);
                self.node.last_applied = index;
                vec![
                    Action::AppendEntries(vec![command_entry(
                        index.0,
                        self.node.current_term.0,
                        &command,
                    )]),
                    Action::PersistHardState,
                    Action::ApplyToStateMachine { from, to: index },
                ]
            }
            Input::FetchRequest(r) => {
                self.node.fetch_seq += 1;
                if r.cluster_id != self.node.cluster_id || self.node.role != NodeRole::Leader {
                    return vec![];
                }
                for p in self.node.peers.iter_mut().filter(|p| p.id == r.replica_id) {
                    p.last_fetch_seq = self.node.fetch_seq;
                    p.last_fetch_offset = r.fetch_offset;
                }
                if let Some(m) = &self.node.last_snapshot_meta {
                    if !m.id.is_empty() && r.fetch_offset <= m.last_included_index {
                        return vec![Action::RedirectToSnapshot {
                            to: r.replica_id,
                            cluster_id: r.cluster_id,
                            leader_epoch: self.node.current_term.0,
                            leader_id: self.node.id,
                            high_watermark: self.node.commit_index,
                            snapshot_metadata: m.clone(),
                        }];
                    }
                }
                vec![Action::ServeFetch(FetchQuery {
                    to: r.replica_id,
                    cluster_id: r.cluster_id,
                    leader_epoch: self.node.current_term.0,
                    leader_id: self.node.id,
                    high_watermark: self.node.commit_index,
                    fetch_offset: r.fetch_offset,
                    last_fetched_epoch: r.last_fetched_epoch,
                })]
            }
            Input::FetchResponse(r) => match r.snapshot_redirect {
                Some(redirect) => vec![Action::SendMessage {
                    to: r.leader_id,
                    message: OutboundMessage::FetchSnapshotRequest(FetchSnapshotRequest {
                        cluster_id: r.cluster_id,
                        leader_epoch: self.node.current_term.0,
                        replica_id: self.node.id,
                        snapshot_id: redirect.snapshot_id,
                        offset: 0,
                        max_bytes: 0,
                    }),
                }],
                None => vec![],
            },
            Input::FetchRequestAcked { replica_id, confirmed_offset } => {
                self.acked.push((replica_id, confirmed_offset));
                vec![]
            }
            Input::SnapshotComplete { metadata } => {
                let through = metadata.last_included_index;
                self.node.last_snapshot_meta = Some(metadata);
                vec![Action::TruncateLog(LogTruncation::PrefixThroughInclusive {
                    through_index_inclusive: through,
                })]
            }
            Input::SnapshotInstalled { metadata } => {
                let at = metadata.last_included_index;
                self.node.last_applied = at;
                self.node.commit_index = at;
                self.node.last_snapshot_meta = Some(metadata);
                vec![]
            }
            Input::FetchSnapshotReceived { metadata, data } => {
                vec![Action::InstallSnapshot { metadata, data }]
            }
            _ => vec![],
        }
    }

    fn engine(&mut self, actions: Vec<Action>) -> Outcome {
        assert!(actions_in_range(&actions) && self.node.is_valid());
        Outcome::Engine { node: self.node.clone(), actions }
    }

    fn perform(&mut self, request: Request) -> Outcome {
        match request {
            Request::StepEngine(input) => {
                let actions = self.step_engine(input);
                self.engine(actions)
            }
            Request::BecomeFollower(term) => {
                let led = self.node.role == NodeRole::Leader;
                self.node.role = NodeRole::Follower;
                self.node.current_term = term;
                self.node.leader_id = None;
                let mut actions = vec![Action::PersistHardState];
                if led {
                    actions.push(Action::StepDown);
                }
                self.engine(actions)
            }
            Request::ApplyCommitted => {
                let (from, to) = (self.node.last_applied, self.node.commit_index);
                let mut actions = vec![];
                if from < to {
                    self.node.last_applied = to;
                    actions.push(Action::ApplyToStateMachine { from: LogIndex(from.0 + 1), to });
                }
                self.engine(actions)
            }
            Request::SetLastLog { index, term } => {
                self.node.last_log_index = index;
                self.last_log_term = term;
                Outcome::Node(self.node.clone())
            }
            Request::ReadLogTip => match self.log.values().next_back() {
                Some(e) => Outcome::LogTip { index: e.index, term: e.term },
                None => Outcome::LogTip { index: LogIndex(0), term: Term(0) },
            },
            Request::ReadFirstValidIndex => Outcome::FirstValidIndex(LogIndex(self.first_valid)),
            Request::ReadTerm(index) => Outcome::Term(if self.fails("term_at") {
                Err(storage("injected"))
            } else {
                Ok(self.log.get(&index.0).map(|e| e.term))
            }),
            Request::ReadRange { from, end } => Outcome::Entries(if self.fails("get_range") {
                Err(storage("injected"))
            } else {
                Ok(self.log.range(from.0..end.0).map(|(_, e)| e.clone()).collect())
            }),
            Request::PersistHardState { commit_index } => {
                let r = self.done("persist");
                if r.is_ok() {
                    self.persisted.push(commit_index);
                }
                Outcome::Done(r)
            }
            Request::AppendLog(entries) => {
                let r = self.done("append");
                if r.is_ok() {
                    for e in entries {
                        self.log.insert(e.index.0, e);
                    }
                }
                Outcome::Done(r)
            }
            Request::FlushLog => Outcome::Done(self.done("flush")),
            Request::TruncateLogFrom(index) => {
                let r = self.done("truncate");
                if r.is_ok() {
                    self.log.split_off(&index.0);
                }
                Outcome::Done(r)
            }
            Request::PurgeLogPrefix(through) => {
                let r = self.done("purge");
                if r.is_ok() {
                    self.log = self.log.split_off(&(through.0 + 1));
                    self.first_valid = through.0 + 1;
                }
                Outcome::Done(r)
            }
            Request::Apply { index, command } => {
                let r = self.done("apply");
                if r.is_ok() {
                    self.applied.push((index.0, command));
                }
                Outcome::Done(r)
            }
            Request::SnapshotStateMachine => {
                if self.fails("snapshot") {
                    return Outcome::Data(Err(storage("injected")));
                }
                self.snapshots_taken += 1;
                Outcome::Data(Ok(self.payload.clone()))
            }
            Request::RestoreStateMachine(data) => {
                let r = self.done("restore");
                if r.is_ok() {
                    self.restored.push(data);
                }
                Outcome::Done(r)
            }
            Request::SaveSnapshot { mut metadata, data } => {
                let r = self.done("save");
                if r.is_ok() {
                    metadata.id = canonical_snapshot_id(
                        metadata.last_included_term,
                        metadata.last_included_index,
                    );
                    metadata.size_bytes = Some(data.len() as u64);
                    self.saved.push((metadata, data));
                }
                Outcome::Done(r)
            }
            Request::FindSnapshot(id) => Outcome::Found(if self.fails("find") {
                Err(storage("injected"))
            } else {
                Ok(self.saved.iter().map(|(m, _)| m).find(|m| m.id == id).cloned())
            }),
            Request::ReadSnapshot { metadata, chunk_size, offset, max_bytes } => {
                assert_eq!(max_bytes.unwrap_or(0) as usize, chunk_size);
                if self.fails("read") {
                    return Outcome::Chunks(Err(storage("injected")));
                }
                let bytes = self
                    .saved
                    .iter()
                    .find(|(m, _)| m.id == metadata.id)
                    .map(|(_, d)| d[offset as usize..].to_vec())
                    .unwrap_or_default();
                let size = if chunk_size == 0 { 1024 * 1024 } else { chunk_size };
                let parts: Vec<Vec<u8>> = bytes.chunks(size).map(|c| c.to_vec()).collect();
                let last = parts.len() - 1;
                let mut pieces = vec![];
                for (i, data) in parts.into_iter().enumerate() {
                    if self.failing.contains(&"piece") && i == 1 {
                        pieces.push(Err(storage("bad sector")));
                        continue;
                    }
                    pieces.push(Ok(StoredChunk {
                        chunk_index: i as u64,
                        data,
                        done: i == last,
                        metadata: if i == 0 { Some(metadata.clone()) } else { None },
                    }));
                }
                Outcome::Chunks(Ok(pieces))
            }
        }
    }
}

const NOW: u64 = 1_000;

fn node(role: NodeRole, voters: Vec<u64>) -> NodeView {
    NodeView {
        id: NodeId(1),
        cluster_id: "test-driver".to_string(),
        role,
        leader_id: if role == NodeRole::Leader { Some(NodeId(1)) } else { None },
        current_term: Term(1),
        commit_index: LogIndex(0),
        last_applied: LogIndex(0),
        last_log_index: LogIndex(0),
        logical_tick: 0,
        fetch_seq: 0,
        check_quorum_interval_ticks: 10,
        enable_leader_lease: false,
        has_active_lease: false,
        snapshot_in_flight: false,
        voter_set: Some(VoterSet { voters: voters.into_iter().map(NodeId).collect() }),
        peers: vec![],
        last_snapshot_meta: None,
    }
}

fn peer(id: u64) -> PeerProgress {
    PeerProgress { id: NodeId(id), last_fetch_seq: 0, last_fetch_offset: LogIndex(0) }
}

fn command_entry(index: u64, term: u64, command: &[u8]) -> Entry {
    Entry {
        index: LogIndex(index),
        term: Term(term),
        payload: EntryPayload::Command(command.to_vec()),
    }
}

fn meta(index: u64, term: u64, data: &[u8]) -> SnapshotMeta {
    SnapshotMeta {
        id: String::new(),
        last_included_index: LogIndex(index),
        last_included_term: Term(term),
        voter_set: Some(VoterSet { voters: vec![NodeId(1)] }),
        size_bytes: Some(data.len() as u64),
        checksum: None,
    }
}

fn described(id: &str, index: u64, term: u64, size: u64) -> SnapshotMeta {
    SnapshotMeta {
        id: id.to_string(),
        last_included_index: LogIndex(index),
        last_included_term: Term(term),
        voter_set: Some(VoterSet { voters: vec![NodeId(1)] }),
        size_bytes: Some(size),
        checksum: None,
    }
}

fn commands(range: std::ops::RangeInclusive<u64>, term: u64, prefix: &str) -> Vec<Entry> {
    range.map(|i| command_entry(i, term, format!("{prefix}{i}").as_bytes())).collect()
}

struct Fixture {
    host: Host,
    state: DriverState,
    effects: Vec<Effect>,
}

impl Fixture {
    fn new(n: NodeView) -> Fixture {
        Fixture { host: Host::new(n.clone()), state: DriverState::new(n, 8), effects: vec![] }
    }

    fn leader() -> Fixture {
        let mut n = node(NodeRole::Leader, vec![1]);
        n.peers = vec![peer(2)];
        Fixture::new(n)
    }

    fn single_voter() -> Fixture {
        let mut n = node(NodeRole::Follower, vec![1]);
        n.current_term = Term(0);
        Fixture::new(n)
    }

    fn sync(&mut self) {
        self.state.node = self.host.node.clone();
    }

    fn take(&mut self) -> Vec<Effect> {
        self.effects.extend(self.state.outbox.take());
        std::mem::take(&mut self.effects)
    }

    fn process(&mut self, actions: Vec<Action>, origin: Option<NodeId>) -> CapturedResponse {
        self.sync();
        let mut run = ActionRun::new(actions, origin);
        let mut step = run.step(&mut self.state, NOW);
        loop {
            match step {
                Step::Finished => return run.into_captured(),
                Step::Continue => step = run.step(&mut self.state, NOW),
                Step::Ask(request) => {
                    self.effects.extend(self.state.outbox.take());
                    let outcome = self.host.perform(request);
                    step = run.resume(&mut self.state, outcome, NOW);
                }
            }
        }
    }

    fn handle(&mut self, event: Event) {
        self.sync();
        let (mut task, mut step): (Task, Step) = begin_event(&mut self.state, event, NOW);
        loop {
            match step {
                Step::Finished => break,
                Step::Continue => (task, step) = task.step(&mut self.state, NOW),
                Step::Ask(request) => {
                    self.effects.extend(self.state.outbox.take());
                    let outcome = self.host.perform(request);
                    (task, step) = task.resume(&mut self.state, outcome, NOW);
                }
            }
        }
    }

    fn finish(&mut self) -> Result<(), XRaftError> {
        let (mut stage, mut request) = begin_final();
        loop {
            let outcome = self.host.perform(request);
            match continue_final(&mut self.state, stage, outcome) {
                FinalNext::Ask(s, r) => {
                    stage = s;
                    request = r;
                }
                FinalNext::Clean => return Ok(()),
                FinalNext::Failed(e) => return Err(e),
            }
        }
    }
}

fn snapshot_request(epoch: u64, replica: u64, id: &str) -> FetchSnapshotRequest {
    FetchSnapshotRequest {
        cluster_id: "test-driver".to_string(),
        leader_epoch: epoch,
        replica_id: NodeId(replica),
        snapshot_id: id.to_string(),
        offset: 0,
        max_bytes: 0,
    }
}

fn ask_snapshot(f: &mut Fixture, request: FetchSnapshotRequest) -> Result<usize, XRaftError> {
    f.handle(Event::FetchSnapshot { request, reply: 5 });
    for e in f.take() {
        if let Effect::AnswerFetchSnapshot { reply, result } = e {
            assert_eq!(reply, 5);
            return result.map(|pieces| pieces.len());
        }
    }
    panic!("no answer");
}

fn vote_request() -> VoteRequest {
    VoteRequest {
        cluster_id: "test-driver".to_string(),
        leader_epoch: 2,
        term: Term(2),
        candidate_id: NodeId(2),
        last_log_index: LogIndex(0),
        last_log_term: Term(0),
    }
}

fn fetch_request(cluster: &str, offset: u64) -> FetchRequest {
    FetchRequest {
        cluster_id: cluster.to_string(),
        leader_epoch: 1,
        replica_id: NodeId(2),
        fetch_offset: LogIndex(offset),
        last_fetched_epoch: Term(1),
    }
}

fn received(effects: &[Effect]) -> usize {
    effects
        .iter()
        .filter(|e| {
            **e == Effect::Observe(Observation::FetchRequest(FetchDirection::Received))
        })
        .count()
}

#[test]
fn scenario_driver_dispatches_apply_calls_state_machine_with_correct_index_and_data() {
    let mut f = Fixture::leader();
    f.host.seed(vec![
        command_entry(1, 1, b"alpha"),
        command_entry(2, 1, b"beta"),
        command_entry(3, 1, b"gamma"),
    ]);
    let captured =
        f.process(vec![Action::ApplyToStateMachine { from: LogIndex(1), to: LogIndex(3) }], None);
    assert!(captured.error.is_none());
    assert_eq!(
        f.host.applied,
        vec![(1, b"alpha".to_vec()), (2, b"beta".to_vec()), (3, b"gamma".to_vec())]
    );
}

#[test]
fn only_commands_reach_the_state_machine() {
    let mut f = Fixture::leader();
    f.host.seed(vec![
        Entry { index: LogIndex(1), term: Term(1), payload: EntryPayload::NoOp },
        command_entry(2, 1, b"beta"),
        Entry { index: LogIndex(3), term: Term(1), payload: EntryPayload::ConfigChange(vec![1]) },
        Entry { index: LogIndex(4), term: Term(1), payload: EntryPayload::Snapshot(vec![1]) },
    ]);
    f.state.waiters.register(LogIndex(3), 30, 400);
    let captured =
        f.process(vec![Action::ApplyToStateMachine { from: LogIndex(1), to: LogIndex(4) }], None);
    assert!(captured.error.is_none());
    assert_eq!(f.host.applied, vec![(2, b"beta".to_vec())]);
    assert_eq!(
        f.take(),
        vec![
            Effect::AnswerPropose { reply: 30, result: Ok(LogIndex(3)) },
            Effect::Observe(Observation::CommitLatency(600)),
        ]
    );
}

#[test]
fn scenario_driver_take_snapshot_cycle_emits_truncate_log() {
    let mut f = Fixture::leader();
    f.host.seed(vec![command_entry(1, 7, b"seed")]);
    f.host.payload = b"snapshot-bytes-v1".to_vec();
    let captured = f.process(vec![Action::TakeSnapshot { through_index: LogIndex(1) }], None);
    assert!(captured.error.is_none());
    assert!(f.state.halt_reason.is_none());
    assert_eq!(f.host.snapshots_taken, 1);
    assert_eq!(f.host.saved.len(), 1);
    assert_eq!(f.host.saved[0].0.last_included_index, LogIndex(1));
    assert_eq!(f.host.saved[0].0.last_included_term, Term(7));
    assert_eq!(f.host.saved[0].1, b"snapshot-bytes-v1".to_vec());
    let recorded = f.state.node.last_snapshot_meta.clone().unwrap();
    assert_eq!(recorded.last_included_index, LogIndex(1));
    assert_eq!(recorded.last_included_term, Term(7));
    assert_eq!(recorded.id, "snapshot-0000000007-00000000000000000001");
    assert!(f.host.log.is_empty());
    assert_eq!(
        f.take(),
        vec![
            Effect::Observe(Observation::SnapshotTaken { bytes: 17, elapsed: 0 }),
            Effect::Observe(Observation::LogCompacted(1)),
        ]
    );
}

#[test]
fn scenario_auto_snapshot_trigger_purges_log_prefix() {
    let mut f = Fixture::single_voter();
    f.host.seed(
        (1..=150).map(|i| command_entry(i, 4, format!("cmd-{i:03}").as_bytes())).collect(),
    );
    f.host.payload = b"snapshot-after-150-committed".to_vec();
    let captured = f.process(vec![Action::TakeSnapshot { through_index: LogIndex(150) }], None);
    assert!(captured.error.is_none());
    assert!(f.state.halt_reason.is_none());
    let anchor = f.state.node.last_snapshot_meta.clone().unwrap();
    assert_eq!(anchor.last_included_index, LogIndex(150));
    assert_eq!(anchor.last_included_term, Term(4));
    for i in [1u64, 25, 50, 75, 100, 125, 149, 150] {
        assert!(!f.host.log.contains_key(&i), "entry {i} must be purged");
    }
    assert_eq!(
        f.host.perform(Request::ReadLogTip),
        Outcome::LogTip { index: LogIndex(0), term: Term(0) }
    );
    for i in [1u64, 50, 100, 150] {
        assert_eq!(f.host.perform(Request::ReadTerm(LogIndex(i))), Outcome::Term(Ok(None)));
    }
    assert_eq!(f.host.saved.len(), 1);
    assert_eq!(f.host.saved[0].0.last_included_index, LogIndex(150));
    assert_eq!(f.host.saved[0].1, b"snapshot-after-150-committed".to_vec());
    assert!(f.take().contains(&Effect::Observe(Observation::LogCompacted(150))));
}

#[test]
fn scenario_driver_install_snapshot_calls_restore_and_advances_indices() {
    let mut f = Fixture::single_voter();
    let payload = b"leader-snapshot-payload".to_vec();
    let captured = f.process(
        vec![Action::InstallSnapshot { metadata: meta(42, 9, &payload), data: payload.clone() }],
        None,
    );
    assert!(captured.error.is_none());
    assert!(f.state.halt_reason.is_none());
    assert_eq!(f.host.restored, vec![payload.clone()]);
    assert_eq!(f.host.saved.len(), 1);
    assert_eq!(f.host.saved[0].0.last_included_index, LogIndex(42));
    assert_eq!(f.host.saved[0].0.last_included_term, Term(9));
    assert_eq!(f.host.saved[0].1, payload);
    assert_eq!(f.state.node.last_applied, LogIndex(42));
    assert_eq!(f.state.node.commit_index, LogIndex(42));
    assert_eq!(f.state.node.last_log_index, LogIndex(42));
    assert_eq!(f.host.last_log_term, Term(9));
    let recorded = f.state.node.last_snapshot_meta.clone().unwrap();
    assert_eq!(recorded.last_included_index, LogIndex(42));
    assert_eq!(recorded.last_included_term, Term(9));
    assert_eq!(recorded.id, canonical_snapshot_id(Term(9), LogIndex(42)));
    let save = f.host.calls.iter().position(|c| *c == "save").unwrap();
    let restore = f.host.calls.iter().position(|c| *c == "restore").unwrap();
    assert!(save < restore);
    assert!(f.take().contains(&Effect::Observe(Observation::SnapshotInstalled)));
}

#[test]
fn install_snapshot_rejects_stale_and_equal_index_without_restore() {
    let mut f = Fixture::single_voter();
    let fresh = b"fresh-snapshot-at-index-42".to_vec();
    let captured = f.process(
        vec![Action::InstallSnapshot { metadata: meta(42, 9, &fresh), data: fresh.clone() }],
        None,
    );
    assert!(captured.error.is_none());
    assert_eq!(f.state.node.last_applied, LogIndex(42));
    assert_eq!(f.state.node.commit_index, LogIndex(42));
    assert_eq!(f.host.restored.len(), 1);
    assert_eq!(f.host.saved.len(), 1);
    let before = f.state.node.clone();
    let stale = b"stale-payload-at-index-10".to_vec();
    let equal = b"equal-index-payload-different-term".to_vec();
    let captured = f.process(
        vec![
            Action::InstallSnapshot { metadata: meta(10, 3, &stale), data: stale.clone() },
            Action::InstallSnapshot { metadata: meta(42, 7, &equal), data: equal.clone() },
        ],
        None,
    );
    assert!(captured.error.is_none());
    assert!(f.state.halt_reason.is_none());
    assert_eq!(f.host.restored.len(), 1);
    assert_eq!(f.host.saved.len(), 1);
    assert_eq!(f.state.node, before);
}

#[test]
fn install_snapshot_with_matching_term_retains_log_tail() {
    let mut f = Fixture::single_voter();
    f.host.seed(commands(8..=11, 3, "e"));
    f.host.first_valid = 8;
    let payload = b"snapshot-keep-tail".to_vec();
    let captured = f.process(
        vec![Action::InstallSnapshot { metadata: meta(10, 3, &payload), data: payload.clone() }],
        None,
    );
    assert!(captured.error.is_none());
    assert!(f.state.halt_reason.is_none());
    assert!(f.host.log.contains_key(&11));
    assert_eq!(f.state.node.last_log_index, LogIndex(11));
    assert_eq!(f.host.last_log_term, Term(3));
}

#[test]
fn install_snapshot_retain_purges_prefix_keeps_suffix() {
    let mut f = Fixture::single_voter();
    f.host.seed(commands(1..=120, 4, "e-"));
    f.host.node.current_term = Term(5);
    f.host.node.leader_id = Some(NodeId(2));
    let data: Vec<u8> = vec![0xCA, 0xFE, 0xBA, 0xBE];
    let captured = f.process(
        vec![Action::InstallSnapshot {
            metadata: described("snap-retain", 80, 4, 4),
            data: data.clone(),
        }],
        None,
    );
    assert!(captured.error.is_none());
    assert!(f.state.halt_reason.is_none());
    for i in [1u64, 25, 50, 79, 80] {
        assert!(!f.host.log.contains_key(&i), "entry {i} must be purged");
    }
    for i in [81u64, 100, 119, 120] {
        let kept = f.host.log.get(&i).expect("entry must be retained");
        assert_eq!(kept.index, LogIndex(i));
        assert_eq!(kept.term, Term(4));
    }
    assert_eq!(f.host.restored, vec![data.clone()]);
    assert_eq!(f.host.saved.len(), 1);
    assert_eq!(f.host.saved[0].0.last_included_index, LogIndex(80));
    assert_eq!(f.host.saved[0].1, data);
    let anchor = f.state.node.last_snapshot_meta.clone().unwrap();
    assert_eq!(anchor.last_included_index, LogIndex(80));
    assert_eq!(f.state.node.last_applied, LogIndex(80));
    assert_eq!(f.state.node.commit_index, LogIndex(80));
    assert_eq!(f.state.node.last_log_index, LogIndex(120));
}

#[test]
fn install_snapshot_with_mismatched_term_wipes_log() {
    let mut f = Fixture::single_voter();
    f.host.seed(commands(8..=11, 1, "stale-"));
    f.host.first_valid = 8;
    let payload = b"snapshot-wipe-stale".to_vec();
    let captured = f.process(
        vec![Action::InstallSnapshot { metadata: meta(10, 5, &payload), data: payload.clone() }],
        None,
    );
    assert!(captured.error.is_none());
    assert!(f.state.halt_reason.is_none());
    assert!(f.host.log.is_empty());
    assert_eq!(
        effective_log_tip(&f.state.node, LogIndex(0), Term(0)),
        (LogIndex(10), Term(5))
    );
    assert_eq!(f.state.node.last_log_index, LogIndex(10));
    assert_eq!(f.host.last_log_term, Term(5));
}

#[test]
fn install_snapshot_truncate_failure_halts_driver() {
    let mut f = Fixture::single_voter();
    f.host.seed(vec![command_entry(10, 1, b"stale")]);
    f.host.first_valid = 10;
    f.host.failing.push("truncate");
    let payload = b"snap".to_vec();
    let captured = f.process(
        vec![Action::InstallSnapshot { metadata: meta(10, 5, &payload), data: payload.clone() }],
        None,
    );
    assert!(captured.error.is_some());
    let reason = f.state.halt_reason.clone().unwrap();
    assert!(reason.contains("truncate"), "{reason}");
}

#[test]
fn truncate_after_snapshot_install_preserves_snapshot_anchor() {
    let mut f = Fixture::single_voter();
    let payload = b"snap-anchor-test".to_vec();
    f.process(
        vec![Action::InstallSnapshot { metadata: meta(10, 5, &payload), data: payload.clone() }],
        None,
    );
    assert_eq!(f.state.node.last_log_index, LogIndex(10));
    assert_eq!(f.host.last_log_term, Term(5));
    f.host.seed(commands(11..=13, 6, "e"));
    let captured = f.process(
        vec![Action::TruncateLog(LogTruncation::SuffixFromInclusive {
            from_index_inclusive: LogIndex(11),
        })],
        None,
    );
    assert!(captured.error.is_none());
    assert!(f.state.halt_reason.is_none());
    assert!(f.host.log.is_empty());
    assert_eq!(f.state.node.last_log_index, LogIndex(10));
    assert_eq!(f.host.last_log_term, Term(5));
}

#[test]
fn apply_committed_log_read_failure_halts_driver() {
    let mut f = Fixture::leader();
    f.host.seed(vec![command_entry(1, 1, b"alpha")]);
    f.state.waiters.register(LogIndex(1), 11, 0);
    f.host.failing.push("get_range");
    let captured =
        f.process(vec![Action::ApplyToStateMachine { from: LogIndex(1), to: LogIndex(1) }], None);
    assert!(captured.error.is_some());
    let reason = f.state.halt_reason.clone().unwrap();
    assert!(reason.contains("apply") && reason.contains("read range"), "{reason}");
    let effects = f.take();
    assert!(
        matches!(&effects[..], [Effect::AnswerPropose { reply: 11, result: Err(XRaftError::Storage(_)) }])
    );
    assert!(f.host.applied.is_empty());
}

#[test]
fn apply_committed_state_machine_apply_failure_halts_driver() {
    let mut f = Fixture::leader();
    f.host.seed(vec![command_entry(1, 1, b"a"), command_entry(2, 1, b"b")]);
    f.state.waiters.register(LogIndex(1), 11, 0);
    f.state.waiters.register(LogIndex(2), 12, 0);
    f.host.failing.push("apply");
    let captured =
        f.process(vec![Action::ApplyToStateMachine { from: LogIndex(1), to: LogIndex(2) }], None);
    assert!(captured.error.is_some());
    let reason = f.state.halt_reason.clone().unwrap();
    assert!(reason.contains("state machine apply"), "{reason}");
    let effects = f.take();
    assert_eq!(effects.len(), 2);
    for e in effects {
        assert!(matches!(e, Effect::AnswerPropose { result: Err(XRaftError::Storage(_)), .. }));
    }
}

#[test]
fn refused_entry_ends_its_range() {
    let mut f = Fixture::leader();
    f.host.seed(vec![
        Entry { index: LogIndex(1), term: Term(1), payload: EntryPayload::NoOp },
        command_entry(2, 1, b"b"),
        command_entry(3, 1, b"c"),
    ]);
    for (index, reply) in [(1, 11), (2, 12), (3, 13), (4, 14)] {
        f.state.waiters.register(LogIndex(index), reply, NOW);
    }
    f.host.failing.push("apply");
    f.process(vec![Action::ApplyToStateMachine { from: LogIndex(1), to: LogIndex(3) }], None);
    let e = || storage("state machine apply at LogIndex(2) failed: storage error: injected");
    assert_eq!(
        f.take(),
        vec![
            Effect::AnswerPropose { reply: 11, result: Ok(LogIndex(1)) },
            Effect::Observe(Observation::CommitLatency(0)),
            Effect::AnswerPropose { reply: 12, result: Err(e()) },
            Effect::AnswerPropose { reply: 13, result: Err(e()) },
        ]
    );
    assert!(f.host.applied.is_empty());
    assert_eq!(f.state.waiters.len(), 1);
}

#[test]
fn apply_committed_missing_entry_halts_driver() {
    let mut f = Fixture::leader();
    f.host.seed(vec![command_entry(1, 1, b"a"), command_entry(3, 1, b"c")]);
    let captured =
        f.process(vec![Action::ApplyToStateMachine { from: LogIndex(1), to: LogIndex(3) }], None);
    assert!(captured.error.is_some());
    let reason = f.state.halt_reason.clone().unwrap();
    assert!(reason.contains("committed entries missing"), "{reason}");
    assert!(f.host.applied.is_empty());
}

#[test]
fn misplaced_entry_halts_driver() {
    let mut f = Fixture::leader();
    let mut wrong = command_entry(9, 1, b"b");
    wrong.index = LogIndex(9);
    f.host.log.insert(1, command_entry(1, 1, b"a"));
    f.host.log.insert(2, wrong);
    let captured =
        f.process(vec![Action::ApplyToStateMachine { from: LogIndex(1), to: LogIndex(2) }], None);
    match captured.error {
        Some(XRaftError::Storage(msg)) => {
            assert!(msg.contains("where LogIndex(2) was required"), "{msg}")
        }
        other => panic!("expected a storage error, got {other:?}"),
    }
}

fn materialize(f: &mut Fixture, watermark: u64, offset: u64, epoch: u64) -> FetchResponse {
    let query = FetchQuery {
        to: NodeId(2),
        cluster_id: "test-driver".to_string(),
        leader_epoch: f.host.node.current_term.0,
        leader_id: f.host.node.id,
        high_watermark: LogIndex(watermark),
        fetch_offset: LogIndex(offset),
        last_fetched_epoch: Term(epoch),
    };
    f.process(vec![Action::ServeFetch(query)], Some(NodeId(2))).fetch.expect("an answer")
}

fn anchored(id: &str, index: u64, term: u64, size: u64) -> Fixture {
    let mut f = Fixture::single_voter();
    f.host.node.last_snapshot_meta = Some(described(id, index, term, size));
    f
}

#[test]
fn materialize_fetch_response_below_snapshot_anchor_emits_redirect() {
    let mut f = anchored("snap-redirect-1", 20, 4, 64);
    let r = materialize(&mut f, 20, 5, 2);
    let redirect = r.snapshot_redirect.unwrap();
    assert_eq!(redirect.snapshot_id, "snap-redirect-1");
    assert_eq!(redirect.last_included_index, LogIndex(20));
    assert_eq!(redirect.last_included_term, Term(4));
    assert!(r.entries.is_empty());
    assert!(r.diverging_epoch.is_none());
}

#[test]
fn materialize_fetch_response_at_snapshot_anchor_emits_redirect() {
    let mut f = anchored("snap-redirect-boundary", 10, 3, 32);
    let r = materialize(&mut f, 10, 10, 3);
    assert_eq!(r.snapshot_redirect.unwrap().last_included_index, LogIndex(10));
}

#[test]
fn materialize_fetch_response_past_snapshot_anchor_does_not_redirect() {
    let mut f = anchored("snap-no-redirect", 10, 3, 32);
    assert!(materialize(&mut f, 10, 11, 3).snapshot_redirect.is_none());
}

#[test]
fn materialize_fetch_response_redirect_skipped_when_snapshot_id_empty() {
    let mut f = anchored("", 10, 3, 32);
    assert!(materialize(&mut f, 10, 5, 2).snapshot_redirect.is_none());
}

#[test]
fn serve_fetch_after_snapshot_install_uses_snapshot_anchor() {
    let mut f = Fixture::single_voter();
    let payload = b"snap-fetch-anchor".to_vec();
    f.process(
        vec![Action::InstallSnapshot { metadata: meta(10, 5, &payload), data: payload.clone() }],
        None,
    );
    assert_eq!(f.host.perform(Request::ReadTerm(LogIndex(10))), Outcome::Term(Ok(None)));
    let r = materialize(&mut f, 10, 11, 5);
    assert!(r.diverging_epoch.is_none());
    assert!(r.entries.is_empty());
    let d = materialize(&mut f, 10, 11, 9).diverging_epoch.unwrap();
    assert_eq!(d.epoch, Term(5));
    assert_eq!(d.end_offset, LogIndex(10));
}

#[test]
fn fetch_serves_a_batch_and_acknowledges_what_came_before() {
    let mut f = Fixture::leader();
    f.host.seed((1..=20).map(|i| command_entry(i, 1, b"e")).collect());
    let r = materialize(&mut f, 10, 3, 1);
    assert_eq!(r.entries.len(), 8);
    assert_eq!(r.entries[0].index, LogIndex(3));
    assert!(r.is_leader);
    assert_eq!(f.host.acked, vec![(NodeId(2), LogIndex(2))]);
}

#[test]
fn serve_fetch_with_redirect_does_not_advance_peer_progress() {
    let mut f = anchored("snap-noprog", 10, 5, 16);
    f.host.node.current_term = Term(5);
    let before = f.host.node.commit_index;
    let to = f.host.node.id;
    let query = FetchQuery {
        to,
        cluster_id: "test-driver".to_string(),
        leader_epoch: 5,
        leader_id: to,
        high_watermark: LogIndex(10),
        fetch_offset: LogIndex(3),
        last_fetched_epoch: Term(2),
    };
    let r = f.process(vec![Action::ServeFetch(query)], Some(to)).fetch.expect("an answer");
    assert!(r.snapshot_redirect.is_some());
    assert!(r.entries.is_empty());
    assert!(r.diverging_epoch.is_none());
    assert_eq!(f.state.node.commit_index, before);
    assert!(f.host.acked.is_empty());
}

#[test]
fn failed_fetch_fails_its_caller_only() {
    let mut f = Fixture::leader();
    f.host.seed(vec![command_entry(1, 1, b"e")]);
    f.host.failing.push("get_range");
    f.handle(Event::Fetch { request: fetch_request("test-driver", 1), reply: 8 });
    let effects = f.take();
    assert_eq!(
        effects,
        vec![Effect::AnswerFetch {
            reply: 8,
            result: Err(storage(
                "get_range(LogIndex(1), LogIndex(9)) failed during fetch: storage error: injected"
            )),
        }]
    );
    assert!(f.state.halt_reason.is_none());
}

fn redirect_action(to: u64, epoch: u64, watermark: u64, metadata: SnapshotMeta) -> Action {
    Action::RedirectToSnapshot {
        to: NodeId(to),
        cluster_id: "test-driver".to_string(),
        leader_epoch: epoch,
        leader_id: NodeId(1),
        high_watermark: LogIndex(watermark),
        snapshot_metadata: metadata,
    }
}

#[test]
fn redirect_to_snapshot_emits_fetch_response_with_redirect_set() {
    let mut f = Fixture::single_voter();
    f.host.node.current_term = Term(7);
    let before = f.host.node.commit_index;
    let action = redirect_action(1, 7, 42, described("snap-stage-5.3", 50, 7, 2 * 1024 * 1024));
    let r = f.process(vec![action], Some(NodeId(1))).fetch.expect("an answer");
    assert_eq!(r.cluster_id, "test-driver");
    assert_eq!(r.leader_epoch, 7);
    assert_eq!(r.leader_id, NodeId(1));
    assert_eq!(r.high_watermark, LogIndex(42));
    assert!(r.entries.is_empty());
    assert!(r.diverging_epoch.is_none());
    let redirect = r.snapshot_redirect.unwrap();
    assert_eq!(redirect.snapshot_id, "snap-stage-5.3");
    assert_eq!(redirect.last_included_index, LogIndex(50));
    assert_eq!(redirect.last_included_term, Term(7));
    assert!(r.is_leader);
    assert_eq!(f.state.node.commit_index, before);
    assert!(f.take().is_empty());
}

#[test]
fn redirect_to_snapshot_dispatches_to_transport_when_not_inbound() {
    let mut f = Fixture::single_voter();
    f.host.node.current_term = Term(11);
    let action = redirect_action(99, 11, 10, described("snap-dispatched", 10, 11, 0));
    assert!(f.process(vec![action], None).fetch.is_none());
    assert!(f.state.halt_reason.is_none());
    assert!(matches!(
        &f.take()[..],
        [Effect::Dispatch { to: NodeId(99), message: OutboundMessage::FetchResponse(_) }]
    ));
}

#[test]
fn driver_three_voters_outbound_recorded() {
    let mut f = Fixture::new(node(NodeRole::Follower, vec![1, 2, 3]));
    f.host.script = Some(Box::new(|input, node| match input {
        Input::Tick => {
            node.role = NodeRole::PreCandidate;
            let request = |to: u64| Action::SendMessage {
                to: NodeId(to),
                message: OutboundMessage::PreVoteRequest(PreVoteRequest {
                    cluster_id: "test-driver".to_string(),
                    leader_epoch: 1,
                    next_term: Term(2),
                    candidate_id: NodeId(1),
                    last_log_index: LogIndex(0),
                    last_log_term: Term(0),
                }),
            };
            Some(vec![request(2), request(3)])
        }
        _ => None,
    }));
    f.handle(Event::Tick);
    let targets: Vec<u64> = f
        .take()
        .into_iter()
        .map(|e| match e {
            Effect::Dispatch { to, message: OutboundMessage::PreVoteRequest(_) } => to.0,
            other => panic!("unexpected {other:?}"),
        })
        .collect();
    assert_eq!(targets, vec![2, 3]);
}

#[test]
fn driver_processes_tick_drives_election() {
    let mut f = Fixture::new(node(NodeRole::Follower, vec![1]));
    f.host.script = Some(Box::new(|input, node| match input {
        Input::Tick => {
            node.role = NodeRole::Leader;
            node.leader_id = Some(NodeId(1));
            node.last_log_index = LogIndex(1);
            node.commit_index = LogIndex(1);
            node.last_applied = LogIndex(1);
            Some(vec![
                Action::PersistHardState,
                Action::BecomeLeader,
                Action::AppendEntries(vec![Entry {
                    index: LogIndex(1),
                    term: Term(1),
                    payload: EntryPayload::NoOp,
                }]),
                Action::ApplyToStateMachine { from: LogIndex(1), to: LogIndex(1) },
            ])
        }
        _ => None,
    }));
    f.handle(Event::Tick);
    f.handle(Event::Propose { command: b"hello".to_vec(), reply: 1 });
    assert_eq!(f.host.applied, vec![(2, b"hello".to_vec())]);
    assert!(f.take().contains(&Effect::AnswerPropose { reply: 1, result: Ok(LogIndex(2)) }));
}

#[test]
fn client_command_flow_appends_and_resolves_on_commit() {
    let mut f = Fixture::leader();
    f.host.seed(vec![Entry { index: LogIndex(1), term: Term(1), payload: EntryPayload::NoOp }]);
    f.host.node.commit_index = LogIndex(1);
    f.host.node.last_applied = LogIndex(1);
    f.handle(Event::Propose { command: b"cmd-1".to_vec(), reply: 9 });
    assert_eq!(f.host.applied, vec![(2, b"cmd-1".to_vec())]);
    assert_eq!(
        f.take(),
        vec![
            Effect::Observe(Observation::Append(1)),
            Effect::AnswerPropose { reply: 9, result: Ok(LogIndex(2)) },
            Effect::Observe(Observation::CommitLatency(0)),
        ]
    );
    assert_eq!(f.host.calls, vec!["append", "flush", "persist", "get_range", "apply"]);
    assert_eq!(f.host.persisted, vec![LogIndex(2)]);
}

#[test]
fn propose_on_follower_returns_not_leader() {
    let mut n = node(NodeRole::Follower, vec![1, 2, 3]);
    n.leader_id = Some(NodeId(3));
    let mut f = Fixture::new(n);
    f.handle(Event::Propose { command: b"x".to_vec(), reply: 4 });
    assert_eq!(
        f.take(),
        vec![Effect::AnswerPropose {
            reply: 4,
            result: Err(XRaftError::NotLeader { leader_hint: Some(NodeId(3)) }),
        }]
    );
    assert!(f.host.calls.is_empty());
}

#[test]
fn proposal_that_the_engine_drops_is_sent_elsewhere() {
    let mut f = Fixture::leader();
    f.host.script = Some(Box::new(|_, node| {
        node.role = NodeRole::Follower;
        node.leader_id = Some(NodeId(2));
        Some(vec![])
    }));
    f.handle(Event::Propose { command: b"x".to_vec(), reply: 4 });
    assert_eq!(
        f.take(),
        vec![Effect::AnswerPropose {
            reply: 4,
            result: Err(XRaftError::NotLeader { leader_hint: Some(NodeId(2)) }),
        }]
    );
    assert_eq!(f.state.waiters.len(), 0);
}

#[test]
fn failed_append_fails_its_clients_and_stops_the_driver() {
    let mut f = Fixture::leader();
    f.host.failing.push("append");
    f.handle(Event::Propose { command: b"x".to_vec(), reply: 4 });
    assert_eq!(f.host.calls, vec!["append"]);
    let msg = "log append failed: storage error: injected".to_string();
    assert_eq!(f.state.halt_reason, Some(msg.clone()));
    assert_eq!(
        f.take(),
        vec![Effect::AnswerPropose { reply: 4, result: Err(XRaftError::Storage(msg)) }]
    );
}

#[test]
fn failed_flush_after_append_stops_the_driver() {
    let mut f = Fixture::leader();
    f.host.failing.push("flush");
    f.handle(Event::Propose { command: b"x".to_vec(), reply: 4 });
    assert_eq!(f.host.calls, vec!["append", "flush"]);
    assert_eq!(
        f.state.halt_reason,
        Some("log flush after append failed: storage error: injected".to_string())
    );
}

#[test]
fn failed_truncate_flush_and_purge_have_their_own_reasons() {
    let cut = || {
        vec![Action::TruncateLog(LogTruncation::SuffixFromInclusive {
            from_index_inclusive: LogIndex(1),
        })]
    };
    let compact = || {
        vec![Action::TruncateLog(LogTruncation::PrefixThroughInclusive {
            through_index_inclusive: LogIndex(4),
        })]
    };
    let reason = |fail: &'static str, actions: Vec<Action>| {
        let mut f = Fixture::leader();
        f.host.failing.push(fail);
        assert!(f.process(actions, None).error.is_some());
        f.state.halt_reason.unwrap()
    };
    assert_eq!(reason("truncate", cut()), "log truncate failed: storage error: injected");
    assert_eq!(reason("flush", cut()), "log flush after truncate failed: storage error: injected");
    assert_eq!(
        reason("purge", compact()),
        "log purge_prefix(LogIndex(4)) failed: storage error: injected"
    );
    assert_eq!(
        reason("flush", compact()),
        "log flush after purge_prefix(LogIndex(4)) failed: storage error: injected"
    );
}

#[test]
fn persisted_commit_index_stays_within_the_log() {
    let mut f = Fixture::leader();
    f.host.seed(vec![command_entry(1, 1, b"a"), command_entry(2, 1, b"b")]);
    f.host.node.commit_index = LogIndex(7);
    f.process(vec![Action::PersistHardState], None);
    f.host.node.commit_index = LogIndex(1);
    f.process(vec![Action::PersistHardState], None);
    assert_eq!(f.host.persisted, vec![LogIndex(2), LogIndex(1)]);
}

#[test]
fn step_down_tells_everyone_who_waits() {
    let mut f = Fixture::leader();
    f.host.node.leader_id = Some(NodeId(3));
    f.sync();
    f.state.waiters.register(LogIndex(4), 1, 0);
    f.state.waiters.register(LogIndex(4), 2, 0);
    f.handle(Event::Query { query: b"q".to_vec(), reply: 3 });
    f.process(vec![Action::StepDown], None);
    let e = || XRaftError::NotLeader { leader_hint: Some(NodeId(3)) };
    assert_eq!(
        f.take(),
        vec![
            Effect::AnswerPropose { reply: 1, result: Err(e()) },
            Effect::AnswerPropose { reply: 2, result: Err(e()) },
            Effect::RefuseQuery { reply: 3, error: e() },
            Effect::Observe(Observation::LeaderStepDown),
        ]
    );
}

#[test]
fn fetch_snapshot_unknown_id_returns_not_found() {
    let mut f = Fixture::leader();
    assert_eq!(
        ask_snapshot(&mut f, snapshot_request(1, 2, "does-not-exist")),
        Err(XRaftError::SnapshotNotFound("does-not-exist".to_string()))
    );
}

#[test]
fn fetch_snapshot_unknown_replica_rejected() {
    let mut f = Fixture::new(node(NodeRole::Leader, vec![1]));
    assert_eq!(
        ask_snapshot(&mut f, snapshot_request(1, 99, "irrelevant")),
        Err(XRaftError::Transport(
            "FetchSnapshot from unknown replica NodeId(99) (not a voter and not a tracked peer)"
                .to_string()
        ))
    );
}

#[test]
fn fetch_snapshot_self_loopback_rejected() {
    let mut f = Fixture::leader();
    assert_eq!(
        ask_snapshot(&mut f, snapshot_request(1, 1, "irrelevant")),
        Err(XRaftError::Transport("FetchSnapshot self-loopback rejected".to_string()))
    );
}

#[test]
fn fetch_snapshot_not_leader_rejected() {
    let mut n = node(NodeRole::Follower, vec![1, 2, 3]);
    n.current_term = Term(0);
    n.peers = vec![peer(2), peer(3)];
    let mut f = Fixture::new(n);
    assert_eq!(
        ask_snapshot(&mut f, snapshot_request(0, 2, "irrelevant")),
        Err(XRaftError::NotLeader { leader_hint: None })
    );
}

#[test]
fn fetch_snapshot_wrong_cluster_id_returns_transport_error() {
    let mut f = Fixture::new(node(NodeRole::Leader, vec![1]));
    let mut request = snapshot_request(1, 2, "snapshot-0000000001-00000000000000000001");
    request.cluster_id = "OTHER-CLUSTER".to_string();
    assert_eq!(
        ask_snapshot(&mut f, request),
        Err(XRaftError::Transport(
            "FetchSnapshot cluster_id mismatch: expected test-driver, got OTHER-CLUSTER"
                .to_string()
        ))
    );
}

#[test]
fn fetch_snapshot_stale_leader_epoch_rejected() {
    let mut f = Fixture::leader();
    let before = f.state.node.clone();
    assert_eq!(
        ask_snapshot(&mut f, snapshot_request(0, 2, "irrelevant")),
        Err(XRaftError::Transport(
            "FetchSnapshot leader_epoch mismatch: caller=0, ours=1".to_string()
        ))
    );
    assert_eq!(f.state.node, before);
}

#[test]
fn fetch_snapshot_higher_leader_epoch_steps_leader_down() {
    let mut f = Fixture::leader();
    assert_eq!(
        ask_snapshot(&mut f, snapshot_request(99, 2, "irrelevant")),
        Err(XRaftError::NotLeader { leader_hint: None })
    );
    assert_eq!(f.state.node.role, NodeRole::Follower);
    assert_eq!(f.state.node.current_term, Term(99));
    assert_eq!(f.host.persisted.len(), 1);
}

#[test]
fn fetch_snapshot_higher_leader_epoch_persist_failure_surfaces_storage_error() {
    let mut f = Fixture::leader();
    f.host.failing.push("persist");
    match ask_snapshot(&mut f, snapshot_request(99, 2, "irrelevant")) {
        Err(XRaftError::Storage(msg)) => {
            assert!(msg.contains("hard-state persist failed"), "{msg}")
        }
        other => panic!("expected a storage error, got {other:?}"),
    }
    assert!(f.state.halt_reason.is_some());
}

fn with_stored(bytes: &[u8]) -> Fixture {
    let mut f = Fixture::leader();
    let mut m = meta(3, 1, bytes);
    m.id = "stored".to_string();
    f.host.saved.push((m, bytes.to_vec()));
    f
}

#[test]
fn stored_snapshot_is_handed_out_in_pieces() {
    let mut f = with_stored(b"0123456789");
    let mut request = snapshot_request(1, 2, "stored");
    request.max_bytes = 4;
    f.handle(Event::FetchSnapshot { request, reply: 5 });
    match f.take().pop() {
        Some(Effect::AnswerFetchSnapshot { reply: 5, result: Ok(pieces) }) => {
            assert_eq!(pieces.len(), 3);
            let mut all = vec![];
            for (i, p) in pieces.into_iter().enumerate() {
                let p = p.unwrap();
                assert_eq!(p.cluster_id, "test-driver");
                assert_eq!(p.leader_epoch, 1);
                assert_eq!(p.chunk_index, i as u64);
                assert_eq!(p.done, i == 2);
                assert_eq!(p.metadata.is_some(), i == 0);
                all.extend(p.data);
            }
            assert_eq!(all, b"0123456789".to_vec());
        }
        other => panic!("expected pieces, got {other:?}"),
    }
}

#[test]
fn unreadable_piece_ends_the_transfer() {
    let mut f = with_stored(b"0123456789");
    f.host.failing.push("piece");
    let mut request = snapshot_request(1, 2, "stored");
    request.max_bytes = 4;
    f.handle(Event::FetchSnapshot { request, reply: 5 });
    match f.take().pop() {
        Some(Effect::AnswerFetchSnapshot { result: Ok(pieces), .. }) => {
            assert_eq!(pieces.len(), 2);
            assert!(pieces[0].is_ok());
            assert_eq!(pieces[1], Err(storage("bad sector")));
        }
        other => panic!("expected pieces, got {other:?}"),
    }
}

#[test]
fn failing_snapshot_store_answers_with_its_error() {
    for call in ["find", "read"] {
        let mut f = with_stored(b"0123456789");
        f.host.failing.push(call);
        assert_eq!(
            ask_snapshot(&mut f, snapshot_request(1, 2, "stored")),
            Err(storage("injected"))
        );
        assert!(f.state.halt_reason.is_none());
    }
}

#[test]
fn inbound_vote_default_deny_when_node_drops() {
    let mut f = Fixture::new(node(NodeRole::Leader, vec![1]));
    let vote = VoteRequest {
        cluster_id: "OTHER".to_string(),
        leader_epoch: 0,
        term: Term(99),
        candidate_id: NodeId(2),
        last_log_index: LogIndex(0),
        last_log_term: Term(0),
    };
    f.handle(Event::Vote { request: vote, reply: 3 });
    assert_eq!(
        f.take(),
        vec![Effect::AnswerVote {
            reply: 3,
            result: Ok(VoteResponse {
                cluster_id: "test-driver".to_string(),
                leader_epoch: 1,
                term: Term(1),
                vote_granted: false,
                leader_hint: Some(NodeId(1)),
            }),
        }]
    );
    let pre_vote = PreVoteRequest {
        cluster_id: "OTHER".to_string(),
        leader_epoch: 0,
        next_term: Term(99),
        candidate_id: NodeId(2),
        last_log_index: LogIndex(0),
        last_log_term: Term(0),
    };
    f.handle(Event::PreVote { request: pre_vote, reply: 4 });
    match &f.take()[..] {
        [Effect::AnswerPreVote { reply: 4, result: Ok(v) }] => assert!(!v.vote_granted),
        other => panic!("expected a denial, got {other:?}"),
    }
}

fn granted(input: &Input, node: &mut NodeView) -> Option<Vec<Action>> {
    match input {
        Input::VoteRequest(r) => {
            node.current_term = r.term;
            Some(vec![
                Action::PersistHardState,
                Action::SendMessage {
                    to: r.candidate_id,
                    message: OutboundMessage::VoteResponse(VoteResponse {
                        cluster_id: r.cluster_id.clone(),
                        leader_epoch: r.term.0,
                        term: r.term,
                        vote_granted: true,
                        leader_hint: None,
                    }),
                },
            ])
        }
        _ => None,
    }
}

#[test]
fn granted_vote_reaches_the_candidate() {
    let mut f = Fixture::new(node(NodeRole::Follower, vec![1, 2]));
    f.host.script = Some(Box::new(granted));
    f.handle(Event::Vote { request: vote_request(), reply: 3 });
    match &f.take()[..] {
        [Effect::AnswerVote { reply: 3, result: Ok(v) }] => {
            assert!(v.vote_granted);
            assert_eq!(v.term, Term(2));
        }
        other => panic!("expected a granted vote, got {other:?}"),
    }
    assert_eq!(f.host.calls, vec!["persist"]);
}

#[test]
fn inbound_vote_returns_err_when_persist_fails() {
    let mut f = Fixture::new(node(NodeRole::Follower, vec![1, 2, 3]));
    f.host.script = Some(Box::new(granted));
    f.host.failing.push("persist");
    let mut request = vote_request();
    request.leader_epoch = 0;
    request.term = Term(5);
    f.handle(Event::Vote { request, reply: 3 });
    assert_eq!(
        f.take(),
        vec![Effect::AnswerVote {
            reply: 3,
            result: Err(XRaftError::Storage(
                "hard-state persist failed: storage error: injected".to_string()
            )),
        }]
    );
    assert_eq!(course(&f.state), Course::FailStop);
}

#[test]
fn unanswered_trial_vote_and_fetch_are_denied() {
    let mut f = Fixture::new(node(NodeRole::Follower, vec![1, 2]));
    let request = PreVoteRequest {
        cluster_id: "test-driver".to_string(),
        leader_epoch: 1,
        next_term: Term(2),
        candidate_id: NodeId(2),
        last_log_index: LogIndex(0),
        last_log_term: Term(0),
    };
    f.handle(Event::PreVote { request, reply: 6 });
    f.handle(Event::Fetch { request: fetch_request("test-driver", 1), reply: 7 });
    match &f.take()[..] {
        [Effect::AnswerPreVote { reply: 6, result: Ok(v) }, Effect::AnswerFetch { reply: 7, result: Ok(r) }] =>
        {
            assert!(!v.vote_granted);
            assert!(!r.is_leader);
            assert_eq!(r.leader_id, NodeId(1));
            assert!(r.entries.is_empty());
        }
        other => panic!("expected two denials, got {other:?}"),
    }
}

fn counted_fetch(f: &mut Fixture, cluster: &str) -> Vec<Effect> {
    let request = FetchRequest {
        cluster_id: cluster.to_string(),
        leader_epoch: f.host.node.current_term.0,
        replica_id: NodeId(2),
        fetch_offset: LogIndex(0),
        last_fetched_epoch: Term(0),
    };
    f.handle(Event::Fetch { request, reply: 7 });
    f.take()
}

#[test]
fn inbound_fetch_received_by_leader_bumps_received_counter() {
    let mut f = Fixture::single_voter();
    f.host.node.role = NodeRole::Leader;
    let effects = counted_fetch(&mut f, "test-driver");
    assert_eq!(received(&effects), 1);
    assert!(!effects.contains(&Effect::Observe(Observation::FetchRequest(FetchDirection::Sent))));
}

#[test]
fn inbound_fetch_received_by_non_leader_does_not_bump_received_counter() {
    let mut n = node(NodeRole::Follower, vec![1, 2, 3]);
    n.current_term = Term(0);
    let mut f = Fixture::new(n);
    assert_eq!(received(&counted_fetch(&mut f, "test-driver")), 0);
}

#[test]
fn inbound_fetch_from_foreign_cluster_does_not_bump_received_counter() {
    let mut f = Fixture::single_voter();
    f.host.node.role = NodeRole::Leader;
    assert_eq!(received(&counted_fetch(&mut f, "OTHER-CLUSTER")), 0);
}

fn transferred(
    peer: u64,
    cluster: &str,
    epoch: u64,
    chunk_count: u64,
    metadata: SnapshotMeta,
    data: &[u8],
) -> OutboundResult {
    OutboundResult::FetchSnapshot {
        peer: NodeId(peer),
        cluster_id: cluster.to_string(),
        leader_epoch: epoch,
        chunk_count,
        completed: true,
        metadata: Some(metadata),
        data: data.to_vec(),
    }
}

fn following(term: u64) -> Fixture {
    let mut f = Fixture::single_voter();
    f.host.node.current_term = Term(term);
    f.host.node.leader_id = Some(NodeId(2));
    f
}

fn assert_nothing_installed(f: &Fixture) {
    assert!(f.host.restored.is_empty());
    assert!(f.host.saved.is_empty());
    assert!(f.state.node.last_snapshot_meta.is_none());
    assert!(f.state.halt_reason.is_none());
}

fn follower_of(leader: u64) -> Fixture {
    let mut n = node(NodeRole::Follower, vec![1, 2, 3]);
    n.leader_id = Some(NodeId(leader));
    n.current_term = Term(5);
    Fixture::new(n)
}

#[test]
fn outbound_fetch_snapshot_complete_invokes_state_machine_restore() {
    let mut f = following(5);
    let data: Vec<u8> = vec![0xAA, 0xBB, 0xCC, 0xDD, 0xEE, 0xFF, 0x00, 0x11];
    let metadata = described("snap-outbound", 20, 5, 8);
    f.handle(Event::Outbound(transferred(2, "test-driver", 5, 3, metadata, &data)));
    assert!(f.state.halt_reason.is_none());
    assert_eq!(f.host.restored, vec![data.clone()]);
    assert_eq!(f.host.saved.len(), 1);
    assert_eq!(f.host.saved[0].0.last_included_index, LogIndex(20));
    assert_eq!(f.host.saved[0].0.last_included_term, Term(5));
    assert_eq!(f.host.saved[0].1, data);
    let anchor = f.state.node.last_snapshot_meta.clone().unwrap();
    assert_eq!(anchor.last_included_index, LogIndex(20));
    assert_eq!(anchor.last_included_term, Term(5));
    assert_eq!(f.state.node.last_log_index, LogIndex(20));
    assert_eq!(f.host.last_log_term, Term(5));
}

#[test]
fn outbound_fetch_snapshot_stale_leader_epoch_rejected() {
    let mut f = following(7);
    let metadata = described("snap-stale", 50, 3, 4);
    f.handle(Event::Outbound(transferred(2, "test-driver", 3, 1, metadata, &[1, 2, 3, 4])));
    assert_nothing_installed(&f);
    assert_eq!(f.state.node.current_term, Term(7));
}

#[test]
fn outbound_fetch_snapshot_higher_leader_epoch_steps_leader_down() {
    let mut f = following(5);
    f.host.node.role = NodeRole::Leader;
    f.host.node.logical_tick = 1;
    let metadata = described("snap-higher-term", 50, 10, 4);
    f.handle(Event::Outbound(transferred(2, "test-driver", 10, 1, metadata, &[1, 2, 3, 4])));
    assert_eq!(f.state.node.current_term, Term(10));
    assert_eq!(f.state.node.role, NodeRole::Follower);
    assert_eq!(f.state.node.leader_id, None);
    assert_nothing_installed(&f);
    assert!(f.take().contains(&Effect::Observe(Observation::LeaderStepDown)));
}

#[test]
fn outbound_fetch_snapshot_non_leader_peer_rejected() {
    let mut f = following(5);
    let metadata = described("snap-non-leader", 15, 5, 4);
    f.handle(Event::Outbound(transferred(99, "test-driver", 5, 1, metadata, &[1, 2, 3, 4])));
    assert_nothing_installed(&f);
    assert!(f.take().is_empty());
}

#[test]
fn outbound_fetch_snapshot_cluster_mismatch_rejected() {
    let mut f = following(5);
    let metadata = described("snap-x-cluster", 15, 5, 4);
    f.handle(Event::Outbound(transferred(2, "other-cluster", 5, 1, metadata, &[1, 2, 3, 4])));
    assert_nothing_installed(&f);
    assert_eq!(f.state.node.current_term, Term(5));
}

#[test]
fn failed_calls_are_forgotten() {
    let mut f = follower_of(2);
    f.handle(Event::Outbound(OutboundResult::Error {
        peer: NodeId(2),
        kind: "vote",
        err: "gone".to_string(),
    }));
    assert!(f.take().is_empty());
    assert!(f.host.calls.is_empty());
}

fn trigger(f: &mut Fixture) -> Result<TriggeredSnapshotInfo, XRaftError> {
    f.handle(Event::TriggerSnapshot { reply: 2 });
    for e in f.take() {
        if let Effect::AnswerSnapshot { reply: 2, result } = e {
            return result;
        }
    }
    panic!("no answer");
}

#[test]
fn operator_snapshot_covers_what_is_committed() {
    let mut f = Fixture::leader();
    f.host.seed((1..=6).map(|i| command_entry(i, 2, b"e")).collect());
    f.host.node.commit_index = LogIndex(4);
    f.host.payload = b"12345".to_vec();
    assert_eq!(
        trigger(&mut f),
        Ok(TriggeredSnapshotInfo {
            last_included_index: 4,
            last_included_term: 2,
            size_bytes: 5,
        })
    );
    assert_eq!(f.host.log.keys().copied().collect::<Vec<u64>>(), vec![5, 6]);
}

#[test]
fn operator_snapshot_is_refused_by_followers_and_while_one_is_taken() {
    let mut f = follower_of(2);
    assert_eq!(
        trigger(&mut f),
        Err(XRaftError::NotLeader { leader_hint: Some(NodeId(2)) })
    );
    let mut f = Fixture::leader();
    f.host.node.snapshot_in_flight = true;
    assert_eq!(
        trigger(&mut f),
        Err(XRaftError::Config(
            "snapshot already in flight; retry after current snapshot completes".to_string()
        ))
    );
}

#[test]
fn trigger_snapshot_followup_purge_failure_surfaces_error_to_caller() {
    let mut f = Fixture::single_voter();
    f.host.node.role = NodeRole::Leader;
    f.host.node.leader_id = Some(NodeId(1));
    f.host.node.current_term = Term(4);
    f.host.seed(commands(1..=10, 4, "cmd-"));
    f.host.node.commit_index = LogIndex(10);
    f.host.node.last_applied = LogIndex(10);
    f.host.payload = b"trigger-snapshot-payload".to_vec();
    f.host.failing.push("purge");
    match trigger(&mut f) {
        Err(XRaftError::Storage(msg)) => assert!(msg.contains("purge_prefix"), "{msg}"),
        other => panic!("expected a storage error, got {other:?}"),
    }
    assert!(f.state.halt_reason.is_some());
    assert_eq!(f.host.saved.len(), 1);
    assert_eq!(f.host.saved[0].0.last_included_index, LogIndex(10));
}

#[test]
fn operator_snapshot_without_an_anchor_stops_the_driver() {
    let mut f = Fixture::leader();
    f.host.node.commit_index = LogIndex(3);
    let msg = "operator-triggered snapshot failed: storage error: snapshot: no entry at through_index LogIndex(3) to anchor SnapshotMeta term";
    assert_eq!(trigger(&mut f), Err(storage(msg)));
    assert_eq!(f.state.halt_reason, Some(msg.to_string()));
}

#[test]
fn first_reason_to_stop_is_kept() {
    let mut f = Fixture::leader();
    f.state.halt("first".to_string());
    f.state.halt("second".to_string());
    assert_eq!(f.state.halt_reason, Some("first".to_string()));
}

#[test]
fn client_query_with_active_lease_is_served_without_confirmation_roundtrip() {
    let mut f = Fixture::leader();
    f.host.node.enable_leader_lease = true;
    f.host.node.has_active_lease = true;
    f.handle(Event::Query { query: b"any".to_vec(), reply: 1 });
    assert_eq!(f.take(), vec![Effect::ServeQuery { reply: 1, query: b"any".to_vec() }]);
}

fn three_voter_leader() -> Fixture {
    let mut n = node(NodeRole::Leader, vec![1, 2, 3]);
    n.peers = vec![peer(2), peer(3)];
    n.fetch_seq = 7;
    n.commit_index = LogIndex(5);
    n.last_applied = LogIndex(5);
    Fixture::new(n)
}

fn untried_leader(lease: bool) -> Fixture {
    let mut n = node(NodeRole::Leader, vec![1, 2, 3]);
    n.peers = vec![peer(2), peer(3)];
    n.logical_tick = 1;
    n.enable_leader_lease = lease;
    Fixture::new(n)
}

fn fetch_of_peer_two() -> Event {
    Event::Fetch {
        request: FetchRequest {
            cluster_id: "test-driver".to_string(),
            leader_epoch: 1,
            replica_id: NodeId(2),
            fetch_offset: LogIndex(1),
            last_fetched_epoch: Term(0),
        },
        reply: 900,
    }
}

fn settle(f: &mut Fixture) -> Vec<Effect> {
    f.sync();
    f.state.reads.drain(&f.state.node, &mut f.state.outbox);
    f.take()
}

#[test]
fn client_query_with_active_lease_three_voter_quorum_is_served() {
    let mut f = untried_leader(true);
    f.host.node.logical_tick = 5;
    f.host.node.has_active_lease = true;
    f.handle(Event::Query { query: b"any".to_vec(), reply: 1 });
    assert_eq!(f.take(), vec![Effect::ServeQuery { reply: 1, query: b"any".to_vec() }]);
}

#[test]
fn client_query_with_lease_enabled_but_inactive_defers_then_serves_after_real_fetch() {
    let mut f = untried_leader(true);
    f.handle(Event::Query { query: b"any".to_vec(), reply: 1 });
    assert_eq!(f.state.reads.len(), 1);
    assert!(f.take().is_empty());
    assert!(settle(&mut f).is_empty());
    assert_eq!(f.state.reads.len(), 1);
    let baseline = f.host.node.fetch_seq;
    f.handle(fetch_of_peer_two());
    f.take();
    assert!(f.host.node.fetch_seq > baseline);
    assert!(f.host.node.peers[0].last_fetch_seq > baseline);
    assert_eq!(settle(&mut f), vec![Effect::ServeQuery { reply: 1, query: b"any".to_vec() }]);
    assert_eq!(f.state.reads.len(), 0);
}

#[test]
fn client_query_with_lease_disabled_defers_to_readindex_slow_path() {
    let mut f = untried_leader(false);
    f.handle(Event::Query { query: b"any".to_vec(), reply: 1 });
    assert_eq!(f.state.reads.len(), 1);
    assert!(f.take().is_empty());
    let baseline = f.host.node.fetch_seq;
    f.handle(fetch_of_peer_two());
    f.take();
    assert!(f.host.node.fetch_seq > baseline);
    assert_eq!(settle(&mut f), vec![Effect::ServeQuery { reply: 1, query: b"any".to_vec() }]);
    assert_eq!(f.state.reads.len(), 0);
}

#[test]
fn fetch_before_the_read_does_not_confirm_it() {
    let mut f = three_voter_leader();
    f.host.node.peers[0].last_fetch_seq = 7;
    f.handle(Event::Query { query: b"q".to_vec(), reply: 1 });
    assert!(settle(&mut f).is_empty());
}

#[test]
fn client_query_slow_path_times_out_to_notleader_when_no_quorum_proof() {
    let mut f = untried_leader(true);
    f.handle(Event::Query { query: b"any".to_vec(), reply: 1 });
    assert_eq!(f.state.reads.len(), 1);
    f.host.node.logical_tick = 21;
    assert!(settle(&mut f).is_empty());
    f.host.node.logical_tick = 22;
    assert_eq!(
        settle(&mut f),
        vec![Effect::RefuseQuery { reply: 1, error: XRaftError::NotLeader { leader_hint: None } }]
    );
    assert_eq!(f.state.reads.len(), 0);
}

#[test]
fn client_query_slow_path_replies_notleader_on_step_down() {
    let mut f = untried_leader(true);
    f.handle(Event::Query { query: b"any".to_vec(), reply: 1 });
    assert_eq!(f.state.reads.len(), 1);
    f.host.node.role = NodeRole::Follower;
    f.host.node.leader_id = Some(NodeId(2));
    assert_eq!(
        settle(&mut f),
        vec![Effect::RefuseQuery {
            reply: 1,
            error: XRaftError::NotLeader { leader_hint: Some(NodeId(2)) },
        }]
    );
    assert_eq!(f.state.reads.len(), 0);
}

#[test]
fn client_query_slow_path_overflow_replies_notleader() {
    let mut f = untried_leader(true);
    for i in 0..MAX_PENDING_READS {
        f.state.reads.push(PendingRead {
            query: b"filler".to_vec(),
            reply: i as u64,
            read_index: f.host.node.commit_index,
            read_baseline_seq: f.host.node.fetch_seq,
            deadline_tick: 1_001,
        });
    }
    assert_eq!(f.state.reads.len(), MAX_PENDING_READS);
    f.handle(Event::Query { query: b"overflow".to_vec(), reply: 5000 });
    assert_eq!(f.state.reads.len(), MAX_PENDING_READS);
    assert_eq!(
        f.take(),
        vec![Effect::RefuseQuery {
            reply: 5000,
            error: XRaftError::NotLeader { leader_hint: None },
        }]
    );
}

#[test]
fn single_voter_cascade_emits_election_latency_sample() {
    let before = node(NodeRole::Follower, vec![1]);
    let mut roles = RoleTracker::new(&before);
    let mut state = DriverState::new(before, 8);
    state.node.role = NodeRole::Leader;
    assert_eq!(after_event(&mut state, &mut roles, 77), Course::Serve);
    let effects = state.outbox.take();
    assert_eq!(effects[0], Effect::Observe(Observation::ElectionWon(0)));
    after_event(&mut state, &mut roles, 78);
    assert!(!state.outbox.take().iter().any(|e| matches!(
        e,
        Effect::Observe(Observation::ElectionWon(_))
    )));
}

#[test]
fn election_is_timed_from_entry_into_candidacy() {
    let n = node(NodeRole::Follower, vec![1, 2]);
    let mut roles = RoleTracker::new(&n);
    let mut state = DriverState::new(n, 8);
    for (role, now) in [
        (NodeRole::PreCandidate, 100),
        (NodeRole::Candidate, 150),
        (NodeRole::Candidate, 220),
        (NodeRole::Leader, 400),
        (NodeRole::Leader, 500),
    ] {
        state.node.role = role;
        after_event(&mut state, &mut roles, now);
    }
    let won: Vec<Effect> = state
        .outbox
        .take()
        .into_iter()
        .filter(|e| matches!(e, Effect::Observe(Observation::ElectionWon(_))))
        .collect();
    assert_eq!(won, vec![Effect::Observe(Observation::ElectionWon(250))]);
}

#[test]
fn candidacy_that_was_given_up_is_not_measured() {
    let n = node(NodeRole::Follower, vec![1, 2]);
    let mut roles = RoleTracker::new(&n);
    let mut state = DriverState::new(n, 8);
    for (role, now) in [
        (NodeRole::Candidate, 100),
        (NodeRole::PreCandidate, 150),
        (NodeRole::Leader, 400),
    ] {
        state.node.role = role;
        after_event(&mut state, &mut roles, now);
    }
    assert!(state.outbox.take().contains(&Effect::Observe(Observation::ElectionWon(0))));
}

#[test]
fn leader_records_the_lag_of_each_replica() {
    let mut n = node(NodeRole::Leader, vec![1, 2, 3]);
    n.last_log_index = LogIndex(10);
    n.peers = vec![peer(2), peer(3)];
    n.peers[0].last_fetch_offset = LogIndex(4);
    n.peers[1].last_fetch_offset = LogIndex(12);
    let mut roles = RoleTracker::new(&n);
    let mut state = DriverState::new(n, 8);
    before_serving(&mut state, &mut roles, 5);
    let effects = state.outbox.take();
    assert_eq!(effects.len(), 3);
    assert!(matches!(effects[0], Effect::Observe(Observation::Status(_))));
    assert_eq!(
        effects[1],
        Effect::Observe(Observation::ReplicationLag { replica: NodeId(2), lag: 6 })
    );
    assert_eq!(
        effects[2],
        Effect::Observe(Observation::ReplicationLag { replica: NodeId(3), lag: 0 })
    );
}

#[test]
fn what_was_committed_before_the_start_is_applied_first() {
    let mut f = Fixture::new(node(NodeRole::Follower, vec![1]));
    f.host.seed(vec![command_entry(1, 1, b"a"), command_entry(2, 1, b"b")]);
    f.host.node.commit_index = LogIndex(2);
    f.handle(Event::Startup);
    assert_eq!(f.host.applied, vec![(1, b"a".to_vec()), (2, b"b".to_vec())]);
    let mut roles = RoleTracker::new(&f.state.node);
    f.take();
    assert_eq!(after_startup(&mut f.state, &mut roles, true, 9), Course::Serve);
    assert_eq!(f.take().len(), 1);
    assert_eq!(after_startup(&mut f.state, &mut roles, false, 9), Course::Serve);
    assert!(f.take().is_empty());
}

#[test]
fn failure_at_the_start_serves_nobody() {
    let mut f = Fixture::new(node(NodeRole::Follower, vec![1]));
    f.host.seed(vec![command_entry(1, 1, b"a")]);
    f.host.node.commit_index = LogIndex(1);
    f.host.failing.push("apply");
    f.handle(Event::Startup);
    let mut roles = RoleTracker::new(&f.state.node);
    f.take();
    assert_eq!(after_startup(&mut f.state, &mut roles, true, 9), Course::FailStop);
    assert!(f.take().is_empty());
}

#[test]
fn drain_serves_nodes_and_refuses_clients() {
    let mut f = three_voter_leader();
    f.handle(Event::Query { query: b"q".to_vec(), reply: 1 });
    begin_drain(&mut f.state);
    assert_eq!(
        f.take(),
        vec![Effect::RefuseQuery { reply: 1, error: XRaftError::Shutdown }]
    );
    assert!(admit_in_drain(&mut f.state, Event::Propose { command: vec![], reply: 2 }).is_none());
    assert!(admit_in_drain(&mut f.state, Event::Query { query: vec![], reply: 3 }).is_none());
    assert!(admit_in_drain(&mut f.state, Event::TriggerSnapshot { reply: 4 }).is_none());
    assert!(admit_in_drain(&mut f.state, Event::Tick).is_none());
    assert_eq!(
        f.take(),
        vec![
            Effect::AnswerPropose { reply: 2, result: Err(XRaftError::Shutdown) },
            Effect::RefuseQuery { reply: 3, error: XRaftError::Shutdown },
            Effect::AnswerSnapshot { reply: 4, result: Err(XRaftError::Shutdown) },
        ]
    );
    assert!(matches!(
        admit_in_drain(&mut f.state, Event::Vote { request: vote_request(), reply: 5 }),
        Some(Event::Vote { reply: 5, .. })
    ));
    assert!(f.take().is_empty());
}

#[test]
fn shutdown_drains_in_flight_outbound_within_deadline() {
    let mut f = Fixture::leader();
    assert_eq!(next_in_drain(&f.state, 2, false), DrainNext::Wait);
    assert_eq!(next_in_drain(&f.state, 0, false), DrainNext::Finish);
    assert_eq!(next_in_drain(&f.state, 2, true), DrainNext::Finish);
    f.state.halt("broken".to_string());
    assert_eq!(next_in_drain(&f.state, 2, false), DrainNext::FailStop);
    assert_eq!(next_in_drain(&f.state, 0, true), DrainNext::FailStop);
}

#[test]
fn driver_handles_shutdown_within_deadline() {
    let mut f = Fixture::leader();
    f.host.seed(vec![command_entry(1, 1, b"a")]);
    f.host.node.commit_index = LogIndex(9);
    f.sync();
    f.state.waiters.register(LogIndex(2), 21, 0);
    assert_eq!(f.finish(), Ok(()));
    assert_eq!(f.host.persisted, vec![LogIndex(1)]);
    assert_eq!(f.host.calls, vec!["persist", "flush"]);
    assert_eq!(
        f.take(),
        vec![Effect::AnswerPropose { reply: 21, result: Err(XRaftError::Shutdown) }]
    );
}

#[test]
fn driver_run_returns_err_when_final_persist_fails() {
    let mut f = Fixture::leader();
    f.state.waiters.register(LogIndex(2), 21, 0);
    f.host.failing.push("persist");
    let e = || storage("final hard-state persist failed: storage error: injected");
    assert_eq!(f.finish(), Err(e()));
    assert_eq!(f.host.calls, vec!["persist"]);
    assert_eq!(f.take(), vec![Effect::AnswerPropose { reply: 21, result: Err(e()) }]);
}

#[test]
fn failed_final_flush_is_reported() {
    let mut f = Fixture::leader();
    f.host.failing.push("flush");
    assert_eq!(f.finish(), Err(storage("final log flush failed: storage error: injected")));
}

#[test]
fn fail_stop_turns_everyone_away_with_the_reason() {
    let mut f = three_voter_leader();
    f.handle(Event::Query { query: b"q".to_vec(), reply: 1 });
    f.state.waiters.register(LogIndex(6), 2, 0);
    f.state.halt("disk gone".to_string());
    let e = || storage("disk gone");
    assert_eq!(halt_error(&f.state), e());
    for event in [
        Event::Vote { request: vote_request(), reply: 3 },
        Event::Fetch { request: fetch_request("test-driver", 1), reply: 4 },
        Event::FetchSnapshot { request: snapshot_request(1, 2, "x"), reply: 5 },
        Event::Propose { command: vec![], reply: 6 },
        Event::Query { query: vec![], reply: 7 },
        Event::TriggerSnapshot { reply: 8 },
    ] {
        let error = halt_error(&f.state);
        turn_away(&mut f.state, event, error);
    }
    assert_eq!(abandon(&mut f.state), e());
    assert_eq!(
        f.take(),
        vec![
            Effect::AnswerVote { reply: 3, result: Err(e()) },
            Effect::AnswerFetch { reply: 4, result: Err(e()) },
            Effect::AnswerFetchSnapshot { reply: 5, result: Err(e()) },
            Effect::AnswerPropose { reply: 6, result: Err(e()) },
            Effect::RefuseQuery { reply: 7, error: e() },
            Effect::AnswerSnapshot { reply: 8, result: Err(e()) },
            Effect::AnswerPropose { reply: 2, result: Err(e()) },
            Effect::RefuseQuery { reply: 1, error: e() },
        ]
    );
    assert_eq!(f.state.waiters.len(), 0);
    assert_eq!(f.state.reads.len(), 0);
}

#[test]
fn scenario_3mb_snapshot_in_1mb_chunks_follower_state_matches_leader() {
    let payload = three_mebibytes();
    let mut metadata = described("snap-3mb", 120, 9, payload.len() as u64);
    metadata.voter_set = None;
    let pieces: Vec<FetchSnapshotChunk> = payload
        .chunks(1024 * 1024)
        .enumerate()
        .map(|(i, data)| FetchSnapshotChunk {
            cluster_id: "test-driver".to_string(),
            leader_epoch: 9,
            chunk_index: i as u64,
            data: data.to_vec(),
            done: i == 2,
            metadata: if i == 0 { Some(metadata.clone()) } else { None },
        })
        .collect();
    assert_eq!(pieces.len(), 3);
    let mut f = Fixture::single_voter();
    f.host.node.leader_id = Some(NodeId(99));
    f.host.node.current_term = Term(9);
    let request = snapshot_request(9, 1, "snap-3mb");
    f.process(
        vec![Action::SendMessage {
            to: NodeId(99),
            message: OutboundMessage::FetchSnapshotRequest(request.clone()),
        }],
        None,
    );
    assert_eq!(
        f.take(),
        vec![Effect::Dispatch {
            to: NodeId(99),
            message: OutboundMessage::FetchSnapshotRequest(request),
        }]
    );
    let result = put_together(pieces, NodeId(99));
    assert_transferred(&result, 99, 9, 120, &payload);
    f.handle(Event::Outbound(result));
    assert_installed(&f, 120, 9, &payload);
}

fn three_mebibytes() -> Vec<u8> {
    let bytes: Vec<u8> =
        (0..3 * 1024 * 1024usize).map(|i| ((i.wrapping_mul(7)) % 251) as u8).collect();
    assert_eq!(bytes.len(), 3 * 1024 * 1024);
    bytes
}

fn put_together(pieces: Vec<FetchSnapshotChunk>, from: NodeId) -> OutboundResult {
    let mut assembly = SnapshotAssembly::new(MAX_SNAPSHOT_INSTALL_BYTES);
    for p in pieces {
        assembly.accept(p);
    }
    assembly.conclude(from)
}

fn assert_transferred(result: &OutboundResult, from: u64, term: u64, index: u64, payload: &[u8]) {
    match result {
        OutboundResult::FetchSnapshot {
            peer,
            cluster_id,
            leader_epoch,
            chunk_count,
            completed,
            metadata,
            data,
        } => {
            assert_eq!(*peer, NodeId(from));
            assert_eq!(cluster_id, "test-driver");
            assert_eq!(*leader_epoch, term);
            assert_eq!(*chunk_count, 3);
            assert!(*completed);
            let m = metadata.as_ref().expect("the first piece describes the snapshot");
            assert_eq!(m.last_included_index, LogIndex(index));
            assert_eq!(m.last_included_term, Term(term));
            assert_eq!(data.len(), 3 * 1024 * 1024);
            assert!(data == payload);
        }
        other => panic!("expected a transferred snapshot, got {other:?}"),
    }
}

fn assert_installed(f: &Fixture, index: u64, term: u64, payload: &[u8]) {
    assert!(f.state.halt_reason.is_none());
    assert_eq!(f.host.restored.len(), 1);
    assert_eq!(f.host.restored[0].len(), 3 * 1024 * 1024);
    assert!(f.host.restored[0] == payload);
    assert_eq!(f.host.saved.len(), 1);
    assert_eq!(f.host.saved[0].0.last_included_index, LogIndex(index));
    assert_eq!(f.host.saved[0].0.last_included_term, Term(term));
    assert!(f.host.saved[0].1 == payload);
    let anchor = f.state.node.last_snapshot_meta.clone().unwrap();
    assert_eq!(anchor.last_included_index, LogIndex(index));
    assert_eq!(f.state.node.last_applied, LogIndex(index));
    assert_eq!(f.state.node.commit_index, LogIndex(index));
    assert_eq!(f.state.node.last_log_index, LogIndex(index));
    assert_eq!(f.host.last_log_term, Term(term));
}

fn leader_at(term: u64, index: u64) -> Fixture {
    let mut f = Fixture::single_voter();
    f.host.node.role = NodeRole::Leader;
    f.host.node.leader_id = Some(NodeId(1));
    f.host.node.current_term = Term(term);
    f.host.node.peers = vec![peer(2)];
    f.host.node.last_log_index = LogIndex(index);
    f.host.node.commit_index = LogIndex(index);
    f.host.node.last_applied = LogIndex(index);
    f
}

fn follower_two(term: u64) -> Fixture {
    let mut f = Fixture::single_voter();
    f.host.node.id = NodeId(2);
    f.host.node.current_term = Term(term);
    f.host.node.leader_id = Some(NodeId(1));
    f
}

fn behind() -> FetchRequest {
    FetchRequest {
        cluster_id: "test-driver".to_string(),
        leader_epoch: 5,
        replica_id: NodeId(2),
        fetch_offset: LogIndex(10),
        last_fetched_epoch: Term(5),
    }
}

fn redirected(leader: &mut Fixture) -> FetchResponse {
    let actions = leader.host.step_engine(Input::FetchRequest(behind()));
    assert!(actions.iter().any(|a| matches!(a, Action::RedirectToSnapshot { .. })));
    let r = leader.process(actions, Some(NodeId(2))).fetch.expect("an answer");
    assert!(r.snapshot_redirect.is_some());
    assert!(r.entries.is_empty());
    r
}

fn snapshot_call(actions: &[Action]) -> (NodeId, FetchSnapshotRequest) {
    actions
        .iter()
        .find_map(|a| match a {
            Action::SendMessage { to, message: OutboundMessage::FetchSnapshotRequest(r) } => {
                Some((*to, r.clone()))
            }
            _ => None,
        })
        .expect("the follower asks for the snapshot")
}

#[test]
fn scenario_slow_follower_fetch_returns_redirect_and_follower_issues_fetch_snapshot() {
    let mut leader = leader_at(5, 50);
    let anchor = described("snapshot-0000000005-00000000000000000050", 50, 5, 128);
    leader.host.node.last_snapshot_meta = Some(anchor.clone());
    leader.host.last_log_term = Term(5);
    let r = redirected(&mut leader);
    let redirect = r.snapshot_redirect.clone().unwrap();
    assert_eq!(redirect.snapshot_id, anchor.id);
    assert_eq!(redirect.last_included_index, anchor.last_included_index);
    assert_eq!(redirect.last_included_term, anchor.last_included_term);
    let mut follower = follower_two(5);
    follower.handle(Event::Outbound(OutboundResult::Fetch { peer: NodeId(1), response: r }));
    match &follower.take()[..] {
        [Effect::Dispatch { to, message: OutboundMessage::FetchSnapshotRequest(request) }] => {
            assert_eq!(*to, NodeId(1));
            assert_eq!(request.snapshot_id, anchor.id);
            assert_eq!(request.replica_id, NodeId(2));
            assert_eq!(request.leader_epoch, 5);
            assert_eq!(request.offset, 0);
        }
        other => panic!("expected a request for the snapshot, got {other:?}"),
    }
}

#[test]
fn scenario_e2e_fetch_redirect_3mb_1mb_chunks_install_follower_matches_leader() {
    let mut leader = leader_at(5, 80);
    leader.host.seed(
        (1..=80).map(|i| command_entry(i, 5, format!("e2e-cmd-{i:03}").as_bytes())).collect(),
    );
    let payload = three_mebibytes();
    leader.host.payload = payload.clone();
    let taken = leader.process(vec![Action::TakeSnapshot { through_index: LogIndex(80) }], None);
    assert!(taken.error.is_none());
    assert!(leader.state.halt_reason.is_none());
    for i in [1u64, 25, 50, 79, 80] {
        assert!(!leader.host.log.contains_key(&i), "entry {i} must be purged");
    }
    let anchor = leader.state.node.last_snapshot_meta.clone().unwrap();
    assert_eq!(anchor.last_included_index, LogIndex(80));
    assert_eq!(anchor.last_included_term, Term(5));
    assert_eq!(leader.host.saved.len(), 1);
    assert_eq!(leader.host.saved[0].0.id, anchor.id);
    assert!(leader.host.saved[0].1 == payload);
    leader.take();

    let r = redirected(&mut leader);
    let mut follower = follower_two(5);
    let actions = follower.host.step_engine(Input::FetchResponse(r));
    let (to, request) = snapshot_call(&actions);
    assert_eq!(request.snapshot_id, anchor.id);
    assert_eq!(request.replica_id, NodeId(2));
    assert_eq!(request.leader_epoch, 5);
    assert_eq!(request.offset, 0);
    assert_eq!(request.max_bytes, 0);

    leader.handle(Event::FetchSnapshot { request: request.clone(), reply: 5 });
    let pieces: Vec<FetchSnapshotChunk> = match leader.take().pop() {
        Some(Effect::AnswerFetchSnapshot { reply: 5, result: Ok(pieces) }) => {
            pieces.into_iter().map(|p| p.expect("every piece can be read")).collect()
        }
        other => panic!("expected pieces, got {other:?}"),
    };
    assert_eq!(pieces.len(), 3);
    for (i, p) in pieces.iter().enumerate() {
        assert_eq!(p.chunk_index, i as u64);
        assert_eq!(p.cluster_id, "test-driver");
        assert_eq!(p.leader_epoch, 5);
        assert_eq!(p.done, i == 2);
        assert_eq!(p.metadata.is_some(), i == 0);
    }

    follower.process(actions, None);
    assert_eq!(
        follower.take(),
        vec![Effect::Dispatch { to, message: OutboundMessage::FetchSnapshotRequest(request) }]
    );
    let result = put_together(pieces, to);
    assert_transferred(&result, 1, 5, 80, &payload);
    follower.handle(Event::Outbound(result));
    assert_installed(&follower, 80, 5, &payload);
}

#[test]
fn repeated_replica_or_voter_is_not_valid() {
    let mut n = node(NodeRole::Leader, vec![1, 2, 3]);
    n.peers = vec![peer(2), peer(3)];
    assert!(n.is_valid());
    n.peers.push(peer(2));
    assert!(!n.is_valid());
    assert!(!node(NodeRole::Leader, vec![1, 2, 1]).is_valid());
}

fn answered(effects: &[Effect]) -> BTreeMap<u64, usize> {
    let mut counts = BTreeMap::new();
    for e in effects {
        let reply = match e {
            Effect::AnswerPropose { reply, .. }
            | Effect::RefuseQuery { reply, .. }
            | Effect::ServeQuery { reply, .. }
            | Effect::AnswerSnapshot { reply, .. }
            | Effect::AnswerVote { reply, .. }
            | Effect::AnswerPreVote { reply, .. }
            | Effect::AnswerFetch { reply, .. }
            | Effect::AnswerFetchSnapshot { reply, .. } => *reply,
            Effect::Dispatch { .. } | Effect::Observe(_) => continue,
        };
        *counts.entry(reply).or_insert(0) += 1;
    }
    counts
}

#[test]
fn every_caller_is_answered_once() {
    let mut f = three_voter_leader();
    f.host.script = Some(Box::new(|input, node| match input {
        Input::ClientPropose(command) => {
            node.last_log_index = LogIndex(node.last_log_index.0 + 1);
            let entry = command_entry(node.last_log_index.0, 1, command);
            Some(vec![Action::AppendEntries(vec![entry])])
        }
        _ => None,
    }));
    for reply in 0..3 {
        f.handle(Event::Propose { command: vec![reply as u8], reply });
    }
    f.handle(Event::Query { query: vec![], reply: 3 });
    f.handle(Event::Vote { request: vote_request(), reply: 4 });
    f.handle(Event::Fetch { request: fetch_request("test-driver", 1), reply: 5 });
    f.handle(Event::TriggerSnapshot { reply: 6 });
    let mut effects = f.take();
    assert_eq!(answered(&effects).into_keys().collect::<Vec<u64>>(), vec![4, 5, 6]);
    assert_eq!(f.state.waiters.len(), 3);
    assert_eq!(course(&f.state), Course::FailStop);
    abandon(&mut f.state);
    effects.extend(f.take());
    let counts = answered(&effects);
    assert_eq!(counts.len(), 7);
    assert!(counts.values().all(|n| *n == 1));
}

#[test]
fn failure_behind_an_acknowledged_fetch_is_the_answer() {
    let mut f = Fixture::leader();
    f.host.seed((1..=3).map(|i| command_entry(i, 1, b"e")).collect());
    f.host.script = Some(Box::new(|input, _| match input {
        Input::FetchRequestAcked { .. } => Some(vec![Action::PersistHardState]),
        _ => None,
    }));
    f.host.failing.push("persist");
    f.handle(Event::Fetch { request: fetch_request("test-driver", 2), reply: 8 });
    assert_eq!(
        f.take(),
        vec![Effect::AnswerFetch {
            reply: 8,
            result: Err(storage("hard-state persist failed: storage error: injected")),
        }]
    );
    assert_eq!(course(&f.state), Course::FailStop);
}

#[test]
fn second_answer_to_a_caller_goes_out_as_a_message() {
    let mut f = Fixture::new(node(NodeRole::Follower, vec![1, 2]));
    let answer = |granted: bool| Action::SendMessage {
        to: NodeId(2),
        message: OutboundMessage::VoteResponse(VoteResponse {
            cluster_id: "test-driver".to_string(),
            leader_epoch: 1,
            term: Term(1),
            vote_granted: granted,
            leader_hint: None,
        }),
    };
    let captured = f.process(vec![answer(true), answer(false)], Some(NodeId(2)));
    assert!(captured.vote.unwrap().vote_granted);
    assert!(matches!(
        &f.take()[..],
        [Effect::Dispatch { to: NodeId(2), message: OutboundMessage::VoteResponse(v) }]
            if !v.vote_granted
    ));
}

#[test]
fn captured_answers_merge_in_favour_of_the_first() {
    let mut a = CapturedResponse::empty();
    a.error = Some(storage("first"));
    let mut b = CapturedResponse::empty();
    b.error = Some(storage("second"));
    a.merge(b);
    assert_eq!(a.error, Some(storage("first")));
    let mut c = CapturedResponse::empty();
    c.merge(a);
    assert_eq!(c.error, Some(storage("first")));
}

#[test]
fn latency_counts_from_the_first_client() {
    let mut f = Fixture::leader();
    f.host.seed(vec![command_entry(1, 1, b"a")]);
    f.state.waiters.register(LogIndex(1), 1, 200);
    f.state.waiters.register(LogIndex(1), 2, 900);
    f.process(vec![Action::ApplyToStateMachine { from: LogIndex(1), to: LogIndex(1) }], None);
    assert_eq!(
        f.take(),
        vec![
            Effect::AnswerPropose { reply: 1, result: Ok(LogIndex(1)) },
            Effect::AnswerPropose { reply: 2, result: Ok(LogIndex(1)) },
            Effect::Observe(Observation::CommitLatency(800)),
        ]
    );
}

#[test]
fn waiting_clients_are_kept_by_index() {
    let mut f = Fixture::leader();
    for (index, reply) in [(9, 1), (4, 2), (6, 3), (4, 4)] {
        f.state.waiters.register(LogIndex(index), reply, 0);
    }
    assert_eq!(f.state.waiters.len(), 3);
    f.process(vec![Action::StepDown], None);
    let order: Vec<u64> = f
        .take()
        .into_iter()
        .filter_map(|e| match e {
            Effect::AnswerPropose { reply, .. } => Some(reply),
            _ => None,
        })
        .collect();
    assert_eq!(order, vec![2, 4, 3, 1]);
}

#[test]
fn read_needs_a_majority_of_the_voters() {
    let mut n = node(NodeRole::Leader, vec![1, 2, 3, 4, 5]);
    n.peers = vec![peer(2), peer(3), peer(4), peer(8)];
    let mut f = Fixture::new(n);
    f.handle(Event::Query { query: b"q".to_vec(), reply: 1 });
    f.host.node.peers[0].last_fetch_seq = 1;
    f.host.node.peers[3].last_fetch_seq = 2;
    assert!(settle(&mut f).is_empty());
    f.host.node.peers[2].last_fetch_seq = 3;
    assert_eq!(settle(&mut f), vec![Effect::ServeQuery { reply: 1, query: b"q".to_vec() }]);
}

#[test]
fn read_waits_until_what_was_committed_is_applied() {
    let mut f = three_voter_leader();
    f.host.node.last_applied = LogIndex(3);
    f.handle(Event::Query { query: b"q".to_vec(), reply: 1 });
    f.host.node.peers[0].last_fetch_seq = 8;
    assert!(settle(&mut f).is_empty());
    f.host.node.last_applied = LogIndex(5);
    assert_eq!(settle(&mut f).len(), 1);
}

#[test]
fn sent_fetches_are_counted() {
    let mut f = follower_of(2);
    f.process(
        vec![Action::SendMessage {
            to: NodeId(2),
            message: OutboundMessage::FetchRequest(fetch_request("test-driver", 1)),
        }],
        None,
    );
    assert!(matches!(
        &f.take()[..],
        [
            Effect::Observe(Observation::FetchRequest(FetchDirection::Sent)),
            Effect::Dispatch { .. }
        ]
    ));
}
