//! What a running server takes over from a changed configuration.
use vstd::prelude::*;

use crate::status::{next_revision, StatusPublisher};

verus! {

/// A voter as the configuration names it.
#[derive(Clone, Debug, PartialEq, Eq)]
pub struct VoterSeat {
    pub node_id: u64,
    pub directory_id: String,
    pub host: String,
    pub port: u16,
}

/// The part of the configuration that a reload looks at.
#[derive(Clone, Debug, PartialEq, Eq)]
pub struct NodeSettings {
    pub node_id: u64,
    pub cluster_id: String,
    pub listen_addr: String,
    pub data_dir: String,
    pub voters: Vec<VoterSeat>,
    pub admin_listen_addr: Option<String>,
    pub tick_interval_ms: u64,
}

/// A setting that only a restart can change.
#[derive(Clone, Copy, Debug, PartialEq, Eq, Structural)]
pub enum FixedSetting {
    NodeId,
    ClusterId,
    ListenAddr,
    DataDir,
    Voters,
    AdminListenAddr,
}

/// What a [`VoterSeat`] says.
#[verifier::ext_equal]
pub struct SeatView {
    pub node_id: u64,
    pub directory_id: Seq<char>,
    pub host: Seq<char>,
    pub port: u16,
}

impl View for VoterSeat {
    type V = SeatView;

    open spec fn view(&self) -> SeatView {
        SeatView {
            node_id: self.node_id,
            directory_id: self.directory_id@,
            host: self.host@,
            port: self.port,
        }
    }
}

/// What a list of seats says.
pub open spec fn seats_view(seats: Seq<VoterSeat>) -> Seq<SeatView> {
    seats.map_values(|s: VoterSeat| s@)
}

/// What an optional address says.
pub open spec fn addr_view(addr: Option<String>) -> Option<Seq<char>> {
    match addr {
        Some(a) => Some(a@),
        None => None,
    }
}

/// Whether a setting differs between two configurations.
pub open spec fn differs(setting: FixedSetting, prev: &NodeSettings, new: &NodeSettings) -> bool {
    match setting {
        FixedSetting::NodeId => prev.node_id != new.node_id,
        FixedSetting::ClusterId => prev.cluster_id@ != new.cluster_id@,
        FixedSetting::ListenAddr => prev.listen_addr@ != new.listen_addr@,
        FixedSetting::DataDir => prev.data_dir@ != new.data_dir@,
        FixedSetting::Voters => seats_view(prev.voters@) != seats_view(new.voters@),
        FixedSetting::AdminListenAddr => addr_view(prev.admin_listen_addr) != addr_view(
            new.admin_listen_addr,
        ),
    }
}

/// The settings that only a restart can change, in the order in which they are
/// looked at.
pub open spec fn fixed_settings() -> Seq<FixedSetting> {
    seq![
        FixedSetting::NodeId,
        FixedSetting::ClusterId,
        FixedSetting::ListenAddr,
        FixedSetting::DataDir,
        FixedSetting::Voters,
        FixedSetting::AdminListenAddr,
    ]
}

/// The settings that have changed and that only a restart can change.
pub open spec fn needing_restart(prev: &NodeSettings, new: &NodeSettings) -> Seq<FixedSetting> {
    fixed_settings().filter(|s: FixedSetting| differs(s, prev, new))
}

/// Whether two lists of seats differ.
fn seats_differ(a: &Vec<VoterSeat>, b: &Vec<VoterSeat>) -> (r: bool)
    ensures
        r == (seats_view(a@) != seats_view(b@)),
{
    if a.len() != b.len() {
        assert(seats_view(a@).len() != seats_view(b@).len());
        return true;
    }
    let mut i: usize = 0;
    while i < a.len()
        invariant
            i <= a.len(),
            a.len() == b.len(),
            forall|j: int| 0 <= j < i ==> (#[trigger] a@[j])@ == b@[j]@,
        decreases a.len() - i,
    {
        let same: bool = a[i].node_id == b[i].node_id && a[i].directory_id == b[i].directory_id
            && a[i].host == b[i].host && a[i].port == b[i].port;
        if !same {
            assert(seats_view(a@)[i as int] != seats_view(b@)[i as int]);
            return true;
        }
        i = i + 1;
    }
    assert(seats_view(a@) =~= seats_view(b@));
    false
}

/// Whether two optional addresses differ.
fn addrs_differ(a: &Option<String>, b: &Option<String>) -> (r: bool)
    ensures
        r == (addr_view(*a) != addr_view(*b)),
{
    match (a, b) {
        (Some(x), Some(y)) => *x != *y,
        (None, None) => false,
        _ => true,
    }
}

/// Whether a setting differs between two configurations.
fn setting_differs(setting: FixedSetting, prev: &NodeSettings, new: &NodeSettings) -> (r: bool)
    ensures
        r == differs(setting, prev, new),
{
    match setting {
        FixedSetting::NodeId => prev.node_id != new.node_id,
        FixedSetting::ClusterId => prev.cluster_id != new.cluster_id,
        FixedSetting::ListenAddr => prev.listen_addr != new.listen_addr,
        FixedSetting::DataDir => prev.data_dir != new.data_dir,
        FixedSetting::Voters => seats_differ(&prev.voters, &new.voters),
        FixedSetting::AdminListenAddr => addrs_differ(
            &prev.admin_listen_addr,
            &new.admin_listen_addr,
        ),
    }
}

/// The settings that have changed and that only a restart can change.
pub fn restart_required(prev: &NodeSettings, new: &NodeSettings) -> (r: Vec<FixedSetting>)
    ensures
        r@ == needing_restart(prev, new),
{
    let all: Vec<FixedSetting> = vec![
        FixedSetting::NodeId,
        FixedSetting::ClusterId,
        FixedSetting::ListenAddr,
        FixedSetting::DataDir,
        FixedSetting::Voters,
        FixedSetting::AdminListenAddr,
    ];
    assert(all@ =~= fixed_settings());
    let ghost pick = |s: FixedSetting| differs(s, prev, new);
    let mut r: Vec<FixedSetting> = Vec::new();
    let mut i: usize = 0;
    proof {
        reveal(Seq::filter);
    }
    assert(all@.take(0).filter(pick) =~= r@);
    while i < all.len()
        invariant
            i <= all.len(),
            pick == (|s: FixedSetting| differs(s, prev, new)),
            r@ == all@.take(i as int).filter(pick),
        decreases all.len() - i,
    {
        proof {
            reveal(Seq::filter);
            assert(all@.take(i + 1).drop_last() =~= all@.take(i as int));
        }
        if setting_differs(all[i], prev, new) {
            r.push(all[i]);
        }
        i = i + 1;
    }
    assert(all@.take(i as int) =~= all@);
    r
}

/// What a reload does first.
#[derive(Debug)]
pub enum ReloadPlan {
    /// The configuration cannot be read: everything stays as it is.
    Keep,
    /// The configuration replaces the one in use, and the driver is to tick at
    /// the given interval. The named settings have changed without effect.
    Adopt { settings: NodeSettings, restart: Vec<FixedSetting> },
}

/// Plans a reload from what could be loaded.
pub fn plan_reload(prev: &NodeSettings, loaded: Option<NodeSettings>) -> (r: ReloadPlan)
    ensures
        match loaded {
            None => r is Keep,
            Some(new) => r matches ReloadPlan::Adopt { settings, restart } && settings == new
                && restart@ == needing_restart(prev, &new),
        },
{
    match loaded {
        None => ReloadPlan::Keep,
        Some(new) => {
            let restart = restart_required(prev, &new);
            ReloadPlan::Adopt { settings: new, restart }
        },
    }
}

/// Ends a reload. It is counted only if the driver took the new interval over;
/// the new count is returned, and with it the leave to refresh the log filter.
pub fn finish_reload(driver_accepted: bool, publisher: &mut StatusPublisher) -> (r: Option<u64>)
    ensures
        driver_accepted ==> r == Some(next_revision(old(publisher).config_revision))
            && *final(publisher) == (StatusPublisher {
            config_revision: next_revision(old(publisher).config_revision),
            ..*old(publisher)
        }),
        !driver_accepted ==> r is None && *final(publisher) == *old(publisher),
{
    if driver_accepted {
        Some(publisher.bump_config_revision())
    } else {
        None
    }
}

/// The settings reported as needing a restart are exactly those that differ,
/// each once.
pub proof fn law_restart_settings_are_those_that_differ(
    prev: &NodeSettings,
    new: &NodeSettings,
    setting: FixedSetting,
)
    ensures
        needing_restart(prev, new).contains(setting) <==> differs(setting, prev, new),
        needing_restart(prev, new).no_duplicates(),
{
    let all = fixed_settings();
    let pick = |s: FixedSetting| differs(s, prev, new);
    let at: int = match setting {
        FixedSetting::NodeId => 0,
        FixedSetting::ClusterId => 1,
        FixedSetting::ListenAddr => 2,
        FixedSetting::DataDir => 3,
        FixedSetting::Voters => 4,
        FixedSetting::AdminListenAddr => 5,
    };
    assert(all[at] == setting);
    broadcast use vstd::seq_lib::group_filter_ensures;

    if needing_restart(prev, new).contains(setting) {
        assert(all.filter(pick).contains(setting));
        all.lemma_filter_contains_rev(pick, setting);
    }
    if differs(setting, prev, new) {
        assert(pick(setting));
        assert(all.filter(pick).contains(setting));
    }
    lemma_filter_no_duplicates(all, pick);
}

proof fn lemma_filter_no_duplicates(s: Seq<FixedSetting>, pick: spec_fn(FixedSetting) -> bool)
    requires
        s.no_duplicates(),
    ensures
        s.filter(pick).no_duplicates(),
    decreases s.len(),
{
    reveal(Seq::filter);
    if s.len() > 0 {
        let rest = s.drop_last();
        lemma_filter_no_duplicates(rest, pick);
        if pick(s.last()) {
            if rest.filter(pick).contains(s.last()) {
                rest.lemma_filter_contains_rev(pick, s.last());
                let i = choose|i: int| 0 <= i < rest.len() && rest[i] == s.last();
                assert(s[i] == s[s.len() - 1]);
            }
        }
    }
}

/// A reload to the same configuration needs no restart.
pub proof fn law_unchanged_settings_need_no_restart(settings: &NodeSettings)
    ensures
        needing_restart(settings, settings).len() == 0,
{
    let all = fixed_settings();
    let pick = |s: FixedSetting| differs(s, settings, settings);
    if all.filter(pick).len() > 0 {
        let s = all.filter(pick)[0];
        assert(all.filter(pick).contains(s));
        broadcast use vstd::seq_lib::group_filter_ensures;

        assert(pick(s));
    }
}

/// Each reload that is counted shows: the count never stays as it was.
pub proof fn law_counted_reloads_show(revision: u64)
    ensures
        next_revision(revision) != revision,
        revision < u64::MAX ==> next_revision(revision) == revision + 1,
{
}

/// A reload names a setting exactly if its value has changed: the node's id, the
/// cluster's id, the address, the directory, the voters (any part of any seat, or their
/// number) and the operators' address.
pub proof fn law_changed_values_need_a_restart(prev: &NodeSettings, new: &NodeSettings)
    ensures
        needing_restart(prev, new).contains(FixedSetting::NodeId) <==> prev.node_id != new.node_id,
        needing_restart(prev, new).contains(FixedSetting::ClusterId) <==> prev.cluster_id@
            != new.cluster_id@,
        needing_restart(prev, new).contains(FixedSetting::ListenAddr) <==> prev.listen_addr@
            != new.listen_addr@,
        needing_restart(prev, new).contains(FixedSetting::DataDir) <==> prev.data_dir@
            != new.data_dir@,
        needing_restart(prev, new).contains(FixedSetting::Voters) <==> !(prev.voters@.len()
            == new.voters@.len() && forall|i: int|
            0 <= i < prev.voters@.len() ==> {
                let a = #[trigger] prev.voters@[i];
                let b = new.voters@[i];
                &&& a.node_id == b.node_id
                &&& a.directory_id@ == b.directory_id@
                &&& a.host@ == b.host@
                &&& a.port == b.port
            }),
        needing_restart(prev, new).contains(FixedSetting::AdminListenAddr) <==> !(match (
            prev.admin_listen_addr,
            new.admin_listen_addr,
        ) {
            (Some(a), Some(b)) => a@ == b@,
            (None, None) => true,
            _ => false,
        }),
{
    law_restart_settings_are_those_that_differ(prev, new, FixedSetting::NodeId);
    law_restart_settings_are_those_that_differ(prev, new, FixedSetting::ClusterId);
    law_restart_settings_are_those_that_differ(prev, new, FixedSetting::ListenAddr);
    law_restart_settings_are_those_that_differ(prev, new, FixedSetting::DataDir);
    law_restart_settings_are_those_that_differ(prev, new, FixedSetting::Voters);
    law_restart_settings_are_those_that_differ(prev, new, FixedSetting::AdminListenAddr);
    let one = seats_view(prev.voters@);
    let two = seats_view(new.voters@);
    if one == two {
        assert(one.len() == two.len());
        assert forall|i: int| 0 <= i < prev.voters@.len() implies {
            let a = #[trigger] prev.voters@[i];
            let b = new.voters@[i];
            &&& a.node_id == b.node_id
            &&& a.directory_id@ == b.directory_id@
            &&& a.host@ == b.host@
            &&& a.port == b.port
        } by {
            assert(one[i] == two[i]);
        }
    } else if prev.voters@.len() == new.voters@.len() {
        if forall|i: int|
            0 <= i < prev.voters@.len() ==> {
                let a = #[trigger] prev.voters@[i];
                let b = new.voters@[i];
                &&& a.node_id == b.node_id
                &&& a.directory_id@ == b.directory_id@
                &&& a.host@ == b.host@
                &&& a.port == b.port
            } {
            assert(one =~= two);
        }
    }
}

/// The settings that a reload names come in the order in which they are looked at.
pub proof fn law_restart_settings_keep_their_order(prev: &NodeSettings, new: &NodeSettings)
    requires
        prev.node_id != new.node_id,
        prev.cluster_id@ != new.cluster_id@,
        prev.listen_addr@ != new.listen_addr@,
        prev.data_dir@ != new.data_dir@,
        prev.voters@.len() != new.voters@.len(),
        prev.admin_listen_addr is None,
        new.admin_listen_addr is Some,
    ensures
        needing_restart(prev, new) == seq![
            FixedSetting::NodeId,
            FixedSetting::ClusterId,
            FixedSetting::ListenAddr,
            FixedSetting::DataDir,
            FixedSetting::Voters,
            FixedSetting::AdminListenAddr,
        ],
{
    let pick = |s: FixedSetting| differs(s, prev, new);
    let all = fixed_settings();
    assert(seats_view(prev.voters@).len() != seats_view(new.voters@).len());
    lemma_all_kept(all, pick);
}

proof fn lemma_all_kept(s: Seq<FixedSetting>, pick: spec_fn(FixedSetting) -> bool)
    requires
        forall|i: int| 0 <= i < s.len() ==> pick(#[trigger] s[i]),
    ensures
        s.filter(pick) == s,
    decreases s.len(),
{
    reveal(Seq::filter);
    if s.len() > 0 {
        lemma_all_kept(s.drop_last(), pick);
        assert(s.drop_last().push(s.last()) =~= s);
    }
}

} // verus!
