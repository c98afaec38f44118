use vstd::prelude::*;
use crate::collector::{lemma_total_nonneg, lemma_total_take_le, lemma_total_take_step, outcome_matches, run_channel, total_sections_of, updates_view, ChannelOutcome};
use crate::eit::{EitSection, NetworkId, ServiceId};

verus! {

/// The broadcast bands a channel can belong to.
#[derive(Clone, Copy, Debug, PartialEq, Eq, Hash, Structural)]
pub enum ChannelType {
    GR,
    BS,
    CS,
    SKY,
}

/// The tuning parameters a service carries for its channel.
#[derive(Clone, Debug)]
pub struct ChannelConfig {
    pub name: String,
    pub channel_type: ChannelType,
    pub channel: String,
    pub extra_args: String,
}

/// Mathematical model of `ChannelConfig`.
#[verifier::ext_equal]
pub struct ChannelConfigModel {
    pub name: Seq<char>,
    pub channel_type: ChannelType,
    pub channel: Seq<char>,
    pub extra_args: Seq<char>,
}

impl View for ChannelConfig {
    type V = ChannelConfigModel;

    open spec fn view(&self) -> ChannelConfigModel {
        ChannelConfigModel {
            name: self.name@,
            channel_type: self.channel_type,
            channel: self.channel@,
            extra_args: self.extra_args@,
        }
    }
}

/// One service as the EPG store reports it.
#[derive(Clone, Debug)]
pub struct EpgService {
    pub nid: NetworkId,
    pub sid: ServiceId,
    pub channel: ChannelConfig,
}

/// Mathematical model of `EpgService`.
#[verifier::ext_equal]
pub struct EpgServiceModel {
    pub nid: NetworkId,
    pub sid: ServiceId,
    pub channel: ChannelConfigModel,
}

impl View for EpgService {
    type V = EpgServiceModel;

    open spec fn view(&self) -> EpgServiceModel {
        EpgServiceModel { nid: self.nid, sid: self.sid, channel: self.channel@ }
    }
}

/// One channel as the collector tunes it: the channel data of the first
/// service seen for its network, with every service id of that network.
#[derive(Clone, Debug)]
pub struct EpgChannel {
    pub name: String,
    pub channel_type: ChannelType,
    pub channel: String,
    pub extra_args: String,
    pub services: Vec<ServiceId>,
    pub excluded_services: Vec<ServiceId>,
}

/// Mathematical model of `EpgChannel`.
#[verifier::ext_equal]
pub struct EpgChannelModel {
    pub name: Seq<char>,
    pub channel_type: ChannelType,
    pub channel: Seq<char>,
    pub extra_args: Seq<char>,
    pub services: Seq<ServiceId>,
    pub excluded_services: Seq<ServiceId>,
}

impl View for EpgChannel {
    type V = EpgChannelModel;

    open spec fn view(&self) -> EpgChannelModel {
        EpgChannelModel {
            name: self.name@,
            channel_type: self.channel_type,
            channel: self.channel@,
            extra_args: self.extra_args@,
            services: self.services@,
            excluded_services: self.excluded_services@,
        }
    }
}

/// Index of the first entry carrying the given network id, or `-1`.
pub open spec fn find_nid(p: Seq<(NetworkId, EpgChannelModel)>, nid: NetworkId) -> int
    decreases p.len(),
{
    if p.len() == 0 {
        -1
    } else if p[0].0 == nid {
        0
    } else {
        let r = find_nid(p.drop_first(), nid);
        if r < 0 {
            -1
        } else {
            r + 1
        }
    }
}

/// The channel record opened by the first service of a network.
pub open spec fn spec_new_channel(sv: EpgServiceModel) -> EpgChannelModel {
    EpgChannelModel {
        name: sv.channel.name,
        channel_type: sv.channel.channel_type,
        channel: sv.channel.channel,
        extra_args: sv.channel.extra_args,
        services: seq![sv.sid],
        excluded_services: Seq::empty(),
    }
}

/// Grouping services by network id, in order of first appearance: a service
/// of a known network appends its service id to that network's record; the
/// first service of a network opens the record with its channel data.
pub open spec fn spec_group(s: Seq<EpgServiceModel>) -> Seq<(NetworkId, EpgChannelModel)>
    decreases s.len(),
{
    if s.len() == 0 {
        Seq::empty()
    } else {
        let p = spec_group(s.drop_last());
        let sv = s.last();
        let k = find_nid(p, sv.nid);
        if k < 0 {
            p.push((sv.nid, spec_new_channel(sv)))
        } else {
            p.update(
                k,
                (sv.nid, EpgChannelModel { services: p[k].1.services.push(sv.sid), ..p[k].1 }),
            )
        }
    }
}

proof fn lemma_find_nid_at(p: Seq<(NetworkId, EpgChannelModel)>, nid: NetworkId, i: int)
    requires
        0 <= i < p.len(),
        p[i].0 == nid,
        forall|j: int| 0 <= j < i ==> p[j].0 != nid,
    ensures
        find_nid(p, nid) == i,
    decreases p.len(),
{
    if i > 0 {
        lemma_find_nid_at(p.drop_first(), nid, i - 1);
    }
}

proof fn lemma_find_nid_none(p: Seq<(NetworkId, EpgChannelModel)>, nid: NetworkId)
    requires
        forall|j: int| 0 <= j < p.len() ==> p[j].0 != nid,
    ensures
        find_nid(p, nid) == -1,
    decreases p.len(),
{
    if p.len() > 0 {
        lemma_find_nid_none(p.drop_first(), nid);
    }
}

/// The pairing of the two parallel vectors the grouping loop maintains.
pub open spec fn pairs_of(
    nids: Seq<NetworkId>,
    chs: Seq<EpgChannelModel>,
) -> Seq<(NetworkId, EpgChannelModel)> {
    Seq::new(nids.len(), |k: int| (nids[k], chs[k]))
}

fn empty_channel() -> (r: EpgChannel)
    ensures
        r@.services.len() == 0,
{
    EpgChannel {
        name: String::new(),
        channel_type: ChannelType::GR,
        channel: String::new(),
        extra_args: String::new(),
        services: Vec::new(),
        excluded_services: Vec::new(),
    }
}

/// Collapse the services the EPG reports into one channel record per network
/// id, exactly as `spec_group` describes: records stand in order of first
/// appearance, each holds the channel data of its network's first service and
/// the service ids of that network in report order.
pub fn group_services_into_channels(services: &Vec<EpgService>) -> (r: Vec<EpgChannel>)
    ensures
        r@.len() == spec_group(services@.map_values(|s: EpgService| s@)).len(),
        forall|k: int|
            0 <= k < r@.len() ==> (#[trigger] r@[k])@ == spec_group(
                services@.map_values(|s: EpgService| s@),
            )[k].1,
{
    broadcast use Seq::lemma_push_map_commute;

    let ghost svs: Seq<EpgServiceModel> = services@.map_values(|s: EpgService| s@);
    let mut nids: Vec<NetworkId> = Vec::new();
    let mut channels: Vec<EpgChannel> = Vec::new();
    let n = services.len();
    let mut i: usize = 0;
    proof {
        assert(pairs_of(nids@, channels@.map_values(|c: EpgChannel| c@)) =~= spec_group(
            svs.take(0),
        ));
    }
    while i < n
        invariant
            i <= n,
            n == services.len(),
            svs == services@.map_values(|s: EpgService| s@),
            nids@.len() == channels@.len(),
            pairs_of(nids@, channels@.map_values(|c: EpgChannel| c@)) == spec_group(
                svs.take(i as int),
            ),
        decreases n - i,
    {
        let ghost prev_pairs = pairs_of(nids@, channels@.map_values(|c: EpgChannel| c@));
        let sv = &services[i];
        proof {
            assert(svs.take(i + 1).drop_last() =~= svs.take(i as int));
            assert(svs.take(i + 1).last() == sv@);
        }
        let m = nids.len();
        let mut t: usize = 0;
        while t < m && nids[t] != sv.nid
            invariant
                t <= m,
                m == nids.len(),
                forall|j: int| 0 <= j < t ==> nids@[j] != sv.nid,
            decreases m - t,
        {
            t += 1;
        }
        let found = t < m;
        if found {
            proof {
                assert(nids@[t as int] == sv.nid);
            }
            proof {
                assert(prev_pairs[t as int].0 == nids@[t as int]);
                assert forall|j: int| 0 <= j < t implies prev_pairs[j].0 != sv@.nid by {}
                lemma_find_nid_at(prev_pairs, sv.nid, t as int);
            }
            let sid = sv.sid;
            let mut ch = empty_channel();
            channels.set_and_swap(t, &mut ch);
            ch.services.push(sid);
            channels.set_and_swap(t, &mut ch);
            proof {
                let chs = channels@.map_values(|c: EpgChannel| c@);
                assert(chs[t as int] =~~= (EpgChannelModel {
                    services: prev_pairs[t as int].1.services.push(sv@.sid),
                    ..prev_pairs[t as int].1
                }));
                assert(pairs_of(nids@, chs) =~~= spec_group(svs.take(i + 1)));
            }
        } else {
            proof {
                assert forall|j: int| 0 <= j < prev_pairs.len() implies prev_pairs[j].0
                    != sv@.nid by {
                    assert(prev_pairs[j].0 == nids@[j]);
                }
                lemma_find_nid_none(prev_pairs, sv.nid);
            }
            let mut sids: Vec<ServiceId> = Vec::new();
            sids.push(sv.sid);
            let ch = EpgChannel {
                name: sv.channel.name.clone(),
                channel_type: sv.channel.channel_type,
                channel: sv.channel.channel.clone(),
                extra_args: sv.channel.extra_args.clone(),
                services: sids,
                excluded_services: Vec::new(),
            };
            proof {
                assert(ch@.services =~= seq![sv@.sid]);
                assert(ch@.excluded_services =~= Seq::<ServiceId>::empty());
                assert(ch@ =~~= spec_new_channel(sv@));
            }
            nids.push(sv.nid);
            channels.push(ch);
            proof {
                let chs = channels@.map_values(|c: EpgChannel| c@);
                assert(pairs_of(nids@, chs) =~~= spec_group(svs.take(i + 1)));
            }
        }
        i += 1;
    }
    proof {
        assert(svs.take(n as int) =~= svs);
        let chs = channels@.map_values(|c: EpgChannel| c@);
        assert(pairs_of(nids@, chs) == spec_group(svs));
        assert forall|k: int| 0 <= k < channels@.len() implies (#[trigger] channels@[k])@
            == spec_group(svs)[k].1 by {
            assert(pairs_of(nids@, chs)[k].1 == chs[k]);
        }
    }
    channels
}

/// Request to run one full EIT harvest over all known channels.
pub struct FeedEitSectionsMessage;

/// Drives one end-to-end EIT harvest across a list of channels. The channel
/// walk itself awaits tuners and child processes, so a host loop performs it,
/// channel by channel, with `crate::collector::run_channel` deciding what
/// each channel's sections become.
pub struct EitCollector {
    /// The configured command template for the external decoder pipeline.
    pub command: String,
    /// The channels to harvest, in order.
    pub channels: Vec<EpgChannel>,
}

impl EitCollector {
    pub fn new(command: String, channels: Vec<EpgChannel>) -> (r: Self)
        ensures
            r.command@ == command@,
            r.channels == channels,
    {
        EitCollector { command, channels }
    }

    /// The decisions of one whole run, given each channel's decoded sections
    /// in channel order: per channel everything `outcome_matches` binds the
    /// outcome to, plus the total number of sections collected. The host loop
    /// around this acquires the tuner, spawns the decoder pipeline, reads its
    /// lines and performs the sends, channel by channel, in this order.
    pub fn collect_schedules(&self, per_channel: Vec<Vec<EitSection>>) -> (r: (
        Vec<ChannelOutcome>,
        usize,
    ))
        requires
            total_sections_of(updates_view(per_channel@)) < usize::MAX,
        ensures
            r.0@.len() == per_channel@.len(),
            forall|k: int|
                0 <= k < per_channel@.len() ==> outcome_matches(
                    updates_view(per_channel@)[k],
                    #[trigger] r.0@[k],
                ),
            r.1 == total_sections_of(updates_view(per_channel@)),
    {
        let ghost inputs: Seq<Seq<EitSection>> = updates_view(per_channel@);
        let n = per_channel.len();
        let mut rest = per_channel;
        let mut outcomes: Vec<ChannelOutcome> = Vec::new();
        let mut total: usize = 0;
        proof {
            assert(rest@ =~= rest@.skip(0));
            assert(inputs.take(0) =~= Seq::<Seq<EitSection>>::empty());
        }
        while rest.len() > 0
            invariant
                n == inputs.len(),
                outcomes@.len() + rest@.len() == n,
                forall|j: int| 0 <= j < rest@.len() ==> (#[trigger] rest@[j])@ == inputs[
                    outcomes@.len() + j],
                forall|j: int|
                    0 <= j < outcomes@.len() ==> outcome_matches(
                        inputs[j],
                        #[trigger] outcomes@[j],
                    ),
                total == total_sections_of(inputs.take(outcomes@.len() as int)),
                total_sections_of(inputs) < usize::MAX,
            decreases rest.len(),
        {
            let ghost k: int = outcomes@.len() as int;
            let sections = rest.remove(0);
            proof {
                assert(sections@ == inputs[k]);
                lemma_total_take_step(inputs, k);
                lemma_total_take_le(inputs, k + 1);
                lemma_total_take_le(inputs, k);
            }
            let outcome = run_channel(sections);
            total = total + outcome.num_sections;
            outcomes.push(outcome);
        }
        proof {
            assert(inputs.take(outcomes@.len() as int) =~= inputs);
        }
        (outcomes, total)
    }
}

/// The supervisor that, on request, turns the EPG's service list into a
/// channel list and hands a collector over it to the host loop.
pub struct EitFeeder {
    /// The configured command template for the external decoder pipeline.
    pub command: String,
}

impl EitFeeder {
    pub fn new(command: String) -> (r: Self)
        ensures
            r.command@ == command@,
    {
        EitFeeder { command }
    }

    /// Answer `FeedEitSectionsMessage`: group the services the EPG reported
    /// into channels and build the collector for the run.
    pub fn feed_eit_sections(&self, services: &Vec<EpgService>) -> (r: EitCollector)
        ensures
            r.command@ == self.command@,
            r.channels@.len() == spec_group(services@.map_values(|s: EpgService| s@)).len(),
            forall|k: int|
                0 <= k < r.channels@.len() ==> (#[trigger] r.channels@[k])@ == spec_group(
                    services@.map_values(|s: EpgService| s@),
                )[k].1,
    {
        let channels = group_services_into_channels(services);
        EitCollector::new(self.command.clone(), channels)
    }
}

} // verus!
