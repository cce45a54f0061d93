use phalanx_node::actors::eclipse_router::{
    remember_did, EclipseRisk, EclipseRouter, GateVerdict, DISCOVERY_WINDOW_NS,
};
use phalanx_node::actors::egress::EgressCommand;
use phalanx_node::actors::mesh_policy::{
    PEER_DISCOVERY_RATE_LIMIT_PER_SEC, PEER_FIRST_SEEN_CAP, RE_BOOTSTRAP_TRIGGER_PEER_COUNT,
};
use phalanx_node::actors::trust_actor::{
    summarize_community, Community, GrantPermissions, Member, PeerRecord, TrustAction,
    TrustActor, TrustCommand,
};
use phalanx_node::aged_map::{make_room, Aged};
use phalanx_node::evidence::Offense;
use phalanx_node::power::PowerState;
use phalanx_node::text_map::TextMap;

fn s(t: &str) -> String {
    t.to_string()
}

#[test]
fn discovery_is_rate_limited_by_the_second() {
    let mut r = EclipseRouter::new(0);
    for _ in 0..PEER_DISCOVERY_RATE_LIMIT_PER_SEC {
        assert!(r.count_discovery(10));
    }
    assert!(!r.count_discovery(20));
    assert!(!r.count_discovery(DISCOVERY_WINDOW_NS - 1));
    assert!(r.count_discovery(DISCOVERY_WINDOW_NS));
    let refused = EclipseRouter::rate_limited();
    assert!(!refused.admitted && refused.evicted.is_none() && !refused.was_first_seen);
}

#[test]
fn reconnecting_keeps_the_first_sighting() {
    let mut r = EclipseRouter::new(0);
    let welcome = || GateVerdict::Admitted { evicted: None };
    let (first, gone) = r.on_verdict(&s("p"), welcome(), Some(100));
    assert!(first.admitted && first.was_first_seen);
    assert_eq!(gone, None);
    let (second, _) = r.on_verdict(&s("p"), welcome(), Some(900));
    assert!(second.admitted && !second.was_first_seen);
    assert_eq!(r.connected_secs(&s("p"), 1_000), 900);
    assert_eq!(r.connected_secs(&s("q"), 1_000), 0);
    assert_eq!(r.connected_secs(&s("p"), 50), 0);
}

#[test]
fn turned_away_peers_are_disconnected() {
    let mut r = EclipseRouter::new(0);
    let (refused, gone) = r.on_verdict(&s("p"), GateVerdict::Rejected, Some(1));
    assert!(!refused.admitted);
    assert_eq!(gone.as_deref(), Some("p"));
    let verdict = GateVerdict::Admitted { evicted: Some(s("old")) };
    let (admitted, gone) = r.on_verdict(&s("p"), verdict, None);
    assert!(admitted.was_first_seen);
    assert_eq!(admitted.evicted.as_deref(), Some("old"));
    assert_eq!(gone.as_deref(), Some("old"));
    assert_eq!(r.peer_first_seen.len(), 0);
}

#[test]
fn reactions_grow_with_the_risk() {
    let bootstrap = vec![s("a"), s("b"), s("c"), s("d")];
    let react = |now, risk, peers, dial: &Vec<String>| {
        EclipseRouter::evaluate_eclipse_risk(now, risk, &s("did:key:zMe"), peers, dial)
    };
    let low = react(Some(1), EclipseRisk::Low, 1, &bootstrap);
    assert!(low.impulse.is_none() && low.offense.is_none() && low.rebootstrap.is_none());
    let elevated = react(Some(1), EclipseRisk::Elevated, 1, &bootstrap);
    assert_eq!(elevated.impulse, Some(5));
    assert!(elevated.offense.is_none() && elevated.rebootstrap.is_none());
    let thin = RE_BOOTSTRAP_TRIGGER_PEER_COUNT - 1;
    let critical = react(Some(1), EclipseRisk::Critical, thin, &bootstrap);
    assert_eq!(critical.impulse, Some(20));
    assert_eq!(critical.offense, Some((s("did:key:zMe"), Offense::EclipseAttempt)));
    assert_eq!(critical.rebootstrap.unwrap(), vec!["a", "b", "c"]);
    let crowded = react(Some(1), EclipseRisk::Critical, thin + 1, &bootstrap);
    assert!(crowded.rebootstrap.is_none());
    assert!(react(Some(1), EclipseRisk::Critical, 0, &vec![]).rebootstrap.is_none());
    let timeless = react(None, EclipseRisk::Critical, 0, &bootstrap);
    assert!(timeless.impulse.is_none());
    assert!(timeless.offense.is_none() && timeless.rebootstrap.is_none());
}

#[test]
fn sweeps_rest_with_the_battery() {
    let mut r = EclipseRouter::new(0);
    r.on_verdict(&s("p"), GateVerdict::Admitted { evicted: None }, Some(100));
    let peers = vec![s("p"), s("q")];
    assert!(EclipseRouter::sweeps_in(PowerState::Conserving));
    assert_eq!(r.sweep_reciprocity_floor(PowerState::Leaf, Some(1), &peers), None);
    assert_eq!(r.sweep_reciprocity_floor(PowerState::Dormant, Some(1), &peers), None);
    assert_eq!(r.sweep_reciprocity_floor(PowerState::Normal, None, &peers), None);
    assert_eq!(
        r.sweep_reciprocity_floor(PowerState::Normal, Some(130), &peers),
        Some(vec![(s("p"), 30), (s("q"), 0)])
    );
    assert_eq!(EclipseRouter::promote_anchor_candidates(&peers, &vec![s("p")]), vec!["q"]);
}

#[test]
fn offenses_are_charged_to_known_names() {
    let mut r = EclipseRouter::new(0);
    r.cache_did(s("p"), s("did:key:zP"));
    assert_eq!(r.charged_for(&s("p"), true), Some((s("did:key:zP"), Offense::NonReciprocal)));
    assert_eq!(r.charged_for(&s("p"), false), None);
    assert_eq!(r.charged_for(&s("q"), true), None);
}

#[test]
fn tokens_are_replayed_in_order() {
    let commands = EclipseRouter::replay_revocation_tokens(vec![vec![1], vec![2]]);
    let tokens: Vec<&Vec<u8>> = commands
        .iter()
        .map(|c| match c {
            EgressCommand::PublishRevocation(t) => t,
            other => panic!("expected a token, got {other:?}"),
        })
        .collect();
    assert_eq!(tokens, vec![&vec![1], &vec![2]]);
}

#[test]
fn tables_stay_bounded() {
    let mut table: TextMap<Aged<u8>> = TextMap::new();
    for (name, age) in [("a", 5), ("b", 3), ("c", 9)] {
        table.insert(s(name), Aged { value: 0, age });
    }
    make_room(&mut table, &s("b"), 3);
    assert_eq!(table.len(), 3);
    make_room(&mut table, &s("d"), 3);
    assert_eq!(table.len(), 2);
    assert!(!table.contains(&s("b")));
    let mut cache = TextMap::new();
    let mut seq = 7u64;
    remember_did(&mut cache, &mut seq, s("p"), s("did"));
    assert_eq!(seq, 8);
    assert_eq!(cache.get(&s("p")).unwrap().age, 8);
    assert!(PEER_FIRST_SEEN_CAP > 0);
}

fn community(id: u8, name: &str, members: &[&str]) -> Community {
    Community {
        fingerprint: [id; 32],
        name: s(name),
        members: members
            .iter()
            .map(|did| Member { did: s(did), joined_at: 1, vouches: 2 })
            .collect(),
        baseline_trust: 3,
        expires_at: 99,
        quorum: 2,
        grants: GrantPermissions { playback: true, export: false },
        stronghold_did: None,
    }
}

fn import(actor: &mut TrustActor, c: Community) -> TrustAction {
    actor.handle_command(TrustCommand::ImportCommunity { community: c, verified: Ok(()) })
}

#[test]
fn communities_come_and_go() {
    let mut a = TrustActor::new();
    match import(&mut a, community(1, "one", &["x", "y"])) {
        TrustAction::Imported { id, projection } => {
            assert_eq!(id, [1u8; 32]);
            assert_eq!(projection.len(), 1);
            assert_eq!(projection[0].baseline_trust, 3);
            assert_eq!(projection[0].members, vec!["x", "y"]);
        }
        other => panic!("expected an import, got {other:?}"),
    }
    import(&mut a, community(2, "two", &[]));
    // The same community again takes the place of the first.
    import(&mut a, community(1, "renamed", &["x"]));
    let summary = a.list_communities();
    assert_eq!(summary.len(), 2);
    let one = summary.iter().find(|c| c.id == [1u8; 32]).unwrap();
    assert_eq!(one.name, "renamed");
    assert_eq!(one.member_count, 1);
    assert_eq!(one.expires_at, 99);
    assert_eq!(one.quorum, 2);

    match a.handle_command(TrustCommand::DissolveCommunity { community_id: [1u8; 32] }) {
        TrustAction::Dissolved { id, projection } => {
            assert_eq!(id, [1u8; 32]);
            assert_eq!(projection.len(), 1);
        }
        other => panic!("expected a dissolution, got {other:?}"),
    }
    assert!(matches!(
        a.handle_command(TrustCommand::DissolveCommunity { community_id: [1u8; 32] }),
        TrustAction::NotFound
    ));
    assert!(matches!(
        a.handle_command(TrustCommand::GetCommunity { community_id: [1u8; 32] }),
        TrustAction::Roster(None)
    ));
}

#[test]
fn unverified_communities_are_refused() {
    let mut a = TrustActor::new();
    let refused = a.handle_command(TrustCommand::ImportCommunity {
        community: community(1, "one", &[]),
        verified: Err(s("expired")),
    });
    match refused {
        TrustAction::ImportFailed(m) => assert_eq!(m, "expired"),
        other => panic!("expected a refusal, got {other:?}"),
    }
    assert!(a.communities.is_empty());
}

fn peer(pet_name: Option<&str>) -> PeerRecord {
    PeerRecord { pet_name: pet_name.map(s), level: s("Known"), score: -5, is_blacklisted: true }
}

#[test]
fn rosters_show_pet_names() {
    let mut a = TrustActor::new();
    a.peers.insert(s("x"), peer(Some("Xaver")));
    import(&mut a, community(1, "one", &["x", "y"]));
    match a.handle_command(TrustCommand::GetCommunity { community_id: [1u8; 32] }) {
        TrustAction::Roster(Some(roster)) => {
            assert_eq!(roster.members[0].pet_name.as_deref(), Some("Xaver"));
            assert_eq!(roster.members[1].pet_name, None);
            assert_eq!(roster.members[0].vouch_count, 2);
            assert_eq!(roster.summary.name, "one");
            assert!(roster.grants.playback && !roster.grants.export);
            assert_eq!(roster.stronghold_did, None);
        }
        other => panic!("expected a roster, got {other:?}"),
    }
}

#[test]
fn known_peers_keep_their_pet_name() {
    let mut a = TrustActor::new();
    a.peers.insert(s("x"), peer(Some("Xaver")));
    a.peers.insert(s("y"), peer(None));
    let mut set = |did: &str| a.handle_command(TrustCommand::SetTrustLevel { did: s(did) });
    assert!(matches!(set("x"), TrustAction::SetPeer { pet_name } if pet_name == "Xaver"));
    assert!(matches!(set("y"), TrustAction::SetPeer { pet_name } if pet_name == "peer"));
    assert!(matches!(set("z"), TrustAction::RegisterPeer));
    let peers = a.list_peers();
    assert_eq!(peers.len(), 2);
    assert!(peers.iter().all(|p| p.score == -5 && p.is_blacklisted && p.level == "Known"));
}

#[test]
fn the_registry_answers_the_rest() {
    let mut a = TrustActor::new();
    for command in [
        TrustCommand::RecordOffense,
        TrustCommand::CheckTrust,
        TrustCommand::IsBlacklisted,
        TrustCommand::AssignPetName,
        TrustCommand::RemovePeer,
    ] {
        assert!(matches!(a.handle_command(command), TrustAction::AskRegistry));
    }
    match a.handle_command(TrustCommand::ListPeers) {
        TrustAction::Peers(list) => assert!(list.is_empty()),
        other => panic!("expected peers, got {other:?}"),
    }
}

#[test]
fn large_communities_are_counted_to_the_limit() {
    let mut c = community(1, "one", &[]);
    for i in 0..70_000u32 {
        c.members.push(Member { did: i.to_string(), joined_at: 0, vouches: 0 });
    }
    assert_eq!(summarize_community(&c).member_count, u16::MAX);
}
