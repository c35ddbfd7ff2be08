use tor_core::ed25519::Ed25519Identity;
use tor_core::error::Error;
use tor_core::path::{ExitPathBuilder, HandshakeStep, OwnedPath, TorPath};
use tor_core::relay::{DirInfo, NetDir, PortPolicy, PortRange, Relay, TargetPort, WeightRole};

/// Forty relays; relays `2k` and `2k + 1` form a family.  Relays whose
/// index is a multiple of three allow every port, the others only port 80
/// or only port 443.
fn construct_netdir() -> NetDir {
    let mut relays = Vec::new();
    for i in 0..40u8 {
        let partner = i ^ 1;
        let policy = match i % 3 {
            0 => vec![PortRange { lo: 1, hi: 65535 }],
            1 => vec![PortRange { lo: 443, hi: 443 }],
            _ => vec![PortRange { lo: 80, hi: 80 }],
        };
        relays.push(Relay {
            id: Ed25519Identity::new([i; 32]),
            family: vec![Ed25519Identity::new([partner; 32])],
            ipv4_policy: PortPolicy { allowed: policy },
            ipv6_policy: PortPolicy { allowed: vec![] },
            guard_weight: 1000,
            middle_weight: 1000 + i as u32,
            exit_weight: if i % 3 == 0 { 500 } else { 2000 },
        });
    }
    NetDir { relays }
}

fn assert_exit_path_ok(relays: &[&Relay]) {
    assert_eq!(relays.len(), 3);

    let r1 = relays[0];
    let r2 = relays[1];
    let r3 = relays[2];

    assert!(r1.ed_identity() != r2.ed_identity());
    assert!(r1.ed_identity() != r3.ed_identity());
    assert!(r2.ed_identity() != r3.ed_identity());

    assert!(!r1.in_same_family(r2));
    assert!(!r1.in_same_family(r3));
    assert!(!r2.in_same_family(r3));
}

fn assert_same_path_when_owned(path: &TorPath<'_>) {
    match (path, path.to_owned().unwrap()) {
        (TorPath::Path(p), OwnedPath::Normal(v)) => {
            assert_eq!(p.len(), v.len());
            for (r, h) in p.iter().zip(v.iter()) {
                assert!(r.ed_identity() == &h.ed_identity);
            }
        }
        (TorPath::OneHop(r), OwnedPath::ChannelOnly(h)) => {
            assert!(r.ed_identity() == &h.ed_identity);
        }
        (TorPath::FallbackOneHop(f), OwnedPath::ChannelOnly(h)) => {
            assert!(f.ed_identity == h.ed_identity);
        }
        _ => panic!("owned path of another kind"),
    }
}

#[test]
fn by_ports() {
    let netdir = construct_netdir();
    let ports = vec![TargetPort::ipv4(443), TargetPort::ipv4(1119)];

    for _ in 0..1000 {
        let path = ExitPathBuilder::from_target_ports(ports.clone())
            .pick_path(DirInfo::Directory(&netdir))
            .unwrap();

        assert_same_path_when_owned(&path);

        if let TorPath::Path(p) = path {
            assert_exit_path_ok(&p[..]);
            let exit = p[2];
            assert!(exit.ipv4_policy.allows_port(1119));
            assert!(exit.ipv4_policy.allows_port(443));
        } else {
            panic!("Generated the wrong kind of path");
        }
    }

    let chosen = netdir.by_id(&[0x20; 32].into()).unwrap();

    for _ in 0..1000 {
        let path = ExitPathBuilder::from_chosen_exit(chosen)
            .pick_path(DirInfo::Directory(&netdir))
            .unwrap();
        assert_same_path_when_owned(&path);
        if let TorPath::Path(p) = path {
            assert_exit_path_ok(&p[..]);
            let exit = p[2];
            assert!(exit.ed_identity() == chosen.ed_identity());
        } else {
            panic!("Generated the wrong kind of path");
        }
    }
}

#[test]
fn empty_path() {
    // Not constructable by path selection, but handled anyway.
    let bogus_path = TorPath::Path(vec![]);

    assert!(bogus_path.exit_relay().is_none());
    assert!(bogus_path.exit_policy().is_none());
    assert_eq!(bogus_path.len(), 0);

    let owned = bogus_path.to_owned();
    assert!(owned.is_err());

    let owned_bogus = OwnedPath::Normal(vec![]);
    assert!(owned_bogus.first_hop().is_err());
}

#[test]
fn empty_path_first_hop_no_relays() {
    let bogus_path = TorPath::Path(vec![]);
    assert!(matches!(bogus_path.first_hop(), Err(Error::NoRelays(_))));
    assert!(matches!(bogus_path.handshake_plan(), Err(Error::NoRelays(_))));
}

#[test]
fn fallbacks_need_consensus() {
    let fallbacks = [];
    let r = ExitPathBuilder::from_target_ports(vec![TargetPort::ipv4(80)])
        .pick_path(DirInfo::Fallbacks(&fallbacks));
    assert!(matches!(r, Err(Error::NeedConsensus)));
}

#[test]
fn no_exit_for_ports() {
    let netdir = construct_netdir();
    let r = ExitPathBuilder::from_target_ports(vec![TargetPort::ipv6(443)])
        .pick_path(DirInfo::Directory(&netdir));
    assert!(matches!(r, Err(Error::NoRelays("No exit relay found"))));
}

#[test]
fn weighted_selection_exact() {
    let netdir = construct_netdir();
    let ports = [TargetPort::ipv4(1119)];
    // Eligible exits are relays 0, 3, 6, ..., 39: fourteen of weight 500.
    assert_eq!(netdir.total_weight(WeightRole::Exit, &ports, &[]), 7000);
    assert_eq!(netdir.select_weighted(WeightRole::Exit, &ports, &[], 0), Some(0));
    assert_eq!(netdir.select_weighted(WeightRole::Exit, &ports, &[], 499), Some(0));
    assert_eq!(netdir.select_weighted(WeightRole::Exit, &ports, &[], 500), Some(3));
    assert_eq!(netdir.select_weighted(WeightRole::Exit, &ports, &[], 6999), Some(39));
    assert_eq!(netdir.select_weighted(WeightRole::Exit, &ports, &[], 7000), None);
    let avoid = [&netdir.relays[0]];
    // Relays 0 and 1 share a family: middle weights 1000 + i from relay 2 on.
    assert_eq!(netdir.select_weighted(WeightRole::Middle, &[], &avoid, 0), Some(2));
    assert_eq!(netdir.select_weighted(WeightRole::Middle, &[], &avoid, 1002), Some(3));
    let picked = netdir.pick_relay(WeightRole::Exit, &ports, &[]).unwrap();
    assert!(picked.ipv4_policy.allows_port(1119));
}

#[test]
fn families_and_identities() {
    let netdir = construct_netdir();
    let r = &netdir.relays;
    assert!(r[0].in_same_family(&r[1]));
    assert!(r[1].in_same_family(&r[0]));
    assert!(r[4].in_same_family(&r[4]));
    assert!(!r[1].in_same_family(&r[2]));
    assert!(netdir.by_id(&Ed25519Identity::new([77; 32])).is_none());
    assert_eq!(r[5].weight(WeightRole::Middle), 1005);
}

#[test]
fn handshake_plans() {
    let netdir = construct_netdir();
    let r = &netdir.relays;
    let one = TorPath::OneHop(&r[0]);
    let plan = one.handshake_plan().unwrap();
    assert_eq!(plan.len(), 1);
    assert!(matches!(plan[0], HandshakeStep::CreateFast));
    let three = TorPath::new_multihop(vec![&r[2], &r[5], &r[9]]);
    let plan = three.handshake_plan().unwrap();
    assert_eq!(plan.len(), 3);
    assert!(matches!(plan[0], HandshakeStep::CreateNtor(x) if x.ed_identity() == r[2].ed_identity()));
    assert!(matches!(plan[1], HandshakeStep::ExtendNtor(x) if x.ed_identity() == r[5].ed_identity()));
    assert!(matches!(plan[2], HandshakeStep::ExtendNtor(x) if x.ed_identity() == r[9].ed_identity()));
    assert_eq!(three.len(), 3);
    assert!(three.exit_relay().unwrap().ed_identity() == r[9].ed_identity());
    match three.to_owned().unwrap() {
        OwnedPath::Normal(v) => {
            assert_eq!(v.len(), 3);
            assert!(v[1].ed_identity == *r[5].ed_identity());
        }
        OwnedPath::ChannelOnly(_) => panic!("wrong kind of owned path"),
    }
}
