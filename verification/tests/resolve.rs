use relay_core::addr::{Address, Segment};
use relay_core::error::Error;
use relay_core::lookup::{AddressLookup, NodeRecord, ProjectRecord};
use relay_core::resolve::{Advance, Resolver};

fn address(segments: Vec<Segment>) -> Address {
    Address::from_segments(segments)
}

fn finish(resolver: &mut Resolver, lookup: &AddressLookup) -> Advance {
    // No refresh capability here: on a pause, look again in the same lookup.
    match resolver.advance(lookup) {
        Advance::NeedRefresh(_) => resolver.advance(lookup),
        other => other,
    }
}

#[test]
fn empty_address_resolves_to_empty_route() {
    let lookup = AddressLookup::new();
    let mut r = Resolver::new(address(vec![]));
    match r.advance(&lookup) {
        Advance::Done(res) => {
            assert_eq!(res.route.segments, vec![]);
            assert_eq!(res.identities, vec![]);
        }
        other => panic!("expected completion, got {:?}", other),
    }
}

#[test]
fn concrete_segments_pass_through_unchanged() {
    let lookup = AddressLookup::new();
    let segments = vec![
        Segment::Dns("example.com".to_string()),
        Segment::Ip4([127, 0, 0, 1]),
        Segment::Ip6([0; 16]),
        Segment::Tcp(4000),
        Segment::Other(99, vec![1, 2, 3]),
    ];
    let mut r = Resolver::new(address(segments.clone()));
    match r.advance(&lookup) {
        Advance::Done(res) => {
            assert_eq!(res.route.segments, segments);
            assert_eq!(res.identities, vec![]);
        }
        other => panic!("expected completion, got {:?}", other),
    }
}

#[test]
fn dns_node_appends_host_then_port() {
    let mut lookup = AddressLookup::new();
    lookup.add_node(
        "a".to_string(),
        NodeRecord::Dns("example.com".to_string(), 4000),
    );
    let mut r = Resolver::new(address(vec![Segment::Node("a".to_string())]));
    match r.advance(&lookup) {
        Advance::Done(res) => {
            assert_eq!(
                res.route.segments,
                vec![Segment::Dns("example.com".to_string()), Segment::Tcp(4000)]
            );
            assert_eq!(res.identities, vec![]);
        }
        other => panic!("expected completion, got {:?}", other),
    }
}

#[test]
fn ip6_node_appends_host_then_port() {
    let mut lookup = AddressLookup::new();
    let octets = [0, 0, 0, 0, 0, 0, 0, 0, 0, 0, 0, 0, 0, 0, 0, 1];
    lookup.add_node("a".to_string(), NodeRecord::Ip6(octets, 4100));
    let mut r = Resolver::new(address(vec![Segment::Node("a".to_string())]));
    match r.advance(&lookup) {
        Advance::Done(res) => {
            assert_eq!(
                res.route.segments,
                vec![Segment::Ip6(octets), Segment::Tcp(4100)]
            );
        }
        other => panic!("expected completion, got {:?}", other),
    }
}

#[test]
fn unknown_node_fails() {
    let lookup = AddressLookup::new();
    let mut r = Resolver::new(address(vec![Segment::Node("missing".to_string())]));
    match r.advance(&lookup) {
        Advance::Failed(e) => assert_eq!(e, Error::UnknownNode("missing".to_string())),
        other => panic!("expected failure, got {:?}", other),
    }
}

#[test]
fn project_miss_pauses_once_then_succeeds_after_refresh() {
    let mut lookup = AddressLookup::new();
    let mut r = Resolver::new(address(vec![Segment::Project("p".to_string())]));
    let mut refreshes = 0;
    let outcome = loop {
        match r.advance(&lookup) {
            Advance::NeedRefresh(alias) => {
                assert_eq!(alias, "p");
                refreshes += 1;
                // The refresh repopulates the project cache.
                lookup.add_project(
                    "p".to_string(),
                    ProjectRecord {
                        route: address(vec![Segment::Tcp(5000)]),
                        identity_id: "id-p".to_string(),
                    },
                );
            }
            other => break other,
        }
    };
    assert_eq!(refreshes, 1);
    match outcome {
        Advance::Done(res) => {
            assert_eq!(res.route.segments, vec![Segment::Tcp(5000)]);
            assert_eq!(res.identities.len(), 1);
            assert_eq!(
                res.identities[0].route.segments,
                vec![Segment::Tcp(5000)]
            );
            assert_eq!(res.identities[0].identity_id, "id-p");
        }
        other => panic!("expected completion, got {:?}", other),
    }
}

#[test]
fn project_absent_after_refresh_fails_without_second_pause() {
    let lookup = AddressLookup::new();
    let mut r = Resolver::new(address(vec![Segment::Project("p".to_string())]));
    let mut refreshes = 0;
    let outcome = loop {
        match r.advance(&lookup) {
            Advance::NeedRefresh(alias) => {
                assert_eq!(alias, "p");
                refreshes += 1;
                // The refresh finds nothing: the lookup stays empty.
            }
            other => break other,
        }
    };
    assert_eq!(refreshes, 1);
    assert_eq!(
        outcome,
        Advance::Failed(Error::UnknownProject("p".to_string()))
    );
}

#[test]
fn repeated_project_segments_each_contribute_an_entry() {
    let mut lookup = AddressLookup::new();
    lookup.add_project(
        "p".to_string(),
        ProjectRecord {
            route: address(vec![Segment::Tcp(5000)]),
            identity_id: "id-p".to_string(),
        },
    );
    let mut r = Resolver::new(address(vec![
        Segment::Project("p".to_string()),
        Segment::Project("p".to_string()),
    ]));
    match finish(&mut r, &lookup) {
        Advance::Done(res) => {
            assert_eq!(
                res.route.segments,
                vec![Segment::Tcp(5000), Segment::Tcp(5000)]
            );
            assert_eq!(res.identities.len(), 2);
            assert_eq!(res.identities[0], res.identities[1]);
        }
        other => panic!("expected completion, got {:?}", other),
    }
}

#[test]
fn end_to_end_node_then_project() {
    let mut lookup = AddressLookup::new();
    lookup.add_node("a".to_string(), NodeRecord::Ip4([10, 0, 0, 1], 4000));
    lookup.add_project(
        "p".to_string(),
        ProjectRecord {
            route: address(vec![Segment::Tcp(5000)]),
            identity_id: "id-p".to_string(),
        },
    );
    let mut r = Resolver::new(address(vec![
        Segment::Node("a".to_string()),
        Segment::Project("p".to_string()),
    ]));
    match finish(&mut r, &lookup) {
        Advance::Done(res) => {
            assert_eq!(
                res.route.segments,
                vec![
                    Segment::Ip4([10, 0, 0, 1]),
                    Segment::Tcp(4000),
                    Segment::Tcp(5000)
                ]
            );
            assert_eq!(res.identities.len(), 1);
            assert_eq!(
                res.identities[0].route.segments,
                vec![Segment::Tcp(5000)]
            );
            assert_eq!(res.identities[0].identity_id, "id-p");
        }
        other => panic!("expected completion, got {:?}", other),
    }
}

#[test]
fn first_matching_lookup_entry_wins() {
    let mut lookup = AddressLookup::new();
    lookup.add_node("a".to_string(), NodeRecord::Ip4([10, 0, 0, 1], 4000));
    lookup.add_node("a".to_string(), NodeRecord::Ip4([10, 0, 0, 2], 4001));
    let mut r = Resolver::new(address(vec![Segment::Node("a".to_string())]));
    match r.advance(&lookup) {
        Advance::Done(res) => {
            assert_eq!(
                res.route.segments,
                vec![Segment::Ip4([10, 0, 0, 1]), Segment::Tcp(4000)]
            );
        }
        other => panic!("expected completion, got {:?}", other),
    }
}
