use librenet::lns::{lns_record, lns_record_key};
use librenet::mesh::{mesh_step, mesh_topic, MeshAction, MeshEvent};

#[test]
fn lns_keys_are_prefixed_names() {
    assert_eq!(lns_record_key("my-app.lib"), "lns:my-app.lib");
    let record = lns_record("my-app.lib", "12D3KooW");
    assert_eq!(record.key, "lns:my-app.lib");
    assert_eq!(record.value, b"12D3KooW".to_vec());
}

#[test]
fn mesh_loop_decisions() {
    assert_eq!(mesh_topic(), "librenet-mesh");
    match mesh_step(MeshEvent::OutgoingPacket(vec![1, 2, 3])) {
        MeshAction::Publish { topic, data } => {
            assert_eq!(topic, "librenet-mesh");
            assert_eq!(data, vec![1, 2, 3]);
        }
        other => panic!("unexpected action {:?}", other),
    }
    assert!(matches!(mesh_step(MeshEvent::GossipMessage(vec![4])), MeshAction::DeliverIncoming(d) if d == vec![4]));
    assert!(matches!(mesh_step(MeshEvent::NewListenAddr("/ip4/1.2.3.4".to_string())), MeshAction::LogListenAddr(a) if a == "/ip4/1.2.3.4"));
    assert!(matches!(mesh_step(MeshEvent::Other), MeshAction::Ignore));
}
