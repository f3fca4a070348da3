use graph_node::block_stream::BlockStream;
use graph_node::builder::{forward, BlockStreamBuilder};
use graph_node::controller::{
    BlockStreamController, ControlMessage, SendOutcome, CONTROL_CHANNEL_CAPACITY,
};
use graph_node::manifest::{Schema, SubgraphManifest};
use graph_node::model::{Action, Phase, StreamEvent};
use graph_node::types::{BlockPointer, ChainHead, H256};

fn hash(tag: u8) -> H256 {
    H256([tag; 32])
}

fn block(number: u8) -> BlockPointer {
    BlockPointer { number: number as u64, hash: hash(number), parent_hash: hash(number - 1) }
}

fn manifest(id: &str) -> SubgraphManifest {
    SubgraphManifest {
        id: id.to_string(),
        spec_version: "0.0.1".to_string(),
        description: None,
        repository: None,
        schema: Schema { document: String::new() },
        data_sources: Vec::new(),
    }
}

fn running_at(stream: &mut BlockStream, to: u8) {
    let pointer = block(to);
    let event = StreamEvent::Head(ChainHead { network: "mainnet".to_string(), pointer });
    assert_eq!(stream.handle(event), None);
    let at = stream.confirmed_pointer();
    assert_eq!(stream.handle(StreamEvent::Ancestor(at)), None);
    for n in (at.number as u8 + 1)..=to {
        assert!(stream.handle(StreamEvent::Block(block(n))).is_some());
    }
}

#[test]
fn the_channel_holds_a_hundred_messages() {
    assert_eq!(CONTROL_CHANNEL_CAPACITY, 100);
    let mut controller = BlockStreamController::new();
    assert_eq!(controller.pending_len(), 0);
    assert!(!controller.is_full());
    for n in 0..100u8 {
        assert_eq!(controller.advance(hash(n)), SendOutcome::Sent);
    }
    assert!(controller.is_full());
    assert_eq!(controller.pending_len(), 100);
    // At capacity the message is not taken and nothing is dropped.
    assert_eq!(controller.advance(hash(200)), SendOutcome::Full);
    assert_eq!(controller.pending_len(), 100);
    // A receive makes room, and the message goes in behind the others.
    assert_eq!(controller.receive(), Some(ControlMessage::Advance { block_hash: hash(0) }));
    assert_eq!(controller.advance(hash(200)), SendOutcome::Sent);
    for n in 1..100u8 {
        assert_eq!(controller.receive(), Some(ControlMessage::Advance { block_hash: hash(n) }));
    }
    assert_eq!(controller.receive(), Some(ControlMessage::Advance { block_hash: hash(200) }));
    assert_eq!(controller.receive(), None);
}

#[test]
fn messages_are_received_in_the_order_sent() {
    let mut controller = BlockStreamController::new();
    assert_eq!(controller.receive(), None);
    assert_eq!(controller.advance(hash(3)), SendOutcome::Sent);
    assert_eq!(controller.advance(hash(1)), SendOutcome::Sent);
    assert_eq!(controller.receive(), Some(ControlMessage::Advance { block_hash: hash(3) }));
    assert_eq!(controller.advance(hash(2)), SendOutcome::Sent);
    assert_eq!(controller.receive(), Some(ControlMessage::Advance { block_hash: hash(1) }));
    assert_eq!(controller.receive(), Some(ControlMessage::Advance { block_hash: hash(2) }));
    assert_eq!(controller.receive(), None);
}

#[test]
fn a_closed_channel_takes_nothing_but_can_be_drained() {
    let mut controller = BlockStreamController::new();
    assert_eq!(controller.advance(hash(1)), SendOutcome::Sent);
    assert!(!controller.is_closed());
    controller.close();
    assert!(controller.is_closed());
    assert_eq!(controller.advance(hash(2)), SendOutcome::Closed);
    assert_eq!(controller.pending_len(), 1);
    assert_eq!(controller.receive(), Some(ControlMessage::Advance { block_hash: hash(1) }));
    assert_eq!(controller.receive(), None);
}

#[test]
fn the_builder_wires_a_started_stream_and_an_empty_channel() {
    let builder = BlockStreamBuilder::new("mainnet".to_string());
    assert_eq!(builder.network(), "mainnet");
    let (stream, controller) = builder.from_subgraph(&manifest("Qm1"), Some(block(8)), block(1));
    assert_eq!(stream.phase(), Phase::AwaitingHead);
    assert_eq!(stream.network(), "mainnet");
    assert_eq!(stream.subgraph(), "Qm1");
    assert_eq!(stream.confirmed_pointer(), block(8));
    assert_eq!(stream.checkpoint(), block(8));
    assert_eq!(stream.history_len(), 1);
    assert_eq!(stream.next_action(), Action::AwaitHead);
    assert_eq!(controller.pending_len(), 0);
    assert!(!controller.is_closed());

    let (stream, _) = builder.clone().from_subgraph(&manifest("Qm2"), None, block(1));
    assert_eq!(stream.confirmed_pointer(), block(1));
    assert_eq!(stream.subgraph(), "Qm2");
}

#[test]
fn forwarding_applies_the_acknowledgements_in_order() {
    let builder = BlockStreamBuilder::new("mainnet".to_string());
    let (mut stream, mut controller) =
        builder.from_subgraph(&manifest("Qm1"), Some(block(8)), block(1));
    running_at(&mut stream, 12);
    assert_eq!(forward(&mut controller, &mut stream), None);
    assert_eq!(controller.advance(hash(10)), SendOutcome::Sent);
    assert_eq!(controller.advance(hash(11)), SendOutcome::Sent);
    assert_eq!(controller.advance(hash(9)), SendOutcome::Sent);
    assert_eq!(controller.advance(hash(11)), SendOutcome::Sent);
    assert_eq!(forward(&mut controller, &mut stream), Some(block(11)));
    assert_eq!(stream.checkpoint(), block(11));
    assert_eq!(controller.pending_len(), 0);
    // Nothing new: nothing to persist.
    assert_eq!(controller.advance(hash(11)), SendOutcome::Sent);
    assert_eq!(forward(&mut controller, &mut stream), None);
    assert_eq!(stream.checkpoint(), block(11));
}

#[test]
fn a_control_message_acknowledges_its_block() {
    let builder = BlockStreamBuilder::new("mainnet".to_string());
    let (mut stream, _) = builder.from_subgraph(&manifest("Qm1"), Some(block(8)), block(1));
    running_at(&mut stream, 10);
    let message = ControlMessage::Advance { block_hash: hash(9) };
    assert_eq!(stream.handle_control(message), Some(block(9)));
    assert_eq!(stream.handle_control(message), None);
    assert_eq!(stream.checkpoint(), block(9));
}
