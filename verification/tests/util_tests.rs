use graph_node::ethereum::{
    contract_event_with_signature, position_of_signature, string_to_h256, strip_spaces,
    ContractEvent,
};
use graph_node::retry::RetryPolicy;
use graph_node::server::GraphQLServerError;
use graph_node::text::{append_decimal, with_index, with_suffix};
use graph_node::types::H256;

fn from_hex(text: &str) -> H256 {
    let mut bytes = [0u8; 32];
    for i in 0..32 {
        bytes[i] = u8::from_str_radix(&text[2 * i..2 * i + 2], 16).unwrap();
    }
    H256(bytes)
}

const TRANSFER: &str = "ddf252ad1be2c89b69c2b068fc378daa952ba7f163c4a11628f55a4df523b3ef";
const EMPTY: &str = "c5d2460186f7233c927e7db2dcc703c0e500b653ca82273b7bfad8045d85a470";

#[test]
fn a_signature_is_hashed_with_keccak_256() {
    assert_eq!(string_to_h256("Transfer(address,address,uint256)"), from_hex(TRANSFER));
    assert_eq!(string_to_h256(""), from_hex(EMPTY));
}

#[test]
fn spaces_do_not_change_the_hash() {
    assert_eq!(string_to_h256("Transfer(address, address, uint256)"), from_hex(TRANSFER));
    assert_eq!(string_to_h256(" Transfer ( address,address,uint256 ) "), from_hex(TRANSFER));
    assert_eq!(string_to_h256("   "), from_hex(EMPTY));
    // Other white space does.
    assert_ne!(string_to_h256("Transfer(address,\taddress,uint256)"), from_hex(TRANSFER));
}

#[test]
fn spaces_are_stripped_from_bytes() {
    assert_eq!(strip_spaces(&b"a b  c ".to_vec()), b"abc".to_vec());
    assert_eq!(strip_spaces(&Vec::new()), Vec::<u8>::new());
    assert_eq!(strip_spaces(&b"\tx\n".to_vec()), b"\tx\n".to_vec());
    assert_eq!(strip_spaces(&"é è".as_bytes().to_vec()), "éè".as_bytes().to_vec());
}

fn events() -> Vec<ContractEvent> {
    vec![
        ContractEvent {
            name: "Approval".to_string(),
            signature: string_to_h256("Approval(address,address,uint256)"),
        },
        ContractEvent { name: "Transfer".to_string(), signature: from_hex(TRANSFER) },
        ContractEvent { name: "Again".to_string(), signature: from_hex(TRANSFER) },
    ]
}

#[test]
fn an_event_is_found_by_its_signature() {
    let events = events();
    let found = contract_event_with_signature(&events, "Transfer(address, address, uint256)");
    assert_eq!(found.map(|e| e.name.as_str()), Some("Transfer"));
    let found = contract_event_with_signature(&events, "Approval(address,address,uint256)");
    assert_eq!(found.map(|e| e.name.as_str()), Some("Approval"));
    assert!(contract_event_with_signature(&events, "Burn(uint256)").is_none());
    assert!(contract_event_with_signature(&Vec::new(), "Transfer(address,address,uint256)")
        .is_none());
}

#[test]
fn the_first_event_with_the_signature_is_found() {
    let events = events();
    assert_eq!(position_of_signature(&events, from_hex(TRANSFER)), Some(1));
    assert_eq!(position_of_signature(&events, from_hex(EMPTY)), None);
}

#[test]
fn the_delay_doubles_up_to_the_cap() {
    let policy = RetryPolicy { base_delay_ms: 100, max_delay_ms: 1_000, max_attempts: 5 };
    assert_eq!(policy.delay_ms(0), 0);
    assert_eq!(policy.delay_ms(1), 100);
    assert_eq!(policy.delay_ms(2), 200);
    assert_eq!(policy.delay_ms(3), 400);
    assert_eq!(policy.delay_ms(4), 800);
    assert_eq!(policy.delay_ms(5), 1_000);
    assert_eq!(policy.delay_ms(6), 1_000);
    assert_eq!(policy.delay_ms(u32::MAX), 1_000);
}

#[test]
fn the_delay_at_the_edges() {
    let zero = RetryPolicy { base_delay_ms: 0, max_delay_ms: 1_000, max_attempts: 5 };
    assert_eq!(zero.delay_ms(1), 0);
    assert_eq!(zero.delay_ms(u32::MAX), 0);
    let capped = RetryPolicy { base_delay_ms: 5_000, max_delay_ms: 1_000, max_attempts: 5 };
    assert_eq!(capped.delay_ms(1), 1_000);
    let wide = RetryPolicy { base_delay_ms: 1, max_delay_ms: u64::MAX, max_attempts: 5 };
    assert_eq!(wide.delay_ms(64), 1u64 << 63);
    assert_eq!(wide.delay_ms(65), u64::MAX);
    assert_eq!(wide.delay_ms(200), u64::MAX);
    let standard = RetryPolicy::standard();
    assert_eq!(standard.base_delay_ms, 500);
    assert_eq!(standard.max_delay_ms, 30_000);
    assert_eq!(standard.max_attempts, 10);
    assert_eq!(standard.delay_ms(7), 30_000);
    assert_eq!(standard.delay_ms(6), 16_000);
}

#[test]
fn numbers_are_written_in_decimal() {
    let mut text = String::from("n=");
    append_decimal(&mut text, 0);
    assert_eq!(text, "n=0");
    let mut text = String::new();
    append_decimal(&mut text, 9);
    append_decimal(&mut text, 10);
    append_decimal(&mut text, 12345);
    assert_eq!(text, "91012345");
    let mut text = String::new();
    append_decimal(&mut text, usize::MAX);
    assert_eq!(text, usize::MAX.to_string());
}

#[test]
fn identifiers_are_joined() {
    let id = "Qm1-manifest".to_string();
    assert_eq!(with_suffix(&id, "-source"), "Qm1-manifest-source");
    assert_eq!(with_index(&id, "-data-source-", 0), "Qm1-manifest-data-source-0");
    assert_eq!(with_index(&id, "-abi-", 17), "Qm1-manifest-abi-17");
}

#[test]
fn server_errors_show_their_message() {
    assert_eq!(GraphQLServerError::Canceled.message(), "Query was canceled");
    assert_eq!(GraphQLServerError::ClientError("bad".to_string()).message(), "bad");
    assert_eq!(GraphQLServerError::QueryError("worse".to_string()).message(), "worse");
    assert_eq!(GraphQLServerError::InternalError("oops".to_string()).message(), "oops");
    assert_eq!(
        GraphQLServerError::Canceled.description(),
        "Failed to process the GraphQL request"
    );
}

#[test]
fn server_errors_are_made_from_text() {
    assert_eq!(
        GraphQLServerError::from("oops".to_string()),
        GraphQLServerError::InternalError("oops".to_string())
    );
    assert_eq!(
        GraphQLServerError::internal("oops"),
        GraphQLServerError::InternalError("oops".to_string())
    );
}

#[test]
fn server_errors_know_their_cause_and_form() {
    assert!(GraphQLServerError::Canceled.has_cause());
    assert!(GraphQLServerError::QueryError("q".to_string()).has_cause());
    assert!(!GraphQLServerError::ClientError("c".to_string()).has_cause());
    assert!(!GraphQLServerError::InternalError("i".to_string()).has_cause());
    assert!(GraphQLServerError::QueryError("q".to_string()).serializes_as_query_error());
    assert!(!GraphQLServerError::Canceled.serializes_as_query_error());
    assert!(!GraphQLServerError::ClientError("c".to_string()).serializes_as_query_error());
}
