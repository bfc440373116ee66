use alloy_sol_types::{sol_data, EventTopic, SolType};
use stylus_primitives::address::Address;
use stylus_primitives::contract::StylusPrimitivesDemo;
use stylus_primitives::event::{write_topics, EmitMe, EncodeError, LogRecord, TOPIC_COUNT};
use stylus_primitives::host::{EmittedLog, Host};
use stylus_primitives::uint::U256;

const SELECTOR: [u8; 32] = [
    0x66, 0xa3, 0x90, 0x35, 0x75, 0x7d, 0xb5, 0xee, 0xd3, 0xbf, 0xba, 0x37, 0x5f, 0x18, 0x24, 0xc8,
    0xef, 0x04, 0x4e, 0x3f, 0x86, 0xf6, 0xd0, 0xd1, 0x74, 0xc3, 0x12, 0x52, 0x92, 0x28, 0x92, 0xc1,
];

fn sender() -> Address {
    let mut bytes = [0u8; 20];
    for (i, byte) in bytes.iter_mut().enumerate() {
        *byte = 0xa0 + i as u8;
    }
    Address::new(bytes)
}

fn padded_sender() -> [u8; 32] {
    let mut word = [0u8; 32];
    for i in 0..20 {
        word[12 + i] = 0xa0 + i as u8;
    }
    word
}

fn thousand() -> [u8; 32] {
    let mut word = [0u8; 32];
    word[30] = 0x03;
    word[31] = 0xe8;
    word
}

#[test]
fn address_as_a_word_is_padded_on_the_left() {
    assert_eq!(sender().into_word(), padded_sender());
    assert_eq!(Address::zero().into_word(), [0u8; 32]);
    assert_eq!(Address::new([0xff; 20]).into_word()[..12], [0u8; 12]);
    assert_eq!(Address::new([0xff; 20]).into_word()[12..], [0xffu8; 20]);
}

#[test]
fn address_as_a_word_agrees_with_the_abi_encoder() {
    for bytes in [[0u8; 20], [0xff; 20], sender().into_array()] {
        let expected =
            <sol_data::Address as EventTopic>::encode_topic(&alloy_primitives::Address::new(bytes));
        assert_eq!(Address::new(bytes).into_word(), expected.0 .0);
    }
}

#[test]
fn u256_bytes_are_big_endian() {
    assert_eq!(U256::zero().to_be_bytes(), [0u8; 32]);
    assert_eq!(U256::from_u64(1000).to_be_bytes(), thousand());
    let mut one = [0u8; 32];
    one[31] = 1;
    assert_eq!(U256::from_u64(1).to_be_bytes(), one);
    let bytes = U256::from_limbs([
        0x1817_1615_1413_1211,
        0x2827_2625_2423_2221,
        0x3837_3635_3433_3231,
        0x4847_4645_4443_4241,
    ])
    .to_be_bytes();
    let expected: Vec<u8> = [0x48u8, 0x38, 0x28, 0x18]
        .iter()
        .flat_map(|high| (0..8u8).map(move |i| high - i))
        .collect();
    assert_eq!(bytes.to_vec(), expected);
    assert_eq!(U256::from_limbs([u64::MAX; 4]).to_be_bytes(), [0xffu8; 32]);
}

#[test]
fn u256_bytes_agree_with_the_abi_encoder() {
    for limbs in [
        [0u64, 0, 0, 0],
        [1000, 0, 0, 0],
        [u64::MAX, 0, 0, 1],
        [
            0x0102_0304_0506_0708,
            0x1112_1314_1516_1718,
            0x2122_2324_2526_2728,
            0x8182_8384_8586_8788,
        ],
        [u64::MAX; 4],
    ] {
        let outside = alloy_primitives::U256::from_limbs(limbs);
        assert_eq!(U256::from_limbs(limbs).to_be_bytes(), outside.to_be_bytes::<32>());
        assert_eq!(
            U256::from_limbs(limbs).to_be_bytes().to_vec(),
            <sol_data::Uint<256> as SolType>::abi_encode(&outside)
        );
    }
}

#[test]
fn u256_from_u64_has_one_limb() {
    assert_eq!(U256::from_u64(1000).into_limbs(), [1000, 0, 0, 0]);
    assert_eq!(U256::from_u64(u64::MAX), U256::from_limbs([u64::MAX, 0, 0, 0]));
    assert_ne!(U256::from_u64(1), U256::from_limbs([0, 1, 0, 0]));
    assert_eq!(U256::zero(), U256::from_u64(0));
}

#[test]
fn write_topics_fills_the_first_two_words() {
    let mut out = [[0x11u8; 32]; 4];
    assert_eq!(write_topics(SELECTOR, sender(), &mut out), Ok(()));
    assert_eq!(out[0], SELECTOR);
    assert_eq!(out[1], padded_sender());
    assert_eq!(out[2], [0x11u8; 32]);
    assert_eq!(out[3], [0x11u8; 32]);
}

#[test]
fn write_topics_takes_any_selector() {
    let mut out = [[0u8; 32]; 2];
    assert_eq!(write_topics([0x5a; 32], Address::zero(), &mut out), Ok(()));
    assert_eq!(out, [[0x5a; 32], [0u8; 32]]);
}

#[test]
fn write_topics_rejects_a_short_buffer() {
    let mut none: [[u8; 32]; 0] = [];
    assert_eq!(write_topics(SELECTOR, sender(), &mut none), Err(EncodeError::Overrun));
    let mut one = [[0x11u8; 32]; 1];
    assert_eq!(write_topics(SELECTOR, sender(), &mut one), Err(EncodeError::Overrun));
    assert_eq!(one, [[0x11u8; 32]; 1]);
}

#[test]
fn encode_topics_raw_rejects_a_short_buffer() {
    let event = EmitMe { sender: sender(), value: U256::from_u64(1000) };
    let mut empty: Vec<[u8; 32]> = Vec::new();
    assert_eq!(event.encode_topics_raw(&mut empty), Err(EncodeError::Overrun));
    assert!(empty.is_empty());
    let mut one = vec![[0x22u8; 32]];
    assert_eq!(event.encode_topics_raw(&mut one), Err(EncodeError::Overrun));
    assert_eq!(one, vec![[0x22u8; 32]]);
}

#[test]
fn encode_topics_raw_writes_selector_and_sender() {
    let event = EmitMe { sender: sender(), value: U256::from_u64(1000) };
    let mut out = vec![[0u8; 32]; TOPIC_COUNT];
    assert_eq!(event.encode_topics_raw(&mut out), Ok(()));
    assert_eq!(out, vec![SELECTOR, padded_sender()]);
    let mut wide = vec![[0x33u8; 32]; 3];
    assert_eq!(event.encode_topics_raw(&mut wide), Ok(()));
    assert_eq!(wide, vec![SELECTOR, padded_sender(), [0x33u8; 32]]);
}

#[test]
fn encode_data_is_the_value_in_one_word() {
    let event = EmitMe { sender: sender(), value: U256::from_u64(1000) };
    assert_eq!(event.encode_data(), thousand().to_vec());
    let large = EmitMe { sender: sender(), value: U256::from_limbs([0, 0, 0, 1 << 63]) };
    let mut expected = vec![0u8; 32];
    expected[0] = 0x80;
    assert_eq!(large.encode_data(), expected);
}

#[test]
fn emit_my_event_hands_the_host_one_record() {
    let program = StylusPrimitivesDemo::new();
    let mut host = Host::new(sender(), U256::from_u64(1000), Address::zero(), Address::zero(), 1);
    assert_eq!(host.num_logs(), 0);
    assert_eq!(program.emit_my_event(&mut host), Ok(()));
    assert_eq!(host.num_logs(), 1);
    assert!(host.log(1).is_none());
    let log = host.log(0).expect("one record was handed over");
    assert_eq!(log.num_topics, 2);
    assert_eq!(log.num_topics, TOPIC_COUNT);
    assert_eq!(log.payload.len(), 96);
    assert_eq!(log.payload[..32], SELECTOR);
    assert_eq!(log.payload[32..64], padded_sender());
    assert_eq!(log.payload[64..], thousand());
}

#[test]
fn emit_my_event_with_no_value_attached() {
    let program = StylusPrimitivesDemo::with_owner(sender());
    let mut host = Host::new(Address::zero(), U256::zero(), sender(), sender(), 1);
    assert_eq!(program.emit_my_event(&mut host), Ok(()));
    let mut expected = SELECTOR.to_vec();
    expected.extend_from_slice(&[0u8; 64]);
    assert_eq!(
        host.log(0),
        Some(&EmittedLog { payload: expected, num_topics: 2 })
    );
}

#[test]
fn emit_my_event_changes_nothing_but_the_logs() {
    let program = StylusPrimitivesDemo::with_owner(Address::new([9; 20]));
    let this = Address::new([7; 20]);
    let mut host = Host::new(sender(), U256::from_u64(1), this, Address::new([8; 20]), 3);
    host.set_balance(this, U256::from_u64(55));
    assert!(program.emit_my_event(&mut host).is_ok());
    assert_eq!(program.get_owner(), Address::new([9; 20]));
    assert_eq!(host.msg_sender(), sender());
    assert_eq!(host.msg_value(), U256::from_u64(1));
    assert_eq!(host.contract_address(), this);
    assert_eq!(host.tx_origin(), Address::new([8; 20]));
    assert_eq!(host.tx_ink_price(), 3);
    assert_eq!(host.balance(this), U256::from_u64(55));
}

#[test]
fn emit_my_event_twice_hands_over_two_records_in_order() {
    let program = StylusPrimitivesDemo::new();
    let mut host = Host::new(sender(), U256::from_u64(1000), Address::zero(), Address::zero(), 1);
    host.emit_log(vec![1, 2, 3], 0);
    assert_eq!(program.emit_my_event(&mut host), Ok(()));
    assert_eq!(program.emit_my_event(&mut host), Ok(()));
    assert_eq!(host.num_logs(), 3);
    assert_eq!(host.log(0), Some(&EmittedLog { payload: vec![1, 2, 3], num_topics: 0 }));
    assert_eq!(host.log(1), host.log(2));
    assert_eq!(host.log(1).unwrap().payload.len(), 96);
    assert!(host.log(3).is_none());
}

#[test]
fn emitted_record_agrees_with_the_abi_encoder() {
    let program = StylusPrimitivesDemo::new();
    let value = U256::from_limbs([5, 6, 7, 8]);
    let mut host = Host::new(sender(), value, Address::zero(), Address::zero(), 1);
    assert_eq!(program.emit_my_event(&mut host), Ok(()));
    let topic = <sol_data::Address as EventTopic>::encode_topic(&alloy_primitives::Address::new(
        sender().into_array(),
    ));
    let data = <sol_data::Uint<256> as SolType>::abi_encode(&alloy_primitives::U256::from_limbs(
        [5, 6, 7, 8],
    ));
    let mut expected = alloy_primitives::keccak256("EmitMe(address,uint256)").0.to_vec();
    expected.extend_from_slice(&topic.0 .0);
    expected.extend_from_slice(&data);
    assert_eq!(host.log(0).unwrap().payload, expected);
    assert_eq!(host.log(0).unwrap().num_topics, 2);
}

#[test]
fn payload_is_topics_then_data() {
    let event = EmitMe { sender: sender(), value: U256::from_u64(1000) };
    let mut topics = vec![[0u8; 32]; TOPIC_COUNT];
    assert_eq!(event.encode_topics_raw(&mut topics), Ok(()));
    let log = LogRecord { topics, data: event.encode_data() };
    let payload = log.payload();
    assert_eq!(payload.len(), 96);
    assert_eq!(payload[..32], SELECTOR);
    assert_eq!(payload[32..64], padded_sender());
    assert_eq!(payload[64..], thousand());
    assert_eq!(payload.len(), 32 * log.num_topics() + log.data.len());
}

#[test]
fn payload_of_other_records() {
    let empty = LogRecord { topics: Vec::new(), data: Vec::new() };
    assert_eq!(empty.payload(), Vec::<u8>::new());
    assert_eq!(empty.num_topics(), 0);
    let only_data = LogRecord { topics: Vec::new(), data: vec![1, 2, 3] };
    assert_eq!(only_data.payload(), vec![1, 2, 3]);
    let mixed = LogRecord { topics: vec![[7u8; 32], [8u8; 32], [9u8; 32]], data: vec![0xaa] };
    let mut expected = vec![7u8; 32];
    expected.extend_from_slice(&[8u8; 32]);
    expected.extend_from_slice(&[9u8; 32]);
    expected.push(0xaa);
    assert_eq!(mixed.payload(), expected);
    assert_eq!(mixed.num_topics(), 3);
}
