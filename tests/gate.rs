use policy_gate::address::canonicalize;
use policy_gate::contract::{build_payload, Contract, SIGNING_COST};
use policy_gate::decode::decode_raw_transaction;
use policy_gate::error::{Decision, GateError, RejectReason};
use policy_gate::whitelist::Whitelist;

fn p2pkh(fill: &str) -> String {
    format!("76a914{}88ac", fill.repeat(20))
}

fn p2wpkh(fill: &str) -> String {
    format!("0014{}", fill.repeat(20))
}

fn data_carrier() -> String {
    "6a04deadbeef".to_string()
}

fn output_hex(amount: u64, script: &str) -> String {
    format!("{:016x}{:02x}{}", amount.swap_bytes(), script.len() / 2, script)
}

fn legacy_tx(outputs: &[(u64, String)]) -> String {
    let mut s = String::from("01000000");
    s.push_str("01");
    s.push_str(&"ab".repeat(32));
    s.push_str("00000000");
    s.push_str("00");
    s.push_str("ffffffff");
    s.push_str(&format!("{:02x}", outputs.len()));
    for (amount, script) in outputs {
        s.push_str(&output_hex(*amount, script));
    }
    s.push_str("00000000");
    s
}

fn gate_with(addresses: &[String]) -> Contract {
    let mut c = Contract::new();
    for a in addresses {
        c.add_to_whitelist(a.clone());
    }
    c
}

fn decide(c: &Contract, raw: &str) -> Decision {
    let d = decode_raw_transaction(raw).expect("decodes");
    c.validate_outputs(&d)
}

#[test]
fn threshold_boundary_non_whitelisted_fifty_admits() {
    let c = gate_with(&[p2pkh("11")]);
    let raw = legacy_tx(&[(950, p2pkh("11")), (50, p2wpkh("22"))]);
    assert_eq!(decide(&c, &raw), Decision::Admit);
}

#[test]
fn threshold_boundary_non_whitelisted_fifty_one_rejects() {
    let c = gate_with(&[p2pkh("11")]);
    let raw = legacy_tx(&[(949, p2pkh("11")), (51, p2wpkh("22"))]);
    assert_eq!(
        decide(&c, &raw),
        Decision::Reject(RejectReason::ThresholdExceeded { non_whitelisted: 51, total: 1000 })
    );
}

#[test]
fn threshold_boundary_scales_exactly() {
    let c = gate_with(&[p2pkh("11")]);
    for k in [1u64, 2, 7, 1000, 1_000_000_007] {
        let at = legacy_tx(&[(19 * k, p2pkh("11")), (k, p2wpkh("22"))]);
        assert_eq!(decide(&c, &at), Decision::Admit);
        let past = legacy_tx(&[(19 * k - 1, p2pkh("11")), (k + 1, p2wpkh("22"))]);
        assert_eq!(
            decide(&c, &past),
            Decision::Reject(RejectReason::ThresholdExceeded {
                non_whitelisted: (k + 1) as u128,
                total: (20 * k) as u128
            })
        );
    }
}

#[test]
fn most_value_off_the_whitelist_rejects() {
    let c = gate_with(&[p2pkh("11")]);
    let raw = legacy_tx(&[(50, p2pkh("11")), (950, p2wpkh("22"))]);
    assert_eq!(
        decide(&c, &raw),
        Decision::Reject(RejectReason::ThresholdExceeded { non_whitelisted: 950, total: 1000 })
    );
}

#[test]
fn zero_destination_output_with_value_rejects() {
    let c = gate_with(&[p2pkh("11")]);
    let raw = legacy_tx(&[(100, data_carrier()), (5000, p2pkh("11"))]);
    assert_eq!(decide(&c, &raw), Decision::Reject(RejectReason::UnresolvedDestination));
}

#[test]
fn zero_destination_output_without_value_is_ignored() {
    let c = gate_with(&[p2pkh("11")]);
    let raw = legacy_tx(&[(0, data_carrier()), (5000, p2pkh("11"))]);
    assert_eq!(decide(&c, &raw), Decision::Admit);
}

#[test]
fn all_whitelisted_admits() {
    let c = gate_with(&[p2pkh("11"), p2wpkh("22")]);
    let raw = legacy_tx(&[(7, p2pkh("11")), (9, p2wpkh("22"))]);
    assert_eq!(decide(&c, &raw), Decision::Admit);
}

#[test]
fn all_non_whitelisted_rejects() {
    let c = gate_with(&[]);
    let raw = legacy_tx(&[(7, p2pkh("11")), (9, p2wpkh("22"))]);
    assert_eq!(
        decide(&c, &raw),
        Decision::Reject(RejectReason::ThresholdExceeded { non_whitelisted: 16, total: 16 })
    );
}

#[test]
fn zero_value_transaction_rejects() {
    let c = gate_with(&[]);
    let raw = legacy_tx(&[(0, p2pkh("11"))]);
    assert_eq!(decide(&c, &raw), Decision::Reject(RejectReason::EmptyValueTransaction));
}

#[test]
fn large_amounts_do_not_overflow() {
    let c = gate_with(&[p2pkh("11")]);
    let raw = legacy_tx(&[(u64::MAX, p2pkh("11")), (u64::MAX, p2wpkh("22"))]);
    assert_eq!(
        decide(&c, &raw),
        Decision::Reject(RejectReason::ThresholdExceeded {
            non_whitelisted: u64::MAX as u128,
            total: 2 * (u64::MAX as u128)
        })
    );
}

#[test]
fn large_amounts_at_the_boundary_admit() {
    let c = gate_with(&[p2pkh("11")]);
    let mut outputs: Vec<(u64, String)> = (0..19).map(|_| (u64::MAX, p2pkh("11"))).collect();
    outputs.push((u64::MAX, p2wpkh("22")));
    assert_eq!(decide(&c, &legacy_tx(&outputs)), Decision::Admit);
    outputs[0].0 = u64::MAX - 1;
    assert_eq!(
        decide(&c, &legacy_tx(&outputs)),
        Decision::Reject(RejectReason::ThresholdExceeded {
            non_whitelisted: u64::MAX as u128,
            total: 20 * (u64::MAX as u128) - 1
        })
    );
}

#[test]
fn deposit_one_below_cost_rejects() {
    let c = gate_with(&[p2pkh("11")]);
    let raw = legacy_tx(&[(1000, p2pkh("11"))]);
    let r = c.process_transaction(raw, "m/0".to_string(), 0, SIGNING_COST - 1);
    assert_eq!(r.err(), Some(GateError::InsufficientDeposit));
}

#[test]
fn deposit_equal_to_cost_passes() {
    let c = gate_with(&[p2pkh("11")]);
    let raw = legacy_tx(&[(1000, p2pkh("11"))]);
    let r = c.process_transaction(raw, "m/0".to_string(), 3, SIGNING_COST).expect("passes");
    assert_eq!(r.path, "m/0");
    assert_eq!(r.key_version, 3);
}

#[test]
fn policy_is_checked_before_deposit() {
    let c = gate_with(&[]);
    let raw = legacy_tx(&[(1000, p2pkh("11"))]);
    let r = c.process_transaction(raw, "m/0".to_string(), 0, 0);
    assert_eq!(
        r.err(),
        Some(GateError::PolicyRejected(RejectReason::ThresholdExceeded {
            non_whitelisted: 1000,
            total: 1000
        }))
    );
}

#[test]
fn payload_is_deterministic() {
    let c = gate_with(&[p2pkh("11")]);
    let raw = legacy_tx(&[(1000, p2pkh("11"))]);
    let a = c.process_transaction(raw.clone(), "p".to_string(), 0, SIGNING_COST).unwrap();
    let b = c.process_transaction(raw, "p".to_string(), 0, SIGNING_COST).unwrap();
    assert_eq!(a.payload, b.payload);
}

#[test]
fn payload_differs_with_one_amount() {
    let c = gate_with(&[p2pkh("11")]);
    let a = c
        .process_transaction(legacy_tx(&[(1000, p2pkh("11"))]), "p".to_string(), 0, SIGNING_COST)
        .unwrap();
    let b = c
        .process_transaction(legacy_tx(&[(1001, p2pkh("11"))]), "p".to_string(), 0, SIGNING_COST)
        .unwrap();
    assert_ne!(a.payload, b.payload);
}

#[test]
fn payload_is_the_keccak_digest_of_the_bytes() {
    let mut d = decode_raw_transaction(&legacy_tx(&[(1, p2pkh("11"))])).unwrap();
    d.bytes = Vec::new();
    assert_eq!(
        hex::encode(build_payload(&d)),
        "c5d2460186f7233c927e7db2dcc703c0e500b653ca82273b7bfad8045d85a470"
    );
    d.bytes = b"abc".to_vec();
    assert_eq!(
        hex::encode(build_payload(&d)),
        "4e03657aea45a94fc7d47ba826c8d667c0d1e6e33a64a036ec44f58fa12d6c45"
    );
}

#[test]
fn odd_length_hex_rejects() {
    let raw = legacy_tx(&[(1, p2pkh("11"))]);
    assert_eq!(decode_raw_transaction(&raw[1..]).err(), Some(GateError::DecodeError));
}

#[test]
fn non_hex_character_rejects() {
    let mut raw = legacy_tx(&[(1, p2pkh("11"))]);
    raw.replace_range(0..2, "zz");
    assert_eq!(decode_raw_transaction(&raw).err(), Some(GateError::DecodeError));
}

#[test]
fn upper_case_hex_decodes() {
    let raw = legacy_tx(&[(1, p2pkh("ab"))]).to_uppercase();
    let d = decode_raw_transaction(&raw).unwrap();
    assert_eq!(d.outputs[0].destinations, vec![p2pkh("ab")]);
}

#[test]
fn decoded_fields_match_the_bytes() {
    let raw = legacy_tx(&[(950, p2pkh("11")), (50, p2wpkh("22")), (0, data_carrier())]);
    let d = decode_raw_transaction(&raw).unwrap();
    assert_eq!(d.tx.version, 1);
    assert_eq!(d.tx.lock_time, 0);
    assert!(!d.tx.segwit);
    assert_eq!(d.tx.inputs.len(), 1);
    assert_eq!(d.tx.inputs[0].prev_txid, vec![0xab; 32]);
    assert_eq!(d.tx.inputs[0].sequence, 0xffff_ffff);
    assert_eq!(d.outputs.len(), 3);
    assert_eq!(d.outputs[0].amount, 950);
    assert_eq!(d.outputs[1].amount, 50);
    assert_eq!(d.outputs[2].index, 2);
    assert_eq!(d.outputs[1].destinations, vec![p2wpkh("22")]);
    assert!(d.outputs[2].destinations.is_empty());
    assert_eq!(d.bytes, hex::decode(&raw).unwrap());
}

#[test]
fn zero_outputs_reject() {
    let raw = legacy_tx(&[]);
    assert_eq!(decode_raw_transaction(&raw).err(), Some(GateError::DecodeError));
}

#[test]
fn truncated_transaction_rejects() {
    let raw = legacy_tx(&[(1, p2pkh("11"))]);
    assert_eq!(decode_raw_transaction(&raw[..raw.len() - 2]).err(), Some(GateError::DecodeError));
}

#[test]
fn trailing_bytes_reject() {
    let raw = legacy_tx(&[(1, p2pkh("11"))]) + "00";
    assert_eq!(decode_raw_transaction(&raw).err(), Some(GateError::DecodeError));
}

#[test]
fn unknown_script_is_malformed() {
    let raw = legacy_tx(&[(1, "5151".to_string())]);
    assert_eq!(decode_raw_transaction(&raw).err(), Some(GateError::MalformedDestination));
}

#[test]
fn witness_form_decodes() {
    let mut s = String::from("02000000");
    s.push_str("0001");
    s.push_str("01");
    s.push_str(&"cd".repeat(32));
    s.push_str("01000000");
    s.push_str("00");
    s.push_str("feffffff");
    s.push_str("01");
    s.push_str(&output_hex(42, &p2wpkh("33")));
    s.push_str("02");
    s.push_str("03aabbcc");
    s.push_str("01dd");
    s.push_str("11223344");
    let d = decode_raw_transaction(&s).unwrap();
    assert!(d.tx.segwit);
    assert_eq!(d.tx.version, 2);
    assert_eq!(d.tx.lock_time, 0x4433_2211);
    assert_eq!(d.tx.inputs[0].prev_index, 1);
    assert_eq!(d.tx.witnesses, vec![vec![vec![0xaa, 0xbb, 0xcc], vec![0xdd]]]);
    assert_eq!(d.outputs[0].amount, 42);
    assert_eq!(
        hex::encode(d.id),
        "bb46545fd1ed176e99072a61f031c9b6dd5b860a53e93df5965a382d760a9d61"
    );
}

#[test]
fn witness_form_with_only_empty_stacks_rejects() {
    let mut s = String::from("02000000");
    s.push_str("0001");
    s.push_str("01");
    s.push_str(&"cd".repeat(32));
    s.push_str("01000000");
    s.push_str("00");
    s.push_str("feffffff");
    s.push_str("01");
    s.push_str(&output_hex(42, &p2wpkh("33")));
    s.push_str("00");
    s.push_str("00000000");
    assert_eq!(decode_raw_transaction(&s).err(), Some(GateError::DecodeError));
}

#[test]
fn non_canonical_count_rejects() {
    let mut s = String::from("01000000");
    s.push_str("fd0100");
    s.push_str(&"ab".repeat(32));
    s.push_str("00000000");
    s.push_str("00");
    s.push_str("ffffffff");
    s.push_str("01");
    s.push_str(&output_hex(1, &p2pkh("11")));
    s.push_str("00000000");
    assert_eq!(decode_raw_transaction(&s).err(), Some(GateError::DecodeError));
}

#[test]
fn canonical_address_is_the_script_in_hex() {
    let script = hex::decode(p2pkh("1f")).unwrap();
    assert_eq!(canonicalize(&script), Some(vec![p2pkh("1f")]));
    assert_eq!(canonicalize(&vec![0x6a]), Some(vec![]));
    assert_eq!(canonicalize(&vec![]), None);
}

#[test]
fn add_twice_keeps_membership() {
    let mut w = Whitelist::new();
    w.add("a".to_string());
    w.add("a".to_string());
    assert!(w.contains(&"a".to_string()));
    assert_eq!(w.list(), vec!["a".to_string()]);
}

#[test]
fn remove_twice_keeps_membership() {
    let mut w = Whitelist::new();
    w.add("a".to_string());
    w.add("b".to_string());
    w.remove(&"a".to_string());
    w.remove(&"a".to_string());
    assert!(!w.contains(&"a".to_string()));
    assert_eq!(w.list(), vec!["b".to_string()]);
}

#[test]
fn add_then_remove_round_trip() {
    let mut c = Contract::new();
    let a = p2pkh("44");
    assert!(!c.is_whitelisted(&a));
    c.add_to_whitelist(a.clone());
    assert!(c.is_whitelisted(&a));
    c.remove_from_whitelist(&a);
    assert!(!c.is_whitelisted(&a));
    assert!(c.whitelisted().is_empty());
}

fn key(fill: &str) -> String {
    format!("02{}", fill.repeat(32))
}

fn one_of_two(k1: &str, k2: &str) -> String {
    format!("5121{}21{}52ae", k1, k2)
}

#[test]
fn multisig_pays_each_key() {
    let raw = legacy_tx(&[(100, one_of_two(&key("11"), &key("22")))]);
    let d = decode_raw_transaction(&raw).unwrap();
    assert_eq!(d.outputs[0].destinations, vec![key("11"), key("22")]);
}

#[test]
fn multisig_with_one_key_off_the_whitelist_counts_in_full() {
    let c = gate_with(&[key("11")]);
    let raw = legacy_tx(&[(100, one_of_two(&key("11"), &key("22")))]);
    assert_eq!(
        decide(&c, &raw),
        Decision::Reject(RejectReason::ThresholdExceeded { non_whitelisted: 100, total: 100 })
    );
}

#[test]
fn multisig_with_every_key_whitelisted_admits() {
    let c = gate_with(&[key("11"), key("22")]);
    let raw = legacy_tx(&[(100, one_of_two(&key("11"), &key("22")))]);
    assert_eq!(decide(&c, &raw), Decision::Admit);
}

#[test]
fn multisig_with_wrong_key_count_is_malformed() {
    let script = format!("5121{}53ae", key("11"));
    let raw = legacy_tx(&[(100, script)]);
    assert_eq!(decode_raw_transaction(&raw).err(), Some(GateError::MalformedDestination));
}

#[test]
fn legacy_id_is_the_double_sha256_of_the_bytes() {
    let d = decode_raw_transaction(&legacy_tx(&[(1000, p2pkh("11"))])).unwrap();
    assert_eq!(d.tx.stripped, d.bytes);
    assert_eq!(
        hex::encode(d.id),
        "9e6c25a8fd7e076208934eb7bd7dbdd044bf9d1f272a1e0fb44d33ba48990533"
    );
}

#[test]
fn multisig_share_off_the_whitelist_counts_against_the_threshold() {
    let c = gate_with(&[key("11"), p2pkh("11")]);
    let raw = legacy_tx(&[(949, p2pkh("11")), (51, one_of_two(&key("11"), &key("22")))]);
    assert_eq!(
        decide(&c, &raw),
        Decision::Reject(RejectReason::ThresholdExceeded { non_whitelisted: 51, total: 1000 })
    );
    let raw = legacy_tx(&[(950, p2pkh("11")), (50, one_of_two(&key("11"), &key("22")))]);
    assert_eq!(decide(&c, &raw), Decision::Admit);
}
