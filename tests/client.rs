use cita_tool::client::{
    block_number_from_response, block_number_params, metadata_params, parse_hex_u64, remove_0x,
    ChainIdStep, Client, PrivKey, TxError,
};
use cita_tool::rpc::{
    gather_responses, DispatchError, JsonRpcParams, JsonRpcResponse, ParamsValue, ResponseBody,
    ResponseValue, RpcError,
};
use cita_tool::transaction::{parse_envelope, parse_transaction, Transaction, UnverifiedTransaction};

fn key() -> PrivKey {
    PrivKey { bytes: [7u8; 32] }
}

fn client_at(id: u64) -> Client {
    let mut c = Client::new();
    for _ in 0..id {
        c.next_id();
    }
    c
}

fn ok_response(id: u64) -> Result<JsonRpcResponse, DispatchError> {
    Ok(JsonRpcResponse {
        id,
        body: ResponseBody::Result(ResponseValue::Single(ParamsValue::Int(id))),
    })
}

fn method(name: &str) -> JsonRpcParams {
    JsonRpcParams::new().insert("method", ParamsValue::String(name.to_string()))
}

fn text_of(p: &JsonRpcParams, key: &str) -> String {
    match p.get(key) {
        Some(ParamsValue::String(s)) => s.clone(),
        _ => panic!("no text under {}", key),
    }
}

fn int_of(p: &JsonRpcParams, key: &str) -> u64 {
    match p.get(key) {
        Some(ParamsValue::Int(n)) => *n,
        _ => panic!("no number under {}", key),
    }
}

fn metadata(entries: Vec<(String, ParamsValue)>) -> JsonRpcResponse {
    JsonRpcResponse {
        id: 1,
        body: ResponseBody::Result(ResponseValue::Object(JsonRpcParams { entries })),
    }
}

#[test]
fn ids_follow_one_another_from_five() {
    let mut c = client_at(5);
    let urls = vec!["http://a".to_string()];
    let mut ids = Vec::new();
    for _ in 0..3 {
        let reqs = c.make_requests_with_all_url(&urls, &method("net_peerCount"));
        ids.push(reqs[0].id);
        assert_eq!(int_of(&reqs[0].body, "id"), reqs[0].id);
    }
    assert_eq!(ids, vec![6, 7, 8]);
    assert_eq!(c.request_id(), 8);
}

#[test]
fn broadcast_gives_one_request_per_endpoint_in_order() {
    let mut c = Client::new();
    let urls = vec!["http://a".to_string(), "http://b".to_string(), "http://c".to_string()];
    let params = method("cita_blockNumber")
        .insert("params", ParamsValue::List(vec![ParamsValue::String("latest".to_string())]));
    let reqs = c.make_requests_with_all_url(&urls, &params);
    assert_eq!(reqs.len(), 3);
    for (i, r) in reqs.iter().enumerate() {
        assert_eq!(r.url, urls[i]);
        assert_eq!(r.id, i as u64 + 1);
        assert_eq!(r.body.entries.len(), 3);
        assert_eq!(text_of(&r.body, "method"), "cita_blockNumber");
        assert_eq!(int_of(&r.body, "id"), i as u64 + 1);
        assert!(matches!(r.body.get("params"), Some(ParamsValue::List(l))
            if l.len() == 1 && matches!(&l[0], ParamsValue::String(s) if s == "latest")));
    }
    assert_eq!(c.request_id(), 3);
}

#[test]
fn params_list_goes_to_one_endpoint() {
    let mut c = client_at(10);
    let params = vec![method("a"), method("b").insert("id", ParamsValue::Int(99))];
    let reqs = c.make_requests_with_params_list("http://node", params);
    assert_eq!(reqs.len(), 2);
    assert_eq!(reqs[0].url, "http://node");
    assert_eq!(reqs[1].url, "http://node");
    assert_eq!((reqs[0].id, reqs[1].id), (11, 12));
    assert_eq!(text_of(&reqs[0].body, "method"), "a");
    assert_eq!(int_of(&reqs[0].body, "id"), 11);
    assert_eq!(text_of(&reqs[1].body, "method"), "b");
    assert_eq!(int_of(&reqs[1].body, "id"), 12);
    assert_eq!(reqs[1].body.entries.len(), 2);
}

#[test]
fn params_list_from_five_gives_six_seven_eight() {
    let mut c = client_at(5);
    let params = vec![method("p0"), method("p1"), method("p2")];
    let reqs = c.make_requests_with_params_list("http://node", params);
    let got: Vec<(u64, String)> =
        reqs.iter().map(|r| (int_of(&r.body, "id"), text_of(&r.body, "method"))).collect();
    assert_eq!(
        got,
        vec![(6, "p0".to_string()), (7, "p1".to_string()), (8, "p2".to_string())]
    );
    assert_eq!(c.request_id(), 8);
}

#[test]
fn gathered_responses_keep_input_order() {
    let results = vec![ok_response(3), ok_response(1), ok_response(2)];
    let out = gather_responses(results).ok().unwrap();
    let ids: Vec<u64> = out.iter().map(|r| r.id).collect();
    assert_eq!(ids, vec![3, 1, 2]);
}

#[test]
fn one_failure_fails_the_batch() {
    let results = vec![ok_response(1), Err(DispatchError::Decode), Err(DispatchError::Transport)];
    assert!(matches!(gather_responses(results), Err(DispatchError::Decode)));
    let results = vec![Err(DispatchError::Transport), ok_response(2)];
    assert!(matches!(gather_responses(results), Err(DispatchError::Transport)));
}

#[test]
fn empty_batch_gives_no_responses() {
    assert_eq!(gather_responses(Vec::new()).ok().unwrap().len(), 0);
}

#[test]
fn build_transaction_fills_the_record() {
    let c = Client::new().set_chain_id(1).set_private_key(key());
    let t = c.build_transaction("deadbeef", String::new(), 100, "ab".to_string()).ok().unwrap();
    assert_eq!(t.valid_until_block, 188);
    assert_eq!(t.quota, 1000000);
    assert_eq!(t.chain_id, 1);
    assert_eq!(t.to, "");
    assert_eq!(t.data, vec![0xde, 0xad, 0xbe, 0xef]);
    assert_eq!(t.nonce, "ab");
}

#[test]
fn generated_transactions_differ_only_in_nonce() {
    let mut c = Client::new().set_chain_id(1).set_private_key(key());
    let a = c.generate_transaction("deadbeef", String::new(), 100).ok().unwrap();
    let b = c.generate_transaction("deadbeef", String::new(), 100).ok().unwrap();
    assert_eq!(a.nonce.len(), 32);
    assert_eq!(&a.nonce[12..13], "4");
    assert!(matches!(&a.nonce[16..17], "8" | "9" | "a" | "b"));
    assert!(a.nonce.chars().all(|ch| ch.is_ascii_hexdigit() && !ch.is_ascii_uppercase()));
    assert_ne!(a.nonce, b.nonce);
    assert_eq!((a.valid_until_block, a.quota, a.chain_id), (188, 1000000, 1));
    assert_eq!((b.valid_until_block, b.quota, b.chain_id), (188, 1000000, 1));
    let sa = a.seal(vec![1, 2]);
    let sb = b.seal(vec![1, 2]);
    assert_ne!(sa, sb);
}

#[test]
fn missing_chain_id_is_an_error() {
    let mut c = Client::new().set_private_key(key());
    assert_eq!(
        c.generate_transaction("deadbeef", String::new(), 100).err(),
        Some(TxError::MissingChainId)
    );
}

#[test]
fn missing_private_key_is_an_error() {
    let mut c = Client::new().set_chain_id(1);
    assert_eq!(
        c.generate_transaction("deadbeef", String::new(), 100).err(),
        Some(TxError::MissingPrivateKey)
    );
}

#[test]
fn bad_payload_is_an_error() {
    let c = Client::new().set_chain_id(1).set_private_key(key());
    for bad in ["abc", "zz", "0x12"] {
        assert_eq!(
            c.build_transaction(bad, String::new(), 1, "n".to_string()).err(),
            Some(TxError::InvalidPayload)
        );
    }
    assert!(c.build_transaction("DEADbeef", String::new(), 1, "n".to_string()).is_ok());
}

#[test]
fn sealed_envelope_has_the_wire_form() {
    let t = Transaction {
        to: String::new(),
        nonce: "ab".to_string(),
        quota: 1000000,
        valid_until_block: 188,
        data: vec![0xde, 0xad, 0xbe, 0xef],
        chain_id: 1,
    };
    assert_eq!(
        t.seal(vec![1, 2]),
        "0a131202616218c0843d20bc012a04deadbeef300112020102"
    );
}

#[test]
fn envelope_bytes_carry_the_fields() {
    let t = Transaction {
        to: "ff".to_string(),
        nonce: String::new(),
        quota: 0,
        valid_until_block: 1,
        data: Vec::new(),
        chain_id: 300,
    };
    assert_eq!(t.write_to_bytes(), vec![0x0a, 0x02, b'f', b'f', 0x20, 0x01, 0x30, 0xac, 0x02]);
    let u = UnverifiedTransaction { transaction: t, signature: Vec::new(), crypto: 1 };
    let mut expected = vec![0x0a, 0x09, 0x0a, 0x02, b'f', b'f', 0x20, 0x01, 0x30, 0xac, 0x02];
    expected.extend_from_slice(&[0x18, 0x01]);
    assert_eq!(u.write_to_bytes(), expected);
}

#[test]
fn cached_chain_id_needs_no_query() {
    let mut c = Client::new().set_chain_id(9);
    assert!(matches!(c.get_chain_id("http://n"), ChainIdStep::Known(9)));
    assert!(matches!(c.get_chain_id("http://n"), ChainIdStep::Known(9)));
    assert_eq!(c.request_id(), 0);
}

#[test]
fn chain_id_is_queried_once_then_cached() {
    let mut c = Client::new();
    match c.get_chain_id("http://n") {
        ChainIdStep::Query(q) => {
            assert_eq!(q.url, "http://n");
            assert_eq!(q.id, 1);
            assert_eq!(text_of(&q.body, "method"), "cita_getMetaData");
            assert_eq!(int_of(&q.body, "id"), 1);
            assert!(matches!(q.body.get("params"), Some(ParamsValue::List(l)) if l.len() == 1));
        }
        ChainIdStep::Known(_) => panic!("nothing was cached"),
    }
    let resp = metadata(vec![("chainId".to_string(), ParamsValue::Int(5))]);
    assert_eq!(c.accept_metadata(&resp), 5);
    assert!(matches!(c.get_chain_id("http://n"), ChainIdStep::Known(5)));
    assert_eq!(c.request_id(), 1);
}

#[test]
fn metadata_without_chain_id_gives_zero() {
    let mut c = Client::new();
    let resp = metadata(vec![("genesisTimestamp".to_string(), ParamsValue::Int(5))]);
    assert_eq!(c.accept_metadata(&resp), 0);
    assert_eq!(c.chain_id(), None);
    let resp = metadata(vec![("chainId".to_string(), ParamsValue::String("5".to_string()))]);
    assert_eq!(c.accept_metadata(&resp), 0);
    let err = JsonRpcResponse {
        id: 1,
        body: ResponseBody::Error(RpcError { code: -32601, message: "no".to_string() }),
    };
    assert_eq!(c.accept_metadata(&err), 0);
    assert_eq!(c.chain_id(), None);
}

#[test]
fn chain_id_past_u32_keeps_its_low_bits() {
    let mut c = Client::new();
    let resp = metadata(vec![("chainId".to_string(), ParamsValue::Int((1u64 << 32) + 3))]);
    assert_eq!(c.accept_metadata(&resp), 3);
    assert_eq!(c.chain_id(), Some(3));
    let resp = metadata(vec![("chainId".to_string(), ParamsValue::Int(u32::MAX as u64))]);
    assert_eq!(c.accept_metadata(&resp), u32::MAX);
}

#[test]
fn query_parameter_sets() {
    let m = metadata_params();
    assert_eq!(m.entries.len(), 2);
    assert_eq!(text_of(&m, "method"), "cita_getMetaData");
    let b = block_number_params();
    assert_eq!(b.entries.len(), 1);
    assert_eq!(text_of(&b, "method"), "cita_blockNumber");
}

#[test]
fn height_past_u64_is_an_error() {
    let c = Client::new().set_chain_id(1).set_private_key(key());
    assert_eq!(
        c.build_transaction("00", String::new(), u64::MAX - 87, "n".to_string()).err(),
        Some(TxError::HeightOverflow)
    );
    let t = c.build_transaction("00", String::new(), u64::MAX - 88, "n".to_string()).ok().unwrap();
    assert_eq!(t.valid_until_block, u64::MAX);
}

#[test]
fn params_insert_replaces_or_appends() {
    let p = JsonRpcParams::new()
        .insert("method", ParamsValue::String("a".to_string()))
        .insert("id", ParamsValue::Int(1))
        .insert("method", ParamsValue::String("b".to_string()));
    assert_eq!(p.entries.len(), 2);
    assert_eq!(p.entries[0].0, "method");
    assert!(matches!(p.get("method"), Some(ParamsValue::String(s)) if s == "b"));
    assert!(matches!(p.get("id"), Some(ParamsValue::Int(1))));
    assert!(p.get("params").is_none());
}

#[test]
fn private_key_is_kept() {
    let c = Client::new().set_private_key(key());
    assert_eq!(c.private_key().bytes, [7u8; 32]);
}

#[test]
fn remove_0x_strips_only_the_prefix() {
    assert_eq!(remove_0x("0x1f".to_string()), "1f");
    assert_eq!(remove_0x("1f".to_string()), "1f");
    assert_eq!(remove_0x("0".to_string()), "0");
    assert_eq!(remove_0x("".to_string()), "");
    assert_eq!(remove_0x("x0x".to_string()), "x0x");
}

#[test]
fn hex_numbers_parse() {
    assert_eq!(parse_hex_u64("1f"), Some(31));
    assert_eq!(parse_hex_u64("FF"), Some(255));
    assert_eq!(parse_hex_u64("ffffffffffffffff"), Some(u64::MAX));
    assert_eq!(parse_hex_u64("10000000000000000"), None);
    assert_eq!(parse_hex_u64(""), None);
    assert_eq!(parse_hex_u64("1g"), None);
}

#[test]
fn block_number_comes_from_a_hex_string_result() {
    let resp = |v: ParamsValue| JsonRpcResponse {
        id: 1,
        body: ResponseBody::Result(ResponseValue::Single(v)),
    };
    assert_eq!(block_number_from_response(&resp(ParamsValue::String("0x64".to_string()))), Some(100));
    assert_eq!(block_number_from_response(&resp(ParamsValue::String("64".to_string()))), Some(100));
    assert_eq!(block_number_from_response(&resp(ParamsValue::Int(100))), None);
    assert_eq!(block_number_from_response(&resp(ParamsValue::String("0x".to_string()))), None);
}

#[test]
fn sealed_transaction_reads_back() {
    let mut c = Client::new().set_chain_id(1).set_private_key(key());
    let t = c.generate_transaction("deadbeef", "0a1b".to_string(), 100).ok().unwrap();
    let nonce = t.nonce.clone();
    let text = t.seal(vec![9, 8, 7]);
    let u = UnverifiedTransaction::from_hex(&text).unwrap();
    assert_eq!(u.transaction.to, "0a1b");
    assert_eq!(u.transaction.data, vec![0xde, 0xad, 0xbe, 0xef]);
    assert_eq!(u.transaction.chain_id, 1);
    assert_eq!(u.transaction.nonce, nonce);
    assert_eq!(u.transaction.quota, 1000000);
    assert_eq!(u.transaction.valid_until_block, 188);
    assert_eq!(u.signature, vec![9, 8, 7]);
    assert_eq!(u.crypto, 0);
}

#[test]
fn contract_creation_reads_back_with_empty_recipient() {
    let c = Client::new().set_chain_id(7).set_private_key(key());
    let t = c.build_transaction("", String::new(), 0, "ab".to_string()).ok().unwrap();
    let u = UnverifiedTransaction::from_hex(&t.seal(Vec::new())).unwrap();
    assert_eq!(u.transaction.to, "");
    assert!(u.transaction.data.is_empty());
    assert_eq!(u.transaction.chain_id, 7);
    assert_eq!(u.transaction.valid_until_block, 88);
}

#[test]
fn malformed_envelopes_are_rejected() {
    assert!(UnverifiedTransaction::from_hex("0a1").is_none());
    assert!(UnverifiedTransaction::from_hex("zz").is_none());
    // Length prefix runs past the end.
    assert!(parse_envelope(&[0x0a, 0x05, 0x30]).is_none());
    // Trailing bytes of no field.
    assert!(parse_transaction(&[0x30, 0x01, 0x00]).is_none());
    // Chain id past u32.
    assert!(parse_transaction(&[0x30, 0x80, 0x80, 0x80, 0x80, 0x10]).is_none());
    // Recipient that is not UTF-8.
    assert!(parse_transaction(&[0x0a, 0x01, 0xff]).is_none());
    assert_eq!(parse_transaction(&[0x30, 0xac, 0x02]).unwrap().chain_id, 300);
    assert!(parse_envelope(&[]).is_some());
}
