use vstd::prelude::*;
use crate::client::{built_transaction, id_after, id_space, PendingRequest};
use crate::encoding::{bytes_of_hex, hex_of, is_hex_text, lower_hex_digit};
use crate::rpc::{
    all_ok, is_request_body, key_absent, key_at, lemma_first_key, lemma_key_at_unique, oks, DispatchError,
    JsonRpcParams, JsonRpcResponse, ParamsValue,
};
use crate::transaction::{
    envelope_bytes, len_field, read_envelope, read_len_field, read_transaction, read_varint,
    read_varint_field, starts_after, transaction_bytes, varint, varint_field, Transaction,
    UnverifiedTransaction,
};
use vstd::utf8::encode_utf8;

verus! {

/// Decoding the hex text of some bytes gives those bytes back.
pub proof fn lemma_hex_round_trip(b: Seq<u8>)
    ensures
        is_hex_text(hex_of(b)),
        bytes_of_hex(hex_of(b)) == b,
        hex_of(b).len() == 2 * b.len(),
    decreases b.len(),
{
    if b.len() > 0 {
        lemma_hex_round_trip(b.drop_last());
    }
    lemma_hex_of_index(b);
    assert(bytes_of_hex(hex_of(b)) =~= b);
}

proof fn lemma_hex_of_index(b: Seq<u8>)
    ensures
        hex_of(b).len() == 2 * b.len(),
        forall|i: int| 0 <= i < b.len() ==> {
            &&& #[trigger] hex_of(b)[2 * i] == lower_hex_digit(b[i] as int / 16)
            &&& hex_of(b)[2 * i + 1] == lower_hex_digit(b[i] as int % 16)
        },
    decreases b.len(),
{
    if b.len() > 0 {
        lemma_hex_of_index(b.drop_last());
    }
}

/// Within one batch of at most 2^64 requests, no two requests share an id:
/// the ids follow one another, wrapping at the top of `u64`.
pub proof fn lemma_batch_ids_distinct(start: u64, n: nat, i: nat, j: nat)
    requires
        i < j < n,
        n <= id_space(),
    ensures
        id_after(start, i + 1) != id_after(start, j + 1),
{
    let m = id_space();
    let a = start as nat + i + 1;
    let b = start as nat + j + 1;
    assert(a < 2 * m && b < 2 * m);
    assert(a % m == (if a < m { a } else { (a - m) as nat })) by (nonlinear_arith)
        requires a < 2 * m, m > 0;
    assert(b % m == (if b < m { b } else { (b - m) as nat })) by (nonlinear_arith)
        requires b < 2 * m, m > 0;
}

/// The responses of a batch to N endpoints come back as N responses in the
/// order of the endpoints, whatever order the network answered in: where each
/// node echoes the id of its request, the i-th response carries the id of the
/// request to the i-th endpoint.
pub proof fn lemma_responses_follow_endpoints(
    start: u64,
    urls: Seq<String>,
    plan: Seq<PendingRequest>,
    results: Seq<Result<JsonRpcResponse, DispatchError>>,
)
    requires
        plan.len() == urls.len(),
        forall|i: int|
            0 <= i < plan.len() ==> (#[trigger] plan[i]).url@ == urls[i]@ && plan[i].id
                == id_after(start, (i + 1) as nat),
        results.len() == plan.len(),
        all_ok(results),
        forall|i: int| 0 <= i < results.len() ==> (#[trigger] results[i])->Ok_0.id == plan[i].id,
    ensures
        oks(results).len() == urls.len(),
        forall|i: int|
            0 <= i < urls.len() ==> (#[trigger] oks(results)[i]).id == id_after(
                start,
                (i + 1) as nat,
            ) && oks(results)[i] == results[i]->Ok_0,
{
    assert forall|i: int| 0 <= i < urls.len() implies (#[trigger] oks(results)[i]).id == id_after(
        start,
        (i + 1) as nat,
    ) && oks(results)[i] == results[i]->Ok_0 by {
        assert(results[i]->Ok_0.id == plan[i].id);
    }
}

/// A varint reads back as the number it was written from.
pub proof fn lemma_varint_reads_back(n: nat, rest: Seq<u8>)
    ensures
        read_varint(varint(n) + rest) == Some((n, varint(n).len())),
        varint(n).len() >= 1,
    decreases n,
{
    let s = varint(n) + rest;
    if n < 128 {
        assert(s[0] == n as u8);
    } else {
        lemma_varint_reads_back(n / 128, rest);
        assert(s.drop_first() =~= varint(n / 128) + rest);
        assert(s[0] == (n % 128 + 128) as u8);
        assert((n % 128) + 128 * (n / 128) == n) by (nonlinear_arith);
    }
}

proof fn lemma_len_field_reads_back(field: u8, v: Seq<u8>, rest: Seq<u8>)
    requires
        1 <= field < 16,
        starts_after(rest, field as nat),
    ensures
        read_len_field(len_field(field, v) + rest, field) == Some((v, rest)),
        starts_after(len_field(field, v) + rest, (field - 1) as nat),
{
    reveal(read_len_field);
    let s = len_field(field, v) + rest;
    if v.len() == 0 {
        assert(s =~= rest);
        assert(v =~= Seq::<u8>::empty());
    } else {
        lemma_varint_reads_back(v.len(), v + rest);
        assert(s.drop_first() =~= varint(v.len()) + (v + rest));
        let l = varint(v.len()).len();
        assert(s.subrange((1 + l) as int, (1 + l + v.len()) as int) =~= v);
        assert(s.skip((1 + l + v.len()) as int) =~= rest);
    }
}

proof fn lemma_varint_field_reads_back(field: u8, n: nat, rest: Seq<u8>)
    requires
        1 <= field < 16,
        starts_after(rest, field as nat),
    ensures
        read_varint_field(varint_field(field, n) + rest, field) == Some((n, rest)),
        starts_after(varint_field(field, n) + rest, (field - 1) as nat),
{
    reveal(read_varint_field);
    let s = varint_field(field, n) + rest;
    if n == 0 {
        assert(s =~= rest);
    } else {
        lemma_varint_reads_back(n, rest);
        assert(s.drop_first() =~= varint(n) + rest);
        assert(s.skip((1 + varint(n).len()) as int) =~= rest);
    }
}

/// A transaction record reads back from its wire form field for field.
pub proof fn lemma_transaction_reads_back(t: Transaction)
    ensures
        read_transaction(transaction_bytes(t)) == Some(
            (
                encode_utf8(t.to@),
                encode_utf8(t.nonce@),
                t.quota as nat,
                t.valid_until_block as nat,
                t.data@,
                t.chain_id as nat,
            ),
        ),
{
    let e: Seq<u8> = Seq::empty();
    let p6 = varint_field(6, t.chain_id as nat);
    let p5 = len_field(5, t.data@);
    let p4 = varint_field(4, t.valid_until_block as nat);
    let p3 = varint_field(3, t.quota as nat);
    let p2 = len_field(2, encode_utf8(t.nonce@));
    let p1 = len_field(1, encode_utf8(t.to@));
    let s4 = p5 + p6;
    let s3 = p4 + s4;
    let s2 = p3 + s3;
    let s1 = p2 + s2;
    lemma_varint_field_reads_back(6, t.chain_id as nat, e);
    assert(p6 + e =~= p6);
    lemma_len_field_reads_back(5, t.data@, p6);
    lemma_varint_field_reads_back(4, t.valid_until_block as nat, s4);
    lemma_varint_field_reads_back(3, t.quota as nat, s3);
    lemma_len_field_reads_back(2, encode_utf8(t.nonce@), s2);
    lemma_len_field_reads_back(1, encode_utf8(t.to@), s1);
    assert(transaction_bytes(t) =~= p1 + s1);
}

/// Decoding the hex text of a sealed transaction and reading the envelope
/// back gives the record's recipient, nonce, quota, validity height, payload
/// and chain id, the signature, and scheme zero.
pub proof fn lemma_sealed_transaction_reads_back(t: Transaction, signature: Seq<u8>, u: UnverifiedTransaction)
    requires
        u.transaction == t,
        u.signature@ == signature,
        u.crypto == 0,
    ensures
        is_hex_text(hex_of(envelope_bytes(u))),
        read_envelope(bytes_of_hex(hex_of(envelope_bytes(u)))) == Some(
            (
                (
                    encode_utf8(t.to@),
                    encode_utf8(t.nonce@),
                    t.quota as nat,
                    t.valid_until_block as nat,
                    t.data@,
                    t.chain_id as nat,
                ),
                signature,
                0nat,
            ),
        ),
{
    lemma_hex_round_trip(envelope_bytes(u));
    lemma_transaction_reads_back(t);
    let e: Seq<u8> = Seq::empty();
    let p3 = varint_field(3, 0);
    let p2 = len_field(2, signature);
    let p1 = len_field(1, transaction_bytes(t));
    lemma_varint_field_reads_back(3, 0, e);
    assert(p3 + e =~= p3);
    lemma_len_field_reads_back(2, signature, p3);
    lemma_len_field_reads_back(1, transaction_bytes(t), p2 + p3);
    assert(envelope_bytes(u) =~= p1 + (p2 + p3));
}

/// A request body holds its id under `"id"`.
pub proof fn lemma_request_body_has_id(body: JsonRpcParams, params: JsonRpcParams, id: u64)
    requires
        is_request_body(body.entries@, params.entries@, id),
    ensures
        body.lookup("id"@) == Some(ParamsValue::Int(id)),
{
    let b = body.entries@;
    let p = params.entries@;
    let k: int = if key_absent(p, "id"@) {
        p.len() as int
    } else {
        choose|i: int| 0 <= i < p.len() && p[i].0@ == "id"@
    };
    if !key_absent(p, "id"@) {
        lemma_first_key(p, "id"@, k);
    }
    let f: int = if key_absent(p, "id"@) {
        k
    } else {
        choose|i: int| key_at(p, "id"@, i)
    };
    assert forall|j: int| 0 <= j < f implies b[j].0@ != "id"@ by {
        assert(b[j].0@ == p[j].0@);
    }
    if !key_absent(p, "id"@) {
        assert(b[f].0@ == p[f].0@);
    }
    assert(key_at(b, "id"@, f));
    lemma_key_at_unique(b, "id"@, f);
}

/// Two transactions built from the same payload, recipient, height and chain
/// id agree in every field but the nonce.
pub proof fn lemma_same_inputs_same_record(
    t1: Transaction,
    t2: Transaction,
    code: Seq<char>,
    address: Seq<char>,
    current_height: u64,
    chain_id: u32,
)
    requires
        built_transaction(t1, code, address, current_height, chain_id),
        built_transaction(t2, code, address, current_height, chain_id),
    ensures
        t1.to@ == t2.to@,
        t1.data@ == t2.data@,
        t1.quota == t2.quota,
        t1.valid_until_block == t2.valid_until_block,
        t1.chain_id == t2.chain_id,
{
}

} // verus!
