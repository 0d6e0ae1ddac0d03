use vstd::prelude::*;
use vstd::string::StrSliceExecFns;
use crate::encoding::{
    bytes_of_hex, hex_decode, hex_digit_value, hex_encode, hex_of, is_hex_digit, is_hex_text,
    random_uuid_bytes,
};
use crate::rpc::{
    is_request_body, key_absent, request_body, same_value, JsonRpcParams, JsonRpcResponse, ParamsValue, ResponseBody,
    ResponseValue,
};
use crate::transaction::{envelope_bytes, Transaction, UnverifiedTransaction};

verus! {

/// Blocks past the current height for which a new transaction stays valid.
pub const VALID_BLOCKS_AHEAD: u64 = 88;

/// Fee budget of every transaction built here.
pub const QUOTA: u64 = 1000000;

/// Number of distinct request ids.
pub open spec fn id_space() -> nat {
    0x1_0000_0000_0000_0000
}

/// A secp256k1 private key.
#[derive(Clone, Copy)]
pub struct PrivKey {
    pub bytes: [u8; 32],
}

/// A JSON-RPC client for the nodes of one chain.
pub struct Client {
    id: u64,
    chain_id: Option<u32>,
    private_key: Option<PrivKey>,
}

/// One request to send: the endpoint, the id, and the body, which carries
/// that id under `"id"`.
pub struct PendingRequest {
    pub url: String,
    pub id: u64,
    pub body: JsonRpcParams,
}

/// Why a transaction could not be built.
#[derive(Debug, PartialEq, Eq, Structural)]
pub enum TxError {
    /// The payload is not hex text.
    InvalidPayload,
    /// No chain id was configured.
    MissingChainId,
    /// No private key was configured.
    MissingPrivateKey,
    /// The validity height would pass `u64::MAX`.
    HeightOverflow,
}

/// What resolving the chain id needs next.
pub enum ChainIdStep {
    /// The chain id is known; nothing has to be sent.
    Known(u32),
    /// The metadata query to send; its response goes to `accept_metadata`.
    Query(PendingRequest),
}

/// The id `k` steps after `start`, wrapping at the top of `u64`.
pub open spec fn id_after(start: u64, k: nat) -> u64 {
    ((start as nat + k) % id_space()) as u64
}

/// The chain id that a metadata response reports, if it reports one; a
/// number past `u32::MAX` keeps its low 32 bits.
pub open spec fn metadata_chain_id(resp: JsonRpcResponse) -> Option<u32> {
    match resp.body {
        ResponseBody::Result(ResponseValue::Object(m)) => match m.lookup("chainId"@) {
            Some(ParamsValue::Int(n)) => Some(n as u32),
            _ => None,
        },
        _ => None,
    }
}

/// The transaction that the configured client builds from these inputs.
pub open spec fn built_transaction(
    t: Transaction,
    code: Seq<char>,
    address: Seq<char>,
    current_height: u64,
    chain_id: u32,
) -> bool {
    &&& t.to@ == address
    &&& t.data@ == bytes_of_hex(code)
    &&& t.quota == QUOTA
    &&& t.valid_until_block == current_height + VALID_BLOCKS_AHEAD
    &&& t.chain_id == chain_id
}

impl Client {
    pub closed spec fn spec_id(&self) -> u64 {
        self.id
    }

    pub closed spec fn spec_chain_id(&self) -> Option<u32> {
        self.chain_id
    }

    pub closed spec fn spec_private_key(&self) -> Option<PrivKey> {
        self.private_key
    }

    /// A client with id counter zero and nothing configured.
    pub fn new() -> (r: Self)
        ensures
            r.spec_id() == 0,
            r.spec_chain_id() is None,
            r.spec_private_key() is None,
    {
        Client { id: 0, chain_id: None, private_key: None }
    }

    /// Configures the chain id.
    pub fn set_chain_id(self, chain_id: u32) -> (r: Self)
        ensures
            r.spec_id() == self.spec_id(),
            r.spec_chain_id() == Some(chain_id),
            r.spec_private_key() == self.spec_private_key(),
    {
        Client { chain_id: Some(chain_id), ..self }
    }

    /// Configures the private key.
    pub fn set_private_key(self, private_key: PrivKey) -> (r: Self)
        ensures
            r.spec_id() == self.spec_id(),
            r.spec_chain_id() == self.spec_chain_id(),
            r.spec_private_key() == Some(private_key),
    {
        Client { private_key: Some(private_key), ..self }
    }

    /// The configured private key.
    pub fn private_key(&self) -> (r: &PrivKey)
        requires
            self.spec_private_key() is Some,
        ensures
            self.spec_private_key() == Some(*r),
    {
        self.private_key.as_ref().unwrap()
    }

    /// The configured chain id, if any.
    pub fn chain_id(&self) -> (r: Option<u32>)
        ensures
            r == self.spec_chain_id(),
    {
        self.chain_id
    }

    /// The id of the latest request.
    pub fn request_id(&self) -> (r: u64)
        ensures
            r == self.spec_id(),
    {
        self.id
    }

    /// Advances the id counter, wrapping at the top of `u64`, and returns it.
    pub fn next_id(&mut self) -> (r: u64)
        ensures
            r == id_after(old(self).spec_id(), 1),
            final(self).spec_id() == r,
            final(self).spec_chain_id() == old(self).spec_chain_id(),
            final(self).spec_private_key() == old(self).spec_private_key(),
    {
        if self.id == u64::MAX {
            self.id = 0;
        } else {
            self.id = self.id + 1;
        }
        self.id
    }

    /// One request per endpoint, in the order given, each with a fresh id and
    /// a body that carries `params` and that id.
    pub fn make_requests_with_all_url(&mut self, urls: &Vec<String>, params: &JsonRpcParams) -> (r:
        Vec<PendingRequest>)
        ensures
            r@.len() == urls@.len(),
            forall|i: int|
                0 <= i < r@.len() ==> (#[trigger] r@[i]).url@ == urls@[i]@ && r@[i].id
                    == id_after(old(self).spec_id(), (i + 1) as nat) && is_request_body(
                    r@[i].body.entries@,
                    params.entries@,
                    r@[i].id,
                ) && (params.wf() ==> r@[i].body.wf()),
            final(self).spec_id() == id_after(old(self).spec_id(), urls@.len()),
            final(self).spec_chain_id() == old(self).spec_chain_id(),
            final(self).spec_private_key() == old(self).spec_private_key(),
    {
        let mut reqs: Vec<PendingRequest> = Vec::new();
        let mut i: usize = 0;
        while i < urls.len()
            invariant
                i <= urls@.len(),
                reqs@.len() == i,
                forall|j: int|
                    0 <= j < i ==> (#[trigger] reqs@[j]).url@ == urls@[j]@ && reqs@[j].id
                        == id_after(old(self).spec_id(), (j + 1) as nat) && is_request_body(
                        reqs@[j].body.entries@,
                        params.entries@,
                        reqs@[j].id,
                    ) && (params.wf() ==> reqs@[j].body.wf()),
                self.spec_id() == id_after(old(self).spec_id(), i as nat),
                self.spec_chain_id() == old(self).spec_chain_id(),
                self.spec_private_key() == old(self).spec_private_key(),
            decreases urls@.len() - i,
        {
            let id = self.next_id();
            proof {
                lemma_id_after_step(old(self).spec_id(), i as nat);
            }
            let body = request_body(params, id);
            reqs.push(PendingRequest { url: urls[i].clone(), id, body });
            i = i + 1;
        }
        reqs
    }

    /// One request per parameter set, in the order given, all to `url`, each
    /// with a fresh id and a body that carries its parameter set and that id.
    pub fn make_requests_with_params_list(&mut self, url: &str, params: Vec<JsonRpcParams>) -> (r:
        Vec<PendingRequest>)
        ensures
            r@.len() == params@.len(),
            forall|i: int|
                0 <= i < r@.len() ==> (#[trigger] r@[i]).url@ == url@ && r@[i].id == id_after(
                    old(self).spec_id(),
                    (i + 1) as nat,
                ) && is_request_body(r@[i].body.entries@, params@[i].entries@, r@[i].id) && (
                params@[i].wf() ==> r@[i].body.wf()),
            final(self).spec_id() == id_after(old(self).spec_id(), params@.len()),
            final(self).spec_chain_id() == old(self).spec_chain_id(),
            final(self).spec_private_key() == old(self).spec_private_key(),
    {
        let ghost all = params@;
        let n = params.len();
        let mut rest = params;
        let mut reqs: Vec<PendingRequest> = Vec::new();
        let mut i: usize = 0;
        while rest.len() > 0
            invariant
                all == params@,
                all.len() == n,
                i + rest@.len() == n,
                rest@ == all.subrange(i as int, n as int),
                reqs@.len() == i,
                forall|j: int|
                    0 <= j < i ==> (#[trigger] reqs@[j]).url@ == url@ && reqs@[j].id == id_after(
                        old(self).spec_id(),
                        (j + 1) as nat,
                    ) && is_request_body(reqs@[j].body.entries@, all[j].entries@, reqs@[j].id) && (
                    all[j].wf() ==> reqs@[j].body.wf()),
                self.spec_id() == id_after(old(self).spec_id(), i as nat),
                self.spec_chain_id() == old(self).spec_chain_id(),
                self.spec_private_key() == old(self).spec_private_key(),
            decreases rest@.len(),
        {
            let p = rest.remove(0);
            assert(p == all[i as int]);
            let id = self.next_id();
            proof {
                lemma_id_after_step(old(self).spec_id(), i as nat);
            }
            let body = p.with_id(id);
            reqs.push(PendingRequest { url: url.to_owned(), id, body });
            i = i + 1;
            assert(rest@ =~= all.subrange(i as int, n as int));
        }
        reqs
    }

    /// The first step of resolving the chain id: a configured one is returned
    /// at once; otherwise the metadata query for `url` is planned.
    pub fn get_chain_id(&mut self, url: &str) -> (r: ChainIdStep)
        ensures
            old(self).spec_chain_id() matches Some(c) ==> r == ChainIdStep::Known(c)
                && *final(self) == *old(self),
            old(self).spec_chain_id() is None ==> (r matches ChainIdStep::Query(q) && q.url@
                == url@ && q.id == id_after(old(self).spec_id(), 1) && q.body.wf()
                && is_metadata_query(q.body.entries@, q.id) && final(self).spec_id() == q.id
                && final(self).spec_chain_id() is None && final(self).spec_private_key()
                == old(self).spec_private_key()),
    {
        match self.chain_id {
            Some(c) => ChainIdStep::Known(c),
            None => {
                let id = self.next_id();
                let mp = metadata_params();
                let ghost m = mp.entries@;
                let body = mp.with_id(id);
                proof {
                    reveal_strlit("id");
                    reveal_strlit("params");
                    reveal_strlit("method");
                    assert(m[0].0@ == "params"@ && m[1].0@ == "method"@);
                    assert("params"@.len() != "id"@.len());
                    assert("method"@.len() != "id"@.len());
                    assert(m[0].0@ != "id"@ && m[1].0@ != "id"@);
                    assert(key_absent(m, "id"@));
                    let b = body.entries@;
                    assert(same_value(m[0].1, b[0].1));
                    assert(same_value(m[1].1, b[1].1));
                    let ml = m[0].1->List_0;
                    assert(same_value(ml[0], b[0].1->List_0[0]));
                    assert(b.take(2)[0] == b[0] && b.take(2)[1] == b[1]);
                    assert(is_metadata_params(b.take(2)));
                }
                ChainIdStep::Query(PendingRequest { url: url.to_owned(), id, body })
            },
        }
    }

    /// The last step of resolving the chain id: the id that the metadata
    /// response reports is stored and returned; a response that reports none
    /// gives zero and stores nothing.
    pub fn accept_metadata(&mut self, resp: &JsonRpcResponse) -> (r: u32)
        ensures
            r == match metadata_chain_id(*resp) {
                Some(c) => c,
                None => 0,
            },
            final(self).spec_chain_id() == match metadata_chain_id(*resp) {
                Some(c) => Some(c),
                None => old(self).spec_chain_id(),
            },
            final(self).spec_id() == old(self).spec_id(),
            final(self).spec_private_key() == old(self).spec_private_key(),
    {
        if let Some(ResponseValue::Object(m)) = resp.result() {
            if let Some(ParamsValue::Int(n)) = m.get("chainId") {
                let c = *n as u32;
                self.chain_id = Some(c);
                return c;
            }
        }
        0
    }

    /// Builds the transaction record with `nonce`: payload from hex `code`,
    /// recipient `address` (empty to create a contract), a fixed quota, and
    /// validity up to `VALID_BLOCKS_AHEAD` blocks past `current_height`.
    pub fn build_transaction(&self, code: &str, address: String, current_height: u64, nonce: String) -> (r:
        Result<Transaction, TxError>)
        ensures
            !is_hex_text(code@) ==> r == Err::<Transaction, _>(TxError::InvalidPayload),
            is_hex_text(code@) && self.spec_chain_id() is None ==> r == Err::<Transaction, _>(
                TxError::MissingChainId,
            ),
            is_hex_text(code@) && self.spec_chain_id() is Some && self.spec_private_key() is None
                ==> r == Err::<Transaction, _>(TxError::MissingPrivateKey),
            is_hex_text(code@) && self.spec_chain_id() is Some && self.spec_private_key() is Some
                && current_height + VALID_BLOCKS_AHEAD > u64::MAX ==> r == Err::<Transaction, _>(
                TxError::HeightOverflow,
            ),
            is_hex_text(code@) && self.spec_chain_id() is Some && self.spec_private_key() is Some
                && current_height + VALID_BLOCKS_AHEAD <= u64::MAX ==> (r matches Ok(t) && t.nonce == nonce && built_transaction(
                t,
                code@,
                address@,
                current_height,
                self.spec_chain_id()->Some_0,
            )),
    {
        let data = match hex_decode(code) {
            Ok(d) => d,
            Err(_) => {
                return Err(TxError::InvalidPayload);
            },
        };
        let chain_id = match self.chain_id {
            Some(c) => c,
            None => {
                return Err(TxError::MissingChainId);
            },
        };
        if self.private_key.is_none() {
            return Err(TxError::MissingPrivateKey);
        }
        if current_height > u64::MAX - VALID_BLOCKS_AHEAD {
            return Err(TxError::HeightOverflow);
        }
        Ok(
            Transaction {
                to: address,
                nonce,
                quota: QUOTA,
                valid_until_block: current_height + VALID_BLOCKS_AHEAD,
                data,
                chain_id,
            },
        )
    }

    /// Builds the transaction record as `build_transaction` does, with a fresh
    /// random nonce: the hex text of a version 4 UUID.
    ///
    /// The record comes back unsigned. The configured private key is only
    /// tested for presence; it is not used here. The signature is made
    /// outside this library and handed to `Transaction::seal`.
    pub fn generate_transaction(&mut self, code: &str, address: String, current_height: u64) -> (r:
        Result<Transaction, TxError>)
        ensures
            *final(self) == *old(self),
            !is_hex_text(code@) ==> r == Err::<Transaction, _>(TxError::InvalidPayload),
            is_hex_text(code@) && old(self).spec_chain_id() is None ==> r == Err::<Transaction, _>(
                TxError::MissingChainId,
            ),
            is_hex_text(code@) && old(self).spec_chain_id() is Some && old(self).spec_private_key() is None
                ==> r == Err::<Transaction, _>(TxError::MissingPrivateKey),
            is_hex_text(code@) && old(self).spec_chain_id() is Some && old(self).spec_private_key() is Some
                && current_height + VALID_BLOCKS_AHEAD > u64::MAX ==> r == Err::<Transaction, _>(
                TxError::HeightOverflow,
            ),
            is_hex_text(code@) && old(self).spec_chain_id() is Some && old(self).spec_private_key() is Some
                && current_height + VALID_BLOCKS_AHEAD <= u64::MAX ==> (r matches Ok(t)
                && t.nonce@.len() == 32 && t.nonce@ == hex_of(bytes_of_hex(t.nonce@)) && is_uuid_v4(
                bytes_of_hex(t.nonce@),
            ) && built_transaction(
                t,
                code@,
                address@,
                current_height,
                old(self).spec_chain_id()->Some_0,
            )),
    {
        let nonce_bytes = random_uuid_bytes();
        let nonce = hex_encode(nonce_bytes.as_slice());
        proof {
            crate::laws::lemma_hex_round_trip(nonce_bytes@);
        }
        self.build_transaction(code, address, current_height, nonce)
    }
}

impl Transaction {
    /// Hex text of the envelope of this record with `signature` (secp256k1),
    /// ready to be sent as a request parameter.
    ///
    /// The signature comes from outside this library, which does not sign:
    /// nothing here checks it against the record or against the client's key.
    pub fn seal(self, signature: Vec<u8>) -> (r: String)
        ensures
            r@ == hex_of(
                envelope_bytes(
                    (UnverifiedTransaction { transaction: self, signature, crypto: 0 }),
                ),
            ),
    {
        let envelope = UnverifiedTransaction { transaction: self, signature, crypto: 0 };
        let bytes = envelope.write_to_bytes();
        hex_encode(bytes.as_slice())
    }
}

/// The text starts with the prefix `0x`.
pub open spec fn has_0x(s: Seq<char>) -> bool {
    s.len() >= 2 && s[0] == '0' && s[1] == 'x'
}

/// `hex` without a leading `0x`.
pub fn remove_0x(hex: String) -> (r: String)
    ensures
        has_0x(hex@) ==> r@ == hex@.skip(2),
        !has_0x(hex@) ==> r@ == hex@,
{
    let s = hex.as_str();
    let n = s.unicode_len();
    if n >= 2 && s.get_char(0) == '0' && s.get_char(1) == 'x' {
        let rest = s.substring_char(2, n);
        let r = rest.to_owned();
        assert(r@ =~= hex@.skip(2));
        r
    } else {
        hex
    }
}

/// The number that a text of hex digits stands for, most significant first.
pub open spec fn hex_number(s: Seq<char>) -> nat
    decreases s.len(),
{
    if s.len() == 0 {
        0
    } else {
        hex_number(s.drop_last()) * 16 + hex_digit_value(s.last()) as nat
    }
}

pub open spec fn all_hex_digits(s: Seq<char>) -> bool {
    forall|i: int| 0 <= i < s.len() ==> is_hex_digit(#[trigger] s[i])
}

/// A longer run of hex digits never stands for a smaller number.
proof fn lemma_hex_number_grows(s: Seq<char>, i: int, j: int)
    requires
        0 <= i <= j <= s.len(),
        all_hex_digits(s),
    ensures
        hex_number(s.take(i)) <= hex_number(s.take(j)),
    decreases j - i,
{
    if i < j {
        lemma_hex_number_grows(s, i, j - 1);
        assert(s.take(j).drop_last() =~= s.take(j - 1));
        assert(is_hex_digit(s[j - 1]));
    }
}

fn digit_value(c: char) -> (r: Option<u64>)
    ensures
        r is Some <==> is_hex_digit(c),
        r matches Some(d) ==> d == hex_digit_value(c) && d < 16,
{
    if '0' <= c && c <= '9' {
        Some((c as u32 - '0' as u32) as u64)
    } else if 'a' <= c && c <= 'f' {
        Some((c as u32 - 'a' as u32 + 10) as u64)
    } else if 'A' <= c && c <= 'F' {
        Some((c as u32 - 'A' as u32 + 10) as u64)
    } else {
        None
    }
}

/// The number that hex text `s` stands for: `None` when `s` is empty, holds
/// a character that is not a hex digit, or stands for a number past `u64::MAX`.
pub fn parse_hex_u64(s: &str) -> (r: Option<u64>)
    ensures
        r is Some <==> s@.len() > 0 && all_hex_digits(s@) && hex_number(s@) <= u64::MAX,
        r matches Some(n) ==> n == hex_number(s@),
{
    let n = s.unicode_len();
    if n == 0 {
        return None;
    }
    let mut acc: u64 = 0;
    let mut i: usize = 0;
    while i < n
        invariant
            n == s@.len(),
            i <= n,
            all_hex_digits(s@.take(i as int)),
            acc == hex_number(s@.take(i as int)),
        decreases n - i,
    {
        let c = s.get_char(i);
        let d = match digit_value(c) {
            Some(d) => d,
            None => {
                return None;
            },
        };
        assert(s@.take(i + 1).drop_last() =~= s@.take(i as int));
        if acc > (u64::MAX - d) / 16 {
            proof {
                assert(hex_number(s@.take(i + 1)) > u64::MAX);
                if all_hex_digits(s@) {
                    lemma_hex_number_grows(s@, i + 1, n as int);
                    assert(s@.take(n as int) =~= s@);
                }
            }
            return None;
        }
        acc = acc * 16 + d;
        assert(all_hex_digits(s@.take(i + 1))) by {
            assert forall|k: int| 0 <= k < i + 1 implies is_hex_digit(#[trigger] s@.take(i + 1)[k]) by {
                if k < i {
                    assert(s@.take(i + 1)[k] == s@.take(i as int)[k]);
                }
            }
        }
        i = i + 1;
    }
    assert(s@.take(n as int) =~= s@);
    Some(acc)
}

/// The block height that a `cita_blockNumber` response reports: a text of
/// hex digits, with or without `0x`.
pub open spec fn reported_height(resp: JsonRpcResponse) -> Option<u64> {
    match resp.body {
        ResponseBody::Result(ResponseValue::Single(ParamsValue::String(h))) => {
            let digits = if has_0x(h@) { h@.skip(2) } else { h@ };
            if digits.len() > 0 && all_hex_digits(digits) && hex_number(digits) <= u64::MAX {
                Some(hex_number(digits) as u64)
            } else {
                None
            }
        },
        _ => None,
    }
}

/// The block height in a `cita_blockNumber` response, if it holds one.
pub fn block_number_from_response(resp: &JsonRpcResponse) -> (r: Option<u64>)
    ensures
        r == reported_height(*resp),
{
    match resp.result() {
        Some(ResponseValue::Single(ParamsValue::String(h))) => {
            let digits = remove_0x(h.clone());
            parse_hex_u64(digits.as_str())
        },
        _ => None,
    }
}

/// Sixteen bytes with version 4 in the high nibble of byte 6 and the RFC 4122
/// variant at the top of byte 8.
pub open spec fn is_uuid_v4(b: Seq<u8>) -> bool {
    b.len() == 16 && b[6] / 16 == 4 && b[8] / 64 == 2
}

/// The text value `text`.
pub open spec fn is_text(v: ParamsValue, text: Seq<char>) -> bool {
    v is String && v->String_0@ == text
}

/// The parameters of a metadata query: `params` is the list `["latest"]`
/// and `method` is `cita_getMetaData`.
pub open spec fn is_metadata_params(s: Seq<(String, ParamsValue)>) -> bool {
    &&& s.len() == 2
    &&& s[0].0@ == "params"@
    &&& s[0].1 is List
    &&& s[0].1->List_0@.len() == 1
    &&& is_text(s[0].1->List_0@[0], "latest"@)
    &&& s[1].0@ == "method"@
    &&& is_text(s[1].1, "cita_getMetaData"@)
}

/// The body of a metadata query with `id`: the metadata parameters, then
/// `id`.
pub open spec fn is_metadata_query(s: Seq<(String, ParamsValue)>, id: u64) -> bool {
    &&& s.len() == 3
    &&& is_metadata_params(s.take(2))
    &&& s[2].0@ == "id"@
    &&& s[2].1 == ParamsValue::Int(id)
}

/// The parameters of a metadata query, without an id.
pub fn metadata_params() -> (r: JsonRpcParams)
    ensures
        is_metadata_params(r.entries@),
        r.wf(),
{
    let mut latest: Vec<ParamsValue> = Vec::new();
    latest.push(ParamsValue::String("latest".to_owned()));
    let mut entries: Vec<(String, ParamsValue)> = Vec::new();
    entries.push(("params".to_owned(), ParamsValue::List(latest)));
    entries.push(("method".to_owned(), ParamsValue::String("cita_getMetaData".to_owned())));
    proof {
        reveal_strlit("params");
        reveal_strlit("method");
        assert("params"@[0] != "method"@[0]);
    }
    JsonRpcParams { entries }
}

/// The parameters of a block height query, without an id: `method` is
/// `cita_blockNumber`.
pub fn block_number_params() -> (r: JsonRpcParams)
    ensures
        r.entries@.len() == 1,
        r.entries@[0].0@ == "method"@,
        is_text(r.entries@[0].1, "cita_blockNumber"@),
        r.wf(),
{
    let mut entries: Vec<(String, ParamsValue)> = Vec::new();
    entries.push(("method".to_owned(), ParamsValue::String("cita_blockNumber".to_owned())));
    JsonRpcParams { entries }
}

/// One more step of the counter is the id one further on.
pub proof fn lemma_id_after_step(start: u64, i: nat)
    ensures
        id_after(id_after(start, i), 1) == id_after(start, i + 1),
{
    let a = start as nat + i;
    assert(((a % id_space()) + 1) % id_space() == (a + 1) % id_space()) by (nonlinear_arith)
        requires id_space() > 0;
}

/// The requests that the interface of a node offers.
pub trait ClientExt {
    /// net_peerCount: number of peers of the node.
    fn get_net_peer_count(&mut self, url: &str) -> u32;

    /// cita_blockNumber: current height.
    fn get_block_number(&mut self, url: &str) -> Option<u64>;

    /// cita_sendTransaction: sends a transaction, returns its hash.
    fn send_transaction(&mut self, url: &str) -> Result<String, String>;

    /// cita_getBlockByHash
    fn get_block_by_hash(&mut self, url: &str) -> JsonRpcResponse;

    /// cita_getBlockByNumber
    fn get_block_by_number(&mut self, url: &str) -> JsonRpcResponse;

    /// eth_getTransactionReceipt
    fn get_transaction_receipt(&mut self, url: &str) -> JsonRpcResponse;

    /// eth_getLogs
    fn get_logs(&mut self, url: &str) -> JsonRpcResponse;

    /// eth_call: read-only call; no state change is kept.
    fn call(&mut self, url: &str) -> JsonRpcResponse;

    /// cita_getTransaction
    fn get_transaction(&mut self, url: &str) -> JsonRpcResponse;

    /// eth_getTransactionCount
    fn get_transaction_count(&mut self, url: &str) -> u64;

    /// eth_getCode
    fn get_code(&mut self, url: &str) -> String;

    /// eth_getAbi
    fn get_abi(&mut self, url: &str) -> String;

    /// eth_getBalance
    fn get_balance(&mut self, url: &str) -> u64;

    /// eth_newFilter
    fn new_filter(&mut self, url: &str) -> u64;

    /// eth_newBlockFilter
    fn new_block_filter(&mut self, url: &str) -> u64;

    /// eth_uninstallFilter
    fn uninstall_filter(&mut self, url: &str) -> bool;

    /// eth_getFilterChanges
    fn get_filter_changes(&mut self, url: &str) -> JsonRpcResponse;

    /// eth_getFilterLogs
    fn get_filter_logs(&mut self, url: &str) -> JsonRpcResponse;

    /// cita_getTransactionProof
    fn get_transaction_proof(&mut self, url: &str) -> JsonRpcResponse;

    /// cita_getMetaData
    fn get_metadata(&mut self, url: &str) -> JsonRpcResponse;
}

} // verus!
