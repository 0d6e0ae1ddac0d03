use vstd::prelude::*;
use vstd::utf8::{encode_utf8, valid_utf8};
use crate::encoding::{bytes_of_hex, hex_decode, is_hex_text, string_from_utf8};

verus! {

/// Base-128 varint: low seven bits first, the high bit set on every byte but
/// the last.
pub open spec fn varint(n: nat) -> Seq<u8>
    decreases n,
{
    if n < 128 {
        seq![n as u8]
    } else {
        seq![(n % 128 + 128) as u8] + varint(n / 128)
    }
}

/// A length-delimited field; an empty value is left out.
pub open spec fn len_field(field: u8, value: Seq<u8>) -> Seq<u8> {
    if value.len() == 0 {
        Seq::empty()
    } else {
        seq![(field * 8 + 2) as u8] + varint(value.len()) + value
    }
}

/// A varint field; zero is left out.
pub open spec fn varint_field(field: u8, value: nat) -> Seq<u8> {
    if value == 0 {
        Seq::empty()
    } else {
        seq![(field * 8) as u8] + varint(value)
    }
}

/// An unsigned transaction record.
pub struct Transaction {
    /// Recipient address; empty to create a contract.
    pub to: String,
    /// Hex text that makes the record unique.
    pub nonce: String,
    pub quota: u64,
    pub valid_until_block: u64,
    pub data: Vec<u8>,
    pub chain_id: u32,
}

/// A transaction with its signature, as sent to a node.
pub struct UnverifiedTransaction {
    pub transaction: Transaction,
    pub signature: Vec<u8>,
    /// Signature scheme; zero is secp256k1.
    pub crypto: u32,
}

/// The wire form of a transaction record.
pub open spec fn transaction_bytes(t: Transaction) -> Seq<u8> {
    len_field(1, encode_utf8(t.to@)) + len_field(2, encode_utf8(t.nonce@)) + varint_field(
        3,
        t.quota as nat,
    ) + varint_field(4, t.valid_until_block as nat) + len_field(5, t.data@) + varint_field(
        6,
        t.chain_id as nat,
    )
}

/// The wire form of a signed envelope.
pub open spec fn envelope_bytes(u: UnverifiedTransaction) -> Seq<u8> {
    len_field(1, transaction_bytes(u.transaction)) + len_field(2, u.signature@) + varint_field(
        3,
        u.crypto as nat,
    )
}

/// A varint at the start of `s`: its value and the number of bytes it takes.
pub open spec fn read_varint(s: Seq<u8>) -> Option<(nat, nat)>
    decreases s.len(),
{
    if s.len() == 0 {
        None
    } else if s[0] < 128 {
        Some((s[0] as nat, 1))
    } else {
        match read_varint(s.drop_first()) {
            Some((v, l)) => Some(((s[0] - 128) as nat + 128 * v, l + 1)),
            None => None,
        }
    }
}

/// `s` is empty or starts with the tag of a field numbered above `field`.
pub open spec fn starts_after(s: Seq<u8>, field: nat) -> bool {
    s.len() == 0 || s[0] as nat >= (field + 1) * 8
}

/// An optional length-delimited field at the start of `s`: its value (empty
/// when the field is absent) and what follows it.
#[verifier::opaque]
pub open spec fn read_len_field(s: Seq<u8>, field: u8) -> Option<(Seq<u8>, Seq<u8>)> {
    if s.len() > 0 && s[0] as nat == field * 8 + 2 {
        match read_varint(s.drop_first()) {
            Some((n, l)) => if 1 + l + n <= s.len() {
                Some((s.subrange((1 + l) as int, (1 + l + n) as int), s.skip((1 + l + n) as int)))
            } else {
                None
            },
            None => None,
        }
    } else {
        Some((Seq::empty(), s))
    }
}

/// An optional varint field at the start of `s`: its value (zero when the
/// field is absent) and what follows it.
#[verifier::opaque]
pub open spec fn read_varint_field(s: Seq<u8>, field: u8) -> Option<(nat, Seq<u8>)> {
    if s.len() > 0 && s[0] as nat == field * 8 {
        match read_varint(s.drop_first()) {
            Some((v, l)) => Some((v, s.skip((1 + l) as int))),
            None => None,
        }
    } else {
        Some((0, s))
    }
}

/// The fields of a transaction record read back from its wire form: recipient
/// and nonce as UTF-8 bytes, quota, validity height, payload and chain id.
pub open spec fn read_transaction(s: Seq<u8>) -> Option<(Seq<u8>, Seq<u8>, nat, nat, Seq<u8>, nat)> {
    match read_len_field(s, 1) {
        Some((to, s1)) => match read_len_field(s1, 2) {
            Some((nonce, s2)) => match read_varint_field(s2, 3) {
                Some((quota, s3)) => match read_varint_field(s3, 4) {
                    Some((valid, s4)) => match read_len_field(s4, 5) {
                        Some((data, s5)) => match read_varint_field(s5, 6) {
                            Some((chain, s6)) => if s6.len() == 0 {
                                Some((to, nonce, quota, valid, data, chain))
                            } else {
                                None
                            },
                            None => None,
                        },
                        None => None,
                    },
                    None => None,
                },
                None => None,
            },
            None => None,
        },
        None => None,
    }
}

/// The fields of a signed envelope read back from its wire form: the record's
/// fields, the signature and the signature scheme.
pub open spec fn read_envelope(s: Seq<u8>) -> Option<
    ((Seq<u8>, Seq<u8>, nat, nat, Seq<u8>, nat), Seq<u8>, nat),
> {
    match read_len_field(s, 1) {
        Some((inner, s1)) => match read_transaction(inner) {
            Some(t) => match read_len_field(s1, 2) {
                Some((sig, s2)) => match read_varint_field(s2, 3) {
                    Some((crypto, s3)) => if s3.len() == 0 {
                        Some((t, sig, crypto))
                    } else {
                        None
                    },
                    None => None,
                },
                None => None,
            },
            None => None,
        },
        None => None,
    }
}

/// Appends the varint of `v`.
pub fn push_varint(out: &mut Vec<u8>, v: u64)
    ensures
        final(out)@ == old(out)@ + varint(v as nat),
{
    let mut n: u64 = v;
    while n >= 128
        invariant
            old(out)@ + varint(v as nat) == out@ + varint(n as nat),
        decreases n,
    {
        let ghost before = out@;
        out.push((n % 128 + 128) as u8);
        assert(varint(n as nat) == seq![(n % 128 + 128) as u8] + varint((n / 128) as nat));
        assert(before + varint(n as nat) =~= out@ + varint((n / 128) as nat));
        n = n / 128;
    }
    let ghost before = out@;
    out.push(n as u8);
    assert(varint(n as nat) == seq![n as u8]);
    assert(before + varint(n as nat) =~= out@);
}

/// Appends every byte of `bytes`.
pub fn push_bytes(out: &mut Vec<u8>, bytes: &[u8])
    ensures
        final(out)@ == old(out)@ + bytes@,
{
    let mut i: usize = 0;
    while i < bytes.len()
        invariant
            i <= bytes@.len(),
            out@ == old(out)@ + bytes@.subrange(0, i as int),
        decreases bytes@.len() - i,
    {
        out.push(bytes[i]);
        assert(bytes@.subrange(0, i + 1) =~= bytes@.subrange(0, i as int).push(bytes@[i as int]));
        i = i + 1;
    }
    assert(bytes@.subrange(0, i as int) =~= bytes@);
}

/// Appends a length-delimited field, unless `value` is empty.
pub fn push_len_field(out: &mut Vec<u8>, field: u8, value: &[u8])
    requires
        field < 16,
    ensures
        final(out)@ == old(out)@ + len_field(field, value@),
{
    if value.len() == 0 {
        assert(old(out)@ + len_field(field, value@) =~= old(out)@);
        return;
    }
    out.push(field * 8 + 2);
    push_varint(out, value.len() as u64);
    push_bytes(out, value);
    assert(final(out)@ =~= old(out)@ + len_field(field, value@));
}

/// Appends a varint field, unless `value` is zero.
pub fn push_varint_field(out: &mut Vec<u8>, field: u8, value: u64)
    requires
        field < 16,
    ensures
        final(out)@ == old(out)@ + varint_field(field, value as nat),
{
    if value == 0 {
        assert(old(out)@ + varint_field(field, value as nat) =~= old(out)@);
        return;
    }
    out.push(field * 8);
    push_varint(out, value);
    assert(final(out)@ =~= old(out)@ + varint_field(field, value as nat));
}

impl Transaction {
    /// The record in its wire form.
    pub fn write_to_bytes(&self) -> (r: Vec<u8>)
        ensures
            r@ == transaction_bytes(*self),
    {
        let mut out: Vec<u8> = Vec::new();
        push_len_field(&mut out, 1, self.to.as_str().as_bytes());
        push_len_field(&mut out, 2, self.nonce.as_str().as_bytes());
        push_varint_field(&mut out, 3, self.quota);
        push_varint_field(&mut out, 4, self.valid_until_block);
        push_len_field(&mut out, 5, self.data.as_slice());
        push_varint_field(&mut out, 6, self.chain_id as u64);
        assert(out@ =~= transaction_bytes(*self));
        out
    }
}

impl UnverifiedTransaction {
    /// The envelope in its wire form.
    pub fn write_to_bytes(&self) -> (r: Vec<u8>)
        ensures
            r@ == envelope_bytes(*self),
    {
        let inner = self.transaction.write_to_bytes();
        let mut out: Vec<u8> = Vec::new();
        push_len_field(&mut out, 1, inner.as_slice());
        push_len_field(&mut out, 2, self.signature.as_slice());
        push_varint_field(&mut out, 3, self.crypto as u64);
        assert(out@ =~= envelope_bytes(*self));
        out
    }
}

/// The varint at `pos`, when it fits in `u64`, and the bytes it takes.
fn varint_at(s: &[u8], pos: usize) -> (r: Option<(u64, usize)>)
    requires
        pos <= s@.len(),
    ensures
        r matches Some((v, l)) ==> read_varint(s@.skip(pos as int)) == Some((v as nat, l as nat))
            && pos + l <= s@.len(),
        r is None ==> match read_varint(s@.skip(pos as int)) {
            None => true,
            Some((v, _)) => v > u64::MAX,
        },
    decreases s@.len() - pos,
{
    if pos >= s.len() {
        return None;
    }
    let b = s[pos];
    assert(s@.skip(pos as int)[0] == b);
    if b < 128 {
        return Some((b as u64, 1));
    }
    assert(s@.skip(pos as int).drop_first() =~= s@.skip(pos + 1));
    match varint_at(s, pos + 1) {
        Some((v, l)) => {
            let c: u64 = (b - 128) as u64;
            if v > (u64::MAX - c) / 128 {
                assert(c + 128 * v > u64::MAX) by (nonlinear_arith)
                    requires v > (u64::MAX - c) / 128, c < 128;
                return None;
            }
            assert(c + 128 * v <= u64::MAX) by (nonlinear_arith)
                requires v <= (u64::MAX - c) / 128, c < 128;
            Some((c + 128 * v, l + 1))
        },
        None => None,
    }
}

/// The bytes of `s` from `a` up to `b`.
fn copy_range(s: &[u8], a: usize, b: usize) -> (r: Vec<u8>)
    requires
        a <= b <= s@.len(),
    ensures
        r@ == s@.subrange(a as int, b as int),
{
    let mut out: Vec<u8> = Vec::new();
    let mut i: usize = a;
    while i < b
        invariant
            a <= i <= b,
            b <= s@.len(),
            out@ == s@.subrange(a as int, i as int),
        decreases b - i,
    {
        out.push(s[i]);
        assert(s@.subrange(a as int, i + 1) =~= s@.subrange(a as int, i as int).push(s@[i as int]));
        i = i + 1;
    }
    out
}

/// The optional length-delimited field at `pos` and the position after it.
fn len_field_at(s: &[u8], pos: usize, field: u8) -> (r: Option<(Vec<u8>, usize)>)
    requires
        pos <= s@.len(),
        field < 16,
    ensures
        r matches Some((v, p)) ==> pos <= p <= s@.len() && read_len_field(s@.skip(pos as int), field)
            == Some((v@, s@.skip(p as int))),
        r is None ==> read_len_field(s@.skip(pos as int), field) is None,
{
    reveal(read_len_field);
    let ghost t = s@.skip(pos as int);
    if pos < s.len() && s[pos] == field * 8 + 2 {
        assert(t[0] == s@[pos as int]);
        assert(t.drop_first() =~= s@.skip(pos + 1));
        match varint_at(s, pos + 1) {
            Some((n, l)) => {
                let room = s.len() - pos - 1 - l;
                if n > room as u64 {
                    return None;
                }
                let start = pos + 1 + l;
                let end = start + n as usize;
                let v = copy_range(s, start, end);
                assert(v@ =~= t.subrange((1 + l) as int, (1 + l + n) as int));
                assert(s@.skip(end as int) =~= t.skip((1 + l + n) as int));
                Some((v, end))
            },
            None => None,
        }
    } else {
        proof {
            if pos < s@.len() {
                assert(t[0] == s@[pos as int]);
            }
        }
        Some((Vec::new(), pos))
    }
}

/// The optional varint field at `pos`, when it fits in `u64`, and the
/// position after it.
fn varint_field_at(s: &[u8], pos: usize, field: u8) -> (r: Option<(u64, usize)>)
    requires
        pos <= s@.len(),
        field < 16,
    ensures
        r matches Some((v, p)) ==> pos <= p <= s@.len() && read_varint_field(
            s@.skip(pos as int),
            field,
        ) == Some((v as nat, s@.skip(p as int))),
        r is None ==> match read_varint_field(s@.skip(pos as int), field) {
            None => true,
            Some((v, _)) => v > u64::MAX,
        },
{
    reveal(read_varint_field);
    let ghost t = s@.skip(pos as int);
    if pos < s.len() && s[pos] == field * 8 {
        assert(t[0] == s@[pos as int]);
        assert(t.drop_first() =~= s@.skip(pos + 1));
        match varint_at(s, pos + 1) {
            Some((v, l)) => {
                assert(s@.skip(pos + 1 + l) =~= t.skip((1 + l) as int));
                Some((v, pos + 1 + l))
            },
            None => None,
        }
    } else {
        proof {
            if pos < s@.len() {
                assert(t[0] == s@[pos as int]);
            }
        }
        Some((0, pos))
    }
}

/// Reads a transaction record back from its wire form. It fails where the
/// bytes are no such record, or where a field does not fit its type: a text
/// that is not UTF-8, a number past its integer type.
pub fn parse_transaction(s: &[u8]) -> (r: Option<Transaction>)
    ensures
        r matches Some(t) ==> read_transaction(s@) == Some(
            (
                encode_utf8(t.to@),
                encode_utf8(t.nonce@),
                t.quota as nat,
                t.valid_until_block as nat,
                t.data@,
                t.chain_id as nat,
            ),
        ),
        r is None ==> match read_transaction(s@) {
            None => true,
            Some((to, nonce, quota, valid, _, chain)) => !valid_utf8(to) || !valid_utf8(nonce)
                || quota > u64::MAX || valid > u64::MAX || chain > u32::MAX,
        },
{
    broadcast use vstd::utf8::decode_utf8_encode_utf8;
    assert(s@.skip(0) =~= s@);
    let (to_bytes, p1) = match len_field_at(s, 0, 1) { Some(x) => x, None => { return None; } };
    let (nonce_bytes, p2) = match len_field_at(s, p1, 2) { Some(x) => x, None => { return None; } };
    let (quota, p3) = match varint_field_at(s, p2, 3) { Some(x) => x, None => { return None; } };
    let (valid, p4) = match varint_field_at(s, p3, 4) { Some(x) => x, None => { return None; } };
    let (data, p5) = match len_field_at(s, p4, 5) { Some(x) => x, None => { return None; } };
    let (chain, p6) = match varint_field_at(s, p5, 6) { Some(x) => x, None => { return None; } };
    if p6 != s.len() || chain > u32::MAX as u64 {
        return None;
    }
    let ghost to_seq = to_bytes@;
    let ghost nonce_seq = nonce_bytes@;
    let to = match string_from_utf8(to_bytes) { Some(x) => x, None => { return None; } };
    let nonce = match string_from_utf8(nonce_bytes) { Some(x) => x, None => { return None; } };
    assert(encode_utf8(to@) == to_seq);
    assert(encode_utf8(nonce@) == nonce_seq);
    Some(Transaction { to, nonce, quota, valid_until_block: valid, data, chain_id: chain as u32 })
}

/// Reads a signed envelope back from its wire form, failing as
/// `parse_transaction` does.
pub fn parse_envelope(s: &[u8]) -> (r: Option<UnverifiedTransaction>)
    ensures
        r matches Some(u) ==> read_envelope(s@) == Some(
            (
                (
                    encode_utf8(u.transaction.to@),
                    encode_utf8(u.transaction.nonce@),
                    u.transaction.quota as nat,
                    u.transaction.valid_until_block as nat,
                    u.transaction.data@,
                    u.transaction.chain_id as nat,
                ),
                u.signature@,
                u.crypto as nat,
            ),
        ),
        r is None ==> match read_envelope(s@) {
            None => true,
            Some(((to, nonce, quota, valid, _, chain), _, crypto)) => !valid_utf8(to) || !valid_utf8(
                nonce,
            ) || quota > u64::MAX || valid > u64::MAX || chain > u32::MAX || crypto > u32::MAX,
        },
{
    assert(s@.skip(0) =~= s@);
    let (inner, p1) = match len_field_at(s, 0, 1) { Some(x) => x, None => { return None; } };
    let (signature, p2) = match len_field_at(s, p1, 2) { Some(x) => x, None => { return None; } };
    let (crypto, p3) = match varint_field_at(s, p2, 3) { Some(x) => x, None => { return None; } };
    if p3 != s.len() {
        return None;
    }
    let transaction = match parse_transaction(inner.as_slice()) { Some(t) => t, None => { return None; } };
    if crypto > u32::MAX as u64 {
        return None;
    }
    Some(UnverifiedTransaction { transaction, signature, crypto: crypto as u32 })
}

impl UnverifiedTransaction {
    /// Reads a signed envelope back from the hex text of its wire form.
    pub fn from_hex(text: &str) -> (r: Option<Self>)
        ensures
            r matches Some(u) ==> is_hex_text(text@) && read_envelope(bytes_of_hex(text@)) == Some(
                (
                    (
                        encode_utf8(u.transaction.to@),
                        encode_utf8(u.transaction.nonce@),
                        u.transaction.quota as nat,
                        u.transaction.valid_until_block as nat,
                        u.transaction.data@,
                        u.transaction.chain_id as nat,
                    ),
                    u.signature@,
                    u.crypto as nat,
                ),
            ),
            r is None ==> !is_hex_text(text@) || match read_envelope(bytes_of_hex(text@)) {
                None => true,
                Some(((to, nonce, quota, valid, _, chain), _, crypto)) => !valid_utf8(to)
                    || !valid_utf8(nonce) || quota > u64::MAX || valid > u64::MAX || chain
                    > u32::MAX || crypto > u32::MAX,
            },
    {
        match hex_decode(text) {
            Ok(bytes) => parse_envelope(bytes.as_slice()),
            Err(_) => None,
        }
    }
}

} // verus!
