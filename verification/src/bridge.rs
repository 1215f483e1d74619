//! The parameter bridge: flattens the accounts and payload of one
//! instruction into one contiguous byte buffer in the layout the program
//! function expects, and reconstructs typed views from such a buffer.
//!
//! Layout: the program id, the account count, then each account record
//! (key, lamports, owner, data length, data bytes), then the payload length
//! and the payload, every integer eight bytes little endian.  Deserializing
//! a buffer that `serialize_parameters` just produced yields back exactly
//! the flattened state; the round trip is proved below.

use vstd::bytes::lemma_auto_spec_u64_to_from_le_bytes;
use vstd::bytes::spec_u64_from_le_bytes;
use vstd::bytes::spec_u64_to_le_bytes;
use vstd::bytes::u64_from_le_bytes;
use vstd::bytes::u64_to_le_bytes;
use vstd::prelude::*;
use vstd::slice::slice_subrange;
use vstd::slice::slice_to_vec;

use crate::account::AccountView;
use crate::account::FlatAccount;
use crate::errors::InvokeError;
use crate::reconcile::flat_views;

verus! {

/// The byte encoding of one account record.
pub open spec fn spec_ser_account(a: AccountView) -> Seq<u8> {
    spec_u64_to_le_bytes(a.key) + spec_u64_to_le_bytes(a.lamports) + spec_u64_to_le_bytes(a.owner)
        + spec_u64_to_le_bytes(a.data.len() as u64) + a.data
}

/// The byte encoding of a sequence of account records, front to back.
pub open spec fn spec_ser_accounts(accs: Seq<AccountView>) -> Seq<u8>
    decreases accs.len(),
{
    if accs.len() == 0 {
        Seq::empty()
    } else {
        spec_ser_account(accs.first()) + spec_ser_accounts(accs.drop_first())
    }
}

/// The whole flat parameter buffer for one instruction.
pub open spec fn spec_serialize(program_id: u64, accs: Seq<AccountView>, data: Seq<u8>) -> Seq<
    u8,
> {
    spec_u64_to_le_bytes(program_id) + spec_u64_to_le_bytes(accs.len() as u64) + spec_ser_accounts(
        accs,
    ) + spec_u64_to_le_bytes(data.len() as u64) + data
}

/// Reading one little-endian integer at `pos`.
pub open spec fn spec_parse_u64(buf: Seq<u8>, pos: int) -> Option<(u64, int)> {
    if 0 <= pos && pos + 8 <= buf.len() {
        Some((spec_u64_from_le_bytes(buf.subrange(pos, pos + 8)), pos + 8))
    } else {
        None
    }
}

/// Reading `n` raw bytes at `pos`.
pub open spec fn spec_parse_bytes(buf: Seq<u8>, pos: int, n: int) -> Option<(Seq<u8>, int)> {
    if 0 <= pos && 0 <= n && pos + n <= buf.len() {
        Some((buf.subrange(pos, pos + n), pos + n))
    } else {
        None
    }
}

/// Reading one account record at `pos`.
pub open spec fn spec_parse_account(buf: Seq<u8>, pos: int) -> Option<(AccountView, int)> {
    match spec_parse_u64(buf, pos) {
        None => None,
        Some((key, p1)) => match spec_parse_u64(buf, p1) {
            None => None,
            Some((lamports, p2)) => match spec_parse_u64(buf, p2) {
                None => None,
                Some((owner, p3)) => match spec_parse_u64(buf, p3) {
                    None => None,
                    Some((dlen, p4)) => match spec_parse_bytes(buf, p4, dlen as int) {
                        None => None,
                        Some((data, p5)) => Some(
                            (AccountView { key, lamports, owner, data }, p5),
                        ),
                    },
                },
            },
        },
    }
}

/// Reading `n` account records at `pos`.
pub open spec fn spec_parse_accounts(buf: Seq<u8>, pos: int, n: nat) -> Option<(
    Seq<AccountView>,
    int,
)>
    decreases n,
{
    if n == 0 {
        Some((Seq::empty(), pos))
    } else {
        match spec_parse_account(buf, pos) {
            None => None,
            Some((a, p1)) => match spec_parse_accounts(buf, p1, (n - 1) as nat) {
                None => None,
                Some((s, p2)) => Some((seq![a] + s, p2)),
            },
        }
    }
}

/// Parsing a whole flat parameter buffer, which must be consumed exactly.
pub open spec fn spec_deserialize(buf: Seq<u8>) -> Option<(u64, Seq<AccountView>, Seq<u8>)> {
    match spec_parse_u64(buf, 0) {
        None => None,
        Some((pid, p1)) => match spec_parse_u64(buf, p1) {
            None => None,
            Some((count, p2)) => match spec_parse_accounts(buf, p2, count as nat) {
                None => None,
                Some((accs, p3)) => match spec_parse_u64(buf, p3) {
                    None => None,
                    Some((dlen, p4)) => match spec_parse_bytes(buf, p4, dlen as int) {
                        None => None,
                        Some((data, p5)) => if p5 == buf.len() {
                            Some((pid, accs, data))
                        } else {
                            None
                        },
                    },
                },
            },
        },
    }
}

/// Every record's data length fits the eight-byte length field.
pub open spec fn data_bounded(accs: Seq<AccountView>) -> bool {
    forall|k: int| 0 <= k < accs.len() ==> #[trigger] accs[k].data.len() <= u64::MAX
}

/// A little-endian integer written into a buffer reads back as itself.
pub proof fn lemma_parse_u64_exact(buf: Seq<u8>, pos: int, x: u64)
    requires
        0 <= pos,
        pos + 8 <= buf.len(),
        buf.subrange(pos, pos + 8) == spec_u64_to_le_bytes(x),
    ensures
        spec_parse_u64(buf, pos) == Some((x, pos + 8)),
{
    lemma_auto_spec_u64_to_from_le_bytes();
}

/// An account record written into a buffer reads back as itself.
pub proof fn lemma_parse_account_exact(buf: Seq<u8>, pos: int, a: AccountView)
    requires
        0 <= pos,
        a.data.len() <= u64::MAX,
        pos + spec_ser_account(a).len() <= buf.len(),
        buf.subrange(pos, pos + spec_ser_account(a).len()) == spec_ser_account(a),
    ensures
        spec_parse_account(buf, pos) == Some((a, pos + spec_ser_account(a).len())),
{
    lemma_auto_spec_u64_to_from_le_bytes();
    let s = spec_ser_account(a);
    let ky = spec_u64_to_le_bytes(a.key);
    let lm = spec_u64_to_le_bytes(a.lamports);
    let ow = spec_u64_to_le_bytes(a.owner);
    let dl = spec_u64_to_le_bytes(a.data.len() as u64);
    assert(s == ky + lm + ow + dl + a.data);
    assert(s.len() == 32 + a.data.len());
    assert forall|j: int| 0 <= j < s.len() implies buf[pos + j] == s[j] by {
        assert(buf.subrange(pos, pos + s.len())[j] == s[j]);
    }
    assert forall|j: int| 0 <= j < 8 implies s[j] == ky[j] && s[8 + j] == lm[j] && s[16 + j]
        == ow[j] && s[24 + j] == dl[j] by {
        assert((ky + lm + ow + dl + a.data)[j] == ky[j]);
        assert((ky + lm + ow + dl + a.data)[8 + j] == lm[j]);
        assert((ky + lm + ow + dl + a.data)[16 + j] == ow[j]);
        assert((ky + lm + ow + dl + a.data)[24 + j] == dl[j]);
    }
    assert forall|j: int| 0 <= j < a.data.len() implies s[32 + j] == a.data[j] by {
        assert((ky + lm + ow + dl + a.data)[32 + j] == a.data[j]);
    }
    assert(buf.subrange(pos, pos + 8) =~= ky);
    lemma_parse_u64_exact(buf, pos, a.key);
    assert(buf.subrange(pos + 8, pos + 16) =~= lm);
    lemma_parse_u64_exact(buf, pos + 8, a.lamports);
    assert(buf.subrange(pos + 16, pos + 24) =~= ow);
    lemma_parse_u64_exact(buf, pos + 16, a.owner);
    assert(buf.subrange(pos + 24, pos + 32) =~= dl);
    lemma_parse_u64_exact(buf, pos + 24, a.data.len() as u64);
    assert(buf.subrange(pos + 32, pos + 32 + a.data.len()) =~= a.data);
}

/// A run of account records written into a buffer reads back as itself.
pub proof fn lemma_parse_accounts_exact(buf: Seq<u8>, pos: int, accs: Seq<AccountView>)
    requires
        0 <= pos,
        data_bounded(accs),
        pos + spec_ser_accounts(accs).len() <= buf.len(),
        buf.subrange(pos, pos + spec_ser_accounts(accs).len()) == spec_ser_accounts(accs),
    ensures
        spec_parse_accounts(buf, pos, accs.len()) == Some(
            (accs, pos + spec_ser_accounts(accs).len()),
        ),
    decreases accs.len(),
{
    if accs.len() == 0 {
        assert(accs =~= Seq::<AccountView>::empty());
    } else {
        let a = accs.first();
        let s0 = spec_ser_account(a);
        let rest = spec_ser_accounts(accs.drop_first());
        assert(spec_ser_accounts(accs) == s0 + rest);
        let s = s0 + rest;
        assert forall|j: int| 0 <= j < s.len() implies buf[pos + j] == s[j] by {
            assert(buf.subrange(pos, pos + s.len())[j] == s[j]);
        }
        assert(buf.subrange(pos, pos + s0.len()) =~= s0) by {
            assert forall|j: int| 0 <= j < s0.len() implies buf[pos + j] == s0[j] by {
                assert((s0 + rest)[j] == s0[j]);
            }
        }
        lemma_parse_account_exact(buf, pos, a);
        assert(buf.subrange(pos + s0.len(), pos + s0.len() + rest.len()) =~= rest) by {
            assert forall|j: int| 0 <= j < rest.len() implies buf[pos + s0.len() + j]
                == rest[j] by {
                assert((s0 + rest)[s0.len() + j] == rest[j]);
            }
        }
        assert(data_bounded(accs.drop_first())) by {
            assert(forall|k: int|
                0 <= k < accs.drop_first().len() ==> accs.drop_first()[k] == accs[k + 1]);
        }
        lemma_parse_accounts_exact(buf, pos + s0.len(), accs.drop_first());
        assert(seq![a] + accs.drop_first() =~= accs);
    }
}

/// The round trip of the parameter bridge: deserializing a buffer that
/// `serialize_parameters` just produced yields exactly the program id,
/// account states and payload that went in — no program mutation yet
/// applied.
pub proof fn lemma_serialize_round_trip(program_id: u64, accs: Seq<AccountView>, data: Seq<u8>)
    requires
        accs.len() <= u64::MAX,
        data.len() <= u64::MAX,
        data_bounded(accs),
    ensures
        spec_deserialize(spec_serialize(program_id, accs, data)) == Some(
            (program_id, accs, data),
        ),
{
    lemma_auto_spec_u64_to_from_le_bytes();
    let buf = spec_serialize(program_id, accs, data);
    let mid = spec_ser_accounts(accs).len() as int;
    assert(buf.len() == 8 + 8 + mid + 8 + data.len());
    assert(buf.subrange(0, 8) =~= spec_u64_to_le_bytes(program_id));
    lemma_parse_u64_exact(buf, 0, program_id);
    assert(buf.subrange(8, 16) =~= spec_u64_to_le_bytes(accs.len() as u64));
    lemma_parse_u64_exact(buf, 8, accs.len() as u64);
    assert(buf.subrange(16, 16 + mid) =~= spec_ser_accounts(accs));
    lemma_parse_accounts_exact(buf, 16, accs);
    assert(buf.subrange(16 + mid, 24 + mid) =~= spec_u64_to_le_bytes(data.len() as u64));
    lemma_parse_u64_exact(buf, 16 + mid, data.len() as u64);
    assert(buf.subrange(24 + mid, 24 + mid + data.len()) =~= data);
}

/// Appends a byte vector.
pub fn append_bytes(dst: &mut Vec<u8>, src: &Vec<u8>)
    ensures
        final(dst)@ == old(dst)@ + src@,
{
    let n: usize = src.len();
    let mut i: usize = 0;
    while i < n
        invariant
            n == src@.len(),
            i <= n,
            dst@ == old(dst)@ + src@.take(i as int),
        decreases n - i,
    {
        dst.push(src[i]);
        proof {
            assert(old(dst)@ + src@.take(i + 1 as int) =~= (old(dst)@ + src@.take(i as int)).push(
                src@[i as int],
            ));
        }
        i += 1;
    }
    proof {
        assert(old(dst)@ + src@.take(n as int) =~= old(dst)@ + src@);
    }
}

/// Appends one little-endian integer.
pub fn append_u64(dst: &mut Vec<u8>, x: u64)
    ensures
        final(dst)@ == old(dst)@ + spec_u64_to_le_bytes(x),
{
    let bytes = u64_to_le_bytes(x);
    append_bytes(dst, &bytes);
}

/// Appending the encoding of one more record extends the encoding of a run.
pub proof fn lemma_ser_accounts_snoc(accs: Seq<AccountView>, a: AccountView)
    ensures
        spec_ser_accounts(accs.push(a)) == spec_ser_accounts(accs) + spec_ser_account(a),
    decreases accs.len(),
{
    if accs.len() == 0 {
        assert(accs.push(a).first() == a);
        assert(accs.push(a).drop_first() =~= Seq::<AccountView>::empty());
        assert(spec_ser_accounts(Seq::<AccountView>::empty()) == Seq::<u8>::empty());
        assert(spec_ser_accounts(accs.push(a)) == spec_ser_account(a) + Seq::<u8>::empty());
        assert(spec_ser_account(a) + Seq::<u8>::empty() =~= spec_ser_account(a));
        assert(spec_ser_accounts(accs) + spec_ser_account(a) =~= spec_ser_account(a));
    } else {
        assert(accs.push(a).drop_first() =~= accs.drop_first().push(a));
        lemma_ser_accounts_snoc(accs.drop_first(), a);
        assert(spec_ser_accounts(accs.push(a)) == spec_ser_account(accs.first()) + (
        spec_ser_accounts(accs.drop_first()) + spec_ser_account(a)));
        assert(spec_ser_account(accs.first()) + (spec_ser_accounts(accs.drop_first())
            + spec_ser_account(a)) =~= (spec_ser_account(accs.first()) + spec_ser_accounts(
            accs.drop_first(),
        )) + spec_ser_account(a));
    }
}

/// Flattens the program id, account records and payload of one instruction
/// into the contiguous parameter buffer, copying account data rather than
/// mapping it: no virtual-machine memory space exists here.
pub fn serialize_parameters(
    program_id: u64,
    accounts: &Vec<FlatAccount>,
    instruction_data: &Vec<u8>,
) -> (buf: Vec<u8>)
    ensures
        buf@ == spec_serialize(program_id, flat_views(accounts@), instruction_data@),
{
    let mut buf: Vec<u8> = Vec::new();
    append_u64(&mut buf, program_id);
    append_u64(&mut buf, accounts.len() as u64);
    proof {
        assert(Seq::<u8>::empty() + spec_u64_to_le_bytes(program_id) =~= spec_u64_to_le_bytes(
            program_id,
        ));
        assert(flat_views(accounts@).take(0) =~= Seq::<AccountView>::empty());
        assert(buf@ + Seq::<u8>::empty() =~= buf@);
    }
    let ghost header = buf@;
    let n: usize = accounts.len();
    let mut i: usize = 0;
    while i < n
        invariant
            n == accounts@.len(),
            i <= n,
            buf@ == header + spec_ser_accounts(flat_views(accounts@).take(i as int)),
        decreases n - i,
    {
        let a = &accounts[i];
        append_u64(&mut buf, a.key);
        append_u64(&mut buf, a.lamports);
        append_u64(&mut buf, a.owner);
        append_u64(&mut buf, a.data.len() as u64);
        append_bytes(&mut buf, &a.data);
        proof {
            let views = flat_views(accounts@);
            assert(views.take(i + 1 as int) =~= views.take(i as int).push(views[i as int]));
            lemma_ser_accounts_snoc(views.take(i as int), views[i as int]);
            assert(buf@ =~= header + spec_ser_accounts(views.take(i + 1 as int)));
        }
        i += 1;
    }
    proof {
        assert(flat_views(accounts@).take(n as int) =~= flat_views(accounts@));
    }
    append_u64(&mut buf, instruction_data.len() as u64);
    append_bytes(&mut buf, instruction_data);
    proof {
        assert(buf@ =~= spec_serialize(program_id, flat_views(accounts@), instruction_data@));
    }
    buf
}

/// Reads one little-endian integer at `pos`.
pub fn read_u64(buf: &Vec<u8>, pos: usize) -> (r: Option<(u64, usize)>)
    ensures
        r matches Some(p) ==> spec_parse_u64(buf@, pos as int) == Some((p.0, p.1 as int)),
        r is None ==> spec_parse_u64(buf@, pos as int) is None,
{
    if pos > buf.len() || buf.len() - pos < 8 {
        return None;
    }
    let bytes = slice_subrange(buf.as_slice(), pos, pos + 8);
    Some((u64_from_le_bytes(bytes), pos + 8))
}

/// Reads `n` raw bytes at `pos`.
pub fn read_bytes(buf: &Vec<u8>, pos: usize, n: usize) -> (r: Option<(Vec<u8>, usize)>)
    ensures
        r matches Some(p) ==> spec_parse_bytes(buf@, pos as int, n as int) == Some(
            (p.0@, p.1 as int),
        ),
        r is None ==> spec_parse_bytes(buf@, pos as int, n as int) is None,
{
    if pos > buf.len() || buf.len() - pos < n {
        return None;
    }
    let bytes = slice_subrange(buf.as_slice(), pos, pos + n);
    Some((slice_to_vec(bytes), pos + n))
}

/// Reads one account record at `pos`.
pub fn read_account(buf: &Vec<u8>, pos: usize) -> (r: Option<(FlatAccount, usize)>)
    ensures
        r matches Some(p) ==> spec_parse_account(buf@, pos as int) == Some((p.0@, p.1 as int)),
        r is None ==> spec_parse_account(buf@, pos as int) is None,
{
    let (key, p1) = match read_u64(buf, pos) {
        Some(p) => p,
        None => {
            return None;
        },
    };
    let (lamports, p2) = match read_u64(buf, p1) {
        Some(p) => p,
        None => {
            return None;
        },
    };
    let (owner, p3) = match read_u64(buf, p2) {
        Some(p) => p,
        None => {
            return None;
        },
    };
    let (dlen, p4) = match read_u64(buf, p3) {
        Some(p) => p,
        None => {
            return None;
        },
    };
    if p4 > buf.len() || ((buf.len() - p4) as u64) < dlen {
        return None;
    }
    let (data, p5) = match read_bytes(buf, p4, dlen as usize) {
        Some(p) => p,
        None => {
            return None;
        },
    };
    Some((FlatAccount { key, lamports, owner, data }, p5))
}

/// Reconstructs the typed views — program id, account records, payload —
/// from a flat parameter buffer, failing with the deserialization fault on
/// a buffer whose layout does not parse exactly.
pub fn deserialize_parameters(buf: &Vec<u8>) -> (r: Result<
    (u64, Vec<FlatAccount>, Vec<u8>),
    InvokeError,
>)
    ensures
        (spec_deserialize(buf@) matches Some(t) ==> (r matches Ok(v) && v.0 == t.0 && flat_views(
            v.1@,
        ) == t.1 && v.2@ == t.2)),
        spec_deserialize(buf@) is None ==> r == Err::<(u64, Vec<FlatAccount>, Vec<u8>),
            InvokeError,
        >(InvokeError::Deserialization),
{
    let (pid, p1) = match read_u64(buf, 0) {
        Some(p) => p,
        None => {
            return Err(InvokeError::Deserialization);
        },
    };
    let (count, p2) = match read_u64(buf, p1) {
        Some(p) => p,
        None => {
            return Err(InvokeError::Deserialization);
        },
    };
    let mut accounts: Vec<FlatAccount> = Vec::new();
    let mut pos: usize = p2;
    let mut k: u64 = 0;
    proof {
        assert(flat_views(accounts@) =~= Seq::<AccountView>::empty());
    }
    while k < count
        invariant
            k <= count,
            pos <= buf@.len(),
            spec_parse_u64(buf@, 0) == Some((pid, p1 as int)),
            spec_parse_u64(buf@, p1 as int) == Some((count, p2 as int)),
            ({
                let whole = spec_parse_accounts(buf@, p2 as int, count as nat);
                let rest = spec_parse_accounts(buf@, pos as int, (count - k) as nat);
                match rest {
                    None => whole is None,
                    Some(t) => whole == Some((flat_views(accounts@) + t.0, t.1)),
                }
            }),
        decreases count - k,
    {
        let parsed = match read_account(buf, pos) {
            Some(p) => p,
            None => {
                proof {
                    assert(spec_parse_accounts(buf@, pos as int, (count - k) as nat) is None);
                }
                return Err(InvokeError::Deserialization);
            },
        };
        let ghost front = flat_views(accounts@);
        let ghost a = parsed.0@;
        accounts.push(parsed.0);
        proof {
            assert(flat_views(accounts@) =~= front.push(a));
            let rest1 = spec_parse_accounts(buf@, parsed.1 as int, (count - k - 1) as nat);
            match rest1 {
                None => {},
                Some(t) => {
                    assert(front + (seq![a] + t.0) =~= front.push(a) + t.0);
                },
            }
        }
        pos = parsed.1;
        k = k + 1;
    }
    proof {
        assert(spec_parse_accounts(buf@, pos as int, 0) == Some(
            (Seq::<AccountView>::empty(), pos as int),
        ));
        assert(flat_views(accounts@) + Seq::<AccountView>::empty() =~= flat_views(accounts@));
    }
    let (dlen, p4) = match read_u64(buf, pos) {
        Some(p) => p,
        None => {
            return Err(InvokeError::Deserialization);
        },
    };
    if p4 > buf.len() || ((buf.len() - p4) as u64) < dlen {
        proof {
            assert(spec_parse_bytes(buf@, p4 as int, dlen as int) is None);
        }
        return Err(InvokeError::Deserialization);
    }
    let (data, p5) = match read_bytes(buf, p4, dlen as usize) {
        Some(p) => p,
        None => {
            return Err(InvokeError::Deserialization);
        },
    };
    if p5 != buf.len() {
        return Err(InvokeError::Deserialization);
    }
    Ok((pid, accounts, data))
}

} // verus!
