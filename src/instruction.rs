use vstd::prelude::*;
use crate::bytes::{le_value, read_array32, read_le};
use crate::error::ErrorCode;
use crate::guard::LeafProof;
use crate::issuance::MetadataArgsInput;
use crate::record::{read_str, str_bytes, str_fits};
use crate::registry::IssuerProfile;

verus! {

/// A decoded request. The first byte of the instruction data selects it; the
/// bytes after it hold its fixed-size arguments, little-endian.
#[derive(Clone, Copy, Debug)]
pub enum Instruction {
    InitializeIssuer,
    CreateMerkleTree { max_depth: u32, max_buffer_size: u32 },
    IssueCredential,
    TransferCredential(LeafProof),
    BurnCredential(LeafProof),
    VerifyProof,
}

/// Bytes of the arguments of a tree registration: depth and buffer size.
pub open spec fn tree_args_len() -> int {
    8
}

/// Bytes of a leaf proof: root, data hash and creator hash, nonce, index.
pub open spec fn proof_args_len() -> int {
    108
}

/// Whether `p` is the leaf proof that `args` encodes.
pub open spec fn proof_encoded_by(p: LeafProof, args: Seq<u8>) -> bool {
    &&& p.root@ == args.subrange(0, 32)
    &&& p.data_hash@ == args.subrange(32, 64)
    &&& p.creator_hash@ == args.subrange(64, 96)
    &&& p.nonce as nat == le_value(args.subrange(96, 104))
    &&& p.index as nat == le_value(args.subrange(104, 108))
}

/// Whether `data` decodes to `ins`: the tag selects the request, and its
/// arguments, when it has any, are read from the bytes that follow.
pub open spec fn decodes_to(data: Seq<u8>, ins: Instruction) -> bool {
    let args = data.drop_first();
    match ins {
        Instruction::InitializeIssuer => data[0] == 0,
        Instruction::CreateMerkleTree { max_depth, max_buffer_size } => {
            &&& data[0] == 1
            &&& args.len() >= tree_args_len()
            &&& max_depth as nat == le_value(args.subrange(0, 4))
            &&& max_buffer_size as nat == le_value(args.subrange(4, 8))
        },
        Instruction::IssueCredential => data[0] == 2,
        Instruction::TransferCredential(p) => data[0] == 3 && args.len() >= proof_args_len() && proof_encoded_by(p, args),
        Instruction::BurnCredential(p) => data[0] == 4 && args.len() >= proof_args_len() && proof_encoded_by(p, args),
        Instruction::VerifyProof => data[0] == 5,
    }
}

/// Whether `data` is a request this program understands: a known tag followed by
/// at least the bytes of its arguments.
pub open spec fn well_formed(data: Seq<u8>) -> bool {
    &&& data.len() > 0
    &&& data[0] <= 5
    &&& data[0] == 1 ==> data.len() - 1 >= tree_args_len()
    &&& (data[0] == 3 || data[0] == 4) ==> data.len() - 1 >= proof_args_len()
}

fn read_proof(data: &Vec<u8>) -> (r: LeafProof)
    requires
        data@.len() >= 1 + proof_args_len(),
    ensures
        proof_encoded_by(r, data@.drop_first()),
{
    let r = LeafProof {
        root: read_array32(data, 1),
        data_hash: read_array32(data, 33),
        creator_hash: read_array32(data, 65),
        nonce: read_le(data, 97, 8),
        index: read_le(data, 105, 4) as u32,
    };
    let ghost args = data@.drop_first();
    assert(args.subrange(0, 32) =~= data@.subrange(1, 33));
    assert(args.subrange(32, 64) =~= data@.subrange(33, 65));
    assert(args.subrange(64, 96) =~= data@.subrange(65, 97));
    assert(args.subrange(96, 104) =~= data@.subrange(97, 105));
    assert(args.subrange(104, 108) =~= data@.subrange(105, 109));
    r
}

/// Decodes instruction data. Empty data, an unknown tag, or arguments cut
/// short are refused as `InvalidInstruction`; bytes after the arguments are
/// ignored.
pub fn decode_instruction(data: &Vec<u8>) -> (r: Result<Instruction, ErrorCode>)
    ensures
        r is Ok <==> well_formed(data@),
        r matches Ok(ins) ==> decodes_to(data@, ins),
        r is Err ==> r == Err::<Instruction, ErrorCode>(ErrorCode::InvalidInstruction),
{
    let n: usize = data.len();
    if n == 0 {
        return Err(ErrorCode::InvalidInstruction);
    }
    let tag: u8 = data[0];
    if tag == 0 {
        Ok(Instruction::InitializeIssuer)
    } else if tag == 1 {
        if n < 9 {
            return Err(ErrorCode::InvalidInstruction);
        }
        let max_depth = read_le(data, 1, 4) as u32;
        let max_buffer_size = read_le(data, 5, 4) as u32;
        let ghost args = data@.drop_first();
        assert(args.subrange(0, 4) =~= data@.subrange(1, 5));
        assert(args.subrange(4, 8) =~= data@.subrange(5, 9));
        Ok(Instruction::CreateMerkleTree { max_depth, max_buffer_size })
    } else if tag == 2 {
        Ok(Instruction::IssueCredential)
    } else if tag == 3 || tag == 4 {
        if n < 109 {
            return Err(ErrorCode::InvalidInstruction);
        }
        let p = read_proof(data);
        if tag == 3 {
            Ok(Instruction::TransferCredential(p))
        } else {
            Ok(Instruction::BurnCredential(p))
        }
    } else if tag == 5 {
        Ok(Instruction::VerifyProof)
    } else {
        Err(ErrorCode::InvalidInstruction)
    }
}

/// Three length-prefixed strings, one after the other.
pub open spec fn three_strs(a: Seq<char>, b: Seq<char>, c: Seq<char>) -> Seq<u8> {
    str_bytes(a) + str_bytes(b) + str_bytes(c)
}

pub open spec fn three_fit(a: Seq<char>, b: Seq<char>, c: Seq<char>) -> bool {
    str_fits(a) && str_fits(b) && str_fits(c)
}

proof fn lemma_three_strs_layout(a: Seq<char>, b: Seq<char>, c: Seq<char>, rest: Seq<u8>)
    ensures
        (three_strs(a, b, c) + rest).subrange(0, str_bytes(a).len() as int) == str_bytes(a),
        (three_strs(a, b, c) + rest).subrange(str_bytes(a).len() as int, (str_bytes(a).len() + str_bytes(b).len()) as int) == str_bytes(b),
        (three_strs(a, b, c) + rest).subrange(
            (str_bytes(a).len() + str_bytes(b).len()) as int,
            (str_bytes(a).len() + str_bytes(b).len() + str_bytes(c).len()) as int,
        ) == str_bytes(c),
        (three_strs(a, b, c) + rest).subrange(
            three_strs(a, b, c).len() as int,
            (three_strs(a, b, c).len() + rest.len()) as int,
        ) == rest,
        three_strs(a, b, c).len() == str_bytes(a).len() + str_bytes(b).len() + str_bytes(c).len(),
{
    let t = three_strs(a, b, c) + rest;
    let la = str_bytes(a).len() as int;
    let lb = str_bytes(b).len() as int;
    let lc = str_bytes(c).len() as int;
    assert(t.subrange(0, la) =~= str_bytes(a));
    assert(t.subrange(la, la + lb) =~= str_bytes(b));
    assert(t.subrange(la + lb, la + lb + lc) =~= str_bytes(c));
    assert(t.subrange(la + lb + lc, la + lb + lc + rest.len()) =~= rest);
}

/// Reads three length-prefixed strings at `pos`, and the position after them.
/// Whenever the bytes there encode three strings, those strings are read.
fn read_three_strs(data: &Vec<u8>, pos: usize) -> (r: Option<(String, String, String, usize)>)
    requires
        pos <= data@.len(),
    ensures
        r matches Some((a, b, c, end)) ==> pos <= end <= data@.len() && three_fit(a@, b@, c@)
            && data@.subrange(pos as int, end as int) == three_strs(a@, b@, c@),
        forall|a: Seq<char>, b: Seq<char>, c: Seq<char>, rest: Seq<u8>|
            #![trigger three_strs(a, b, c) + rest]
            three_fit(a, b, c) && data@.subrange(pos as int, data@.len() as int) == three_strs(a, b, c) + rest ==> (r matches Some(
                (x, y, z, end),
            ) && x@ == a && y@ == b && z@ == c && end == pos + three_strs(a, b, c).len()),
{
    proof {
        assert forall|a: Seq<char>, b: Seq<char>, c: Seq<char>, rest: Seq<u8>|
            #![trigger three_strs(a, b, c) + rest]
            three_fit(a, b, c) && data@.subrange(pos as int, data@.len() as int) == three_strs(a, b, c) + rest implies {
                let la = str_bytes(a).len() as int;
                let lb = str_bytes(b).len() as int;
                let lc = str_bytes(c).len() as int;
                &&& pos + la + lb + lc <= data@.len()
                &&& data@.subrange(pos as int, pos + la) == str_bytes(a)
                &&& data@.subrange(pos + la, pos + la + lb) == str_bytes(b)
                &&& data@.subrange(pos + la + lb, pos + la + lb + lc) == str_bytes(c)
            } by {
            lemma_three_strs_layout(a, b, c, rest);
            let la = str_bytes(a).len() as int;
            let lb = str_bytes(b).len() as int;
            let lc = str_bytes(c).len() as int;
            let tail = data@.subrange(pos as int, data@.len() as int);
            assert(tail.len() == la + lb + lc + rest.len());
            assert(data@.subrange(pos as int, pos + la) =~= tail.subrange(0, la));
            assert(data@.subrange(pos + la, pos + la + lb) =~= tail.subrange(la, la + lb));
            assert(data@.subrange(pos + la + lb, pos + la + lb + lc) =~= tail.subrange(la + lb, la + lb + lc));
        }
    }
    let (a, first) = match read_str(data, pos) {
        Some(x) => x,
        None => return None,
    };
    let (b, second) = match read_str(data, first) {
        Some(x) => x,
        None => return None,
    };
    let (c, third) = match read_str(data, second) {
        Some(x) => x,
        None => return None,
    };
    proof {
        assert(data@.subrange(pos as int, third as int) =~= data@.subrange(pos as int, first as int) + data@.subrange(
            first as int,
            second as int,
        ) + data@.subrange(second as int, third as int));
    }
    Some((a, b, c, third))
}

/// Decodes the issuer profile that follows the tag of an initialization: name,
/// logo locator and website, each a length-prefixed string, and nothing after.
pub fn decode_profile(data: &Vec<u8>) -> (r: Result<IssuerProfile, ErrorCode>)
    requires
        data@.len() >= 1,
    ensures
        r matches Ok(p) ==> three_fit(p.name@, p.logo_uri@, p.website@) && data@.drop_first() == three_strs(
            p.name@,
            p.logo_uri@,
            p.website@,
        ),
        r is Err ==> r == Err::<IssuerProfile, ErrorCode>(ErrorCode::InvalidInstruction),
        forall|a: Seq<char>, b: Seq<char>, c: Seq<char>|
            #![trigger three_strs(a, b, c)]
            three_fit(a, b, c) && data@.drop_first() == three_strs(a, b, c) ==> (r matches Ok(p) && p.name@ == a
                && p.logo_uri@ == b && p.website@ == c),
{
    let n: usize = data.len();
    proof {
        assert forall|a: Seq<char>, b: Seq<char>, c: Seq<char>|
            #![trigger three_strs(a, b, c)]
            three_fit(a, b, c) && data@.drop_first() == three_strs(a, b, c) implies data@.subrange(1, data@.len() as int)
            == three_strs(a, b, c) + Seq::<u8>::empty() by {
            assert(data@.subrange(1, data@.len() as int) =~= data@.drop_first());
            assert(three_strs(a, b, c) + Seq::<u8>::empty() =~= three_strs(a, b, c));
        }
    }
    match read_three_strs(data, 1) {
        Some((name, logo_uri, website, end)) => {
            if end != n {
                return Err(ErrorCode::InvalidInstruction);
            }
            assert(data@.subrange(1, n as int) =~= data@.drop_first());
            Ok(IssuerProfile { name, logo_uri, website })
        },
        None => Err(ErrorCode::InvalidInstruction),
    }
}

/// Decodes the credential metadata that follows the tag of an issuance: name,
/// symbol and locator, each a length-prefixed string, then the two-byte seller
/// fee, and nothing after. No creators or collection are carried.
pub fn decode_metadata(data: &Vec<u8>) -> (r: Result<MetadataArgsInput, ErrorCode>)
    requires
        data@.len() >= 1,
    ensures
        r matches Ok(m) ==> three_fit(m.name@, m.symbol@, m.uri@) && data@.drop_first() == three_strs(
            m.name@,
            m.symbol@,
            m.uri@,
        ) + crate::bytes::digits(m.seller_fee_basis_points as int, 2) && m.creators is None && m.collection is None,
        r is Err ==> r == Err::<MetadataArgsInput, ErrorCode>(ErrorCode::InvalidInstruction),
        forall|a: Seq<char>, b: Seq<char>, c: Seq<char>, fee: u16|
            #![trigger three_strs(a, b, c) + crate::bytes::digits(fee as int, 2)]
            three_fit(a, b, c) && data@.drop_first() == three_strs(a, b, c) + crate::bytes::digits(fee as int, 2) ==> (r matches Ok(m)
                && m.name@ == a && m.symbol@ == b && m.uri@ == c && m.seller_fee_basis_points == fee),
{
    let n: usize = data.len();
    proof {
        assert forall|a: Seq<char>, b: Seq<char>, c: Seq<char>, fee: u16|
            #![trigger three_strs(a, b, c) + crate::bytes::digits(fee as int, 2)]
            three_fit(a, b, c) && data@.drop_first() == three_strs(a, b, c) + crate::bytes::digits(fee as int, 2)
            implies data@.subrange(1, data@.len() as int) == three_strs(a, b, c) + crate::bytes::digits(fee as int, 2) by {
            assert(data@.subrange(1, data@.len() as int) =~= data@.drop_first());
        }
    }
    let got = read_three_strs(data, 1);
    match got {
        Some((name, symbol, uri, end)) => {
            if n - end != 2 {
                proof {
                    assert forall|a: Seq<char>, b: Seq<char>, c: Seq<char>, fee: u16|
                        #![trigger three_strs(a, b, c) + crate::bytes::digits(fee as int, 2)]
                        !(three_fit(a, b, c) && data@.drop_first() == three_strs(a, b, c) + crate::bytes::digits(fee as int, 2)) by {
                        if three_fit(a, b, c) && data@.drop_first() == three_strs(a, b, c) + crate::bytes::digits(fee as int, 2) {
                            let rest = crate::bytes::digits(fee as int, 2);
                            assert(data@.subrange(1, data@.len() as int) == three_strs(a, b, c) + rest);
                            assert(got matches Some((x, y, z, e)) && e == 1 + three_strs(a, b, c).len());
                            assert(rest.len() == 2);
                        }
                    }
                }
                return Err(ErrorCode::InvalidInstruction);
            }
            let fee = read_le(data, end, 2) as u16;
            proof {
                crate::bytes::lemma_digits_le_value(data@.subrange(end as int, n as int));
                assert(data@.drop_first() =~= data@.subrange(1, end as int) + data@.subrange(end as int, n as int));
                assert forall|a: Seq<char>, b: Seq<char>, c: Seq<char>, f: u16|
                    #![trigger three_strs(a, b, c) + crate::bytes::digits(f as int, 2)]
                    three_fit(a, b, c) && data@.drop_first() == three_strs(a, b, c) + crate::bytes::digits(f as int, 2) implies f == fee by {
                    lemma_three_strs_layout(a, b, c, crate::bytes::digits(f as int, 2));
                    assert(data@.subrange(end as int, n as int) =~= (three_strs(a, b, c) + crate::bytes::digits(f as int, 2)).subrange(
                        three_strs(a, b, c).len() as int,
                        three_strs(a, b, c).len() as int + 2,
                    ));
                    assert(crate::bytes::pow256(2) == 0x10000) by {
                        reveal_with_fuel(crate::bytes::pow256, 3);
                    }
                    crate::bytes::lemma_le_value_digits(f as int, 2);
                }
            }
            Ok(MetadataArgsInput { name, symbol, uri, seller_fee_basis_points: fee, creators: None, collection: None })
        },
        None => Err(ErrorCode::InvalidInstruction),
    }
}

} // verus!
