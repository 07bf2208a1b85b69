use vstd::prelude::*;
use vstd::utf8::{decode_utf8, encode_utf8, encode_utf8_decode_utf8, encode_utf8_valid_utf8, decode_utf8_encode_utf8, valid_utf8};
use crate::address::Address;
use crate::bytes::{append_bytes, copy_range, digits, le_bytes, le_digits, lemma_digits_le_value, lemma_le_value_digits, pow256, read_array32, read_le, u32_le, u64_le};
use crate::error::ErrorCode;
use crate::registry::{IssuerData, MerkleTreeData};

verus! {

/// The UTF-8 bytes of a string, after their count as four little-endian bytes.
pub open spec fn str_bytes(s: Seq<char>) -> Seq<u8> {
    u32_le(encode_utf8(s).len() as int) + encode_utf8(s)
}

/// Whether the UTF-8 length of a string fits in its four-byte prefix.
pub open spec fn str_fits(s: Seq<char>) -> bool {
    encode_utf8(s).len() <= u32::MAX
}

/// Relies on `String::from_utf8`: it accepts exactly the valid UTF-8 byte
/// strings, and then holds the characters they encode.
#[verifier::external_body]
fn string_from_utf8(bytes: Vec<u8>) -> (r: Option<String>)
    ensures
        r is Some <==> valid_utf8(bytes@),
        r matches Some(s) ==> s@ == decode_utf8(bytes@),
{
    String::from_utf8(bytes).ok()
}

/// Appends a string with its length prefix; `false`, with nothing appended, when
/// the string is too long for the prefix.
pub fn write_str(out: &mut Vec<u8>, s: &String) -> (r: bool)
    ensures
        r == str_fits(s@),
        r ==> final(out)@ == old(out)@ + str_bytes(s@),
        !r ==> final(out)@ == old(out)@,
{
    let b: &[u8] = s.as_str().as_bytes();
    let n: usize = b.len();
    if n > 0xffff_ffff {
        return false;
    }
    let prefix = le_digits(n as u64, 4);
    append_bytes(out, prefix.as_slice());
    append_bytes(out, b);
    assert(out@ =~= old(out)@ + str_bytes(s@));
    true
}

/// Reads a length-prefixed string at `pos`: the string and the position after it.
/// Whenever the bytes there are the encoding of some string, that string is read.
pub fn read_str(data: &Vec<u8>, pos: usize) -> (r: Option<(String, usize)>)
    requires
        pos <= data@.len(),
    ensures
        r matches Some((s, end)) ==> pos <= end <= data@.len() && str_fits(s@) && data@.subrange(pos as int, end as int)
            == str_bytes(s@),
        forall|c: Seq<char>|
            #![trigger str_bytes(c)]
            str_fits(c) && pos + str_bytes(c).len() <= data@.len() && data@.subrange(pos as int, pos + str_bytes(c).len())
                == str_bytes(c) ==> (r matches Some((s, end)) && s@ == c && end == pos + str_bytes(c).len()),
{
    let n: usize = data.len();
    if n - pos < 4 {
        proof {
            assert forall|c: Seq<char>| #![trigger str_bytes(c)] !(pos + str_bytes(c).len() <= data@.len()) by {}
        }
        return None;
    }
    let len: u64 = read_le(data, pos, 4);
    let start: usize = pos + 4;
    let ghost prefix = data@.subrange(pos as int, start as int);
    proof {
        lemma_digits_le_value(prefix);
        assert forall|c: Seq<char>|
            #![trigger str_bytes(c)]
            str_fits(c) && pos + str_bytes(c).len() <= data@.len() && data@.subrange(pos as int, pos + str_bytes(c).len())
                == str_bytes(c) implies len == encode_utf8(c).len() by {
            assert(data@.subrange(pos as int, start as int) =~= str_bytes(c).subrange(0, 4));
            assert(str_bytes(c).subrange(0, 4) =~= u32_le(encode_utf8(c).len() as int));
            assert(pow256(4) == 0x1_0000_0000) by {
                reveal_with_fuel(pow256, 5);
            }
            lemma_le_value_digits(encode_utf8(c).len() as int, 4);
        }
    }
    if ((n - start) as u64) < len {
        proof {
            assert forall|c: Seq<char>|
                #![trigger str_bytes(c)]
                !(str_fits(c) && pos + str_bytes(c).len() <= data@.len() && data@.subrange(pos as int, pos + str_bytes(c).len())
                    == str_bytes(c)) by {
                if str_fits(c) && pos + str_bytes(c).len() <= data@.len() && data@.subrange(pos as int, pos + str_bytes(c).len())
                    == str_bytes(c) {
                    assert(len == encode_utf8(c).len());
                }
            }
        }
        return None;
    }
    let end: usize = start + len as usize;
    let bytes = copy_range(data, start, end);
    let ghost raw = bytes@;
    proof {
        assert forall|c: Seq<char>|
            #![trigger str_bytes(c)]
            str_fits(c) && pos + str_bytes(c).len() <= data@.len() && data@.subrange(pos as int, pos + str_bytes(c).len())
                == str_bytes(c) implies raw == encode_utf8(c) && decode_utf8(raw) == c && valid_utf8(raw) by {
            assert(raw =~= str_bytes(c).subrange(4, str_bytes(c).len() as int));
            assert(str_bytes(c).subrange(4, str_bytes(c).len() as int) =~= encode_utf8(c));
            encode_utf8_valid_utf8(c);
            encode_utf8_decode_utf8(c);
        }
    }
    match string_from_utf8(bytes) {
        Some(s) => {
            proof {
                decode_utf8_encode_utf8(raw);
                assert(data@.subrange(pos as int, end as int) =~= prefix + raw);
            }
            Some((s, end))
        },
        None => {
            proof {
                assert forall|c: Seq<char>|
                    #![trigger str_bytes(c)]
                    !(str_fits(c) && pos + str_bytes(c).len() <= data@.len() && data@.subrange(pos as int, pos + str_bytes(c).len())
                        == str_bytes(c)) by {
                    if str_fits(c) && pos + str_bytes(c).len() <= data@.len() && data@.subrange(pos as int, pos + str_bytes(c).len())
                        == str_bytes(c) {
                        encode_utf8_valid_utf8(c);
                    }
                }
            }
            None
        },
    }
}

/// Version byte that starts every stored record.
pub const RECORD_VERSION: u8 = 1;

pub open spec fn bool_byte(b: bool) -> u8 {
    if b { 1 } else { 0 }
}

/// The stored form of an issuer record, fields in declaration order.
pub open spec fn issuer_bytes(r: IssuerData) -> Seq<u8> {
    seq![RECORD_VERSION] + r.authority@ + str_bytes(r.name@) + str_bytes(r.logo_uri@) + str_bytes(r.website@) + seq![
        r.bump,
        bool_byte(r.is_active),
    ] + u64_le(r.credential_count) + u64_le(r.merkle_tree_count)
}

/// Whether every string of an issuer record fits its length prefix.
pub open spec fn issuer_fits(r: IssuerData) -> bool {
    str_fits(r.name@) && str_fits(r.logo_uri@) && str_fits(r.website@)
}

/// Whether two issuer records hold the same values.
pub open spec fn same_issuer(a: IssuerData, b: IssuerData) -> bool {
    &&& a.authority@ == b.authority@
    &&& a.name@ == b.name@
    &&& a.logo_uri@ == b.logo_uri@
    &&& a.website@ == b.website@
    &&& a.bump == b.bump
    &&& a.is_active == b.is_active
    &&& a.credential_count == b.credential_count
    &&& a.merkle_tree_count == b.merkle_tree_count
}

/// Where each field of an issuer record's stored form starts.
pub open spec fn issuer_logo_at(r: IssuerData) -> int {
    33 + str_bytes(r.name@).len() as int
}

pub open spec fn issuer_website_at(r: IssuerData) -> int {
    issuer_logo_at(r) + str_bytes(r.logo_uri@).len() as int
}

pub open spec fn issuer_tail_at(r: IssuerData) -> int {
    issuer_website_at(r) + str_bytes(r.website@).len() as int
}

/// The position of each field in the stored form of an issuer record.
pub open spec fn issuer_layout(r: IssuerData) -> bool {
    &&& r.authority@.len() == 32
    &&& issuer_bytes(r).len() == issuer_tail_at(r) + 18
    &&& issuer_bytes(r)[0] == RECORD_VERSION
    &&& issuer_bytes(r).subrange(1, 33) == r.authority@
    &&& issuer_bytes(r).subrange(33, issuer_logo_at(r)) == str_bytes(r.name@)
    &&& issuer_bytes(r).subrange(issuer_logo_at(r), issuer_website_at(r)) == str_bytes(r.logo_uri@)
    &&& issuer_bytes(r).subrange(issuer_website_at(r), issuer_tail_at(r)) == str_bytes(r.website@)
    &&& issuer_bytes(r)[issuer_tail_at(r)] == r.bump
    &&& issuer_bytes(r)[issuer_tail_at(r) + 1] == bool_byte(r.is_active)
    &&& issuer_bytes(r).subrange(issuer_tail_at(r) + 2, issuer_tail_at(r) + 10) == u64_le(r.credential_count)
    &&& issuer_bytes(r).subrange(issuer_tail_at(r) + 10, issuer_tail_at(r) + 18) == u64_le(r.merkle_tree_count)
}

proof fn lemma_issuer_layout(r: IssuerData)
    ensures
        issuer_layout(r),
{
    let b = issuer_bytes(r);
    let t = issuer_tail_at(r);
    assert(b.subrange(1, 33) =~= r.authority@);
    assert(b.subrange(33, issuer_logo_at(r)) =~= str_bytes(r.name@));
    assert(b.subrange(issuer_logo_at(r), issuer_website_at(r)) =~= str_bytes(r.logo_uri@));
    assert(b.subrange(issuer_website_at(r), t) =~= str_bytes(r.website@));
    assert(b.subrange(t + 2, t + 10) =~= u64_le(r.credential_count));
    assert(b.subrange(t + 10, t + 18) =~= u64_le(r.merkle_tree_count));
}

/// Encodes an issuer record for storage; `InvalidRecordData` when one of its
/// strings is too long for its length prefix.
pub fn encode_issuer_data(r: &IssuerData) -> (out: Result<Vec<u8>, ErrorCode>)
    ensures
        out is Ok <==> issuer_fits(*r),
        out matches Ok(b) ==> b@ == issuer_bytes(*r),
        out is Err ==> out == Err::<Vec<u8>, ErrorCode>(ErrorCode::InvalidRecordData),
{
    let mut b: Vec<u8> = vec![RECORD_VERSION];
    let a = r.authority.to_vec();
    append_bytes(&mut b, a.as_slice());
    if !write_str(&mut b, &r.name) {
        return Err(ErrorCode::InvalidRecordData);
    }
    if !write_str(&mut b, &r.logo_uri) {
        return Err(ErrorCode::InvalidRecordData);
    }
    if !write_str(&mut b, &r.website) {
        return Err(ErrorCode::InvalidRecordData);
    }
    b.push(r.bump);
    b.push(if r.is_active { 1 } else { 0 });
    let c = le_bytes(r.credential_count);
    append_bytes(&mut b, c.as_slice());
    let m = le_bytes(r.merkle_tree_count);
    append_bytes(&mut b, m.as_slice());
    assert(b@ =~= issuer_bytes(*r));
    Ok(b)
}

fn read_u64(data: &Vec<u8>, pos: usize) -> (r: u64)
    requires
        pos + 8 <= data@.len(),
    ensures
        data@.subrange(pos as int, pos + 8) == u64_le(r),
        forall|v: u64| #![trigger u64_le(v)] data@.subrange(pos as int, pos + 8) == u64_le(v) ==> r == v,
{
    let r = read_le(data, pos, 8);
    proof {
        lemma_digits_le_value(data@.subrange(pos as int, pos + 8));
        assert forall|v: u64| #![trigger u64_le(v)] data@.subrange(pos as int, pos + 8) == u64_le(v) implies r == v by {
            assert(pow256(8) == 0x1_0000_0000_0000_0000) by {
                reveal_with_fuel(pow256, 9);
            }
            lemma_le_value_digits(v as int, 8);
        }
    }
    r
}

/// Decodes a stored issuer record. Whatever bytes are not the stored form of
/// some record are refused as `InvalidRecordData`.
pub fn decode_issuer_data(data: &Vec<u8>) -> (r: Result<IssuerData, ErrorCode>)
    ensures
        r matches Ok(rec) ==> issuer_fits(rec) && issuer_bytes(rec) == data@,
        r is Err ==> r == Err::<IssuerData, ErrorCode>(ErrorCode::InvalidRecordData),
        forall|rec: IssuerData|
            #![trigger issuer_bytes(rec)]
            issuer_fits(rec) && issuer_bytes(rec) == data@ ==> (r matches Ok(d) && same_issuer(d, rec)),
{
    proof {
        assert forall|rec: IssuerData|
            #![trigger issuer_bytes(rec)]
            issuer_fits(rec) && issuer_bytes(rec) == data@ implies issuer_layout(rec) by {
            lemma_issuer_layout(rec);
        }
    }
    let n: usize = data.len();
    if n < 33 || data[0] != RECORD_VERSION {
        return Err(ErrorCode::InvalidRecordData);
    }
    let authority = Address { bytes: read_array32(data, 1) };
    let (name, after_name) = match read_str(data, 33) {
        Some(x) => x,
        None => return Err(ErrorCode::InvalidRecordData),
    };
    let (logo_uri, after_logo) = match read_str(data, after_name) {
        Some(x) => x,
        None => return Err(ErrorCode::InvalidRecordData),
    };
    let (website, after_website) = match read_str(data, after_logo) {
        Some(x) => x,
        None => return Err(ErrorCode::InvalidRecordData),
    };
    if n - after_website != 18 {
        return Err(ErrorCode::InvalidRecordData);
    }
    let bump: u8 = data[after_website];
    let active: u8 = data[after_website + 1];
    if active > 1 {
        return Err(ErrorCode::InvalidRecordData);
    }
    let credential_count = read_u64(data, after_website + 2);
    let merkle_tree_count = read_u64(data, after_website + 10);
    let rec = IssuerData {
        authority,
        name,
        logo_uri,
        website,
        bump,
        is_active: active == 1,
        credential_count,
        merkle_tree_count,
    };
    proof {
        lemma_issuer_layout(rec);
        assert(issuer_bytes(rec) =~= data@);
    }
    Ok(rec)
}

/// The two's-complement bits of a timestamp, as an unsigned number.
pub open spec fn i64_bits(n: i64) -> int {
    if n >= 0 { n as int } else { n as int + 0x1_0000_0000_0000_0000 }
}

/// The stored form of a tree record, fields in declaration order.
pub open spec fn tree_bytes(t: MerkleTreeData) -> Seq<u8> {
    seq![RECORD_VERSION] + t.authority@ + t.merkle_tree@ + u32_le(t.max_depth as int) + u32_le(t.max_buffer_size as int)
        + str_bytes(t.tree_name@) + digits(i64_bits(t.created_at), 8) + seq![bool_byte(t.is_active)]
}

/// Whether two tree records hold the same values.
pub open spec fn same_tree(a: MerkleTreeData, b: MerkleTreeData) -> bool {
    &&& a.authority@ == b.authority@
    &&& a.merkle_tree@ == b.merkle_tree@
    &&& a.max_depth == b.max_depth
    &&& a.max_buffer_size == b.max_buffer_size
    &&& a.tree_name@ == b.tree_name@
    &&& a.created_at == b.created_at
    &&& a.is_active == b.is_active
}

pub open spec fn tree_tail_at(t: MerkleTreeData) -> int {
    73 + str_bytes(t.tree_name@).len() as int
}

/// The position of each field in the stored form of a tree record.
pub open spec fn tree_layout(t: MerkleTreeData) -> bool {
    &&& t.authority@.len() == 32
    &&& t.merkle_tree@.len() == 32
    &&& tree_bytes(t).len() == tree_tail_at(t) + 9
    &&& tree_bytes(t)[0] == RECORD_VERSION
    &&& tree_bytes(t).subrange(1, 33) == t.authority@
    &&& tree_bytes(t).subrange(33, 65) == t.merkle_tree@
    &&& tree_bytes(t).subrange(65, 69) == u32_le(t.max_depth as int)
    &&& tree_bytes(t).subrange(69, 73) == u32_le(t.max_buffer_size as int)
    &&& tree_bytes(t).subrange(73, tree_tail_at(t)) == str_bytes(t.tree_name@)
    &&& tree_bytes(t).subrange(tree_tail_at(t), tree_tail_at(t) + 8) == digits(i64_bits(t.created_at), 8)
    &&& tree_bytes(t)[tree_tail_at(t) + 8] == bool_byte(t.is_active)
}

proof fn lemma_tree_layout(t: MerkleTreeData)
    ensures
        tree_layout(t),
{
    let b = tree_bytes(t);
    let e = tree_tail_at(t);
    assert(b.subrange(1, 33) =~= t.authority@);
    assert(b.subrange(33, 65) =~= t.merkle_tree@);
    assert(b.subrange(65, 69) =~= u32_le(t.max_depth as int));
    assert(b.subrange(69, 73) =~= u32_le(t.max_buffer_size as int));
    assert(b.subrange(73, e) =~= str_bytes(t.tree_name@));
    assert(b.subrange(e, e + 8) =~= digits(i64_bits(t.created_at), 8));
}

/// Encodes a tree record for storage; `InvalidRecordData` when its name is too
/// long for its length prefix.
pub fn encode_tree_data(t: &MerkleTreeData) -> (out: Result<Vec<u8>, ErrorCode>)
    ensures
        out is Ok <==> str_fits(t.tree_name@),
        out matches Ok(b) ==> b@ == tree_bytes(*t),
        out is Err ==> out == Err::<Vec<u8>, ErrorCode>(ErrorCode::InvalidRecordData),
{
    let mut b: Vec<u8> = vec![RECORD_VERSION];
    let a = t.authority.to_vec();
    append_bytes(&mut b, a.as_slice());
    let m = t.merkle_tree.to_vec();
    append_bytes(&mut b, m.as_slice());
    let d = le_digits(t.max_depth as u64, 4);
    append_bytes(&mut b, d.as_slice());
    let s = le_digits(t.max_buffer_size as u64, 4);
    append_bytes(&mut b, s.as_slice());
    if !write_str(&mut b, &t.tree_name) {
        return Err(ErrorCode::InvalidRecordData);
    }
    let bits: u64 = if t.created_at >= 0 {
        t.created_at as u64
    } else {
        0xffff_ffff_ffff_ffffu64 - ((-(t.created_at + 1)) as u64)
    };
    assert(bits as int == i64_bits(t.created_at));
    let c = le_digits(bits, 8);
    append_bytes(&mut b, c.as_slice());
    b.push(if t.is_active { 1 } else { 0 });
    assert(b@ =~= tree_bytes(*t));
    Ok(b)
}

fn read_u32(data: &Vec<u8>, pos: usize) -> (r: u32)
    requires
        pos + 4 <= data@.len(),
    ensures
        data@.subrange(pos as int, pos + 4) == u32_le(r as int),
        forall|v: u32| #![trigger u32_le(v as int)] data@.subrange(pos as int, pos + 4) == u32_le(v as int) ==> r == v,
{
    let r = read_le(data, pos, 4) as u32;
    proof {
        lemma_digits_le_value(data@.subrange(pos as int, pos + 4));
        assert forall|v: u32| #![trigger u32_le(v as int)] data@.subrange(pos as int, pos + 4) == u32_le(v as int) implies r == v by {
            assert(pow256(4) == 0x1_0000_0000) by {
                reveal_with_fuel(pow256, 5);
            }
            lemma_le_value_digits(v as int, 4);
        }
    }
    r
}

fn read_i64(data: &Vec<u8>, pos: usize) -> (r: i64)
    requires
        pos + 8 <= data@.len(),
    ensures
        data@.subrange(pos as int, pos + 8) == digits(i64_bits(r), 8),
        forall|v: i64| #![trigger digits(i64_bits(v), 8)] data@.subrange(pos as int, pos + 8) == digits(i64_bits(v), 8) ==> r == v,
{
    let bits = read_u64(data, pos);
    let r: i64 = if bits <= 0x7fff_ffff_ffff_ffffu64 {
        bits as i64
    } else {
        -((0xffff_ffff_ffff_ffffu64 - bits) as i64) - 1
    };
    assert(i64_bits(r) == bits as int);
    proof {
        assert forall|v: i64| #![trigger digits(i64_bits(v), 8)] data@.subrange(pos as int, pos + 8) == digits(i64_bits(v), 8) implies r == v by {
            assert(pow256(8) == 0x1_0000_0000_0000_0000) by {
                reveal_with_fuel(pow256, 9);
            }
            lemma_le_value_digits(i64_bits(v), 8);
            lemma_le_value_digits(bits as int, 8);
        }
    }
    r
}

/// Decodes a stored tree record. Whatever bytes are not the stored form of some
/// record are refused as `InvalidRecordData`.
pub fn decode_tree_data(data: &Vec<u8>) -> (r: Result<MerkleTreeData, ErrorCode>)
    ensures
        r matches Ok(t) ==> str_fits(t.tree_name@) && tree_bytes(t) == data@,
        r is Err ==> r == Err::<MerkleTreeData, ErrorCode>(ErrorCode::InvalidRecordData),
        forall|t: MerkleTreeData|
            #![trigger tree_bytes(t)]
            str_fits(t.tree_name@) && tree_bytes(t) == data@ ==> (r matches Ok(d) && same_tree(d, t)),
{
    proof {
        assert forall|t: MerkleTreeData|
            #![trigger tree_bytes(t)]
            str_fits(t.tree_name@) && tree_bytes(t) == data@ implies tree_layout(t) by {
            lemma_tree_layout(t);
        }
    }
    let n: usize = data.len();
    if n < 73 || data[0] != RECORD_VERSION {
        return Err(ErrorCode::InvalidRecordData);
    }
    let authority = Address { bytes: read_array32(data, 1) };
    let merkle_tree = Address { bytes: read_array32(data, 33) };
    let max_depth = read_u32(data, 65);
    let max_buffer_size = read_u32(data, 69);
    let (tree_name, p) = match read_str(data, 73) {
        Some(x) => x,
        None => return Err(ErrorCode::InvalidRecordData),
    };
    if n - p != 9 {
        return Err(ErrorCode::InvalidRecordData);
    }
    let created_at = read_i64(data, p);
    let active: u8 = data[p + 8];
    if active > 1 {
        return Err(ErrorCode::InvalidRecordData);
    }
    let t = MerkleTreeData { authority, merkle_tree, max_depth, max_buffer_size, tree_name, created_at, is_active: active == 1 };
    proof {
        lemma_tree_layout(t);
        assert(tree_bytes(t) =~= data@);
    }
    Ok(t)
}

} // verus!
