//! Decryption of the metadata string payload.
//!
//! A string index packs a length and an offset into the string data area; the
//! bytes there are encrypted eight at a time with a key that starts from the
//! offset and advances by a fixed increment per eight-byte block.
use vstd::prelude::*;
use vstd::utf8::{decode_utf8, encode_utf8, valid_utf8};

use crate::bytes::{in_range, le_u64, read_u64};
use crate::errors::LayoutError;
use crate::static_layout::StaticLayout;

verus! {

/// Added to the key after each eight-byte block.
pub const STRING_PAYLOAD_INCREMENT: u64 = 0x3E69_3CD2_3A41_FDEF;

/// Multiplies the string offset in the first key.
pub const STRING_PAYLOAD_SEED_MUL: u64 = 0x907C_4962_2D94_D21A;

/// Added to the scaled offset in the first key.
pub const STRING_PAYLOAD_SEED_ADD: u64 = 0x75B6_79DA_F67C_3F24;

/// Decodes `bytes` as UTF-8 into a `String`.
#[verifier::external_body]
fn utf8_string(bytes: Vec<u8>) -> (r: Option<String>)
    ensures
        r is Some <==> valid_utf8(bytes@),
        r is Some ==> r->0@ == decode_utf8(bytes@),
{
    String::from_utf8(bytes).ok()
}

/// Length in bytes that a string index encodes: 8 bits for indices with the top bit set, else 6.
pub open spec fn string_index_length(index: u32) -> u32 {
    if index >= 0x8000_0000 {
        (index >> 23u32) & 0xFF
    } else {
        (index >> 25u32) & 0x3F
    }
}

/// Offset into the string data area that a string index encodes.
pub open spec fn string_index_offset(index: u32) -> u32 {
    if index >= 0x8000_0000 {
        index & 0x007F_FFFF
    } else {
        index & 0x01FF_FFFF
    }
}

/// The key of eight-byte block `block` of the string at `string_offset`.
pub open spec fn string_block_key(string_offset: u64, block: nat) -> u64
    decreases block,
{
    if block == 0 {
        STRING_PAYLOAD_SEED_ADD.wrapping_add(STRING_PAYLOAD_SEED_MUL.wrapping_mul(string_offset))
    } else {
        string_block_key(string_offset, (block - 1) as nat).wrapping_add(STRING_PAYLOAD_INCREMENT)
    }
}

/// The eight bytes of `v`, least significant first.
pub open spec fn le_bytes_u64(v: u64) -> Seq<u8> {
    seq![
        v as u8,
        (v >> 8u64) as u8,
        (v >> 16u64) as u8,
        (v >> 24u64) as u8,
        (v >> 32u64) as u8,
        (v >> 40u64) as u8,
        (v >> 48u64) as u8,
        (v >> 56u64) as u8,
    ]
}

/// The first `blocks` decrypted eight-byte blocks of the string at `string_offset`,
/// stored from `data_offset` on.
pub open spec fn decrypted_blocks(data: Seq<u8>, data_offset: int, string_offset: u64, blocks: nat) -> Seq<u8>
    decreases blocks,
{
    if blocks == 0 {
        Seq::empty()
    } else {
        let block = (blocks - 1) as nat;
        decrypted_blocks(data, data_offset, string_offset, block) + le_bytes_u64(
            le_u64(data, data_offset + 8 * block) ^ string_block_key(string_offset, block),
        )
    }
}

/// Every decrypted block adds eight bytes.
pub proof fn lemma_decrypted_blocks_len(data: Seq<u8>, data_offset: int, string_offset: u64, blocks: nat)
    ensures
        decrypted_blocks(data, data_offset, string_offset, blocks).len() == 8 * blocks,
    decreases blocks,
{
    if blocks > 0 {
        lemma_decrypted_blocks_len(data, data_offset, string_offset, (blocks - 1) as nat);
    }
}

/// The string that `index` names in the global metadata, or why it cannot be decoded.
pub open spec fn spec_decode_string_raw(global_data: Seq<u8>, layout: StaticLayout, index: u32) -> Result<
    Seq<char>,
    LayoutError,
> {
    let length = string_index_length(index);
    if index == u32::MAX || length == 0 {
        Ok(Seq::empty())
    } else {
        let string_offset = string_index_offset(index);
        let data_offset = layout.payload_offset + layout.global_string_data_offset + string_offset;
        let blocks = ((length + 7) / 8) as nat;
        if !in_range(global_data, data_offset, 8 * blocks as int) {
            Err(LayoutError::OutOfRange)
        } else {
            let bytes = decrypted_blocks(global_data, data_offset, string_offset as u64, blocks).take(
                length as int,
            );
            if valid_utf8(bytes) {
                Ok(decode_utf8(bytes))
            } else {
                Err(LayoutError::InvalidUtf8)
            }
        }
    }
}

/// A string result seen through the characters of the string.
pub open spec fn string_result_view(r: Result<String, LayoutError>) -> Result<Seq<char>, LayoutError> {
    match r {
        Ok(s) => Ok(s@),
        Err(e) => Err(e),
    }
}

/// Decrypts and decodes the metadata string that `index` names.
pub fn decode_string_raw(global_data: &[u8], layout: &StaticLayout, index: u32) -> (r: Result<String, LayoutError>)
    ensures
        string_result_view(r) == spec_decode_string_raw(global_data@, *layout, index),
{
    let length: u32 = if index >= 0x8000_0000 {
        (index >> 23u32) & 0xFF
    } else {
        (index >> 25u32) & 0x3F
    };
    if index == u32::MAX || length == 0 {
        return Ok(String::new());
    }
    let string_offset: u32 = if index >= 0x8000_0000 {
        index & 0x007F_FFFF
    } else {
        index & 0x01FF_FFFF
    };
    assert(length <= 0xFF) by (bit_vector)
        requires
            length == (if index >= 0x8000_0000 {
                (index >> 23u32) & 0xFF
            } else {
                (index >> 25u32) & 0x3F
            }),
    ;
    let ghost data_offset_int = layout.payload_offset + layout.global_string_data_offset + string_offset;
    let blocks: usize = ((length + 7) / 8) as usize;
    let data_offset = match (layout.payload_offset as usize).checked_add(
        layout.global_string_data_offset as usize,
    ) {
        Some(base) => match base.checked_add(string_offset as usize) {
            Some(offset) => offset,
            None => {
                assert(global_data@.len() == global_data.len());
                return Err(LayoutError::OutOfRange);
            },
        },
        None => {
            assert(global_data@.len() == global_data.len());
            return Err(LayoutError::OutOfRange);
        },
    };
    if !(data_offset <= global_data.len() && 8 * blocks <= global_data.len() - data_offset) {
        return Err(LayoutError::OutOfRange);
    }
    let mut key = STRING_PAYLOAD_SEED_ADD.wrapping_add(
        STRING_PAYLOAD_SEED_MUL.wrapping_mul(string_offset as u64),
    );
    let mut out: Vec<u8> = Vec::new();
    let mut block: usize = 0;
    assert(global_data@.len() == global_data.len());
    while block < blocks
        invariant
            block <= blocks,
            blocks <= 32,
            global_data@.len() <= usize::MAX,
            data_offset == data_offset_int,
            in_range(global_data@, data_offset as int, 8 * blocks as int),
            key == string_block_key(string_offset as u64, block as nat),
            out@ == decrypted_blocks(global_data@, data_offset as int, string_offset as u64, block as nat),
        decreases blocks - block,
    {
        let encrypted = match read_u64(global_data, data_offset + 8 * block) {
            Ok(v) => v,
            Err(_) => 0,
        };
        let plain = encrypted ^ key;
        out.push(#[verifier::truncate] (plain as u8));
        out.push(#[verifier::truncate] ((plain >> 8u64) as u8));
        out.push(#[verifier::truncate] ((plain >> 16u64) as u8));
        out.push(#[verifier::truncate] ((plain >> 24u64) as u8));
        out.push(#[verifier::truncate] ((plain >> 32u64) as u8));
        out.push(#[verifier::truncate] ((plain >> 40u64) as u8));
        out.push(#[verifier::truncate] ((plain >> 48u64) as u8));
        out.push(#[verifier::truncate] ((plain >> 56u64) as u8));
        assert(out@ =~= decrypted_blocks(global_data@, data_offset as int, string_offset as u64, (block + 1) as nat));
        key = key.wrapping_add(STRING_PAYLOAD_INCREMENT);
        block += 1;
    }
    proof {
        lemma_decrypted_blocks_len(global_data@, data_offset as int, string_offset as u64, blocks as nat);
    }
    out.truncate(length as usize);
    match utf8_string(out) {
        Some(s) => Ok(s),
        None => Err(LayoutError::InvalidUtf8),
    }
}


/// The first `blocks` eight-byte blocks of `plain` encrypted with the key stream of the
/// string at `string_offset`: the form in which the string data area stores them.
pub open spec fn encrypted_blocks(plain: Seq<u8>, string_offset: u64, blocks: nat) -> Seq<u8>
    decreases blocks,
{
    if blocks == 0 {
        Seq::empty()
    } else {
        let block = (blocks - 1) as nat;
        encrypted_blocks(plain, string_offset, block) + le_bytes_u64(
            le_u64(plain, (8 * block) as int) ^ string_block_key(string_offset, block),
        )
    }
}

proof fn lemma_encrypted_blocks_len(plain: Seq<u8>, string_offset: u64, blocks: nat)
    ensures
        encrypted_blocks(plain, string_offset, blocks).len() == 8 * blocks,
    decreases blocks,
{
    if blocks > 0 {
        lemma_encrypted_blocks_len(plain, string_offset, (blocks - 1) as nat);
    }
}

/// Reading back the eight bytes of `v` gives `v`.
proof fn lemma_le_u64_of_bytes(v: u64)
    ensures
        le_u64(le_bytes_u64(v), 0) == v,
{
    let b = le_bytes_u64(v);
    assert(b[0] == v as u8 && b[1] == (v >> 8u64) as u8 && b[2] == (v >> 16u64) as u8 && b[3] == (v >> 24u64) as u8);
    assert(b[4] == (v >> 32u64) as u8 && b[5] == (v >> 40u64) as u8 && b[6] == (v >> 48u64) as u8 && b[7] == (v
        >> 56u64) as u8);
    assert(((((v as u8) as u32) | ((((v >> 8u64) as u8) as u32) << 8u32) | ((((v >> 16u64) as u8) as u32) << 16u32)
        | ((((v >> 24u64) as u8) as u32) << 24u32)) as u64) | (((((v >> 32u64) as u8) as u32) | ((((v >> 40u64)
        as u8) as u32) << 8u32) | ((((v >> 48u64) as u8) as u32) << 16u32) | ((((v >> 56u64) as u8) as u32)
        << 24u32)) as u64) << 32u64 == v) by (bit_vector);
}

/// The eight bytes of the `u64` read at `offset` are the bytes stored there.
proof fn lemma_bytes_of_le_u64(data: Seq<u8>, offset: int)
    requires
        0 <= offset,
        offset + 8 <= data.len(),
    ensures
        le_bytes_u64(le_u64(data, offset)) == data.subrange(offset, offset + 8),
{
    let b0 = data[offset];
    let b1 = data[offset + 1];
    let b2 = data[offset + 2];
    let b3 = data[offset + 3];
    let b4 = data[offset + 4];
    let b5 = data[offset + 5];
    let b6 = data[offset + 6];
    let b7 = data[offset + 7];
    let v = le_u64(data, offset);
    assert(v == (((b0 as u32) | ((b1 as u32) << 8u32) | ((b2 as u32) << 16u32) | ((b3 as u32) << 24u32)) as u64)
        | (((b4 as u32) | ((b5 as u32) << 8u32) | ((b6 as u32) << 16u32) | ((b7 as u32) << 24u32)) as u64) << 32u64);
    assert(v as u8 == b0 && (v >> 8u64) as u8 == b1 && (v >> 16u64) as u8 == b2 && (v >> 24u64) as u8 == b3 && (v
        >> 32u64) as u8 == b4 && (v >> 40u64) as u8 == b5 && (v >> 48u64) as u8 == b6 && (v >> 56u64) as u8 == b7)
        by (bit_vector)
        requires
            v == (((b0 as u32) | ((b1 as u32) << 8u32) | ((b2 as u32) << 16u32) | ((b3 as u32) << 24u32)) as u64)
                | (((b4 as u32) | ((b5 as u32) << 8u32) | ((b6 as u32) << 16u32) | ((b7 as u32) << 24u32)) as u64)
                << 32u64,
    ;
    assert(le_bytes_u64(v) =~= data.subrange(offset, offset + 8));
}

/// `le_u64` reads the same value from two buffers that agree on its eight bytes.
proof fn lemma_le_u64_same_bytes(a: Seq<u8>, a_offset: int, b: Seq<u8>, b_offset: int)
    requires
        0 <= a_offset,
        a_offset + 8 <= a.len(),
        0 <= b_offset,
        b_offset + 8 <= b.len(),
        a.subrange(a_offset, a_offset + 8) == b.subrange(b_offset, b_offset + 8),
    ensures
        le_u64(a, a_offset) == le_u64(b, b_offset),
{
    let sa = a.subrange(a_offset, a_offset + 8);
    let sb = b.subrange(b_offset, b_offset + 8);
    assert(a[a_offset + 0] == sa[0] && sa[0] == sb[0] && sb[0] == b[b_offset + 0]);
    assert(a[a_offset + 1] == sa[1] && sa[1] == sb[1] && sb[1] == b[b_offset + 1]);
    assert(a[a_offset + 2] == sa[2] && sa[2] == sb[2] && sb[2] == b[b_offset + 2]);
    assert(a[a_offset + 3] == sa[3] && sa[3] == sb[3] && sb[3] == b[b_offset + 3]);
    assert(a[a_offset + 4] == sa[4] && sa[4] == sb[4] && sb[4] == b[b_offset + 4]);
    assert(a[a_offset + 5] == sa[5] && sa[5] == sb[5] && sb[5] == b[b_offset + 5]);
    assert(a[a_offset + 6] == sa[6] && sa[6] == sb[6] && sb[6] == b[b_offset + 6]);
    assert(a[a_offset + 7] == sa[7] && sa[7] == sb[7] && sb[7] == b[b_offset + 7]);
}

/// Decrypting the blocks that `encrypted_blocks` stored gives back the plain blocks.
proof fn lemma_decrypt_encrypted(data: Seq<u8>, data_offset: int, plain: Seq<u8>, string_offset: u64, blocks: nat)
    requires
        0 <= data_offset,
        data_offset + 8 * blocks <= data.len(),
        plain.len() >= 8 * blocks,
        data.subrange(data_offset, data_offset + 8 * blocks) == encrypted_blocks(plain, string_offset, blocks),
    ensures
        decrypted_blocks(data, data_offset, string_offset, blocks) == plain.take((8 * blocks) as int),
    decreases blocks,
{
    if blocks > 0 {
        let block = (blocks - 1) as nat;
        let previous = encrypted_blocks(plain, string_offset, block);
        lemma_encrypted_blocks_len(plain, string_offset, block);
        let word = le_u64(plain, (8 * block) as int) ^ string_block_key(string_offset, block);
        let stored = le_bytes_u64(word);
        assert(data.subrange(data_offset, data_offset + 8 * block) =~= previous) by {
            assert(encrypted_blocks(plain, string_offset, blocks) == previous + stored);
            assert forall|i: int| 0 <= i < 8 * block implies data.subrange(data_offset, data_offset + 8 * block)[i]
                == previous[i] by {
                assert(data.subrange(data_offset, data_offset + 8 * blocks)[i] == (previous + stored)[i]);
            }
        }
        lemma_decrypt_encrypted(data, data_offset, plain, string_offset, block);
        assert(data.subrange(data_offset + 8 * block, data_offset + 8 * block + 8) =~= stored.subrange(0, 8)) by {
            assert forall|i: int| 0 <= i < 8 implies data.subrange(data_offset + 8 * block, data_offset + 8 * block + 8)[i]
                == stored.subrange(0, 8)[i] by {
                assert(data.subrange(data_offset, data_offset + 8 * blocks)[8 * block + i] == (previous + stored)[8
                    * block + i]);
            }
        }
        lemma_le_u64_same_bytes(data, data_offset + 8 * block, stored, 0);
        lemma_le_u64_of_bytes(word);
        let key = string_block_key(string_offset, block);
        let plain_word = le_u64(plain, (8 * block) as int);
        assert((plain_word ^ key) ^ key == plain_word) by (bit_vector);
        lemma_bytes_of_le_u64(plain, (8 * block) as int);
        assert(decrypted_blocks(data, data_offset, string_offset, blocks) =~= plain.take((8 * blocks) as int));
    }
}

/// A string comes back from the string data area as it was stored: when the blocks at the
/// place that `index` names hold the string's UTF-8 bytes (padded to whole blocks) encrypted
/// with the key stream of that place, decoding `index` gives the string.
pub proof fn lemma_decode_string_recovers_stored_text(
    global_data: Seq<u8>,
    layout: StaticLayout,
    index: u32,
    text: Seq<u8>,
    padding: Seq<u8>,
)
    requires
        index != u32::MAX,
        string_index_length(index) == text.len(),
        text.len() > 0,
        text.len() + padding.len() == 8 * ((text.len() + 7) / 8),
        valid_utf8(text),
        ({
            let data_offset = layout.payload_offset + layout.global_string_data_offset + string_index_offset(index);
            let blocks = ((text.len() + 7) / 8) as nat;
            &&& data_offset + 8 * blocks <= global_data.len()
            &&& global_data.subrange(data_offset, data_offset + 8 * blocks) == encrypted_blocks(
                text + padding,
                string_index_offset(index) as u64,
                blocks,
            )
        }),
    ensures
        spec_decode_string_raw(global_data, layout, index) == Ok::<Seq<char>, LayoutError>(decode_utf8(text)),
{
    let data_offset = layout.payload_offset + layout.global_string_data_offset + string_index_offset(index);
    let blocks = ((text.len() + 7) / 8) as nat;
    lemma_decrypt_encrypted(global_data, data_offset, text + padding, string_index_offset(index) as u64, blocks);
    assert((text + padding).take((8 * blocks) as int).take(text.len() as int) =~= text);
}


/// A decoded string's UTF-8 encoding is as long as the length that its index encodes (the
/// empty string for the index `u32::MAX`).
pub proof fn lemma_decoded_string_byte_length(global_data: Seq<u8>, layout: StaticLayout, index: u32)
    ensures
        spec_decode_string_raw(global_data, layout, index) matches Ok(text) ==> encode_utf8(text).len() == (if index
            == u32::MAX {
            0
        } else {
            string_index_length(index) as int
        }),
{
    if let Ok(text) = spec_decode_string_raw(global_data, layout, index) {
        let length = string_index_length(index);
        if index == u32::MAX || length == 0 {
            assert(encode_utf8(text) =~= Seq::<u8>::empty());
        } else {
            let string_offset = string_index_offset(index);
            let data_offset = layout.payload_offset + layout.global_string_data_offset + string_offset;
            let blocks = ((length + 7) / 8) as nat;
            lemma_decrypted_blocks_len(global_data, data_offset, string_offset as u64, blocks);
            let bytes = decrypted_blocks(global_data, data_offset, string_offset as u64, blocks).take(length as int);
            assert(bytes.len() == length);
            vstd::utf8::decode_utf8_encode_utf8(bytes);
        }
    }
}
} // verus!
