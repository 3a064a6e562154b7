//! What a migration checksum is computed from, and what it binds.

use vstd::prelude::*;
use vstd::utf8::*;

verus! {

/// The longest input, in bytes, whose bit count fits the 64-bit counter that
/// closes a SHA-256 message.
pub const MAX_DIGEST_INPUT: u64 = 0x1fff_ffff_ffff_ffff;

/// What `sha2::Sha256::digest` returns for `data`.
pub uninterp spec fn sha256(data: Seq<u8>) -> Seq<u8>;

/// The eight bytes of `n`, most significant first.
pub open spec fn big_endian(n: u64) -> Seq<u8> {
    seq![
        ((n >> 56) & 0xff) as u8,
        ((n >> 48) & 0xff) as u8,
        ((n >> 40) & 0xff) as u8,
        ((n >> 32) & 0xff) as u8,
        ((n >> 24) & 0xff) as u8,
        ((n >> 16) & 0xff) as u8,
        ((n >> 8) & 0xff) as u8,
        (n & 0xff) as u8,
    ]
}

/// The bytes that are hashed for one migration: the version, the name and the
/// SQL, each set off from the next by one zero byte.
pub open spec fn preimage(version: u64, name: Seq<char>, sql: Seq<char>) -> Seq<u8> {
    big_endian(version) + seq![0u8] + encode_utf8(name) + seq![0u8] + encode_utf8(sql)
}

/// The lower case hexadecimal digit of `n`.
pub open spec fn hex_digit(n: int) -> char {
    if n < 10 {
        ('0' as int + n) as char
    } else {
        ('a' as int + (n - 10)) as char
    }
}

/// The lower case hexadecimal text of `bytes`, two digits for each byte, high
/// half first.
pub open spec fn hex_text(bytes: Seq<u8>) -> Seq<char> {
    Seq::new(
        2 * bytes.len(),
        |i: int|
            if i % 2 == 0 {
                hex_digit(bytes[i / 2] as int / 16)
            } else {
                hex_digit(bytes[i / 2] as int % 16)
            },
    )
}

/// The checksum of one migration.
pub open spec fn checksum_text(version: u64, name: Seq<char>, sql: Seq<char>) -> Seq<char> {
    hex_text(sha256(preimage(version, name, sql)))
}

/// A name without the zero character, which sets the parts of a preimage apart.
pub open spec fn is_zero_free(name: Seq<char>) -> bool {
    forall|i: int| 0 <= i < name.len() ==> #[trigger] name[i] != '\0'
}

/// `sha2::Sha256::digest`: the 32 bytes of the SHA-256 digest of `data`, a
/// function of the bytes alone. The bit count of longer inputs does not fit the
/// 64-bit counter that `sha2` multiplies out when it closes the message.
#[verifier::external_body]
pub(crate) fn sha256_digest(data: &[u8]) -> (digest: Vec<u8>)
    requires
        data@.len() <= MAX_DIGEST_INPUT,
    ensures
        digest@ == sha256(data@),
        digest@.len() == 32,
{
    <sha2::Sha256 as sha2::Digest>::digest(data).to_vec()
}

/// `hex::encode`: the lower case hexadecimal text of `data`. A text of more than
/// `isize::MAX` bytes cannot be allocated.
#[verifier::external_body]
pub(crate) fn hex_encode(data: &[u8]) -> (text: String)
    requires
        2 * data@.len() <= isize::MAX,
    ensures
        text@ == hex_text(data@),
{
    hex::encode(data)
}

/// Assembles the bytes that are hashed for one migration.
pub fn checksum_preimage(version: u64, name: &str, sql: &str) -> (bytes: Vec<u8>)
    ensures
        bytes@ == preimage(version, name@, sql@),
{
    let mut bytes: Vec<u8> = Vec::new();
    bytes.push(((version >> 56) & 0xff) as u8);
    bytes.push(((version >> 48) & 0xff) as u8);
    bytes.push(((version >> 40) & 0xff) as u8);
    bytes.push(((version >> 32) & 0xff) as u8);
    bytes.push(((version >> 24) & 0xff) as u8);
    bytes.push(((version >> 16) & 0xff) as u8);
    bytes.push(((version >> 8) & 0xff) as u8);
    bytes.push((version & 0xff) as u8);
    assert(bytes@ == big_endian(version));
    bytes.push(0);
    let ghost head = bytes@;
    bytes.extend_from_slice(name.as_bytes());
    assert(bytes@ == head + encode_utf8(name@));
    bytes.push(0);
    let ghost body = bytes@;
    bytes.extend_from_slice(sql.as_bytes());
    assert(bytes@ == body + encode_utf8(sql@));
    assert(bytes@ == preimage(version, name@, sql@));
    bytes
}

/// Tells whether the preimage of a migration is short enough to be hashed.
pub fn fits_digest(version: u64, name: &str, sql: &str) -> (fits: bool)
    ensures
        fits == (preimage(version, name@, sql@).len() <= MAX_DIGEST_INPUT),
{
    let name_len = name.as_bytes().len() as u64;
    let sql_len = sql.as_bytes().len() as u64;
    name_len <= MAX_DIGEST_INPUT - 10 && sql_len <= MAX_DIGEST_INPUT - 10 - name_len
}

/// Computes the checksum of one migration.
pub fn checksum(version: u64, name: &str, sql: &str) -> (text: String)
    requires
        preimage(version, name@, sql@).len() <= MAX_DIGEST_INPUT,
    ensures
        text@ == checksum_text(version, name@, sql@),
        text@.len() == 64,
{
    let bytes = checksum_preimage(version, name, sql);
    let digest = sha256_digest(bytes.as_slice());
    hex_encode(digest.as_slice())
}

proof fn lemma_big_endian_is_injective(a: u64, b: u64)
    requires
        big_endian(a) == big_endian(b),
    ensures
        a == b,
{
    let x = big_endian(a);
    let y = big_endian(b);
    assert(x[0] == y[0] && x[1] == y[1] && x[2] == y[2] && x[3] == y[3]);
    assert(x[4] == y[4] && x[5] == y[5] && x[6] == y[6] && x[7] == y[7]);
    assert(a == b) by (bit_vector)
        requires
            ((a >> 56) & 0xff) as u8 == ((b >> 56) & 0xff) as u8,
            ((a >> 48) & 0xff) as u8 == ((b >> 48) & 0xff) as u8,
            ((a >> 40) & 0xff) as u8 == ((b >> 40) & 0xff) as u8,
            ((a >> 32) & 0xff) as u8 == ((b >> 32) & 0xff) as u8,
            ((a >> 24) & 0xff) as u8 == ((b >> 24) & 0xff) as u8,
            ((a >> 16) & 0xff) as u8 == ((b >> 16) & 0xff) as u8,
            ((a >> 8) & 0xff) as u8 == ((b >> 8) & 0xff) as u8,
            (a & 0xff) as u8 == (b & 0xff) as u8,
    ;
}

proof fn lemma_hex_digit_is_injective(m: int, n: int)
    requires
        0 <= m < 16,
        0 <= n < 16,
        hex_digit(m) == hex_digit(n),
    ensures
        m == n,
{
    assert('0' as int == 48 && 'a' as int == 97);
}

/// The two digits of a byte bind it.
proof fn lemma_hex_digits_bind(a: u8, b: u8)
    requires
        hex_digit(a as int / 16) == hex_digit(b as int / 16),
        hex_digit(a as int % 16) == hex_digit(b as int % 16),
    ensures
        a == b,
{
    lemma_hex_digit_is_injective(a as int / 16, b as int / 16);
    lemma_hex_digit_is_injective(a as int % 16, b as int % 16);
}

/// Where the two digits of a byte stand in the text.
proof fn lemma_hex_digits_of(bytes: Seq<u8>, i: int)
    requires
        0 <= i < bytes.len(),
    ensures
        hex_text(bytes)[2 * i] == hex_digit(bytes[i] as int / 16),
        hex_text(bytes)[2 * i + 1] == hex_digit(bytes[i] as int % 16),
{
    assert((2 * i) % 2 == 0 && (2 * i) / 2 == i);
    assert((2 * i + 1) % 2 == 1 && (2 * i + 1) / 2 == i);
}

#[verifier::spinoff_prover]
proof fn lemma_hex_text_is_injective(a: Seq<u8>, b: Seq<u8>)
    requires
        hex_text(a) == hex_text(b),
    ensures
        a == b,
{
    assert(hex_text(a).len() == 2 * a.len() && hex_text(b).len() == 2 * b.len());
    assert forall|i: int| 0 <= i < a.len() implies a[i] == b[i] by {
        lemma_hex_digits_of(a, i);
        lemma_hex_digits_of(b, i);
        lemma_hex_digits_bind(a[i], b[i]);
    }
    assert(a =~= b);
}

/// The encoding of a name without the zero character holds no zero byte.
proof fn lemma_zero_free_encoding(name: Seq<char>)
    requires
        is_zero_free(name),
    ensures
        forall|i: int|
            0 <= i < encode_utf8(name).len() ==> #[trigger] encode_utf8(name)[i] != 0,
    decreases name.len(),
{
    if name.len() > 0 {
        let rest = name.drop_first();
        assert forall|i: int| 0 <= i < rest.len() implies #[trigger] rest[i] != '\0' by {
            assert(rest[i] == name[i + 1]);
        }
        lemma_zero_free_encoding(rest);
        let scalar = name[0] as u32;
        assert(name[0] != '\0');
        char_is_scalar(name[0]);
        char_u32_cast(name[0], scalar);
        assert(scalar != 0);
        assert(has_width_1_encoding(scalar) && scalar != 0 ==> leading_byte_width_1(scalar) != 0)
            by (bit_vector);
        assert(has_width_2_encoding(scalar) ==> leading_byte_width_2(scalar) != 0)
            by (bit_vector);
        assert(has_width_3_encoding(scalar) ==> leading_byte_width_3(scalar) != 0)
            by (bit_vector);
        assert(has_width_4_encoding(scalar) ==> leading_byte_width_4(scalar) != 0)
            by (bit_vector);
        assert(last_continuation_byte(scalar) != 0) by (bit_vector);
        assert(second_last_continuation_byte(scalar) != 0) by (bit_vector);
        assert(third_last_continuation_byte(scalar) != 0) by (bit_vector);
        let first = encode_scalar(scalar);
        assert forall|i: int| 0 <= i < encode_utf8(name).len() implies #[trigger] encode_utf8(
            name,
        )[i] != 0 by {
            if i < first.len() {
                assert(encode_utf8(name)[i] == first[i]);
            } else {
                assert(encode_utf8(name)[i] == encode_utf8(rest)[i - first.len()]);
            }
        }
    }
}

/// The hashed bytes bind version, name and exact SQL: two migrations whose names
/// hold no zero character have the same preimage only if they agree in all three.
pub proof fn law_preimage_binds(
    version1: u64,
    name1: Seq<char>,
    sql1: Seq<char>,
    version2: u64,
    name2: Seq<char>,
    sql2: Seq<char>,
)
    requires
        is_zero_free(name1),
        is_zero_free(name2),
    ensures
        preimage(version1, name1, sql1) == preimage(version2, name2, sql2) <==> version1
            == version2 && name1 == name2 && sql1 == sql2,
{
    let p1 = preimage(version1, name1, sql1);
    let p2 = preimage(version2, name2, sql2);
    if p1 == p2 {
        let n1 = encode_utf8(name1);
        let n2 = encode_utf8(name2);
        lemma_zero_free_encoding(name1);
        lemma_zero_free_encoding(name2);
        assert(p1.subrange(0, 8) == big_endian(version1));
        assert(p2.subrange(0, 8) == big_endian(version2));
        lemma_big_endian_is_injective(version1, version2);
        assert(p1[9 + n1.len() as int] == 0);
        assert(p2[9 + n2.len() as int] == 0);
        if n1.len() < n2.len() {
            assert(p2[9 + n1.len() as int] == n2[n1.len() as int]);
        }
        if n2.len() < n1.len() {
            assert(p1[9 + n2.len() as int] == n1[n2.len() as int]);
        }
        assert(p1.subrange(9, 9 + n1.len() as int) == n1);
        assert(p2.subrange(9, 9 + n2.len() as int) == n2);
        crate::text::lemma_encoding_is_injective(name1, name2);
        assert(p1.subrange(10 + n1.len() as int, p1.len() as int) == encode_utf8(sql1));
        assert(p2.subrange(10 + n2.len() as int, p2.len() as int) == encode_utf8(sql2));
        crate::text::lemma_encoding_is_injective(sql1, sql2);
    }
}

/// Equal checksums mean equal SHA-256 digests. So two migrations that differ in
/// version, name or SQL have equal checksums only where their two preimages,
/// which differ, collide under SHA-256.
pub proof fn law_checksum_binds(
    version1: u64,
    name1: Seq<char>,
    sql1: Seq<char>,
    version2: u64,
    name2: Seq<char>,
    sql2: Seq<char>,
)
    requires
        is_zero_free(name1),
        is_zero_free(name2),
    ensures
        checksum_text(version1, name1, sql1) == checksum_text(version2, name2, sql2) <==> sha256(
            preimage(version1, name1, sql1),
        ) == sha256(preimage(version2, name2, sql2)),
        version1 == version2 && name1 == name2 && sql1 == sql2 || preimage(version1, name1, sql1)
            != preimage(version2, name2, sql2),
{
    law_preimage_binds(version1, name1, sql1, version2, name2, sql2);
    if checksum_text(version1, name1, sql1) == checksum_text(version2, name2, sql2) {
        lemma_hex_text_is_injective(
            sha256(preimage(version1, name1, sql1)),
            sha256(preimage(version2, name2, sql2)),
        );
    }
}

/// The hashed bytes, place by place: the version in eight bytes, the most
/// significant first, a zero byte, the name in UTF-8, a zero byte, the SQL in
/// UTF-8, and nothing else.
pub proof fn law_preimage_layout(version: u64, name: Seq<char>, sql: Seq<char>)
    ensures
        ({
            let bytes = preimage(version, name, sql);
            let n = encode_utf8(name).len() as int;
            let s = encode_utf8(sql).len() as int;
            &&& bytes.len() == 10 + n + s
            &&& bytes[0] * 0x100_0000_0000_0000 + bytes[1] * 0x1_0000_0000_0000 + bytes[2]
                * 0x100_0000_0000 + bytes[3] * 0x1_0000_0000 + bytes[4] * 0x100_0000 + bytes[5]
                * 0x1_0000 + bytes[6] * 0x100 + bytes[7] == version
            &&& bytes[8] == 0
            &&& bytes.subrange(9, 9 + n) == encode_utf8(name)
            &&& bytes[9 + n] == 0
            &&& bytes.subrange(10 + n, 10 + n + s) == encode_utf8(sql)
        }),
{
    let bytes = preimage(version, name, sql);
    let n = encode_utf8(name).len() as int;
    let s = encode_utf8(sql).len() as int;
    assert(bytes.subrange(9, 9 + n) =~= encode_utf8(name));
    assert(bytes.subrange(10 + n, 10 + n + s) =~= encode_utf8(sql));
    let b0 = ((version >> 56) & 0xff) as u8;
    let b1 = ((version >> 48) & 0xff) as u8;
    let b2 = ((version >> 40) & 0xff) as u8;
    let b3 = ((version >> 32) & 0xff) as u8;
    let b4 = ((version >> 24) & 0xff) as u8;
    let b5 = ((version >> 16) & 0xff) as u8;
    let b6 = ((version >> 8) & 0xff) as u8;
    let b7 = (version & 0xff) as u8;
    assert(bytes[0] == b0 && bytes[1] == b1 && bytes[2] == b2 && bytes[3] == b3);
    assert(bytes[4] == b4 && bytes[5] == b5 && bytes[6] == b6 && bytes[7] == b7);
    assert(b0 * 0x100_0000_0000_0000 + b1 * 0x1_0000_0000_0000 + b2 * 0x100_0000_0000 + b3
        * 0x1_0000_0000 + b4 * 0x100_0000 + b5 * 0x1_0000 + b6 * 0x100 + b7 == version)
        by (bit_vector)
        requires
            b0 == ((version >> 56) & 0xff) as u8,
            b1 == ((version >> 48) & 0xff) as u8,
            b2 == ((version >> 40) & 0xff) as u8,
            b3 == ((version >> 32) & 0xff) as u8,
            b4 == ((version >> 24) & 0xff) as u8,
            b5 == ((version >> 16) & 0xff) as u8,
            b6 == ((version >> 8) & 0xff) as u8,
            b7 == (version & 0xff) as u8,
    ;
}

/// The value of a lower case hexadecimal digit, and -1 for any other character.
pub open spec fn hex_value(c: char) -> int {
    if 48 <= c as int <= 57 {
        c as int - 48
    } else if 97 <= c as int <= 102 {
        c as int - 87
    } else {
        -1
    }
}

/// The hexadecimal text reads back as the bytes: two lower case digits for each
/// byte, the first of sixteens and the second of ones.
pub proof fn law_hex_text_reads_back(bytes: Seq<u8>)
    ensures
        hex_text(bytes).len() == 2 * bytes.len(),
        forall|i: int|
            #![trigger bytes[i]]
            0 <= i < bytes.len() ==> {
                &&& 0 <= hex_value(hex_text(bytes)[2 * i]) <= 15
                &&& 0 <= hex_value(hex_text(bytes)[2 * i + 1]) <= 15
                &&& 16 * hex_value(hex_text(bytes)[2 * i]) + hex_value(hex_text(bytes)[2 * i + 1])
                    == bytes[i]
            },
{
    assert forall|i: int| #![trigger bytes[i]] 0 <= i < bytes.len() implies {
        &&& 0 <= hex_value(hex_text(bytes)[2 * i]) <= 15
        &&& 0 <= hex_value(hex_text(bytes)[2 * i + 1]) <= 15
        &&& 16 * hex_value(hex_text(bytes)[2 * i]) + hex_value(hex_text(bytes)[2 * i + 1])
            == bytes[i]
    } by {
        lemma_hex_digits_of(bytes, i);
        lemma_hex_value(bytes[i] as int / 16);
        lemma_hex_value(bytes[i] as int % 16);
    }
}

proof fn lemma_hex_value(n: int)
    requires
        0 <= n < 16,
    ensures
        hex_value(hex_digit(n)) == n,
{
    assert('0' as int == 48 && 'a' as int == 97);
}

/// A checksum reads back as the SHA-256 digest of the bytes that
/// [`law_preimage_layout`] lays out, of exactly this version, name and SQL.
pub proof fn law_checksum_is_the_digest(version: u64, name: Seq<char>, sql: Seq<char>)
    ensures
        ({
            let digest = sha256(preimage(version, name, sql));
            let text = checksum_text(version, name, sql);
            &&& text.len() == 2 * digest.len()
            &&& forall|i: int|
                #![trigger digest[i]]
                0 <= i < digest.len() ==> {
                    &&& 0 <= hex_value(text[2 * i]) <= 15
                    &&& 0 <= hex_value(text[2 * i + 1]) <= 15
                    &&& 16 * hex_value(text[2 * i]) + hex_value(text[2 * i + 1]) == digest[i]
                }
        }),
{
    law_hex_text_reads_back(sha256(preimage(version, name, sql)));
}

/// What can be hashed: preimages of up to 2^61 - 1 bytes, whose bit count fits 64
/// bits.
pub proof fn law_digest_limit()
    ensures
        MAX_DIGEST_INPUT * 8 <= u64::MAX,
        (MAX_DIGEST_INPUT + 1) * 8 > u64::MAX,
{
}

} // verus!
