//! Content digests and the identifiers made from them.

use vstd::prelude::*;
use vstd::utf8::encode_utf8;

use crate::text::{first_chars, head_of};

verus! {

/// The SHA-256 digest of a byte string.
pub uninterp spec fn sha256_of(bytes: Seq<u8>) -> Seq<u8>;

/// `sha2::Sha256::digest`: the digest of the bytes alone, 32 bytes long.
#[verifier::external_body]
fn sha256(bytes: &Vec<u8>) -> (r: Vec<u8>)
    ensures
        r@ == sha256_of(bytes@),
        r@.len() == 32,
{
    <sha2::Sha256 as sha2::Digest>::digest(bytes).to_vec()
}

pub open spec fn hex_digit(n: int) -> char {
    if n < 10 {
        ((48 + n) as u8) as char
    } else {
        ((87 + n) as u8) as char
    }
}

/// Bytes as lower-case hexadecimal digits, two to a byte.
pub open spec fn hex_text(bytes: Seq<u8>) -> Seq<char>
    decreases bytes.len(),
{
    if bytes.len() == 0 {
        Seq::empty()
    } else {
        hex_text(bytes.drop_last()).push(hex_digit(bytes.last() as int / 16)).push(
            hex_digit(bytes.last() as int % 16),
        )
    }
}

fn hex_char(n: u8) -> (r: char)
    requires
        n < 16,
    ensures
        r == hex_digit(n as int),
{
    if n < 10 {
        (48 + n) as char
    } else {
        (87 + n) as char
    }
}

/// Two digits to a byte.
proof fn lemma_hex_length(bytes: Seq<u8>)
    ensures
        hex_text(bytes).len() == 2 * bytes.len(),
    decreases bytes.len(),
{
    if bytes.len() > 0 {
        lemma_hex_length(bytes.drop_last());
    }
}

/// Bytes in lower-case hexadecimal.
pub fn hex(bytes: &Vec<u8>) -> (r: String)
    ensures
        r@ == hex_text(bytes@),
        r@.len() == 2 * bytes@.len(),
{
    let mut r = String::new();
    let mut i: usize = 0;
    proof {
        assert(bytes@.take(0) =~= Seq::<u8>::empty());
    }
    while i < bytes.len()
        invariant
            i <= bytes@.len(),
            r@ == hex_text(bytes@.take(i as int)),
        decreases bytes@.len() - i,
    {
        r.push(hex_char(bytes[i] / 16));
        r.push(hex_char(bytes[i] % 16));
        proof {
            assert(bytes@.take(i + 1).drop_last() =~= bytes@.take(i as int));
        }
        i += 1;
    }
    proof {
        assert(bytes@.take(i as int) =~= bytes@);
        lemma_hex_length(bytes@);
    }
    r
}

/// A number in `size` bytes, most significant first.
pub open spec fn big_endian(n: nat, size: nat) -> Seq<u8>
    decreases size,
{
    if size == 0 {
        Seq::empty()
    } else {
        big_endian(n / 256, (size - 1) as nat).push((n % 256) as u8)
    }
}

fn big_endian_bytes(n: u64, size: u8) -> (r: Vec<u8>)
    ensures
        r@ == big_endian(n as nat, size as nat),
    decreases size,
{
    if size == 0 {
        Vec::new()
    } else {
        let mut r = big_endian_bytes(n / 256, size - 1);
        r.push((n % 256) as u8);
        r
    }
}

/// Texts framed for hashing: each as its length in bytes (eight bytes, most
/// significant first), then its bytes.
pub open spec fn framed(parts: Seq<Seq<char>>) -> Seq<u8>
    decreases parts.len(),
{
    if parts.len() == 0 {
        Seq::empty()
    } else {
        framed(parts.drop_last()) + big_endian(encode_utf8(parts.last()).len(), 8)
            + encode_utf8(parts.last())
    }
}

pub open spec fn parts_of(parts: Seq<&str>) -> Seq<Seq<char>> {
    parts.map_values(|part: &str| part@)
}

/// The short digest of a list of texts: 24 hexadecimal digits.
pub open spec fn short_digest_text(parts: Seq<Seq<char>>) -> Seq<char> {
    first_chars(hex_text(sha256_of(framed(parts))), 24)
}

fn append_bytes(to: &mut Vec<u8>, bytes: &[u8])
    ensures
        final(to)@ == old(to)@ + bytes@,
{
    let ghost before = to@;
    let mut i: usize = 0;
    while i < bytes.len()
        invariant
            i <= bytes@.len(),
            to@ == before + bytes@.take(i as int),
        decreases bytes@.len() - i,
    {
        to.push(bytes[i]);
        proof {
            assert(bytes@.take(i + 1) =~= bytes@.take(i as int).push(bytes@[i as int]));
            assert(to@ =~= before + bytes@.take(i + 1));
        }
        i += 1;
    }
    proof {
        assert(bytes@.take(i as int) =~= bytes@);
    }
}

/// A short digest that identifies a list of texts. Control state makes
/// identifiers of its own; that it digests their parts in the same way is
/// assumed, and nothing here shows it.
pub fn short_digest(parts: &[&str]) -> (r: String)
    ensures
        r@ == short_digest_text(parts_of(parts@)),
        r@ == hex_text(sha256_of(framed(parts_of(parts@)))).take(24),
        r@.len() == 24,
{
    let mut bytes: Vec<u8> = Vec::new();
    let ghost all = parts_of(parts@);
    let mut i: usize = 0;
    proof {
        assert(all.take(0) =~= Seq::<Seq<char>>::empty());
    }
    while i < parts.len()
        invariant
            i <= parts@.len(),
            all == parts_of(parts@),
            bytes@ == framed(all.take(i as int)),
        decreases parts@.len() - i,
    {
        let part = parts[i];
        let size: usize = part.len();
        let text = part.as_bytes();
        let same_size: usize = text.len();
        append_bytes(&mut bytes, big_endian_bytes(size as u64, 8).as_slice());
        append_bytes(&mut bytes, text);
        proof {
            assert(all.take(i + 1).drop_last() =~= all.take(i as int));
            assert(all.take(i + 1).last() == part@);
        }
        i += 1;
    }
    proof {
        assert(all.take(i as int) =~= all);
    }
    let digits = hex(&sha256(&bytes));
    proof {
        assert(first_chars(digits@, 24) =~= digits@.take(24));
    }
    head_of(&digits, 24)
}

/// How content is named: `sha256:` and its digest in hexadecimal.
pub open spec fn content_identity_text(bytes: Seq<u8>) -> Seq<char> {
    "sha256:"@ + hex_text(sha256_of(bytes))
}

/// The identity of content.
pub fn content_identity(bytes: &Vec<u8>) -> (r: String)
    ensures
        r@ == content_identity_text(bytes@),
        r@ == "sha256:"@ + hex_text(sha256_of(bytes@)),
        r@.len() == 71,
{
    proof {
        reveal_strlit("sha256:");
    }
    "sha256:".to_owned().concat(&hex(&sha256(bytes)))
}

/// The identity of a text's bytes.
pub fn text_identity(text: &str) -> (r: String)
    ensures
        r@ == content_identity_text(encode_utf8(text@)),
        r@.len() == 71,
{
    let mut bytes: Vec<u8> = Vec::new();
    append_bytes(&mut bytes, text.as_bytes());
    proof {
        assert(bytes@ =~= encode_utf8(text@));
    }
    content_identity(&bytes)
}

/// A project's identifier in an environment.
pub open spec fn project_id_text(environment_id: Seq<char>, project: Seq<char>) -> Seq<char> {
    "prj_"@ + short_digest_text(seq![environment_id, project])
}

pub fn project_id(environment_id: &str, project: &str) -> (r: String)
    ensures
        r@ == project_id_text(environment_id@, project@),
        r@ == "prj_"@ + short_digest_text(seq![environment_id@, project@]),
{
    let parts = [environment_id, project];
    proof {
        assert(parts_of(parts@) =~= seq![environment_id@, project@]);
    }
    "prj_".to_owned().concat(&short_digest(&parts))
}

/// A workload's identifier in a project.
pub open spec fn workload_id_text(project_id: Seq<char>, workload: Seq<char>) -> Seq<char> {
    "wl_"@ + short_digest_text(seq![project_id, workload])
}

pub fn workload_id(project_id: &str, workload: &str) -> (r: String)
    ensures
        r@ == workload_id_text(project_id@, workload@),
        r@ == "wl_"@ + short_digest_text(seq![project_id@, workload@]),
{
    let parts = [project_id, workload];
    proof {
        assert(parts_of(parts@) =~= seq![project_id@, workload@]);
    }
    "wl_".to_owned().concat(&short_digest(&parts))
}

// ---- Laws -------------------------------------------------------------------

/// Hexadecimal digits are `0` to `9` and `a` to `f`, in this order.
pub proof fn law_hexadecimal_digits(n: int)
    requires
        0 <= n < 16,
    ensures
        hex_digit(n) == "0123456789abcdef"@[n],
{
    reveal_strlit("0123456789abcdef");
}

/// Bytes are written in order, each as two digits of which the first counts
/// sixteen times as much.
pub proof fn law_bytes_are_written_in_order(bytes: Seq<u8>, i: int)
    requires
        0 <= i < bytes.len(),
    ensures
        hex_text(bytes).len() == 2 * bytes.len(),
        hex_text(bytes)[2 * i] == hex_digit(bytes[i] as int / 16),
        hex_text(bytes)[2 * i + 1] == hex_digit(bytes[i] as int % 16),
    decreases bytes.len(),
{
    lemma_hex_length(bytes);
    let before = bytes.drop_last();
    lemma_hex_length(before);
    if i < before.len() {
        law_bytes_are_written_in_order(before, i);
        assert(hex_text(bytes)[2 * i] == hex_text(before)[2 * i]);
        assert(hex_text(bytes)[2 * i + 1] == hex_text(before)[2 * i + 1]);
    }
}

/// How many numbers so many bytes hold.
pub open spec fn capacity(size: nat) -> nat
    decreases size,
{
    if size == 0 {
        1
    } else {
        256 * capacity((size - 1) as nat)
    }
}

proof fn lemma_big_endian(n: nat, m: nat, size: nat)
    requires
        n < capacity(size),
        m < capacity(size),
    ensures
        big_endian(n, size).len() == size,
        big_endian(n, size) == big_endian(m, size) ==> n == m,
    decreases size,
{
    if size > 0 {
        lemma_big_endian(n / 256, m / 256, (size - 1) as nat);
        let left = big_endian(n, size);
        let right = big_endian(m, size);
        if left == right {
            assert(left.last() == (n % 256) as u8);
            assert(right.last() == (m % 256) as u8);
            assert(left.drop_last() =~= big_endian(n / 256, (size - 1) as nat));
            assert(right.drop_last() =~= big_endian(m / 256, (size - 1) as nat));
        }
    }
}

proof fn lemma_big_endian_length(n: nat, size: nat)
    ensures
        big_endian(n, size).len() == size,
    decreases size,
{
    if size > 0 {
        lemma_big_endian_length(n / 256, (size - 1) as nat);
    }
}

/// What is framed first stands first.
proof fn lemma_framed_first(parts: Seq<Seq<char>>)
    requires
        parts.len() > 0,
    ensures
        framed(parts) == big_endian(encode_utf8(parts[0]).len(), 8) + encode_utf8(parts[0])
            + framed(parts.drop_first()),
    decreases parts.len(),
{
    let head = big_endian(encode_utf8(parts[0]).len(), 8) + encode_utf8(parts[0]);
    if parts.len() == 1 {
        assert(parts.drop_last() =~= Seq::<Seq<char>>::empty());
        assert(parts.drop_first() =~= Seq::<Seq<char>>::empty());
        assert(framed(parts) =~= head + framed(parts.drop_first()));
    } else {
        let before = parts.drop_last();
        lemma_framed_first(before);
        assert(before[0] == parts[0]);
        let rest = parts.drop_first();
        assert(rest.drop_last() =~= before.drop_first());
        assert(rest.last() == parts.last());
        let tail = big_endian(encode_utf8(parts.last()).len(), 8) + encode_utf8(parts.last());
        assert(framed(rest) =~= framed(before.drop_first()) + tail);
        assert(framed(parts) =~= framed(before) + tail);
        assert(framed(parts) =~= head + framed(rest));
    }
}

/// Lists of texts are hashed as the same bytes only where they are the same
/// list: no text runs into the next.
pub proof fn law_lists_are_told_apart(a: Seq<Seq<char>>, b: Seq<Seq<char>>)
    requires
        forall|i: int| 0 <= i < a.len() ==> encode_utf8(#[trigger] a[i]).len() <= u64::MAX,
        forall|i: int| 0 <= i < b.len() ==> encode_utf8(#[trigger] b[i]).len() <= u64::MAX,
    ensures
        framed(a) == framed(b) <==> a == b,
    decreases a.len(),
{
    if a.len() > 0 {
        lemma_framed_first(a);
        lemma_big_endian_length(encode_utf8(a[0]).len(), 8);
    }
    if b.len() > 0 {
        lemma_framed_first(b);
        lemma_big_endian_length(encode_utf8(b[0]).len(), 8);
    }
    if framed(a) == framed(b) {
        if a.len() > 0 && b.len() > 0 {
            let left = encode_utf8(a[0]);
            let right = encode_utf8(b[0]);
            assert(capacity(8) == 0x1_0000_0000_0000_0000) by {
                reveal_with_fuel(capacity, 9);
            }
            assert(framed(a).take(8) =~= big_endian(left.len(), 8));
            assert(framed(b).take(8) =~= big_endian(right.len(), 8));
            lemma_big_endian(left.len(), right.len(), 8);
            let end = 8 + left.len();
            assert(framed(a).subrange(8, end as int) =~= left);
            assert(framed(b).subrange(8, end as int) =~= right);
            assert(framed(a).skip(end as int) =~= framed(a.drop_first()));
            assert(framed(b).skip(end as int) =~= framed(b.drop_first()));
            vstd::utf8::encode_utf8_decode_utf8(a[0]);
            vstd::utf8::encode_utf8_decode_utf8(b[0]);
            assert(a[0] == b[0]);
            assert forall|i: int| 0 <= i < a.drop_first().len() implies encode_utf8(
                #[trigger] a.drop_first()[i],
            ).len() <= u64::MAX by {
                assert(a.drop_first()[i] == a[i + 1]);
            }
            assert forall|i: int| 0 <= i < b.drop_first().len() implies encode_utf8(
                #[trigger] b.drop_first()[i],
            ).len() <= u64::MAX by {
                assert(b.drop_first()[i] == b[i + 1]);
            }
            law_lists_are_told_apart(a.drop_first(), b.drop_first());
            assert(a =~= seq![a[0]] + a.drop_first());
            assert(b =~= seq![b[0]] + b.drop_first());
        } else {
            assert(a.len() > 0 ==> framed(a).len() >= 8);
            assert(b.len() > 0 ==> framed(b).len() >= 8);
            assert(a.len() == 0 ==> framed(a).len() == 0);
            assert(b.len() == 0 ==> framed(b).len() == 0);
            assert(a =~= b);
        }
    }
}

} // verus!
