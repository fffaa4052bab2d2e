//! What is proved of the names of cached images: they change with what the images show.

use crate::tiles::{FileStat, TileCacheSpec};
use crate::hashing;
use crate::paths;
use crate::scale;
use crate::text;
use crate::tiles;
use vstd::arithmetic::div_mod;
use vstd::prelude::*;
use vstd::utf8;

verus! {

// ---------------------------------------------------------------------------
// The hash

/// The hash of bytes is FNV-1a: each byte in turn is put to the lowest bits by exclusive or,
/// and the sum taken times a prime, to 64 bits.
pub proof fn law_hash_is_fnv(hash: u64, bytes: Seq<u8>, byte: u8)
    ensures
        hashing::hash_of(hash, Seq::empty()) == hash,
        hashing::hash_of(hash, bytes.push(byte)) as nat == ((hashing::hash_of(hash, bytes) ^ (
        byte as u64)) as nat * 0x100_0000_01b3) % 0x1_0000_0000_0000_0000,
{
    assert(bytes.push(byte).drop_last() =~= bytes);
}

/// Bytes can be hashed one part after the other.
proof fn lemma_hash_parts(hash: u64, a: Seq<u8>, b: Seq<u8>)
    ensures
        hashing::hash_of(hash, a + b) == hashing::hash_of(hashing::hash_of(hash, a), b),
    decreases b.len(),
{
    if b.len() == 0 {
        assert(a + b =~= a);
    } else {
        lemma_hash_parts(hash, a, b.drop_last());
        assert((a + b).drop_last() =~= a + b.drop_last());
    }
}

/// A product with the prime tells what was multiplied.
proof fn lemma_product_tells(x: u64, y: u64)
    requires
        (x as nat * hashing::HASH_PRIME as nat) % 0x1_0000_0000_0000_0000 == (y as nat
            * hashing::HASH_PRIME as nat) % 0x1_0000_0000_0000_0000,
    ensures
        x == y,
{
    lemma_product_undone(x);
    lemma_product_undone(y);
}

proof fn lemma_product_undone(x: u64)
    ensures
        (((x as int * hashing::HASH_PRIME as int) % 0x1_0000_0000_0000_0000) * 0xce965057aff6957b)
            % 0x1_0000_0000_0000_0000 == x,
{
    let m: int = 0x1_0000_0000_0000_0000;
    let p = hashing::HASH_PRIME as int;
    let q: int = 0xce965057aff6957b;
    let a = x as int;
    div_mod::lemma_mul_mod_noop_left(a * p, q, m);
    assert((a * p) * q == a + m * (a * 0xce9650590f)) by (nonlinear_arith)
        requires
            p * q == 1 + m * 0xce9650590f,
    ;
    div_mod::lemma_mod_multiples_vanish(a * 0xce9650590f, a, m);
    div_mod::lemma_small_mod(x as nat, m as nat);
}

proof fn lemma_byte_tells(hash: u64, other: u64, a: u8, b: u8)
    requires
        hashing::hash_byte(hash, a) == hashing::hash_byte(other, b),
    ensures
        hash == other ==> a == b,
        a == b ==> hash == other,
{
    let x = hash ^ (a as u64);
    let y = other ^ (b as u64);
    lemma_product_tells(x, y);
    assert(x == y ==> (hash == other ==> a == b) && (a == b ==> hash == other)) by (bit_vector)
        requires
            x == hash ^ (a as u64),
            y == other ^ (b as u64),
    ;
}

proof fn lemma_start_tells(hash: u64, other: u64, bytes: Seq<u8>)
    ensures
        hashing::hash_of(hash, bytes) == hashing::hash_of(other, bytes) <==> hash == other,
    decreases bytes.len(),
{
    if bytes.len() > 0 {
        let head = bytes.drop_last();
        lemma_start_tells(hash, other, head);
        if hashing::hash_of(hash, bytes) == hashing::hash_of(other, bytes) {
            lemma_byte_tells(
                hashing::hash_of(hash, head),
                hashing::hash_of(other, head),
                bytes.last(),
                bytes.last(),
            );
        }
    }
}

/// Bytes that differ in one place have different hashes.
pub proof fn law_one_byte_changes_the_hash(
    hash: u64,
    head: Seq<u8>,
    a: u8,
    b: u8,
    tail: Seq<u8>,
)
    requires
        a != b,
    ensures
        hashing::hash_of(hash, head.push(a) + tail) != hashing::hash_of(hash, head.push(b) + tail),
{
    lemma_hash_parts(hash, head.push(a), tail);
    lemma_hash_parts(hash, head.push(b), tail);
    let start = hashing::hash_of(hash, head);
    assert(head.push(a).drop_last() =~= head);
    assert(head.push(b).drop_last() =~= head);
    lemma_start_tells(
        hashing::hash_of(hash, head.push(a)),
        hashing::hash_of(hash, head.push(b)),
        tail,
    );
    if hashing::hash_byte(start, a) == hashing::hash_byte(start, b) {
        lemma_byte_tells(start, start, a, b);
    }
}

/// A number of 64 bits in hexadecimal has sixteen digits, which tell it from every other.
pub proof fn law_hexadecimal_tells_numbers_apart(a: u64, b: u64)
    ensures
        text::hex_text(a as nat, 16).len() == 16,
        text::hex_text(a as nat, 16) == text::hex_text(b as nat, 16) <==> a == b,
        forall|i: int|
            0 <= i < 16 ==> {
                let c = #[trigger] text::hex_text(a as nat, 16)[i];
                '0' <= c <= '9' || 'a' <= c <= 'f'
            },
{
    hashing::law_hex_round_trip(a);
    hashing::law_hex_round_trip(b);
    hashing::lemma_hex_digits(a as nat, 16);
    lemma_hex_chars(a as nat, 16);
}

proof fn lemma_hex_chars(n: nat, width: nat)
    ensures
        text::hex_text(n, width).len() == width,
        forall|i: int|
            0 <= i < width ==> {
                let c = #[trigger] text::hex_text(n, width)[i];
                '0' <= c <= '9' || 'a' <= c <= 'f'
            },
    decreases width,
{
    if width > 0 {
        lemma_hex_chars(n / 16, (width - 1) as nat);
    }
}

// ---------------------------------------------------------------------------
// Fields

/// No byte of a text is the one that ends a field.
proof fn lemma_no_end(bytes: Seq<u8>)
    requires
        utf8::valid_utf8(bytes),
    ensures
        forall|i: int| 0 <= i < bytes.len() ==> #[trigger] bytes[i] != 0xff,
    decreases bytes.len(),
{
    if bytes.len() > 0 {
        let rest = utf8::pop_first_scalar(bytes);
        let n = utf8::length_of_first_scalar(bytes);
        lemma_no_end(rest);
        assert forall|i: int| 0 <= i < bytes.len() implies #[trigger] bytes[i] != 0xff by {
            if i >= n {
                assert(bytes[i] == rest[i - n]);
            }
        }
    }
}

/// A text and the byte that ends it tell where it ends and what it is.
proof fn lemma_text_field(a: Seq<char>, b: Seq<char>, x: Seq<u8>, y: Seq<u8>)
    requires
        utf8::encode_utf8(a).push(0xff) + x == utf8::encode_utf8(b).push(0xff) + y,
    ensures
        a == b,
        x == y,
{
    let p = utf8::encode_utf8(a);
    let q = utf8::encode_utf8(b);
    utf8::encode_utf8_valid_utf8(a);
    utf8::encode_utf8_valid_utf8(b);
    lemma_no_end(p);
    lemma_no_end(q);
    let s = p.push(0xff) + x;
    let t = q.push(0xff) + y;
    assert(s[p.len() as int] == 0xff);
    assert(t[q.len() as int] == 0xff);
    if p.len() < q.len() {
        assert(t[p.len() as int] == q[p.len() as int]);
    } else if q.len() < p.len() {
        assert(s[q.len() as int] == p[q.len() as int]);
    }
    assert forall|i: int| 0 <= i < p.len() implies p[i] == q[i] by {
        assert(s[i] == p[i] && t[i] == q[i]);
    }
    assert(p =~= q);
    assert(s.len() == t.len());
    assert forall|i: int| 0 <= i < x.len() implies x[i] == y[i] by {
        assert(s[p.len() + 1 + i] == x[i] && t[p.len() + 1 + i] == y[i]);
    }
    assert(x =~= y);
    utf8::encode_utf8_decode_utf8(a);
    utf8::encode_utf8_decode_utf8(b);
}

/// The bytes of a number tell it, as far as they reach.
proof fn lemma_low_bytes(a: nat, b: nat, count: nat)
    ensures
        hashing::low_bytes(a, count).len() == count,
        hashing::low_bytes(a, count) == hashing::low_bytes(b, count) ==> a % power256(count) == b
            % power256(count),
    decreases count,
{
    if count > 0 {
        let less = (count - 1) as nat;
        lemma_low_bytes(a / 256, b / 256, less);
        let s = hashing::low_bytes(a, count);
        let t = hashing::low_bytes(b, count);
        if s == t {
            assert(s[0] == (a % 256) as u8 && t[0] == (b % 256) as u8);
            assert(s.skip(1) =~= hashing::low_bytes(a / 256, less));
            assert(t.skip(1) =~= hashing::low_bytes(b / 256, less));
            let p = power256(less);
            lemma_power256(less);
            lemma_split_mod(a, p);
            lemma_split_mod(b, p);
        }
    } else {
        assert(a % 1 == 0 && b % 1 == 0);
    }
}

proof fn lemma_split_mod(a: nat, p: nat)
    requires
        p > 0,
    ensures
        a % (256 * p) == 256 * ((a / 256) % p) + a % 256,
{
    div_mod::lemma_mod_breakdown(a as int, 256, p as int);
}

/// A power of 256.
spec fn power256(n: nat) -> nat
    decreases n,
{
    if n == 0 {
        1
    } else {
        256 * power256((n - 1) as nat)
    }
}

proof fn lemma_power256(n: nat)
    ensures
        power256(n) > 0,
    decreases n,
{
    if n > 0 {
        lemma_power256((n - 1) as nat);
    }
}

/// The bytes of a number of so many bytes, and the byte that ends them, tell the number.
proof fn lemma_number_field(a: nat, b: nat, count: nat, x: Seq<u8>, y: Seq<u8>)
    requires
        hashing::low_bytes(a, count).push(0xff) + x == hashing::low_bytes(b, count).push(0xff) + y,
        a < power256(count),
        b < power256(count),
    ensures
        a == b,
        x == y,
{
    let p = hashing::low_bytes(a, count);
    let q = hashing::low_bytes(b, count);
    lemma_low_bytes(a, b, count);
    lemma_low_bytes(b, a, count);
    let s = p.push(0xff) + x;
    let t = q.push(0xff) + y;
    assert forall|i: int| 0 <= i < p.len() implies p[i] == q[i] by {
        assert(s[i] == p[i] && t[i] == q[i]);
    }
    assert(p =~= q);
    div_mod::lemma_small_mod(a, power256(count));
    div_mod::lemma_small_mod(b, power256(count));
    assert(s.len() == t.len());
    assert forall|i: int| 0 <= i < x.len() implies x[i] == y[i] by {
        assert(s[count + 1 + i] == x[i] && t[count + 1 + i] == y[i]);
    }
    assert(x =~= y);
}

proof fn lemma_field_hash(hash: u64, bytes: Seq<u8>)
    ensures
        hashing::hash_field(hash, bytes) == hashing::hash_of(hash, bytes.push(0xff)),
{
    assert(bytes.push(0xff).drop_last() =~= bytes);
}

// ---------------------------------------------------------------------------
// Thumbnails

/// All that a thumbnail depends on, as bytes: the path, the size and the time of its image,
/// its edge, and the way in which it is made.
pub open spec fn cell_bytes(path: Seq<char>, stat: FileStat, edge: u32, algorithm: u32) -> Seq<u8> {
    utf8::encode_utf8(path).push(0xff) + (hashing::low_bytes(stat.len as nat, 8).push(0xff) + (
    hashing::low_bytes(stat.mtime_ns as nat, 16).push(0xff) + (hashing::low_bytes(
        edge as nat,
        4,
    ).push(0xff) + (hashing::low_bytes(algorithm as nat, 4).push(0xff) + Seq::<u8>::empty()))))
}

/// The key of a thumbnail is the FNV-1a hash, in sixteen hexadecimal digits, of bytes that
/// tell everything that the thumbnail depends on.
#[verifier::spinoff_prover]
pub proof fn law_cell_key_hashes_all_it_depends_on(path: Seq<char>, stat: FileStat, edge: u32)
    ensures
        tiles::cell_key(path, stat, edge) == text::hex_text(
            hashing::hash_of(0xcbf2_9ce4_8422_2325, cell_bytes(path, stat, edge, 2)) as nat,
            16,
        ),
{
    let a = utf8::encode_utf8(path).push(0xff);
    let b = hashing::low_bytes(stat.len as nat, 8).push(0xff);
    let c = hashing::low_bytes(stat.mtime_ns as nat, 16).push(0xff);
    let d = hashing::low_bytes(edge as nat, 4).push(0xff);
    let e = hashing::low_bytes(2, 4).push(0xff);
    let h0: u64 = 0xcbf2_9ce4_8422_2325;
    let h1 = hashing::hash_of(h0, a);
    let h2 = hashing::hash_of(h1, b);
    let h3 = hashing::hash_of(h2, c);
    let h4 = hashing::hash_of(h3, d);
    lemma_field_hash(h0, utf8::encode_utf8(path));
    lemma_field_hash(h1, hashing::low_bytes(stat.len as nat, 8));
    lemma_field_hash(h2, hashing::low_bytes(stat.mtime_ns as nat, 16));
    lemma_field_hash(h3, hashing::low_bytes(edge as nat, 4));
    lemma_field_hash(h4, hashing::low_bytes(2, 4));
    assert(e + Seq::<u8>::empty() =~= e);
    lemma_hash_parts(h0, a, b + (c + (d + e)));
    lemma_hash_parts(h1, b, c + (d + e));
    lemma_hash_parts(h2, c, d + e);
    lemma_hash_parts(h3, d, e);
}

/// The bytes that are hashed to the keys of two thumbnails are equal only where the images
/// have the same path, size and time, and the thumbnails the same edge and way of making.
#[verifier::spinoff_prover]
pub proof fn law_cell_bytes_tell_all(
    path: Seq<char>,
    stat: FileStat,
    edge: u32,
    algorithm: u32,
    path2: Seq<char>,
    stat2: FileStat,
    edge2: u32,
    algorithm2: u32,
)
    ensures
        cell_bytes(path, stat, edge, algorithm) == cell_bytes(path2, stat2, edge2, algorithm2)
            <==> path == path2 && stat.len == stat2.len && stat.mtime_ns == stat2.mtime_ns && edge
            == edge2 && algorithm == algorithm2,
{
    if cell_bytes(path, stat, edge, algorithm) == cell_bytes(path2, stat2, edge2, algorithm2) {
        let none = Seq::<u8>::empty();
        let e1 = hashing::low_bytes(algorithm as nat, 4).push(0xff) + none;
        let e2 = hashing::low_bytes(algorithm2 as nat, 4).push(0xff) + none;
        let d1 = hashing::low_bytes(edge as nat, 4).push(0xff) + e1;
        let d2 = hashing::low_bytes(edge2 as nat, 4).push(0xff) + e2;
        let c1 = hashing::low_bytes(stat.mtime_ns as nat, 16).push(0xff) + d1;
        let c2 = hashing::low_bytes(stat2.mtime_ns as nat, 16).push(0xff) + d2;
        let b1 = hashing::low_bytes(stat.len as nat, 8).push(0xff) + c1;
        let b2 = hashing::low_bytes(stat2.len as nat, 8).push(0xff) + c2;
        assert(power256(4) == 0x1_0000_0000) by {
            reveal_with_fuel(power256, 5);
        }
        assert(power256(8) == 0x1_0000_0000_0000_0000) by {
            reveal_with_fuel(power256, 9);
        }
        assert(power256(16) == 0x1_0000_0000_0000_0000_0000_0000_0000_0000) by {
            reveal_with_fuel(power256, 17);
        }
        lemma_text_field(path, path2, b1, b2);
        lemma_number_field(stat.len as nat, stat2.len as nat, 8, c1, c2);
        lemma_number_field(stat.mtime_ns as nat, stat2.mtime_ns as nat, 16, d1, d2);
        lemma_number_field(edge as nat, edge2 as nat, 4, e1, e2);
        lemma_number_field(algorithm as nat, algorithm2 as nat, 4, none, none);
    }
}

/// The bytes of numbers that differ in the lowest byte alone differ in one place.
proof fn lemma_lowest_byte(a: nat, b: nat, count: nat, head: Seq<u8>, tail: Seq<u8>)
    requires
        a / 256 == b / 256,
        a != b,
        count > 0,
    ensures
        hashing::hash_of(0xcbf2_9ce4_8422_2325, head + (hashing::low_bytes(a, count).push(0xff) + tail))
            != hashing::hash_of(
            0xcbf2_9ce4_8422_2325,
            head + (hashing::low_bytes(b, count).push(0xff) + tail),
        ),
{
    let x = (a % 256) as u8;
    let y = (b % 256) as u8;
    let rest = hashing::low_bytes(a / 256, (count - 1) as nat).push(0xff) + tail;
    assert(x != y);
    assert(head + (hashing::low_bytes(a, count).push(0xff) + tail) =~= head.push(x) + rest);
    assert(head + (hashing::low_bytes(b, count).push(0xff) + tail) =~= head.push(y) + rest);
    law_one_byte_changes_the_hash(0xcbf2_9ce4_8422_2325, head, x, y, rest);
}

/// An image that was touched gets another key: its size, its time or its edge need to differ
/// in the lowest byte alone.
#[verifier::spinoff_prover]
pub proof fn law_touched_images_get_another_key(
    path: Seq<char>,
    stat: FileStat,
    edge: u32,
    len: u64,
    mtime_ns: u128,
    other: u32,
)
    ensures
        len != stat.len && len / 256 == stat.len / 256 ==> tiles::cell_key(path, stat, edge)
            != tiles::cell_key(path, (FileStat { len, ..stat }), edge),
        mtime_ns != stat.mtime_ns && mtime_ns / 256 == stat.mtime_ns / 256 ==> tiles::cell_key(
            path,
            stat,
            edge,
        ) != tiles::cell_key(path, (FileStat { mtime_ns, ..stat }), edge),
        other != edge && other / 256 == edge / 256 ==> tiles::cell_key(path, stat, edge)
            != tiles::cell_key(path, stat, other),
{
    let none = Seq::<u8>::empty();
    let a = utf8::encode_utf8(path).push(0xff);
    let b = hashing::low_bytes(stat.len as nat, 8).push(0xff);
    let c = hashing::low_bytes(stat.mtime_ns as nat, 16).push(0xff);
    let d = hashing::low_bytes(edge as nat, 4).push(0xff);
    let e = hashing::low_bytes(2, 4).push(0xff) + none;
    let h0: u64 = 0xcbf2_9ce4_8422_2325;
    law_cell_key_hashes_all_it_depends_on(path, stat, edge);
    let key = hashing::hash_of(h0, cell_bytes(path, stat, edge, 2));
    if len != stat.len && len / 256 == stat.len / 256 {
        let new = FileStat { len, ..stat };
        law_cell_key_hashes_all_it_depends_on(path, new, edge);
        lemma_lowest_byte(stat.len as nat, len as nat, 8, a, c + (d + e));
        law_hexadecimal_tells_numbers_apart(
            key,
            hashing::hash_of(h0, cell_bytes(path, new, edge, 2)),
        );
    }
    if mtime_ns != stat.mtime_ns && mtime_ns / 256 == stat.mtime_ns / 256 {
        let new = FileStat { mtime_ns, ..stat };
        law_cell_key_hashes_all_it_depends_on(path, new, edge);
        lemma_lowest_byte(stat.mtime_ns as nat, mtime_ns as nat, 16, a + b, d + e);
        let n = hashing::low_bytes(mtime_ns as nat, 16).push(0xff);
        assert(a + (b + (c + (d + e))) =~= (a + b) + (c + (d + e)));
        assert(a + (b + (n + (d + e))) =~= (a + b) + (n + (d + e)));
        law_hexadecimal_tells_numbers_apart(
            key,
            hashing::hash_of(h0, cell_bytes(path, new, edge, 2)),
        );
    }
    if other != edge && other / 256 == edge / 256 {
        law_cell_key_hashes_all_it_depends_on(path, stat, other);
        lemma_lowest_byte(edge as nat, other as nat, 4, a + b + c, e);
        let n = hashing::low_bytes(other as nat, 4).push(0xff);
        assert(a + (b + (c + (d + e))) =~= (a + b + c) + (d + e));
        assert(a + (b + (c + (n + e))) =~= (a + b + c) + (n + e));
        law_hexadecimal_tells_numbers_apart(
            key,
            hashing::hash_of(h0, cell_bytes(path, stat, other, 2)),
        );
    }
}

/// Whether a text ends in another.
pub open spec fn ends_in(text: Seq<char>, end: Seq<char>) -> bool {
    text.len() >= end.len() && text.skip(text.len() - end.len()) == end
}

/// A path below a directory ends in what was added, and begins with the directory.
proof fn lemma_joined(dir: Seq<char>, path: Seq<char>)
    requires
        path.len() > 0,
        path[0] != '/',
    ensures
        ends_in(paths::joined(dir, path), path),
        dir.len() > 0 ==> paths::joined(dir, path).len() > dir.len() && paths::joined(
            dir,
            path,
        ).take(dir.len() as int) == dir,
{
    let all = paths::joined(dir, path);
    reveal_strlit("/");
    assert(all.skip(all.len() - path.len()) =~= path);
    if dir.len() > 0 {
        assert(all.take(dir.len() as int) =~= dir);
    }
}

proof fn lemma_ends_tell(text: Seq<char>, a: Seq<char>, b: Seq<char>)
    requires
        ends_in(text, a),
        ends_in(text, b),
        a.len() == b.len(),
    ensures
        a == b,
{
}

/// The thumbnail of an image is named after its key: it lies where that of another image or of
/// another state of the image lies only where the keys are equal.
pub proof fn law_thumbnails_are_named_after_their_keys(
    source: Seq<char>,
    cache_dir: Seq<char>,
    edge: u32,
    stat: FileStat,
    source2: Seq<char>,
    stat2: FileStat,
)
    ensures
        ({
            let cell = tiles::cell_of(source, cache_dir, edge, stat);
            let other = tiles::cell_of(source2, cache_dir, edge, stat2);
            &&& cell.source_path == source
            &&& cell.cache_key == tiles::cell_key(source, stat, edge)
            &&& ends_in(cell.image_path, cell.cache_key + ".png"@)
            &&& cell.image_path == other.image_path <==> cell.cache_key == other.cache_key
        }),
{
    let cell = tiles::cell_of(source, cache_dir, edge, stat);
    let other = tiles::cell_of(source2, cache_dir, edge, stat2);
    reveal_strlit(".png");
    let dir = paths::joined(cache_dir, "cells-"@ + text::decimal_text(edge as nat));
    law_cell_key_hashes_all_it_depends_on(source, stat, edge);
    law_cell_key_hashes_all_it_depends_on(source2, stat2, edge);
    let h = hashing::hash_of(0xcbf2_9ce4_8422_2325, cell_bytes(source, stat, edge, 2));
    let g = hashing::hash_of(0xcbf2_9ce4_8422_2325, cell_bytes(source2, stat2, edge, 2));
    law_hexadecimal_tells_numbers_apart(h, g);
    law_hexadecimal_tells_numbers_apart(g, h);
    let a = cell.cache_key + ".png"@;
    let b = other.cache_key + ".png"@;
    assert(a[0] == cell.cache_key[0] && b[0] == other.cache_key[0]);
    lemma_joined(dir, a);
    lemma_joined(dir, b);
    if cell.image_path == other.image_path {
        lemma_ends_tell(cell.image_path, a, b);
        assert(a.take(16) =~= cell.cache_key);
        assert(b.take(16) =~= other.cache_key);
    }
}

// ---------------------------------------------------------------------------
// Libraries and tiles

/// The paths of a list as bytes, each of them ended.
pub open spec fn list_bytes(list: Seq<Seq<char>>) -> Seq<u8>
    decreases list.len(),
{
    if list.len() == 0 {
        Seq::empty()
    } else {
        utf8::encode_utf8(list[0]).push(0xff) + list_bytes(list.skip(1))
    }
}

proof fn lemma_list_push(list: Seq<Seq<char>>, path: Seq<char>)
    ensures
        list_bytes(list.push(path)) == list_bytes(list) + utf8::encode_utf8(path).push(0xff),
    decreases list.len(),
{
    let one = utf8::encode_utf8(path).push(0xff);
    if list.len() == 0 {
        assert(list.push(path).skip(1) =~= Seq::<Seq<char>>::empty());
        assert(list_bytes(list.push(path).skip(1)) =~= Seq::<u8>::empty());
        assert(one + Seq::<u8>::empty() =~= Seq::<u8>::empty() + one);
    } else {
        lemma_list_push(list.skip(1), path);
        assert(list.push(path).skip(1) =~= list.skip(1).push(path));
        let first = utf8::encode_utf8(list[0]).push(0xff);
        let rest = list_bytes(list.skip(1));
        assert(first + (rest + one) =~= (first + rest) + one);
    }
}

/// The bytes of two lists of paths are equal only where the lists are.
pub proof fn law_list_bytes_tell_lists_apart(a: Seq<Seq<char>>, b: Seq<Seq<char>>)
    ensures
        list_bytes(a) == list_bytes(b) <==> a == b,
    decreases a.len(),
{
    if list_bytes(a) == list_bytes(b) {
        if a.len() == 0 || b.len() == 0 {
            if a.len() > 0 {
                assert(list_bytes(a).len() > 0);
            }
            if b.len() > 0 {
                assert(list_bytes(b).len() > 0);
            }
            assert(a =~= b);
        } else {
            lemma_text_field(a[0], b[0], list_bytes(a.skip(1)), list_bytes(b.skip(1)));
            law_list_bytes_tell_lists_apart(a.skip(1), b.skip(1));
            assert forall|i: int| 0 <= i < a.len() implies a[i] == b[i] by {
                if i > 0 {
                    assert(a[i] == a.skip(1)[i - 1]);
                    assert(b[i] == b.skip(1)[i - 1]);
                }
            }
            assert(a.skip(1).len() == b.skip(1).len());
            assert(a =~= b);
        }
    }
}

/// The fingerprint of a library is the FNV-1a hash of bytes that tell every path of it, in
/// order.
pub proof fn law_fingerprint_hashes_every_path(library: Seq<Seq<char>>)
    ensures
        tiles::snapshot_of(library).fingerprint == hashing::hash_of(
            0xcbf2_9ce4_8422_2325,
            list_bytes(library),
        ),
        tiles::snapshot_of(library).library == library,
{
    lemma_fingerprint(library);
}

proof fn lemma_fingerprint(library: Seq<Seq<char>>)
    ensures
        tiles::paths_hash(library) == hashing::hash_of(
            0xcbf2_9ce4_8422_2325,
            list_bytes(library),
        ),
    decreases library.len(),
{
    if library.len() > 0 {
        let head = library.drop_last();
        lemma_fingerprint(head);
        lemma_list_push(head, library.last());
        assert(head.push(library.last()) =~= library);
        lemma_hash_parts(
            0xcbf2_9ce4_8422_2325,
            list_bytes(head),
            utf8::encode_utf8(library.last()).push(0xff),
        );
        lemma_field_hash(tiles::paths_hash(head), utf8::encode_utf8(library.last()));
    }
}

/// The keys of the cells of a stretch of a row.
spec fn row_keys(keys: Seq<Seq<char>>, columns: nat, row: nat, from: nat, to: nat) -> Seq<Seq<char>>
    decreases to - from,
{
    if from >= to {
        Seq::empty()
    } else if row * columns + from < keys.len() {
        seq![keys[(row * columns + from) as int]] + row_keys(keys, columns, row, from + 1, to)
    } else {
        row_keys(keys, columns, row, from + 1, to)
    }
}

/// The keys of the cells of a block, row by row.
pub closed spec fn block_keys(
    keys: Seq<Seq<char>>,
    columns: nat,
    start_column: nat,
    end_column: nat,
    from: nat,
    to: nat,
) -> Seq<Seq<char>>
    decreases to - from,
{
    if from >= to {
        Seq::empty()
    } else {
        row_keys(keys, columns, from, start_column, end_column) + block_keys(
            keys,
            columns,
            start_column,
            end_column,
            from + 1,
            to,
        )
    }
}

proof fn lemma_list_concat(a: Seq<Seq<char>>, b: Seq<Seq<char>>)
    ensures
        list_bytes(a + b) == list_bytes(a) + list_bytes(b),
    decreases a.len(),
{
    if a.len() == 0 {
        assert(a + b =~= b);
        assert(list_bytes(a) + list_bytes(b) =~= list_bytes(b));
    } else {
        lemma_list_concat(a.skip(1), b);
        assert((a + b).skip(1) =~= a.skip(1) + b);
        let first = utf8::encode_utf8(a[0]).push(0xff);
        assert(first + (list_bytes(a.skip(1)) + list_bytes(b)) =~= (first + list_bytes(a.skip(1)))
            + list_bytes(b));
    }
}

proof fn lemma_one_key(path: Seq<char>)
    ensures
        list_bytes(seq![path]) == utf8::encode_utf8(path).push(0xff),
{
    assert(seq![path].skip(1) =~= Seq::<Seq<char>>::empty());
    assert(list_bytes(seq![path].skip(1)) =~= Seq::<u8>::empty());
    assert(utf8::encode_utf8(path).push(0xff) + Seq::<u8>::empty() =~= utf8::encode_utf8(
        path,
    ).push(0xff));
}

proof fn lemma_row_hash(
    keys: Seq<Seq<char>>,
    columns: nat,
    row: nat,
    from: nat,
    to: nat,
    hash: u64,
)
    ensures
        tiles::row_hash(keys, columns, row, from, to, hash) == hashing::hash_of(
            hash,
            list_bytes(row_keys(keys, columns, row, from, to)),
        ),
    decreases to - from,
{
    if from < to {
        let index = row * columns + from;
        let rest = row_keys(keys, columns, row, from + 1, to);
        if index < keys.len() {
            let key = keys[index as int];
            lemma_row_hash(
                keys,
                columns,
                row,
                from + 1,
                to,
                hashing::hash_field(hash, utf8::encode_utf8(key)),
            );
            lemma_one_key(key);
            lemma_list_concat(seq![key], rest);
            lemma_field_hash(hash, utf8::encode_utf8(key));
            lemma_hash_parts(hash, list_bytes(seq![key]), list_bytes(rest));
        } else {
            lemma_row_hash(keys, columns, row, from + 1, to, hash);
        }
    }
}

proof fn lemma_block_hash(
    keys: Seq<Seq<char>>,
    columns: nat,
    start_column: nat,
    end_column: nat,
    from: nat,
    to: nat,
    hash: u64,
)
    ensures
        tiles::block_hash(keys, columns, start_column, end_column, from, to, hash)
            == hashing::hash_of(
            hash,
            list_bytes(block_keys(keys, columns, start_column, end_column, from, to)),
        ),
    decreases to - from,
{
    if from < to {
        let row = row_keys(keys, columns, from, start_column, end_column);
        let rest = block_keys(keys, columns, start_column, end_column, from + 1, to);
        lemma_row_hash(keys, columns, from, start_column, end_column, hash);
        let next = tiles::row_hash(keys, columns, from, start_column, end_column, hash);
        lemma_block_hash(keys, columns, start_column, end_column, from + 1, to, next);
        lemma_list_concat(row, rest);
        lemma_hash_parts(hash, list_bytes(row), list_bytes(rest));
    }
}

/// Whether two libraries have the same keys in a stretch of a row.
spec fn rows_agree(
    a: Seq<Seq<char>>,
    b: Seq<Seq<char>>,
    columns: nat,
    row: nat,
    from: nat,
    to: nat,
) -> bool {
    forall|column: nat|
        from <= column < to && #[trigger] (row * columns + column) < a.len() ==> a[(row * columns
            + column) as int] == b[(row * columns + column) as int]
}

proof fn lemma_rows_agree(
    a: Seq<Seq<char>>,
    b: Seq<Seq<char>>,
    columns: nat,
    row: nat,
    from: nat,
    to: nat,
)
    requires
        a.len() == b.len(),
    ensures
        row_keys(a, columns, row, from, to).len() == row_keys(b, columns, row, from, to).len(),
        row_keys(a, columns, row, from, to) == row_keys(b, columns, row, from, to) <==> rows_agree(
            a,
            b,
            columns,
            row,
            from,
            to,
        ),
    decreases to - from,
{
    if from < to {
        lemma_rows_agree(a, b, columns, row, from + 1, to);
        let x = row_keys(a, columns, row, from + 1, to);
        let y = row_keys(b, columns, row, from + 1, to);
        let index = row * columns + from;
        if index < a.len() {
            let p = row_keys(a, columns, row, from, to);
            let q = row_keys(b, columns, row, from, to);
            assert(p.skip(1) =~= x && q.skip(1) =~= y);
            assert(p[0] == a[index as int] && q[0] == b[index as int]);
        }
    }
}

/// The keys of the cells of a block are those of its rows and columns: two libraries of one
/// size have the same keys in a block only where they have the same key in each of its cells.
pub proof fn law_block_keys_are_those_of_its_cells(
    a: Seq<Seq<char>>,
    b: Seq<Seq<char>>,
    columns: nat,
    start_column: nat,
    end_column: nat,
    from: nat,
    to: nat,
)
    requires
        a.len() == b.len(),
    ensures
        block_keys(a, columns, start_column, end_column, from, to) == block_keys(
            b,
            columns,
            start_column,
            end_column,
            from,
            to,
        ) <==> forall|row: nat, column: nat|
            from <= row < to && start_column <= column < end_column && #[trigger] (row * columns
                + column) < a.len() ==> a[(row * columns + column) as int] == b[(row * columns
                + column) as int],
        block_keys(a, columns, start_column, end_column, from, to).len() == block_keys(
            b,
            columns,
            start_column,
            end_column,
            from,
            to,
        ).len(),
    decreases to - from,
{
    if from < to {
        law_block_keys_are_those_of_its_cells(
            a,
            b,
            columns,
            start_column,
            end_column,
            from + 1,
            to,
        );
        lemma_rows_agree(a, b, columns, from, start_column, end_column);
        let x = row_keys(a, columns, from, start_column, end_column);
        let y = row_keys(b, columns, from, start_column, end_column);
        let s = block_keys(a, columns, start_column, end_column, from + 1, to);
        let t = block_keys(b, columns, start_column, end_column, from + 1, to);
        if x + s == y + t {
            assert((x + s).take(x.len() as int) =~= x);
            assert((y + t).take(x.len() as int) =~= y);
            assert((x + s).skip(x.len() as int) =~= s);
            assert((y + t).skip(x.len() as int) =~= t);
        }
    }
}

/// The image of a tile is named after its place and after the FNV-1a hash of bytes that tell
/// the key of every cell that the tile covers.
#[verifier::spinoff_prover]
pub proof fn law_tiles_are_named_after_what_they_show(
    cache_dir: Seq<char>,
    spec: TileCacheSpec,
    lod: nat,
    keys: Seq<Seq<char>>,
    row: int,
    column: int,
)
    requires
        row >= 0,
        column >= 0,
    ensures
        ({
            let tile = tiles::tile_at(cache_dir, spec, lod, keys, row, column);
            let shown = block_keys(
                keys,
                spec.columns as nat,
                tile.start_column,
                tile.end_column,
                tile.start_row,
                tile.end_row,
            );
            ends_in(
                tile.image_path,
                hashing::padded(row as nat, 6) + "-"@ + hashing::padded(column as nat, 6) + "-"@
                    + text::hex_text(
                    hashing::hash_of(0xcbf2_9ce4_8422_2325, list_bytes(shown)) as nat,
                    16,
                ) + ".png"@,
            )
        }),
{
    reveal(tiles::tile_at);
    let tile = tiles::tile_at(cache_dir, spec, lod, keys, row, column);
    lemma_block_hash(
        keys,
        spec.columns as nat,
        tile.start_column,
        tile.end_column,
        tile.start_row,
        tile.end_row,
        0xcbf2_9ce4_8422_2325,
    );
    lemma_padded(row as nat, 6);
    let name = hashing::padded(row as nat, 6) + "-"@ + hashing::padded(column as nat, 6) + "-"@
        + text::hex_text(
        tiles::block_hash(
            keys,
            spec.columns as nat,
            tile.start_column,
            tile.end_column,
            tile.start_row,
            tile.end_row,
            0xcbf2_9ce4_8422_2325,
        ) as nat,
        16,
    ) + ".png"@;
    assert(name[0] == hashing::padded(row as nat, 6)[0]);
    lemma_joined(tiles::tile_dir(cache_dir, spec, lod), name);
}

/// A padded number has only digits.
proof fn lemma_padded(n: nat, width: nat)
    ensures
        hashing::padded(n, width).len() >= width,
        hashing::padded(n, width).len() > 0,
        forall|i: int|
            0 <= i < hashing::padded(n, width).len() ==> text::is_digit(
                #[trigger] hashing::padded(n, width)[i],
            ),
        scale::digits_nat(hashing::padded(n, width)) == n,
{
    text::lemma_decimal_text_shape(n);
    let digits = text::decimal_text(n);
    lemma_decimal_digits(n);
    if digits.len() < width {
        let count = (width - digits.len()) as nat;
        let zeros = hashing::zeros(count);
        lemma_zeros(count);
        lemma_digits_behind(zeros, digits);
        assert(0 * scale::pow10(digits.len()) == 0);
        assert forall|i: int|
            0 <= i < hashing::padded(n, width).len() implies text::is_digit(
                #[trigger] hashing::padded(n, width)[i],
            ) by {
            if i >= count {
                assert(hashing::padded(n, width)[i] == digits[i - count]);
            }
        }
    }
}

proof fn lemma_decimal_digits(n: nat)
    ensures
        scale::digits_nat(text::decimal_text(n)) == n,
    decreases n,
{
    let s = text::decimal_text(n);
    if n < 10 {
        assert(s.drop_last() =~= Seq::<char>::empty());
        assert(scale::digits_nat(s.drop_last()) == 0);
        assert(text::digit_value(s.last()) == n);
    } else {
        lemma_decimal_digits(n / 10);
        assert(s.drop_last() =~= text::decimal_text(n / 10));
        assert(text::digit_value(s.last()) == n % 10);
    }
}

proof fn lemma_zeros(count: nat)
    ensures
        scale::digits_nat(hashing::zeros(count)) == 0,
    decreases count,
{
    if count > 0 {
        lemma_zeros((count - 1) as nat);
        assert(hashing::zeros(count).drop_last() =~= hashing::zeros((count - 1) as nat));
    }
}

proof fn lemma_digits_behind(a: Seq<char>, b: Seq<char>)
    ensures
        scale::digits_nat(a + b) == scale::digits_nat(a) * scale::pow10(b.len())
            + scale::digits_nat(b),
    decreases b.len(),
{
    if b.len() == 0 {
        assert(a + b =~= a);
        assert(scale::digits_nat(a) * 1 == scale::digits_nat(a));
    } else {
        lemma_digits_behind(a, b.drop_last());
        assert((a + b).drop_last() =~= a + b.drop_last());
        let x = scale::digits_nat(a);
        let p = scale::pow10((b.len() - 1) as nat);
        assert(x * (10 * p) == 10 * (x * p)) by (nonlinear_arith);
    }
}

} // verus!
