//! Content identity of snapshots: a canonical byte encoding and the short
//! SHA-256 content hash derived from it.

use vstd::prelude::*;
use vstd::string::{StrSliceExecFns, StringExecFns};
use vstd::utf8::encode_utf8;
use sha2::{Digest, Sha256};
use crate::error::GritError;
use crate::types::{PlaylistSnapshot, ProviderKind, SnapshotView, Track, TrackView};

verus! {

// ---------------------------------------------------------------------------
// Canonical encoding
// ---------------------------------------------------------------------------

/// The decimal digits of `n`, most significant first.
pub open spec fn decimal(n: nat) -> Seq<u8>
    decreases n,
{
    if n < 10 {
        seq![(48 + n) as u8]
    } else {
        decimal(n / 10).push((48 + n % 10) as u8)
    }
}

/// A tagged, length-prefixed text: tag, byte length in decimal, `:`, the
/// UTF-8 bytes, a newline.
pub open spec fn text_field(tag: u8, v: Seq<char>) -> Seq<u8> {
    seq![tag] + decimal(encode_utf8(v).len()) + seq![58u8] + encode_utf8(v) + seq![10u8]
}

/// A tagged number: tag, the number in decimal, a newline.
pub open spec fn number_field(tag: u8, n: nat) -> Seq<u8> {
    seq![tag] + decimal(n) + seq![10u8]
}

/// An optional text: absent as tag, `-`, newline; present as a text field.
pub open spec fn optional_field(tag: u8, o: Option<Seq<char>>) -> Seq<u8> {
    match o {
        Some(v) => text_field(tag, v),
        None => seq![tag, 45u8, 10u8],
    }
}

pub open spec fn provider_code(p: ProviderKind) -> nat {
    match p {
        ProviderKind::Spotify => 0,
        ProviderKind::Youtube => 1,
    }
}

pub open spec fn artists_encoding(a: Seq<Seq<char>>) -> Seq<u8>
    decreases a.len(),
{
    if a.len() == 0 {
        Seq::empty()
    } else {
        artists_encoding(a.drop_last()) + text_field(97u8, a.last())
    }
}

/// A track in canonical form: id, name, artists (count first), duration,
/// provider, metadata.
pub open spec fn track_encoding(t: TrackView) -> Seq<u8> {
    text_field(105u8, t.id) + text_field(110u8, t.name) + number_field(114u8, t.artists.len())
        + artists_encoding(t.artists) + number_field(108u8, t.duration_ms as nat) + number_field(
        112u8,
        provider_code(t.provider),
    ) + optional_field(109u8, t.metadata)
}

pub open spec fn tracks_encoding(ts: Seq<TrackView>) -> Seq<u8>
    decreases ts.len(),
{
    if ts.len() == 0 {
        Seq::empty()
    } else {
        tracks_encoding(ts.drop_last()) + track_encoding(ts.last())
    }
}

/// A snapshot in canonical form: its fields in a fixed order, then the count
/// of tracks and each track in playlist order.
pub open spec fn canonical_encoding(s: SnapshotView) -> Seq<u8> {
    text_field(105u8, s.id) + text_field(110u8, s.name) + optional_field(100u8, s.description)
        + number_field(112u8, provider_code(s.provider)) + text_field(104u8, s.snapshot_hash)
        + optional_field(109u8, s.metadata) + number_field(99u8, s.tracks.len())
        + tracks_encoding(s.tracks)
}

fn push_bytes(out: &mut Vec<u8>, b: &[u8])
    ensures
        final(out)@ == old(out)@ + b@,
{
    let mut i: usize = 0;
    while i < b.len()
        invariant
            i <= b@.len(),
            out@ == old(out)@ + b@.take(i as int),
        decreases b@.len() - i,
    {
        out.push(b[i]);
        i = i + 1;
        assert(b@.take(i as int) =~= b@.take(i - 1).push(b@[i - 1]));
    }
    assert(b@.take(i as int) =~= b@);
}

fn push_decimal(out: &mut Vec<u8>, n: u64)
    ensures
        final(out)@ == old(out)@ + decimal(n as nat),
    decreases n,
{
    if n >= 10 {
        push_decimal(out, n / 10);
    }
    out.push((48 + n % 10) as u8);
    assert(decimal(n as nat) == (if n < 10 { seq![(48 + n) as u8] } else { decimal((n / 10) as nat).push((48 + n % 10) as u8) }));
    assert(out@ =~= old(out)@ + decimal(n as nat));
}

fn push_text(out: &mut Vec<u8>, tag: u8, s: &String)
    ensures
        final(out)@ == old(out)@ + text_field(tag, s@),
{
    let b = s.as_str().as_bytes();
    out.push(tag);
    push_decimal(out, b.len() as u64);
    out.push(58u8);
    push_bytes(out, b);
    out.push(10u8);
    assert(out@ =~= old(out)@ + text_field(tag, s@));
}

fn push_number(out: &mut Vec<u8>, tag: u8, n: u64)
    ensures
        final(out)@ == old(out)@ + number_field(tag, n as nat),
{
    out.push(tag);
    push_decimal(out, n);
    out.push(10u8);
    assert(out@ =~= old(out)@ + number_field(tag, n as nat));
}

fn push_optional(out: &mut Vec<u8>, tag: u8, o: &Option<String>)
    ensures
        final(out)@ == old(out)@ + optional_field(tag, crate::types::opt_str_view(*o)),
{
    match o {
        Some(s) => push_text(out, tag, s),
        None => {
            out.push(tag);
            out.push(45u8);
            out.push(10u8);
            assert(out@ =~= old(out)@ + seq![tag, 45u8, 10u8]);
        },
    }
}

fn push_provider(out: &mut Vec<u8>, p: ProviderKind)
    ensures
        final(out)@ == old(out)@ + number_field(112u8, provider_code(p)),
{
    let code: u64 = match p {
        ProviderKind::Spotify => 0,
        ProviderKind::Youtube => 1,
    };
    push_number(out, 112u8, code);
}

fn push_track(out: &mut Vec<u8>, t: &Track)
    ensures
        final(out)@ == old(out)@ + track_encoding(t@),
{
    push_text(out, 105u8, &t.id);
    push_text(out, 110u8, &t.name);
    push_number(out, 114u8, t.artists.len() as u64);
    let ghost av = t@.artists;
    let ghost start = out@;
    let mut i: usize = 0;
    while i < t.artists.len()
        invariant
            i <= t.artists@.len(),
            av == crate::types::strings_view(t.artists@),
            out@ == start + artists_encoding(av.take(i as int)),
        decreases t.artists@.len() - i,
    {
        push_text(out, 97u8, &t.artists[i]);
        assert(av.take(i + 1).drop_last() =~= av.take(i as int));
        i = i + 1;
        assert(out@ =~= start + artists_encoding(av.take(i as int)));
    }
    assert(av.take(i as int) =~= av);
    push_number(out, 108u8, t.duration_ms);
    push_provider(out, t.provider);
    push_optional(out, 109u8, &t.metadata);
    assert(out@ =~= old(out)@ + track_encoding(t@));
}

/// The canonical encoding of a snapshot.
pub fn canonical_bytes(snapshot: &PlaylistSnapshot) -> (r: Vec<u8>)
    ensures
        r@ == canonical_encoding(snapshot@),
{
    let mut out: Vec<u8> = Vec::new();
    push_text(&mut out, 105u8, &snapshot.id);
    push_text(&mut out, 110u8, &snapshot.name);
    push_optional(&mut out, 100u8, &snapshot.description);
    push_provider(&mut out, snapshot.provider);
    push_text(&mut out, 104u8, &snapshot.snapshot_hash);
    push_optional(&mut out, 109u8, &snapshot.metadata);
    push_number(&mut out, 99u8, snapshot.tracks.len() as u64);
    let ghost tv = snapshot@.tracks;
    let ghost start = out@;
    let mut i: usize = 0;
    while i < snapshot.tracks.len()
        invariant
            i <= snapshot.tracks@.len(),
            tv == crate::types::tracks_view(snapshot.tracks@),
            out@ == start + tracks_encoding(tv.take(i as int)),
        decreases snapshot.tracks@.len() - i,
    {
        push_track(&mut out, &snapshot.tracks[i]);
        assert(tv.take(i + 1).drop_last() =~= tv.take(i as int));
        i = i + 1;
        assert(out@ =~= start + tracks_encoding(tv.take(i as int)));
    }
    assert(tv.take(i as int) =~= tv);
    assert(out@ =~= canonical_encoding(snapshot@));
    out
}

// ---------------------------------------------------------------------------
// Content hash
// ---------------------------------------------------------------------------

/// The SHA-256 digest of a byte sequence.
pub uninterp spec fn sha256_of(data: Seq<u8>) -> Seq<u8>;

/// Relies on `sha2::Sha256::digest`: the SHA-256 digest of the input, whose
/// output size is 32 bytes.
#[verifier::external_body]
fn sha256(data: &[u8]) -> (r: Vec<u8>)
    ensures
        r@ == sha256_of(data@),
        r@.len() == 32,
{
    Sha256::digest(data).to_vec()
}

/// Lowercase hexadecimal digit of a value below 16.
pub open spec fn hex_char(d: int) -> char {
    "0123456789abcdef"@[d]
}

/// Two lowercase hexadecimal digits per byte.
pub open spec fn hex_of(b: Seq<u8>) -> Seq<char>
    decreases b.len(),
{
    if b.len() == 0 {
        Seq::empty()
    } else {
        hex_of(b.drop_last()) + seq![hex_char(b.last() as int / 16), hex_char(b.last() as int % 16)]
    }
}

/// Number of digest bytes kept in a content hash (twelve hex digits).
pub const HASH_BYTES: usize = 6;

/// The content hash of a snapshot: the first six bytes of the SHA-256 digest
/// of its canonical encoding, in lowercase hex.
pub open spec fn content_hash(s: SnapshotView) -> Seq<char> {
    hex_of(sha256_of(canonical_encoding(s)).take(HASH_BYTES as int))
}

fn append_hex_digit(out: &mut String, d: u8)
    requires
        d < 16,
    ensures
        final(out)@ == old(out)@.push(hex_char(d as int)),
{
    let digits = "0123456789abcdef";
    proof {
        reveal_strlit("0123456789abcdef");
    }
    let one = digits.substring_char(d as usize, d as usize + 1);
    out.append(one);
    assert(one@ =~= seq![hex_char(d as int)]);
}

/// Lowercase hex of the first `n` bytes of `b`.
pub fn hex_prefix(b: &Vec<u8>, n: usize) -> (r: String)
    requires
        n <= b@.len(),
    ensures
        r@ == hex_of(b@.take(n as int)),
{
    let mut out = String::new();
    let mut i: usize = 0;
    while i < n
        invariant
            i <= n,
            n <= b@.len(),
            out@ == hex_of(b@.take(i as int)),
        decreases n - i,
    {
        let byte = b[i];
        append_hex_digit(&mut out, byte / 16);
        append_hex_digit(&mut out, byte % 16);
        assert(b@.take(i + 1).drop_last() =~= b@.take(i as int));
        i = i + 1;
        assert(out@ =~= hex_of(b@.take(i as int)));
    }
    out
}

/// The content hash of a snapshot, twelve lowercase hex digits. It depends
/// on the snapshot's value alone.
pub fn compute_hash(snapshot: &PlaylistSnapshot) -> (r: Result<String, GritError>)
    ensures
        r matches Ok(h) && h@ == content_hash(snapshot@) && h@.len() == 2 * HASH_BYTES,
{
    Ok(snapshot_hash_of(snapshot))
}

/// The content hash of a snapshot (see `compute_hash`).
pub fn snapshot_hash_of(snapshot: &PlaylistSnapshot) -> (r: String)
    ensures
        r@ == content_hash(snapshot@),
        r@.len() == 2 * HASH_BYTES,
{
    let bytes = canonical_bytes(snapshot);
    let digest = sha256(bytes.as_slice());
    proof {
        lemma_hex_len(digest@.take(HASH_BYTES as int));
    }
    hex_prefix(&digest, HASH_BYTES)
}

/// Equal snapshots have equal content hashes.
pub proof fn equal_snapshots_hash_alike(a: PlaylistSnapshot, b: PlaylistSnapshot)
    requires
        a@ == b@,
    ensures
        content_hash(a@) == content_hash(b@),
{
}

/// Hex text has two characters per byte.
pub proof fn lemma_hex_len(b: Seq<u8>)
    ensures
        hex_of(b).len() == 2 * b.len(),
    decreases b.len(),
{
    if b.len() > 0 {
        lemma_hex_len(b.drop_last());
    }
}

// ---------------------------------------------------------------------------
// The canonical encoding is injective
// ---------------------------------------------------------------------------

pub open spec fn is_digit(b: u8) -> bool {
    48 <= b <= 57
}

proof fn lemma_decimal_digits(n: nat)
    ensures
        decimal(n).len() >= 1,
        n >= 10 ==> decimal(n).len() >= 2,
        forall|i: int| 0 <= i < decimal(n).len() ==> is_digit(#[trigger] decimal(n)[i]),
    decreases n,
{
    if n >= 10 {
        lemma_decimal_digits(n / 10);
        let d = decimal(n / 10);
        assert forall|i: int| 0 <= i < decimal(n).len() implies is_digit(#[trigger] decimal(n)[i]) by {
            if i < d.len() {
                assert(decimal(n)[i] == d[i]);
            }
        }
    }
}

proof fn lemma_decimal_injective(n1: nat, n2: nat)
    requires
        decimal(n1) == decimal(n2),
    ensures
        n1 == n2,
    decreases n1,
{
    lemma_decimal_digits(n1);
    lemma_decimal_digits(n2);
    if n1 >= 10 && n2 >= 10 {
        let d1 = decimal(n1);
        let d2 = decimal(n2);
        assert(d1.drop_last() == decimal(n1 / 10));
        assert(d2.drop_last() == decimal(n2 / 10));
        lemma_decimal_injective(n1 / 10, n2 / 10);
        assert(d1.last() == d2.last());
        assert(d1.last() == (48 + n1 % 10) as u8);
        assert(d2.last() == (48 + n2 % 10) as u8);
        assert((48 + n1 % 10) as u8 == 48 + n1 % 10);
        assert((48 + n2 % 10) as u8 == 48 + n2 % 10);
        assert(n1 % 10 == n2 % 10);
        vstd::arithmetic::div_mod::lemma_fundamental_div_mod(n1 as int, 10);
        vstd::arithmetic::div_mod::lemma_fundamental_div_mod(n2 as int, 10);
    } else if n1 < 10 && n2 < 10 {
        assert(decimal(n1)[0] == decimal(n2)[0]);
        assert(decimal(n1)[0] == (48 + n1) as u8);
        assert(decimal(n2)[0] == (48 + n2) as u8);
        assert((48 + n1) as u8 == 48 + n1);
        assert((48 + n2) as u8 == 48 + n2);
    } else if n1 < 10 {
        assert(decimal(n1).len() == 1);
    } else {
        assert(decimal(n2).len() == 1);
    }
}

proof fn lemma_assoc<T>(a: Seq<T>, b: Seq<T>, c: Seq<T>)
    ensures
        (a + b) + c == a + (b + c),
{
    assert((a + b) + c =~= a + (b + c));
}

proof fn lemma_split_eq<T>(a1: Seq<T>, b1: Seq<T>, a2: Seq<T>, b2: Seq<T>)
    requires
        a1 + b1 == a2 + b2,
        a1.len() == a2.len(),
    ensures
        a1 == a2,
        b1 == b2,
{
    assert(a1 =~= (a1 + b1).subrange(0, a1.len() as int));
    assert(a2 =~= (a2 + b2).subrange(0, a2.len() as int));
    assert(b1 =~= (a1 + b1).subrange(a1.len() as int, (a1 + b1).len() as int));
    assert(b2 =~= (a2 + b2).subrange(a2.len() as int, (a2 + b2).len() as int));
}

/// A number in decimal followed by a non-digit is read back unambiguously.
proof fn lemma_decimal_prefix(n1: nat, n2: nat, x1: Seq<u8>, x2: Seq<u8>)
    requires
        decimal(n1) + x1 == decimal(n2) + x2,
        x1.len() > 0,
        x2.len() > 0,
        !is_digit(x1[0]),
        !is_digit(x2[0]),
    ensures
        n1 == n2,
        x1 == x2,
{
    let d1 = decimal(n1);
    let d2 = decimal(n2);
    lemma_decimal_digits(n1);
    lemma_decimal_digits(n2);
    if d1.len() < d2.len() {
        assert((d1 + x1)[d1.len() as int] == x1[0]);
        assert((d2 + x2)[d1.len() as int] == d2[d1.len() as int]);
    } else if d2.len() < d1.len() {
        assert((d2 + x2)[d2.len() as int] == x2[0]);
        assert((d1 + x1)[d2.len() as int] == d1[d2.len() as int]);
    }
    lemma_split_eq(d1, x1, d2, x2);
    lemma_decimal_injective(n1, n2);
}

proof fn lemma_text_prefix(t: u8, v1: Seq<char>, v2: Seq<char>, r1: Seq<u8>, r2: Seq<u8>)
    requires
        text_field(t, v1) + r1 == text_field(t, v2) + r2,
    ensures
        v1 == v2,
        r1 == r2,
{
    let e1 = encode_utf8(v1);
    let e2 = encode_utf8(v2);
    let x1 = seq![58u8] + e1 + seq![10u8] + r1;
    let x2 = seq![58u8] + e2 + seq![10u8] + r2;
    assert(text_field(t, v1) + r1 =~= seq![t] + (decimal(e1.len()) + x1));
    assert(text_field(t, v2) + r2 =~= seq![t] + (decimal(e2.len()) + x2));
    lemma_split_eq(seq![t], decimal(e1.len()) + x1, seq![t], decimal(e2.len()) + x2);
    lemma_decimal_prefix(e1.len(), e2.len(), x1, x2);
    assert(x1 =~= seq![58u8] + (e1 + (seq![10u8] + r1)));
    assert(x2 =~= seq![58u8] + (e2 + (seq![10u8] + r2)));
    lemma_split_eq(seq![58u8], e1 + (seq![10u8] + r1), seq![58u8], e2 + (seq![10u8] + r2));
    lemma_split_eq(e1, seq![10u8] + r1, e2, seq![10u8] + r2);
    lemma_split_eq(seq![10u8], r1, seq![10u8], r2);
    vstd::utf8::encode_utf8_decode_utf8(v1);
    vstd::utf8::encode_utf8_decode_utf8(v2);
}

proof fn lemma_number_prefix(t: u8, n1: nat, n2: nat, r1: Seq<u8>, r2: Seq<u8>)
    requires
        number_field(t, n1) + r1 == number_field(t, n2) + r2,
    ensures
        n1 == n2,
        r1 == r2,
{
    let x1 = seq![10u8] + r1;
    let x2 = seq![10u8] + r2;
    assert(number_field(t, n1) + r1 =~= seq![t] + (decimal(n1) + x1));
    assert(number_field(t, n2) + r2 =~= seq![t] + (decimal(n2) + x2));
    lemma_split_eq(seq![t], decimal(n1) + x1, seq![t], decimal(n2) + x2);
    lemma_decimal_prefix(n1, n2, x1, x2);
    lemma_split_eq(seq![10u8], r1, seq![10u8], r2);
}

proof fn lemma_optional_prefix(
    t: u8,
    o1: Option<Seq<char>>,
    o2: Option<Seq<char>>,
    r1: Seq<u8>,
    r2: Seq<u8>,
)
    requires
        optional_field(t, o1) + r1 == optional_field(t, o2) + r2,
    ensures
        o1 == o2,
        r1 == r2,
{
    let w1 = optional_field(t, o1) + r1;
    let w2 = optional_field(t, o2) + r2;
    match (o1, o2) {
        (Some(v1), Some(v2)) => {
            lemma_text_prefix(t, v1, v2, r1, r2);
        },
        (None, None) => {
            lemma_split_eq(seq![t, 45u8, 10u8], r1, seq![t, 45u8, 10u8], r2);
        },
        (Some(v1), None) => {
            let e1 = encode_utf8(v1);
            lemma_decimal_digits(e1.len());
            assert(w1[1] == decimal(e1.len())[0]);
            assert(w2[1] == 45u8);
        },
        (None, Some(v2)) => {
            let e2 = encode_utf8(v2);
            lemma_decimal_digits(e2.len());
            assert(w2[1] == decimal(e2.len())[0]);
            assert(w1[1] == 45u8);
        },
    }
}

proof fn lemma_artists_front(a: Seq<Seq<char>>)
    requires
        a.len() > 0,
    ensures
        artists_encoding(a) == text_field(97u8, a[0]) + artists_encoding(a.drop_first()),
    decreases a.len(),
{
    if a.len() == 1 {
        assert(a.drop_last() =~= Seq::<Seq<char>>::empty());
        assert(a.drop_first() =~= Seq::<Seq<char>>::empty());
        assert(artists_encoding(a) =~= text_field(97u8, a[0]) + artists_encoding(a.drop_first()));
    } else {
        lemma_artists_front(a.drop_last());
        assert(a.drop_last().drop_first() =~= a.drop_first().drop_last());
        assert(artists_encoding(a) =~= text_field(97u8, a[0]) + artists_encoding(a.drop_first()));
    }
}

proof fn lemma_artists_prefix(a1: Seq<Seq<char>>, a2: Seq<Seq<char>>, r1: Seq<u8>, r2: Seq<u8>)
    requires
        a1.len() == a2.len(),
        artists_encoding(a1) + r1 == artists_encoding(a2) + r2,
    ensures
        a1 == a2,
        r1 == r2,
    decreases a1.len(),
{
    if a1.len() == 0 {
        assert(artists_encoding(a1) + r1 =~= r1);
        assert(artists_encoding(a2) + r2 =~= r2);
        assert(a1 =~= a2);
    } else {
        lemma_artists_front(a1);
        lemma_artists_front(a2);
        let rest1 = artists_encoding(a1.drop_first()) + r1;
        let rest2 = artists_encoding(a2.drop_first()) + r2;
        lemma_assoc(text_field(97u8, a1[0]), artists_encoding(a1.drop_first()), r1);
        lemma_assoc(text_field(97u8, a2[0]), artists_encoding(a2.drop_first()), r2);
        lemma_text_prefix(97u8, a1[0], a2[0], rest1, rest2);
        lemma_artists_prefix(a1.drop_first(), a2.drop_first(), r1, r2);
        assert(a1 =~= seq![a1[0]] + a1.drop_first());
        assert(a2 =~= seq![a2[0]] + a2.drop_first());
    }
}

proof fn lemma_provider_code_injective(p1: ProviderKind, p2: ProviderKind)
    requires
        provider_code(p1) == provider_code(p2),
    ensures
        p1 == p2,
{
}

proof fn lemma_track_parts(a: TrackView, r: Seq<u8>)
    ensures
        track_encoding(a) + r == text_field(105u8, a.id) + (text_field(110u8, a.name) + (
        number_field(114u8, a.artists.len()) + (artists_encoding(a.artists) + (number_field(
            108u8,
            a.duration_ms as nat,
        ) + (number_field(112u8, provider_code(a.provider)) + (optional_field(109u8, a.metadata)
            + r)))))),
{
    let pa = text_field(105u8, a.id);
    let pb = text_field(110u8, a.name);
    let pc = number_field(114u8, a.artists.len());
    let pd = artists_encoding(a.artists);
    let pe = number_field(108u8, a.duration_ms as nat);
    let pf = number_field(112u8, provider_code(a.provider));
    let pg = optional_field(109u8, a.metadata);
    assert(track_encoding(a) == pa + pb + pc + pd + pe + pf + pg);
    lemma_assoc(pa + pb + pc + pd + pe + pf, pg, r);
    lemma_assoc(pa + pb + pc + pd + pe, pf, pg + r);
    lemma_assoc(pa + pb + pc + pd, pe, pf + (pg + r));
    lemma_assoc(pa + pb + pc, pd, pe + (pf + (pg + r)));
    lemma_assoc(pa + pb, pc, pd + (pe + (pf + (pg + r))));
    lemma_assoc(pa, pb, pc + (pd + (pe + (pf + (pg + r)))));
}

proof fn lemma_track_prefix(a: TrackView, b: TrackView, r1: Seq<u8>, r2: Seq<u8>)
    requires
        track_encoding(a) + r1 == track_encoding(b) + r2,
    ensures
        a == b,
        r1 == r2,
{
    let m1 = optional_field(109u8, a.metadata) + r1;
    let m2 = optional_field(109u8, b.metadata) + r2;
    let p1 = number_field(112u8, provider_code(a.provider)) + m1;
    let p2 = number_field(112u8, provider_code(b.provider)) + m2;
    let l1 = number_field(108u8, a.duration_ms as nat) + p1;
    let l2 = number_field(108u8, b.duration_ms as nat) + p2;
    let s1 = artists_encoding(a.artists) + l1;
    let s2 = artists_encoding(b.artists) + l2;
    let c1 = number_field(114u8, a.artists.len()) + s1;
    let c2 = number_field(114u8, b.artists.len()) + s2;
    let n1 = text_field(110u8, a.name) + c1;
    let n2 = text_field(110u8, b.name) + c2;
    lemma_track_parts(a, r1);
    lemma_track_parts(b, r2);
    lemma_text_prefix(105u8, a.id, b.id, n1, n2);
    lemma_text_prefix(110u8, a.name, b.name, c1, c2);
    lemma_number_prefix(114u8, a.artists.len(), b.artists.len(), s1, s2);
    lemma_artists_prefix(a.artists, b.artists, l1, l2);
    lemma_number_prefix(108u8, a.duration_ms as nat, b.duration_ms as nat, p1, p2);
    lemma_number_prefix(112u8, provider_code(a.provider), provider_code(b.provider), m1, m2);
    lemma_provider_code_injective(a.provider, b.provider);
    lemma_optional_prefix(109u8, a.metadata, b.metadata, r1, r2);
}

proof fn lemma_tracks_front(ts: Seq<TrackView>)
    requires
        ts.len() > 0,
    ensures
        tracks_encoding(ts) == track_encoding(ts[0]) + tracks_encoding(ts.drop_first()),
    decreases ts.len(),
{
    if ts.len() == 1 {
        assert(ts.drop_last() =~= Seq::<TrackView>::empty());
        assert(ts.drop_first() =~= Seq::<TrackView>::empty());
        assert(tracks_encoding(ts) =~= track_encoding(ts[0]) + tracks_encoding(ts.drop_first()));
    } else {
        lemma_tracks_front(ts.drop_last());
        assert(ts.drop_last().drop_first() =~= ts.drop_first().drop_last());
        assert(tracks_encoding(ts) =~= track_encoding(ts[0]) + tracks_encoding(ts.drop_first()));
    }
}

proof fn lemma_tracks_prefix(t1: Seq<TrackView>, t2: Seq<TrackView>, r1: Seq<u8>, r2: Seq<u8>)
    requires
        t1.len() == t2.len(),
        tracks_encoding(t1) + r1 == tracks_encoding(t2) + r2,
    ensures
        t1 == t2,
        r1 == r2,
    decreases t1.len(),
{
    if t1.len() == 0 {
        assert(tracks_encoding(t1) + r1 =~= r1);
        assert(tracks_encoding(t2) + r2 =~= r2);
        assert(t1 =~= t2);
    } else {
        lemma_tracks_front(t1);
        lemma_tracks_front(t2);
        let rest1 = tracks_encoding(t1.drop_first()) + r1;
        let rest2 = tracks_encoding(t2.drop_first()) + r2;
        lemma_assoc(track_encoding(t1[0]), tracks_encoding(t1.drop_first()), r1);
        lemma_assoc(track_encoding(t2[0]), tracks_encoding(t2.drop_first()), r2);
        lemma_track_prefix(t1[0], t2[0], rest1, rest2);
        lemma_tracks_prefix(t1.drop_first(), t2.drop_first(), r1, r2);
        assert(t1 =~= seq![t1[0]] + t1.drop_first());
        assert(t2 =~= seq![t2[0]] + t2.drop_first());
    }
}

proof fn lemma_snapshot_parts(x: SnapshotView)
    ensures
        canonical_encoding(x) == text_field(105u8, x.id) + (text_field(110u8, x.name) + (
        optional_field(100u8, x.description) + (number_field(112u8, provider_code(x.provider)) + (
        text_field(104u8, x.snapshot_hash) + (optional_field(109u8, x.metadata) + (number_field(
            99u8,
            x.tracks.len(),
        ) + (tracks_encoding(x.tracks) + Seq::<u8>::empty()))))))),
{
    let pa = text_field(105u8, x.id);
    let pb = text_field(110u8, x.name);
    let pc = optional_field(100u8, x.description);
    let pd = number_field(112u8, provider_code(x.provider));
    let pe = text_field(104u8, x.snapshot_hash);
    let pf = optional_field(109u8, x.metadata);
    let pg = number_field(99u8, x.tracks.len());
    let ph = tracks_encoding(x.tracks);
    let e = Seq::<u8>::empty();
    assert(canonical_encoding(x) == pa + pb + pc + pd + pe + pf + pg + ph);
    assert(ph + e =~= ph);
    lemma_assoc(pa + pb + pc + pd + pe + pf, pg, ph + e);
    lemma_assoc(pa + pb + pc + pd + pe, pf, pg + (ph + e));
    lemma_assoc(pa + pb + pc + pd, pe, pf + (pg + (ph + e)));
    lemma_assoc(pa + pb + pc, pd, pe + (pf + (pg + (ph + e))));
    lemma_assoc(pa + pb, pc, pd + (pe + (pf + (pg + (ph + e)))));
    lemma_assoc(pa, pb, pc + (pd + (pe + (pf + (pg + (ph + e))))));
}

/// Distinct snapshots have distinct canonical encodings, so two snapshots
/// with equal content hashes differ only where the six-byte digest prefixes
/// of distinct encodings collide.
pub proof fn canonical_encoding_is_injective(a: PlaylistSnapshot, b: PlaylistSnapshot)
    requires
        canonical_encoding(a@) == canonical_encoding(b@),
    ensures
        a@ == b@,
{
    let x = a@;
    let y = b@;
    let e: Seq<u8> = Seq::empty();
    let k1 = number_field(99u8, x.tracks.len()) + (tracks_encoding(x.tracks) + e);
    let k2 = number_field(99u8, y.tracks.len()) + (tracks_encoding(y.tracks) + e);
    let m1 = optional_field(109u8, x.metadata) + k1;
    let m2 = optional_field(109u8, y.metadata) + k2;
    let h1 = text_field(104u8, x.snapshot_hash) + m1;
    let h2 = text_field(104u8, y.snapshot_hash) + m2;
    let p1 = number_field(112u8, provider_code(x.provider)) + h1;
    let p2 = number_field(112u8, provider_code(y.provider)) + h2;
    let d1 = optional_field(100u8, x.description) + p1;
    let d2 = optional_field(100u8, y.description) + p2;
    let n1 = text_field(110u8, x.name) + d1;
    let n2 = text_field(110u8, y.name) + d2;
    lemma_snapshot_parts(x);
    lemma_snapshot_parts(y);
    lemma_text_prefix(105u8, x.id, y.id, n1, n2);
    lemma_text_prefix(110u8, x.name, y.name, d1, d2);
    lemma_optional_prefix(100u8, x.description, y.description, p1, p2);
    lemma_number_prefix(112u8, provider_code(x.provider), provider_code(y.provider), h1, h2);
    lemma_provider_code_injective(x.provider, y.provider);
    lemma_text_prefix(104u8, x.snapshot_hash, y.snapshot_hash, m1, m2);
    lemma_optional_prefix(109u8, x.metadata, y.metadata, k1, k2);
    lemma_number_prefix(99u8, x.tracks.len(), y.tracks.len(), tracks_encoding(x.tracks) + e, tracks_encoding(y.tracks) + e);
    lemma_tracks_prefix(x.tracks, y.tracks, e, e);
}

} // verus!
