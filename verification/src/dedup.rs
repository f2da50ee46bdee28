//! Content fingerprints and the cache of those seen recently.
//!
//! Notification Center may reuse an accessibility element and change what it
//! shows, so a notification is identified by its content alone:
//! `SHA256(app_name + "\0" + title + "\0" + message)`.

use crate::clock::Clock;
use crate::pairs;
use crate::text::same;
use crate::time::{Reading, Span};
use sha2::{Digest, Sha256};
use std::time::Instant;
use vstd::prelude::*;
use vstd::string::*;
use vstd::utf8::*;

verus! {

// ---------------------------------------------------------------------------
// Fingerprints
// ---------------------------------------------------------------------------

/// The SHA-256 digest of a byte sequence: the result of `Sha256::digest`.
pub uninterp spec fn sha256(data: Seq<u8>) -> Seq<u8>;

/// `sha2::Sha256::digest` computes the SHA-256 digest, 32 bytes that depend on
/// the data alone.
#[verifier::external_body]
fn sha256_digest(data: &Vec<u8>) -> (r: Vec<u8>)
    ensures
        r@ == sha256(data@),
        r@.len() == 32,
{
    Sha256::digest(data).to_vec()
}

/// The lower-case hexadecimal digit of a number below sixteen.
pub open spec fn hex_digit(n: nat) -> char {
    if n < 10 {
        (('0' as u32) + n) as char
    } else {
        (('a' as u32) + (n - 10)) as char
    }
}

/// Each byte as two lower-case hexadecimal digits.
pub open spec fn hex(bytes: Seq<u8>) -> Seq<char> {
    Seq::new(
        2 * bytes.len(),
        |i: int|
            if i % 2 == 0 {
                hex_digit((bytes[i / 2] / 16) as nat)
            } else {
                hex_digit((bytes[i / 2] % 16) as nat)
            },
    )
}

/// What is hashed: the three fields in UTF-8 with a NUL between each two.
pub open spec fn preimage(app_name: Seq<char>, title: Seq<char>, message: Seq<char>) -> Seq<u8> {
    encode_utf8(app_name) + seq![0u8] + encode_utf8(title) + seq![0u8] + encode_utf8(message)
}

/// The content fingerprint of a notification.
pub open spec fn fingerprint_of(
    app_name: Seq<char>,
    title: Seq<char>,
    message: Seq<char>,
) -> Seq<char> {
    hex(sha256(preimage(app_name, title, message)))
}

fn hex_char(n: u8) -> (r: char)
    requires
        n < 16,
    ensures
        r == hex_digit(n as nat),
{
    if n < 10 {
        (48u8 + n) as char
    } else {
        (87u8 + n) as char
    }
}

/// Writes each byte as two lower-case hexadecimal digits.
pub fn hex_encode(bytes: &Vec<u8>) -> (r: String)
    ensures
        r@ == hex(bytes@),
{
    let mut out = String::new();
    for i in 0..bytes.len()
        invariant
            out@ == hex(bytes@.take(i as int)),
    {
        let b: u8 = bytes[i];
        let ghost before = out@;
        out.push(hex_char(b / 16));
        out.push(hex_char(b % 16));
        assert(out@ =~= hex(bytes@.take(i + 1))) by {
            assert forall|j: int| 0 <= j < 2 * i + 2 implies out@[j] == hex(
                bytes@.take(i + 1),
            )[j] by {
                if j < 2 * i {
                    assert(out@[j] == before[j]);
                    assert(j / 2 < i);
                }
            }
        }
    }
    assert(bytes@.take(bytes@.len() as int) =~= bytes@);
    out
}

fn push_bytes(out: &mut Vec<u8>, s: &str)
    ensures
        final(out)@ == old(out)@ + encode_utf8(s@),
{
    let bytes = s.as_bytes();
    let ghost start = out@;
    for i in 0..bytes.len()
        invariant
            bytes@ == encode_utf8(s@),
            out@ == start + bytes@.take(i as int),
    {
        out.push(bytes[i]);
    }
    assert(bytes@.take(bytes@.len() as int) =~= bytes@);
}

/// Computes the content fingerprint of a notification.
pub fn fingerprint(app_name: &str, title: &str, message: &str) -> (r: String)
    ensures
        r@ == fingerprint_of(app_name@, title@, message@),
        r@.len() == 64,
{
    let mut data: Vec<u8> = Vec::new();
    push_bytes(&mut data, app_name);
    data.push(0);
    push_bytes(&mut data, title);
    data.push(0);
    push_bytes(&mut data, message);
    assert(data@ =~= preimage(app_name@, title@, message@));
    let digest = sha256_digest(&data);
    hex_encode(&digest)
}

/// A text without a NUL character has no zero byte in UTF-8.
proof fn lemma_no_zero_byte(s: Seq<char>)
    requires
        !s.contains('\0'),
    ensures
        !encode_utf8(s).contains(0u8),
    decreases s.len(),
{
    if s.len() > 0 {
        let rest = s.drop_first();
        assert(!rest.contains('\0')) by {
            if rest.contains('\0') {
                let i = choose|i: int| 0 <= i < rest.len() && rest[i] == '\0';
                assert(s[i + 1] == '\0');
            }
        }
        lemma_no_zero_byte(rest);
        assert(s[0] != '\0');
        let n = s[0] as u32;
        char_is_scalar(s[0]);
        char_u32_cast(s[0], n);
        assert(n != 0);
        assert(n <= 0x7f && n != 0 ==> ((n & 0x7f) as u8) != 0) by (bit_vector);
        assert((0xC0 | ((n >> 6) & 0x1F) as u8) != 0u8) by (bit_vector);
        assert((0xE0 | ((n >> 12) & 0x0F) as u8) != 0u8) by (bit_vector);
        assert((0xF0 | ((n >> 18) & 0x7) as u8) != 0u8) by (bit_vector);
        assert((0x80 | (n & 0x3F) as u8) != 0u8) by (bit_vector);
        assert((0x80 | ((n >> 6) & 0x3F) as u8) != 0u8) by (bit_vector);
        assert((0x80 | ((n >> 12) & 0x3F) as u8) != 0u8) by (bit_vector);
        assert(!encode_scalar(n).contains(0u8));
        let all = encode_utf8(s);
        if all.contains(0u8) {
            let i = choose|i: int| 0 <= i < all.len() && all[i] == 0u8;
            if i < encode_scalar(n).len() {
                assert(encode_scalar(n)[i] == 0u8);
            } else {
                assert(encode_utf8(rest)[i - encode_scalar(n).len()] == 0u8);
            }
        }
    }
}

/// Two rows without a zero that go on behind a zero are equal only if they are
/// equal before it and behind it.
proof fn lemma_cut_at_zero(a: Seq<u8>, x: Seq<u8>, b: Seq<u8>, y: Seq<u8>)
    requires
        !a.contains(0u8),
        !b.contains(0u8),
        a + seq![0u8] + x == b + seq![0u8] + y,
    ensures
        a == b,
        x == y,
{
    let p = a + seq![0u8] + x;
    let q = b + seq![0u8] + y;
    if a.len() < b.len() {
        assert(p[a.len() as int] == 0u8);
        assert(q[a.len() as int] == b[a.len() as int]);
    }
    if b.len() < a.len() {
        assert(q[b.len() as int] == 0u8);
        assert(p[b.len() as int] == a[b.len() as int]);
    }
    assert(a =~= b) by {
        assert forall|i: int| 0 <= i < a.len() implies a[i] == b[i] by {
            assert(p[i] == a[i]);
            assert(q[i] == b[i]);
        }
    }
    assert(p.len() == a.len() + 1 + x.len());
    assert(q.len() == b.len() + 1 + y.len());
    assert(x =~= y) by {
        assert forall|i: int| 0 <= i < x.len() implies x[i] == y[i] by {
            assert(p[a.len() + 1 + i] == x[i]);
            assert(q[a.len() + 1 + i] == y[i]);
        }
    }
}

/// Two notifications without NUL characters that differ in any field are
/// hashed from different bytes: no field runs over into the next.
pub proof fn law_preimage_separates_fields(
    app1: Seq<char>,
    title1: Seq<char>,
    message1: Seq<char>,
    app2: Seq<char>,
    title2: Seq<char>,
    message2: Seq<char>,
)
    requires
        !app1.contains('\0') && !title1.contains('\0'),
        !app2.contains('\0') && !title2.contains('\0'),
        preimage(app1, title1, message1) == preimage(app2, title2, message2),
    ensures
        app1 == app2,
        title1 == title2,
        message1 == message2,
{
    broadcast use encode_utf8_decode_utf8;

    lemma_no_zero_byte(app1);
    lemma_no_zero_byte(title1);
    lemma_no_zero_byte(app2);
    lemma_no_zero_byte(title2);
    let tail1 = encode_utf8(title1) + seq![0u8] + encode_utf8(message1);
    let tail2 = encode_utf8(title2) + seq![0u8] + encode_utf8(message2);
    assert(preimage(app1, title1, message1) =~= encode_utf8(app1) + seq![0u8] + tail1);
    assert(preimage(app2, title2, message2) =~= encode_utf8(app2) + seq![0u8] + tail2);
    lemma_cut_at_zero(encode_utf8(app1), tail1, encode_utf8(app2), tail2);
    lemma_cut_at_zero(
        encode_utf8(title1),
        encode_utf8(message1),
        encode_utf8(title2),
        encode_utf8(message2),
    );
    assert(decode_utf8(encode_utf8(app1)) == decode_utf8(encode_utf8(app2)));
    assert(decode_utf8(encode_utf8(title1)) == decode_utf8(encode_utf8(title2)));
    assert(decode_utf8(encode_utf8(message1)) == decode_utf8(encode_utf8(message2)));
}

// ---------------------------------------------------------------------------
// The cache as a map from fingerprint to the time it was recorded
// ---------------------------------------------------------------------------

/// The fewest fingerprints that a cache has room for.
pub const MIN_CAPACITY: usize = 16;

/// How long ago `at` was, at `now`. A time in the future counts as now.
pub open spec fn age(at: nat, now: nat) -> nat {
    if now >= at {
        (now - at) as nat
    } else {
        0
    }
}

/// The entries younger than `ttl`.
pub open spec fn live(seen: Map<Seq<char>, nat>, now: nat, ttl: nat) -> Map<Seq<char>, nat> {
    Map::new(|k: Seq<char>| seen.contains_key(k) && age(seen[k], now) < ttl, |k: Seq<char>| seen[k])
}

/// Whether no entry was recorded before that of `k`.
pub open spec fn is_oldest(seen: Map<Seq<char>, nat>, k: Seq<char>) -> bool {
    &&& seen.contains_key(k)
    &&& forall|j: Seq<char>| #[trigger] seen.contains_key(j) ==> seen[k] <= seen[j]
}

/// Whether `post` is `kept` with `print` recorded at `now`, an oldest entry
/// making room where the cache is full.
pub open spec fn recorded(
    kept: Map<Seq<char>, nat>,
    post: Map<Seq<char>, nat>,
    print: Seq<char>,
    now: nat,
    capacity: nat,
) -> bool {
    if kept.len() < capacity {
        post == kept.insert(print, now)
    } else {
        exists|k: Seq<char>| #[trigger]
            is_oldest(kept, k) && post == kept.remove(k).insert(print, now)
    }
}

/// One look at the cache: the entries past their time leave, then `print` is a
/// duplicate if it is still there, and is recorded if it is not.
pub open spec fn observed(
    pre: Map<Seq<char>, nat>,
    post: Map<Seq<char>, nat>,
    print: Seq<char>,
    now: nat,
    ttl: nat,
    capacity: nat,
    duplicate: bool,
) -> bool {
    let kept = live(pre, now, ttl);
    &&& duplicate == kept.contains_key(print)
    &&& duplicate ==> post == kept
    &&& !duplicate ==> recorded(kept, post, print, now, capacity)
}

/// A fingerprint that was new is a duplicate when it comes again within the
/// time to live.
pub proof fn law_repeat_is_duplicate(
    pre: Map<Seq<char>, nat>,
    mid: Map<Seq<char>, nat>,
    post: Map<Seq<char>, nat>,
    print: Seq<char>,
    first: nat,
    second: nat,
    ttl: nat,
    capacity: nat,
    duplicate: bool,
)
    requires
        observed(pre, mid, print, first, ttl, capacity, false),
        observed(mid, post, print, second, ttl, capacity, duplicate),
        age(first, second) < ttl,
    ensures
        duplicate,
{
    assert(mid.contains_key(print) && mid[print] == first);
}

/// A fingerprint that is not in the cache is not a duplicate, whatever else was
/// seen: changed content is a new notification.
pub proof fn law_new_content_is_no_duplicate(
    pre: Map<Seq<char>, nat>,
    post: Map<Seq<char>, nat>,
    print: Seq<char>,
    now: nat,
    ttl: nat,
    capacity: nat,
    duplicate: bool,
)
    requires
        observed(pre, post, print, now, ttl, capacity, duplicate),
        !pre.contains_key(print),
    ensures
        !duplicate,
{
}

/// Recording one fingerprint makes no other one a duplicate.
pub proof fn law_recording_adds_nothing_else(
    pre: Map<Seq<char>, nat>,
    post: Map<Seq<char>, nat>,
    print: Seq<char>,
    now: nat,
    ttl: nat,
    capacity: nat,
    duplicate: bool,
    other: Seq<char>,
)
    requires
        observed(pre, post, print, now, ttl, capacity, duplicate),
        other != print,
        !pre.contains_key(other),
    ensures
        !post.contains_key(other),
{
}

/// What was seen stays seen when other content comes: an entry within its time
/// leaves only where the cache is full and no entry is older.
pub proof fn law_other_content_keeps_entries(
    pre: Map<Seq<char>, nat>,
    post: Map<Seq<char>, nat>,
    print: Seq<char>,
    now: nat,
    ttl: nat,
    capacity: nat,
    duplicate: bool,
    other: Seq<char>,
)
    requires
        observed(pre, post, print, now, ttl, capacity, duplicate),
        other != print,
        live(pre, now, ttl).contains_key(other),
        live(pre, now, ttl).len() < capacity || !is_oldest(live(pre, now, ttl), other),
    ensures
        post.contains_key(other),
        post[other] == pre[other],
{
}

/// A fingerprint recorded longer ago than the time to live is sent again.
pub proof fn law_expired_is_no_duplicate(
    pre: Map<Seq<char>, nat>,
    post: Map<Seq<char>, nat>,
    print: Seq<char>,
    now: nat,
    ttl: nat,
    capacity: nat,
    duplicate: bool,
)
    requires
        observed(pre, post, print, now, ttl, capacity, duplicate),
        pre.contains_key(print),
        age(pre[print], now) >= ttl,
    ensures
        !duplicate,
        post.contains_key(print),
        post[print] == now,
{
}

/// The cache never grows beyond its capacity.
pub proof fn law_cache_is_bounded(
    pre: Map<Seq<char>, nat>,
    post: Map<Seq<char>, nat>,
    print: Seq<char>,
    now: nat,
    ttl: nat,
    capacity: nat,
    duplicate: bool,
)
    requires
        observed(pre, post, print, now, ttl, capacity, duplicate),
        pre.dom().finite(),
        pre.len() <= capacity,
    ensures
        post.dom().finite(),
        post.len() <= capacity,
{
    let kept = live(pre, now, ttl);
    assert(kept.dom().subset_of(pre.dom()));
    vstd::set_lib::lemma_len_subset(kept.dom(), pre.dom());
    if !duplicate && kept.len() >= capacity {
        let k = choose|k: Seq<char>| #[trigger]
            is_oldest(kept, k) && post == kept.remove(k).insert(print, now);
        assert(kept.dom().contains(k));
        assert(post.dom() =~= kept.dom().remove(k).insert(print));
    } else if !duplicate {
        assert(post.dom() =~= kept.dom().insert(print));
    }
}

// ---------------------------------------------------------------------------
// The cache
// ---------------------------------------------------------------------------

struct Seen {
    print: String,
    at: u128,
}

spec fn row(seen: Seq<Seen>) -> Seq<(Seq<char>, nat)> {
    seen.map_values(|e: Seen| (e.print@, e.at as nat))
}

/// Bounded cache of the fingerprints seen within the time to live.
pub struct DedupCache {
    ttl: Span,
    capacity: usize,
    seen: Vec<Seen>,
    clock: Clock,
    last: Option<Reading>,
}

impl DedupCache {
    #[verifier::type_invariant]
    spec fn well_formed(self) -> bool {
        &&& self.capacity >= MIN_CAPACITY
        &&& self.seen@.len() <= self.capacity
        &&& pairs::unique_keys(row(self.seen@))
    }

    /// When each fingerprint was recorded, in nanoseconds of the cache's clock.
    pub closed spec fn view(&self) -> Map<Seq<char>, nat> {
        pairs::pairs_map(row(self.seen@))
    }

    /// How long a fingerprint counts as seen, in nanoseconds.
    pub closed spec fn ttl(&self) -> nat {
        self.ttl.nanos as nat
    }

    /// How many fingerprints the cache has room for.
    pub closed spec fn capacity(&self) -> nat {
        self.capacity as nat
    }

    /// The clock that the cache goes by, by the moment it was started.
    pub closed spec fn clock(&self) -> Instant {
        self.clock.started()
    }

    /// What the clock read at the last look that it was read for.
    pub closed spec fn last_reading(&self) -> Option<Reading> {
        self.last
    }

    /// An empty cache, with room for `capacity` fingerprints but for no fewer
    /// than sixteen.
    pub fn new(ttl: Span, capacity: usize) -> (r: DedupCache)
        ensures
            r@ == Map::<Seq<char>, nat>::empty(),
            r.ttl() == ttl.nanos,
            r.capacity() == (if capacity >= 16 {
                capacity as nat
            } else {
                16
            }),
    {
        let seen: Vec<Seen> = Vec::new();
        let r = DedupCache {
            ttl,
            capacity: if capacity < MIN_CAPACITY {
                MIN_CAPACITY
            } else {
                capacity
            },
            seen,
            clock: Clock::start(),
            last: None,
        };
        assert(r@ =~= Map::<Seq<char>, nat>::empty());
        r
    }

    /// Drops the entries that are past their time at `now`.
    fn evict_expired(&mut self, now: u128)
        ensures
            final(self)@ == live(old(self)@, now as nat, old(self).ttl()),
            final(self).ttl() == old(self).ttl(),
            final(self).capacity() == old(self).capacity(),
            final(self).clock() == old(self).clock(),
            final(self).last_reading() == old(self).last_reading(),
    {
        proof {
            use_type_invariant(&*self);
        }
        let ttl: u128 = self.ttl.nanos;
        let ghost all = self.seen@;
        let ghost before = self@;
        let mut rest: Vec<Seen> = Vec::new();
        std::mem::swap(&mut rest, &mut self.seen);
        let mut kept: Vec<Seen> = Vec::new();
        while rest.len() > 0
            invariant
                pairs::unique_keys(row(all)),
                rest@.len() + kept@.len() <= all.len(),
                rest@ == all.take(rest@.len() as int),
                forall|i: int|
                    #![trigger kept@[i]]
                    0 <= i < kept@.len() ==> age(kept@[i].at as nat, now as nat) < ttl && exists|
                        j: int,
                    |
                        rest@.len() <= j < all.len() && all[j] == kept@[i],
                forall|j: int|
                    rest@.len() <= j < all.len() && age((#[trigger] all[j]).at as nat, now as nat)
                        < ttl ==> exists|i: int| 0 <= i < kept@.len() && kept@[i] == all[j],
                pairs::unique_keys(row(kept@)),
            decreases rest@.len(),
        {
            let ghost earlier = kept@;
            let ghost n = rest@.len();
            if let Some(entry) = rest.pop() {
                assert(entry == all[n - 1]);
                assert(rest@ =~= all.take(n - 1));
                let gone: bool = now >= entry.at && now - entry.at >= ttl || ttl == 0;
                if !gone {
                    kept.push(entry);
                    assert(kept@ == earlier.push(entry));
                    assert(forall|i: int| 0 <= i < earlier.len() ==> kept@[i] == earlier[i]);
                    assert(kept@[earlier.len() as int] == all[n - 1]);
                    assert forall|i: int, j: int|
                        0 <= i < kept@.len() && 0 <= j < kept@.len() && i != j implies (
                    #[trigger] row(kept@)[i]).0 != (#[trigger] row(kept@)[j]).0 by {
                        let a = if i < j { i } else { j };
                        let b = if i < j { j } else { i };
                        if b < earlier.len() {
                            assert(row(earlier)[a].0 != row(earlier)[b].0);
                        } else {
                            let k = choose|k: int| n <= k < all.len() && all[k] == earlier[a];
                            assert(row(all)[k].0 != row(all)[n - 1].0);
                        }
                    }
                    assert forall|j: int|
                        n - 1 <= j < all.len() && age((#[trigger] all[j]).at as nat, now as nat)
                            < ttl implies exists|i: int| 0 <= i < kept@.len() && kept@[i]
                        == all[j] by {
                        if j == n - 1 {
                            assert(kept@[earlier.len() as int] == all[j]);
                        } else {
                            let i = choose|i: int| 0 <= i < earlier.len() && earlier[i] == all[j];
                            assert(kept@[i] == all[j]);
                        }
                    }
                }
            }
        }
        proof {
            let target = live(before, now as nat, ttl as nat);
            assert forall|i: int| 0 <= i < row(kept@).len() implies target.contains_key(
                (#[trigger] row(kept@)[i]).0,
            ) && target[row(kept@)[i].0] == row(kept@)[i].1 by {
                assert(age(kept@[i].at as nat, now as nat) < ttl);
                let j = choose|j: int| 0 <= j < all.len() && all[j] == kept@[i];
                pairs::lemma_pair_in_map(row(all), j);
            }
            assert forall|k: Seq<char>| #[trigger] target.contains_key(k) implies pairs::has_key(
                row(kept@),
                k,
            ) by {
                assert(pairs::has_key(row(all), k));
                let j = choose|j: int| 0 <= j < row(all).len() && (#[trigger] row(all)[j]).0 == k;
                pairs::lemma_pair_in_map(row(all), j);
                assert(age(all[j].at as nat, now as nat) < ttl);
                let i = choose|i: int| 0 <= i < kept@.len() && kept@[i] == all[j];
                assert(row(kept@)[i].0 == k);
            }
            pairs::lemma_pairs_map_is(row(kept@), target);
        }
        self.seen = kept;
    }

    /// Whether a fingerprint is recorded.
    fn has(&self, fingerprint: &str) -> (r: bool)
        ensures
            r == self@.contains_key(fingerprint@),
    {
        proof {
            use_type_invariant(self);
        }
        for i in 0..self.seen.len()
            invariant
                pairs::unique_keys(row(self.seen@)),
                forall|j: int| 0 <= j < i ==> (#[trigger] row(self.seen@)[j]).0 != fingerprint@,
        {
            if same(self.seen[i].print.as_str(), fingerprint) {
                proof {
                    pairs::lemma_pair_in_map(row(self.seen@), i as int);
                }
                return true;
            }
        }
        false
    }

    /// Whether a fingerprint was seen within the time to live, at the reading
    /// `now` of the clock. One that was not is recorded.
    pub fn is_duplicate_at(&mut self, fingerprint: &str, now: u128) -> (r: bool)
        ensures
            observed(
                old(self)@,
                final(self)@,
                fingerprint@,
                now as nat,
                old(self).ttl(),
                old(self).capacity(),
                r,
            ),
            final(self).ttl() == old(self).ttl(),
            final(self).capacity() == old(self).capacity(),
            final(self).clock() == old(self).clock(),
            final(self).last_reading() == old(self).last_reading(),
    {
        self.evict_expired(now);
        proof {
            use_type_invariant(&*self);
        }
        let ghost kept = self@;
        let ghost kept_row = row(self.seen@);
        let n: usize = self.seen.len();
        if self.has(fingerprint) {
            return true;
        }
        proof {
            pairs::lemma_pairs_map_len(kept_row);
        }
        let mut seen: Vec<Seen> = Vec::new();
        std::mem::swap(&mut seen, &mut self.seen);
        if seen.len() >= self.capacity {
            let mut oldest: usize = 0;
            let mut k: usize = 1;
            while k < n
                invariant
                    n == seen@.len(),
                    1 <= k <= n,
                    oldest < k,
                    forall|j: int|
                        0 <= j < k ==> seen@[oldest as int].at <= (#[trigger] seen@[j]).at,
                decreases n - k,
            {
                if seen[k].at < seen[oldest].at {
                    oldest = k;
                }
                k = k + 1;
            }
            let ghost full = seen@;
            let ghost key = full[oldest as int].print@;
            seen.swap_remove(oldest);
            proof {
                pairs::lemma_pair_in_map(kept_row, oldest as int);
                assert(is_oldest(kept, key)) by {
                    assert forall|j: Seq<char>| #[trigger] kept.contains_key(j) implies kept[key]
                        <= kept[j] by {
                        let m = choose|m: int|
                            0 <= m < kept_row.len() && (#[trigger] kept_row[m]).0 == j;
                        pairs::lemma_pair_in_map(kept_row, m);
                        assert(full[oldest as int].at <= full[m].at);
                    }
                }
                lemma_swap_remove(kept_row, row(seen@), oldest as int);
            }
        }
        let ghost slim = row(seen@);
        seen.push(Seen { print: fingerprint.to_string(), at: now });
        proof {
            assert(row(seen@) =~= slim.push((fingerprint@, now as nat)));
            assert(pairs::has_key(slim, fingerprint@) ==> pairs::pairs_map(slim).contains_key(
                fingerprint@,
            ));
            lemma_push_pair(slim, fingerprint@, now as nat);
        }
        self.seen = seen;
        false
    }

    /// Reads the clock of the cache. How far it has got depends on the machine:
    /// what is done with it is stated of every reading.
    pub(crate) fn clock_reading(&self) -> (r: Reading)
        ensures
            r.clock() == self.clock(),
    {
        self.clock.read()
    }

    /// Whether a fingerprint was seen recently. Returns `true` if it was and is
    /// to be ignored; otherwise records it and returns `false`. What the clock
    /// reads is not known beforehand.
    pub fn is_duplicate(&mut self, fingerprint: &str) -> (r: bool)
        ensures
            looked(*old(self), *final(self), fingerprint@, r),
    {
        let reading = self.clock_reading();
        let duplicate = self.is_duplicate_at(fingerprint, reading.value());
        proof {
            use_type_invariant(&*self);
        }
        self.last = Some(reading);
        duplicate
    }

    /// How many fingerprints are recorded.
    pub fn len(&self) -> (r: usize)
        ensures
            r == self@.len(),
            r <= self.capacity(),
    {
        proof {
            use_type_invariant(self);
            pairs::lemma_pairs_map_len(row(self.seen@));
        }
        self.seen.len()
    }

    /// Whether no fingerprint is recorded.
    pub fn is_empty(&self) -> (r: bool)
        ensures
            r == (self@ == Map::<Seq<char>, nat>::empty()),
    {
        proof {
            use_type_invariant(self);
            pairs::lemma_pairs_map_len(row(self.seen@));
            if self.seen@.len() == 0 {
                assert(self@ =~= Map::<Seq<char>, nat>::empty());
            }
        }
        self.seen.len() == 0
    }
}

/// Removing one pair from a row, the last taking its place.
proof fn lemma_swap_remove(full: Seq<(Seq<char>, nat)>, slim: Seq<(Seq<char>, nat)>, at: int)
    requires
        pairs::unique_keys(full),
        0 <= at < full.len(),
        slim.len() == full.len() - 1,
        forall|i: int|
            0 <= i < slim.len() ==> #[trigger] slim[i] == (if i == at {
                full.last()
            } else {
                full[i]
            }),
    ensures
        pairs::unique_keys(slim),
        pairs::pairs_map(slim) == pairs::pairs_map(full).remove(full[at].0),
{
    let m = pairs::pairs_map(full).remove(full[at].0);
    assert forall|i: int| 0 <= i < slim.len() implies m.contains_key((#[trigger] slim[i]).0)
        && m[slim[i].0] == slim[i].1 by {
        let j = if i == at { full.len() - 1 } else { i };
        assert(slim[i] == full[j]);
        assert(j != at);
        pairs::lemma_pair_in_map(full, j);
        assert(full[j].0 != full[at].0);
    }
    assert forall|i: int, j: int|
        0 <= i < slim.len() && 0 <= j < slim.len() && i != j implies (#[trigger] slim[i]).0 != (
    #[trigger] slim[j]).0 by {
        let a = if i == at { full.len() - 1 } else { i };
        let b = if j == at { full.len() - 1 } else { j };
        assert(full[a].0 != full[b].0);
    }
    assert forall|k: Seq<char>| #[trigger] m.contains_key(k) implies pairs::has_key(slim, k) by {
        assert(pairs::has_key(full, k));
        let j = choose|j: int| 0 <= j < full.len() && (#[trigger] full[j]).0 == k;
        assert(j != at);
        if j == full.len() - 1 {
            assert(slim[at].0 == k);
        } else {
            assert(slim[j].0 == k);
        }
    }
    pairs::lemma_pairs_map_is(slim, m);
}

/// Appending a pair with a new key to a row.
proof fn lemma_push_pair(pairs: Seq<(Seq<char>, nat)>, k: Seq<char>, v: nat)
    requires
        pairs::unique_keys(pairs),
        !pairs::has_key(pairs, k),
    ensures
        pairs::unique_keys(pairs.push((k, v))),
        pairs::pairs_map(pairs.push((k, v))) == pairs::pairs_map(pairs).insert(k, v),
{
    let more = pairs.push((k, v));
    let m = pairs::pairs_map(pairs).insert(k, v);
    assert forall|i: int| 0 <= i < more.len() implies m.contains_key((#[trigger] more[i]).0)
        && m[more[i].0] == more[i].1 by {
        if i < pairs.len() {
            pairs::lemma_pair_in_map(pairs, i);
            assert(more[i] == pairs[i]);
        }
    }
    assert forall|j: Seq<char>| #[trigger] m.contains_key(j) implies pairs::has_key(more, j) by {
        if j == k {
            assert(more[pairs.len() as int].0 == k);
        } else {
            assert(pairs::has_key(pairs, j));
            let i = choose|i: int| 0 <= i < pairs.len() && (#[trigger] pairs[i]).0 == j;
            assert(more[i].0 == j);
        }
    }
    pairs::lemma_pairs_map_is(more, m);
}

/// A look at the cache leaves nothing that is past its time, whatever else it
/// does.
pub proof fn law_expired_entries_leave(
    pre: Map<Seq<char>, nat>,
    post: Map<Seq<char>, nat>,
    print: Seq<char>,
    now: nat,
    ttl: nat,
    capacity: nat,
    duplicate: bool,
    other: Seq<char>,
)
    requires
        observed(pre, post, print, now, ttl, capacity, duplicate),
        other != print,
        post.contains_key(other),
    ensures
        pre.contains_key(other),
        post[other] == pre[other],
        now < pre[other] + ttl,
{
}

/// A fingerprint is a duplicate exactly where it was recorded less than the
/// time to live ago. A duplicate keeps the time at which it was recorded, so
/// that what is shown all the time is sent again at last; what is none is
/// recorded now.
pub proof fn law_age_decides(
    pre: Map<Seq<char>, nat>,
    post: Map<Seq<char>, nat>,
    print: Seq<char>,
    now: nat,
    ttl: nat,
    capacity: nat,
    duplicate: bool,
)
    requires
        observed(pre, post, print, now, ttl, capacity, duplicate),
        ttl > 0,
    ensures
        duplicate <==> pre.contains_key(print) && now < pre[print] + ttl,
        post.contains_key(print),
        post[print] == (if duplicate {
            pre[print]
        } else {
            now
        }),
{
}

/// One entry at most makes room for a new one. It is an oldest one of those
/// within their time, and it leaves only where the cache is full.
pub proof fn law_an_oldest_entry_makes_room(
    pre: Map<Seq<char>, nat>,
    post: Map<Seq<char>, nat>,
    print: Seq<char>,
    now: nat,
    ttl: nat,
    capacity: nat,
    duplicate: bool,
    gone: Seq<char>,
    other: Seq<char>,
)
    requires
        observed(pre, post, print, now, ttl, capacity, duplicate),
        pre.contains_key(gone),
        now < pre[gone] + ttl,
        ttl > 0,
        !post.contains_key(gone),
        other != gone,
        pre.contains_key(other),
        now < pre[other] + ttl,
    ensures
        !duplicate,
        live(pre, now, ttl).len() >= capacity,
        pre[gone] <= pre[other],
        post.contains_key(other),
{
    let kept = live(pre, now, ttl);
    assert(kept.contains_key(gone));
    assert(kept.contains_key(other));
}

/// The number that a hexadecimal digit writes.
pub open spec fn hex_value(c: char) -> int {
    if '0' <= c <= '9' {
        c as int - '0' as int
    } else if 'a' <= c <= 'f' {
        c as int - 'a' as int + 10
    } else {
        -1
    }
}

/// Each byte is written with two digits, the higher one first: together they
/// write its value, small letters standing for ten to fifteen.
pub proof fn law_hex_writes_each_byte(bytes: Seq<u8>, i: int)
    requires
        0 <= i < bytes.len(),
    ensures
        hex(bytes).len() == 2 * bytes.len(),
        0 <= hex_value(hex(bytes)[2 * i]) < 16,
        0 <= hex_value(hex(bytes)[2 * i + 1]) < 16,
        16 * hex_value(hex(bytes)[2 * i]) + hex_value(hex(bytes)[2 * i + 1]) == bytes[i],
{
    assert((2 * i) / 2 == i && (2 * i) % 2 == 0);
    assert((2 * i + 1) / 2 == i && (2 * i + 1) % 2 == 1);
}

/// Bytes that differ are written differently.
pub proof fn law_hex_tells_bytes_apart(a: Seq<u8>, b: Seq<u8>)
    requires
        hex(a) == hex(b),
    ensures
        a == b,
{
    assert(hex(a).len() == 2 * a.len());
    assert(hex(b).len() == 2 * b.len());
    assert forall|i: int| 0 <= i < a.len() implies a[i] == b[i] by {
        law_hex_writes_each_byte(a, i);
        law_hex_writes_each_byte(b, i);
    }
    assert(a =~= b);
}

/// The bytes that are hashed are those of the application, the title and the
/// message, in this order, each but the last with a zero behind it.
pub proof fn law_fields_are_hashed_in_order(
    app_name: Seq<char>,
    title: Seq<char>,
    message: Seq<char>,
)
    ensures
        ({
            let (a, t, m) = (encode_utf8(app_name), encode_utf8(title), encode_utf8(message));
            let all = preimage(app_name, title, message);
            let (x, y) = (a.len() as int, t.len() as int);
            &&& all.len() == x + y + m.len() + 2
            &&& all.subrange(0, x) == a
            &&& all[x] == 0
            &&& all.subrange(x + 1, x + 1 + y) == t
            &&& all[x + 1 + y] == 0
            &&& all.skip(x + y + 2) == m
        }),
        fingerprint_of(app_name, title, message) == hex(sha256(preimage(app_name, title, message))),
{
    let (a, t, m) = (encode_utf8(app_name), encode_utf8(title), encode_utf8(message));
    let all = preimage(app_name, title, message);
    let (x, y) = (a.len() as int, t.len() as int);
    assert(all.subrange(0, x) =~= a);
    assert(all.subrange(x + 1, x + 1 + y) =~= t);
    assert(all.skip(x + y + 2) =~= m);
}

/// Whether a cache went from `pre` to `post` with a look for a fingerprint, at
/// what its own clock read.
pub open spec fn looked(
    pre: DedupCache,
    post: DedupCache,
    print: Seq<char>,
    duplicate: bool,
) -> bool {
    &&& post.last_reading() matches Some(reading) && reading.clock() == pre.clock() && observed(
        pre@,
        post@,
        print,
        reading.nanos(),
        pre.ttl(),
        pre.capacity(),
        duplicate,
    )
    &&& post.ttl() == pre.ttl()
    &&& post.capacity() == pre.capacity()
    &&& post.clock() == pre.clock()
}

/// Whether a fingerprint that was just recorded is a duplicate goes by what the
/// clock of the cache has read for the two looks: it is one exactly until the
/// time to live is over.
pub proof fn law_looks_go_by_the_running_clock(
    pre: DedupCache,
    mid: DedupCache,
    post: DedupCache,
    print: Seq<char>,
    duplicate: bool,
)
    requires
        looked(pre, mid, print, false),
        looked(mid, post, print, duplicate),
        pre.ttl() > 0,
    ensures
        mid.last_reading() matches Some(first) && (post.last_reading() matches Some(second) && {
            &&& first.clock() == pre.clock()
            &&& second.clock() == pre.clock()
            &&& duplicate <==> second.nanos() < first.nanos() + pre.ttl()
        }),
{
    assert(mid@.contains_key(print));
}

/// Where nothing is remembered for any time, nothing is a duplicate.
pub proof fn law_without_a_time_to_live_all_is_new(
    pre: Map<Seq<char>, nat>,
    post: Map<Seq<char>, nat>,
    print: Seq<char>,
    now: nat,
    capacity: nat,
    duplicate: bool,
)
    requires
        observed(pre, post, print, now, 0, capacity, duplicate),
    ensures
        !duplicate,
{
}

/// What is left of the entries at a time are those recorded less than the time
/// to live before, each with the time at which it was recorded.
pub proof fn law_live_entries(
    seen: Map<Seq<char>, nat>,
    now: nat,
    ttl: nat,
    print: Seq<char>,
)
    requires
        ttl > 0,
    ensures
        live(seen, now, ttl).contains_key(print) <==> seen.contains_key(print) && now < seen[print]
            + ttl,
        live(seen, now, ttl).contains_key(print) ==> live(seen, now, ttl)[print] == seen[print],
{
}

} // verus!
