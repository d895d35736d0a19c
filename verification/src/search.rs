//! Searching the buffer for text and for hex byte patterns with wildcards.
use vstd::prelude::*;
use vstd::string::StringSliceAdditionalSpecFns;

verus! {

/// Ascending list of the offsets `i < n` at which `p` holds.
pub open spec fn positions(n: nat, p: spec_fn(int) -> bool) -> Seq<u64>
    decreases n,
{
    if n == 0 {
        Seq::empty()
    } else {
        let before = positions((n - 1) as nat, p);
        if p(n - 1) {
            before.push((n - 1) as u64)
        } else {
            before
        }
    }
}

/// Every offset that `positions` lists is below `n` and satisfies `p`.
pub proof fn lemma_positions_hold(n: nat, p: spec_fn(int) -> bool)
    requires
        n <= u64::MAX + 1,
    ensures
        forall|k: int|
            0 <= k < positions(n, p).len() ==> #[trigger] positions(n, p)[k] < n && p(
                positions(n, p)[k] as int,
            ),
    decreases n,
{
    if n > 0 {
        let before = positions((n - 1) as nat, p);
        lemma_positions_hold((n - 1) as nat, p);
        assert forall|k: int| 0 <= k < positions(n, p).len() implies #[trigger] positions(n, p)[k]
            < n && p(positions(n, p)[k] as int) by {
            if k < before.len() {
                assert(positions(n, p)[k] == before[k]);
            }
        }
    }
}

/// Every offset `hex_matches` lists leaves room for the pattern.
pub proof fn lemma_hex_matches_fit(d: Seq<u8>, pat: Seq<Option<u8>>)
    requires
        d.len() <= u64::MAX,
        pat.len() > 0,
    ensures
        forall|i: int|
            0 <= i < hex_matches(d, pat).len() ==> #[trigger] hex_matches(d, pat)[i] + pat.len()
                <= d.len(),
{
    if d.len() >= pat.len() {
        let n = (d.len() - pat.len() + 1) as nat;
        let f = |i: int| hex_match_at(d, pat, i);
        lemma_positions_hold(n, f);
        assert(hex_matches(d, pat) == positions(n, f));
    }
}

/// ASCII lower-casing of a byte.
pub open spec fn ascii_lower(b: u8) -> u8 {
    if 0x41 <= b <= 0x5A {
        (b + 32) as u8
    } else {
        b
    }
}

/// `pat` occurs in `data` at offset `i` (ignoring ASCII case unless `case_sensitive`).
pub open spec fn text_match_at(data: Seq<u8>, pat: Seq<u8>, case_sensitive: bool, i: int) -> bool {
    &&& 0 <= i
    &&& i + pat.len() <= data.len()
    &&& forall|j: int|
        0 <= j < pat.len() ==> if case_sensitive {
            #[trigger] data[i + j] == pat[j]
        } else {
            ascii_lower(#[trigger] data[i + j]) == ascii_lower(pat[j])
        }
}

/// Offsets of the occurrences of `pat` in `data`, in ascending order; none for an
/// empty pattern.
pub open spec fn text_matches(data: Seq<u8>, pat: Seq<u8>, case_sensitive: bool) -> Seq<u64> {
    if pat.len() == 0 || data.len() < pat.len() {
        Seq::empty()
    } else {
        positions(
            (data.len() - pat.len() + 1) as nat,
            |i: int| text_match_at(data, pat, case_sensitive, i),
        )
    }
}

/// `pat` (where `None` matches any byte) occurs in `data` at offset `i`.
pub open spec fn hex_match_at(data: Seq<u8>, pat: Seq<Option<u8>>, i: int) -> bool {
    &&& 0 <= i
    &&& i + pat.len() <= data.len()
    &&& forall|j: int|
        0 <= j < pat.len() ==> (#[trigger] pat[j] matches Some(b) ==> data[i + j] == b)
}

/// Offsets of the occurrences of the wildcard pattern `pat` in `data`, ascending.
pub open spec fn hex_matches(data: Seq<u8>, pat: Seq<Option<u8>>) -> Seq<u64> {
    if data.len() < pat.len() {
        Seq::empty()
    } else {
        positions((data.len() - pat.len() + 1) as nat, |i: int| hex_match_at(data, pat, i))
    }
}

// ---------------------------------------------------------------------------
// Grammar of hex patterns, over the UTF-8 bytes of the pattern.
/// Length of the whitespace character encoded at `b[i]`, 0 if there is none
/// (the characters of Unicode's White_Space property).
pub open spec fn ws_len(b: Seq<u8>, i: int) -> int {
    if i < 0 || i >= b.len() {
        0
    } else if b[i] == 0x20 || (0x09 <= b[i] <= 0x0D) {
        1
    } else if b[i] == 0xC2 && i + 1 < b.len() && (b[i + 1] == 0x85 || b[i + 1] == 0xA0) {
        2
    } else if i + 2 < b.len() && b[i] == 0xE1 && b[i + 1] == 0x9A && b[i + 2] == 0x80 {
        3
    } else if i + 2 < b.len() && b[i] == 0xE2 && b[i + 1] == 0x80 && ((0x80 <= b[i + 2] <= 0x8A)
        || b[i + 2] == 0xA8 || b[i + 2] == 0xA9 || b[i + 2] == 0xAF) {
        3
    } else if i + 2 < b.len() && b[i] == 0xE2 && b[i + 1] == 0x81 && b[i + 2] == 0x9F {
        3
    } else if i + 2 < b.len() && b[i] == 0xE3 && b[i + 1] == 0x80 && b[i + 2] == 0x80 {
        3
    } else {
        0
    }
}

/// Whitespace-separated tokens of `b` from position `i` on, where `cur` holds the
/// bytes of a token that started before `i`.
pub open spec fn tokens_from(b: Seq<u8>, i: int, cur: Seq<u8>) -> Seq<Seq<u8>>
    decreases b.len() - i,
{
    if i >= b.len() || i < 0 {
        if cur.len() > 0 {
            seq![cur]
        } else {
            Seq::empty()
        }
    } else if ws_len(b, i) > 0 {
        (if cur.len() > 0 {
            seq![cur]
        } else {
            Seq::empty()
        }) + tokens_from(b, i + ws_len(b, i), Seq::empty())
    } else {
        tokens_from(b, i + 1, cur.push(b[i]))
    }
}

/// The whitespace-separated tokens of `b`.
pub open spec fn tokens(b: Seq<u8>) -> Seq<Seq<u8>> {
    tokens_from(b, 0, Seq::empty())
}

/// Value of a hex digit character.
pub open spec fn hex_digit(c: u8) -> Option<u8> {
    if 0x30 <= c <= 0x39 {
        Some((c - 0x30) as u8)
    } else if 0x61 <= c <= 0x66 {
        Some((c - 0x61 + 10) as u8)
    } else if 0x41 <= c <= 0x46 {
        Some((c - 0x41 + 10) as u8)
    } else {
        None
    }
}

/// Value of a two-character base-16 number: two hex digits, or `+` and one digit.
pub open spec fn hex_pair(a: u8, c: u8) -> Option<u8> {
    if a == 0x2B {
        hex_digit(c)
    } else {
        match (hex_digit(a), hex_digit(c)) {
            (Some(x), Some(y)) => Some((16 * x + y) as u8),
            _ => None,
        }
    }
}

/// `b[k]` does not start a character (it is a UTF-8 continuation byte).
pub open spec fn inside_char(b: Seq<u8>, k: int) -> bool {
    0 <= k < b.len() && 0x80 <= b[k] <= 0xBF
}

/// Bytes of chunk `k` (bytes `2k` and `2k+1`) of `h` do not begin and end on
/// character boundaries.
pub open spec fn chunk_splits_char(h: Seq<u8>, k: int) -> bool {
    inside_char(h, 2 * k) || inside_char(h, 2 * k + 2)
}

/// Values of the first `k` two-character chunks of `h`, if they all parse.
pub open spec fn chunks_value(h: Seq<u8>, k: nat) -> Option<Seq<Option<u8>>>
    decreases k,
{
    if k == 0 {
        Some(Seq::empty())
    } else {
        match chunks_value(h, (k - 1) as nat) {
            None => None,
            Some(w) => match hex_pair(h[2 * k - 2], h[2 * k - 1]) {
                None => None,
                Some(v) => Some(w.push(Some(v))),
            },
        }
    }
}

/// Cutting out one of the first `k` chunks of `h` would split a character, at a
/// chunk reached before any chunk fails to parse.
pub open spec fn chunks_split(h: Seq<u8>, k: nat) -> bool
    decreases k,
{
    if k == 0 {
        false
    } else {
        chunks_split(h, (k - 1) as nat) || (chunks_value(h, (k - 1) as nat) is Some
            && chunk_splits_char(h, k - 1))
    }
}

/// The token with a leading `0x` removed.
pub open spec fn strip_0x(t: Seq<u8>) -> Seq<u8> {
    if t.len() >= 2 && t[0] == 0x30 && t[1] == 0x78 {
        t.skip(2)
    } else {
        t
    }
}

/// Value of one token: `??` is a wildcard; otherwise, after an optional `0x`, two
/// hex characters give a byte and a longer even number of them give a byte per pair.
pub open spec fn token_value(t: Seq<u8>) -> Option<Seq<Option<u8>>> {
    if t == seq![0x3Fu8, 0x3Fu8] {
        Some(seq![None])
    } else {
        let h = strip_0x(t);
        if h.len() == 2 {
            match hex_pair(h[0], h[1]) {
                Some(v) => Some(seq![Some(v)]),
                None => None,
            }
        } else if h.len() > 2 && h.len() % 2 == 0 {
            chunks_value(h, h.len() / 2)
        } else {
            None
        }
    }
}

/// Reading the token would cut a character in two.
pub open spec fn token_splits_char(t: Seq<u8>) -> bool {
    let h = strip_0x(t);
    t != seq![0x3Fu8, 0x3Fu8] && h.len() > 2 && h.len() % 2 == 0 && chunks_split(h, h.len() / 2)
}

/// Values of the tokens, read left to right; `None` once a token does not parse.
pub open spec fn tokens_value(ts: Seq<Seq<u8>>) -> Option<Seq<Option<u8>>>
    decreases ts.len(),
{
    if ts.len() == 0 {
        Some(Seq::empty())
    } else {
        match tokens_value(ts.drop_last()) {
            None => None,
            Some(w) => match token_value(ts.last()) {
                None => None,
                Some(v) => Some(w + v),
            },
        }
    }
}

/// Reading the tokens left to right reaches one that would cut a character in two.
pub open spec fn tokens_split(ts: Seq<Seq<u8>>) -> bool
    decreases ts.len(),
{
    if ts.len() == 0 {
        false
    } else {
        tokens_split(ts.drop_last()) || (tokens_value(ts.drop_last()) is Some
            && token_splits_char(ts.last()))
    }
}

/// The pattern whose UTF-8 bytes are `b`, cannot be read without cutting a
/// character in two (which the reader refuses).
pub open spec fn hex_pattern_splits_char(b: Seq<u8>) -> bool {
    tokens_split(tokens(b))
}

/// The wildcard byte pattern whose UTF-8 bytes are `b` denotes, if any: `None` when a
/// token does not parse or there is no token.
pub open spec fn hex_pattern(b: Seq<u8>) -> Option<Seq<Option<u8>>> {
    match tokens_value(tokens(b)) {
        Some(v) => if v.len() > 0 {
            Some(v)
        } else {
            None
        },
        None => None,
    }
}

/// The plain bytes a pattern denotes, if it parses and has no wildcard.
pub open spec fn hex_bytes(b: Seq<u8>) -> Option<Seq<u8>> {
    match hex_pattern(b) {
        Some(v) => if forall|i: int| 0 <= i < v.len() ==> #[trigger] v[i] is Some {
            Some(v.map_values(|o: Option<u8>| o->Some_0))
        } else {
            None
        },
        None => None,
    }
}

// ---------------------------------------------------------------------------
/// Exec counterpart of `ws_len`.
fn ws_len_at(b: &[u8], i: usize) -> (w: usize)
    requires
        i < b@.len(),
    ensures
        w == ws_len(b@, i as int),
        w <= 3,
{
    let n = b.len();
    let c = b[i];
    if c == 0x20 || (0x09 <= c && c <= 0x0D) {
        1
    } else if c == 0xC2 && n - i > 1 && (b[i + 1] == 0x85 || b[i + 1] == 0xA0) {
        2
    } else if n - i > 2 && c == 0xE1 && b[i + 1] == 0x9A && b[i + 2] == 0x80 {
        3
    } else if n - i > 2 && c == 0xE2 && b[i + 1] == 0x80 && ((0x80 <= b[i + 2] && b[i + 2]
        <= 0x8A) || b[i + 2] == 0xA8 || b[i + 2] == 0xA9 || b[i + 2] == 0xAF) {
        3
    } else if n - i > 2 && c == 0xE2 && b[i + 1] == 0x81 && b[i + 2] == 0x9F {
        3
    } else if n - i > 2 && c == 0xE3 && b[i + 1] == 0x80 && b[i + 2] == 0x80 {
        3
    } else {
        0
    }
}

/// Exec counterpart of `hex_digit`.
fn hex_digit_of(c: u8) -> (r: Option<u8>)
    ensures
        r == hex_digit(c),
{
    if 0x30 <= c && c <= 0x39 {
        Some(c - 0x30)
    } else if 0x61 <= c && c <= 0x66 {
        Some(c - 0x61 + 10)
    } else if 0x41 <= c && c <= 0x46 {
        Some(c - 0x41 + 10)
    } else {
        None
    }
}

/// Exec counterpart of `hex_pair`.
fn hex_pair_of(a: u8, c: u8) -> (r: Option<u8>)
    ensures
        r == hex_pair(a, c),
{
    if a == 0x2B {
        return hex_digit_of(c);
    }
    match (hex_digit_of(a), hex_digit_of(c)) {
        (Some(x), Some(y)) => Some(16 * x + y),
        _ => None,
    }
}

/// Reads the token `b[start..end]`, appending its value to `out`. Returns
/// `Err(())` when reading it would cut a character, `Ok(false)` when it does not
/// parse (`out` then holds garbage), `Ok(true)` otherwise.
fn read_token(b: &[u8], start: usize, end: usize, out: &mut Vec<Option<u8>>) -> (r: Result<
    bool,
    (),
>)
    requires
        start < end <= b@.len(),
    ensures
        ({
            let t = b@.subrange(start as int, end as int);
            &&& (r is Err <==> token_splits_char(t))
            &&& (r matches Ok(ok) ==> (ok <==> token_value(t) is Some))
            &&& (r matches Ok(true) ==> final(out)@ == old(out)@ + token_value(t)->Some_0)
        }),
{
    let ghost t = b@.subrange(start as int, end as int);
    let len = end - start;
    if len == 2 && b[start] == 0x3F && b[start + 1] == 0x3F {
        assert(t =~= seq![0x3Fu8, 0x3Fu8]);
        out.push(None);
        return Ok(true);
    }
    assert(t != seq![0x3Fu8, 0x3Fu8]) by {
        if t == seq![0x3Fu8, 0x3Fu8] {
            assert(t[0] == b@[start as int] && t[1] == b@[start + 1]);
        }
    }
    let hs = if len >= 2 && b[start] == 0x30 && b[start + 1] == 0x78 {
        start + 2
    } else {
        start
    };
    let ghost h = b@.subrange(hs as int, end as int);
    assert(h =~= strip_0x(t));
    let hlen = end - hs;
    if hlen == 2 {
        match hex_pair_of(b[hs], b[hs + 1]) {
            Some(v) => {
                out.push(Some(v));
                assert(out@ =~= old(out)@ + seq![Some(v)]);
                return Ok(true);
            },
            None => {
                return Ok(false);
            },
        }
    }
    if hlen <= 2 || hlen % 2 != 0 {
        return Ok(false);
    }
    let chunks = hlen / 2;
    let ghost base = out@;
    let mut k: usize = 0;
    while k < chunks
        invariant
            t == b@.subrange(start as int, end as int),
            t != seq![0x3Fu8, 0x3Fu8],
            h == strip_0x(t),
            hlen == h.len(),
            chunks == h.len() / 2,
            hlen > 2,
            hlen % 2 == 0,
            hs + hlen == end,
            end <= b@.len(),
            h == b@.subrange(hs as int, end as int),
            k <= chunks,
            chunks_value(h, k as nat) is Some,
            !chunks_split(h, k as nat),
            out@ == base + chunks_value(h, k as nat)->Some_0,
        decreases chunks - k,
    {
        let p = hs + 2 * k;
        let splits = (0x80 <= b[p] && b[p] <= 0xBF) || (2 * k + 2 < hlen && 0x80 <= b[p + 2]
            && b[p + 2] <= 0xBF);
        assert(splits == chunk_splits_char(h, k as int)) by {
            assert(h[2 * k as int] == b@[p as int]);
            if 2 * k + 2 < hlen {
                assert(h[2 * k + 2] == b@[p + 2]);
            }
        }
        if splits {
            assert(chunks_split(h, (k + 1) as nat));
            assert(token_splits_char(t)) by {
                lemma_chunks_split_grows(h, (k + 1) as nat, chunks as nat);
            }
            return Err(());
        }
        assert(h[2 * k as int] == b@[p as int] && h[2 * k + 1] == b@[p + 1]);
        match hex_pair_of(b[p], b[p + 1]) {
            Some(v) => {
                out.push(Some(v));
                k = k + 1;
                assert(out@ =~= base + chunks_value(h, k as nat)->Some_0);
            },
            None => {
                assert(chunks_value(h, (k + 1) as nat) is None);
                assert(!token_splits_char(t) && token_value(t) is None) by {
                    lemma_chunks_stop(h, (k + 1) as nat, chunks as nat);
                }
                return Ok(false);
            },
        }
    }
    Ok(true)
}

/// Once a chunk split would be found or a chunk fails, later chunks do not matter.
proof fn lemma_chunks_split_grows(h: Seq<u8>, k: nat, m: nat)
    requires
        k <= m,
        chunks_split(h, k),
    ensures
        chunks_split(h, m),
    decreases m - k,
{
    if k < m {
        lemma_chunks_split_grows(h, k, (m - 1) as nat);
    }
}

/// After a chunk fails to parse, no later chunk is reached.
proof fn lemma_chunks_stop(h: Seq<u8>, k: nat, m: nat)
    requires
        k <= m,
        chunks_value(h, k) is None,
        !chunks_split(h, k),
    ensures
        chunks_value(h, m) is None,
        !chunks_split(h, m),
    decreases m - k,
{
    if k < m {
        lemma_chunks_stop(h, k, (m - 1) as nat);
    }
}

/// Reads the whole pattern `b`: `Err(())` when a token would cut a character,
/// otherwise the values of its tokens (if they all parse).
fn read_pattern(b: &[u8]) -> (r: Result<Option<Vec<Option<u8>>>, ()>)
    ensures
        r is Err <==> hex_pattern_splits_char(b@),
        r matches Ok(v) ==> match v {
            Some(w) => tokens_value(tokens(b@)) == Some(w@),
            None => tokens_value(tokens(b@)) is None,
        },
{
    let n = b.len();
    let mut out: Vec<Option<u8>> = Vec::new();
    let mut i: usize = 0;
    let mut start: usize = 0;
    let mut in_token = false;
    let ghost mut done: Seq<Seq<u8>> = Seq::empty();
    while i < n
        invariant
            n == b@.len(),
            i <= n,
            in_token ==> start < i,
            tokens(b@) == done + tokens_from(
                b@,
                i as int,
                if in_token {
                    b@.subrange(start as int, i as int)
                } else {
                    Seq::empty()
                },
            ),
            tokens_value(done) == Some(out@),
            !tokens_split(done),
        decreases n - i,
    {
        let w = ws_len_at(b, i);
        let ghost cur = if in_token {
            b@.subrange(start as int, i as int)
        } else {
            Seq::empty()
        };
        if w > 0 {
            proof {
                if in_token {
                    assert(tokens_from(b@, i as int, cur) == seq![cur] + tokens_from(
                        b@,
                        i + w,
                        Seq::empty(),
                    ));
                    assert(tokens(b@) =~= done.push(cur) + tokens_from(b@, i + w, Seq::empty()));
                    assert(tokens(b@).subrange(0, done.len() + 1 as int) =~= done.push(cur));
                    assert(done.push(cur).drop_last() =~= done);
                }
            }
            if in_token {
                match read_token(b, start, i, &mut out) {
                    Err(()) => {
                        proof {
                            lemma_tokens_split_prefix(done.push(cur), tokens(b@));
                        }
                        return Err(());
                    },
                    Ok(false) => {
                        proof {
                            lemma_tokens_value_prefix(done.push(cur), tokens(b@));
                        }
                        return Ok(None);
                    },
                    Ok(true) => {
                        proof {
                            done = done.push(cur);
                        }
                    },
                }
            }
            proof {
                assert(tokens(b@) == done + tokens_from(b@, (i + w) as int, Seq::empty()));
            }
            i = i + w;
            in_token = false;
        } else {
            if !in_token {
                start = i;
                in_token = true;
            }
            proof {
                assert(cur.push(b@[i as int]) =~= b@.subrange(start as int, i + 1));
            }
            i = i + 1;
        }
    }
    let ghost cur = if in_token {
        b@.subrange(start as int, i as int)
    } else {
        Seq::empty()
    };
    if in_token {
        match read_token(b, start, n, &mut out) {
            Err(()) => {
                assert(tokens(b@) =~= done.push(cur));
                assert(done.push(cur).drop_last() =~= done);
                return Err(());
            },
            Ok(false) => {
                assert(tokens(b@) =~= done.push(cur));
                assert(done.push(cur).drop_last() =~= done);
                return Ok(None);
            },
            Ok(true) => {
                assert(tokens(b@) =~= done.push(cur));
                assert(done.push(cur).drop_last() =~= done);
            },
        }
    } else {
        assert(tokens(b@) =~= done);
    }
    Ok(Some(out))
}

/// A prefix of the tokens that would split a character makes the whole list split.
proof fn lemma_tokens_split_prefix(pre: Seq<Seq<u8>>, all: Seq<Seq<u8>>)
    requires
        tokens_split(pre),
        pre.len() <= all.len(),
        all.subrange(0, pre.len() as int) == pre,
    ensures
        tokens_split(all),
    decreases all.len() - pre.len(),
{
    if pre.len() < all.len() {
        let shorter = all.drop_last();
        assert(shorter.subrange(0, pre.len() as int) =~= pre);
        lemma_tokens_split_prefix(pre, shorter);
    } else {
        assert(all =~= pre);
    }
}

/// A prefix of the tokens that fails to parse, without splitting a character,
/// makes the whole list fail without splitting a character.
proof fn lemma_tokens_value_prefix(pre: Seq<Seq<u8>>, all: Seq<Seq<u8>>)
    requires
        tokens_value(pre) is None,
        !tokens_split(pre),
        pre.len() <= all.len(),
        all.subrange(0, pre.len() as int) == pre,
    ensures
        tokens_value(all) is None,
        !tokens_split(all),
    decreases all.len() - pre.len(),
{
    if pre.len() < all.len() {
        let shorter = all.drop_last();
        assert(shorter.subrange(0, pre.len() as int) =~= pre);
        lemma_tokens_value_prefix(pre, shorter);
    } else {
        assert(all =~= pre);
    }
}

/// Search functions over byte slices.
pub struct Searcher;

impl Searcher {
    /// Offsets of the occurrences of `pattern` in `data`, ascending; with
    /// `case_sensitive` false, ASCII letters match either case.
    pub fn find_text(data: &[u8], pattern: &str, case_sensitive: bool) -> (r: Vec<u64>)
        ensures
            r@ == text_matches(data@, pattern.spec_bytes(), case_sensitive),
    {
        let pat = pattern.as_bytes();
        let pat_len = pat.len();
        if pat_len == 0 {
            return Vec::new();
        }
        if data.len() < pat_len {
            return Vec::new();
        }
        let count = data.len() - pat_len + 1;
        let ghost p = |i: int| text_match_at(data@, pat@, case_sensitive, i);
        let mut results: Vec<u64> = Vec::new();
        let mut i: usize = 0;
        while i < count
            invariant
                data@.len() <= usize::MAX,
                count == data@.len() - pat@.len() + 1,
                pat_len == pat@.len(),
                pat@ == pattern.spec_bytes(),
                i <= count,
                p == (|i: int| text_match_at(data@, pat@, case_sensitive, i)),
                results@ == positions(i as nat, p),
            decreases count - i,
        {
            let mut matched = true;
            let mut j: usize = 0;
            while j < pat_len && matched
                invariant
                    pat_len == pat@.len(),
                    i + pat_len <= data@.len(),
                    data@.len() <= usize::MAX,
                    j <= pat_len,
                    matched ==> forall|k: int|
                        0 <= k < j ==> if case_sensitive {
                            #[trigger] data@[i + k] == pat@[k]
                        } else {
                            ascii_lower(#[trigger] data@[i + k]) == ascii_lower(pat@[k])
                        },
                    !matched ==> !text_match_at(data@, pat@, case_sensitive, i as int),
                decreases pat_len - j + (if matched {
                    1int
                } else {
                    0int
                }),
            {
                let x = data[i + j];
                let y = pat[j];
                let same = if case_sensitive {
                    x == y
                } else {
                    lower_byte(x) == lower_byte(y)
                };
                if !same {
                    matched = false;
                    assert(!text_match_at(data@, pat@, case_sensitive, i as int)) by {
                        assert(data@[i + j] == x);
                    }
                } else {
                    j = j + 1;
                }
            }
            assert(matched == p(i as int));
            if matched {
                results.push(i as u64);
            }
            i = i + 1;
        }
        results
    }

    /// Offsets of the occurrences of the hex pattern `pattern` in `data`, ascending;
    /// none when the pattern does not parse. The pattern must be readable without
    /// cutting a character in two.
    pub fn find_hex(data: &[u8], pattern: &str) -> (r: Vec<u64>)
        requires
            !hex_pattern_splits_char(pattern.spec_bytes()),
        ensures
            r@ == match hex_pattern(pattern.spec_bytes()) {
                Some(pat) => hex_matches(data@, pat),
                None => Seq::empty(),
            },
    {
        let pat = match Self::parse_hex_pattern(pattern) {
            Some(p) => p,
            None => return Vec::new(),
        };
        let pat_len = pat.len();
        if data.len() < pat_len {
            return Vec::new();
        }
        let count = data.len() - pat_len + 1;
        let ghost p = |i: int| hex_match_at(data@, pat@, i);
        let mut results: Vec<u64> = Vec::new();
        let mut i: usize = 0;
        while i < count
            invariant
                data@.len() <= usize::MAX,
                count == data@.len() - pat@.len() + 1,
                pat_len == pat@.len(),
                i <= count,
                p == (|i: int| hex_match_at(data@, pat@, i)),
                results@ == positions(i as nat, p),
            decreases count - i,
        {
            let mut matched = true;
            let mut j: usize = 0;
            while j < pat_len && matched
                invariant
                    pat_len == pat@.len(),
                    i + pat_len <= data@.len(),
                    data@.len() <= usize::MAX,
                    j <= pat_len,
                    matched ==> forall|k: int|
                        0 <= k < j ==> (#[trigger] pat@[k] matches Some(b) ==> data@[i + k] == b),
                    !matched ==> !hex_match_at(data@, pat@, i as int),
                decreases pat_len - j + (if matched {
                    1int
                } else {
                    0int
                }),
            {
                match pat[j] {
                    Some(expected) => {
                        if data[i + j] != expected {
                            matched = false;
                        } else {
                            j = j + 1;
                        }
                    },
                    None => {
                        j = j + 1;
                    },
                }
            }
            assert(matched == p(i as int));
            if matched {
                results.push(i as u64);
            }
            i = i + 1;
        }
        results
    }

    /// The wildcard byte pattern `pattern` denotes: whitespace-separated tokens,
    /// each `??` (any byte) or, after an optional `0x`, two or an even number of
    /// hex characters. `None` when a token does not parse or there is none. The
    /// pattern must be readable without cutting a character in two.
    pub fn parse_hex_pattern(pattern: &str) -> (r: Option<Vec<Option<u8>>>)
        requires
            !hex_pattern_splits_char(pattern.spec_bytes()),
        ensures
            match r {
                Some(v) => hex_pattern(pattern.spec_bytes()) == Some(v@),
                None => hex_pattern(pattern.spec_bytes()) is None,
            },
    {
        let b = pattern.as_bytes();
        match read_pattern(b) {
            Ok(Some(v)) => if v.len() == 0 {
                None
            } else {
                Some(v)
            },
            _ => None,
        }
    }

    /// Whether `pattern` can be read as a hex pattern without cutting a character
    /// in two; the pattern functions require it.
    pub fn hex_pattern_is_readable(pattern: &str) -> (b: bool)
        ensures
            b == !hex_pattern_splits_char(pattern.spec_bytes()),
    {
        read_pattern(pattern.as_bytes()).is_ok()
    }

    /// The bytes a hex pattern without wildcards denotes.
    pub fn hex_to_bytes(pattern: &str) -> (r: Option<Vec<u8>>)
        requires
            !hex_pattern_splits_char(pattern.spec_bytes()),
        ensures
            match r {
                Some(v) => hex_bytes(pattern.spec_bytes()) == Some(v@),
                None => hex_bytes(pattern.spec_bytes()) is None,
            },
    {
        let parsed = match Self::parse_hex_pattern(pattern) {
            Some(p) => p,
            None => return None,
        };
        let mut bytes: Vec<u8> = Vec::new();
        let mut i: usize = 0;
        while i < parsed.len()
            invariant
                hex_pattern(pattern.spec_bytes()) == Some(parsed@),
                i <= parsed@.len(),
                bytes@.len() == i,
                forall|k: int| 0 <= k < i ==> #[trigger] parsed@[k] is Some,
                forall|k: int| 0 <= k < i ==> bytes@[k] == #[trigger] parsed@[k]->Some_0,
            decreases parsed@.len() - i,
        {
            match parsed[i] {
                Some(b) => bytes.push(b),
                None => {
                    assert(!(forall|k: int| 0 <= k < parsed@.len() ==> #[trigger] parsed@[k] is Some)) by {
                        assert(parsed@[i as int] is None);
                    }
                    return None;
                },
            }
            i = i + 1;
        }
        assert(bytes@ =~= parsed@.map_values(|o: Option<u8>| o->Some_0));
        Some(bytes)
    }
}

/// Exec counterpart of `ascii_lower`.
fn lower_byte(b: u8) -> (r: u8)
    ensures
        r == ascii_lower(b),
{
    if 0x41 <= b && b <= 0x5A {
        b + 32
    } else {
        b
    }
}

} // verus!
