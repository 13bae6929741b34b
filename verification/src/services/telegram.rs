//! The check of Telegram mini-app init data: the fields of the query string
//! are decoded, the `hash` field is taken out, the others are listed in key
//! order as `key=value` lines, and the HMAC-SHA-256 of that listing, keyed
//! by the HMAC of the bot token under "WebAppData", must equal the hash.

use vstd::prelude::*;
use vstd::string::{StringExecFns, StrSliceExecFns};
use vstd::utf8::{encode_utf8, encode_utf8_decode_utf8};
use hmac::{Hmac, Mac};
use sha2::Sha256;
use crate::decimal::chars_of;
use crate::errors::AppError;
use crate::text::{bytes_less, bytes_lt, find_char, find_in, lemma_bytes_lt_asymmetric, lemma_bytes_lt_irreflexive, lemma_bytes_lt_total, lemma_bytes_lt_transitive, lemma_find_char_is, lemma_split_step, split_on, split_once};

verus! {

/// What `urlencoding::decode` gives for a text: the decoded text, or the
/// message of the UTF-8 error.
pub uninterp spec fn url_decode_result(v: Seq<char>) -> Result<Seq<char>, Seq<char>>;

/// The HMAC-SHA-256 of `msg` under `key`.
pub uninterp spec fn hmac_sha256_spec(key: Seq<u8>, msg: Seq<u8>) -> Seq<u8>;

/// `urlencoding::decode`: percent-decodes `v`. The result is a function of
/// `v`; a text without `%` decodes to itself (the crate hands it back
/// unchanged). What other texts decode to is not stated.
#[verifier::external_body]
fn url_decode(v: &str) -> (r: Result<String, String>)
    ensures
        match r {
            Ok(d) => url_decode_result(v@) == Ok::<Seq<char>, Seq<char>>(d@) && (!v@.contains('%') ==> d@ == v@),
            Err(e) => url_decode_result(v@) == Err::<Seq<char>, Seq<char>>(e@) && v@.contains('%'),
        },
{
    match urlencoding::decode(v) {
        Ok(d) => Ok(d.into_owned()),
        Err(e) => Err(e.to_string()),
    }
}

/// `hmac::Hmac<Sha256>`: keyed with `key` (any length is accepted), fed
/// `msg`, finalized. The result is a function of the key and the message.
#[verifier::external_body]
fn hmac_sha256(key: &[u8], msg: &[u8]) -> (r: Vec<u8>)
    ensures
        r@ == hmac_sha256_spec(key@, msg@),
{
    let mut mac = <Hmac<Sha256> as Mac>::new_from_slice(key).expect("HMAC takes keys of any length");
    mac.update(msg);
    mac.finalize().into_bytes().to_vec()
}

pub open spec fn hex_digit(n: int) -> char {
    if n < 10 {
        (n + '0' as int) as char
    } else {
        (n - 10 + 'a' as int) as char
    }
}

/// Lower-case hex: two digits per byte, high nibble first.
pub open spec fn hex_lower(bytes: Seq<u8>) -> Seq<char>
    decreases bytes.len(),
{
    if bytes.len() == 0 {
        Seq::empty()
    } else {
        seq![hex_digit(bytes[0] as int / 16), hex_digit(bytes[0] as int % 16)] + hex_lower(bytes.drop_first())
    }
}

/// `hex::encode`: the lower-case hex text of the bytes.
#[verifier::external_body]
fn hex_encode(bytes: &[u8]) -> (r: String)
    ensures
        r@ == hex_lower(bytes@),
{
    hex::encode(bytes)
}

/// The fields of the init data: each `&`-separated piece with an `=` gives
/// a key and a percent-decoded value; a later field replaces an earlier one
/// with the same key; the first value that does not decode is the error.
pub open spec fn collect_params(segs: Seq<Seq<char>>) -> Result<Map<Seq<char>, Seq<char>>, Seq<char>>
    decreases segs.len(),
{
    if segs.len() == 0 {
        Ok(Map::empty())
    } else {
        match collect_params(segs.drop_last()) {
            Err(e) => Err(e),
            Ok(m) => match split_once(segs.last(), '=') {
                None => Ok(m),
                Some((k, v)) => match url_decode_result(v) {
                    Err(e) => Err(e),
                    Ok(d) => Ok(m.insert(k, d)),
                },
            },
        }
    }
}

pub open spec fn init_params(init_data: Seq<char>) -> Result<Map<Seq<char>, Seq<char>>, Seq<char>> {
    collect_params(split_on(init_data, '&'))
}

/// Keys in strictly increasing byte order.
pub open spec fn strictly_sorted(ks: Seq<Seq<char>>) -> bool {
    forall|i: int, j: int| 0 <= i < j < ks.len() ==> bytes_lt(#[trigger] encode_utf8(ks[i]), #[trigger] encode_utf8(ks[j]))
}

/// `ks` lists the keys of `m`, each once, in increasing byte order.
pub open spec fn sorted_cover(ks: Seq<Seq<char>>, m: Map<Seq<char>, Seq<char>>) -> bool {
    &&& strictly_sorted(ks)
    &&& forall|i: int| 0 <= i < ks.len() ==> m.contains_key(#[trigger] ks[i])
    &&& forall|k: Seq<char>| m.contains_key(k) ==> ks.contains(k)
}

/// The keys of `m` in increasing byte order.
pub open spec fn sorted_keys(m: Map<Seq<char>, Seq<char>>) -> Seq<Seq<char>> {
    choose|ks: Seq<Seq<char>>| sorted_cover(ks, m)
}

pub open spec fn join_lines(ls: Seq<Seq<char>>) -> Seq<char>
    decreases ls.len(),
{
    if ls.len() == 0 {
        Seq::empty()
    } else if ls.len() == 1 {
        ls[0]
    } else {
        join_lines(ls.drop_last()) + "\n"@ + ls.last()
    }
}

pub open spec fn field_line(k: Seq<char>, m: Map<Seq<char>, Seq<char>>) -> Seq<char> {
    k + "="@ + m[k]
}

/// The `key=value` lines of the keys `ks`, joined by newlines.
pub open spec fn check_lines(ks: Seq<Seq<char>>, m: Map<Seq<char>, Seq<char>>) -> Seq<char> {
    join_lines(ks.map_values(|k: Seq<char>| field_line(k, m)))
}

/// The data-check string of a set of fields.
pub open spec fn data_check_string(m: Map<Seq<char>, Seq<char>>) -> Seq<char> {
    check_lines(sorted_keys(m), m)
}

/// The hash that a bot with token `token` gives a set of fields.
pub open spec fn expected_hash(token: Seq<char>, m: Map<Seq<char>, Seq<char>>) -> Seq<char> {
    let secret = hmac_sha256_spec(encode_utf8("WebAppData"@), encode_utf8(token));
    hex_lower(hmac_sha256_spec(secret, encode_utf8(data_check_string(m))))
}

/// Once a prefix of the fields fails to decode, the whole fails the same way.
proof fn lemma_collect_prefix_err(segs: Seq<Seq<char>>, k: int)
    requires
        0 <= k <= segs.len(),
        collect_params(segs.take(k)) is Err,
    ensures
        collect_params(segs) == collect_params(segs.take(k)),
    decreases segs.len() - k,
{
    if k == segs.len() {
        assert(segs.take(k) =~= segs);
    } else {
        assert(segs.drop_last().take(k) =~= segs.take(k));
        lemma_collect_prefix_err(segs.drop_last(), k);
    }
}

/// A list of fields without repeated keys that holds exactly the fields of `m`.
/// The fields are kept as a list of (key, value) pairs rather than in a hash
/// map: a later field replaces an earlier one with the same key, as a map
/// insert does, and the listing is then sorted by key bytes, which a hash
/// map's walk order would not give.
pub open spec fn entries_match(v: Seq<(String, String)>, m: Map<Seq<char>, Seq<char>>) -> bool {
    &&& forall|i: int, j: int| 0 <= i < j < v.len() ==> (#[trigger] v[i]).0@ != (#[trigger] v[j]).0@
    &&& forall|i: int| 0 <= i < v.len() ==> m.contains_key((#[trigger] v[i]).0@) && m[v[i].0@] == v[i].1@
    &&& forall|k: Seq<char>| m.contains_key(k) ==> exists|i: int| 0 <= i < v.len() && (#[trigger] v[i]).0@ == k
}

/// Sets field `k` to `d` in the list.
fn put_field(params: &mut Vec<(String, String)>, k: String, d: String, Ghost(m): Ghost<Map<Seq<char>, Seq<char>>>)
    requires
        entries_match(old(params)@, m),
    ensures
        entries_match(final(params)@, m.insert(k@, d@)),
{
    let n = params.len();
    let mut i: usize = 0;
    while i < n
        invariant
            n == params@.len(),
            i <= n,
            entries_match(params@, m),
            forall|j: int| 0 <= j < i ==> (#[trigger] params@[j]).0@ != k@,
        decreases n - i,
    {
        if params[i].0 == k {
            let ghost before = params@;
            params.set(i, (k, d));
            proof {
                let m2 = m.insert(k@, d@);
                assert forall|j: int| 0 <= j < params@.len() implies m2.contains_key((#[trigger] params@[j]).0@)
                    && m2[params@[j].0@] == params@[j].1@ by {
                    if j != i {
                        assert(params@[j] == before[j]);
                    }
                }
                assert forall|k2: Seq<char>| m2.contains_key(k2) implies exists|j: int| 0 <= j < params@.len() && (#[trigger] params@[j]).0@ == k2 by {
                    if k2 == k@ {
                        assert(params@[i as int].0@ == k2);
                    } else {
                        let j = choose|j: int| 0 <= j < before.len() && (#[trigger] before[j]).0@ == k2;
                        assert(params@[j] == before[j]);
                    }
                }
                assert forall|a: int, b: int| 0 <= a < b < params@.len() implies (#[trigger] params@[a]).0@ != (#[trigger] params@[b]).0@ by {
                    if a != i && b != i {
                        assert(params@[a] == before[a] && params@[b] == before[b]);
                    } else if a == i {
                        assert(params@[b] == before[b]);
                        assert(before[a].0@ == k@);
                    } else {
                        assert(params@[a] == before[a]);
                        assert(before[b].0@ == k@);
                    }
                }
            }
            return;
        }
        i = i + 1;
    }
    let ghost before = params@;
    params.push((k, d));
    proof {
        let m2 = m.insert(k@, d@);
        assert forall|j: int| 0 <= j < params@.len() implies m2.contains_key((#[trigger] params@[j]).0@)
            && m2[params@[j].0@] == params@[j].1@ by {
            if j < n {
                assert(params@[j] == before[j]);
                assert(before[j].0@ != k@);
            }
        }
        assert forall|k2: Seq<char>| m2.contains_key(k2) implies exists|j: int| 0 <= j < params@.len() && (#[trigger] params@[j]).0@ == k2 by {
            if k2 == k@ {
                assert(params@[n as int].0@ == k2);
            } else {
                let j = choose|j: int| 0 <= j < before.len() && (#[trigger] before[j]).0@ == k2;
                assert(params@[j] == before[j]);
            }
        }
        assert forall|a: int, b: int| 0 <= a < b < params@.len() implies (#[trigger] params@[a]).0@ != (#[trigger] params@[b]).0@ by {
            assert(params@[a] == before[a]);
            if b < n {
                assert(params@[b] == before[b]);
            }
        }
    }
}

/// Splits the init data into its decoded fields.
#[verifier::loop_isolation(false)]
fn parse_fields(init_data: &str) -> (r: Result<Vec<(String, String)>, String>)
    ensures
        match init_params(init_data@) {
            Ok(m) => r matches Ok(v) && entries_match(v@, m),
            Err(e) => r matches Err(x) && x@ == e,
        },
{
    let ghost s = init_data@;
    let cs = chars_of(init_data);
    let n = cs.len();
    let mut params: Vec<(String, String)> = Vec::new();
    let ghost mut m: Map<Seq<char>, Seq<char>> = Map::empty();
    let ghost mut done: Seq<Seq<char>> = Seq::empty();
    let mut start: usize = 0;
    let mut more = true;
    assert(s.skip(0) =~= s);
    while more
        invariant
            start <= n,
            n == s.len(),
            cs@ == s,
            more ==> split_on(s, '&') == done + split_on(s.skip(start as int), '&'),
            !more ==> split_on(s, '&') == done,
            collect_params(done) == Ok::<Map<Seq<char>, Seq<char>>, Seq<char>>(m),
            entries_match(params@, m),
        decreases (if more { n + 1 - start } else { 0 }),
    {
        let amp = find_in(&cs, start, n, '&');
        let end: usize = match amp {
            Some(e) => e,
            None => n,
        };
        let ghost seg = s.subrange(start as int, end as int);
        proof {
            assert(s.subrange(start as int, n as int) =~= s.skip(start as int));
            match amp {
                Some(e) => {
                    lemma_split_step(s.skip(start as int), '&', e - start);
                    assert(s.skip(start as int).take(e - start) =~= seg);
                    assert(s.skip(start as int).skip(e - start + 1) =~= s.skip(e + 1));
                },
                None => {
                    assert(seg =~= s.skip(start as int));
                },
            }
        }
        let eq = find_in(&cs, start, end, '=');
        let ghost next_done = done.push(seg);
        assert(next_done.drop_last() =~= done);
        match eq {
            Some(q) => {
                let key = init_data.substring_char(start, q).to_owned();
                let raw = init_data.substring_char(q + 1, end);
                proof {
                    assert(seg.take(q - start) =~= key@);
                    assert(seg.skip(q - start + 1) =~= raw@);
                }
                match url_decode(raw) {
                    Ok(d) => {
                        put_field(&mut params, key, d, Ghost(m));
                        proof {
                            m = m.insert(key@, d@);
                        }
                    },
                    Err(e) => {
                        proof {
                            done = next_done;
                            let segs = split_on(s, '&');
                            assert(segs.take(next_done.len() as int) =~= next_done);
                            assert(collect_params(next_done) is Err);
                            lemma_collect_prefix_err(segs, next_done.len() as int);
                        }
                        return Err(e);
                    },
                }
            },
            None => {},
        }
        proof {
            done = next_done;
        }
        match amp {
            Some(e) => {
                start = e + 1;
            },
            None => {
                more = false;
                assert(split_on(s, '&') =~= done);
            },
        }
    }
    Ok(params)
}


pub open spec fn keys_of(v: Seq<(String, String)>) -> Seq<Seq<char>> {
    v.map_values(|e: (String, String)| e.0@)
}

proof fn lemma_encode_injective(a: Seq<char>, b: Seq<char>)
    requires
        a != b,
    ensures
        encode_utf8(a) != encode_utf8(b),
{
    encode_utf8_decode_utf8(a);
    encode_utf8_decode_utf8(b);
}

/// There is only one listing of a set of fields in increasing key order:
/// two such listings of the same fields are equal, so the data-check string
/// of a set of fields is well defined (for the order in which the fields
/// were sent, see `lemma_init_params_order_free`).
pub proof fn lemma_sorted_cover_unique(a: Seq<Seq<char>>, b: Seq<Seq<char>>, m: Map<Seq<char>, Seq<char>>)
    requires
        sorted_cover(a, m),
        sorted_cover(b, m),
    ensures
        a == b,
    decreases a.len(),
{
    if a.len() == 0 {
        if b.len() > 0 {
            assert(m.contains_key(b[0]));
            assert(a.contains(b[0]));
        }
        assert(a =~= b);
    } else {
        if b.len() == 0 {
            assert(m.contains_key(a[0]));
            assert(b.contains(a[0]));
        }
        let a0 = a[0];
        let b0 = b[0];
        assert(m.contains_key(a0));
        assert(m.contains_key(b0));
        assert(b.contains(a0));
        assert(a.contains(b0));
        if a0 != b0 {
            let i = choose|i: int| 0 <= i < a.len() && a[i] == b0;
            let j = choose|j: int| 0 <= j < b.len() && b[j] == a0;
            assert(i > 0 && j > 0);
            assert(bytes_lt(encode_utf8(a[0]), encode_utf8(a[i])));
            assert(bytes_lt(encode_utf8(b[0]), encode_utf8(b[j])));
            lemma_bytes_lt_asymmetric(encode_utf8(a0), encode_utf8(b0));
        }
        let m2 = m.remove(a0);
        let ta = a.drop_first();
        let tb = b.drop_first();
        assert forall|i: int| 0 <= i < ta.len() implies m2.contains_key(#[trigger] ta[i]) by {
            assert(ta[i] == a[i + 1]);
            assert(bytes_lt(encode_utf8(a[0]), encode_utf8(a[i + 1])));
            lemma_bytes_lt_irreflexive(encode_utf8(a0));
        }
        assert forall|i: int| 0 <= i < tb.len() implies m2.contains_key(#[trigger] tb[i]) by {
            assert(tb[i] == b[i + 1]);
            assert(bytes_lt(encode_utf8(b[0]), encode_utf8(b[i + 1])));
            lemma_bytes_lt_irreflexive(encode_utf8(b0));
        }
        assert forall|k: Seq<char>| m2.contains_key(k) implies ta.contains(k) by {
            assert(m.contains_key(k) && k != a0);
            assert(a.contains(k));
            let i = choose|i: int| 0 <= i < a.len() && a[i] == k;
            assert(i > 0);
            assert(ta[i - 1] == k);
        }
        assert forall|k: Seq<char>| m2.contains_key(k) implies tb.contains(k) by {
            assert(m.contains_key(k) && k != b0);
            assert(b.contains(k));
            let i = choose|i: int| 0 <= i < b.len() && b[i] == k;
            assert(i > 0);
            assert(tb[i - 1] == k);
        }
        assert forall|i: int, j: int| 0 <= i < j < ta.len() implies bytes_lt(#[trigger] encode_utf8(ta[i]), #[trigger] encode_utf8(ta[j])) by {
            assert(ta[i] == a[i + 1] && ta[j] == a[j + 1]);
        }
        assert forall|i: int, j: int| 0 <= i < j < tb.len() implies bytes_lt(#[trigger] encode_utf8(tb[i]), #[trigger] encode_utf8(tb[j])) by {
            assert(tb[i] == b[i + 1] && tb[j] == b[j + 1]);
        }
        lemma_sorted_cover_unique(ta, tb, m2);
        assert(a =~= seq![a0] + ta);
        assert(b =~= seq![b0] + tb);
    }
}

/// The fields of `params`, ordered by key bytes.
fn sort_fields(params: &Vec<(String, String)>, Ghost(m): Ghost<Map<Seq<char>, Seq<char>>>) -> (out: Vec<(String, String)>)
    requires
        entries_match(params@, m),
    ensures
        entries_match(out@, m),
        strictly_sorted(keys_of(out@)),
{
    let n = params.len();
    let mut out: Vec<(String, String)> = Vec::new();
    let ghost mut mi: Map<Seq<char>, Seq<char>> = Map::empty();
    let mut idx: usize = 0;
    while idx < n
        invariant
            n == params@.len(),
            idx <= n,
            entries_match(params@, m),
            entries_match(out@, mi),
            strictly_sorted(keys_of(out@)),
            forall|k: Seq<char>| mi.contains_key(k) ==> exists|j: int| 0 <= j < idx && (#[trigger] params@[j]).0@ == k,
            forall|j: int| 0 <= j < idx ==> mi.contains_key((#[trigger] params@[j]).0@),
            forall|k: Seq<char>| #[trigger] mi.contains_key(k) ==> m.contains_key(k) && mi[k] == m[k],
        decreases n - idx,
    {
        let key = params[idx].0.clone();
        let val = params[idx].1.clone();
        proof {
            assert forall|k: Seq<char>| mi.contains_key(k) implies k != key@ by {
                let j = choose|j: int| 0 <= j < idx && (#[trigger] params@[j]).0@ == k;
                assert(params@[j].0@ != params@[idx as int].0@);
            }
        }
        let len = out.len();
        let mut p: usize = 0;
        while p < len && !bytes_less(key.as_str().as_bytes(), out[p].0.as_str().as_bytes())
            invariant
                p <= len,
                len == out@.len(),
                forall|q: int| 0 <= q < p ==> !bytes_lt(encode_utf8(key@), encode_utf8((#[trigger] out@[q]).0@)),
            decreases len - p,
        {
            p = p + 1;
        }
        let ghost before = out@;
        proof {
            assert(keys_of(before).len() == before.len());
            assert forall|q: int| 0 <= q < p implies bytes_lt(encode_utf8((#[trigger] before[q]).0@), encode_utf8(key@)) by {
                assert(mi.contains_key(before[q].0@));
                lemma_encode_injective(before[q].0@, key@);
                lemma_bytes_lt_total(encode_utf8(before[q].0@), encode_utf8(key@));
            }
            assert forall|q: int| p <= q < before.len() implies bytes_lt(encode_utf8(key@), encode_utf8((#[trigger] before[q]).0@)) by {
                if q > p {
                    assert(keys_of(before)[p as int] == before[p as int].0@);
                    assert(keys_of(before)[q] == before[q].0@);
                    lemma_bytes_lt_transitive(encode_utf8(key@), encode_utf8(before[p as int].0@), encode_utf8(before[q].0@));
                }
            }
        }
        out.insert(p, (key, val));
        proof {
            let w = out@;
            let ghost mi2 = mi.insert(key@, val@);
            assert(val@ == m[key@]);
            assert forall|a: int| 0 <= a < w.len() implies #[trigger] w[a] == (if a < p { before[a] } else if a == p { (key, val) } else { before[a - 1] }) by {}
            assert forall|a: int, b: int| 0 <= a < b < keys_of(w).len() implies bytes_lt(#[trigger] encode_utf8(keys_of(w)[a]), #[trigger] encode_utf8(keys_of(w)[b])) by {
                assert(keys_of(w)[a] == w[a].0@);
                assert(keys_of(w)[b] == w[b].0@);
                if a < p && b < p {
                    assert(keys_of(before)[a] == before[a].0@ && keys_of(before)[b] == before[b].0@);
                } else if a < p && b == p {
                } else if a < p && b > p {
                    lemma_bytes_lt_transitive(encode_utf8(before[a].0@), encode_utf8(key@), encode_utf8(before[b - 1].0@));
                } else if a == p {
                } else {
                    assert(keys_of(before)[a - 1] == before[a - 1].0@ && keys_of(before)[b - 1] == before[b - 1].0@);
                }
            }
            assert forall|a: int, b: int| 0 <= a < b < w.len() implies (#[trigger] w[a]).0@ != (#[trigger] w[b]).0@ by {
                assert(keys_of(w)[a] == w[a].0@);
                assert(keys_of(w)[b] == w[b].0@);
                assert(bytes_lt(encode_utf8(keys_of(w)[a]), encode_utf8(keys_of(w)[b])));
                lemma_bytes_lt_irreflexive(encode_utf8(w[a].0@));
            }
            assert forall|a: int| 0 <= a < w.len() implies mi2.contains_key((#[trigger] w[a]).0@) && mi2[w[a].0@] == w[a].1@ by {
                if a < p {
                    assert(w[a] == before[a]);
                } else if a > p {
                    assert(w[a] == before[a - 1]);
                }
            }
            assert forall|k: Seq<char>| mi2.contains_key(k) implies exists|a: int| 0 <= a < w.len() && (#[trigger] w[a]).0@ == k by {
                if k == key@ {
                    assert(w[p as int].0@ == k);
                } else {
                    let a = choose|a: int| 0 <= a < before.len() && (#[trigger] before[a]).0@ == k;
                    if a < p {
                        assert(w[a] == before[a]);
                    } else {
                        assert(w[a + 1] == before[a]);
                    }
                }
            }
            assert forall|k: Seq<char>| mi2.contains_key(k) implies exists|j: int| 0 <= j < idx + 1 && (#[trigger] params@[j]).0@ == k by {
                if k == key@ {
                    assert(params@[idx as int].0@ == k);
                }
            }
            mi = mi2;
        }
        idx = idx + 1;
    }
    proof {
        assert forall|k: Seq<char>| m.contains_key(k) implies exists|a: int| 0 <= a < out@.len() && (#[trigger] out@[a]).0@ == k by {
            let j = choose|j: int| 0 <= j < params@.len() && (#[trigger] params@[j]).0@ == k;
            assert(mi.contains_key(params@[j].0@));
        }
        assert forall|a: int| 0 <= a < out@.len() implies m.contains_key((#[trigger] out@[a]).0@) && m[out@[a].0@] == out@[a].1@ by {
            assert(mi.contains_key(out@[a].0@));
        }
    }
    out
}


/// Takes field `i` out of the list; returns its value.
fn remove_field(params: &mut Vec<(String, String)>, i: usize, Ghost(m): Ghost<Map<Seq<char>, Seq<char>>>) -> (r: String)
    requires
        entries_match(old(params)@, m),
        i < old(params)@.len(),
    ensures
        entries_match(final(params)@, m.remove(old(params)@[i as int].0@)),
        r@ == m[old(params)@[i as int].0@],
{
    let ghost before = params@;
    let ghost k = before[i as int].0@;
    let (_, v) = params.remove(i);
    proof {
        let w = params@;
        let m2 = m.remove(k);
        assert forall|a: int| 0 <= a < w.len() implies #[trigger] w[a] == (if a < i { before[a] } else { before[a + 1] }) by {}
        assert forall|a: int, b: int| 0 <= a < b < w.len() implies (#[trigger] w[a]).0@ != (#[trigger] w[b]).0@ by {
            let a2 = if a < i { a } else { a + 1 };
            let b2 = if b < i { b } else { b + 1 };
            assert(w[a] == before[a2] && w[b] == before[b2]);
        }
        assert forall|a: int| 0 <= a < w.len() implies m2.contains_key((#[trigger] w[a]).0@) && m2[w[a].0@] == w[a].1@ by {
            let a2 = if a < i { a } else { a + 1 };
            assert(w[a] == before[a2]);
            assert(before[a2].0@ != before[i as int].0@);
        }
        assert forall|k2: Seq<char>| m2.contains_key(k2) implies exists|a: int| 0 <= a < w.len() && (#[trigger] w[a]).0@ == k2 by {
            let j = choose|j: int| 0 <= j < before.len() && (#[trigger] before[j]).0@ == k2;
            assert(j != i);
            if j < i {
                assert(w[j] == before[j]);
            } else {
                assert(w[j - 1] == before[j]);
            }
        }
    }
    v
}

proof fn lemma_sorted_keys_of(v: Seq<(String, String)>, m: Map<Seq<char>, Seq<char>>)
    requires
        entries_match(v, m),
        strictly_sorted(keys_of(v)),
    ensures
        sorted_keys(m) == keys_of(v),
{
    let ks = keys_of(v);
    assert forall|i: int| 0 <= i < ks.len() implies m.contains_key(#[trigger] ks[i]) by {
        assert(ks[i] == v[i].0@);
    }
    assert forall|k: Seq<char>| m.contains_key(k) implies ks.contains(k) by {
        let i = choose|i: int| 0 <= i < v.len() && (#[trigger] v[i]).0@ == k;
        assert(ks[i] == k);
    }
    assert(sorted_cover(ks, m));
    let chosen = sorted_keys(m);
    assert(sorted_cover(chosen, m));
    lemma_sorted_cover_unique(chosen, ks, m);
}

/// The data-check string of sorted fields.
fn check_string(sorted: &Vec<(String, String)>, Ghost(m): Ghost<Map<Seq<char>, Seq<char>>>) -> (r: String)
    requires
        entries_match(sorted@, m),
        strictly_sorted(keys_of(sorted@)),
    ensures
        r@ == data_check_string(m),
{
    proof {
        lemma_sorted_keys_of(sorted@, m);
    }
    let ghost ks = keys_of(sorted@);
    let ghost lines = ks.map_values(|k: Seq<char>| field_line(k, m));
    let mut res = String::new();
    let n = sorted.len();
    let mut i: usize = 0;
    assert(lines.take(0) =~= Seq::<Seq<char>>::empty());
    while i < n
        invariant
            n == sorted@.len(),
            i <= n,
            ks == keys_of(sorted@),
            lines == ks.map_values(|k: Seq<char>| field_line(k, m)),
            entries_match(sorted@, m),
            res@ == join_lines(lines.take(i as int)),
        decreases n - i,
    {
        let ghost prev = res@;
        if i > 0 {
            res.append("\n");
        }
        res.append(sorted[i].0.as_str());
        res.append("=");
        res.append(sorted[i].1.as_str());
        proof {
            assert(ks[i as int] == sorted@[i as int].0@);
            assert(m[ks[i as int]] == sorted@[i as int].1@);
            assert(lines[i as int] == field_line(ks[i as int], m));
            assert(lines.take(i + 1).drop_last() =~= lines.take(i as int));
            if i > 0 {
                assert(res@ =~= prev + "\n"@ + lines[i as int]);
            } else {
                assert(res@ =~= lines[0]);
            }
        }
        i = i + 1;
    }
    assert(lines.take(n as int) =~= lines);
    res
}

/// Init data passes the check: it parses, holds a `hash` field, and that
/// hash is the one the bot's token gives the other fields.
pub open spec fn accepted(token: Seq<char>, init_data: Seq<char>) -> bool {
    init_params(init_data) matches Ok(m) && m.contains_key("hash"@)
        && expected_hash(token, m.remove("hash"@)) == m["hash"@]
}

/// Pieces joined by `&`.
pub open spec fn join_amp(ps: Seq<Seq<char>>) -> Seq<char>
    decreases ps.len(),
{
    if ps.len() == 0 {
        Seq::empty()
    } else if ps.len() == 1 {
        ps[0]
    } else {
        ps[0] + seq!['&'] + join_amp(ps.drop_first())
    }
}

/// The fields in the order given, a later one replacing an earlier one with
/// the same key.
pub open spec fn fields_map(fs: Seq<(Seq<char>, Seq<char>)>) -> Map<Seq<char>, Seq<char>>
    decreases fs.len(),
{
    if fs.len() == 0 {
        Map::empty()
    } else {
        fields_map(fs.drop_last()).insert(fs.last().0, fs.last().1)
    }
}

/// The `key=value` pieces of the fields.
pub open spec fn field_pieces(fs: Seq<(Seq<char>, Seq<char>)>) -> Seq<Seq<char>> {
    fs.map_values(|f: (Seq<char>, Seq<char>)| f.0 + seq!['='] + f.1)
}

/// The hash that the bot with token `token` gives the fields `fs`.
pub open spec fn init_signature(token: Seq<char>, fs: Seq<(Seq<char>, Seq<char>)>) -> Seq<char> {
    expected_hash(token, fields_map(fs))
}

/// Init data as the bot's platform signs it: the fields as `key=value`
/// pieces, then the `hash` field, joined by `&`.
pub open spec fn signed_init_data(token: Seq<char>, fs: Seq<(Seq<char>, Seq<char>)>) -> Seq<char> {
    join_amp(field_pieces(fs).push(seq!['h', 'a', 's', 'h', '='] + init_signature(token, fs)))
}

proof fn lemma_split_join(ps: Seq<Seq<char>>)
    requires
        ps.len() >= 1,
        forall|i: int| 0 <= i < ps.len() ==> !(#[trigger] ps[i]).contains('&'),
    ensures
        split_on(join_amp(ps), '&') == ps,
    decreases ps.len(),
{
    let p0 = ps[0];
    assert(!ps[0].contains('&'));
    assert forall|j: int| 0 <= j < p0.len() implies p0[j] != '&' by {
        if p0[j] == '&' {
            assert(p0.contains('&'));
        }
    }
    if ps.len() == 1 {
        lemma_find_char_is(p0, '&', None);
        assert(split_on(p0, '&') =~= ps);
    } else {
        let rest = ps.drop_first();
        assert forall|i: int| 0 <= i < rest.len() implies !(#[trigger] rest[i]).contains('&') by {
            assert(rest[i] == ps[i + 1]);
        }
        lemma_split_join(rest);
        let s = join_amp(ps);
        assert(s == p0 + seq!['&'] + join_amp(rest));
        assert forall|j: int| 0 <= j < p0.len() implies s[j] != '&' by {
            assert(s[j] == p0[j]);
        }
        assert(s[p0.len() as int] == '&');
        lemma_find_char_is(s, '&', Some(p0.len() as int));
        lemma_split_step(s, '&', p0.len() as int);
        assert(s.take(p0.len() as int) =~= p0);
        assert(s.skip(p0.len() as int + 1) =~= join_amp(rest));
        assert(seq![p0] + rest =~= ps);
    }
}

proof fn lemma_split_once_piece(k: Seq<char>, v: Seq<char>)
    requires
        !k.contains('='),
    ensures
        split_once(k + seq!['='] + v, '=') == Some((k, v)),
{
    let s = k + seq!['='] + v;
    assert forall|j: int| 0 <= j < k.len() implies s[j] != '=' by {
        assert(s[j] == k[j]);
        if k[j] == '=' {
            assert(k.contains('='));
        }
    }
    assert(s[k.len() as int] == '=');
    lemma_find_char_is(s, '=', Some(k.len() as int));
    assert(s.take(k.len() as int) =~= k);
    assert(s.skip(k.len() as int + 1) =~= v);
}

proof fn lemma_collect_fields(fs: Seq<(Seq<char>, Seq<char>)>)
    requires
        forall|i: int| 0 <= i < fs.len() ==> !(#[trigger] fs[i]).0.contains('=')
            && url_decode_result(fs[i].1) == Ok::<Seq<char>, Seq<char>>(fs[i].1),
    ensures
        collect_params(field_pieces(fs)) == Ok::<Map<Seq<char>, Seq<char>>, Seq<char>>(fields_map(fs)),
    decreases fs.len(),
{
    if fs.len() > 0 {
        let init = fs.drop_last();
        assert forall|i: int| 0 <= i < init.len() implies !(#[trigger] init[i]).0.contains('=')
            && url_decode_result(init[i].1) == Ok::<Seq<char>, Seq<char>>(init[i].1) by {
            assert(init[i] == fs[i]);
        }
        lemma_collect_fields(init);
        assert(field_pieces(fs).drop_last() =~= field_pieces(init));
        let f = fs.last();
        assert(f == fs[fs.len() - 1]);
        lemma_split_once_piece(f.0, f.1);
    } else {
        assert(field_pieces(fs) =~= Seq::<Seq<char>>::empty());
    }
}

proof fn lemma_fields_map_keys(fs: Seq<(Seq<char>, Seq<char>)>, k: Seq<char>)
    requires
        fields_map(fs).contains_key(k),
    ensures
        exists|i: int| 0 <= i < fs.len() && (#[trigger] fs[i]).0 == k,
    decreases fs.len(),
{
    if fs.len() > 0 && fs.last().0 != k {
        lemma_fields_map_keys(fs.drop_last(), k);
        let i = choose|i: int| 0 <= i < fs.drop_last().len() && (#[trigger] fs.drop_last()[i]).0 == k;
        assert(fs[i] == fs.drop_last()[i]);
    } else if fs.len() > 0 {
        assert(fs[fs.len() - 1].0 == k);
    }
}

proof fn lemma_hex_digits(bytes: Seq<u8>)
    ensures
        forall|i: int| 0 <= i < hex_lower(bytes).len() ==> (#[trigger] hex_lower(bytes)[i]) != '&',
    decreases bytes.len(),
{
    if bytes.len() > 0 {
        lemma_hex_digits(bytes.drop_first());
        let hi = bytes[0] as int / 16;
        let lo = bytes[0] as int % 16;
        assert(0 <= hi < 16 && 0 <= lo < 16);
        assert(hex_digit(hi) != '&');
        assert(hex_digit(lo) != '&');
        let h = hex_lower(bytes);
        let t = hex_lower(bytes.drop_first());
        assert(h == seq![hex_digit(hi), hex_digit(lo)] + t);
        assert forall|i: int| 0 <= i < h.len() implies (#[trigger] h[i]) != '&' by {
            if i >= 2 {
                assert(h[i] == t[i - 2]);
            }
        }
    }
}

/// Init data signed with the bot's token passes the check: when the keys
/// hold no `&` or `=` and are not `hash`, the values hold no `&`, and the
/// values and the hash percent-decode to themselves (as every text without
/// `%` does), the signed data parses to the fields plus the hash, and the
/// hash matches.
pub proof fn lemma_signed_init_data_accepted(token: Seq<char>, fs: Seq<(Seq<char>, Seq<char>)>)
    requires
        forall|i: int| 0 <= i < fs.len() ==> {
            &&& !(#[trigger] fs[i]).0.contains('&')
            &&& !fs[i].0.contains('=')
            &&& !fs[i].1.contains('&')
            &&& fs[i].0 != "hash"@
            &&& url_decode_result(fs[i].1) == Ok::<Seq<char>, Seq<char>>(fs[i].1)
        },
        url_decode_result(init_signature(token, fs)) == Ok::<Seq<char>, Seq<char>>(init_signature(token, fs)),
    ensures
        init_params(signed_init_data(token, fs))
            == Ok::<Map<Seq<char>, Seq<char>>, Seq<char>>(fields_map(fs).insert("hash"@, init_signature(token, fs))),
        accepted(token, signed_init_data(token, fs)),
{
    reveal_strlit("hash");
    let h = init_signature(token, fs);
    let hash_key = seq!['h', 'a', 's', 'h'];
    assert(hash_key =~= "hash"@);
    let all = fs.push((hash_key, h));
    assert(all.drop_last() =~= fs);
    let pieces = field_pieces(all);
    assert(hash_key + seq!['='] =~= seq!['h', 'a', 's', 'h', '=']);
    assert(pieces[fs.len() as int] == hash_key + seq!['='] + h);
    assert(pieces =~= field_pieces(fs).push(seq!['h', 'a', 's', 'h', '='] + h));
    let expected = hmac_sha256_spec(
        hmac_sha256_spec(encode_utf8("WebAppData"@), encode_utf8(token)),
        encode_utf8(data_check_string(fields_map(fs))),
    );
    lemma_hex_digits(expected);
    assert(!h.contains('&')) by {
        if h.contains('&') {
            let j = choose|j: int| 0 <= j < h.len() && h[j] == '&';
            assert(hex_lower(expected)[j] == '&');
        }
    }
    assert(!hash_key.contains('=')) by {
        if hash_key.contains('=') {
            let j = choose|j: int| 0 <= j < hash_key.len() && hash_key[j] == '=';
        }
    }
    assert forall|i: int| 0 <= i < pieces.len() implies !(#[trigger] pieces[i]).contains('&') by {
        let f = all[i];
        assert(pieces[i] == f.0 + seq!['='] + f.1);
        if i < fs.len() {
            assert(f == fs[i]);
        }
        if pieces[i].contains('&') {
            let j = choose|j: int| 0 <= j < pieces[i].len() && pieces[i][j] == '&';
            if j < f.0.len() {
                assert(pieces[i][j] == f.0[j]);
                assert(f.0.contains('&'));
            } else if j > f.0.len() {
                assert(pieces[i][j] == f.1[j - f.0.len() - 1]);
                assert(f.1.contains('&'));
            }
        }
    }
    lemma_split_join(pieces);
    assert forall|i: int| 0 <= i < all.len() implies !(#[trigger] all[i]).0.contains('=')
        && url_decode_result(all[i].1) == Ok::<Seq<char>, Seq<char>>(all[i].1) by {
        if i < fs.len() {
            assert(all[i] == fs[i]);
        }
    }
    lemma_collect_fields(all);
    let m = fields_map(fs);
    assert(!m.contains_key("hash"@)) by {
        if m.contains_key("hash"@) {
            lemma_fields_map_keys(fs, "hash"@);
        }
    }
    assert(m.insert("hash"@, h).remove("hash"@) =~= m);
}

/// A piece of the init data that is a field: it holds an `=`.
pub open spec fn is_field(seg: Seq<char>) -> bool {
    split_once(seg, '=') is Some
}

pub open spec fn field_key(seg: Seq<char>) -> Seq<char> {
    split_once(seg, '=')->Some_0.0
}

pub open spec fn field_value(seg: Seq<char>) -> Seq<char> {
    split_once(seg, '=')->Some_0.1
}

/// No two fields among the pieces have the same key.
pub open spec fn distinct_field_keys(segs: Seq<Seq<char>>) -> bool {
    forall|i: int, j: int|
        0 <= i < j < segs.len() && is_field(segs[i]) && is_field(segs[j])
            ==> field_key(#[trigger] segs[i]) != field_key(#[trigger] segs[j])
}

/// Reading the fields fails exactly when some field's value does not decode.
proof fn lemma_collect_err(segs: Seq<Seq<char>>)
    ensures
        (collect_params(segs) is Err) <==> exists|i: int|
            0 <= i < segs.len() && is_field(#[trigger] segs[i]) && url_decode_result(field_value(segs[i])) is Err,
    decreases segs.len(),
{
    if segs.len() > 0 {
        let init = segs.drop_last();
        lemma_collect_err(init);
        if collect_params(init) is Err {
            let i = choose|i: int| 0 <= i < init.len() && is_field(#[trigger] init[i]) && url_decode_result(field_value(init[i])) is Err;
            assert(segs[i] == init[i]);
        } else {
            assert forall|i: int| 0 <= i < segs.len() - 1 && is_field(#[trigger] segs[i])
                implies url_decode_result(field_value(segs[i])) is Ok by {
                assert(segs[i] == init[i]);
            }
            assert(segs.last() == segs[segs.len() - 1]);
        }
    }
}

/// With distinct keys, the fields read are exactly the fields of the pieces,
/// each with its decoded value.
proof fn lemma_collect_ok(segs: Seq<Seq<char>>)
    requires
        distinct_field_keys(segs),
        collect_params(segs) is Ok,
    ensures
        forall|k: Seq<char>| #[trigger] collect_params(segs)->Ok_0.contains_key(k) <==>
            exists|i: int| 0 <= i < segs.len() && is_field(#[trigger] segs[i]) && field_key(segs[i]) == k,
        forall|i: int| 0 <= i < segs.len() && is_field(#[trigger] segs[i]) ==>
            url_decode_result(field_value(segs[i])) is Ok
            && collect_params(segs)->Ok_0[field_key(segs[i])] == url_decode_result(field_value(segs[i]))->Ok_0,
    decreases segs.len(),
{
    if segs.len() > 0 {
        let init = segs.drop_last();
        let n = segs.len() - 1;
        assert forall|i: int, j: int|
            0 <= i < j < init.len() && is_field(init[i]) && is_field(init[j])
                implies field_key(#[trigger] init[i]) != field_key(#[trigger] init[j]) by {
            assert(init[i] == segs[i] && init[j] == segs[j]);
        }
        assert(collect_params(init) is Ok);
        lemma_collect_ok(init);
        let m0 = collect_params(init)->Ok_0;
        let m = collect_params(segs)->Ok_0;
        let last = segs[n];
        assert(segs.last() == last);
        if is_field(last) {
            assert(m == m0.insert(field_key(last), url_decode_result(field_value(last))->Ok_0));
            assert forall|k: Seq<char>| #[trigger] m.contains_key(k) <==>
                exists|i: int| 0 <= i < segs.len() && is_field(#[trigger] segs[i]) && field_key(segs[i]) == k by {
                if m0.contains_key(k) {
                    let i = choose|i: int| 0 <= i < init.len() && is_field(#[trigger] init[i]) && field_key(init[i]) == k;
                    assert(segs[i] == init[i]);
                }
                if exists|i: int| 0 <= i < segs.len() && is_field(#[trigger] segs[i]) && field_key(segs[i]) == k {
                    let i = choose|i: int| 0 <= i < segs.len() && is_field(#[trigger] segs[i]) && field_key(segs[i]) == k;
                    if i < n {
                        assert(init[i] == segs[i]);
                    }
                }
            }
            assert forall|i: int| 0 <= i < segs.len() && is_field(#[trigger] segs[i]) implies
                url_decode_result(field_value(segs[i])) is Ok
                && m[field_key(segs[i])] == url_decode_result(field_value(segs[i]))->Ok_0 by {
                if i < n {
                    assert(init[i] == segs[i]);
                    assert(field_key(segs[i]) != field_key(segs[n]));
                }
            }
        } else {
            assert(m == m0);
            assert forall|k: Seq<char>| #[trigger] m.contains_key(k) <==>
                exists|i: int| 0 <= i < segs.len() && is_field(#[trigger] segs[i]) && field_key(segs[i]) == k by {
                if m0.contains_key(k) {
                    let i = choose|i: int| 0 <= i < init.len() && is_field(#[trigger] init[i]) && field_key(init[i]) == k;
                    assert(segs[i] == init[i]);
                }
                if exists|i: int| 0 <= i < segs.len() && is_field(#[trigger] segs[i]) && field_key(segs[i]) == k {
                    let i = choose|i: int| 0 <= i < segs.len() && is_field(#[trigger] segs[i]) && field_key(segs[i]) == k;
                    assert(i < n);
                    assert(init[i] == segs[i]);
                }
            }
            assert forall|i: int| 0 <= i < segs.len() && is_field(#[trigger] segs[i]) implies
                url_decode_result(field_value(segs[i])) is Ok
                && m[field_key(segs[i])] == url_decode_result(field_value(segs[i]))->Ok_0 by {
                assert(i < n);
                assert(init[i] == segs[i]);
            }
        }
    }
}

/// The order of the `&`-separated pieces does not matter: when two init
/// data hold the same pieces in another order, and no two fields share a
/// key, both read the same fields or both fail to decode, and both pass or
/// both fail the check. By the contract of `verify_init_data`, it then
/// answers both with the same `Ok`, or both with an internal error.
pub proof fn lemma_init_params_order_free(a: Seq<char>, b: Seq<char>)
    requires
        split_on(a, '&').to_multiset() == split_on(b, '&').to_multiset(),
        distinct_field_keys(split_on(a, '&')),
        distinct_field_keys(split_on(b, '&')),
    ensures
        (init_params(a) is Ok) <==> (init_params(b) is Ok),
        init_params(a) is Ok ==> init_params(a) == init_params(b),
        forall|token: Seq<char>| #[trigger] accepted(token, a) == accepted(token, b),
{
    let sa = split_on(a, '&');
    let sb = split_on(b, '&');
    assert forall|i: int| 0 <= i < sa.len() implies exists|j: int| 0 <= j < sb.len() && sb[j] == #[trigger] sa[i] by {
        assert(sa.contains(sa[i]));
        vstd::seq_lib::to_multiset_contains(sa, sa[i]);
        vstd::seq_lib::to_multiset_contains(sb, sa[i]);
    }
    assert forall|j: int| 0 <= j < sb.len() implies exists|i: int| 0 <= i < sa.len() && sa[i] == #[trigger] sb[j] by {
        assert(sb.contains(sb[j]));
        vstd::seq_lib::to_multiset_contains(sa, sb[j]);
        vstd::seq_lib::to_multiset_contains(sb, sb[j]);
    }
    lemma_collect_err(sa);
    lemma_collect_err(sb);
    if collect_params(sa) is Err {
        let i = choose|i: int| 0 <= i < sa.len() && is_field(#[trigger] sa[i]) && url_decode_result(field_value(sa[i])) is Err;
        let j = choose|j: int| 0 <= j < sb.len() && sb[j] == #[trigger] sa[i];
        assert(is_field(sb[j]) && url_decode_result(field_value(sb[j])) is Err);
    }
    if collect_params(sb) is Err {
        let j = choose|j: int| 0 <= j < sb.len() && is_field(#[trigger] sb[j]) && url_decode_result(field_value(sb[j])) is Err;
        let i = choose|i: int| 0 <= i < sa.len() && sa[i] == #[trigger] sb[j];
        assert(is_field(sa[i]) && url_decode_result(field_value(sa[i])) is Err);
    }
    if collect_params(sa) is Ok {
        lemma_collect_ok(sa);
        lemma_collect_ok(sb);
        let ma = collect_params(sa)->Ok_0;
        let mb = collect_params(sb)->Ok_0;
        assert forall|k: Seq<char>| ma.contains_key(k) <==> mb.contains_key(k) by {
            if ma.contains_key(k) {
                let i = choose|i: int| 0 <= i < sa.len() && is_field(#[trigger] sa[i]) && field_key(sa[i]) == k;
                let j = choose|j: int| 0 <= j < sb.len() && sb[j] == #[trigger] sa[i];
                assert(is_field(sb[j]) && field_key(sb[j]) == k);
            }
            if mb.contains_key(k) {
                let j = choose|j: int| 0 <= j < sb.len() && is_field(#[trigger] sb[j]) && field_key(sb[j]) == k;
                let i = choose|i: int| 0 <= i < sa.len() && sa[i] == #[trigger] sb[j];
                assert(is_field(sa[i]) && field_key(sa[i]) == k);
            }
        }
        assert forall|k: Seq<char>| #[trigger] ma.contains_key(k) implies ma[k] == mb[k] by {
            let i = choose|i: int| 0 <= i < sa.len() && is_field(#[trigger] sa[i]) && field_key(sa[i]) == k;
            let j = choose|j: int| 0 <= j < sb.len() && sb[j] == #[trigger] sa[i];
            assert(is_field(sb[j]));
        }
        assert(ma =~= mb);
    }
}

/// Checks Telegram mini-app init data against a bot token.
pub struct TelegramService {
    bot_token: String,
}

impl TelegramService {
    /// The bot token that the service checks against.
    pub closed spec fn token(&self) -> Seq<char> {
        self.bot_token@
    }

    /// A service for the bot with token `bot_token`.
    pub fn new(bot_token: String) -> (r: Self)
        ensures
            r.token() == bot_token@,
    {
        TelegramService { bot_token }
    }

    /// Whether the init data carries the hash that this bot's token gives
    /// its other fields. A value that does not percent-decode is an internal
    /// error carrying the decoder's message; init data without a `hash`
    /// field is an authentication error.
    pub fn verify_init_data(&self, init_data: &str) -> (r: Result<bool, AppError>)
        ensures
            match init_params(init_data@) {
                Err(e) => r matches Err(AppError::Internal(x)) && x@ == e,
                Ok(m) => if m.contains_key("hash"@) {
                    r == Ok::<bool, AppError>(expected_hash(self.token(), m.remove("hash"@)) == m["hash"@])
                } else {
                    r matches Err(AppError::Auth(x)) && x@ == "Hash not found in init data"@
                },
            },
            (r == Ok::<bool, AppError>(true)) <==> accepted(self.token(), init_data@),
    {
        let mut params = match parse_fields(init_data) {
            Ok(v) => v,
            Err(e) => {
                return Err(AppError::Internal(e));
            },
        };
        let ghost m = init_params(init_data@)->Ok_0;
        let hash_key = "hash".to_owned();
        let n = params.len();
        let mut i: usize = 0;
        while i < n && params[i].0 != hash_key
            invariant
                n == params@.len(),
                i <= n,
                hash_key@ == "hash"@,
                forall|j: int| 0 <= j < i ==> (#[trigger] params@[j]).0@ != "hash"@,
            decreases n - i,
        {
            i = i + 1;
        }
        if i == n {
            proof {
                if m.contains_key("hash"@) {
                    let j = choose|j: int| 0 <= j < params@.len() && (#[trigger] params@[j]).0@ == "hash"@;
                }
            }
            return Err(AppError::Auth("Hash not found in init data".to_owned()));
        }
        let received = remove_field(&mut params, i, Ghost(m));
        let ghost rest = m.remove("hash"@);
        let sorted = sort_fields(&params, Ghost(rest));
        let dcs = check_string(&sorted, Ghost(rest));
        let secret = hmac_sha256("WebAppData".as_bytes(), self.bot_token.as_str().as_bytes());
        let mac = hmac_sha256(secret.as_slice(), dcs.as_str().as_bytes());
        let calc = hex_encode(mac.as_slice());
        Ok(calc == received)
    }
}


} // verus!
