//! Signed request URLs for the Aliyun API (signature version 1.0, HMAC-SHA1).
use vstd::prelude::*;
use vstd::relations::{sorted_by, total_ordering};
use vstd::string::*;

use crate::textbuf::{
    chars_le, chars_le_exec, chars_of, lemma_chars_le_antisymmetric, lemma_chars_le_reflexive,
    lemma_chars_le_total, lemma_chars_le_transitive, push_chars, push_decimal, push_str, replace,
    spec_decimal, spec_replace, to_string,
};

use super::mod_include::{pair, pair_view, pairs_view};

verus! {

broadcast use vstd::seq_lib::group_to_multiset_ensures;

/// An upper-case hexadecimal digit.
pub open spec fn hex_upper(d: int) -> char {
    if d < 10 {
        (48 + d) as char
    } else {
        (55 + d) as char
    }
}

/// The bytes form encoding leaves as they are.
pub open spec fn unchanged_byte(b: u8) -> bool {
    b == 42 || b == 45 || b == 46 || (48 <= b <= 57) || (65 <= b <= 90) || b == 95 || (97 <= b
        <= 122)
}

/// The form encoding of one byte: itself, '+' for a space, else '%' and two
/// upper-case hexadecimal digits.
pub open spec fn urlencode_byte(b: u8) -> Seq<char> {
    if unchanged_byte(b) {
        seq![b as char]
    } else if b == 32 {
        seq!['+']
    } else {
        seq!['%', hex_upper(b as int / 16), hex_upper(b as int % 16)]
    }
}

/// The form encoding of bytes (`application/x-www-form-urlencoded`).
pub open spec fn spec_urlencode(bs: Seq<u8>) -> Seq<char>
    decreases bs.len(),
{
    if bs.len() == 0 {
        Seq::empty()
    } else {
        spec_urlencode(bs.drop_last()) + urlencode_byte(bs.last())
    }
}

/// The form encoding of a text's UTF-8 bytes.
pub open spec fn enc(s: Seq<char>) -> Seq<char> {
    spec_urlencode(vstd::utf8::encode_utf8(s))
}

/// Form-encodes bytes with `url::form_urlencoded::byte_serialize`, collecting its pieces;
/// claims the encoding that crate's source gives: `*-._`, digits and ASCII letters as
/// they are, a space as '+', any other byte as '%' and two upper-case hex digits.
#[verifier::external_body]
pub(crate) fn form_urlencode(bytes: &[u8]) -> (s: String)
    ensures
        s@ == spec_urlencode(bytes@),
{
    url::form_urlencoded::byte_serialize(bytes).collect::<String>()
}

/// A digit of the standard base64 alphabet.
pub open spec fn b64_char(v: int) -> char {
    if v < 26 {
        (65 + v) as char
    } else if v < 52 {
        (71 + v) as char
    } else if v < 62 {
        (v - 4) as char
    } else if v == 62 {
        '+'
    } else {
        '/'
    }
}

/// Standard base64 with '=' padding (RFC 4648, section 4).
pub open spec fn spec_base64(bs: Seq<u8>) -> Seq<char>
    decreases bs.len(),
{
    if bs.len() == 0 {
        Seq::empty()
    } else {
        let b0 = bs[0] as int;
        let b1 = if bs.len() > 1 { bs[1] as int } else { 0 };
        let b2 = if bs.len() > 2 { bs[2] as int } else { 0 };
        let c0 = b64_char(b0 / 4);
        let c1 = b64_char((b0 % 4) * 16 + b1 / 16);
        let c2 = b64_char((b1 % 16) * 4 + b2 / 64);
        let c3 = b64_char(b2 % 64);
        if bs.len() == 1 {
            seq![c0, c1, '=', '=']
        } else if bs.len() == 2 {
            seq![c0, c1, c2, '=']
        } else {
            seq![c0, c1, c2, c3] + spec_base64(bs.skip(3))
        }
    }
}

/// Encodes bytes with `data_encoding::BASE64.encode`; claims standard base64 with
/// padding, as that constant's documentation and alphabet give it.
#[verifier::external_body]
pub(crate) fn base64_encode(bytes: &[u8]) -> (s: String)
    requires
        bytes@.len() <= usize::MAX / 512,
    ensures
        s@ == spec_base64(bytes@),
{
    data_encoding::BASE64.encode(bytes)
}

/// What HMAC-SHA1 gives for `key` and `msg`.
pub uninterp spec fn hmac_sha1(key: Seq<u8>, msg: Seq<u8>) -> Seq<u8>;

/// Signs `msg` with `key` by `ring::hmac::Key::new(HMAC_SHA1_FOR_LEGACY_USE_ONLY, key)`
/// and `ring::hmac::sign`; claims only that the tag's bytes are what those give on these
/// arguments (named `hmac_sha1`), and that the tag is 20 bytes long, the output length
/// of SHA-1. Inputs near 2^61 bytes, on which ring panics, are left out.
#[verifier::external_body]
pub(crate) fn hmac_sha1_sign(key: &[u8], msg: &[u8]) -> (t: Vec<u8>)
    requires
        key@.len() <= 0x1000_0000_0000_0000,
        msg@.len() <= 0x1000_0000_0000_0000,
    ensures
        t@ == hmac_sha1(key@, msg@),
        t@.len() == 20,
{
    let k = ring::hmac::Key::new(ring::hmac::HMAC_SHA1_FOR_LEGACY_USE_ONLY, key);
    ring::hmac::sign(&k, msg).as_ref().to_vec()
}

/// The order of parameters: by name, then by value, each compared character by
/// character (the order of `[String; 2]`).
pub open spec fn pair_le(a: (Seq<char>, Seq<char>), b: (Seq<char>, Seq<char>)) -> bool {
    (chars_le(a.0, b.0) && a.0 != b.0) || (a.0 == b.0 && chars_le(a.1, b.1))
}

/// `pair_le` as a relation.
pub open spec fn pair_order() -> spec_fn((Seq<char>, Seq<char>), (Seq<char>, Seq<char>)) -> bool {
    |a: (Seq<char>, Seq<char>), b: (Seq<char>, Seq<char>)| pair_le(a, b)
}

pub proof fn lemma_pair_order_total()
    ensures
        total_ordering(pair_order()),
{
    let r = pair_order();
    assert forall|a: (Seq<char>, Seq<char>)| #[trigger] r(a, a) by {
        lemma_chars_le_reflexive(a.1);
    }
    assert forall|a: (Seq<char>, Seq<char>), b: (Seq<char>, Seq<char>)|
        #[trigger] r(a, b) && #[trigger] r(b, a) implies a == b by {
        if a.0 != b.0 {
            lemma_chars_le_antisymmetric(a.0, b.0);
        } else {
            lemma_chars_le_antisymmetric(a.1, b.1);
        }
    }
    assert forall|
        a: (Seq<char>, Seq<char>),
        b: (Seq<char>, Seq<char>),
        c: (Seq<char>, Seq<char>),
    | #[trigger] r(a, b) && #[trigger] r(b, c) implies r(a, c) by {
        if a.0 == b.0 && b.0 == c.0 {
            lemma_chars_le_transitive(a.1, b.1, c.1);
        } else {
            if chars_le(a.0, b.0) && chars_le(b.0, c.0) {
                lemma_chars_le_transitive(a.0, b.0, c.0);
                if a.0 == c.0 {
                    lemma_chars_le_antisymmetric(a.0, b.0);
                }
            }
        }
    }
    assert forall|a: (Seq<char>, Seq<char>), b: (Seq<char>, Seq<char>)|
        #[trigger] r(a, b) || #[trigger] r(b, a) by {
        lemma_chars_le_total(a.0, b.0);
        lemma_chars_le_total(a.1, b.1);
    }
    assert(vstd::relations::reflexive(r));
    assert(vstd::relations::antisymmetric(r));
    assert(vstd::relations::transitive(r));
    assert(vstd::relations::strongly_connected(r));
}

fn pair_le_exec(a: &[String; 2], b: &[String; 2]) -> (r: bool)
    ensures
        r == pair_le(pair_view(*a), pair_view(*b)),
{
    let a0 = chars_of(a[0].as_str());
    let b0 = chars_of(b[0].as_str());
    let ab = chars_le_exec(&a0, &b0);
    let ba = chars_le_exec(&b0, &a0);
    if ab && ba {
        proof {
            lemma_chars_le_antisymmetric(a0@, b0@);
        }
        let a1 = chars_of(a[1].as_str());
        let b1 = chars_of(b[1].as_str());
        chars_le_exec(&a1, &b1)
    } else {
        proof {
            if a0@ == b0@ {
                lemma_chars_le_reflexive(a0@);
            }
        }
        ab
    }
}

/// Sorts parameters by name, then by value.
pub fn sort_params(v: &Vec<[String; 2]>) -> (out: Vec<[String; 2]>)
    ensures
        pairs_view(out@) == pairs_view(v@).sort_by(pair_order()),
{
    let ghost leq = pair_order();
    let ghost src = pairs_view(v@);
    let mut out: Vec<[String; 2]> = Vec::new();
    let mut k: usize = 0;
    proof {
        lemma_pair_order_total();
    }
    assert(src.take(0) =~= Seq::<(Seq<char>, Seq<char>)>::empty());
    assert(pairs_view(out@) =~= Seq::<(Seq<char>, Seq<char>)>::empty());
    while k < v.len()
        invariant
            k <= v@.len(),
            leq == pair_order(),
            src == pairs_view(v@),
            total_ordering(leq),
            sorted_by(pairs_view(out@), leq),
            pairs_view(out@).to_multiset() == src.take(k as int).to_multiset(),
        decreases v@.len() - k,
    {
        let x = [v[k][0].clone(), v[k][1].clone()];
        let ghost xv = pair_view(x);
        assert(xv == src[k as int]);
        let ghost g = pairs_view(out@);
        let mut p: usize = out.len();
        while p > 0 && !pair_le_exec(&out[p - 1], &x)
            invariant
                p <= out@.len(),
                g == pairs_view(out@),
                xv == pair_view(x),
                total_ordering(leq),
                leq == pair_order(),
                forall|i: int| p <= i < g.len() ==> !leq(#[trigger] g[i], xv),
            decreases p,
        {
            p = p - 1;
        }
        proof {
            assert forall|i: int| 0 <= i < p implies leq(#[trigger] g[i], xv) by {
                assert(leq(g[p - 1], xv));
                if i < p - 1 {
                    assert(leq(g[i], g[p - 1]));
                }
            }
        }
        out.insert(p, x);
        proof {
            let ng = pairs_view(out@);
            assert(ng =~= g.insert(p as int, xv));
            assert forall|i: int, j: int| 0 <= i < j < ng.len() implies #[trigger] leq(
                ng[i],
                ng[j],
            ) by {
                if j < p {
                    assert(ng[i] == g[i] && ng[j] == g[j]);
                } else if j == p {
                    assert(ng[i] == g[i]);
                } else if i == p {
                    assert(ng[j] == g[j - 1]);
                    assert(!leq(g[j - 1], xv));
                } else if i < p {
                    assert(ng[i] == g[i] && ng[j] == g[j - 1]);
                } else {
                    assert(ng[i] == g[i - 1] && ng[j] == g[j - 1]);
                }
            }
            vstd::seq_lib::to_multiset_insert(g, p as int, xv);
            assert(src.take(k + 1) =~= src.take(k as int).push(xv));
        }
        k = k + 1;
    }
    proof {
        assert(src.take(src.len() as int) =~= src);
        src.lemma_sort_by_ensures(leq);
        vstd::seq_lib::lemma_sorted_unique(pairs_view(out@), src.sort_by(leq), leq);
    }
    out
}


/// A parameter as it stands in a query string: name and value form-encoded.
pub open spec fn pair_text(p: (Seq<char>, Seq<char>)) -> Seq<char> {
    enc(p.0) + "="@ + enc(p.1)
}

/// Parameters joined by '&'.
pub open spec fn join_amp(ps: Seq<(Seq<char>, Seq<char>)>) -> Seq<char>
    decreases ps.len(),
{
    if ps.len() == 0 {
        Seq::empty()
    } else if ps.len() == 1 {
        pair_text(ps[0])
    } else {
        join_amp(ps.drop_last()) + "&"@ + pair_text(ps.last())
    }
}

/// Form encoding turned into percent encoding: '+' as "%20", '*' as "%2A", "%7E" as '~'.
pub open spec fn tidy(s: Seq<char>) -> Seq<char> {
    spec_replace(spec_replace(spec_replace(s, "+"@, "%20"@), "*"@, "%2A"@), "%7E"@, "~"@)
}

/// The parameters of a request with the ones every signed request carries.
pub open spec fn signed_params(
    argv: Seq<(Seq<char>, Seq<char>)>,
    access_id: Seq<char>,
    nonce: Seq<char>,
    stamp: Seq<char>,
) -> Seq<(Seq<char>, Seq<char>)> {
    argv + seq![
        ("AccessKeyId"@, access_id),
        ("SignatureMethod"@, "HMAC-SHA1"@),
        ("SignatureVersion"@, "1.0"@),
        ("SignatureNonce"@, nonce),
        ("Format"@, "JSON"@),
        ("Timestamp"@, stamp),
    ]
}

/// The canonical query string: the parameters after the first (which names the
/// domain), sorted, encoded and joined.
pub open spec fn canonical_query(all: Seq<(Seq<char>, Seq<char>)>) -> Seq<char> {
    join_amp(all.skip(1).sort_by(pair_order()))
}

/// The text that is signed: the method, the encoded path "/", and the encoded
/// canonical query string.
pub open spec fn string_to_sign(all: Seq<(Seq<char>, Seq<char>)>) -> Seq<char> {
    tidy("GET&%2F&"@ + enc(canonical_query(all)))
}

/// The longest text ring signs without failing, in bytes.
pub open spec fn sign_limit() -> nat {
    0x1000_0000_0000_0000
}

/// The request URL: `http://<domain>?<query>&Signature=<signature>`, where the domain is
/// the value of the first parameter and the signature is the base64 of the HMAC-SHA1 of
/// the string to sign under `sig_key`, percent-encoded.
pub open spec fn request_url_spec(
    argv: Seq<(Seq<char>, Seq<char>)>,
    access_id: Seq<char>,
    sig_key: Seq<char>,
    nonce: Seq<char>,
    stamp: Seq<char>,
) -> Seq<char> {
    let all = signed_params(argv, access_id, nonce, stamp);
    let sig = hmac_sha1(
        vstd::utf8::encode_utf8(sig_key),
        vstd::utf8::encode_utf8(string_to_sign(all)),
    );
    "http://"@ + all[0].1 + "?"@ + tidy(canonical_query(all)) + "&"@ + "Signature"@ + "="@ + tidy(
        enc(spec_base64(sig)),
    )
}

fn push_enc(out: &mut Vec<char>, s: &str)
    ensures
        final(out)@ == old(out)@ + enc(s@),
{
    let e = form_urlencode(s.as_bytes());
    push_str(out, e.as_str());
}

fn tidy_exec(v: &Vec<char>) -> (r: Vec<char>)
    ensures
        r@ == tidy(v@),
{
    proof {
        reveal_strlit("+");
        reveal_strlit("*");
        reveal_strlit("%7E");
    }
    let a = replace(v, "+", "%20");
    let b = replace(&a, "*", "%2A");
    replace(&b, "%7E", "~")
}

/// The signed URL of a request with parameters `argv` (the first naming the domain),
/// signed for `access_id` with `sig_key`, with `nonce` and the time `stamp` (ISO 8601,
/// UTC); `None` when the key or the string to sign is too long for ring to sign.
pub fn request_url(
    argv: &Vec<[String; 2]>,
    access_id: &str,
    sig_key: &str,
    nonce: &str,
    stamp: &str,
) -> (r: Option<String>)
    ensures
        ({
            let all = signed_params(pairs_view(argv@), access_id@, nonce@, stamp@);
            let fits = vstd::utf8::encode_utf8(sig_key@).len() <= sign_limit()
                && vstd::utf8::encode_utf8(string_to_sign(all)).len() <= sign_limit();
            &&& r is Some <==> fits
            &&& r matches Some(u) ==> u@ == request_url_spec(
                pairs_view(argv@),
                access_id@,
                sig_key@,
                nonce@,
                stamp@,
            )
        }),
{
    let mut all: Vec<[String; 2]> = Vec::new();
    let mut i: usize = 0;
    while i < argv.len()
        invariant
            i <= argv@.len(),
            pairs_view(all@) == pairs_view(argv@).take(i as int),
        decreases argv@.len() - i,
    {
        let name = &argv[i][0];
        let value = &argv[i][1];
        assert(pair_view(argv@[i as int]) == (name@, value@));
        let p = pair(name.as_str(), value.clone());
        let ghost old_all = all@;
        all.push(p);
        assert(pairs_view(all@) =~= pairs_view(old_all).push(pair_view(p)));
        assert(pairs_view(argv@).take(i + 1) =~= pairs_view(argv@).take(i as int).push(pair_view(argv@[i as int])));
        i = i + 1;
    }
    assert(pairs_view(argv@).take(argv@.len() as int) =~= pairs_view(argv@));
    all.push(pair("AccessKeyId", access_id.to_owned()));
    all.push(pair("SignatureMethod", "HMAC-SHA1".to_owned()));
    all.push(pair("SignatureVersion", "1.0".to_owned()));
    all.push(pair("SignatureNonce", nonce.to_owned()));
    all.push(pair("Format", "JSON".to_owned()));
    all.push(pair("Timestamp", stamp.to_owned()));
    let ghost allv = signed_params(pairs_view(argv@), access_id@, nonce@, stamp@);
    assert(pairs_view(all@) =~= allv);
    let mut tail: Vec<[String; 2]> = Vec::new();
    let mut j: usize = 1;
    while j < all.len()
        invariant
            1 <= j <= all@.len(),
            pairs_view(all@) == allv,
            pairs_view(tail@) == allv.skip(1).take(j - 1),
        decreases all@.len() - j,
    {
        let name = &all[j][0];
        let value = &all[j][1];
        assert(pair_view(all@[j as int]) == (name@, value@));
        let p = pair(name.as_str(), value.clone());
        let ghost old_tail = tail@;
        tail.push(p);
        assert(pairs_view(tail@) =~= pairs_view(old_tail).push(pair_view(p)));
        assert(allv.skip(1).take(j as int) =~= allv.skip(1).take(j - 1).push(allv[j as int]));
        j = j + 1;
    }
    assert(allv.skip(1).take(all@.len() - 1) =~= allv.skip(1));
    let sorted = sort_params(&tail);
    proof {
        lemma_pair_order_total();
    }
    let ghost sv = allv.skip(1).sort_by(pair_order());
    let mut mid: Vec<char> = Vec::new();
    let mut k: usize = 0;
    assert(sv.take(0) =~= Seq::<(Seq<char>, Seq<char>)>::empty());
    while k < sorted.len()
        invariant
            k <= sorted@.len(),
            pairs_view(sorted@) == sv,
            mid@ == join_amp(sv.take(k as int)),
        decreases sorted@.len() - k,
    {
        let ghost prev = mid@;
        if k > 0 {
            push_str(&mut mid, "&");
        }
        push_enc(&mut mid, sorted[k][0].as_str());
        push_str(&mut mid, "=");
        push_enc(&mut mid, sorted[k][1].as_str());
        proof {
            let t = sv.take(k + 1);
            assert(t.drop_last() =~= sv.take(k as int));
            assert(t.last() == sv[k as int]);
            if k == 0 {
                assert(t.len() == 1);
                assert(mid@ =~= pair_text(t[0]));
            } else {
                assert(mid@ =~= prev + "&"@ + pair_text(t.last()));
            }
        }
        k = k + 1;
    }
    assert(sv.take(sorted@.len() as int) =~= sv);
    let mid_text = to_string(&mid);
    let mut raw: Vec<char> = Vec::new();
    push_str(&mut raw, "GET&%2F&");
    push_enc(&mut raw, mid_text.as_str());
    let to_sign = to_string(&tidy_exec(&raw));
    let key_bytes = sig_key.as_bytes();
    let msg_bytes = to_sign.as_str().as_bytes();
    if key_bytes.len() as u64 > 0x1000_0000_0000_0000u64 || msg_bytes.len() as u64 > 0x1000_0000_0000_0000u64 {
        return None;
    }
    let tag = hmac_sha1_sign(key_bytes, msg_bytes);
    let b64 = base64_encode(tag.as_slice());
    let mut sig_enc: Vec<char> = Vec::new();
    push_enc(&mut sig_enc, b64.as_str());
    let final_sig = tidy_exec(&sig_enc);
    let mid_tidy = tidy_exec(&mid);
    let mut url: Vec<char> = Vec::new();
    push_str(&mut url, "http://");
    push_str(&mut url, all[0][1].as_str());
    push_str(&mut url, "?");
    push_chars(&mut url, &mid_tidy);
    push_str(&mut url, "&");
    push_str(&mut url, "Signature");
    push_str(&mut url, "=");
    push_chars(&mut url, &final_sig);
    assert(url@ =~= request_url_spec(pairs_view(argv@), access_id@, sig_key@, nonce@, stamp@));
    Some(to_string(&url))
}
/// What `time::strftime("%Y-%m-%dT%H:%M:%SZ", ..)` writes for the UTC time `secs`
/// seconds after the epoch.
pub uninterp spec fn utc_text(secs: u64) -> Seq<char>;

/// The UTC time `secs` seconds after the epoch as `time::strftime` writes it with the
/// format `%Y-%m-%dT%H:%M:%SZ`, through `time::Timespec::new` and `time::at_utc`; claims
/// only that the text is what those give on `secs` (named `utc_text`). That format holds
/// only known conversions, so `strftime` does not fail on it; times whose year would
/// not fit `gmtime_r`, on which `at_utc` panics, are left out.
#[verifier::external_body]
fn utc_stamp(secs: u64) -> (s: String)
    requires
        secs < 0x100_0000_0000,
    ensures
        s@ == utc_text(secs),
{
    let tm = time::at_utc(time::Timespec::new(secs as i64, 0));
    time::strftime("%Y-%m-%dT%H:%M:%SZ", &tm).unwrap_or_default()
}

/// A random `i32` from `rand::random`, the thread-local generator; nothing is claimed
/// of its value.
#[verifier::external_body]
fn random_i32() -> i32 {
    rand::random::<i32>()
}

/// The nonce of a request made at `now_ms` with the random numbers `r1` and `r2`: their
/// decimal texts, one after the other.
pub open spec fn nonce_text(now_ms: u64, r1: i32, r2: i32) -> Seq<char> {
    spec_decimal(now_ms as int) + spec_decimal(r1 as int) + spec_decimal(r2 as int)
}

/// The nonce of a request made at `now_ms` with the random numbers `r1` and `r2`.
pub fn signature_nonce(now_ms: u64, r1: i32, r2: i32) -> (s: String)
    ensures
        s@ == nonce_text(now_ms, r1, r2),
{
    let mut v: Vec<char> = Vec::new();
    push_decimal(&mut v, now_ms as i128);
    push_decimal(&mut v, r1 as i128);
    push_decimal(&mut v, r2 as i128);
    to_string(&v)
}

/// The signed URL of a request, or `None` when the key or the string to sign is too
/// long to sign.
pub open spec fn signed(
    argv: Seq<(Seq<char>, Seq<char>)>,
    access_id: Seq<char>,
    sig_key: Seq<char>,
    nonce: Seq<char>,
    stamp: Seq<char>,
) -> Option<Seq<char>> {
    let all = signed_params(argv, access_id, nonce, stamp);
    if vstd::utf8::encode_utf8(sig_key).len() <= sign_limit() && vstd::utf8::encode_utf8(
        string_to_sign(all),
    ).len() <= sign_limit() {
        Some(request_url_spec(argv, access_id, sig_key, nonce, stamp))
    } else {
        None
    }
}

/// The signed URL of a request with parameters `argv` made at `now_ms` (milliseconds
/// after the epoch): its nonce holds `now_ms` and two random numbers, its time stamp is
/// `now_ms` in whole seconds.
pub fn signed_url(argv: &Vec<[String; 2]>, access_id: &str, sig_key: &str, now_ms: u64) -> (r:
    Option<String>)
    requires
        now_ms / 1000 < 0x100_0000_0000,
    ensures
        exists|r1: i32, r2: i32|
            match #[trigger] signed(
                pairs_view(argv@),
                access_id@,
                sig_key@,
                nonce_text(now_ms, r1, r2),
                utc_text(now_ms / 1000),
            ) {
                Some(u) => r matches Some(s) && s@ == u,
                None => r is None,
            },
{
    let r1 = random_i32();
    let r2 = random_i32();
    let nonce = signature_nonce(now_ms, r1, r2);
    let stamp = utc_stamp(now_ms / 1000);
    let r = request_url(argv, access_id, sig_key, nonce.as_str(), stamp.as_str());
    assert(match signed(
        pairs_view(argv@),
        access_id@,
        sig_key@,
        nonce_text(now_ms, r1, r2),
        utc_text(now_ms / 1000),
    ) {
        Some(u) => r matches Some(s) && s@ == u,
        None => r is None,
    });
    r
}

/// A request is signed alike whatever the order of its parameters after the first (the
/// one naming the domain): the string to sign and the URL depend only on which
/// parameters there are.
pub proof fn lemma_signature_order_free(
    a: Seq<(Seq<char>, Seq<char>)>,
    b: Seq<(Seq<char>, Seq<char>)>,
    access_id: Seq<char>,
    sig_key: Seq<char>,
    nonce: Seq<char>,
    stamp: Seq<char>,
)
    requires
        a.len() > 0,
        b.len() > 0,
        a[0] == b[0],
        a.skip(1).to_multiset() == b.skip(1).to_multiset(),
    ensures
        string_to_sign(signed_params(a, access_id, nonce, stamp)) == string_to_sign(
            signed_params(b, access_id, nonce, stamp),
        ),
        request_url_spec(a, access_id, sig_key, nonce, stamp) == request_url_spec(
            b,
            access_id,
            sig_key,
            nonce,
            stamp,
        ),
{
    let leq = pair_order();
    let fixed = seq![
        ("AccessKeyId"@, access_id),
        ("SignatureMethod"@, "HMAC-SHA1"@),
        ("SignatureVersion"@, "1.0"@),
        ("SignatureNonce"@, nonce),
        ("Format"@, "JSON"@),
        ("Timestamp"@, stamp),
    ];
    let all_a = signed_params(a, access_id, nonce, stamp);
    let all_b = signed_params(b, access_id, nonce, stamp);
    assert(all_a.skip(1) =~= a.skip(1) + fixed);
    assert(all_b.skip(1) =~= b.skip(1) + fixed);
    vstd::seq_lib::lemma_multiset_commutative(a.skip(1), fixed);
    vstd::seq_lib::lemma_multiset_commutative(b.skip(1), fixed);
    lemma_pair_order_total();
    all_a.skip(1).lemma_sort_by_ensures(leq);
    all_b.skip(1).lemma_sort_by_ensures(leq);
    vstd::seq_lib::lemma_sorted_unique(all_a.skip(1).sort_by(leq), all_b.skip(1).sort_by(leq), leq);
    assert(canonical_query(all_a) == canonical_query(all_b));
    assert(all_a[0] == all_b[0]);
}

} // verus!
