use vstd::prelude::*;

use crate::clock::timestamp_as_secs;
use crate::encode::{
    generate_nonce, hex_lower, sign_base_string, signature_of, url_encode, url_encoded_str,
};
use crate::text::chars_of;

verus! {

broadcast use vstd::string::group_string_axioms;

/// Consumer and access-token credentials of the stream account.
pub struct Credentials {
    pub consumer_key: String,
    pub consumer_key_secret: String,
    pub token: String,
    pub token_secret: String,
}

/// A request parameter: key and value.
pub type Param = (Vec<char>, Vec<char>);

pub open spec fn param_view(p: Param) -> (Seq<char>, Seq<char>) {
    (p.0@, p.1@)
}

pub open spec fn params_view(ps: Seq<Param>) -> Seq<(Seq<char>, Seq<char>)> {
    ps.map_values(|p: Param| param_view(p))
}

/// `a` orders before `b`, character by character.
pub open spec fn chars_lt(a: Seq<char>, b: Seq<char>) -> bool {
    exists|i: int| 0 <= i <= a.len() && i <= b.len() && a.take(i) == b.take(i) && #[trigger] lt_at(a, b, i)
}

/// `a` and `b` first differ at `i`, where `a` is lower or has ended.
pub open spec fn lt_at(a: Seq<char>, b: Seq<char>, i: int) -> bool {
    (i < a.len() && i < b.len() && a[i] < b[i]) || (i == a.len() && i < b.len())
}

/// Number of leading parameters whose key orders before `k`: where `k` goes
/// in a list sorted by key.
pub open spec fn key_pos(ps: Seq<(Seq<char>, Seq<char>)>, k: Seq<char>) -> nat
    decreases ps.len(),
{
    if ps.len() > 0 && chars_lt(ps[0].0, k) {
        1 + key_pos(ps.drop_first(), k)
    } else {
        0
    }
}

/// Sets `k` to `v` in a list sorted by key: the entry with key `k` gets the
/// new value, or a new entry goes in at its place.
pub open spec fn insert_param(ps: Seq<(Seq<char>, Seq<char>)>, k: Seq<char>, v: Seq<char>) -> Seq<(Seq<char>, Seq<char>)> {
    let i = key_pos(ps, k) as int;
    if i < ps.len() && ps[i].0 == k {
        ps.update(i, (k, v))
    } else {
        ps.insert(i, (k, v))
    }
}

/// `ps` without its entries of key `k`.
pub open spec fn remove_param(ps: Seq<(Seq<char>, Seq<char>)>, k: Seq<char>) -> Seq<(Seq<char>, Seq<char>)>
    decreases ps.len(),
{
    if ps.len() == 0 {
        Seq::empty()
    } else if ps.last().0 == k {
        remove_param(ps.drop_last(), k)
    } else {
        remove_param(ps.drop_last(), k).push(ps.last())
    }
}

/// `k=v`, or `k="v"` when quoted.
pub open spec fn param_text(p: (Seq<char>, Seq<char>), quoted: bool) -> Seq<char> {
    if quoted {
        p.0 + seq!['=', '"'] + p.1 + seq!['"']
    } else {
        p.0 + seq!['='] + p.1
    }
}

pub open spec fn separator(quoted: bool) -> Seq<char> {
    if quoted {
        seq![',', ' ']
    } else {
        seq!['&']
    }
}

/// The parameters rendered in order, joined by `&`, or by `, ` when quoted.
pub open spec fn render_params(ps: Seq<(Seq<char>, Seq<char>)>, quoted: bool) -> Seq<char>
    decreases ps.len(),
{
    if ps.len() == 0 {
        Seq::empty()
    } else if ps.len() == 1 {
        param_text(ps[0], quoted)
    } else {
        render_params(ps.drop_last(), quoted) + separator(quoted) + param_text(ps.last(), quoted)
    }
}

/// The OAuth parameters other than the signature, sorted by key.
pub open spec fn oauth_params(ck: Seq<char>, nonce: Seq<char>, ts: Seq<char>, token: Seq<char>) -> Seq<(Seq<char>, Seq<char>)> {
    seq![
        ("oauth_consumer_key"@, ck),
        ("oauth_nonce"@, nonce),
        ("oauth_signature_method"@, "HMAC-SHA1"@),
        ("oauth_timestamp"@, ts),
        ("oauth_token"@, token),
        ("oauth_version"@, "1.0"@),
    ]
}

/// The parameters that are signed: the OAuth ones and the query parameter,
/// whose value is percent-encoded.
pub open spec fn signed_params(c: Credentials, nonce: Seq<char>, ts: Seq<char>, qk: Seq<char>, qv: Seq<char>) -> Seq<(Seq<char>, Seq<char>)> {
    insert_param(oauth_params(c.consumer_key@, nonce, ts, c.token@), qk, url_encoded_str(qv))
}

/// `METHOD&enc(url)&enc(params)`.
pub open spec fn signature_base(method: Seq<char>, url: Seq<char>, params: Seq<char>) -> Seq<char> {
    method + seq!['&'] + url_encoded_str(url) + seq!['&'] + url_encoded_str(params)
}

/// The authorization header for one request.
pub open spec fn oauth_header(c: Credentials, method: Seq<char>, url: Seq<char>, qk: Seq<char>, qv: Seq<char>, nonce: Seq<char>, ts: Seq<char>) -> Seq<char> {
    let ps = signed_params(c, nonce, ts, qk, qv);
    let base = signature_base(method, url, render_params(ps, false));
    let sig = signature_of(c.consumer_key_secret@, c.token_secret@, base);
    "OAuth "@ + render_params(remove_param(insert_param(ps, "oauth_signature"@, sig), qk), true)
}

/// Decimal digits of `n`, without leading zeros.
pub open spec fn decimal_chars(n: nat) -> Seq<char>
    decreases n,
{
    if n < 10 {
        seq![(n + 48) as char]
    } else {
        decimal_chars(n / 10) + seq![((n % 10) + 48) as char]
    }
}

/// `n` in decimal.
pub fn decimal_text(n: u64) -> (r: String)
    ensures
        r@ == decimal_chars(n as nat),
    decreases n,
{
    let digit = ((n % 10) as u8 + 48) as char;
    if n < 10 {
        let mut s = String::new();
        s.push(digit);
        s
    } else {
        let mut s = decimal_text(n / 10);
        s.push(digit);
        s
    }
}

/// Whether `a` and `b` hold the same characters.
fn chars_equal(a: &Vec<char>, b: &Vec<char>) -> (r: bool)
    ensures
        r == (a@ == b@),
{
    if a.len() != b.len() {
        return false;
    }
    let mut i: usize = 0;
    while i < a.len()
        invariant
            a@.len() == b@.len(),
            i <= a@.len(),
            forall|j: int| 0 <= j < i ==> a@[j] == b@[j],
        decreases a.len() - i,
    {
        if a[i] != b[i] {
            return false;
        }
        i = i + 1;
    }
    assert(a@ =~= b@);
    true
}

/// Whether `a` orders before `b`.
fn chars_less(a: &Vec<char>, b: &Vec<char>) -> (r: bool)
    ensures
        r == chars_lt(a@, b@),
{
    let mut i: usize = 0;
    while i < a.len() && i < b.len() && a[i] == b[i]
        invariant
            i <= a@.len(),
            i <= b@.len(),
            forall|j: int| 0 <= j < i ==> a@[j] == b@[j],
        decreases a.len() - i,
    {
        i = i + 1;
    }
    let r = if i < a.len() && i < b.len() {
        a[i] < b[i]
    } else {
        i == a.len() && i < b.len()
    };
    assert(a@.take(i as int) =~= b@.take(i as int));
    assert(r == lt_at(a@, b@, i as int));
    assert forall|j: int| 0 <= j <= a@.len() && j <= b@.len() && a@.take(j) == b@.take(j) && lt_at(a@, b@, j) implies j == i by {
        if j < i {
            assert(a@[j] == b@[j]);
        } else if j > i {
            assert(a@.take(j)[i as int] == b@.take(j)[i as int]);
        }
    }
    r
}

/// Sets the parameter `k` to `v`, keeping the list sorted by key.
fn insert_sorted(ps: &mut Vec<Param>, k: Vec<char>, v: Vec<char>)
    ensures
        params_view(final(ps)@) == insert_param(params_view(old(ps)@), k@, v@),
{
    let ghost m = params_view(ps@);
    assert(m.skip(0) =~= m);
    let mut i: usize = 0;
    while i < ps.len() && chars_less(&ps[i].0, &k)
        invariant
            m == params_view(ps@),
            i <= ps@.len(),
            key_pos(m, k@) == i + key_pos(m.skip(i as int), k@),
        decreases ps.len() - i,
    {
        assert(m.skip(i as int).drop_first() =~= m.skip(i + 1));
        i = i + 1;
    }
    if i < ps.len() {
        assert(m.skip(i as int)[0] == m[i as int]);
    }
    assert(key_pos(m, k@) == i);
    let ghost kv = (k@, v@);
    if i < ps.len() && chars_equal(&ps[i].0, &k) {
        ps.set(i, (k, v));
        assert(params_view(ps@) =~= m.update(i as int, kv));
    } else {
        ps.insert(i, (k, v));
        assert(params_view(ps@) =~= m.insert(i as int, kv));
    }
}

/// The parameters without those of key `k`.
fn without_key(ps: &Vec<Param>, k: &Vec<char>) -> (r: Vec<Param>)
    ensures
        params_view(r@) == remove_param(params_view(ps@), k@),
{
    let ghost m = params_view(ps@);
    let mut r: Vec<Param> = Vec::new();
    let mut i: usize = 0;
    while i < ps.len()
        invariant
            m == params_view(ps@),
            i <= ps@.len(),
            params_view(r@) == remove_param(m.take(i as int), k@),
        decreases ps.len() - i,
    {
        assert(m.take(i + 1).drop_last() =~= m.take(i as int));
        if !chars_equal(&ps[i].0, k) {
            let p = (ps[i].0.clone(), ps[i].1.clone());
            let ghost before = r@;
            r.push(p);
            assert(params_view(r@) =~= params_view(before).push(m[i as int]));
        }
        i = i + 1;
    }
    assert(m.take(i as int) =~= m);
    r
}

/// Appends the characters `cs`.
fn push_chars(s: &mut String, cs: &Vec<char>)
    ensures
        final(s)@ == old(s)@ + cs@,
{
    let mut i: usize = 0;
    while i < cs.len()
        invariant
            i <= cs@.len(),
            s@ == old(s)@ + cs@.take(i as int),
        decreases cs.len() - i,
    {
        s.push(cs[i]);
        assert(cs@.take(i + 1) =~= cs@.take(i as int).push(cs@[i as int]));
        i = i + 1;
    }
    assert(cs@.take(i as int) =~= cs@);
}

/// Renders the parameters as `k=v` joined by `&`, or as `k="v"` joined by
/// `, ` when quoted.
fn render(ps: &Vec<Param>, quoted: bool) -> (r: String)
    ensures
        r@ == render_params(params_view(ps@), quoted),
{
    let ghost m = params_view(ps@);
    let mut r = String::new();
    let mut i: usize = 0;
    while i < ps.len()
        invariant
            m == params_view(ps@),
            i <= ps@.len(),
            r@ == render_params(m.take(i as int), quoted),
        decreases ps.len() - i,
    {
        assert(m.take(i + 1).drop_last() =~= m.take(i as int));
        let ghost before = r@;
        if i > 0 {
            if quoted {
                r.push(',');
                r.push(' ');
            } else {
                r.push('&');
            }
        }
        push_chars(&mut r, &ps[i].0);
        r.push('=');
        if quoted {
            r.push('"');
        }
        push_chars(&mut r, &ps[i].1);
        if quoted {
            r.push('"');
        }
        proof {
            let item = param_text(m[i as int], quoted);
            if i > 0 {
                assert(r@ =~= before + separator(quoted) + item);
            } else {
                assert(r@ =~= item);
            }
        }
        i = i + 1;
    }
    assert(m.take(i as int) =~= m);
    r
}

/// A parameter from two strings.
fn param(k: &str, v: &str) -> (r: Param)
    ensures
        param_view(r) == (k@, v@),
{
    (chars_of(k), chars_of(v))
}

/// The authorization header for a request, with the nonce and timestamp
/// given: the same inputs always give the same header.
pub fn header_with(
    credentials: &Credentials,
    method: &str,
    url: &str,
    query: (&str, &str),
    nonce: &str,
    timestamp: &str,
) -> (r: String)
    ensures
        r@ == oauth_header(*credentials, method@, url@, query.0@, query.1@, nonce@, timestamp@),
{
    let query_value = url_encode(query.1);
    let mut params: Vec<Param> = Vec::new();
    params.push(param("oauth_consumer_key", credentials.consumer_key.as_str()));
    params.push(param("oauth_nonce", nonce));
    params.push(param("oauth_signature_method", "HMAC-SHA1"));
    params.push(param("oauth_timestamp", timestamp));
    params.push(param("oauth_token", credentials.token.as_str()));
    params.push(param("oauth_version", "1.0"));
    assert(params_view(params@) =~= oauth_params(credentials.consumer_key@, nonce@, timestamp@, credentials.token@));
    let query_key = chars_of(query.0);
    insert_sorted(&mut params, query_key.clone(), chars_of(query_value.as_str()));
    let parameter_string = render(&params, false);
    let mut base_string = String::new();
    base_string.append(method);
    base_string.push('&');
    let encoded_url = url_encode(url);
    base_string.append(encoded_url.as_str());
    base_string.push('&');
    let encoded_params = url_encode(parameter_string.as_str());
    base_string.append(encoded_params.as_str());
    assert(base_string@ =~= signature_base(method@, url@, parameter_string@));
    let signature = sign_base_string(
        credentials.consumer_key_secret.as_str(),
        credentials.token_secret.as_str(),
        base_string.as_str(),
    );
    insert_sorted(&mut params, chars_of("oauth_signature"), chars_of(signature.as_str()));
    let header_params = without_key(&params, &query_key);
    let rendered = render(&header_params, true);
    let mut header = String::new();
    header.append("OAuth ");
    header.append(rendered.as_str());
    header
}

/// The header depends on the credentials, method, URL, query, nonce and
/// timestamp alone: inputs with the same text give the same header.
pub proof fn lemma_header_deterministic(
    c1: Credentials,
    c2: Credentials,
    method: Seq<char>,
    url: Seq<char>,
    qk: Seq<char>,
    qv: Seq<char>,
    nonce: Seq<char>,
    ts: Seq<char>,
)
    requires
        c1.consumer_key@ == c2.consumer_key@,
        c1.consumer_key_secret@ == c2.consumer_key_secret@,
        c1.token@ == c2.token@,
        c1.token_secret@ == c2.token_secret@,
    ensures
        oauth_header(c1, method, url, qk, qv, nonce, ts) == oauth_header(c2, method, url, qk, qv, nonce, ts),
{
}

/// The authorization header for a request, with a fresh nonce and the
/// current time; `None` where the system's random source fails.
pub fn header(credentials: &Credentials, method: &str, url: &str, query: (&str, &str)) -> (r: Option<String>)
    ensures
        r matches Some(h) ==> exists|nonce: Seq<u8>, ts: nat|
            nonce.len() == 16 && h@ == oauth_header(*credentials, method@, url@, query.0@, query.1@, hex_lower(nonce), decimal_chars(ts)),
{
    let nonce = match generate_nonce() {
        Some(n) => n,
        None => {
            return None;
        },
    };
    let timestamp = decimal_text(timestamp_as_secs());
    let h = header_with(credentials, method, url, query, nonce.as_str(), timestamp.as_str());
    Some(h)
}

} // verus!
