//! Masking secrets in JSON before it is handed to the model, and projecting
//! records down to a few fields.
//!
//! The MCP layer is the trust boundary to the LLM: secret fields (`apiKey`,
//! `password`, `token`, ...) and URLs with embedded credentials
//! (`https://host/dl?apikey=...`) must be masked before a value is returned.

use vstd::prelude::*;
use crate::json::{member, Json, JsonValue};
use crate::text::{
    ascii_lower_seq, join, join_strings, lemma_join_avoids, lemma_pieces_avoid, lemma_pieces_len,
    lemma_split_join_from, lemma_split_once_at, lemma_split_once_parts, push_char, push_str, split_once,
    split_once_str, split_pieces, split_str, str_eq, to_ascii_lower,
};
use vstd::string::*;

verus! {

/// Placeholder substituted for a redacted secret value.
pub const REDACTED: &'static str = "********";

/// Object keys (lower case) whose string value is always a secret.
pub open spec fn sensitive_keys() -> Seq<Seq<char>> {
    seq!["apikey"@, "api_key"@, "apitoken"@, "token"@, "password"@, "passkey"@]
}

/// Query-string parameter names (lower case) that carry secrets.
pub open spec fn sensitive_query_keys() -> Seq<Seq<char>> {
    seq!["apikey"@, "api_key"@, "apitoken"@, "token"@, "passkey"@]
}

/// The lower-case object keys that name a secret, spelled out.
pub open spec fn secret_key_name(l: Seq<char>) -> bool {
    ||| l == "apikey"@
    ||| l == "api_key"@
    ||| l == "apitoken"@
    ||| l == "token"@
    ||| l == "password"@
    ||| l == "passkey"@
}

/// Whether an object key names a secret (ASCII case-insensitive).
pub open spec fn sensitive_key(key: Seq<char>) -> bool {
    sensitive_keys().contains(ascii_lower_seq(key))
}

/// Whether a query-parameter name carries a secret (ASCII case-insensitive).
pub open spec fn sensitive_query_key(key: Seq<char>) -> bool {
    sensitive_query_keys().contains(ascii_lower_seq(key))
}

/// `s` with ASCII letters lowered.
fn lowercase(s: &str) -> (r: String)
    ensures
        r@ == ascii_lower_seq(s@),
{
    let n = s.unicode_len();
    let mut r = String::new();
    let mut i: usize = 0;
    while i < n
        invariant
            i <= n,
            n == s@.len(),
            r@ == ascii_lower_seq(s@.subrange(0, i as int)),
        decreases n - i,
    {
        push_char(&mut r, to_ascii_lower(s.get_char(i)));
        assert(ascii_lower_seq(s@.subrange(0, i + 1)) =~= ascii_lower_seq(s@.subrange(0, i as int)).push(
            crate::text::ascii_lower(s@[i as int]),
        ));
        i = i + 1;
    }
    assert(s@.subrange(0, n as int) =~= s@);
    r
}

/// True when an object key names a secret (case-insensitive).
pub fn is_sensitive_key(key: &str) -> (r: bool)
    ensures
        r == sensitive_key(key@),
        r == secret_key_name(ascii_lower_seq(key@)),
{
    let lower = lowercase(key);
    let l = lower.as_str();
    let ghost ks = sensitive_keys();
    let r = str_eq(l, "apikey") || str_eq(l, "api_key") || str_eq(l, "apitoken") || str_eq(l, "token")
        || str_eq(l, "password") || str_eq(l, "passkey");
    proof {
        if r {
            if l@ == "apikey"@ {
                assert(ks[0] == l@);
            } else if l@ == "api_key"@ {
                assert(ks[1] == l@);
            } else if l@ == "apitoken"@ {
                assert(ks[2] == l@);
            } else if l@ == "token"@ {
                assert(ks[3] == l@);
            } else if l@ == "password"@ {
                assert(ks[4] == l@);
            } else {
                assert(ks[5] == l@);
            }
        } else {
            assert forall|i: int| 0 <= i < ks.len() implies ks[i] != l@ by {}
        }
    }
    r
}

/// True when a URL query-parameter name carries a secret (case-insensitive).
pub fn is_sensitive_query_key(key: &str) -> (r: bool)
    ensures
        r == sensitive_query_key(key@),
{
    let lower = lowercase(key);
    let l = lower.as_str();
    let ghost ks = sensitive_query_keys();
    let r = str_eq(l, "apikey") || str_eq(l, "api_key") || str_eq(l, "apitoken") || str_eq(l, "token")
        || str_eq(l, "passkey");
    proof {
        if r {
            if l@ == "apikey"@ {
                assert(ks[0] == l@);
            } else if l@ == "api_key"@ {
                assert(ks[1] == l@);
            } else if l@ == "apitoken"@ {
                assert(ks[2] == l@);
            } else if l@ == "token"@ {
                assert(ks[3] == l@);
            } else {
                assert(ks[4] == l@);
            }
        } else {
            assert forall|i: int| 0 <= i < ks.len() implies ks[i] != l@ by {}
        }
    }
    r
}

/// Whether a `key=value` pair of a query names a secret.
pub open spec fn pair_is_sensitive(pair: Seq<char>) -> bool {
    match split_once(pair, '=') {
        Some((key, _)) => sensitive_query_key(key),
        None => false,
    }
}

/// A query pair with its value masked when its key names a secret.
pub open spec fn redact_pair(pair: Seq<char>) -> Seq<char> {
    match split_once(pair, '=') {
        Some((key, _)) => if sensitive_query_key(key) {
            key + "="@ + REDACTED@
        } else {
            pair
        },
        None => pair,
    }
}

/// The query of the part after `?`: up to the first `#`.
pub open spec fn query_part(rest: Seq<char>) -> Seq<char> {
    match split_once(rest, '#') {
        Some((q, _)) => q,
        None => rest,
    }
}

/// The fragment of the part after `?`, with its `#`, or nothing.
pub open spec fn fragment_part(rest: Seq<char>) -> Seq<char> {
    match split_once(rest, '#') {
        Some((_, f)) => "#"@ + f,
        None => seq![],
    }
}

/// `s` with the value of every sensitive query parameter masked. The query
/// starts after the first `?` and ends at the first `#` after it; its pairs
/// are separated by `&`, and a pair's key ends at its first `=`. A string
/// without a query, or whose query names no secret, is left as is.
#[verifier::opaque]
pub open spec fn redact_query(s: Seq<char>) -> Seq<char> {
    match split_once(s, '?') {
        None => s,
        Some((base, rest)) => {
            let pairs = split_pieces(query_part(rest), '&');
            if exists|i: int| 0 <= i < pairs.len() && pair_is_sensitive(#[trigger] pairs[i]) {
                base + "?"@ + join(pairs.map_values(|p: Seq<char>| redact_pair(p)), "&"@) + fragment_part(rest)
            } else {
                s
            }
        },
    }
}

/// Masks the value of every sensitive query parameter within `s` in place.
///
/// Splits on `?`, then on `&`, and for each `key=value` pair whose key is a
/// sensitive query key replaces the value with `********`. A trailing
/// `#fragment` is preserved. Strings without a query are left as they are.
pub fn redact_query_params(s: &mut String)
    ensures
        final(s)@ == redact_query(old(s)@),
{
    proof {
        reveal(redact_query);
    }
    let (base, rest) = match split_once_str(s.as_str(), '?') {
        Some(parts) => parts,
        None => {
            return;
        },
    };
    let ghost base0 = base@;
    let ghost rest0 = rest@;
    assert(split_once(old(s)@, '?') == Some((base0, rest0)));
    let (query, fragment) = match split_once_str(rest.as_str(), '#') {
        Some((q, f)) => {
            assert(fragment_part(rest@) == "#"@ + f@);
            (q, Some(f))
        },
        None => {
            assert(fragment_part(rest@) == Seq::<char>::empty());
            (rest.clone(), None)
        },
    };
    assert(query@ == query_part(rest@));
    let ghost tail = fragment_part(rest@);
    assert(match fragment {
        Some(f) => tail == "#"@ + f@,
        None => tail == Seq::<char>::empty(),
    });
    let pairs = split_str(query.as_str(), '&');
    let ghost all = pairs@.map_values(|p: String| p@);
    let mut changed = false;
    let mut out: Vec<String> = Vec::new();
    let mut i: usize = 0;
    while i < pairs.len()
        invariant
            i <= pairs.len(),
            all == pairs@.map_values(|p: String| p@),
            out@.map_values(|p: String| p@) == all.subrange(0, i as int).map_values(
                |p: Seq<char>| redact_pair(p),
            ),
            changed == exists|k: int| 0 <= k < i && pair_is_sensitive(#[trigger] all[k]),
        decreases pairs.len() - i,
    {
        let pair = &pairs[i];
        let ghost before = out@.map_values(|p: String| p@);
        assert(all[i as int] == pair@);
        match split_once_str(pair.as_str(), '=') {
            Some((key, _value)) => {
                if is_sensitive_query_key(key.as_str()) {
                    changed = true;
                    let mut masked = key;
                    push_str(&mut masked, "=");
                    push_str(&mut masked, REDACTED);
                    out.push(masked);
                } else {
                    out.push(pair.clone());
                }
            },
            None => {
                out.push(pair.clone());
            },
        }
        assert(out@.map_values(|p: String| p@) =~= before.push(redact_pair(pair@)));
        assert(all.subrange(0, i + 1).map_values(|p: Seq<char>| redact_pair(p)) =~= all.subrange(
            0,
            i as int,
        ).map_values(|p: Seq<char>| redact_pair(p)).push(redact_pair(all[i as int])));
        i = i + 1;
    }
    assert(all.subrange(0, i as int) =~= all);
    if !changed {
        return;
    }
    assert(out@.map_values(|p: String| p@) =~= all.map_values(|p: Seq<char>| redact_pair(p)));
    assert(all == split_pieces(query_part(rest@), '&'));
    let new_query = join_strings(&out, "&");
    let mut rebuilt = base;
    push_str(&mut rebuilt, "?");
    push_str(&mut rebuilt, new_query.as_str());
    if let Some(frag) = fragment {
        push_str(&mut rebuilt, "#");
        push_str(&mut rebuilt, frag.as_str());
    }
    assert(rebuilt@ =~= base0 + "?"@ + new_query@ + tail);
    assert(i == all.len());
    assert(exists|k: int| 0 <= k < all.len() && pair_is_sensitive(#[trigger] all[k]));
    assert(rebuilt@ =~= redact_query(old(s)@));
    *s = rebuilt;
}

/// `j` with its secrets masked: every string has its sensitive query
/// parameters masked, every object member whose key names a secret and whose
/// value is a string gets `********`, and arrays and the other members are
/// walked recursively.
pub open spec fn redact(j: Json) -> Json
    decreases j,
{
    match j {
        Json::Str(s) => Json::Str(redact_query(s)),
        Json::Array(items) => Json::Array(
            Seq::new(
                items.len(),
                |i: int|
                    if 0 <= i < items.len() {
                        proof {
                            assert(decreases_to!(items => items[i]));
                        }
                        redact(items[i])
                    } else {
                        Json::Null
                    },
            ),
        ),
        Json::Object(members) => Json::Object(
            Seq::new(
                members.len(),
                |i: int|
                    if 0 <= i < members.len() {
                        proof {
                            assert(decreases_to!(members => members[i]));
                            assert(decreases_to!(members[i] => members[i].1));
                        }
                        (
                            members[i].0,
                            if sensitive_key(members[i].0) && members[i].1 is Str {
                                Json::Str(REDACTED@)
                            } else {
                                redact(members[i].1)
                            },
                        )
                    } else {
                        (seq![], Json::Null)
                    },
            ),
        ),
        _ => j,
    }
}

/// Whether the member `out` is the member `orig` with its secrets masked.
pub open spec fn member_redacted(out: (String, JsonValue), orig: (String, JsonValue)) -> bool {
    &&& out.0@ == orig.0@
    &&& out.1.model() == (if sensitive_key(orig.0@) && orig.1 is Str {
        Json::Str(REDACTED@)
    } else {
        redact(orig.1.model())
    })
}

/// `v` with its secrets masked.
fn redacted(v: JsonValue) -> (r: JsonValue)
    ensures
        r.model() == redact(v.model()),
    decreases v,
{
    let ghost v0 = v;
    match v {
        JsonValue::Str(s) => {
            let mut s = s;
            let ghost s0 = s@;
            assert(v0.model() == Json::Str(s0));
            redact_query_params(&mut s);
            let r = JsonValue::Str(s);
            assert(r.model() == Json::Str(redact_query(s0)));
            assert(redact(v0.model()) == Json::Str(redact_query(s0)));
            assert(v0 == v);
            r
        },
        JsonValue::Array(items) => {
            let ghost orig = items@;
            let n = items.len();
            proof {
                assert forall|j: int| 0 <= j < n implies decreases_to!(v0 => #[trigger] orig[j]) by {
                    assert(decreases_to!(v0 => items));
                    assert(decreases_to!(items => items@));
                    assert(decreases_to!(items@ => items@[j]));
                }
            }
            let mut rest = items;
            let mut rev: Vec<JsonValue> = Vec::new();
            while rest.len() > 0
                invariant
                    n == orig.len(),
                    rest@.len() + rev@.len() == n,
                    rest@ == orig.subrange(0, rest@.len() as int),
                    forall|j: int| 0 <= j < rev@.len() ==> #[trigger] rev@[j] == orig[n - 1 - j],
                decreases rest@.len(),
            {
                let x = rest.pop().unwrap();
                rev.push(x);
            }
            let mut out: Vec<JsonValue> = Vec::new();
            while rev.len() > 0
                invariant
                    n == orig.len(),
                    out@.len() + rev@.len() == n,
                    forall|j: int| 0 <= j < rev@.len() ==> #[trigger] rev@[j] == orig[n - 1 - j],
                    forall|j: int| 0 <= j < out@.len() ==> #[trigger] out@[j].model() == redact(orig[j].model()),
                    forall|j: int| 0 <= j < n ==> decreases_to!(v0 => #[trigger] orig[j]),
                    v0 == v,
                decreases rev@.len(),
            {
                let x = rev.pop().unwrap();
                let y = redacted(x);
                out.push(y);
            }
            let r = JsonValue::Array(out);
            proof {
                let got = r.model()->Array_0;
                let want = redact(v0.model())->Array_0;
                assert(v0.model()->Array_0.len() == n);
                assert forall|i: int| 0 <= i < n implies got[i] == want[i] by {
                    assert(v0.model()->Array_0[i] == orig[i].model());
                    assert(got[i] == out@[i].model());
                }
                assert(got =~= want);
            }
            r
        },
        JsonValue::Object(members) => {
            let ghost orig = members@;
            let n = members.len();
            proof {
                assert forall|j: int| 0 <= j < n implies decreases_to!(v0 => #[trigger] orig[j].1) by {
                    assert(decreases_to!(v0 => members));
                    assert(decreases_to!(members => members@));
                    assert(decreases_to!(members@ => members@[j]));
                    assert(decreases_to!(members@[j] => members@[j].1));
                }
            }
            let mut rest = members;
            let mut rev: Vec<(String, JsonValue)> = Vec::new();
            while rest.len() > 0
                invariant
                    n == orig.len(),
                    rest@.len() + rev@.len() == n,
                    rest@ == orig.subrange(0, rest@.len() as int),
                    forall|j: int| 0 <= j < rev@.len() ==> #[trigger] rev@[j] == orig[n - 1 - j],
                decreases rest@.len(),
            {
                let x = rest.pop().unwrap();
                rev.push(x);
            }
            let mut out: Vec<(String, JsonValue)> = Vec::new();
            while rev.len() > 0
                invariant
                    n == orig.len(),
                    out@.len() + rev@.len() == n,
                    forall|j: int| 0 <= j < rev@.len() ==> #[trigger] rev@[j] == orig[n - 1 - j],
                    forall|j: int| 0 <= j < out@.len() ==> member_redacted(#[trigger] out@[j], orig[j]),
                    forall|j: int| 0 <= j < n ==> decreases_to!(v0 => #[trigger] orig[j].1),
                    v0 == v,
                decreases rev@.len(),
            {
                let ghost k = out@.len() as int;
                let (key, val) = rev.pop().unwrap();
                assert(key@ == orig[k].0@ && val == orig[k].1);
                let masked = match &val {
                    JsonValue::Str(_) => is_sensitive_key(key.as_str()),
                    _ => false,
                };
                if masked {
                    let red = JsonValue::Str(String::from_str(REDACTED));
                    assert(red.model() == Json::Str(REDACTED@));
                    out.push((key, red));
                } else {
                    let y = redacted(val);
                    out.push((key, y));
                }
                assert(member_redacted(out@[k], orig[k]));
            }
            let r = JsonValue::Object(out);
            assert(r.model()->Object_0 =~= redact(v0.model())->Object_0);
            r
        },
        other => other,
    }
}

/// Recursively masks secrets in a JSON value in place: string values that
/// look like URLs get their sensitive query parameters masked, and object
/// members whose key names a secret have their string value replaced with
/// `********`.
pub fn redact_secrets(value: &mut JsonValue)
    ensures
        final(value).model() == redact(old(value).model()),
{
    let mut v = JsonValue::Null;
    std::mem::swap(&mut v, value);
    *value = redacted(v);
}

/// The members of an object as `(name, document)` pairs.
pub open spec fn members_model(m: Seq<(String, JsonValue)>) -> Seq<(Seq<char>, Json)> {
    Seq::new(m.len(), |i: int| (m[i].0@, m[i].1.model()))
}

/// The members kept when `members` is projected onto `keys`, in order: the
/// first member of each name that `keys` lists.
pub open spec fn projected(members: Seq<(Seq<char>, Json)>, keys: Seq<Seq<char>>) -> Seq<(Seq<char>, Json)>
    decreases members.len(),
{
    if members.len() == 0 {
        seq![]
    } else {
        let prev = projected(members.drop_last(), keys);
        let m = members.last();
        if keys.contains(m.0) && member(prev, m.0) is None {
            prev.push(m)
        } else {
            prev
        }
    }
}

/// An object projected onto `keys`; any other document as it is.
pub open spec fn project(j: Json, keys: Seq<Seq<char>>) -> Json {
    match j {
        Json::Object(members) => Json::Object(projected(members, keys)),
        _ => j,
    }
}

/// A member named `key` is found exactly when some member has that name.
pub proof fn lemma_member_some(ms: Seq<(Seq<char>, Json)>, key: Seq<char>)
    ensures
        member(ms, key) is Some <==> exists|i: int| 0 <= i < ms.len() && (#[trigger] ms[i]).0 == key,
    decreases ms.len(),
{
    if ms.len() > 0 {
        lemma_member_some(ms.drop_first(), key);
        if member(ms.drop_first(), key) is Some {
            let i = choose|i: int| 0 <= i < ms.drop_first().len() && (#[trigger] ms.drop_first()[i]).0 == key;
            assert(ms[i + 1] == ms.drop_first()[i]);
        }
        if exists|i: int| 0 <= i < ms.len() && (#[trigger] ms[i]).0 == key {
            let i = choose|i: int| 0 <= i < ms.len() && (#[trigger] ms[i]).0 == key;
            if i > 0 {
                assert(ms.drop_first()[i - 1] == ms[i]);
            }
        }
    }
}

/// Looking a name up after appending a member: an earlier member of that
/// name wins, else the appended one if it has the name.
pub proof fn lemma_member_push(ms: Seq<(Seq<char>, Json)>, m: (Seq<char>, Json), key: Seq<char>)
    ensures
        member(ms.push(m), key) == (if member(ms, key) is Some {
            member(ms, key)
        } else if m.0 == key {
            Some(m.1)
        } else {
            None
        }),
    decreases ms.len(),
{
    if ms.len() > 0 {
        assert(ms.push(m)[0] == ms[0]);
        assert(ms.push(m).drop_first() =~= ms.drop_first().push(m));
        lemma_member_push(ms.drop_first(), m, key);
    } else {
        assert(ms.push(m)[0] == m);
        assert(ms.push(m).drop_first() =~= Seq::<(Seq<char>, Json)>::empty());
        assert(member(ms.push(m).drop_first(), key) is None);
        assert(member(ms, key) is None);
    }
}

/// Whether `members` has a member named `key`.
fn has_member(members: &Vec<(String, JsonValue)>, key: &str) -> (r: bool)
    ensures
        r == member(members_model(members@), key@) is Some,
{
    let ghost ms = members_model(members@);
    let mut i: usize = 0;
    while i < members.len()
        invariant
            i <= members.len(),
            ms == members_model(members@),
            forall|k: int| 0 <= k < i ==> (#[trigger] ms[k]).0 != key@,
        decreases members.len() - i,
    {
        if str_eq(members[i].0.as_str(), key) {
            assert(ms[i as int].0 == key@);
            proof {
                lemma_member_some(ms, key@);
            }
            return true;
        }
        i = i + 1;
    }
    proof {
        lemma_member_some(ms, key@);
    }
    false
}

/// Whether `keys` lists `key`.
fn lists_key(keys: &[&str], key: &str) -> (r: bool)
    ensures
        r == keys@.map_values(|k: &str| k@).contains(key@),
{
    let ghost ks = keys@.map_values(|k: &str| k@);
    let mut i: usize = 0;
    while i < keys.len()
        invariant
            i <= keys.len(),
            ks == keys@.map_values(|k: &str| k@),
            forall|k: int| 0 <= k < i ==> #[trigger] ks[k] != key@,
        decreases keys.len() - i,
    {
        if str_eq(keys[i], key) {
            assert(ks[i as int] == key@);
            return true;
        }
        i = i + 1;
    }
    false
}

/// Projects a JSON object down to the whitelisted `keys` (missing keys are
/// skipped); non-objects are returned unchanged.
pub fn project_fields(value: JsonValue, keys: &[&str]) -> (r: JsonValue)
    ensures
        r.model() == project(value.model(), keys@.map_values(|k: &str| k@)),
{
    let ghost v0 = value;
    let ghost ks = keys@.map_values(|k: &str| k@);
    match value {
        JsonValue::Object(members) => {
            let ghost orig = members@;
            let ghost om = members_model(orig);
            assert(v0.model()->Object_0 =~= om);
            let n = members.len();
            let mut rest = members;
            let mut rev: Vec<(String, JsonValue)> = Vec::new();
            while rest.len() > 0
                invariant
                    n == orig.len(),
                    rest@.len() + rev@.len() == n,
                    rest@ == orig.subrange(0, rest@.len() as int),
                    forall|j: int| 0 <= j < rev@.len() ==> #[trigger] rev@[j] == orig[n - 1 - j],
                decreases rest@.len(),
            {
                let x = rest.pop().unwrap();
                rev.push(x);
            }
            let mut out: Vec<(String, JsonValue)> = Vec::new();
            assert(om.subrange(0, 0) =~= Seq::<(Seq<char>, Json)>::empty());
            assert(members_model(out@) =~= Seq::<(Seq<char>, Json)>::empty());
            while rev.len() > 0
                invariant
                    n == orig.len(),
                    om == members_model(orig),
                    ks == keys@.map_values(|k: &str| k@),
                    rev@.len() <= n,
                    forall|j: int| 0 <= j < rev@.len() ==> #[trigger] rev@[j] == orig[n - 1 - j],
                    members_model(out@) == projected(om.subrange(0, n - rev@.len()), ks),
                decreases rev@.len(),
            {
                let ghost done = n - rev@.len();
                let (key, val) = rev.pop().unwrap();
                assert(key@ == om[done].0 && val.model() == om[done].1);
                assert(om.subrange(0, done + 1).drop_last() =~= om.subrange(0, done));
                assert(om.subrange(0, done + 1).last() == om[done]);
                let keep = lists_key(keys, key.as_str()) && !has_member(&out, key.as_str());
                if keep {
                    let ghost before = members_model(out@);
                    out.push((key, val));
                    assert(members_model(out@) =~= before.push(om[done]));
                }
            }
            assert(om.subrange(0, n as int) =~= om);
            let r = JsonValue::Object(out);
            assert(r.model()->Object_0 =~= members_model(out@));
            r
        },
        other => other,
    }
}

/// A projection answers a lookup of a listed name as the object it was made
/// from does, and of any other name with nothing.
pub proof fn lemma_project_get(members: Seq<(Seq<char>, Json)>, keys: Seq<Seq<char>>, key: Seq<char>)
    ensures
        member(projected(members, keys), key) == (if keys.contains(key) {
            member(members, key)
        } else {
            None
        }),
    decreases members.len(),
{
    if members.len() > 0 {
        let prev_members = members.drop_last();
        let m = members.last();
        lemma_project_get(prev_members, keys, key);
        lemma_project_get(prev_members, keys, m.0);
        assert(members =~= prev_members.push(m));
        lemma_member_push(prev_members, m, key);
        let prev = projected(prev_members, keys);
        lemma_member_push(prev, m, key);
    }
}

/// After redaction, a member whose key names a secret and whose value is a
/// string holds `********`; every other member keeps its key and has its
/// own value redacted, and the members keep their order.
pub proof fn lemma_secret_members_masked(members: Seq<(Seq<char>, Json)>, i: int)
    requires
        0 <= i < members.len(),
    ensures
        redact(Json::Object(members)) matches Json::Object(out) && out.len() == members.len() && out[i].0
            == members[i].0 && out[i].1 == (if sensitive_key(members[i].0) && members[i].1 is Str {
            Json::Str(REDACTED@)
        } else {
            redact(members[i].1)
        }),
{
}

/// Masking a pair twice masks it once; a pair that names a secret still does
/// after masking; masking adds no character but `=` and `*`.
pub proof fn lemma_redact_pair(p: Seq<char>, x: char)
    ensures
        redact_pair(redact_pair(p)) == redact_pair(p),
        pair_is_sensitive(p) ==> pair_is_sensitive(redact_pair(p)),
        !p.contains(x) && x != '=' && x != '*' ==> !redact_pair(p).contains(x),
{
    reveal_strlit("=");
    reveal_strlit("********");
    lemma_split_once_parts(p, '=');
    match split_once(p, '=') {
        Some((key, rest)) => {
            if sensitive_query_key(key) {
                let masked = REDACTED@;
                assert(masked =~= seq!['*', '*', '*', '*', '*', '*', '*', '*']);
                let r = key + "="@ + masked;
                assert(r =~= key + seq!['='] + masked);
                lemma_split_once_at(key, '=', masked);
                assert(split_once(r, '=') == Some((key, masked)));
                if !p.contains(x) && x != '=' && x != '*' {
                    assert forall|k: int| 0 <= k < r.len() implies r[k] != x by {
                        if k < key.len() {
                            assert(r[k] == p[k]);
                        } else if k == key.len() {
                            assert(r[k] == '=');
                        } else {
                            assert(r[k] == masked[k - key.len() - 1]);
                        }
                    }
                }
            }
        },
        None => {},
    }
}

/// The pairs of a query without `#`, masked, hold neither `#` nor `&`, stay
/// as they are when masked again, and are what splitting their join gives
/// back.
proof fn lemma_masked_pairs(q: Seq<char>)
    requires
        !q.contains('#'),
    ensures
        ({
            let rp = split_pieces(q, '&').map_values(|p: Seq<char>| redact_pair(p));
            &&& rp.len() >= 1
            &&& forall|i: int| 0 <= i < rp.len() ==> !(#[trigger] rp[i]).contains('#') && !rp[i].contains('&')
                && redact_pair(rp[i]) == rp[i]
            &&& !join(rp, "&"@).contains('#')
            &&& split_pieces(join(rp, "&"@), '&') == rp
        }),
{
    reveal_strlit("&");
    let pairs = split_pieces(q, '&');
    let rp = pairs.map_values(|p: Seq<char>| redact_pair(p));
    lemma_pieces_avoid(q, '&', seq![], seq![], '#');
    lemma_pieces_avoid(q, '&', seq![], seq![], '&');
    lemma_pieces_len(q, '&', seq![], seq![]);
    assert forall|i: int| 0 <= i < rp.len() implies !(#[trigger] rp[i]).contains('#') && !rp[i].contains('&')
        && redact_pair(rp[i]) == rp[i] by {
        lemma_redact_pair(pairs[i], '#');
        lemma_redact_pair(pairs[i], '&');
    }
    assert("&"@ =~= seq!['&']);
    lemma_join_avoids(rp, "&"@, '#');
    lemma_split_join_from(rp, '&', seq![], seq![]);
    assert(Seq::<Seq<char>>::empty().push(Seq::<char>::empty() + rp[0]) + rp.drop_first() =~= rp);
}

/// After `?`, a query `j` without `#` followed by the fragment of `rest`
/// reads back as the query `j` and that fragment.
proof fn lemma_query_then_fragment(rest: Seq<char>, j: Seq<char>)
    requires
        !j.contains('#'),
    ensures
        query_part(j + fragment_part(rest)) == j,
        fragment_part(j + fragment_part(rest)) == fragment_part(rest),
{
    reveal_strlit("#");
    let tail = fragment_part(rest);
    match split_once(rest, '#') {
        Some((q0, f)) => {
            assert(tail == "#"@ + f);
            assert(j + tail =~= j + seq!['#'] + f);
            lemma_split_once_at(j, '#', f);
        },
        None => {
            assert(tail =~= Seq::<char>::empty());
            assert(j + tail =~= j);
            assert(!(exists|i: int| 0 <= i < j.len() && j[i] == '#'));
        },
    }
}

/// A string whose query pairs are all as masking leaves them, one of which
/// names a secret, is left as it is by redaction.
proof fn lemma_redact_query_fixed(t: Seq<char>, base: Seq<char>, rest: Seq<char>, rp: Seq<Seq<char>>, w: int)
    requires
        split_once(t, '?') == Some((base, rest)),
        split_pieces(query_part(rest), '&') == rp,
        t == base + "?"@ + join(rp, "&"@) + fragment_part(rest),
        rp.map_values(|p: Seq<char>| redact_pair(p)) == rp,
        0 <= w < rp.len(),
        pair_is_sensitive(rp[w]),
    ensures
        redact_query(t) == t,
{
    reveal(redact_query);
}

/// What redaction makes of a string whose query names a secret.
proof fn lemma_redact_query_changed(s: Seq<char>, base: Seq<char>, rest: Seq<char>, w: int)
    requires
        split_once(s, '?') == Some((base, rest)),
        0 <= w < split_pieces(query_part(rest), '&').len(),
        pair_is_sensitive(split_pieces(query_part(rest), '&')[w]),
    ensures
        redact_query(s) == base + "?"@ + join(
            split_pieces(query_part(rest), '&').map_values(|p: Seq<char>| redact_pair(p)),
            "&"@,
        ) + fragment_part(rest),
{
    reveal(redact_query);
}

/// Redaction leaves a string without a query, or whose query names no
/// secret, as it is.
proof fn lemma_redact_query_unchanged(s: Seq<char>)
    requires
        split_once(s, '?') matches Some((base, rest)) ==> forall|i: int|
            0 <= i < split_pieces(query_part(rest), '&').len() ==> !pair_is_sensitive(
                #[trigger] split_pieces(query_part(rest), '&')[i],
            ),
    ensures
        redact_query(s) == s,
{
    reveal(redact_query);
}

/// Redacting the query of a string twice is redacting it once: masked
/// values stay masked and nothing else changes.
pub proof fn lemma_redact_query_idempotent(s: Seq<char>)
    ensures
        redact_query(redact_query(s)) == redact_query(s),
{
    lemma_split_once_parts(s, '?');
    match split_once(s, '?') {
        None => {
            lemma_redact_query_unchanged(s);
        },
        Some((base, rest)) => {
            let pairs = split_pieces(query_part(rest), '&');
            if exists|i: int| 0 <= i < pairs.len() && pair_is_sensitive(#[trigger] pairs[i]) {
                let w = choose|i: int| 0 <= i < pairs.len() && pair_is_sensitive(#[trigger] pairs[i]);
                lemma_idempotent_when_changed(s, base, rest, w);
            } else {
                lemma_redact_query_unchanged(s);
            }
        },
    }
}

/// The query of the part after `?` holds no `#`.
proof fn lemma_query_part_avoids_hash(rest: Seq<char>)
    ensures
        !query_part(rest).contains('#'),
{
    lemma_split_once_parts(rest, '#');
}

/// Idempotence of redaction for a string whose query names a secret.
proof fn lemma_idempotent_when_changed(s: Seq<char>, base: Seq<char>, rest: Seq<char>, w: int)
    requires
        split_once(s, '?') == Some((base, rest)),
        !base.contains('?'),
        0 <= w < split_pieces(query_part(rest), '&').len(),
        pair_is_sensitive(split_pieces(query_part(rest), '&')[w]),
    ensures
        redact_query(redact_query(s)) == redact_query(s),
{
    reveal_strlit("?");
    let q = query_part(rest);
    let pairs = split_pieces(q, '&');
    let rp = pairs.map_values(|p: Seq<char>| redact_pair(p));
    let j = join(rp, "&"@);
    let tail = fragment_part(rest);
    let t = base + "?"@ + j + tail;
    lemma_redact_query_changed(s, base, rest, w);
    lemma_query_part_avoids_hash(rest);
    lemma_masked_pairs(q);
    assert(t =~= base + seq!['?'] + (j + tail));
    lemma_split_once_at(base, '?', j + tail);
    lemma_query_then_fragment(rest, j);
    assert(rp.map_values(|p: Seq<char>| redact_pair(p)) =~= rp);
    lemma_redact_pair(pairs[w], '#');
    lemma_redact_query_fixed(t, base, j + tail, rp, w);
}

/// Redacting a JSON document twice is redacting it once.
pub proof fn lemma_redact_idempotent(j: Json)
    ensures
        redact(redact(j)) == redact(j),
    decreases j,
{
    match j {
        Json::Str(s) => {
            lemma_redact_query_idempotent(s);
        },
        Json::Array(items) => {
            let once = redact(j)->Array_0;
            let twice = redact(redact(j))->Array_0;
            assert forall|i: int| 0 <= i < items.len() implies twice[i] == once[i] by {
                assert(decreases_to!(items => items[i]));
                lemma_redact_idempotent(items[i]);
            }
            assert(twice =~= once);
        },
        Json::Object(members) => {
            let once = redact(j)->Object_0;
            let twice = redact(redact(j))->Object_0;
            assert forall|i: int| 0 <= i < members.len() implies twice[i] == once[i] by {
                assert(decreases_to!(members => members[i]));
                assert(decreases_to!(members[i] => members[i].1));
                lemma_redact_idempotent(members[i].1);
                assert(once[i].0 == members[i].0);
                assert((redact(members[i].1) is Str) == (members[i].1 is Str));
            }
            assert(twice =~= once);
        },
        _ => {},
    }
}

/// An object key names a secret exactly when, lowered, it is `apikey`,
/// `api_key`, `apitoken`, `token`, `password` or `passkey`.
pub proof fn lemma_secret_key_names(key: Seq<char>)
    ensures
        sensitive_key(key) <==> secret_key_name(ascii_lower_seq(key)),
        sensitive_key(key) <==> ({
            let l = ascii_lower_seq(key);
            l == "apikey"@ || l == "api_key"@ || l == "apitoken"@ || l == "token"@ || l == "password"@ || l
                == "passkey"@
        }),
{
    let l = ascii_lower_seq(key);
    let ks = sensitive_keys();
    if secret_key_name(l) {
        if l == "apikey"@ {
            assert(ks[0] == l);
        } else if l == "api_key"@ {
            assert(ks[1] == l);
        } else if l == "apitoken"@ {
            assert(ks[2] == l);
        } else if l == "token"@ {
            assert(ks[3] == l);
        } else if l == "password"@ {
            assert(ks[4] == l);
        } else {
            assert(ks[5] == l);
        }
    }
    if ks.contains(l) {
        let i = choose|i: int| 0 <= i < ks.len() && ks[i] == l;
        assert(0 <= i < 6);
    }
}

/// A string member whose key, lowered, is one of the secret names comes out
/// of redaction as `********`; a member under any other key keeps its own
/// value, redacted in turn.
pub proof fn lemma_secret_named_members_masked(members: Seq<(Seq<char>, Json)>, i: int)
    requires
        0 <= i < members.len(),
    ensures
        secret_key_name(ascii_lower_seq(members[i].0)) && members[i].1 is Str ==> (redact(Json::Object(members))
            matches Json::Object(out) && out[i] == (members[i].0, Json::Str(REDACTED@))),
        !secret_key_name(ascii_lower_seq(members[i].0)) ==> (redact(Json::Object(members)) matches Json::Object(out)
            && out[i] == (members[i].0, redact(members[i].1))),
{
    lemma_secret_key_names(members[i].0);
    lemma_secret_members_masked(members, i);
}

/// A query parameter carries a secret exactly when its name, lowered, is
/// `apikey`, `api_key`, `apitoken`, `token` or `passkey`.
pub proof fn lemma_secret_query_names(key: Seq<char>)
    ensures
        sensitive_query_key(key) <==> ({
            let l = ascii_lower_seq(key);
            l == "apikey"@ || l == "api_key"@ || l == "apitoken"@ || l == "token"@ || l == "passkey"@
        }),
{
    let l = ascii_lower_seq(key);
    let ks = sensitive_query_keys();
    if l == "apikey"@ {
        assert(ks[0] == l);
    } else if l == "api_key"@ {
        assert(ks[1] == l);
    } else if l == "apitoken"@ {
        assert(ks[2] == l);
    } else if l == "token"@ {
        assert(ks[3] == l);
    } else if l == "passkey"@ {
        assert(ks[4] == l);
    }
    if ks.contains(l) {
        let i = choose|i: int| 0 <= i < ks.len() && ks[i] == l;
        assert(0 <= i < 5);
    }
}

} // verus!
