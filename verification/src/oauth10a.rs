//! OAuth 1.0a request signing with HMAC-SHA1: percent-encoding, the
//! normalised parameter string, the signature base string, the signing key
//! and the `Authorization` header.

use crate::request::{Method, Param};
use crate::text::{
    digit_char, join, join_spec, lemma_lex_le_antisymmetric, lemma_lex_le_reflexive,
    lemma_lex_le_total, lemma_lex_le_transitive, lex_le, rank, texts, Rank,
};
use vstd::multiset::Multiset;
use vstd::prelude::*;
use vstd::relations::{sorted_by, total_ordering};
use vstd::seq_lib::lemma_sorted_unique;
use crate::text::{decimal_spec, push_decimal};
use vstd::string::{StringExecFns, StringSliceAdditionalSpecFns};
use vstd::utf8::encode_utf8;

verus! {

/// Whether the byte stands for a letter, a digit, `-`, `.`, `_` or `~`:
/// the characters that are written as they are.
pub open spec fn is_unreserved(b: u8) -> bool {
    (0x41 <= b && b <= 0x5A) || (0x61 <= b && b <= 0x7A) || (0x30 <= b && b <= 0x39) || b == 0x2D
        || b == 0x2E || b == 0x5F || b == 0x7E
}

/// The upper-case hexadecimal digit for a value below sixteen.
pub open spec fn hex_digit(n: int) -> char {
    if n < 10 {
        digit_char(n)
    } else if n == 10 {
        'A'
    } else if n == 11 {
        'B'
    } else if n == 12 {
        'C'
    } else if n == 13 {
        'D'
    } else if n == 14 {
        'E'
    } else {
        'F'
    }
}

/// What one byte becomes: itself if unreserved, else `%` and its two
/// hexadecimal digits.
pub open spec fn encode_byte(b: u8) -> Seq<char> {
    if is_unreserved(b) {
        seq![b as char]
    } else {
        seq!['%', hex_digit(b as int / 16), hex_digit(b as int % 16)]
    }
}

/// The encodings of the bytes, one after another.
pub open spec fn percent_encode_bytes(bytes: Seq<u8>) -> Seq<char>
    decreases bytes.len(),
{
    if bytes.len() == 0 {
        Seq::empty()
    } else {
        percent_encode_bytes(bytes.drop_last()) + encode_byte(bytes.last())
    }
}

/// The percent-encoding of a text: that of its UTF-8 bytes.
pub open spec fn percent_encode_spec(s: Seq<char>) -> Seq<char> {
    percent_encode_bytes(encode_utf8(s))
}

fn hex_of(n: u8) -> (c: char)
    requires
        n < 16,
    ensures
        c == hex_digit(n as int),
{
    if n == 0 {
        '0'
    } else if n == 1 {
        '1'
    } else if n == 2 {
        '2'
    } else if n == 3 {
        '3'
    } else if n == 4 {
        '4'
    } else if n == 5 {
        '5'
    } else if n == 6 {
        '6'
    } else if n == 7 {
        '7'
    } else if n == 8 {
        '8'
    } else if n == 9 {
        '9'
    } else if n == 10 {
        'A'
    } else if n == 11 {
        'B'
    } else if n == 12 {
        'C'
    } else if n == 13 {
        'D'
    } else if n == 14 {
        'E'
    } else {
        'F'
    }
}

fn unreserved(b: u8) -> (r: bool)
    ensures
        r == is_unreserved(b),
{
    (0x41 <= b && b <= 0x5A) || (0x61 <= b && b <= 0x7A) || (0x30 <= b && b <= 0x39) || b == 0x2D
        || b == 0x2E || b == 0x5F || b == 0x7E
}

/// Appends the percent-encoding of `s` to `out`.
pub fn push_encoded(out: &mut String, s: &str)
    ensures
        final(out)@ == old(out)@ + percent_encode_spec(s@),
{
    let bytes = s.as_bytes();
    let ghost start = out@;
    let mut i: usize = 0;
    while i < bytes.len()
        invariant
            i <= bytes.len(),
            bytes@ == encode_utf8(s@),
            out@ == start + percent_encode_bytes(bytes@.take(i as int)),
        decreases bytes.len() - i,
    {
        let b = bytes[i];
        let ghost before = out@;
        assert(bytes@.take(i + 1).drop_last() == bytes@.take(i as int));
        if unreserved(b) {
            out.push(b as char);
            assert(out@ == before + encode_byte(b));
        } else {
            out.push('%');
            out.push(hex_of(b / 16));
            out.push(hex_of(b % 16));
            assert(out@ == before + encode_byte(b));
        }
        i += 1;
    }
    assert(bytes@.take(i as int) == bytes@);
}

/// Percent-encodes a text: letters, digits, `-`, `.`, `_` and `~` stay,
/// every other byte of its UTF-8 form becomes `%` and two upper-case
/// hexadecimal digits.
pub fn percent_encode(s: &str) -> (out: String)
    ensures
        out@ == percent_encode_spec(s@),
{
    let mut out = String::new();
    push_encoded(&mut out, s);
    out
}

/// The order of parameters: by key, and among equal keys by value, each
/// compared character by character.
pub open spec fn param_le(a: Param, b: Param) -> bool {
    if a.0 == b.0 {
        lex_le(a.1, b.1)
    } else {
        lex_le(a.0, b.0)
    }
}

/// [`param_le`] as a relation.
pub open spec fn param_order() -> spec_fn(Param, Param) -> bool {
    |a: Param, b: Param| param_le(a, b)
}

/// The order of parameters is total: any two parameters are ordered, and
/// only equal ones both ways.
pub proof fn lemma_param_order_total()
    ensures
        total_ordering(param_order()),
{
    let r = param_order();
    assert forall|x: Param| #[trigger] r(x, x) by {
        lemma_lex_le_reflexive(x.1);
    }
    assert forall|x: Param, y: Param| #[trigger] r(x, y) && #[trigger] r(y, x) implies x == y by {
        if x.0 == y.0 {
            lemma_lex_le_antisymmetric(x.1, y.1);
        } else {
            lemma_lex_le_antisymmetric(x.0, y.0);
        }
    }
    assert forall|x: Param, y: Param, z: Param| #[trigger] r(x, y) && #[trigger] r(y, z) implies r(
        x,
        z,
    ) by {
        if x.0 == y.0 && y.0 == z.0 {
            lemma_lex_le_transitive(x.1, y.1, z.1);
        } else if x.0 == y.0 || y.0 == z.0 {
        } else {
            lemma_lex_le_transitive(x.0, y.0, z.0);
            if x.0 == z.0 {
                lemma_lex_le_antisymmetric(x.0, y.0);
            }
        }
    }
    assert forall|x: Param, y: Param| #[trigger] r(x, y) || #[trigger] r(y, x) by {
        lemma_lex_le_total(x.0, y.0);
        lemma_lex_le_total(x.1, y.1);
    }
}

fn pair_le(a: &(String, String), b: &(String, String)) -> (r: bool)
    ensures
        r == param_le(a.deep_view(), b.deep_view()),
{
    match rank(a.0.as_str(), b.0.as_str()) {
        Rank::Before => true,
        Rank::After => false,
        Rank::Same => {
            proof {
                lemma_lex_le_reflexive(a.1@);
            }
            match rank(a.1.as_str(), b.1.as_str()) {
                Rank::After => false,
                _ => true,
            }
        },
    }
}

fn insert_sorted(sorted: &mut Vec<(String, String)>, item: (String, String))
    requires
        sorted_by(old(sorted).deep_view(), param_order()),
    ensures
        sorted_by(final(sorted).deep_view(), param_order()),
        final(sorted).deep_view().to_multiset() == old(sorted).deep_view().to_multiset().insert(
            item.deep_view(),
        ),
{
    let ghost before = sorted.deep_view();
    let ghost new = item.deep_view();
    let ghost r = param_order();
    let mut at: usize = 0;
    while at < sorted.len()
        invariant
            at <= sorted.len(),
            sorted.deep_view() == before,
            new == item.deep_view(),
            forall|k: int| 0 <= k < at ==> param_le(#[trigger] before[k], new),
        ensures
            at <= sorted.len(),
            forall|k: int| 0 <= k < at ==> param_le(#[trigger] before[k], new),
            at < sorted.len() ==> !param_le(before[at as int], new),
        decreases sorted.len() - at,
    {
        if !pair_le(&sorted[at], &item) {
            break;
        }
        at += 1;
    }
    sorted.insert(at, item);
    proof {
        let after = sorted.deep_view();
        assert(after =~= before.insert(at as int, new));
        vstd::seq_lib::to_multiset_insert(before, at as int, new);
        lemma_param_order_total();
        assert forall|i: int, j: int| 0 <= i < j < after.len() implies #[trigger] r(
            after[i],
            after[j],
        ) by {
            if j < at {
                assert(r(before[i], before[j]));
            } else if j == at {
                assert(param_le(before[i], new));
            } else if i == at {
                assert(!param_le(before[at as int], new));
                assert(r(before[at as int], new) || r(new, before[at as int]));
                if j - 1 > at {
                    assert(r(before[at as int], before[j - 1]));
                    assert(r(new, before[at as int]) && r(before[at as int], before[j - 1]));
                }
            } else if i < at {
                assert(r(before[i], before[j - 1]));
            } else {
                assert(r(before[i - 1], before[j - 1]));
            }
        }
    }
}

proof fn lemma_empty_multiset(s: Seq<Param>)
    requires
        s.len() == 0,
    ensures
        s.to_multiset() == Multiset::<Param>::empty(),
{
    vstd::seq_lib::to_multiset_len(s);
    vstd::multiset::lemma_multiset_empty_len(s.to_multiset());
}

/// Sorts parameters by key and, among equal keys, by value.
pub fn sort_params(params: Vec<(String, String)>) -> (out: Vec<(String, String)>)
    ensures
        out.deep_view() == params.deep_view().sort_by(param_order()),
{
    let ghost input = params.deep_view();
    let ghost r = param_order();
    let mut rest = params;
    let mut out: Vec<(String, String)> = Vec::new();
    assert(out.deep_view().to_multiset().add(rest.deep_view().to_multiset())
        =~= input.to_multiset()) by {
        broadcast use vstd::multiset::group_multiset_axioms;

        assert(out.deep_view() =~= Seq::<Param>::empty());
        lemma_empty_multiset(out.deep_view());
    }
    while rest.len() > 0
        invariant
            sorted_by(out.deep_view(), param_order()),
            out.deep_view().to_multiset().add(rest.deep_view().to_multiset())
                == input.to_multiset(),
        decreases rest.len(),
    {
        let ghost left = rest.deep_view();
        let ghost done = out.deep_view();
        let item = rest.pop().unwrap();
        insert_sorted(&mut out, item);
        proof {
            broadcast use vstd::multiset::group_multiset_axioms;

            assert(rest.deep_view() =~= left.drop_last());
            assert(left =~= left.drop_last().push(item.deep_view()));
            vstd::seq_lib::to_multiset_build(left.drop_last(), item.deep_view());
            assert(out.deep_view().to_multiset().add(rest.deep_view().to_multiset())
                =~= done.to_multiset().add(left.to_multiset()));
        }
    }
    proof {
        broadcast use vstd::multiset::group_multiset_axioms;

        lemma_param_order_total();
        input.lemma_sort_by_ensures(r);
        assert(rest.deep_view() =~= Seq::<Param>::empty());
        lemma_empty_multiset(rest.deep_view());
        assert(out.deep_view().to_multiset() =~= input.to_multiset());
        lemma_sorted_unique(out.deep_view(), input.sort_by(r), r);
    }
    out
}

/// A parameter with its key and its value percent-encoded.
pub open spec fn encode_param(p: Param) -> Param {
    (percent_encode_spec(p.0), percent_encode_spec(p.1))
}

/// The parameters, each percent-encoded.
pub open spec fn encode_params(params: Seq<Param>) -> Seq<Param> {
    params.map_values(|p: Param| encode_param(p))
}

/// A parameter written as key, `=`, value.
pub open spec fn pair_text(p: Param) -> Seq<char> {
    p.0.push('=') + p.1
}

/// The normalised parameter string: every parameter percent-encoded, the
/// parameters sorted by encoded key and then encoded value, each written as
/// key, `=`, value, with `&` between them.
pub open spec fn normalized_spec(params: Seq<Param>) -> Seq<char> {
    join_spec(
        encode_params(params).sort_by(param_order()).map_values(|p: Param| pair_text(p)),
        "&"@,
    )
}

/// The signature base string: the verb, the percent-encoded URL and the
/// percent-encoded normalised parameter string, with `&` between them.
pub open spec fn base_string_spec(method: Method, url: Seq<char>, params: Seq<Param>) -> Seq<char> {
    method.token().push('&') + percent_encode_spec(url).push('&') + percent_encode_spec(
        normalized_spec(params),
    )
}

/// The signing key: the two secrets, percent-encoded, with `&` between
/// them.
pub open spec fn signing_key_spec(consumer_secret: Seq<char>, token_secret: Seq<char>) -> Seq<
    char,
> {
    percent_encode_spec(consumer_secret).push('&') + percent_encode_spec(token_secret)
}

/// Writes the normalised parameter string of a list of parameters.
pub fn normalized(params: &Vec<(String, String)>) -> (out: String)
    ensures
        out@ == normalized_spec(params.deep_view()),
{
    let ghost input = params.deep_view();
    let mut encoded: Vec<(String, String)> = Vec::new();
    let mut i: usize = 0;
    while i < params.len()
        invariant
            i <= params.len(),
            input == params.deep_view(),
            encoded.deep_view() == encode_params(input.take(i as int)),
        decreases params.len() - i,
    {
        let key = percent_encode(params[i].0.as_str());
        let value = percent_encode(params[i].1.as_str());
        let ghost before = encoded.deep_view();
        encoded.push((key, value));
        assert(encoded.deep_view() =~= before.push(encode_param(input[i as int])));
        assert(input.take(i + 1) =~= input.take(i as int).push(input[i as int]));
        assert(encoded.deep_view() =~= encode_params(input.take(i + 1)));
        i += 1;
    }
    assert(input.take(i as int) == input);
    let sorted = sort_params(encoded);
    let ghost ordered = sorted.deep_view();
    let mut pieces: Vec<String> = Vec::new();
    let mut j: usize = 0;
    while j < sorted.len()
        invariant
            j <= sorted.len(),
            ordered == sorted.deep_view(),
            pieces.deep_view() == ordered.take(j as int).map_values(|p: Param| pair_text(p)),
        decreases sorted.len() - j,
    {
        let mut piece = String::new();
        piece.append(sorted[j].0.as_str());
        piece.push('=');
        piece.append(sorted[j].1.as_str());
        assert(piece@ == pair_text(ordered[j as int]));
        let ghost before = pieces.deep_view();
        pieces.push(piece);
        assert(pieces.deep_view() =~= before.push(pair_text(ordered[j as int])));
        assert(ordered.take(j + 1) =~= ordered.take(j as int).push(ordered[j as int]));
        assert(pieces.deep_view() =~= ordered.take(j + 1).map_values(|p: Param| pair_text(p)));
        j += 1;
    }
    assert(ordered.take(j as int) == ordered);
    join_all(&pieces, "&")
}

/// Writes the pieces one after another with `sep` between neighbours.
pub fn join_all(pieces: &Vec<String>, sep: &str) -> (out: String)
    ensures
        out@ == join_spec(pieces.deep_view(), sep@),
{
    let mut refs: Vec<&str> = Vec::new();
    let mut k: usize = 0;
    while k < pieces.len()
        invariant
            k <= pieces.len(),
            texts(refs@) == pieces.deep_view().take(k as int),
        decreases pieces.len() - k,
    {
        let ghost before = texts(refs@);
        refs.push(pieces[k].as_str());
        assert(texts(refs@) =~= before.push(pieces@[k as int]@));
        assert(pieces.deep_view().take(k + 1) =~= pieces.deep_view().take(k as int).push(
            pieces@[k as int]@,
        ));
        k += 1;
    }
    assert(pieces.deep_view().take(k as int) == pieces.deep_view());
    join(&refs, sep)
}

/// Writes the signature base string of a request.
pub fn base_string(method: Method, url: &str, params: &Vec<(String, String)>) -> (out: String)
    ensures
        out@ == base_string_spec(method, url@, params.deep_view()),
{
    let mut out = String::new();
    out.append(method.as_str());
    out.push('&');
    push_encoded(&mut out, url);
    out.push('&');
    let list = normalized(params);
    push_encoded(&mut out, list.as_str());
    assert(out@ =~= base_string_spec(method, url@, params.deep_view()));
    out
}

/// Writes the signing key for a pair of secrets.
pub fn signing_key(consumer_secret: &str, token_secret: &str) -> (out: String)
    ensures
        out@ == signing_key_spec(consumer_secret@, token_secret@),
{
    let mut out = String::new();
    push_encoded(&mut out, consumer_secret);
    out.push('&');
    push_encoded(&mut out, token_secret);
    assert(out@ =~= signing_key_spec(consumer_secret@, token_secret@));
    out
}

/// The HMAC-SHA1 tag of a message under a key. The `hmac` crate's types
/// allow for a key that is refused, hence the `Option`; its code takes
/// every key.
pub uninterp spec fn hmac_sha1_tag(key: Seq<u8>, message: Seq<u8>) -> Option<Seq<u8>>;

/// The standard base64 text of the bytes, with padding.
pub uninterp spec fn base64_text(bytes: Seq<u8>) -> Seq<char>;

/// `Hmac::<Sha1>` of the `hmac` and `sha1` crates, through the `Mac`
/// methods `new_from_slice`, `update` and `finalize`: the tag of the message
/// under the key, which depends on the two alone. There is a tag for every
/// key and message: `new_from_slice` of this type pads or hashes the key
/// and returns no error.
#[verifier::external_body]
pub(crate) fn hmac_sha1(key: &[u8], message: &[u8]) -> (tag: Option<Vec<u8>>)
    ensures
        tag is Some,
        hmac_sha1_tag(key@, message@) == Some(tag->0@),
{
    let mut mac = <hmac::Hmac<sha1::Sha1> as hmac::Mac>::new_from_slice(key).ok()?;
    hmac::Mac::update(&mut mac, message);
    Some(hmac::Mac::finalize(mac).into_bytes().to_vec())
}

/// `Engine::encode` of the `base64` crate on its `STANDARD` engine: the
/// base64 text of the bytes, which depends on the bytes alone. The call
/// panics only where the length of the text overflows `usize`, which no
/// slice reaches.
#[verifier::external_body]
pub(crate) fn base64_encode(bytes: &[u8]) -> (text: String)
    ensures
        text@ == base64_text(bytes@),
{
    base64::Engine::encode(&base64::engine::general_purpose::STANDARD, bytes)
}

/// The signature of a base string under a signing key: the base64 text of
/// the HMAC-SHA1 tag; `None` where no tag can be made.
pub open spec fn signature_spec(key: Seq<char>, base: Seq<char>) -> Option<Seq<char>> {
    match hmac_sha1_tag(encode_utf8(key), encode_utf8(base)) {
        Some(tag) => Some(base64_text(tag)),
        None => None,
    }
}

/// Signs a base string. There is a signature for every key and base
/// string.
pub fn sign(key: &str, base: &str) -> (signature: Option<String>)
    ensures
        signature is Some,
        signature.deep_view() == signature_spec(key@, base@),
{
    match hmac_sha1(key.as_bytes(), base.as_bytes()) {
        Some(tag) => Some(base64_encode(tag.as_slice())),
        None => None,
    }
}

/// The consumer's and the user's keys and secrets.
#[derive(Debug)]
pub struct Credentials {
    pub consumer_key: String,
    pub consumer_secret: String,
    pub token: String,
    pub token_secret: String,
}

/// [`Credentials`] as mathematical values.
pub struct CredentialsView {
    pub consumer_key: Seq<char>,
    pub consumer_secret: Seq<char>,
    pub token: Seq<char>,
    pub token_secret: Seq<char>,
}

impl View for Credentials {
    type V = CredentialsView;

    open spec fn view(&self) -> CredentialsView {
        CredentialsView {
            consumer_key: self.consumer_key@,
            consumer_secret: self.consumer_secret@,
            token: self.token@,
            token_secret: self.token_secret@,
        }
    }
}

/// The protocol parameters that are signed with the request's own.
pub open spec fn protocol_params(
    credentials: CredentialsView,
    nonce: Seq<char>,
    timestamp: u64,
) -> Seq<Param> {
    seq![
        ("oauth_consumer_key"@, credentials.consumer_key),
        ("oauth_nonce"@, nonce),
        ("oauth_signature_method"@, "HMAC-SHA1"@),
        ("oauth_timestamp"@, decimal_spec(timestamp as nat)),
        ("oauth_token"@, credentials.token),
        ("oauth_version"@, "1.0"@),
    ]
}

/// The parameters that the header lists: the protocol parameters and the
/// signature, by key.
pub open spec fn header_params(
    credentials: CredentialsView,
    nonce: Seq<char>,
    timestamp: u64,
    signature: Seq<char>,
) -> Seq<Param> {
    protocol_params(credentials, nonce, timestamp).insert(2, ("oauth_signature"@, signature))
}

/// A header parameter written as key, `="`, value, `"`, both
/// percent-encoded.
pub open spec fn header_item(p: Param) -> Seq<char> {
    percent_encode_spec(p.0).push('=').push('"') + percent_encode_spec(p.1).push('"')
}

/// The value of the `Authorization` header for a signature.
pub open spec fn header_spec(
    credentials: CredentialsView,
    nonce: Seq<char>,
    timestamp: u64,
    signature: Seq<char>,
) -> Seq<char> {
    "OAuth "@ + join_spec(
        header_params(credentials, nonce, timestamp, signature).map_values(
            |p: Param| header_item(p),
        ),
        ", "@,
    )
}

/// What is signed for a request: its verb, its URL and its query
/// parameters followed by the protocol parameters.
pub open spec fn signed_base(
    credentials: CredentialsView,
    nonce: Seq<char>,
    timestamp: u64,
    method: Method,
    url: Seq<char>,
    query: Seq<Param>,
) -> Seq<char> {
    base_string_spec(method, url, query + protocol_params(credentials, nonce, timestamp))
}

/// The value of the `Authorization` header for a request; `None` where no
/// tag can be made.
pub open spec fn authorization_spec(
    credentials: CredentialsView,
    nonce: Seq<char>,
    timestamp: u64,
    method: Method,
    url: Seq<char>,
    query: Seq<Param>,
) -> Option<Seq<char>> {
    match signature_spec(
        signing_key_spec(credentials.consumer_secret, credentials.token_secret),
        signed_base(credentials, nonce, timestamp, method, url, query),
    ) {
        Some(signature) => Some(header_spec(credentials, nonce, timestamp, signature)),
        None => None,
    }
}

/// The same parameters in another order are, once encoded, still the same
/// parameters in another order.
pub proof fn lemma_encode_rearranged(a: Seq<Param>, b: Seq<Param>)
    requires
        a.to_multiset() == b.to_multiset(),
    ensures
        encode_params(a).to_multiset() == encode_params(b).to_multiset(),
    decreases a.len(),
{
    broadcast use vstd::multiset::group_multiset_axioms;

    vstd::seq_lib::to_multiset_len(a);
    vstd::seq_lib::to_multiset_len(b);
    if a.len() == 0 {
        assert(encode_params(a) =~= encode_params(b));
    } else {
        let last = a.last();
        let at = a.len() - 1;
        vstd::seq_lib::to_multiset_contains(a, last);
        vstd::seq_lib::to_multiset_contains(b, last);
        assert(a[at] == last);
        let k = choose|k: int| 0 <= k < b.len() && b[k] == last;
        let a1 = a.drop_last();
        let b1 = b.remove(k);
        assert(a.remove(at) =~= a1);
        vstd::seq_lib::to_multiset_remove(a, at);
        vstd::seq_lib::to_multiset_remove(b, k);
        lemma_encode_rearranged(a1, b1);
        assert(encode_params(a) =~= encode_params(a1).push(encode_param(last)));
        assert(encode_params(b) =~= encode_params(b1).insert(k, encode_param(last)));
        vstd::seq_lib::to_multiset_build(encode_params(a1), encode_param(last));
        vstd::seq_lib::to_multiset_insert(encode_params(b1), k, encode_param(last));
    }
}

/// The normalised parameter string does not tell in which order the
/// parameters were listed.
pub proof fn lemma_normalized_ignores_order(a: Seq<Param>, b: Seq<Param>)
    requires
        a.to_multiset() == b.to_multiset(),
    ensures
        normalized_spec(a) == normalized_spec(b),
{
    let r = param_order();
    lemma_encode_rearranged(a, b);
    lemma_param_order_total();
    encode_params(a).lemma_sort_by_ensures(r);
    encode_params(b).lemma_sort_by_ensures(r);
    lemma_sorted_unique(encode_params(a).sort_by(r), encode_params(b).sort_by(r), r);
}

/// The `Authorization` header of a signed request does not tell in which
/// order the request lists its query parameters.
pub proof fn lemma_authorization_ignores_order(
    credentials: CredentialsView,
    nonce: Seq<char>,
    timestamp: u64,
    method: Method,
    url: Seq<char>,
    a: Seq<Param>,
    b: Seq<Param>,
)
    requires
        a.to_multiset() == b.to_multiset(),
    ensures
        authorization_spec(credentials, nonce, timestamp, method, url, a) == authorization_spec(
            credentials,
            nonce,
            timestamp,
            method,
            url,
            b,
        ),
{
    let protocol = protocol_params(credentials, nonce, timestamp);
    vstd::seq_lib::lemma_multiset_commutative(a, protocol);
    vstd::seq_lib::lemma_multiset_commutative(b, protocol);
    lemma_normalized_ignores_order(a + protocol, b + protocol);
}

fn pair(key: &str, value: &str) -> (p: (String, String))
    ensures
        p.deep_view() == (key@, value@),
{
    (key.to_owned(), value.to_owned())
}

impl Credentials {
    /// Credentials from their four parts.
    pub fn new(consumer_key: &str, consumer_secret: &str, token: &str, token_secret: &str) -> (c:
        Credentials)
        ensures
            c@ == (CredentialsView {
                consumer_key: consumer_key@,
                consumer_secret: consumer_secret@,
                token: token@,
                token_secret: token_secret@,
            }),
    {
        Credentials {
            consumer_key: consumer_key.to_owned(),
            consumer_secret: consumer_secret.to_owned(),
            token: token.to_owned(),
            token_secret: token_secret.to_owned(),
        }
    }

    /// The protocol parameters for a nonce and a time.
    pub fn protocol(&self, nonce: &str, timestamp: u64) -> (params: Vec<(String, String)>)
        ensures
            params.deep_view() == protocol_params(self@, nonce@, timestamp),
    {
        let mut time = String::new();
        push_decimal(&mut time, timestamp);
        let mut params: Vec<(String, String)> = Vec::new();
        params.push(pair("oauth_consumer_key", self.consumer_key.as_str()));
        params.push(pair("oauth_nonce", nonce));
        params.push(pair("oauth_signature_method", "HMAC-SHA1"));
        params.push(pair("oauth_timestamp", time.as_str()));
        params.push(pair("oauth_token", self.token.as_str()));
        params.push(pair("oauth_version", "1.0"));
        assert(params.deep_view() =~= protocol_params(self@, nonce@, timestamp));
        params
    }

    /// The signature of a request for a nonce and a time. There is one
    /// for every request.
    pub fn signature(
        &self,
        nonce: &str,
        timestamp: u64,
        method: Method,
        url: &str,
        query: &Vec<(String, String)>,
    ) -> (signature: Option<String>)
        ensures
            signature is Some,
            signature.deep_view() == signature_spec(
                signing_key_spec(self@.consumer_secret, self@.token_secret),
                signed_base(self@, nonce@, timestamp, method, url@, query.deep_view()),
            ),
    {
        let mut all: Vec<(String, String)> = Vec::new();
        let mut i: usize = 0;
        while i < query.len()
            invariant
                i <= query.len(),
                all.deep_view() == query.deep_view().take(i as int),
            decreases query.len() - i,
        {
            let ghost before = all.deep_view();
            all.push(pair(query[i].0.as_str(), query[i].1.as_str()));
            assert(all.deep_view() =~= before.push(query.deep_view()[i as int]));
            assert(query.deep_view().take(i + 1) =~= query.deep_view().take(i as int).push(
                query.deep_view()[i as int],
            ));
            i += 1;
        }
        assert(query.deep_view().take(i as int) == query.deep_view());
        let mut protocol = self.protocol(nonce, timestamp);
        let ghost front = all.deep_view();
        let ghost back = protocol.deep_view();
        all.append(&mut protocol);
        assert(all.deep_view() =~= front + back);
        let base = base_string(method, url, &all);
        let key = signing_key(self.consumer_secret.as_str(), self.token_secret.as_str());
        sign(key.as_str(), base.as_str())
    }

    /// The value of the `Authorization` header that carries a signature.
    pub fn header(&self, nonce: &str, timestamp: u64, signature: &str) -> (value: String)
        ensures
            value@ == header_spec(self@, nonce@, timestamp, signature@),
    {
        let mut params = self.protocol(nonce, timestamp);
        let ghost plain = params.deep_view();
        params.insert(2, pair("oauth_signature", signature));
        assert(params.deep_view() =~= header_params(self@, nonce@, timestamp, signature@)) by {
            assert(params.deep_view() =~= plain.insert(2, ("oauth_signature"@, signature@)));
        }
        let ghost listed = params.deep_view();
        let mut items: Vec<String> = Vec::new();
        let mut i: usize = 0;
        while i < params.len()
            invariant
                i <= params.len(),
                listed == params.deep_view(),
                items.deep_view() == listed.take(i as int).map_values(|p: Param| header_item(p)),
            decreases params.len() - i,
        {
            let mut item = String::new();
            push_encoded(&mut item, params[i].0.as_str());
            item.push('=');
            item.push('"');
            push_encoded(&mut item, params[i].1.as_str());
            item.push('"');
            assert(item@ =~= header_item(listed[i as int]));
            let ghost before = items.deep_view();
            items.push(item);
            assert(items.deep_view() =~= before.push(header_item(listed[i as int])));
            assert(listed.take(i + 1) =~= listed.take(i as int).push(listed[i as int]));
            assert(items.deep_view() =~= listed.take(i + 1).map_values(|p: Param| header_item(p)));
            i += 1;
        }
        assert(listed.take(i as int) == listed);
        let list = join_all(&items, ", ");
        let mut value = String::new();
        value.append("OAuth ");
        value.append(list.as_str());
        value
    }

    /// The value of the `Authorization` header for a request, a nonce and a
    /// time. There is one for every request.
    pub fn authorization(
        &self,
        nonce: &str,
        timestamp: u64,
        method: Method,
        url: &str,
        query: &Vec<(String, String)>,
    ) -> (value: Option<String>)
        ensures
            value is Some,
            value.deep_view() == authorization_spec(
                self@,
                nonce@,
                timestamp,
                method,
                url@,
                query.deep_view(),
            ),
    {
        match self.signature(nonce, timestamp, method, url, query) {
            Some(signature) => Some(self.header(nonce, timestamp, signature.as_str())),
            None => None,
        }
    }
}

/// The letter or digit that stands for a value below sixty-two: the
/// upper-case letters, then the lower-case letters, then the digits.
pub open spec fn alphanumeric(n: int) -> char {
    if n < 26 {
        ('A' as u8 + n) as char
    } else if n < 52 {
        ('a' as u8 + (n - 26)) as char
    } else {
        ('0' as u8 + (n - 52)) as char
    }
}

/// The nonce made of the bytes: one letter or digit for each.
pub open spec fn nonce_spec(bytes: Seq<u8>) -> Seq<char> {
    bytes.map_values(|b: u8| alphanumeric(b as int % 62))
}

/// Whether the text is made of ASCII letters and digits only.
pub open spec fn is_alphanumeric(text: Seq<char>) -> bool {
    forall|i: int|
        0 <= i < text.len() ==> {
            let c = #[trigger] text[i];
            ('A' <= c && c <= 'Z') || ('a' <= c && c <= 'z') || ('0' <= c && c <= '9')
        }
}

/// Makes a nonce of the bytes: one letter or digit for each.
pub fn nonce_from(bytes: &Vec<u8>) -> (nonce: String)
    ensures
        nonce@ == nonce_spec(bytes@),
        is_alphanumeric(nonce@),
{
    let mut nonce = String::new();
    let mut i: usize = 0;
    while i < bytes.len()
        invariant
            i <= bytes.len(),
            nonce@ == nonce_spec(bytes@.take(i as int)),
            is_alphanumeric(nonce@),
        decreases bytes.len() - i,
    {
        let n: u8 = bytes[i] % 62;
        let c = if n < 26 {
            (65u8 + n) as char
        } else if n < 52 {
            (97u8 + (n - 26)) as char
        } else {
            (48u8 + (n - 52)) as char
        };
        assert(c == alphanumeric(bytes@[i as int] as int % 62));
        let ghost before = nonce@;
        nonce.push(c);
        assert(bytes@.take(i + 1) =~= bytes@.take(i as int).push(bytes@[i as int]));
        assert(nonce@ =~= nonce_spec(bytes@.take(i + 1)));
        assert(is_alphanumeric(nonce@)) by {
            assert forall|k: int| 0 <= k < nonce@.len() implies {
                let d = #[trigger] nonce@[k];
                ('A' <= d && d <= 'Z') || ('a' <= d && d <= 'z') || ('0' <= d && d <= '9')
            } by {
                if k < before.len() {
                    assert(nonce@[k] == before[k]);
                }
            }
        }
        i += 1;
    }
    assert(bytes@.take(i as int) == bytes@);
    nonce
}

/// `RngCore::try_fill_bytes` of the `rand` crate on `OsRng`: as many bytes
/// from the system's random source as were asked for, or `None` where the
/// source fails. Nothing holds of the bytes but their number.
#[verifier::external_body]
pub(crate) fn entropy(count: usize) -> (bytes: Option<Vec<u8>>)
    requires
        count <= 1024,
    ensures
        bytes matches Some(b) ==> b@.len() == count,
{
    let mut buffer = vec![0u8; count];
    rand::RngCore::try_fill_bytes(&mut rand::rngs::OsRng, &mut buffer).ok()?;
    Some(buffer)
}

/// `std::time::SystemTime`, of which the library sees nothing: a reading of
/// the clock is only carried to the count of its seconds.
#[verifier::external_type_specification]
#[verifier::external_body]
pub struct ExSystemTime(std::time::SystemTime);

/// `std::time::SystemTimeError`, of which the library sees nothing.
#[verifier::external_type_specification]
#[verifier::external_body]
pub struct ExSystemTimeError(std::time::SystemTimeError);

/// `SystemTime::now` of std: a reading of the clock. Nothing holds of it.
pub assume_specification[ std::time::SystemTime::now ]() -> std::time::SystemTime;

/// `Duration::as_secs` of std: the whole seconds of a span of time. Nothing
/// is claimed of the number.
pub assume_specification[ std::time::Duration::as_secs ](span: &std::time::Duration) -> u64;

/// `SystemTime::duration_since` of std, counted from `UNIX_EPOCH`: the span
/// of time from the epoch to the reading, or the error of std where the
/// reading lies before the epoch. Nothing is claimed of the span.
#[verifier::external_body]
pub(crate) fn since_epoch(reading: &std::time::SystemTime) -> Result<
    std::time::Duration,
    std::time::SystemTimeError,
> {
    reading.duration_since(std::time::UNIX_EPOCH)
}

/// The time of the call in whole seconds since the epoch; `None` where the
/// clock stands before the epoch.
pub(crate) fn unix_time() -> Option<u64> {
    let reading = std::time::SystemTime::now();
    match since_epoch(&reading) {
        Ok(span) => Some(span.as_secs()),
        Err(_) => None,
    }
}

/// A fresh nonce of thirty-two letters and digits; `None` where the
/// system's random source fails.
pub fn fresh_nonce() -> (nonce: Option<String>)
    ensures
        nonce matches Some(n) ==> n@.len() == 32 && is_alphanumeric(n@),
{
    match entropy(32) {
        Some(bytes) => Some(nonce_from(&bytes)),
        None => None,
    }
}

} // verus!
