use vstd::prelude::*;

verus! {

/// Application identifier sent with every profile lookup.
pub const APP_KEY: &'static str = "1d8b6e7d45233436";

/// Secret shared with the profile service; appended to the signed text.
pub const APP_SEC: &'static str = "560c52ccd288fed045859ed18bffd973";

/// Client tag sent with every profile lookup.
pub const CLIENT: &'static str = "android";

/// Endpoint of the profile service, up to its first query parameter.
pub const PROFILE_ENDPOINT: &'static str = "https://app.bilibili.com/x/v2/account/myinfo?access_key=";

/// The MD5 digest of the UTF-8 text, as 32 lowercase hex digits.
pub uninterp spec fn md5_hex(s: Seq<char>) -> Seq<char>;

/// The sign (true when positive), magnitude and decimal exponent of the
/// number held at `data.mid` of a JSON document, when the text parses and that
/// member is a number.
pub uninterp spec fn json_mid_parts(s: Seq<char>) -> Option<(bool, u64, i16)>;

/// Relies on `md5::compute` over the UTF-8 bytes of `s`, printed with `{:x}`
/// (the `LowerHex` impl of `md5::Digest`): 16 bytes, two digits each.
#[verifier::external_body]
fn md5_hex_of(s: &str) -> (r: String)
    ensures
        r@ == md5_hex(s@),
        r@.len() == 32,
{
    format!("{:x}", md5::compute(s.as_bytes()))
}

/// Relies on `json::parse`, indexing by `"data"` then `"mid"` (a missing
/// member reads as null), `JsonValue::as_number` and `Number::as_parts`.
#[verifier::external_body]
fn json_mid_parts_of(s: &str) -> (r: Option<(bool, u64, i16)>)
    ensures
        r == json_mid_parts(s@),
{
    json::parse(s).ok().and_then(|v| v["data"]["mid"].as_number()).map(|n| n.as_parts())
}

/// The `i64` that a JSON number with these parts denotes: only a whole
/// number (exponent 0) within the `i64` range has one.
pub open spec fn i64_of_parts(positive: bool, mantissa: u64, exponent: i16) -> Option<i64> {
    if exponent != 0 {
        None
    } else if positive {
        if mantissa <= i64::MAX {
            Some(mantissa as i64)
        } else {
            None
        }
    } else if mantissa as int <= -(i64::MIN as int) {
        Some((-(mantissa as int)) as i64)
    } else {
        None
    }
}

/// The `i64` that a JSON number with these parts denotes, if any.
pub fn i64_from_parts(positive: bool, mantissa: u64, exponent: i16) -> (r: Option<i64>)
    ensures
        r == i64_of_parts(positive, mantissa, exponent),
{
    if exponent != 0 {
        None
    } else if positive {
        if mantissa <= i64::MAX as u64 {
            Some(mantissa as i64)
        } else {
            None
        }
    } else if mantissa == 9223372036854775808u64 {
        Some(i64::MIN)
    } else if mantissa < 9223372036854775808u64 {
        Some(-(mantissa as i64))
    } else {
        None
    }
}

pub open spec fn digit_char(d: nat) -> char {
    if d == 0 {
        '0'
    } else if d == 1 {
        '1'
    } else if d == 2 {
        '2'
    } else if d == 3 {
        '3'
    } else if d == 4 {
        '4'
    } else if d == 5 {
        '5'
    } else if d == 6 {
        '6'
    } else if d == 7 {
        '7'
    } else if d == 8 {
        '8'
    } else {
        '9'
    }
}

/// Decimal notation of `n`, without leading zeros.
pub open spec fn decimal_of(n: nat) -> Seq<char>
    decreases n,
{
    if n < 10 {
        seq![digit_char(n)]
    } else {
        decimal_of(n / 10).push(digit_char(n % 10))
    }
}

/// The text whose digest signs a lookup: the parameters in canonical order,
/// then the secret.
pub open spec fn sign_payload(key: Seq<char>, ts: nat) -> Seq<char> {
    "access_key="@ + key + "&appkey="@ + APP_KEY@ + "&client="@ + CLIENT@ + "&ts="@ + decimal_of(ts)
        + APP_SEC@
}

/// The signature of a lookup for `key` at Unix time `ts` (seconds).
pub open spec fn signature(key: Seq<char>, ts: nat) -> Seq<char> {
    md5_hex(sign_payload(key, ts))
}

/// The address of a lookup for `key` at time `ts`, carrying `sign`.
pub open spec fn lookup_url_of(key: Seq<char>, ts: nat, sign: Seq<char>) -> Seq<char> {
    PROFILE_ENDPOINT@ + key + "&appkey="@ + APP_KEY@ + "&ts="@ + decimal_of(ts) + "&client="@
        + CLIENT@ + "&sign="@ + sign
}

fn digit_str(d: u64) -> (r: &'static str)
    requires
        d < 10,
    ensures
        r@ == seq![digit_char(d as nat)],
{
    proof {
        reveal_strlit("0");
        reveal_strlit("1");
        reveal_strlit("2");
        reveal_strlit("3");
        reveal_strlit("4");
        reveal_strlit("5");
        reveal_strlit("6");
        reveal_strlit("7");
        reveal_strlit("8");
        reveal_strlit("9");
    }
    let r = match d {
        0 => "0",
        1 => "1",
        2 => "2",
        3 => "3",
        4 => "4",
        5 => "5",
        6 => "6",
        7 => "7",
        8 => "8",
        _ => "9",
    };
    assert(r@ =~= seq![digit_char(d as nat)]);
    r
}

/// Decimal notation of `n`.
pub fn decimal(n: u64) -> (r: String)
    ensures
        r@ == decimal_of(n as nat),
    decreases n,
{
    if n < 10 {
        String::from_str(digit_str(n))
    } else {
        let mut s = decimal(n / 10);
        s.append(digit_str(n % 10));
        s
    }
}

/// The text that is hashed to sign a lookup for `key` at Unix time `ts`.
pub fn sign_text(key: &str, ts: u64) -> (r: String)
    ensures
        r@ == sign_payload(key@, ts as nat),
{
    let mut s = String::from_str("access_key=");
    s.append(key);
    s.append("&appkey=");
    s.append(APP_KEY);
    s.append("&client=");
    s.append(CLIENT);
    s.append("&ts=");
    let digits = decimal(ts);
    s.append(digits.as_str());
    s.append(APP_SEC);
    s
}

/// The signature of a lookup for `key` at Unix time `ts`: a function of the
/// two alone.
pub fn sign(key: &str, ts: u64) -> (r: String)
    ensures
        r@ == signature(key@, ts as nat),
        r@.len() == 32,
{
    let text = sign_text(key, ts);
    md5_hex_of(text.as_str())
}

/// The lookup address for `key` at time `ts`, carrying the signature `sign`.
pub fn lookup_url(key: &str, ts: u64, sign: &str) -> (r: String)
    ensures
        r@ == lookup_url_of(key@, ts as nat, sign@),
{
    let mut s = String::from_str(PROFILE_ENDPOINT);
    s.append(key);
    s.append("&appkey=");
    s.append(APP_KEY);
    s.append("&ts=");
    let digits = decimal(ts);
    s.append(digits.as_str());
    s.append("&client=");
    s.append(CLIENT);
    s.append("&sign=");
    s.append(sign);
    s
}

/// The signed lookup address for `key` at Unix time `ts`.
pub fn signed_lookup_url(key: &str, ts: u64) -> (r: String)
    ensures
        r@ == lookup_url_of(key@, ts as nat, signature(key@, ts as nat)),
{
    let sig = sign(key, ts);
    lookup_url(key, ts, sig.as_str())
}

/// The signed lookup address for `key`, stamped with the current Unix time.
pub fn request_url(key: &str) -> (r: String)
    ensures
        exists|ts: nat| r@ == lookup_url_of(key@, ts, signature(key@, ts)),
{
    let ms = crate::clock::current_milliseconds();
    let ts = (ms / 1000) as u64;
    signed_lookup_url(key, ts)
}

/// The user id that a profile response carries in `data.mid`: present when
/// that member is a whole number within the `i64` range.
pub fn uid_from_response(body: &str) -> (r: Option<i64>)
    ensures
        r == match json_mid_parts(body@) {
            Some((positive, mantissa, exponent)) => i64_of_parts(positive, mantissa, exponent),
            None => None,
        },
{
    match json_mid_parts_of(body) {
        Some((positive, mantissa, exponent)) => i64_from_parts(positive, mantissa, exponent),
        None => None,
    }
}

/// Decimal notation is never empty.
proof fn lemma_decimal_nonempty(n: nat)
    ensures
        decimal_of(n).len() >= 1,
    decreases n,
{
    if n >= 10 {
        lemma_decimal_nonempty(n / 10);
    }
}

/// Distinct numbers have distinct decimal notations.
pub proof fn lemma_decimal_injective(a: nat, b: nat)
    requires
        decimal_of(a) == decimal_of(b),
    ensures
        a == b,
    decreases a,
{
    if a < 10 && b >= 10 {
        lemma_decimal_nonempty(b / 10);
        assert(decimal_of(b).len() >= 2);
    } else if a >= 10 && b < 10 {
        lemma_decimal_nonempty(a / 10);
        assert(decimal_of(a).len() >= 2);
    } else if a >= 10 && b >= 10 {
        assert(decimal_of(a).last() == digit_char(a % 10));
        assert(decimal_of(b).last() == digit_char(b % 10));
        assert(decimal_of(a).drop_last() =~= decimal_of(a / 10));
        assert(decimal_of(b).drop_last() =~= decimal_of(b / 10));
        lemma_decimal_injective(a / 10, b / 10);
    } else {
        assert(decimal_of(a)[0] == digit_char(a));
    }
}

/// Lookups signed at different times sign different texts; the signature of
/// a given key and time is always the same.
pub proof fn lemma_signed_text_depends_on_time(key: Seq<char>, t1: nat, t2: nat)
    ensures
        t1 == t2 ==> signature(key, t1) == signature(key, t2),
        t1 != t2 ==> sign_payload(key, t1) != sign_payload(key, t2),
{
    if t1 != t2 && sign_payload(key, t1) == sign_payload(key, t2) {
        let p = "access_key="@ + key + "&appkey="@ + APP_KEY@ + "&client="@ + CLIENT@ + "&ts="@;
        let d1 = decimal_of(t1);
        let d2 = decimal_of(t2);
        assert(sign_payload(key, t1) =~= p + (d1 + APP_SEC@));
        assert(sign_payload(key, t2) =~= p + (d2 + APP_SEC@));
        assert(d1.len() == d2.len());
        assert((p + (d1 + APP_SEC@)).subrange(p.len() as int, (p.len() + d1.len()) as int) =~= d1);
        assert((p + (d2 + APP_SEC@)).subrange(p.len() as int, (p.len() + d2.len()) as int) =~= d2);
        lemma_decimal_injective(t1, t2);
    }
}

} // verus!
