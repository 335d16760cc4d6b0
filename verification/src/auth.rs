//! Authentication-side decisions: whether a stored token has expired, and
//! the small string rules the login and refresh flows apply.

use vstd::prelude::*;

verus! {

/// The instant an RFC 3339 date-time string denotes, as Unix seconds paired
/// with subsecond nanoseconds, or nothing when the string is rejected; a
/// function of the characters alone.
pub uninterp spec fn rfc3339_instant(s: Seq<char>) -> Option<(int, int)>;

/// Relies on chrono's `DateTime::parse_from_rfc3339`, `timestamp` and
/// `timestamp_subsec_nanos`: parsing accepts or rejects on the characters
/// alone, and the timestamp pair identifies the parsed instant.
#[verifier::external_body]
fn parse_rfc3339_instant(s: &str) -> (r: Option<(i64, u32)>)
    ensures
        match r {
            Some(t) => rfc3339_instant(s@) == Some((t.0 as int, t.1 as int)),
            None => rfc3339_instant(s@) is None,
        },
{
    match chrono::DateTime::parse_from_rfc3339(s) {
        Ok(dt) => Some((dt.timestamp(), dt.timestamp_subsec_nanos())),
        Err(_) => None,
    }
}

/// A stored expiry stamp counts as expired when it does not parse as RFC
/// 3339 at all, or when the instant it names lies strictly before "now".
pub open spec fn expired_at(expiry: Seq<char>, now_secs: int, now_nanos: int) -> bool {
    match rfc3339_instant(expiry) {
        None => true,
        Some(t) => t.0 < now_secs || (t.0 == now_secs && t.1 < now_nanos),
    }
}

/// Whether the access token whose expiry stamp is `expiry` has expired by
/// the instant `now_secs`/`now_nanos` (Unix seconds and nanoseconds); an
/// unreadable stamp counts as expired.
pub fn jwt_expired(expiry: &str, now_secs: i64, now_nanos: u32) -> (b: bool)
    ensures
        b == expired_at(expiry@, now_secs as int, now_nanos as int),
{
    match parse_rfc3339_instant(expiry) {
        None => true,
        Some(t) => t.0 < now_secs || (t.0 == now_secs && t.1 < now_nanos),
    }
}

/// How many characters of a leading run of double-quote marks `s` opens with.
pub open spec fn quote_lead(s: Seq<char>) -> int
    decreases s.len(),
{
    if s.len() > 0 && s[0] == '"' {
        1 + quote_lead(s.drop_first())
    } else {
        0
    }
}

/// How many characters of a trailing run of double-quote marks `s` ends with.
pub open spec fn quote_trail(s: Seq<char>) -> int
    decreases s.len(),
{
    if s.len() > 0 && s.last() == '"' {
        1 + quote_trail(s.drop_last())
    } else {
        0
    }
}

/// `s` with every leading and trailing double-quote mark removed.
pub open spec fn quote_trimmed(s: Seq<char>) -> Seq<char> {
    if quote_lead(s) == s.len() {
        Seq::<char>::empty()
    } else {
        s.subrange(quote_lead(s), s.len() - quote_trail(s))
    }
}

proof fn lemma_quote_lead_at(s: Seq<char>, j: int)
    requires
        0 <= j <= s.len(),
        forall|k: int| 0 <= k < j ==> s[k] == '"',
        j == s.len() || s[j] != '"',
    ensures
        quote_lead(s) == j,
    decreases s.len(),
{
    if j > 0 {
        lemma_quote_lead_at(s.drop_first(), j - 1);
    }
}

proof fn lemma_quote_trail_at(s: Seq<char>, j: int)
    requires
        0 <= j <= s.len(),
        forall|k: int| j <= k < s.len() ==> s[k] == '"',
        j == 0 || s[j - 1] != '"',
    ensures
        quote_trail(s) == s.len() - j,
    decreases s.len(),
{
    if j < s.len() {
        lemma_quote_trail_at(s.drop_last(), j);
    }
}

/// The string with every leading and trailing double-quote mark removed, as
/// the refresh flow cleans a token field before storing it.
pub fn trim_quote_marks(s: &str) -> (r: &str)
    ensures
        r@ == quote_trimmed(s@),
{
    let n: usize = s.unicode_len();
    let mut a: usize = 0;
    while a < n && s.get_char(a) == '"'
        invariant
            a <= n,
            n == s@.len(),
            forall|k: int| 0 <= k < a ==> s@[k] == '"',
        decreases n - a,
    {
        a = a + 1;
    }
    proof {
        lemma_quote_lead_at(s@, a as int);
    }
    let mut b: usize = n;
    while b > a && s.get_char(b - 1) == '"'
        invariant
            a <= b <= n,
            n == s@.len(),
            forall|k: int| b <= k < n ==> s@[k] == '"',
            (a < n && s@[a as int] != '"') ==> b > a,
        decreases b,
    {
        b = b - 1;
    }
    if a == n {
        proof {
            assert(s@.subrange(a as int, a as int) =~= Seq::<char>::empty());
        }
        s.substring_char(a, a)
    } else {
        proof {
            lemma_quote_trail_at(s@, b as int);
        }
        s.substring_char(a, b)
    }
}

/// Whether a login identifier is an email address, by the rule the login
/// flow applies: it holds an at sign anywhere.
pub fn login_id_is_email(id: &str) -> (b: bool)
    ensures
        b == id@.contains('@'),
{
    let n: usize = id.unicode_len();
    let mut i: usize = 0;
    while i < n
        invariant
            i <= n,
            n == id@.len(),
            forall|k: int| 0 <= k < i ==> id@[k] != '@',
        decreases n - i,
    {
        let c: char = id.get_char(i);
        if c == '@' {
            proof {
                assert(id@[i as int] == '@');
            }
            return true;
        }
        i = i + 1;
    }
    false
}

} // verus!
