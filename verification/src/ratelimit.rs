//! The rate-limit key extractor: a stable throttling-bucket discriminator
//! derived from the `Authorization` header.
//!
//! The key is the header value after a leading `Bearer ` with surrounding
//! whitespace trimmed; any request without a well-formed bearer value maps
//! to the empty key, one shared bucket for all anonymous or malformed
//! traffic.

use vstd::prelude::*;
use vstd::string::StrSliceExecFns;

verus! {

/// The characters `str::trim` removes: those with the Unicode
/// `White_Space` property.
pub open spec fn is_ws(c: char) -> bool {
    c == '\u{0009}' || c == '\u{000A}' || c == '\u{000B}' || c == '\u{000C}' || c == '\u{000D}'
        || c == '\u{0020}' || c == '\u{0085}' || c == '\u{00A0}' || c == '\u{1680}' || c
        == '\u{2000}' || c == '\u{2001}' || c == '\u{2002}' || c == '\u{2003}' || c == '\u{2004}'
        || c == '\u{2005}' || c == '\u{2006}' || c == '\u{2007}' || c == '\u{2008}' || c
        == '\u{2009}' || c == '\u{200A}' || c == '\u{2028}' || c == '\u{2029}' || c == '\u{202F}'
        || c == '\u{205F}' || c == '\u{3000}'
}

/// Whether `c` has the Unicode `White_Space` property.
pub fn char_is_ws(c: char) -> (r: bool)
    ensures
        r == is_ws(c),
{
    c == '\u{0009}' || c == '\u{000A}' || c == '\u{000B}' || c == '\u{000C}' || c == '\u{000D}'
        || c == '\u{0020}' || c == '\u{0085}' || c == '\u{00A0}' || c == '\u{1680}' || c
        == '\u{2000}' || c == '\u{2001}' || c == '\u{2002}' || c == '\u{2003}' || c == '\u{2004}'
        || c == '\u{2005}' || c == '\u{2006}' || c == '\u{2007}' || c == '\u{2008}' || c
        == '\u{2009}' || c == '\u{200A}' || c == '\u{2028}' || c == '\u{2029}' || c == '\u{202F}'
        || c == '\u{205F}' || c == '\u{3000}'
}

/// `s` without its leading whitespace.
pub open spec fn trim_front(s: Seq<char>) -> Seq<char>
    decreases s.len(),
{
    if s.len() > 0 && is_ws(s[0]) {
        trim_front(s.drop_first())
    } else {
        s
    }
}

/// `s` without its trailing whitespace.
pub open spec fn trim_back(s: Seq<char>) -> Seq<char>
    decreases s.len(),
{
    if s.len() > 0 && is_ws(s[s.len() - 1]) {
        trim_back(s.drop_last())
    } else {
        s
    }
}

/// `s` without surrounding whitespace, as `str::trim` leaves it.
pub open spec fn trim_spec(s: Seq<char>) -> Seq<char> {
    trim_back(trim_front(s))
}

/// The characters of `Bearer `, the prefix an authorization value must
/// carry.
pub open spec fn bearer_prefix() -> Seq<char> {
    seq!['B', 'e', 'a', 'r', 'e', 'r', ' ']
}

/// The throttling key an authorization header value yields: the trimmed
/// remainder after `Bearer `, or the empty key when the header is absent
/// or lacks that prefix.
pub open spec fn key_of(auth: Option<Seq<char>>) -> Seq<char> {
    match auth {
        Option::None => Seq::empty(),
        Option::Some(s) => if s.len() >= 7 && s.take(7) == bearer_prefix() {
            trim_spec(s.skip(7))
        } else {
            Seq::empty()
        },
    }
}

/// Whether `s` starts with `Bearer `.
fn has_bearer_prefix(s: &str) -> (r: bool)
    ensures
        r == (s@.len() >= 7 && s@.take(7) == bearer_prefix()),
{
    let len = s.unicode_len();
    if len < 7 {
        return false;
    }
    let r = s.get_char(0) == 'B' && s.get_char(1) == 'e' && s.get_char(2) == 'a' && s.get_char(3)
        == 'r' && s.get_char(4) == 'e' && s.get_char(5) == 'r' && s.get_char(6) == ' ';
    proof {
        if r {
            assert(s@.take(7) =~= bearer_prefix());
        } else {
            assert(s@.take(7) != bearer_prefix());
        }
    }
    r
}

/// Derive the rate-limit key from the `Authorization` header value, or
/// from its absence. Total: every input yields a key, possibly empty.
pub fn extract_key(auth: Option<&str>) -> (r: String)
    ensures
        r@ == key_of(auth.deep_view()),
{
    let s: &str = match auth {
        Option::None => {
            return String::new();
        },
        Option::Some(s) => s,
    };
    if !has_bearer_prefix(s) {
        return String::new();
    }
    let len = s.unicode_len();
    let rest = s.substring_char(7, len);
    let ghost t = rest@;
    assert(t =~= s@.skip(7));
    let rlen = len - 7;
    proof {
        assert(t.skip(0) =~= t);
    }
    let mut start: usize = 0;
    while start < rlen && char_is_ws(rest.get_char(start))
        invariant
            0 <= start <= rlen,
            rlen == t.len(),
            t == rest@,
            trim_front(t) == trim_front(t.skip(start as int)),
        decreases rlen - start,
    {
        proof {
            assert(t.skip(start as int).drop_first() =~= t.skip(start as int + 1));
        }
        start += 1;
    }
    proof {
        assert(trim_front(t) == t.skip(start as int));
        let u = t.skip(start as int);
        assert(u.take(u.len() as int) =~= u);
    }
    let mut end: usize = rlen;
    while end > start && char_is_ws(rest.get_char(end - 1))
        invariant
            start <= end <= rlen,
            rlen == t.len(),
            t == rest@,
            trim_front(t) == t.skip(start as int),
            trim_back(t.skip(start as int)) == trim_back(
                t.skip(start as int).take(end - start as int),
            ),
        decreases end,
    {
        proof {
            let u = t.skip(start as int);
            assert(u.take(end - start as int).drop_last() =~= u.take(end - 1 - start as int));
        }
        end -= 1;
    }
    proof {
        let u = t.skip(start as int);
        assert(trim_back(u) == u.take(end - start as int));
        assert(u.take(end - start as int) =~= t.subrange(start as int, end as int));
    }
    rest.substring_char(start, end).to_owned()
}

/// Any absent header, and any value not of the shape `Bearer ` followed by
/// anything, yields the empty key.
pub proof fn lemma_extract_empty_without_bearer(s: Seq<char>)
    ensures
        key_of(Option::None) == Seq::<char>::empty(),
        !(s.len() >= 7 && s.take(7) == bearer_prefix()) ==> key_of(Option::Some(s))
            == Seq::<char>::empty(),
{
}

proof fn lemma_trim_front_suffix(s: Seq<char>)
    ensures
        trim_front(s).len() > 0 ==> !is_ws(trim_front(s)[0]),
        trim_front(s) == s.skip(s.len() - trim_front(s).len()),
        trim_front(s).len() <= s.len(),
    decreases s.len(),
{
    if s.len() > 0 && is_ws(s[0]) {
        lemma_trim_front_suffix(s.drop_first());
        assert(s.drop_first().skip(s.drop_first().len() - trim_front(s).len()) =~= s.skip(
            s.len() - trim_front(s).len(),
        ));
    } else {
        assert(s.skip(0) =~= s);
    }
}

proof fn lemma_trim_back_prefix(s: Seq<char>)
    ensures
        trim_back(s).len() > 0 ==> !is_ws(trim_back(s)[trim_back(s).len() - 1]),
        trim_back(s) == s.take(trim_back(s).len() as int),
        trim_back(s).len() <= s.len(),
    decreases s.len(),
{
    if s.len() > 0 && is_ws(s[s.len() - 1]) {
        lemma_trim_back_prefix(s.drop_last());
        assert(s.drop_last().take(trim_back(s).len() as int) =~= s.take(
            trim_back(s).len() as int,
        ));
    } else {
        assert(s.take(s.len() as int) =~= s);
    }
}

/// Trimming is idempotent: a trimmed value trims to itself.
proof fn lemma_trim_idempotent(s: Seq<char>)
    ensures
        trim_spec(trim_spec(s)) == trim_spec(s),
{
    let t = trim_front(s);
    let u = trim_back(t);
    lemma_trim_front_suffix(s);
    lemma_trim_back_prefix(t);
    if u.len() > 0 {
        assert(u[0] == t[0]);
        assert(trim_front(u) == u);
        assert(trim_back(u) == u);
    }
}

/// Extraction is idempotent: presenting an already-extracted key behind a
/// fresh `Bearer ` prefix extracts that key again, unchanged.
pub proof fn lemma_extract_idempotent(auth: Option<Seq<char>>)
    ensures
        key_of(Option::Some(bearer_prefix() + key_of(auth))) == key_of(auth),
{
    let k = key_of(auth);
    let s = bearer_prefix() + k;
    assert(s.take(7) =~= bearer_prefix());
    assert(s.skip(7) =~= k);
    match auth {
        Option::None => {
            assert(trim_spec(Seq::<char>::empty()) == Seq::<char>::empty());
        },
        Option::Some(a) => {
            if a.len() >= 7 && a.take(7) == bearer_prefix() {
                lemma_trim_idempotent(a.skip(7));
            } else {
                assert(trim_spec(Seq::<char>::empty()) == Seq::<char>::empty());
            }
        },
    }
}

} // verus!
