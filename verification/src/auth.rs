//! The credentials that an event arrives with.

use crate::text::after_last;
use crate::text::before_first;
use crate::text::chars_of;
use crate::text::count_leading;
use crate::text::count_trailing;
use crate::text::has_prefix;
use crate::text::lemma_run_is_all;
use crate::text::same_chars;
use crate::text::starts_with;
use crate::text::strip;
use crate::text::strip_bounds;
use crate::text::strip_start;
use crate::text::substring;
use crate::text::CharClass;
use vstd::prelude::*;

verus! {

/// Event authorization data: every event names the session it is meant for
/// and claims that session's secret.
#[derive(Debug, Clone, PartialEq, Eq)]
pub struct EventAuth {
    /// The session that the event claims to belong to.
    pub ident: String,
    /// The secret that the sender claims to know.
    pub signature: String,
}

/// Whether a claimed signature stands for a secret: the two are the same
/// once the white space at their ends is taken off.
pub open spec fn signature_matches(signature: Seq<char>, secret: Seq<char>) -> bool {
    strip(signature, CharClass::WhiteSpace) == strip(secret, CharClass::WhiteSpace)
}

impl EventAuth {
    /// Verifies the signature of the incoming event against the secret of a
    /// session. The comparison is plain equality of the trimmed strings: it
    /// hashes nothing and does not run in constant time.
    pub fn verify(&self, secret: &str) -> (ok: bool)
        ensures
            ok == signature_matches(self.signature@, secret@),
    {
        let claimed = chars_of(self.signature.as_str());
        let stored = chars_of(secret);
        let (a, b) = strip_bounds(&claimed, 0, claimed.len(), CharClass::WhiteSpace);
        let (c, d) = strip_bounds(&stored, 0, stored.len(), CharClass::WhiteSpace);
        assert(claimed@.subrange(0, claimed.len() as int) =~= self.signature@);
        assert(stored@.subrange(0, stored.len() as int) =~= secret@);
        same_chars(&claimed, a, b, &stored, c, d)
    }
}

/// The value of a segment `key=value`: what follows its last `=`, without
/// the double quotes at its ends.
pub open spec fn segment_value(segment: Seq<char>) -> Seq<char> {
    strip(after_last(segment, '='), CharClass::Only('"'))
}

/// Whether a segment gives a value for `key`: it begins with the key, after
/// white space if there is any, and holds an `=`.
pub open spec fn gives(segment: Seq<char>, key: Seq<char>) -> bool {
    has_prefix(strip_start(segment, CharClass::WhiteSpace), key) && segment.contains('=')
}

/// The value that `header`, a list of segments with commas in between, has
/// for `key`: that of the first segment that gives one, and the empty string
/// where none does.
pub open spec fn header_value(header: Seq<char>, key: Seq<char>) -> Seq<char>
    decreases header.len(),
{
    let segment = before_first(header, ',');
    if gives(segment, key) {
        segment_value(segment)
    } else if segment.len() >= header.len() {
        Seq::empty()
    } else {
        header_value(header.skip(segment.len() as int + 1), key)
    }
}

/// The value that `header` has for `key`.
fn find_value(header: &str, chars: &Vec<char>, key: &Vec<char>) -> (value: String)
    requires
        chars@ == header@,
    ensures
        value@ == header_value(header@, key@),
{
    let len = chars.len();
    let mut from: usize = 0;
    assert(chars@.subrange(0, len as int) =~= header@);
    loop
        invariant
            from <= len == chars.len(),
            chars@ == header@,
            header_value(header@, key@) == header_value(
                chars@.subrange(from as int, len as int),
                key@,
            ),
        decreases len - from,
    {
        let ghost rest = chars@.subrange(from as int, len as int);
        let segment_len = count_leading(chars, from, len, CharClass::Except(','));
        let to = from + segment_len;
        let ghost segment = chars@.subrange(from as int, to as int);
        let lead = count_leading(chars, from, to, CharClass::WhiteSpace);
        let tail = count_trailing(chars, from, to, CharClass::Except('='));
        let begins = starts_with(chars, from + lead, to, key);
        proof {
            assert(before_first(rest, ',') =~= segment);
            assert(strip_start(segment, CharClass::WhiteSpace) =~= chars@.subrange(
                from + lead,
                to as int,
            ));
            lemma_run_is_all(segment, CharClass::Except('='));
            if segment.contains('=') {
                let i = choose|i: int| 0 <= i < segment.len() && segment[i] == '=';
                assert(!CharClass::Except('=').has(segment[i]));
            }
            assert(segment.contains('=') <==> tail < segment_len);
            assert(after_last(segment, '=') =~= chars@.subrange(to - tail, to as int));
        }
        if tail < segment_len && begins {
            let (a, b) = strip_bounds(chars, to - tail, to, CharClass::Only('"'));
            return substring(header, a, b);
        }
        if to >= len {
            return String::new();
        }
        assert(rest.skip(segment.len() as int + 1) =~= chars@.subrange(to + 1, len as int));
        from = to + 1;
    }
}

/// Reads the credentials of an event from an `Authorization` header: the
/// session from the segment `oauth_consumer_key`, the claimed secret from
/// the segment `oauth_token`.
pub fn webhook_auth(header: &str) -> (auth: EventAuth)
    ensures
        auth.ident@ == header_value(header@, "oauth_consumer_key"@),
        auth.signature@ == header_value(header@, "oauth_token"@),
{
    let chars = chars_of(header);
    let ident_key = chars_of("oauth_consumer_key");
    let secret_key = chars_of("oauth_token");
    let ident = find_value(header, &chars, &ident_key);
    let signature = find_value(header, &chars, &secret_key);
    EventAuth { ident, signature }
}

} // verus!
