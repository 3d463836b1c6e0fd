//! Scanning a playlist listing for member URLs.
//!
//! Enumerating a playlist is delegated to an out-of-process listing tool
//! whose output — one JSON object per member — is handed to this module as
//! plain text. A member URL appears as a `"url"` field holding a watch link
//! with an eleven-character alphanumeric id; the scanner collects every such
//! link left to right, never overlapping one match with the next.

use vstd::prelude::*;

use crate::textscan::matches_at;
use crate::textscan::str_to_chars;
use crate::textscan::sub_chars;
use crate::textscan::chars_to_string;

verus! {

/// A character a watch id may contain.
pub open spec fn id_char(c: char) -> bool {
    ||| 97 <= c as u32 <= 122
    ||| 65 <= c as u32 <= 90
    ||| 48 <= c as u32 <= 57
}

fn is_id_char(c: char) -> (r: bool)
    ensures
        r == id_char(c),
{
    let x = c as u32;
    (97 <= x && x <= 122) || (65 <= x && x <= 90) || (48 <= x && x <= 57)
}

/// The text that introduces a member URL in the listing output: the quoted
/// field name and the watch-link prefix, forty characters in all.
pub open spec fn url_field_prefix() -> Seq<char> {
    "\"url\": \"https://www.youtube.com/watch?v="@
}

/// A member URL occurs at `i`: the field prefix, eleven id characters, and
/// the closing quote — fifty-two characters in all.
pub open spec fn member_at(s: Seq<char>, i: int) -> bool {
    &&& 0 <= i
    &&& i + 52 <= s.len()
    &&& s.subrange(i, i + 40) == url_field_prefix()
    &&& (forall|k: int| i + 40 <= k < i + 51 ==> id_char(#[trigger] s[k]))
    &&& s[i + 51] == '"'
}

/// The URL captured at such an occurrence: the watch link with its id,
/// without the field name and quotes.
pub open spec fn member_url_at(s: Seq<char>, i: int) -> Seq<char> {
    s.subrange(i + 8, i + 51)
}

/// Every member URL from position `i` on, leftmost first, each match
/// consumed whole before the scan continues.
pub open spec fn members_from(s: Seq<char>, i: int) -> Seq<Seq<char>>
    decreases s.len() - i
        when 0 <= i <= s.len()
{
    if i + 52 > s.len() {
        Seq::empty()
    } else if member_at(s, i) {
        seq![member_url_at(s, i)] + members_from(s, i + 52)
    } else {
        members_from(s, i + 1)
    }
}

/// Whether the eleven id positions after the prefix at `i` all hold id
/// characters.
fn check_ids(s: &Vec<char>, i: usize) -> (r: bool)
    requires
        i + 51 <= s@.len(),
        s@.len() <= usize::MAX,
    ensures
        r == (forall|k: int| i + 40 <= k < i + 51 ==> id_char(#[trigger] s@[k])),
{
    let mut k: usize = i + 40;
    while k < i + 51
        invariant
            i + 40 <= k <= i + 51,
            i + 51 <= s@.len(),
            s@.len() <= usize::MAX,
            forall|m: int| i + 40 <= m < k ==> id_char(#[trigger] s@[m]),
        decreases i + 51 - k,
    {
        if !is_id_char(s[k]) {
            proof {
                assert(!id_char(s@[k as int]));
            }
            return false;
        }
        k = k + 1;
    }
    true
}

/// All member URLs in a listing, in order of appearance.
#[verifier::loop_isolation(false)]
pub fn extract_playlist_urls(listing: &str) -> (r: Vec<String>)
    ensures
        r.deep_view() == members_from(listing@, 0),
{
    proof {
        reveal_strlit("\"url\": \"https://www.youtube.com/watch?v=");
    }
    let chars = str_to_chars(listing);
    let prefix = str_to_chars("\"url\": \"https://www.youtube.com/watch?v=");
    proof {
        assert(prefix@ == url_field_prefix());
        assert(prefix@.len() == 40);
    }
    let n = chars.len();
    let mut out: Vec<String> = Vec::new();
    let mut i: usize = 0;
    if n < 52 {
        proof {
            assert(members_from(chars@, 0) =~~= Seq::<Seq<char>>::empty());
            assert(out.deep_view() =~~= members_from(chars@, 0));
        }
        return out;
    }
    while i <= n - 52
        invariant
            0 <= i <= n,
            members_from(chars@, 0) =~~= out.deep_view() + members_from(chars@, i as int),
        decreases n - i,
    {
        let pm = matches_at(&chars, &prefix, i);
        let idm = check_ids(&chars, i);
        let qm = chars[i + 51] == '"';
        let hit = pm && idm && qm;
        proof {
            assert(hit == member_at(chars@, i as int));
        }
        if hit {
            let url = sub_chars(&chars, i + 8, i + 51);
            let text = chars_to_string(&url);
            let ghost before = out.deep_view();
            out.push(text);
            proof {
                assert(out.deep_view() =~~= before.push(member_url_at(chars@, i as int)));
                assert(members_from(chars@, 0) =~~= out.deep_view() + members_from(
                    chars@,
                    i + 52,
                ));
            }
            i = i + 52;
        } else {
            proof {
                assert(members_from(chars@, i as int) == members_from(chars@, i + 1));
            }
            i = i + 1;
        }
    }
    proof {
        assert(members_from(chars@, i as int) =~~= Seq::<Seq<char>>::empty());
        assert(out.deep_view() =~~= members_from(chars@, 0));
    }
    out
}

} // verus!
