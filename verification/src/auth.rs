//! Credentials: a user id and an API key, parsed once from the credential
//! blob that the service's account page hands out.

use vstd::prelude::*;

use crate::error::Error;
use crate::text::all_digits;
use crate::text::dec_value;
use crate::text::find_sub;
use crate::text::occurs_at;
use crate::text::parse_u64;

verus! {

/// Credentials for authenticated requests, held for the lifetime of a
/// session and never mutated.
#[derive(Clone, Debug)]
pub struct AuthDetails {
    pub user: usize,
    pub key: String,
}

/// The marker that separates the key segment from the user id.
pub open spec fn user_marker() -> Seq<char> {
    "&user_id="@
}

/// Whether the blob holds the user-id marker anywhere.
pub open spec fn has_marker(qs: Seq<char>) -> bool {
    exists|i: int| occurs_at(qs, user_marker(), i)
}

/// The first position of the user-id marker in a blob that holds one.
pub open spec fn marker_pos(qs: Seq<char>) -> int {
    choose|i: int|
        occurs_at(qs, user_marker(), i) && forall|j: int|
            0 <= j < i ==> !occurs_at(qs, user_marker(), j)
}

/// In a blob that holds the marker, `marker_pos` is a position of it and
/// the least one.
pub proof fn lemma_marker_pos(qs: Seq<char>)
    requires
        has_marker(qs),
    ensures
        occurs_at(qs, user_marker(), marker_pos(qs)),
        forall|j: int| 0 <= j < marker_pos(qs) ==> !occurs_at(qs, user_marker(), j),
{
    let w = choose|i: int| occurs_at(qs, user_marker(), i);
    lemma_least_occurrence(qs, w);
}

/// Below any occurrence of the marker there is a least occurrence.
proof fn lemma_least_occurrence(qs: Seq<char>, w: int)
    requires
        occurs_at(qs, user_marker(), w),
    ensures
        occurs_at(qs, user_marker(), marker_pos(qs)),
        forall|j: int| 0 <= j < marker_pos(qs) ==> !occurs_at(qs, user_marker(), j),
    decreases w,
{
    if forall|j: int| 0 <= j < w ==> !occurs_at(qs, user_marker(), j) {
        assert(occurs_at(qs, user_marker(), w) && forall|j: int|
            0 <= j < w ==> !occurs_at(qs, user_marker(), j));
    } else {
        let w2 = choose|j: int| 0 <= j < w && occurs_at(qs, user_marker(), j);
        lemma_least_occurrence(qs, w2);
    }
}

/// The digits after the first marker.
pub open spec fn id_text(qs: Seq<char>) -> Seq<char> {
    qs.skip(marker_pos(qs) + 9)
}

/// Whether the blob parses: the marker is present, it starts no earlier
/// than the fixed nine-character key prefix ends, and what follows it is a
/// number that fits.
pub open spec fn auth_ok(qs: Seq<char>) -> bool {
    &&& has_marker(qs)
    &&& marker_pos(qs) >= 9
    &&& id_text(qs).len() > 0
    &&& all_digits(id_text(qs))
    &&& dec_value(id_text(qs)) <= usize::MAX
}

/// The key segment of a blob that parses: the text between the fixed
/// nine-character prefix and the first marker.
pub open spec fn auth_key(qs: Seq<char>) -> Seq<char> {
    qs.subrange(9, marker_pos(qs))
}

/// The user id of a blob that parses.
pub open spec fn auth_user(qs: Seq<char>) -> nat {
    dec_value(id_text(qs))
}

impl AuthDetails {
    /// Parses the credential blob: locates the first user-id marker and
    /// splits the key (the text before it, past the fixed nine-character
    /// prefix) from the numeric user id (the text after it). A blob
    /// without the marker, with the marker inside the prefix, or with a
    /// non-numeric id segment is a credential-parse error.
    pub fn from_query_string(qs: &str) -> (r: Result<Self, Error>)
        ensures
            r is Ok <==> auth_ok(qs@),
            r matches Ok(a) ==> a.user == auth_user(qs@) && a.key@ == auth_key(qs@),
            r matches Err(e) ==> e == Error::CredentialParse,
    {
        proof {
            reveal_strlit("&user_id=");
        }
        let marker = "&user_id=";
        let found = find_sub(qs, marker);
        let i = match found {
            Some(i) => i,
            None => {
                proof {
                    assert(!has_marker(qs@));
                }
                return Err(Error::CredentialParse);
            },
        };
        proof {
            assert(occurs_at(qs@, user_marker(), i as int));
            lemma_marker_pos(qs@);
            assert(marker_pos(qs@) == i) by {
                let m = marker_pos(qs@);
                if m < i {
                    assert(!occurs_at(qs@, user_marker(), m));
                }
                if m > i {
                    assert(!occurs_at(qs@, user_marker(), i as int));
                }
            }
        }
        if i < 9 {
            return Err(Error::CredentialParse);
        }
        let len = qs.unicode_len();
        let id_part = qs.substring_char(i + 9, len);
        proof {
            assert(id_part@ =~= id_text(qs@));
        }
        let user = match parse_u64(id_part) {
            Some(v) => v,
            None => {
                return Err(Error::CredentialParse);
            },
        };
        if user > (usize::MAX as u64) {
            return Err(Error::CredentialParse);
        }
        let key = qs.substring_char(9, i).to_owned();
        proof {
            assert(key@ =~= auth_key(qs@));
        }
        Ok(AuthDetails { user: user as usize, key })
    }
}

} // verus!
