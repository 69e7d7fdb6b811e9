//! The callback payload: the string a chat button carries, of the exact
//! shape `"{36-char-id}:{action}"`. Parsing is strict; anything else is
//! dropped by the router.

use crate::json::str_eq;
use crate::request_id::hex_digit;
use crate::request_id::hex_rec;
use crate::request_id::lemma_uuid_chars_injective;
use crate::request_id::parse_request_id;
use crate::request_id::uuid_chars;
use crate::request_id::uuid_digit_index;
use crate::request_id::uuid_hyphen_at;
use vstd::prelude::*;
use vstd::string::StrSliceExecFns;

verus! {

/// What a pressed chat button asks for.
#[derive(Debug, Clone, Copy, PartialEq, Eq, Structural)]
pub enum CallbackAction {
    Allow,
    Deny,
    Reply,
    Always,
}

/// A parsed callback payload.
pub struct CallbackData {
    pub request_id: u128,
    pub action: CallbackAction,
}

/// The payload word of each action.
pub open spec fn action_chars(a: CallbackAction) -> Seq<char> {
    match a {
        CallbackAction::Allow => seq!['a', 'l', 'l', 'o', 'w'],
        CallbackAction::Deny => seq!['d', 'e', 'n', 'y'],
        CallbackAction::Reply => seq!['r', 'e', 'p', 'l', 'y'],
        CallbackAction::Always => seq!['a', 'l', 'w', 'a', 'y', 's'],
    }
}

/// Whether `s` is exactly the payload of `a` for request `id`:
/// the canonical identifier, one colon, the action word.
pub open spec fn is_callback_payload(s: Seq<char>, id: u128, a: CallbackAction) -> bool {
    s == uuid_chars(id) + seq![':'] + action_chars(a)
}

proof fn lemma_uuid_chars_no_colon(id: u128)
    ensures
        forall|i: int| 0 <= i < 36 ==> uuid_chars(id)[i] != ':',
{
    assert forall|i: int| 0 <= i < 36 implies uuid_chars(id)[i] != ':' by {
        if !uuid_hyphen_at(i) {
            let d = hex_rec(id as int, 32)[uuid_digit_index(i)];
            assert(uuid_chars(id)[i] == hex_digit(d));
        }
    }
}

/// One payload names one request and one action: two readings of the same
/// payload agree.
pub proof fn lemma_callback_payload_injective(
    s: Seq<char>,
    id1: u128,
    a1: CallbackAction,
    id2: u128,
    a2: CallbackAction,
)
    requires
        is_callback_payload(s, id1, a1),
        is_callback_payload(s, id2, a2),
    ensures
        id1 == id2,
        a1 == a2,
{
    assert forall|i: int| 0 <= i < 36 implies uuid_chars(id1)[i] == uuid_chars(id2)[i] by {
        assert(s[i] == uuid_chars(id1)[i]);
        assert(s[i] == uuid_chars(id2)[i]);
    }
    assert(uuid_chars(id1) =~= uuid_chars(id2));
    lemma_uuid_chars_injective(id1, id2);
    assert(action_chars(a1) =~= action_chars(a2)) by {
        assert(s.len() == 37 + action_chars(a1).len());
        assert(s.len() == 37 + action_chars(a2).len());
        assert(forall|i: int|
            0 <= i < action_chars(a1).len() ==> #[trigger] action_chars(a1)[i] == s[37 + i]);
        assert(forall|i: int|
            0 <= i < action_chars(a2).len() ==> #[trigger] action_chars(a2)[i] == s[37 + i]);
    }
    assert(a1 == a2) by {
        if a1 != a2 {
            assert(action_chars(a1)[0] == action_chars(a2)[0]);
            assert(action_chars(a1).len() == action_chars(a2).len());
            assert(action_chars(a1)[1] == action_chars(a2)[1]);
            assert(action_chars(a1)[2] == action_chars(a2)[2]);
        }
    }
}

impl CallbackData {
    /// Reads a payload of the exact shape `"{id}:{action}"`; anything else,
    /// an unknown action word included, parses to nothing.
    pub fn parse(data: &str) -> (r: Option<CallbackData>)
        ensures
            match r {
                Some(cd) => is_callback_payload(data@, cd.request_id, cd.action),
                None => forall|id: u128, a: CallbackAction|
                    !is_callback_payload(data@, id, a),
            },
    {
        let n = data.unicode_len();
        let mut j: usize = 0;
        let mut colon: Option<usize> = None;
        loop
            invariant_except_break
                colon is None,
            invariant
                0 <= j <= n,
                n == data@.len(),
                forall|q: int| 0 <= q < j ==> data@[q] != ':',
            ensures
                (match colon {
                    Some(c) => 0 <= c < n && data@[c as int] == ':' && (forall|q: int|
                        0 <= q < c ==> data@[q] != ':'),
                    None => forall|q: int| 0 <= q < n ==> data@[q] != ':',
                }),
            decreases n - j,
        {
            if j == n {
                break;
            }
            if data.get_char(j) == ':' {
                colon = Some(j);
                break;
            }
            j = j + 1;
        }
        let j = match colon {
            Some(c) => c,
            None => {
                proof {
                    assert forall|id: u128, a: CallbackAction| !is_callback_payload(
                        data@,
                        id,
                        a,
                    ) by {
                        if is_callback_payload(data@, id, a) {
                            assert(data@.len() >= 41);
                            assert(data@[36] == ':');
                        }
                    }
                }
                return None;
            },
        };
        let prefix = data.substring_char(0, j);
        let id = match parse_request_id(prefix) {
            Some(id) => id,
            None => {
                proof {
                    assert forall|id: u128, a: CallbackAction| !is_callback_payload(
                        data@,
                        id,
                        a,
                    ) by {
                        if is_callback_payload(data@, id, a) {
                            lemma_uuid_chars_no_colon(id);
                            assert(data@[36] == ':');
                            assert(forall|q: int| 0 <= q < 36 ==> data@[q] != ':');
                            assert(j == 36);
                            assert(prefix@ =~= uuid_chars(id));
                        }
                    }
                }
                return None;
            },
        };
        proof {
            assert(prefix@.len() == 36);
            assert(j == 36);
        }
        let word = data.substring_char(j + 1, n);
        let action = if str_eq(word, "allow") {
            proof {
                reveal_strlit("allow");
                assert("allow"@ =~= action_chars(CallbackAction::Allow));
            }
            CallbackAction::Allow
        } else if str_eq(word, "deny") {
            proof {
                reveal_strlit("deny");
                assert("deny"@ =~= action_chars(CallbackAction::Deny));
            }
            CallbackAction::Deny
        } else if str_eq(word, "reply") {
            proof {
                reveal_strlit("reply");
                assert("reply"@ =~= action_chars(CallbackAction::Reply));
            }
            CallbackAction::Reply
        } else if str_eq(word, "always") {
            proof {
                reveal_strlit("always");
                assert("always"@ =~= action_chars(CallbackAction::Always));
            }
            CallbackAction::Always
        } else {
            proof {
                reveal_strlit("allow");
                reveal_strlit("deny");
                reveal_strlit("reply");
                reveal_strlit("always");
                assert forall|id2: u128, a: CallbackAction| !is_callback_payload(
                    data@,
                    id2,
                    a,
                ) by {
                    if is_callback_payload(data@, id2, a) {
                        lemma_uuid_chars_no_colon(id2);
                        assert(data@[36] == ':');
                        assert(j == 36);
                        assert(word@ =~= action_chars(a));
                        assert("allow"@ =~= action_chars(CallbackAction::Allow));
                        assert("deny"@ =~= action_chars(CallbackAction::Deny));
                        assert("reply"@ =~= action_chars(CallbackAction::Reply));
                        assert("always"@ =~= action_chars(CallbackAction::Always));
                    }
                }
            }
            return None;
        };
        proof {
            assert(data@ =~= prefix@ + seq![':'] + word@);
        }
        Some(CallbackData { request_id: id, action })
    }
}

} // verus!
