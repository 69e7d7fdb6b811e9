//! The hook's decision logic: mapping the broker's response to the decision
//! the assistant reads, building the request that goes over the socket, and
//! pulling the assistant's last words out of the transcript.

use crate::json::jget;
use crate::json::jview;
use crate::json::Json;
use crate::json::JsonV;
use crate::models::Decision;
use crate::models::HookBehavior;
use crate::models::HookInput;
use crate::models::HookOutput;
use crate::models::IpcRequest;
use crate::models::IpcResponse;
use crate::request_id::fresh_request_id;
use crate::text::spec_truncate;
use crate::text::trim_spec;
use crate::text::trim_text;
use crate::text::truncate_assistant_context;
use vstd::prelude::*;
use vstd::string::StrSliceExecFns;
use vstd::string::StringExecFns;

verus! {

/// The message a denial carries when the human gave none.
pub open spec fn default_deny_message() -> Seq<char> {
    "Denied via Telegram"@
}

/// Maps a decision response to the output the assistant reads; a timeout
/// maps to no output at all, and the caller exits without a decision.
/// The decision-shape rules live in this contract: allow and always-allow
/// come out as allowing behaviour, always-allow carries the permission
/// update, denial and reply come out as denying behaviour with a non-empty
/// message.
pub fn map_decision_to_output(response: &IpcResponse) -> (r: Option<HookOutput>)
    ensures
        response.decision == Decision::Timeout <==> r is None,
        response.decision == Decision::Allow ==> (r matches Some(o) && {
            let d = o.hook_specific_output.decision;
            &&& d.behavior == HookBehavior::Allow
            &&& d.message is None
            &&& d.updated_permissions is None
        }),
        response.decision == Decision::Deny ==> (r matches Some(o) && {
            let d = o.hook_specific_output.decision;
            &&& d.behavior == HookBehavior::Deny
            &&& (d.message matches Some(m) && m@ == (match response.message {
                Some(msg) => msg@,
                None => default_deny_message(),
            }))
            &&& d.updated_permissions is None
        }),
        response.decision == Decision::AlwaysAllow ==> (r matches Some(o) && {
            let d = o.hook_specific_output.decision;
            &&& d.behavior == HookBehavior::Allow
            &&& d.message is None
            &&& (d.updated_permissions matches Some(perms) && (match response
                .always_allow_suggestion {
                Some(s) => perms@.len() == 1 && jview(perms@[0]) == jview(s),
                None => perms@.len() == 0,
            }))
        }),
        response.decision == Decision::Reply ==> (r matches Some(o) && {
            let d = o.hook_specific_output.decision;
            &&& d.behavior == HookBehavior::Deny
            &&& (d.message matches Some(m) && m@ == "The user wants you to modify your approach: "@
                + (match response.user_message {
                Some(u) => u@,
                None => "(no message)"@,
            }) && m@.len() > 0)
            &&& d.updated_permissions is None
        }),
{
    match response.decision {
        Decision::Allow => Some(HookOutput::allow()),
        Decision::Deny => {
            let msg = match &response.message {
                Some(m) => m.clone(),
                None => {
                    let m = String::from_str("Denied via Telegram");
                    proof {
                        reveal_strlit("Denied via Telegram");
                    }
                    m
                },
            };
            Some(HookOutput::deny(msg))
        },
        Decision::AlwaysAllow => {
            let mut permissions: Vec<Json> = Vec::new();
            match &response.always_allow_suggestion {
                Some(s) => {
                    permissions.push(s.duplicate());
                },
                None => {},
            }
            Some(HookOutput::allow_always(permissions))
        },
        Decision::Reply => {
            let mut msg = String::from_str("The user wants you to modify your approach: ");
            match &response.user_message {
                Some(u) => {
                    msg.append(u.as_str());
                },
                None => {
                    msg.append("(no message)");
                },
            }
            proof {
                reveal_strlit("The user wants you to modify your approach: ");
            }
            Some(HookOutput::deny(msg))
        },
        Decision::Timeout => None,
    }
}

/// The hook's own deadline: the broker's timeout plus a grace window, so
/// the broker's timeout response always arrives as a structured decision
/// before the hook gives up on the transport.
pub fn hook_wait_seconds(timeout_seconds: u64) -> (r: u64)
    requires
        timeout_seconds <= 3600,
    ensures
        r == timeout_seconds + 30,
{
    timeout_seconds + 30
}

/// Builds the permission request sent to the broker: the envelope's fields
/// carried over unchanged, the derived assistant context attached, and a
/// fresh random identifier as the correlation key.
pub fn build_ipc_request(input: HookInput, assistant_context: Option<String>) -> (r: IpcRequest)
    ensures
        r.tool_name == input.tool_name,
        r.tool_input == input.tool_input,
        r.cwd == input.cwd,
        r.session_id == input.session_id,
        r.permission_suggestions == input.permission_suggestions,
        r.assistant_context == assistant_context,
{
    let request_id = fresh_request_id();
    IpcRequest {
        request_id,
        tool_name: input.tool_name,
        tool_input: input.tool_input,
        cwd: input.cwd,
        session_id: input.session_id,
        permission_suggestions: input.permission_suggestions,
        assistant_context,
    }
}

/// Whether a transcript entry is an assistant entry.
pub open spec fn is_assistant_entry(v: JsonV) -> bool {
    jget(v, "type"@) == Some(JsonV::Str("assistant"@))
}

/// The content blocks of a transcript entry, when it has any.
pub open spec fn content_blocks(v: JsonV) -> Option<Seq<JsonV>> {
    match jget(v, "message"@) {
        Some(m) => match jget(m, "content"@) {
            Some(JsonV::Arr(items)) => Some(items),
            _ => None,
        },
        _ => None,
    }
}

/// The trimmed, non-empty texts of the text blocks among `items`.
pub open spec fn block_texts(items: Seq<JsonV>) -> Seq<Seq<char>>
    decreases items.len(),
{
    if items.len() == 0 {
        Seq::empty()
    } else {
        let head: Seq<Seq<char>> = if jget(items[0], "type"@) == Some(JsonV::Str("text"@)) && (
        match jget(items[0], "text"@) {
            Some(t) => t is Str && trim_spec(t->Str_0).len() > 0,
            None => false,
        }) {
            match jget(items[0], "text"@) {
                Some(t) => seq![trim_spec(t->Str_0)],
                None => Seq::empty(),
            }
        } else {
            Seq::empty()
        };
        head + block_texts(items.drop_first())
    }
}

/// Texts joined by single line feeds.
pub open spec fn join_lines(ts: Seq<Seq<char>>) -> Seq<char>
    decreases ts.len(),
{
    if ts.len() == 0 {
        Seq::empty()
    } else if ts.len() == 1 {
        ts[0]
    } else {
        ts[0] + seq!['\n'] + join_lines(ts.drop_first())
    }
}

/// The assistant context one transcript entry yields: the joined texts of
/// an assistant entry that has at least one, and nothing otherwise.
pub open spec fn entry_context(v: JsonV) -> Option<Seq<char>> {
    if is_assistant_entry(v) {
        match content_blocks(v) {
            Some(items) => if block_texts(items).len() > 0 {
                Some(join_lines(block_texts(items)))
            } else {
                None
            },
            None => None,
        }
    } else {
        None
    }
}

/// The context of the last yielding entry among the first `i` entries.
pub open spec fn last_context(entries: Seq<Json>, i: int) -> Option<Seq<char>>
    decreases i,
{
    if i <= 0 {
        None
    } else {
        match entry_context(jview(entries[i - 1])) {
            Some(t) => Some(t),
            None => last_context(entries, i - 1),
        }
    }
}

proof fn lemma_block_texts_snoc(items: Seq<JsonV>, k: int)
    requires
        0 <= k < items.len(),
    ensures
        block_texts(items.take(k + 1)) == block_texts(items.take(k)) + (if (jget(
            items[k],
            "type"@,
        ) == Some(JsonV::Str("text"@)) && (match jget(items[k], "text"@) {
            Some(t) => t is Str && trim_spec(t->Str_0).len() > 0,
            None => false,
        })) {
            match jget(items[k], "text"@) {
                Some(t) => seq![trim_spec(t->Str_0)],
                None => Seq::<Seq<char>>::empty(),
            }
        } else {
            Seq::<Seq<char>>::empty()
        }),
    decreases k,
{
    if k == 0 {
        assert(items.take(1) =~= seq![items[0]]);
        assert(seq![items[0]].drop_first() =~= Seq::<JsonV>::empty());
        assert(items.take(0) =~= Seq::<JsonV>::empty());
        assert(block_texts(items.take(1)).len() <= 1);
        assert(block_texts(items.take(0)) =~= Seq::<Seq<char>>::empty());
        assert(block_texts(items.take(k + 1)) =~= block_texts(items.take(k)) + block_texts(
            items.take(k + 1),
        ));
    } else {
        lemma_block_texts_snoc(items.drop_first(), k - 1);
        assert(items.take(k + 1).drop_first() =~= items.drop_first().take(k));
        assert(items.take(k).drop_first() =~= items.drop_first().take(k - 1));
        assert(items.drop_first()[k - 1] == items[k]);
        assert(items.take(k + 1)[0] == items[0]);
        assert(items.take(k)[0] == items[0]);
        assert(block_texts(items.take(k + 1)) =~= block_texts(items.take(k)) + (if (jget(
            items[k],
            "type"@,
        ) == Some(JsonV::Str("text"@)) && (match jget(items[k], "text"@) {
            Some(t) => t is Str && trim_spec(t->Str_0).len() > 0,
            None => false,
        })) {
            match jget(items[k], "text"@) {
                Some(t) => seq![trim_spec(t->Str_0)],
                None => Seq::<Seq<char>>::empty(),
            }
        } else {
            Seq::<Seq<char>>::empty()
        }));
    }
}

proof fn lemma_join_lines_snoc(ts: Seq<Seq<char>>, k: int)
    requires
        0 <= k < ts.len(),
    ensures
        join_lines(ts.take(k + 1)) == if k == 0 {
            ts[0]
        } else {
            join_lines(ts.take(k)) + seq!['\n'] + ts[k]
        },
    decreases k,
{
    if k == 0 {
        assert(ts.take(1) =~= seq![ts[0]]);
    } else {
        lemma_join_lines_snoc(ts.drop_first(), k - 1);
        assert(ts.take(k + 1).drop_first() =~= ts.drop_first().take(k));
        assert(ts.take(k).drop_first() =~= ts.drop_first().take(k - 1));
        assert(ts.drop_first()[k - 1] == ts[k]);
        assert(ts.take(k + 1).len() >= 2);
        if k == 1 {
            assert(ts.take(1) =~= seq![ts[0]]);
            assert(join_lines(ts.take(k + 1)) =~= join_lines(ts.take(k)) + seq!['\n'] + ts[k]);
        } else {
            assert(join_lines(ts.take(k + 1)) =~= join_lines(ts.take(k)) + seq!['\n'] + ts[k]);
        }
    }
}

fn entry_texts(entry: &Json) -> (r: Option<Vec<String>>)
    ensures
        match r {
            Some(ts) => {
                &&& entry_context(jview(*entry)) matches Some(ctx)
                &&& ts@.len() > 0
                &&& (match content_blocks(jview(*entry)) {
                    Some(items) => ts@.len() == block_texts(items).len() && (forall|j: int|
                        0 <= j < ts@.len() ==> (#[trigger] ts@[j])@ == block_texts(items)[j]),
                    None => false,
                })
            },
            None => entry_context(jview(*entry)) is None,
        },
{
    let type_str = match entry.get("type") {
        Some(t) => t.str_value(),
        None => None,
    };
    let is_assistant = match type_str {
        Some(t) => crate::json::str_eq(t.as_str(), "assistant"),
        None => false,
    };
    if !is_assistant {
        return None;
    }
    let message = match entry.get("message") {
        Some(m) => m,
        None => {
            return None;
        },
    };
    let content = match message.get("content") {
        Some(c) => c,
        None => {
            return None;
        },
    };
    let items = match content {
        Json::Arr(items) => items,
        _ => {
            return None;
        },
    };
    let ghost items_v = match content_blocks(jview(*entry)) {
        Some(iv) => iv,
        None => Seq::empty(),
    };
    proof {
        crate::json::lemma_jview_list_props(items@);
        assert(content_blocks(jview(*entry)) == Some(crate::json::jview_list(items@)));
        assert(items_v == crate::json::jview_list(items@));
        assert(items_v.take(0) =~= Seq::<JsonV>::empty());
    }
    let n = items.len();
    let mut texts: Vec<String> = Vec::new();
    let mut i: usize = 0;
    while i < n
        invariant
            0 <= i <= n,
            n == items@.len(),
            items_v == crate::json::jview_list(items@),
            items_v.len() == n,
            forall|j: int| 0 <= j < n ==> #[trigger] items_v[j] == jview(items@[j]),
            texts@.len() == block_texts(items_v.take(i as int)).len(),
            forall|j: int|
                0 <= j < texts@.len() ==> (#[trigger] texts@[j])@ == block_texts(
                    items_v.take(i as int),
                )[j],
        decreases n - i,
    {
        proof {
            lemma_block_texts_snoc(items_v, i as int);
        }
        let block = &items[i];
        let block_type = match block.get("type") {
            Some(t) => t.str_value(),
            None => None,
        };
        let is_text = match block_type {
            Some(t) => crate::json::str_eq(t.as_str(), "text"),
            None => false,
        };
        if is_text {
            match block.get("text") {
                Some(t) => match t.str_value() {
                    Some(raw) => {
                        let trimmed = trim_text(raw.as_str());
                        if trimmed.as_str().unicode_len() > 0 {
                            texts.push(trimmed);
                        }
                    },
                    None => {},
                },
                None => {},
            }
        }
        i = i + 1;
    }
    proof {
        assert(items_v.take(n as int) =~= items_v);
    }
    if texts.len() == 0 {
        return None;
    }
    Some(texts)
}

/// Derives the assistant context from the transcript's entries: the texts
/// of the last assistant entry that has any, joined by line feeds and
/// bounded to the context budget. Entries arrive in transcript order; the
/// scan runs from the end.
pub fn extract_last_assistant_text(entries: &Vec<Json>) -> (r: Option<String>)
    ensures
        match r {
            Some(s) => (last_context(entries@, entries@.len() as int) matches Some(ctx) && s@
                == spec_truncate(ctx, 500, "..."@)),
            None => last_context(entries@, entries@.len() as int) is None,
        },
{
    let n = entries.len();
    let mut i: usize = n;
    loop
        invariant
            0 <= i <= n,
            n == entries@.len(),
            last_context(entries@, n as int) == last_context(entries@, i as int),
        ensures
            i == 0,
            last_context(entries@, n as int) is None,
        decreases i,
    {
        if i == 0 {
            break;
        }
        match entry_texts(&entries[i - 1]) {
            Some(texts) => {
                let ghost items_v = match content_blocks(jview(entries@[i - 1])) {
                    Some(iv) => iv,
                    None => Seq::empty(),
                };
                let m = texts.len();
                let mut joined = String::new();
                let mut k: usize = 0;
                while k < m
                    invariant
                        0 < m,
                        0 <= k <= m,
                        m == texts@.len(),
                        texts@.len() == block_texts(items_v).len(),
                        forall|j: int|
                            0 <= j < texts@.len() ==> (#[trigger] texts@[j])@ == block_texts(
                                items_v,
                            )[j],
                        k == 0 ==> joined@ == Seq::<char>::empty(),
                        k > 0 ==> joined@ == join_lines(block_texts(items_v).take(k as int)),
                    decreases m - k,
                {
                    proof {
                        lemma_join_lines_snoc(block_texts(items_v), k as int);
                    }
                    if k > 0 {
                        joined.append("\n");
                        proof {
                            reveal_strlit("\n");
                            assert("\n"@ =~= seq!['\n']);
                        }
                    }
                    joined.append(texts[k].as_str());
                    proof {
                        if k == 0 {
                            assert(joined@ =~= join_lines(block_texts(items_v).take(1)));
                        }
                    }
                    k = k + 1;
                }
                proof {
                    assert(block_texts(items_v).take(m as int) =~= block_texts(items_v));
                    assert(entry_context(jview(entries@[i - 1])) == Some(
                        join_lines(block_texts(items_v)),
                    ));
                }
                let bounded = truncate_assistant_context(joined.as_str());
                return Some(bounded);
            },
            None => {},
        }
        i = i - 1;
    }
    None
}

} // verus!
