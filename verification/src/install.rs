//! Registering the hook in the assistant's settings document. The document
//! comes in as plain data, the registration entry is added or refreshed in
//! place, and the result goes back out; reading, parsing and writing the
//! settings file happen outside. Installing twice is the same as installing
//! once — the law is proved below.

use crate::json::jget;
use crate::json::jview;
use crate::json::jview_entries;
use crate::json::jview_list;
use crate::json::lemma_jview_entries_props;
use crate::json::lemma_jview_list_props;
use crate::json::obj_lookup;
use crate::json::str_eq;
use crate::json::Json;
use crate::json::JsonV;
use vstd::prelude::*;
use vstd::string::StringExecFns;

verus! {

/// The registration command: `{"type":"command","command":"vibe-reachout","timeout":600}`.
pub open spec fn hook_entry_v() -> JsonV {
    JsonV::Obj(
        seq![
            ("type"@, JsonV::Str("command"@)),
            ("command"@, JsonV::Str("vibe-reachout"@)),
            ("timeout"@, JsonV::Num("600"@)),
        ],
    )
}

/// The matcher entry that carries the registration: `{"hooks":[...]}`.
pub open spec fn matcher_entry_v() -> JsonV {
    JsonV::Obj(seq![("hooks"@, JsonV::Arr(seq![hook_entry_v()]))])
}

/// Whether some hook in the list is ours.
pub open spec fn has_our_command(hs: Seq<JsonV>) -> bool {
    exists|i: int|
        0 <= i < hs.len() && #[trigger] jget(hs[i], "command"@) == Some(
            JsonV::Str("vibe-reachout"@),
        )
}

/// Whether a matcher entry carries our registration.
pub open spec fn entry_has_our_hook(e: JsonV) -> bool {
    match jget(e, "hooks"@) {
        Some(JsonV::Arr(hs)) => has_our_command(hs),
        _ => false,
    }
}

/// The first entry carrying our registration, or the length when none does.
pub open spec fn first_ours(arr: Seq<JsonV>) -> int
    decreases arr.len(),
{
    if arr.len() == 0 {
        0
    } else if entry_has_our_hook(arr[0]) {
        0
    } else {
        1 + first_ours(arr.drop_first())
    }
}

proof fn lemma_first_ours_props(arr: Seq<JsonV>)
    ensures
        0 <= first_ours(arr) <= arr.len(),
        first_ours(arr) < arr.len() ==> entry_has_our_hook(arr[first_ours(arr)]),
        forall|j: int| 0 <= j < first_ours(arr) ==> !entry_has_our_hook(#[trigger] arr[j]),
    decreases arr.len(),
{
    if arr.len() > 0 && !entry_has_our_hook(arr[0]) {
        lemma_first_ours_props(arr.drop_first());
        assert forall|j: int| 0 <= j < first_ours(arr) implies !entry_has_our_hook(
            #[trigger] arr[j],
        ) by {
            if j > 0 {
                assert(arr.drop_first()[j - 1] == arr[j]);
            }
        }
    }
}

proof fn lemma_first_ours_char(arr: Seq<JsonV>, k: int)
    requires
        0 <= k <= arr.len(),
        forall|j: int| 0 <= j < k ==> !entry_has_our_hook(#[trigger] arr[j]),
        k < arr.len() ==> entry_has_our_hook(arr[k]),
    ensures
        first_ours(arr) == k,
    decreases arr.len(),
{
    if arr.len() == 0 {
    } else if entry_has_our_hook(arr[0]) {
        assert(k == 0);
    } else {
        assert(k > 0);
        assert forall|j: int| 0 <= j < k - 1 implies !entry_has_our_hook(
            #[trigger] arr.drop_first()[j],
        ) by {
            assert(arr.drop_first()[j] == arr[j + 1]);
        }
        assert(k - 1 < arr.drop_first().len() ==> entry_has_our_hook(arr.drop_first()[k - 1]));
        lemma_first_ours_char(arr.drop_first(), k - 1);
    }
}

/// Adding the registration to the matcher list: the first entry that
/// carries it is refreshed to the canonical form; when none does, the
/// canonical entry is appended.
pub open spec fn install_arr(arr: Seq<JsonV>) -> Seq<JsonV> {
    let k = first_ours(arr);
    if k == arr.len() {
        arr.push(matcher_entry_v())
    } else {
        arr.update(k, matcher_entry_v())
    }
}

/// Setting a key in an object's entries: the first entry under the key is
/// replaced, or a new entry is appended.
pub open spec fn obj_set(
    es: Seq<(Seq<char>, JsonV)>,
    key: Seq<char>,
    value: JsonV,
) -> Seq<(Seq<char>, JsonV)>
    decreases es.len(),
{
    if es.len() == 0 {
        seq![(key, value)]
    } else if es[0].0 == key {
        seq![(key, value)] + es.drop_first()
    } else {
        seq![es[0]] + obj_set(es.drop_first(), key, value)
    }
}

proof fn lemma_obj_set_lookup(es: Seq<(Seq<char>, JsonV)>, key: Seq<char>, value: JsonV)
    ensures
        obj_lookup(obj_set(es, key, value), key) == Some(value),
    decreases es.len(),
{
    if es.len() == 0 {
        assert(obj_set(es, key, value) == seq![(key, value)]);
        assert(obj_lookup(seq![(key, value)], key) == Some(value));
    } else if es[0].0 == key {
        let out = seq![(key, value)] + es.drop_first();
        assert(out[0] == (key, value));
    } else {
        lemma_obj_set_lookup(es.drop_first(), key, value);
        let out = seq![es[0]] + obj_set(es.drop_first(), key, value);
        assert(out[0] == es[0]);
        assert(out.drop_first() =~= obj_set(es.drop_first(), key, value));
    }
}

proof fn lemma_obj_set_idem(es: Seq<(Seq<char>, JsonV)>, key: Seq<char>, value: JsonV)
    ensures
        obj_set(obj_set(es, key, value), key, value) == obj_set(es, key, value),
    decreases es.len(),
{
    if es.len() == 0 {
        let out = seq![(key, value)];
        assert(obj_set(out, key, value) =~= out);
    } else if es[0].0 == key {
        let out = seq![(key, value)] + es.drop_first();
        assert(out[0] == (key, value));
        assert(obj_set(out, key, value) =~= seq![(key, value)] + out.drop_first());
        assert(out.drop_first() =~= es.drop_first());
        assert(obj_set(out, key, value) =~= out);
    } else {
        lemma_obj_set_idem(es.drop_first(), key, value);
        let out = seq![es[0]] + obj_set(es.drop_first(), key, value);
        assert(out[0] == es[0]);
        assert(out.drop_first() =~= obj_set(es.drop_first(), key, value));
        assert(obj_set(out, key, value) =~= seq![es[0]] + obj_set(out.drop_first(), key, value));
        assert(obj_set(out, key, value) =~= out);
    }
}

proof fn lemma_obj_set_as_update(
    es: Seq<(Seq<char>, JsonV)>,
    key: Seq<char>,
    value: JsonV,
    k: int,
)
    requires
        0 <= k <= es.len(),
        forall|j: int| 0 <= j < k ==> (#[trigger] es[j]).0 != key,
        k < es.len() ==> es[k].0 == key,
    ensures
        k < es.len() ==> obj_set(es, key, value) == es.update(k, (key, value)),
        k == es.len() ==> obj_set(es, key, value) == es.push((key, value)),
    decreases es.len(),
{
    if es.len() == 0 {
        assert(obj_set(es, key, value) =~= es.push((key, value)));
    } else if es[0].0 == key {
        assert(k == 0);
        assert(obj_set(es, key, value) =~= es.update(0, (key, value)));
    } else {
        assert(k > 0);
        assert forall|j: int| 0 <= j < k - 1 implies (#[trigger] es.drop_first()[j]).0 != key by {
            assert(es.drop_first()[j] == es[j + 1]);
        }
        lemma_obj_set_as_update(es.drop_first(), key, value, k - 1);
        if k < es.len() {
            assert(obj_set(es, key, value) =~= es.update(k, (key, value)));
        } else {
            assert(obj_set(es, key, value) =~= es.push((key, value)));
        }
    }
}

/// The whole installation step on the settings document. A document that is
/// not an object, or whose `hooks` field is not an object, is returned
/// unchanged here; such input is excluded at the entry point. A
/// `PermissionRequest` field that exists but is not a list is left alone.
pub open spec fn install_spec(v: JsonV) -> JsonV {
    match v {
        JsonV::Obj(es) => {
            let hooks = match obj_lookup(es, "hooks"@) {
                Some(h) => h,
                None => JsonV::Obj(Seq::empty()),
            };
            match hooks {
                JsonV::Obj(hes) => {
                    let hooks2 = match obj_lookup(hes, "PermissionRequest"@) {
                        Some(JsonV::Arr(arr)) => JsonV::Obj(
                            obj_set(hes, "PermissionRequest"@, JsonV::Arr(install_arr(arr))),
                        ),
                        Some(_) => JsonV::Obj(hes),
                        None => JsonV::Obj(
                            obj_set(
                                hes,
                                "PermissionRequest"@,
                                JsonV::Arr(seq![matcher_entry_v()]),
                            ),
                        ),
                    };
                    JsonV::Obj(obj_set(es, "hooks"@, hooks2))
                },
                _ => v,
            }
        },
        _ => v,
    }
}

proof fn lemma_matcher_has_our_hook()
    ensures
        entry_has_our_hook(matcher_entry_v()),
{
    let hs = seq![hook_entry_v()];
    assert(jget(matcher_entry_v(), "hooks"@) == Some(JsonV::Arr(hs)));
    reveal_strlit("type");
    reveal_strlit("command");
    assert("type"@.len() == 4);
    assert("command"@.len() == 7);
    assert("type"@ != "command"@);
    let es = seq![
        ("type"@, JsonV::Str("command"@)),
        ("command"@, JsonV::Str("vibe-reachout"@)),
        ("timeout"@, JsonV::Num("600"@)),
    ];
    assert(es.drop_first()[0] == ("command"@, JsonV::Str("vibe-reachout"@)));
    assert(obj_lookup(es.drop_first(), "command"@) == Some(JsonV::Str("vibe-reachout"@)));
    assert(obj_lookup(es, "command"@) == Some(JsonV::Str("vibe-reachout"@)));
    assert(jget(hs[0], "command"@) == Some(JsonV::Str("vibe-reachout"@)));
    assert(has_our_command(hs));
}

proof fn lemma_install_arr_idem(arr: Seq<JsonV>)
    ensures
        install_arr(install_arr(arr)) == install_arr(arr),
{
    lemma_first_ours_props(arr);
    lemma_matcher_has_our_hook();
    let k = first_ours(arr);
    let a2 = install_arr(arr);
    if k == arr.len() {
        assert forall|j: int| 0 <= j < k implies !entry_has_our_hook(#[trigger] a2[j]) by {
            assert(a2[j] == arr[j]);
        }
        assert(a2[k] == matcher_entry_v());
        lemma_first_ours_char(a2, k);
        assert(install_arr(a2) == a2.update(k, matcher_entry_v()));
        assert(a2.update(k, matcher_entry_v()) =~= a2);
    } else {
        assert forall|j: int| 0 <= j < k implies !entry_has_our_hook(#[trigger] a2[j]) by {
            assert(a2[j] == arr[j]);
        }
        assert(a2[k] == matcher_entry_v());
        lemma_first_ours_char(a2, k);
        assert(install_arr(a2) == a2.update(k, matcher_entry_v()));
        assert(a2.update(k, matcher_entry_v()) =~= a2);
    }
}

/// Idempotence of installation: adding the registration to a document that
/// already went through installation changes nothing. With the document
/// written out canonically, the second run reproduces the file of the
/// first.
pub proof fn lemma_install_idempotent(v: JsonV)
    requires
        v is Obj,
        (match jget(v, "hooks"@) {
            Some(h) => h is Obj,
            None => true,
        }),
    ensures
        install_spec(install_spec(v)) == install_spec(v),
{
    let es = v->Obj_0;
    let hooks = match obj_lookup(es, "hooks"@) {
        Some(h) => h,
        None => JsonV::Obj(Seq::empty()),
    };
    let hes = hooks->Obj_0;
    let hooks2 = match obj_lookup(hes, "PermissionRequest"@) {
        Some(JsonV::Arr(arr)) => JsonV::Obj(
            obj_set(hes, "PermissionRequest"@, JsonV::Arr(install_arr(arr))),
        ),
        Some(_) => JsonV::Obj(hes),
        None => JsonV::Obj(
            obj_set(hes, "PermissionRequest"@, JsonV::Arr(seq![matcher_entry_v()])),
        ),
    };
    let v2 = install_spec(v);
    assert(v2 == JsonV::Obj(obj_set(es, "hooks"@, hooks2)));
    lemma_obj_set_lookup(es, "hooks"@, hooks2);
    assert(obj_lookup(obj_set(es, "hooks"@, hooks2), "hooks"@) == Some(hooks2));
    let hes2 = hooks2->Obj_0;
    match obj_lookup(hes, "PermissionRequest"@) {
        Some(h) => {
            if h is Arr {
                let arr = h->Arr_0;
                lemma_obj_set_lookup(hes, "PermissionRequest"@, JsonV::Arr(install_arr(arr)));
                lemma_install_arr_idem(arr);
                lemma_obj_set_idem(hes, "PermissionRequest"@, JsonV::Arr(install_arr(arr)));
                assert(install_spec(v2) == JsonV::Obj(
                    obj_set(obj_set(es, "hooks"@, hooks2), "hooks"@, hooks2),
                ));
                lemma_obj_set_idem(es, "hooks"@, hooks2);
            } else {
                lemma_obj_set_idem(es, "hooks"@, hooks2);
            }
        },
        None => {
            lemma_obj_set_lookup(
                hes,
                "PermissionRequest"@,
                JsonV::Arr(seq![matcher_entry_v()]),
            );
            lemma_install_arr_idem(Seq::<JsonV>::empty());
            let one = seq![matcher_entry_v()];
            lemma_matcher_has_our_hook();
            lemma_first_ours_char(one, 0);
            assert(install_arr(one) == one.update(0, matcher_entry_v()));
            assert(one.update(0, matcher_entry_v()) =~= one);
            lemma_obj_set_idem(hes, "PermissionRequest"@, JsonV::Arr(one));
            lemma_obj_set_idem(es, "hooks"@, hooks2);
        },
    }
}

fn entry_is_ours(e: &Json) -> (r: bool)
    ensures
        r == entry_has_our_hook(jview(*e)),
{
    let hooks = match e.get("hooks") {
        Some(h) => h,
        None => {
            return false;
        },
    };
    let items = match hooks {
        Json::Arr(items) => items,
        _ => {
            return false;
        },
    };
    proof {
        lemma_jview_list_props(items@);
    }
    let ghost hs = jview_list(items@);
    let n = items.len();
    let mut i: usize = 0;
    while i < n
        invariant
            0 <= i <= n,
            n == items@.len(),
            hs == jview_list(items@),
            hs.len() == n,
            forall|j: int| 0 <= j < n ==> #[trigger] hs[j] == jview(items@[j]),
            entry_has_our_hook(jview(*e)) == has_our_command(hs),
            forall|j: int|
                0 <= j < i ==> #[trigger] jget(hs[j], "command"@) != Some(
                    JsonV::Str("vibe-reachout"@),
                ),
        decreases n - i,
    {
        let cmd = match items[i].get("command") {
            Some(c) => c.str_value(),
            None => None,
        };
        let ours = match cmd {
            Some(c) => str_eq(c.as_str(), "vibe-reachout"),
            None => false,
        };
        if ours {
            proof {
                assert(jget(hs[i as int], "command"@) == Some(JsonV::Str("vibe-reachout"@)));
            }
            return true;
        }
        i = i + 1;
    }
    proof {
        if has_our_command(hs) {
            let j = choose|j: int|
                0 <= j < hs.len() && #[trigger] jget(hs[j], "command"@) == Some(
                    JsonV::Str("vibe-reachout"@),
                );
        }
    }
    false
}

fn matcher_entry() -> (r: Json)
    ensures
        jview(r) == matcher_entry_v(),
{
    let mut hook_fields: Vec<(String, Json)> = Vec::new();
    hook_fields.push((String::from_str("type"), Json::Str(String::from_str("command"))));
    hook_fields.push((String::from_str("command"), Json::Str(String::from_str("vibe-reachout"))));
    hook_fields.push((String::from_str("timeout"), Json::Num(String::from_str("600"))));
    proof {
        lemma_jview_entries_props(hook_fields@);
        assert(jview_entries(hook_fields@) =~= seq![
            ("type"@, JsonV::Str("command"@)),
            ("command"@, JsonV::Str("vibe-reachout"@)),
            ("timeout"@, JsonV::Num("600"@)),
        ]);
    }
    let hook_entry = Json::Obj(hook_fields);
    let mut items: Vec<Json> = Vec::new();
    items.push(hook_entry);
    proof {
        lemma_jview_list_props(items@);
        assert(jview_list(items@) =~= seq![hook_entry_v()]);
    }
    let mut fields: Vec<(String, Json)> = Vec::new();
    fields.push((String::from_str("hooks"), Json::Arr(items)));
    proof {
        lemma_jview_entries_props(fields@);
        assert(jview_entries(fields@) =~= seq![("hooks"@, JsonV::Arr(seq![hook_entry_v()]))]);
    }
    Json::Obj(fields)
}

fn obj_set_field(entries: &mut Vec<(String, Json)>, key: &str, value: Json)
    ensures
        jview_entries(final(entries)@) == obj_set(
            jview_entries(old(entries)@),
            key@,
            jview(value),
        ),
{
    proof {
        lemma_jview_entries_props(old(entries)@);
    }
    let ghost es0 = jview_entries(old(entries)@);
    let n = entries.len();
    let mut k: usize = 0;
    loop
        invariant
            0 <= k <= n,
            n == entries@.len(),
            entries@ == old(entries)@,
            es0 == jview_entries(entries@),
            es0.len() == n,
            forall|j: int|
                0 <= j < n ==> #[trigger] es0[j] == (entries@[j].0@, jview(entries@[j].1)),
            forall|j: int| 0 <= j < k ==> (#[trigger] es0[j]).0 != key@,
        ensures
            0 <= k <= n,
            entries@ == old(entries)@,
            forall|j: int| 0 <= j < k ==> (#[trigger] es0[j]).0 != key@,
            k < n ==> es0[k as int].0 == key@,
        decreases n - k,
    {
        if k == n {
            break;
        }
        if str_eq(entries[k].0.as_str(), key) {
            break;
        }
        k = k + 1;
    }
    proof {
        lemma_obj_set_as_update(es0, key@, jview(value), k as int);
    }
    if k < n {
        entries.remove(k);
        entries.insert(k, (String::from_str(key), value));
        proof {
            lemma_jview_entries_props(entries@);
            assert(entries@ =~= old(entries)@.update(k as int, entries@[k as int]));
            assert forall|j: int| 0 <= j < jview_entries(entries@).len() implies #[trigger] jview_entries(
                entries@,
            )[j] == obj_set(es0, key@, jview(value))[j] by {
                if j != k {
                    assert(entries@[j] == old(entries)@[j]);
                }
            }
            assert(jview_entries(entries@) =~= obj_set(es0, key@, jview(value)));
        }
    } else {
        entries.push((String::from_str(key), value));
        proof {
            lemma_jview_entries_props(entries@);
            assert forall|j: int| 0 <= j < jview_entries(entries@).len() implies #[trigger] jview_entries(
                entries@,
            )[j] == obj_set(es0, key@, jview(value))[j] by {
                if j < n {
                    assert(entries@[j] == old(entries)@[j]);
                }
            }
            assert(jview_entries(entries@) =~= obj_set(es0, key@, jview(value)));
        }
    }
}

fn install_into_list(arr: &Vec<Json>) -> (r: Vec<Json>)
    ensures
        jview_list(r@) == install_arr(jview_list(arr@)),
{
    proof {
        lemma_jview_list_props(arr@);
    }
    let ghost av = jview_list(arr@);
    let n = arr.len();
    let mut k: usize = 0;
    loop
        invariant
            0 <= k <= n,
            n == arr@.len(),
            av == jview_list(arr@),
            av.len() == n,
            forall|j: int| 0 <= j < n ==> #[trigger] av[j] == jview(arr@[j]),
            forall|j: int| 0 <= j < k ==> !entry_has_our_hook(#[trigger] av[j]),
        ensures
            0 <= k <= n,
            forall|j: int| 0 <= j < k ==> !entry_has_our_hook(#[trigger] av[j]),
            k < n ==> entry_has_our_hook(av[k as int]),
        decreases n - k,
    {
        if k == n {
            break;
        }
        if entry_is_ours(&arr[k]) {
            break;
        }
        k = k + 1;
    }
    proof {
        lemma_first_ours_char(av, k as int);
    }
    let mut out: Vec<Json> = Vec::new();
    let mut i: usize = 0;
    while i < n
        invariant
            0 <= i <= n,
            n == arr@.len(),
            av == jview_list(arr@),
            av.len() == n,
            forall|j: int| 0 <= j < n ==> #[trigger] av[j] == jview(arr@[j]),
            out@.len() == i,
            forall|j: int|
                0 <= j < i ==> jview(#[trigger] out@[j]) == (if j == k {
                    matcher_entry_v()
                } else {
                    av[j]
                }),
        decreases n - i,
    {
        if i == k {
            let m = matcher_entry();
            out.push(m);
        } else {
            let c = arr[i].duplicate();
            out.push(c);
        }
        i = i + 1;
    }
    if k == n {
        let m = matcher_entry();
        out.push(m);
    }
    proof {
        lemma_jview_list_props(out@);
        if k < n {
            assert(jview_list(out@) =~= av.update(k as int, matcher_entry_v()));
        } else {
            assert(jview_list(out@) =~= av.push(matcher_entry_v()));
        }
    }
    out
}

/// Installs the hook registration into a settings document: ensures
/// `hooks.PermissionRequest` exists and carries the canonical registration
/// entry, exactly once, leaving everything else in the document alone. The
/// settings must be an object whose `hooks` field, if present, is an
/// object; other shapes have no meaningful settings layout.
pub fn run_install(settings: Json) -> (r: Json)
    requires
        jview(settings) is Obj,
        (match jget(jview(settings), "hooks"@) {
            Some(h) => h is Obj,
            None => true,
        }),
    ensures
        jview(r) == install_spec(jview(settings)),
{
    let hooks_json = match settings.get("hooks") {
        Some(h) => h,
        None => Json::Obj(Vec::new()),
    };
    proof {
        if jget(jview(settings), "hooks"@) is None {
            lemma_jview_entries_props(Seq::<(String, Json)>::empty());
            assert(jview_entries(Seq::<(String, Json)>::empty()) =~= Seq::<
                (Seq<char>, JsonV),
            >::empty());
        }
    }
    let perm = hooks_json.get("PermissionRequest");
    let mut hentries = match hooks_json {
        Json::Obj(h) => h,
        _ => {
            proof {
                assert(false);
            }
            Vec::new()
        },
    };
    match perm {
        Some(p) => {
            match p {
                Json::Arr(arr) => {
                    let new_arr = install_into_list(&arr);
                    obj_set_field(&mut hentries, "PermissionRequest", Json::Arr(new_arr));
                },
                _ => {},
            }
        },
        None => {
            let mut one: Vec<Json> = Vec::new();
            one.push(matcher_entry());
            proof {
                lemma_jview_list_props(one@);
                assert(jview_list(one@) =~= seq![matcher_entry_v()]);
            }
            obj_set_field(&mut hentries, "PermissionRequest", Json::Arr(one));
        },
    }
    let mut entries = match settings {
        Json::Obj(es) => es,
        _ => {
            proof {
                assert(false);
            }
            Vec::new()
        },
    };
    obj_set_field(&mut entries, "hooks", Json::Obj(hentries));
    Json::Obj(entries)
}

} // verus!
