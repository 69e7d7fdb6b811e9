//! The library's own JSON document model. Opaque payloads (tool input,
//! permission suggestions, assistant settings, transcript entries) are held
//! as plain data of this type, so the rules that read them can be verified;
//! the boundary converts between this model and the wire form.

use crate::request_id::hex_digit;
use vstd::prelude::*;
use vstd::string::StrSliceExecFns;
use vstd::string::StringExecFns;

verus! {

broadcast use vstd::std_specs::vec::group_vec_axioms, vstd::seq::group_seq_axioms;

/// A JSON document as plain data. Numbers keep their source text, so any
/// document round-trips without a numeric type of its own.
pub enum Json {
    Null,
    Bool(bool),
    Num(String),
    Str(String),
    Arr(Vec<Json>),
    Obj(Vec<(String, Json)>),
}

/// The mathematical view of a document: text as character sequences.
#[verifier::ext_equal]
pub enum JsonV {
    Null,
    Bool(bool),
    Num(Seq<char>),
    Str(Seq<char>),
    Arr(Seq<JsonV>),
    Obj(Seq<(Seq<char>, JsonV)>),
}

/// The view of a document value.
pub open spec fn jview(j: Json) -> JsonV
    decreases j, 1int,
{
    match j {
        Json::Null => JsonV::Null,
        Json::Bool(b) => JsonV::Bool(b),
        Json::Num(s) => JsonV::Num(s@),
        Json::Str(s) => JsonV::Str(s@),
        Json::Arr(items) => {
            proof {
                vstd::std_specs::vec::axiom_vec_decreases_to_view(items);
            }
            JsonV::Arr(jview_list(items@))
        },
        Json::Obj(entries) => {
            proof {
                vstd::std_specs::vec::axiom_vec_decreases_to_view(entries);
            }
            JsonV::Obj(jview_entries(entries@))
        },
    }
}

/// The views of a sequence of documents.
pub open spec fn jview_list(items: Seq<Json>) -> Seq<JsonV>
    decreases items, 0int,
{
    if items.len() == 0 {
        Seq::empty()
    } else {
        seq![jview(items[0])] + jview_list(items.drop_first())
    }
}

/// The views of a sequence of keyed entries.
pub open spec fn jview_entries(entries: Seq<(String, Json)>) -> Seq<(Seq<char>, JsonV)>
    decreases entries, 0int,
{
    if entries.len() == 0 {
        Seq::empty()
    } else {
        seq![(entries[0].0@, jview(entries[0].1))] + jview_entries(entries.drop_first())
    }
}

pub proof fn lemma_jview_list_props(items: Seq<Json>)
    ensures
        jview_list(items).len() == items.len(),
        forall|i: int| 0 <= i < items.len() ==> #[trigger] jview_list(items)[i] == jview(items[i]),
    decreases items.len(),
{
    if items.len() > 0 {
        lemma_jview_list_props(items.drop_first());
        assert forall|i: int| 0 <= i < items.len() implies #[trigger] jview_list(items)[i] == jview(
            items[i],
        ) by {
            if i > 0 {
                assert(jview_list(items)[i] == jview_list(items.drop_first())[i - 1]);
                assert(items.drop_first()[i - 1] == items[i]);
            }
        }
    }
}

pub proof fn lemma_jview_entries_props(entries: Seq<(String, Json)>)
    ensures
        jview_entries(entries).len() == entries.len(),
        forall|i: int|
            0 <= i < entries.len() ==> #[trigger] jview_entries(entries)[i] == (
            entries[i].0@,
            jview(entries[i].1),
            ),
    decreases entries.len(),
{
    if entries.len() > 0 {
        lemma_jview_entries_props(entries.drop_first());
        assert forall|i: int| 0 <= i < entries.len() implies #[trigger] jview_entries(entries)[i]
            == (entries[i].0@, jview(entries[i].1)) by {
            if i > 0 {
                assert(jview_entries(entries)[i] == jview_entries(entries.drop_first())[i - 1]);
                assert(entries.drop_first()[i - 1] == entries[i]);
            }
        }
    }
}

/// First-match lookup among an object's entries.
pub open spec fn obj_lookup(entries: Seq<(Seq<char>, JsonV)>, key: Seq<char>) -> Option<JsonV>
    decreases entries.len(),
{
    if entries.len() == 0 {
        None
    } else if entries[0].0 == key {
        Some(entries[0].1)
    } else {
        obj_lookup(entries.drop_first(), key)
    }
}

/// Field lookup on a document: something only on an object holding the key.
pub open spec fn jget(v: JsonV, key: Seq<char>) -> Option<JsonV> {
    match v {
        JsonV::Obj(entries) => obj_lookup(entries, key),
        _ => None,
    }
}


fn duplicate_list(items: &Vec<Json>) -> (out: Vec<Json>)
    ensures
        out@.len() == items@.len(),
        forall|j: int| 0 <= j < items@.len() ==> jview(#[trigger] out@[j]) == jview(items@[j]),
    decreases *items, 0int,
{
    let mut out: Vec<Json> = Vec::new();
    let n = items.len();
    let mut i: usize = 0;
    while i < n
        invariant
            0 <= i <= n,
            n == items@.len(),
            out@.len() == i,
            forall|j: int| 0 <= j < i ==> jview(#[trigger] out@[j]) == jview(items@[j]),
        decreases n - i,
    {
        proof {
            vstd::std_specs::vec::axiom_vec_index_decreases(*items, i as int);
        }
        let c = items[i].duplicate();
        out.push(c);
        i = i + 1;
    }
    out
}

fn duplicate_entries(entries: &Vec<(String, Json)>) -> (out: Vec<(String, Json)>)
    ensures
        out@.len() == entries@.len(),
        forall|j: int|
            0 <= j < entries@.len() ==> (#[trigger] out@[j]).0@ == entries@[j].0@ && jview(
                out@[j].1,
            ) == jview(entries@[j].1),
    decreases *entries, 0int,
{
    let mut out: Vec<(String, Json)> = Vec::new();
    let n = entries.len();
    let mut i: usize = 0;
    while i < n
        invariant
            0 <= i <= n,
            n == entries@.len(),
            out@.len() == i,
            forall|j: int|
                0 <= j < i ==> (#[trigger] out@[j]).0@ == entries@[j].0@ && jview(out@[j].1)
                    == jview(entries@[j].1),
        decreases n - i,
    {
        proof {
            vstd::std_specs::vec::axiom_vec_index_decreases(*entries, i as int);
        }
        let k = entries[i].0.clone();
        let v = entries[i].1.duplicate();
        out.push((k, v));
        i = i + 1;
    }
    out
}

/// Compares two texts character by character.
pub fn str_eq(a: &str, b: &str) -> (r: bool)
    ensures
        r == (a@ == b@),
{
    let na = a.unicode_len();
    let nb = b.unicode_len();
    if na != nb {
        return false;
    }
    let mut i: usize = 0;
    while i < na
        invariant
            0 <= i <= na,
            na == a@.len(),
            na == b@.len(),
            forall|j: int| 0 <= j < i ==> a@[j] == b@[j],
        decreases na - i,
    {
        if a.get_char(i) != b.get_char(i) {
            return false;
        }
        i = i + 1;
    }
    proof {
        assert(a@ =~= b@);
    }
    true
}

impl Json {
    /// A deep copy with the same view.
    pub fn duplicate(&self) -> (r: Json)
        ensures
            jview(r) == jview(*self),
        decreases *self, 1int,
    {
        match self {
            Json::Null => Json::Null,
            Json::Bool(b) => Json::Bool(*b),
            Json::Num(s) => Json::Num(s.clone()),
            Json::Str(s) => Json::Str(s.clone()),
            Json::Arr(items) => {
                proof {
                    vstd::std_specs::vec::axiom_vec_decreases_to_view(*items);
                }
                let out = duplicate_list(items);
                proof {
                    lemma_jview_list_props(out@);
                    lemma_jview_list_props(items@);
                    assert(jview_list(out@) =~= jview_list(items@));
                }
                Json::Arr(out)
            },
            Json::Obj(entries) => {
                proof {
                    vstd::std_specs::vec::axiom_vec_decreases_to_view(*entries);
                }
                let out = duplicate_entries(entries);
                proof {
                    lemma_jview_entries_props(out@);
                    lemma_jview_entries_props(entries@);
                    assert(jview_entries(out@) =~= jview_entries(entries@));
                }
                Json::Obj(out)
            },
        }
    }

    /// Field lookup on an object document; a copy of the first entry under
    /// the key, nothing on other documents or a missing key.
    pub fn get(&self, key: &str) -> (r: Option<Json>)
        ensures
            match r {
                Some(x) => jget(jview(*self), key@) == Some(jview(x)),
                None => jget(jview(*self), key@) is None,
            },
    {
        match self {
            Json::Obj(entries) => {
                proof {
                    lemma_jview_entries_props(entries@);
                }
                let ghost es = jview_entries(entries@);
                proof {
                    assert(es.skip(0) =~= es);
                }
                let n = entries.len();
                let mut i: usize = 0;
                while i < n
                    invariant
                        0 <= i <= n,
                        n == entries@.len(),
                        es == jview_entries(entries@),
                        es.len() == n,
                        forall|k: int|
                            0 <= k < n ==> #[trigger] es[k] == (entries@[k].0@, jview(
                                entries@[k].1,
                            )),
                        obj_lookup(es, key@) == obj_lookup(es.skip(i as int), key@),
                        jview(*self) == JsonV::Obj(es),
                    decreases n - i,
                {
                    if str_eq(entries[i].0.as_str(), key) {
                        let r = entries[i].1.duplicate();
                        proof {
                            assert(es.skip(i as int)[0] == es[i as int]);
                            assert(obj_lookup(es.skip(i as int), key@) == Some(es[i as int].1));
                        }
                        return Some(r);
                    }
                    proof {
                        assert(es.skip(i as int)[0] == es[i as int]);
                        assert(es.skip(i as int).drop_first() =~= es.skip(i as int + 1));
                    }
                    i = i + 1;
                }
                proof {
                    assert(es.skip(n as int) =~= Seq::<(Seq<char>, JsonV)>::empty());
                }
                None
            },
            _ => None,
        }
    }

    /// The character content of a string document, nothing otherwise.
    pub fn str_value(&self) -> (r: Option<String>)
        ensures
            match r {
                Some(s) => jview(*self) == JsonV::Str(s@),
                None => !(jview(*self) is Str),
            },
    {
        match self {
            Json::Str(s) => Some(s.clone()),
            _ => None,
        }
    }
}


/// What one character contributes to the escaped body of a JSON string.
pub open spec fn json_escape_char(c: char) -> Seq<char> {
    if c == '"' {
        seq!['\\', '"']
    } else if c == '\\' {
        seq!['\\', '\\']
    } else if c == '\n' {
        seq!['\\', 'n']
    } else if c == '\r' {
        seq!['\\', 'r']
    } else if c == '\t' {
        seq!['\\', 't']
    } else if (c as u32) < 32 {
        seq!['\\', 'u', '0', '0', hex_digit((c as u32 / 16) as int), hex_digit((c as u32 % 16) as int)]
    } else {
        seq![c]
    }
}

/// The escaped body of a JSON string.
pub open spec fn json_escape_spec(cs: Seq<char>) -> Seq<char>
    decreases cs.len(),
{
    if cs.len() == 0 {
        Seq::empty()
    } else {
        json_escape_char(cs[0]) + json_escape_spec(cs.drop_first())
    }
}

proof fn lemma_json_escape_snoc(cs: Seq<char>, k: int)
    requires
        0 <= k < cs.len(),
    ensures
        json_escape_spec(cs.take(k + 1)) == json_escape_spec(cs.take(k)) + json_escape_char(cs[k]),
    decreases k,
{
    if k == 0 {
        assert(cs.take(1) =~= seq![cs[0]]);
        assert(seq![cs[0]].drop_first() =~= Seq::<char>::empty());
        assert(json_escape_spec(seq![cs[0]]) == json_escape_char(cs[0]) + json_escape_spec(
            Seq::<char>::empty(),
        ));
        assert(json_escape_char(cs[0]) + json_escape_spec(Seq::<char>::empty()) =~= json_escape_char(
            cs[0],
        ));
        assert(cs.take(0) =~= Seq::<char>::empty());
        assert(json_escape_spec(cs.take(0)) + json_escape_char(cs[0]) =~= json_escape_char(cs[0]));
    } else {
        lemma_json_escape_snoc(cs.drop_first(), k - 1);
        assert(cs.take(k + 1).drop_first() =~= cs.drop_first().take(k));
        assert(cs.take(k).drop_first() =~= cs.drop_first().take(k - 1));
        assert(cs.drop_first()[k - 1] == cs[k]);
        assert(json_escape_spec(cs.take(k + 1)) =~= json_escape_char(cs[0]) + json_escape_spec(
            cs.drop_first().take(k),
        ));
        assert(json_escape_char(cs[0]) + (json_escape_spec(cs.drop_first().take(k - 1))
            + json_escape_char(cs[k])) =~= (json_escape_char(cs[0]) + json_escape_spec(
            cs.drop_first().take(k - 1),
        )) + json_escape_char(cs[k]));
        assert(json_escape_spec(cs.take(k)) =~= json_escape_char(cs[0]) + json_escape_spec(
            cs.drop_first().take(k - 1),
        ));
    }
}

/// Escapes text for embedding in a JSON string literal.
pub fn json_escape(s: &str) -> (r: String)
    ensures
        r@ == json_escape_spec(s@),
{
    let n = s.unicode_len();
    let mut r = String::new();
    let mut i: usize = 0;
    proof {
        assert(s@.take(0) =~= Seq::<char>::empty());
        assert(json_escape_spec(s@.take(0)) =~= Seq::<char>::empty());
    }
    while i < n
        invariant
            0 <= i <= n,
            n == s@.len(),
            r@ == json_escape_spec(s@.take(i as int)),
        decreases n - i,
    {
        let c = s.get_char(i);
        proof {
            lemma_json_escape_snoc(s@, i as int);
        }
        if c == '"' {
            r.append("\\\"");
            proof {
                reveal_strlit("\\\"");
                assert("\\\""@ =~= seq!['\\', '"']);
            }
        } else if c == '\\' {
            r.append("\\\\");
            proof {
                reveal_strlit("\\\\");
                assert("\\\\"@ =~= seq!['\\', '\\']);
            }
        } else if c == '\n' {
            r.append("\\n");
            proof {
                reveal_strlit("\\n");
                assert("\\n"@ =~= seq!['\\', 'n']);
            }
        } else if c == '\r' {
            r.append("\\r");
            proof {
                reveal_strlit("\\r");
                assert("\\r"@ =~= seq!['\\', 'r']);
            }
        } else if c == '\t' {
            r.append("\\t");
            proof {
                reveal_strlit("\\t");
                assert("\\t"@ =~= seq!['\\', 't']);
            }
        } else if (c as u32) < 32 {
            let u = c as u32;
            r.append("\\u00");
            let hi = crate::request_id::hex_char_of((u / 16) as u8);
            r.append(hi);
            let lo = crate::request_id::hex_char_of((u % 16) as u8);
            r.append(lo);
            proof {
                reveal_strlit("\\u00");
                assert("\\u00"@ =~= seq!['\\', 'u', '0', '0']);
                assert(r@ =~= json_escape_spec(s@.take(i as int)) + json_escape_char(c));
            }
        } else {
            let one = s.substring_char(i, i + 1);
            r.append(one);
            proof {
                assert(s@.subrange(i as int, i + 1) =~= seq![s@[i as int]]);
            }
        }
        i = i + 1;
    }
    proof {
        assert(s@.take(n as int) =~= s@);
    }
    r
}

/// The compact rendering of a document: how the library writes a document
/// out as text.
pub open spec fn render_v(v: JsonV) -> Seq<char>
    decreases v, 1int,
{
    match v {
        JsonV::Null => seq!['n', 'u', 'l', 'l'],
        JsonV::Bool(b) => if b {
            seq!['t', 'r', 'u', 'e']
        } else {
            seq!['f', 'a', 'l', 's', 'e']
        },
        JsonV::Num(s) => s,
        JsonV::Str(s) => seq!['"'] + json_escape_spec(s) + seq!['"'],
        JsonV::Arr(items) => seq!['['] + render_list(items) + seq![']'],
        JsonV::Obj(entries) => seq!['{'] + render_entries(entries) + seq!['}'],
    }
}

/// The rendering of an array body, elements joined by commas.
pub open spec fn render_list(items: Seq<JsonV>) -> Seq<char>
    decreases items, 0int,
{
    if items.len() == 0 {
        Seq::empty()
    } else if items.len() == 1 {
        render_v(items[0])
    } else {
        render_v(items[0]) + seq![','] + render_list(items.drop_first())
    }
}

/// The rendering of an object body, quoted keys and values joined by commas.
pub open spec fn render_entries(entries: Seq<(Seq<char>, JsonV)>) -> Seq<char>
    decreases entries, 0int,
{
    if entries.len() == 0 {
        Seq::empty()
    } else {
        let head = seq!['"'] + json_escape_spec(entries[0].0) + seq!['"', ':'] + render_v(
            entries[0].1,
        );
        if entries.len() == 1 {
            head
        } else {
            head + seq![','] + render_entries(entries.drop_first())
        }
    }
}

proof fn lemma_render_list_snoc(items: Seq<JsonV>, k: int)
    requires
        0 <= k < items.len(),
    ensures
        render_list(items.take(k + 1)) == if k == 0 {
            render_v(items[0])
        } else {
            render_list(items.take(k)) + seq![','] + render_v(items[k])
        },
    decreases k,
{
    if k == 0 {
        assert(items.take(1) =~= seq![items[0]]);
    } else {
        lemma_render_list_snoc(items.drop_first(), k - 1);
        assert(items.take(k + 1).drop_first() =~= items.drop_first().take(k));
        assert(items.take(k).drop_first() =~= items.drop_first().take(k - 1));
        assert(items.drop_first()[k - 1] == items[k]);
        assert(items.take(k + 1).len() >= 2);
        assert(render_list(items.take(k + 1)) == render_v(items[0]) + seq![','] + render_list(
            items.drop_first().take(k),
        ));
        if k == 1 {
            assert(items.take(1) =~= seq![items[0]]);
            assert(render_list(items.drop_first().take(1)) == render_v(items.drop_first()[0]));
            assert(render_list(items.take(k + 1)) =~= render_list(items.take(k)) + seq![',']
                + render_v(items[k]));
        } else {
            assert(render_list(items.drop_first().take(k)) == render_list(
                items.drop_first().take(k - 1),
            ) + seq![','] + render_v(items.drop_first()[k - 1]));
            assert(render_list(items.take(k)) == render_v(items[0]) + seq![','] + render_list(
                items.drop_first().take(k - 1),
            ));
            assert(render_list(items.take(k + 1)) =~= render_list(items.take(k)) + seq![',']
                + render_v(items[k]));
        }
    }
}

proof fn lemma_render_entries_snoc(entries: Seq<(Seq<char>, JsonV)>, k: int)
    requires
        0 <= k < entries.len(),
    ensures
        render_entries(entries.take(k + 1)) == {
            let head = seq!['"'] + json_escape_spec(entries[k].0) + seq!['"', ':'] + render_v(
                entries[k].1,
            );
            if k == 0 {
                head
            } else {
                render_entries(entries.take(k)) + seq![','] + head
            }
        },
    decreases k,
{
    if k == 0 {
        assert(entries.take(1) =~= seq![entries[0]]);
    } else {
        lemma_render_entries_snoc(entries.drop_first(), k - 1);
        assert(entries.take(k + 1).drop_first() =~= entries.drop_first().take(k));
        assert(entries.take(k).drop_first() =~= entries.drop_first().take(k - 1));
        assert(entries.drop_first()[k - 1] == entries[k]);
        assert(entries.take(k + 1).len() >= 2);
        let head0 = seq!['"'] + json_escape_spec(entries[0].0) + seq!['"', ':'] + render_v(
            entries[0].1,
        );
        let headk = seq!['"'] + json_escape_spec(entries[k].0) + seq!['"', ':'] + render_v(
            entries[k].1,
        );
        assert(render_entries(entries.take(k + 1)) == head0 + seq![','] + render_entries(
            entries.drop_first().take(k),
        ));
        if k == 1 {
            assert(entries.take(1) =~= seq![entries[0]]);
            assert(render_entries(entries.take(k + 1)) =~= render_entries(entries.take(k)) + seq![
                ',',
            ] + headk);
        } else {
            assert(render_entries(entries.take(k)) == head0 + seq![','] + render_entries(
                entries.drop_first().take(k - 1),
            ));
            assert(render_entries(entries.take(k + 1)) =~= render_entries(entries.take(k)) + seq![
                ',',
            ] + headk);
        }
    }
}

impl Json {
    /// Writes the document out as compact JSON text.
    pub fn render(&self) -> (r: String)
        ensures
            r@ == render_v(jview(*self)),
        decreases *self, 1int,
    {
        match self {
            Json::Null => {
                let r = String::from_str("null");
                proof {
                    reveal_strlit("null");
                    assert(r@ =~= seq!['n', 'u', 'l', 'l']);
                }
                r
            },
            Json::Bool(b) => {
                if *b {
                    let r = String::from_str("true");
                    proof {
                        reveal_strlit("true");
                        assert(r@ =~= seq!['t', 'r', 'u', 'e']);
                    }
                    r
                } else {
                    let r = String::from_str("false");
                    proof {
                        reveal_strlit("false");
                        assert(r@ =~= seq!['f', 'a', 'l', 's', 'e']);
                    }
                    r
                }
            },
            Json::Num(s) => s.clone(),
            Json::Str(s) => {
                let mut r = String::from_str("\"");
                let body = json_escape(s.as_str());
                r.append(body.as_str());
                r.append("\"");
                proof {
                    reveal_strlit("\"");
                    assert("\""@ =~= seq!['"']);
                    assert(r@ =~= seq!['"'] + json_escape_spec(s@) + seq!['"']);
                }
                r
            },
            Json::Arr(items) => {
                proof {
                    vstd::std_specs::vec::axiom_vec_decreases_to_view(*items);
                }
                let mut r = String::from_str("[");
                let body = render_items(items);
                r.append(body.as_str());
                r.append("]");
                proof {
                    reveal_strlit("[");
                    reveal_strlit("]");
                    assert("["@ =~= seq!['[']);
                    assert("]"@ =~= seq![']']);
                    assert(r@ =~= seq!['['] + render_list(jview_list(items@)) + seq![']']);
                }
                r
            },
            Json::Obj(entries) => {
                proof {
                    vstd::std_specs::vec::axiom_vec_decreases_to_view(*entries);
                }
                let mut r = String::from_str("{");
                let body = render_obj_entries(entries);
                r.append(body.as_str());
                r.append("}");
                proof {
                    reveal_strlit("{");
                    reveal_strlit("}");
                    assert("{"@ =~= seq!['{']);
                    assert("}"@ =~= seq!['}']);
                    assert(r@ =~= seq!['{'] + render_entries(jview_entries(entries@)) + seq!['}']);
                }
                r
            },
        }
    }
}

fn render_items(items: &Vec<Json>) -> (r: String)
    ensures
        r@ == render_list(jview_list(items@)),
    decreases *items, 0int,
{
    let ghost vs = jview_list(items@);
    proof {
        lemma_jview_list_props(items@);
        assert(vs.take(0) =~= Seq::<JsonV>::empty());
    }
    let mut r = String::new();
    let n = items.len();
    let mut i: usize = 0;
    while i < n
        invariant
            0 <= i <= n,
            n == items@.len(),
            vs == jview_list(items@),
            vs.len() == n,
            forall|j: int| 0 <= j < n ==> #[trigger] vs[j] == jview(items@[j]),
            r@ == render_list(vs.take(i as int)),
        decreases n - i,
    {
        proof {
            vstd::std_specs::vec::axiom_vec_index_decreases(*items, i as int);
            lemma_render_list_snoc(vs, i as int);
        }
        if i > 0 {
            r.append(",");
            proof {
                reveal_strlit(",");
                assert(","@ =~= seq![',']);
            }
        }
        let piece = items[i].render();
        r.append(piece.as_str());
        i = i + 1;
    }
    proof {
        assert(vs.take(n as int) =~= vs);
    }
    r
}

fn render_obj_entries(entries: &Vec<(String, Json)>) -> (r: String)
    ensures
        r@ == render_entries(jview_entries(entries@)),
    decreases *entries, 0int,
{
    let ghost vs = jview_entries(entries@);
    proof {
        lemma_jview_entries_props(entries@);
        assert(vs.take(0) =~= Seq::<(Seq<char>, JsonV)>::empty());
    }
    let mut r = String::new();
    let n = entries.len();
    let mut i: usize = 0;
    while i < n
        invariant
            0 <= i <= n,
            n == entries@.len(),
            vs == jview_entries(entries@),
            vs.len() == n,
            forall|j: int|
                0 <= j < n ==> #[trigger] vs[j] == (entries@[j].0@, jview(entries@[j].1)),
            r@ == render_entries(vs.take(i as int)),
        decreases n - i,
    {
        proof {
            vstd::std_specs::vec::axiom_vec_index_decreases(*entries, i as int);
            lemma_render_entries_snoc(vs, i as int);
        }
        if i > 0 {
            r.append(",");
            proof {
                reveal_strlit(",");
                assert(","@ =~= seq![',']);
            }
        }
        r.append("\"");
        let key_body = json_escape(entries[i].0.as_str());
        r.append(key_body.as_str());
        r.append("\":");
        let piece = entries[i].1.render();
        r.append(piece.as_str());
        proof {
            reveal_strlit("\"");
            reveal_strlit("\":");
            assert("\""@ =~= seq!['"']);
            assert("\":"@ =~= seq!['"', ':']);
            assert(r@ =~= render_entries(vs.take(i as int + 1)));
        }
        i = i + 1;
    }
    proof {
        assert(vs.take(n as int) =~= vs);
    }
    r
}

} // verus!
