//! The JSON document model.
//!
//! Wire messages are JSON values; the gateway routes on their structure and
//! re-emits them as text. `JsonValue` is the executable tree, `JVal` its
//! mathematical view, and `json_text` the serialization that every emitted
//! body is proved to match. Numbers are 64-bit integers: the protocol core
//! only reads and writes request ids and error codes.

use vstd::prelude::*;
use vstd::string::StrSliceExecFns;
use vstd::string::StringExecFns;

use crate::text::dec_text;
use crate::text::digit_char;
use crate::text::push_u64;
use crate::text::str_eq;

verus! {

broadcast use vstd::std_specs::vec::axiom_vec_decreases_to_view, vstd::std_specs::vec::axiom_vec_index_decreases, vstd::seq::axiom_seq_index_decreases;

/// A JSON document.
#[derive(Debug, PartialEq, Eq)]
pub enum JsonValue {
    Null,
    Bool(bool),
    Int(i64),
    Str(String),
    Arr(Vec<JsonValue>),
    Obj(Vec<(String, JsonValue)>),
}

/// The mathematical view of a JSON document.
#[verifier::ext_equal]
pub ghost enum JVal {
    Null,
    Bool(bool),
    Int(int),
    Str(Seq<char>),
    Arr(Seq<JVal>),
    Obj(Seq<(Seq<char>, JVal)>),
}

/// View of one document.
pub open spec fn jval_of(v: JsonValue) -> JVal
    decreases v,
{
    match v {
        JsonValue::Null => JVal::Null,
        JsonValue::Bool(b) => JVal::Bool(b),
        JsonValue::Int(i) => JVal::Int(i as int),
        JsonValue::Str(s) => JVal::Str(s@),
        JsonValue::Arr(items) => JVal::Arr(jvals_of(items@)),
        JsonValue::Obj(fields) => JVal::Obj(jfields_of(fields@)),
    }
}

/// Views of a sequence of documents.
pub open spec fn jvals_of(s: Seq<JsonValue>) -> Seq<JVal>
    decreases s,
{
    if s.len() == 0 {
        Seq::empty()
    } else {
        jvals_of(s.drop_last()).push(jval_of(s.last()))
    }
}

/// Views of a sequence of object fields.
pub open spec fn jfields_of(s: Seq<(String, JsonValue)>) -> Seq<(Seq<char>, JVal)>
    decreases s,
{
    if s.len() == 0 {
        Seq::empty()
    } else {
        jfields_of(s.drop_last()).push((s.last().0@, jval_of(s.last().1)))
    }
}

impl View for JsonValue {
    type V = JVal;

    open spec fn view(&self) -> JVal {
        jval_of(*self)
    }
}

/// `jvals_of` maps the view over the elements.
pub proof fn lemma_jvals_of(s: Seq<JsonValue>)
    ensures
        jvals_of(s).len() == s.len(),
        forall|i: int| 0 <= i < s.len() ==> jvals_of(s)[i] == jval_of(s[i]),
    decreases s.len(),
{
    if s.len() > 0 {
        lemma_jvals_of(s.drop_last());
    }
}

/// `jfields_of` maps the views over keys and values.
pub proof fn lemma_jfields_of(s: Seq<(String, JsonValue)>)
    ensures
        jfields_of(s).len() == s.len(),
        forall|i: int|
            0 <= i < s.len() ==> jfields_of(s)[i] == (s[i].0@, jval_of(s[i].1)),
    decreases s.len(),
{
    if s.len() > 0 {
        lemma_jfields_of(s.drop_last());
    }
}

/// Look a key up in an object's field list; first match wins.
pub open spec fn fields_lookup(fs: Seq<(Seq<char>, JVal)>, k: Seq<char>) -> Option<JVal>
    decreases fs,
{
    if fs.len() == 0 {
        None
    } else if fs[0].0 == k {
        Some(fs[0].1)
    } else {
        fields_lookup(fs.drop_first(), k)
    }
}

/// A lookup resolves to the first field whose key matches.
pub proof fn lemma_lookup_at(fs: Seq<(Seq<char>, JVal)>, k: Seq<char>, i: int)
    requires
        0 <= i < fs.len(),
        fs[i].0 == k,
        forall|j: int| 0 <= j < i ==> fs[j].0 != k,
    ensures
        fields_lookup(fs, k) == Some(fs[i].1),
    decreases i,
{
    if i > 0 {
        lemma_lookup_at(fs.drop_first(), k, i - 1);
    }
}

/// A lookup misses when no field carries the key.
pub proof fn lemma_lookup_absent(fs: Seq<(Seq<char>, JVal)>, k: Seq<char>)
    requires
        forall|j: int| 0 <= j < fs.len() ==> fs[j].0 != k,
    ensures
        fields_lookup(fs, k) is None,
    decreases fs.len(),
{
    if fs.len() > 0 {
        lemma_lookup_absent(fs.drop_first(), k);
    }
}

/// The field named `k` of document `j`, if `j` is an object carrying one.
pub open spec fn obj_field(j: JVal, k: Seq<char>) -> Option<JVal> {
    match j {
        JVal::Obj(fs) => fields_lookup(fs, k),
        _ => None,
    }
}

/// `j` is an object with a field named `k`.
pub open spec fn has_field(j: JVal, k: Seq<char>) -> bool {
    obj_field(j, k) is Some
}

impl JsonValue {
    /// The field named `k`, if this document is an object carrying one.
    pub fn get_field<'a>(&'a self, k: &str) -> (r: Option<&'a JsonValue>)
        ensures
            match r {
                Some(x) => obj_field(self@, k@) == Some(x@),
                None => obj_field(self@, k@) is None,
            },
    {
        match self {
            JsonValue::Obj(fields) => {
                let n = fields.len();
                let mut i: usize = 0;
                proof {
                    lemma_jfields_of(fields@);
                    assert(jfields_of(fields@).skip(0) =~= jfields_of(fields@));
                }
                while i < n
                    invariant
                        n == fields@.len(),
                        i <= n,
                        jfields_of(fields@).len() == n,
                        forall|j: int|
                            0 <= j < n ==> jfields_of(fields@)[j] == (
                            fields@[j].0@,
                            jval_of(fields@[j].1),
                            ),
                        self@ == JVal::Obj(jfields_of(fields@)),
                        fields_lookup(jfields_of(fields@), k@) == fields_lookup(
                            jfields_of(fields@).skip(i as int),
                            k@,
                        ),
                        forall|j: int| 0 <= j < i ==> fields@[j].0@ != k@,
                    decreases n - i,
                {
                    if str_eq(fields[i].0.as_str(), k) {
                        proof {
                            assert(jfields_of(fields@).skip(i as int)[0] == (
                                fields@[i as int].0@,
                                jval_of(fields@[i as int].1),
                            ));
                        }
                        return Some(&fields[i].1);
                    }
                    proof {
                        assert(jfields_of(fields@).skip(i as int)[0] == (
                            fields@[i as int].0@,
                            jval_of(fields@[i as int].1),
                        ));
                        assert(jfields_of(fields@).skip(i as int).drop_first() =~= jfields_of(
                            fields@,
                        ).skip(i + 1));
                    }
                    i += 1;
                }
                proof {
                    assert(jfields_of(fields@).skip(n as int) =~= Seq::empty());
                }
                None
            },
            _ => None,
        }
    }

    /// The string content, if this document is a string.
    pub fn as_str<'a>(&'a self) -> (r: Option<&'a String>)
        ensures
            match r {
                Some(s) => self@ == JVal::Str(s@),
                None => !(self@ is Str),
            },
    {
        match self {
            JsonValue::Str(s) => Some(s),
            _ => None,
        }
    }

    /// The integer content, if this document is a number.
    pub fn as_int(&self) -> (r: Option<i64>)
        ensures
            match r {
                Some(i) => self@ == JVal::Int(i as int),
                None => !(self@ is Int),
            },
    {
        match self {
            JsonValue::Int(i) => Some(*i),
            _ => None,
        }
    }

    /// The truth value, if this document is a boolean.
    pub fn as_bool(&self) -> (r: Option<bool>)
        ensures
            match r {
                Some(b) => self@ == JVal::Bool(b),
                None => !(self@ is Bool),
            },
    {
        match self {
            JsonValue::Bool(b) => Some(*b),
            _ => None,
        }
    }

    /// The items, if this document is an array.
    pub fn as_arr<'a>(&'a self) -> (r: Option<&'a Vec<JsonValue>>)
        ensures
            match r {
                Some(a) => self@ == JVal::Arr(jvals_of(a@)),
                None => !(self@ is Arr),
            },
    {
        match self {
            JsonValue::Arr(a) => Some(a),
            _ => None,
        }
    }

    /// A structural copy of the document.
    pub fn deep_clone(&self) -> (r: JsonValue)
        ensures
            r@ == self@,
        decreases *self,
    {
        match self {
            JsonValue::Null => JsonValue::Null,
            JsonValue::Bool(b) => JsonValue::Bool(*b),
            JsonValue::Int(i) => JsonValue::Int(*i),
            JsonValue::Str(s) => JsonValue::Str(s.clone()),
            JsonValue::Arr(items) => {
                let n = items.len();
                let mut out: Vec<JsonValue> = Vec::new();
                let mut i: usize = 0;
                while i < n
                    invariant
                        n == items@.len(),
                        i <= n,
                        out@.len() == i,
                        *self == JsonValue::Arr(*items),
                        forall|j: int| 0 <= j < i ==> out@[j]@ == items@[j]@,
                    decreases n - i,
                {
                    proof {
                        assert(decreases_to!(*self => self->Arr_0));
                        assert(decreases_to!(self->Arr_0 => self->Arr_0@));
                        assert(decreases_to!(self->Arr_0@ => self->Arr_0@[i as int]));
                        assert(decreases_to!(*self => items@[i as int]));
                    }
                    let c = items[i].deep_clone();
                    out.push(c);
                    i += 1;
                }
                let r = JsonValue::Arr(out);
                proof {
                    lemma_jvals_of(out@);
                    lemma_jvals_of(items@);
                    assert(jvals_of(out@) =~= jvals_of(items@));
                }
                r
            },
            JsonValue::Obj(fields) => {
                let n = fields.len();
                let mut out: Vec<(String, JsonValue)> = Vec::new();
                let mut i: usize = 0;
                while i < n
                    invariant
                        n == fields@.len(),
                        i <= n,
                        out@.len() == i,
                        *self == JsonValue::Obj(*fields),
                        forall|j: int|
                            0 <= j < i ==> out@[j].0@ == fields@[j].0@ && out@[j].1@
                                == fields@[j].1@,
                    decreases n - i,
                {
                    proof {
                        assert(decreases_to!(*self => self->Obj_0));
                        assert(decreases_to!(self->Obj_0 => self->Obj_0@));
                        assert(decreases_to!(self->Obj_0@ => self->Obj_0@[i as int]));
                        assert(decreases_to!(self->Obj_0@[i as int] => self->Obj_0@[i as int].1));
                        assert(decreases_to!(*self => fields@[i as int].1));
                    }
                    let k = fields[i].0.clone();
                    let c = fields[i].1.deep_clone();
                    out.push((k, c));
                    i += 1;
                }
                let r = JsonValue::Obj(out);
                proof {
                    lemma_jfields_of(out@);
                    lemma_jfields_of(fields@);
                    assert(jfields_of(out@) =~= jfields_of(fields@));
                }
                r
            },
        }
    }
}

/// The character for one hexadecimal digit.
pub open spec fn hex_char(d: nat) -> char {
    if d < 10 {
        digit_char(d)
    } else if d == 10 {
        'a'
    } else if d == 11 {
        'b'
    } else if d == 12 {
        'c'
    } else if d == 13 {
        'd'
    } else if d == 14 {
        'e'
    } else {
        'f'
    }
}

/// The JSON escape of one string character.
pub open spec fn escape_char(c: char) -> Seq<char> {
    if c == '"' {
        seq!['\\', '"']
    } else if c == '\\' {
        seq!['\\', '\\']
    } else if c == '\n' {
        seq!['\\', 'n']
    } else if c == '\r' {
        seq!['\\', 'r']
    } else if c == '\t' {
        seq!['\\', 't']
    } else if (c as int) < 32 {
        seq!['\\', 'u', '0', '0', hex_char(((c as int) / 16) as nat), hex_char(
            ((c as int) % 16) as nat,
        )]
    } else {
        seq![c]
    }
}

/// The escaped body of a JSON string.
pub open spec fn escaped_text(s: Seq<char>) -> Seq<char>
    decreases s.len(),
{
    if s.len() == 0 {
        Seq::empty()
    } else {
        escaped_text(s.drop_last()) + escape_char(s.last())
    }
}

/// Decimal text of an integer, with a sign when negative.
pub open spec fn int_text(i: int) -> Seq<char> {
    if i < 0 {
        seq!['-'] + dec_text((-i) as nat)
    } else {
        dec_text(i as nat)
    }
}

/// Serialized text of one document.
pub open spec fn json_text(j: JVal) -> Seq<char>
    decreases j,
{
    match j {
        JVal::Null => seq!['n', 'u', 'l', 'l'],
        JVal::Bool(b) => if b {
            seq!['t', 'r', 'u', 'e']
        } else {
            seq!['f', 'a', 'l', 's', 'e']
        },
        JVal::Int(i) => int_text(i),
        JVal::Str(s) => seq!['"'] + escaped_text(s) + seq!['"'],
        JVal::Arr(items) => seq!['['] + arr_text(items) + seq![']'],
        JVal::Obj(fields) => seq!['{'] + obj_text(fields) + seq!['}'],
    }
}

/// Serialized text of comma-separated array items.
pub open spec fn arr_text(items: Seq<JVal>) -> Seq<char>
    decreases items,
{
    if items.len() == 0 {
        Seq::empty()
    } else if items.len() == 1 {
        json_text(items[0])
    } else {
        arr_text(items.drop_last()) + seq![','] + json_text(items.last())
    }
}

/// Serialized text of comma-separated object fields.
pub open spec fn obj_text(fields: Seq<(Seq<char>, JVal)>) -> Seq<char>
    decreases fields,
{
    if fields.len() == 0 {
        Seq::empty()
    } else if fields.len() == 1 {
        field_text(fields[0])
    } else {
        obj_text(fields.drop_last()) + seq![','] + field_text(fields.last())
    }
}

/// Serialized text of one object field.
pub open spec fn field_text(f: (Seq<char>, JVal)) -> Seq<char>
    decreases f,
{
    seq!['"'] + escaped_text(f.0) + seq!['"', ':'] + json_text(f.1)
}

/// Append one hexadecimal digit (d < 16) to `out`.
fn push_hex(d: u32, out: &mut String)
    requires
        d < 16,
    ensures
        final(out)@ == old(out)@ + seq![hex_char(d as nat)],
{
    if d < 10 {
        crate::text::push_digit(d as u64, out);
    } else {
        let s: &str = if d == 10 {
            "a"
        } else if d == 11 {
            "b"
        } else if d == 12 {
            "c"
        } else if d == 13 {
            "d"
        } else if d == 14 {
            "e"
        } else {
            "f"
        };
        proof {
            reveal_strlit("a");
            reveal_strlit("b");
            reveal_strlit("c");
            reveal_strlit("d");
            reveal_strlit("e");
            reveal_strlit("f");
            assert(s@ =~= seq![hex_char(d as nat)]);
        }
        out.append(s);
    }
}

/// Append the escaped body of a JSON string to `out`.
fn append_escaped(s: &str, out: &mut String)
    ensures
        final(out)@ == old(out)@ + escaped_text(s@),
{
    let n = s.unicode_len();
    let mut i: usize = 0;
    proof {
        assert(s@.take(0) =~= Seq::<char>::empty());
    }
    while i < n
        invariant
            n == s@.len(),
            i <= n,
            out@ == old(out)@ + escaped_text(s@.take(i as int)),
        decreases n - i,
    {
        let c = s.get_char(i);
        if c == '"' {
            proof {
                reveal_strlit("\\\"");
                assert("\\\""@ =~= escape_char(c));
            }
            out.append("\\\"");
        } else if c == '\\' {
            proof {
                reveal_strlit("\\\\");
                assert("\\\\"@ =~= escape_char(c));
            }
            out.append("\\\\");
        } else if c == '\n' {
            proof {
                reveal_strlit("\\n");
                assert("\\n"@ =~= escape_char(c));
            }
            out.append("\\n");
        } else if c == '\r' {
            proof {
                reveal_strlit("\\r");
                assert("\\r"@ =~= escape_char(c));
            }
            out.append("\\r");
        } else if c == '\t' {
            proof {
                reveal_strlit("\\t");
                assert("\\t"@ =~= escape_char(c));
            }
            out.append("\\t");
        } else if (c as u32) < 32 {
            proof {
                reveal_strlit("\\u00");
                assert("\\u00"@ =~= seq!['\\', 'u', '0', '0']);
            }
            out.append("\\u00");
            let code = c as u32;
            push_hex(code / 16, out);
            push_hex(code % 16, out);
            proof {
                assert(out@ =~= old(out)@ + escaped_text(s@.take(i as int)) + escape_char(c));
            }
        } else {
            let piece = s.substring_char(i, i + 1);
            proof {
                assert(piece@ =~= seq![c]);
                assert(piece@ =~= escape_char(c));
            }
            out.append(piece);
        }
        proof {
            assert(s@.take(i + 1).drop_last() =~= s@.take(i as int));
            assert(s@.take(i + 1).last() == c);
            assert(escaped_text(s@.take(i + 1)) == escaped_text(s@.take(i as int))
                + escape_char(c));
            assert(out@ =~= old(out)@ + escaped_text(s@.take(i + 1)));
        }
        i += 1;
    }
    proof {
        assert(s@.take(n as int) =~= s@);
    }
}

/// Append the serialized text of `v` to `out`.
pub fn append_json(v: &JsonValue, out: &mut String)
    ensures
        final(out)@ == old(out)@ + json_text(v@),
    decreases *v,
{
    match v {
        JsonValue::Null => {
            proof {
                reveal_strlit("null");
                assert("null"@ =~= seq!['n', 'u', 'l', 'l']);
            }
            out.append("null");
        },
        JsonValue::Bool(b) => {
            if *b {
                proof {
                    reveal_strlit("true");
                    assert("true"@ =~= seq!['t', 'r', 'u', 'e']);
                }
                out.append("true");
            } else {
                proof {
                    reveal_strlit("false");
                    assert("false"@ =~= seq!['f', 'a', 'l', 's', 'e']);
                }
                out.append("false");
            }
        },
        JsonValue::Int(x) => {
            let xv = *x;
            if xv < 0 {
                proof {
                    reveal_strlit("-");
                    assert("-"@ =~= seq!['-']);
                }
                out.append("-");
                let mag: u64 = ((-(xv + 1)) as u64) + 1;
                proof {
                    assert(mag as nat == (-(xv as int)) as nat);
                }
                push_u64(mag, out);
                proof {
                    assert(out@ =~= old(out)@ + int_text(xv as int));
                }
            } else {
                push_u64(xv as u64, out);
            }
        },
        JsonValue::Str(s) => {
            proof {
                reveal_strlit("\"");
                assert("\""@ =~= seq!['"']);
            }
            out.append("\"");
            append_escaped(s.as_str(), out);
            out.append("\"");
            proof {
                assert(out@ =~= old(out)@ + json_text(v@));
            }
        },
        JsonValue::Arr(items) => {
            proof {
                reveal_strlit("[");
                reveal_strlit("]");
                reveal_strlit(",");
                assert("["@ =~= seq!['[']);
                assert("]"@ =~= seq![']']);
                assert(","@ =~= seq![',']);
                lemma_jvals_of(items@);
            }
            let ghost sv: Seq<JVal> = jvals_of(items@);
            out.append("[");
            let ghost base: Seq<char> = out@;
            let n = items.len();
            let mut i: usize = 0;
            proof {
                assert(arr_text(sv.take(0)) =~= Seq::<char>::empty());
                assert(out@ =~= base + arr_text(sv.take(0)));
            }
            while i < n
                invariant
                    n == items@.len(),
                    i <= n,
                    sv == jvals_of(items@),
                    sv.len() == n,
                    forall|j: int| 0 <= j < n ==> sv[j] == jval_of(items@[j]),
                    *v == JsonValue::Arr(*items),
                    base == old(out)@ + seq!['['],
                    out@ == base + arr_text(sv.take(i as int)),
                    ","@ == seq![','],
                decreases n - i,
            {
                if i > 0 {
                    out.append(",");
                }
                proof {
                    assert(decreases_to!(*v => v->Arr_0));
                    assert(decreases_to!(v->Arr_0 => v->Arr_0@));
                    assert(decreases_to!(v->Arr_0@ => v->Arr_0@[i as int]));
                    assert(decreases_to!(*v => items@[i as int]));
                }
                append_json(&items[i], out);
                proof {
                    assert(sv.take(i + 1).drop_last() =~= sv.take(i as int));
                    assert(sv.take(i + 1).last() == sv[i as int]);
                    if i == 0 {
                        assert(sv.take(1)[0] == sv[0]);
                        assert(arr_text(sv.take(1)) == json_text(sv[0]));
                        assert(out@ =~= base + arr_text(sv.take(i + 1)));
                    } else {
                        assert(arr_text(sv.take(i + 1)) == arr_text(sv.take(i as int))
                            + seq![','] + json_text(sv[i as int]));
                        assert(out@ =~= base + arr_text(sv.take(i + 1)));
                    }
                }
                i += 1;
            }
            out.append("]");
            proof {
                assert(sv.take(n as int) =~= sv);
                assert(out@ =~= old(out)@ + json_text(v@));
            }
        },
        JsonValue::Obj(fields) => {
            proof {
                reveal_strlit("{");
                reveal_strlit("}");
                reveal_strlit(",");
                reveal_strlit("\"");
                reveal_strlit("\":");
                assert("{"@ =~= seq!['{']);
                assert("}"@ =~= seq!['}']);
                assert(","@ =~= seq![',']);
                assert("\""@ =~= seq!['"']);
                assert("\":"@ =~= seq!['"', ':']);
                lemma_jfields_of(fields@);
            }
            let ghost sv: Seq<(Seq<char>, JVal)> = jfields_of(fields@);
            out.append("{");
            let ghost base: Seq<char> = out@;
            let n = fields.len();
            let mut i: usize = 0;
            proof {
                assert(obj_text(sv.take(0)) =~= Seq::<char>::empty());
                assert(out@ =~= base + obj_text(sv.take(0)));
            }
            while i < n
                invariant
                    n == fields@.len(),
                    i <= n,
                    sv == jfields_of(fields@),
                    sv.len() == n,
                    forall|j: int|
                        0 <= j < n ==> sv[j] == (fields@[j].0@, jval_of(fields@[j].1)),
                    *v == JsonValue::Obj(*fields),
                    base == old(out)@ + seq!['{'],
                    out@ == base + obj_text(sv.take(i as int)),
                    ","@ == seq![','],
                    "\""@ == seq!['"'],
                    "\":"@ == seq!['"', ':'],
                decreases n - i,
            {
                if i > 0 {
                    out.append(",");
                }
                let ghost mid: Seq<char> = out@;
                out.append("\"");
                append_escaped(fields[i].0.as_str(), out);
                out.append("\":");
                proof {
                    assert(decreases_to!(*v => v->Obj_0));
                    assert(decreases_to!(v->Obj_0 => v->Obj_0@));
                    assert(decreases_to!(v->Obj_0@ => v->Obj_0@[i as int]));
                    assert(decreases_to!(v->Obj_0@[i as int] => v->Obj_0@[i as int].1));
                    assert(decreases_to!(*v => fields@[i as int].1));
                }
                append_json(&fields[i].1, out);
                proof {
                    assert(out@ =~= mid + field_text(sv[i as int]));
                    assert(sv.take(i + 1).drop_last() =~= sv.take(i as int));
                    assert(sv.take(i + 1).last() == sv[i as int]);
                    if i == 0 {
                        assert(sv.take(1)[0] == sv[0]);
                        assert(obj_text(sv.take(1)) == field_text(sv[0]));
                        assert(out@ =~= base + obj_text(sv.take(i + 1)));
                    } else {
                        assert(obj_text(sv.take(i + 1)) == obj_text(sv.take(i as int))
                            + seq![','] + field_text(sv[i as int]));
                        assert(out@ =~= base + obj_text(sv.take(i + 1)));
                    }
                }
                i += 1;
            }
            out.append("}");
            proof {
                assert(sv.take(n as int) =~= sv);
                assert(out@ =~= old(out)@ + json_text(v@));
            }
        },
    }
}

/// The serialized text of `v`.
pub fn to_json_string(v: &JsonValue) -> (r: String)
    ensures
        r@ == json_text(v@),
{
    let mut out = String::new();
    append_json(v, &mut out);
    proof {
        assert(out@ =~= json_text(v@));
    }
    out
}

} // verus!
