//! Tool arguments as JSON values, and the corrections made to them before a tool
//! runs: the small model's known mistakes are absorbed instead of refused.
use vstd::prelude::*;

use crate::fallback::filename_with_ext_spec;
use crate::paths::{is_abs, join_spec};
use crate::text::{chars_of, has_sub, push_str, string_of, text_eq, to_string, trim};

verus! {

/// A JSON value. Numbers are kept as the text serde_json prints for them; the
/// entries of an object keep their order (keys are unique).
#[derive(Debug)]
pub enum JsonValue {
    Null,
    Bool(bool),
    Number(String),
    Str(String),
    Array(Vec<JsonValue>),
    Object(Vec<(String, JsonValue)>),
}

/// A lower-case hexadecimal digit.
pub open spec fn hex_digit(n: nat) -> char {
    if n < 10 {
        (('0' as nat) + n) as char
    } else {
        (('a' as nat) + n - 10) as char
    }
}

/// How serde_json writes one character inside a string: quote and backslash
/// escaped, the short escapes for backspace, tab, line feed, form feed and
/// carriage return, `\u00XX` for the other control characters below 0x20, and
/// every other character as it is.
pub open spec fn json_escape_char(c: char) -> Seq<char> {
    let u = c as u32;
    if c == '"' {
        seq!['\\', '"']
    } else if c == '\\' {
        seq!['\\', '\\']
    } else if u == 8 {
        seq!['\\', 'b']
    } else if u == 9 {
        seq!['\\', 't']
    } else if u == 10 {
        seq!['\\', 'n']
    } else if u == 12 {
        seq!['\\', 'f']
    } else if u == 13 {
        seq!['\\', 'r']
    } else if u < 32 {
        seq!['\\', 'u', '0', '0', hex_digit((u / 16) as nat), hex_digit((u % 16) as nat)]
    } else {
        seq![c]
    }
}

pub open spec fn json_escaped(s: Seq<char>) -> Seq<char>
    decreases s.len(),
{
    if s.len() == 0 {
        Seq::empty()
    } else {
        json_escaped(s.drop_last()) + json_escape_char(s.last())
    }
}

/// The JSON string literal that serde_json writes for `s`: the escaped characters
/// between double quotes.
pub open spec fn json_string_literal(s: Seq<char>) -> Seq<char> {
    seq!['"'] + json_escaped(s) + seq!['"']
}

/// Calls `serde_json::to_string` on a string, which writes [`json_string_literal`]
/// of it (the escape table and `write_char_escape` of serde_json's `ser.rs`).
/// Serialising a `str` does not fail; an error would give the empty text.
#[verifier::external_body]
pub(crate) fn json_quote(s: &str) -> (r: String)
    ensures
        r@ == json_string_literal(s@),
{
    match serde_json::to_string(s) {
        Ok(t) => t,
        Err(_) => String::new(),
    }
}

/// The strings of a JSON array of strings, as `serde_json::from_str::<Vec<String>>`
/// reads it (`None` when the text is not such an array).
pub uninterp spec fn string_list_of(s: Seq<char>) -> Option<Seq<Seq<char>>>;

pub open spec fn strings_view(v: Seq<String>) -> Seq<Seq<char>> {
    v.map_values(|s: String| s@)
}

/// Calls `serde_json::from_str::<Vec<String>>`; the result is named
/// [`string_list_of`] of the text.
#[verifier::external_body]
fn parse_string_list(s: &str) -> (r: Option<Vec<String>>)
    ensures
        match r {
            Some(v) => string_list_of(s@) == Some(strings_view(v@)),
            None => string_list_of(s@) is None,
        },
{
    serde_json::from_str::<Vec<String>>(s).ok()
}

// ---------------------------------------------------------------------------
// JSON text
// ---------------------------------------------------------------------------

/// The compact JSON text of a value (as serde_json prints a value whose object keys
/// are in the stored order).
pub open spec fn json_text(v: JsonValue) -> Seq<char>
    decreases v,
{
    match v {
        JsonValue::Null => "null"@,
        JsonValue::Bool(b) => if b {
            "true"@
        } else {
            "false"@
        },
        JsonValue::Number(t) => t@,
        JsonValue::Str(s) => json_string_literal(s@),
        JsonValue::Array(items) => "["@ + items_text(items@) + "]"@,
        JsonValue::Object(es) => "{"@ + entries_text(es@) + "}"@,
    }
}

pub open spec fn items_text(items: Seq<JsonValue>) -> Seq<char>
    decreases items,
{
    if items.len() == 0 {
        Seq::empty()
    } else if items.len() == 1 {
        json_text(items[0])
    } else {
        items_text(items.drop_last()) + ","@ + json_text(items.last())
    }
}

pub open spec fn entries_text(es: Seq<(String, JsonValue)>) -> Seq<char>
    decreases es,
{
    if es.len() == 0 {
        Seq::empty()
    } else if es.len() == 1 {
        json_string_literal(es[0].0@) + ":"@ + json_text(es[0].1)
    } else {
        entries_text(es.drop_last()) + ","@ + json_string_literal(es.last().0@) + ":"@
            + json_text(es.last().1)
    }
}

/// The compact JSON text of a value, as `serde_json::Value::to_string` gives it.
/// `JsonValue` is this library's own type, which serde cannot serialise from here,
/// so the brackets, commas and colons are written out; strings are quoted by
/// serde_json itself.
pub fn json_text_of(v: &JsonValue) -> (r: String)
    ensures
        r@ == json_text(*v),
    decreases v,
{
    match v {
        JsonValue::Null => to_string("null"),
        JsonValue::Bool(b) => if *b {
            to_string("true")
        } else {
            to_string("false")
        },
        JsonValue::Number(t) => string_of(chars_of(t.as_str()).as_slice()),
        JsonValue::Str(s) => json_quote(s.as_str()),
        JsonValue::Array(items) => {
            let mut r = to_string("[");
            let mut i: usize = 0;
            while i < items.len()
                invariant
                    i <= items@.len(),
                    *v == JsonValue::Array(*items),
                    r@ == "["@ + items_text(items@.take(i as int)),
                decreases items.len() - i,
            {
                proof {
                    assert(decreases_to!(*v => (*v)->Array_0));
                    assert(decreases_to!(*items => items@));
                    assert(decreases_to!(items@ => items@[i as int]));
                }
                if i > 0 {
                    push_str(&mut r, ",");
                }
                let t = json_text_of(&items[i]);
                push_str(&mut r, t.as_str());
                proof {
                    let s = items@.take(i + 1);
                    assert(s.drop_last() =~= items@.take(i as int));
                    if i == 0 {
                        assert(items_text(s) == json_text(items@[0]));
                        assert(r@ =~= "["@ + items_text(s));
                    } else {
                        assert(r@ =~= "["@ + items_text(s));
                    }
                }
                i += 1;
            }
            assert(items@.take(items@.len() as int) =~= items@);
            push_str(&mut r, "]");
            r
        },
        JsonValue::Object(es) => {
            let mut r = to_string("{");
            let mut i: usize = 0;
            while i < es.len()
                invariant
                    i <= es@.len(),
                    *v == JsonValue::Object(*es),
                    r@ == "{"@ + entries_text(es@.take(i as int)),
                decreases es.len() - i,
            {
                proof {
                    assert(decreases_to!(*v => (*v)->Object_0));
                    assert(decreases_to!(*es => es@));
                    assert(decreases_to!(es@ => es@[i as int]));
                    assert(decreases_to!(es@[i as int] => es@[i as int].1));
                }
                if i > 0 {
                    push_str(&mut r, ",");
                }
                let k = json_quote(es[i].0.as_str());
                push_str(&mut r, k.as_str());
                push_str(&mut r, ":");
                let t = json_text_of(&es[i].1);
                push_str(&mut r, t.as_str());
                proof {
                    let s = es@.take(i + 1);
                    assert(s.drop_last() =~= es@.take(i as int));
                    assert(r@ =~= "{"@ + entries_text(s));
                }
                i += 1;
            }
            assert(es@.take(es@.len() as int) =~= es@);
            push_str(&mut r, "}");
            r
        },
    }
}

} // verus!

verus! {

// ---------------------------------------------------------------------------
// Object entries
// ---------------------------------------------------------------------------

/// Index of the entry with key `k` (keys are unique; the first one counts).
pub open spec fn key_index(es: Seq<(String, JsonValue)>, k: Seq<char>) -> Option<int>
    decreases es.len(),
{
    if es.len() == 0 {
        None
    } else {
        match key_index(es.drop_last(), k) {
            Some(i) => Some(i),
            None => if es.last().0@ == k {
                Some(es.len() - 1)
            } else {
                None
            },
        }
    }
}

proof fn lemma_key_index(es: Seq<(String, JsonValue)>, k: Seq<char>)
    ensures
        match key_index(es, k) {
            Some(i) => 0 <= i < es.len() && es[i].0@ == k && forall|j: int|
                0 <= j < i ==> #[trigger] es[j].0@ != k,
            None => forall|j: int| 0 <= j < es.len() ==> #[trigger] es[j].0@ != k,
        },
    decreases es.len(),
{
    if es.len() > 0 {
        lemma_key_index(es.drop_last(), k);
        assert forall|j: int| 0 <= j < es.len() - 1 implies es.drop_last()[j] == es[j] by {}
    }
}

/// Index of the entry with key `k`.
pub fn find_key(es: &Vec<(String, JsonValue)>, k: &str) -> (r: Option<usize>)
    ensures
        match r {
            Some(i) => key_index(es@, k@) == Some(i as int) && i < es@.len() && es@[i as int].0@
                == k@,
            None => key_index(es@, k@) is None,
        },
{
    proof {
        lemma_key_index(es@, k@);
    }
    let mut i: usize = 0;
    while i < es.len()
        invariant
            i <= es@.len(),
            forall|j: int| 0 <= j < i ==> #[trigger] es@[j].0@ != k@,
        decreases es.len() - i,
    {
        if text_eq(es[i].0.as_str(), k) {
            proof {
                lemma_key_index_at(es@, k@, i as int);
            }
            return Some(i);
        }
        i += 1;
    }
    proof {
        lemma_key_index_none(es@, k@);
    }
    None
}

proof fn lemma_key_index_at(es: Seq<(String, JsonValue)>, k: Seq<char>, i: int)
    requires
        0 <= i < es.len(),
        es[i].0@ == k,
        forall|j: int| 0 <= j < i ==> #[trigger] es[j].0@ != k,
    ensures
        key_index(es, k) == Some(i),
{
    lemma_key_index(es, k);
    match key_index(es, k) {
        Some(x) => {
            if x < i {
                assert(es[x].0@ != k);
            } else if x > i {
                assert(es[i].0@ != k);
            }
        },
        None => {
            assert(es[i].0@ != k);
        },
    }
}

proof fn lemma_key_index_none(es: Seq<(String, JsonValue)>, k: Seq<char>)
    requires
        forall|j: int| 0 <= j < es.len() ==> #[trigger] es[j].0@ != k,
    ensures
        key_index(es, k) is None,
{
    lemma_key_index(es, k);
    if let Some(x) = key_index(es, k) {
        assert(es[x].0@ != k);
    }
}

// ---------------------------------------------------------------------------
// Relative paths
// ---------------------------------------------------------------------------

/// Argument keys that hold a path.
pub open spec fn path_keys() -> Seq<Seq<char>> {
    seq!["path"@, "from"@, "to"@, "dir"@, "root"@, "output_path"@, "output_dir"@]
}

/// `\` replaced by `/`.
pub open spec fn slashes(s: Seq<char>) -> Seq<char> {
    s.map_values(|c: char| if c == '\\' { '/' } else { c })
}

/// A relative path argument read in the workspace (with `/` separators); `None`
/// for an empty or absolute one.
pub open spec fn to_abs_spec(s: Seq<char>, ws: Seq<char>) -> Option<Seq<char>> {
    let t = trim(s);
    if t.len() == 0 || is_abs(t) {
        None
    } else {
        Some(slashes(join_spec(ws, t)))
    }
}

/// A relative path argument read in the workspace.
pub fn to_abs(s: &str, ws: &str) -> (r: Option<String>)
    ensures
        match r {
            Some(p) => to_abs_spec(s@, ws@) == Some(p@),
            None => to_abs_spec(s@, ws@) is None,
        },
{
    let t = crate::text::trim_str(s);
    let tv = chars_of(t.as_str());
    if tv.len() == 0 || crate::paths::is_absolute(tv.as_slice()) {
        return None;
    }
    let j = crate::paths::join(ws, t.as_str());
    Some(crate::paths::to_slashes(j.as_str()))
}

/// `s.split(',')`: the pieces between commas (one piece when there is none).
pub open spec fn comma_pieces(s: Seq<char>) -> Seq<Seq<char>>
    decreases s.len(),
{
    if s.len() == 0 {
        seq![Seq::empty()]
    } else {
        let r = comma_pieces(s.drop_last());
        if s.last() == ',' {
            r.push(Seq::empty())
        } else {
            r.update(r.len() - 1, r.last().push(s.last()))
        }
    }
}

proof fn lemma_comma_pieces_len(s: Seq<char>)
    ensures
        comma_pieces(s).len() >= 1,
    decreases s.len(),
{
    if s.len() > 0 {
        lemma_comma_pieces_len(s.drop_last());
    }
}

/// The non-empty pieces, each relative one read in the workspace.
pub open spec fn fix_pieces(ps: Seq<Seq<char>>, ws: Seq<char>) -> Seq<Seq<char>>
    decreases ps.len(),
{
    if ps.len() == 0 {
        Seq::empty()
    } else {
        let r = fix_pieces(ps.drop_last(), ws);
        let p = ps.last();
        if p.len() == 0 {
            r
        } else {
            r.push(
                match to_abs_spec(p, ws) {
                    Some(a) => a,
                    None => p,
                },
            )
        }
    }
}

/// Pieces joined by `,`.
pub open spec fn join_commas(ps: Seq<Seq<char>>) -> Seq<char>
    decreases ps.len(),
{
    if ps.len() == 0 {
        Seq::empty()
    } else if ps.len() == 1 {
        ps[0]
    } else {
        join_commas(ps.drop_last()) + ","@ + ps.last()
    }
}

/// A `paths` argument given as one string: a JSON array of paths written as a
/// string, or paths separated by commas; the result lists the non-empty ones,
/// relative ones read in the workspace, separated by commas.
pub open spec fn fix_paths_text(s: Seq<char>, ws: Seq<char>) -> Seq<char> {
    let parts = match string_list_of(s) {
        Some(l) => l,
        None => comma_pieces(s).map_values(|p: Seq<char>| trim(p)),
    };
    join_commas(fix_pieces(parts, ws))
}

} // verus!

verus! {

pub open spec fn absorbed_item(ws: Seq<char>, o: JsonValue, n: JsonValue) -> bool {
    match o {
        JsonValue::Str(s) => match to_abs_spec(s@, ws) {
            Some(p) => n is Str && n->Str_0@ == p,
            None => n == o,
        },
        _ => n == o,
    }
}

/// What the correction makes of the value `o` under key `k`.
pub open spec fn absorbed_value(ws: Seq<char>, k: Seq<char>, o: JsonValue, n: JsonValue) -> bool {
    if path_keys().contains(k) && o is Str {
        absorbed_item(ws, o, n)
    } else if k == "paths"@ && o is Array {
        &&& n is Array
        &&& n->Array_0@.len() == o->Array_0@.len()
        &&& forall|i: int|
            0 <= i < o->Array_0@.len() ==> absorbed_item(ws, #[trigger] o->Array_0@[i], n->Array_0@[i])
    } else if k == "paths"@ && o is Str {
        n is Str && n->Str_0@ == fix_paths_text(o->Str_0@, ws)
    } else {
        n == o
    }
}

/// Relative path arguments read in the workspace `ws`: every path key holding a
/// relative path, and every relative path in `paths` (an array, or one string of
/// comma-separated paths or of a JSON array).
pub open spec fn absorbed(ws: Seq<char>, o: JsonValue, n: JsonValue) -> bool {
    match o {
        JsonValue::Object(es) => {
            &&& n is Object
            &&& n->Object_0@.len() == es@.len()
            &&& forall|i: int|
                0 <= i < es@.len() ==> (#[trigger] n->Object_0@[i]).0 == es@[i].0 && absorbed_value(
                    ws,
                    es@[i].0@,
                    es@[i].1,
                    n->Object_0@[i].1,
                )
        },
        _ => n == o,
    }
}

fn absorb_item(v: JsonValue, ws: &str) -> (r: JsonValue)
    ensures
        absorbed_item(ws@, v, r),
{
    match v {
        JsonValue::Str(s) => match to_abs(s.as_str(), ws) {
            Some(p) => JsonValue::Str(p),
            None => JsonValue::Str(s),
        },
        other => other,
    }
}

/// `s.split(',')` with each piece trimmed.
fn trimmed_comma_pieces(s: &str) -> (r: Vec<String>)
    ensures
        strings_view(r@) == comma_pieces(s@).map_values(|p: Seq<char>| trim(p)),
{
    let v = chars_of(s);
    let mut done: Vec<Vec<char>> = Vec::new();
    let mut cur: Vec<char> = Vec::new();
    let mut i: usize = 0;
    while i < v.len()
        invariant
            i <= v@.len(),
            v@ == s@,
            comma_pieces(v@.take(i as int)) =~= done@.map_values(|p: Vec<char>| p@).push(cur@),
        decreases v.len() - i,
    {
        assert(v@.take(i + 1).drop_last() =~= v@.take(i as int));
        if v[i] == ',' {
            let ghost d0 = done@.map_values(|p: Vec<char>| p@);
            let ghost c0 = cur@;
            done.push(cur);
            cur = Vec::new();
            assert(done@.map_values(|p: Vec<char>| p@) =~= d0.push(c0));
        } else {
            cur.push(v[i]);
        }
        i += 1;
    }
    assert(v@.take(v@.len() as int) =~= v@);
    let ghost all = comma_pieces(s@);
    let ghost d = done@.map_values(|p: Vec<char>| p@);
    let mut out: Vec<String> = Vec::new();
    let mut j: usize = 0;
    while j < done.len()
        invariant
            j <= done@.len(),
            all == d.push(cur@),
            d == done@.map_values(|p: Vec<char>| p@),
            strings_view(out@) =~= all.take(j as int).map_values(|p: Seq<char>| trim(p)),
        decreases done.len() - j,
    {
        let t = crate::fallback::trim_chars(done[j].as_slice());
        let ghost prev = strings_view(out@);
        out.push(string_of(t.as_slice()));
        assert(all[j as int] == done@[j as int]@);
        assert(strings_view(out@) =~= prev.push(trim(all[j as int])));
        assert(all.take(j + 1).map_values(|p: Seq<char>| trim(p)) =~= all.take(j as int).map_values(
            |p: Seq<char>| trim(p),
        ).push(trim(all[j as int])));
        j += 1;
    }
    let t = crate::fallback::trim_chars(cur.as_slice());
    let ghost prev = strings_view(out@);
    out.push(string_of(t.as_slice()));
    assert(strings_view(out@) =~= prev.push(trim(cur@)));
    assert(all =~= all.take(done@.len() as int).push(cur@));
    assert(all.map_values(|p: Seq<char>| trim(p)) =~= all.take(done@.len() as int).map_values(
        |p: Seq<char>| trim(p),
    ).push(trim(cur@)));
    out
}

/// A `paths` argument given as one string, corrected (see [`fix_paths_text`]).
pub fn fix_paths_string(s: &str, ws: &str) -> (r: String)
    ensures
        r@ == fix_paths_text(s@, ws@),
{
    let parts = match parse_string_list(s) {
        Some(v) => v,
        None => trimmed_comma_pieces(s),
    };
    let ghost pv = strings_view(parts@);
    assert(pv == match string_list_of(s@) {
        Some(l) => l,
        None => comma_pieces(s@).map_values(|p: Seq<char>| trim(p)),
    });
    let mut fixed: Vec<String> = Vec::new();
    let mut i: usize = 0;
    while i < parts.len()
        invariant
            i <= parts@.len(),
            pv == strings_view(parts@),
            strings_view(fixed@) =~= fix_pieces(pv.take(i as int), ws@),
        decreases parts.len() - i,
    {
        assert(pv.take(i + 1).drop_last() =~= pv.take(i as int));
        let p = &parts[i];
        if chars_of(p.as_str()).len() > 0 {
            let q = match to_abs(p.as_str(), ws) {
                Some(a) => a,
                None => p.clone(),
            };
            let ghost before = strings_view(fixed@);
            fixed.push(q);
            assert(strings_view(fixed@) =~= before.push(fixed@.last()@));
        }
        i += 1;
    }
    assert(pv.take(pv.len() as int) =~= pv);
    let ghost fv = strings_view(fixed@);
    let mut r = String::new();
    let mut j: usize = 0;
    while j < fixed.len()
        invariant
            j <= fixed@.len(),
            fv == strings_view(fixed@),
            r@ == join_commas(fv.take(j as int)),
        decreases fixed.len() - j,
    {
        if j > 0 {
            push_str(&mut r, ",");
        }
        push_str(&mut r, fixed[j].as_str());
        proof {
            let t = fv.take(j + 1);
            assert(t.drop_last() =~= fv.take(j as int));
            if j == 0 {
                assert(r@ =~= join_commas(t));
            } else {
                assert(r@ =~= join_commas(t));
            }
        }
        j += 1;
    }
    assert(fv.take(fv.len() as int) =~= fv);
    r
}

/// Whether `k` is one of the path keys.
fn is_path_key(k: &str) -> (r: bool)
    ensures
        r == path_keys().contains(k@),
{
    let keys: [&str; 7] = ["path", "from", "to", "dir", "root", "output_path", "output_dir"];
    let ghost kv = path_keys();
    let mut i: usize = 0;
    while i < 7
        invariant
            i <= 7,
            kv == path_keys(),
            forall|j: int| 0 <= j < 7 ==> (#[trigger] keys@[j])@ == kv[j],
            forall|j: int| 0 <= j < i ==> kv[j] != k@,
        decreases 7 - i,
    {
        if text_eq(keys[i], k) {
            assert(kv[i as int] == k@);
            return true;
        }
        i += 1;
    }
    assert(!kv.contains(k@));
    false
}

proof fn lemma_paths_is_not_a_path_key()
    ensures
        !path_keys().contains("paths"@),
{
    reveal_strlit("paths");
    reveal_strlit("path");
    reveal_strlit("from");
    reveal_strlit("to");
    reveal_strlit("dir");
    reveal_strlit("root");
    reveal_strlit("output_path");
    reveal_strlit("output_dir");
    let ks = path_keys();
    assert forall|i: int| 0 <= i < ks.len() implies ks[i] != "paths"@ by {
        assert(ks[i].len() != 5);
    }
}

fn absorb_value(k: &str, v: JsonValue, ws: &str) -> (r: JsonValue)
    ensures
        absorbed_value(ws@, k@, v, r),
{
    if is_path_key(k) {
        match v {
            JsonValue::Str(s) => return absorb_item(JsonValue::Str(s), ws),
            other => {
                proof {
                    lemma_paths_is_not_a_path_key();
                }
                return other;
            },
        }
    }
    if !text_eq(k, "paths") {
        return v;
    }
    match v {
        JsonValue::Array(items) => {
            let ghost old_items = items@;
            let mut stack = items;
            let mut out: Vec<JsonValue> = Vec::new();
            while stack.len() > 0
                invariant
                    stack@.len() <= old_items.len(),
                    stack@ == old_items.take(stack@.len() as int),
                    out@.len() == old_items.len() - stack@.len(),
                    forall|i: int|
                        0 <= i < out@.len() ==> absorbed_item(
                            ws@,
                            #[trigger] old_items[stack@.len() + i],
                            out@[i],
                        ),
                decreases stack@.len(),
            {
                let ghost n0 = stack@.len();
                let it = stack.pop().unwrap();
                assert(it == old_items[n0 - 1]);
                let fixed = absorb_item(it, ws);
                let ghost out0 = out@;
                out.insert(0, fixed);
                assert(stack@ =~= old_items.take(stack@.len() as int));
                assert forall|i: int| 0 <= i < out@.len() implies absorbed_item(
                    ws@,
                    #[trigger] old_items[stack@.len() + i],
                    out@[i],
                ) by {
                    if i > 0 {
                        assert(out@[i] == out0[i - 1]);
                        assert(old_items[stack@.len() + i] == old_items[n0 + (i - 1)]);
                    }
                }
            }
            let r = JsonValue::Array(out);
            assert forall|i: int| 0 <= i < old_items.len() implies absorbed_item(
                ws@,
                #[trigger] old_items[i],
                r->Array_0@[i],
            ) by {
                assert(old_items[0 + i] == old_items[i]);
            }
            r
        },
        JsonValue::Str(s) => JsonValue::Str(fix_paths_string(s.as_str(), ws)),
        other => other,
    }
}

/// Reads relative path arguments in the workspace `ws` (the small model copies bare
/// names it saw in a listing into path arguments).
pub fn absorb_relative_path_args(args: JsonValue, ws: &str) -> (r: JsonValue)
    ensures
        absorbed(ws@, args, r),
{
    match args {
        JsonValue::Object(es) => {
            let ghost old_es = es@;
            let mut stack = es;
            let mut out: Vec<(String, JsonValue)> = Vec::new();
            while stack.len() > 0
                invariant
                    stack@.len() <= old_es.len(),
                    stack@ == old_es.take(stack@.len() as int),
                    out@.len() == old_es.len() - stack@.len(),
                    forall|i: int|
                        0 <= i < out@.len() ==> (#[trigger] out@[i]).0 == old_es[stack@.len()
                            + i].0 && absorbed_value(
                            ws@,
                            old_es[stack@.len() + i].0@,
                            old_es[stack@.len() + i].1,
                            out@[i].1,
                        ),
                decreases stack@.len(),
            {
                let ghost n0 = stack@.len();
                let (k, v) = stack.pop().unwrap();
                assert((k, v) == old_es[n0 - 1]);
                let fixed = absorb_value(k.as_str(), v, ws);
                let ghost out0 = out@;
                out.insert(0, (k, fixed));
                assert(stack@ =~= old_es.take(stack@.len() as int));
                assert forall|i: int| 0 <= i < out@.len() implies (#[trigger] out@[i]).0
                    == old_es[stack@.len() + i].0 && absorbed_value(
                    ws@,
                    old_es[stack@.len() + i].0@,
                    old_es[stack@.len() + i].1,
                    out@[i].1,
                ) by {
                    if i > 0 {
                        assert(out@[i] == out0[i - 1]);
                        assert(old_es[stack@.len() + i] == old_es[n0 + (i - 1)]);
                    }
                }
            }
            let r = JsonValue::Object(out);
            assert forall|i: int| 0 <= i < old_es.len() implies (#[trigger] r->Object_0@[i]).0
                == old_es[i].0 && absorbed_value(
                ws@,
                old_es[i].0@,
                old_es[i].1,
                r->Object_0@[i].1,
            ) by {
                assert(old_es[0 + i] == old_es[i]);
            }
            r
        },
        other => other,
    }
}

} // verus!

verus! {

// ---------------------------------------------------------------------------
// Resize axis
// ---------------------------------------------------------------------------

/// The entries with the one under `from` moved under `to` (kept under `to` when
/// that key is already there, the moved value then being dropped).
pub open spec fn moved_key(
    es: Seq<(String, JsonValue)>,
    from: Seq<char>,
    to: Seq<char>,
    n: Seq<(String, JsonValue)>,
) -> bool {
    match key_index(es, from) {
        None => n == es,
        Some(i) => {
            let rest = es.remove(i);
            if key_index(rest, to) is Some {
                n == rest
            } else {
                &&& n.len() == rest.len() + 1
                &&& n.take(rest.len() as int) == rest
                &&& n.last().0@ == to
                &&& n.last().1 == es[i].1
            }
        },
    }
}

/// When the user spoke of only one axis (가로: width, 세로: height) and an
/// `image_transform` call resizes the other, the size is moved to the axis the user
/// named.
pub open spec fn axis_fixed(user: Seq<char>, tool: Seq<char>, o: JsonValue, n: JsonValue) -> bool {
    let w = has_sub(user, "가로"@);
    let h = has_sub(user, "세로"@);
    if tool != "image_transform"@ || !(o is Object) || w == h {
        n == o
    } else if w {
        n is Object && moved_key(o->Object_0@, "resize_height"@, "resize_width"@, n->Object_0@)
    } else {
        n is Object && moved_key(o->Object_0@, "resize_width"@, "resize_height"@, n->Object_0@)
    }
}

fn move_key(es: Vec<(String, JsonValue)>, from: &str, to: &str) -> (r: Vec<(String, JsonValue)>)
    ensures
        moved_key(es@, from@, to@, r@),
{
    let ghost es0 = es@;
    let mut es = es;
    match find_key(&es, from) {
        None => es,
        Some(i) => {
            let (_k, v) = es.remove(i);
            let ghost rest = es@;
            assert(rest == es0.remove(i as int));
            match find_key(&es, to) {
                Some(_) => es,
                None => {
                    es.push((to_string(to), v));
                    assert(es@.take(rest.len() as int) =~= rest);
                    es
                },
            }
        },
    }
}

/// Corrects the resize axis of an `image_transform` call (see [`axis_fixed`]).
pub fn fix_resize_axis(user_text: &str, tool: &str, args: JsonValue) -> (r: JsonValue)
    ensures
        axis_fixed(user_text@, tool@, args, r),
{
    if !text_eq(tool, "image_transform") {
        return args;
    }
    let w = crate::text::contains(user_text, "가로");
    let h = crate::text::contains(user_text, "세로");
    match args {
        JsonValue::Object(es) => {
            if w == h {
                JsonValue::Object(es)
            } else if w {
                JsonValue::Object(move_key(es, "resize_height", "resize_width"))
            } else {
                JsonValue::Object(move_key(es, "resize_width", "resize_height"))
            }
        },
        other => other,
    }
}

// ---------------------------------------------------------------------------
// Named output
// ---------------------------------------------------------------------------

/// The output extension of the tools that write one file named by the user.
pub open spec fn output_ext(tool: Seq<char>) -> Option<Seq<char>> {
    if tool == "images_to_pdf"@ {
        Some("pdf"@)
    } else if tool == "zip_create"@ {
        Some("zip"@)
    } else {
        None
    }
}

/// The JSON text of the value under `k` (empty when there is none).
pub open spec fn entry_text(es: Seq<(String, JsonValue)>, k: Seq<char>) -> Seq<char> {
    match key_index(es, k) {
        Some(i) => json_text(es[i].1),
        None => Seq::empty(),
    }
}

/// The call already names an output: a non-blank `output_path` string.
pub open spec fn has_output(es: Seq<(String, JsonValue)>) -> bool {
    match key_index(es, "output_path"@) {
        Some(i) => es[i].1 is Str && trim(es[i].1->Str_0@).len() > 0,
        None => false,
    }
}

/// The file name the user gave the output, when the call names none and the name
/// is not one of its inputs.
pub open spec fn named_output(user: Seq<char>, tool: Seq<char>, es: Seq<(String, JsonValue)>) -> Option<
    Seq<char>,
> {
    match output_ext(tool) {
        None => None,
        Some(ext) => if has_output(es) {
            None
        } else {
            match filename_with_ext_spec(user, ext) {
                None => None,
                Some(name) => if has_sub(
                    entry_text(es, "paths"@) + " "@ + entry_text(es, "dir"@),
                    name,
                ) {
                    None
                } else {
                    Some(name)
                },
            }
        },
    }
}

/// `output_path` set to the string `name` (in place when the key is there, else
/// added at the end).
pub open spec fn output_set(es: Seq<(String, JsonValue)>, name: Seq<char>, n: Seq<(String, JsonValue)>) -> bool {
    match key_index(es, "output_path"@) {
        Some(i) => n.len() == es.len() && (forall|j: int| 0 <= j < es.len() && j != i ==> n[j] == es[j])
            && n[i].0 == es[i].0 && n[i].1 is Str && n[i].1->Str_0@ == name,
        None => n.len() == es.len() + 1 && n.take(es.len() as int) == es && n.last().0@ == "output_path"@
            && n.last().1 is Str && n.last().1->Str_0@ == name,
    }
}

/// The user's output file name added to an `images_to_pdf` or `zip_create` call
/// that left it out.
pub open spec fn output_injected(user: Seq<char>, tool: Seq<char>, o: JsonValue, n: JsonValue) -> bool {
    match o {
        JsonValue::Object(es) => match named_output(user, tool, es@) {
            Some(name) => n is Object && output_set(es@, name, n->Object_0@),
            None => n == o,
        },
        _ => n == o,
    }
}

fn entry_text_of(es: &Vec<(String, JsonValue)>, k: &str) -> (r: String)
    ensures
        r@ == entry_text(es@, k@),
{
    match find_key(es, k) {
        Some(i) => json_text_of(&es[i].1),
        None => String::new(),
    }
}

/// Adds the output file name the user gave (see [`output_injected`]).
pub fn inject_named_output(user_text: &str, tool: &str, args: JsonValue) -> (r: JsonValue)
    ensures
        output_injected(user_text@, tool@, args, r),
{
    let ext = if text_eq(tool, "images_to_pdf") {
        "pdf"
    } else if text_eq(tool, "zip_create") {
        "zip"
    } else {
        return args;
    };
    assert(output_ext(tool@) == Some(ext@));
    let mut es = match args {
        JsonValue::Object(es) => es,
        other => return other,
    };
    let ghost es0 = es@;
    let out_idx = find_key(&es, "output_path");
    let has = match out_idx {
        Some(i) => match &es[i].1 {
            JsonValue::Str(s) => chars_of(crate::text::trim_str(s.as_str()).as_str()).len() > 0,
            _ => false,
        },
        None => false,
    };
    if has {
        return JsonValue::Object(es);
    }
    let name = match crate::fallback::filename_with_ext(user_text, ext) {
        Some(n) => n,
        None => return JsonValue::Object(es),
    };
    let mut inputs = entry_text_of(&es, "paths");
    push_str(&mut inputs, " ");
    let d = entry_text_of(&es, "dir");
    push_str(&mut inputs, d.as_str());
    if crate::text::contains(inputs.as_str(), name.as_str()) {
        return JsonValue::Object(es);
    }
    match out_idx {
        Some(i) => {
            let (k, _old) = es.remove(i);
            let ghost mid = es@;
            assert(mid == es0.remove(i as int));
            es.insert(i, (k, JsonValue::Str(name)));
            assert(es@ == mid.insert(i as int, es@[i as int]));
            assert forall|j: int| 0 <= j < es0.len() && j != i implies es@[j] == es0[j] by {
                if j < i {
                    assert(es@[j] == mid[j]);
                    assert(mid[j] == es0[j]);
                } else {
                    assert(es@[j] == mid[j - 1]);
                    assert(mid[j - 1] == es0[j]);
                }
            }
        },
        None => {
            es.push((to_string("output_path"), JsonValue::Str(name)));
            assert(es@.take(es0.len() as int) =~= es0);
        },
    }
    JsonValue::Object(es)
}

} // verus!
