//! Values the desktop shell asks for: the model files on offer, sorted by name,
//! and a finished capture with its thumbnail as a data URL. Walking folders,
//! capturing and thumbnailing are the caller's.
use vstd::prelude::*;

use base64::Engine;

use crate::sessions::{lemma_lt_from_irreflexive, lemma_lt_from_trans, text_lt};
use crate::text::{has_sub, ends_with, lower_text, push_str, to_string};

verus! {

/// A model file that can be loaded.
pub struct ModelEntry {
    pub name: String,
    pub path: String,
    pub size_bytes: u64,
}

pub struct ModelEntryView {
    pub name: Seq<char>,
    pub path: Seq<char>,
    pub size_bytes: u64,
}

impl View for ModelEntry {
    type V = ModelEntryView;

    open spec fn view(&self) -> ModelEntryView {
        ModelEntryView { name: self.name@, path: self.path@, size_bytes: self.size_bytes }
    }
}

pub open spec fn entries_view(v: Seq<ModelEntry>) -> Seq<ModelEntryView> {
    v.map_values(|e: ModelEntry| e@)
}

/// A file is offered as a model when its lower-cased name ends in `.gguf` and is
/// not a vision projector (`mmproj`).
pub open spec fn is_model_name(name: Seq<char>) -> bool {
    ends_with(lower_text(name), ".gguf"@) && !has_sub(lower_text(name), "mmproj"@)
}

pub fn is_model_file(name: &str) -> (r: bool)
    ensures
        r == is_model_name(name@),
{
    let l = crate::text::to_lowercase(name);
    let v = crate::text::chars_of(l.as_str());
    let ext = crate::text::chars_of(".gguf");
    crate::text::ends_with_chars(v.as_slice(), ext.as_slice()) && !crate::text::contains(
        l.as_str(),
        "mmproj",
    )
}

/// Sorted by name: no entry's name comes before the name of an entry ahead of it.
pub open spec fn by_name(es: Seq<ModelEntryView>) -> bool {
    forall|i: int, j: int| 0 <= i < j < es.len() ==> !text_lt(#[trigger] es[j].name, #[trigger] es[i].name)
}

/// Where `x` goes in `s` when inserted by name: before the first entry from `k` on
/// whose name comes after its own (after entries of equal name).
pub open spec fn name_insert_pos(s: Seq<ModelEntryView>, x: ModelEntryView, k: int) -> int
    decreases s.len() - k,
{
    if k >= s.len() || k < 0 {
        s.len() as int
    } else if text_lt(x.name, s[k].name) {
        k
    } else {
        name_insert_pos(s, x, k + 1)
    }
}

/// Insertion sort by name, which keeps entries of equal name in their order.
pub open spec fn sorted_by_name(v: Seq<ModelEntryView>) -> Seq<ModelEntryView>
    decreases v.len(),
{
    if v.len() == 0 {
        Seq::empty()
    } else {
        let s = sorted_by_name(v.drop_last());
        s.insert(name_insert_pos(s, v.last(), 0), v.last())
    }
}

/// The entries sorted by name; entries of equal name keep their order.
pub fn sort_models(models: Vec<ModelEntry>) -> (r: Vec<ModelEntry>)
    ensures
        entries_view(r@) == sorted_by_name(entries_view(models@)),
        by_name(entries_view(r@)),
        entries_view(r@).to_multiset() == entries_view(models@).to_multiset(),
{
    let ghost input = entries_view(models@);
    let mut r: Vec<ModelEntry> = Vec::new();
    let mut i: usize = 0;
    assert(entries_view(r@) =~= input.take(0));
    while i < models.len()
        invariant
            i <= models@.len(),
            input == entries_view(models@),
            by_name(entries_view(r@)),
            entries_view(r@).to_multiset() == input.take(i as int).to_multiset(),
            entries_view(r@) == sorted_by_name(input.take(i as int)),
        decreases models.len() - i,
    {
        let x = &models[i];
        let ghost rv = entries_view(r@);
        let mut k: usize = 0;
        while k < r.len() && !crate::sessions::text_less(x.name.as_str(), r[k].name.as_str())
            invariant
                k <= r@.len(),
                rv == entries_view(r@),
                forall|j: int| 0 <= j < k ==> !text_lt(x@.name, #[trigger] rv[j].name),
                name_insert_pos(rv, x@, 0) == name_insert_pos(rv, x@, k as int),
            decreases r.len() - k,
        {
            assert(rv[k as int] == r@[k as int]@);
            k += 1;
        }
        proof {
            if k < r@.len() {
                assert(rv[k as int] == r@[k as int]@);
                assert(text_lt(x@.name, rv[k as int].name));
            }
        }
        let m = ModelEntry {
            name: to_string(x.name.as_str()),
            path: to_string(x.path.as_str()),
            size_bytes: x.size_bytes,
        };
        r.insert(k, m);
        proof {
            let nv = entries_view(r@);
            assert(nv =~= rv.insert(k as int, x@));
            assert(name_insert_pos(rv, x@, k as int) == k);
            assert(input.take(i + 1).drop_last() =~= input.take(i as int));
            assert forall|a: int, b: int| 0 <= a < b < nv.len() implies !text_lt(
                #[trigger] nv[b].name,
                #[trigger] nv[a].name,
            ) by {
                if a < k && b < k {
                    assert(nv[a] == rv[a] && nv[b] == rv[b]);
                } else if a < k && b == k {
                    assert(nv[a] == rv[a]);
                } else if a < k {
                    assert(nv[a] == rv[a] && nv[b] == rv[b - 1]);
                } else if a == k {
                    assert(nv[b] == rv[b - 1]);
                    if text_lt(rv[b - 1].name, x@.name) {
                        assert(k < rv.len());
                        lemma_lt_from_trans(rv[b - 1].name, x@.name, rv[k as int].name, 0);
                        if b - 1 > k {
                            assert(!text_lt(rv[b - 1].name, rv[k as int].name));
                        } else {
                            lemma_lt_from_irreflexive(rv[k as int].name, 0);
                        }
                    }
                } else {
                    assert(nv[a] == rv[a - 1] && nv[b] == rv[b - 1]);
                }
            }
            assert(input.take(i + 1) =~= input.take(i as int).push(input[i as int]));
            assert(input[i as int] == x@);
            vstd::seq_lib::to_multiset_insert(rv, k as int, x@);
            vstd::seq_lib::to_multiset_build(input.take(i as int), input[i as int]);
        }
        i += 1;
    }
    assert(input.take(input.len() as int) =~= input);
    r
}

/// The models on offer among the files found: model files only, sorted by name.
pub fn model_list(found: Vec<ModelEntry>) -> (r: Vec<ModelEntry>)
    ensures
        entries_view(r@) == sorted_by_name(
            entries_view(found@).filter(|e: ModelEntryView| is_model_name(e.name)),
        ),
        by_name(entries_view(r@)),
        entries_view(r@).to_multiset() == entries_view(found@).filter(
            |e: ModelEntryView| is_model_name(e.name),
        ).to_multiset(),
{
    let ghost all = entries_view(found@);
    let mut kept: Vec<ModelEntry> = Vec::new();
    let mut i: usize = 0;
    while i < found.len()
        invariant
            i <= found@.len(),
            all == entries_view(found@),
            entries_view(kept@) == all.take(i as int).filter(|e: ModelEntryView| is_model_name(e.name)),
        decreases found.len() - i,
    {
        let e = &found[i];
        proof {
            assert(all.take(i + 1).drop_last() =~= all.take(i as int));
            assert(all.take(i + 1).last() == e@);
            reveal(Seq::filter);
        }
        let ghost k0 = entries_view(kept@);
        if is_model_file(e.name.as_str()) {
            kept.push(
                ModelEntry {
                    name: to_string(e.name.as_str()),
                    path: to_string(e.path.as_str()),
                    size_bytes: e.size_bytes,
                },
            );
            assert(entries_view(kept@) =~= k0.push(e@));
        } else {
            assert(entries_view(kept@) =~= k0);
        }
        i += 1;
    }
    assert(all.take(all.len() as int) =~= all);
    sort_models(kept)
}

// ---------------------------------------------------------------------------
// Captures
// ---------------------------------------------------------------------------

/// A finished region capture as the shell shows it.
pub struct CaptureResult {
    pub path: String,
    pub thumb_data_url: String,
    pub width: u32,
    pub height: u32,
}

/// The standard base64 alphabet.
pub open spec fn b64_digit(v: int) -> char {
    if v < 26 {
        (('A' as int) + v) as char
    } else if v < 52 {
        (('a' as int) + v - 26) as char
    } else if v < 62 {
        (('0' as int) + v - 52) as char
    } else if v == 62 {
        '+'
    } else {
        '/'
    }
}

/// Standard base64 with `=` padding (RFC 4648): every three bytes give four
/// digits of six bits; a last group of one or two bytes is padded.
pub open spec fn base64_spec(b: Seq<u8>) -> Seq<char>
    decreases b.len(),
{
    if b.len() == 0 {
        Seq::empty()
    } else if b.len() == 1 {
        seq![b64_digit((b[0] / 4) as int), b64_digit((b[0] % 4) * 16), '=', '=']
    } else if b.len() == 2 {
        seq![
            b64_digit((b[0] / 4) as int),
            b64_digit((b[0] % 4) * 16 + b[1] / 16),
            b64_digit((b[1] % 16) * 4),
            '=',
        ]
    } else {
        seq![
            b64_digit((b[0] / 4) as int),
            b64_digit((b[0] % 4) * 16 + b[1] / 16),
            b64_digit((b[1] % 16) * 4 + b[2] / 64),
            b64_digit((b[2] % 64) as int),
        ] + base64_spec(b.skip(3))
    }
}

/// Calls `base64::engine::general_purpose::STANDARD.encode`: standard alphabet,
/// with padding.
#[verifier::external_body]
fn base64_encode(bytes: &[u8]) -> (r: String)
    ensures
        r@ == base64_spec(bytes@),
{
    base64::engine::general_purpose::STANDARD.encode(bytes)
}

/// A capture saved at `path`, `width`×`height` pixels, with its PNG thumbnail.
pub fn capture_result(path: &str, thumb_png: &[u8], width: u32, height: u32) -> (r: CaptureResult)
    ensures
        r.path@ == path@,
        r.thumb_data_url@ == "data:image/png;base64,"@ + base64_spec(thumb_png@),
        r.width == width,
        r.height == height,
{
    let b = base64_encode(thumb_png);
    let mut url = to_string("data:image/png;base64,");
    push_str(&mut url, b.as_str());
    CaptureResult { path: to_string(path), thumb_data_url: url, width, height }
}

/// The file name of a region capture taken at `stamp`.
pub fn capture_file_name(stamp: &str) -> (r: String)
    ensures
        r@ == "capture_"@ + stamp@ + ".png"@,
{
    let mut r = to_string("capture_");
    push_str(&mut r, stamp);
    push_str(&mut r, ".png");
    r
}

} // verus!
