//! What the Gemini API tells about a model.

use crate::text::{chars_of, has_prefix_at, same_text};
use vstd::prelude::*;
use vstd::string::StrSliceExecFns;

verus! {

/// Information about a Gemini model returned from the API.
#[derive(Debug, Clone)]
pub struct GeminiModelInfo {
    /// Full resource name (e.g., "models/gemini-2.0-flash")
    pub name: String,
    /// Human-readable display name
    pub display_name: String,
    /// Maximum input tokens (context window)
    pub input_token_limit: u32,
    /// Maximum output tokens
    pub output_token_limit: u32,
    /// Supported generation methods (e.g., "generateContent",
    /// "streamGenerateContent")
    pub supported_generation_methods: Vec<String>,
}

/// The model id of a resource name: the name without a leading `models/`.
pub open spec fn model_id_of(name: Seq<char>) -> Seq<char> {
    if "models/"@.is_prefix_of(name) {
        name.skip("models/"@.len() as int)
    } else {
        name
    }
}

/// Whether `generateContent` is among the methods.
pub open spec fn generates_content(methods: Seq<String>) -> bool {
    exists|i: int| 0 <= i < methods.len() && (#[trigger] methods[i])@ == "generateContent"@
}

impl GeminiModelInfo {
    /// Extract the model ID from the full resource name.
    /// E.g., "models/gemini-2.0-flash" -> "gemini-2.0-flash"
    pub fn model_id(&self) -> (id: &str)
        ensures
            id@ == model_id_of(self.name@),
    {
        let name = self.name.as_str();
        let v = chars_of(name);
        let prefix = chars_of("models/");
        assert(v@.skip(0) == v@);
        if has_prefix_at(&v, 0, &prefix) {
            assert(v@.subrange(0, prefix@.len() as int).len() == prefix@.len());
            assert(v@.skip(prefix@.len() as int) == v@.subrange(
                prefix@.len() as int,
                v@.len() as int,
            ));
            name.substring_char(prefix.len(), v.len())
        } else {
            name
        }
    }

    /// Check if this model supports text generation.
    pub fn supports_generation(&self) -> (r: bool)
        ensures
            r == generates_content(self.supported_generation_methods@),
    {
        let mut i: usize = 0;
        while i < self.supported_generation_methods.len()
            invariant
                i <= self.supported_generation_methods@.len(),
                forall|k: int|
                    0 <= k < i ==> (#[trigger] self.supported_generation_methods@[k])@
                        != "generateContent"@,
            decreases self.supported_generation_methods@.len() - i,
        {
            if same_text(self.supported_generation_methods[i].as_str(), "generateContent") {
                return true;
            }
            i += 1;
        }
        false
    }
}

/// Whether `a` comes before `b`, or is equal to it, in the order of
/// strings: character by character, a prefix before what extends it.
pub open spec fn lex_le(a: Seq<char>, b: Seq<char>) -> bool
    decreases a.len(),
{
    if a.len() == 0 {
        true
    } else if b.len() == 0 {
        false
    } else if a[0] != b[0] {
        a[0] < b[0]
    } else {
        lex_le(a.drop_first(), b.drop_first())
    }
}

/// Of two strings, one comes before the other or is equal to it.
pub proof fn lemma_lex_total(a: Seq<char>, b: Seq<char>)
    ensures
        lex_le(a, b) || lex_le(b, a),
    decreases a.len(),
{
    if a.len() > 0 && b.len() > 0 && a[0] == b[0] {
        lemma_lex_total(a.drop_first(), b.drop_first());
    }
}

/// The order of strings is transitive.
pub proof fn lemma_lex_transitive(a: Seq<char>, b: Seq<char>, c: Seq<char>)
    requires
        lex_le(a, b),
        lex_le(b, c),
    ensures
        lex_le(a, c),
    decreases a.len(),
{
    if a.len() > 0 && b.len() > 0 && c.len() > 0 && a[0] == b[0] && b[0] == c[0] {
        lemma_lex_transitive(a.drop_first(), b.drop_first(), c.drop_first());
    }
}

/// Whether `a` comes before `b`, or is equal to it, in the order of
/// strings.
pub fn name_le(a: &str, b: &str) -> (r: bool)
    ensures
        r == lex_le(a@, b@),
{
    let x = chars_of(a);
    let y = chars_of(b);
    let mut i: usize = 0;
    proof {
        assert(x@.skip(0) == x@);
        assert(y@.skip(0) == y@);
    }
    while i < x.len() && i < y.len() && x[i] == y[i]
        invariant
            i <= x.len(),
            i <= y.len(),
            lex_le(x@, y@) == lex_le(x@.skip(i as int), y@.skip(i as int)),
        decreases x.len() - i,
    {
        proof {
            assert(x@.skip(i as int).drop_first() == x@.skip(i + 1));
            assert(y@.skip(i as int).drop_first() == y@.skip(i + 1));
        }
        i += 1;
    }
    if i == x.len() {
        true
    } else if i == y.len() {
        false
    } else {
        x[i] < y[i]
    }
}

/// Whether the models are in the order of their names.
pub open spec fn sorted_by_name(models: Seq<GeminiModelInfo>) -> bool {
    forall|i: int, j: int|
        0 <= i < j < models.len() ==> lex_le(
            (#[trigger] models[i]).name@,
            (#[trigger] models[j]).name@,
        )
}

/// The number of models at the start of `models` whose names come before
/// `name` or are equal to it.
pub open spec fn leading_le(models: Seq<GeminiModelInfo>, name: Seq<char>) -> int
    decreases models.len(),
{
    if models.len() == 0 || !lex_le(models[0].name@, name) {
        0
    } else {
        1 + leading_le(models.drop_first(), name)
    }
}

/// `models` with `m` put behind the leading models that do not come after
/// it.
pub open spec fn insert_by_name(models: Seq<GeminiModelInfo>, m: GeminiModelInfo) -> Seq<
    GeminiModelInfo,
> {
    models.insert(leading_le(models, m.name@), m)
}

/// The models that support generation, put one after the other into the
/// order of their names; models of the same name stay in the order they
/// came in.
pub open spec fn generation_models_of(all: Seq<GeminiModelInfo>) -> Seq<GeminiModelInfo>
    decreases all.len(),
{
    if all.len() == 0 {
        Seq::empty()
    } else if generates_content(all.last().supported_generation_methods@) {
        insert_by_name(generation_models_of(all.drop_last()), all.last())
    } else {
        generation_models_of(all.drop_last())
    }
}

pub proof fn lemma_leading_le(models: Seq<GeminiModelInfo>, name: Seq<char>)
    ensures
        0 <= leading_le(models, name) <= models.len(),
        forall|i: int|
            0 <= i < leading_le(models, name) ==> lex_le((#[trigger] models[i]).name@, name),
        leading_le(models, name) < models.len() ==> !lex_le(
            models[leading_le(models, name)].name@,
            name,
        ),
    decreases models.len(),
{
    if models.len() == 0 || !lex_le(models[0].name@, name) {
    } else {
        let t = models.drop_first();
        lemma_leading_le(t, name);
        assert forall|i: int| 0 <= i < leading_le(models, name) implies lex_le(
            (#[trigger] models[i]).name@,
            name,
        ) by {
            if i > 0 {
                assert(models[i] == t[i - 1]);
            }
        }
        if leading_le(models, name) < models.len() {
            assert(models[leading_le(models, name)] == t[leading_le(t, name)]);
        }
    }
}

/// Putting a model into a sorted sequence keeps it sorted, and adds the
/// model and nothing else.
pub proof fn lemma_insert_by_name(models: Seq<GeminiModelInfo>, m: GeminiModelInfo)
    requires
        sorted_by_name(models),
    ensures
        sorted_by_name(insert_by_name(models, m)),
        insert_by_name(models, m).to_multiset() == models.to_multiset().insert(m),
        insert_by_name(models, m).len() == models.len() + 1,
{
    broadcast use vstd::seq_lib::to_multiset_insert;

    lemma_leading_le(models, m.name@);
    let p = leading_le(models, m.name@);
    let out = insert_by_name(models, m);
    assert forall|i: int, j: int| 0 <= i < j < out.len() implies lex_le(
        (#[trigger] out[i]).name@,
        (#[trigger] out[j]).name@,
    ) by {
        if j < p {
            assert(out[i] == models[i] && out[j] == models[j]);
        } else if j == p {
            assert(out[i] == models[i]);
        } else if i < p {
            assert(out[i] == models[i] && out[j] == models[j - 1]);
        } else if i == p {
            // m comes before models[p], which does not come after models[j - 1]
            assert(out[j] == models[j - 1]);
            lemma_lex_total(models[p].name@, m.name@);
            if j - 1 > p {
                assert(lex_le(models[p].name@, models[j - 1].name@));
                lemma_lex_transitive(m.name@, models[p].name@, models[j - 1].name@);
            }
        } else {
            assert(out[i] == models[i - 1] && out[j] == models[j - 1]);
        }
    }
}

/// What `generation_models_of` gives is in the order of the names, and
/// holds each model that supports generation as often as the input does,
/// and no other.
pub proof fn lemma_generation_models(all: Seq<GeminiModelInfo>)
    ensures
        sorted_by_name(generation_models_of(all)),
        generation_models_of(all).to_multiset() == all.filter(
            |m: GeminiModelInfo| generates_content(m.supported_generation_methods@),
        ).to_multiset(),
    decreases all.len(),
{
    let keep = |m: GeminiModelInfo| generates_content(m.supported_generation_methods@);
    if all.len() == 0 {
        assert(all.filter(keep) =~= Seq::<GeminiModelInfo>::empty());
    } else {
        let init = all.drop_last();
        lemma_generation_models(init);
        assert(all == init.push(all.last()));
        init.lemma_filter_push(all.last(), keep);
        if keep(all.last()) {
            lemma_insert_by_name(generation_models_of(init), all.last());
            vstd::seq_lib::to_multiset_build(init.filter(keep), all.last());
        }
    }
}

/// The number of leading models of `models` that do not come after
/// `name`.
fn insertion_point(models: &Vec<GeminiModelInfo>, name: &str) -> (p: usize)
    ensures
        p == leading_le(models@, name@),
        p <= models@.len(),
{
    let mut i: usize = 0;
    proof {
        assert(models@.skip(0) == models@);
    }
    while i < models.len() && name_le(models[i].name.as_str(), name)
        invariant
            i <= models@.len(),
            leading_le(models@, name@) == i + leading_le(models@.skip(i as int), name@),
        decreases models@.len() - i,
    {
        proof {
            assert(models@.skip(i as int).drop_first() == models@.skip(i + 1));
            assert(models@.skip(i as int)[0] == models@[i as int]);
        }
        i += 1;
    }
    proof {
        if i < models.len() {
            assert(models@.skip(i as int)[0] == models@[i as int]);
        }
    }
    i
}

/// Filters the models that support generation and sorts them by name.
pub fn generation_models(all: Vec<GeminiModelInfo>) -> (models: Vec<GeminiModelInfo>)
    ensures
        models@ == generation_models_of(all@),
        sorted_by_name(models@),
        models@.to_multiset() == all@.filter(
            |m: GeminiModelInfo| generates_content(m.supported_generation_methods@),
        ).to_multiset(),
{
    let mut rest = all;
    let mut models: Vec<GeminiModelInfo> = Vec::new();
    let ghost mut done: int = 0;
    proof {
        assert(all@.take(0).len() == 0);
        assert(all@.skip(0) == all@);
    }
    while rest.len() > 0
        invariant
            0 <= done <= all@.len(),
            rest@ == all@.skip(done),
            models@ == generation_models_of(all@.take(done)),
        decreases rest@.len(),
    {
        let m = rest.remove(0);
        proof {
            assert(m == all@[done]);
            assert(rest@ == all@.skip(done + 1));
            let next = all@.take(done + 1);
            assert(next.drop_last() == all@.take(done));
            assert(next.last() == m);
        }
        if m.supports_generation() {
            let p = insertion_point(&models, m.name.as_str());
            models.insert(p, m);
        }
        proof {
            done = done + 1;
        }
    }
    proof {
        assert(all@.take(done) == all@);
        lemma_generation_models(all@);
    }
    models
}

} // verus!
