//! What is decided around a conversation with the model: which API key
//! is used, what the answer says, and which models are offered.

use crate::gutendex::{trim_text, trimmed};
use crate::text::string_of;
use crate::types::{begins_with, has_prefix};
use vstd::prelude::*;
use vstd::string::StringExecFns;

verus! {

/// One message of a conversation with the model.
#[derive(Debug, Clone)]
pub struct ChatMessage {
    pub role: String,
    pub content: String,
}

/// Where an API key is available.
#[derive(Debug, Clone, Copy, PartialEq, Eq, Structural)]
pub struct KeyStatus {
    pub has_env_key: bool,
    pub has_saved_key: bool,
}

/// The answer of the model.
#[derive(Debug)]
pub struct ChatResult {
    pub content: String,
    pub reasoning_summary: Option<String>,
}

/// Whether a stored value holds a key: there is one, and it is more than
/// white space.
pub open spec fn holds_key(value: Option<Seq<char>>) -> bool {
    match value {
        Some(text) => trimmed(text).len() > 0,
        None => false,
    }
}

/// The key to use: the saved one, or else the one of the environment,
/// each without the white space around it; `None` where neither holds a
/// key.
pub open spec fn chosen_key(saved: Option<Seq<char>>, env: Option<Seq<char>>) -> Option<Seq<char>> {
    if holds_key(saved) {
        Some(trimmed(saved.unwrap()))
    } else if holds_key(env) {
        Some(trimmed(env.unwrap()))
    } else {
        None
    }
}

/// The view of an optional text.
pub open spec fn text_view(s: Option<&str>) -> Option<Seq<char>> {
    match s {
        Some(text) => Some(text@),
        None => None,
    }
}

/// Tells which of the two places hold a key.
pub fn key_status(saved: Option<&str>, env: Option<&str>) -> (r: KeyStatus)
    ensures
        r.has_saved_key == holds_key(text_view(saved)),
        r.has_env_key == holds_key(text_view(env)),
{
    let has_saved_key: bool = match saved {
        Some(text) => trim_text(text).len() > 0,
        None => false,
    };
    let has_env_key: bool = match env {
        Some(text) => trim_text(text).len() > 0,
        None => false,
    };
    KeyStatus { has_env_key, has_saved_key }
}

/// Picks the API key: the saved one before the one of the environment.
pub fn resolve_api_key(saved: Option<&str>, env: Option<&str>) -> (r: Option<String>)
    ensures
        match r {
            Some(key) => chosen_key(text_view(saved), text_view(env)) == Some(key@),
            None => chosen_key(text_view(saved), text_view(env)) is None,
        },
{
    if let Some(text) = saved {
        let key = trim_text(text);
        if key.len() > 0 {
            return Some(string_of(key.as_slice()));
        }
    }
    if let Some(text) = env {
        let key = trim_text(text);
        if key.len() > 0 {
            return Some(string_of(key.as_slice()));
        }
    }
    None
}

/// A part of a message of the model.
#[derive(Debug, Clone)]
pub enum ContentPart {
    OutputText { text: String },
    Unknown,
}

/// An item of the output of the model.
#[derive(Debug, Clone)]
pub enum ResponseItem {
    Message { content: Vec<ContentPart> },
    Reasoning { summary: Option<String> },
    Unknown,
}

/// The texts of the parts, joined in order.
pub open spec fn text_of_parts(parts: Seq<ContentPart>) -> Seq<char>
    decreases parts.len(),
{
    if parts.len() == 0 {
        Seq::empty()
    } else {
        text_of_parts(parts.drop_last()) + match parts.last() {
            ContentPart::OutputText { text } => text@,
            ContentPart::Unknown => Seq::empty(),
        }
    }
}

/// The texts of all messages among the items, joined in order.
pub open spec fn content_of(items: Seq<ResponseItem>) -> Seq<char>
    decreases items.len(),
{
    if items.len() == 0 {
        Seq::empty()
    } else {
        content_of(items.drop_last()) + match items.last() {
            ResponseItem::Message { content } => text_of_parts(content@),
            _ => Seq::empty(),
        }
    }
}

/// The summary of the last reasoning item, which may have none.
pub open spec fn summary_of(items: Seq<ResponseItem>) -> Option<Seq<char>>
    decreases items.len(),
{
    if items.len() == 0 {
        None
    } else {
        match items.last() {
            ResponseItem::Reasoning { summary } => match summary {
                Some(text) => Some(text@),
                None => None,
            },
            _ => summary_of(items.drop_last()),
        }
    }
}

fn append_parts(content: &mut String, parts: &Vec<ContentPart>)
    ensures
        final(content)@ == old(content)@ + text_of_parts(parts@),
{
    let n: usize = parts.len();
    let mut i: usize = 0;
    assert(parts@.subrange(0, 0) =~= Seq::<ContentPart>::empty());
    assert(content@ + Seq::<char>::empty() =~= content@);
    while i < n
        invariant
            n == parts@.len(),
            i <= n,
            content@ == old(content)@ + text_of_parts(parts@.subrange(0, i as int)),
        decreases n - i,
    {
        assert(parts@.subrange(0, i as int + 1).drop_last() =~= parts@.subrange(0, i as int));
        let ghost before = content@;
        match &parts[i] {
            ContentPart::OutputText { text } => {
                content.append(text.as_str());
            },
            ContentPart::Unknown => {
                assert(before + Seq::<char>::empty() =~= before);
            },
        }
        assert(content@ =~= old(content)@ + text_of_parts(parts@.subrange(0, i as int + 1)));
        i += 1;
    }
    assert(parts@.subrange(0, n as int) =~= parts@);
}

/// Makes the answer from the output of the model: the text of all its
/// messages, and the summary of its last reasoning item.
pub fn collect_chat_result(items: &Vec<ResponseItem>) -> (r: ChatResult)
    ensures
        r.content@ == content_of(items@),
        match r.reasoning_summary {
            Some(text) => summary_of(items@) == Some(text@),
            None => summary_of(items@) is None,
        },
{
    let n: usize = items.len();
    let mut content = String::new();
    let mut reasoning_summary: Option<String> = None;
    let mut i: usize = 0;
    assert(items@.subrange(0, 0) =~= Seq::<ResponseItem>::empty());
    while i < n
        invariant
            n == items@.len(),
            i <= n,
            content@ == content_of(items@.subrange(0, i as int)),
            match reasoning_summary {
                Some(text) => summary_of(items@.subrange(0, i as int)) == Some(text@),
                None => summary_of(items@.subrange(0, i as int)) is None,
            },
        decreases n - i,
    {
        assert(items@.subrange(0, i as int + 1).drop_last() =~= items@.subrange(0, i as int));
        let ghost before = content@;
        match &items[i] {
            ResponseItem::Message { content: parts } => {
                append_parts(&mut content, parts);
            },
            ResponseItem::Reasoning { summary } => {
                reasoning_summary = match summary {
                    Some(text) => Some(text.clone()),
                    None => None,
                };
                assert(before + Seq::<char>::empty() =~= before);
            },
            ResponseItem::Unknown => {
                assert(before + Seq::<char>::empty() =~= before);
            },
        }
        i += 1;
    }
    assert(items@.subrange(0, n as int) =~= items@);
    ChatResult { content, reasoning_summary }
}

/// A model that the service lists.
#[derive(Debug, Clone)]
pub struct ModelInfo {
    pub id: String,
    /// When the model was made, in seconds since the epoch.
    pub created: Option<i64>,
}

/// How old a model may be to be offered: 540 days, in seconds.
pub const MODEL_MAX_AGE_SECS: i64 = 46656000;

/// The moment before which a model is too old, seen from `now`.
pub open spec fn cutoff_of(now: i64) -> int {
    now as int - 46656000
}

/// Whether a model is offered: its name begins with `gpt-` but not with
/// `gpt-3.5`, and it is one of the `gpt-5` family, or not older than the
/// cutoff, or of unknown age.
pub open spec fn is_offered(id: Seq<char>, created: Option<i64>, now: i64) -> bool {
    has_prefix(id, "gpt-"@) && !has_prefix(id, "gpt-3.5"@) && (has_prefix(id, "gpt-5"@) || match created {
        Some(at) => at as int >= cutoff_of(now),
        None => true,
    })
}

/// The moment by which models are ordered: unknown counts as the epoch.
pub open spec fn made_at(m: ModelInfo) -> i64 {
    match m.created {
        Some(at) => at,
        None => 0,
    }
}

/// The offered models among `models`, in order.
pub open spec fn offered(models: Seq<ModelInfo>, now: i64) -> Seq<ModelInfo>
    decreases models.len(),
{
    if models.len() == 0 {
        models
    } else if is_offered(models.last().id@, models.last().created, now) {
        offered(models.drop_last(), now).push(models.last())
    } else {
        offered(models.drop_last(), now)
    }
}

/// `sorted` with `m` put in behind the last model that is not older than
/// `m`.
pub open spec fn put_in(sorted: Seq<ModelInfo>, m: ModelInfo) -> Seq<ModelInfo>
    decreases sorted.len(),
{
    if sorted.len() == 0 || made_at(sorted.last()) >= made_at(m) {
        sorted.push(m)
    } else {
        put_in(sorted.drop_last(), m).push(sorted.last())
    }
}

/// The models, newest first; models of the same age stay in their order.
pub open spec fn newest_first(models: Seq<ModelInfo>) -> Seq<ModelInfo>
    decreases models.len(),
{
    if models.len() == 0 {
        models
    } else {
        put_in(newest_first(models.drop_last()), models.last())
    }
}

/// The names of the models, in order.
pub open spec fn ids_of(models: Seq<ModelInfo>) -> Seq<Seq<char>> {
    Seq::new(models.len(), |i: int| models[i].id@)
}

/// Whether the models stand newest first.
pub open spec fn is_newest_first(models: Seq<ModelInfo>) -> bool {
    forall|i: int, j: int|
        0 <= i < j < models.len() ==> made_at(#[trigger] models[i]) >= made_at(
            #[trigger] models[j],
        )
}

proof fn lemma_put_in(sorted: Seq<ModelInfo>, m: ModelInfo)
    requires
        is_newest_first(sorted),
    ensures
        is_newest_first(put_in(sorted, m)),
        put_in(sorted, m).len() == sorted.len() + 1,
        put_in(sorted, m).to_multiset() == sorted.to_multiset().insert(m),
        forall|k: int|
            0 <= k < put_in(sorted, m).len() ==> #[trigger] put_in(sorted, m)[k] == m
                || sorted.contains(put_in(sorted, m)[k]),
    decreases sorted.len(),
{
    broadcast use vstd::seq_lib::group_to_multiset_ensures;

    if sorted.len() == 0 || made_at(sorted.last()) >= made_at(m) {
        let out = sorted.push(m);
        assert forall|i: int, j: int| 0 <= i < j < out.len() implies made_at(#[trigger] out[i])
            >= made_at(#[trigger] out[j]) by {
            if j == sorted.len() {
                assert(out[i] == sorted[i]);
                assert(made_at(sorted[i]) >= made_at(sorted.last()) || i == sorted.len() - 1);
            } else {
                assert(out[i] == sorted[i] && out[j] == sorted[j]);
            }
        }
        assert forall|k: int| 0 <= k < out.len() implies #[trigger] out[k] == m || sorted.contains(
            out[k],
        ) by {
            if k < sorted.len() {
                assert(out[k] == sorted[k]);
            }
        }
    } else {
        let head = sorted.drop_last();
        let last = sorted.last();
        assert(is_newest_first(head)) by {
            assert forall|i: int, j: int| 0 <= i < j < head.len() implies made_at(
                #[trigger] head[i],
            ) >= made_at(#[trigger] head[j]) by {
                assert(head[i] == sorted[i] && head[j] == sorted[j]);
            }
        }
        lemma_put_in(head, m);
        let inner = put_in(head, m);
        let out = inner.push(last);
        assert forall|k: int| 0 <= k < out.len() implies #[trigger] out[k] == m || sorted.contains(
            out[k],
        ) by {
            if k < inner.len() {
                assert(out[k] == inner[k]);
                if inner[k] != m {
                    assert(head.contains(inner[k]));
                    let w = choose|w: int| 0 <= w < head.len() && head[w] == inner[k];
                    assert(sorted[w] == inner[k]);
                }
            } else {
                assert(out[k] == sorted[sorted.len() - 1]);
            }
        }
        assert forall|i: int, j: int| 0 <= i < j < out.len() implies made_at(#[trigger] out[i])
            >= made_at(#[trigger] out[j]) by {
            if j < inner.len() {
                assert(out[i] == inner[i] && out[j] == inner[j]);
            } else {
                assert(out[j] == last);
                assert(out[i] == inner[i]);
                if inner[i] != m {
                    assert(head.contains(inner[i]));
                    let w = choose|w: int| 0 <= w < head.len() && head[w] == inner[i];
                    assert(sorted[w] == inner[i]);
                    assert(made_at(sorted[w]) >= made_at(sorted[sorted.len() - 1]));
                }
            }
        }
        assert(sorted =~= head.push(last));
        assert(sorted.to_multiset() =~= head.to_multiset().insert(last));
        assert(out.to_multiset() =~= inner.to_multiset().insert(last));
        assert(out.to_multiset() =~= sorted.to_multiset().insert(m));
    }
}

/// Ordering models newest first gives the same models, each as often as
/// before, and no model stands before a newer one.
pub proof fn lemma_newest_first(models: Seq<ModelInfo>)
    ensures
        is_newest_first(newest_first(models)),
        newest_first(models).len() == models.len(),
        newest_first(models).to_multiset() == models.to_multiset(),
    decreases models.len(),
{
    broadcast use vstd::seq_lib::group_to_multiset_ensures;

    if models.len() > 0 {
        lemma_newest_first(models.drop_last());
        lemma_put_in(newest_first(models.drop_last()), models.last());
        assert(models =~= models.drop_last().push(models.last()));
        assert(models.to_multiset() =~= models.drop_last().to_multiset().insert(models.last()));
    }
}

/// Tests whether a model is offered.
pub fn offered_model(model: &ModelInfo, now: i64) -> (r: bool)
    ensures
        r == is_offered(model.id@, model.created, now),
{
    let id: &str = model.id.as_str();
    if !begins_with(id, "gpt-") {
        return false;
    }
    if begins_with(id, "gpt-3.5") {
        return false;
    }
    if begins_with(id, "gpt-5") {
        return true;
    }
    match model.created {
        Some(at) => at as i128 >= now as i128 - MODEL_MAX_AGE_SECS as i128,
        None => true,
    }
}

/// Puts a model into a list that stands newest first.
pub fn insert_model(sorted: &mut Vec<ModelInfo>, model: ModelInfo)
    ensures
        final(sorted)@ == put_in(old(sorted)@, model),
{
    let key: i64 = match model.created {
        Some(at) => at,
        None => 0,
    };
    let n: usize = sorted.len();
    let mut p: usize = n;
    assert(sorted@.subrange(0, n as int) =~= sorted@);
    assert(sorted@.subrange(n as int, n as int) =~= Seq::<ModelInfo>::empty());
    while p > 0 && model_key(&sorted[p - 1]) < key
        invariant
            p <= n,
            n == sorted@.len(),
            sorted@ == old(sorted)@,
            key == made_at(model),
            put_in(sorted@, model) == put_in(sorted@.subrange(0, p as int), model) + sorted@.subrange(
                p as int,
                n as int,
            ),
        decreases p,
    {
        let ghost head = sorted@.subrange(0, p as int);
        assert(head.last() == sorted@[p - 1]);
        assert(head.drop_last() =~= sorted@.subrange(0, p - 1));
        assert(put_in(head, model) == put_in(head.drop_last(), model).push(head.last()));
        assert(put_in(head.drop_last(), model).push(head.last()) + sorted@.subrange(
            p as int,
            n as int,
        ) =~= put_in(head.drop_last(), model) + sorted@.subrange(p - 1, n as int));
        p -= 1;
    }
    proof {
        let head = sorted@.subrange(0, p as int);
        if p > 0 {
            assert(head.last() == sorted@[p - 1]);
        }
        assert(put_in(head, model) == head.push(model));
        assert(head.push(model) + sorted@.subrange(p as int, n as int) =~= sorted@.insert(
            p as int,
            model,
        ));
    }
    sorted.insert(p, model);
}

fn model_key(model: &ModelInfo) -> (r: i64)
    ensures
        r == made_at(*model),
{
    match model.created {
        Some(at) => at,
        None => 0,
    }
}

/// Picks the models to offer, newest first, and returns their names.
/// `now` is the present moment in seconds since the epoch.
pub fn select_models(models: &Vec<ModelInfo>, now: i64) -> (r: Vec<String>)
    ensures
        texts_of(r@) == ids_of(newest_first(offered(models@, now))),
{
    let n: usize = models.len();
    let mut sorted: Vec<ModelInfo> = Vec::new();
    let mut i: usize = 0;
    assert(models@.subrange(0, 0) =~= Seq::<ModelInfo>::empty());
    while i < n
        invariant
            n == models@.len(),
            i <= n,
            sorted@ == newest_first(offered(models@.subrange(0, i as int), now)),
        decreases n - i,
    {
        assert(models@.subrange(0, i as int + 1).drop_last() =~= models@.subrange(0, i as int));
        if offered_model(&models[i], now) {
            let model = ModelInfo { id: models[i].id.clone(), created: models[i].created };
            assert(model == models@[i as int]);
            let ghost kept = offered(models@.subrange(0, i as int), now);
            assert(offered(models@.subrange(0, i as int + 1), now) == kept.push(model));
            assert(kept.push(model).drop_last() =~= kept);
            insert_model(&mut sorted, model);
        }
        i += 1;
    }
    assert(models@.subrange(0, n as int) =~= models@);
    let m: usize = sorted.len();
    let mut ids: Vec<String> = Vec::new();
    let mut k: usize = 0;
    while k < m
        invariant
            m == sorted@.len(),
            k <= m,
            ids@.len() == k,
            forall|j: int| 0 <= j < k ==> (#[trigger] ids@[j])@ == sorted@[j].id@,
        decreases m - k,
    {
        ids.push(sorted[k].id.clone());
        k += 1;
    }
    assert(texts_of(ids@) =~= ids_of(sorted@));
    ids
}

/// What a vector of texts holds.
pub open spec fn texts_of(v: Seq<String>) -> Seq<Seq<char>> {
    Seq::new(v.len(), |i: int| v[i]@)
}

} // verus!
