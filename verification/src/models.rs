//! From the models that the inference server lists to the model list of the
//! editor: which models are offered, what is said of each, and in which
//! order they stand.

use crate::json::{lemma_view, members_view, Json, JsonValue, Member};
use crate::text::{chars_of, same_text, string_of, strip_suffixes, strip_suffixes_end};
use vstd::slice::slice_subrange;
use vstd::string::StringExecFns;
use vstd::prelude::*;

verus! {

/// A model as the inference server lists it.
#[derive(Debug, PartialEq, Eq)]
pub struct ModelInfo {
    pub id: String,
    pub model_type: Option<String>,
    pub capabilities: Option<Vec<String>>,
    pub max_context_length: Option<u32>,
}

/// What the editor is told of one model.
#[derive(Debug, PartialEq, Eq)]
pub struct CopilotConfig {
    pub name: String,
    pub url: String,
    pub tool_calling: bool,
    pub vision: bool,
    pub thinking: bool,
    pub max_input_tokens: u32,
    pub max_output_tokens: u32,
    pub requires_api_key: bool,
}

/// The model of a [`ModelInfo`].
pub struct ModelInfoView {
    pub id: Seq<char>,
    pub model_type: Option<Seq<char>>,
    pub capabilities: Option<Seq<Seq<char>>>,
    pub max_context_length: Option<u32>,
}

/// The model of a [`CopilotConfig`].
pub struct CopilotConfigView {
    pub name: Seq<char>,
    pub url: Seq<char>,
    pub tool_calling: bool,
    pub vision: bool,
    pub thinking: bool,
    pub max_input_tokens: u32,
    pub max_output_tokens: u32,
    pub requires_api_key: bool,
}

/// The texts of a sequence of strings.
pub open spec fn texts_view(items: Seq<String>) -> Seq<Seq<char>> {
    Seq::new(items.len(), |i: int| items[i]@)
}

impl ModelInfo {
    /// The model of this listing.
    pub open spec fn view(&self) -> ModelInfoView {
        ModelInfoView {
            id: self.id@,
            model_type: match self.model_type {
                Some(t) => Some(t@),
                None => None,
            },
            capabilities: match self.capabilities {
                Some(c) => Some(texts_view(c@)),
                None => None,
            },
            max_context_length: self.max_context_length,
        }
    }
}

impl CopilotConfig {
    /// The model of this entry.
    pub open spec fn view(&self) -> CopilotConfigView {
        CopilotConfigView {
            name: self.name@,
            url: self.url@,
            tool_calling: self.tool_calling,
            vision: self.vision,
            thinking: self.thinking,
            max_input_tokens: self.max_input_tokens,
            max_output_tokens: self.max_output_tokens,
            requires_api_key: self.requires_api_key,
        }
    }
}

/// The context length that is assumed of a model that states none.
pub const DEFAULT_CONTEXT_LENGTH: u32 = 8192;

/// Whether a model is offered to the editor: its type is `llm` or `vlm`,
/// or it states no type.
pub open spec fn is_chat_model(model: ModelInfoView) -> bool {
    match model.model_type {
        Some(t) => t == "llm"@ || t == "vlm"@,
        None => true,
    }
}

/// What the editor is told of `model`, reached under `base_url`.
pub open spec fn config_for(model: ModelInfoView, base_url: Seq<char>) -> CopilotConfigView {
    let context = match model.max_context_length {
        Some(n) => n,
        None => DEFAULT_CONTEXT_LENGTH,
    };
    CopilotConfigView {
        name: model.id,
        url: base_url,
        tool_calling: match model.capabilities {
            Some(c) => c.contains("tool_use"@),
            None => false,
        },
        vision: model.model_type == Some("vlm"@),
        thinking: true,
        max_input_tokens: context,
        max_output_tokens: context,
        requires_api_key: false,
    }
}

/// Whether a model is offered to the editor.
pub fn offers_model(model: &ModelInfo) -> (r: bool)
    ensures
        r == is_chat_model(model@),
{
    match &model.model_type {
        Some(t) => same_text(t.as_str(), "llm") || same_text(t.as_str(), "vlm"),
        None => true,
    }
}

/// Whether `items` holds the text `wanted`.
pub fn holds_text(items: &Vec<String>, wanted: &str) -> (r: bool)
    ensures
        r == texts_view(items@).contains(wanted@),
{
    let mut i: usize = 0;
    while i < items.len()
        invariant
            i <= items.len(),
            forall|j: int| 0 <= j < i ==> texts_view(items@)[j] != wanted@,
        decreases items.len() - i,
    {
        if same_text(items[i].as_str(), wanted) {
            assert(texts_view(items@)[i as int] == wanted@);
            return true;
        }
        i = i + 1;
    }
    false
}

/// Makes the editor's entry for `model`, reached under `base_url`.
pub fn copilot_config_for(model: &ModelInfo, base_url: &str) -> (config: CopilotConfig)
    ensures
        config@ == config_for(model@, base_url@),
{
    let context = match model.max_context_length {
        Some(n) => n,
        None => DEFAULT_CONTEXT_LENGTH,
    };
    let tool_calling = match &model.capabilities {
        Some(c) => holds_text(c, "tool_use"),
        None => false,
    };
    let vision = match &model.model_type {
        Some(t) => same_text(t.as_str(), "vlm"),
        None => false,
    };
    CopilotConfig {
        name: model.id.clone(),
        url: base_url.to_owned(),
        tool_calling,
        vision,
        thinking: true,
        max_input_tokens: context,
        max_output_tokens: context,
        requires_api_key: false,
    }
}

/// The JSON object that tells the editor of one model, its members in this
/// order.
pub open spec fn config_json(config: CopilotConfigView) -> JsonValue {
    JsonValue::Object(
        seq![
            ("name"@, JsonValue::Text(config.name)),
            ("url"@, JsonValue::Text(config.url)),
            ("toolCalling"@, JsonValue::Bool(config.tool_calling)),
            ("vision"@, JsonValue::Bool(config.vision)),
            ("thinking"@, JsonValue::Bool(config.thinking)),
            (
                "maxInputTokens"@,
                JsonValue::Number(crate::codec::unsigned_number(config.max_input_tokens as u64)),
            ),
            (
                "maxOutputTokens"@,
                JsonValue::Number(crate::codec::unsigned_number(config.max_output_tokens as u64)),
            ),
            ("requiresAPIKey"@, JsonValue::Bool(config.requires_api_key)),
        ],
    )
}

impl CopilotConfig {
    /// This entry as a JSON object.
    pub fn to_json(&self) -> (doc: Json)
        ensures
            doc@ == config_json(self@),
    {
        let mut members: Vec<Member> = Vec::new();
        members.push(Member { key: "name".to_owned(), value: Json::text(self.name.as_str()) });
        members.push(Member { key: "url".to_owned(), value: Json::text(self.url.as_str()) });
        members.push(
            Member { key: "toolCalling".to_owned(), value: Json::Bool(self.tool_calling) },
        );
        members.push(Member { key: "vision".to_owned(), value: Json::Bool(self.vision) });
        members.push(Member { key: "thinking".to_owned(), value: Json::Bool(self.thinking) });
        members.push(
            Member {
                key: "maxInputTokens".to_owned(),
                value: Json::unsigned(self.max_input_tokens as u64),
            },
        );
        members.push(
            Member {
                key: "maxOutputTokens".to_owned(),
                value: Json::unsigned(self.max_output_tokens as u64),
            },
        );
        members.push(
            Member { key: "requiresAPIKey".to_owned(), value: Json::Bool(self.requires_api_key) },
        );
        let doc = Json::Object(members);
        proof {
            lemma_view(doc);
            lemma_view(Json::Bool(self.tool_calling));
            lemma_view(Json::Bool(self.vision));
            lemma_view(Json::Bool(self.thinking));
            lemma_view(Json::Bool(self.requires_api_key));
            assert(doc@->Object_0 =~= config_json(self@)->Object_0);
        }
        doc
    }
}

/// Whether `a` sorts before `b` because of position `k`: up to `k` the two
/// agree, and there `a` ends or holds the smaller character.
pub open spec fn sorts_before_at(a: Seq<char>, b: Seq<char>, k: int) -> bool {
    &&& 0 <= k <= a.len()
    &&& k < b.len()
    &&& forall|j: int| 0 <= j < k ==> a[j] == b[j]
    &&& (k < a.len() ==> (a[k] as u32) < (b[k] as u32))
}

/// Whether `a` sorts before `b`: character by character, as strings are
/// ordered.
pub open spec fn sorts_before(a: Seq<char>, b: Seq<char>) -> bool {
    exists|k: int| sorts_before_at(a, b, k)
}

/// How two texts stand to each other.
#[derive(Debug, Clone, Copy, PartialEq, Eq)]
pub enum Order {
    Before,
    Same,
    After,
}

/// Sorting before is transitive, and what sorts before a text differs
/// from it.
pub proof fn lemma_sorts_before(a: Seq<char>, b: Seq<char>, c: Seq<char>)
    ensures
        sorts_before(a, b) && sorts_before(b, c) ==> sorts_before(a, c),
        sorts_before(a, b) ==> a != b && !sorts_before(b, a),
{
    if sorts_before(a, b) {
        let k1 = choose|k: int| sorts_before_at(a, b, k);
        if sorts_before(b, c) {
            let k2 = choose|k: int| sorts_before_at(b, c, k);
            if k1 <= k2 {
                assert(sorts_before_at(a, c, k1));
            } else {
                assert(sorts_before_at(a, c, k2));
            }
        }
    }
}

/// Tells how `a` stands to `b` in the order of strings.
pub fn compare_text(a: &str, b: &str) -> (order: Order)
    ensures
        match order {
            Order::Before => sorts_before(a@, b@),
            Order::Same => a@ == b@,
            Order::After => sorts_before(b@, a@),
        },
{
    let x = chars_of(a);
    let y = chars_of(b);
    let mut i: usize = 0;
    while i < x.len() && i < y.len()
        invariant
            x@ == a@,
            y@ == b@,
            i <= x.len(),
            i <= y.len(),
            forall|j: int| 0 <= j < i ==> x@[j] == y@[j],
        decreases x.len() - i,
    {
        let p = x[i] as u32;
        let q = y[i] as u32;
        proof {
            vstd::utf8::char_u32_cast(x@[i as int], p);
            vstd::utf8::char_u32_cast(y@[i as int], q);
        }
        if p < q {
            assert(sorts_before_at(a@, b@, i as int));
            return Order::Before;
        }
        if q < p {
            assert(sorts_before_at(b@, a@, i as int));
            return Order::After;
        }
        i = i + 1;
    }
    if i < y.len() {
        assert(sorts_before_at(a@, b@, i as int));
        Order::Before
    } else if i < x.len() {
        assert(sorts_before_at(b@, a@, i as int));
        Order::After
    } else {
        Order::Same
    }
}

/// One entry of the model list.
#[derive(Debug, PartialEq, Eq)]
pub struct ModelEntry {
    pub id: String,
    pub config: CopilotConfig,
}

/// The model list of the editor: one entry for each model id, in the
/// order of the ids.
#[derive(Debug, PartialEq, Eq)]
pub struct ModelsMap {
    entries: Vec<ModelEntry>,
}

/// The `(id, entry)` pairs of a sequence of entries.
pub open spec fn entries_view(entries: Seq<ModelEntry>) -> Seq<(Seq<char>, CopilotConfigView)> {
    Seq::new(entries.len(), |i: int| (entries[i].id@, entries[i].config@))
}

/// Whether the ids of a list rise strictly from each entry to the next.
pub open spec fn is_sorted(list: Seq<(Seq<char>, CopilotConfigView)>) -> bool {
    forall|i: int, j: int|
        0 <= i < j < list.len() ==> sorts_before((#[trigger] list[i]).0, (#[trigger] list[j]).0)
}

/// The entry that a list holds for `id`, if it holds one.
pub open spec fn entry_of(list: Seq<(Seq<char>, CopilotConfigView)>, id: Seq<char>) -> Option<
    CopilotConfigView,
> {
    if exists|i: int| 0 <= i < list.len() && (#[trigger] list[i]).0 == id {
        let i = choose|i: int| 0 <= i < list.len() && (#[trigger] list[i]).0 == id;
        Some(list[i].1)
    } else {
        None
    }
}

/// A list as a map from id to entry.
pub open spec fn as_map(list: Seq<(Seq<char>, CopilotConfigView)>) -> Map<
    Seq<char>,
    CopilotConfigView,
> {
    Map::new(|id: Seq<char>| entry_of(list, id) is Some, |id: Seq<char>| entry_of(list, id)->0)
}

/// In a sorted list every id stands once, so the entry at a position is
/// the entry of its id.
pub proof fn lemma_entry_at(list: Seq<(Seq<char>, CopilotConfigView)>, i: int)
    requires
        is_sorted(list),
        0 <= i < list.len(),
    ensures
        entry_of(list, list[i].0) == Some(list[i].1),
{
    let c = choose|c: int| 0 <= c < list.len() && (#[trigger] list[c]).0 == list[i].0;
    if c < i {
        lemma_sorts_before(list[c].0, list[i].0, list[i].0);
    } else if i < c {
        lemma_sorts_before(list[i].0, list[c].0, list[i].0);
    }
}

impl ModelsMap {
    /// The entries, in the order of their ids.
    pub closed spec fn view(&self) -> Seq<(Seq<char>, CopilotConfigView)> {
        entries_view(self.entries@)
    }

    /// The ids rise strictly from each entry to the next.
    pub open spec fn wf(&self) -> bool {
        is_sorted(self@)
    }

    /// The list without entries.
    pub fn new() -> (map: ModelsMap)
        ensures
            map.wf(),
            map@ == Seq::<(Seq<char>, CopilotConfigView)>::empty(),
    {
        let map = ModelsMap { entries: Vec::new() };
        map
    }

    /// The number of entries.
    pub fn len(&self) -> (n: usize)
        ensures
            n == self@.len(),
    {
        self.entries.len()
    }

    /// The entries, in the order of their ids.
    pub fn entries(&self) -> (entries: &Vec<ModelEntry>)
        ensures
            entries_view(entries@) == self@,
    {
        &self.entries
    }

    /// Puts the entry for `id` into the list: in place of the entry that
    /// the id had, or else where the id belongs in the order.
    pub fn insert(&mut self, id: String, config: CopilotConfig)
        requires
            old(self).wf(),
        ensures
            final(self).wf(),
            as_map(final(self)@) == as_map(old(self)@).insert(id@, config@),
            final(self)@.len() == if as_map(old(self)@).contains_key(id@) {
                old(self)@.len()
            } else {
                old(self)@.len() + 1
            },
    {
        let ghost before = self@;
        let ghost key = id@;
        let ghost value = config@;
        let n = self.entries.len();
        let mut p: usize = 0;
        let mut found = false;
        while p < n
            invariant_except_break
                !found,
            invariant
                n == self.entries.len(),
                self@ == before,
                is_sorted(before),
                p <= n,
                key == id@,
                forall|j: int| 0 <= j < p ==> sorts_before((#[trigger] before[j]).0, key),
            ensures
                p <= n,
                forall|j: int| 0 <= j < p ==> sorts_before((#[trigger] before[j]).0, key),
                found ==> p < n && before[p as int].0 == key,
                !found ==> forall|j: int|
                    p <= j < n ==> sorts_before(key, (#[trigger] before[j]).0),
            decreases n - p,
        {
            match compare_text(self.entries[p].id.as_str(), id.as_str()) {
                Order::Before => {
                    p = p + 1;
                },
                Order::Same => {
                    found = true;
                    break ;
                },
                Order::After => {
                    proof {
                        assert forall|j: int| p <= j < n implies sorts_before(
                            key,
                            (#[trigger] before[j]).0,
                        ) by {
                            if p < j {
                                lemma_sorts_before(key, before[p as int].0, before[j].0);
                            }
                        }
                    }
                    break ;
                },
            }
        }
        if found {
            self.entries[p] = ModelEntry { id, config };
        } else {
            self.entries.insert(p, ModelEntry { id, config });
        }
        proof {
            let after = self@;
            assert(is_sorted(after)) by {
                assert forall|i: int, j: int| 0 <= i < j < after.len() implies sorts_before(
                    (#[trigger] after[i]).0,
                    (#[trigger] after[j]).0,
                ) by {
                    if found {
                        assert(after[i].0 == before[i].0);
                        assert(after[j].0 == before[j].0);
                    } else {
                        let oi = if i < p {
                            i
                        } else {
                            i - 1
                        };
                        let oj = if j < p {
                            j
                        } else {
                            j - 1
                        };
                        if i != p {
                            assert(after[i] == before[oi]);
                        }
                        if j != p {
                            assert(after[j] == before[oj]);
                        }
                    }
                }
            }
            assert forall|k: Seq<char>| #[trigger]
                entry_of(after, k) == (if k == key {
                    Some(value)
                } else {
                    entry_of(before, k)
                }) by {
                if k == key {
                    lemma_entry_at(after, p as int);
                } else if entry_of(before, k) is Some {
                    let c = choose|c: int| 0 <= c < before.len() && (#[trigger] before[c]).0 == k;
                    lemma_entry_at(before, c);
                    let d = if found || c < p {
                        c
                    } else {
                        c + 1
                    };
                    assert(after[d] == before[c]);
                    lemma_entry_at(after, d);
                } else {
                    if entry_of(after, k) is Some {
                        let d = choose|d: int| 0 <= d < after.len() && (#[trigger] after[d]).0 == k;
                        let c = if found || d < p {
                            d
                        } else {
                            d - 1
                        };
                        assert(before[c].0 == k);
                    }
                }
            }
            if found {
                lemma_entry_at(before, p as int);
            } else {
                if entry_of(before, key) is Some {
                    let c = choose|c: int| 0 <= c < before.len() && (#[trigger] before[c]).0 == key;
                    if c < p {
                        lemma_sorts_before(before[c].0, key, key);
                    } else {
                        lemma_sorts_before(key, before[c].0, key);
                    }
                }
            }
        }
    }
}

/// The models of a sequence of listed models.
pub open spec fn models_view(models: Seq<ModelInfo>) -> Seq<ModelInfoView> {
    Seq::new(models.len(), |i: int| models[i]@)
}

/// The model list for the models that the server lists: one entry for
/// each id among the models that are offered; where an id is listed more
/// than once, the last listing counts.
pub open spec fn offered_models(models: Seq<ModelInfoView>, base_url: Seq<char>) -> Map<
    Seq<char>,
    CopilotConfigView,
>
    decreases models.len(),
{
    if models.len() == 0 {
        Map::empty()
    } else {
        let earlier = offered_models(models.drop_last(), base_url);
        if is_chat_model(models.last()) {
            earlier.insert(models.last().id, config_for(models.last(), base_url))
        } else {
            earlier
        }
    }
}

/// Makes the model list of the editor from the models that the server
/// lists.
pub fn build_models_map(models: &Vec<ModelInfo>, base_url: &str) -> (map: ModelsMap)
    ensures
        map.wf(),
        as_map(map@) == offered_models(models_view(models@), base_url@),
{
    let mut map = ModelsMap::new();
    let mut i: usize = 0;
    while i < models.len()
        invariant
            i <= models.len(),
            map.wf(),
            as_map(map@) == offered_models(models_view(models@).take(i as int), base_url@),
        decreases models.len() - i,
    {
        proof {
            let upto = models_view(models@).take(i + 1);
            assert(upto.drop_last() =~= models_view(models@).take(i as int));
        }
        if offers_model(&models[i]) {
            let config = copilot_config_for(&models[i], base_url);
            map.insert(models[i].id.clone(), config);
        }
        i = i + 1;
    }
    assert(models_view(models@).take(models@.len() as int) =~= models_view(models@));
    map
}

/// The JSON object of a model list: one member for each entry, named by
/// the id, in the order of the list.
pub open spec fn models_json(list: Seq<(Seq<char>, CopilotConfigView)>) -> JsonValue {
    JsonValue::Object(Seq::new(list.len(), |i: int| (list[i].0, config_json(list[i].1))))
}

/// The settings that hold nothing but the model list `models`.
pub open spec fn settings_json(models: JsonValue) -> JsonValue {
    JsonValue::Object(seq![("github.copilot.chat.customOAIModels"@, models)])
}

impl ModelsMap {
    /// This list as a JSON object.
    pub fn to_json(&self) -> (doc: Json)
        ensures
            doc@ == models_json(self@),
    {
        let mut members: Vec<Member> = Vec::new();
        let mut i: usize = 0;
        while i < self.entries.len()
            invariant
                i <= self.entries.len(),
                members@.len() == i,
                forall|j: int|
                    0 <= j < i ==> (#[trigger] members_view(members@)[j]) == (
                        self@[j].0,
                        config_json(self@[j].1),
                    ),
            decreases self.entries.len() - i,
        {
            let entry = &self.entries[i];
            let ghost before = members_view(members@);
            members.push(Member { key: entry.id.clone(), value: entry.config.to_json() });
            proof {
                assert forall|j: int| 0 <= j < i + 1 implies (#[trigger] members_view(
                    members@,
                )[j]) == (self@[j].0, config_json(self@[j].1)) by {
                    if j < i {
                        assert(members_view(members@)[j] == before[j]);
                    }
                }
            }
            i = i + 1;
        }
        let doc = Json::Object(members);
        proof {
            lemma_view(doc);
            assert(doc@->Object_0 =~= models_json(self@)->Object_0);
        }
        doc
    }
}

/// Wraps a model list into settings that hold nothing else.
pub fn settings_with_only(models: Json) -> (doc: Json)
    ensures
        doc@ == settings_json(models@),
{
    let mut members: Vec<Member> = Vec::new();
    members.push(Member { key: "github.copilot.chat.customOAIModels".to_owned(), value: models });
    let doc = Json::Object(members);
    proof {
        lemma_view(doc);
        assert(doc@->Object_0 =~= settings_json(models@)->Object_0);
    }
    doc
}

/// The position of the last `c` in `text`, if it holds one.
pub open spec fn last_position(text: Seq<char>, c: char) -> Option<int>
    decreases text.len(),
{
    if text.len() == 0 {
        None
    } else if text.last() == c {
        Some(text.len() - 1)
    } else {
        last_position(text.drop_last(), c)
    }
}

/// The address of the inference server, guessed from the address that the
/// editor is given: the trailing `/v1` and slashes are dropped, and what
/// stands behind the last colon is replaced by the port 1234. An address
/// without a colon gives `http://localhost:1234`.
pub open spec fn derived_server_url(base_url: Seq<char>) -> Seq<char> {
    let base = strip_suffixes(strip_suffixes(base_url, "/v1"@), "/"@);
    match last_position(base, ':') {
        Some(at) => base.take(at) + ":1234"@,
        None => "http://localhost:1234"@,
    }
}

/// The address under which the inference server lists its models.
pub open spec fn models_endpoint(server_url: Seq<char>) -> Seq<char> {
    strip_suffixes(server_url, "/"@) + "/api/v0/models"@
}

/// Guesses the address of the inference server from the address that the
/// editor is given.
pub fn derive_server_url(base_url: &str) -> (url: String)
    ensures
        url@ == derived_server_url(base_url@),
{
    let chars = chars_of(base_url);
    let v1 = chars_of("/v1");
    let slash = chars_of("/");
    proof {
        assert(chars@.take(chars@.len() as int) =~= chars@);
    }
    let cut = strip_suffixes_end(chars.as_slice(), chars.len(), v1.as_slice());
    let end = strip_suffixes_end(chars.as_slice(), cut, slash.as_slice());
    let ghost base = chars@.take(end as int);
    let mut at: usize = end;
    assert(base.take(at as int) =~= base);
    while at > 0 && chars[at - 1] != ':'
        invariant
            at <= end <= chars@.len(),
            base == chars@.take(end as int),
            last_position(base.take(at as int), ':') == last_position(base, ':'),
        decreases at,
    {
        assert(base.take(at as int).drop_last() =~= base.take(at - 1));
        at = at - 1;
    }
    if at == 0 {
        "http://localhost:1234".to_owned()
    } else {
        let mut url = string_of(slice_subrange(chars.as_slice(), 0, at - 1));
        url.append(":1234");
        url
    }
}

/// Builds the address under which the inference server lists its models.
pub fn build_models_endpoint(server_url: &str) -> (url: String)
    ensures
        url@ == models_endpoint(server_url@),
{
    let chars = chars_of(server_url);
    let slash = chars_of("/");
    proof {
        assert(chars@.take(chars@.len() as int) =~= chars@);
    }
    let end = strip_suffixes_end(chars.as_slice(), chars.len(), slash.as_slice());
    let mut url = string_of(slice_subrange(chars.as_slice(), 0, end));
    url.append("/api/v0/models");
    url
}

} // verus!
