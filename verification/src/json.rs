//! JSON documents as the chat workflow reads and writes them.

use vstd::prelude::*;
use crate::text::{i64_of_decimal, i64_to_string, int_decimal, law_decimal_round_trip, lemma_nat_decimal, lemma_nat_decimal_leading, nat_decimal, trim, trim_str, all_digits, chars_of, digits_value, is_digit, lemma_digits_value_monotone};

verus! {

/// The mathematical model of a JSON document. Numbers are kept as the text
/// that writes them.
pub enum Json {
    Null,
    Bool(bool),
    Number(Seq<char>),
    Text(Seq<char>),
    Array(Seq<Json>),
    Object(Seq<(Seq<char>, Json)>),
}

/// A JSON document. An object keeps its members in order.
#[derive(Debug, PartialEq)]
pub enum JsonValue {
    Null,
    Bool(bool),
    Number(String),
    String(String),
    Array(Vec<JsonValue>),
    Object(Vec<(String, JsonValue)>),
}

impl JsonValue {
    pub open spec fn model(&self) -> Json
        decreases self, 0nat,
    {
        match self {
            JsonValue::Null => Json::Null,
            JsonValue::Bool(b) => Json::Bool(*b),
            JsonValue::Number(n) => Json::Number(n@),
            JsonValue::String(s) => Json::Text(s@),
            JsonValue::Array(items) => Json::Array(Self::models(items@)),
            JsonValue::Object(members) => Json::Object(Self::member_models(members@)),
        }
    }

    pub open spec fn models(items: Seq<JsonValue>) -> Seq<Json>
        decreases items, 1nat,
    {
        if items.len() == 0 {
            seq![]
        } else {
            Self::models(items.drop_last()).push(items.last().model())
        }
    }

    pub open spec fn member_models(members: Seq<(String, JsonValue)>) -> Seq<(Seq<char>, Json)>
        decreases members, 1nat,
    {
        if members.len() == 0 {
            seq![]
        } else {
            Self::member_models(members.drop_last()).push((members.last().0@, members.last().1.model()))
        }
    }
}


proof fn lemma_models(items: Seq<JsonValue>)
    ensures
        JsonValue::models(items) =~= items.map_values(|v: JsonValue| v.model()),
    decreases items.len(),
{
    if items.len() > 0 {
        lemma_models(items.drop_last());
    }
}

proof fn lemma_member_models(members: Seq<(String, JsonValue)>)
    ensures
        JsonValue::member_models(members) =~= members.map_values(
            |m: (String, JsonValue)| (m.0@, m.1.model()),
        ),
    decreases members.len(),
{
    if members.len() > 0 {
        lemma_member_models(members.drop_last());
    }
}

/// The value of the last member of `members` named `key`: the one that a
/// JSON reader keeps when a name repeats.
pub open spec fn member_value(members: Seq<(Seq<char>, Json)>, key: Seq<char>) -> Option<Json>
    decreases members.len(),
{
    if members.len() == 0 {
        None
    } else if members.last().0 == key {
        Some(members.last().1)
    } else {
        member_value(members.drop_last(), key)
    }
}

/// The member `key` of an object; `None` for anything else.
pub open spec fn json_get(j: Json, key: Seq<char>) -> Option<Json> {
    match j {
        Json::Object(members) => member_value(members, key),
        _ => None,
    }
}

/// The array index that a JSON Pointer token names: ASCII digits without a
/// leading zero (but `0` itself), within `usize`.
pub open spec fn pointer_index(token: Seq<char>) -> Option<nat> {
    if all_digits(token) && !(token[0] == '0' && token.len() != 1) && digits_value(token)
        <= usize::MAX {
        Some(digits_value(token) as nat)
    } else {
        None
    }
}

/// One JSON Pointer step: an object's member, or an array's element.
pub open spec fn json_step(j: Json, token: Seq<char>) -> Option<Json> {
    match j {
        Json::Object(members) => member_value(members, token),
        Json::Array(items) => match pointer_index(token) {
            Some(i) => if i < items.len() {
                Some(items[i as int])
            } else {
                None
            },
            None => None,
        },
        _ => None,
    }
}

/// The value that a JSON Pointer made of `tokens` reaches from `j`.
pub open spec fn json_pointer(j: Json, tokens: Seq<Seq<char>>) -> Option<Json>
    decreases tokens.len(),
{
    if tokens.len() == 0 {
        Some(j)
    } else {
        match json_step(j, tokens[0]) {
            Some(next) => json_pointer(next, tokens.drop_first()),
            None => None,
        }
    }
}

/// The model of an optional reference to a JSON value.
pub open spec fn opt_model(v: Option<&JsonValue>) -> Option<Json> {
    match v {
        Some(x) => Some(x.model()),
        None => None,
    }
}

/// The text of a JSON string; `None` for anything else.
pub open spec fn as_text(j: Option<Json>) -> Option<Seq<char>> {
    match j {
        Some(Json::Text(t)) => Some(t),
        _ => None,
    }
}

impl JsonValue {
    /// The member `key` of an object.
    pub fn get(&self, key: &str) -> (r: Option<&JsonValue>)
        ensures
            opt_model(r) == json_get(self.model(), key@),
    {
        match self {
            JsonValue::Object(members) => {
                proof {
                    lemma_member_models(members@);
                }
                let ghost ms = JsonValue::member_models(members@);
                let k = key.to_string();
                let mut j = members.len();
                assert(ms.take(members@.len() as int) =~= ms);
                while j > 0
                    invariant
                        j <= members@.len(),
                        self.model() == Json::Object(ms),
                        k@ == key@,
                        ms == JsonValue::member_models(members@),
                        ms =~= members@.map_values(|m: (String, JsonValue)| (m.0@, m.1.model())),
                        member_value(ms, k@) == member_value(ms.take(j as int), k@),
                    decreases j,
                {
                    let m = &members[j - 1];
                    assert(ms.take(j as int).drop_last() =~= ms.take(j - 1));
                    if m.0 == k {
                        return Some(&m.1);
                    }
                    j -= 1;
                }
                assert(ms.take(0) =~= Seq::<(Seq<char>, Json)>::empty());
                None
            },
            _ => None,
        }
    }

    /// One JSON Pointer step from this value.
    pub fn pointer_step(&self, token: &str) -> (r: Option<&JsonValue>)
        ensures
            opt_model(r) == json_step(self.model(), token@),
    {
        if let JsonValue::Array(items) = self {
            proof {
                lemma_models(items@);
            }
            assert(self.model() == Json::Array(JsonValue::models(items@)));
            match parse_pointer_index(token) {
                Some(n) => if n < items.len() {
                    assert(pointer_index(token@) == Some(n as nat));
                    Some(&items[n])
                } else {
                    None
                },
                None => None,
            }
        } else {
            self.get(token)
        }
    }
}

/// The array index that a JSON Pointer token names.
pub fn parse_pointer_index(token: &str) -> (r: Option<usize>)
    ensures
        r matches Some(n) ==> pointer_index(token@) == Some(n as nat),
        r is None ==> pointer_index(token@) is None,
{
    let v = chars_of(token);
    let n = v.len();
    if n == 0 {
        return None;
    }
    if v[0] == '0' && n != 1 {
        return None;
    }
    let mut acc: u128 = 0;
    let mut i: usize = 0;
    while i < n
        invariant
            i <= n,
            n == v@.len(),
            v@ == token@,
            n > 0,
            !(v@[0] == '0' && n != 1),
            acc == digits_value(v@.take(i as int)),
            acc <= usize::MAX,
            forall|j: int| 0 <= j < i ==> is_digit(#[trigger] v@[j]),
        decreases n - i,
    {
        let u = v[i] as u32;
        if !(48 <= u && u <= 57) {
            assert(!is_digit(v@[i as int]));
            return None;
        }
        assert(v@.take(i + 1).drop_last() =~= v@.take(i as int));
        acc = acc * 10 + (u - 48) as u128;
        if acc > usize::MAX as u128 {
            proof {
                if all_digits(v@) {
                    lemma_digits_value_monotone(v@, i + 1);
                }
            }
            return None;
        }
        i += 1;
    }
    assert(v@.take(n as int) =~= v@);
    Some(acc as usize)
}

#[verifier::external_type_specification]
#[verifier::external_body]
pub struct ExSerdeJsonValue(serde_json::Value);

/// What `serde_json::from_str::<serde_json::Value>` makes of `text`, moved
/// into the model: the document, or the text of the error it reports.
pub uninterp spec fn decoded_json(text: Seq<char>) -> Result<Json, Seq<char>>;

/// Moves a `serde_json::Value` into a `JsonValue`, one variant for one; a
/// number keeps the text that `serde_json::Number`'s `Display` gives it.
/// Nothing is stated of the result here: `decode_json` names it.
#[verifier::external_body]
fn from_serde_value(value: serde_json::Value) -> JsonValue {
    match value {
        serde_json::Value::Null => JsonValue::Null,
        serde_json::Value::Bool(b) => JsonValue::Bool(b),
        serde_json::Value::Number(n) => JsonValue::Number(n.to_string()),
        serde_json::Value::String(s) => JsonValue::String(s),
        serde_json::Value::Array(items) => JsonValue::Array(items.into_iter().map(from_serde_value).collect()),
        serde_json::Value::Object(members) => JsonValue::Object(
            members.into_iter().map(|(k, v)| (k, from_serde_value(v))).collect(),
        ),
    }
}

/// Reads `text` as a JSON document by calling `serde_json::from_str` into a
/// `serde_json::Value`. Assumed: the outcome depends on the text alone; it
/// is named `decoded_json`, and what it is for a given text is not stated.
#[verifier::external_body]
pub(crate) fn decode_json(text: &str) -> (r: Result<JsonValue, String>)
    ensures
        match r {
            Ok(v) => decoded_json(text@) == Ok::<Json, Seq<char>>(v.model()),
            Err(e) => decoded_json(text@) == Err::<Json, Seq<char>>(e@),
        },
{
    match serde_json::from_str::<serde_json::Value>(text) {
        Ok(v) => Ok(from_serde_value(v)),
        Err(e) => Err(e.to_string()),
    }
}

/// The texts of a sequence of string slices.
pub open spec fn token_texts(tokens: Seq<&str>) -> Seq<Seq<char>> {
    tokens.map_values(|t: &str| t@)
}

impl JsonValue {
    /// The text of a JSON string.
    pub fn as_string(&self) -> (r: Option<&String>)
        ensures
            match r {
                Some(s) => self.model() == Json::Text(s@),
                None => !(self.model() is Text),
            },
    {
        match self {
            JsonValue::String(s) => Some(s),
            _ => None,
        }
    }

    /// The value that the JSON Pointer made of `tokens` reaches.
    pub fn pointer(&self, tokens: &Vec<&str>) -> (r: Option<&JsonValue>)
        ensures
            opt_model(r) == json_pointer(self.model(), token_texts(tokens@)),
    {
        let ghost all = token_texts(tokens@);
        let mut cur: &JsonValue = self;
        let mut i: usize = 0;
        assert(all.skip(0) =~= all);
        while i < tokens.len()
            invariant
                i <= tokens@.len(),
                all == token_texts(tokens@),
                json_pointer(self.model(), all) == json_pointer(cur.model(), all.skip(i as int)),
            decreases tokens@.len() - i,
        {
            assert(all.skip(i as int).drop_first() =~= all.skip(i + 1));
            assert(all.skip(i as int)[0] == tokens@[i as int]@);
            match cur.pointer_step(tokens[i]) {
                Some(next) => {
                    cur = next;
                },
                None => {
                    return None;
                },
            }
            i += 1;
        }
        assert(all.skip(tokens@.len() as int) =~= Seq::<Seq<char>>::empty());
        Some(cur)
    }

    /// The text of the JSON string that `tokens` reaches.
    pub fn text_at(&self, tokens: &Vec<&str>) -> (r: Option<String>)
        ensures
            match r {
                Some(t) => as_text(json_pointer(self.model(), token_texts(tokens@))) == Some(t@),
                None => as_text(json_pointer(self.model(), token_texts(tokens@))) is None,
            },
    {
        match self.pointer(tokens) {
            Some(v) => match v.as_string() {
                Some(s) => Some(s.clone()),
                None => None,
            },
            None => None,
        }
    }
}

/// The text of an OpenAI-style chat completion: the `content` of the first
/// choice's `message`, when it is a string.
pub open spec fn response_text(j: Json) -> Option<Seq<char>> {
    match json_get(j, "choices"@) {
        Some(Json::Array(items)) => if items.len() > 0 {
            match json_get(items[0], "message"@) {
                Some(message) => as_text(json_get(message, "content"@)),
                None => None,
            }
        } else {
            None
        },
        _ => None,
    }
}

/// The text of an OpenAI-style chat completion.
pub fn extract_response_text(response: &JsonValue) -> (r: Option<String>)
    ensures
        match r {
            Some(t) => response_text(response.model()) == Some(t@),
            None => response_text(response.model()) is None,
        },
{
    let choices = match response.get("choices") {
        Some(c) => c,
        None => return None,
    };
    let items = match choices {
        JsonValue::Array(items) => items,
        _ => return None,
    };
    proof {
        lemma_models(items@);
    }
    if items.len() == 0 {
        return None;
    }
    let message = match items[0].get("message") {
        Some(m) => m,
        None => return None,
    };
    match message.get("content") {
        Some(content) => match content.as_string() {
            Some(s) => Some(s.clone()),
            None => None,
        },
        None => None,
    }
}

/// The places where a JKCA reply may carry its generated text, in the order
/// they are tried.
pub open spec fn jkca_text_paths() -> Seq<Seq<Seq<char>>> {
    seq![
        seq!["downstream"@, "text"@],
        seq!["downstream"@, "generated_text"@],
        seq!["downstream"@, "choices"@, "0"@, "message"@, "content"@],
        seq!["text"@],
        seq!["generated_text"@],
        seq!["choices"@, "0"@, "message"@, "content"@],
    ]
}

/// The first string among the places `paths` reach in `j`.
pub open spec fn first_text(j: Json, paths: Seq<Seq<Seq<char>>>) -> Option<Seq<char>>
    decreases paths.len(),
{
    if paths.len() == 0 {
        None
    } else {
        match as_text(json_pointer(j, paths[0])) {
            Some(t) => Some(t),
            None => first_text(j, paths.drop_first()),
        }
    }
}

/// The generated text of a JKCA reply: the first string found at one of
/// `jkca_text_paths`, trimmed, unless that leaves it empty.
pub open spec fn jkca_generated_text(j: Json) -> Option<Seq<char>> {
    match first_text(j, jkca_text_paths()) {
        Some(t) => if trim(t).len() > 0 {
            Some(trim(t))
        } else {
            None
        },
        None => None,
    }
}

/// The generated text of a JKCA reply.
pub fn extract_jkca_generated_text(response: &JsonValue) -> (r: Option<String>)
    ensures
        match r {
            Some(t) => jkca_generated_text(response.model()) == Some(t@),
            None => jkca_generated_text(response.model()) is None,
        },
{
    let ghost j = response.model();
    let ghost paths = jkca_text_paths();
    let p0 = vec!["downstream", "text"];
    let p1 = vec!["downstream", "generated_text"];
    let p2 = vec!["downstream", "choices", "0", "message", "content"];
    let p3 = vec!["text"];
    let p4 = vec!["generated_text"];
    let p5 = vec!["choices", "0", "message", "content"];
    assert(token_texts(p0@) =~= paths[0]);
    assert(token_texts(p1@) =~= paths[1]);
    assert(token_texts(p2@) =~= paths[2]);
    assert(token_texts(p3@) =~= paths[3]);
    assert(token_texts(p4@) =~= paths[4]);
    assert(token_texts(p5@) =~= paths[5]);
    assert(paths.drop_first()[0] == paths[1]);
    assert(paths.drop_first().drop_first()[0] == paths[2]);
    assert(paths.drop_first().drop_first().drop_first()[0] == paths[3]);
    assert(paths.drop_first().drop_first().drop_first().drop_first()[0] == paths[4]);
    assert(paths.drop_first().drop_first().drop_first().drop_first().drop_first()[0] == paths[5]);
    assert(paths.drop_first().drop_first().drop_first().drop_first().drop_first().drop_first().len()
        == 0);
    let mut found = response.text_at(&p0);
    if found.is_none() {
        found = response.text_at(&p1);
    }
    if found.is_none() {
        found = response.text_at(&p2);
    }
    if found.is_none() {
        found = response.text_at(&p3);
    }
    if found.is_none() {
        found = response.text_at(&p4);
    }
    if found.is_none() {
        found = response.text_at(&p5);
    }
    proof {
        reveal_with_fuel(first_text, 7);
    }
    match found {
        Some(t) => {
            let trimmed = trim_str(t.as_str());
            if trimmed.as_str().is_empty() {
                None
            } else {
                Some(trimmed)
            }
        },
        None => None,
    }
}


/// A JSON string holding `s`.
pub fn text_value(s: &str) -> (v: JsonValue)
    ensures
        v.model() == Json::Text(s@),
{
    JsonValue::String(s.to_string())
}

/// Appends the member `key: value` to an object's members.
pub fn push_member(members: &mut Vec<(String, JsonValue)>, key: &str, value: JsonValue)
    ensures
        JsonValue::member_models(final(members)@) == JsonValue::member_models(old(members)@).push(
            (key@, value.model()),
        ),
{
    let ghost m = value.model();
    members.push((key.to_string(), value));
    assert(final(members)@.drop_last() =~= old(members)@);
}

/// A one-element JSON array.
pub fn singleton_array(item: JsonValue) -> (v: JsonValue)
    ensures
        v.model() == Json::Array(seq![item.model()]),
{
    let ghost m = item.model();
    let mut items: Vec<JsonValue> = Vec::new();
    items.push(item);
    assert(items@.drop_last() =~= Seq::<JsonValue>::empty());
    assert(JsonValue::models(Seq::<JsonValue>::empty()) =~= Seq::<Json>::empty());
    assert(items@.last().model() == m);
    assert(JsonValue::models(items@) =~= seq![m]);
    JsonValue::Array(items)
}

/// The chat completion that stands for generated text `content` of `model`,
/// with the provider's own reply kept under `provider_response` when given.
pub open spec fn normalized_response(content: Seq<char>, model: Seq<char>, raw: Option<Json>) -> Json {
    let message = Json::Object(
        seq![("role"@, Json::Text("assistant"@)), ("content"@, Json::Text(content))],
    );
    let choice = Json::Object(
        seq![
            ("index"@, Json::Number("0"@)),
            ("message"@, message),
            ("finish_reason"@, Json::Text("stop"@)),
        ],
    );
    let base = seq![
        ("object"@, Json::Text("chat.completion"@)),
        ("model"@, Json::Text(model)),
        ("choices"@, Json::Array(seq![choice])),
    ];
    Json::Object(
        match raw {
            Some(r) => base.push(("provider_response"@, r)),
            None => base,
        },
    )
}

/// The model of an optional JSON value.
pub open spec fn opt_value_model(v: Option<JsonValue>) -> Option<Json> {
    match v {
        Some(x) => Some(x.model()),
        None => None,
    }
}

/// A chat completion in the shape that the front end reads.
pub fn normalize_chat_response(content: &str, model: &str, raw: Option<JsonValue>) -> (r: JsonValue)
    ensures
        r.model() == normalized_response(content@, model@, opt_value_model(raw)),
{
    let mut message: Vec<(String, JsonValue)> = Vec::new();
    assert(JsonValue::member_models(message@) =~= Seq::<(Seq<char>, Json)>::empty());
    push_member(&mut message, "role", text_value("assistant"));
    push_member(&mut message, "content", text_value(content));
    assert(JsonValue::member_models(message@) =~= seq![
        ("role"@, Json::Text("assistant"@)),
        ("content"@, Json::Text(content@)),
    ]);
    let mut choice: Vec<(String, JsonValue)> = Vec::new();
    assert(JsonValue::member_models(choice@) =~= Seq::<(Seq<char>, Json)>::empty());
    push_member(&mut choice, "index", JsonValue::Number("0".to_string()));
    push_member(&mut choice, "message", JsonValue::Object(message));
    push_member(&mut choice, "finish_reason", text_value("stop"));
    let ghost message_model = Json::Object(
        seq![("role"@, Json::Text("assistant"@)), ("content"@, Json::Text(content@))],
    );
    assert(JsonValue::member_models(choice@) =~= seq![
        ("index"@, Json::Number("0"@)),
        ("message"@, message_model),
        ("finish_reason"@, Json::Text("stop"@)),
    ]);
    let mut members: Vec<(String, JsonValue)> = Vec::new();
    assert(JsonValue::member_models(members@) =~= Seq::<(Seq<char>, Json)>::empty());
    push_member(&mut members, "object", text_value("chat.completion"));
    push_member(&mut members, "model", text_value(model));
    push_member(&mut members, "choices", singleton_array(JsonValue::Object(choice)));
    let ghost base = JsonValue::member_models(members@);
    assert(base =~= seq![
        ("object"@, Json::Text("chat.completion"@)),
        ("model"@, Json::Text(model@)),
        ("choices"@, Json::Array(seq![Json::Object(JsonValue::member_models(choice@))])),
    ]);
    match raw {
        Some(r) => {
            push_member(&mut members, "provider_response", r);
        },
        None => {},
    }
    JsonValue::Object(members)
}

/// The request body sent to LM Studio for `prompt`: the trimmed prompt as
/// the only user message, and the LoRA adapter when one is given.
pub open spec fn lm_studio_payload_of(prompt: Seq<char>, max_tokens: i64, adapter_path: Option<
    Seq<char>,
>) -> Json {
    let message = Json::Object(
        seq![("role"@, Json::Text("user"@)), ("content"@, Json::Text(trim(prompt)))],
    );
    let base = seq![
        ("model"@, Json::Text("local-model"@)),
        ("messages"@, Json::Array(seq![message])),
        ("temperature"@, Json::Number("0.7"@)),
        ("max_tokens"@, Json::Number(int_decimal(max_tokens as int))),
    ];
    Json::Object(
        match adapter_path {
            Some(p) => base.push(
                ("lora"@, Json::Object(seq![("adapter_path"@, Json::Text(p))])),
            ),
            None => base,
        },
    )
}

/// The request body sent to LM Studio.
pub fn lm_studio_payload(prompt: &str, max_tokens: i64, adapter_path: Option<&str>) -> (r:
    JsonValue)
    ensures
        r.model() == lm_studio_payload_of(
            prompt@,
            max_tokens,
            match adapter_path {
                Some(p) => Some(p@),
                None => None,
            },
        ),
{
    let trimmed = trim_str(prompt);
    let mut message: Vec<(String, JsonValue)> = Vec::new();
    assert(JsonValue::member_models(message@) =~= Seq::<(Seq<char>, Json)>::empty());
    push_member(&mut message, "role", text_value("user"));
    push_member(&mut message, "content", text_value(trimmed.as_str()));
    assert(JsonValue::member_models(message@) =~= seq![
        ("role"@, Json::Text("user"@)),
        ("content"@, Json::Text(trim(prompt@))),
    ]);
    let mut members: Vec<(String, JsonValue)> = Vec::new();
    assert(JsonValue::member_models(members@) =~= Seq::<(Seq<char>, Json)>::empty());
    push_member(&mut members, "model", text_value("local-model"));
    push_member(&mut members, "messages", singleton_array(JsonValue::Object(message)));
    push_member(&mut members, "temperature", JsonValue::Number("0.7".to_string()));
    push_member(&mut members, "max_tokens", JsonValue::Number(i64_to_string(max_tokens)));
    assert(JsonValue::member_models(members@) =~= seq![
        ("model"@, Json::Text("local-model"@)),
        ("messages"@, Json::Array(seq![Json::Object(JsonValue::member_models(message@))])),
        ("temperature"@, Json::Number("0.7"@)),
        ("max_tokens"@, Json::Number(int_decimal(max_tokens as int))),
    ]);
    match adapter_path {
        Some(p) => {
            let mut lora: Vec<(String, JsonValue)> = Vec::new();
            assert(JsonValue::member_models(lora@) =~= Seq::<(Seq<char>, Json)>::empty());
            push_member(&mut lora, "adapter_path", text_value(p));
            assert(JsonValue::member_models(lora@) =~= seq![("adapter_path"@, Json::Text(p@))]);
            push_member(&mut members, "lora", JsonValue::Object(lora));
        },
        None => {},
    }
    JsonValue::Object(members)
}

/// The request body sent to the JKCA runtime for `prompt`.
pub open spec fn jkca_payload_of(prompt: Seq<char>, max_tokens: i64) -> Json {
    Json::Object(
        seq![
            ("user_content"@, Json::Text(trim(prompt))),
            ("max_tokens"@, Json::Number(int_decimal(max_tokens as int))),
        ],
    )
}

/// The request body sent to the JKCA runtime.
pub fn jkca_payload(prompt: &str, max_tokens: i64) -> (r: JsonValue)
    ensures
        r.model() == jkca_payload_of(prompt@, max_tokens),
{
    let trimmed = trim_str(prompt);
    let mut members: Vec<(String, JsonValue)> = Vec::new();
    assert(JsonValue::member_models(members@) =~= Seq::<(Seq<char>, Json)>::empty());
    push_member(&mut members, "user_content", text_value(trimmed.as_str()));
    push_member(&mut members, "max_tokens", JsonValue::Number(i64_to_string(max_tokens)));
    assert(JsonValue::member_models(members@) =~= seq![
        ("user_content"@, Json::Text(trim(prompt@))),
        ("max_tokens"@, Json::Number(int_decimal(max_tokens as int))),
    ]);
    JsonValue::Object(members)
}


/// The text of a normalized chat completion reads back as the content it was
/// made from, whatever the model name and the kept provider reply.
pub proof fn law_normalized_response_reads_back(
    content: Seq<char>,
    model: Seq<char>,
    raw: Option<Json>,
)
    ensures
        response_text(normalized_response(content, model, raw)) == Some(content),
{
    reveal_strlit("provider_response");
    reveal_strlit("choices");
    reveal_strlit("finish_reason");
    reveal_strlit("message");
    reveal_strlit("content");
    reveal_strlit("model");
    let message = Json::Object(
        seq![("role"@, Json::Text("assistant"@)), ("content"@, Json::Text(content))],
    );
    let choice_members = seq![
        ("index"@, Json::Number("0"@)),
        ("message"@, message),
        ("finish_reason"@, Json::Text("stop"@)),
    ];
    let choice = Json::Object(choice_members);
    let base = seq![
        ("object"@, Json::Text("chat.completion"@)),
        ("model"@, Json::Text(model)),
        ("choices"@, Json::Array(seq![choice])),
    ];
    let j = normalized_response(content, model, raw);
    assert("provider_response"@.len() != "choices"@.len());
    assert("finish_reason"@.len() != "message"@.len());
    assert(member_value(base, "choices"@) == Some(Json::Array(seq![choice])));
    if let Some(r) = raw {
        assert(base.push(("provider_response"@, r)).drop_last() =~= base);
        assert(member_value(base.push(("provider_response"@, r)), "choices"@) == member_value(
            base,
            "choices"@,
        ));
    }
    assert(json_get(j, "choices"@) == Some(Json::Array(seq![choice])));
    assert(choice_members.drop_last() =~= seq![
        ("index"@, Json::Number("0"@)),
        ("message"@, message),
    ]);
    assert(member_value(choice_members.drop_last(), "message"@) == Some(message));
    assert(json_get(choice, "message"@) == Some(message));
    assert(json_get(message, "content"@) == Some(Json::Text(content)));
}


/// An object member's value is that of the last member with its name.
pub proof fn law_member_value_last(members: Seq<(Seq<char>, Json)>, key: Seq<char>, i: int)
    requires
        0 <= i < members.len(),
        members[i].0 == key,
        forall|j: int| i < j < members.len() ==> #[trigger] members[j].0 != key,
    ensures
        member_value(members, key) == Some(members[i].1),
    decreases members.len(),
{
    if i < members.len() - 1 {
        let rest = members.drop_last();
        assert forall|j: int| i < j < rest.len() implies #[trigger] rest[j].0 != key by {
            assert(rest[j] == members[j]);
        }
        law_member_value_last(rest, key, i);
    }
}

/// A name that no member has has no value.
pub proof fn law_member_value_absent(members: Seq<(Seq<char>, Json)>, key: Seq<char>)
    requires
        forall|j: int| 0 <= j < members.len() ==> #[trigger] members[j].0 != key,
    ensures
        member_value(members, key) is None,
    decreases members.len(),
{
    if members.len() > 0 {
        let rest = members.drop_last();
        assert forall|j: int| 0 <= j < rest.len() implies #[trigger] rest[j].0 != key by {
            assert(rest[j] == members[j]);
        }
        law_member_value_absent(rest, key);
    }
}

/// The LM Studio request body carries the configured model name, the
/// trimmed prompt as the one user message, the fixed temperature, the
/// configured completion length (as a number that reads back as that
/// length), and the adapter's location exactly when an adapter is used.
pub proof fn law_lm_studio_payload_fields(
    prompt: Seq<char>,
    max_tokens: i64,
    adapter_path: Option<Seq<char>>,
)
    ensures
        json_get(lm_studio_payload_of(prompt, max_tokens, adapter_path), "model"@) == Some(
            Json::Text("local-model"@),
        ),
        json_get(lm_studio_payload_of(prompt, max_tokens, adapter_path), "messages"@) == Some(
            Json::Array(
                seq![
                    Json::Object(
                        seq![("role"@, Json::Text("user"@)), ("content"@, Json::Text(trim(prompt)))],
                    ),
                ],
            ),
        ),
        json_get(lm_studio_payload_of(prompt, max_tokens, adapter_path), "temperature"@) == Some(
            Json::Number("0.7"@),
        ),
        json_get(lm_studio_payload_of(prompt, max_tokens, adapter_path), "max_tokens"@) == Some(
            Json::Number(int_decimal(max_tokens as int)),
        ),
        i64_of_decimal(int_decimal(max_tokens as int)) == Some(max_tokens),
        json_get(lm_studio_payload_of(prompt, max_tokens, adapter_path), "lora"@) == match adapter_path {
            Some(p) => Some(Json::Object(seq![("adapter_path"@, Json::Text(p))])),
            None => None,
        },
        json_get(lm_studio_payload_of(prompt, max_tokens, adapter_path), "user_content"@) is None,
{
    reveal_strlit("model");
    reveal_strlit("messages");
    reveal_strlit("temperature");
    reveal_strlit("max_tokens");
    reveal_strlit("lora");
    reveal_strlit("user_content");
    law_decimal_round_trip(max_tokens);
    let m = lm_studio_payload_of(prompt, max_tokens, adapter_path)->Object_0;
    assert("model"@.len() == 5 && "messages"@.len() == 8 && "temperature"@.len() == 11);
    assert("max_tokens"@.len() == 10 && "lora"@.len() == 4 && "user_content"@.len() == 12);
    law_member_value_last(m, "model"@, 0);
    law_member_value_last(m, "messages"@, 1);
    law_member_value_last(m, "temperature"@, 2);
    law_member_value_last(m, "max_tokens"@, 3);
    if adapter_path is Some {
        law_member_value_last(m, "lora"@, 4);
    } else {
        law_member_value_absent(m, "lora"@);
    }
    law_member_value_absent(m, "user_content"@);
}

/// The JKCA request body carries exactly the trimmed prompt and the
/// configured completion length.
pub proof fn law_jkca_payload_fields(prompt: Seq<char>, max_tokens: i64)
    ensures
        json_get(jkca_payload_of(prompt, max_tokens), "user_content"@) == Some(
            Json::Text(trim(prompt)),
        ),
        json_get(jkca_payload_of(prompt, max_tokens), "max_tokens"@) == Some(
            Json::Number(int_decimal(max_tokens as int)),
        ),
        jkca_payload_of(prompt, max_tokens)->Object_0.len() == 2,
        json_get(jkca_payload_of(prompt, max_tokens), "lora"@) is None,
{
    reveal_strlit("user_content");
    reveal_strlit("max_tokens");
    reveal_strlit("lora");
    let m = jkca_payload_of(prompt, max_tokens)->Object_0;
    assert("max_tokens"@.len() == 10 && "lora"@.len() == 4 && "user_content"@.len() == 12);
    law_member_value_last(m, "user_content"@, 0);
    law_member_value_last(m, "max_tokens"@, 1);
    law_member_value_absent(m, "lora"@);
}

/// The text of a chat completion is the `content` of its first choice's
/// `message`.
pub proof fn law_response_text_of_completion(content: Seq<char>, rest: Seq<Json>)
    ensures
        response_text(
            Json::Object(
                seq![
                    (
                        "choices"@,
                        Json::Array(
                            seq![
                                Json::Object(
                                    seq![
                                        (
                                            "message"@,
                                            Json::Object(seq![("content"@, Json::Text(content))]),
                                        ),
                                    ],
                                ),
                            ] + rest,
                        ),
                    ),
                ],
            ),
        ) == Some(content),
{
    reveal_with_fuel(member_value, 2);
}

/// The generated text of a JKCA reply that carries it under
/// `downstream.text` is that text trimmed, unless it is blank.
pub proof fn law_jkca_downstream_text(text: Seq<char>)
    ensures
        jkca_generated_text(
            Json::Object(seq![("downstream"@, Json::Object(seq![("text"@, Json::Text(text))]))]),
        ) == if trim(text).len() > 0 {
            Some(trim(text))
        } else {
            None
        },
{
    let j = Json::Object(seq![("downstream"@, Json::Object(seq![("text"@, Json::Text(text))]))]);
    let path = seq!["downstream"@, "text"@];
    assert(jkca_text_paths()[0] == path);
    reveal_with_fuel(member_value, 2);
    reveal_with_fuel(json_pointer, 3);
    assert(path.drop_first()[0] == "text"@);
    assert(path.drop_first().drop_first().len() == 0);
    assert(json_pointer(j, path) == Some(Json::Text(text)));
}

/// A JSON Pointer token of digits without a leading zero names the array
/// position it writes.
pub proof fn law_pointer_index_of_decimal(n: u32)
    ensures
        pointer_index(nat_decimal(n as nat)) == Some(n as nat),
{
    lemma_nat_decimal(n as nat);
    lemma_nat_decimal_leading(n as nat);
}


/// A normalized chat completion names its object kind and model, keeps the
/// provider's reply exactly when one is given, and has one choice: an
/// assistant message with the content, finished by `stop`.
pub proof fn law_normalized_response_fields(content: Seq<char>, model: Seq<char>, raw: Option<Json>)
    ensures
        json_get(normalized_response(content, model, raw), "object"@) == Some(
            Json::Text("chat.completion"@),
        ),
        json_get(normalized_response(content, model, raw), "model"@) == Some(Json::Text(model)),
        json_get(normalized_response(content, model, raw), "provider_response"@) == raw,
        json_get(normalized_response(content, model, raw), "choices"@) == Some(
            Json::Array(
                seq![
                    Json::Object(
                        seq![
                            ("index"@, Json::Number("0"@)),
                            (
                                "message"@,
                                Json::Object(
                                    seq![
                                        ("role"@, Json::Text("assistant"@)),
                                        ("content"@, Json::Text(content)),
                                    ],
                                ),
                            ),
                            ("finish_reason"@, Json::Text("stop"@)),
                        ],
                    ),
                ],
            ),
        ),
{
    reveal_strlit("object");
    reveal_strlit("model");
    reveal_strlit("choices");
    reveal_strlit("provider_response");
    assert("object"@.len() == 6 && "model"@.len() == 5 && "choices"@.len() == 7);
    assert("provider_response"@.len() == 17);
    let m = normalized_response(content, model, raw)->Object_0;
    law_member_value_last(m, "object"@, 0);
    law_member_value_last(m, "model"@, 1);
    law_member_value_last(m, "choices"@, 2);
    if raw is Some {
        law_member_value_last(m, "provider_response"@, 3);
    } else {
        law_member_value_absent(m, "provider_response"@);
    }
}

/// A JKCA reply's generated text is taken from `downstream.text` whenever
/// that is a string, and otherwise, when the reply has no `downstream`
/// member, from a top-level `text` string; the text is trimmed, and a blank
/// one counts as none.
pub proof fn law_jkca_text_sources(j: Json, t: Seq<char>)
    ensures
        json_pointer(j, seq!["downstream"@, "text"@]) == Some(Json::Text(t)) ==> jkca_generated_text(j)
            == if trim(t).len() > 0 {
            Some(trim(t))
        } else {
            None
        },
        json_get(j, "downstream"@) is None && json_get(j, "text"@) == Some(Json::Text(t))
            ==> jkca_generated_text(j) == if trim(t).len() > 0 {
            Some(trim(t))
        } else {
            None
        },
{
    let paths = jkca_text_paths();
    assert(paths[0] == seq!["downstream"@, "text"@]);
    assert(paths.drop_first()[0] == paths[1]);
    assert(paths.drop_first().drop_first()[0] == paths[2]);
    assert(paths.drop_first().drop_first().drop_first()[0] == paths[3]);
    if json_get(j, "downstream"@) is None && json_get(j, "text"@) == Some(Json::Text(t)) {
        assert(json_step(j, "downstream"@) is None) by {
            match j {
                Json::Object(ms) => {},
                Json::Array(items) => {
                    reveal_strlit("downstream");
                    assert(!all_digits("downstream"@)) by {
                        assert(!is_digit("downstream"@[0]));
                    }
                },
                _ => {},
            }
        }
        assert(json_step(j, "text"@) == Some(Json::Text(t))) by {
            assert(j is Object);
        }
        reveal_with_fuel(first_text, 5);
        reveal_with_fuel(json_pointer, 2);
        assert(seq!["text"@][0] == "text"@);
        assert(seq!["text"@].drop_first().len() == 0);
    } else {
        reveal_with_fuel(first_text, 2);
    }
}

/// Following a JSON Pointer: no tokens reach the document itself, and the
/// first token takes one step (a member of an object, an element of an
/// array) before the rest are followed from there.
pub proof fn law_json_pointer_steps(j: Json, tokens: Seq<Seq<char>>, members: Seq<(Seq<char>, Json)>, items: Seq<Json>)
    ensures
        json_pointer(j, seq![]) == Some(j),
        tokens.len() > 0 ==> json_pointer(Json::Object(members), tokens) == match member_value(
            members,
            tokens[0],
        ) {
            Some(next) => json_pointer(next, tokens.drop_first()),
            None => None,
        },
        tokens.len() > 0 ==> json_pointer(Json::Array(items), tokens) == match pointer_index(
            tokens[0],
        ) {
            Some(i) => if i < items.len() {
                json_pointer(items[i as int], tokens.drop_first())
            } else {
                None
            },
            None => None,
        },
        tokens.len() > 0 ==> json_pointer(Json::Null, tokens) is None,
        tokens.len() > 0 ==> json_pointer(Json::Text(seq![]), tokens) is None,
{
}
} // verus!
