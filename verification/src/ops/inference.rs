//! Text generation and embeddings through runtimed.
use vstd::prelude::*;

use crate::error::SyntropctlError;
use crate::json::{
    as_list, as_numeric, as_text, as_unsigned, entry, field_array, field_text_or, field_u64_or, get, object_fields,
    text_field, text_or, text_value, unsigned_or, value_field, Json, JsonNumber,
};
use crate::varlink::VarlinkCall;

verus! {

/// Result of a text generation.
#[derive(Debug, Clone)]
pub struct GenerationOutput {
    pub text: String,
    pub prompt_tokens: usize,
    pub completion_tokens: usize,
    pub finish_reason: String,
    pub duration_ms: u64,
}

/// Whether `p` are the parameters of a generation request.
pub open spec fn is_generate_query(
    p: Option<Json>,
    prompt: Seq<char>,
    model: Seq<char>,
    max_tokens: usize,
    temperature: Json,
) -> bool {
    object_fields(p) matches Some(f) && f.len() == 4 && text_field(f[0], "model"@, model)
        && text_field(f[1], "prompt"@, prompt) && value_field(
        f[2],
        "max_tokens"@,
        Json::Number(JsonNumber::PosInt(max_tokens as u64)),
    ) && value_field(f[3], "temperature"@, temperature)
}

/// The call that asks runtimed to complete `prompt` with `model`, within
/// `max_tokens` tokens at `temperature` (the JSON form of the decoding
/// temperature).
pub fn generate_call(prompt: &str, model: &str, max_tokens: usize, temperature: Json) -> (c: VarlinkCall)
    ensures
        c.method@ == "io.syntrop.Runtime1.Generate"@,
        is_generate_query(c.parameters, prompt@, model@, max_tokens, temperature),
{
    let mut fields: Vec<(String, Json)> = Vec::new();
    fields.push(entry("model", text_value(model)));
    fields.push(entry("prompt", text_value(prompt)));
    fields.push(entry("max_tokens", Json::Number(JsonNumber::PosInt(max_tokens as u64))));
    fields.push(entry("temperature", temperature));
    VarlinkCall {
        method: String::from_str("io.syntrop.Runtime1.Generate"),
        parameters: Some(Json::Object(fields)),
    }
}

/// What a `Generate` reply yields: the fields of its `result` value, each
/// missing one taking its default; a reply without `result` is refused.
pub open spec fn generation_meaning(res: Json, r: Result<GenerationOutput, SyntropctlError>) -> bool {
    match get(res, "result"@) {
        Some(inner) => r matches Ok(out) && out.text@ == text_or(inner, "text"@, ""@)
            && out.prompt_tokens == unsigned_or(inner, "prompt_tokens"@, 0) as usize
            && out.completion_tokens == unsigned_or(inner, "completion_tokens"@, 0) as usize
            && out.finish_reason@ == text_or(inner, "finish_reason"@, "stop"@) && out.duration_ms
            == unsigned_or(inner, "duration_ms"@, 0),
        None => r matches Err(SyntropctlError::MalformedReply(m)) && m@
            == "Missing 'result' object in Generate reply"@,
    }
}

/// The generation a `Generate` reply carries.
pub fn decode_generation(res: &Json) -> (r: Result<GenerationOutput, SyntropctlError>)
    ensures
        generation_meaning(*res, r),
{
    match res.get("result") {
        Some(inner) => Ok(
            GenerationOutput {
                text: field_text_or(inner, "text", ""),
                prompt_tokens: field_u64_or(inner, "prompt_tokens", 0) as usize,
                completion_tokens: field_u64_or(inner, "completion_tokens", 0) as usize,
                finish_reason: field_text_or(inner, "finish_reason", "stop"),
                duration_ms: field_u64_or(inner, "duration_ms", 0),
            },
        ),
        None => Err(
            SyntropctlError::MalformedReply(
                String::from_str("Missing 'result' object in Generate reply"),
            ),
        ),
    }
}

/// Whether `p` are the parameters of an embedding request.
pub open spec fn is_embed_query(p: Option<Json>, text: Seq<char>, model: Seq<char>) -> bool {
    object_fields(p) matches Some(f) && f.len() == 2 && text_field(f[0], "model"@, model)
        && text_field(f[1], "text"@, text)
}

/// The call that asks runtimed to embed `text` with `model`.
pub fn embed_call(text: &str, model: &str) -> (c: VarlinkCall)
    ensures
        c.method@ == "io.syntrop.Runtime1.Embed"@,
        is_embed_query(c.parameters, text@, model@),
{
    let mut fields: Vec<(String, Json)> = Vec::new();
    fields.push(entry("model", text_value(model)));
    fields.push(entry("text", text_value(text)));
    VarlinkCall {
        method: String::from_str("io.syntrop.Runtime1.Embed"),
        parameters: Some(Json::Object(fields)),
    }
}

/// The numbers among `items`, in order (`filter_map(as_f64)`).
pub open spec fn numbers_of(items: Seq<Json>) -> Seq<JsonNumber>
    decreases items.len(),
{
    if items.len() == 0 {
        Seq::empty()
    } else {
        let prev = numbers_of(items.drop_last());
        match as_numeric(Some(items.last())) {
            Some(n) => prev.push(n),
            None => prev,
        }
    }
}

/// What an `Embed` reply yields: the numbers of its `embedding` array; a
/// reply without that array is refused.
pub open spec fn embedding_meaning(res: Json, r: Result<Vec<JsonNumber>, SyntropctlError>) -> bool {
    match as_list(get(res, "embedding"@)) {
        Some(items) => r matches Ok(v) && v@ == numbers_of(items),
        None => r matches Err(SyntropctlError::MalformedReply(m)) && m@
            == "Missing 'embedding' array in Embed reply"@,
    }
}

/// The embedding vector an `Embed` reply carries.
pub fn decode_embedding(res: &Json) -> (r: Result<Vec<JsonNumber>, SyntropctlError>)
    ensures
        embedding_meaning(*res, r),
{
    match field_array(res, "embedding") {
        Some(items) => {
            let mut out: Vec<JsonNumber> = Vec::new();
            let mut i: usize = 0;
            while i < items.len()
                invariant
                    i <= items.len(),
                    out@ == numbers_of(items@.subrange(0, i as int)),
                decreases items.len() - i,
            {
                assert(items@.subrange(0, i + 1).drop_last() == items@.subrange(0, i as int));
                match items[i].as_number() {
                    Some(n) => {
                        out.push(n);
                    },
                    None => {},
                }
                i = i + 1;
            }
            assert(items@.subrange(0, items.len() as int) == items@);
            Ok(out)
        },
        None => Err(
            SyntropctlError::MalformedReply(
                String::from_str("Missing 'embedding' array in Embed reply"),
            ),
        ),
    }
}

/// Whether a JSON value is a number.
pub open spec fn is_number(j: Json) -> bool {
    as_numeric(Some(j)) is Some
}

/// The numeric items of `items`, in order.
pub open spec fn numeric_items(items: Seq<Json>) -> Seq<Json> {
    items.filter(|j: Json| is_number(j))
}

proof fn lemma_numbers_of_items(items: Seq<Json>)
    ensures
        numbers_of(items).len() == numeric_items(items).len(),
        forall|k: int|
            0 <= k < numeric_items(items).len() ==> as_numeric(
                Some(#[trigger] numeric_items(items)[k]),
            ) == Some(numbers_of(items)[k]),
    decreases items.len(),
{
    reveal(Seq::filter);
    if items.len() > 0 {
        lemma_numbers_of_items(items.drop_last());
        assert(numeric_items(items) == if is_number(items.last()) {
            numeric_items(items.drop_last()).push(items.last())
        } else {
            numeric_items(items.drop_last())
        });
    }
}

/// An embedding keeps every number of the reply's `embedding` array, of
/// any kind (integer or not), in order, and nothing else: its k-th
/// component is the k-th numeric item. A reply without that array is
/// refused.
pub proof fn lemma_embedding_keeps_numbers(res: Json, r: Result<Vec<JsonNumber>, SyntropctlError>)
    requires
        embedding_meaning(res, r),
    ensures
        as_list(get(res, "embedding"@)) is None ==> r is Err,
        forall|items: Seq<Json>|
            #[trigger] as_list(get(res, "embedding"@)) == Some(items) ==> (r matches Ok(v)
                && v@.len() == numeric_items(items).len()),
        forall|items: Seq<Json>, k: int|
            as_list(get(res, "embedding"@)) == Some(items) && 0 <= k < numeric_items(items).len()
                ==> (r matches Ok(v) && as_numeric(Some(#[trigger] numeric_items(items)[k])) == Some(
                v@[k],
            )),
{
    match as_list(get(res, "embedding"@)) {
        Some(items) => lemma_numbers_of_items(items),
        None => {},
    }
}

/// A generation is read from the reply's `result` value: the text and
/// finish reason are its `text` and `finish_reason` texts (else "" and
/// "stop"), the token counts and duration its unsigned `prompt_tokens`,
/// `completion_tokens` and `duration_ms` (else 0). A reply without
/// `result` is refused.
pub proof fn lemma_generation_fields(res: Json, r: Result<GenerationOutput, SyntropctlError>)
    requires
        generation_meaning(res, r),
    ensures
        get(res, "result"@) is None ==> r is Err,
        forall|inner: Json|
            #[trigger] get(res, "result"@) == Some(inner) ==> (r matches Ok(out) && out.text@ == (
            match as_text(get(inner, "text"@)) {
                Some(t) => t,
                None => ""@,
            }) && out.finish_reason@ == (match as_text(get(inner, "finish_reason"@)) {
                Some(t) => t,
                None => "stop"@,
            }) && out.prompt_tokens as int == (match as_unsigned(get(inner, "prompt_tokens"@)) {
                Some(u) => u as usize,
                None => 0usize,
            }) && out.completion_tokens as int == (match as_unsigned(
                get(inner, "completion_tokens"@),
            ) {
                Some(u) => u as usize,
                None => 0usize,
            }) && out.duration_ms == (match as_unsigned(get(inner, "duration_ms"@)) {
                Some(u) => u,
                None => 0,
            })),
{
}

} // verus!
