//! Sandboxed tool execution through toold.
use vstd::prelude::*;

use crate::json::{
    as_signed, as_text, as_unsigned, entry, field_text_or, field_u64_or, get, object_fields,
    text_field, text_or, text_value, unsigned_or, Json,
};
use crate::varlink::VarlinkCall;

verus! {

/// Result of a sandboxed command execution.
#[derive(Debug, Clone)]
pub struct ToolRunResult {
    pub exit_code: i32,
    pub stdout: String,
    pub stderr: String,
    pub duration_ms: u64,
}

/// Whether `v` is an array of the texts `texts`, in order.
pub open spec fn is_text_array(v: Json, texts: Seq<Seq<char>>) -> bool {
    v matches Json::Array(items) && items@.len() == texts.len() && forall|i: int|
        0 <= i < texts.len() ==> as_text(Some(#[trigger] items@[i])) == Some(texts[i])
}

/// Whether `p` are the parameters of a tool execution request.
pub open spec fn is_tool_query(
    p: Option<Json>,
    tool: Seq<char>,
    args: Seq<Seq<char>>,
    profile: Option<Seq<char>>,
) -> bool {
    object_fields(p) matches Some(f) && f.len() == (if profile is Some {
        3int
    } else {
        2int
    }) && text_field(f[0], "name"@, tool) && f[1].0@ == "args"@ && is_text_array(f[1].1, args) && (
    profile matches Some(s) ==> text_field(f[2], "sandbox"@, s))
}

/// The call that asks toold to run `tool` with `args`, under the sandbox
/// profile `profile` when one is given.
pub fn tool_call(tool: &str, args: &Vec<String>, profile: Option<&str>) -> (c: VarlinkCall)
    ensures
        c.method@ == "io.syntrop.Tool1.ExecuteTool"@,
        is_tool_query(
            c.parameters,
            tool@,
            args@.map_values(|a: String| a@),
            match profile {
                Some(p) => Some(p@),
                None => None,
            },
        ),
{
    let mut items: Vec<Json> = Vec::new();
    let mut i: usize = 0;
    while i < args.len()
        invariant
            i <= args.len(),
            items@.len() == i,
            forall|k: int| 0 <= k < i ==> as_text(Some(#[trigger] items@[k])) == Some(args@[k]@),
        decreases args.len() - i,
    {
        items.push(Json::Str(args[i].clone()));
        i = i + 1;
    }
    let ghost arg_texts = args@.map_values(|a: String| a@);
    let array = Json::Array(items);
    assert(is_text_array(array, arg_texts));
    let mut fields: Vec<(String, Json)> = Vec::new();
    fields.push(entry("name", text_value(tool)));
    fields.push(entry("args", array));
    match profile {
        Some(p) => {
            fields.push(entry("sandbox", text_value(p)));
        },
        None => {},
    }
    VarlinkCall {
        method: String::from_str("io.syntrop.Tool1.ExecuteTool"),
        parameters: Some(Json::Object(fields)),
    }
}

/// The value the results are read from: the reply's `result` value when it
/// has one, else the reply itself.
pub open spec fn result_body(res: Json) -> Json {
    match get(res, "result"@) {
        Some(inner) => inner,
        None => res,
    }
}

/// The exit code a result reports: its integer `exit_code` cut to 32 bits,
/// or -1.
pub open spec fn reported_exit_code(body: Json) -> i32 {
    match as_signed(get(body, "exit_code"@)) {
        Some(c) => c as i32,
        None => -1i32,
    }
}

/// The result an `ExecuteTool` reply carries.
pub fn decode_tool_result(res: &Json) -> (r: ToolRunResult)
    ensures
        r.exit_code == reported_exit_code(result_body(*res)),
        r.stdout@ == text_or(result_body(*res), "stdout"@, ""@),
        r.stderr@ == text_or(result_body(*res), "stderr"@, ""@),
        r.duration_ms == unsigned_or(result_body(*res), "duration_ms"@, 0),
{
    let inner = match res.get("result") {
        Some(x) => x,
        None => res,
    };
    let exit_code: i32 = match inner.get("exit_code") {
        Some(v) => match v.as_i64() {
            Some(c) => c as i32,
            None => -1,
        },
        None => -1,
    };
    ToolRunResult {
        exit_code,
        stdout: field_text_or(inner, "stdout", ""),
        stderr: field_text_or(inner, "stderr", ""),
        duration_ms: field_u64_or(inner, "duration_ms", 0),
    }
}

/// toold's result is read from the reply's `result` value when it has one,
/// else from the reply itself. The exit code is the integer the result
/// reports, whenever it fits in 32 bits, and -1 when it reports none; the
/// output texts and the duration are taken as sent, empty or 0 when the
/// result does not send them.
pub proof fn lemma_tool_result(res: Json)
    ensures
        get(res, "result"@) matches Some(inner) ==> result_body(res) == inner,
        get(res, "result"@) is None ==> result_body(res) == res,
        ({
            let body = result_body(res);
            &&& (as_signed(get(body, "exit_code"@)) matches Some(c) ==> (i32::MIN <= c <= i32::MAX
                ==> reported_exit_code(body) == c))
            &&& (as_signed(get(body, "exit_code"@)) is None ==> reported_exit_code(body) == -1)
            &&& (as_text(get(body, "stdout"@)) matches Some(t) ==> text_or(body, "stdout"@, ""@) == t)
            &&& (as_text(get(body, "stdout"@)) is None ==> text_or(body, "stdout"@, ""@) == ""@)
            &&& (as_text(get(body, "stderr"@)) matches Some(t) ==> text_or(body, "stderr"@, ""@) == t)
            &&& (as_text(get(body, "stderr"@)) is None ==> text_or(body, "stderr"@, ""@) == ""@)
            &&& (as_unsigned(get(body, "duration_ms"@)) matches Some(d) ==> unsigned_or(
                body,
                "duration_ms"@,
                0,
            ) == d)
            &&& (as_unsigned(get(body, "duration_ms"@)) is None ==> unsigned_or(
                body,
                "duration_ms"@,
                0,
            ) == 0)
        }),
{
}

} // verus!
