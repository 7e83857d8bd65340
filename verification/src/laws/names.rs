//! The names of members, told apart.
use vstd::prelude::*;

verus! {

/// What tells names apart: the length, the first three characters and the last.
pub(crate) open spec fn mark(s: Seq<char>) -> (nat, char, char, char, char) {
    let at = |i: int|
        if 0 <= i < s.len() {
            s[i]
        } else {
            ' '
        };
    (s.len(), at(0), at(1), at(2), at(s.len() - 1))
}

/// The marks of the members of requests.
pub(crate) proof fn lemma_request_names()
    ensures
        mark("type"@) == (4nat, 't', 'y', 'p', 'e'),
        mark("text"@) == (4nat, 't', 'e', 'x', 't'),
        mark("image_url"@) == (9nat, 'i', 'm', 'a', 'l'),
        mark("url"@) == (3nat, 'u', 'r', 'l', 'l'),
        mark("detail"@) == (6nat, 'd', 'e', 't', 'l'),
        mark("file"@) == (4nat, 'f', 'i', 'l', 'e'),
        mark("file_data"@) == (9nat, 'f', 'i', 'l', 'a'),
        mark("filename"@) == (8nat, 'f', 'i', 'l', 'e'),
        mark("input_audio"@) == (11nat, 'i', 'n', 'p', 'o'),
        mark("data"@) == (4nat, 'd', 'a', 't', 'a'),
        mark("format"@) == (6nat, 'f', 'o', 'r', 't'),
        mark("id"@) == (2nat, 'i', 'd', ' ', 'd'),
        mark("function"@) == (8nat, 'f', 'u', 'n', 'n'),
        mark("name"@) == (4nat, 'n', 'a', 'm', 'e'),
        mark("arguments"@) == (9nat, 'a', 'r', 'g', 's'),
        mark("role"@) == (4nat, 'r', 'o', 'l', 'e'),
        mark("content"@) == (7nat, 'c', 'o', 'n', 't'),
        mark("tool_calls"@) == (10nat, 't', 'o', 'o', 's'),
        mark("tool_call_id"@) == (12nat, 't', 'o', 'o', 'd'),
        mark("description"@) == (11nat, 'd', 'e', 's', 'n'),
        mark("parameters"@) == (10nat, 'p', 'a', 'r', 's'),
        mark("json_schema"@) == (11nat, 'j', 's', 'o', 'a'),
        mark("strict"@) == (6nat, 's', 't', 'r', 't'),
        mark("schema"@) == (6nat, 's', 'c', 'h', 'a'),
        mark("model"@) == (5nat, 'm', 'o', 'd', 'l'),
        mark("messages"@) == (8nat, 'm', 'e', 's', 's'),
        mark("tools"@) == (5nat, 't', 'o', 'o', 's'),
        mark("tool_choice"@) == (11nat, 't', 'o', 'o', 'e'),
        mark("response_format"@) == (15nat, 'r', 'e', 's', 't'),
        mark("temperature"@) == (11nat, 't', 'e', 'm', 'e'),
        mark("top_p"@) == (5nat, 't', 'o', 'p', 'p'),
        mark("max_completion_tokens"@) == (21nat, 'm', 'a', 'x', 's'),
        mark("seed"@) == (4nat, 's', 'e', 'e', 'd'),
        mark("stream"@) == (6nat, 's', 't', 'r', 'm'),
        mark("stream_options"@) == (14nat, 's', 't', 'r', 's'),
        mark("include_usage"@) == (13nat, 'i', 'n', 'c', 'e'),
        mark("input"@) == (5nat, 'i', 'n', 'p', 't'),
        mark("dimensions"@) == (10nat, 'd', 'i', 'm', 's'),
        mark("prompt"@) == (6nat, 'p', 'r', 'o', 't'),
        mark("n"@) == (1nat, 'n', ' ', ' ', 'n'),
        mark("size"@) == (4nat, 's', 'i', 'z', 'e'),
        mark("quality"@) == (7nat, 'q', 'u', 'a', 'y'),
        mark("style"@) == (5nat, 's', 't', 'y', 'e'),
        mark("output_format"@) == (13nat, 'o', 'u', 't', 't'),
        mark("voice"@) == (5nat, 'v', 'o', 'i', 'e'),
        mark("speed"@) == (5nat, 's', 'p', 'e', 'd'),
        mark("language"@) == (8nat, 'l', 'a', 'n', 'e'),
{
    reveal_strlit("type");
    reveal_strlit("text");
    reveal_strlit("image_url");
    reveal_strlit("url");
    reveal_strlit("detail");
    reveal_strlit("file");
    reveal_strlit("file_data");
    reveal_strlit("filename");
    reveal_strlit("input_audio");
    reveal_strlit("data");
    reveal_strlit("format");
    reveal_strlit("id");
    reveal_strlit("function");
    reveal_strlit("name");
    reveal_strlit("arguments");
    reveal_strlit("role");
    reveal_strlit("content");
    reveal_strlit("tool_calls");
    reveal_strlit("tool_call_id");
    reveal_strlit("description");
    reveal_strlit("parameters");
    reveal_strlit("json_schema");
    reveal_strlit("strict");
    reveal_strlit("schema");
    reveal_strlit("model");
    reveal_strlit("messages");
    reveal_strlit("tools");
    reveal_strlit("tool_choice");
    reveal_strlit("response_format");
    reveal_strlit("temperature");
    reveal_strlit("top_p");
    reveal_strlit("max_completion_tokens");
    reveal_strlit("seed");
    reveal_strlit("stream");
    reveal_strlit("stream_options");
    reveal_strlit("include_usage");
    reveal_strlit("input");
    reveal_strlit("dimensions");
    reveal_strlit("prompt");
    reveal_strlit("n");
    reveal_strlit("size");
    reveal_strlit("quality");
    reveal_strlit("style");
    reveal_strlit("output_format");
    reveal_strlit("voice");
    reveal_strlit("speed");
    reveal_strlit("language");
}

/// The marks of the members of reports.
pub(crate) proof fn lemma_report_names()
    ensures
        mark("binding"@) == (7nat, 'b', 'i', 'n', 'g'),
        mark("model"@) == (5nat, 'm', 'o', 'd', 'l'),
        mark("outcome"@) == (7nat, 'o', 'u', 't', 'e'),
        mark("provider"@) == (8nat, 'p', 'r', 'o', 'r'),
        mark("duration_ms"@) == (11nat, 'd', 'u', 'r', 's'),
        mark("alias"@) == (5nat, 'a', 'l', 'i', 's'),
        mark("input_tokens"@) == (12nat, 'i', 'n', 'p', 's'),
        mark("output_tokens"@) == (13nat, 'o', 'u', 't', 's'),
        mark("total_tokens"@) == (12nat, 't', 'o', 't', 's'),
        mark("cached_input_tokens"@) == (19nat, 'c', 'a', 'c', 's'),
        mark("cost_usd_micros"@) == (15nat, 'c', 'o', 's', 's'),
        mark("error_class"@) == (11nat, 'e', 'r', 'r', 's'),
        mark("error_message"@) == (13nat, 'e', 'r', 'r', 'e'),
{
    reveal_strlit("binding");
    reveal_strlit("model");
    reveal_strlit("outcome");
    reveal_strlit("provider");
    reveal_strlit("duration_ms");
    reveal_strlit("alias");
    reveal_strlit("input_tokens");
    reveal_strlit("output_tokens");
    reveal_strlit("total_tokens");
    reveal_strlit("cached_input_tokens");
    reveal_strlit("cost_usd_micros");
    reveal_strlit("error_class");
    reveal_strlit("error_message");
}

} // verus!
