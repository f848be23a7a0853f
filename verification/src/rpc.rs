//! Formats the outcome of a command as a script that resolves or rejects the
//! promise waiting for it in the webview.

use vstd::prelude::*;
use vstd::string::*;
use crate::error::Error;
use crate::text::chars_of;

verus! {

/// The longest string, in bytes, that mainstream script engines accept:
/// `2^30 - 2`. A payload has to be strictly shorter.
pub const MAX_JSON_STR_LEN: usize = 1073741822;

/// Payloads of this many bytes or more are handed to `JSON.parse` whatever
/// their kind; only shorter ones can be inlined.
pub const MIN_JSON_PARSE_LEN: usize = 10240;

/// The length of `s` in bytes when encoded as UTF-8.
pub open spec fn byte_len(s: Seq<char>) -> nat {
    vstd::utf8::encode_utf8(s).len()
}

/// Whether `c` has to be preceded by a backslash inside a single-quoted
/// literal.
pub open spec fn needs_escape(c: char) -> bool {
    c == '\\' || c == '\''
}

/// One character as it stands inside a single-quoted literal.
pub open spec fn escape_char(c: char) -> Seq<char> {
    if needs_escape(c) {
        seq!['\\', c]
    } else {
        seq![c]
    }
}

/// `json` with a backslash in front of every backslash and single quote, and
/// nothing else changed.
pub open spec fn escaped(json: Seq<char>) -> Seq<char>
    decreases json.len(),
{
    if json.len() == 0 {
        Seq::empty()
    } else {
        escape_char(json[0]) + escaped(json.drop_first())
    }
}

/// The expression `JSON.parse('...')` around the escaped text.
pub open spec fn json_parse_call(json: Seq<char>) -> Seq<char> {
    "JSON.parse('"@ + escaped(json) + "')"@
}

/// What a script engine reads from the body of a single-quoted literal made
/// of ordinary characters and the two escapes `\\` and `\'`. `None` where the
/// body leaves that fragment: a lone quote ends the literal early, a line
/// break or any other escape is not modelled.
pub open spec fn literal_value(body: Seq<char>) -> Option<Seq<char>>
    decreases body.len(),
{
    if body.len() == 0 {
        Some(Seq::empty())
    } else if body[0] == '\\' {
        if body.len() >= 2 && needs_escape(body[1]) {
            match literal_value(body.subrange(2, body.len() as int)) {
                Some(rest) => Some(seq![body[1]] + rest),
                None => None,
            }
        } else {
            None
        }
    } else if body[0] == '\'' || body[0] == '\n' || body[0] == '\r' {
        None
    } else {
        match literal_value(body.drop_first()) {
            Some(rest) => Some(seq![body[0]] + rest),
            None => None,
        }
    }
}

/// Whether the text holds a line break, which no single-quoted literal may.
pub open spec fn has_line_break(s: Seq<char>) -> bool {
    exists|i: int| 0 <= i < s.len() && (s[i] == '\n' || s[i] == '\r')
}

/// Whether the JSON text is an array or an object.
pub open spec fn is_structured(json: Seq<char>) -> bool {
    json.len() > 0 && (json[0] == '{' || json[0] == '[')
}

/// Whether the JSON text is handed to `JSON.parse` rather than inlined.
pub open spec fn wraps(json: Seq<char>) -> bool {
    byte_len(json) >= MIN_JSON_PARSE_LEN || is_structured(json)
}

/// The argument of the callback: the text itself, or the `JSON.parse` call.
pub open spec fn callback_argument(json: Seq<char>) -> Seq<char> {
    if wraps(json) {
        json_parse_call(json)
    } else {
        json
    }
}

/// The script that calls the global function `name` with `arg` if the
/// function exists, and warns on the console if it does not.
pub open spec fn callback_script(name: Seq<char>, arg: Seq<char>) -> Seq<char> {
    "\n          if (window[\""@ + name + "\"]) {\n            window[\""@ + name + "\"]("@ + arg
        + ")\n          } else {\n            console.warn(\"[TAURI] Couldn't find callback id "@
        + name
        + " in window. This happens when the app is reloaded while Rust is running an asynchronous operation.\")\n          }\n        "@
}

/// A text takes at most four bytes for each of its characters.
pub proof fn lemma_byte_len_bound(s: Seq<char>)
    ensures
        byte_len(s) <= 4 * s.len(),
    decreases s.len(),
{
    if s.len() > 0 {
        lemma_byte_len_bound(s.drop_first());
    }
}

/// Escaping goes character by character.
pub proof fn lemma_escaped_push(s: Seq<char>, c: char)
    ensures
        escaped(s.push(c)) == escaped(s) + escape_char(c),
    decreases s.len(),
{
    if s.len() == 0 {
        assert(s.push(c).drop_first() =~= Seq::<char>::empty());
        assert(escaped(Seq::<char>::empty()) =~= Seq::<char>::empty());
        assert(escaped(s.push(c)) =~= escape_char(c) + Seq::<char>::empty());
        assert(escaped(s) + escape_char(c) =~= escape_char(c));
    } else {
        assert(s.push(c).drop_first() =~= s.drop_first().push(c));
        lemma_escaped_push(s.drop_first(), c);
        assert(escaped(s.push(c)) =~= escaped(s) + escape_char(c));
    }
}

/// Reading the escaped text back as a single-quoted literal gives the text
/// that was escaped, for every text without a line break.
pub proof fn lemma_escape_round_trip(s: Seq<char>)
    requires
        !has_line_break(s),
    ensures
        literal_value(escaped(s)) == Some(s),
    decreases s.len(),
{
    if s.len() == 0 {
    } else {
        let c = s[0];
        let tail = s.drop_first();
        assert(!has_line_break(tail)) by {
            if has_line_break(tail) {
                let i = choose|i: int| 0 <= i < tail.len() && (tail[i] == '\n' || tail[i] == '\r');
                assert(s[i + 1] == tail[i]);
            }
        }
        lemma_escape_round_trip(tail);
        let body = escaped(s);
        assert(body == escape_char(c) + escaped(tail));
        assert(c != '\n' && c != '\r') by {
            if c == '\n' || c == '\r' {
                assert(s[0] == c);
            }
        }
        if needs_escape(c) {
            assert(body[0] == '\\');
            assert(body[1] == c);
            assert(body.subrange(2, body.len() as int) =~= escaped(tail));
            assert(seq![c] + tail =~= s);
        } else {
            assert(body[0] == c);
            assert(body.drop_first() =~= escaped(tail));
            assert(seq![c] + tail =~= s);
        }
    }
}

/// Wraps a JSON text as `JSON.parse('...')`, with a backslash inserted before
/// every backslash and every single quote of the text.
pub fn escape_json_parse(json: &str) -> (out: String)
    ensures
        out@ == json_parse_call(json@),
{
    let chars = chars_of(json);
    let mut out = String::from_str("JSON.parse('");
    let mut i: usize = 0;
    assert(chars@.subrange(0, 0) =~= Seq::<char>::empty());
    assert(out@ =~= "JSON.parse('"@ + escaped(chars@.subrange(0, 0)));
    while i < chars.len()
        invariant
            i <= chars.len(),
            out@ == "JSON.parse('"@ + escaped(chars@.subrange(0, i as int)),
        decreases chars.len() - i,
    {
        let c = chars[i];
        if c == '\\' || c == '\'' {
            out.push('\\');
        }
        out.push(c);
        proof {
            lemma_escaped_push(chars@.subrange(0, i as int), c);
            assert(chars@.subrange(0, i as int).push(c) =~= chars@.subrange(0, i + 1));
            assert(out@ =~= "JSON.parse('"@ + escaped(chars@.subrange(0, i + 1)));
        }
        i += 1;
    }
    assert(chars@.subrange(0, i as int) =~= json@);
    out.append("')");
    out
}

/// Accepts a payload length that a script engine can hold as one string.
pub fn check_json_len(len: usize) -> (r: Result<(), Error>)
    ensures
        r is Ok <==> len < MAX_JSON_STR_LEN,
        r is Err ==> r->Err_0 == Error::PayloadTooLarge,
{
    if len < MAX_JSON_STR_LEN {
        Ok(())
    } else {
        Err(Error::PayloadTooLarge)
    }
}

/// The script around an argument that is already in its final form.
pub fn callback_script_for(function_name: &str, arg: &str) -> (script: String)
    ensures
        script@ == callback_script(function_name@, arg@),
{
    let mut script = String::from_str("\n          if (window[\"");
    script.append(function_name);
    script.append("\"]) {\n            window[\"");
    script.append(function_name);
    script.append("\"](");
    script.append(arg);
    script.append(
        ")\n          } else {\n            console.warn(\"[TAURI] Couldn't find callback id ",
    );
    script.append(function_name);
    script.append(
        " in window. This happens when the app is reloaded while Rust is running an asynchronous operation.\")\n          }\n        ",
    );
    script
}

/// Formats a function name and a serialized JSON value as a callback script.
///
/// Fails exactly when the text is `MAX_JSON_STR_LEN` bytes or longer.
/// Otherwise arrays, objects and texts of `MIN_JSON_PARSE_LEN` bytes or more
/// go through `JSON.parse('...')`, and every other value is inlined as it is.
pub fn format_callback(function_name: &str, json: &str) -> (r: Result<String, Error>)
    ensures
        r is Ok <==> byte_len(json@) < MAX_JSON_STR_LEN,
        r is Ok ==> r->Ok_0@ == callback_script(function_name@, callback_argument(json@)),
        r is Err ==> r->Err_0 == Error::PayloadTooLarge,
{
    let len = json.as_bytes().len();
    match check_json_len(len) {
        Err(e) => Err(e),
        Ok(_) => {
            let structured = starts_structured(json);
            if len >= MIN_JSON_PARSE_LEN || structured {
                let arg = escape_json_parse(json);
                Ok(callback_script_for(function_name, arg.as_str()))
            } else {
                Ok(callback_script_for(function_name, json))
            }
        },
    }
}

/// Whether the text opens an array or an object.
pub fn starts_structured(json: &str) -> (b: bool)
    ensures
        b == is_structured(json@),
{
    let mut it = json.chars();
    broadcast use vstd::string::group_string_axioms;
    match it.next() {
        Some(c) => c == '{' || c == '[',
        None => false,
    }
}

/// Formats the outcome of a command: the success callback with the `Ok`
/// value, or the error callback with the `Err` value. Both values are
/// serialized JSON.
pub fn format_callback_result(
    result: Result<&str, &str>,
    success_callback: &str,
    error_callback: &str,
) -> (r: Result<String, Error>)
    ensures
        r is Ok <==> byte_len(outcome_json(result)) < MAX_JSON_STR_LEN,
        r is Ok ==> r->Ok_0@ == callback_script(
            outcome_callback(result, success_callback@, error_callback@),
            callback_argument(outcome_json(result)),
        ),
        r is Err ==> r->Err_0 == Error::PayloadTooLarge,
{
    match result {
        Ok(res) => format_callback(success_callback, res),
        Err(err) => format_callback(error_callback, err),
    }
}

/// The JSON text that an outcome carries.
pub open spec fn outcome_json(result: Result<&str, &str>) -> Seq<char> {
    match result {
        Ok(res) => res@,
        Err(err) => err@,
    }
}

/// The callback that an outcome goes to.
pub open spec fn outcome_callback(
    result: Result<&str, &str>,
    success: Seq<char>,
    error: Seq<char>,
) -> Seq<char> {
    match result {
        Ok(_) => success,
        Err(_) => error,
    }
}

/// A text that is neither an array nor an object and is shorter than
/// `MIN_JSON_PARSE_LEN` bytes is inlined unchanged; an array or an object
/// always goes through `JSON.parse`.
pub proof fn lemma_wrapping_by_kind(json: Seq<char>)
    ensures
        !is_structured(json) && byte_len(json) < MIN_JSON_PARSE_LEN ==> callback_argument(json)
            == json,
        is_structured(json) ==> callback_argument(json) == json_parse_call(json),
{
}

/// The wrapping decision flips between one byte under `MIN_JSON_PARSE_LEN`
/// and `MIN_JSON_PARSE_LEN` itself.
pub proof fn lemma_wrapping_threshold(json: Seq<char>)
    requires
        !is_structured(json),
    ensures
        byte_len(json) == MIN_JSON_PARSE_LEN - 1 ==> callback_argument(json) == json,
        byte_len(json) == MIN_JSON_PARSE_LEN ==> callback_argument(json) == json_parse_call(json),
{
}

/// What is said through the error callback where an answer cannot be
/// formatted: a JSON string that tells why.
pub open spec fn failure_json(e: Error) -> Seq<char> {
    match e {
        Error::PayloadTooLarge => "\"payload too large\""@,
        Error::Json => "\"message cannot be written as JSON\""@,
        _ => "\"invalid configuration\""@,
    }
}

/// The script that goes out for an answer: the answer itself, or, where it
/// could not be formatted, the error callback with the reason. One script
/// either way.
pub open spec fn settled(answer: Result<Seq<char>, Error>, error_callback: Seq<char>) -> Seq<char> {
    match answer {
        Ok(script) => script,
        Err(e) => callback_script(error_callback, failure_json(e)),
    }
}

/// A short JSON string is inlined as it is.
pub proof fn lemma_short_string_is_inlined(json: Seq<char>)
    requires
        json.len() > 0,
        json[0] == '"',
        4 * json.len() < MIN_JSON_PARSE_LEN,
    ensures
        callback_argument(json) == json,
        byte_len(json) < MAX_JSON_STR_LEN,
{
    lemma_byte_len_bound(json);
}

/// The script that tells the error callback why an answer could not be
/// formatted.
pub fn failure_script(error_callback: &str, e: &Error) -> (script: String)
    ensures
        script@ == callback_script(error_callback@, failure_json(*e)),
{
    let json = match e {
        Error::PayloadTooLarge => "\"payload too large\"",
        Error::Json => "\"message cannot be written as JSON\"",
        _ => "\"invalid configuration\"",
    };
    proof {
        reveal_strlit("\"payload too large\"");
        reveal_strlit("\"message cannot be written as JSON\"");
        reveal_strlit("\"invalid configuration\"");
        lemma_short_string_is_inlined(json@);
    }
    callback_script_for(error_callback, json)
}

/// Settles an answer: hands the script on, or puts the failure script in
/// the place of one that could not be formatted.
pub fn settle(answer: Result<String, Error>, error_callback: &str) -> (script: String)
    ensures
        script@ == settled(
            match answer {
                Ok(s) => Ok(s@),
                Err(e) => Err(e),
            },
            error_callback@,
        ),
{
    match answer {
        Ok(script) => script,
        Err(e) => failure_script(error_callback, &e),
    }
}

/// Formats the outcome of a command as [`format_callback_result`] does, and
/// answers through the error callback where the outcome is too large to be
/// formatted, so that one script goes out whatever the outcome is.
pub fn answer_script(result: Result<&str, &str>, success_callback: &str, error_callback: &str) -> (script:
    String)
    ensures
        script@ == (if byte_len(outcome_json(result)) < MAX_JSON_STR_LEN {
            callback_script(
                outcome_callback(result, success_callback@, error_callback@),
                callback_argument(outcome_json(result)),
            )
        } else {
            callback_script(error_callback@, failure_json(Error::PayloadTooLarge))
        }),
{
    settle(format_callback_result(result, success_callback, error_callback), error_callback)
}

} // verus!
