//! Framing for the local inference endpoint: building the request body and
//! reading the response body. The HTTP transport itself lives outside the
//! library; only its outcome is handed in.

use vstd::prelude::*;

use crate::numfmt::digit_char;

verus! {

/// The lowercase hexadecimal character for one digit.
pub open spec fn hex_digit(d: nat) -> char {
    if d < 10 {
        digit_char(d)
    } else if d == 10 {
        'a'
    } else if d == 11 {
        'b'
    } else if d == 12 {
        'c'
    } else if d == 13 {
        'd'
    } else if d == 14 {
        'e'
    } else {
        'f'
    }
}

/// How one character is written inside a JSON string literal: quote and
/// backslash get a two-character escape, the common control characters get
/// their short escapes, the remaining control characters a `\u00..` escape,
/// and every other character stands as itself.
pub open spec fn json_escape_char(c: char) -> Seq<char> {
    if c == '"' {
        seq!['\\', '"']
    } else if c == '\\' {
        seq!['\\', '\\']
    } else if c == '\u{08}' {
        seq!['\\', 'b']
    } else if c == '\t' {
        seq!['\\', 't']
    } else if c == '\n' {
        seq!['\\', 'n']
    } else if c == '\u{0C}' {
        seq!['\\', 'f']
    } else if c == '\r' {
        seq!['\\', 'r']
    } else if (c as u32) < 32 {
        seq!['\\', 'u', '0', '0', hex_digit(((c as u32) / 16) as nat), hex_digit(
            ((c as u32) % 16) as nat,
        )]
    } else {
        seq![c]
    }
}

/// A whole text escaped for use inside a JSON string literal.
pub open spec fn json_escape(s: Seq<char>) -> Seq<char>
    decreases s.len(),
{
    if s.len() == 0 {
        Seq::empty()
    } else {
        json_escape_char(s[0]) + json_escape(s.drop_first())
    }
}

/// Escaping a text one character longer appends that character's escape.
pub proof fn lemma_json_escape_push(s: Seq<char>, c: char)
    ensures
        json_escape(s.push(c)) == json_escape(s) + json_escape_char(c),
    decreases s.len(),
{
    if s.len() == 0 {
        assert(s.push(c)[0] == c);
        assert(s.push(c).drop_first() =~= s);
        assert(json_escape(s.push(c)) =~= json_escape(s) + json_escape_char(c));
    } else {
        assert(s.push(c)[0] == s[0]);
        assert(s.push(c).drop_first() =~= s.drop_first().push(c));
        lemma_json_escape_push(s.drop_first(), c);
        assert(json_escape(s.push(c)) =~= json_escape(s) + json_escape_char(c));
    }
}

fn hex_digit_str(d: u32) -> (s: &'static str)
    requires
        d < 16,
    ensures
        s@ == seq![hex_digit(d as nat)],
{
    let s: &'static str = match d {
        0 => "0",
        1 => "1",
        2 => "2",
        3 => "3",
        4 => "4",
        5 => "5",
        6 => "6",
        7 => "7",
        8 => "8",
        9 => "9",
        10 => "a",
        11 => "b",
        12 => "c",
        13 => "d",
        14 => "e",
        _ => "f",
    };
    proof {
        reveal_strlit("0");
        reveal_strlit("1");
        reveal_strlit("2");
        reveal_strlit("3");
        reveal_strlit("4");
        reveal_strlit("5");
        reveal_strlit("6");
        reveal_strlit("7");
        reveal_strlit("8");
        reveal_strlit("9");
        reveal_strlit("a");
        reveal_strlit("b");
        reveal_strlit("c");
        reveal_strlit("d");
        reveal_strlit("e");
        reveal_strlit("f");
        assert(s@ =~= seq![hex_digit(d as nat)]);
    }
    s
}

/// Relies on String::push: appends exactly the one character.
#[verifier::external_body]
fn push_char(s: &mut String, c: char)
    ensures
        final(s)@ == old(s)@.push(c),
{
    s.push(c);
}

fn append_escaped(out: &mut String, c: char)
    ensures
        final(out)@ == old(out)@ + json_escape_char(c),
{
    let code = c as u32;
    if c == '"' {
        out.append("\\\"");
        proof {
            reveal_strlit("\\\"");
            assert(final(out)@ =~= old(out)@ + json_escape_char(c));
        }
    } else if c == '\\' {
        out.append("\\\\");
        proof {
            reveal_strlit("\\\\");
            assert(final(out)@ =~= old(out)@ + json_escape_char(c));
        }
    } else if code == 8 {
        out.append("\\b");
        proof {
            reveal_strlit("\\b");
            assert(final(out)@ =~= old(out)@ + json_escape_char(c));
        }
    } else if c == '\t' {
        out.append("\\t");
        proof {
            reveal_strlit("\\t");
            assert(final(out)@ =~= old(out)@ + json_escape_char(c));
        }
    } else if c == '\n' {
        out.append("\\n");
        proof {
            reveal_strlit("\\n");
            assert(final(out)@ =~= old(out)@ + json_escape_char(c));
        }
    } else if code == 12 {
        out.append("\\f");
        proof {
            reveal_strlit("\\f");
            assert(final(out)@ =~= old(out)@ + json_escape_char(c));
        }
    } else if c == '\r' {
        out.append("\\r");
        proof {
            reveal_strlit("\\r");
            assert(final(out)@ =~= old(out)@ + json_escape_char(c));
        }
    } else if code < 32 {
        out.append("\\u00");
        out.append(hex_digit_str(code / 16));
        out.append(hex_digit_str(code % 16));
        proof {
            reveal_strlit("\\u00");
            assert(final(out)@ =~= old(out)@ + json_escape_char(c));
        }
    } else {
        push_char(out, c);
        proof {
            assert(final(out)@ =~= old(out)@ + json_escape_char(c));
        }
    }
}

/// Escapes a text for use inside a JSON string literal, character by
/// character, exactly as `json_escape` describes.
pub fn escape_json(s: &str) -> (out: String)
    ensures
        out@ == json_escape(s@),
{
    let n = s.unicode_len();
    let mut out = String::new();
    let mut i: usize = 0;
    while i < n
        invariant
            n == s@.len(),
            i <= n,
            out@ == json_escape(s@.take(i as int)),
        decreases n - i,
    {
        let c = s.get_char(i);
        append_escaped(&mut out, c);
        proof {
            assert(s@.take(i + 1 as int) =~= s@.take(i as int).push(s@[i as int]));
            lemma_json_escape_push(s@.take(i as int), s@[i as int]);
        }
        i += 1;
    }
    proof {
        assert(s@.take(n as int) =~= s@);
    }
    out
}

/// The JSON body POSTed to the inference endpoint for a given prompt: a
/// fixed model identifier, the escaped prompt, and streaming switched off.
pub open spec fn spec_request_body(prompt: Seq<char>) -> Seq<char> {
    "{\"model\":\"deepseek-coder-v2:16b\",\"prompt\":\""@ + json_escape(prompt)
        + "\",\"stream\":false}"@
}

/// Builds the request body for one prompt, exactly as `spec_request_body`
/// describes it.
pub fn build_inference_request(prompt: &str) -> (body: String)
    ensures
        body@ == spec_request_body(prompt@),
{
    let mut body = String::from_str("{\"model\":\"deepseek-coder-v2:16b\",\"prompt\":\"");
    let escaped = escape_json(prompt);
    body.append(escaped.as_str());
    body.append("\",\"stream\":false}");
    proof {
        assert(body@ =~= spec_request_body(prompt@));
    }
    body
}

/// The address of the local inference endpoint.
pub fn inference_endpoint() -> (s: String)
    ensures
        s@ == "http://localhost:11434/api/generate"@,
{
    String::from_str("http://localhost:11434/api/generate")
}

/// The string field named "response" of a JSON object text, if the text is
/// valid JSON and carries one; what it is depends on the text alone.
pub uninterp spec fn response_field(s: Seq<char>) -> Option<Seq<char>>;

/// Relies on serde_json::from_str (read into a serde_json::Value),
/// serde_json::Value::get and serde_json::Value::as_str: whether a text
/// parses as JSON whose "response" field is a string, and what that string
/// is, depend on the text alone.
#[verifier::external_body]
fn extract_response(body: &str) -> (r: Option<String>)
    ensures
        match r {
            Some(s) => response_field(body@) == Some(s@),
            None => response_field(body@) is None,
        },
{
    let v: serde_json::Value = match serde_json::from_str(body) {
        Ok(v) => v,
        Err(_) => return None,
    };
    match v.get("response") {
        Some(f) => f.as_str().map(|s| s.to_string()),
        None => None,
    }
}

/// Reads one inference response body: the "response" string field on
/// success, the fixed error text when the body does not carry one. No
/// partial result leaves this function on the error path.
pub fn parse_inference_response(body: &str) -> (r: Result<String, String>)
    ensures
        match response_field(body@) {
            Some(f) => r matches Ok(s) && s@ == f,
            None => r matches Err(m) && m@ == "invalid inference response"@,
        },
{
    match extract_response(body) {
        Some(s) => Ok(s),
        None => Err(String::from_str("invalid inference response")),
    }
}

/// The decision after the transport step of one inference query: a
/// transport error is surfaced verbatim, and a delivered body is read for
/// its "response" field.
pub fn inference_outcome(transport: Result<String, String>) -> (r: Result<String, String>)
    ensures
        match transport {
            Err(e) => r matches Err(m) && m@ == e@,
            Ok(body) => match response_field(body@) {
                Some(f) => r matches Ok(s) && s@ == f,
                None => r matches Err(m) && m@ == "invalid inference response"@,
            },
        },
{
    match transport {
        Ok(body) => parse_inference_response(body.as_str()),
        Err(e) => Err(e),
    }
}

} // verus!
