//! Rendering a request summary as its JSON response body: four fields in
//! fixed order, `null` for the absent optional ones, strings escaped.

use vstd::prelude::*;

use crate::address::hex_char_of;
use crate::summary::RequestSummary;

verus! {

/// JSON escaping of one character: a quote or backslash gets a backslash,
/// a control character becomes a `\u00XX` escape, anything else stands.
pub open spec fn spec_escaped_char(c: char) -> Seq<char> {
    if c == '"' {
        seq!['\\', '"']
    } else if c == '\\' {
        seq!['\\', '\\']
    } else if (c as int) < 32 {
        seq!['\\', 'u', '0', '0', hex_char_of(c as int / 16), hex_char_of(c as int % 16)]
    } else {
        seq![c]
    }
}

/// JSON escaping of a whole string.
pub open spec fn spec_escaped(s: Seq<char>) -> Seq<char>
    decreases s.len(),
{
    if s.len() == 0 {
        Seq::empty()
    } else {
        spec_escaped_char(s[0]) + spec_escaped(s.skip(1))
    }
}

/// A JSON string literal: the escaped text in quotes.
pub open spec fn spec_json_string(s: Seq<char>) -> Seq<char> {
    seq!['"'] + spec_escaped(s) + seq!['"']
}

/// An optional string field: a JSON string when present, `null` otherwise.
pub open spec fn spec_json_opt_string(o: Option<String>) -> Seq<char> {
    match o {
        Option::Some(p) => spec_json_string(p@),
        Option::None => "null"@,
    }
}

/// An optional boolean field: `true` or `false` when present, `null` otherwise.
pub open spec fn spec_json_opt_bool(o: Option<bool>) -> Seq<char> {
    match o {
        Option::Some(true) => "true"@,
        Option::Some(false) => "false"@,
        Option::None => "null"@,
    }
}

/// The JSON body of a response: the summary's four fields, in the order
/// they are declared, with `null` for the absent optional ones.
pub open spec fn spec_json_summary(s: RequestSummary) -> Seq<char> {
    "{\"request_address\":"@ + spec_json_string(s.request_address@) + ",\"parsed_address\":"@
        + spec_json_opt_string(s.parsed_address) + ",\"is_allowed\":"@ + spec_json_opt_bool(
        s.is_allowed,
    ) + ",\"message\":"@ + spec_json_string(s.message@) + "}"@
}

/// Escaping a string one character longer appends that character's escape.
proof fn lemma_escaped_push(t: Seq<char>, c: char)
    ensures
        spec_escaped(t.push(c)) == spec_escaped(t) + spec_escaped_char(c),
    decreases t.len(),
{
    let u = t.push(c);
    assert(u.len() == t.len() + 1);
    if t.len() == 0 {
        assert(u[0] == c);
        assert(u.skip(1) =~= Seq::<char>::empty());
        assert(spec_escaped(u) == spec_escaped_char(c) + spec_escaped(Seq::<char>::empty()));
        assert(spec_escaped(u) =~= spec_escaped_char(c));
        assert(spec_escaped(t) =~= Seq::<char>::empty());
        assert(spec_escaped(t) + spec_escaped_char(c) =~= spec_escaped_char(c));
    } else {
        assert(u[0] == t[0]);
        assert(u.skip(1) =~= t.skip(1).push(c));
        lemma_escaped_push(t.skip(1), c);
        assert(spec_escaped(u) == spec_escaped_char(t[0]) + spec_escaped(u.skip(1)));
        assert(spec_escaped(u.skip(1)) == spec_escaped(t.skip(1)) + spec_escaped_char(c));
        assert(spec_escaped(t) == spec_escaped_char(t[0]) + spec_escaped(t.skip(1)));
        assert(spec_escaped(u) =~= spec_escaped(t) + spec_escaped_char(c));
    }
}

/// Relies on `String::push` of std: it appends exactly the one given
/// character to the end of the string.
#[verifier::external_body]
fn push_char(out: &mut String, c: char)
    ensures
        final(out)@ == old(out)@ + seq![c],
{
    out.push(c);
}

/// Append the JSON escaping of `s`.
fn append_escaped(out: &mut String, s: &str)
    ensures
        final(out)@ == old(out)@ + spec_escaped(s@),
{
    let n = s.unicode_len();
    let mut k: usize = 0;
    while k < n
        invariant
            k <= n,
            n == s@.len(),
            out@ == old(out)@ + spec_escaped(s@.subrange(0, k as int)),
        decreases n - k,
    {
        let c = s.get_char(k);
        if c == '"' {
            out.append("\\\"");
            proof {
                reveal_strlit("\\\"");
                assert("\\\""@ =~= seq!['\\', '"']);
            }
        } else if c == '\\' {
            out.append("\\\\");
            proof {
                reveal_strlit("\\\\");
                assert("\\\\"@ =~= seq!['\\', '\\']);
            }
        } else if (c as u32) < 32 {
            let x = c as u32;
            out.append("\\u00");
            out.append(crate::address::hex_char_str((x / 16) as u8));
            out.append(crate::address::hex_char_str((x % 16) as u8));
            proof {
                reveal_strlit("\\u00");
                assert("\\u00"@ =~= seq!['\\', 'u', '0', '0']);
                assert(seq!['\\', 'u', '0', '0'] + seq![hex_char_of(c as int / 16)] + seq![
                    hex_char_of(c as int % 16),
                ] =~= spec_escaped_char(c));
            }
        } else {
            push_char(out, c);
            proof {
                assert(seq![c] =~= spec_escaped_char(c));
            }
        }
        proof {
            assert(s@.subrange(0, k + 1) =~= s@.subrange(0, k as int).push(s@[k as int]));
            lemma_escaped_push(s@.subrange(0, k as int), s@[k as int]);
            assert(out@ =~= old(out)@ + spec_escaped(s@.subrange(0, k + 1)));
        }
        k += 1;
    }
    proof {
        assert(s@.subrange(0, n as int) =~= s@);
    }
}

/// Append a JSON string literal: the escaped text in quotes.
fn append_json_string(out: &mut String, s: &str)
    ensures
        final(out)@ == old(out)@ + spec_json_string(s@),
{
    out.append("\"");
    append_escaped(out, s);
    out.append("\"");
    proof {
        reveal_strlit("\"");
        assert("\""@ =~= seq!['"']);
        assert(final(out)@ =~= old(out)@ + spec_json_string(s@));
    }
}

/// Render the JSON response body for a summary.
pub fn render_summary(s: &RequestSummary) -> (r: String)
    ensures
        r@ == spec_json_summary(*s),
{
    let mut r = String::from_str("{\"request_address\":");
    append_json_string(&mut r, s.request_address.as_str());
    r.append(",\"parsed_address\":");
    match &s.parsed_address {
        Option::Some(p) => append_json_string(&mut r, p.as_str()),
        Option::None => r.append("null"),
    }
    r.append(",\"is_allowed\":");
    match s.is_allowed {
        Option::Some(true) => r.append("true"),
        Option::Some(false) => r.append("false"),
        Option::None => r.append("null"),
    }
    r.append(",\"message\":");
    append_json_string(&mut r, s.message.as_str());
    r.append("}");
    proof {
        assert(r@ =~= spec_json_summary(*s));
    }
    r
}

} // verus!
