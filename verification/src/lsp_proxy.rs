//! Decisions of the LSP proxy: its identifier and the rewrite of the
//! server's `initialize` response.

use vstd::prelude::*;
use crate::text::push_char;
use vstd::utf8::{encode_utf8, is_ascii_chars, is_ascii_chars_encode_utf8};

verus! {

/// Lower-case hexadecimal digit of a value below 16.
pub open spec fn hex_lower(n: u8) -> char {
    if n < 10 {
        (48 + n) as char
    } else {
        (87 + n) as char
    }
}

/// Two lower-case hexadecimal digits per byte.
pub open spec fn spec_hex(bytes: Seq<u8>) -> Seq<char>
    decreases bytes.len(),
{
    if bytes.len() == 0 {
        Seq::empty()
    } else {
        spec_hex(bytes.drop_last()) + seq![hex_lower(bytes.last() / 16), hex_lower(bytes.last() % 16)]
    }
}

fn hex_digit(n: u8) -> (r: char)
    requires
        n < 16,
    ensures
        r == hex_lower(n),
{
    if n < 10 {
        (n + 48) as char
    } else {
        (n + 87) as char
    }
}

/// The UTF-8 bytes of `s` in lower-case hexadecimal.
pub fn hex_encode(s: &str) -> (r: String)
    ensures
        r@ == spec_hex(encode_utf8(s@)),
{
    let bytes = s.as_bytes();
    let ghost bs = encode_utf8(s@);
    let mut out = String::new();
    let mut i: usize = 0;
    while i < bytes.len()
        invariant
            i <= bytes@.len(),
            bytes@ == bs,
            out@ == spec_hex(bs.subrange(0, i as int)),
        decreases bytes.len() - i,
    {
        assert(bs.subrange(0, i + 1).drop_last() =~= bs.subrange(0, i as int));
        let b = bytes[i];
        push_char(&mut out, hex_digit(b / 16));
        push_char(&mut out, hex_digit(b % 16));
        i = i + 1;
        assert(out@ =~= spec_hex(bs.subrange(0, i as int)));
    }
    assert(bs.subrange(0, bs.len() as int) =~= bs);
    out
}

/// What `serde_json` gives for a JSON text and a JSON pointer: `None` when
/// the text does not parse or the pointer addresses nothing, else `as_bool`
/// of the addressed value.
pub uninterp spec fn json_bool_at_name(body: Seq<char>, pointer: Seq<char>) -> Option<Option<bool>>;

/// What `serde_json` gives for a JSON text with the value at a JSON pointer
/// replaced by another JSON text, serialized again: `None` when either text
/// does not parse or the pointer addresses nothing.
pub uninterp spec fn json_replaced_text(body: Seq<char>, pointer: Seq<char>, replacement: Seq<char>) -> Option<Seq<char>>;

/// That JSON pointer `q` names the value at `pointer` or one inside it, for
/// pointers written without `~` escapes.
pub open spec fn at_or_under(pointer: Seq<char>, q: Seq<char>) -> bool {
    q == pointer || pointer.push('/').is_prefix_of(q)
}

/// Calls `serde_json::from_str`, `Value::pointer` and `Value::as_bool`; the
/// result depends on the two texts alone.
#[verifier::external_body]
fn json_bool_at(body: &str, pointer: &str) -> (r: Option<Option<bool>>)
    ensures
        r == json_bool_at_name(body@, pointer@),
{
    match serde_json::from_str::<serde_json::Value>(body) {
        Ok(v) => match v.pointer(pointer) {
            Some(x) => Some(x.as_bool()),
            None => None,
        },
        Err(_) => None,
    }
}

/// Calls `serde_json::from_str` on both texts, `Value::pointer_mut`, and
/// `serde_json::to_string`; the result depends on the three texts alone. The
/// contract also states what the crate's source shows: `pointer` and
/// `pointer_mut` walk the same way (the empty pointer addresses the whole
/// document) and a `Value` always serializes, so a text comes back exactly
/// when the body has the member and the replacement parses; and reading the
/// member of the text that comes back, when that succeeds, reads the
/// replacement, which is an object (never `true`) when its text starts with `{`;
/// and every other pointer, both written without `~`, reads the same boolean
/// as in the body: its walk takes the same keys and indices (`parse_index`
/// takes only canonical numbers), the containers on the way stay containers,
/// and a boolean serializes and parses back as itself.
/// Left unsaid: reading the returned text may fail where parsing nests too
/// deep; and values other than booleans are not compared (without the
/// `float_roundtrip` feature a number need not read back bit for bit).
#[verifier::external_body]
fn json_replace_at(body: &str, pointer: &str, replacement: &str) -> (r: Option<String>)
    ensures
        r matches Some(t) ==> json_replaced_text(body@, pointer@, replacement@) == Some(t@),
        r is None ==> json_replaced_text(body@, pointer@, replacement@) is None,
        r is Some <==> (json_bool_at_name(body@, pointer@) is Some && json_bool_at_name(
            replacement@,
            Seq::empty(),
        ) is Some),
        r matches Some(t) ==> (json_bool_at_name(t@, pointer@) is Some ==> json_bool_at_name(
            t@,
            pointer@,
        ) == json_bool_at_name(replacement@, Seq::empty())),
        r matches Some(t) ==> (replacement@.len() > 0 && replacement@[0] == '{'
            ==> json_bool_at_name(t@, pointer@) != Some(Some(true))),
        r matches Some(t) ==> forall|q: Seq<char>|
            !pointer@.contains('~') && !q.contains('~') && !at_or_under(pointer@, q)
                && #[trigger] json_bool_at_name(t@, q) is Some
                ==> json_bool_at_name(t@, q) == json_bool_at_name(body@, q),
{
    let mut v: serde_json::Value = match serde_json::from_str(body) {
        Ok(v) => v,
        Err(_) => return None,
    };
    let new: serde_json::Value = match serde_json::from_str(replacement) {
        Ok(n) => n,
        Err(_) => return None,
    };
    match v.pointer_mut(pointer) {
        Some(slot) => *slot = new,
        None => return None,
    }
    serde_json::to_string(&v).ok()
}

/// Where the server announces its code-lens support.
pub open spec fn code_lens_pointer() -> Seq<char> {
    "/result/capabilities/codeLensProvider"@
}

/// What that announcement becomes: code lenses that can be resolved.
pub open spec fn code_lens_replacement() -> Seq<char> {
    "{\"resolveProvider\":true}"@
}

/// The rewritten `initialize` response, given what the two `serde_json`
/// readings of it give: present exactly when `codeLensProvider` is `true`.
pub open spec fn spec_patch_code_lens_body(
    flag: Option<Option<bool>>,
    resolved: Option<Seq<char>>,
) -> Option<Seq<char>> {
    if flag == Some(Some(true)) {
        resolved
    } else {
        None
    }
}

/// Decides the rewrite from the flag and the rewritten text.
pub fn code_lens_patch(flag: Option<Option<bool>>, resolved: Option<String>) -> (r: Option<String>)
    ensures
        r matches Some(t) ==> spec_patch_code_lens_body(
            flag,
            match resolved {
                Some(x) => Some(x@),
                None => None,
            },
        ) == Some(t@),
        r is None ==> spec_patch_code_lens_body(
            flag,
            match resolved {
                Some(x) => Some(x@),
                None => None,
            },
        ) is None,
{
    match flag {
        Some(Some(true)) => resolved,
        _ => None,
    }
}

/// Rewrites `"codeLensProvider": true` in an `initialize` response into
/// `{"resolveProvider": true}`; `None` when the response is not JSON or the
/// provider is missing or not `true`. A rewritten response is left alone by
/// a second rewrite, and every boolean elsewhere in it (at a pointer written
/// without `~`) reads as in the response that came in.
pub fn patch_code_lens_body(body_json: &str) -> (r: Option<String>)
    ensures
        r matches Some(t) ==> spec_patch_code_lens_body(
            json_bool_at_name(body_json@, code_lens_pointer()),
            json_replaced_text(body_json@, code_lens_pointer(), code_lens_replacement()),
        ) == Some(t@),
        r is None ==> spec_patch_code_lens_body(
            json_bool_at_name(body_json@, code_lens_pointer()),
            json_replaced_text(body_json@, code_lens_pointer(), code_lens_replacement()),
        ) is None,
        json_bool_at_name(body_json@, code_lens_pointer()) == Some(Some(true)) && json_bool_at_name(
            code_lens_replacement(),
            Seq::empty(),
        ) is Some ==> r is Some,
        r matches Some(t) ==> spec_patch_code_lens_body(
            json_bool_at_name(t@, code_lens_pointer()),
            json_replaced_text(t@, code_lens_pointer(), code_lens_replacement()),
        ) is None,
        r matches Some(t) ==> forall|q: Seq<char>|
            !q.contains('~') && !at_or_under(code_lens_pointer(), q)
                && #[trigger] json_bool_at_name(t@, q) is Some
                ==> json_bool_at_name(t@, q) == json_bool_at_name(body_json@, q),
{
    let pointer = "/result/capabilities/codeLensProvider";
    let replacement = "{\"resolveProvider\":true}";
    let flag = json_bool_at(body_json, pointer);
    let resolved = match flag {
        Some(Some(true)) => json_replace_at(body_json, pointer, replacement),
        _ => None,
    };
    proof {
        reveal_strlit("/result/capabilities/codeLensProvider");
        assert(!code_lens_pointer().contains('~'));
        reveal_strlit("{\"resolveProvider\":true}");
    }
    code_lens_patch(flag, resolved)
}

/// A lower-case hexadecimal digit.
pub open spec fn is_lower_hex_digit(c: char) -> bool {
    ('0' <= c <= '9') || ('a' <= c <= 'f')
}

/// The value of a lower-case hexadecimal digit.
pub open spec fn hex_digit_value(c: char) -> int {
    if (c as u32) <= 57 {
        c as u32 - 48
    } else {
        c as u32 - 87
    }
}

proof fn lemma_hex_lower(n: u8)
    requires
        n < 16,
    ensures
        is_lower_hex_digit(hex_lower(n)),
        hex_digit_value(hex_lower(n)) == n,
{
}

/// Hexadecimal text is two lower-case digits per byte, one byte of UTF-8 per
/// digit, and each pair of digits reads back as its byte.
pub proof fn law_hex_encoding(bytes: Seq<u8>)
    ensures
        spec_hex(bytes).len() == 2 * bytes.len(),
        encode_utf8(spec_hex(bytes)).len() == spec_hex(bytes).len(),
        forall|i: int| 0 <= i < spec_hex(bytes).len() ==> is_lower_hex_digit(#[trigger] spec_hex(bytes)[i]),
        forall|i: int|
            0 <= i < bytes.len() ==> hex_digit_value(#[trigger] spec_hex(bytes)[2 * i]) * 16
                + hex_digit_value(spec_hex(bytes)[2 * i + 1]) == bytes[i],
    decreases bytes.len(),
{
    let h = spec_hex(bytes);
    if bytes.len() > 0 {
        let d = bytes.drop_last();
        law_hex_encoding(d);
        let b = bytes.last();
        lemma_hex_lower(b / 16);
        lemma_hex_lower(b % 16);
        let hd = spec_hex(d);
        assert(h == hd + seq![hex_lower(b / 16), hex_lower(b % 16)]);
        assert forall|i: int| 0 <= i < h.len() implies is_lower_hex_digit(#[trigger] h[i]) by {
            if i < hd.len() {
                assert(h[i] == hd[i]);
            }
        }
        assert forall|i: int| 0 <= i < bytes.len() implies hex_digit_value(#[trigger] h[2 * i]) * 16
            + hex_digit_value(h[2 * i + 1]) == bytes[i] by {
            if i < d.len() {
                assert(h[2 * i] == hd[2 * i]);
                assert(h[2 * i + 1] == hd[2 * i + 1]);
                assert(bytes[i] == d[i]);
            } else {
                assert(h[2 * i] == hex_lower(b / 16));
                assert(h[2 * i + 1] == hex_lower(b % 16));
            }
        }
    }
    assert(is_ascii_chars(h)) by {
        assert forall|i: int| 0 <= i < h.len() implies '\0' <= #[trigger] h[i] <= '\u{7f}' by {
            assert(is_lower_hex_digit(h[i]));
        }
    }
    is_ascii_chars_encode_utf8(h);
}

/// What the proxy does with one message from the language server.
pub enum RelayAction {
    /// Pass the message to the editor as it came.
    ForwardRaw,
    /// Hand the response to the extension request waiting for its id.
    RouteToPending,
    /// Pass this rewritten `initialize` response to the editor instead.
    WritePatched(String),
}

/// The value of a relay action.
pub enum RelayActionView {
    ForwardRaw,
    RouteToPending,
    WritePatched(Seq<char>),
}

impl View for RelayAction {
    type V = RelayActionView;

    open spec fn view(&self) -> RelayActionView {
        match self {
            RelayAction::ForwardRaw => RelayActionView::ForwardRaw,
            RelayAction::RouteToPending => RelayActionView::RouteToPending,
            RelayAction::WritePatched(t) => RelayActionView::WritePatched(t@),
        }
    }
}

/// The rewrite of a response body, as `patch_code_lens_body` gives it.
pub open spec fn spec_patched_body(body: Seq<char>) -> Option<Seq<char>> {
    spec_patch_code_lens_body(
        json_bool_at_name(body, code_lens_pointer()),
        json_replaced_text(body, code_lens_pointer(), code_lens_replacement()),
    )
}

/// The proxy's decision for a message from the server, and whether the
/// `initialize` response has been handled afterwards. Messages without an
/// id, or that are not JSON, pass through; a response a waiting request
/// asked for goes to it; the first other response with a result is the
/// `initialize` response, rewritten when its body allows, and handled either
/// way; everything else passes through.
pub open spec fn spec_relay_step(
    patched_init: bool,
    has_id: bool,
    parsed: bool,
    pending: bool,
    has_result: bool,
    body: Option<Seq<char>>,
) -> (bool, RelayActionView) {
    if !has_id || !parsed {
        (patched_init, RelayActionView::ForwardRaw)
    } else if pending {
        (patched_init, RelayActionView::RouteToPending)
    } else if !patched_init && has_result {
        match body {
            Some(b) => match spec_patched_body(b) {
                Some(t) => (true, RelayActionView::WritePatched(t)),
                None => (true, RelayActionView::ForwardRaw),
            },
            None => (true, RelayActionView::ForwardRaw),
        }
    } else {
        (patched_init, RelayActionView::ForwardRaw)
    }
}

/// Decides what the proxy does with one message from the server.
/// `patched_init` tells whether the `initialize` response was handled,
/// `has_id` whether the message carries an id, `parsed` whether it is JSON,
/// `pending` whether a waiting extension request has that id, `has_result`
/// whether it carries a result, and `body` is its text when that is UTF-8.
pub fn relay_step(
    patched_init: bool,
    has_id: bool,
    parsed: bool,
    pending: bool,
    has_result: bool,
    body: Option<&str>,
) -> (r: (bool, RelayAction))
    ensures
        (r.0, r.1@) == spec_relay_step(
            patched_init,
            has_id,
            parsed,
            pending,
            has_result,
            match body {
                Some(b) => Some(b@),
                None => None,
            },
        ),
{
    if !has_id || !parsed {
        (patched_init, RelayAction::ForwardRaw)
    } else if pending {
        (patched_init, RelayAction::RouteToPending)
    } else if !patched_init && has_result {
        match body {
            Some(b) => match patch_code_lens_body(b) {
                Some(t) => (true, RelayAction::WritePatched(t)),
                None => (true, RelayAction::ForwardRaw),
            },
            None => (true, RelayAction::ForwardRaw),
        }
    } else {
        (patched_init, RelayAction::ForwardRaw)
    }
}

} // verus!
