//! Platform helpers: host detection, binary names, separators, home
//! expansion and file URIs.

use vstd::prelude::*;
use crate::text::{
    contains_exec, contains_seq, chars_eq, extend_chars, replace_char_by_seq, rfind, rfind_exec,
    last_index_before, str_chars, str_is, string_from_chars, split, split_chars, char_views,
    push_char,
};
use vstd::utf8::{encode_utf8, is_ascii_chars, is_ascii_chars_encode_utf8, is_ascii_chars_nat_bound};

verus! {

/// The operating systems the extension host reports.
#[derive(Clone, Copy, Debug, PartialEq, Eq, Structural)]
pub enum Os {
    Mac,
    Linux,
    Windows,
}

/// The processor architectures the extension host reports.
#[derive(Clone, Copy, Debug, PartialEq, Eq, Structural)]
pub enum Architecture {
    Aarch64,
    X86,
    X8664,
}

/// The first value bound to `key` in an environment.
pub open spec fn env_lookup(env: Seq<(String, String)>, key: Seq<char>) -> Option<Seq<char>>
    decreases env.len(),
{
    if env.len() == 0 {
        None
    } else if env[0].0@ == key {
        Some(env[0].1@)
    } else {
        env_lookup(env.drop_first(), key)
    }
}

/// An environment marks a Windows host when some `OS` variable mentions `Windows`.
pub open spec fn spec_is_windows(env: Seq<(String, String)>) -> bool {
    exists|i: int| 0 <= i < env.len() && env[i].0@ == "OS"@ && contains_seq(env[i].1@, "Windows"@)
}

/// Detects a Windows host from its environment variables.
pub fn is_windows(env: &[(String, String)]) -> (r: bool)
    ensures
        r == spec_is_windows(env@),
{
    let os_key = str_chars("OS");
    let windows = str_chars("Windows");
    let mut i: usize = 0;
    while i < env.len()
        invariant
            i <= env@.len(),
            os_key@ == "OS"@,
            windows@ == "Windows"@,
            forall|m: int|
                0 <= m < i ==> !(env@[m].0@ == "OS"@ && contains_seq(env@[m].1@, "Windows"@)),
        decreases env.len() - i,
    {
        let k = str_chars(env[i].0.as_str());
        if chars_eq(&k, &os_key) {
            let v = str_chars(env[i].1.as_str());
            if contains_exec(&v, &windows) {
                return true;
            }
        }
        i = i + 1;
    }
    false
}

/// The file name of the language server binary.
pub open spec fn spec_server_name(is_windows: bool) -> Seq<char> {
    if is_windows {
        "LSPServer.exe"@
    } else {
        "LSPServer"@
    }
}

/// The file name of the language server binary on the given host.
pub fn server_name(is_windows: bool) -> (r: &'static str)
    ensures
        r@ == spec_server_name(is_windows),
{
    if is_windows {
        "LSPServer.exe"
    } else {
        "LSPServer"
    }
}

/// The path separator of the given host.
pub open spec fn spec_path_sep(is_windows: bool) -> char {
    if is_windows {
        '\\'
    } else {
        '/'
    }
}

/// The path separator of the given host.
pub fn path_sep(is_windows: bool) -> (r: char)
    ensures
        r == spec_path_sep(is_windows),
{
    if is_windows {
        '\\'
    } else {
        '/'
    }
}

/// Index of the separator that ends the directory part of `path`.
pub open spec fn dir_split_index(path: Seq<char>, is_windows: bool) -> Option<int> {
    if is_windows {
        match rfind(path, '\\') {
            Some(i) => Some(i),
            None => rfind(path, '/'),
        }
    } else {
        rfind(path, '/')
    }
}

/// The directory part of `path`, or `.` when it has none.
pub open spec fn spec_parent_dir(path: Seq<char>, is_windows: bool) -> Seq<char> {
    match dir_split_index(path, is_windows) {
        Some(i) => path.subrange(0, i),
        None => "."@,
    }
}

pub proof fn lemma_last_index_before_bounds(s: Seq<char>, c: char, j: int)
    requires
        j <= s.len(),
    ensures
        last_index_before(s, c, j) matches Some(i) ==> 0 <= i < j && s[i] == c,
    decreases j,
{
    if j > 0 && s[j - 1] != c {
        lemma_last_index_before_bounds(s, c, j - 1);
    }
}

/// The directory part of `path` (text before the last separator), or `.`.
/// On Windows both `\` and `/` separate, `\` taking precedence.
pub fn parent_dir(path: &str, is_windows: bool) -> (r: &str)
    ensures
        r@ == spec_parent_dir(path@, is_windows),
{
    let chars = str_chars(path);
    proof {
        lemma_last_index_before_bounds(path@, '\\', path@.len() as int);
        lemma_last_index_before_bounds(path@, '/', path@.len() as int);
    }
    let idx = if is_windows {
        match rfind_exec(&chars, '\\') {
            Some(i) => Some(i),
            None => rfind_exec(&chars, '/'),
        }
    } else {
        rfind_exec(&chars, '/')
    };
    match idx {
        Some(i) => path.substring_char(0, i),
        None => ".",
    }
}

/// `s` with every `~` replaced by `home`.
pub fn replace_tilde(s: &Vec<char>, home: &Vec<char>) -> (r: Vec<char>)
    ensures
        r@ == replace_char_by_seq(s@, '~', home@),
{
    let mut out: Vec<char> = Vec::new();
    let mut i: usize = 0;
    while i < s.len()
        invariant
            i <= s@.len(),
            out@ == replace_char_by_seq(s@.subrange(0, i as int), '~', home@),
        decreases s.len() - i,
    {
        assert(s@.subrange(0, i + 1).drop_last() =~= s@.subrange(0, i as int));
        if s[i] == '~' {
            extend_chars(&mut out, home);
        } else {
            out.push(s[i]);
        }
        i = i + 1;
    }
    assert(s@.subrange(0, s@.len() as int) =~= s@);
    out
}

/// The message given when `~` cannot be expanded.
pub open spec fn expand_error() -> Seq<char> {
    "Failed to expand ~"@
}

/// Result of expanding `~` in `path`: unchanged on Windows, otherwise every
/// `~` replaced by the first `HOME` value, or an error without one.
pub open spec fn spec_expand_home_path(os: Os, env: Seq<(String, String)>, path: Seq<char>) -> Result<
    Seq<char>,
    Seq<char>,
> {
    if os == Os::Windows {
        Ok(path)
    } else {
        match env_lookup(env, "HOME"@) {
            Some(home) => Ok(replace_char_by_seq(path, '~', home)),
            None => Err(expand_error()),
        }
    }
}

/// The first value bound to `key` in `env`.
pub fn env_get(env: &[(String, String)], key: &str) -> (r: Option<String>)
    ensures
        r matches Some(v) ==> env_lookup(env@, key@) == Some(v@),
        r is None ==> env_lookup(env@, key@) is None,
{
    let mut i: usize = 0;
    assert(env@.subrange(0, env@.len() as int) =~= env@);
    while i < env.len()
        invariant
            i <= env@.len(),
            env_lookup(env@, key@) == env_lookup(env@.subrange(i as int, env@.len() as int), key@),
        decreases env.len() - i,
    {
        assert(env@.subrange(i as int, env@.len() as int).drop_first() =~= env@.subrange(
            i + 1,
            env@.len() as int,
        ));
        if str_is(env[i].0.as_str(), key) {
            return Some(env[i].1.clone());
        }
        i = i + 1;
    }
    None
}

/// Expands `~` in `path` with the host's `HOME`.
pub fn expand_home_path(os: Os, env: &[(String, String)], path: String) -> (r: Result<
    String,
    String,
>)
    ensures
        r matches Ok(p) ==> spec_expand_home_path(os, env@, path@) == Ok::<Seq<char>, Seq<char>>(
            p@,
        ),
        r matches Err(e) ==> spec_expand_home_path(os, env@, path@) == Err::<Seq<char>, Seq<char>>(
            e@,
        ),
{
    match os {
        Os::Windows => Ok(path),
        _ => {
            match env_get(env, "HOME") {
                Some(home) => {
                    let s = str_chars(path.as_str());
                    let h = str_chars(home.as_str());
                    let out = replace_tilde(&s, &h);
                    Ok(string_from_chars(out.as_slice()))
                },
                None => Err(String::from_str("Failed to expand ~")),
            }
        },
    }
}

/// Upper-case hexadecimal digit of a value below 16.
pub open spec fn hex_upper(n: u8) -> char {
    if n < 10 {
        (48 + n) as char
    } else {
        (55 + n) as char
    }
}

/// Bytes left as they are in a file URI path: ASCII letters and digits and
/// `/ : - . _ ~ @`.
pub open spec fn kept_in_uri_path(b: u8) -> bool {
    ||| 0x30 <= b <= 0x39
    ||| 0x41 <= b <= 0x5a
    ||| 0x61 <= b <= 0x7a
    ||| b == 0x2f
    ||| b == 0x3a
    ||| b == 0x2d
    ||| b == 0x2e
    ||| b == 0x5f
    ||| b == 0x7e
    ||| b == 0x40
}

/// One byte of a URI path: itself when kept, otherwise `%XX`.
pub open spec fn uri_path_byte(b: u8) -> Seq<char> {
    if kept_in_uri_path(b) {
        seq![b as char]
    } else {
        seq!['%', hex_upper(b / 16), hex_upper(b % 16)]
    }
}

/// Percent-encoding of a byte sequence for a URI path.
pub open spec fn percent_encode_uri_path(bytes: Seq<u8>) -> Seq<char>
    decreases bytes.len(),
{
    if bytes.len() == 0 {
        Seq::empty()
    } else {
        percent_encode_uri_path(bytes.drop_last()) + uri_path_byte(bytes.last())
    }
}

fn hex_upper_digit(n: u8) -> (r: char)
    requires
        n < 16,
    ensures
        r == hex_upper(n),
{
    if n < 10 {
        (n + 48) as char
    } else {
        (n + 55) as char
    }
}

pub fn kept_in_uri_path_exec(b: u8) -> (r: bool)
    ensures
        r == kept_in_uri_path(b),
{
    (0x30 <= b && b <= 0x39) || (0x41 <= b && b <= 0x5a) || (0x61 <= b && b <= 0x7a) || b == 0x2f
        || b == 0x3a || b == 0x2d || b == 0x2e || b == 0x5f || b == 0x7e || b == 0x40
}

/// The UTF-8 bytes of `chunk`, percent-encoded for a URI path.
pub fn percent_encode_path_chunk(chunk: &str) -> (r: String)
    ensures
        r@ == percent_encode_uri_path(encode_utf8(chunk@)),
{
    let bytes = chunk.as_bytes();
    let ghost bs = encode_utf8(chunk@);
    assert(bytes@ == bs);
    let mut out = String::new();
    let mut i: usize = 0;
    while i < bytes.len()
        invariant
            i <= bytes@.len(),
            bytes@ == bs,
            out@ == percent_encode_uri_path(bs.subrange(0, i as int)),
        decreases bytes.len() - i,
    {
        assert(bs.subrange(0, i + 1).drop_last() =~= bs.subrange(0, i as int));
        let b = bytes[i];
        if kept_in_uri_path_exec(b) {
            push_char(&mut out, b as char);
        } else {
            push_char(&mut out, '%');
            push_char(&mut out, hex_upper_digit(b / 16));
            push_char(&mut out, hex_upper_digit(b % 16));
        }
        i = i + 1;
        assert(out@ =~= percent_encode_uri_path(bs.subrange(0, i as int)));
    }
    assert(bs.subrange(0, bs.len() as int) =~= bs);
    out
}

/// Each backslash-separated chunk, as `/` followed by its encoding.
pub open spec fn uri_chunks(chunks: Seq<Seq<char>>) -> Seq<char>
    decreases chunks.len(),
{
    if chunks.len() == 0 {
        Seq::empty()
    } else {
        uri_chunks(chunks.drop_last()) + seq!['/'] + percent_encode_uri_path(
            encode_utf8(chunks.last()),
        )
    }
}

/// The `file://` URI of a path: an absolute POSIX path is encoded whole,
/// any other path is cut at backslashes and each chunk is written after `/`.
pub open spec fn spec_path_to_file_uri(path: Seq<char>) -> Seq<char> {
    "file://"@ + if path.len() > 0 && path[0] == '/' {
        percent_encode_uri_path(encode_utf8(path))
    } else {
        uri_chunks(split(path, '\\'))
    }
}

/// The `file://` URI of a POSIX or Windows path.
pub fn path_to_file_uri(path: &str) -> (r: String)
    ensures
        r@ == spec_path_to_file_uri(path@),
{
    let mut uri = String::from_str("file://");
    let chars = str_chars(path);
    if chars.len() > 0 && chars[0] == '/' {
        let enc = percent_encode_path_chunk(path);
        uri.append(enc.as_str());
    } else {
        let chunks = split_chars(&chars, '\\');
        let ghost cv = char_views(chunks@);
        let mut k: usize = 0;
        while k < chunks.len()
            invariant
                k <= chunks@.len(),
                cv == char_views(chunks@),
                cv.len() == chunks@.len(),
                uri@ == "file://"@ + uri_chunks(cv.subrange(0, k as int)),
            decreases chunks.len() - k,
        {
            assert(cv.subrange(0, k + 1).drop_last() =~= cv.subrange(0, k as int));
            push_char(&mut uri, '/');
            let piece = string_from_chars(chunks[k].as_slice());
            let enc = percent_encode_path_chunk(piece.as_str());
            uri.append(enc.as_str());
            k = k + 1;
            assert(uri@ =~= "file://"@ + uri_chunks(cv.subrange(0, k as int)));
        }
        assert(cv.subrange(0, cv.len() as int) =~= cv);
    }
    uri
}

proof fn lemma_last_index_is(p: Seq<char>, c: char, k: int, j: int)
    requires
        0 <= k < j <= p.len(),
        p[k] == c,
        forall|m: int| k < m < j ==> p[m] != c,
    ensures
        last_index_before(p, c, j) == Some(k),
    decreases j - k,
{
    if j - 1 != k {
        lemma_last_index_is(p, c, k, j - 1);
    }
}

/// The directory of `dir` joined with a plain file name (one holding no
/// separator) is `dir`.
pub proof fn law_parent_dir_of_child(dir: Seq<char>, name: Seq<char>, is_windows: bool)
    requires
        !name.contains('/'),
        !name.contains('\\'),
    ensures
        spec_parent_dir(dir + seq![spec_path_sep(is_windows)] + name, is_windows) == dir,
{
    let sep = spec_path_sep(is_windows);
    let p = dir + seq![sep] + name;
    let k = dir.len() as int;
    assert forall|m: int| k < m < p.len() implies p[m] != sep by {
        assert(p[m] == name[m - k - 1]);
        if p[m] == sep {
            assert(name.contains(sep));
        }
    }
    lemma_last_index_is(p, sep, k, p.len() as int);
    assert(p.subrange(0, k) =~= dir);
}

/// `~` expansion leaves a path without `~` unchanged.
pub proof fn law_expand_without_tilde(os: Os, env: Seq<(String, String)>, path: Seq<char>)
    requires
        !path.contains('~'),
        spec_expand_home_path(os, env, path) is Ok,
    ensures
        spec_expand_home_path(os, env, path) == Ok::<Seq<char>, Seq<char>>(path),
{
    if os != Os::Windows {
        let home = env_lookup(env, "HOME"@).unwrap();
        lemma_replace_absent(path, '~', home);
    }
}

proof fn lemma_replace_absent(s: Seq<char>, c: char, v: Seq<char>)
    requires
        !s.contains(c),
    ensures
        replace_char_by_seq(s, c, v) == s,
    decreases s.len(),
{
    if s.len() > 0 {
        assert(!s.drop_last().contains(c)) by {
            if s.drop_last().contains(c) {
                let i = choose|i: int| 0 <= i < s.drop_last().len() && s.drop_last()[i] == c;
                assert(s[i] == c);
            }
        }
        lemma_replace_absent(s.drop_last(), c, v);
        assert(s.last() != c) by {
            assert(s[s.len() - 1] == s.last());
        }
        assert(s.drop_last() + seq![s.last()] =~= s);
    }
}

/// Bytes read as characters one by one.
pub open spec fn bytes_as_chars(bytes: Seq<u8>) -> Seq<char> {
    bytes.map_values(|b: u8| b as char)
}

proof fn lemma_kept_bytes_unchanged(bytes: Seq<u8>)
    requires
        forall|i: int| 0 <= i < bytes.len() ==> kept_in_uri_path(#[trigger] bytes[i]),
    ensures
        percent_encode_uri_path(bytes) == bytes_as_chars(bytes),
    decreases bytes.len(),
{
    if bytes.len() > 0 {
        let d = bytes.drop_last();
        assert forall|i: int| 0 <= i < d.len() implies kept_in_uri_path(#[trigger] d[i]) by {
            assert(d[i] == bytes[i]);
        }
        lemma_kept_bytes_unchanged(d);
        assert(kept_in_uri_path(bytes[bytes.len() - 1]));
        assert(bytes_as_chars(bytes) =~= bytes_as_chars(d) + seq![bytes.last() as char]);
    }
}

/// An absolute path made only of ASCII letters, digits and `/ : - . _ ~ @`
/// appears in its file URI unchanged.
pub proof fn law_plain_path_uri(path: Seq<char>)
    requires
        path.len() > 0,
        path[0] == '/',
        is_ascii_chars(path),
        forall|i: int| 0 <= i < path.len() ==> kept_in_uri_path(#[trigger] path[i] as u8),
    ensures
        spec_path_to_file_uri(path) == "file://"@ + path,
{
    is_ascii_chars_encode_utf8(path);
    is_ascii_chars_nat_bound(path);
    let bytes = encode_utf8(path);
    assert forall|i: int| 0 <= i < bytes.len() implies kept_in_uri_path(#[trigger] bytes[i]) by {
        assert(path[i] as u8 == bytes[i]);
    }
    lemma_kept_bytes_unchanged(bytes);
    assert forall|i: int| 0 <= i < path.len() implies #[trigger] bytes_as_chars(bytes)[i]
        == path[i] by {
        let c = path[i];
        assert(c as u8 == bytes[i]);
        assert((c as nat) < 128);
        let u = c as u32;
        assert(u < 128);
        assert(((u as u8) as u32) == u) by (bit_vector)
            requires
                u < 128,
        ;
    }
    assert(bytes_as_chars(bytes) =~= path);
}

} // verus!
