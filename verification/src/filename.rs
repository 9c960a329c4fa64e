//! Deriving a safe file name from a URL.
//!
//! When a download's destination names a directory, the file name is
//! synthesized from the URL: the last non-empty path segment,
//! percent-decoded, with control characters and `/ \ : *` replaced by `_`,
//! and a default extension appended when none is present.  An empty or
//! root path falls back to a name built from the host, and an unparsable
//! URL to a fixed name.  The derivation is total: it always produces a
//! non-empty, extension-bearing name free of control characters.

use vstd::prelude::*;

verus! {

broadcast use vstd::string::group_string_axioms;

/// The path and host that URL parsing yields for a text, if it parses.
pub uninterp spec fn url_parts_of(s: Seq<char>) -> Option<(Seq<char>, Option<Seq<char>>)>;

/// The path and host of a parsed URL.
pub struct UrlParts {
    pub path: String,
    pub host: Option<String>,
}

/// Relies on url::Url::parse (reqwest re-exports it), Url::path and
/// Url::host_str: whether a text parses, and the path and host of the
/// parsed URL, depend on the text alone.
#[verifier::external_body]
fn parse_url(s: &str) -> (r: Option<UrlParts>)
    ensures
        r matches Some(p) ==> url_parts_of(s@) == Some((p.path@, p.host.deep_view())),
        r is None ==> url_parts_of(s@) is None,
{
    match reqwest::Url::parse(s) {
        Ok(u) => Some(
            UrlParts { path: u.path().to_string(), host: u.host_str().map(|h| h.to_string()) },
        ),
        Err(_) => None,
    }
}

/// What percent-decoding a segment and reading it as UTF-8 yields, if the
/// decoded bytes are valid UTF-8.
pub uninterp spec fn percent_decoded_of(s: Seq<char>) -> Option<Seq<char>>;

/// Relies on percent_encoding::percent_decode_str together with
/// PercentDecode::decode_utf8: the decoded text depends on the input
/// characters alone, and invalid UTF-8 is reported as an error.
#[verifier::external_body]
fn percent_decode_utf8(s: &str) -> (r: Option<String>)
    ensures
        r matches Some(d) ==> percent_decoded_of(s@) == Some(d@),
        r is None ==> percent_decoded_of(s@) is None,
{
    match percent_encoding::percent_decode_str(s).decode_utf8() {
        Ok(d) => Some(d.into_owned()),
        Err(_) => None,
    }
}

/// Relies on String::push: appends one character to the string.
#[verifier::external_body]
fn push_char(s: &mut String, c: char)
    ensures
        final(s)@ == old(s)@.push(c),
{
    s.push(c);
}

/// A Unicode control character (the C0 and C1 ranges).
pub open spec fn is_control_char(c: char) -> bool {
    c as u32 <= 0x1f || (0x7f <= c as u32 && c as u32 <= 0x9f)
}

/// A character a derived file name may not carry.
pub open spec fn is_forbidden_char(c: char) -> bool {
    is_control_char(c) || c == '/' || c == '\\' || c == ':' || c == '*'
}

/// A name with every forbidden character replaced by an underscore.
pub open spec fn sanitized(s: Seq<char>) -> Seq<char> {
    Seq::new(s.len(), |i: int| if is_forbidden_char(s[i]) { '_' } else { s[i] })
}

/// Replace control characters and `/ \ : *` with underscores.
pub fn sanitize_name(s: &str) -> (r: String)
    ensures
        r@ == sanitized(s@),
{
    let n = s.unicode_len();
    let mut out = String::new();
    let mut i: usize = 0;
    while i < n
        invariant
            i <= n,
            n == s@.len(),
            out@.len() == i,
            forall|j: int| 0 <= j < i ==> out@[j] == sanitized(s@)[j],
        decreases n - i,
    {
        let c = s.get_char(i);
        let code = c as u32;
        let bad = code <= 0x1f || (0x7f <= code && code <= 0x9f) || c == '/' || c == '\\' || c
            == ':' || c == '*';
        if bad {
            push_char(&mut out, '_');
        } else {
            push_char(&mut out, c);
        }
        i = i + 1;
    }
    proof {
        assert(out@ =~= sanitized(s@));
    }
    out
}

/// Whether a name carries a dot somewhere.
pub open spec fn has_dot(s: Seq<char>) -> bool {
    exists|i: int| 0 <= i < s.len() && s[i] == '.'
}

/// The name itself when it carries an extension, otherwise with `.bin`
/// appended.
pub open spec fn spec_add_default_extension(s: Seq<char>) -> Seq<char> {
    if has_dot(s) {
        s
    } else {
        s + ".bin"@
    }
}

/// Append the default extension when the name has none.
pub fn add_default_extension(name: String) -> (r: String)
    ensures
        r@ == spec_add_default_extension(name@),
{
    let n = name.as_str().unicode_len();
    let mut i: usize = 0;
    let mut found = false;
    while i < n
        invariant
            i <= n,
            n == name@.len(),
            found <==> exists|j: int| 0 <= j < i && name@[j] == '.',
        decreases n - i,
    {
        if name.as_str().get_char(i) == '.' {
            found = true;
        }
        i = i + 1;
    }
    if found {
        name
    } else {
        name.concat(".bin")
    }
}

/// The default name built from a host: the sanitized host (or `unknown`
/// when there is none) with a `.bin` extension.
pub open spec fn spec_default_name(host: Option<Seq<char>>) -> Seq<char> {
    match host {
        Some(h) => sanitized(h) + ".bin"@,
        None => sanitized("unknown"@) + ".bin"@,
    }
}

/// Build the fallback name for a URL whose path names no file.
fn generate_default_name(host: &Option<String>) -> (r: String)
    ensures
        r@ == spec_default_name(host.deep_view()),
{
    match host {
        Some(h) => {
            let base = sanitize_name(h.as_str());
            base.concat(".bin")
        },
        None => {
            let base = sanitize_name("unknown");
            base.concat(".bin")
        },
    }
}

/// The index just past the last `/` in `p`, or zero if there is none.
pub open spec fn last_slash_end(p: Seq<char>) -> nat
    decreases p.len(),
{
    if p.len() == 0 {
        0
    } else if p.last() == '/' {
        p.len()
    } else {
        last_slash_end(p.drop_last())
    }
}

/// The last non-empty `/`-separated segment of a path, if any.
pub open spec fn last_nonempty_segment(p: Seq<char>) -> Option<Seq<char>>
    decreases p.len(),
{
    if p.len() == 0 {
        None
    } else if p.last() == '/' {
        last_nonempty_segment(p.drop_last())
    } else {
        Some(p.skip(last_slash_end(p) as int))
    }
}

proof fn lemma_last_slash_end(p: Seq<char>)
    ensures
        last_slash_end(p) <= p.len(),
        last_slash_end(p) > 0 ==> p[last_slash_end(p) - 1] == '/',
        forall|m: int| last_slash_end(p) <= m < p.len() ==> p[m] != '/',
    decreases p.len(),
{
    if p.len() == 0 {
    } else if p.last() == '/' {
    } else {
        let t = p.drop_last();
        lemma_last_slash_end(t);
        assert(forall|m: int| last_slash_end(p) <= m < p.len() - 1 ==> p[m] == t[m] && t[m]
            != '/');
    }
}

/// Find the last non-empty path segment of `p`.
fn find_last_segment(p: &str) -> (r: Option<String>)
    ensures
        r matches Some(s) ==> last_nonempty_segment(p@) == Some(s@),
        r is None ==> last_nonempty_segment(p@) is None,
{
    let n = p.unicode_len();
    proof {
        assert(p@.take(n as int) =~= p@);
    }
    // trim the run of slashes at the end
    let mut e: usize = n;
    loop
        invariant
            e <= n,
            n == p@.len(),
            last_nonempty_segment(p@) == last_nonempty_segment(p@.take(e as int)),
        ensures
            e <= n,
            n == p@.len(),
            last_nonempty_segment(p@) == last_nonempty_segment(p@.take(e as int)),
            e == 0 || p@[e - 1] != '/',
        decreases e,
    {
        if e == 0 {
            break;
        }
        if p.get_char(e - 1) != '/' {
            break;
        }
        proof {
            assert(p@.take(e as int).last() == '/');
            assert(p@.take(e as int).drop_last() =~= p@.take(e - 1));
        }
        e = e - 1;
    }
    if e == 0 {
        proof {
            assert(p@.take(0) =~= Seq::<char>::empty());
        }
        return None;
    }
    let ghost q = p@.take(e as int);
    proof {
        assert(q.last() != '/');
        assert(last_nonempty_segment(q) == Some(q.skip(last_slash_end(q) as int)));
    }
    // find the start of that last segment
    let mut a: usize = e;
    loop
        invariant
            a <= e,
            e <= n,
            n == p@.len(),
            q == p@.take(e as int),
            last_slash_end(q) == last_slash_end(p@.take(a as int)),
            forall|m: int| a <= m < e ==> p@[m] != '/',
        ensures
            a <= e,
            forall|m: int| a <= m < e ==> p@[m] != '/',
            last_slash_end(q) == a,
        decreases a,
    {
        if a == 0 {
            proof {
                assert(p@.take(0) =~= Seq::<char>::empty());
            }
            break;
        }
        if p.get_char(a - 1) == '/' {
            proof {
                assert(p@.take(a as int).last() == '/');
            }
            break;
        }
        proof {
            assert(p@.take(a as int).last() != '/');
            assert(p@.take(a as int).drop_last() =~= p@.take(a - 1));
        }
        a = a - 1;
    }
    let seg = p.substring_char(a, e);
    let owned = seg.to_owned();
    proof {
        assert(owned@ =~= q.skip(last_slash_end(q) as int));
    }
    Some(owned)
}

/// What cleaning a raw path segment yields: the segment percent-decoded
/// (empty when its bytes are not valid UTF-8) and sanitized.
pub open spec fn spec_clean_filename(raw: Seq<char>) -> Seq<char> {
    match percent_decoded_of(raw) {
        Some(d) => sanitized(d),
        None => sanitized(Seq::<char>::empty()),
    }
}

/// Percent-decode a raw path segment and replace forbidden characters.
pub fn clean_filename(raw: &str) -> (r: String)
    ensures
        r@ == spec_clean_filename(raw@),
{
    match percent_decode_utf8(raw) {
        Some(d) => sanitize_name(d.as_str()),
        None => {
            let r = sanitize_name("");
            proof {
                reveal_strlit("");
                assert(""@ =~= Seq::<char>::empty());
                assert(sanitized(""@) =~= sanitized(Seq::<char>::empty()));
            }
            r
        },
    }
}

/// A usable derived file name: non-empty, carrying a dot, and free of
/// control characters.
pub open spec fn filename_ok(s: Seq<char>) -> bool {
    &&& s.len() > 0
    &&& has_dot(s)
    &&& forall|i: int| 0 <= i < s.len() ==> !is_control_char(#[trigger] s[i])
}

/// The name `extract_filename` derives for a URL text.
pub open spec fn spec_extract_filename(u: Seq<char>) -> Seq<char> {
    match url_parts_of(u) {
        None => "invalid_url.bin"@,
        Some(parts) => {
            let path = parts.0;
            let host = parts.1;
            if path.len() == 0 || path == "/"@ {
                spec_default_name(host)
            } else {
                match last_nonempty_segment(path) {
                    Some(seg) => spec_add_default_extension(spec_clean_filename(seg)),
                    None => spec_add_default_extension(spec_default_name(host)),
                }
            }
        },
    }
}

/// Derive a file name from a URL.  Total: whatever the URL holds, the name
/// is non-empty, has an extension, and carries no control character.
pub fn extract_filename(url: &str) -> (r: String)
    ensures
        r@ == spec_extract_filename(url@),
        filename_ok(r@),
{
    proof {
        reveal_strlit("invalid_url.bin");
        reveal_strlit(".bin");
        reveal_strlit("/");
    }
    match parse_url(url) {
        None => {
            let r = "invalid_url.bin".to_owned();
            proof {
                assert(has_dot(r@)) by {
                    assert(r@[11] == '.');
                }
            }
            r
        },
        Some(parts) => {
            let path = parts.path;
            let host = parts.host;
            let plen = path.as_str().unicode_len();
            let is_root = plen == 0 || (plen == 1 && path.as_str().get_char(0) == '/');
            proof {
                if plen == 1 && path@[0] == '/' {
                    assert(path@ =~= "/"@);
                }
                if path@ == "/"@ {
                    assert(path@.len() == 1 && path@[0] == '/');
                }
            }
            if is_root {
                let r = generate_default_name(&host);
                proof {
                    lemma_default_name_ok(host.deep_view());
                }
                r
            } else {
                match find_last_segment(path.as_str()) {
                    Some(seg) => {
                        let cleaned = clean_filename(seg.as_str());
                        let r = add_default_extension(cleaned);
                        proof {
                            lemma_clean_ok(seg@);
                            lemma_add_ext_ok(spec_clean_filename(seg@));
                        }
                        r
                    },
                    None => {
                        let base = generate_default_name(&host);
                        let r = add_default_extension(base);
                        proof {
                            lemma_default_name_ok(host.deep_view());
                            lemma_add_ext_ok(spec_default_name(host.deep_view()));
                        }
                        r
                    },
                }
            }
        },
    }
}

proof fn lemma_clean_ok(raw: Seq<char>)
    ensures
        forall|i: int| 0 <= i < spec_clean_filename(raw).len() ==> !is_control_char(
            #[trigger] spec_clean_filename(raw)[i],
        ),
{
    lemma_sanitized_no_control(
        match percent_decoded_of(raw) {
            Some(d) => d,
            None => Seq::<char>::empty(),
        },
    );
}

proof fn lemma_sanitized_no_control(s: Seq<char>)
    ensures
        forall|i: int| 0 <= i < sanitized(s).len() ==> !is_control_char(#[trigger] sanitized(s)[i]),
{
    assert forall|i: int| 0 <= i < sanitized(s).len() implies !is_control_char(
        #[trigger] sanitized(s)[i],
    ) by {
        assert(sanitized(s)[i] == if is_forbidden_char(s[i]) {
            '_'
        } else {
            s[i]
        });
    }
}

proof fn lemma_default_name_ok(host: Option<Seq<char>>)
    ensures
        filename_ok(spec_default_name(host)),
{
    reveal_strlit(".bin");
    let base = match host {
        Some(h) => sanitized(h),
        None => sanitized("unknown"@),
    };
    let r = base + ".bin"@;
    lemma_sanitized_no_control(match host {
        Some(h) => h,
        None => "unknown"@,
    });
    assert(r[base.len() as int] == '.') by {
        assert(".bin"@[0] == '.');
    }
    assert(has_dot(r));
    assert forall|i: int| 0 <= i < r.len() implies !is_control_char(#[trigger] r[i]) by {
        if i < base.len() {
            assert(r[i] == base[i]);
        } else {
            assert(r[i] == ".bin"@[i - base.len()]);
        }
    }
}

proof fn lemma_add_ext_ok(s: Seq<char>)
    requires
        forall|i: int| 0 <= i < s.len() ==> !is_control_char(#[trigger] s[i]),
    ensures
        filename_ok(spec_add_default_extension(s)),
{
    reveal_strlit(".bin");
    let r = spec_add_default_extension(s);
    if has_dot(s) {
        assert(s.len() > 0);
    } else {
        assert(r[s.len() as int] == '.') by {
            assert(".bin"@[0] == '.');
        }
        assert(has_dot(r));
        assert forall|i: int| 0 <= i < r.len() implies !is_control_char(#[trigger] r[i]) by {
            if i < s.len() {
                assert(r[i] == s[i]);
            } else {
                assert(r[i] == ".bin"@[i - s.len()]);
            }
        }
    }
}

} // verus!
