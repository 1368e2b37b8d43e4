//! The connection settings: where the coordinator is and who is asking.

use crate::text::{
    chars_of, lemma_trim_end, trim_end, trim_end_len, trim_end_matches, CharClass,
};
use vstd::prelude::*;
use vstd::string::*;

verus! {

/// The pager command line used when none is configured.
pub const DEFAULT_PAGER: &'static str = "less --no-init -n --chop-long-lines --quit-if-one-screen";

/// The settings of one connection. They are set once and only read afterwards.
#[derive(Debug)]
pub struct Context {
    /// The coordinator's base URL, normalized by `parse_server_url`.
    pub server: String,
    /// The catalog to use.
    pub catalog: String,
    /// The schema to use.
    pub schema: String,
    /// The user name, also sent as the name of the request's source.
    pub user: String,
    /// The pager command line used to show results.
    pub pager: String,
}

/// A `Context` as plain text values.
pub struct ContextView {
    pub server: Seq<char>,
    pub catalog: Seq<char>,
    pub schema: Seq<char>,
    pub user: Seq<char>,
    pub pager: Seq<char>,
}

impl View for Context {
    type V = ContextView;

    open spec fn view(&self) -> ContextView {
        ContextView {
            server: self.server@,
            catalog: self.catalog@,
            schema: self.schema@,
            user: self.user@,
            pager: self.pager@,
        }
    }
}

/// Why a `Context` could not be made.
#[derive(Debug, Clone, Copy, PartialEq, Eq, Structural)]
pub enum ContextError {
    /// The server value was empty.
    EmptyServer,
}

/// One HTTP header: a name and its value.
#[derive(Debug)]
pub struct Header {
    pub name: String,
    pub value: String,
}

impl View for Header {
    type V = (Seq<char>, Seq<char>);

    open spec fn view(&self) -> (Seq<char>, Seq<char>) {
        (self.name@, self.value@)
    }
}

/// A list of headers as pairs of name and value.
pub open spec fn headers_view(headers: Seq<Header>) -> Seq<(Seq<char>, Seq<char>)> {
    headers.map_values(|h: Header| h@)
}

/// The scheme put in front of a server value that names none.
pub open spec fn default_scheme() -> Seq<char> {
    seq!['h', 't', 't', 'p', ':', '/', '/']
}

/// Whether `://`, the mark that ends a scheme, stands at index `i` of `s`.
pub open spec fn mark_at(s: Seq<char>, i: int) -> bool {
    0 <= i && i + 3 <= s.len() && s[i] == ':' && s[i + 1] == '/' && s[i + 2] == '/'
}

/// The characters of a scheme name: ASCII letters and digits, `+`, `-`
/// and `.`.
pub open spec fn is_scheme_char(c: char) -> bool {
    ||| 'a' <= c <= 'z'
    ||| 'A' <= c <= 'Z'
    ||| '0' <= c <= '9'
    ||| c == '+'
    ||| c == '-'
    ||| c == '.'
}

/// Whether the scheme of `s` ends at index `i`: the `i` characters in front
/// are a scheme name, which is not empty, and `://` stands right behind it.
pub open spec fn scheme_ends_at(s: Seq<char>, i: int) -> bool {
    &&& i >= 1
    &&& mark_at(s, i)
    &&& forall|j: int| 0 <= j < i ==> is_scheme_char(#[trigger] s[j])
}

/// Whether a server value names its scheme: whether it begins with a scheme
/// name that `://` follows.
pub open spec fn has_scheme(src: Seq<char>) -> bool {
    exists|i: int| scheme_ends_at(src, i)
}

/// Whether a server value names a host behind its scheme: whether a
/// character other than `/` stands somewhere behind the `://` of its
/// scheme.
pub open spec fn has_host(src: Seq<char>) -> bool {
    exists|i: int, j: int| scheme_ends_at(src, i) && i + 3 <= j < src.len() && src[j] != '/'
}

/// A server value with its scheme: the value itself where it names one,
/// else the value with `http://` in front.
pub open spec fn with_scheme(src: Seq<char>) -> Seq<char> {
    if has_scheme(src) {
        src
    } else {
        default_scheme() + src
    }
}

/// The normalized form of a server value: `http://` is put in front unless
/// the value names a scheme, and every `/` at the end is removed.
pub open spec fn normalized_server(src: Seq<char>) -> Seq<char> {
    trim_end_matches(with_scheme(src), '/')
}

/// Whether a server value is in normalized form as far as every value gets
/// there: it is not empty and does not end in `/`.
pub open spec fn is_normalized(server: Seq<char>) -> bool {
    server.len() > 0 && server.last() != '/'
}

/// The four identity headers that every request of a connection carries.
pub open spec fn identity_headers(ctx: ContextView) -> Seq<(Seq<char>, Seq<char>)> {
    seq![
        ("X-Presto-Catalog"@, ctx.catalog),
        ("X-Presto-Schema"@, ctx.schema),
        ("X-Presto-Source"@, ctx.user),
        ("X-Presto-User"@, ctx.user),
    ]
}

/// A server value with its scheme names a scheme.
pub proof fn lemma_with_scheme_has_scheme(src: Seq<char>)
    ensures
        has_scheme(with_scheme(src)),
{
    if !has_scheme(src) {
        assert(scheme_ends_at(default_scheme() + src, 4));
    }
}

/// A normalized server value is not empty and has no `/` at its end.
pub proof fn lemma_normalized_server_is_normalized(src: Seq<char>)
    ensures
        is_normalized(normalized_server(src)),
{
    let full = with_scheme(src);
    lemma_with_scheme_has_scheme(src);
    let i = choose|i: int| scheme_ends_at(full, i);
    lemma_trim_end(full, CharClass::Is('/'));
    let kept = trim_end(full, CharClass::Is('/'));
    if kept.len() <= i {
        assert(full[i] == '/');
    }
}

/// Where a server value names a host, its normalized form still names its
/// scheme and its host: trimming stops at the host.
pub proof fn lemma_normalized_server_keeps_host(src: Seq<char>)
    requires
        has_host(with_scheme(src)),
    ensures
        has_scheme(normalized_server(src)),
        has_host(normalized_server(src)),
{
    let full = with_scheme(src);
    let (i, j) = choose|i: int, j: int|
        scheme_ends_at(full, i) && i + 3 <= j < full.len() && full[j] != '/';
    lemma_trim_end(full, CharClass::Is('/'));
    let kept = trim_end(full, CharClass::Is('/'));
    if kept.len() <= j {
        assert(full[j] == '/');
    }
    assert forall|k: int| 0 <= k <= j implies kept[k] == full[k] by {}
    assert(scheme_ends_at(kept, i)) by {
        assert forall|k: int| 0 <= k < i implies is_scheme_char(#[trigger] kept[k]) by {
            assert(kept[k] == full[k]);
        }
    }
    assert(scheme_ends_at(kept, i) && i + 3 <= j < kept.len() && kept[j] != '/');
}

/// Normalizing the normalized form of a server value that names a host
/// changes nothing.
pub proof fn lemma_normalized_server_idempotent(src: Seq<char>)
    requires
        has_host(with_scheme(src)),
    ensures
        normalized_server(normalized_server(src)) == normalized_server(src),
{
    lemma_normalized_server_keeps_host(src);
    lemma_normalized_server_is_normalized(src);
}

/// Tells whether `c` may stand in a scheme name.
pub fn scheme_char(c: char) -> (b: bool)
    ensures
        b == is_scheme_char(c),
{
    ('a' <= c && c <= 'z') || ('A' <= c && c <= 'Z') || ('0' <= c && c <= '9') || c == '+' || c
        == '-' || c == '.'
}

/// Tells whether `chars` begins with a scheme name that `://` follows.
pub fn names_scheme(chars: &Vec<char>) -> (found: bool)
    ensures
        found == has_scheme(chars@),
{
    let mut i: usize = 0;
    while i < chars.len() && scheme_char(chars[i])
        invariant
            i <= chars.len(),
            forall|k: int| 0 <= k < i ==> is_scheme_char(#[trigger] chars@[k]),
        decreases chars.len() - i,
    {
        i += 1;
    }
    let found = i >= 1 && chars.len() - i >= 3 && chars[i] == ':' && chars[i + 1] == '/' && chars[i
        + 2] == '/';
    proof {
        if found {
            assert(scheme_ends_at(chars@, i as int));
        } else {
            assert forall|k: int| !scheme_ends_at(chars@, k) by {
                if scheme_ends_at(chars@, k) {
                    assert(!is_scheme_char(chars@[k]));
                    if k > i {
                        assert(is_scheme_char(chars@[i as int]));
                    }
                }
            }
        }
    }
    found
}

/// Normalizes a server value: puts `http://` in front unless the value
/// names a scheme, and removes every `/` at the end. The value must not be
/// empty; `Context::new` refuses the empty value.
pub fn parse_server_url(src: &str) -> (server: String)
    requires
        src@.len() > 0,
    ensures
        server@ == normalized_server(src@),
        is_normalized(server@),
        has_host(with_scheme(src@)) ==> has_scheme(server@),
{
    proof {
        reveal_strlit("http://");
        lemma_normalized_server_is_normalized(src@);
        if has_host(with_scheme(src@)) {
            lemma_normalized_server_keeps_host(src@);
        }
    }
    let given = chars_of(src);
    let full = if names_scheme(&given) {
        String::from_str(src)
    } else {
        assert("http://"@ =~= default_scheme());
        String::from_str("http://").concat(src)
    };
    let chars = chars_of(full.as_str());
    let end = trim_end_len(&chars, chars.len(), CharClass::Is('/'));
    assert(chars@.take(chars@.len() as int) =~= chars@);
    String::from_str(full.as_str().substring_char(0, end))
}

impl Context {
    /// Makes the settings of a connection. The server value is normalized;
    /// an empty one is refused.
    pub fn new(server: &str, catalog: String, schema: String, user: String, pager: String) -> (made:
        Result<Context, ContextError>)
        ensures
            server@.len() == 0 <==> made == Err::<Context, ContextError>(ContextError::EmptyServer),
            server@.len() > 0 ==> made is Ok && made->Ok_0@ == (ContextView {
                server: normalized_server(server@),
                catalog: catalog@,
                schema: schema@,
                user: user@,
                pager: pager@,
            }),
            made matches Ok(ctx) ==> ctx.well_formed(),
    {
        if server.unicode_len() == 0 {
            return Err(ContextError::EmptyServer);
        }
        Ok(Context { server: parse_server_url(server), catalog, schema, user, pager })
    }

    /// Whether the server value is in normalized form: not empty and
    /// without `/` at its end.
    pub open spec fn well_formed(&self) -> bool {
        is_normalized(self.server@)
    }

    /// The four identity headers that every request carries.
    pub fn presto_headers(&self) -> (headers: Vec<Header>)
        ensures
            headers_view(headers@) == identity_headers(self@),
    {
        let mut headers: Vec<Header> = Vec::new();
        headers.push(
            Header { name: String::from_str("X-Presto-Catalog"), value: self.catalog.clone() },
        );
        headers.push(
            Header { name: String::from_str("X-Presto-Schema"), value: self.schema.clone() },
        );
        headers.push(Header { name: String::from_str("X-Presto-Source"), value: self.user.clone() });
        headers.push(Header { name: String::from_str("X-Presto-User"), value: self.user.clone() });
        assert(headers_view(headers@) =~= identity_headers(self@));
        headers
    }
}

} // verus!
