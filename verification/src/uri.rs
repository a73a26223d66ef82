//! Origin-form URIs: the paths at which routes and catchers are mounted.
//!
//! An origin is an absolute path with an optional query, `/a/b?c`. A mount
//! base must be *static*: it has no dynamic segment (`<name>`). A fragment is
//! never allowed. Mounting joins a base and a route's own URI into the route's
//! effective URI.

use vstd::prelude::*;
use vstd::string::*;
use vstd::utf8::*;

verus! {

broadcast use vstd::string::group_string_axioms;

/// `/`
pub const SLASH: u8 = 0x2f;

/// `?`
pub const QUESTION: u8 = 0x3f;

/// `<`
pub const OPEN: u8 = 0x3c;

/// `>`
pub const CLOSE: u8 = 0x3e;

/// The letters, the digits and `-` `.` `_` `~`.
pub open spec fn is_unreserved(b: u8) -> bool {
    ||| 0x41 <= b <= 0x5a
    ||| 0x61 <= b <= 0x7a
    ||| 0x30 <= b <= 0x39
    ||| b == 0x2d
    ||| b == 0x2e
    ||| b == 0x5f
    ||| b == 0x7e
}

/// One of `!` `$` `&` `'` `(` `)` `*` `+` `,` `;` `=`.
pub open spec fn is_sub_delim(b: u8) -> bool {
    ||| b == 0x21
    ||| b == 0x24
    ||| 0x26 <= b <= 0x2c
    ||| b == 0x3b
    ||| b == 0x3d
}

/// A byte of a static path segment: unreserved, a sub-delimiter, `:`, `@` or
/// the `%` of an escape.
pub open spec fn is_pchar(b: u8) -> bool {
    is_unreserved(b) || is_sub_delim(b) || b == 0x3a || b == 0x40 || b == 0x25
}

/// `<` or `>`, which delimit a dynamic segment.
pub open spec fn is_dynamic(b: u8) -> bool {
    b == OPEN || b == CLOSE
}

/// A byte that may stand in the path of a route.
pub open spec fn is_path_byte(b: u8) -> bool {
    is_pchar(b) || b == SLASH || is_dynamic(b)
}

/// A byte that may stand in the query of a route.
pub open spec fn is_query_byte(b: u8) -> bool {
    is_path_byte(b) || b == QUESTION
}

/// The byte of the ASCII character at index `i` of `s`.
pub open spec fn byte_at(s: Seq<char>, i: int) -> u8 {
    s[i] as u8
}

/// The index of the first `?` of `s` at or after `from`, or the length of `s`
/// if there is none.
pub open spec fn query_mark(s: Seq<char>, from: int) -> int
    decreases s.len() - from,
{
    if from < 0 || from >= s.len() {
        s.len() as int
    } else if byte_at(s, from) == QUESTION {
        from
    } else {
        query_mark(s, from + 1)
    }
}

/// Every byte of `s` is allowed where it stands: path bytes before the first
/// `?`, query bytes after it.
pub open spec fn bytes_allowed(s: Seq<char>) -> bool {
    forall|i: int|
        0 <= i < s.len() ==> if i < query_mark(s, 0) {
            is_path_byte(#[trigger] byte_at(s, i))
        } else {
            is_query_byte(byte_at(s, i))
        }
}

/// Some byte of `s` is `<` or `>`.
pub open spec fn has_dynamic(s: Seq<char>) -> bool {
    exists|i: int| 0 <= i < s.len() && is_dynamic(#[trigger] byte_at(s, i))
}

/// Why a string is no origin.
#[derive(Clone, Copy, Debug, PartialEq, Eq, Structural)]
pub enum UriError {
    /// The string is empty.
    Empty,
    /// The string holds a character outside ASCII.
    NotAscii,
    /// The string does not begin with `/`.
    Relative,
    /// The string holds a byte that no origin allows where it stands, such as
    /// a space or the `#` of a fragment.
    Invalid,
    /// The string holds `<` or `>` where only a static origin is allowed.
    Dynamic,
}

/// The first reason, in the order of `UriError`, for which `s` is no origin;
/// `dynamic` says whether dynamic segments are allowed.
pub open spec fn origin_error(s: Seq<char>, dynamic: bool) -> Option<UriError> {
    if s.len() == 0 {
        Some(UriError::Empty)
    } else if !is_ascii_chars(s) {
        Some(UriError::NotAscii)
    } else if byte_at(s, 0) != SLASH {
        Some(UriError::Relative)
    } else if !bytes_allowed(s) {
        Some(UriError::Invalid)
    } else if !dynamic && has_dynamic(s) {
        Some(UriError::Dynamic)
    } else {
        None
    }
}

/// `s` is an origin; with `dynamic` false, a static one.
pub open spec fn is_origin(s: Seq<char>, dynamic: bool) -> bool {
    origin_error(s, dynamic) is None
}

/// `s` can be a mount base: a static origin. Its query, if any, is ignored.
pub open spec fn is_base(s: Seq<char>) -> bool {
    is_origin(s, false)
}

/// What an origin is: its path, and its query if it has one.
pub struct OriginView {
    pub path: Seq<char>,
    pub query: Option<Seq<char>>,
}

impl OriginView {
    /// The origin as one string.
    pub open spec fn render(self) -> Seq<char> {
        match self.query {
            Some(q) => self.path + seq!['?'] + q,
            None => self.path,
        }
    }

    /// The path is absolute and made of path bytes; the query, if any, of
    /// query bytes.
    pub open spec fn valid(self) -> bool {
        &&& self.path.len() > 0
        &&& is_ascii_chars(self.path)
        &&& byte_at(self.path, 0) == SLASH
        &&& forall|i: int| 0 <= i < self.path.len() ==> is_path_byte(#[trigger] byte_at(self.path, i))
        &&& self.query matches Some(q) ==> {
            &&& is_ascii_chars(q)
            &&& forall|i: int| 0 <= i < q.len() ==> is_query_byte(#[trigger] byte_at(q, i))
        }
    }

    /// Neither path nor query holds a dynamic segment.
    pub open spec fn is_static(self) -> bool {
        &&& !has_dynamic(self.path)
        &&& self.query matches Some(q) ==> !has_dynamic(q)
    }

    /// The path is `/` alone.
    pub open spec fn is_root(self) -> bool {
        self.path.len() == 1
    }

    /// The origin without its query.
    pub open spec fn without_query(self) -> OriginView {
        OriginView { path: self.path, query: None }
    }
}

/// The origin that the string `s` denotes: the path runs up to the first `?`,
/// the query is what follows it.
pub open spec fn parse_origin(s: Seq<char>) -> OriginView {
    let mark = query_mark(s, 0);
    OriginView {
        path: s.subrange(0, mark),
        query: if mark < s.len() {
            Some(s.subrange(mark + 1, s.len() as int))
        } else {
            None
        },
    }
}

/// The number of bytes of `s` that are left when the slashes at its end are
/// taken off.
pub open spec fn trimmed_len(s: Seq<char>) -> int
    decreases s.len(),
{
    if s.len() > 0 && byte_at(s, s.len() - 1) == SLASH {
        trimmed_len(s.drop_last())
    } else {
        s.len() as int
    }
}

/// The number of slashes at the start of `s`, counted from `from`.
pub open spec fn leading_slashes(s: Seq<char>, from: int) -> int
    decreases s.len() - from,
{
    if 0 <= from < s.len() && byte_at(s, from) == SLASH {
        leading_slashes(s, from + 1)
    } else {
        from
    }
}

/// The path of a route mounted at `base`. A route at `/` takes the base's path
/// as it is, with or without a slash at its end. Any other path is put behind
/// the base with exactly one slash between the two.
pub open spec fn join_path(base: Seq<char>, path: Seq<char>) -> Seq<char> {
    if path.len() == 1 {
        base
    } else {
        base.subrange(0, trimmed_len(base)) + seq!['/'] + path.subrange(
            leading_slashes(path, 0),
            path.len() as int,
        )
    }
}

/// The effective origin of a route with origin `route` mounted at `base`: the
/// joined path, and the route's own query. The base's query is ignored.
pub open spec fn joined(base: OriginView, route: OriginView) -> OriginView {
    OriginView { path: join_path(base.path, route.path), query: route.query }
}

/// Between `from` and the mark that `query_mark` finds there is no `?`, and the
/// mark, if it lies inside `s`, is one.
pub proof fn lemma_query_mark(s: Seq<char>, from: int)
    requires
        0 <= from <= s.len(),
    ensures
        from <= query_mark(s, from) <= s.len(),
        forall|i: int| from <= i < query_mark(s, from) ==> #[trigger] byte_at(s, i) != QUESTION,
        query_mark(s, from) < s.len() ==> byte_at(s, query_mark(s, from)) == QUESTION,
    decreases s.len() - from,
{
    if from < s.len() && byte_at(s, from) != QUESTION {
        lemma_query_mark(s, from + 1);
    }
}

/// An origin.
///
/// The path is absolute and every byte of the origin is allowed where it
/// stands: a value of this type is always valid.
pub struct Origin {
    path: String,
    query: Option<String>,
}

impl View for Origin {
    type V = OriginView;

    closed spec fn view(&self) -> OriginView {
        OriginView {
            path: self.path@,
            query: match self.query {
                Some(q) => Some(q@),
                None => None,
            },
        }
    }
}

impl Clone for Origin {
    fn clone(&self) -> (r: Origin)
        ensures
            r@ == self@,
    {
        proof {
            use_type_invariant(self);
        }
        let query = match &self.query {
            Some(q) => Some(q.clone()),
            None => None,
        };
        Origin { path: self.path.clone(), query }
    }
}

fn path_byte(b: u8) -> (r: bool)
    ensures
        r == is_path_byte(b),
{
    (0x41 <= b && b <= 0x5a) || (0x61 <= b && b <= 0x7a) || (0x30 <= b && b <= 0x39) || b == 0x2d
        || b == 0x2e || b == 0x5f || b == 0x7e || b == 0x21 || b == 0x24 || (0x26 <= b && b
        <= 0x2c) || b == 0x3b || b == 0x3d || b == 0x3a || b == 0x40 || b == 0x25 || b == SLASH
        || b == OPEN || b == CLOSE
}

impl Origin {
    /// The invariant of the type.
    #[verifier::type_invariant]
    pub open spec fn well_formed(&self) -> bool {
        self@.valid()
    }

    /// The origin `/`.
    pub fn root() -> (r: Origin)
        ensures
            r@ == (OriginView { path: seq!['/'], query: None }),
            r@.is_root(),
            r@.is_static(),
    {
        proof {
            reveal_strlit("/");
        }
        let path = String::from_str("/");
        assert(path@ =~= seq!['/']);
        assert(byte_at(path@, 0) == SLASH);
        assert forall|i: int| 0 <= i < path@.len() && is_dynamic(
            #[trigger] byte_at(path@, i),
        ) implies false by {}
        Origin { path, query: None }
    }

    /// Reads a static origin, as a mount base must be.
    pub fn parse(s: &str) -> (r: Result<Origin, UriError>)
        ensures
            match r {
                Ok(o) => is_origin(s@, false) && o@ == parse_origin(s@) && o@.is_static(),
                Err(e) => origin_error(s@, false) == Some(e),
            },
    {
        Origin::parse_with(s, false)
    }

    /// Reads the origin of a route, which may hold dynamic segments.
    pub fn parse_route(s: &str) -> (r: Result<Origin, UriError>)
        ensures
            match r {
                Ok(o) => is_origin(s@, true) && o@ == parse_origin(s@),
                Err(e) => origin_error(s@, true) == Some(e),
            },
    {
        Origin::parse_with(s, true)
    }

    /// The path.
    pub fn path(&self) -> (r: &str)
        ensures
            r@ == self@.path,
    {
        self.path.as_str()
    }

    /// The query, if there is one.
    pub fn query(&self) -> (r: Option<&str>)
        ensures
            match r {
                Some(q) => self@.query == Some(q@),
                None => self@.query is None,
            },
    {
        match &self.query {
            Some(q) => Some(q.as_str()),
            None => None,
        }
    }

    /// Whether the path is `/` alone.
    pub fn is_root(&self) -> (r: bool)
        ensures
            r == self@.is_root(),
    {
        proof {
            use_type_invariant(self);
            is_ascii_chars_encode_utf8(self@.path);
        }
        self.path.as_str().as_bytes().len() == 1
    }

    /// Whether the path ends in a slash.
    pub fn has_trailing_slash(&self) -> (r: bool)
        ensures
            r == (byte_at(self@.path, self@.path.len() - 1) == SLASH),
    {
        proof {
            use_type_invariant(self);
            is_ascii_chars_encode_utf8(self@.path);
        }
        let p = self.path.as_str();
        let n = p.as_bytes().len();
        p.get_ascii(n - 1) == SLASH
    }

    /// Drops the query.
    pub fn clear_query(self) -> (r: Origin)
        ensures
            r@ == self@.without_query(),
    {
        proof {
            use_type_invariant(&self);
        }
        Origin { path: self.path, query: None }
    }

    /// Whether `other` has the same path. The queries are not compared.
    pub fn same_path(&self, other: &Origin) -> (r: bool)
        ensures
            r == (self@.path == other@.path),
    {
        self.path == other.path
    }

    /// The origin as one string, the query behind a `?`.
    pub fn render(&self) -> (r: String)
        ensures
            r@ == self@.render(),
    {
        let mut out = self.path.clone();
        match &self.query {
            Some(q) => {
                proof {
                    reveal_strlit("?");
                }
                out.append("?");
                out.append(q.as_str());
                assert(out@ == self@.path + seq!['?'] + q@);
            },
            None => {},
        }
        out
    }

    /// The effective origin of a route with origin `route` mounted at this
    /// base.
    pub fn join(&self, route: &Origin) -> (r: Origin)
        ensures
            r@ == joined(self@, route@),
    {
        proof {
            use_type_invariant(self);
            use_type_invariant(route);
            is_ascii_chars_encode_utf8(self@.path);
            is_ascii_chars_encode_utf8(route@.path);
        }
        let query = match &route.query {
            Some(q) => Some(q.clone()),
            None => None,
        };
        let rp = route.path.as_str();
        let n = rp.as_bytes().len();
        if n == 1 {
            return Origin { path: self.path.clone(), query };
        }
        let bp = self.path.as_str();
        let mut end: usize = bp.as_bytes().len();
        assert(bp@.subrange(0, end as int) == bp@);
        while end > 0 && bp.get_ascii(end - 1) == SLASH
            invariant
                end <= bp@.len(),
                is_ascii_chars(bp@),
                trimmed_len(bp@) == trimmed_len(bp@.subrange(0, end as int)),
            decreases end,
        {
            assert(bp@.subrange(0, end as int).drop_last() == bp@.subrange(0, end - 1));
            end = end - 1;
        }
        let mut start: usize = 0;
        while start < n && rp.get_ascii(start) == SLASH
            invariant
                start <= n == rp@.len(),
                is_ascii_chars(rp@),
                leading_slashes(rp@, 0) == leading_slashes(rp@, start as int),
            decreases n - start,
        {
            start = start + 1;
        }
        let mut path = String::from_str(bp.substring_ascii(0, end));
        proof {
            reveal_strlit("/");
        }
        path.append("/");
        path.append(rp.substring_ascii(start, n));
        proof {
            let joined = join_path(self@.path, route@.path);
            assert(path@ == joined);
            let head = bp@.subrange(0, end as int);
            let tail = rp@.subrange(start as int, n as int);
            assert forall|k: int| 0 <= k < joined.len() implies is_path_byte(
                #[trigger] byte_at(joined, k),
            ) && '\0' <= joined[k] <= '\u{7f}' by {
                if k < head.len() {
                    assert(byte_at(joined, k) == byte_at(bp@, k));
                } else if k == head.len() {
                    assert(joined[k] == '/');
                } else {
                    assert(byte_at(joined, k) == byte_at(rp@, start + (k - head.len() - 1)));
                }
            }
            assert(byte_at(joined, 0) == SLASH) by {
                if head.len() > 0 {
                    assert(byte_at(joined, 0) == byte_at(bp@, 0));
                }
            }
        }
        Origin { path, query }
    }

    fn parse_with(s: &str, dynamic: bool) -> (r: Result<Origin, UriError>)
        ensures
            match r {
                Ok(o) => is_origin(s@, dynamic) && o@ == parse_origin(s@) && (!dynamic
                    ==> o@.is_static()),
                Err(e) => origin_error(s@, dynamic) == Some(e),
            },
    {
        if s.is_empty() {
            return Err(UriError::Empty);
        }
        if !s.is_ascii() {
            return Err(UriError::NotAscii);
        }
        proof {
            is_ascii_chars_encode_utf8(s@);
        }
        let n = s.as_bytes().len();
        if s.get_ascii(0) != SLASH {
            return Err(UriError::Relative);
        }
        let mut mark: usize = n;
        let mut seen: bool = false;
        let mut i: usize = 0;
        while i < n
            invariant
                i <= n,
                0 < n == s@.len(),
                is_ascii_chars(s@),
                byte_at(s@, 0) == SLASH,
                mark <= n,
                mark == n ==> query_mark(s@, 0) == query_mark(s@, i as int),
                mark < n ==> mark < i && query_mark(s@, 0) == mark,
                forall|k: int|
                    0 <= k < i ==> if k < query_mark(s@, 0) {
                        is_path_byte(#[trigger] byte_at(s@, k))
                    } else {
                        is_query_byte(byte_at(s@, k))
                    },
                seen <==> exists|k: int| 0 <= k < i && is_dynamic(#[trigger] byte_at(s@, k)),
            decreases n - i,
        {
            let b = s.get_ascii(i);
            assert(b == byte_at(s@, i as int));
            proof {
                lemma_query_mark(s@, i as int);
                lemma_query_mark(s@, 0);
            }
            if mark == n && b == QUESTION {
                mark = i;
            } else if !(path_byte(b) || (mark < n && b == QUESTION)) {
                assert(!bytes_allowed(s@));
                return Err(UriError::Invalid);
            }
            if b == OPEN || b == CLOSE {
                seen = true;
            }
            i = i + 1;
        }
        proof {
            lemma_query_mark(s@, 0);
        }
        assert(bytes_allowed(s@));
        if !dynamic && seen {
            return Err(UriError::Dynamic);
        }
        let path = String::from_str(s.substring_ascii(0, mark));
        let query = if mark < n {
            Some(String::from_str(s.substring_ascii(mark + 1, n)))
        } else {
            None
        };
        proof {
            lemma_parse_renders_back(s@);
        }
        Ok(Origin { path, query })
    }
}

/// An origin is read back as it was written: the origin that a valid string
/// denotes is valid, and rendered it is the string again.
pub proof fn lemma_parse_renders_back(s: Seq<char>)
    requires
        is_origin(s, true),
    ensures
        parse_origin(s).valid(),
        parse_origin(s).render() == s,
        !has_dynamic(s) ==> parse_origin(s).is_static(),
{
    let v = parse_origin(s);
    let mark = query_mark(s, 0);
    lemma_query_mark(s, 0);
    assert forall|k: int| 0 <= k < v.path.len() implies is_path_byte(
        #[trigger] byte_at(v.path, k),
    ) by {
        assert(byte_at(v.path, k) == byte_at(s, k));
    }
    assert(byte_at(v.path, 0) == byte_at(s, 0));
    if let Some(q) = v.query {
        assert forall|k: int| 0 <= k < q.len() implies is_query_byte(#[trigger] byte_at(q, k)) by {
            assert(byte_at(q, k) == byte_at(s, mark + 1 + k));
        }
        assert forall|k: int| 0 <= k < q.len() && is_dynamic(
            #[trigger] byte_at(q, k),
        ) implies has_dynamic(s) by {
            assert(byte_at(q, k) == byte_at(s, mark + 1 + k));
        }
        assert(byte_at(s, mark) == QUESTION);
        assert(s[mark] == '?');
        assert(v.render() =~= s);
    } else {
        assert(v.render() =~= s);
    }
    assert forall|k: int| 0 <= k < v.path.len() && is_dynamic(
        #[trigger] byte_at(v.path, k),
    ) implies has_dynamic(s) by {
        assert(byte_at(v.path, k) == byte_at(s, k));
    }
}

/// A route at `/` takes the base's path as its effective URI, character for
/// character, with or without a slash at its end; the base's query is
/// dropped. For a base without a query, the effective URI is the base itself.
pub proof fn lemma_root_route_takes_base(base: Seq<char>)
    requires
        is_base(base),
    ensures
        joined(parse_origin(base).without_query(), parse_origin(seq!['/'])).render()
            == parse_origin(base).path,
        query_mark(base, 0) == base.len() ==> joined(
            parse_origin(base).without_query(),
            parse_origin(seq!['/']),
        ).render() == base,
{
    let root = seq!['/'];
    assert(byte_at(root, 0) == SLASH);
    assert(query_mark(root, 1) == 1);
    assert(query_mark(root, 0) == 1);
    assert(root.subrange(0, 1) == root);
    assert(base.subrange(0, base.len() as int) == base);
}

/// Where the route's path is not `/`, the effective path is the base without
/// the slashes at its end, one slash, and the route's path without the slashes
/// at its start: there is exactly one slash where the two meet.
pub proof fn lemma_join_has_one_slash(base: OriginView, route: OriginView)
    requires
        base.valid(),
        route.valid(),
        !route.is_root(),
    ensures
        ({
            let path = joined(base, route).path;
            let at = trimmed_len(base.path);
            &&& 0 <= at < path.len()
            &&& path[at] == '/'
            &&& at > 0 ==> byte_at(path, at - 1) != SLASH
            &&& at + 1 < path.len() ==> byte_at(path, at + 1) != SLASH
            &&& joined(base, route).query == route.query
        }),
{
    lemma_trimmed_len(base.path);
    lemma_leading_slashes(route.path, 0);
}

/// What is left of `s` by `trimmed_len` does not end in a slash.
pub proof fn lemma_trimmed_len(s: Seq<char>)
    ensures
        0 <= trimmed_len(s) <= s.len(),
        trimmed_len(s) > 0 ==> byte_at(s, trimmed_len(s) - 1) != SLASH,
        forall|i: int| trimmed_len(s) <= i < s.len() ==> #[trigger] byte_at(s, i) == SLASH,
    decreases s.len(),
{
    if s.len() > 0 && byte_at(s, s.len() - 1) == SLASH {
        lemma_trimmed_len(s.drop_last());
        assert forall|i: int| trimmed_len(s) <= i < s.len() implies #[trigger] byte_at(s, i)
            == SLASH by {
            if i < s.len() - 1 {
                assert(byte_at(s.drop_last(), i) == SLASH);
            }
        }
    }
}

/// From `from` up to where `leading_slashes` stops there are only slashes,
/// and none stands there.
pub proof fn lemma_leading_slashes(s: Seq<char>, from: int)
    requires
        0 <= from <= s.len(),
    ensures
        from <= leading_slashes(s, from) <= s.len(),
        forall|i: int| from <= i < leading_slashes(s, from) ==> #[trigger] byte_at(s, i) == SLASH,
        leading_slashes(s, from) < s.len() ==> byte_at(s, leading_slashes(s, from)) != SLASH,
    decreases s.len() - from,
{
    if from < s.len() && byte_at(s, from) == SLASH {
        lemma_leading_slashes(s, from + 1);
    }
}

} // verus!
