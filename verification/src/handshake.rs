use vstd::prelude::*;
use crate::{WsGonzaleError, WsGonzaleResult};

verus! {

broadcast use vstd::array::group_array_axioms;

// ---------------------------------------------------------------------------
// The accept key
// ---------------------------------------------------------------------------
/// The fixed GUID the protocol appends to the client's key before hashing.
pub open spec fn spec_magic_guid() -> Seq<char> {
    "258EAFA5-E914-47DA-95CA-C5AB0DC85B11"@
}

/// The twenty digest bytes SHA-1 yields for a string. They depend on the
/// characters alone.
pub uninterp spec fn sha1_of(s: Seq<char>) -> Seq<u8>;

/// Relies on sha1::Sha1 (update, digest): the digest is a function of the
/// input bytes alone and is always twenty bytes.
#[verifier::external_body]
fn sha1_str(s: &str) -> (r: [u8; 20])
    ensures
        r@ == sha1_of(s@),
{
    let mut sha1 = sha1::Sha1::new();
    sha1.update(s.as_bytes());
    sha1.digest().bytes()
}

/// The characters of the standard padded base64 encoding of a byte
/// sequence. They depend on the bytes alone.
pub uninterp spec fn base64_of(b: Seq<u8>) -> Seq<char>;

/// Relies on base64::encode: the standard alphabet with padding, so the
/// output takes four characters for every started group of three bytes.
#[verifier::external_body]
fn base64_encode(b: &[u8]) -> (r: String)
    ensures
        r@ == base64_of(b@),
        r@.len() == 4 * ((b@.len() + 2) / 3),
{
    base64::encode(b)
}

/// The accept key the handshake answers with: the base64 encoding of the
/// SHA-1 digest of the client's key followed by the magic GUID.
pub open spec fn spec_accept_key(key: Seq<char>) -> Seq<char> {
    base64_of(sha1_of(key + spec_magic_guid()))
}

/// Derives the accept key from the client's `Sec-WebSocket-Key` value. It
/// never fails, and the key always comes out twenty-eight characters long.
pub fn get_accept_from_key(key: &str) -> (r: Result<String, String>)
    ensures
        r matches Ok(s) && s@ == spec_accept_key(key@) && s@.len() == 28,
{
    let mut accept_key = String::new();
    accept_key.append(key);
    accept_key.append("258EAFA5-E914-47DA-95CA-C5AB0DC85B11");
    assert(accept_key@ =~= key@ + spec_magic_guid());
    let sha1_accept_key = sha1_str(accept_key.as_str());
    let encoded = base64_encode(sha1_accept_key.as_slice());
    assert(sha1_of(key@ + spec_magic_guid()).len() == 20);
    Ok(encoded)
}

/// The full `101 Switching Protocols` response for a client key: the three
/// fixed headers, then the derived accept key, then the closing blank line.
pub open spec fn spec_handshake_response(key: Seq<char>) -> Seq<char> {
    "HTTP/1.1 101 Switching Protocols\r\nUpgrade: websocket\r\nConnection: Upgrade\r\nSec-Websocket-Accept: "@
        + spec_accept_key(key) + "\r\n\r\n"@
}

/// Builds the handshake response for a client key. The caller writes the
/// returned bytes to its transport unchanged.
pub fn handshake_response(key: &str) -> (r: String)
    ensures
        r@ == spec_handshake_response(key@),
{
    let accept_key = match get_accept_from_key(key) {
        Ok(k) => k,
        Err(_) => String::new(),
    };
    let mut response = String::new();
    response.append(
        "HTTP/1.1 101 Switching Protocols\r\nUpgrade: websocket\r\nConnection: Upgrade\r\nSec-Websocket-Accept: ",
    );
    response.append(accept_key.as_str());
    response.append("\r\n\r\n");
    assert(response@ =~= spec_handshake_response(key@));
    response
}

// ---------------------------------------------------------------------------
// Scanning text
// ---------------------------------------------------------------------------
/// The index of the first occurrence of `c` at or after `from`, or the
/// length when there is none.
pub open spec fn spec_find(s: Seq<char>, c: char, from: int) -> int
    decreases s.len() - from,
        when 0 <= from <= s.len()
{
    if from >= s.len() {
        s.len() as int
    } else if s[from] == c {
        from
    } else {
        spec_find(s, c, from + 1)
    }
}

/// Where the first occurrence of `c` is found: between `from` and the end,
/// on `c` itself when it is found, past nothing but other characters.
pub proof fn lemma_spec_find(s: Seq<char>, c: char, from: int)
    requires
        0 <= from <= s.len(),
    ensures
        from <= spec_find(s, c, from) <= s.len(),
        spec_find(s, c, from) < s.len() ==> s[spec_find(s, c, from)] == c,
        forall|j: int| from <= j < spec_find(s, c, from) ==> s[j] != c,
    decreases s.len() - from,
{
    if from < s.len() && s[from] != c {
        lemma_spec_find(s, c, from + 1);
    }
}

/// The index of the first colon-space separator at or after `from`, or the
/// length when there is none. The separator needs both of its characters
/// inside the text.
pub open spec fn spec_find_sep(s: Seq<char>, from: int) -> int
    decreases s.len() - from,
        when 0 <= from <= s.len()
{
    if from >= s.len() {
        s.len() as int
    } else if s[from] == ':' && from + 1 < s.len() && s[from + 1] == ' ' {
        from
    } else {
        spec_find_sep(s, from + 1)
    }
}

/// Where the first separator is found: in bounds, and on a real separator
/// when one is found.
pub proof fn lemma_spec_find_sep(s: Seq<char>, from: int)
    requires
        0 <= from <= s.len(),
    ensures
        from <= spec_find_sep(s, from) <= s.len(),
        spec_find_sep(s, from) < s.len() ==> s[spec_find_sep(s, from)] == ':' && spec_find_sep(
            s,
            from,
        ) + 1 < s.len() && s[spec_find_sep(s, from) + 1] == ' ',
    decreases s.len() - from,
{
    if from < s.len() && !(s[from] == ':' && from + 1 < s.len() && s[from + 1] == ' ') {
        lemma_spec_find_sep(s, from + 1);
    }
}

/// A line with its trailing carriage return removed, when it has one.
pub open spec fn spec_strip_cr(l: Seq<char>) -> Seq<char> {
    if l.len() > 0 && l[l.len() - 1] == '\r' {
        l.drop_last()
    } else {
        l
    }
}

/// The lines of the text from `from` on: split on line feeds, each line
/// stripped of a trailing carriage return, with no empty line after a
/// trailing line feed.
pub open spec fn spec_lines_from(s: Seq<char>, from: int) -> Seq<Seq<char>>
    decreases s.len() - from,
        when 0 <= from <= s.len()
        via spec_lines_from_decreases
{
    if from >= s.len() {
        seq![]
    } else {
        let e = spec_find(s, '\n', from);
        if e >= s.len() {
            seq![spec_strip_cr(s.subrange(from, s.len() as int))]
        } else {
            seq![spec_strip_cr(s.subrange(from, e))] + spec_lines_from(s, e + 1)
        }
    }
}

#[via_fn]
proof fn spec_lines_from_decreases(s: Seq<char>, from: int) {
    if 0 <= from < s.len() {
        lemma_spec_find(s, '\n', from);
    }
}

/// The concatenation of a sequence of lines, with nothing between them.
pub open spec fn spec_join(ls: Seq<Seq<char>>) -> Seq<char>
    decreases ls.len(),
{
    if ls.len() == 0 {
        Seq::empty()
    } else {
        spec_join(ls.drop_last()) + ls.last()
    }
}

/// The index of the first empty line at or after `from`, or the number of
/// lines when there is none.
pub open spec fn spec_first_empty(ls: Seq<Seq<char>>, from: int) -> int
    decreases ls.len() - from,
        when 0 <= from <= ls.len()
{
    if from >= ls.len() {
        ls.len() as int
    } else if ls[from].len() == 0 {
        from
    } else {
        spec_first_empty(ls, from + 1)
    }
}

/// The character views of a sequence of strings.
pub open spec fn spec_strings_view(v: Seq<String>) -> Seq<Seq<char>> {
    Seq::new(v.len(), |i: int| v[i]@)
}

/// The character views of a sequence of string pairs.
pub open spec fn spec_pairs_view(v: Seq<(String, String)>) -> Seq<(Seq<char>, Seq<char>)> {
    Seq::new(v.len(), |i: int| (v[i].0@, v[i].1@))
}

/// Whether two string slices hold the same characters.
fn str_eq(a: &str, b: &str) -> (r: bool)
    ensures
        r == (a@ == b@),
{
    let na = a.unicode_len();
    let nb = b.unicode_len();
    if na != nb {
        assert(a@ != b@);
        return false;
    }
    let mut i: usize = 0;
    while i < na
        invariant
            na == a@.len() == b@.len(),
            i <= na,
            forall|j: int| 0 <= j < i ==> a@[j] == b@[j],
        decreases na - i,
    {
        if a.get_char(i) != b.get_char(i) {
            return false;
        }
        i += 1;
    }
    assert(a@ =~= b@);
    true
}

/// The index of the first occurrence of `c` in `s` at or after `from`, or
/// the character length when there is none.
fn find_char_from(s: &str, c: char, from: usize) -> (r: usize)
    requires
        from as int <= s@.len(),
    ensures
        r == spec_find(s@, c, from as int),
        from <= r <= s@.len(),
        r < s@.len() ==> s@[r as int] == c,
{
    let n = s.unicode_len();
    let mut i: usize = from;
    while i < n
        invariant
            n == s@.len(),
            from <= i <= n,
            spec_find(s@, c, from as int) == spec_find(s@, c, i as int),
        decreases n - i,
    {
        if s.get_char(i) == c {
            return i;
        }
        i += 1;
    }
    n
}

/// The index of the first colon-space separator in `s` at or after `from`,
/// or the character length when there is none.
fn find_sep_from(s: &str, from: usize) -> (r: usize)
    requires
        from as int <= s@.len(),
    ensures
        r == spec_find_sep(s@, from as int),
        from <= r <= s@.len(),
        r < s@.len() ==> s@[r as int] == ':' && r + 1 < s@.len() && s@[r as int + 1] == ' ',
{
    let n = s.unicode_len();
    let mut i: usize = from;
    while i < n
        invariant
            n == s@.len(),
            from <= i <= n,
            spec_find_sep(s@, from as int) == spec_find_sep(s@, i as int),
        decreases n - i,
    {
        if s.get_char(i) == ':' && i + 1 < n && s.get_char(i + 1) == ' ' {
            return i;
        }
        i += 1;
    }
    n
}

/// Copies the characters of `s` between `from` and `to`, with a trailing
/// carriage return removed.
fn strip_cr_substring(s: &str, from: usize, to: usize) -> (r: String)
    requires
        from <= to <= s@.len(),
    ensures
        r@ == spec_strip_cr(s@.subrange(from as int, to as int)),
{
    let sub = s.substring_char(from, to);
    let m = sub.unicode_len();
    if m > 0 && sub.get_char(m - 1) == '\r' {
        let stripped = sub.substring_char(0, m - 1);
        assert(stripped@ =~= spec_strip_cr(s@.subrange(from as int, to as int)));
        stripped.to_owned()
    } else {
        assert(sub@ =~= spec_strip_cr(s@.subrange(from as int, to as int)));
        sub.to_owned()
    }
}

/// Splits the text into lines, as [`spec_lines_from`] describes.
fn split_lines(s: &str) -> (r: Vec<String>)
    ensures
        spec_strings_view(r@) == spec_lines_from(s@, 0),
{
    let n = s.unicode_len();
    let mut out: Vec<String> = Vec::new();
    let mut from: usize = 0;
    while from < n
        invariant
            n == s@.len(),
            from <= n,
            spec_lines_from(s@, 0) =~= spec_strings_view(out@) + spec_lines_from(s@, from as int),
        decreases n - from,
    {
        let ghost prev_from = from;
        let ghost prev_out = out@;
        let e = find_char_from(s, '\n', from);
        let line = strip_cr_substring(s, from, e);
        out.push(line);
        if e < n {
            from = e + 1;
        } else {
            from = n;
        }
        proof {
            assert(spec_strings_view(out@) =~= spec_strings_view(prev_out) + seq![out@.last()@]);
            if e < n {
                assert(spec_lines_from(s@, prev_from as int) =~= seq![
                    spec_strip_cr(s@.subrange(prev_from as int, e as int)),
                ] + spec_lines_from(s@, from as int));
            } else {
                assert(spec_lines_from(s@, prev_from as int) =~= seq![
                    spec_strip_cr(s@.subrange(prev_from as int, n as int)),
                ]);
            }
            assert(spec_lines_from(s@, 0) =~= spec_strings_view(out@) + spec_lines_from(
                s@,
                from as int,
            ));
        }
    }
    assert(spec_lines_from(s@, from as int) =~= Seq::<Seq<char>>::empty());
    assert(spec_strings_view(out@) =~= spec_strings_view(out@) + Seq::<Seq<char>>::empty());
    out
}

/// The index of the first empty line, or the line count when there is
/// none.
fn first_empty_index(lines: &Vec<String>) -> (r: usize)
    ensures
        r == spec_first_empty(spec_strings_view(lines@), 0),
        r <= lines@.len(),
{
    let n = lines.len();
    let mut i: usize = 0;
    while i < n
        invariant
            n == lines@.len(),
            i <= n,
            spec_first_empty(spec_strings_view(lines@), 0) == spec_first_empty(
                spec_strings_view(lines@),
                i as int,
            ),
        decreases n - i,
    {
        if lines[i].as_str().is_empty() {
            return i;
        }
        i += 1;
    }
    n
}

/// Joins the lines from `from` on, with nothing between them.
fn join_lines(lines: &Vec<String>, from: usize) -> (r: String)
    requires
        from <= lines@.len(),
    ensures
        r@ == spec_join(spec_strings_view(lines@).skip(from as int)),
{
    let ghost view = spec_strings_view(lines@);
    let n = lines.len();
    let mut out = String::new();
    let mut i: usize = from;
    while i < n
        invariant
            n == lines@.len(),
            view == spec_strings_view(lines@),
            from <= i <= n,
            out@ == spec_join(view.subrange(from as int, i as int)),
        decreases n - i,
    {
        out.append(lines[i].as_str());
        proof {
            assert(view.subrange(from as int, i + 1).drop_last() =~= view.subrange(
                from as int,
                i as int,
            ));
            assert(view.subrange(from as int, i + 1).last() == lines@[i as int]@);
        }
        i += 1;
    }
    assert(view.subrange(from as int, n as int) =~= view.skip(from as int));
    out
}

// ---------------------------------------------------------------------------
// Headers
// ---------------------------------------------------------------------------
/// The map a sequence of key-value pairs builds up, a later pair with the
/// same key overriding an earlier one.
pub open spec fn spec_pairs_map(pairs: Seq<(Seq<char>, Seq<char>)>) -> Map<Seq<char>, Seq<char>>
    decreases pairs.len(),
{
    if pairs.len() == 0 {
        Map::empty()
    } else {
        spec_pairs_map(pairs.drop_last()).insert(pairs.last().0, pairs.last().1)
    }
}

/// Pairs at or past `i` that never mention a key leave its lookup to the
/// pairs before them.
proof fn lemma_pairs_map_no_key_suffix(pairs: Seq<(Seq<char>, Seq<char>)>, i: int, k: Seq<char>)
    requires
        0 <= i <= pairs.len(),
        forall|j: int| i <= j < pairs.len() ==> (#[trigger] pairs[j]).0 != k,
    ensures
        spec_pairs_map(pairs).contains_key(k) == spec_pairs_map(pairs.take(i)).contains_key(k),
        spec_pairs_map(pairs.take(i)).contains_key(k) ==> spec_pairs_map(pairs)[k]
            == spec_pairs_map(pairs.take(i))[k],
    decreases pairs.len() - i,
{
    if i == pairs.len() {
        assert(pairs.take(i) =~= pairs);
    } else {
        let shorter = pairs.drop_last();
        assert(pairs.last().0 != k);
        lemma_pairs_map_no_key_suffix(shorter, i, k);
        assert(shorter.take(i) =~= pairs.take(i));
    }
}

/// The request headers: the header lines in the order they were received,
/// read through the map that later duplicates override.
#[derive(Debug)]
pub struct Headers {
    entries: Vec<(String, String)>,
}

impl View for Headers {
    type V = Map<Seq<char>, Seq<char>>;

    closed spec fn view(&self) -> Map<Seq<char>, Seq<char>> {
        spec_pairs_map(self.spec_entries())
    }
}

impl Headers {
    /// The stored key-value pairs, in order.
    pub closed spec fn spec_entries(&self) -> Seq<(Seq<char>, Seq<char>)> {
        spec_pairs_view(self.entries@)
    }

    /// Wraps the received header lines; the map view reads a duplicated key
    /// as its last occurrence.
    pub fn new(headers: Vec<(String, String)>) -> (r: Headers)
        ensures
            r.spec_entries() == spec_pairs_view(headers@),
            r@ == spec_pairs_map(spec_pairs_view(headers@)),
    {
        Headers { entries: headers }
    }

    /// Looks a header up by its exact key: the value of its last
    /// occurrence, or nothing when the key never appeared.
    pub fn get(&self, key: &str) -> (r: Option<&String>)
        ensures
            match r {
                Some(v) => self@.contains_key(key@) && v@ == self@[key@],
                None => !self@.contains_key(key@),
            },
    {
        let ghost pairs = self.spec_entries();
        let n = self.entries.len();
        let mut i: usize = n;
        while i > 0
            invariant
                n == self.entries@.len(),
                pairs == self.spec_entries(),
                i <= n,
                forall|j: int| i <= j < n ==> (#[trigger] pairs[j]).0 != key@,
            decreases i,
        {
            i = i - 1;
            if str_eq(self.entries[i].0.as_str(), key) {
                proof {
                    lemma_pairs_map_no_key_suffix(pairs, i + 1, key@);
                    assert(pairs.take(i + 1).drop_last() =~= pairs.take(i as int));
                    assert(pairs.take(i + 1).last() == pairs[i as int]);
                }
                return Some(&self.entries[i].1);
            }
        }
        proof {
            lemma_pairs_map_no_key_suffix(pairs, 0, key@);
            assert(pairs.take(0) =~= Seq::<(Seq<char>, Seq<char>)>::empty());
        }
        None
    }

    /// How many header lines were stored.
    pub fn len(&self) -> (r: usize)
        ensures
            r == self.spec_entries().len(),
    {
        self.entries.len()
    }
}

/// The key and value of a header line: split at the first colon-space, or
/// nothing when the line has none.
pub open spec fn spec_header_split(line: Seq<char>) -> Option<(Seq<char>, Seq<char>)> {
    let i = spec_find_sep(line, 0);
    if i >= line.len() {
        None
    } else {
        Some((line.take(i), line.skip(i + 2)))
    }
}

/// The key-value pairs of a sequence of header lines, lines without a
/// separator dropped.
pub open spec fn spec_header_pairs(ls: Seq<Seq<char>>) -> Seq<(Seq<char>, Seq<char>)>
    decreases ls.len(),
{
    if ls.len() == 0 {
        seq![]
    } else {
        match spec_header_split(ls.first()) {
            Some(p) => seq![p] + spec_header_pairs(ls.drop_first()),
            None => spec_header_pairs(ls.drop_first()),
        }
    }
}

/// Splits one header line at its first colon-space.
fn split_header_line(line: &str) -> (r: Option<(String, String)>)
    ensures
        match r {
            Some(p) => spec_header_split(line@) == Some((p.0@, p.1@)),
            None => spec_header_split(line@) is None,
        },
{
    let n = line.unicode_len();
    let i = find_sep_from(line, 0);
    if i < n {
        let key = line.substring_char(0, i).to_owned();
        let value = line.substring_char(i + 2, n).to_owned();
        proof {
            assert(key@ =~= line@.take(i as int));
            assert(value@ =~= line@.skip(i + 2));
        }
        Some((key, value))
    } else {
        None
    }
}

/// The key-value pairs of the header lines between `lo` and `hi`.
fn header_pairs(lines: &Vec<String>, lo: usize, hi: usize) -> (r: Vec<(String, String)>)
    requires
        lo <= hi <= lines@.len(),
    ensures
        spec_pairs_view(r@) == spec_header_pairs(spec_strings_view(lines@).subrange(
            lo as int,
            hi as int,
        )),
{
    let ghost view = spec_strings_view(lines@);
    let mut out: Vec<(String, String)> = Vec::new();
    let mut i: usize = lo;
    while i < hi
        invariant
            hi <= lines@.len(),
            view == spec_strings_view(lines@),
            lo <= i <= hi,
            spec_header_pairs(view.subrange(lo as int, hi as int)) =~= spec_pairs_view(out@)
                + spec_header_pairs(view.subrange(i as int, hi as int)),
        decreases hi - i,
    {
        let ghost prev_out = out@;
        match split_header_line(lines[i].as_str()) {
            Some(pair) => {
                out.push(pair);
                proof {
                    assert(spec_pairs_view(out@) =~= spec_pairs_view(prev_out) + seq![
                        (out@.last().0@, out@.last().1@),
                    ]);
                }
            },
            None => {},
        }
        proof {
            let rest = view.subrange(i as int, hi as int);
            assert(rest.first() == view[i as int]);
            assert(rest.drop_first() =~= view.subrange(i + 1, hi as int));
            assert(spec_header_pairs(view.subrange(lo as int, hi as int)) =~= spec_pairs_view(out@)
                + spec_header_pairs(view.subrange(i + 1, hi as int)));
        }
        i += 1;
    }
    assert(view.subrange(hi as int, hi as int) =~= Seq::<Seq<char>>::empty());
    assert(spec_pairs_view(out@) =~= spec_pairs_view(out@) + spec_header_pairs(
        view.subrange(hi as int, hi as int),
    ));
    out
}

// ---------------------------------------------------------------------------
// The request line
// ---------------------------------------------------------------------------
/// The request methods the handshake distinguishes. Only GET and POST are
/// recognized on the wire; everything else reads as Unknown.
#[derive(Clone, Copy, Debug, PartialEq, Eq, Structural)]
pub enum HTTPMethod {
    GET,
    POST,
    DELETE,
    Unknown,
}

/// The method a token names.
pub open spec fn spec_method_of(tok: Seq<char>) -> HTTPMethod {
    if tok == "GET"@ {
        HTTPMethod::GET
    } else if tok == "POST"@ {
        HTTPMethod::POST
    } else {
        HTTPMethod::Unknown
    }
}

/// The method of a request line: named by everything before the first
/// space (or the whole line without one).
pub open spec fn spec_request_line_method(line: Seq<char>) -> HTTPMethod {
    spec_method_of(line.take(spec_find(line, ' ', 0)))
}

/// The URI of a request line: the second space-separated token, empty when
/// there is none.
pub open spec fn spec_request_line_uri(line: Seq<char>) -> Seq<char> {
    let i = spec_find(line, ' ', 0);
    if i >= line.len() {
        Seq::empty()
    } else {
        line.subrange(i + 1, spec_find(line, ' ', i + 1))
    }
}

/// The request URI as received.
#[derive(Debug)]
pub struct Uri(String);

impl View for Uri {
    type V = Seq<char>;

    closed spec fn view(&self) -> Seq<char> {
        self.0@
    }
}

impl Uri {
    /// The URI's characters.
    pub fn as_str(&self) -> (r: &str)
        ensures
            r@ == self@,
    {
        self.0.as_str()
    }
}

/// The method and URI of the request line.
#[derive(Debug)]
pub struct Endpoint {
    method: HTTPMethod,
    uri: Uri,
}

impl Endpoint {
    pub closed spec fn spec_method(&self) -> HTTPMethod {
        self.method
    }

    pub closed spec fn spec_uri(&self) -> Seq<char> {
        self.uri@
    }

    /// Parses a request line: the first space-separated token names the
    /// method, the second is the URI.
    pub fn new(s: &str) -> (r: Endpoint)
        ensures
            r.spec_method() == spec_request_line_method(s@),
            r.spec_uri() == spec_request_line_uri(s@),
    {
        let n = s.unicode_len();
        let i = find_char_from(s, ' ', 0);
        let method_tok = s.substring_char(0, i);
        assert(method_tok@ =~= s@.take(i as int));
        let method = if str_eq(method_tok, "GET") {
            HTTPMethod::GET
        } else if str_eq(method_tok, "POST") {
            HTTPMethod::POST
        } else {
            HTTPMethod::Unknown
        };
        let uri = if i >= n {
            let empty = String::new();
            assert(empty@ =~= spec_request_line_uri(s@));
            Uri(empty)
        } else {
            let j = find_char_from(s, ' ', i + 1);
            let tok = s.substring_char(i + 1, j).to_owned();
            assert(tok@ =~= spec_request_line_uri(s@));
            Uri(tok)
        };
        Endpoint { method, uri }
    }

    pub fn get_method(&self) -> (r: &HTTPMethod)
        ensures
            *r == self.spec_method(),
    {
        &self.method
    }

    pub fn get_uri(&self) -> (r: &Uri)
        ensures
            r@ == self.spec_uri(),
    {
        &self.uri
    }
}

// ---------------------------------------------------------------------------
// The request
// ---------------------------------------------------------------------------
/// The request body as received.
#[derive(Debug)]
pub struct Body(String);

impl View for Body {
    type V = Seq<char>;

    closed spec fn view(&self) -> Seq<char> {
        self.0@
    }
}

impl PartialEq for Body {
    fn eq(&self, other: &Body) -> (r: bool) {
        self.0 == other.0
    }
}

impl vstd::std_specs::cmp::PartialEqSpecImpl for Body {
    open spec fn obeys_eq_spec() -> bool {
        true
    }

    open spec fn eq_spec(&self, other: &Body) -> bool {
        self@ == other@
    }
}

impl Body {
    /// The body's characters.
    pub fn get_body(&self) -> (r: &str)
        ensures
            r@ == self@,
    {
        self.0.as_str()
    }
}

/// Everything after the first empty line, joined with nothing between the
/// lines, or nothing when no line is empty.
pub open spec fn spec_body_of(s: Seq<char>) -> Option<Seq<char>> {
    let lines = spec_lines_from(s, 0);
    let ei = spec_first_empty(lines, 0);
    if ei < lines.len() {
        Some(spec_join(lines.skip(ei)))
    } else {
        None
    }
}

/// Whether the text parses as a request: its first line exists and is not
/// empty.
pub open spec fn spec_request_ok(s: Seq<char>) -> bool {
    spec_first_empty(spec_lines_from(s, 0), 0) > 0
}

/// A parsed upgrade request: the request line, the headers, and the body —
/// which is kept only on a POST.
#[derive(Debug)]
pub struct Request {
    endpoint: Endpoint,
    headers: Headers,
    body: Option<Body>,
}

impl Request {
    pub closed spec fn spec_method(&self) -> HTTPMethod {
        self.endpoint.method
    }

    pub closed spec fn spec_uri(&self) -> Seq<char> {
        self.endpoint.uri@
    }

    pub closed spec fn spec_headers(&self) -> Map<Seq<char>, Seq<char>> {
        self.headers@
    }

    pub closed spec fn spec_body(&self) -> Option<Seq<char>> {
        match self.body {
            Some(b) => Some(b@),
            None => None,
        }
    }

    /// What it means for this request to be the parse of the text `s`: the
    /// first line gives method and URI, the lines before the first empty
    /// line give the headers, and the body is everything after that empty
    /// line — kept only on a POST.
    pub open spec fn parsed_from(&self, s: Seq<char>) -> bool {
        let lines = spec_lines_from(s, 0);
        let ei = spec_first_empty(lines, 0);
        let rl = lines[0];
        &&& self.spec_method() == spec_request_line_method(rl)
        &&& self.spec_uri() == spec_request_line_uri(rl)
        &&& self.spec_headers() == spec_pairs_map(spec_header_pairs(lines.subrange(1, ei)))
        &&& self.spec_body() == (if self.spec_method() == HTTPMethod::POST {
            spec_body_of(s)
        } else {
            None
        })
    }

    /// Parses an upgrade request out of its text. Fails exactly when the
    /// text has no non-empty first line.
    pub fn from_str(s: &str) -> (r: WsGonzaleResult<Request>)
        ensures
            r is Ok <==> spec_request_ok(s@),
            r matches Ok(req) ==> req.parsed_from(s@),
            r matches Err(e) ==> e == WsGonzaleError::InvalidPayload,
    {
        let lines = split_lines(s);
        let ghost view = spec_strings_view(lines@);
        let ei = first_empty_index(&lines);
        let raw_body: Option<String> = if ei < lines.len() {
            Some(join_lines(&lines, ei))
        } else {
            None
        };
        if ei == 0 {
            return Err(WsGonzaleError::InvalidPayload);
        }
        let endpoint = Endpoint::new(lines[0].as_str());
        let pairs = header_pairs(&lines, 1, ei);
        let headers = Headers::new(pairs);
        let is_post = match endpoint.get_method() {
            HTTPMethod::POST => true,
            _ => false,
        };
        let body: Option<Body> = if is_post {
            match raw_body {
                Some(b) => Some(Body(b)),
                None => None,
            }
        } else {
            None
        };
        proof {
            assert(view[0] == lines@[0]@);
            assert(view.skip(ei as int) =~= view.skip(ei as int));
        }
        Ok(Request { endpoint, headers, body })
    }

    pub fn get_endpoint(&self) -> (r: &Endpoint)
        ensures
            r.spec_method() == self.spec_method(),
            r.spec_uri() == self.spec_uri(),
    {
        &self.endpoint
    }

    pub fn get_headers(&self) -> (r: &Headers)
        ensures
            r@ == self.spec_headers(),
    {
        &self.headers
    }

    pub fn get_body(&self) -> (r: Option<&Body>)
        ensures
            match r {
                Some(b) => self.spec_body() == Some(b@),
                None => self.spec_body() is None,
            },
    {
        self.body.as_ref()
    }
}

} // verus!
