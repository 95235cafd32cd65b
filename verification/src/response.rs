//! The response parser: raw engine output to a structured response.
//!
//! The engine writes its output in the CGI convention: optional header lines,
//! among them a `Status:` pseudo-header, a blank line, then the body. The
//! parser is a pure function of the bytes; malformed input never fails, it
//! degrades to "everything is body" or to the default status.

use vstd::prelude::*;
use vstd::utf8::{decode_utf8, valid_utf8};

verus! {

// ---------------------------------------------------------------------------
// Byte classes and searching
// ---------------------------------------------------------------------------

/// ASCII whitespace: space, and the horizontal-tab .. carriage-return block.
pub open spec fn is_ws(b: u8) -> bool {
    b == 32 || (9 <= b && b <= 13)
}

/// A decimal digit byte.
pub open spec fn is_digit(b: u8) -> bool {
    48 <= b && b <= 57
}

/// The first position at or after `i` holding byte `b`, or -1 when none does.
pub open spec fn find_byte_from(s: Seq<u8>, b: u8, i: int) -> int
    decreases s.len() - i,
{
    if i < 0 || i >= s.len() {
        -1
    } else if s[i] == b {
        i
    } else {
        find_byte_from(s, b, i + 1)
    }
}

/// The first position at or after `i` where the four-byte header/body
/// separator CR LF CR LF begins, or -1 when it never does.
pub open spec fn sep_pos_from(s: Seq<u8>, i: int) -> int
    decreases s.len() - i,
{
    if i < 0 || i + 4 > s.len() {
        -1
    } else if s[i] == 13 && s[i + 1] == 10 && s[i + 2] == 13 && s[i + 3] == 10 {
        i
    } else {
        sep_pos_from(s, i + 1)
    }
}

// ---------------------------------------------------------------------------
// Lines, trimming, tokens
// ---------------------------------------------------------------------------

/// One trailing carriage return dropped, as a CR LF line ending leaves one
/// before each line feed.
pub open spec fn strip_cr(s: Seq<u8>) -> Seq<u8> {
    if s.len() > 0 && s[s.len() - 1] == 13 {
        s.drop_last()
    } else {
        s
    }
}

/// The header block split into lines at each line feed, each line with one
/// trailing carriage return dropped. A final line needs no line feed; the
/// empty remainder after a final line feed is no line.
pub open spec fn lines_of(s: Seq<u8>) -> Seq<Seq<u8>>
    decreases s.len(),
{
    if s.len() == 0 {
        Seq::empty()
    } else {
        let j = find_byte_from(s, 10, 0);
        if 0 <= j && j < s.len() {
            seq![strip_cr(s.subrange(0, j))] + lines_of(s.subrange(j + 1, s.len() as int))
        } else {
            seq![strip_cr(s)]
        }
    }
}

/// Leading whitespace dropped.
pub open spec fn trim_start(s: Seq<u8>) -> Seq<u8>
    decreases s.len(),
{
    if s.len() > 0 && is_ws(s[0]) {
        trim_start(s.drop_first())
    } else {
        s
    }
}

/// Trailing whitespace dropped.
pub open spec fn trim_end(s: Seq<u8>) -> Seq<u8>
    decreases s.len(),
{
    if s.len() > 0 && is_ws(s[s.len() - 1]) {
        trim_end(s.drop_last())
    } else {
        s
    }
}

/// Surrounding whitespace dropped.
pub open spec fn trim(s: Seq<u8>) -> Seq<u8> {
    trim_end(trim_start(s))
}

/// The longest whitespace-free prefix.
pub open spec fn token_of(s: Seq<u8>) -> Seq<u8>
    decreases s.len(),
{
    if s.len() > 0 && !is_ws(s[0]) {
        seq![s[0]] + token_of(s.drop_first())
    } else {
        Seq::empty()
    }
}

/// The first whitespace-delimited token: leading whitespace skipped, then
/// everything up to the next whitespace.
pub open spec fn first_token(s: Seq<u8>) -> Seq<u8> {
    token_of(trim_start(s))
}

// ---------------------------------------------------------------------------
// The status number
// ---------------------------------------------------------------------------

/// The value of a sequence of digit bytes, most significant first.
pub open spec fn digits_val(s: Seq<u8>) -> nat
    decreases s.len(),
{
    if s.len() == 0 {
        0
    } else {
        digits_val(s.drop_last()) * 10 + (s[s.len() - 1] - 48) as nat
    }
}

/// Every byte is a digit.
pub open spec fn all_digits(s: Seq<u8>) -> bool {
    forall|i: int| 0 <= i < s.len() ==> is_digit(s[i])
}

/// A status token read as an unsigned decimal number: an optional leading
/// plus sign, then digits only, and a value that fits the status field;
/// anything else reads as nothing.
pub open spec fn parse_status_num(s: Seq<u8>) -> Option<u16> {
    let d = if s.len() > 0 && s[0] == 43 { s.drop_first() } else { s };
    if d.len() > 0 && all_digits(d) && digits_val(d) <= 65535 {
        Some(digits_val(d) as u16)
    } else {
        None
    }
}

// ---------------------------------------------------------------------------
// Decoded header text
// ---------------------------------------------------------------------------

/// What the lossy text decoder returns on bytes that are not valid UTF-8.
pub uninterp spec fn lossy_decode(b: Seq<u8>) -> Seq<char>;

/// The text carried by a byte sequence: its UTF-8 decoding when the bytes
/// are valid UTF-8, and the lossy decoding otherwise.
pub open spec fn text_of(b: Seq<u8>) -> Seq<char> {
    if valid_utf8(b) {
        decode_utf8(b)
    } else {
        lossy_decode(b)
    }
}

// ---------------------------------------------------------------------------
// The header mapping
// ---------------------------------------------------------------------------

/// Header names are pairwise distinct.
pub open spec fn distinct_keys(hs: Seq<(Seq<char>, Seq<char>)>) -> bool {
    forall|i: int, j: int| 0 <= i < j < hs.len() ==> hs[i].0 != hs[j].0
}

/// The position of `key` among the gathered headers, or -1 when it is new.
pub open spec fn key_pos(hs: Seq<(Seq<char>, Seq<char>)>, key: Seq<char>) -> int
    decreases hs.len(),
{
    if hs.len() == 0 {
        -1
    } else if hs[0].0 == key {
        0
    } else {
        let p = key_pos(hs.drop_first(), key);
        if p < 0 {
            -1
        } else {
            p + 1
        }
    }
}

/// Last write wins: a later line with an already-seen name replaces its
/// value; a new name is appended.
pub open spec fn upsert(
    hs: Seq<(Seq<char>, Seq<char>)>,
    key: Seq<char>,
    val: Seq<char>,
) -> Seq<(Seq<char>, Seq<char>)> {
    let p = key_pos(hs, key);
    if p < 0 {
        hs.push((key, val))
    } else {
        hs.update(p, (key, val))
    }
}

// ---------------------------------------------------------------------------
// Header lines
// ---------------------------------------------------------------------------

/// The bytes of the literal status pseudo-header prefix, `Status:`.
pub open spec fn status_prefix() -> Seq<u8> {
    seq![83u8, 116u8, 97u8, 116u8, 117u8, 115u8, 58u8]
}

/// The line begins with the literal prefix `Status:`, colon included.
pub open spec fn has_status_prefix(line: Seq<u8>) -> bool {
    line.len() >= 7 && line.subrange(0, 7) == status_prefix()
}

/// One header line applied to the status and headers gathered so far.
///
/// A `Status:` line sets the status from its first token: a token that reads
/// as a number sets that number, a token that does not reads as the default
/// 200, and a missing token changes nothing. Such a line is no header. Any
/// other line with a colon becomes a header, name and value trimmed; a line
/// without a colon is ignored.
pub open spec fn apply_line(
    line: Seq<u8>,
    status: u16,
    hs: Seq<(Seq<char>, Seq<char>)>,
) -> (u16, Seq<(Seq<char>, Seq<char>)>) {
    if has_status_prefix(line) {
        let tok = first_token(line.skip(7));
        if tok.len() == 0 {
            (status, hs)
        } else {
            match parse_status_num(tok) {
                Some(v) => (v, hs),
                None => (200u16, hs),
            }
        }
    } else {
        let c = find_byte_from(line, 58, 0);
        if c < 0 {
            (status, hs)
        } else {
            let name = text_of(trim(line.subrange(0, c)));
            let val = text_of(trim(line.subrange(c + 1, line.len() as int)));
            (status, upsert(hs, name, val))
        }
    }
}

/// The header lines applied in order.
pub open spec fn apply_lines(
    lines: Seq<Seq<u8>>,
    status: u16,
    hs: Seq<(Seq<char>, Seq<char>)>,
) -> (u16, Seq<(Seq<char>, Seq<char>)>)
    decreases lines.len(),
{
    if lines.len() == 0 {
        (status, hs)
    } else {
        let st = apply_line(lines[0], status, hs);
        apply_lines(lines.drop_first(), st.0, st.1)
    }
}

/// The status and headers read from a header block, starting from the
/// default status 200 and no headers.
pub open spec fn header_block_model(block: Seq<u8>) -> (u16, Seq<(Seq<char>, Seq<char>)>) {
    apply_lines(lines_of(block), 200u16, Seq::empty())
}

/// The whole parse: status, headers and body read from raw engine output.
///
/// Without the separator the whole input is the body, verbatim, under the
/// default status and no headers; with it, the bytes before feed the header
/// model and the bytes after it are the body.
pub open spec fn response_model(raw: Seq<u8>) -> (u16, Seq<(Seq<char>, Seq<char>)>, Seq<u8>) {
    let p = sep_pos_from(raw, 0);
    if p < 0 {
        (200u16, Seq::empty(), raw)
    } else {
        let sh = header_block_model(raw.subrange(0, p));
        (sh.0, sh.1, raw.subrange(p + 4, raw.len() as int))
    }
}

/// The response carries exactly what the model reads from the raw bytes.
pub open spec fn parsed_from(resp: PhpResponse, raw: Seq<u8>) -> bool {
    resp.status_code == response_model(raw).0 && resp.headers@ == response_model(raw).1
        && resp.body@ == response_model(raw).2
}

/// Header-free output round-trips: whenever the raw output holds no
/// header/body separator, the parse loses nothing — the whole input is the
/// body, verbatim, the status is the default 200, and there is no header.
pub proof fn lemma_headerless_roundtrip(raw: Seq<u8>)
    requires
        sep_pos_from(raw, 0) == -1,
    ensures
        response_model(raw).0 == 200,
        response_model(raw).1 == Seq::<(Seq<char>, Seq<char>)>::empty(),
        response_model(raw).2 == raw,
{
}

/// A status token holding any non-digit — apart from one leading plus sign —
/// reads as no number at all, so the `Status:` line it came from sets the
/// default 200, whatever the rest of the token says.
pub proof fn lemma_malformed_status_token(s: Seq<u8>, i: int)
    requires
        0 <= i < s.len(),
        !is_digit(s[i]),
        !(i == 0 && s[0] == 43),
    ensures
        parse_status_num(s) is None,
{
    if s.len() > 0 && s[0] == 43 {
        assert(s.drop_first()[i - 1] == s[i]);
        assert(!all_digits(s.drop_first()));
    } else {
        assert(!all_digits(s));
    }
}

// ---------------------------------------------------------------------------
// Decoding header bytes to text
// ---------------------------------------------------------------------------

/// Relies on `String::from_utf8_lossy`: bytes that are valid UTF-8 decode to
/// exactly that text, and any other bytes decode to a text that is a function
/// of the bytes alone (invalid sequences replaced by the replacement
/// character).
#[verifier::external_body]
fn decode_text(b: &[u8]) -> (r: String)
    ensures
        valid_utf8(b@) ==> r@ == decode_utf8(b@),
        !valid_utf8(b@) ==> r@ == lossy_decode(b@),
{
    String::from_utf8_lossy(b).into_owned()
}

// ---------------------------------------------------------------------------
// Case-insensitive name lookup
// ---------------------------------------------------------------------------

/// An ASCII upper-case byte folded to lower case; every other byte as it is.
pub open spec fn fold_byte(b: u8) -> u8 {
    if 65 <= b && b <= 90 {
        (b + 32) as u8
    } else {
        b
    }
}

/// Byte sequences equal once upper-case ASCII is folded to lower case.
pub open spec fn eq_folded(a: Seq<u8>, b: Seq<u8>) -> bool {
    a.len() == b.len() && forall|i: int| 0 <= i < a.len() ==> fold_byte(a[i]) == fold_byte(b[i])
}

/// Texts equal up to ASCII case: their UTF-8 encodings agree once upper-case
/// ASCII is folded to lower case. Bytes of a multi-byte character are never
/// in the folded range, so non-ASCII text must agree exactly.
pub open spec fn ascii_eq_ci(a: Seq<char>, b: Seq<char>) -> bool {
    eq_folded(vstd::utf8::encode_utf8(a), vstd::utf8::encode_utf8(b))
}

/// The position of the first gathered header whose name equals `key` up to
/// ASCII case, or -1 when none does.
pub open spec fn ci_pos(hs: Seq<(Seq<char>, Seq<char>)>, key: Seq<char>) -> int
    decreases hs.len(),
{
    if hs.len() == 0 {
        -1
    } else if ascii_eq_ci(hs[0].0, key) {
        0
    } else {
        let p = ci_pos(hs.drop_first(), key);
        if p < 0 {
            -1
        } else {
            p + 1
        }
    }
}

// ---------------------------------------------------------------------------
// Position lemmas
// ---------------------------------------------------------------------------

/// `key_pos` finds the first exactly-equal name.
proof fn lemma_key_pos_first(hs: Seq<(Seq<char>, Seq<char>)>, key: Seq<char>, i: int)
    requires
        0 <= i < hs.len(),
        hs[i].0 == key,
        forall|j: int| 0 <= j < i ==> hs[j].0 != key,
    ensures
        key_pos(hs, key) == i,
    decreases i,
{
    if i == 0 {
    } else {
        assert(hs[0].0 != key);
        lemma_key_pos_first(hs.drop_first(), key, i - 1);
    }
}

/// `key_pos` reports a missing name as -1.
proof fn lemma_key_pos_none(hs: Seq<(Seq<char>, Seq<char>)>, key: Seq<char>)
    requires
        forall|j: int| 0 <= j < hs.len() ==> hs[j].0 != key,
    ensures
        key_pos(hs, key) == -1,
    decreases hs.len(),
{
    if hs.len() > 0 {
        lemma_key_pos_none(hs.drop_first(), key);
    }
}

/// `ci_pos` finds the first case-insensitively equal name.
proof fn lemma_ci_pos_first(hs: Seq<(Seq<char>, Seq<char>)>, key: Seq<char>, i: int)
    requires
        0 <= i < hs.len(),
        ascii_eq_ci(hs[i].0, key),
        forall|j: int| 0 <= j < i ==> !ascii_eq_ci(hs[j].0, key),
    ensures
        ci_pos(hs, key) == i,
    decreases i,
{
    if i == 0 {
    } else {
        lemma_ci_pos_first(hs.drop_first(), key, i - 1);
    }
}

/// `ci_pos` reports a missing name as -1.
proof fn lemma_ci_pos_none(hs: Seq<(Seq<char>, Seq<char>)>, key: Seq<char>)
    requires
        forall|j: int| 0 <= j < hs.len() ==> !ascii_eq_ci(hs[j].0, key),
    ensures
        ci_pos(hs, key) == -1,
    decreases hs.len(),
{
    if hs.len() > 0 {
        lemma_ci_pos_none(hs.drop_first(), key);
    }
}

// ---------------------------------------------------------------------------
// The executable header mapping
// ---------------------------------------------------------------------------

/// Response headers: names and values stored as seen, names pairwise
/// distinct, a later write to a name replacing the earlier value.
#[derive(Debug, Clone)]
pub struct HeaderMap {
    entries: Vec<(String, String)>,
}

impl View for HeaderMap {
    type V = Seq<(Seq<char>, Seq<char>)>;

    closed spec fn view(&self) -> Seq<(Seq<char>, Seq<char>)> {
        Seq::new(self.entries@.len(), |i: int| (self.entries@[i].0@, self.entries@[i].1@))
    }
}

/// The view of a header mapping holds, entry for entry, the texts of the
/// stored strings.
proof fn lemma_view_entry(m: &HeaderMap, i: int)
    requires
        0 <= i < m.entries@.len(),
    ensures
        m@.len() == m.entries@.len(),
        m@[i] == (m.entries@[i].0@, m.entries@[i].1@),
{
}

impl HeaderMap {
    /// The names are pairwise distinct.
    pub open spec fn wf(&self) -> bool {
        distinct_keys(self@)
    }

    /// An empty mapping.
    pub fn new() -> (r: HeaderMap)
        ensures
            r@ == Seq::<(Seq<char>, Seq<char>)>::empty(),
            r.wf(),
    {
        let r = HeaderMap { entries: Vec::new() };
        proof {
            assert(r@ =~= Seq::<(Seq<char>, Seq<char>)>::empty());
        }
        r
    }

    /// How many headers are held.
    pub fn len(&self) -> (r: usize)
        ensures
            r == self@.len(),
    {
        self.entries.len()
    }

    /// Whether no header is held.
    pub fn is_empty(&self) -> (r: bool)
        ensures
            r == (self@.len() == 0),
    {
        self.entries.len() == 0
    }

    /// The name and value at a position.
    pub fn entry_at(&self, i: usize) -> (r: (&String, &String))
        requires
            i < self@.len(),
        ensures
            r.0@ == self@[i as int].0,
            r.1@ == self@[i as int].1,
    {
        let e = &self.entries[i];
        (&e.0, &e.1)
    }

    /// Write a header: an already-held name keeps its position and takes the
    /// new value, a new name is appended.
    pub fn insert(&mut self, name: String, value: String)
        requires
            old(self).wf(),
        ensures
            final(self)@ == upsert(old(self)@, name@, value@),
            final(self).wf(),
    {
        let ghost hs = self@;
        let ghost key = name@;
        let n = self.entries.len();
        proof {
            assert(hs.len() == n) by {
                if n > 0 {
                    lemma_view_entry(self, 0);
                }
            }
        }
        let mut i: usize = 0;
        while i < n
            invariant
                n == self.entries@.len(),
                n == hs.len(),
                i <= n,
                self@ == hs,
                hs == old(self)@,
                key == name@,
                distinct_keys(hs),
                forall|j: int| 0 <= j < i ==> hs[j].0 != key,
            decreases n - i,
        {
            let e = &self.entries[i];
            let hit = e.0 == name;
            proof {
                lemma_view_entry(self, i as int);
                assert(hit == (hs[i as int].0 == key));
            }
            if hit {
                proof {
                    lemma_key_pos_first(hs, key, i as int);
                }
                let ghost old_entries = self.entries@;
                self.entries.remove(i);
                self.entries.insert(i, (name, value));
                proof {
                    assert(self.entries@ =~= old_entries.update(i as int, (name, value)));
                    assert forall|j: int| 0 <= j < hs.len() implies self@[j] == hs.update(
                        i as int,
                        (key, value@),
                    )[j] by {
                        lemma_view_entry(self, j);
                    }
                    assert(self@ =~= hs.update(i as int, (key, value@)));
                    assert forall|a: int, b: int| 0 <= a < b < self@.len() implies self@[a].0
                        != self@[b].0 by {
                        assert(hs[a].0 != hs[b].0);
                        assert(self@[a].0 == hs[a].0 && self@[b].0 == hs[b].0);
                    }
                }
                return ;
            }
            i += 1;
        }
        proof {
            lemma_key_pos_none(hs, key);
        }
        self.entries.push((name, value));
        proof {
            assert forall|j: int| 0 <= j < hs.len() + 1 implies self@[j] == hs.push(
                (key, value@),
            )[j] by {
                lemma_view_entry(self, j);
            }
            assert(self@ =~= hs.push((key, value@)));
            assert forall|a: int, b: int| 0 <= a < b < self@.len() implies self@[a].0
                != self@[b].0 by {
                if b < hs.len() {
                    assert(hs[a].0 != hs[b].0);
                } else {
                    assert(self@[b].0 == key && hs[a].0 != key);
                }
            }
        }
    }

    /// Look a name up, case-insensitively for ASCII letters: the value of the
    /// first header whose name matches, or nothing.
    pub fn get(&self, name: &str) -> (r: Option<&String>)
        ensures
            ({
                let p = ci_pos(self@, name@);
                if p < 0 {
                    r is None
                } else {
                    r matches Some(v) && v@ == self@[p].1
                }
            }),
    {
        let ghost key = name@;
        let n = self.entries.len();
        proof {
            if n > 0 {
                lemma_view_entry(self, 0);
            }
        }
        let mut i: usize = 0;
        while i < n
            invariant
                n == self@.len(),
                n == self.entries@.len(),
                i <= n,
                key == name@,
                forall|j: int| 0 <= j < i ==> !ascii_eq_ci(self@[j].0, key),
            decreases n - i,
        {
            let e = &self.entries[i];
            let hit = eq_fold(e.0.as_str().as_bytes(), name.as_bytes());
            proof {
                lemma_view_entry(self, i as int);
                assert(self@[i as int].0 == self.entries@[i as int].0@);
                assert(hit == ascii_eq_ci(self.entries@[i as int].0@, key));
                assert(hit == ascii_eq_ci(self@[i as int].0, key));
            }
            if hit {
                proof {
                    lemma_ci_pos_first(self@, key, i as int);
                }
                return Some(&e.1);
            }
            i += 1;
        }
        proof {
            lemma_ci_pos_none(self@, key);
        }
        None
    }
}

/// Byte sequences equal once upper-case ASCII is folded to lower case.
fn eq_fold(a: &[u8], b: &[u8]) -> (r: bool)
    ensures
        r == eq_folded(a@, b@),
{
    if a.len() != b.len() {
        return false;
    }
    let n = a.len();
    let mut i: usize = 0;
    while i < n
        invariant
            n == a@.len() && n == b@.len(),
            i <= n,
            forall|j: int| 0 <= j < i ==> fold_byte(a@[j]) == fold_byte(b@[j]),
        decreases n - i,
    {
        let x = a[i];
        let y = b[i];
        let fx = if 65 <= x && x <= 90 {
            x + 32
        } else {
            x
        };
        let fy = if 65 <= y && y <= 90 {
            y + 32
        } else {
            y
        };
        if fx != fy {
            return false;
        }
        i += 1;
    }
    true
}

// ---------------------------------------------------------------------------
// Searching, executable
// ---------------------------------------------------------------------------

/// The first position at or after `from` holding byte `b`, or nothing.
fn find_byte(s: &[u8], b: u8, from: usize) -> (r: Option<usize>)
    requires
        from <= s@.len(),
    ensures
        ({
            let p = find_byte_from(s@, b, from as int);
            match r {
                Some(j) => p == j && from <= j && j < s@.len() && s@[j as int] == b,
                None => p == -1,
            }
        }),
{
    let n: usize = s.len();
    let mut i: usize = from;
    while i < n
        invariant
            from <= i && i <= n,
            n == s@.len(),
            find_byte_from(s@, b, from as int) == find_byte_from(s@, b, i as int),
        decreases n - i,
    {
        if s[i] == b {
            return Some(i);
        }
        i += 1;
    }
    None
}

/// `find_byte_from` on a tail of the sequence finds the same position,
/// shifted by where the tail begins.
proof fn lemma_find_byte_in_subrange(s: Seq<u8>, b: u8, from: int, i: int)
    requires
        0 <= from <= i,
        from <= s.len(),
    ensures
        ({
            let t = s.subrange(from, s.len() as int);
            let r = find_byte_from(s, b, i);
            let rt = find_byte_from(t, b, i - from);
            (r < 0 ==> rt < 0) && (r >= 0 ==> rt == r - from)
        }),
    decreases s.len() - i,
{
    let t = s.subrange(from, s.len() as int);
    if i >= s.len() {
    } else if s[i] == b {
        assert(t[i - from] == s[i]);
    } else {
        assert(t[i - from] == s[i]);
        lemma_find_byte_in_subrange(s, b, from, i + 1);
    }
}

// ---------------------------------------------------------------------------
// Trimming and tokens, executable
// ---------------------------------------------------------------------------

/// The first position in [`from`, `to`) whose byte is not whitespace, or `to`.
fn skip_ws(s: &[u8], from: usize, to: usize) -> (r: usize)
    requires
        from <= to && to <= s@.len(),
    ensures
        from <= r && r <= to,
        forall|k: int| from <= k < r ==> is_ws(s@[k]),
        r < to ==> !is_ws(s@[r as int]),
{
    let mut i: usize = from;
    while i < to
        invariant
            from <= i && i <= to,
            to <= s@.len(),
            forall|k: int| from <= k < i ==> is_ws(s@[k]),
        decreases to - i,
    {
        let b: u8 = s[i];
        if !(b == 32 || (9 <= b && b <= 13)) {
            return i;
        }
        i += 1;
    }
    to
}

/// The first position in [`from`, `to`) whose byte is whitespace, or `to`.
fn scan_ws(s: &[u8], from: usize, to: usize) -> (r: usize)
    requires
        from <= to && to <= s@.len(),
    ensures
        from <= r && r <= to,
        forall|k: int| from <= k < r ==> !is_ws(s@[k]),
        r < to ==> is_ws(s@[r as int]),
{
    let mut i: usize = from;
    while i < to
        invariant
            from <= i && i <= to,
            to <= s@.len(),
            forall|k: int| from <= k < i ==> !is_ws(s@[k]),
        decreases to - i,
    {
        let b: u8 = s[i];
        if b == 32 || (9 <= b && b <= 13) {
            return i;
        }
        i += 1;
    }
    to
}

/// Dropping leading whitespace from the region [`lo`, `hi`) leaves the region
/// [`a`, `hi`), when the bytes before `a` are whitespace and `a` stops at a
/// non-whitespace byte or the end.
proof fn lemma_trim_start_range(s: Seq<u8>, lo: int, hi: int, a: int)
    requires
        0 <= lo <= a <= hi <= s.len(),
        forall|k: int| lo <= k < a ==> is_ws(s[k]),
        a == hi || !is_ws(s[a]),
    ensures
        trim_start(s.subrange(lo, hi)) == s.subrange(a, hi),
    decreases a - lo,
{
    if lo == a {
        if a == hi {
            assert(s.subrange(lo, hi) =~= Seq::<u8>::empty());
        }
    } else {
        assert(is_ws(s.subrange(lo, hi)[0]));
        assert(s.subrange(lo, hi).drop_first() =~= s.subrange(lo + 1, hi));
        lemma_trim_start_range(s, lo + 1, hi, a);
    }
}

/// The whitespace-free prefix of the region [`a`, `hi`) is the region
/// [`a`, `t`), when nothing before `t` is whitespace and `t` stops at a
/// whitespace byte or the end.
proof fn lemma_token_range(s: Seq<u8>, a: int, t: int, hi: int)
    requires
        0 <= a <= t <= hi <= s.len(),
        forall|k: int| a <= k < t ==> !is_ws(s[k]),
        t == hi || is_ws(s[t]),
    ensures
        token_of(s.subrange(a, hi)) == s.subrange(a, t),
    decreases t - a,
{
    if a == t {
        assert(s.subrange(a, t) =~= Seq::<u8>::empty());
        if t == hi {
            assert(s.subrange(a, hi) =~= Seq::<u8>::empty());
        }
    } else {
        assert(!is_ws(s.subrange(a, hi)[0]));
        assert(s.subrange(a, hi).drop_first() =~= s.subrange(a + 1, hi));
        lemma_token_range(s, a + 1, t, hi);
        assert(s.subrange(a, t) =~= seq![s[a]] + s.subrange(a + 1, t));
    }
}

/// The bounds of the region [`lo`, `hi`) with surrounding whitespace dropped.
fn trim_range(s: &[u8], lo: usize, hi: usize) -> (r: (usize, usize))
    requires
        lo <= hi && hi <= s@.len(),
    ensures
        lo <= r.0 && r.0 <= r.1 && r.1 <= hi,
        s@.subrange(r.0 as int, r.1 as int) == trim(s@.subrange(lo as int, hi as int)),
{
    let a = skip_ws(s, lo, hi);
    proof {
        lemma_trim_start_range(s@, lo as int, hi as int, a as int);
    }
    let mut b: usize = hi;
    while b > a && (s[b - 1] == 32 || (9 <= s[b - 1] && s[b - 1] <= 13))
        invariant
            a <= b && b <= hi,
            hi <= s@.len(),
            trim_end(s@.subrange(a as int, hi as int)) == trim_end(
                s@.subrange(a as int, b as int),
            ),
        decreases b,
    {
        proof {
            assert(s@.subrange(a as int, b as int).drop_last() =~= s@.subrange(
                a as int,
                (b - 1) as int,
            ));
        }
        b = b - 1;
    }
    proof {
        assert(trim_end(s@.subrange(a as int, b as int)) == s@.subrange(a as int, b as int));
    }
    (a, b)
}

// ---------------------------------------------------------------------------
// The status number, executable
// ---------------------------------------------------------------------------

/// The value of a digit sequence never shrinks as more digits follow.
proof fn lemma_digits_val_prefix(s: Seq<u8>, i: int)
    requires
        0 <= i <= s.len(),
    ensures
        digits_val(s.subrange(0, i)) <= digits_val(s),
    decreases s.len(),
{
    if i == s.len() {
        assert(s.subrange(0, i) =~= s);
    } else {
        assert(s.drop_last() =~= s.subrange(0, s.len() - 1));
        lemma_digits_val_prefix(s.subrange(0, s.len() - 1), i);
        assert(s.subrange(0, s.len() - 1).subrange(0, i) =~= s.subrange(0, i));
    }
}

/// Digits in the region [`d0`, `t`) read as a number that fits the status
/// field; nothing when the region is empty, holds a non-digit, or overflows.
fn parse_digits(s: &[u8], d0: usize, t: usize) -> (r: Option<u16>)
    requires
        d0 <= t && t <= s@.len(),
    ensures
        ({
            let d = s@.subrange(d0 as int, t as int);
            if d.len() > 0 && all_digits(d) && digits_val(d) <= 65535 {
                r == Some(digits_val(d) as u16)
            } else {
                r is None
            }
        }),
{
    if d0 == t {
        return None;
    }
    let mut acc: u32 = 0;
    let mut k: usize = d0;
    while k < t
        invariant
            d0 <= k && k <= t,
            t <= s@.len(),
            all_digits(s@.subrange(d0 as int, k as int)),
            acc == digits_val(s@.subrange(d0 as int, k as int)),
            acc <= 65535,
        decreases t - k,
    {
        let b: u8 = s[k];
        if !(48 <= b && b <= 57) {
            proof {
                assert(s@.subrange(d0 as int, t as int)[k - d0] == s@[k as int]);
            }
            return None;
        }
        let ghost prev = s@.subrange(d0 as int, k as int);
        let acc2: u32 = acc * 10 + ((b - 48) as u32);
        proof {
            let cur = s@.subrange(d0 as int, (k + 1) as int);
            assert(cur.drop_last() =~= prev);
            assert(cur[cur.len() - 1] == s@[k as int]);
            assert(digits_val(cur) == digits_val(prev) * 10 + (b - 48) as nat);
        }
        if acc2 > 65535 {
            proof {
                let d = s@.subrange(d0 as int, t as int);
                lemma_digits_val_prefix(d, k + 1 - d0);
                assert(d.subrange(0, k + 1 - d0) =~= s@.subrange(d0 as int, (k + 1) as int));
            }
            return None;
        }
        acc = acc2;
        k += 1;
    }
    proof {
        assert(s@.subrange(d0 as int, k as int) =~= s@.subrange(d0 as int, t as int));
    }
    Some(acc as u16)
}

/// Read the token in the region [`a`, `t`) as a status number.
fn parse_status_token(s: &[u8], a: usize, t: usize) -> (r: Option<u16>)
    requires
        a <= t && t <= s@.len(),
    ensures
        r == parse_status_num(s@.subrange(a as int, t as int)),
{
    let d0: usize = if t > a && s[a] == 43 {
        a + 1
    } else {
        a
    };
    let r = parse_digits(s, d0, t);
    proof {
        let tok = s@.subrange(a as int, t as int);
        if tok.len() > 0 && tok[0] == 43 {
            assert(tok.drop_first() =~= s@.subrange(d0 as int, t as int));
        } else {
            assert(tok =~= s@.subrange(d0 as int, t as int));
        }
    }
    r
}

// ---------------------------------------------------------------------------
// Header lines, executable
// ---------------------------------------------------------------------------

/// Whether the line begins with the literal prefix `Status:`.
fn is_status_line(line: &[u8]) -> (r: bool)
    ensures
        r == has_status_prefix(line@),
{
    if line.len() < 7 {
        return false;
    }
    // the bytes of `Status:`
    let r = line[0] == 83 && line[1] == 116 && line[2] == 97 && line[3] == 116 && line[4] == 117
        && line[5] == 115 && line[6] == 58;
    proof {
        let p = line@.subrange(0, 7);
        assert(p[0] == line@[0] && p[1] == line@[1] && p[2] == line@[2] && p[3] == line@[3] && p[4]
            == line@[4] && p[5] == line@[5] && p[6] == line@[6]);
        assert(status_prefix()[0] == 83 && status_prefix()[1] == 116 && status_prefix()[2] == 97
            && status_prefix()[3] == 116 && status_prefix()[4] == 117 && status_prefix()[5] == 115
            && status_prefix()[6] == 58);
        if r {
            assert(p =~= status_prefix());
        }
        if !r && p == status_prefix() {
            assert(false);
        }
    }
    r
}

/// One line of the header block, applied to the status and headers gathered
/// so far, exactly as `apply_line` says.
fn process_line(line: &[u8], status: &mut u16, headers: &mut HeaderMap)
    requires
        old(headers).wf(),
    ensures
        *final(status) == apply_line(line@, *old(status), old(headers)@).0,
        final(headers)@ == apply_line(line@, *old(status), old(headers)@).1,
        final(headers).wf(),
{
    let n: usize = line.len();
    if is_status_line(line) {
        let a = skip_ws(line, 7, n);
        proof {
            lemma_trim_start_range(line@, 7, n as int, a as int);
            assert(line@.skip(7) =~= line@.subrange(7, n as int));
        }
        if a == n {
            proof {
                assert(line@.subrange(a as int, n as int) =~= Seq::<u8>::empty());
            }
            return ;
        }
        let t = scan_ws(line, a, n);
        proof {
            lemma_token_range(line@, a as int, t as int, n as int);
        }
        match parse_status_token(line, a, t) {
            Some(v) => {
                *status = v;
            },
            None => {
                *status = 200;
            },
        }
    } else {
        match find_byte(line, 58, 0) {
            None => {},
            Some(c) => {
                let nr = trim_range(line, 0, c);
                let vr = trim_range(line, c + 1, n);
                let name_s = decode_text(&line[nr.0..nr.1]);
                let value_s = decode_text(&line[vr.0..vr.1]);
                headers.insert(name_s, value_s);
            },
        }
    }
}

// ---------------------------------------------------------------------------
// The header block, executable
// ---------------------------------------------------------------------------

/// The status and headers read from one header block, line by line.
fn parse_header_block(hb: &[u8]) -> (r: (u16, HeaderMap))
    ensures
        r.0 == header_block_model(hb@).0,
        r.1@ == header_block_model(hb@).1,
        r.1.wf(),
{
    let n: usize = hb.len();
    let mut status: u16 = 200;
    let mut headers = HeaderMap::new();
    let mut start: usize = 0;
    proof {
        assert(hb@.subrange(0, n as int) =~= hb@);
    }
    while start < n
        invariant
            n == hb@.len(),
            start <= n,
            headers.wf(),
            apply_lines(lines_of(hb@.subrange(start as int, n as int)), status, headers@)
                == header_block_model(hb@),
        decreases n - start,
    {
        let ghost rest = hb@.subrange(start as int, n as int);
        let ghost st0 = status;
        let ghost hs0 = headers@;
        let j_opt = find_byte(hb, 10, start);
        let line_end: usize = match j_opt {
            Some(j) => j,
            None => n,
        };
        let text_end: usize = if line_end > start && hb[line_end - 1] == 13 {
            line_end - 1
        } else {
            line_end
        };
        let line = &hb[start..text_end];
        proof {
            lemma_find_byte_in_subrange(hb@, 10, start as int, start as int);
            assert(rest.subrange(0, (line_end - start) as int) =~= hb@.subrange(
                start as int,
                line_end as int,
            ));
            assert(line@ == strip_cr(hb@.subrange(start as int, line_end as int))) by {
                if text_end < line_end {
                    assert(hb@.subrange(start as int, line_end as int).drop_last() =~= hb@.subrange(
                        start as int,
                        text_end as int,
                    ));
                }
            }
            match j_opt {
                Some(j) => {
                    assert(rest.subrange(
                        (j - start + 1) as int,
                        rest.len() as int,
                    ) =~= hb@.subrange((j + 1) as int, n as int));
                    assert(lines_of(rest) == seq![line@] + lines_of(
                        hb@.subrange((j + 1) as int, n as int),
                    ));
                    assert((seq![line@] + lines_of(hb@.subrange((j + 1) as int, n as int)))[0]
                        == line@);
                    assert((seq![line@] + lines_of(
                        hb@.subrange((j + 1) as int, n as int),
                    )).drop_first() =~= lines_of(hb@.subrange((j + 1) as int, n as int)));
                },
                None => {
                    assert(lines_of(rest) == seq![line@]);
                    assert((seq![line@])[0] == line@);
                    assert((seq![line@]).drop_first() =~= Seq::<Seq<u8>>::empty());
                },
            }
        }
        process_line(line, &mut status, &mut headers);
        let next: usize = match j_opt {
            Some(j) => j + 1,
            None => n,
        };
        proof {
            if next == n {
                assert(hb@.subrange(n as int, n as int) =~= Seq::<u8>::empty());
            }
        }
        start = next;
    }
    proof {
        assert(hb@.subrange(start as int, n as int) =~= Seq::<u8>::empty());
    }
    (status, headers)
}

// ---------------------------------------------------------------------------
// The structured response
// ---------------------------------------------------------------------------

/// A copy of a byte region.
fn copy_bytes(s: &[u8]) -> (r: Vec<u8>)
    ensures
        r@ == s@,
{
    let n: usize = s.len();
    let mut v: Vec<u8> = Vec::new();
    let mut i: usize = 0;
    while i < n
        invariant
            n == s@.len(),
            i <= n,
            v@ == s@.subrange(0, i as int),
        decreases n - i,
    {
        v.push(s[i]);
        proof {
            assert(v@ =~= s@.subrange(0, (i + 1) as int));
        }
        i += 1;
    }
    proof {
        assert(s@.subrange(0, n as int) =~= s@);
    }
    v
}

/// A structured response read from the engine's raw output: a status code
/// (default 200), the header mapping, and the body bytes.
#[derive(Debug, Clone)]
pub struct PhpResponse {
    /// Response body.
    pub body: Vec<u8>,
    /// Response headers.
    pub headers: HeaderMap,
    /// Status code.
    pub status_code: u16,
}

impl PhpResponse {
    /// An empty response: the default status 200, no headers, no body.
    pub fn new() -> (r: PhpResponse)
        ensures
            r.status_code == 200,
            r.headers@ == Seq::<(Seq<char>, Seq<char>)>::empty(),
            r.body@ == Seq::<u8>::empty(),
            r.headers.wf(),
    {
        PhpResponse { body: Vec::new(), headers: HeaderMap::new(), status_code: 200 }
    }

    /// Parse raw engine output.
    ///
    /// Everything after the first CR LF CR LF is the body, verbatim; the
    /// lines before it feed the status and the headers, as `response_model`
    /// says. Without that separator the whole output is the body, no byte
    /// lost, under the default status 200 and an empty header mapping.
    pub fn from_raw_output(output: &[u8]) -> (r: PhpResponse)
        ensures
            r.status_code == response_model(output@).0,
            r.headers@ == response_model(output@).1,
            r.body@ == response_model(output@).2,
            r.headers.wf(),
    {
        let n: usize = output.len();
        let mut i: usize = 0;
        let mut sep: usize = 0;
        let mut found: bool = false;
        while n >= 4 && i <= n - 4
            invariant
                n == output@.len(),
                i <= n,
                !found ==> sep_pos_from(output@, 0) == sep_pos_from(output@, i as int),
                found ==> sep_pos_from(output@, 0) == sep as int && sep as int + 4 <= n as int,
                found ==> i == n,
            decreases n - i,
        {
            if output[i] == 13 && output[i + 1] == 10 && output[i + 2] == 13 && output[i + 3] == 10
            {
                found = true;
                sep = i;
                i = n;
            } else {
                i += 1;
            }
        }
        if found {
            let hb = &output[0..sep];
            let sh = parse_header_block(hb);
            let body = copy_bytes(&output[sep + 4..n]);
            PhpResponse { body, headers: sh.1, status_code: sh.0 }
        } else {
            let body = copy_bytes(output);
            PhpResponse { body, headers: HeaderMap::new(), status_code: 200 }
        }
    }
}

impl Default for PhpResponse {
    /// The empty response, as `new` builds it.
    fn default() -> (r: Self)
        ensures
            r.status_code == 200,
            r.headers@ == Seq::<(Seq<char>, Seq<char>)>::empty(),
            r.body@ == Seq::<u8>::empty(),
            r.headers.wf(),
    {
        PhpResponse::new()
    }
}

} // verus!
