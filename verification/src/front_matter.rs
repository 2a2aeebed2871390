//! The front-matter extractor: splits a leading `---`-delimited header
//! block off a document and decodes it against a caller-chosen schema.
//!
//! A document opens with a delimiter line, the marker `---` followed by a
//! line terminator, in one of two variants: a line feed alone, or a
//! carriage return and a line feed. The header block runs from the end of
//! the opening delimiter line to the first later occurrence of the same
//! delimiter pattern, found by exact substring search (so a `---` in the
//! middle of a line counts when the right terminator follows it). The body
//! is everything after that occurrence, unmodified.

use vstd::prelude::*;

verus! {

/// The delimiter line in its line-feed variant.
pub open spec fn lf_delim() -> Seq<char> {
    seq!['-', '-', '-', '\n']
}

/// The delimiter line in its carriage-return-and-line-feed variant.
pub open spec fn crlf_delim() -> Seq<char> {
    seq!['-', '-', '-', '\r', '\n']
}

/// `pat` occurs in `text` at position `i`.
pub open spec fn matches_at(text: Seq<char>, pat: Seq<char>, i: int) -> bool {
    &&& 0 <= i
    &&& i + pat.len() <= text.len()
    &&& text.subrange(i, i + pat.len()) == pat
}

/// `pat` occurs in `text` at position `i` and nowhere earlier.
pub open spec fn found_at(text: Seq<char>, pat: Seq<char>, i: int) -> bool {
    &&& matches_at(text, pat, i)
    &&& forall|j: int| 0 <= j < i ==> !matches_at(text, pat, j)
}

/// `text` begins with `pat`.
pub open spec fn starts_with(text: Seq<char>, pat: Seq<char>) -> bool {
    matches_at(text, pat, 0)
}

/// The document opens with a delimiter line of either variant.
pub open spec fn has_opening(text: Seq<char>) -> bool {
    starts_with(text, lf_delim()) || starts_with(text, crlf_delim())
}

/// The delimiter variant the document opens with; the line-feed variant is
/// checked first. Meaningful only when `has_opening(text)` holds.
pub open spec fn delim_of(text: Seq<char>) -> Seq<char> {
    if starts_with(text, lf_delim()) {
        lf_delim()
    } else {
        crlf_delim()
    }
}

/// The document with its opening delimiter line removed.
pub open spec fn after_opening(text: Seq<char>) -> Seq<char>
    recommends
        has_opening(text),
{
    text.subrange(delim_of(text).len() as int, text.len() as int)
}

/// A closing delimiter of the opening variant occurs somewhere after the
/// opening delimiter line.
pub open spec fn has_closing(text: Seq<char>) -> bool {
    exists|i: int| matches_at(after_opening(text), delim_of(text), i)
}

/// The header block when the closing delimiter stands at `i` in
/// `after_opening(text)`.
pub open spec fn header_block(text: Seq<char>, i: int) -> Seq<char> {
    after_opening(text).subrange(0, i)
}

/// The body when the closing delimiter stands at `i` in
/// `after_opening(text)`: everything after that delimiter's terminator.
pub open spec fn body_after(text: Seq<char>, i: int) -> Seq<char> {
    after_opening(text).subrange(i + delim_of(text).len(), after_opening(text).len() as int)
}

/// The document does not open with a delimiter line of either variant.
pub open spec fn missing_beginning(text: Seq<char>) -> bool {
    !has_opening(text)
}

/// The document opens with a delimiter line, but no closing delimiter of
/// the same variant follows.
pub open spec fn missing_ending(text: Seq<char>) -> bool {
    has_opening(text) && !has_closing(text)
}

/// Both delimiters are present, but the header block they enclose does not
/// decode against the schema `T`.
pub open spec fn invalid_header<T: FrontMatterSchema>(text: Seq<char>) -> bool {
    &&& has_opening(text)
    &&& exists|i: int|
        #[trigger] found_at(after_opening(text), delim_of(text), i)
            && !T::decodable(header_block(text, i))
}

/// Both delimiters are present and the header block they enclose decodes
/// against the schema `T`: `parse` succeeds exactly on these documents.
pub open spec fn parse_succeeds<T: FrontMatterSchema>(text: Seq<char>) -> bool {
    &&& has_opening(text)
    &&& exists|i: int|
        #[trigger] found_at(after_opening(text), delim_of(text), i)
            && T::decodable(header_block(text, i))
}

/// A header-record schema: a record type that a header block's key/value
/// text decodes into. `decodable` says which blocks decode, `decodes_to`
/// which record a block decodes to, and `decode` performs the decoding.
pub trait FrontMatterSchema: Sized {
    /// The block decodes to a record of this schema.
    spec fn decodable(block: Seq<char>) -> bool;

    /// The block decodes to the record `h`.
    spec fn decodes_to(block: Seq<char>, h: Self) -> bool;

    /// Decode one header block, returning the decoder's diagnostic when
    /// the block does not decode.
    fn decode(block: &str) -> (r: Result<Self, serde_yaml::Error>)
        ensures
            (r matches Ok(h) ==> Self::decodable(block@) && Self::decodes_to(block@, h)),
            (r matches Err(_) ==> !Self::decodable(block@)),
    ;
}

/// Why a document has no front matter: the three error kinds, mutually
/// exclusive, in the order they are checked.
#[derive(Debug)]
pub enum FrontMatterError {
    /// The document does not open with a delimiter line.
    MissingBeginningLine,
    /// No closing delimiter of the opening variant follows.
    MissingEndingLine,
    /// The header block does not decode against the schema; the decoder's
    /// diagnostic is carried for debugging only.
    InvalidYaml(serde_yaml::Error),
}

impl PartialEq for FrontMatterError {
    /// Two errors are equal when they are of the same kind; the diagnostic
    /// carried by `InvalidYaml` is informational and never compared.
    fn eq(&self, other: &Self) -> bool {
        match (self, other) {
            (FrontMatterError::MissingBeginningLine, FrontMatterError::MissingBeginningLine) => {
                true
            },
            (FrontMatterError::MissingEndingLine, FrontMatterError::MissingEndingLine) => true,
            (FrontMatterError::InvalidYaml(_), FrontMatterError::InvalidYaml(_)) => true,
            _ => false,
        }
    }
}

impl vstd::std_specs::cmp::PartialEqSpecImpl for FrontMatterError {
    open spec fn obeys_eq_spec() -> bool {
        true
    }

    open spec fn eq_spec(&self, other: &FrontMatterError) -> bool {
        match (self, other) {
            (FrontMatterError::MissingBeginningLine, FrontMatterError::MissingBeginningLine) => {
                true
            },
            (FrontMatterError::MissingEndingLine, FrontMatterError::MissingEndingLine) => true,
            (FrontMatterError::InvalidYaml(_), FrontMatterError::InvalidYaml(_)) => true,
            _ => false,
        }
    }
}

/// A successfully split document: the decoded header record and the body,
/// a view into the input text after the closing delimiter line.
#[derive(Debug, PartialEq)]
pub struct Parsed<'a, T: FrontMatterSchema> {
    pub headers: T,
    pub body: &'a str,
}

fn match_at(hay: &str, pat: &str, i: usize) -> (b: bool)
    requires
        i + pat@.len() <= hay@.len(),
    ensures
        b == matches_at(hay@, pat@, i as int),
{
    let hay_len = hay.unicode_len();
    let pat_len = pat.unicode_len();
    let mut k: usize = 0;
    while k < pat_len
        invariant
            k <= pat_len,
            pat_len == pat@.len(),
            hay_len == hay@.len(),
            i + pat@.len() <= hay@.len(),
            forall|m: int| 0 <= m < k ==> hay@[i + m] == pat@[m],
        decreases pat_len - k,
    {
        if hay.get_char(i + k) != pat.get_char(k) {
            proof {
                assert(hay@.subrange(i as int, i + pat@.len())[k as int] == hay@[i + k]);
            }
            return false;
        }
        k += 1;
    }
    proof {
        assert(hay@.subrange(i as int, i + pat@.len()) =~= pat@);
    }
    true
}

fn begins_with(text: &str, pat: &str) -> (b: bool)
    ensures
        b == starts_with(text@, pat@),
{
    let n = text.unicode_len();
    let m = pat.unicode_len();
    if m > n {
        false
    } else {
        match_at(text, pat, 0)
    }
}

fn find_pattern(hay: &str, pat: &str) -> (r: Option<usize>)
    requires
        pat@.len() >= 1,
    ensures
        (r matches Some(i) ==> found_at(hay@, pat@, i as int)),
        (r is None ==> forall|j: int| !matches_at(hay@, pat@, j)),
{
    let hay_len = hay.unicode_len();
    let pat_len = pat.unicode_len();
    if pat_len > hay_len {
        return None;
    }
    let end = hay_len - pat_len;
    let mut i: usize = 0;
    while i <= end
        invariant
            pat_len == pat@.len(),
            hay_len == hay@.len(),
            1 <= pat_len <= hay_len,
            end == hay_len - pat_len,
            i <= end + 1,
            forall|j: int| 0 <= j < i ==> !matches_at(hay@, pat@, j),
        decreases end + 1 - i,
    {
        if match_at(hay, pat, i) {
            return Some(i);
        }
        i += 1;
    }
    None
}

/// The closing delimiter's position is unique: at most one position is the
/// first occurrence of the pattern.
pub proof fn lemma_found_at_unique(text: Seq<char>, pat: Seq<char>, i: int, j: int)
    requires
        found_at(text, pat, i),
        found_at(text, pat, j),
    ensures
        i == j,
{
    if i < j {
        assert(!matches_at(text, pat, i));
    }
    if j < i {
        assert(!matches_at(text, pat, j));
    }
}

/// Split a document whose opening delimiter line is `delim` into header
/// record and body.
fn parse_rest<'a, T: FrontMatterSchema>(text: &'a str, delim: &str) -> (r: Result<
    Parsed<'a, T>,
    FrontMatterError,
>)
    requires
        has_opening(text@),
        delim@ == delim_of(text@),
    ensures
        r is Ok <==> parse_succeeds::<T>(text@),
        (r matches Ok(p) ==> exists|i: int|
            #[trigger] found_at(after_opening(text@), delim_of(text@), i)
                && T::decodes_to(header_block(text@, i), p.headers)
                && p.body@ == body_after(text@, i)),
        (r matches Err(e) ==> !(e is MissingBeginningLine)),
        (r matches Err(e) ==> (e is MissingEndingLine <==> missing_ending(text@))),
        (r matches Err(e) ==> (e is InvalidYaml <==> invalid_header::<T>(text@))),
{
    let n = text.unicode_len();
    let dlen = delim.unicode_len();
    let slice = text.substring_char(dlen, n);
    proof {
        assert(slice@ == after_opening(text@));
    }
    match find_pattern(slice, delim) {
        None => {
            proof {
                assert(!has_closing(text@));
            }
            Err(FrontMatterError::MissingEndingLine)
        },
        Some(i) => {
            proof {
                assert(has_closing(text@));
            }
            let header = slice.substring_char(0, i);
            match T::decode(header) {
                Err(e) => {
                    proof {
                        assert(found_at(after_opening(text@), delim_of(text@), i as int)
                            && !T::decodable(header_block(text@, i as int)));
                        assert forall|j: int|
                            #[trigger] found_at(after_opening(text@), delim_of(text@), j)
                                implies !T::decodable(header_block(text@, j)) by {
                            lemma_found_at_unique(
                                after_opening(text@),
                                delim_of(text@),
                                i as int,
                                j,
                            );
                        }
                    }
                    Err(FrontMatterError::InvalidYaml(e))
                },
                Ok(h) => {
                    let slice_len = slice.unicode_len();
                    let body = slice.substring_char(i + dlen, slice_len);
                    proof {
                        assert(found_at(after_opening(text@), delim_of(text@), i as int)
                            && T::decodable(header_block(text@, i as int)));
                        assert(body@ == body_after(text@, i as int));
                    }
                    Ok(Parsed { headers: h, body })
                },
            }
        },
    }
}

/// Split a document into its front-matter header record and its body.
///
/// The document must open with a delimiter line, `---` followed by a line
/// feed or by a carriage return and a line feed; the header block runs to
/// the first later occurrence of the same delimiter pattern and is decoded
/// against the schema `T`; the body is everything after that occurrence,
/// returned unmodified as a view into `text`. The three error kinds are
/// mutually exclusive and checked in this order: no opening delimiter, no
/// closing delimiter, undecodable header block.
pub fn parse<'a, T: FrontMatterSchema>(text: &'a str) -> (r: Result<
    Parsed<'a, T>,
    FrontMatterError,
>)
    ensures
        r is Ok <==> parse_succeeds::<T>(text@),
        (r matches Ok(p) ==> exists|i: int|
            #[trigger] found_at(after_opening(text@), delim_of(text@), i)
                && T::decodes_to(header_block(text@, i), p.headers)
                && p.body@ == body_after(text@, i)),
        (r matches Err(e) ==> (e is MissingBeginningLine <==> missing_beginning(text@))),
        (r matches Err(e) ==> (e is MissingEndingLine <==> missing_ending(text@))),
        (r matches Err(e) ==> (e is InvalidYaml <==> invalid_header::<T>(text@))),
{
    let lf = "---\n";
    let crlf = "---\r\n";
    proof {
        reveal_strlit("---\n");
        reveal_strlit("---\r\n");
        assert(lf@ =~= lf_delim());
        assert(crlf@ =~= crlf_delim());
    }
    if begins_with(text, lf) {
        parse_rest(text, lf)
    } else if begins_with(text, crlf) {
        parse_rest(text, crlf)
    } else {
        Err(FrontMatterError::MissingBeginningLine)
    }
}

/// The two delimiter variants exclude one another: a document opens with at
/// most one of them, since their fourth characters differ.
pub proof fn lemma_variants_exclusive(t: Seq<char>)
    ensures
        !(starts_with(t, lf_delim()) && starts_with(t, crlf_delim())),
{
    if starts_with(t, lf_delim()) && starts_with(t, crlf_delim()) {
        assert(t.subrange(0, lf_delim().len() as int)[3] == t[3]);
        assert(t.subrange(0, crlf_delim().len() as int)[3] == t[3]);
        assert(lf_delim()[3] == '\n');
        assert(crlf_delim()[3] == '\r');
    }
}

/// A document that consists of exactly one opening delimiter line, in
/// either terminator variant, has an opening delimiter but no closing one:
/// `parse` reports the missing ending delimiter on it.
pub proof fn lemma_delimiter_only_misses_ending(t: Seq<char>)
    requires
        t == lf_delim() || t == crlf_delim(),
    ensures
        missing_ending(t),
{
    assert(t.subrange(0, t.len() as int) =~= t);
    assert(starts_with(t, t));
    assert(delim_of(t) == t) by {
        lemma_variants_exclusive(t);
    }
    assert(after_opening(t) =~= Seq::<char>::empty());
    assert forall|i: int| !matches_at(after_opening(t), delim_of(t), i) by {
        assert(delim_of(t).len() >= 1);
    }
}

/// A well-formed document: an opening delimiter line `d`, a header block
/// `h` that the delimiter does not occur in (nor at any position before the
/// closing delimiter), the closing delimiter line, and a body `b`. Parsing
/// such a document finds the closing delimiter exactly where it was
/// written, takes the header block to be exactly `h`, and returns the body
/// exactly equal to `b`, with no trimming; it succeeds whenever `h` decodes
/// against the schema.
pub proof fn lemma_well_formed_parses<T: FrontMatterSchema>(d: Seq<char>, h: Seq<char>, b: Seq<char>)
    requires
        d == lf_delim() || d == crlf_delim(),
        forall|j: int| 0 <= j < h.len() ==> !matches_at(h + d + b, d, j),
    ensures
        has_opening(d + h + d + b),
        delim_of(d + h + d + b) == d,
        after_opening(d + h + d + b) == h + d + b,
        found_at(h + d + b, d, h.len() as int),
        header_block(d + h + d + b, h.len() as int) == h,
        body_after(d + h + d + b, h.len() as int) == b,
        T::decodable(h) ==> parse_succeeds::<T>(d + h + d + b),
        !T::decodable(h) ==> invalid_header::<T>(d + h + d + b),
{
    let t = d + h + d + b;
    assert(t.subrange(0, d.len() as int) =~= d);
    assert(starts_with(t, d));
    assert(delim_of(t) == d) by {
        lemma_variants_exclusive(t);
    }
    assert(after_opening(t) =~= h + d + b);
    let rest = h + d + b;
    assert(rest.subrange(h.len() as int, h.len() as int + d.len() as int) =~= d);
    assert(matches_at(rest, d, h.len() as int));
    assert(found_at(rest, d, h.len() as int));
    assert(header_block(t, h.len() as int) =~= h);
    assert(body_after(t, h.len() as int) =~= b);
}

} // verus!
