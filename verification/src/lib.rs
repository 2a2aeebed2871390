//! An embryonic documentation-site builder. The working core is the
//! front-matter extractor in [`front_matter`]; the build pipeline around it
//! is not implemented yet.

use vstd::prelude::*;

pub mod front_matter;
pub mod yaml;

use crate::front_matter::FrontMatterSchema;
use crate::front_matter::after_opening;
use crate::front_matter::body_after;
use crate::front_matter::crlf_delim;
use crate::front_matter::delim_of;
use crate::front_matter::found_at;
use crate::front_matter::header_block;
use crate::front_matter::lemma_found_at_unique;
use crate::front_matter::lemma_well_formed_parses;
use crate::front_matter::lf_delim;
use crate::front_matter::matches_at;
use crate::front_matter::parse_succeeds;

verus! {

/// The reference header schema of the build tool: one required text field,
/// `title`. Extra fields in a header block are tolerated and ignored.
#[derive(Debug, PartialEq)]
pub struct Headers {
    pub title: String,
}

impl FrontMatterSchema for Headers {
    open spec fn decodable(block: Seq<char>) -> bool {
        yaml::yaml_text_field(block, "title"@) is Some
    }

    open spec fn decodes_to(block: Seq<char>, h: Headers) -> bool {
        yaml::yaml_text_field(block, "title"@) == Some(h.title@)
    }

    fn decode(block: &str) -> (r: Result<Headers, serde_yaml::Error>) {
        match yaml::decode_text_field(block, "title") {
            Ok(t) => Ok(Headers { title: t }),
            Err(e) => Err(e),
        }
    }
}

/// A build step over a set of documentation sources. The pipeline itself
/// (file enumeration, title validation, link resolution, rendering) is not
/// implemented; `Builder` only exercises the front-matter extractor on an
/// embedded sample document.
pub struct Builder;

impl Builder {
    pub fn new() -> (r: Builder)
        ensures
            r == (Builder {}),
    {
        Builder {}
    }

    /// Runs the one implemented stage, front-matter extraction, on an
    /// embedded sample document, and returns a fixed greeting; the later
    /// pipeline stages do not exist yet, so the extracted result is
    /// discarded.
    pub fn run(&self) -> (r: String)
        ensures
            r@ == "Hello, World!"@,
    {
        let sample = "---\ntitle: Hello World\n---\nThis is John.\n";
        let _parsed = front_matter::parse::<Headers>(sample);
        "Hello, World!".to_owned()
    }
}

/// Decoding is a function of the header block alone: all records that one
/// block decodes to carry the same title.
pub proof fn lemma_headers_decode_deterministic(block: Seq<char>, h1: Headers, h2: Headers)
    requires
        Headers::decodes_to(block, h1),
        Headers::decodes_to(block, h2),
    ensures
        h1.title@ == h2.title@,
{
}

/// Parsing is a pure function of the document text: any two successful
/// outcomes that `parse`'s contract allows for one text carry the same
/// body and header records with the same title. The failure kinds need no
/// own proof: `parse`'s contract ties each kind to a class of documents.
pub proof fn lemma_parse_deterministic(
    t: Seq<char>,
    i1: int,
    h1: Headers,
    b1: Seq<char>,
    i2: int,
    h2: Headers,
    b2: Seq<char>,
)
    requires
        found_at(after_opening(t), delim_of(t), i1),
        Headers::decodes_to(header_block(t, i1), h1),
        b1 == body_after(t, i1),
        found_at(after_opening(t), delim_of(t), i2),
        Headers::decodes_to(header_block(t, i2), h2),
        b2 == body_after(t, i2),
    ensures
        h1.title@ == h2.title@,
        b1 == b2,
{
    lemma_found_at_unique(after_opening(t), delim_of(t), i1, i2);
    lemma_headers_decode_deterministic(header_block(t, i1), h1, h2);
}

/// Round trip: take a record `rec` that a header block `h` decodes to,
/// re-serialize it into the delimiter convention by fencing `h` between
/// the same pair of delimiter lines, and re-parse. The re-parsed document
/// succeeds, and whatever record its header block decodes to carries
/// `rec`'s title: decoding and re-serialization are symmetric for the
/// schema's field set.
pub proof fn lemma_round_trip(
    d: Seq<char>,
    h: Seq<char>,
    b: Seq<char>,
    rec: Headers,
    i: int,
    reparsed: Headers,
)
    requires
        d == lf_delim() || d == crlf_delim(),
        forall|j: int| 0 <= j < h.len() ==> !matches_at(h + d + b, d, j),
        Headers::decodes_to(h, rec),
        found_at(after_opening(d + h + d + b), delim_of(d + h + d + b), i),
        Headers::decodes_to(header_block(d + h + d + b, i), reparsed),
    ensures
        parse_succeeds::<Headers>(d + h + d + b),
        reparsed.title@ == rec.title@,
{
    lemma_well_formed_parses::<Headers>(d, h, b);
    lemma_found_at_unique(after_opening(d + h + d + b), delim_of(d + h + d + b), i, h.len() as int);
    lemma_headers_decode_deterministic(h, rec, reparsed);
}

} // verus!
