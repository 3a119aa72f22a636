//! The metadata header of a post file: splitting the file at its `---`
//! delimiters and reading the header's `key: value` lines.

use crate::date::{date_outcome, rfc3339_instant, Timestamp};
use crate::error::{BlogPostError, ErrorModel};
use crate::text::{
    before_delimiter, delimiter, lemma_before_delimiter, chars_of, find_char, find_delimiter, piece, range_is, run_before, text_view,
    trim, trim_bounds,
};
use vstd::prelude::*;
use vstd::string::*;

verus! {

/// What a header scan has found so far: the last value seen for each key.
#[derive(Debug)]
pub struct HeaderFields {
    pub title: Option<String>,
    pub date: Option<Timestamp>,
    pub description: Option<String>,
    pub slug: Option<String>,
}

/// `HeaderFields` with its texts as character sequences.
pub struct HeaderModel {
    pub title: Option<Seq<char>>,
    pub date: Option<Timestamp>,
    pub description: Option<Seq<char>>,
    pub slug: Option<Seq<char>>,
}

/// The four required values of a complete header.
#[derive(Debug)]
pub struct Metadata {
    pub title: String,
    pub date: Timestamp,
    pub description: String,
    pub slug: String,
}

/// `Metadata` with its texts as character sequences.
pub struct MetadataModel {
    pub title: Seq<char>,
    pub date: Timestamp,
    pub description: Seq<char>,
    pub slug: Seq<char>,
}

impl View for HeaderFields {
    type V = HeaderModel;

    open spec fn view(&self) -> HeaderModel {
        HeaderModel {
            title: text_view(self.title),
            date: self.date,
            description: text_view(self.description),
            slug: text_view(self.slug),
        }
    }
}

impl View for Metadata {
    type V = MetadataModel;

    open spec fn view(&self) -> MetadataModel {
        MetadataModel {
            title: self.title@,
            date: self.date,
            description: self.description@,
            slug: self.slug@,
        }
    }
}

/// The header with no key seen yet.
pub open spec fn no_fields() -> HeaderModel {
    HeaderModel { title: None, date: None, description: None, slug: None }
}

/// The header block and the body of a file: the text between the first two
/// `---` and everything after the second, or `None` where the file holds
/// fewer than two.
pub open spec fn split_outcome(text: Seq<char>) -> Option<(Seq<char>, Seq<char>)> {
    let a = before_delimiter(text);
    if a + 3 > text.len() {
        None
    } else {
        let rest = text.skip(a as int + 3);
        let b = before_delimiter(rest);
        if b + 3 > rest.len() {
            None
        } else {
            Some((rest.take(b as int), rest.skip(b as int + 3)))
        }
    }
}

/// The header block of a file that splits (empty where it does not).
pub open spec fn header_block(text: Seq<char>) -> Seq<char> {
    match split_outcome(text) {
        Some(parts) => parts.0,
        None => Seq::empty(),
    }
}

/// The body of a file that splits (empty where it does not).
pub open spec fn body_text(text: Seq<char>) -> Seq<char> {
    match split_outcome(text) {
        Some(parts) => parts.1,
        None => Seq::empty(),
    }
}

/// How many `---` a left-to-right split finds in `text`, none overlapping.
pub open spec fn delimiter_count(text: Seq<char>) -> nat
    decreases text.len(),
{
    let a = before_delimiter(text);
    if a + 3 > text.len() {
        0
    } else {
        1 + delimiter_count(text.skip(a as int + 3))
    }
}

/// The key and the value of a header line: the trimmed texts on either side
/// of the line's first `:`, or `None` for a line without one.
pub open spec fn field_of_line(line: Seq<char>) -> Option<(Seq<char>, Seq<char>)> {
    let t = trim(line);
    let k = run_before(t, ':');
    if k >= t.len() {
        None
    } else {
        Some((trim(t.take(k as int)), trim(t.skip(k as int + 1))))
    }
}

/// The header after one more `key: value`: a recognised key takes the value,
/// an unparsable date fails, any other key changes nothing.
pub open spec fn apply_field(fields: HeaderModel, key: Seq<char>, value: Seq<char>) -> Result<
    HeaderModel,
    ErrorModel,
> {
    if key == "title"@ {
        Ok(HeaderModel { title: Some(value), ..fields })
    } else if key == "date"@ {
        match date_outcome(rfc3339_instant(value)) {
            Ok(t) => Ok(HeaderModel { date: Some(t), ..fields }),
            Err(e) => Err(e),
        }
    } else if key == "description"@ {
        Ok(HeaderModel { description: Some(value), ..fields })
    } else if key == "slug"@ {
        Ok(HeaderModel { slug: Some(value), ..fields })
    } else {
        Ok(fields)
    }
}

/// The header after one more line.
pub open spec fn apply_line(fields: HeaderModel, line: Seq<char>) -> Result<
    HeaderModel,
    ErrorModel,
> {
    match field_of_line(line) {
        None => Ok(fields),
        Some((key, value)) => apply_field(fields, key, value),
    }
}

/// The header after the lines of `rest`, taken in order; the first failing
/// line ends the scan.
pub open spec fn scan_lines(rest: Seq<char>, fields: HeaderModel) -> Result<
    HeaderModel,
    ErrorModel,
>
    decreases rest.len(),
{
    if rest.len() == 0 {
        Ok(fields)
    } else {
        let k = run_before(rest, '\n');
        match apply_line(fields, rest.take(k as int)) {
            Err(e) => Err(e),
            Ok(next) => if k < rest.len() {
                scan_lines(rest.skip(k as int + 1), next)
            } else {
                Ok(next)
            },
        }
    }
}

/// The complete metadata of a scanned header, or the first required key, in
/// the order title, date, description, slug, that it lacks.
pub open spec fn required(fields: HeaderModel) -> Result<MetadataModel, ErrorModel> {
    if fields.title is None {
        Err(ErrorModel::MissingField("title"@))
    } else if fields.date is None {
        Err(ErrorModel::MissingField("date"@))
    } else if fields.description is None {
        Err(ErrorModel::MissingField("description"@))
    } else if fields.slug is None {
        Err(ErrorModel::MissingField("slug"@))
    } else {
        Ok(
            MetadataModel {
                title: fields.title->0,
                date: fields.date->0,
                description: fields.description->0,
                slug: fields.slug->0,
            },
        )
    }
}

/// What reading a header block gives.
pub open spec fn header_outcome(header: Seq<char>) -> Result<MetadataModel, ErrorModel> {
    match scan_lines(header, no_fields()) {
        Err(e) => Err(e),
        Ok(fields) => required(fields),
    }
}

/// What reading a whole file gives: its metadata and its body.
pub open spec fn frontmatter_outcome(text: Seq<char>) -> Result<
    (MetadataModel, Seq<char>),
    ErrorModel,
> {
    match split_outcome(text) {
        None => Err(ErrorModel::FrontmatterParse("Invalid frontmatter format"@)),
        Some((header, body)) => match header_outcome(header) {
            Err(e) => Err(e),
            Ok(meta) => Ok((meta, body)),
        },
    }
}

/// The value that the last line of `rest` with the key `key` gives, or
/// `None` where no line has that key.
pub open spec fn value_of(rest: Seq<char>, key: Seq<char>) -> Option<Seq<char>>
    decreases rest.len(),
{
    if rest.len() == 0 {
        None
    } else {
        let k = run_before(rest, '\n');
        let here = match field_of_line(rest.take(k as int)) {
            Some(field) => if field.0 == key {
                Some(field.1)
            } else {
                None
            },
            None => None,
        };
        let later = if k < rest.len() {
            value_of(rest.skip(k as int + 1), key)
        } else {
            None
        };
        if later is Some {
            later
        } else {
            here
        }
    }
}

/// Whether some line of `rest` gives a value for `key`.
pub open spec fn names_key(rest: Seq<char>, key: Seq<char>) -> bool {
    value_of(rest, key) is Some
}

/// The later of two values for a key: the new one where there is one.
pub open spec fn replaced<T>(earlier: Option<T>, later: Option<T>) -> Option<T> {
    if later is Some {
        later
    } else {
        earlier
    }
}

/// The instant of a date value that parses.
pub open spec fn instant_of(value: Option<Seq<char>>) -> Option<Timestamp> {
    match value {
        Some(v) => match rfc3339_instant(v) {
            Ok(t) => Some(t),
            Err(_) => None,
        },
        None => None,
    }
}

/// A file splits exactly where it holds at least two delimiters.
pub proof fn lemma_split_needs_two_delimiters(text: Seq<char>)
    ensures
        split_outcome(text) is Some <==> delimiter_count(text) >= 2,
{
    let a = before_delimiter(text);
    if a + 3 <= text.len() {
        let rest = text.skip(a as int + 3);
        let b = before_delimiter(rest);
        if b + 3 <= rest.len() {
            assert(delimiter_count(rest) >= 1);
        } else {
            assert(delimiter_count(rest) == 0);
        }
    }
}

/// A file with fewer than two delimiters fails with the header error for a
/// bad format, whatever else it holds; one with two or more goes by its
/// header block alone.
pub proof fn lemma_frontmatter_by_delimiters(text: Seq<char>)
    ensures
        delimiter_count(text) < 2 ==> frontmatter_outcome(text) == Err::<
            (MetadataModel, Seq<char>),
            ErrorModel,
        >(ErrorModel::FrontmatterParse("Invalid frontmatter format"@)),
        delimiter_count(text) >= 2 ==> split_outcome(text) is Some && (frontmatter_outcome(text)
            is Ok <==> header_outcome(header_block(text)) is Ok),
{
    lemma_split_needs_two_delimiters(text);
}

/// A file that splits is what stands before its first delimiter, the
/// delimiter, the header block, the delimiter again, and the body: no
/// character of the body is lost or changed, a later `---` included.
pub proof fn lemma_split_reassembles(text: Seq<char>)
    ensures
        split_outcome(text) matches Some(parts) ==> text == text.take(
            before_delimiter(text) as int,
        ) + delimiter() + parts.0 + delimiter() + parts.1,
{
    let a = before_delimiter(text) as int;
    lemma_before_delimiter(text);
    if a + 3 <= text.len() {
        lemma_before_delimiter(text.skip(a + 3));
    }
}

/// The four required keys are four different texts.
pub proof fn lemma_keys_differ()
    ensures
        "title"@ != "date"@,
        "title"@ != "description"@,
        "title"@ != "slug"@,
        "date"@ != "description"@,
        "date"@ != "slug"@,
        "description"@ != "slug"@,
{
    reveal_strlit("title");
    reveal_strlit("date");
    reveal_strlit("description");
    reveal_strlit("slug");
    assert("description"@.len() == 11);
    assert("date"@[0] == 'd');
    assert("slug"@[0] == 's');
}

/// A scan that ends well holds, for each key, the trimmed value of the last
/// line that names it (for the date, the instant of that value), and what it
/// began with where no line names the key.
pub proof fn lemma_scan_finds_named_keys(rest: Seq<char>, fields: HeaderModel)
    ensures
        scan_lines(rest, fields) matches Ok(found) ==> {
            &&& found.title == replaced(fields.title, value_of(rest, "title"@))
            &&& found.date == replaced(fields.date, instant_of(value_of(rest, "date"@)))
            &&& found.date is Some <==> fields.date is Some || names_key(rest, "date"@)
            &&& found.description == replaced(fields.description, value_of(rest, "description"@))
            &&& found.slug == replaced(fields.slug, value_of(rest, "slug"@))
        },
    decreases rest.len(),
{
    lemma_keys_differ();
    if rest.len() > 0 {
        let k = run_before(rest, '\n');
        match apply_line(fields, rest.take(k as int)) {
            Err(_) => {},
            Ok(next) => {
                if k < rest.len() {
                    lemma_scan_finds_named_keys(rest.skip(k as int + 1), next);
                    lemma_scan_dates_parse(rest.skip(k as int + 1), next);
                }
            },
        }
    }
}

/// In a scan that ends well, the last date value parses.
pub proof fn lemma_scan_dates_parse(rest: Seq<char>, fields: HeaderModel)
    ensures
        scan_lines(rest, fields) is Ok && names_key(rest, "date"@) ==> rfc3339_instant(
            value_of(rest, "date"@)->0,
        ) is Ok,
    decreases rest.len(),
{
    lemma_keys_differ();
    if rest.len() > 0 {
        let k = run_before(rest, '\n');
        match apply_line(fields, rest.take(k as int)) {
            Err(_) => {},
            Ok(next) => {
                if k < rest.len() {
                    lemma_scan_dates_parse(rest.skip(k as int + 1), next);
                }
            },
        }
    }
}

/// Whether `key` is one of the four required keys.
pub open spec fn is_required_key(key: Seq<char>) -> bool {
    key == "title"@ || key == "date"@ || key == "description"@ || key == "slug"@
}

/// A header whose dates all parse and that names every required key but one
/// fails with the missing-field error for that key.
pub proof fn lemma_single_missing_key(header: Seq<char>, key: Seq<char>)
    requires
        scan_lines(header, no_fields()) is Ok,
        is_required_key(key),
        forall|other: Seq<char>| #[trigger]
            is_required_key(other) ==> (names_key(header, other) <==> other != key),
    ensures
        header_outcome(header) == Err::<MetadataModel, ErrorModel>(ErrorModel::MissingField(key)),
{
    lemma_keys_differ();
    lemma_scan_finds_named_keys(header, no_fields());
    assert(is_required_key("title"@));
    assert(is_required_key("date"@));
    assert(is_required_key("description"@));
}

/// A header whose dates all parse and that names all four required keys
/// gives its metadata: for each key the trimmed value of the last line that
/// names it, the date as the instant that its value denotes.
pub proof fn lemma_complete_header(header: Seq<char>)
    requires
        scan_lines(header, no_fields()) is Ok,
        names_key(header, "title"@),
        names_key(header, "date"@),
        names_key(header, "description"@),
        names_key(header, "slug"@),
    ensures
        rfc3339_instant(value_of(header, "date"@)->0) is Ok,
        header_outcome(header) == Ok::<MetadataModel, ErrorModel>(
            MetadataModel {
                title: value_of(header, "title"@)->0,
                date: rfc3339_instant(value_of(header, "date"@)->0)->Ok_0,
                description: value_of(header, "description"@)->0,
                slug: value_of(header, "slug"@)->0,
            },
        ),
{
    lemma_scan_finds_named_keys(header, no_fields());
    lemma_scan_dates_parse(header, no_fields());
}

/// Reading a header ends in its metadata, in a missing-field error for a
/// required key, or in a header error for a date; in nothing else.
pub proof fn lemma_header_errors(header: Seq<char>)
    ensures
        match header_outcome(header) {
            Ok(_) => true,
            Err(ErrorModel::MissingField(key)) => is_required_key(key) && !names_key(header, key),
            Err(ErrorModel::FrontmatterParse(_)) => names_key(header, "date"@),
            Err(_) => false,
        },
{
    lemma_scan_finds_named_keys(header, no_fields());
    lemma_scan_failure(header, no_fields());
}

/// A scan fails only with a header error, and only where a line names a date.
pub proof fn lemma_scan_failure(rest: Seq<char>, fields: HeaderModel)
    ensures
        scan_lines(rest, fields) matches Err(e) ==> e is FrontmatterParse && names_key(
            rest,
            "date"@,
        ),
    decreases rest.len(),
{
    if rest.len() > 0 {
        let k = run_before(rest, '\n');
        match apply_line(fields, rest.take(k as int)) {
            Err(_) => {},
            Ok(next) => {
                if k < rest.len() {
                    lemma_scan_failure(rest.skip(k as int + 1), next);
                }
            },
        }
    }
}

/// Splits a file into its header block and its body. Fails exactly where the
/// file holds fewer than two delimiters.
pub fn split_frontmatter(text: &str) -> (r: Result<(String, String), BlogPostError>)
    ensures
        match r {
            Ok(parts) => split_outcome(text@) == Some((parts.0@, parts.1@)),
            Err(e) => split_outcome(text@) is None && e@ == ErrorModel::FrontmatterParse(
                "Invalid frontmatter format"@,
            ),
        },
{
    let chars = chars_of(text);
    let n: usize = chars.len();
    let first: usize = find_delimiter(&chars, 0);
    proof {
        assert(chars@.skip(0) =~= chars@);
    }
    if n - first < 3 {
        return Err(BlogPostError::FrontmatterParse(String::from_str("Invalid frontmatter format")));
    }
    let second: usize = find_delimiter(&chars, first + 3);
    if n - second < 3 {
        return Err(BlogPostError::FrontmatterParse(String::from_str("Invalid frontmatter format")));
    }
    let header = piece(text, first + 3, second);
    let body = piece(text, second + 3, n);
    Ok((header, body))
}

/// Reads the line `chars[from..to]` of `header` into `fields`.
fn read_line(
    header: &str,
    chars: &Vec<char>,
    from: usize,
    to: usize,
    fields: HeaderFields,
) -> (r: Result<HeaderFields, BlogPostError>)
    requires
        chars@ == header@,
        from <= to <= chars.len(),
    ensures
        match r {
            Ok(next) => apply_line(fields@, chars@.subrange(from as int, to as int)) == Ok::<
                HeaderModel,
                ErrorModel,
            >(next@),
            Err(e) => apply_line(fields@, chars@.subrange(from as int, to as int)) == Err::<
                HeaderModel,
                ErrorModel,
            >(e@),
        },
{
    let (a, b) = trim_bounds(chars, from, to);
    let colon: usize = find_char(chars, ':', a, b);
    if colon >= b {
        return Ok(fields);
    }
    let (ka, kb) = trim_bounds(chars, a, colon);
    let (va, vb) = trim_bounds(chars, colon + 1, b);
    proof {
        let t = chars@.subrange(a as int, b as int);
        assert(t.take(colon - a) =~= chars@.subrange(a as int, colon as int));
        assert(t.skip(colon - a + 1) =~= chars@.subrange(colon + 1, b as int));
    }
    if range_is(chars, ka, kb, "title") {
        Ok(
            HeaderFields {
                title: Some(piece(header, va, vb)),
                date: fields.date,
                description: fields.description,
                slug: fields.slug,
            },
        )
    } else if range_is(chars, ka, kb, "date") {
        let value = piece(header, va, vb);
        match Timestamp::parse(value.as_str()) {
            Ok(t) => Ok(
                HeaderFields {
                    title: fields.title,
                    date: Some(t),
                    description: fields.description,
                    slug: fields.slug,
                },
            ),
            Err(e) => Err(e),
        }
    } else if range_is(chars, ka, kb, "description") {
        Ok(
            HeaderFields {
                title: fields.title,
                date: fields.date,
                description: Some(piece(header, va, vb)),
                slug: fields.slug,
            },
        )
    } else if range_is(chars, ka, kb, "slug") {
        Ok(
            HeaderFields {
                title: fields.title,
                date: fields.date,
                description: fields.description,
                slug: Some(piece(header, va, vb)),
            },
        )
    } else {
        Ok(fields)
    }
}

/// Checks that a scanned header is complete. Fails with the first required
/// key that is absent, in the order title, date, description, slug.
pub fn require_fields(fields: HeaderFields) -> (r: Result<Metadata, BlogPostError>)
    ensures
        match r {
            Ok(meta) => required(fields@) == Ok::<MetadataModel, ErrorModel>(meta@),
            Err(e) => required(fields@) == Err::<MetadataModel, ErrorModel>(e@),
        },
{
    let title = match fields.title {
        Some(t) => t,
        None => { return Err(BlogPostError::MissingField(String::from_str("title"))); },
    };
    let date = match fields.date {
        Some(d) => d,
        None => { return Err(BlogPostError::MissingField(String::from_str("date"))); },
    };
    let description = match fields.description {
        Some(d) => d,
        None => { return Err(BlogPostError::MissingField(String::from_str("description"))); },
    };
    let slug = match fields.slug {
        Some(s) => s,
        None => { return Err(BlogPostError::MissingField(String::from_str("slug"))); },
    };
    Ok(Metadata { title, date, description, slug })
}

/// Reads a header block line by line. Blank lines, lines without a `:` and
/// unknown keys are passed over; a later value for a key replaces an earlier
/// one. Fails on the first `date` that is no RFC 3339 date, else on the first
/// required key that no line gave.
pub fn parse_header(header: &str) -> (r: Result<Metadata, BlogPostError>)
    ensures
        match r {
            Ok(meta) => header_outcome(header@) == Ok::<MetadataModel, ErrorModel>(meta@),
            Err(e) => header_outcome(header@) == Err::<MetadataModel, ErrorModel>(e@),
        },
{
    let chars = chars_of(header);
    let n: usize = chars.len();
    let mut fields = HeaderFields { title: None, date: None, description: None, slug: None };
    let mut pos: usize = 0;
    proof {
        assert(chars@.skip(0) =~= chars@);
    }
    while pos < n
        invariant
            pos <= n == chars.len(),
            chars@ == header@,
            scan_lines(header@, no_fields()) == scan_lines(chars@.skip(pos as int), fields@),
        decreases n - pos,
    {
        let end: usize = find_char(&chars, '\n', pos, n);
        proof {
            let rest = chars@.skip(pos as int);
            assert(rest.take(end - pos) =~= chars@.subrange(pos as int, end as int));
            if end < n {
                assert(rest.skip(end - pos + 1) =~= chars@.skip(end + 1));
            }
        }
        match read_line(header, &chars, pos, end, fields) {
            Err(e) => {
                return Err(e);
            },
            Ok(next) => {
                fields = next;
            },
        }
        if end < n {
            pos = end + 1;
        } else {
            pos = n;
        }
    }
    require_fields(fields)
}

/// Reads a whole file: its metadata and its body, the text after the second
/// delimiter, untouched.
pub fn parse_frontmatter(text: &str) -> (r: Result<(Metadata, String), BlogPostError>)
    ensures
        match r {
            Ok(parsed) => frontmatter_outcome(text@) == Ok::<
                (MetadataModel, Seq<char>),
                ErrorModel,
            >((parsed.0@, parsed.1@)),
            Err(e) => frontmatter_outcome(text@) == Err::<(MetadataModel, Seq<char>), ErrorModel>(
                e@,
            ),
        },
{
    match split_frontmatter(text) {
        Err(e) => Err(e),
        Ok((header, body)) => match parse_header(header.as_str()) {
            Err(e) => Err(e),
            Ok(meta) => Ok((meta, body)),
        },
    }
}

} // verus!
