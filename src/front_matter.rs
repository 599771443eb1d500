use crate::error::BlogError;
use crate::slug::{derive_slug, slug_of};
use vstd::prelude::*;
use vstd::string::*;

verus! {

/// The metadata of a post: the three front-matter fields and the slug
/// derived from them.
pub struct Metadata {
    pub title: String,
    pub date: String,
    pub summary: String,
    /// Derived from `title` and `date`; never read from the file.
    pub link: String,
}

/// What serde_yaml gives for `key` in the YAML document `doc`: the string
/// that the key holds, or serde_yaml's description of why it has none (the
/// document does not parse, the key is missing, or its value is no string).
pub uninterp spec fn yaml_string_field(doc: Seq<char>, key: Seq<char>) -> Result<Seq<char>, Seq<char>>;

/// Relies on `serde_yaml::from_str` (into a `serde_yaml::Value`), indexing
/// that value by `key`, and `serde_yaml::from_value` (into a `String`): the
/// outcome, error text included, depends on the document and the key alone.
#[verifier::external_body]
fn decode_yaml_field(doc: &str, key: &str) -> (r: Result<String, String>)
    ensures
        match r {
            Ok(v) => yaml_string_field(doc@, key@) == Ok::<Seq<char>, Seq<char>>(v@),
            Err(e) => yaml_string_field(doc@, key@) == Err::<Seq<char>, Seq<char>>(e@),
        },
{
    let value: serde_yaml::Value = serde_yaml::from_str(doc).map_err(|e| e.to_string())?;
    serde_yaml::from_value(value[key].clone()).map_err(|e| e.to_string())
}

/// What serde_yaml gives for `key` when it reads the YAML document `doc` as
/// a mapping from strings to strings, each plain scalar read as its text:
/// the key's text, `None` where the key is absent, or serde_yaml's
/// description of why the document is no such mapping.
pub uninterp spec fn yaml_text_field(doc: Seq<char>, key: Seq<char>) -> Result<Option<Seq<char>>, Seq<char>>;

/// Relies on `serde_yaml::from_str` into a `BTreeMap<String, String>`, which
/// reads every scalar, keys included, as its text (the way serde_yaml fills
/// a `String` field of a struct), then on `BTreeMap::remove`: the outcome
/// depends on the document and the key alone.
#[verifier::external_body]
fn read_yaml_text(doc: &str, key: &str) -> (r: Result<Option<String>, String>)
    ensures
        match r {
            Ok(Some(v)) => yaml_text_field(doc@, key@) == Ok::<Option<Seq<char>>, Seq<char>>(Some(v@)),
            Ok(None) => yaml_text_field(doc@, key@) == Ok::<Option<Seq<char>>, Seq<char>>(None),
            Err(e) => yaml_text_field(doc@, key@) == Err::<Option<Seq<char>>, Seq<char>>(e@),
        },
{
    let mut map: std::collections::BTreeMap<String, String> = serde_yaml::from_str(doc).map_err(
        |e| e.to_string(),
    )?;
    Ok(map.remove(key))
}

/// How the field `key` of the front-matter block `h` decodes. Where the
/// block is a mapping of scalars, a present key gives its text and an
/// absent one fails; where some value is not a scalar (a list or a nested
/// mapping under another key), the field is read from the typed document
/// and must hold a string.
pub open spec fn field_of(h: Seq<char>, key: Seq<char>) -> Result<Seq<char>, Seq<char>> {
    match yaml_text_field(h, key) {
        Ok(Some(v)) => Ok(v),
        Ok(None) => Err("missing field"@),
        Err(_) => yaml_string_field(h, key),
    }
}

/// Decodes the field `key` of the front-matter block `h`.
pub fn decode_field(h: &str, key: &str) -> (r: Result<String, String>)
    ensures
        match r {
            Ok(v) => field_of(h@, key@) == Ok::<Seq<char>, Seq<char>>(v@),
            Err(e) => field_of(h@, key@) == Err::<Seq<char>, Seq<char>>(e@),
        },
{
    match read_yaml_text(h, key) {
        Ok(Some(v)) => Ok(v),
        Ok(None) => {
            proof {
                reveal_strlit("missing field");
            }
            Err(String::from_str("missing field"))
        },
        Err(_) => decode_yaml_field(h, key),
    }
}

/// A front-matter delimiter `---` starts at index `i` of `s`.
pub open spec fn delim_at(s: Seq<char>, i: int) -> bool {
    &&& 0 <= i
    &&& i + 3 <= s.len()
    &&& s[i] == '-'
    &&& s[i + 1] == '-'
    &&& s[i + 2] == '-'
}

/// The first index at or after `from` where a delimiter starts.
pub open spec fn next_delim(s: Seq<char>, from: int) -> Option<int>
    decreases s.len() - from,
{
    if from + 3 > s.len() {
        None
    } else if delim_at(s, from) {
        Some(from)
    } else {
        next_delim(s, from + 1)
    }
}

/// The front-matter block of `s`: the text between its first delimiter and
/// the next one that does not overlap it, or `None` where `s` holds fewer
/// than two such delimiters.
pub open spec fn front_matter_of(s: Seq<char>) -> Option<Seq<char>> {
    match next_delim(s, 0) {
        Some(a) => match next_delim(s, a + 3) {
            Some(b) => Some(s.subrange(a + 3, b)),
            None => None,
        },
        None => None,
    }
}

/// The title, date and summary decoded from the front matter of `s`, where
/// it has one and all three fields decode.
pub open spec fn decoded_fields(s: Seq<char>) -> Option<(Seq<char>, Seq<char>, Seq<char>)> {
    match front_matter_of(s) {
        Some(h) => {
            let t = field_of(h, "title"@);
            let d = field_of(h, "date"@);
            let m = field_of(h, "summary"@);
            if t is Ok && d is Ok && m is Ok {
                Some((t->Ok_0, d->Ok_0, m->Ok_0))
            } else {
                None
            }
        },
        None => None,
    }
}

/// The cause of the decoding failure of the front-matter block `h`: the
/// name of the first of `title`, `date` and `summary` that does not decode,
/// then serde_yaml's description of the failure.
pub open spec fn metadata_error(h: Seq<char>) -> Seq<char> {
    let t = field_of(h, "title"@);
    let d = field_of(h, "date"@);
    if t is Err {
        "title"@ + ": "@ + t->Err_0
    } else if d is Err {
        "date"@ + ": "@ + d->Err_0
    } else {
        "summary"@ + ": "@ + field_of(h, "summary"@)->Err_0
    }
}

/// The cause carried by a failure to decode `key`: the key, then the
/// decoder's description.
pub fn field_error(key: &str, cause: String) -> (r: BlogError)
    ensures
        r matches BlogError::Metadata(c) && c@ == key@ + ": "@ + cause@,
{
    let mut c = String::from_str(key);
    c.append(": ");
    c.append(cause.as_str());
    BlogError::Metadata(c)
}

/// The error that parsing the file contents `s` fails with: a missing
/// delimiter, else the first field's decoding failure.
pub open spec fn failure_of(s: Seq<char>, e: BlogError) -> bool {
    match front_matter_of(s) {
        None => e is MalformedDocument,
        Some(h) => e matches BlogError::Metadata(c) && c@ == metadata_error(h),
    }
}

/// The slug of the post whose file holds `s`, where its metadata parses.
pub open spec fn link_of(s: Seq<char>) -> Option<Seq<char>> {
    match decoded_fields(s) {
        Some(f) => Some(slug_of(f.0, f.1)),
        None => None,
    }
}

/// The result of parsing the file contents `s` is exact: `m` carries the
/// decoded fields and the slug derived from them.
pub open spec fn parsed_as(s: Seq<char>, m: Metadata) -> bool {
    match decoded_fields(s) {
        Some(f) => {
            &&& m.title@ == f.0
            &&& m.date@ == f.1
            &&& m.summary@ == f.2
            &&& m.link@ == slug_of(f.0, f.1)
        },
        None => false,
    }
}

/// The first index at or after `from` where a delimiter starts in `s`.
pub fn find_delim(s: &str, from: usize) -> (r: Option<usize>)
    requires
        from <= s@.len(),
    ensures
        match r {
            Some(i) => {
                &&& next_delim(s@, from as int) == Some(i as int)
                &&& from <= i
                &&& i + 3 <= s@.len() <= usize::MAX
            },
            None => next_delim(s@, from as int) is None,
        },
{
    let n = s.unicode_len();
    let mut i = from;
    while i < n && n - i >= 3
        invariant
            n == s@.len(),
            from <= i <= n,
            next_delim(s@, from as int) == next_delim(s@, i as int),
        decreases n - i,
    {
        if s.get_char(i) == '-' && s.get_char(i + 1) == '-' && s.get_char(i + 2) == '-' {
            return Some(i);
        }
        i = i + 1;
    }
    None
}

/// Splits `contents` at its front-matter delimiters and returns the
/// front-matter block.
pub fn split_front_matter(contents: &str) -> (r: Result<&str, BlogError>)
    ensures
        match front_matter_of(contents@) {
            Some(h) => r matches Ok(b) && b@ == h,
            None => r matches Err(BlogError::MalformedDocument),
        },
{
    match find_delim(contents, 0) {
        Some(a) => match find_delim(contents, a + 3) {
            Some(b) => Ok(contents.substring_char(a + 3, b)),
            None => Err(BlogError::MalformedDocument),
        },
        None => Err(BlogError::MalformedDocument),
    }
}

/// Parses the metadata of a post from the contents of its file.
pub fn parse_metadata(contents: &str) -> (r: Result<Metadata, BlogError>)
    ensures
        match r {
            Ok(m) => parsed_as(contents@, m),
            Err(e) => decoded_fields(contents@) is None && failure_of(contents@, e),
        },
{
    let header = match split_front_matter(contents) {
        Ok(h) => h,
        Err(e) => return Err(e),
    };
    let title = match decode_field(header, "title") {
        Ok(v) => v,
        Err(cause) => return Err(field_error("title", cause)),
    };
    let date = match decode_field(header, "date") {
        Ok(v) => v,
        Err(cause) => return Err(field_error("date", cause)),
    };
    let summary = match decode_field(header, "summary") {
        Ok(v) => v,
        Err(cause) => return Err(field_error("summary", cause)),
    };
    let link = derive_slug(title.as_str(), date.as_str());
    Ok(Metadata { title, date, summary, link })
}

/// A scan that passes no delimiter finds none.
pub proof fn no_delim_from(s: Seq<char>, from: int)
    requires
        0 <= from,
        forall|j: int| from <= j ==> !#[trigger] delim_at(s, j),
    ensures
        next_delim(s, from) is None,
    decreases s.len() - from,
{
    if from + 3 <= s.len() {
        no_delim_from(s, from + 1);
    }
}

/// A scan stops at the first delimiter at or after `from`.
pub proof fn first_delim_from(s: Seq<char>, from: int, a: int)
    requires
        0 <= from <= a,
        delim_at(s, a),
        forall|j: int| from <= j < a ==> !#[trigger] delim_at(s, j),
    ensures
        next_delim(s, from) == Some(a),
    decreases a - from,
{
    if from < a {
        first_delim_from(s, from + 1, a);
    }
}

/// A document with a single delimiter token, and none after it, is
/// malformed: parsing it fails with `MalformedDocument`.
pub proof fn single_delimiter_is_malformed(s: Seq<char>, a: int)
    requires
        delim_at(s, a),
        forall|j: int| 0 <= j < a ==> !#[trigger] delim_at(s, j),
        forall|j: int| a + 3 <= j ==> !#[trigger] delim_at(s, j),
    ensures
        front_matter_of(s) is None,
        decoded_fields(s) is None,
{
    first_delim_from(s, 0, a);
    no_delim_from(s, a + 3);
}

/// A front-matter block without a `summary` key never yields metadata:
/// parsing fails with a decoding error naming the field, rather than
/// filling in a default.
pub proof fn missing_summary_is_rejected(s: Seq<char>)
    requires
        front_matter_of(s) matches Some(h) && yaml_text_field(h, "summary"@) == Ok::<
            Option<Seq<char>>,
            Seq<char>,
        >(None),
    ensures
        decoded_fields(s) is None,
        link_of(s) is None,
        field_of(front_matter_of(s)->0, "summary"@) == Err::<Seq<char>, Seq<char>>("missing field"@),
{
}

} // verus!
