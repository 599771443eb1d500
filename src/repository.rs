use crate::error::BlogError;
use crate::front_matter::{failure_of, link_of, parse_metadata, parsed_as, Metadata};
use vstd::prelude::*;
use vstd::string::*;

verus! {

/// A post file as read from the content directory: its path and contents.
pub struct PostFile {
    pub path: String,
    pub contents: String,
}

/// The path `p` names a file whose extension is exactly `md`: it ends in
/// `.md` after a non-empty file-name stem.
pub open spec fn has_md_extension(p: Seq<char>) -> bool {
    let n = p.len();
    &&& n > 3
    &&& p[n - 4] != '/'
    &&& p[n - 3] == '.'
    &&& p[n - 2] == 'm'
    &&& p[n - 1] == 'd'
}

/// The paths of `ps` that have the `md` extension, in their order.
pub open spec fn markdown_only(ps: Seq<Seq<char>>) -> Seq<Seq<char>>
    decreases ps.len(),
{
    if ps.len() == 0 {
        Seq::empty()
    } else {
        let rest = markdown_only(ps.drop_last());
        if has_md_extension(ps.last()) {
            rest.push(ps.last())
        } else {
            rest
        }
    }
}

/// The characters of each string of `v`.
pub open spec fn views_of(v: Seq<String>) -> Seq<Seq<char>> {
    v.map_values(|s: String| s@)
}

/// The index of the first file at or after `i` whose metadata does not
/// parse.
pub open spec fn first_failure(files: Seq<PostFile>, i: int) -> Option<int>
    decreases files.len() - i,
{
    if i < 0 || i >= files.len() {
        None
    } else if link_of(files[i].contents@) is None {
        Some(i)
    } else {
        first_failure(files, i + 1)
    }
}

/// How a scan of `files` for a slug ends.
pub enum Resolution {
    /// The file at this index is the first whose slug matches.
    Found(int),
    /// The file at this index fails to parse before any match.
    Failed(int),
    /// Every file parses and none matches.
    Missing,
}

/// The outcome of scanning `files` from index `i` for the slug `link`:
/// files are parsed in order and the scan stops at the first failure or
/// the first match.
pub open spec fn resolve_from(files: Seq<PostFile>, link: Seq<char>, i: int) -> Resolution
    decreases files.len() - i,
{
    if i < 0 || i >= files.len() {
        Resolution::Missing
    } else {
        match link_of(files[i].contents@) {
            None => Resolution::Failed(i),
            Some(l) => if l == link {
                Resolution::Found(i)
            } else {
                resolve_from(files, link, i + 1)
            },
        }
    }
}

/// Whether the path `path` names a markdown file.
pub fn is_markdown_path(path: &str) -> (r: bool)
    ensures
        r == has_md_extension(path@),
{
    let n = path.unicode_len();
    if n <= 3 {
        return false;
    }
    path.get_char(n - 4) != '/' && path.get_char(n - 3) == '.' && path.get_char(n - 2) == 'm'
        && path.get_char(n - 1) == 'd'
}

/// The markdown files among `paths`, in their order.
pub fn markdown_paths(paths: &Vec<String>) -> (r: Vec<String>)
    ensures
        views_of(r@) == markdown_only(views_of(paths@)),
{
    let mut out: Vec<String> = Vec::new();
    let mut i: usize = 0;
    while i < paths.len()
        invariant
            i <= paths.len(),
            views_of(out@) == markdown_only(views_of(paths@).subrange(0, i as int)),
        decreases paths.len() - i,
    {
        let p = &paths[i];
        let keep = is_markdown_path(p.as_str());
        proof {
            let pre = views_of(paths@).subrange(0, i + 1);
            assert(pre.drop_last() =~= views_of(paths@).subrange(0, i as int));
            assert(pre.last() == p@);
        }
        if keep {
            out.push(p.clone());
            assert(views_of(out@) =~= markdown_only(views_of(paths@).subrange(0, i + 1)));
        } else {
            assert(views_of(out@) =~= markdown_only(views_of(paths@).subrange(0, i + 1)));
        }
        i = i + 1;
    }
    assert(views_of(paths@).subrange(0, paths.len() as int) =~= views_of(paths@));
    out
}

/// Parses the metadata of every file, in order; the first file that fails
/// to parse fails the whole listing.
pub fn collect_metadata(files: &Vec<PostFile>) -> (r: Result<Vec<Metadata>, BlogError>)
    ensures
        match first_failure(files@, 0) {
            None => r matches Ok(ms) && ms.len() == files.len() && forall|k: int|
                0 <= k < files.len() ==> parsed_as(#[trigger] files@[k].contents@, ms@[k]),
            Some(k) => r matches Err(e) && failure_of(files@[k].contents@, e),
        },
{
    let mut ms: Vec<Metadata> = Vec::new();
    let mut i: usize = 0;
    while i < files.len()
        invariant
            i <= files.len(),
            first_failure(files@, 0) == first_failure(files@, i as int),
            ms.len() == i,
            forall|k: int| 0 <= k < i ==> parsed_as(#[trigger] files@[k].contents@, ms@[k]),
        decreases files.len() - i,
    {
        match parse_metadata(files[i].contents.as_str()) {
            Ok(m) => {
                ms.push(m);
            },
            Err(e) => {
                return Err(e);
            },
        }
        i = i + 1;
    }
    Ok(ms)
}

/// Finds the path of the first file whose slug is `link`. Files are parsed
/// in order; one that fails to parse before a match fails the lookup.
pub fn resolve_link(files: &Vec<PostFile>, link: &str) -> (r: Result<String, BlogError>)
    ensures
        match resolve_from(files@, link@, 0) {
            Resolution::Found(k) => r matches Ok(p) && p@ == files@[k].path@,
            Resolution::Failed(k) => r matches Err(e) && failure_of(files@[k].contents@, e),
            Resolution::Missing => r matches Err(BlogError::NotFound),
        },
{
    let mut i: usize = 0;
    while i < files.len()
        invariant
            i <= files.len(),
            resolve_from(files@, link@, 0) == resolve_from(files@, link@, i as int),
        decreases files.len() - i,
    {
        match post_matches(files[i].contents.as_str(), link) {
            Ok(true) => {
                return Ok(files[i].path.clone());
            },
            Ok(false) => {},
            Err(e) => {
                return Err(e);
            },
        }
        i = i + 1;
    }
    Err(BlogError::NotFound)
}

/// Whether the post whose file holds `contents` derives the slug `link`;
/// fails where its metadata does not parse.
pub fn post_matches(contents: &str, link: &str) -> (r: Result<bool, BlogError>)
    ensures
        match link_of(contents@) {
            Some(l) => r == Ok::<bool, BlogError>(l == link@),
            None => r matches Err(e) && failure_of(contents@, e),
        },
{
    let target = String::from_str(link);
    match parse_metadata(contents) {
        Ok(m) => Ok(m.link == target),
        Err(e) => Err(e),
    }
}

/// A scan from index `i` that finds a file stops at the first file from
/// `i` on whose slug matches, and every file it passed parsed to another
/// slug.
pub proof fn resolved_from_is_first_match(files: Seq<PostFile>, link: Seq<char>, i: int)
    requires
        0 <= i,
        resolve_from(files, link, i) is Found,
    ensures
        ({
            let k = resolve_from(files, link, i)->Found_0;
            &&& i <= k < files.len()
            &&& link_of(files[k].contents@) == Some(link)
            &&& forall|j: int|
                i <= j < k ==> #[trigger] link_of(files[j].contents@) is Some && link_of(
                    files[j].contents@,
                ) != Some(link)
        }),
    decreases files.len() - i,
{
    if link_of(files[i].contents@) != Some(link) {
        resolved_from_is_first_match(files, link, i + 1);
    }
}

/// Resolving a slug yields the first file, in enumeration order, whose
/// metadata derives that slug; when two files derive the same slug, the
/// earlier one wins.
pub proof fn resolved_post_has_link(files: Seq<PostFile>, link: Seq<char>)
    requires
        resolve_from(files, link, 0) is Found,
    ensures
        ({
            let k = resolve_from(files, link, 0)->Found_0;
            &&& 0 <= k < files.len()
            &&& link_of(files[k].contents@) == Some(link)
            &&& forall|j: int|
                0 <= j < k ==> #[trigger] link_of(files[j].contents@) is Some && link_of(
                    files[j].contents@,
                ) != Some(link)
        }),
{
    resolved_from_is_first_match(files, link, 0);
}

/// A post is found by a scan from `i` when it derives the slug and the
/// files between `i` and it parse to other slugs.
pub proof fn post_resolves_from(files: Seq<PostFile>, k: int, link: Seq<char>, i: int)
    requires
        0 <= i <= k < files.len(),
        link_of(files[k].contents@) == Some(link),
        forall|j: int|
            i <= j < k ==> #[trigger] link_of(files[j].contents@) is Some && link_of(
                files[j].contents@,
            ) != Some(link),
    ensures
        resolve_from(files, link, i) == Resolution::Found(k),
    decreases k - i,
{
    if i < k {
        assert(link_of(files[i].contents@) is Some);
        post_resolves_from(files, k, link, i + 1);
    }
}

/// A post written with slug `link` resolves to its own file, whose metadata
/// then derives `link` again, provided the files before it parse and none
/// of them derives the same slug.
pub proof fn post_round_trip(files: Seq<PostFile>, k: int, link: Seq<char>)
    requires
        0 <= k < files.len(),
        link_of(files[k].contents@) == Some(link),
        forall|j: int|
            0 <= j < k ==> #[trigger] link_of(files[j].contents@) is Some && link_of(
                files[j].contents@,
            ) != Some(link),
    ensures
        resolve_from(files, link, 0) == Resolution::Found(k),
        link_of(files[k].contents@) == Some(link),
{
    post_resolves_from(files, k, link, 0);
}

/// When two files derive the same slug and every file before the first of
/// them parses to another slug, resolution returns the first of the two,
/// never the second: the earlier file in enumeration order wins, and no
/// error is raised.
pub proof fn colliding_slugs_resolve_to_first(
    files: Seq<PostFile>,
    first: int,
    second: int,
    link: Seq<char>,
)
    requires
        0 <= first < second < files.len(),
        link_of(files[first].contents@) == Some(link),
        link_of(files[second].contents@) == Some(link),
        forall|j: int|
            0 <= j < first ==> #[trigger] link_of(files[j].contents@) is Some && link_of(
                files[j].contents@,
            ) != Some(link),
    ensures
        resolve_from(files, link, 0) == Resolution::Found(first),
        resolve_from(files, link, 0) != Resolution::Found(second),
{
    post_resolves_from(files, first, link, 0);
}

} // verus!
