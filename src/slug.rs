use vstd::prelude::*;
use vstd::string::*;

verus! {

/// What `str::to_lowercase` returns for the characters `s`.
pub uninterp spec fn lower_of(s: Seq<char>) -> Seq<char>;

/// Relies on `str::to_lowercase`: its result depends on the characters alone.
#[verifier::external_body]
fn lowercase(s: &str) -> (r: String)
    ensures
        r@ == lower_of(s@),
{
    s.to_lowercase()
}

/// `s` with every space replaced by a hyphen; nothing else changes.
pub open spec fn hyphenate(s: Seq<char>) -> Seq<char> {
    Seq::new(s.len(), |i: int| if s[i] == ' ' { '-' } else { s[i] })
}

/// The slug of a post: its lowercased title with spaces turned into
/// hyphens, a hyphen, and the date as written.
pub open spec fn slug_of(title: Seq<char>, date: Seq<char>) -> Seq<char> {
    hyphenate(lower_of(title)) + seq!['-'] + date
}

/// Replaces every space of `s` by a hyphen.
pub fn hyphenate_spaces(s: &str) -> (r: String)
    ensures
        r@ == hyphenate(s@),
{
    let n = s.unicode_len();
    let mut out = String::new();
    let mut i: usize = 0;
    while i < n
        invariant
            n == s@.len(),
            i <= n,
            out@ == hyphenate(s@).subrange(0, i as int),
        decreases n - i,
    {
        let c = s.get_char(i);
        if c == ' ' {
            proof {
                reveal_strlit("-");
            }
            out.append("-");
        } else {
            out.append(s.substring_char(i, i + 1));
        }
        assert(out@ =~= hyphenate(s@).subrange(0, i + 1));
        i = i + 1;
    }
    assert(out@ =~= hyphenate(s@));
    out
}

/// Derives the slug of a post from its title and date.
pub fn derive_slug(title: &str, date: &str) -> (r: String)
    ensures
        r@ == slug_of(title@, date@),
{
    let lower = lowercase(title);
    let mut r = hyphenate_spaces(lower.as_str());
    proof {
        reveal_strlit("-");
    }
    r.append("-");
    r.append(date);
    assert(r@ =~= slug_of(title@, date@));
    r
}

/// A slug depends on the title and the date alone: the same pair always
/// derives the same slug.
pub proof fn slug_is_deterministic(
    title1: Seq<char>,
    date1: Seq<char>,
    title2: Seq<char>,
    date2: Seq<char>,
)
    requires
        title1 == title2,
        date1 == date2,
    ensures
        slug_of(title1, date1) == slug_of(title2, date2),
{
}

} // verus!
