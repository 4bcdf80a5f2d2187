//! Whether a published release is newer than the running build, by semantic-version
//! precedence as the `semver` crate orders versions.
use semver::Version;
use vstd::prelude::*;

verus! {

/// What `semver` says of two version texts: `None` when either does not parse, otherwise
/// whether the first is ordered before the second.
pub uninterp spec fn semver_less(a: Seq<char>, b: Seq<char>) -> Option<bool>;

/// `semver::Version::parse` of both texts and, when both parse, `<` between the versions
/// (major, minor, patch, then pre-release and build metadata, as `semver` orders them).
#[verifier::external_body]
fn version_less(a: &str, b: &str) -> (r: Option<bool>)
    ensures
        r == semver_less(a@, b@),
{
    match (Version::parse(a), Version::parse(b)) {
        (Ok(x), Ok(y)) => Some(x < y),
        _ => None,
    }
}

/// A text without its leading `v` characters (`str::trim_start_matches('v')`).
pub open spec fn strip_leading_v(s: Seq<char>) -> Seq<char>
    decreases s.len(),
{
    if s.len() > 0 && s[0] == 'v' {
        strip_leading_v(s.drop_first())
    } else {
        s
    }
}

fn trim_start_v(s: &str) -> (r: String)
    ensures
        r@ == strip_leading_v(s@),
{
    let chars = crate::text::chars_of(s);
    let mut i: usize = 0;
    proof {
        assert(chars@.subrange(0, chars@.len() as int) =~= chars@);
    }
    while i < chars.len() && chars[i] == 'v'
        invariant
            i <= chars@.len(),
            chars@ == s@,
            strip_leading_v(s@) == strip_leading_v(chars@.subrange(i as int, chars@.len() as int)),
        decreases chars@.len() - i,
    {
        proof {
            let rest = chars@.subrange(i as int, chars@.len() as int);
            assert(rest.drop_first() =~= chars@.subrange(i + 1, chars@.len() as int));
        }
        i = i + 1;
    }
    let mut out = String::new();
    let mut j: usize = i;
    while j < chars.len()
        invariant
            i <= j <= chars@.len(),
            out@ == chars@.subrange(i as int, j as int),
        decreases chars@.len() - j,
    {
        out.push(chars[j]);
        proof {
            assert(chars@.subrange(i as int, j + 1) =~= chars@.subrange(i as int, j as int).push(
                chars@[j as int],
            ));
        }
        j = j + 1;
    }
    out
}

/// The release to offer: its tag, when the tag (without leading `v`s) and the running
/// version both parse and the tag's version is the later one.
pub fn newer_release(current_version: &str, tag_name: &str) -> (r: Option<String>)
    ensures
        match r {
            Some(t) => t@ == tag_name@ && semver_less(current_version@, strip_leading_v(tag_name@))
                == Some(true),
            None => semver_less(current_version@, strip_leading_v(tag_name@)) != Some(true),
        },
{
    let remote = trim_start_v(tag_name);
    match version_less(current_version, remote.as_str()) {
        Some(true) => Some(crate::text::copy_str(tag_name)),
        _ => None,
    }
}

} // verus!
