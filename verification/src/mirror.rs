//! The mirror manifest: typed release records and a verified parser for the
//! JSON shape the mirror serves.
//!
//! The manifest is a JSON array of release objects.  A release object must
//! carry a string member `tag_name` and an array member `assets`; an asset
//! object must carry a string member `browser_download_url`.  Members the
//! grammar does not know are skipped, a member given twice is refused, and a
//! release or asset missing a required member is refused, so a parse either
//! yields the full list of records, in manifest order, or fails as a whole.

use vstd::prelude::*;

use crate::json::{
    parse_string,
    skip_value,
    skip_ws,
    spec_parse_string,
    spec_skip_value,
    spec_skip_ws,
};
use crate::text::{chars_of, string_from_chars};
use vstd::string::StrSliceExecFns;

verus! {

/// The remote location of the release manifest.
pub const MIRROR_URL: &'static str =
    "https://raw.githubusercontent.com/SeleniumHQ/selenium/trunk/common/mirror/selenium";

// ------------------------------------------------------------------
// Records and their mathematical views
// ------------------------------------------------------------------

/// One downloadable asset of a release: its download location.
#[derive(Debug, Clone, PartialEq, Eq)]
pub struct Assets {
    pub browser_download_url: String,
}

/// One release of the manifest: its tag and its assets, in manifest order.
#[derive(Debug, Clone, PartialEq, Eq)]
pub struct SeleniumRelease {
    pub tag_name: String,
    pub assets: Vec<Assets>,
}

/// What a release record says, mathematically: a tag and the download
/// locations of its assets, each a sequence of characters.
pub ghost struct ReleaseView {
    pub tag_name: Seq<char>,
    pub assets: Seq<Seq<char>>,
}

impl View for Assets {
    type V = Seq<char>;

    open spec fn view(&self) -> Seq<char> {
        self.browser_download_url@
    }
}

pub open spec fn assets_seq_view(v: Seq<Assets>) -> Seq<Seq<char>> {
    Seq::new(v.len(), |k: int| v[k]@)
}

impl View for SeleniumRelease {
    type V = ReleaseView;

    open spec fn view(&self) -> ReleaseView {
        ReleaseView { tag_name: self.tag_name@, assets: assets_seq_view(self.assets@) }
    }
}

pub open spec fn releases_seq_view(v: Seq<SeleniumRelease>) -> Seq<ReleaseView> {
    Seq::new(v.len(), |k: int| v[k]@)
}

pub open spec fn opt_chars_view(u: Option<Vec<char>>) -> Option<Seq<char>> {
    match u {
        Some(x) => Some(x@),
        None => None,
    }
}

pub open spec fn opt_string_view(u: Option<String>) -> Option<Seq<char>> {
    match u {
        Some(x) => Some(x@),
        None => None,
    }
}

pub open spec fn opt_assets_view(u: Option<Vec<Assets>>) -> Option<Seq<Seq<char>>> {
    match u {
        Some(x) => Some(assets_seq_view(x@)),
        None => None,
    }
}

// ------------------------------------------------------------------
// The manifest grammar
// ------------------------------------------------------------------

pub open spec fn tag_name_key() -> Seq<char> {
    "tag_name"@
}

pub open spec fn assets_key() -> Seq<char> {
    "assets"@
}

pub open spec fn url_key() -> Seq<char> {
    "browser_download_url"@
}

/// The members of one asset object, starting at a key; `url` carries the
/// download location seen so far.  Ends at the closing brace, which must come
/// after the required member was seen exactly once.
pub open spec fn spec_parse_asset_members(
    s: Seq<char>,
    i: int,
    url: Option<Seq<char>>,
    fuel: nat,
) -> Option<(Seq<char>, int)>
    decreases fuel, s.len() - i, 1int,
{
    if i < 0 || i > s.len() {
        None
    } else {
        match spec_parse_string(s, i) {
            None => None,
            Some((key, j0)) => {
                let j = spec_skip_ws(s, j0);
                if j < s.len() && s[j] == ':' {
                    let k = spec_skip_ws(s, j + 1);
                    if key == url_key() {
                        if url is Some {
                            None
                        } else {
                            match spec_parse_string(s, k) {
                                None => None,
                                Some((u, m0)) => spec_asset_member_rest(s, i, m0, Some(u), fuel),
                            }
                        }
                    } else if i < k && k <= s.len() {
                        match spec_skip_value(s, k, fuel) {
                            None => None,
                            Some(m0) => spec_asset_member_rest(s, i, m0, url, fuel),
                        }
                    } else {
                        None
                    }
                } else {
                    None
                }
            },
        }
    }
}

/// After one asset member: either a comma and further members, or the
/// closing brace, which requires the download location to be present.
pub open spec fn spec_asset_member_rest(
    s: Seq<char>,
    i: int,
    m0: int,
    url: Option<Seq<char>>,
    fuel: nat,
) -> Option<(Seq<char>, int)>
    decreases fuel, s.len() - i, 0int,
{
    let m = spec_skip_ws(s, m0);
    if m < s.len() && s[m] == ',' {
        let p = spec_skip_ws(s, m + 1);
        if i < p && p <= s.len() {
            spec_parse_asset_members(s, p, url, fuel)
        } else {
            None
        }
    } else if m < s.len() && s[m] == '}' {
        match url {
            Some(u) => Some((u, m + 1)),
            None => None,
        }
    } else {
        None
    }
}

/// One asset object starting at `i`.  An empty object is refused: the
/// download location is a required member.
pub open spec fn spec_parse_asset(s: Seq<char>, i: int, fuel: nat) -> Option<(Seq<char>, int)> {
    if 0 <= i && i < s.len() && s[i] == '{' {
        spec_parse_asset_members(s, spec_skip_ws(s, i + 1), None, fuel)
    } else {
        None
    }
}

/// One or more asset objects, comma-separated, up to and including the `]`;
/// `acc` carries the download locations already read.
pub open spec fn spec_parse_asset_items(
    s: Seq<char>,
    i: int,
    acc: Seq<Seq<char>>,
    fuel: nat,
) -> Option<(Seq<Seq<char>>, int)>
    decreases fuel, s.len() - i,
{
    if i < 0 || i > s.len() {
        None
    } else {
        match spec_parse_asset(s, i, fuel) {
            None => None,
            Some((u, j0)) => {
                let j = spec_skip_ws(s, j0);
                if j < s.len() && s[j] == ',' {
                    let k = spec_skip_ws(s, j + 1);
                    if i < k && k <= s.len() {
                        spec_parse_asset_items(s, k, acc.push(u), fuel)
                    } else {
                        None
                    }
                } else if j < s.len() && s[j] == ']' {
                    Some((acc.push(u), j + 1))
                } else {
                    None
                }
            },
        }
    }
}

/// The value of an `assets` member: an array of asset objects, possibly
/// empty.
pub open spec fn spec_parse_assets_value(s: Seq<char>, i: int, fuel: nat) -> Option<
    (Seq<Seq<char>>, int),
> {
    if 0 <= i && i < s.len() && s[i] == '[' {
        let j = spec_skip_ws(s, i + 1);
        if j < s.len() && s[j] == ']' {
            Some((Seq::empty(), j + 1))
        } else {
            spec_parse_asset_items(s, j, Seq::empty(), fuel)
        }
    } else {
        None
    }
}

/// The members of one release object, starting at a key; `tag` and `assets`
/// carry what was seen so far.
pub open spec fn spec_parse_release_members(
    s: Seq<char>,
    i: int,
    tag: Option<Seq<char>>,
    assets: Option<Seq<Seq<char>>>,
    fuel: nat,
) -> Option<(ReleaseView, int)>
    decreases fuel, s.len() - i, 1int,
{
    if i < 0 || i > s.len() {
        None
    } else {
        match spec_parse_string(s, i) {
            None => None,
            Some((key, j0)) => {
                let j = spec_skip_ws(s, j0);
                if j < s.len() && s[j] == ':' {
                    let k = spec_skip_ws(s, j + 1);
                    if key == tag_name_key() {
                        if tag is Some {
                            None
                        } else {
                            match spec_parse_string(s, k) {
                                None => None,
                                Some((t, m0)) => spec_release_member_rest(
                                    s,
                                    i,
                                    m0,
                                    Some(t),
                                    assets,
                                    fuel,
                                ),
                            }
                        }
                    } else if key == assets_key() {
                        if assets is Some {
                            None
                        } else {
                            match spec_parse_assets_value(s, k, fuel) {
                                None => None,
                                Some((a, m0)) => spec_release_member_rest(
                                    s,
                                    i,
                                    m0,
                                    tag,
                                    Some(a),
                                    fuel,
                                ),
                            }
                        }
                    } else if i < k && k <= s.len() {
                        match spec_skip_value(s, k, fuel) {
                            None => None,
                            Some(m0) => spec_release_member_rest(s, i, m0, tag, assets, fuel),
                        }
                    } else {
                        None
                    }
                } else {
                    None
                }
            },
        }
    }
}

/// After one release member: either a comma and further members, or the
/// closing brace, which requires both the tag and the asset list.
pub open spec fn spec_release_member_rest(
    s: Seq<char>,
    i: int,
    m0: int,
    tag: Option<Seq<char>>,
    assets: Option<Seq<Seq<char>>>,
    fuel: nat,
) -> Option<(ReleaseView, int)>
    decreases fuel, s.len() - i, 0int,
{
    let m = spec_skip_ws(s, m0);
    if m < s.len() && s[m] == ',' {
        let p = spec_skip_ws(s, m + 1);
        if i < p && p <= s.len() {
            spec_parse_release_members(s, p, tag, assets, fuel)
        } else {
            None
        }
    } else if m < s.len() && s[m] == '}' {
        match (tag, assets) {
            (Some(t), Some(a)) => Some((ReleaseView { tag_name: t, assets: a }, m + 1)),
            _ => None,
        }
    } else {
        None
    }
}

/// One release object starting at `i`.  An empty object is refused: the tag
/// and the asset list are required members.
pub open spec fn spec_parse_release(s: Seq<char>, i: int, fuel: nat) -> Option<
    (ReleaseView, int),
> {
    if 0 <= i && i < s.len() && s[i] == '{' {
        spec_parse_release_members(s, spec_skip_ws(s, i + 1), None, None, fuel)
    } else {
        None
    }
}

/// One or more release objects, comma-separated, up to and including the
/// `]`; `acc` carries the records already read, in manifest order.
pub open spec fn spec_parse_release_items(
    s: Seq<char>,
    i: int,
    acc: Seq<ReleaseView>,
    fuel: nat,
) -> Option<(Seq<ReleaseView>, int)>
    decreases fuel, s.len() - i,
{
    if i < 0 || i > s.len() {
        None
    } else {
        match spec_parse_release(s, i, fuel) {
            None => None,
            Some((r, j0)) => {
                let j = spec_skip_ws(s, j0);
                if j < s.len() && s[j] == ',' {
                    let k = spec_skip_ws(s, j + 1);
                    if i < k && k <= s.len() {
                        spec_parse_release_items(s, k, acc.push(r), fuel)
                    } else {
                        None
                    }
                } else if j < s.len() && s[j] == ']' {
                    Some((acc.push(r), j + 1))
                } else {
                    None
                }
            },
        }
    }
}

/// Closes a manifest parse: after the release array only whitespace may
/// remain, exactly to the end of the text.
pub open spec fn manifest_of_items(
    s: Seq<char>,
    items: Option<(Seq<ReleaseView>, int)>,
) -> Option<Seq<ReleaseView>> {
    match items {
        None => None,
        Some((rs, m0)) => {
            let m = spec_skip_ws(s, m0);
            if m == s.len() {
                Some(rs)
            } else {
                None
            }
        },
    }
}

/// What a manifest body means: the full, ordered list of release records if
/// the text is a well-formed manifest, and nothing otherwise.
pub open spec fn spec_parse_manifest(s: Seq<char>) -> Option<Seq<ReleaseView>> {
    let i = spec_skip_ws(s, 0);
    if i < s.len() && s[i] == '[' {
        let j = spec_skip_ws(s, i + 1);
        if j < s.len() && s[j] == ']' {
            manifest_of_items(s, Some((Seq::empty(), j + 1)))
        } else {
            manifest_of_items(s, spec_parse_release_items(s, j, Seq::empty(), s.len()))
        }
    } else {
        None
    }
}

// ------------------------------------------------------------------
// Errors
// ------------------------------------------------------------------

/// The manifest text was not a well-formed manifest.
#[derive(Debug, Clone, Copy, PartialEq, Eq)]
pub struct ParseError;

/// Why no release list came back: the fetch collaborator failed, or the body
/// it delivered was not a well-formed manifest.
#[derive(Debug, Clone, PartialEq, Eq)]
pub enum MirrorError {
    Transport(String),
    Decode(ParseError),
}

// ------------------------------------------------------------------
// The executable parser
// ------------------------------------------------------------------

/// True when the parsed key spells the given word.
fn key_is(key: &Vec<char>, w: &str) -> (r: bool)
    ensures
        r == (key@ == w@),
{
    let n = w.unicode_len();
    if key.len() != n {
        return false;
    }
    let mut i: usize = 0;
    while i < n
        invariant
            n == w@.len(),
            key@.len() == n,
            i <= n,
            forall|k: int| 0 <= k < i ==> key@[k] == w@[k],
        decreases n - i,
    {
        if key[i] != w.get_char(i) {
            return false;
        }
        i = i + 1;
    }
    proof {
        assert(key@ =~= w@);
    }
    true
}

/// Reads one asset object and hands back its download location.
fn parse_asset(s: &Vec<char>, i: usize, fuel: usize) -> (r: Option<(Vec<char>, usize)>)
    requires
        i <= s@.len(),
    ensures
        match r {
            Some((u, j)) => spec_parse_asset(s@, i as int, fuel as nat) == Some((u@, j as int))
                && i < j && j <= s@.len(),
            None => spec_parse_asset(s@, i as int, fuel as nat) is None,
        },
{
    if i >= s.len() || s[i] != '{' {
        return None;
    }
    let mut url: Option<Vec<char>> = None;
    let mut j: usize = skip_ws(s, i + 1);
    loop
        invariant
            i < j && j <= s@.len(),
            spec_parse_asset(s@, i as int, fuel as nat) == spec_parse_asset_members(
                s@,
                j as int,
                opt_chars_view(url),
                fuel as nat,
            ),
        decreases s@.len() - j,
    {
        match parse_string(s, j) {
            None => {
                return None;
            },
            Some((key, j0)) => {
                let jj = skip_ws(s, j0);
                if !(jj < s.len() && s[jj] == ':') {
                    return None;
                }
                let k = skip_ws(s, jj + 1);
                if key_is(&key, "browser_download_url") {
                    if url.is_some() {
                        return None;
                    }
                    match parse_string(s, k) {
                        None => {
                            return None;
                        },
                        Some((u, m0)) => {
                            let m = skip_ws(s, m0);
                            if m < s.len() && s[m] == ',' {
                                let p = skip_ws(s, m + 1);
                                if j < p {
                                    url = Some(u);
                                    j = p;
                                } else {
                                    return None;
                                }
                            } else if m < s.len() && s[m] == '}' {
                                return Some((u, m + 1));
                            } else {
                                return None;
                            }
                        },
                    }
                } else {
                    if !(j < k && k <= s.len()) {
                        return None;
                    }
                    match skip_value(s, k, fuel) {
                        None => {
                            return None;
                        },
                        Some(m0) => {
                            let m = skip_ws(s, m0);
                            if m < s.len() && s[m] == ',' {
                                let p = skip_ws(s, m + 1);
                                if j < p {
                                    j = p;
                                } else {
                                    return None;
                                }
                            } else if m < s.len() && s[m] == '}' {
                                match url {
                                    Some(u) => {
                                        return Some((u, m + 1));
                                    },
                                    None => {
                                        return None;
                                    },
                                }
                            } else {
                                return None;
                            }
                        },
                    }
                }
            },
        }
    }
}

/// Reads the value of an `assets` member: an array of asset objects.
fn parse_assets_value(s: &Vec<char>, i: usize, fuel: usize) -> (r: Option<(Vec<Assets>, usize)>)
    requires
        i <= s@.len(),
    ensures
        match r {
            Some((a, j)) => spec_parse_assets_value(s@, i as int, fuel as nat) == Some(
                (assets_seq_view(a@), j as int),
            ) && i < j && j <= s@.len(),
            None => spec_parse_assets_value(s@, i as int, fuel as nat) is None,
        },
{
    if i >= s.len() || s[i] != '[' {
        return None;
    }
    let mut j: usize = skip_ws(s, i + 1);
    if j < s.len() && s[j] == ']' {
        let a: Vec<Assets> = Vec::new();
        proof {
            assert(assets_seq_view(a@) =~= Seq::<Seq<char>>::empty());
        }
        return Some((a, j + 1));
    }
    let mut acc: Vec<Assets> = Vec::new();
    proof {
        assert(assets_seq_view(acc@) =~= Seq::<Seq<char>>::empty());
    }
    loop
        invariant
            i < j && j <= s@.len(),
            spec_parse_assets_value(s@, i as int, fuel as nat) == spec_parse_asset_items(
                s@,
                j as int,
                assets_seq_view(acc@),
                fuel as nat,
            ),
        decreases s@.len() - j,
    {
        match parse_asset(s, j, fuel) {
            None => {
                return None;
            },
            Some((u, j0)) => {
                let jj = skip_ws(s, j0);
                if jj < s.len() && s[jj] == ',' {
                    let k = skip_ws(s, jj + 1);
                    if j < k {
                        let a = Assets { browser_download_url: string_from_chars(&u) };
                        proof {
                            assert(assets_seq_view(acc@.push(a)) =~= assets_seq_view(acc@).push(
                                u@,
                            ));
                        }
                        acc.push(a);
                        j = k;
                    } else {
                        return None;
                    }
                } else if jj < s.len() && s[jj] == ']' {
                    let a = Assets { browser_download_url: string_from_chars(&u) };
                    proof {
                        assert(assets_seq_view(acc@.push(a)) =~= assets_seq_view(acc@).push(u@));
                    }
                    acc.push(a);
                    return Some((acc, jj + 1));
                } else {
                    return None;
                }
            },
        }
    }
}

/// Reads one release object and hands back its record.
fn parse_release(s: &Vec<char>, i: usize, fuel: usize) -> (r: Option<(SeleniumRelease, usize)>)
    requires
        i <= s@.len(),
    ensures
        match r {
            Some((rel, j)) => spec_parse_release(s@, i as int, fuel as nat) == Some(
                (rel@, j as int),
            ) && i < j && j <= s@.len(),
            None => spec_parse_release(s@, i as int, fuel as nat) is None,
        },
{
    if i >= s.len() || s[i] != '{' {
        return None;
    }
    let mut tag: Option<String> = None;
    let mut assets: Option<Vec<Assets>> = None;
    let mut j: usize = skip_ws(s, i + 1);
    loop
        invariant
            i < j && j <= s@.len(),
            spec_parse_release(s@, i as int, fuel as nat) == spec_parse_release_members(
                s@,
                j as int,
                opt_string_view(tag),
                opt_assets_view(assets),
                fuel as nat,
            ),
        decreases s@.len() - j,
    {
        match parse_string(s, j) {
            None => {
                return None;
            },
            Some((key, j0)) => {
                let jj = skip_ws(s, j0);
                if !(jj < s.len() && s[jj] == ':') {
                    return None;
                }
                let k = skip_ws(s, jj + 1);
                let m0: usize;
                if key_is(&key, "tag_name") {
                    if tag.is_some() {
                        return None;
                    }
                    match parse_string(s, k) {
                        None => {
                            return None;
                        },
                        Some((t, t_end)) => {
                            tag = Some(string_from_chars(&t));
                            m0 = t_end;
                        },
                    }
                } else if key_is(&key, "assets") {
                    if assets.is_some() {
                        return None;
                    }
                    match parse_assets_value(s, k, fuel) {
                        None => {
                            return None;
                        },
                        Some((a, a_end)) => {
                            assets = Some(a);
                            m0 = a_end;
                        },
                    }
                } else {
                    if !(j < k && k <= s.len()) {
                        return None;
                    }
                    match skip_value(s, k, fuel) {
                        None => {
                            return None;
                        },
                        Some(v_end) => {
                            m0 = v_end;
                        },
                    }
                }
                let m = skip_ws(s, m0);
                if m < s.len() && s[m] == ',' {
                    let p = skip_ws(s, m + 1);
                    if j < p {
                        j = p;
                    } else {
                        return None;
                    }
                } else if m < s.len() && s[m] == '}' {
                    match (tag, assets) {
                        (Some(t), Some(a)) => {
                            let rel = SeleniumRelease { tag_name: t, assets: a };
                            return Some((rel, m + 1));
                        },
                        _ => {
                            return None;
                        },
                    }
                } else {
                    return None;
                }
            },
        }
    }
}

/// Parses a manifest body.
///
/// Returns the full, ordered list of release records exactly as the text
/// gives them — no filtering, no sorting, no deduplication — when the text is
/// a well-formed manifest, and `ParseError` otherwise; nothing partial ever
/// comes back.
pub fn parse_mirror_response(body: &str) -> (r: Result<Vec<SeleniumRelease>, ParseError>)
    ensures
        match r {
            Ok(v) => spec_parse_manifest(body@) == Some(releases_seq_view(v@)),
            Err(_) => spec_parse_manifest(body@) is None,
        },
{
    let s = chars_of(body);
    let fuel = s.len();
    let i = skip_ws(&s, 0);
    if !(i < s.len() && s[i] == '[') {
        return Err(ParseError);
    }
    let j0 = skip_ws(&s, i + 1);
    if j0 < s.len() && s[j0] == ']' {
        let m = skip_ws(&s, j0 + 1);
        if m == s.len() {
            let v: Vec<SeleniumRelease> = Vec::new();
            proof {
                assert(releases_seq_view(v@) =~= Seq::<ReleaseView>::empty());
            }
            return Ok(v);
        } else {
            return Err(ParseError);
        }
    }
    let mut acc: Vec<SeleniumRelease> = Vec::new();
    let mut j = j0;
    proof {
        assert(releases_seq_view(acc@) =~= Seq::<ReleaseView>::empty());
    }
    loop
        invariant
            j <= s@.len(),
            s@ == body@,
            fuel == s@.len(),
            spec_parse_manifest(body@) == manifest_of_items(
                s@,
                spec_parse_release_items(s@, j as int, releases_seq_view(acc@), fuel as nat),
            ),
        decreases s@.len() - j,
    {
        match parse_release(&s, j, fuel) {
            None => {
                return Err(ParseError);
            },
            Some((rel, p0)) => {
                let p = skip_ws(&s, p0);
                if p < s.len() && s[p] == ',' {
                    let k = skip_ws(&s, p + 1);
                    if j < k {
                        proof {
                            assert(releases_seq_view(acc@.push(rel)) =~= releases_seq_view(
                                acc@,
                            ).push(rel@));
                        }
                        acc.push(rel);
                        j = k;
                    } else {
                        return Err(ParseError);
                    }
                } else if p < s.len() && s[p] == ']' {
                    proof {
                        assert(releases_seq_view(acc@.push(rel)) =~= releases_seq_view(acc@).push(
                            rel@,
                        ));
                    }
                    acc.push(rel);
                    let m = skip_ws(&s, p + 1);
                    if m == s.len() {
                        return Ok(acc);
                    } else {
                        return Err(ParseError);
                    }
                } else {
                    return Err(ParseError);
                }
            },
        }
    }
}

/// Turns what the fetch collaborator delivered into release records.
///
/// A transport failure is propagated untouched, before any parsing; a
/// delivered body is parsed as [`parse_mirror_response`] says.
pub fn mirror_response_from_fetch(fetched: Result<String, String>) -> (r: Result<
    Vec<SeleniumRelease>,
    MirrorError,
>)
    ensures
        match fetched {
            Err(msg) => r == Err::<Vec<SeleniumRelease>, MirrorError>(
                MirrorError::Transport(msg),
            ),
            Ok(body) => match r {
                Ok(v) => spec_parse_manifest(body@) == Some(releases_seq_view(v@)),
                Err(e) => spec_parse_manifest(body@) is None && e == MirrorError::Decode(
                    ParseError,
                ),
            },
        },
{
    match fetched {
        Err(msg) => Err(MirrorError::Transport(msg)),
        Ok(body) => match parse_mirror_response(body.as_str()) {
            Ok(v) => Ok(v),
            Err(pe) => Err(MirrorError::Decode(pe)),
        },
    }
}

} // verus!
