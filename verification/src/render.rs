//! Canonical rendering of release records as manifest text, and the proof
//! that parsing inverts it.
//!
//! The rendering is specification-only: it writes records in the plainest
//! form the grammar admits (no whitespace, members in one fixed order, no
//! escapes).  The round-trip law at the bottom says that parsing such a text
//! gives back exactly the rendered records — so the parser loses, invents and
//! reorders nothing.

use vstd::prelude::*;

use crate::json::{lemma_parse_plain_string, spec_parse_string, spec_skip_ws};
use crate::mirror::{
    assets_key,
    spec_parse_asset,
    spec_parse_asset_items,
    spec_parse_assets_value,
    spec_parse_manifest,
    spec_parse_release,
    spec_parse_release_items,
    spec_parse_release_members,
    spec_release_member_rest,
    tag_name_key,
    url_key,
    ReleaseView,
};

verus! {

// ------------------------------------------------------------------
// Plain text and canonical rendering
// ------------------------------------------------------------------

/// Text that needs no escaping inside a JSON string.
pub open spec fn plain_chars(t: Seq<char>) -> bool {
    forall|k: int|
        0 <= k < t.len() ==> (#[trigger] t[k]) != '"' && t[k] != '\\' && (t[k] as u32) >= 0x20
}

/// A record whose tag and download locations need no escaping.
pub open spec fn plain_release(r: ReleaseView) -> bool {
    &&& plain_chars(r.tag_name)
    &&& forall|k: int| 0 <= k < r.assets.len() ==> plain_chars(#[trigger] r.assets[k])
}

/// The text between quotes, with the quotes.
pub open spec fn quoted(t: Seq<char>) -> Seq<char> {
    seq!['"'] + t + seq!['"']
}

/// One asset object, canonically.
pub open spec fn render_asset(u: Seq<char>) -> Seq<char> {
    seq!['{'] + quoted(url_key()) + seq![':'] + quoted(u) + seq!['}']
}

/// Comma-separated asset objects, canonically.
pub open spec fn render_asset_items(us: Seq<Seq<char>>) -> Seq<char>
    decreases us.len(),
{
    if us.len() == 0 {
        Seq::empty()
    } else if us.len() == 1 {
        render_asset(us[0])
    } else {
        render_asset(us[0]) + seq![','] + render_asset_items(us.drop_first())
    }
}

/// An asset array, canonically.
pub open spec fn render_assets(us: Seq<Seq<char>>) -> Seq<char> {
    seq!['['] + render_asset_items(us) + seq![']']
}

/// One release object, canonically: the tag member, then the asset member.
pub open spec fn render_release(r: ReleaseView) -> Seq<char> {
    seq!['{'] + quoted(tag_name_key()) + seq![':'] + quoted(r.tag_name) + seq![','] + quoted(
        assets_key(),
    ) + seq![':'] + render_assets(r.assets) + seq!['}']
}

/// Comma-separated release objects, canonically.
pub open spec fn render_release_items(rs: Seq<ReleaseView>) -> Seq<char>
    decreases rs.len(),
{
    if rs.len() == 0 {
        Seq::empty()
    } else if rs.len() == 1 {
        render_release(rs[0])
    } else {
        render_release(rs[0]) + seq![','] + render_release_items(rs.drop_first())
    }
}

/// A whole manifest, canonically.
pub open spec fn render_manifest(rs: Seq<ReleaseView>) -> Seq<char> {
    seq!['['] + render_release_items(rs) + seq![']']
}

// ------------------------------------------------------------------
// Locating rendered text inside a larger text
// ------------------------------------------------------------------

/// The characters of `x` stand in `s` starting at `i`.
pub open spec fn sits_at(s: Seq<char>, i: int, x: Seq<char>) -> bool {
    &&& 0 <= i
    &&& i + x.len() <= s.len()
    &&& forall|k: int| 0 <= k < x.len() ==> s[i + k] == (#[trigger] x[k])
}

proof fn lemma_sits_at_concat(s: Seq<char>, i: int, a: Seq<char>, b: Seq<char>)
    requires
        sits_at(s, i, a + b),
    ensures
        sits_at(s, i, a),
        sits_at(s, i + a.len(), b),
{
    assert forall|k: int| 0 <= k < a.len() implies s[i + k] == (#[trigger] a[k]) by {
        assert((a + b)[k] == a[k]);
        assert(s[i + k] == (a + b)[k]);
    }
    assert forall|k: int| 0 <= k < b.len() implies s[i + a.len() + k] == (#[trigger] b[k]) by {
        assert((a + b)[a.len() + k] == b[k]);
        assert(s[i + (a.len() + k)] == (a + b)[a.len() + k]);
    }
}

proof fn lemma_sits_at_char(s: Seq<char>, i: int, c: char)
    requires
        sits_at(s, i, seq![c]),
    ensures
        0 <= i < s.len(),
        s[i] == c,
{
    assert(seq![c][0] == c);
    assert(s[i + 0] == seq![c][0]);
}

// ------------------------------------------------------------------
// Parsing inverts rendering, construct by construct
// ------------------------------------------------------------------

/// The three member keys need no escaping, and their lengths differ where
/// the grammar must tell them apart.
proof fn lemma_keys_plain()
    ensures
        plain_chars(tag_name_key()),
        plain_chars(assets_key()),
        plain_chars(url_key()),
        tag_name_key().len() == 8,
        assets_key().len() == 6,
        url_key().len() == 20,
{
    reveal_strlit("tag_name");
    reveal_strlit("assets");
    reveal_strlit("browser_download_url");
}

proof fn lemma_parse_quoted(s: Seq<char>, i: int, t: Seq<char>)
    requires
        sits_at(s, i, quoted(t)),
        plain_chars(t),
    ensures
        spec_parse_string(s, i) == Some((t, i + t.len() + 2)),
{
    lemma_sits_at_concat(s, i, seq!['"'] + t, seq!['"']);
    lemma_sits_at_concat(s, i, seq!['"'], t);
    lemma_sits_at_char(s, i, '"');
    lemma_sits_at_char(s, i + t.len() + 1, '"');
    assert(s.subrange(i + 1, i + 1 + t.len()) =~= t);
    lemma_parse_plain_string(s, i, t);
}

proof fn lemma_parse_asset_at(s: Seq<char>, i: int, u: Seq<char>, fuel: nat)
    requires
        sits_at(s, i, render_asset(u)),
        plain_chars(u),
    ensures
        spec_parse_asset(s, i, fuel) == Some((u, i + render_asset(u).len())),
        render_asset(u).len() == 27 + u.len(),
{
    lemma_keys_plain();
    lemma_sits_at_concat(
        s,
        i,
        seq!['{'] + quoted(url_key()) + seq![':'] + quoted(u),
        seq!['}'],
    );
    lemma_sits_at_concat(s, i, seq!['{'] + quoted(url_key()) + seq![':'], quoted(u));
    lemma_sits_at_concat(s, i, seq!['{'] + quoted(url_key()), seq![':']);
    lemma_sits_at_concat(s, i, seq!['{'], quoted(url_key()));
    lemma_sits_at_char(s, i, '{');
    lemma_sits_at_char(s, i + 23, ':');
    lemma_sits_at_char(s, i + 26 + u.len(), '}');
    lemma_parse_quoted(s, i + 1, url_key());
    lemma_parse_quoted(s, i + 24, u);
}

/// The first character of a non-empty run of rendered asset objects.
proof fn lemma_asset_items_first_char(us: Seq<Seq<char>>)
    requires
        us.len() > 0,
    ensures
        render_asset_items(us).len() > 0,
        render_asset_items(us)[0] == '{',
{
    assert(seq!['{'][0] == '{');
    assert(render_asset(us[0])[0] == '{');
    if us.len() > 1 {
        assert(render_asset_items(us)[0] == (render_asset(us[0]) + seq![','])[0]);
    }
}

proof fn lemma_parse_asset_items_at(
    s: Seq<char>,
    i: int,
    us: Seq<Seq<char>>,
    acc: Seq<Seq<char>>,
    fuel: nat,
)
    requires
        us.len() > 0,
        sits_at(s, i, render_asset_items(us)),
        i + render_asset_items(us).len() < s.len(),
        s[i + render_asset_items(us).len()] == ']',
        forall|k: int| 0 <= k < us.len() ==> plain_chars(#[trigger] us[k]),
    ensures
        spec_parse_asset_items(s, i, acc, fuel) == Some(
            (acc + us, i + render_asset_items(us).len() + 1),
        ),
    decreases us.len(),
{
    if us.len() == 1 {
        lemma_parse_asset_at(s, i, us[0], fuel);
        assert(acc.push(us[0]) =~= acc + us);
    } else {
        let head = render_asset(us[0]);
        let rest = render_asset_items(us.drop_first());
        lemma_sits_at_concat(s, i, head + seq![','], rest);
        lemma_sits_at_concat(s, i, head, seq![',']);
        lemma_parse_asset_at(s, i, us[0], fuel);
        let j0 = i + head.len();
        lemma_sits_at_char(s, j0, ',');
        assert forall|k: int|
            0 <= k < us.drop_first().len() implies plain_chars(
            #[trigger] us.drop_first()[k],
        ) by {
            assert(us.drop_first()[k] == us[k + 1]);
        }
        lemma_asset_items_first_char(us.drop_first());
        assert(s[j0 + 1 + 0] == rest[0]);
        lemma_parse_asset_items_at(s, j0 + 1, us.drop_first(), acc.push(us[0]), fuel);
        assert(acc.push(us[0]) + us.drop_first() =~= acc + us);
    }
}

proof fn lemma_parse_assets_value_at(s: Seq<char>, i: int, us: Seq<Seq<char>>, fuel: nat)
    requires
        sits_at(s, i, render_assets(us)),
        forall|k: int| 0 <= k < us.len() ==> plain_chars(#[trigger] us[k]),
    ensures
        spec_parse_assets_value(s, i, fuel) == Some((us, i + render_assets(us).len())),
{
    lemma_sits_at_concat(s, i, seq!['['] + render_asset_items(us), seq![']']);
    lemma_sits_at_concat(s, i, seq!['['], render_asset_items(us));
    lemma_sits_at_char(s, i, '[');
    lemma_sits_at_char(s, i + 1 + render_asset_items(us).len(), ']');
    if us.len() == 0 {
        assert(Seq::<Seq<char>>::empty() =~= us);
    } else {
        lemma_asset_items_first_char(us);
        assert(s[i + 1 + 0] == render_asset_items(us)[0]);
        lemma_parse_asset_items_at(s, i + 1, us, Seq::empty(), fuel);
        assert(Seq::<Seq<char>>::empty() + us =~= us);
    }
}

#[verifier::rlimit(100)]
proof fn lemma_parse_release_at(s: Seq<char>, i: int, r: ReleaseView, fuel: nat)
    requires
        sits_at(s, i, render_release(r)),
        plain_release(r),
    ensures
        spec_parse_release(s, i, fuel) == Some((r, i + render_release(r).len())),
{
    reveal_with_fuel(spec_parse_release_members, 2);
    reveal_with_fuel(spec_release_member_rest, 2);
    lemma_keys_plain();
    let tl = r.tag_name.len() as int;
    let ra = render_assets(r.assets);
    lemma_sits_at_concat(
        s,
        i,
        seq!['{'] + quoted(tag_name_key()) + seq![':'] + quoted(r.tag_name) + seq![','] + quoted(
            assets_key(),
        ) + seq![':'] + ra,
        seq!['}'],
    );
    lemma_sits_at_concat(
        s,
        i,
        seq!['{'] + quoted(tag_name_key()) + seq![':'] + quoted(r.tag_name) + seq![','] + quoted(
            assets_key(),
        ) + seq![':'],
        ra,
    );
    lemma_sits_at_concat(
        s,
        i,
        seq!['{'] + quoted(tag_name_key()) + seq![':'] + quoted(r.tag_name) + seq![','] + quoted(
            assets_key(),
        ),
        seq![':'],
    );
    lemma_sits_at_concat(
        s,
        i,
        seq!['{'] + quoted(tag_name_key()) + seq![':'] + quoted(r.tag_name) + seq![','],
        quoted(assets_key()),
    );
    lemma_sits_at_concat(
        s,
        i,
        seq!['{'] + quoted(tag_name_key()) + seq![':'] + quoted(r.tag_name),
        seq![','],
    );
    lemma_sits_at_concat(s, i, seq!['{'] + quoted(tag_name_key()) + seq![':'], quoted(r.tag_name));
    lemma_sits_at_concat(s, i, seq!['{'] + quoted(tag_name_key()), seq![':']);
    lemma_sits_at_concat(s, i, seq!['{'], quoted(tag_name_key()));
    lemma_sits_at_char(s, i, '{');
    lemma_sits_at_char(s, i + 11, ':');
    lemma_sits_at_char(s, i + 14 + tl, ',');
    lemma_sits_at_char(s, i + 23 + tl, ':');
    lemma_sits_at_char(s, i + 24 + tl + ra.len(), '}');
    // the character each whitespace skip stops on
    assert(quoted(tag_name_key())[0] == '"');
    assert(s[i + 1 + 0] == quoted(tag_name_key())[0]);
    assert(quoted(r.tag_name)[0] == '"');
    assert(s[i + 12 + 0] == quoted(r.tag_name)[0]);
    assert(quoted(assets_key())[0] == '"');
    assert(s[i + (15 + tl) + 0] == quoted(assets_key())[0]);
    assert(seq!['['][0] == '[');
    assert(ra[0] == '[');
    assert(s[i + (24 + tl) + 0] == ra[0]);
    lemma_parse_quoted(s, i + 1, tag_name_key());
    lemma_parse_quoted(s, i + 12, r.tag_name);
    lemma_parse_quoted(s, i + 15 + tl, assets_key());
    lemma_parse_assets_value_at(s, i + 24 + tl, r.assets, fuel);
    assert(assets_key() != tag_name_key());
    // the parse, spelled out member by member
    assert(spec_skip_ws(s, i + 1) == i + 1);
    assert(spec_parse_string(s, i + 1) == Some((tag_name_key(), i + 11)));
    assert(spec_parse_release(s, i, fuel) == spec_parse_release_members(
        s,
        i + 1,
        None::<Seq<char>>,
        None::<Seq<Seq<char>>>,
        fuel,
    ));
    assert(spec_skip_ws(s, i + 11) == i + 11);
    assert(spec_skip_ws(s, i + 12) == i + 12);
    assert(spec_parse_string(s, i + 12) == Some((r.tag_name, i + 14 + tl)));
    assert(spec_parse_release_members(s, i + 1, None::<Seq<char>>, None::<Seq<Seq<char>>>, fuel)
        == spec_release_member_rest(
        s,
        i + 1,
        i + 14 + tl,
        Some(r.tag_name),
        None::<Seq<Seq<char>>>,
        fuel,
    ));
    assert(spec_skip_ws(s, i + 14 + tl) == i + 14 + tl);
    assert(spec_skip_ws(s, i + 15 + tl) == i + 15 + tl);
    assert(spec_release_member_rest(
        s,
        i + 1,
        i + 14 + tl,
        Some(r.tag_name),
        None::<Seq<Seq<char>>>,
        fuel,
    ) == spec_parse_release_members(
        s,
        i + 15 + tl,
        Some(r.tag_name),
        None::<Seq<Seq<char>>>,
        fuel,
    ));
    assert(spec_parse_string(s, i + 15 + tl) == Some((assets_key(), i + 23 + tl)));
    assert(spec_skip_ws(s, i + 23 + tl) == i + 23 + tl);
    assert(spec_skip_ws(s, i + 24 + tl) == i + 24 + tl);
    assert(spec_parse_assets_value(s, i + 24 + tl, fuel) == Some(
        (r.assets, i + 24 + tl + ra.len()),
    ));
    assert(spec_parse_release_members(
        s,
        i + 15 + tl,
        Some(r.tag_name),
        None::<Seq<Seq<char>>>,
        fuel,
    ) == spec_release_member_rest(
        s,
        i + 15 + tl,
        i + 24 + tl + ra.len(),
        Some(r.tag_name),
        Some(r.assets),
        fuel,
    ));
    assert(spec_skip_ws(s, i + 24 + tl + ra.len()) == i + 24 + tl + ra.len());
    assert(spec_release_member_rest(
        s,
        i + 15 + tl,
        i + 24 + tl + ra.len(),
        Some(r.tag_name),
        Some(r.assets),
        fuel,
    ) == Some((ReleaseView { tag_name: r.tag_name, assets: r.assets }, i + 24 + tl + ra.len() + 1)));
    assert(ReleaseView { tag_name: r.tag_name, assets: r.assets } == r);
    assert(render_release(r).len() == 25 + tl + ra.len());
}

/// The first character of a non-empty run of rendered release objects.
proof fn lemma_release_items_first_char(rs: Seq<ReleaseView>)
    requires
        rs.len() > 0,
    ensures
        render_release_items(rs).len() > 0,
        render_release_items(rs)[0] == '{',
{
    assert(seq!['{'][0] == '{');
    assert(render_release(rs[0])[0] == '{');
    if rs.len() > 1 {
        assert(render_release_items(rs)[0] == (render_release(rs[0]) + seq![','])[0]);
    }
}

proof fn lemma_parse_release_items_at(
    s: Seq<char>,
    i: int,
    rs: Seq<ReleaseView>,
    acc: Seq<ReleaseView>,
    fuel: nat,
)
    requires
        rs.len() > 0,
        sits_at(s, i, render_release_items(rs)),
        i + render_release_items(rs).len() < s.len(),
        s[i + render_release_items(rs).len()] == ']',
        forall|k: int| 0 <= k < rs.len() ==> plain_release(#[trigger] rs[k]),
    ensures
        spec_parse_release_items(s, i, acc, fuel) == Some(
            (acc + rs, i + render_release_items(rs).len() + 1),
        ),
    decreases rs.len(),
{
    if rs.len() == 1 {
        lemma_parse_release_at(s, i, rs[0], fuel);
        assert(acc.push(rs[0]) =~= acc + rs);
    } else {
        let head = render_release(rs[0]);
        let rest = render_release_items(rs.drop_first());
        lemma_sits_at_concat(s, i, head + seq![','], rest);
        lemma_sits_at_concat(s, i, head, seq![',']);
        lemma_parse_release_at(s, i, rs[0], fuel);
        let j0 = i + head.len();
        lemma_sits_at_char(s, j0, ',');
        assert forall|k: int|
            0 <= k < rs.drop_first().len() implies plain_release(
            #[trigger] rs.drop_first()[k],
        ) by {
            assert(rs.drop_first()[k] == rs[k + 1]);
        }
        lemma_release_items_first_char(rs.drop_first());
        assert(s[j0 + 1 + 0] == rest[0]);
        lemma_parse_release_items_at(s, j0 + 1, rs.drop_first(), acc.push(rs[0]), fuel);
        assert(acc.push(rs[0]) + rs.drop_first() =~= acc + rs);
    }
}

/// The round trip: a canonically rendered list of records parses back to
/// exactly those records — the parser loses, invents and reorders nothing.
/// It holds of records whose texts need no escaping, the only ones the
/// canonical rendering writes verbatim.
pub proof fn lemma_render_parse_round_trip(rs: Seq<ReleaseView>)
    requires
        forall|k: int| 0 <= k < rs.len() ==> plain_release(#[trigger] rs[k]),
    ensures
        spec_parse_manifest(render_manifest(rs)) == Some(rs),
{
    let s = render_manifest(rs);
    assert forall|k: int| 0 <= k < s.len() implies s[0 + k] == (#[trigger] s[k]) by {}
    assert(sits_at(s, 0, s));
    lemma_sits_at_concat(s, 0, seq!['['] + render_release_items(rs), seq![']']);
    lemma_sits_at_concat(s, 0, seq!['['], render_release_items(rs));
    lemma_sits_at_char(s, 0, '[');
    lemma_sits_at_char(s, 1 + render_release_items(rs).len() as int, ']');
    if rs.len() == 0 {
        assert(Seq::<ReleaseView>::empty() =~= rs);
    } else {
        lemma_release_items_first_char(rs);
        assert(s[1int + 0] == render_release_items(rs)[0]);
        lemma_parse_release_items_at(s, 1, rs, Seq::empty(), s.len());
        assert(Seq::<ReleaseView>::empty() + rs =~= rs);
    }
}

} // verus!
