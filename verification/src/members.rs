//! The member pane: role glyphs, resolved names, presence coloring.

use vstd::prelude::*;
use vstd::string::StringExecFns;
use crate::color::Color;
use crate::geometry::Rect;
use crate::style::StyledSpan;

verus! {

/// A member's role in a channel.
#[derive(Clone, Copy, PartialEq, Eq, Structural, Debug)]
pub enum Role {
    Admin,
    Member,
    Invited,
}

/// A channel member: a stable identity hash and a role.  Presence and the
/// display name are looked up by the hash.
pub struct Member {
    pub hash: u64,
    pub role: Role,
}

/// The glyph shown before a member's name.
pub open spec fn role_glyph(r: Role) -> Seq<char> {
    match r {
        Role::Admin => seq!['\u{1F451}'],
        Role::Member => seq!['-'],
        Role::Invited => seq!['\u{23F3}'],
    }
}

/// First presence entry for a hash; `None` when the hash is absent from
/// the map, which renders as absent.
pub open spec fn lookup_presence(s: Seq<(u64, bool)>, h: u64) -> Option<bool>
    decreases s.len(),
{
    if s.len() == 0 {
        None
    } else if s[0].0 == h {
        Some(s[0].1)
    } else {
        lookup_presence(s.drop_first(), h)
    }
}

/// The display name resolved for a hash; empty when the resolver knows
/// nothing of it.
pub open spec fn name_of(s: Seq<(u64, String)>, h: u64) -> Seq<char>
    decreases s.len(),
{
    if s.len() == 0 {
        Seq::empty()
    } else if s[0].0 == h {
        s[0].1@
    } else {
        name_of(s.drop_first(), h)
    }
}

/// The color a member renders in: white when present, red when absent or
/// unknown, whatever the role.
pub open spec fn presence_color(p: Option<bool>) -> Color {
    if p == Some(true) {
        Color::White
    } else {
        Color::Red
    }
}

fn presence_of(presences: &Vec<(u64, bool)>, h: u64) -> (r: Option<bool>)
    ensures
        r == lookup_presence(presences@, h),
{
    let n = presences.len();
    let mut i: usize = 0;
    proof {
        assert(presences@.skip(0) =~= presences@);
    }
    while i < n
        invariant
            0 <= i <= n,
            n == presences@.len(),
            lookup_presence(presences@, h) == lookup_presence(presences@.skip(i as int), h),
        decreases n - i,
    {
        let entry = presences[i];
        proof {
            assert(presences@.skip(i as int)[0] == presences@[i as int]);
            assert(presences@.skip(i as int).drop_first() =~= presences@.skip(i + 1));
        }
        if entry.0 == h {
            return Some(entry.1);
        }
        i = i + 1;
    }
    proof {
        assert(presences@.skip(n as int).len() == 0);
    }
    None
}

fn resolve_name(names: &Vec<(u64, String)>, h: u64) -> (r: String)
    ensures
        r@ == name_of(names@, h),
{
    let n = names.len();
    let mut i: usize = 0;
    proof {
        assert(names@.skip(0) =~= names@);
    }
    while i < n
        invariant
            0 <= i <= n,
            n == names@.len(),
            name_of(names@, h) == name_of(names@.skip(i as int), h),
        decreases n - i,
    {
        proof {
            assert(names@.skip(i as int)[0] == names@[i as int]);
            assert(names@.skip(i as int).drop_first() =~= names@.skip(i + 1));
        }
        if names[i].0 == h {
            return names[i].1.clone();
        }
        i = i + 1;
    }
    proof {
        assert(names@.skip(n as int).len() == 0);
    }
    String::new()
}

fn glyph_str(r: Role) -> (g: &'static str)
    ensures
        g@ == role_glyph(r),
{
    proof {
        reveal_strlit("\u{1F451}");
        reveal_strlit("-");
        reveal_strlit("\u{23F3}");
    }
    let g = match r {
        Role::Admin => "\u{1F451}",
        Role::Member => "-",
        Role::Invited => "\u{23F3}",
    };
    proof {
        assert(g@ =~= role_glyph(r));
    }
    g
}

/// The line one member renders as: glyph, space, resolved name, in the
/// presence color.
pub open spec fn spec_member_line(
    m: Member,
    names: Seq<(u64, String)>,
    presences: Seq<(u64, bool)>,
) -> (Seq<char>, Color) {
    (
        role_glyph(m.role) + seq![' '] + name_of(names, m.hash),
        presence_color(lookup_presence(presences, m.hash)),
    )
}

/// Everything the member pane promises: members newest-appended-first,
/// at most one per pane row, each line the member's glyph and name in the
/// presence color.
pub open spec fn members_ok(
    r: Seq<StyledSpan>,
    members: Seq<Member>,
    names: Seq<(u64, String)>,
    presences: Seq<(u64, bool)>,
    area: Rect,
) -> bool {
    &&& r.len() == if members.len() <= area.height {
        members.len() as int
    } else {
        area.height as int
    }
    &&& forall|i: int|
        0 <= i < r.len() ==> (#[trigger] r[i]).view_pair() == spec_member_line(
            members[members.len() - 1 - i],
            names,
            presences,
        )
}

/// Renders the member pane: members newest-appended-first, at most one
/// per pane row, each with its role glyph and name, colored white when
/// present and red when absent or unknown.
pub fn render_members(
    members: &Vec<Member>,
    names: &Vec<(u64, String)>,
    presences: &Vec<(u64, bool)>,
    area: Rect,
) -> (r: Vec<StyledSpan>)
    ensures
        members_ok(r@, members@, names@, presences@, area),
{
    let count: usize = if members.len() <= area.height as usize {
        members.len()
    } else {
        area.height as usize
    };
    let mut r: Vec<StyledSpan> = Vec::new();
    let mut i: usize = 0;
    while i < count
        invariant
            0 <= i <= count,
            count <= members@.len(),
            r@.len() == i,
            forall|j: int|
                0 <= j < i ==> (#[trigger] r@[j]).view_pair() == spec_member_line(
                    members@[members@.len() - 1 - j],
                    names@,
                    presences@,
                ),
        decreases count - i,
    {
        let m = &members[members.len() - 1 - i];
        let mut text = glyph_str(m.role).to_owned();
        text.append(" ");
        let name = resolve_name(names, m.hash);
        text.append(name.as_str());
        let present = presence_of(presences, m.hash);
        let color = match present {
            Some(true) => Color::White,
            _ => Color::Red,
        };
        proof {
            reveal_strlit(" ");
            assert(text@ =~= role_glyph(m.role) + seq![' '] + name_of(names@, m.hash));
        }
        r.push(StyledSpan { text, color });
        i = i + 1;
    }
    r
}

} // verus!
