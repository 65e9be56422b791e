//! Launchable-session descriptors.
//!
//! A launchable session is an externally discovered program that can be
//! started as the user's desktop session: a display name, a unique slug, the
//! argument vector to run, and the environment contributions derived from
//! it. Discovery itself (scanning directories and reading desktop files) is
//! the surrounding program's business; this module holds the descriptors and
//! the rules about them: the environment lines a session contributes, lookup
//! by slug, and deduplication by slug.

use vstd::prelude::*;
use vstd::string::StringExecFns;

use crate::json::str_chars;

verus! {

/// The kind of display server a session runs under.
#[derive(Debug, Copy, Clone, PartialEq, Eq, Hash, Structural)]
pub enum SessionType {
    X11,
    Wayland,
}

/// The lower-case name of a session type, as it appears in the session's
/// environment.
pub open spec fn session_type_name(t: SessionType) -> Seq<char> {
    match t {
        SessionType::X11 => "x11"@,
        SessionType::Wayland => "wayland"@,
    }
}

impl SessionType {
    /// The lower-case name of this session type.
    pub fn name(&self) -> (r: String)
        ensures
            r@ == session_type_name(*self),
    {
        match self {
            SessionType::X11 => "x11".to_owned(),
            SessionType::Wayland => "wayland".to_owned(),
        }
    }
}

/// An externally supplied descriptor of one launchable session. Immutable
/// once discovered; consumed only when the session is started.
#[derive(Debug)]
pub struct Session {
    pub slug: String,
    pub name: String,
    pub command: Vec<String>,
    pub session_type: SessionType,
    pub desktop_names: Vec<String>,
}

/// Mathematical model of a [`Session`].
pub struct SessionView {
    pub slug: Seq<char>,
    pub name: Seq<char>,
    pub command: Seq<Seq<char>>,
    pub session_type: SessionType,
    pub desktop_names: Seq<Seq<char>>,
}

impl View for Session {
    type V = SessionView;

    open spec fn view(&self) -> SessionView {
        SessionView {
            slug: self.slug@,
            name: self.name@,
            command: self.command.deep_view(),
            session_type: self.session_type,
            desktop_names: self.desktop_names.deep_view(),
        }
    }
}

impl DeepView for Session {
    type V = SessionView;

    open spec fn deep_view(&self) -> SessionView {
        self.view()
    }
}

impl Clone for Session {
    /// The clone stands for the same session.
    fn clone(&self) -> (r: Self)
        ensures
            r@ == self@,
    {
        broadcast use vstd::std_specs::vec::vec_clone_deep_view_proof;

        Session {
            slug: self.slug.clone(),
            name: self.name.clone(),
            command: self.command.clone(),
            session_type: self.session_type,
            desktop_names: self.desktop_names.clone(),
        }
    }
}

/// The names joined with colons between them.
pub open spec fn join_colon(v: Seq<Seq<char>>) -> Seq<char>
    decreases v.len(),
{
    if v.len() == 0 {
        Seq::empty()
    } else if v.len() == 1 {
        v[0]
    } else {
        v[0] + seq![':'] + join_colon(v.drop_first())
    }
}

/// Joining one more name appends a colon and the name.
proof fn lemma_join_colon_push(v: Seq<Seq<char>>, x: Seq<char>)
    requires
        v.len() >= 1,
    ensures
        join_colon(v.push(x)) == join_colon(v) + seq![':'] + x,
    decreases v.len(),
{
    if v.len() == 1 {
        let w = v.push(x);
        assert(w[0] == v[0]);
        assert(w.drop_first() =~= seq![x]);
        assert(join_colon(seq![x]) == x);
        assert(join_colon(w) =~= join_colon(v) + seq![':'] + x);
    } else {
        let w = v.push(x);
        lemma_join_colon_push(v.drop_first(), x);
        assert(w[0] == v[0]);
        assert(w.drop_first() =~= v.drop_first().push(x));
        assert(v[0] + seq![':'] + ((join_colon(v.drop_first()) + seq![':']) + x) =~= ((v[0]
            + seq![':'] + join_colon(v.drop_first())) + seq![':']) + x);
        assert(join_colon(w) =~= join_colon(v) + seq![':'] + x);
    }
}

/// The names joined with colons between them.
fn join_colon_exec(v: &Vec<String>) -> (r: String)
    ensures
        r@ == join_colon(v.deep_view()),
{
    let ghost dv = v.deep_view();
    let mut s = String::new();
    let mut i: usize = 0;
    while i < v.len()
        invariant
            i <= v@.len(),
            dv == v.deep_view(),
            dv.len() == v@.len(),
            forall|k: int| 0 <= k < v@.len() ==> dv[k] == v@[k]@,
            i == 0 ==> s@ == Seq::<char>::empty(),
            i >= 1 ==> s@ == join_colon(dv.take(i as int)),
        decreases v@.len() - i,
    {
        if i > 0 {
            s.append(":");
            s.append(v[i].as_str());
            proof {
                reveal_strlit(":");
                lemma_join_colon_push(dv.take(i as int), dv[i as int]);
                assert(dv.take(i as int + 1) =~= dv.take(i as int).push(dv[i as int]));
                assert(":"@ =~= seq![':']);
                assert(s@ =~= join_colon(dv.take(i as int + 1)));
            }
        } else {
            s.append(v[i].as_str());
            proof {
                assert(dv.take(1).len() == 1 && dv.take(1)[0] == dv[0]);
                assert(s@ =~= join_colon(dv.take(1)));
            }
        }
        i += 1;
    }
    proof {
        assert(dv.take(v@.len() as int) =~= dv);
        if v@.len() == 0 {
            assert(s@ =~= join_colon(dv));
        }
    }
    s
}

/// The three environment lines a session contributes: its display-server
/// type, its slug as the session's desktop, and its desktop names joined
/// with colons.
pub open spec fn environment_of(s: SessionView) -> Seq<Seq<char>> {
    seq![
        "XDG_SESSION_TYPE="@ + session_type_name(s.session_type),
        "XDG_SESSION_DESKTOP="@ + s.slug,
        "XDG_CURRENT_DESKTOP="@ + join_colon(s.desktop_names),
    ]
}

impl Session {
    /// The environment contributions of this session, in order.
    pub fn to_environment(&self) -> (r: Vec<String>)
        ensures
            r.deep_view() == environment_of(self@),
    {
        let mut line1 = "XDG_SESSION_TYPE=".to_owned();
        line1.append(self.session_type.name().as_str());
        let mut line2 = "XDG_SESSION_DESKTOP=".to_owned();
        line2.append(self.slug.as_str());
        let mut line3 = "XDG_CURRENT_DESKTOP=".to_owned();
        let joined = join_colon_exec(&self.desktop_names);
        line3.append(joined.as_str());
        let mut r: Vec<String> = Vec::new();
        r.push(line1);
        r.push(line2);
        r.push(line3);
        proof {
            assert(r.deep_view() =~= environment_of(self@));
        }
        r
    }
}

/// Two example sessions for running without a session directory to scan.
pub fn get_sessions_mock() -> (r: Vec<Session>)
    ensures
        r.deep_view().len() == 2,
        r.deep_view()[0] == (SessionView {
            slug: "test-wayland"@,
            name: "Test (Wayland)"@,
            command: Seq::<Seq<char>>::empty(),
            session_type: SessionType::Wayland,
            desktop_names: Seq::<Seq<char>>::empty(),
        }),
        r.deep_view()[1] == (SessionView {
            slug: "test-xorg"@,
            name: "Test (Xorg)"@,
            command: Seq::<Seq<char>>::empty(),
            session_type: SessionType::X11,
            desktop_names: Seq::<Seq<char>>::empty(),
        }),
{
    let first = Session {
        slug: "test-wayland".to_owned(),
        name: "Test (Wayland)".to_owned(),
        command: Vec::new(),
        session_type: SessionType::Wayland,
        desktop_names: Vec::new(),
    };
    let second = Session {
        slug: "test-xorg".to_owned(),
        name: "Test (Xorg)".to_owned(),
        command: Vec::new(),
        session_type: SessionType::X11,
        desktop_names: Vec::new(),
    };
    proof {
        assert(first.command.deep_view() =~= Seq::<Seq<char>>::empty());
        assert(first.desktop_names.deep_view() =~= Seq::<Seq<char>>::empty());
        assert(second.command.deep_view() =~= Seq::<Seq<char>>::empty());
        assert(second.desktop_names.deep_view() =~= Seq::<Seq<char>>::empty());
    }
    let mut r: Vec<Session> = Vec::new();
    r.push(first);
    r.push(second);
    proof {
        assert(r.deep_view().len() == 2);
        assert(r.deep_view()[0] == r@[0]@);
        assert(r.deep_view()[1] == r@[1]@);
    }
    r
}

/// Whether two strings hold the same text.
fn str_eq(a: &str, b: &str) -> (r: bool)
    ensures
        r == (a@ == b@),
{
    let av = str_chars(a);
    let bv = str_chars(b);
    if av.len() != bv.len() {
        return false;
    }
    let n = av.len();
    let mut i: usize = 0;
    while i < n
        invariant
            i <= n,
            n == av@.len(),
            n == bv@.len(),
            av@ == a@,
            bv@ == b@,
            forall|k: int| 0 <= k < i ==> av@[k] == bv@[k],
        decreases n - i,
    {
        if av[i] != bv[i] {
            return false;
        }
        i += 1;
    }
    proof {
        assert(a@ =~= b@);
    }
    true
}

/// The first session of the list whose slug is the given one.
pub open spec fn first_with_slug(v: Seq<SessionView>, slug: Seq<char>) -> Option<SessionView>
    decreases v.len(),
{
    if v.len() == 0 {
        None
    } else if v[0].slug == slug {
        Some(v[0])
    } else {
        first_with_slug(v.drop_first(), slug)
    }
}

/// Looks a session up by its slug; returns a copy of the first one that
/// carries it, if any does.
pub fn find_by_slug(sessions: &Vec<Session>, slug: &str) -> (r: Option<Session>)
    ensures
        match r {
            Some(s) => first_with_slug(sessions.deep_view(), slug@) == Some(s@),
            None => first_with_slug(sessions.deep_view(), slug@) is None,
        },
{
    let ghost dv = sessions.deep_view();
    let n = sessions.len();
    let mut i: usize = 0;
    proof {
        assert(dv.skip(0) =~= dv);
    }
    while i < n
        invariant
            i <= n,
            n == sessions@.len(),
            dv == sessions.deep_view(),
            dv.len() == n,
            forall|k: int| 0 <= k < n ==> dv[k] == sessions@[k]@,
            first_with_slug(dv, slug@) == first_with_slug(dv.skip(i as int), slug@),
        decreases n - i,
    {
        proof {
            assert(dv.skip(i as int)[0] == dv[i as int]);
        }
        if str_eq(sessions[i].slug.as_str(), slug) {
            let found = sessions[i].clone();
            return Some(found);
        }
        proof {
            assert(dv.skip(i as int).drop_first() =~= dv.skip(i as int + 1));
        }
        i += 1;
    }
    proof {
        assert(dv.skip(n as int) =~= Seq::<SessionView>::empty());
    }
    None
}

/// Whether some session among the first so many carries the slug.
pub open spec fn slug_among(v: Seq<SessionView>, upto: int, slug: Seq<char>) -> bool {
    exists|j: int| 0 <= j < upto && #[trigger] v[j].slug == slug
}

/// The sessions with every later repetition of an already seen slug dropped:
/// of the first so many sessions, each is kept exactly when no earlier one
/// carries its slug.
pub open spec fn dedup_prefix(v: Seq<SessionView>, n: int) -> Seq<SessionView>
    decreases n,
{
    if n <= 0 {
        Seq::empty()
    } else {
        dedup_prefix(v, n - 1) + (if slug_among(v, n - 1, v[n - 1].slug) {
            Seq::<SessionView>::empty()
        } else {
            seq![v[n - 1]]
        })
    }
}

/// Drops every session whose slug an earlier one already carries, keeping
/// the first occurrence of each slug and the order of what is kept.
pub fn dedup_by_slug(sessions: &Vec<Session>) -> (r: Vec<Session>)
    ensures
        r.deep_view() == dedup_prefix(sessions.deep_view(), sessions.deep_view().len() as int),
{
    let ghost dv = sessions.deep_view();
    let n = sessions.len();
    let mut out: Vec<Session> = Vec::new();
    let mut i: usize = 0;
    proof {
        assert(out.deep_view() =~= dedup_prefix(dv, 0));
    }
    while i < n
        invariant
            i <= n,
            n == sessions@.len(),
            dv == sessions.deep_view(),
            dv.len() == n,
            forall|k: int| 0 <= k < n ==> dv[k] == sessions@[k]@,
            out.deep_view() == dedup_prefix(dv, i as int),
        decreases n - i,
    {
        let mut seen = false;
        let mut j: usize = 0;
        while j < i && !seen
            invariant
                j <= i,
                i < n,
                n == sessions@.len(),
                dv == sessions.deep_view(),
                dv.len() == n,
                forall|k: int| 0 <= k < n ==> dv[k] == sessions@[k]@,
                !seen ==> forall|k: int| 0 <= k < j ==> #[trigger] dv[k].slug != dv[i as int].slug,
                seen ==> slug_among(dv, i as int, dv[i as int].slug),
            decreases i - j + (if seen { 0int } else { 1int }),
        {
            if str_eq(sessions[j].slug.as_str(), sessions[i].slug.as_str()) {
                proof {
                    assert(dv[j as int].slug == dv[i as int].slug);
                }
                seen = true;
            } else {
                j += 1;
            }
        }
        let ghost pre = out.deep_view();
        if !seen {
            proof {
                assert(!slug_among(dv, i as int, dv[i as int].slug));
            }
            let kept = sessions[i].clone();
            out.push(kept);
            proof {
                assert(out.deep_view() =~= pre.push(dv[i as int]));
                assert(out.deep_view() =~= dedup_prefix(dv, i as int + 1));
            }
        } else {
            proof {
                assert(out.deep_view() =~= dedup_prefix(dv, i as int + 1));
            }
        }
        i += 1;
    }
    out
}

} // verus!
