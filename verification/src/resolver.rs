use vstd::prelude::*;
use crate::server::Server;
use crate::server::ServerView;
use crate::server::alias_lookup;
use crate::server::aliases_view;
use crate::response::Response;
use crate::response::ResponseView;
use crate::response::StatusCode;
use crate::text::str_eq;

verus! {

/// The request path after the one rewrite the server performs:
/// a bare `/` asks for `/index.html`.
pub open spec fn spec_rewrite(uri: Seq<char>) -> Seq<char> {
    if uri == "/"@ {
        "/index.html"@
    } else {
        uri
    }
}

/// `u` without its leading path separator, if it has one.
pub open spec fn spec_strip_slash(u: Seq<char>) -> Seq<char> {
    if u.len() > 0 && u[0] == '/' {
        u.subrange(1, u.len() as int)
    } else {
        u
    }
}

/// What one read of `path` returns against the readable files `fs`:
/// the contents if the path is readable, nothing otherwise.
pub open spec fn fs_read(fs: Map<Seq<char>, Seq<char>>, path: Seq<char>) -> Option<Seq<char>> {
    if fs.dom().contains(path) {
        Some(fs[path])
    } else {
        None
    }
}

/// The successful resolution carrying `body`.
pub open spec fn ok_view(body: Seq<char>) -> ResponseView {
    ResponseView { code: StatusCode::Okay, phrase: "OK"@, message: body }
}

/// The not-found resolution carrying `body`.
pub open spec fn not_found_view(body: Seq<char>) -> ResponseView {
    ResponseView { code: StatusCode::NotFound, phrase: "NOT_FOUND"@, message: body }
}

/// The static resolution served when every lookup failed.
pub open spec fn fallback_view() -> ResponseView {
    not_found_view("Error: 404 not found"@)
}

/// The pure resolution of one request against the readable files `fs`:
/// first the rewritten path under the root, then the alias table, then
/// the root itself as a content-bearing not-found page, and at last the
/// static fallback, with no read at all.
pub open spec fn resolve_spec(
    root: Seq<char>,
    aliases: Seq<(Seq<char>, Seq<char>)>,
    uri: Seq<char>,
    fs: Map<Seq<char>, Seq<char>>,
) -> ResponseView {
    match fs_read(fs, root + spec_rewrite(uri)) {
        Some(c) => ok_view(c),
        None => {
            let from_alias = match alias_lookup(aliases, spec_strip_slash(spec_rewrite(uri))) {
                Some(canon) => fs_read(fs, root + canon),
                None => None,
            };
            match from_alias {
                Some(c) => ok_view(c),
                None => match fs_read(fs, root) {
                    Some(c) => not_found_view(c),
                    None => fallback_view(),
                },
            }
        },
    }
}

/// Which read of the fallback chain is pending.
#[derive(Debug, PartialEq, Eq, Structural, Clone, Copy)]
pub enum ResolvePhase {
    /// The rewritten request path under the root.
    Direct,
    /// The canonical path behind a matching alias.
    Alias,
    /// The root itself, read as a file.
    RootFallback,
}

/// One step of resolution: either a path the driver must try to read,
/// or the finished response.
pub enum ResolveStep {
    Read(ResolvePhase, String),
    Done(Response),
}

/// The mathematical value of a resolution step.
pub ghost enum StepView {
    Read(ResolvePhase, Seq<char>),
    Done(ResponseView),
}

impl View for ResolveStep {
    type V = StepView;

    open spec fn view(&self) -> StepView {
        match self {
            ResolveStep::Read(p, s) => StepView::Read(*p, s@),
            ResolveStep::Done(r) => StepView::Done(r@),
        }
    }
}

/// The mathematical value of an optional owned string.
pub open spec fn opt_view(o: Option<String>) -> Option<Seq<char>> {
    match o {
        Some(s) => Some(s@),
        None => None,
    }
}

/// The path that a pending phase asks the driver to read.
pub open spec fn phase_path(v: ServerView, uri: Seq<char>, phase: ResolvePhase) -> Seq<char> {
    match phase {
        ResolvePhase::Direct => v.root + spec_rewrite(uri),
        ResolvePhase::Alias => v.root + alias_lookup(
            v.aliases,
            spec_strip_slash(spec_rewrite(uri)),
        ).unwrap(),
        ResolvePhase::RootFallback => v.root,
    }
}

/// How one read outcome advances the resolution: a hit ends it, a miss
/// moves to the next stage of the fallback chain.
pub open spec fn spec_next(
    v: ServerView,
    uri: Seq<char>,
    phase: ResolvePhase,
    outcome: Option<Seq<char>>,
) -> StepView {
    match phase {
        ResolvePhase::Direct => match outcome {
            Some(c) => StepView::Done(ok_view(c)),
            None => match alias_lookup(v.aliases, spec_strip_slash(spec_rewrite(uri))) {
                Some(canon) => StepView::Read(ResolvePhase::Alias, v.root + canon),
                None => StepView::Read(ResolvePhase::RootFallback, v.root),
            },
        },
        ResolvePhase::Alias => match outcome {
            Some(c) => StepView::Done(ok_view(c)),
            None => StepView::Read(ResolvePhase::RootFallback, v.root),
        },
        ResolvePhase::RootFallback => match outcome {
            Some(c) => StepView::Done(not_found_view(c)),
            None => StepView::Done(fallback_view()),
        },
    }
}

/// How many reads a phase can still cause.
pub open spec fn phase_rank(p: ResolvePhase) -> nat {
    match p {
        ResolvePhase::Direct => 2,
        ResolvePhase::Alias => 1,
        ResolvePhase::RootFallback => 0,
    }
}

/// The response the step machine reaches from `phase` when every read
/// outcome is drawn from the fixed readable files `fs`. The rank test
/// only justifies termination; every step moves down the chain.
pub open spec fn run_from(
    v: ServerView,
    uri: Seq<char>,
    phase: ResolvePhase,
    fs: Map<Seq<char>, Seq<char>>,
) -> ResponseView
    decreases phase_rank(phase),
{
    match spec_next(v, uri, phase, fs_read(fs, phase_path(v, uri, phase))) {
        StepView::Done(r) => r,
        StepView::Read(p2, _) => if phase_rank(p2) < phase_rank(phase) {
            run_from(v, uri, p2, fs)
        } else {
            fallback_view()
        },
    }
}

/// Law: every path the machine hands out is the path of its phase, and
/// driving the steps with read outcomes drawn from one fixed set of
/// readable files ends in exactly the pure resolution of the request.
pub proof fn lemma_run_resolves(v: ServerView, uri: Seq<char>, fs: Map<Seq<char>, Seq<char>>)
    ensures
        run_from(v, uri, ResolvePhase::Direct, fs) == resolve_spec(v.root, v.aliases, uri, fs),
{
    if fs.dom().contains(v.root + spec_rewrite(uri)) {
    } else {
        match alias_lookup(v.aliases, spec_strip_slash(spec_rewrite(uri))) {
            Option::Some(canon) => {
                assert(run_from(v, uri, ResolvePhase::Direct, fs) == run_from(
                    v,
                    uri,
                    ResolvePhase::Alias,
                    fs,
                ));
                if fs.dom().contains(v.root + canon) {
                } else {
                    assert(run_from(v, uri, ResolvePhase::Alias, fs) == run_from(
                        v,
                        uri,
                        ResolvePhase::RootFallback,
                        fs,
                    ));
                }
            },
            Option::None => {
                assert(run_from(v, uri, ResolvePhase::Direct, fs) == run_from(
                    v,
                    uri,
                    ResolvePhase::RootFallback,
                    fs,
                ));
            },
        }
    }
}

impl Server {
    /// The canonical name behind `name` in the alias table, if any;
    /// a later entry overrides an earlier one.
    pub fn lookup_alias(&self, name: &str) -> (r: Option<String>)
        ensures
            match r {
                Some(c) => alias_lookup(self@.aliases, name@) == Some(c@),
                None => alias_lookup(self@.aliases, name@) is None,
            },
    {
        let mut i: usize = self.aliases.len();
        proof {
            assert(aliases_view(self.aliases@).take(i as int) =~~= aliases_view(self.aliases@));
        }
        while i > 0
            invariant
                0 <= i <= self.aliases.len(),
                alias_lookup(aliases_view(self.aliases@), name@) == alias_lookup(
                    aliases_view(self.aliases@).take(i as int),
                    name@,
                ),
            decreases i,
        {
            i = i - 1;
            proof {
                let av = aliases_view(self.aliases@);
                assert(av.take(i as int + 1).last() == av[i as int]);
                assert(av.take(i as int + 1).drop_last() =~~= av.take(i as int));
            }
            if str_eq(self.aliases[i].0.as_str(), name) {
                return Some(self.aliases[i].1.clone());
            }
        }
        proof {
            assert(aliases_view(self.aliases@).take(0) =~~= Seq::<(Seq<char>, Seq<char>)>::empty());
        }
        None
    }

    /// Begins resolving `uri`: the driver must first try the rewritten
    /// request path under the root.
    pub fn resolve_begin(&self, uri: &str) -> (r: ResolveStep)
        ensures
            r@ == StepView::Read(
                ResolvePhase::Direct,
                phase_path(self@, uri@, ResolvePhase::Direct),
            ),
    {
        let mut path = self.root.clone();
        if str_eq(uri, "/") {
            path.append("/index.html");
        } else {
            path.append(uri);
        }
        ResolveStep::Read(ResolvePhase::Direct, path)
    }

    /// Advances resolution by one read outcome: a hit produces the
    /// response, a miss the next path of the fallback chain.
    pub fn resolve_next(&self, uri: &str, phase: ResolvePhase, outcome: Option<String>) -> (r:
        ResolveStep)
        ensures
            r@ == spec_next(self@, uri@, phase, opt_view(outcome)),
    {
        match phase {
            ResolvePhase::Direct => match outcome {
                Option::Some(c) => ResolveStep::Done(
                    Response::new(StatusCode::Okay, "OK", c.as_str()),
                ),
                Option::None => {
                    let rew = if str_eq(uri, "/") {
                        String::from_str("/index.html")
                    } else {
                        uri.to_owned()
                    };
                    let n = rew.as_str().unicode_len();
                    let key = if n > 0 && rew.as_str().get_char(0) == '/' {
                        rew.as_str().substring_char(1, n).to_owned()
                    } else {
                        rew
                    };
                    proof {
                        assert(key@ == spec_strip_slash(spec_rewrite(uri@)));
                    }
                    match self.lookup_alias(key.as_str()) {
                        Option::Some(canon) => {
                            let mut path = self.root.clone();
                            path.append(canon.as_str());
                            ResolveStep::Read(ResolvePhase::Alias, path)
                        },
                        Option::None => ResolveStep::Read(
                            ResolvePhase::RootFallback,
                            self.root.clone(),
                        ),
                    }
                },
            },
            ResolvePhase::Alias => match outcome {
                Option::Some(c) => ResolveStep::Done(
                    Response::new(StatusCode::Okay, "OK", c.as_str()),
                ),
                Option::None => ResolveStep::Read(ResolvePhase::RootFallback, self.root.clone()),
            },
            ResolvePhase::RootFallback => match outcome {
                Option::Some(c) => ResolveStep::Done(
                    Response::new(StatusCode::NotFound, "NOT_FOUND", c.as_str()),
                ),
                Option::None => ResolveStep::Done(
                    Response::new(StatusCode::NotFound, "NOT_FOUND", "Error: 404 not found"),
                ),
            },
        }
    }
}

/// Law: a file that exists under the root is served with status OK and
/// its own contents as the body.
pub proof fn lemma_existing_file_served(
    root: Seq<char>,
    aliases: Seq<(Seq<char>, Seq<char>)>,
    uri: Seq<char>,
    fs: Map<Seq<char>, Seq<char>>,
)
    requires
        uri != "/"@,
        fs.dom().contains(root + uri),
    ensures
        resolve_spec(root, aliases, uri, fs) == ok_view(fs[root + uri]),
{
}

/// Law: requesting `/` resolves exactly as requesting `/index.html`.
pub proof fn lemma_root_is_index(
    root: Seq<char>,
    aliases: Seq<(Seq<char>, Seq<char>)>,
    fs: Map<Seq<char>, Seq<char>>,
)
    ensures
        resolve_spec(root, aliases, "/"@, fs) == resolve_spec(root, aliases, "/index.html"@, fs),
{
    reveal_strlit("/");
    reveal_strlit("/index.html");
    assert(spec_rewrite("/"@) == spec_rewrite("/index.html"@));
}

/// Law: a request that resolves through an alias serves the same body
/// as requesting the canonical path itself, provided the alias is not
/// shadowed by a file of its own name and the canonical file's two
/// spellings under the root read alike (as they do on a filesystem
/// where a doubled separator collapses).
pub proof fn lemma_alias_matches_canonical(
    root: Seq<char>,
    aliases: Seq<(Seq<char>, Seq<char>)>,
    alias_name: Seq<char>,
    canon: Seq<char>,
    fs: Map<Seq<char>, Seq<char>>,
)
    requires
        alias_name.len() > 0,
        canon.len() > 0,
        alias_lookup(aliases, alias_name) == Some(canon),
        !fs.dom().contains(root + "/"@ + alias_name),
        fs.dom().contains(root + canon),
        fs_read(fs, root + "/"@ + canon) == fs_read(fs, root + canon),
    ensures
        resolve_spec(root, aliases, "/"@ + alias_name, fs) == ok_view(fs[root + canon]),
        resolve_spec(root, aliases, "/"@ + canon, fs) == ok_view(fs[root + canon]),
        resolve_spec(root, aliases, "/"@ + alias_name, fs) == resolve_spec(
            root,
            aliases,
            "/"@ + canon,
            fs,
        ),
{
    reveal_strlit("/");
    let ua = "/"@ + alias_name;
    let uc = "/"@ + canon;
    assert(ua.len() > 1 && uc.len() > 1);
    assert("/"@.len() == 1);
    assert(ua != "/"@ && uc != "/"@);
    assert(spec_rewrite(ua) == ua && spec_rewrite(uc) == uc);
    assert(ua[0] == '/' && uc[0] == '/');
    assert(spec_strip_slash(ua) =~= alias_name);
    assert((root + ua) =~= root + "/"@ + alias_name);
    assert(!fs.dom().contains(root + ua));
    assert((root + uc) =~= root + "/"@ + canon);
}

/// Law: with no file at the rewritten request path, no usable alias,
/// and no readable root, the static 404 resolution is returned without
/// any file contents.
pub proof fn lemma_not_found(
    root: Seq<char>,
    aliases: Seq<(Seq<char>, Seq<char>)>,
    uri: Seq<char>,
    fs: Map<Seq<char>, Seq<char>>,
)
    requires
        !fs.dom().contains(root + spec_rewrite(uri)),
        match alias_lookup(aliases, spec_strip_slash(spec_rewrite(uri))) {
            Some(canon) => !fs.dom().contains(root + canon),
            None => true,
        },
        !fs.dom().contains(root),
    ensures
        resolve_spec(root, aliases, uri, fs) == fallback_view(),
        resolve_spec(root, aliases, uri, fs).code is NotFound,
        resolve_spec(root, aliases, uri, fs).message == "Error: 404 not found"@,
{
}

} // verus!
