use vstd::prelude::*;
use crate::server_error::ServerError;
use crate::numbers::spec_parse_port;
use crate::numbers::parse_port;
use crate::text::views_of;
use crate::text::find_char_from;
use crate::text::find_char;
use crate::text::spec_split;
use crate::text::split_char;
use crate::text::str_eq;

verus! {

/// The mathematical value of a server's configuration: the resolution
/// root, the listening port, the worker-pool size, and the alias table
/// as the sequence of (alias, canonical name) entries in the order they
/// were declared.
pub ghost struct ServerView {
    pub root: Seq<char>,
    pub port: u16,
    pub worker_count: u16,
    pub aliases: Seq<(Seq<char>, Seq<char>)>,
}

/// The validated, immutable settings of the server, shared read-only by
/// every handler for the server's whole run.
#[derive(Debug)]
pub struct Server {
    pub root: String,
    pub port: u16,
    pub worker_count: u16,
    pub aliases: Vec<(String, String)>,
}

/// The character sequences of an alias entry list.
pub open spec fn aliases_view(v: Seq<(String, String)>) -> Seq<(Seq<char>, Seq<char>)> {
    Seq::new(v.len(), |i: int| (v[i].0@, v[i].1@))
}

impl View for Server {
    type V = ServerView;

    open spec fn view(&self) -> ServerView {
        ServerView {
            root: self.root@,
            port: self.port,
            worker_count: self.worker_count,
            aliases: aliases_view(self.aliases@),
        }
    }
}

/// The canonical name an alias resolves to, if the table has the alias.
/// A later entry for the same alias overrides an earlier one.
pub open spec fn alias_lookup(entries: Seq<(Seq<char>, Seq<char>)>, name: Seq<char>) -> Option<
    Seq<char>,
>
    decreases entries.len(),
{
    if entries.len() == 0 {
        None
    } else if entries.last().0 == name {
        Some(entries.last().1)
    } else {
        alias_lookup(entries.drop_last(), name)
    }
}

/// The alias entries declared by one `--alias=` value: the first
/// comma-separated piece is the canonical name, and every further piece
/// is an alias for it.
pub open spec fn spec_alias_entries(val: Seq<char>) -> Seq<(Seq<char>, Seq<char>)> {
    let parts = spec_split(val, ',');
    Seq::new((parts.len() - 1) as nat, |k: int| (parts[k + 1], parts[0]))
}

/// The configuration before any argument is read: an empty root (filled
/// with the default after parsing), port 7878, ten workers, no aliases.
pub open spec fn init_view() -> ServerView {
    ServerView { root: Seq::<char>::empty(), port: 7878, worker_count: 10, aliases: Seq::empty() }
}

/// How one argument changes the configuration being built, or fails.
/// An argument must be `--opt=value`, or exactly `--help`; the known
/// options are root, port, alias, thread and help.
pub open spec fn spec_apply_arg(arg: Seq<char>, acc: ServerView) -> Result<
    ServerView,
    ServerError,
> {
    if !(arg.len() >= 2 && arg[0] == '-' && arg[1] == '-') {
        Err(ServerError::InvalidArgs)
    } else {
        let rest = arg.subrange(2, arg.len() as int);
        match find_char_from(rest, '=', 0) {
            Option::None => if rest == "help"@ {
                Err(ServerError::HelpRequest)
            } else {
                Err(ServerError::InvalidArgs)
            },
            Option::Some(eq) => {
                let opt = rest.subrange(0, eq);
                let val = rest.subrange(eq + 1, rest.len() as int);
                if opt == "root"@ {
                    Ok(ServerView { root: val, ..acc })
                } else if opt == "port"@ {
                    match spec_parse_port(val) {
                        Ok(p) => Ok(ServerView { port: p, ..acc }),
                        Err(e) => Err(e),
                    }
                } else if opt == "alias"@ {
                    Ok(ServerView { aliases: acc.aliases + spec_alias_entries(val), ..acc })
                } else if opt == "thread"@ {
                    match spec_parse_port(val) {
                        Ok(w) => if w >= 1 {
                            Ok(ServerView { worker_count: w, ..acc })
                        } else {
                            Err(ServerError::InvalidArgs)
                        },
                        Err(e) => Err(ServerError::InvalidArgs),
                    }
                } else if opt == "help"@ {
                    Err(ServerError::HelpRequest)
                } else {
                    Err(ServerError::InvalidArgs)
                }
            },
        }
    }
}

/// Folds `spec_apply_arg` over the arguments, left to right, stopping
/// at the first failure.
pub open spec fn spec_parse_args(args: Seq<Seq<char>>, acc: ServerView) -> Result<
    ServerView,
    ServerError,
>
    decreases args.len(),
{
    if args.len() == 0 {
        Ok(acc)
    } else {
        match spec_apply_arg(args[0], acc) {
            Ok(acc2) => spec_parse_args(args.drop_first(), acc2),
            Err(e) => Err(e),
        }
    }
}

/// The configuration built from the whole argument list (the program
/// name already removed): the fold over the defaults, with an empty
/// root replaced by the default root directory.
pub open spec fn spec_server_new(args: Seq<Seq<char>>) -> Result<ServerView, ServerError> {
    match spec_parse_args(args, init_view()) {
        Ok(v) => Ok(
            ServerView {
                root: if v.root.len() == 0 {
                    "/var/www/html/"@
                } else {
                    v.root
                },
                ..v
            },
        ),
        Err(e) => Err(e),
    }
}

impl Server {
    /// Builds the configuration from the command-line arguments that
    /// follow the program name. Fails on the first argument that is not
    /// `--opt=value` with a known option, on an unreadable or
    /// out-of-range port, and on a worker count below one; a request
    /// for help stops construction without being a fault.
    pub fn new(args: &Vec<String>) -> (r: Result<Server, ServerError>)
        ensures
            match r {
                Ok(srv) => spec_server_new(views_of(args@)) == Ok::<ServerView, ServerError>(
                    srv@,
                ),
                Err(e) => spec_server_new(views_of(args@)) == Err::<ServerView, ServerError>(e),
            },
    {
        let ghost argv = views_of(args@);
        let mut root: String = String::new();
        let mut port: u16 = 7878;
        let mut worker_count: u16 = 10;
        let mut aliases: Vec<(String, String)> = Vec::new();
        let mut j: usize = 0;
        proof {
            assert(aliases_view(aliases@) =~= Seq::<(Seq<char>, Seq<char>)>::empty());
            assert((ServerView {
                root: root@,
                port,
                worker_count,
                aliases: aliases_view(aliases@),
            }) =~~= init_view());
            assert(argv.skip(0) =~~= argv);
        }
        while j < args.len()
            invariant
                0 <= j <= args.len(),
                argv == views_of(args@),
                spec_parse_args(argv, init_view()) == spec_parse_args(
                    argv.skip(j as int),
                    (ServerView { root: root@, port, worker_count, aliases: aliases_view(aliases@) }),
                ),
            decreases args.len() - j,
        {
            let ghost cur = ServerView {
                root: root@,
                port,
                worker_count,
                aliases: aliases_view(aliases@),
            };
            let a: &String = &args[j];
            proof {
                assert(argv.skip(j as int)[0] == a@);
                assert(argv.skip(j as int).drop_first() =~~= argv.skip(j as int + 1));
            }
            let alen = a.as_str().unicode_len();
            if !(alen >= 2 && a.as_str().get_char(0) == '-' && a.as_str().get_char(1) == '-') {
                return Err(ServerError::InvalidArgs);
            }
            let rest = a.as_str().substring_char(2, alen);
            let rest_len = alen - 2;
            proof {
                assert(rest@.len() == rest_len);
            }
            match find_char(rest, '=', 0) {
                Option::None => {
                    if str_eq(rest, "help") {
                        return Err(ServerError::HelpRequest);
                    } else {
                        return Err(ServerError::InvalidArgs);
                    }
                },
                Option::Some(eq) => {
                    proof {
                        crate::text::lemma_find_char_from(rest@, '=', 0);
                    }
                    let opt = rest.substring_char(0, eq);
                    let val = rest.substring_char(eq + 1, rest_len);
                    if str_eq(opt, "root") {
                        root = val.to_owned();
                    } else if str_eq(opt, "port") {
                        match parse_port(val) {
                            Ok(p) => {
                                port = p;
                            },
                            Err(e) => {
                                return Err(e);
                            },
                        }
                    } else if str_eq(opt, "alias") {
                        let pieces = split_char(val, ',');
                        let ghost piece_views = spec_split(val@, ',');
                        let name: String = pieces[0].clone();
                        let ghost before = aliases@;
                        let mut k: usize = 1;
                        while k < pieces.len()
                            invariant
                                1 <= k <= pieces.len(),
                                views_of(pieces@) == piece_views,
                                piece_views.len() == pieces.len(),
                                name@ == piece_views[0],
                                aliases_view(aliases@) =~~= aliases_view(before) + Seq::new(
                                    (k - 1) as nat,
                                    |t: int| (piece_views[t + 1], piece_views[0]),
                                ),
                            decreases pieces.len() - k,
                        {
                            let ghost mid = aliases@;
                            aliases.push((pieces[k].clone(), name.clone()));
                            proof {
                                assert(aliases_view(aliases@) =~~= aliases_view(mid).push(
                                    (piece_views[k as int], piece_views[0]),
                                ));
                                assert(aliases_view(aliases@) =~~= aliases_view(before) + Seq::new(
                                    k as nat,
                                    |t: int| (piece_views[t + 1], piece_views[0]),
                                ));
                            }
                            k = k + 1;
                        }
                        proof {
                            assert(aliases_view(aliases@) =~~= aliases_view(before)
                                + spec_alias_entries(val@));
                        }
                    } else if str_eq(opt, "thread") {
                        match parse_port(val) {
                            Ok(w) => {
                                if w >= 1 {
                                    worker_count = w;
                                } else {
                                    return Err(ServerError::InvalidArgs);
                                }
                            },
                            Err(_) => {
                                return Err(ServerError::InvalidArgs);
                            },
                        }
                    } else if str_eq(opt, "help") {
                        return Err(ServerError::HelpRequest);
                    } else {
                        return Err(ServerError::InvalidArgs);
                    }
                },
            }
            proof {
                assert(spec_apply_arg(a@, cur) == Ok::<ServerView, ServerError>(
                    (ServerView {
                        root: root@,
                        port,
                        worker_count,
                        aliases: aliases_view(aliases@),
                    }),
                ));
            }
            j = j + 1;
        }
        proof {
            assert(argv.skip(args@.len() as int) =~~= Seq::<Seq<char>>::empty());
        }
        if root.as_str().is_empty() {
            root = String::from_str("/var/www/html/");
        }
        let srv = Server { root, port, worker_count, aliases };
        Ok(srv)
    }
}

} // verus!
