use vstd::prelude::*;

use crate::context::{Context, ContextModel};
use crate::error::RouteError;
use crate::route::{
    captures, first_match, path_segments, RouteMatcher, SegModel,
};

verus! {

/// The buffer size used when a configured size of zero asks for the
/// default.
pub const DEFAULT_BUFFER_SIZE: usize = 4096;

/// The mathematical content of a server configuration.
#[verifier::ext_equal]
pub struct ServerConfigModel {
    pub host: Seq<char>,
    pub port: int,
    pub log_dir: Seq<char>,
    pub log_size: int,
    pub interval_millis: int,
    pub inner_print: bool,
    pub inner_log: bool,
    pub websocket_buffer_size: int,
}

/// Startup-time configuration of one server.
#[derive(Debug)]
pub struct ServerConfig {
    pub host: String,
    pub port: usize,
    pub log_dir: String,
    pub log_size: usize,
    pub interval_millis: usize,
    pub inner_print: bool,
    pub inner_log: bool,
    pub websocket_buffer_size: usize,
}

impl View for ServerConfig {
    type V = ServerConfigModel;

    open spec fn view(&self) -> ServerConfigModel {
        ServerConfigModel {
            host: self.host@,
            port: self.port as int,
            log_dir: self.log_dir@,
            log_size: self.log_size as int,
            interval_millis: self.interval_millis as int,
            inner_print: self.inner_print,
            inner_log: self.inner_log,
            websocket_buffer_size: self.websocket_buffer_size as int,
        }
    }
}

/// The model of the configuration a new server starts from: every text
/// field empty, every number zero, printing and logging off.
pub open spec fn default_config_model() -> ServerConfigModel {
    ServerConfigModel {
        host: Seq::<char>::empty(),
        port: 0int,
        log_dir: Seq::<char>::empty(),
        log_size: 0int,
        interval_millis: 0int,
        inner_print: false,
        inner_log: false,
        websocket_buffer_size: 0int,
    }
}

impl Default for ServerConfig {
    fn default() -> (r: Self)
        ensures
            r@ == default_config_model(),
    {
        let r = ServerConfig {
            host: String::new(),
            port: 0,
            log_dir: String::new(),
            log_size: 0,
            interval_millis: 0,
            inner_print: false,
            inner_log: false,
            websocket_buffer_size: 0,
        };
        proof {
            assert(r@ =~= default_config_model());
        }
        r
    }
}

/// The mathematical content of one server: its configuration, the route
/// table, and the two middleware lists in registration order.
#[verifier::ext_equal]
pub struct ServerModel<H> {
    pub cfg: ServerConfigModel,
    pub route_matcher: Seq<(Seq<SegModel>, H)>,
    pub request_middleware: Seq<H>,
    pub response_middleware: Seq<H>,
}

/// One server under construction: configuration, routes and middleware
/// are registered here; the surrounding runtime owns the sockets and
/// drives the connection tasks. `H` is the application's handler shape.
pub struct Server<H> {
    pub cfg: ServerConfig,
    pub route_matcher: RouteMatcher<H>,
    pub request_middleware: Vec<H>,
    pub response_middleware: Vec<H>,
}

impl<H> View for Server<H> {
    type V = ServerModel<H>;

    open spec fn view(&self) -> ServerModel<H> {
        ServerModel {
            cfg: self.cfg@,
            route_matcher: self.route_matcher@,
            request_middleware: self.request_middleware@,
            response_middleware: self.response_middleware@,
        }
    }
}

impl<H> Server<H> {
    /// A server with default configuration, no routes and no middleware.
    pub fn new() -> (r: Self)
        ensures
            r@ == (ServerModel {
                cfg: default_config_model(),
                route_matcher: Seq::<(Seq<SegModel>, H)>::empty(),
                request_middleware: Seq::<H>::empty(),
                response_middleware: Seq::<H>::empty(),
            }),
    {
        let r = Server {
            cfg: ServerConfig::default(),
            route_matcher: RouteMatcher::new(),
            request_middleware: Vec::new(),
            response_middleware: Vec::new(),
        };
        proof {
            assert(r@ =~= (ServerModel {
                cfg: default_config_model(),
                route_matcher: Seq::<(Seq<SegModel>, H)>::empty(),
                request_middleware: Seq::<H>::empty(),
                response_middleware: Seq::<H>::empty(),
            }));
        }
        r
    }

    /// Sets the host to listen on.
    pub fn host(&mut self, host: &str)
        ensures
            final(self)@ == (ServerModel {
                cfg: (ServerConfigModel { host: host@, ..old(self)@.cfg }),
                ..old(self)@
            }),
    {
        let ghost old_model = self@;
        self.cfg.host = host.to_owned();
        proof {
            assert(self@ =~= (ServerModel {
                cfg: (ServerConfigModel { host: host@, ..old_model.cfg }),
                ..old_model
            }));
        }
    }

    /// Sets the port to listen on.
    pub fn port(&mut self, port: usize)
        ensures
            final(self)@ == (ServerModel {
                cfg: (ServerConfigModel { port: port as int, ..old(self)@.cfg }),
                ..old(self)@
            }),
    {
        let ghost old_model = self@;
        self.cfg.port = port;
        proof {
            assert(self@ =~= (ServerModel {
                cfg: (ServerConfigModel { port: port as int, ..old_model.cfg }),
                ..old_model
            }));
        }
    }

    /// Sets the directory the log collaborator writes to.
    pub fn log_dir(&mut self, log_dir: &str)
        ensures
            final(self)@ == (ServerModel {
                cfg: (ServerConfigModel { log_dir: log_dir@, ..old(self)@.cfg }),
                ..old(self)@
            }),
    {
        let ghost old_model = self@;
        self.cfg.log_dir = log_dir.to_owned();
        proof {
            assert(self@ =~= (ServerModel {
                cfg: (ServerConfigModel { log_dir: log_dir@, ..old_model.cfg }),
                ..old_model
            }));
        }
    }

    /// Sets the size at which the log collaborator rotates a file.
    pub fn log_size(&mut self, log_size: usize)
        ensures
            final(self)@ == (ServerModel {
                cfg: (ServerConfigModel { log_size: log_size as int, ..old(self)@.cfg }),
                ..old(self)@
            }),
    {
        let ghost old_model = self@;
        self.cfg.log_size = log_size;
        proof {
            assert(self@ =~= (ServerModel {
                cfg: (ServerConfigModel { log_size: log_size as int, ..old_model.cfg }),
                ..old_model
            }));
        }
    }

    /// Sets the interval at which the log collaborator flushes.
    pub fn log_interval_millis(&mut self, interval_millis: usize)
        ensures
            final(self)@ == (ServerModel {
                cfg: (ServerConfigModel {
                    interval_millis: interval_millis as int,
                    ..old(self)@.cfg
                }),
                ..old(self)@
            }),
    {
        let ghost old_model = self@;
        self.cfg.interval_millis = interval_millis;
        proof {
            assert(self@ =~= (ServerModel {
                cfg: (ServerConfigModel {
                    interval_millis: interval_millis as int,
                    ..old_model.cfg
                }),
                ..old_model
            }));
        }
    }

    /// Sets the buffer size for WebSocket frame reads; zero asks for the
    /// default size.
    pub fn websocket_buffer_size(&mut self, buffer_size: usize)
        ensures
            final(self)@ == (ServerModel {
                cfg: (ServerConfigModel {
                    websocket_buffer_size: (if buffer_size == 0 {
                        DEFAULT_BUFFER_SIZE as int
                    } else {
                        buffer_size as int
                    }),
                    ..old(self)@.cfg
                }),
                ..old(self)@
            }),
    {
        let ghost old_model = self@;
        let size: usize = if buffer_size == 0 {
            DEFAULT_BUFFER_SIZE
        } else {
            buffer_size
        };
        self.cfg.websocket_buffer_size = size;
        proof {
            assert(self@ =~= (ServerModel {
                cfg: (ServerConfigModel {
                    websocket_buffer_size: size as int,
                    ..old_model.cfg
                }),
                ..old_model
            }));
        }
    }

    /// Turns printing of internal events on or off.
    pub fn inner_print(&mut self, print: bool)
        ensures
            final(self)@ == (ServerModel {
                cfg: (ServerConfigModel { inner_print: print, ..old(self)@.cfg }),
                ..old(self)@
            }),
    {
        let ghost old_model = self@;
        self.cfg.inner_print = print;
        proof {
            assert(self@ =~= (ServerModel {
                cfg: (ServerConfigModel { inner_print: print, ..old_model.cfg }),
                ..old_model
            }));
        }
    }

    /// Turns logging of internal events on or off.
    pub fn inner_log(&mut self, log: bool)
        ensures
            final(self)@ == (ServerModel {
                cfg: (ServerConfigModel { inner_log: log, ..old(self)@.cfg }),
                ..old(self)@
            }),
    {
        let ghost old_model = self@;
        self.cfg.inner_log = log;
        proof {
            assert(self@ =~= (ServerModel {
                cfg: (ServerConfigModel { inner_log: log, ..old_model.cfg }),
                ..old_model
            }));
        }
    }

    /// Turns printing of internal events on.
    pub fn enable_inner_print(&mut self)
        ensures
            final(self)@ == (ServerModel {
                cfg: (ServerConfigModel { inner_print: true, ..old(self)@.cfg }),
                ..old(self)@
            }),
    {
        self.inner_print(true);
    }

    /// Turns printing of internal events off.
    pub fn disable_inner_print(&mut self)
        ensures
            final(self)@ == (ServerModel {
                cfg: (ServerConfigModel { inner_print: false, ..old(self)@.cfg }),
                ..old(self)@
            }),
    {
        self.inner_print(false);
    }

    /// Turns logging of internal events on.
    pub fn enable_inner_log(&mut self)
        ensures
            final(self)@ == (ServerModel {
                cfg: (ServerConfigModel { inner_log: true, ..old(self)@.cfg }),
                ..old(self)@
            }),
    {
        self.inner_log(true);
    }

    /// Turns logging of internal events off.
    pub fn disable_inner_log(&mut self)
        ensures
            final(self)@ == (ServerModel {
                cfg: (ServerConfigModel { inner_log: false, ..old(self)@.cfg }),
                ..old(self)@
            }),
    {
        self.inner_log(false);
    }

    /// Registers a route: the path pattern is compiled and appended with
    /// its handler, unless a structurally identical pattern already
    /// exists.
    pub fn route(&mut self, route: &str, func: H) -> (r: Result<(), RouteError>)
        ensures
            (match r {
                Ok(_) => !crate::route::has_duplicate(
                    old(self)@.route_matcher,
                    crate::route::pattern_of_path(route@),
                ) && final(self)@ == (ServerModel {
                    route_matcher: old(self)@.route_matcher.push(
                        (crate::route::pattern_of_path(route@), func),
                    ),
                    ..old(self)@
                }),
                Err(RouteError::DuplicatePattern(p)) => crate::route::has_duplicate(
                    old(self)@.route_matcher,
                    crate::route::pattern_of_path(route@),
                ) && final(self)@ == old(self)@ && p@ == route@,
            }),
            crate::route::matcher_wf(old(self)@.route_matcher) ==> crate::route::matcher_wf(
                final(self)@.route_matcher,
            ),
    {
        let ghost old_model = self@;
        let r = self.route_matcher.register(route, func);
        proof {
            if r is Ok {
                assert(self@ =~= (ServerModel {
                    route_matcher: self.route_matcher@,
                    ..old_model
                }));
            } else {
                assert(self@ =~= old_model);
            }
        }
        r
    }

    /// Appends a pre-dispatch middleware; middleware run in registration
    /// order.
    pub fn request_middleware(&mut self, func: H)
        ensures
            final(self)@ == (ServerModel {
                request_middleware: old(self)@.request_middleware.push(func),
                ..old(self)@
            }),
    {
        let ghost old_model = self@;
        self.request_middleware.push(func);
        proof {
            assert(self@ =~= (ServerModel {
                request_middleware: old_model.request_middleware.push(
                    self.request_middleware@[old_model.request_middleware.len() as int],
                ),
                ..old_model
            }));
        }
    }

    /// Appends a post-dispatch middleware; middleware run in registration
    /// order.
    pub fn response_middleware(&mut self, func: H)
        ensures
            final(self)@ == (ServerModel {
                response_middleware: old(self)@.response_middleware.push(func),
                ..old(self)@
            }),
    {
        let ghost old_model = self@;
        self.response_middleware.push(func);
        proof {
            assert(self@ =~= (ServerModel {
                response_middleware: old_model.response_middleware.push(
                    self.response_middleware@[old_model.response_middleware.len() as int],
                ),
                ..old_model
            }));
        }
    }
}

/// The relation "running these handlers in order can turn `from` into
/// `to`": some sequence of intermediate contexts links each handler's
/// input to its output, each handler running exactly once, in order.
pub open spec fn chain<H: Fn(Context) -> Context>(
    handlers: Seq<H>,
    from: Context,
    to: Context,
) -> bool
    decreases handlers.len(),
{
    if handlers.len() == 0 {
        to == from
    } else {
        exists|mid: Context|
            #[trigger] call_ensures(handlers[0], (from,), mid) && chain(
                handlers.drop_first(),
                mid,
                to,
            )
    }
}

proof fn lemma_chain_snoc<H: Fn(Context) -> Context>(
    handlers: Seq<H>,
    h: H,
    from: Context,
    mid: Context,
    to: Context,
)
    requires
        chain(handlers, from, mid),
        call_ensures(h, (mid,), to),
    ensures
        chain(handlers.push(h), from, to),
    decreases handlers.len(),
{
    if handlers.len() == 0 {
        assert(mid == from);
        assert(handlers.push(h)[0] == h);
        assert(handlers.push(h).drop_first() =~= Seq::<H>::empty());
        assert(chain(handlers.push(h).drop_first(), to, to));
    } else {
        let step = choose|step: Context|
            #[trigger] call_ensures(handlers[0], (from,), step) && chain(
                handlers.drop_first(),
                step,
                mid,
            );
        lemma_chain_snoc(handlers.drop_first(), h, step, mid, to);
        assert(handlers.push(h).drop_first() =~= handlers.drop_first().push(h));
        assert(handlers.push(h)[0] == handlers[0]);
        assert(call_ensures(handlers.push(h)[0], (from,), step) && chain(
            handlers.push(h).drop_first(),
            step,
            to,
        ));
    }
}

/// Runs each handler once, in order, each receiving the context the
/// previous one produced.
fn run_handlers<H: Fn(Context) -> Context>(handlers: &Vec<H>, ctx: Context) -> (r: Context)
    requires
        forall|i: int, c: Context|
            0 <= i < handlers@.len() ==> #[trigger] call_requires(handlers@[i], (c,)),
    ensures
        chain(handlers@, ctx, r),
{
    let n: usize = handlers.len();
    let mut cur: Context = ctx;
    let ghost start = cur;
    let mut i: usize = 0;
    proof {
        assert(handlers@.take(0) =~= Seq::<H>::empty());
    }
    while i < n
        invariant
            n == handlers@.len(),
            i <= n,
            forall|j: int, c: Context|
                0 <= j < handlers@.len() ==> #[trigger] call_requires(handlers@[j], (c,)),
            chain(handlers@.take(i as int), start, cur),
        decreases n - i,
    {
        let ghost prev = cur;
        let next: Context = (handlers[i])(cur);
        proof {
            lemma_chain_snoc(handlers@.take(i as int), handlers@[i as int], start, prev, next);
            assert(handlers@.take(i as int).push(handlers@[i as int]) =~= handlers@.take(
                i as int + 1,
            ));
        }
        cur = next;
        i += 1;
    }
    proof {
        assert(handlers@.take(n as int) =~= handlers@);
    }
    cur
}

/// The relation "dispatching `from` through the route table for `path`
/// can yield `to`": when some entry matches, the first matching entry's
/// handler runs exactly once on the context carrying the captured
/// parameters; when none matches, the context passes through unchanged.
pub open spec fn dispatch<H: Fn(Context) -> Context>(
    entries: Seq<(Seq<SegModel>, H)>,
    path: Seq<char>,
    from: Context,
    to: Context,
) -> bool {
    match first_match(entries, path_segments(path)) {
        None => to == from,
        Some(k) => exists|withp: Context|
            {
                &&& withp@ == (ContextModel {
                    route_params: captures(entries[k].0, path_segments(path)),
                    ..from@
                })
                &&& #[trigger] call_ensures(entries[k].1, (withp,), to)
            },
    }
}

impl<H: Fn(Context) -> Context> Server<H> {
    /// One request cycle around a freshly built context: the pre-dispatch
    /// middleware in order, then the first matching route handler on the
    /// context carrying the extracted parameters, then the post-dispatch
    /// middleware in order. The path is taken from the context as it was
    /// read, before any middleware ran.
    pub fn run_cycle(&self, ctx: Context) -> (r: Context)
        requires
            forall|i: int, c: Context|
                0 <= i < self@.request_middleware.len() ==> #[trigger] call_requires(
                    self@.request_middleware[i],
                    (c,),
                ),
            forall|i: int, c: Context|
                0 <= i < self@.response_middleware.len() ==> #[trigger] call_requires(
                    self@.response_middleware[i],
                    (c,),
                ),
            forall|i: int, c: Context|
                0 <= i < self@.route_matcher.len() ==> #[trigger] call_requires(
                    self@.route_matcher[i].1,
                    (c,),
                ),
        ensures
            exists|c1: Context, c2: Context|
                {
                    &&& #[trigger] chain(self@.request_middleware, ctx, c1)
                    &&& dispatch(self@.route_matcher, ctx@.request.path, c1, c2)
                    &&& #[trigger] chain(self@.response_middleware, c2, r)
                },
    {
        let path: String = ctx.get_request_path();
        proof {
            assert(self@.request_middleware == self.request_middleware@);
            assert(self@.response_middleware == self.response_middleware@);
            assert forall|i: int, c: Context|
                0 <= i < self.request_middleware@.len() implies #[trigger] call_requires(
                self.request_middleware@[i],
                (c,),
            ) by {
                assert(call_requires(self@.request_middleware[i], (c,)));
            }
            assert forall|i: int, c: Context|
                0 <= i < self.response_middleware@.len() implies #[trigger] call_requires(
                self.response_middleware@[i],
                (c,),
            ) by {
                assert(call_requires(self@.response_middleware[i], (c,)));
            }
        }
        let after_pre: Context = run_handlers(&self.request_middleware, ctx);
        let ghost c1 = after_pre;
        let after_route: Context = match self.route_matcher.resolve(path.as_str()) {
            Some((h, params)) => {
                let mut with_params: Context = after_pre;
                with_params.set_route_params(params);
                proof {
                    let fm = first_match(self@.route_matcher, path_segments(path@));
                    assert(call_requires(self@.route_matcher[fm->Some_0].1, (with_params,)));
                }
                h(with_params)
            },
            None => after_pre,
        };
        let ghost c2 = after_route;
        let r = run_handlers(&self.response_middleware, after_route);
        proof {
            assert(chain(self@.request_middleware, ctx, c1) && dispatch(
                self@.route_matcher,
                ctx@.request.path,
                c1,
                c2,
            ) && chain(self@.response_middleware, c2, r));
        }
        r
    }
}

} // verus!
