//! Construction-time configuration: severity filters, static labels and the
//! endpoint URL.
use vstd::prelude::*;
use crate::labels::{LabelSet, PairView, insert_sorted};
use crate::level::{LevelFilter, filter_rank};

verus! {

#[verifier::external_type_specification]
#[verifier::external_body]
pub struct ExFilterBuilder(env_filter::Builder);

#[verifier::external_type_specification]
#[verifier::external_body]
pub struct ExFilter(env_filter::Filter);

#[verifier::external_type_specification]
#[verifier::external_body]
pub struct ExUrl(reqwest::Url);

/// Whether the text parses as an absolute URL.
pub uninterp spec fn url_parses(s: Seq<char>) -> bool;

/// Whether the URL that the text parses to names a host.
pub uninterp spec fn url_has_host_of(s: Seq<char>) -> bool;

/// The directives a filter builder holds: the threshold of each module name,
/// `None` standing for all modules.
pub uninterp spec fn directives_of(b: env_filter::Builder) -> Map<Option<Seq<char>>, LevelFilter>;

/// The directives a built filter holds, keyed as in the builder.
pub uninterp spec fn filter_directives_of(f: env_filter::Filter) -> Map<Option<Seq<char>>, LevelFilter>;

/// The directives a builder holding `m` gives its filter: the same ones, or,
/// where there are none, `Error` for all modules.
pub open spec fn built_directives(m: Map<Option<Seq<char>>, LevelFilter>) -> Map<Option<Seq<char>>, LevelFilter> {
    if m.dom() == Set::<Option<Seq<char>>>::empty() {
        map![None => LevelFilter::Error]
    } else {
        m
    }
}

/// `r` is the most verbose threshold among the directives of `m`, or `Off`
/// where there are none.
pub open spec fn is_max_threshold(m: Map<Option<Seq<char>>, LevelFilter>, r: LevelFilter) -> bool {
    &&& forall|k: Option<Seq<char>>| #[trigger] m.contains_key(k) ==> filter_rank(m[k]) <= filter_rank(r)
    &&& m.dom() == Set::<Option<Seq<char>>>::empty() ==> r == LevelFilter::Off
    &&& m.dom() != Set::<Option<Seq<char>>>::empty() ==> exists|k: Option<Seq<char>>| #[trigger] m.contains_key(k) && m[k] == r
}

/// Relies on `env_filter::Builder::from_env`: a filter builder initialised
/// from the directives in the environment variable `env`, if it is set.
#[verifier::external_body]
fn filters_from_env(env: &str) -> (r: env_filter::Builder) {
    env_filter::Builder::from_env(env)
}

/// Relies on `env_filter::Builder::filter_module`: through `insert_directive`
/// it replaces the directive named `module`, or adds one.
#[verifier::external_body]
fn add_module_filter(filters: &mut env_filter::Builder, module: &str, level: LevelFilter)
    ensures
        directives_of(*final(filters)) == directives_of(*old(filters)).insert(Some(module@), level),
{
    let outside = match level {
        LevelFilter::Off => log::LevelFilter::Off,
        LevelFilter::Error => log::LevelFilter::Error,
        LevelFilter::Warn => log::LevelFilter::Warn,
        LevelFilter::Info => log::LevelFilter::Info,
        LevelFilter::Debug => log::LevelFilter::Debug,
        LevelFilter::Trace => log::LevelFilter::Trace,
    };
    filters.filter_module(module, outside);
}

/// Relies on `env_filter::Builder::filter_level`: through `insert_directive`
/// it replaces the directive for all modules, or adds one.
#[verifier::external_body]
fn add_default_filter(filters: &mut env_filter::Builder, level: LevelFilter)
    ensures
        directives_of(*final(filters)) == directives_of(*old(filters)).insert(None, level),
{
    let outside = match level {
        LevelFilter::Off => log::LevelFilter::Off,
        LevelFilter::Error => log::LevelFilter::Error,
        LevelFilter::Warn => log::LevelFilter::Warn,
        LevelFilter::Info => log::LevelFilter::Info,
        LevelFilter::Debug => log::LevelFilter::Debug,
        LevelFilter::Trace => log::LevelFilter::Trace,
    };
    filters.filter_level(outside);
}

/// Relies on `env_filter::Builder::build`: the filter takes the builder's
/// directives, or `Error` for all modules where there are none. It panics
/// only on a builder that was built before; the one caller consumes its
/// builder, which no other path builds.
#[verifier::external_body]
fn build_filter(mut filters: env_filter::Builder) -> (r: env_filter::Filter)
    ensures
        filter_directives_of(r) == built_directives(directives_of(filters)),
{
    filters.build()
}

/// Relies on `env_filter::Filter::filter`: the maximum level of the
/// filter's directives, `Off` where there are none.
#[verifier::external_body]
fn filter_max_level(filter: &env_filter::Filter) -> (r: LevelFilter)
    ensures
        is_max_threshold(filter_directives_of(*filter), r),
{
    match filter.filter() {
        log::LevelFilter::Off => LevelFilter::Off,
        log::LevelFilter::Error => LevelFilter::Error,
        log::LevelFilter::Warn => LevelFilter::Warn,
        log::LevelFilter::Info => LevelFilter::Info,
        log::LevelFilter::Debug => LevelFilter::Debug,
        log::LevelFilter::Trace => LevelFilter::Trace,
    }
}

/// Relies on `url::Url::parse` (re-exported as `reqwest::Url`) and
/// `url::Url::has_host`: whether the text parses as an absolute URL, and
/// whether that URL names a host, depend on the text alone.
#[verifier::external_body]
fn parse_url(url: &str) -> (r: Option<(reqwest::Url, bool)>)
    ensures
        (r is Some) == url_parses(url@),
        r matches Some(p) ==> p.1 == url_has_host_of(url@),
{
    match reqwest::Url::parse(url) {
        Ok(u) => {
            let h = u.has_host();
            Some((u, h))
        },
        Err(_) => None,
    }
}

/// Why a logger could not be built.
#[derive(Clone, Copy, Debug, PartialEq, Eq, Structural)]
pub enum BuildError {
    /// The endpoint URL does not parse.
    InvalidUrl,
    /// The endpoint URL names no host, so no request can be sent to it.
    MissingHost,
}

/// Everything the delivery pipeline needs, validated.
pub struct LoggerConfig {
    pub url: reqwest::Url,
    pub labels: LabelSet,
    pub filter: env_filter::Filter,
}

impl LoggerConfig {
    /// The directives of the severity filter.
    pub open spec fn directives(&self) -> Map<Option<Seq<char>>, LevelFilter> {
        filter_directives_of(self.filter)
    }

    /// The most verbose threshold the filter lets through for any module.
    pub fn max_level(&self) -> (r: LevelFilter)
        ensures
            is_max_threshold(self.directives(), r),
    {
        filter_max_level(&self.filter)
    }
}

/// Collects filters and static labels for a logger.
pub struct LokiLoggerBuilder {
    filters: env_filter::Builder,
    labels: LabelSet,
}

impl LokiLoggerBuilder {
    /// The static labels set so far.
    pub closed spec fn labels(&self) -> Seq<PairView> {
        self.labels@
    }

    /// The filter directives set so far, by module name (`None`: all
    /// modules).
    pub closed spec fn directives(&self) -> Map<Option<Seq<char>>, LevelFilter> {
        directives_of(self.filters)
    }

    pub closed spec fn wf(&self) -> bool {
        self.labels.wf()
    }

    /// A builder whose filters come from the environment variable `env`,
    /// with no static labels.
    pub fn from_env(env: &str) -> (r: LokiLoggerBuilder)
        ensures
            r.labels() == Seq::<PairView>::empty(),
            r.wf(),
    {
        LokiLoggerBuilder { filters: filters_from_env(env), labels: LabelSet::new() }
    }

    /// Sets the threshold of one module, replacing an earlier one.
    pub fn filter_module(self, module: &str, level_filter: LevelFilter) -> (r: LokiLoggerBuilder)
        ensures
            r.directives() == self.directives().insert(Some(module@), level_filter),
            r.labels() == self.labels(),
            r.wf() == self.wf(),
    {
        let mut b = self;
        add_module_filter(&mut b.filters, module, level_filter);
        b
    }

    /// Sets the threshold of all modules, replacing an earlier one.
    pub fn filter_level(self, level_filter: LevelFilter) -> (r: LokiLoggerBuilder)
        ensures
            r.directives() == self.directives().insert(None, level_filter),
            r.labels() == self.labels(),
            r.wf() == self.wf(),
    {
        let mut b = self;
        add_default_filter(&mut b.filters, level_filter);
        b
    }

    /// Adds a static label; a later value for the same name wins.
    pub fn label(self, name: &str, value: &str) -> (r: LokiLoggerBuilder)
        requires
            self.wf(),
        ensures
            r.labels() == insert_sorted(self.labels(), name@, value@),
            r.directives() == self.directives(),
            r.wf(),
    {
        let mut b = self;
        b.labels.insert(name.to_owned(), value.to_owned());
        b
    }

    /// Validates the endpoint URL and builds the filter. A URL that does not
    /// parse gives `InvalidUrl`, one that names no host `MissingHost`, any
    /// other `Ok`, with the static labels and the filter directives carried
    /// over.
    pub fn build(self, url: &str) -> (r: Result<LoggerConfig, BuildError>)
        requires
            self.wf(),
        ensures
            (r is Ok) == (url_parses(url@) && url_has_host_of(url@)),
            !url_parses(url@) ==> r == Err::<LoggerConfig, BuildError>(BuildError::InvalidUrl),
            url_parses(url@) && !url_has_host_of(url@) ==> r == Err::<LoggerConfig, BuildError>(BuildError::MissingHost),
            r matches Ok(c) ==> {
                &&& c.labels@ == self.labels()
                &&& c.labels.wf()
                &&& c.directives() == built_directives(self.directives())
            },
    {
        match parse_url(url) {
            None => Err(BuildError::InvalidUrl),
            Some((u, has_host)) => if has_host {
                Ok(LoggerConfig { url: u, labels: self.labels, filter: build_filter(self.filters) })
            } else {
                Err(BuildError::MissingHost)
            },
        }
    }
}

/// A builder configured from the `RUST_LOG` environment variable.
pub fn builder() -> (r: LokiLoggerBuilder)
    ensures
        r.labels() == Seq::<PairView>::empty(),
        r.wf(),
{
    LokiLoggerBuilder::from_env("RUST_LOG")
}

/// On a builder with no directives, `filter_level(lf)` makes `lf` the built
/// filter's threshold: the most verbose level it lets through is `lf`.
pub proof fn lemma_filter_level_sets_threshold(
    dirs: Map<Option<Seq<char>>, LevelFilter>,
    lf: LevelFilter,
    r: LevelFilter,
)
    requires
        dirs.dom() == Set::<Option<Seq<char>>>::empty(),
        is_max_threshold(built_directives(dirs.insert(None, lf)), r),
    ensures
        r == lf,
{
    let m = dirs.insert(None, lf);
    assert(m.dom().contains(None));
    assert(m.dom() != Set::<Option<Seq<char>>>::empty());
    assert(built_directives(m) == m);
    let k = choose|k: Option<Seq<char>>| #[trigger] m.contains_key(k) && m[k] == r;
    assert(k == None::<Seq<char>>) by {
        assert(dirs.dom().contains(k) == false);
    }
}

} // verus!
