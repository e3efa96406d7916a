use vstd::prelude::*;
use vstd::string::StrSliceExecFns;
use vstd::string::StringExecFns;
use crate::merge::{arg_matches, reconcile, reports, ArgMatch, ArgReport};
use crate::path::{is_rooted, joined, resolve_path, resolved};
use crate::store::{entries_map, flag_of, layer_map, lemma_merge_idempotent, lemma_overlay_tail, Scalar, Store, Value};
use crate::text::{lower_of, same_text};

verus! {

/// The ways that loading or resolving configuration fails.
#[derive(Debug)]
pub enum Error {
    File,
    Env,
    CmdArg,
    LogFile,
    ErrFile,
}

impl Error {
    /// What failed, in words.
    pub fn message(&self) -> (r: &'static str)
        ensures
            r@ == match self {
                Error::File => "loading from file"@,
                Error::Env => "loading from environment"@,
                Error::CmdArg => "failed to match command argument"@,
                Error::LogFile => "file to log"@,
                Error::ErrFile => "file to error"@,
            },
    {
        match self {
            Error::File => "loading from file",
            Error::Env => "loading from environment",
            Error::CmdArg => "failed to match command argument",
            Error::LogFile => "file to log",
            Error::ErrFile => "file to error",
        }
    }
}

/// One fact in the description of an application, an argument or a unit's
/// configuration sources.
#[allow(non_camel_case_types)]
#[derive(Debug)]
pub enum Desc {
    Version(String),
    Author(String),
    About(String),
    Short(String),
    Long(String),
    /// The long name is the argument's key.
    Long_,
    ValueName(String),
    /// The value name is the argument's key.
    ValueName_,
    Help(String),
    Default(String),
    Required,
    Index(u64),
    Multiple,
    File(String),
    Env(String),
}

/// A layer of configuration entries, as loaded from one source.
pub type Layer = Vec<(String, Value)>;

/// A source of configuration layers: a file path, already resolved, or an
/// environment-variable prefix.
#[derive(Debug)]
pub enum Source {
    File(String),
    Env(String),
}

/// What a `Source` stands for.
pub enum SourceView {
    File(Seq<char>),
    Env(Seq<char>),
}

/// The source that a description names, with file paths read from `base`.
pub open spec fn source_of(base: Seq<char>, d: Desc) -> Option<SourceView> {
    match d {
        Desc::File(p) => Some(SourceView::File(resolved(base, p@))),
        Desc::Env(e) => Some(SourceView::Env(e@)),
        _ => None,
    }
}

/// The sources that a list of descriptions names, in order.
pub open spec fn sources_of(base: Seq<char>, ds: Seq<Desc>) -> Seq<SourceView>
    decreases ds.len(),
{
    if ds.len() == 0 {
        Seq::empty()
    } else {
        let prev = sources_of(base, ds.drop_last());
        match source_of(base, ds.last()) {
            Some(s) => prev.push(s),
            None => prev,
        }
    }
}

/// Layers merged in order: a later layer wins over an earlier one.
pub open spec fn merged(ls: Seq<Layer>) -> Map<Seq<char>, Scalar>
    decreases ls.len(),
{
    if ls.len() == 0 {
        Map::empty()
    } else {
        merged(ls.drop_last()).union_prefer_right(layer_map(ls.last()@))
    }
}

/// The store made by merging layers in order.
pub fn merge_unit(layers: &Vec<Layer>) -> (r: Store)
    ensures
        r@ == merged(layers@),
{
    let mut s = Store::new();
    let mut i: usize = 0;
    while i < layers.len()
        invariant
            i <= layers@.len(),
            s@ == merged(layers@.take(i as int)),
        decreases layers@.len() - i,
    {
        s.merge_layer(&layers[i]);
        proof {
            assert(layers@.take(i + 1).drop_last() =~= layers@.take(i as int));
        }
        i = i + 1;
    }
    assert(layers@.take(i as int) =~= layers@);
    s
}

/// What the application handle stands for: its root unit's name and store,
/// the stores of the other units, and its base directory.
pub struct AppView {
    pub name: Seq<char>,
    pub args: Map<Seq<char>, Scalar>,
    pub units: Map<Seq<char>, Map<Seq<char>, Scalar>>,
    pub cdir: Seq<char>,
}

/// The application handle.
pub struct App {
    name: String,
    args: Store,
    config: Vec<(String, Store)>,
    cdir: String,
}

/// The key and model of one unit's entry.
pub open spec fn unit_view(e: (String, Store)) -> (Seq<char>, Map<Seq<char>, Scalar>) {
    (e.0@, e.1@)
}

impl View for App {
    type V = AppView;

    closed spec fn view(&self) -> AppView {
        AppView {
            name: self.name@,
            args: self.args@,
            units: entries_map(self.config@.map_values(|e: (String, Store)| unit_view(e))),
            cdir: self.cdir@,
        }
    }
}

/// The handle after merging each unit's layers in order; the root unit's
/// store is then reconciled with the parsed arguments.
pub open spec fn configured(
    v: AppView,
    us: Seq<(String, Vec<Layer>)>,
    keys: Seq<String>,
    args: Seq<ArgReport>,
) -> AppView
    decreases us.len(),
{
    if us.len() == 0 {
        v
    } else {
        let p = configured(v, us.drop_last(), keys, args);
        let u = us.last();
        let c = merged(u.1@);
        if u.0@ == v.name {
            AppView { args: reconcile(keys, args, 0, Seq::empty(), c), ..p }
        } else {
            AppView { units: p.units.insert(u.0@, c), ..p }
        }
    }
}

/// The files that a detached child writes its output and errors to.
pub struct SpawnPlan {
    pub log_path: String,
    pub err_path: String,
}

/// The path of a unit's log file, below `base`.
pub open spec fn log_path_of(base: Seq<char>, name: Seq<char>) -> Seq<char> {
    resolved(base, "log/"@ + name + ".log"@)
}

/// Whether the process should detach: only where no guard marks it as a
/// detached child already and the `spawn` switch is on.
pub open spec fn spawn_wanted(guard_present: bool, spawn: Option<bool>) -> bool {
    !guard_present && spawn == Some(true)
}

/// Decides whether the process should detach.
pub fn should_spawn(guard_present: bool, spawn: Option<bool>) -> (r: bool)
    ensures
        r == spawn_wanted(guard_present, spawn),
{
    !guard_present && match spawn {
        Some(b) => b,
        None => false,
    }
}

/// The `spawn` switch of a root store.
pub open spec fn spawn_flag(args: Map<Seq<char>, Scalar>) -> Option<bool> {
    if args.contains_key(lower_of("spawn"@)) {
        flag_of(args[lower_of("spawn"@)])
    } else {
        None
    }
}

impl App {
    /// A handle for the root unit `name`, with `cdir` as base directory and no
    /// configuration yet.
    pub fn new(name: &str, cdir: &str) -> (r: App)
        ensures
            r@.name == name@,
            r@.cdir == cdir@,
            r@.args == Map::<Seq<char>, Scalar>::empty(),
            r@.units == Map::<Seq<char>, Map<Seq<char>, Scalar>>::empty(),
    {
        let r = App {
            name: String::from_str(name),
            args: Store::new(),
            config: Vec::new(),
            cdir: String::from_str(cdir),
        };
        assert(r.config@.map_values(|e: (String, Store)| unit_view(e)) =~= Seq::empty());
        r
    }

    /// The name of the root unit.
    pub fn name(&self) -> (r: &String)
        ensures
            r@ == self@.name,
    {
        &self.name
    }

    /// The base directory.
    pub fn cdir(&self) -> (r: &String)
        ensures
            r@ == self@.cdir,
    {
        &self.cdir
    }

    /// `name` read from the base directory.
    pub fn filepath(&self, name: &str) -> (r: String)
        ensures
            r@ == resolved(self@.cdir, name@),
    {
        resolve_path(self.cdir.as_str(), name)
    }

    /// The configuration sources that `descs` names, file paths resolved
    /// against the base directory.
    pub fn sources(&self, descs: &Vec<Desc>) -> (r: Vec<Source>)
        ensures
            r@.len() == sources_of(self@.cdir, descs@).len(),
            forall|i: int| 0 <= i < r@.len() ==> (match #[trigger] r@[i] {
                Source::File(p) => SourceView::File(p@),
                Source::Env(e) => SourceView::Env(e@),
            }) == sources_of(self@.cdir, descs@)[i],
    {
        let mut r: Vec<Source> = Vec::new();
        let mut i: usize = 0;
        while i < descs.len()
            invariant
                i <= descs@.len(),
                r@.len() == sources_of(self@.cdir, descs@.take(i as int)).len(),
                forall|j: int| 0 <= j < r@.len() ==> (match #[trigger] r@[j] {
                    Source::File(p) => SourceView::File(p@),
                    Source::Env(e) => SourceView::Env(e@),
                }) == sources_of(self@.cdir, descs@.take(i as int))[j],
            decreases descs@.len() - i,
        {
            proof {
                assert(descs@.take(i + 1).drop_last() =~= descs@.take(i as int));
            }
            match &descs[i] {
                Desc::File(p) => r.push(Source::File(self.filepath(p.as_str()))),
                Desc::Env(e) => r.push(Source::Env(e.clone())),
                _ => {},
            }
            i = i + 1;
        }
        assert(descs@.take(i as int) =~= descs@);
        r
    }

    /// Merges each unit's layers, in order. The root unit's store is then
    /// reconciled with the parsed arguments (`args[i]` reports `keys[i]`) and
    /// becomes the handle's store; each other unit's store is kept under its name.
    pub fn config(self, units: &Vec<(String, Vec<Layer>)>, keys: &Vec<String>, args: &Vec<ArgMatch>) -> (r: App)
        requires
            keys@.len() == args@.len(),
        ensures
            r@ == configured(self@, units@, keys@, reports(args@)),
    {
        let ghost v0 = self@;
        let mut app = self;
        let mut i: usize = 0;
        while i < units.len()
            invariant
                i <= units@.len(),
                keys@.len() == args@.len(),
                app@ == configured(v0, units@.take(i as int), keys@, reports(args@)),
            decreases units@.len() - i,
        {
            proof {
                assert(units@.take(i + 1).drop_last() =~= units@.take(i as int));
                lemma_configured_name(v0, units@.take(i as int), keys@, reports(args@));
            }
            let mut c = merge_unit(&units[i].1);
            if same_text(units[i].0.as_str(), app.name.as_str()) {
                arg_matches(keys, args, &mut c);
                app.args = c;
            } else {
                let ghost before = app.config@.map_values(|e: (String, Store)| unit_view(e));
                app.config.push((units[i].0.clone(), c));
                proof {
                    let after = app.config@.map_values(|e: (String, Store)| unit_view(e));
                    assert(after.drop_last() =~= before);
                }
            }
            proof {
                assert(app@ =~= configured(v0, units@.take(i + 1), keys@, reports(args@)));
            }
            i = i + 1;
        }
        assert(units@.take(i as int) =~= units@);
        app
    }

    /// The root unit's store.
    pub fn get_args(&self) -> (r: &Store)
        ensures
            r@ == self@.args,
    {
        &self.args
    }

    /// The root unit's value at `key` (in lower case).
    pub fn get_arg(&self, key: &str) -> (r: Option<Value>)
        ensures
            r is None <==> !self@.args.contains_key(lower_of(key@)),
            r matches Some(v) ==> v@ == self@.args[lower_of(key@)],
    {
        self.args.get(key)
    }

    /// The store of the unit `name`, other than the root.
    pub fn unit(&self, name: &str) -> (r: Option<&Store>)
        ensures
            r is None <==> !self@.units.contains_key(name@),
            r matches Some(s) ==> s@ == self@.units[name@],
    {
        let ghost s = self.config@.map_values(|e: (String, Store)| unit_view(e));
        let mut i: usize = self.config.len();
        while i > 0
            invariant
                i <= self.config@.len(),
                s == self.config@.map_values(|e: (String, Store)| unit_view(e)),
                forall|j: int| i <= j < s.len() ==> s[j].0 != name@,
            decreases i,
        {
            i = i - 1;
            if same_text(self.config[i].0.as_str(), name) {
                proof {
                    lemma_overlay_tail(Map::empty(), s, i + 1, name@);
                    assert(s.take(i + 1).drop_last() =~= s.take(i as int));
                }
                return Some(&self.config[i].1);
            }
        }
        proof {
            lemma_overlay_tail(Map::empty(), s, 0, name@);
            assert(s.take(0) =~= Seq::<(Seq<char>, Map<Seq<char>, Scalar>)>::empty());
        }
        None
    }

    /// Where a detached child would write: `log/<name>.log` below the base
    /// directory, for its output and its errors alike.
    pub fn spawn_paths(&self) -> (r: SpawnPlan)
        ensures
            r.log_path@ == log_path_of(self@.cdir, self@.name),
            r.err_path@ == log_path_of(self@.cdir, self@.name),
    {
        let rel = String::from_str("log/").concat(self.name.as_str()).concat(".log");
        let log_path = self.filepath(rel.as_str());
        let err_path = self.filepath(rel.as_str());
        SpawnPlan { log_path, err_path }
    }

    /// The detach decision: where to write, if the process should detach;
    /// `guard_present` tells whether this process is a detached child already.
    pub fn spwan(&self, guard_present: bool) -> (r: Option<SpawnPlan>)
        ensures
            r is Some <==> spawn_wanted(guard_present, spawn_flag(self@.args)),
            r matches Some(p) ==> p.log_path@ == log_path_of(self@.cdir, self@.name)
                && p.err_path@ == log_path_of(self@.cdir, self@.name),
    {
        let spawn = self.args.get_bool("spawn");
        if should_spawn(guard_present, spawn) {
            Some(self.spawn_paths())
        } else {
            None
        }
    }
}

/// Configuring keeps the root unit's name and the base directory.
proof fn lemma_configured_name(v: AppView, us: Seq<(String, Vec<Layer>)>, keys: Seq<String>, args: Seq<ArgReport>)
    ensures
        configured(v, us, keys, args).name == v.name,
        configured(v, us, keys, args).cdir == v.cdir,
    decreases us.len(),
{
    if us.len() > 0 {
        lemma_configured_name(v, us.drop_last(), keys, args);
    }
}

/// Merging the same layer twice in a row gives the same store as merging it once.
pub proof fn lemma_merged_twice(ls: Seq<Layer>, l: Layer)
    ensures
        merged(ls.push(l).push(l)) == merged(ls.push(l)),
{
    assert(ls.push(l).push(l).drop_last() =~= ls.push(l));
    assert(ls.push(l).drop_last() =~= ls);
    lemma_merge_idempotent(merged(ls), l@);
}

/// Configuring depends on each unit's layers only through what they merge to.
pub proof fn lemma_configured_by_merges(
    v: AppView,
    us1: Seq<(String, Vec<Layer>)>,
    us2: Seq<(String, Vec<Layer>)>,
    keys: Seq<String>,
    args: Seq<ArgReport>,
)
    requires
        us1.len() == us2.len(),
        forall|i: int| 0 <= i < us1.len() ==> us1[i].0@ == us2[i].0@ && merged(us1[i].1@) == merged(us2[i].1@),
    ensures
        configured(v, us1, keys, args) == configured(v, us2, keys, args),
    decreases us1.len(),
{
    if us1.len() > 0 {
        lemma_configured_by_merges(v, us1.drop_last(), us2.drop_last(), keys, args);
    }
}

/// Listing a file layer twice in a row for a unit configures the handle as
/// listing it once: `us1` and `us2` agree but at unit `u`, whose layers are
/// `ls, l, l` in `us1` and `ls, l` in `us2`.
pub proof fn lemma_config_layer_twice(
    v: AppView,
    us1: Seq<(String, Vec<Layer>)>,
    us2: Seq<(String, Vec<Layer>)>,
    u: int,
    ls: Seq<Layer>,
    l: Layer,
    keys: Seq<String>,
    args: Seq<ArgReport>,
)
    requires
        us1.len() == us2.len(),
        0 <= u < us1.len(),
        us1[u].0@ == us2[u].0@,
        us1[u].1@ == ls.push(l).push(l),
        us2[u].1@ == ls.push(l),
        forall|i: int| 0 <= i < us1.len() && i != u ==> us1[i] == us2[i],
    ensures
        configured(v, us1, keys, args) == configured(v, us2, keys, args),
{
    lemma_merged_twice(ls, l);
    lemma_configured_by_merges(v, us1, us2, keys, args);
}

/// A file path that does not start at the root is read below the base
/// directory; a rooted one is used unchanged.
pub proof fn lemma_source_paths(base: Seq<char>, p: String)
    ensures
        !is_rooted(p@) ==> source_of(base, Desc::File(p)) == Some(SourceView::File(joined(base, p@))),
        is_rooted(p@) ==> source_of(base, Desc::File(p)) == Some(SourceView::File(p@)),
{
}

/// A process that carries the guard never detaches, whatever its `spawn` switch says.
pub proof fn lemma_guard_one_shot(spawn: Option<bool>)
    ensures
        !spawn_wanted(true, spawn),
{
}

} // verus!
