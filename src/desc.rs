use vstd::prelude::*;
use vstd::string::StringExecFns;
use crate::arg::Desc;

verus! {

/// The view of an optional string.
pub open spec fn opt_view(o: Option<String>) -> Option<Seq<char>> {
    match o {
        Some(s) => Some(s@),
        None => None,
    }
}

/// The attributes of one command-line argument, as its descriptions settle them.
pub struct ArgSpec {
    pub name: String,
    pub index: Option<u64>,
    pub help: Option<String>,
    pub short: Option<String>,
    pub long: Option<String>,
    pub value_names: Vec<String>,
    pub default: Option<String>,
    pub multiple: bool,
    pub required: bool,
}

/// What an `ArgSpec` stands for.
pub struct ArgSpecView {
    pub name: Seq<char>,
    pub index: Option<u64>,
    pub help: Option<Seq<char>>,
    pub short: Option<Seq<char>>,
    pub long: Option<Seq<char>>,
    pub value_names: Seq<Seq<char>>,
    pub default: Option<Seq<char>>,
    pub multiple: bool,
    pub required: bool,
}

impl View for ArgSpec {
    type V = ArgSpecView;

    open spec fn view(&self) -> ArgSpecView {
        ArgSpecView {
            name: self.name@,
            index: self.index,
            help: opt_view(self.help),
            short: opt_view(self.short),
            long: opt_view(self.long),
            value_names: self.value_names@.map_values(|v: String| v@),
            default: opt_view(self.default),
            multiple: self.multiple,
            required: self.required,
        }
    }
}

/// One description applied to an argument's attributes: a later description
/// of an attribute replaces an earlier one, value names add up, and `Long_` /
/// `ValueName_` take the argument's own name.
pub open spec fn apply_arg_desc(s: ArgSpecView, d: Desc) -> ArgSpecView {
    match d {
        Desc::Index(v) => ArgSpecView { index: Some(v), ..s },
        Desc::Help(v) => ArgSpecView { help: Some(v@), ..s },
        Desc::Short(v) => ArgSpecView { short: Some(v@), ..s },
        Desc::Long(v) => ArgSpecView { long: Some(v@), ..s },
        Desc::Long_ => ArgSpecView { long: Some(s.name), ..s },
        Desc::ValueName(v) => ArgSpecView { value_names: s.value_names.push(v@), ..s },
        Desc::ValueName_ => ArgSpecView { value_names: s.value_names.push(s.name), ..s },
        Desc::Multiple => ArgSpecView { multiple: true, ..s },
        Desc::Required => ArgSpecView { required: true, ..s },
        Desc::Default(v) => ArgSpecView { default: Some(v@), ..s },
        _ => s,
    }
}

/// The attributes of the argument `name` after its descriptions, in order.
pub open spec fn arg_spec_of(name: Seq<char>, ds: Seq<Desc>) -> ArgSpecView
    decreases ds.len(),
{
    if ds.len() == 0 {
        ArgSpecView {
            name,
            index: None,
            help: None,
            short: None,
            long: None,
            value_names: Seq::empty(),
            default: None,
            multiple: false,
            required: false,
        }
    } else {
        apply_arg_desc(arg_spec_of(name, ds.drop_last()), ds.last())
    }
}

/// Settles the attributes of the argument `name` from its descriptions.
pub fn arg_spec(name: &str, descs: &Vec<Desc>) -> (r: ArgSpec)
    ensures
        r@ == arg_spec_of(name@, descs@),
{
    let mut s = ArgSpec {
        name: String::from_str(name),
        index: None,
        help: None,
        short: None,
        long: None,
        value_names: Vec::new(),
        default: None,
        multiple: false,
        required: false,
    };
    assert(s.value_names@.map_values(|x: String| x@) =~= Seq::empty());
    assert(descs@.take(0) =~= Seq::<Desc>::empty());
    let mut i: usize = 0;
    while i < descs.len()
        invariant
            i <= descs@.len(),
            s@ == arg_spec_of(name@, descs@.take(i as int)),
        decreases descs@.len() - i,
    {
        proof {
            assert(descs@.take(i + 1).drop_last() =~= descs@.take(i as int));
        }
        match &descs[i] {
            Desc::Index(v) => s.index = Some(*v),
            Desc::Help(v) => s.help = Some(v.clone()),
            Desc::Short(v) => s.short = Some(v.clone()),
            Desc::Long(v) => s.long = Some(v.clone()),
            Desc::Long_ => s.long = Some(s.name.clone()),
            Desc::ValueName(v) => {
                let ghost prev = s.value_names@;
                s.value_names.push(v.clone());
                assert(s.value_names@.map_values(|x: String| x@) =~= prev.map_values(|x: String| x@).push(v@));
            },
            Desc::ValueName_ => {
                let ghost prev = s.value_names@;
                let n = s.name.clone();
                s.value_names.push(n);
                assert(s.value_names@.map_values(|x: String| x@) =~= prev.map_values(|x: String| x@).push(s.name@));
            },
            Desc::Multiple => s.multiple = true,
            Desc::Required => s.required = true,
            Desc::Default(v) => s.default = Some(v.clone()),
            _ => {},
        }
        i = i + 1;
    }
    assert(descs@.take(i as int) =~= descs@);
    s
}

/// The application-level texts: version, author and about.
pub struct AppInfo {
    pub version: Option<String>,
    pub author: Option<String>,
    pub about: Option<String>,
}

/// The application-level texts after descriptions `ds`, a later one of a kind
/// replacing an earlier one.
pub open spec fn app_info_of(ds: Seq<Desc>) -> (Option<Seq<char>>, Option<Seq<char>>, Option<Seq<char>>)
    decreases ds.len(),
{
    if ds.len() == 0 {
        (None, None, None)
    } else {
        let p = app_info_of(ds.drop_last());
        match ds.last() {
            Desc::Version(v) => (Some(v@), p.1, p.2),
            Desc::Author(v) => (p.0, Some(v@), p.2),
            Desc::About(v) => (p.0, p.1, Some(v@)),
            _ => p,
        }
    }
}

/// Settles the application-level texts from descriptions.
pub fn app_info(descs: &Vec<Desc>) -> (r: AppInfo)
    ensures
        (opt_view(r.version), opt_view(r.author), opt_view(r.about)) == app_info_of(descs@),
{
    let mut r = AppInfo { version: None, author: None, about: None };
    let mut i: usize = 0;
    while i < descs.len()
        invariant
            i <= descs@.len(),
            (opt_view(r.version), opt_view(r.author), opt_view(r.about)) == app_info_of(descs@.take(i as int)),
        decreases descs@.len() - i,
    {
        proof {
            assert(descs@.take(i + 1).drop_last() =~= descs@.take(i as int));
        }
        match &descs[i] {
            Desc::Version(v) => r.version = Some(v.clone()),
            Desc::Author(v) => r.author = Some(v.clone()),
            Desc::About(v) => r.about = Some(v.clone()),
            _ => {},
        }
        i = i + 1;
    }
    assert(descs@.take(i as int) =~= descs@);
    r
}

} // verus!
