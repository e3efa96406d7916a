use vstd::prelude::*;
use crate::arg::{configured, App, Layer};
use crate::merge::{reports, ArgMatch, ArgReport};

verus! {

#[verifier::external_type_specification]
#[verifier::external_body]
pub struct ExArgMatches<'a>(clap::ArgMatches<'a>);

/// What parsed matches hold: for each argument that was matched or has a
/// default, how often it was given and its first value (read lossily).
pub uninterp spec fn reports_of(m: clap::ArgMatches) -> Map<Seq<char>, (u64, Option<Seq<char>>)>;

/// What the matches report of the argument `name`: nothing given and no value
/// where the matches do not hold it.
pub open spec fn reported(m: clap::ArgMatches, name: Seq<char>) -> ArgReport {
    if reports_of(m).contains_key(name) {
        reports_of(m)[name]
    } else {
        (0, None)
    }
}

/// Relies on clap's `ArgMatches::occurrences_of`: how often the argument `name`
/// was given on the command line, 0 where the matches do not hold it.
#[verifier::external_body]
fn occurrences_of(m: &clap::ArgMatches, name: &str) -> (r: u64)
    ensures
        r == (if reports_of(*m).contains_key(name@) { reports_of(*m)[name@].0 } else { 0 }),
{
    m.occurrences_of(name)
}

/// Relies on clap's `ArgMatches::value_of_lossy`: the first value of the
/// argument `name`, given or defaulted, if it has one.
#[verifier::external_body]
fn value_of(m: &clap::ArgMatches, name: &str) -> (r: Option<String>)
    ensures
        match r {
            Some(v) => reports_of(*m).contains_key(name@) && reports_of(*m)[name@].1 == Some(v@),
            None => !reports_of(*m).contains_key(name@) || reports_of(*m)[name@].1 is None,
        },
{
    m.value_of_lossy(name).map(|v| v.into_owned())
}

/// The reports of the parser's matches for a list of keys.
pub open spec fn reports_for(m: clap::ArgMatches, keys: Seq<String>) -> Seq<ArgReport> {
    keys.map_values(|k: String| reported(m, k@))
}

/// What the parser reports of each key, in the order of `keys`.
pub fn matches_of(keys: &Vec<String>, m: &clap::ArgMatches) -> (r: Vec<ArgMatch>)
    ensures
        reports(r@) == reports_for(*m, keys@),
{
    let mut r: Vec<ArgMatch> = Vec::new();
    let mut i: usize = 0;
    while i < keys.len()
        invariant
            i <= keys@.len(),
            reports(r@) == reports_for(*m, keys@.take(i as int)),
        decreases keys@.len() - i,
    {
        let occurrences = occurrences_of(m, keys[i].as_str());
        let value = value_of(m, keys[i].as_str());
        let ghost prev = r@;
        let a = ArgMatch { occurrences, value };
        assert(a@ == reported(*m, keys@[i as int]@));
        r.push(a);
        assert(reports(r@) =~= reports(prev).push(a@));
        assert(reports_for(*m, keys@.take(i + 1)) =~= reports_for(*m, keys@.take(i as int)).push(
            reported(*m, keys@[i as int]@),
        ));
        i = i + 1;
    }
    assert(keys@.take(i as int) =~= keys@);
    r
}

impl App {
    /// `config` with the parsed arguments read from the parser's matches.
    pub fn config_matches(self, units: &Vec<(String, Vec<Layer>)>, keys: &Vec<String>, m: &clap::ArgMatches) -> (r: App)
        ensures
            r@ == configured(self@, units@, keys@, reports_for(*m, keys@)),
    {
        let args = matches_of(keys, m);
        assert(reports(args@).len() == keys@.len());
        self.config(units, keys, &args)
    }
}

} // verus!
