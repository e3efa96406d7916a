use vstd::prelude::*;
use vstd::string::StringExecFns;
use crate::store::{Scalar, Store, Value};
use crate::text::{ends_with_char, lower_of};

verus! {

/// What the argument parser reports of one key: how often the user gave it,
/// and the value it holds (the one given, else the declared default).
#[derive(Debug)]
pub struct ArgMatch {
    pub occurrences: u64,
    pub value: Option<String>,
}

/// What the parser reports of one key, as values: how often it was given, and
/// the characters of its value.
pub type ArgReport = (u64, Option<Seq<char>>);

impl View for ArgMatch {
    type V = ArgReport;

    open spec fn view(&self) -> ArgReport {
        (
            self.occurrences,
            match self.value {
                Some(v) => Some(v@),
                None => None,
            },
        )
    }
}

/// The reports of a list of argument matches.
pub open spec fn reports(args: Seq<ArgMatch>) -> Seq<ArgReport> {
    args.map_values(|a: ArgMatch| a@)
}

/// The value that a key's argument contributes, given whether the store
/// already holds the key; `None` leaves the store as it is.
pub open spec fn arg_value(a: ArgReport, present: bool) -> Option<Scalar> {
    if a.0 > 0 {
        Some(
            match a.1 {
                Some(v) => Scalar::Text(v),
                None => Scalar::Flag(true),
            },
        )
    } else if !present {
        Some(
            match a.1 {
                Some(v) => Scalar::Text(v),
                None => Scalar::Flag(false),
            },
        )
    } else {
        None
    }
}

/// The store after reconciling the effective key `ck` (taken in lower case, as
/// the store takes keys) with its argument.
pub open spec fn apply_arg(m: Map<Seq<char>, Scalar>, ck: Seq<char>, a: ArgReport) -> Map<Seq<char>, Scalar> {
    match arg_value(a, m.contains_key(lower_of(ck))) {
        Some(v) => m.insert(lower_of(ck), v),
        None => m,
    }
}

/// Whether a key only sets the dotted prefix of the keys after it.
pub open spec fn is_prefix_key(k: Seq<char>) -> bool {
    k.len() > 0 && k.last() == '.'
}

/// The store after reconciling keys `i..` with their arguments, under the
/// current dotted prefix `prefix`.
pub open spec fn reconcile(
    keys: Seq<String>,
    args: Seq<ArgReport>,
    i: int,
    prefix: Seq<char>,
    m: Map<Seq<char>, Scalar>,
) -> Map<Seq<char>, Scalar>
    decreases keys.len() - i,
{
    if i < 0 || i >= keys.len() {
        m
    } else if is_prefix_key(keys[i]@) {
        reconcile(keys, args, i + 1, keys[i]@, m)
    } else {
        reconcile(keys, args, i + 1, prefix, apply_arg(m, prefix + keys[i]@, args[i]))
    }
}

/// The value that an argument contributes to a key that the store does or
/// does not hold already.
pub fn resolve_arg(a: &ArgMatch, present: bool) -> (r: Option<Value>)
    ensures
        match r {
            Some(v) => arg_value(a@, present) == Some(v@),
            None => arg_value(a@, present) is None,
        },
{
    if a.occurrences > 0 {
        match &a.value {
            Some(v) => Some(Value::Text(v.clone())),
            None => Some(Value::Flag(true)),
        }
    } else if !present {
        match &a.value {
            Some(v) => Some(Value::Text(v.clone())),
            None => Some(Value::Flag(false)),
        }
    } else {
        None
    }
}

/// Reconciles the store with the parsed arguments: `args[i]` is what the parser
/// reports of `keys[i]`. A key ending in `.` sets the prefix of the keys after
/// it. A key given on the command line takes its value (or `true`); one not
/// given fills a gap in the store with its default (or `false`) and leaves a
/// value that the store holds untouched.
pub fn arg_matches(keys: &Vec<String>, args: &Vec<ArgMatch>, store: &mut Store)
    requires
        keys@.len() == args@.len(),
    ensures
        final(store)@ == reconcile(keys@, reports(args@), 0, Seq::empty(), old(store)@),
{
    let mut prefix = String::new();
    let mut i: usize = 0;
    while i < keys.len()
        invariant
            keys@.len() == args@.len(),
            i <= keys@.len(),
            reconcile(keys@, reports(args@), 0, Seq::empty(), old(store)@)
                == reconcile(keys@, reports(args@), i as int, prefix@, store@),
        decreases keys@.len() - i,
    {
        let k = &keys[i];
        if ends_with_char(k.as_str(), '.') {
            prefix = k.clone();
        } else {
            let ck = prefix.clone().concat(k.as_str());
            let present = store.has(ck.as_str());
            match resolve_arg(&args[i], present) {
                Some(v) => store.set(ck.as_str(), v),
                None => {},
            }
        }
        i = i + 1;
    }
}

/// The dotted prefix in force at position `i` of a key walk.
pub open spec fn prefix_at(keys: Seq<String>, i: int) -> Seq<char>
    decreases i,
{
    if i <= 0 {
        Seq::empty()
    } else if is_prefix_key(keys[i - 1]@) {
        keys[i - 1]@
    } else {
        prefix_at(keys, i - 1)
    }
}

/// Whether position `j` of a key walk reconciles the store key `k`.
pub open spec fn sets_key(keys: Seq<String>, j: int, k: Seq<char>) -> bool {
    !is_prefix_key(keys[j]@) && lower_of(prefix_at(keys, j) + keys[j]@) == k
}

/// The store key that position `i` of a key walk reconciles.
pub open spec fn store_key(keys: Seq<String>, i: int) -> Seq<char> {
    lower_of(prefix_at(keys, i) + keys[i]@)
}

/// The value that an argument given on the command line supplies.
pub open spec fn given_value(a: ArgReport) -> Scalar {
    match a.1 {
        Some(v) => Scalar::Text(v),
        None => Scalar::Flag(true),
    }
}

/// The value that an argument not given fills a gap with.
pub open spec fn default_value(a: ArgReport) -> Scalar {
    match a.1 {
        Some(v) => Scalar::Text(v),
        None => Scalar::Flag(false),
    }
}

/// Positions from `i` on that never reconcile `k` leave it as it is.
proof fn lemma_walk_frame(keys: Seq<String>, args: Seq<ArgReport>, i: int, m: Map<Seq<char>, Scalar>, k: Seq<char>)
    requires
        keys.len() == args.len(),
        0 <= i <= keys.len(),
        forall|j: int| i <= j < keys.len() ==> !sets_key(keys, j, k),
    ensures
        reconcile(keys, args, i, prefix_at(keys, i), m).contains_key(k) == m.contains_key(k),
        m.contains_key(k) ==> reconcile(keys, args, i, prefix_at(keys, i), m)[k] == m[k],
    decreases keys.len() - i,
{
    if i < keys.len() {
        assert(!sets_key(keys, i, k));
        if is_prefix_key(keys[i]@) {
            lemma_walk_frame(keys, args, i + 1, m, k);
        } else {
            let m2 = apply_arg(m, prefix_at(keys, i) + keys[i]@, args[i]);
            lemma_walk_frame(keys, args, i + 1, m2, k);
        }
    }
}

/// Positions from `i` on that reconcile `k` only where it was not given leave
/// a value of `k` as it is.
proof fn lemma_walk_keep(keys: Seq<String>, args: Seq<ArgReport>, i: int, m: Map<Seq<char>, Scalar>, k: Seq<char>)
    requires
        keys.len() == args.len(),
        0 <= i <= keys.len(),
        m.contains_key(k),
        forall|j: int| i <= j < keys.len() && sets_key(keys, j, k) ==> args[j].0 == 0,
    ensures
        reconcile(keys, args, i, prefix_at(keys, i), m).contains_key(k),
        reconcile(keys, args, i, prefix_at(keys, i), m)[k] == m[k],
    decreases keys.len() - i,
{
    if i < keys.len() {
        if is_prefix_key(keys[i]@) {
            lemma_walk_keep(keys, args, i + 1, m, k);
        } else {
            let ck = prefix_at(keys, i) + keys[i]@;
            let m2 = apply_arg(m, ck, args[i]);
            if lower_of(ck) == k {
                assert(sets_key(keys, i, k));
                assert(m2 == m);
            } else {
                assert(m2.contains_key(k) && m2[k] == m[k]);
            }
            lemma_walk_keep(keys, args, i + 1, m2, k);
        }
    }
}

proof fn lemma_walk_explicit(keys: Seq<String>, args: Seq<ArgReport>, s: int, m: Map<Seq<char>, Scalar>, i: int)
    requires
        keys.len() == args.len(),
        0 <= s <= i < keys.len(),
        !is_prefix_key(keys[i]@),
        args[i].0 > 0,
        forall|j: int| i < j < keys.len() ==> !sets_key(keys, j, store_key(keys, i)),
    ensures
        reconcile(keys, args, s, prefix_at(keys, s), m).contains_key(store_key(keys, i)),
        reconcile(keys, args, s, prefix_at(keys, s), m)[store_key(keys, i)] == given_value(args[i]),
    decreases keys.len() - s,
{
    let k = store_key(keys, i);
    if s == i {
        let m2 = apply_arg(m, prefix_at(keys, i) + keys[i]@, args[i]);
        lemma_walk_frame(keys, args, i + 1, m2, k);
    } else if is_prefix_key(keys[s]@) {
        lemma_walk_explicit(keys, args, s + 1, m, i);
    } else {
        lemma_walk_explicit(keys, args, s + 1, apply_arg(m, prefix_at(keys, s) + keys[s]@, args[s]), i);
    }
}

proof fn lemma_walk_gap(keys: Seq<String>, args: Seq<ArgReport>, s: int, m: Map<Seq<char>, Scalar>, i: int)
    requires
        keys.len() == args.len(),
        0 <= s <= i < keys.len(),
        !is_prefix_key(keys[i]@),
        args[i].0 == 0,
        !m.contains_key(store_key(keys, i)),
        forall|j: int| 0 <= j < keys.len() && j != i ==> !sets_key(keys, j, store_key(keys, i)),
    ensures
        reconcile(keys, args, s, prefix_at(keys, s), m).contains_key(store_key(keys, i)),
        reconcile(keys, args, s, prefix_at(keys, s), m)[store_key(keys, i)] == default_value(args[i]),
    decreases keys.len() - s,
{
    let k = store_key(keys, i);
    if s == i {
        let m2 = apply_arg(m, prefix_at(keys, i) + keys[i]@, args[i]);
        lemma_walk_frame(keys, args, i + 1, m2, k);
    } else {
        assert(!sets_key(keys, s, k));
        if is_prefix_key(keys[s]@) {
            lemma_walk_gap(keys, args, s + 1, m, i);
        } else {
            lemma_walk_gap(keys, args, s + 1, apply_arg(m, prefix_at(keys, s) + keys[s]@, args[s]), i);
        }
    }
}

/// Precedence: a key given on the command line resolves to the value given
/// (or `true` for a switch), whatever the file and environment layers held,
/// unless a later position of the walk reconciles the same key again.
pub proof fn lemma_explicit_wins(keys: Seq<String>, args: Seq<ArgReport>, m: Map<Seq<char>, Scalar>, i: int)
    requires
        keys.len() == args.len(),
        0 <= i < keys.len(),
        !is_prefix_key(keys[i]@),
        args[i].0 > 0,
        forall|j: int| i < j < keys.len() ==> !sets_key(keys, j, store_key(keys, i)),
    ensures
        reconcile(keys, args, 0, Seq::empty(), m).contains_key(store_key(keys, i)),
        reconcile(keys, args, 0, Seq::empty(), m)[store_key(keys, i)] == given_value(args[i]),
{
    lemma_walk_explicit(keys, args, 0, m, i);
}

/// No clobbering: a key that the file or environment layers set, and that the
/// command line does not give, keeps its value, defaults notwithstanding.
pub proof fn lemma_no_clobber(keys: Seq<String>, args: Seq<ArgReport>, m: Map<Seq<char>, Scalar>, k: Seq<char>)
    requires
        keys.len() == args.len(),
        m.contains_key(k),
        forall|j: int| 0 <= j < keys.len() && sets_key(keys, j, k) ==> args[j].0 == 0,
    ensures
        reconcile(keys, args, 0, Seq::empty(), m).contains_key(k),
        reconcile(keys, args, 0, Seq::empty(), m)[k] == m[k],
{
    lemma_walk_keep(keys, args, 0, m, k);
}

/// Gap filling: a key that neither the layers nor the command line set takes
/// its default, or `false` where it has none.
pub proof fn lemma_gap_fill(keys: Seq<String>, args: Seq<ArgReport>, m: Map<Seq<char>, Scalar>, i: int)
    requires
        keys.len() == args.len(),
        0 <= i < keys.len(),
        !is_prefix_key(keys[i]@),
        args[i].0 == 0,
        !m.contains_key(store_key(keys, i)),
        forall|j: int| 0 <= j < keys.len() && j != i ==> !sets_key(keys, j, store_key(keys, i)),
    ensures
        reconcile(keys, args, 0, Seq::empty(), m).contains_key(store_key(keys, i)),
        reconcile(keys, args, 0, Seq::empty(), m)[store_key(keys, i)] == default_value(args[i]),
{
    lemma_walk_gap(keys, args, 0, m, i);
}

} // verus!
