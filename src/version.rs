use vstd::prelude::*;
use vstd::string::StrSliceExecFns;
use vstd::string::StringExecFns;

verus! {

/// Build facts of a program: its name, version numbers and source revision.
pub struct Version {
    pub name: String,
    pub major: String,
    pub minor: String,
    pub patch: String,
    pub release: String,
    pub pre_release: String,
    pub channel: String,
    pub short_hash: String,
    pub hash: String,
    pub date: String,
}

/// `major.minor.patch`.
pub open spec fn release_of(major: Seq<char>, minor: Seq<char>, patch: Seq<char>) -> Seq<char> {
    major + "."@ + minor + "."@ + patch
}

/// `text`, or nothing where `field` is empty.
pub open spec fn unless_empty(field: Seq<char>, text: Seq<char>) -> Seq<char> {
    if field.len() == 0 {
        Seq::empty()
    } else {
        text
    }
}

/// The one-line form: `name release[-channel][ (short_hash date)]`.
pub open spec fn line_of(v: Version) -> Seq<char> {
    v.name@ + " "@ + v.release@
        + unless_empty(v.channel@, "-"@ + v.channel@)
        + unless_empty(v.short_hash@, " ("@ + v.short_hash@ + " "@ + v.date@ + ")"@)
}

/// A `label: field` line, or nothing where the field is empty.
pub open spec fn labelled(label: Seq<char>, field: Seq<char>) -> Seq<char> {
    unless_empty(field, label + ": "@ + field + "\n"@)
}

/// The long form: the one-line form, then release, channel, commit hash and
/// commit date, each on a line of its own where it is known.
pub open spec fn full_of(v: Version) -> Seq<char> {
    line_of(v) + "\n"@
        + labelled("....release"@, v.release@)
        + labelled("....channel"@, v.channel@)
        + labelled("commit-hash"@, v.hash@)
        + labelled("commit-date"@, v.date@)
}

/// Appends `label: field` and a line break to `out` where `field` is not empty.
fn push_labelled(out: &mut String, label: &str, field: &String)
    ensures
        final(out)@ == old(out)@ + labelled(label@, field@),
{
    if field.as_str().unicode_len() > 0 {
        out.append(label);
        out.append(": ");
        out.append(field.as_str());
        out.append("\n");
    } else {
        assert(old(out)@ + labelled(label@, field@) =~= old(out)@);
    }
}

impl Version {
    /// The facts of a build; the release is `major.minor.patch`.
    pub fn new(
        name: &str,
        major: &str,
        minor: &str,
        patch: &str,
        pre_release: &str,
        channel: &str,
        short_hash: &str,
        hash: &str,
        date: &str,
    ) -> (r: Version)
        ensures
            r.name@ == name@,
            r.major@ == major@,
            r.minor@ == minor@,
            r.patch@ == patch@,
            r.release@ == release_of(major@, minor@, patch@),
            r.pre_release@ == pre_release@,
            r.channel@ == channel@,
            r.short_hash@ == short_hash@,
            r.hash@ == hash@,
            r.date@ == date@,
    {
        let release = String::from_str(major).concat(".").concat(minor).concat(".").concat(patch);
        Version {
            name: String::from_str(name),
            major: String::from_str(major),
            minor: String::from_str(minor),
            patch: String::from_str(patch),
            release,
            pre_release: String::from_str(pre_release),
            channel: String::from_str(channel),
            short_hash: String::from_str(short_hash),
            hash: String::from_str(hash),
            date: String::from_str(date),
        }
    }

    /// The one-line form.
    pub fn line(&self) -> (r: String)
        ensures
            r@ == line_of(*self),
    {
        let mut out = String::from_str(self.name.as_str());
        out.append(" ");
        out.append(self.release.as_str());
        if self.channel.as_str().unicode_len() > 0 {
            out.append("-");
            out.append(self.channel.as_str());
        }
        if self.short_hash.as_str().unicode_len() > 0 {
            out.append(" (");
            out.append(self.short_hash.as_str());
            out.append(" ");
            out.append(self.date.as_str());
            out.append(")");
        }
        assert(out@ =~= line_of(*self));
        out
    }

    /// The long form.
    pub fn full(&self) -> (r: String)
        ensures
            r@ == full_of(*self),
    {
        let mut out = self.line();
        out.append("\n");
        push_labelled(&mut out, "....release", &self.release);
        push_labelled(&mut out, "....channel", &self.channel);
        push_labelled(&mut out, "commit-hash", &self.hash);
        push_labelled(&mut out, "commit-date", &self.date);
        assert(out@ =~= full_of(*self));
        out
    }
}

} // verus!
