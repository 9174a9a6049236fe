//! Small helpers of the surrounding tool that are plain data and plain
//! arithmetic.

use vstd::prelude::*;

use crate::chars::push_char;

verus! {

/// Whether the decimal rendering of the number ends in the digit one.
pub fn ends_with_one(value: usize) -> (r: bool)
    ensures
        r == (value as int % 10 == 1),
{
    value % 10 == 1
}

/// One of the three spatial axes.
#[derive(Debug, Clone, Copy, PartialEq, Eq, Structural)]
pub enum Axis3d {
    X,
    Y,
    Z,
}

/// A camera's model name and serial number as the container reports them.
#[derive(Debug, Clone)]
pub struct CameraInfo {
    /// Model name.
    pub model: String,
    /// Serial number, where the container carries one.
    pub serial: Option<String>,
}

/// The string with every occurrence of `from` replaced by `to`, scanning
/// left to right; an empty pattern matches nowhere.
pub open spec fn spec_replace(s: Seq<char>, from: Seq<char>, to: Seq<char>) -> Seq<char>
    decreases s.len(),
{
    if from.len() == 0 || s.len() < from.len() {
        s
    } else if s.take(from.len() as int) == from {
        to + spec_replace(s.skip(from.len() as int), from, to)
    } else {
        seq![s[0]] + spec_replace(s.skip(1), from, to)
    }
}

/// Whether the pattern stands at position `i` of the string.
fn matches_at(s: &str, i: usize, from: &str) -> (r: bool)
    requires
        i + from@.len() <= s@.len(),
    ensures
        r == (s@.skip(i as int).take(from@.len() as int) == from@),
{
    let sn = s.unicode_len();
    let fl = from.unicode_len();
    let mut j: usize = 0;
    while j < fl
        invariant
            sn == s@.len(),
            fl == from@.len(),
            i + fl <= s@.len(),
            j <= fl,
            forall|k: int| 0 <= k < j ==> s@[i + k] == from@[k],
        decreases fl - j,
    {
        if s.get_char(i + j) != from.get_char(j) {
            proof {
                assert(s@.skip(i as int).take(fl as int)[j as int] == s@[i + j]);
            }
            return false;
        }
        j = j + 1;
    }
    proof {
        assert(s@.skip(i as int).take(fl as int) =~= from@);
    }
    true
}

/// The string with every occurrence of `from` replaced by `to`.
pub fn replace_all(s: &str, from: &str, to: &str) -> (r: String)
    ensures
        r@ == spec_replace(s@, from@, to@),
{
    let n = s.unicode_len();
    let fl = from.unicode_len();
    if fl == 0 {
        return s.to_owned();
    }
    let mut out = String::new();
    let mut i: usize = 0;
    proof {
        assert(s@.skip(0) =~= s@);
    }
    while i < n
        invariant
            n == s@.len(),
            fl == from@.len(),
            fl >= 1,
            i <= n,
            out@ + spec_replace(s@.skip(i as int), from@, to@) == spec_replace(s@, from@, to@),
        decreases n - i,
    {
        let ghost rest = s@.skip(i as int);
        let ghost pre = out@;
        if fl <= n - i && matches_at(s, i, from) {
            proof {
                assert(rest.take(fl as int) == from@);
                assert(rest.skip(fl as int) =~= s@.skip(i as int + fl as int));
                assert(spec_replace(rest, from@, to@) == to@ + spec_replace(
                    s@.skip(i as int + fl as int),
                    from@,
                    to@,
                ));
            }
            out.append(to);
            proof {
                assert(out@ + spec_replace(s@.skip(i as int + fl as int), from@, to@) =~= pre
                    + spec_replace(rest, from@, to@));
            }
            i = i + fl;
        } else {
            let c = s.get_char(i);
            proof {
                assert(rest[0] == s@[i as int]);
                assert(rest.skip(1) =~= s@.skip(i as int + 1));
                if fl <= n - i {
                    assert(rest.take(fl as int) != from@);
                } else {
                    assert(rest.len() < fl);
                    assert(rest =~= seq![rest[0]] + rest.skip(1));
                    assert(rest.skip(1).len() < fl);
                }
                assert(spec_replace(rest, from@, to@) =~= seq![s@[i as int]] + spec_replace(
                    s@.skip(i as int + 1),
                    from@,
                    to@,
                ));
            }
            push_char(&mut out, c);
            proof {
                assert(out@ + spec_replace(s@.skip(i as int + 1), from@, to@) =~= pre
                    + spec_replace(rest, from@, to@));
            }
            i = i + 1;
        }
    }
    proof {
        assert(s@.skip(n as int).len() == 0);
        assert(out@ =~= spec_replace(s@, from@, to@));
    }
    out
}

/// A device display name shortened to a file-name-friendly form: the
/// capital product prefix and the colour suffix drop away and the spaces
/// become underscores.
pub fn format_camera_name(device_name: &str) -> (r: String)
    ensures
        r@ == spec_replace(
            spec_replace(spec_replace(device_name@, " HERO"@, "_"@), " Black"@, ""@),
            " "@,
            "_"@,
        ),
{
    let step1 = replace_all(device_name, " HERO", "_");
    let step2 = replace_all(step1.as_str(), " Black", "");
    replace_all(step2.as_str(), " ", "_")
}

} // verus!
