use vstd::prelude::*;

use crate::text::{decimal, decimal_value, is_digits, lemma_decimal_value, push_decimal};

verus! {

/// Major number of a Linux device number: bits 8..20.
pub open spec fn dev_major_spec(rdev: u64) -> u64 {
    (rdev >> 8u64) & 0xfff
}

/// Minor number of a Linux device number: bits 0..8, then bits 20..32 above them.
pub open spec fn dev_minor_spec(rdev: u64) -> u64 {
    (rdev & 0xff) | ((rdev >> 12u64) & 0xfff00)
}

/// The kernel's encoding of a (major, minor) pair into a device number.
pub open spec fn make_dev(major: u64, minor: u64) -> u64 {
    (minor & 0xff) | (major << 8u64) | ((minor & !0xffu64) << 12u64)
}

/// Decoding inverts the kernel's encoding for every major below 2^12 and minor below 2^20.
pub proof fn lemma_dev_roundtrip(major: u64, minor: u64)
    requires
        major < 0x1000,
        minor < 0x10_0000,
    ensures
        dev_major_spec(make_dev(major, minor)) == major,
        dev_minor_spec(make_dev(major, minor)) == minor,
{
    assert(dev_major_spec(make_dev(major, minor)) == major) by (bit_vector)
        requires
            major < 0x1000,
            minor < 0x10_0000,
    ;
    assert(dev_minor_spec(make_dev(major, minor)) == minor) by (bit_vector)
        requires
            major < 0x1000,
            minor < 0x10_0000,
    ;
}

/// The major number of the device number `rdev`.
pub fn dev_major(rdev: u64) -> (major: u64)
    ensures
        major == dev_major_spec(rdev),
{
    (rdev >> 8) & 0xfff
}

/// The minor number of the device number `rdev`.
pub fn dev_minor(rdev: u64) -> (minor: u64)
    ensures
        minor == dev_minor_spec(rdev),
{
    (rdev & 0xff) | ((rdev >> 12) & 0xfff00)
}

/// `/sys/dev/char/{major}:{minor}/subsystem`, the link that names a character device's class.
pub open spec fn subsystem_link_text(major: u64, minor: u64) -> Seq<char> {
    "/sys/dev/char/"@ + decimal(major as nat) + seq![':'] + decimal(minor as nat) + "/subsystem"@
}

/// The class link is `/sys/dev/char/`, the major number, `:`, the minor number and
/// `/subsystem`, each number written as a nonempty run of decimal digits (no leading zero
/// unless it is 0) that reads back as that number.
pub proof fn lemma_subsystem_link_fields(major: u64, minor: u64)
    ensures
        exists|maj: Seq<char>, min: Seq<char>|
            {
                &&& is_digits(maj)
                &&& is_digits(min)
                &&& decimal_value(maj) == major
                &&& decimal_value(min) == minor
                &&& (major > 0 ==> maj[0] != '0')
                &&& (minor > 0 ==> min[0] != '0')
                &&& #[trigger] subsystem_link_text(major, minor) == "/sys/dev/char/"@ + maj
                    + seq![':'] + min + "/subsystem"@
            },
{
    lemma_decimal_value(major as nat);
    lemma_decimal_value(minor as nat);
    let maj = decimal(major as nat);
    let min = decimal(minor as nat);
    assert(subsystem_link_text(major, minor) == "/sys/dev/char/"@ + maj + seq![':'] + min
        + "/subsystem"@);
}

/// The sysfs link naming the class of the character device with these numbers.
pub fn subsystem_link(major: u64, minor: u64) -> (path: String)
    ensures
        path@ == subsystem_link_text(major, minor),
{
    proof {
        reveal_strlit(":");
    }
    let mut path = String::new();
    path.append("/sys/dev/char/");
    push_decimal(&mut path, major);
    path.append(":");
    push_decimal(&mut path, minor);
    path.append("/subsystem");
    path
}

/// `path` with trailing separators and trailing `.` components removed, as path-component
/// comparison ignores them.
pub open spec fn trim_path_tail(path: Seq<char>) -> Seq<char>
    decreases path.len(),
{
    if path.len() > 0 && path.last() == '/' {
        trim_path_tail(path.drop_last())
    } else if path.len() >= 2 && path.last() == '.' && path[path.len() - 2] == '/' {
        trim_path_tail(path.drop_last())
    } else {
        path
    }
}

/// The last component of the link target is `hidraw`: the device belongs to the hidraw class.
pub open spec fn names_hidraw(target: Seq<char>) -> bool {
    let t = trim_path_tail(target);
    let name = seq!['h', 'i', 'd', 'r', 'a', 'w'];
    ||| t == name
    ||| (t.len() >= 7 && t.subrange(t.len() - 7, t.len() as int) == seq!['/'] + name)
}

/// Any link target whose last component is `hidraw` is accepted, wherever the class
/// directory lies, and with trailing separators too.
pub proof fn lemma_hidraw_targets_accepted(dir: Seq<char>)
    ensures
        names_hidraw(dir + seq!['/', 'h', 'i', 'd', 'r', 'a', 'w']),
        names_hidraw(dir + seq!['/', 'h', 'i', 'd', 'r', 'a', 'w', '/']),
        names_hidraw(seq!['h', 'i', 'd', 'r', 'a', 'w']),
{
    let t = dir + seq!['/', 'h', 'i', 'd', 'r', 'a', 'w'];
    let u = dir + seq!['/', 'h', 'i', 'd', 'r', 'a', 'w', '/'];
    let h = seq!['h', 'i', 'd', 'r', 'a', 'w'];
    assert(u.drop_last() =~= t);
    assert(u.last() == '/');
    assert(t.last() == 'w');
    assert(trim_path_tail(t) == t);
    assert(trim_path_tail(u) == trim_path_tail(t));
    assert(t.subrange(t.len() - 7, t.len() as int) =~= seq!['/'] + h);
    assert(h.last() == 'w');
    assert(trim_path_tail(h) == h);
}

/// A link target whose last component is some other name (no `/` in it, not `.`) is refused,
/// whatever directory it lies in.
pub proof fn lemma_other_targets_refused(dir: Seq<char>, name: Seq<char>)
    requires
        name.len() >= 1,
        forall|i: int| 0 <= i < name.len() ==> #[trigger] name[i] != '/',
        name != seq!['.'],
        name != seq!['h', 'i', 'd', 'r', 'a', 'w'],
    ensures
        !names_hidraw(dir + seq!['/'] + name),
{
    let t = dir + seq!['/'] + name;
    let n = t.len() as int;
    let k = name.len() as int;
    assert(t.last() == name[k - 1]);
    assert(t.last() != '/');
    if k >= 2 {
        assert(t[n - 2] == name[k - 2]);
    } else {
        assert(name =~= seq![name[0]]);
        assert(t.last() != '.');
    }
    assert(trim_path_tail(t) == t);
    let hid = seq!['h', 'i', 'd', 'r', 'a', 'w'];
    if t.len() >= 7 && t.subrange(n - 7, n) == seq!['/'] + hid {
        if k >= 7 {
            assert(t.subrange(n - 7, n)[0] == name[k - 7]);
        } else if k == 6 {
            assert(name =~= hid) by {
                assert forall|i: int| 0 <= i < 6 implies name[i] == hid[i] by {
                    assert(t.subrange(n - 7, n)[i + 1] == name[i]);
                }
            }
        } else {
            assert(t.subrange(n - 7, n)[6 - k] == t[n - 1 - k]);
            assert(t[n - 1 - k] == '/');
        }
    }
    if t == hid {
        assert(t[n - 1 - k] == '/');
    }
}

/// Whether the class link's target (read from sysfs) names the hidraw class.
pub fn link_names_hidraw(target: &str) -> (yes: bool)
    ensures
        yes == names_hidraw(target@),
{
    let ghost s = target@;
    let mut end: usize = target.unicode_len();
    assert(s.take(end as int) =~= s);
    while end > 0
        invariant
            end <= s.len(),
            s == target@,
            trim_path_tail(s) == trim_path_tail(s.take(end as int)),
        ensures
            end <= s.len(),
            trim_path_tail(s) == trim_path_tail(s.take(end as int)),
            end == 0 || (s[end - 1] != '/' && !(s[end - 1] == '.' && end >= 2 && s[end - 2]
                == '/')),
        decreases end,
    {
        let c = target.get_char(end - 1);
        if c == '/' {
            assert(s.take(end as int).drop_last() =~= s.take(end - 1));
        } else if c == '.' && end >= 2 && target.get_char(end - 2) == '/' {
            assert(s.take(end as int).drop_last() =~= s.take(end - 1));
        } else {
            break;
        }
        end = end - 1;
    }
    let ghost t = s.take(end as int);
    assert(trim_path_tail(t) == t) by {
        if end > 0 {
            assert(t.last() == s[end - 1]);
        }
        if end >= 2 {
            assert(t[t.len() - 2] == s[end - 2]);
        }
    }
    proof {
        reveal_strlit("hidraw");
    }
    let name = "hidraw";
    assert(name@.len() == 6);
    assert(name@ =~= seq!['h', 'i', 'd', 'r', 'a', 'w']);
    if end == 6 {
        let r = prefix_equals(target, 0, name);
        assert(r == (t == name@)) by {
            if t == name@ {
                assert forall|k: int| 0 <= k < 6 implies s[k] == name@[k] by {
                    assert(t[k] == s[k]);
                }
            }
            if r {
                assert(t =~= name@);
            }
        }
        return r;
    }
    if end >= 7 && target.get_char(end - 7) == '/' {
        let r = prefix_equals(target, end - 6, name);
        assert(r == (t.subrange(end - 7, end as int) == seq!['/'] + name@)) by {
            if r {
                assert(t.subrange(end - 7, end as int) =~= seq!['/'] + name@);
            }
            if t.subrange(end - 7, end as int) == seq!['/'] + name@ {
                assert forall|k: int| 0 <= k < 6 implies s[end - 6 + k] == name@[k] by {
                    assert(t.subrange(end - 7, end as int)[k + 1] == name@[k]);
                }
            }
        }
        return r;
    }
    assert(!names_hidraw(target@)) by {
        if end >= 7 {
            assert(t.subrange(end - 7, end as int)[0] == s[end - 7]);
        }
    }
    false
}

/// Whether `name` occurs in `s` at character position `at`.
fn prefix_equals(s: &str, at: usize, name: &str) -> (yes: bool)
    requires
        at + name@.len() <= s@.len(),
        at + name@.len() <= usize::MAX,
    ensures
        yes == (forall|k: int| 0 <= k < name@.len() ==> s@[at + k] == name@[k]),
        yes ==> s@.subrange(at as int, at + name@.len()) == name@,
{
    let n = name.unicode_len();
    let mut i: usize = 0;
    while i < n
        invariant
            n == name@.len(),
            at + n <= s@.len(),
            at + n <= usize::MAX,
            i <= n,
            forall|k: int| 0 <= k < i ==> s@[at + k] == name@[k],
        decreases n - i,
    {
        if s.get_char(at + i) != name.get_char(i) {
            return false;
        }
        i = i + 1;
    }
    assert(s@.subrange(at as int, at + n) =~= name@);
    true
}

} // verus!
