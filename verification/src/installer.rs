//! What installing and uninstalling write and remove. The file operations
//! and the `systemctl` calls are the caller's.
use vstd::prelude::*;
use vstd::string::StringExecFns;

use crate::text::chars_of;

verus! {

/// `s` with every occurrence of `p` replaced by `v`, scanning left to right
/// without overlaps (`p` is not empty).
pub open spec fn replace_all(s: Seq<char>, p: Seq<char>, v: Seq<char>) -> Seq<char>
    decreases s.len(),
{
    if p.len() == 0 || s.len() < p.len() {
        s
    } else if s.take(p.len() as int) == p {
        v + replace_all(s.skip(p.len() as int), p, v)
    } else {
        seq![s[0]] + replace_all(s.drop_first(), p, v)
    }
}

/// Whether `p` occurs in `s` at `i`.
fn matches_at(s: &Vec<char>, p: &Vec<char>, i: usize) -> (r: bool)
    requires
        i <= s@.len(),
    ensures
        r == (i + p@.len() <= s@.len() && s@.skip(i as int).take(p@.len() as int) == p@),
{
    let m = p.len();
    let sl = s.len();
    if m > sl - i {
        return false;
    }
    for j in 0..m
        invariant
            m == p@.len(),
            sl == s@.len(),
            i + m <= s@.len(),
            forall|k: int| 0 <= k < j ==> s@[i + k] == p@[k],
    {
        if s[i + j] != p[j] {
            assert(s@.skip(i as int).take(m as int)[j as int] != p@[j as int]);
            return false;
        }
    }
    assert(s@.skip(i as int).take(m as int) =~= p@);
    true
}

/// `template` with every occurrence of the non-empty `placeholder` replaced
/// by `value`.
fn fill(template: &str, placeholder: &str, value: &str) -> (r: String)
    requires
        placeholder@.len() > 0,
    ensures
        r@ == replace_all(template@, placeholder@, value@),
{
    let sv = chars_of(template);
    let pv = chars_of(placeholder);
    let n = sv.len();
    let m = pv.len();
    let ghost s = template@;
    let ghost p = placeholder@;
    let mut out = String::new();
    let mut i: usize = 0;
    assert(s.skip(0) =~= s);
    while i < n
        invariant
            n == s.len(),
            m == p.len(),
            m > 0,
            sv@ == s,
            pv@ == p,
            s == template@,
            p == placeholder@,
            i <= n,
            out@ + replace_all(s.skip(i as int), p, value@) == replace_all(s, p, value@),
        decreases n - i,
    {
        let ghost rest = s.skip(i as int);
        if matches_at(&sv, &pv, i) {
            assert(rest.skip(m as int) =~= s.skip(i + m));
            let ghost before = out@;
            out.append(value);
            assert(out@ + replace_all(s.skip(i + m), p, value@) =~= before + replace_all(rest, p, value@));
            i = i + m;
        } else {
            assert(rest.drop_first() =~= s.skip(i + 1));
            let one = template.substring_char(i, i + 1);
            assert(one@ =~= seq![rest[0]]);
            let ghost before = out@;
            out.append(one);
            assert(out@ + replace_all(s.skip(i + 1), p, value@) =~= before + replace_all(rest, p, value@));
            i = i + 1;
        }
    }
    assert(s.skip(n as int) =~= Seq::<char>::empty());
    assert(out@ =~= out@ + replace_all(s.skip(n as int), p, value@));
    out
}

/// Where the service template names the binary.
pub open spec fn service_placeholder() -> Seq<char> {
    "%h/.cargo/bin/rnd"@
}

/// Where the bus activation template names the binary.
pub open spec fn activation_placeholder() -> Seq<char> {
    "@@RND_BIN@@"@
}

/// The systemd user unit, from its template, for the binary at `bin_path`.
pub fn service_unit(template: &str, bin_path: &str) -> (r: String)
    ensures
        r@ == replace_all(template@, service_placeholder(), bin_path@),
{
    proof {
        reveal_strlit("%h/.cargo/bin/rnd");
    }
    fill(template, "%h/.cargo/bin/rnd", bin_path)
}

/// The bus activation file, from its template, for the binary at `bin_path`.
pub fn activation_file(template: &str, bin_path: &str) -> (r: String)
    ensures
        r@ == replace_all(template@, activation_placeholder(), bin_path@),
{
    proof {
        reveal_strlit("@@RND_BIN@@");
    }
    fill(template, "@@RND_BIN@@", bin_path)
}

/// The files that installing writes, relative to the home directory: the
/// daemon, the companion, the bus activation file and the user unit.
pub open spec fn spec_installed_files() -> Seq<Seq<char>> {
    seq![
        ".local/bin/rnd"@,
        ".local/bin/rndctl"@,
        ".local/share/dbus-1/services/org.freedesktop.Notifications.service"@,
        ".config/systemd/user/rnd.service"@,
    ]
}

/// The files that uninstalling removes, relative to the home directory.
pub fn installed_files() -> (r: Vec<&'static str>)
    ensures
        r@.map_values(|s: &str| s@) == spec_installed_files(),
{
    let r = vec![
        ".local/bin/rnd",
        ".local/bin/rndctl",
        ".local/share/dbus-1/services/org.freedesktop.Notifications.service",
        ".config/systemd/user/rnd.service",
    ];
    assert(r@.map_values(|s: &str| s@) =~= spec_installed_files());
    r
}

/// The notification daemons that installing stops and masks when active.
pub fn competing_daemons() -> (r: Vec<&'static str>)
    ensures
        r@.map_values(|s: &str| s@) == seq!["dunst"@, "mako"@],
{
    let r = vec!["dunst", "mako"];
    assert(r@.map_values(|s: &str| s@) =~= seq!["dunst"@, "mako"@]);
    r
}

} // verus!
