//! What the `rndctl` companion computes from the persisted history: the ids
//! to close, and the listing it prints.
use std::collections::HashSet;

use vstd::prelude::*;
use vstd::string::StringExecFns;

use crate::history::{entries_view, EntryView, HistoryEntry};
use crate::notification::Urgency;

verus! {

// ── Ids ───────────────────────────────────────────────────────────────────────

/// Strictly increasing.
pub open spec fn strictly_sorted(s: Seq<u32>) -> bool {
    forall|a: int, b: int| 0 <= a < b < s.len() ==> s[a] < s[b]
}

/// The ids of a list of entries, in order.
pub open spec fn ids_of(s: Seq<EntryView>) -> Seq<u32> {
    s.map_values(|e: EntryView| e.id)
}

/// Sorts the ids in ascending order with `<[u32]>::sort_unstable`.
///
/// Trusted: the standard library documents `sort_unstable` as sorting the
/// slice in ascending order, which rearranges its elements without adding,
/// dropping or changing any; that is what this contract states.
#[verifier::external_body]
fn sort_ascending(v: &mut Vec<u32>)
    ensures
        forall|a: int, b: int| 0 <= a < b < final(v)@.len() ==> final(v)@[a] <= final(v)@[b],
        final(v)@.to_multiset() == old(v)@.to_multiset(),
{
    v.sort_unstable();
}

/// The distinct ids of the persisted history, in increasing order.
pub fn read_history_ids(entries: &Vec<HistoryEntry>) -> (r: Vec<u32>)
    ensures
        strictly_sorted(r@),
        forall|x: u32| r@.contains(x) <==> ids_of(entries_view(entries@)).contains(x),
{
    broadcast use vstd::std_specs::hash::group_hash_axioms;
    broadcast use vstd::seq_lib::group_to_multiset_ensures;

    let ghost ids = ids_of(entries_view(entries@));
    let mut seen: HashSet<u32> = HashSet::new();
    let mut out: Vec<u32> = Vec::new();
    let n = entries.len();
    for i in 0..n
        invariant
            n == entries@.len(),
            ids == ids_of(entries_view(entries@)),
            out@.no_duplicates(),
            forall|x: u32| seen@.contains(x) <==> out@.contains(x),
            forall|x: u32| out@.contains(x) <==> ids.take(i as int).contains(x),
    {
        let id = entries[i].id;
        assert(ids[i as int] == id);
        let ghost before = out@;
        let ghost t0 = ids.take(i as int);
        let ghost t1 = ids.take(i + 1);
        let ghost seen_before = seen@;
        assert(forall|x: u32| before.contains(x) <==> t0.contains(x));
        assert(forall|x: u32| seen_before.contains(x) <==> before.contains(x));
        let fresh = seen.insert(id);
        assert(seen@ == seen_before.insert(id));
        assert(fresh == !seen_before.contains(id));
        if fresh {
            out.push(id);
            assert(out@ == before.push(id));
            assert forall|a: int, b: int| 0 <= a < out@.len() && 0 <= b < out@.len() && a != b implies out@[a]
                != out@[b] by {
                if a == before.len() as int {
                    assert(!before.contains(out@[b]) || out@[b] != id);
                } else if b == before.len() as int {
                    assert(before.contains(out@[a]));
                }
            }
        }
        assert forall|x: u32| seen@.contains(x) <==> out@.contains(x) by {
            if x == id {
                if !fresh {
                    assert(before.contains(id));
                } else {
                    assert(out@[before.len() as int] == id);
                }
            } else if out@.contains(x) {
                let q = choose|q: int| 0 <= q < out@.len() && out@[q] == x;
                if fresh {
                    assert(q < before.len());
                    assert(before[q] == x);
                }
            } else if seen_before.contains(x) {
                assert(before.contains(x));
                let q = choose|q: int| 0 <= q < before.len() && before[q] == x;
                assert(out@[q] == x);
            }
        }
        assert forall|x: u32| out@.contains(x) <==> t1.contains(x) by {
            if t1.contains(x) {
                let k = choose|k: int| 0 <= k < i + 1 && t1[k] == x;
                if k < i {
                    assert(t0[k] == x);
                    assert(before.contains(x));
                    let q = choose|q: int| 0 <= q < before.len() && before[q] == x;
                    assert(out@[q] == x);
                } else {
                    assert(x == id);
                    if !before.contains(id) {
                        assert(out@[before.len() as int] == x);
                    } else {
                        let q = choose|q: int| 0 <= q < before.len() && before[q] == x;
                        assert(out@[q] == x);
                    }
                }
            }
            if out@.contains(x) {
                let q = choose|q: int| 0 <= q < out@.len() && out@[q] == x;
                if q < before.len() {
                    assert(before[q] == x);
                    assert(t0.contains(x));
                    let k = choose|k: int| 0 <= k < i && t0[k] == x;
                    assert(t1[k] == x);
                } else {
                    assert(t1[i as int] == x);
                }
            }
        }
    }
    assert(ids.take(n as int) =~= ids);
    let ghost unsorted = out@;
    assert(forall|x: u32| unsorted.contains(x) <==> ids.contains(x));
    sort_ascending(&mut out);
    proof {
        unsorted.lemma_multiset_has_no_duplicates();
        assert forall|x: u32| out@.to_multiset().contains(x) implies out@.to_multiset().count(x) == 1 by {}
        out@.lemma_multiset_has_no_duplicates_conv();
        assert forall|x: u32| out@.contains(x) <==> unsorted.contains(x) by {
            vstd::seq_lib::to_multiset_contains(out@, x);
            vstd::seq_lib::to_multiset_contains(unsorted, x);
        }
        assert forall|a: int, b: int| 0 <= a < b < out@.len() implies out@[a] < out@[b] by {
            assert(out@[a] != out@[b]);
        }
    }
    out
}

// ── Listing ───────────────────────────────────────────────────────────────────

/// The character of a decimal digit.
pub open spec fn digit_char(d: nat) -> char {
    if d == 0 {
        '0'
    } else if d == 1 {
        '1'
    } else if d == 2 {
        '2'
    } else if d == 3 {
        '3'
    } else if d == 4 {
        '4'
    } else if d == 5 {
        '5'
    } else if d == 6 {
        '6'
    } else if d == 7 {
        '7'
    } else if d == 8 {
        '8'
    } else {
        '9'
    }
}

/// The decimal representation of `n`, without leading zeros.
pub open spec fn spec_decimal(n: nat) -> Seq<char>
    decreases n,
{
    if n < 10 {
        seq![digit_char(n)]
    } else {
        spec_decimal(n / 10) + seq![digit_char(n % 10)]
    }
}

/// Whether `c` is one of the ten decimal digits.
pub open spec fn is_decimal_digit(c: char) -> bool {
    c == '0' || c == '1' || c == '2' || c == '3' || c == '4' || c == '5' || c == '6' || c == '7'
        || c == '8' || c == '9'
}

/// The number that a decimal digit stands for.
pub open spec fn digit_value(c: char) -> int {
    if c == '1' {
        1
    } else if c == '2' {
        2
    } else if c == '3' {
        3
    } else if c == '4' {
        4
    } else if c == '5' {
        5
    } else if c == '6' {
        6
    } else if c == '7' {
        7
    } else if c == '8' {
        8
    } else if c == '9' {
        9
    } else {
        0
    }
}

/// The number that a string of decimal digits reads as, most significant
/// digit first.
pub open spec fn read_decimal(s: Seq<char>) -> int
    decreases s.len(),
{
    if s.len() == 0 {
        0
    } else {
        10 * read_decimal(s.drop_last()) + digit_value(s.last())
    }
}

/// Decimal text reads back as the number it was written from: it is a
/// non-empty string of digits, with no leading zero, whose value is `n`.
pub proof fn lemma_decimal_reads_back(n: nat)
    ensures
        spec_decimal(n).len() >= 1,
        forall|i: int| 0 <= i < spec_decimal(n).len() ==> is_decimal_digit(#[trigger] spec_decimal(n)[i]),
        read_decimal(spec_decimal(n)) == n,
        n > 0 ==> spec_decimal(n)[0] != '0',
    decreases n,
{
    if n < 10 {
        assert(seq![digit_char(n)].drop_last() =~= Seq::<char>::empty());
        assert(digit_value(digit_char(n)) == n);
        assert(read_decimal(Seq::<char>::empty()) == 0);
    } else {
        let high = spec_decimal(n / 10);
        let d = digit_char(n % 10);
        lemma_decimal_reads_back(n / 10);
        let s = high + seq![d];
        assert(s.drop_last() =~= high);
        assert(s.last() == d);
        assert(digit_value(d) == n % 10);
        assert(10 * (n / 10) + n % 10 == n);
        assert(read_decimal(s) == 10 * read_decimal(high) + digit_value(d));
        assert(s[0] == high[0]);
        assert forall|i: int| 0 <= i < s.len() implies is_decimal_digit(#[trigger] s[i]) by {
            if i < high.len() {
                assert(s[i] == high[i]);
            }
        }
    }
}

/// A one-character string holding digit `d`.
fn digit_str(d: u32) -> (r: &'static str)
    requires
        d < 10,
    ensures
        r@ == seq![digit_char(d as nat)],
{
    proof {
        reveal_strlit("0");
        reveal_strlit("1");
        reveal_strlit("2");
        reveal_strlit("3");
        reveal_strlit("4");
        reveal_strlit("5");
        reveal_strlit("6");
        reveal_strlit("7");
        reveal_strlit("8");
        reveal_strlit("9");
    }
    let r = if d == 0 {
        "0"
    } else if d == 1 {
        "1"
    } else if d == 2 {
        "2"
    } else if d == 3 {
        "3"
    } else if d == 4 {
        "4"
    } else if d == 5 {
        "5"
    } else if d == 6 {
        "6"
    } else if d == 7 {
        "7"
    } else if d == 8 {
        "8"
    } else {
        "9"
    };
    assert(r@ =~= seq![digit_char(d as nat)]);
    r
}

/// `n` written in decimal.
pub fn decimal(n: u32) -> (r: String)
    ensures
        r@ == spec_decimal(n as nat),
        read_decimal(r@) == n,
        n > 0 ==> r@[0] != '0',
    decreases n,
{
    proof {
        lemma_decimal_reads_back(n as nat);
    }
    if n < 10 {
        String::from_str(digit_str(n))
    } else {
        let mut s = decimal(n / 10);
        s.append(digit_str(n % 10));
        s
    }
}

/// The name under which the history file stores an urgency.
pub open spec fn urgency_label(u: Urgency) -> Seq<char> {
    match u {
        Urgency::Low => "Low"@,
        Urgency::Normal => "Normal"@,
        Urgency::Critical => "Critical"@,
    }
}

/// The name under which the history file stores an urgency.
pub fn urgency_name(u: Urgency) -> (r: &'static str)
    ensures
        r@ == urgency_label(u),
{
    match u {
        Urgency::Low => "Low",
        Urgency::Normal => "Normal",
        Urgency::Critical => "Critical",
    }
}

/// The line that lists an entry: `[id] urgency | app | summary`.
pub open spec fn entry_line(e: EntryView) -> Seq<char> {
    "["@ + spec_decimal(e.id as nat) + "] "@ + urgency_label(e.urgency) + " | "@ + e.app_name + " | "@ + e.summary
}

/// The lines printed for an entry: its line, then its body indented when
/// the body is not empty.
pub open spec fn entry_lines(e: EntryView) -> Seq<Seq<char>> {
    if e.body.len() > 0 {
        seq![entry_line(e), "    "@ + e.body]
    } else {
        seq![entry_line(e)]
    }
}

/// The lines printed for a list of entries, in order.
pub open spec fn listing(s: Seq<EntryView>) -> Seq<Seq<char>>
    decreases s.len(),
{
    if s.len() == 0 {
        Seq::empty()
    } else {
        listing(s.drop_last()) + entry_lines(s.last())
    }
}

/// What `rndctl history` prints: a notice when the history is empty, else
/// the first `limit` entries (all of them when no limit is given).
pub open spec fn spec_history_lines(s: Seq<EntryView>, limit: Option<usize>) -> Seq<Seq<char>> {
    if s.len() == 0 {
        seq!["No history entries found."@]
    } else {
        let n: int = match limit {
            Some(l) => if l < s.len() { l as int } else { s.len() as int },
            None => s.len() as int,
        };
        listing(s.take(n))
    }
}

/// The listing of two runs of entries is the listing of the first run
/// followed by that of the second.
pub proof fn lemma_listing_concat(a: Seq<EntryView>, b: Seq<EntryView>)
    ensures
        listing(a + b) == listing(a) + listing(b),
    decreases b.len(),
{
    if b.len() == 0 {
        assert(a + b =~= a);
        assert(listing(a) + listing(b) =~= listing(a));
    } else {
        lemma_listing_concat(a, b.drop_last());
        assert((a + b).drop_last() =~= a + b.drop_last());
        assert((a + b).last() == b.last());
        assert(listing(a + b) =~= listing(a) + listing(b.drop_last()) + entry_lines(b.last()));
    }
}

/// The listing opens with the line of the newest entry, and has one line per
/// entry plus one per entry with a body.
pub proof fn lemma_listing_lines(s: Seq<EntryView>)
    ensures
        s.len() > 0 ==> listing(s)[0] == entry_line(s[0]),
        listing(s).len() == s.len() + s.filter(|e: EntryView| e.body.len() > 0).len(),
    decreases s.len(),
{
    reveal_with_fuel(Seq::<_>::filter, 1);
    if s.len() > 0 {
        lemma_listing_lines(s.drop_last());
        if s.len() == 1 {
            assert(s.drop_last() =~= Seq::<EntryView>::empty());
            assert(listing(s) =~= entry_lines(s[0]));
        } else {
            assert(s.drop_last()[0] == s[0]);
        }
    }
}

/// A limit only cuts the listing short: `rndctl history` with a limit prints
/// the first lines of what it prints without one, namely those of the first
/// `limit` entries, newest first; a limit no smaller than the history
/// changes nothing.
pub proof fn lemma_history_limit(s: Seq<EntryView>, limit: usize)
    requires
        s.len() > 0,
    ensures
        spec_history_lines(s, None) == listing(s),
        limit >= s.len() ==> spec_history_lines(s, Some(limit)) == spec_history_lines(s, None),
        limit < s.len() ==> spec_history_lines(s, None)
            == spec_history_lines(s, Some(limit)) + listing(s.skip(limit as int)),
        limit < s.len() ==> spec_history_lines(s, Some(limit)) == listing(s.take(limit as int)),
{
    assert(s.take(s.len() as int) =~= s);
    if limit < s.len() {
        lemma_listing_concat(s.take(limit as int), s.skip(limit as int));
        assert(s.take(limit as int) + s.skip(limit as int) =~= s);
    }
}

/// The strings of a list, by their characters.
pub open spec fn lines_view(v: Seq<String>) -> Seq<Seq<char>> {
    v.map_values(|s: String| s@)
}

/// The listing line of an entry.
fn format_entry_line(e: &HistoryEntry) -> (r: String)
    ensures
        r@ == entry_line(e@),
{
    let mut s = String::from_str("[");
    let id = decimal(e.id);
    s.append(id.as_str());
    s.append("] ");
    s.append(urgency_name(e.urgency));
    s.append(" | ");
    s.append(e.app_name.as_str());
    s.append(" | ");
    s.append(e.summary.as_str());
    s
}

/// The lines that `rndctl history` prints for the persisted entries.
pub fn history_lines(entries: &Vec<HistoryEntry>, limit: Option<usize>) -> (r: Vec<String>)
    ensures
        lines_view(r@) == spec_history_lines(entries_view(entries@), limit),
{
    let ghost s = entries_view(entries@);
    let mut out: Vec<String> = Vec::new();
    let len = entries.len();
    if len == 0 {
        out.push(String::from_str("No history entries found."));
        assert(lines_view(out@) =~= seq!["No history entries found."@]);
        return out;
    }
    let n = match limit {
        Some(l) => if l < len { l } else { len },
        None => len,
    };
    for i in 0..n
        invariant
            n <= len,
            len == entries@.len(),
            s == entries_view(entries@),
            lines_view(out@) =~= listing(s.take(i as int)),
    {
        let e = &entries[i];
        let ghost before = out@;
        out.push(format_entry_line(e));
        if !e.body.as_str().is_empty() {
            let mut b = String::from_str("    ");
            b.append(e.body.as_str());
            out.push(b);
        }
        assert(s.take(i + 1).drop_last() =~= s.take(i as int));
        assert(s.take(i + 1).last() == e@);
        assert(lines_view(out@) =~= lines_view(before) + entry_lines(e@));
    }
    out
}

// ── Daemon information ────────────────────────────────────────────────────────

/// What `rndctl capabilities` prints for the reported capabilities.
pub open spec fn spec_capability_lines(caps: Seq<Seq<char>>) -> Seq<Seq<char>> {
    if caps.len() == 0 {
        seq!["No capabilities reported."@]
    } else {
        seq!["Capabilities:"@] + caps.map_values(|c: Seq<char>| "  - "@ + c)
    }
}

/// The lines that `rndctl capabilities` prints.
pub fn capability_lines(caps: &Vec<String>) -> (r: Vec<String>)
    ensures
        lines_view(r@) == spec_capability_lines(lines_view(caps@)),
{
    let ghost cv = lines_view(caps@);
    let mut out: Vec<String> = Vec::new();
    if caps.len() == 0 {
        out.push(String::from_str("No capabilities reported."));
        assert(lines_view(out@) =~= spec_capability_lines(cv));
        return out;
    }
    out.push(String::from_str("Capabilities:"));
    let n = caps.len();
    for i in 0..n
        invariant
            n == caps@.len(),
            cv == lines_view(caps@),
            lines_view(out@) =~= seq!["Capabilities:"@] + cv.take(i as int).map_values(|c: Seq<char>| "  - "@ + c),
    {
        let mut line = String::from_str("  - ");
        line.append(caps[i].as_str());
        let ghost before = out@;
        out.push(line);
        assert(lines_view(out@) =~= lines_view(before).push(line@));
        assert(cv.take(i + 1).map_values(|c: Seq<char>| "  - "@ + c) =~= cv.take(i as int).map_values(
            |c: Seq<char>| "  - "@ + c,
        ).push("  - "@ + cv[i as int]));
    }
    assert(cv.take(n as int) =~= cv);
    out
}

/// The lines that `rndctl info` prints for the server information.
pub fn server_info_lines(name: &str, vendor: &str, version: &str, spec_version: &str) -> (r: Vec<String>)
    ensures
        lines_view(r@) == seq![
            "Name: "@ + name@,
            "Vendor: "@ + vendor@,
            "Version: "@ + version@,
            "Spec Version: "@ + spec_version@,
        ],
{
    let mut a = String::from_str("Name: ");
    a.append(name);
    let mut b = String::from_str("Vendor: ");
    b.append(vendor);
    let mut c = String::from_str("Version: ");
    c.append(version);
    let mut d = String::from_str("Spec Version: ");
    d.append(spec_version);
    let out = vec![a, b, c, d];
    assert(lines_view(out@) =~= seq![
        "Name: "@ + name@,
        "Vendor: "@ + vendor@,
        "Version: "@ + version@,
        "Spec Version: "@ + spec_version@,
    ]);
    out
}

} // verus!
