//! The per-device transfer-statistics decoder.
//!
//! A device reports its transfers as text: a `read:` line, one
//! `name : value` line per data type, then the same under `write:`.  The
//! decoder folds those lines into one entry per data type, carrying both
//! directions, drops the all-zero ones, and labels each with the device it
//! came from.

use crate::devices::{
    lemma_dec_val_prefix, spec_all_digits, spec_dec_val, spec_digit_val,
};
use vstd::prelude::*;

verus! {

/// Transfer totals of one data type on one device.
#[derive(Debug, PartialEq, Eq)]
pub struct DevIoEntry {
    /// The device and the data type, as `device/type`.
    pub label: String,
    pub read_bytes: u64,
    pub write_bytes: u64,
}

/// The mathematical value of a labeled entry.
pub struct DevIoEntryView {
    pub label: Seq<char>,
    pub read_bytes: u64,
    pub write_bytes: u64,
}

impl View for DevIoEntry {
    type V = DevIoEntryView;

    open spec fn view(&self) -> DevIoEntryView {
        DevIoEntryView {
            label: self.label@,
            read_bytes: self.read_bytes,
            write_bytes: self.write_bytes,
        }
    }
}

/// The values of a sequence of labeled entries.
pub open spec fn io_entries_view(s: Seq<DevIoEntry>) -> Seq<DevIoEntryView> {
    s.map_values(|e: DevIoEntry| e@)
}

/// One data type's totals while the fold is running, before labeling.
#[derive(Debug)]
struct NamedIo {
    name: String,
    read_bytes: u64,
    write_bytes: u64,
}

/// The mathematical value of an unlabeled entry.
pub struct NamedIoView {
    pub name: Seq<char>,
    pub read_bytes: u64,
    pub write_bytes: u64,
}

impl View for NamedIo {
    type V = NamedIoView;

    closed spec fn view(&self) -> NamedIoView {
        NamedIoView {
            name: self.name@,
            read_bytes: self.read_bytes,
            write_bytes: self.write_bytes,
        }
    }
}

spec fn named_view(s: Seq<NamedIo>) -> Seq<NamedIoView> {
    s.map_values(|e: NamedIo| e@)
}

/// The whitespace a line's edges may carry.
pub open spec fn spec_is_space(c: char) -> bool {
    c == ' ' || c == '\t' || c == '\r'
}

/// The text without its leading whitespace.
pub open spec fn spec_trim_start(s: Seq<char>) -> Seq<char>
    decreases s.len(),
{
    if s.len() == 0 {
        s
    } else if spec_is_space(s[0]) {
        spec_trim_start(s.drop_first())
    } else {
        s
    }
}

/// The text without its trailing whitespace.
pub open spec fn spec_trim_end(s: Seq<char>) -> Seq<char>
    decreases s.len(),
{
    if s.len() == 0 {
        s
    } else if spec_is_space(s.last()) {
        spec_trim_end(s.drop_last())
    } else {
        s
    }
}

/// The text without whitespace at either edge.
pub open spec fn spec_trim(s: Seq<char>) -> Seq<char> {
    spec_trim_end(spec_trim_start(s))
}

fn is_space(c: char) -> (r: bool)
    ensures
        r == spec_is_space(c),
{
    c == ' ' || c == '\t' || c == '\r'
}

/// Copy the text without whitespace at either edge.
pub fn trim_string(s: &String) -> (r: String)
    ensures
        r@ == spec_trim(s@),
{
    let n = s.as_str().unicode_len();
    let mut a: usize = 0;
    proof {
        assert(s@.skip(0) =~= s@);
    }
    while a < n && is_space(s.as_str().get_char(a))
        invariant
            a <= n,
            n == s@.len(),
            spec_trim_start(s@) == spec_trim_start(s@.skip(a as int)),
        decreases n - a,
    {
        proof {
            let tail = s@.skip(a as int);
            assert(tail[0] == s@[a as int]);
            assert(tail.drop_first() =~= s@.skip(a + 1));
        }
        a = a + 1;
    }
    proof {
        if a < n {
            assert(s@.skip(a as int)[0] == s@[a as int]);
        }
        assert(spec_trim_start(s@) == s@.skip(a as int));
    }
    let mut b: usize = n;
    proof {
        assert(s@.subrange(a as int, b as int) =~= s@.skip(a as int));
    }
    while b > a && is_space(s.as_str().get_char(b - 1))
        invariant
            a <= b <= n,
            n == s@.len(),
            spec_trim_end(s@.skip(a as int)) == spec_trim_end(s@.subrange(a as int, b as int)),
        decreases b,
    {
        proof {
            let part = s@.subrange(a as int, b as int);
            assert(part.last() == s@[b - 1]);
            assert(part.drop_last() =~= s@.subrange(a as int, b - 1));
        }
        b = b - 1;
    }
    proof {
        let part = s@.subrange(a as int, b as int);
        if b > a {
            assert(part.last() == s@[b - 1]);
        }
        assert(spec_trim_end(s@.skip(a as int)) == part);
    }
    s.as_str().substring_char(a, b).to_owned()
}

/// How many characters precede the first occurrence of `c`, or all of them
/// without one.
pub open spec fn spec_scan_len(s: Seq<char>, c: char) -> nat
    decreases s.len(),
{
    if s.len() == 0 {
        0
    } else if s[0] == c {
        0
    } else {
        1 + spec_scan_len(s.drop_first(), c)
    }
}

/// Find how far the first occurrence of `c` sits into `s`, or the whole
/// length without one.
pub fn scan_to_char(s: &String, c: char) -> (r: usize)
    ensures
        r == spec_scan_len(s@, c),
        r <= s@.len(),
{
    let n = s.as_str().unicode_len();
    let mut i: usize = 0;
    proof {
        assert(s@.skip(0) =~= s@);
    }
    while i < n && s.as_str().get_char(i) != c
        invariant
            i <= n,
            n == s@.len(),
            spec_scan_len(s@, c) == i + spec_scan_len(s@.skip(i as int), c),
        decreases n - i,
    {
        proof {
            let tail = s@.skip(i as int);
            assert(tail[0] == s@[i as int]);
            assert(tail.drop_first() =~= s@.skip(i + 1));
        }
        i = i + 1;
    }
    proof {
        if i < n {
            assert(s@.skip(i as int)[0] == s@[i as int]);
        }
        assert(spec_scan_len(s@, c) == i);
    }
    i
}

/// The lines of a text: pieces between newline characters, with no empty
/// piece after a trailing newline.
pub open spec fn spec_lines(s: Seq<char>) -> Seq<Seq<char>>
    decreases s.len(),
{
    if s.len() == 0 {
        Seq::empty()
    } else {
        let n = spec_scan_len(s, '\n');
        if n >= s.len() {
            seq![s]
        } else {
            seq![s.take(n as int)] + spec_lines(s.skip(n as int + 1))
        }
    }
}

/// The values of a sequence of line strings.
pub open spec fn lines_view(s: Seq<String>) -> Seq<Seq<char>> {
    s.map_values(|x: String| x@)
}

/// Split a text into its lines.
pub fn split_lines(text: &String) -> (r: Vec<String>)
    ensures
        lines_view(r@) == spec_lines(text@),
{
    let n = text.as_str().unicode_len();
    let mut out: Vec<String> = Vec::new();
    let mut start: usize = 0;
    proof {
        assert(text@.skip(0) =~= text@);
        assert(lines_view(out@) =~= Seq::<Seq<char>>::empty());
        assert(lines_view(out@) + spec_lines(text@) =~= spec_lines(text@));
    }
    while start < n
        invariant
            start <= n,
            n == text@.len(),
            spec_lines(text@) == lines_view(out@) + spec_lines(text@.skip(start as int)),
        decreases n - start,
    {
        let ghost tail = text@.skip(start as int);
        let ghost pre = lines_view(out@);
        let rest = text.as_str().substring_char(start, n).to_owned();
        assert(rest@ =~= tail);
        let k = scan_to_char(&rest, '\n');
        let line = text.as_str().substring_char(start, start + k).to_owned();
        proof {
            assert(line@ =~= tail.take(k as int));
        }
        out.push(line);
        proof {
            let first = tail.take(spec_scan_len(tail, '\n') as int);
            assert(lines_view(out@) =~= pre.push(out@.last()@));
            if k == tail.len() {
                assert(tail.take(k as int) =~= tail);
                assert(spec_lines(tail) == seq![tail]);
                assert(pre.push(tail) =~= pre + seq![tail]);
                assert(text@.skip(n as int).len() == 0);
                assert(pre + seq![tail] + spec_lines(text@.skip(n as int)) =~= pre + seq![tail]);
            } else {
                assert(spec_lines(tail) == seq![first] + spec_lines(tail.skip(k + 1)));
                assert(tail.skip(k + 1) =~= text@.skip(start + k + 1));
                assert(pre.push(first) =~= pre + seq![first]);
                assert(pre + (seq![first] + spec_lines(text@.skip(start + k + 1))) =~= (pre
                    + seq![first]) + spec_lines(text@.skip(start + k + 1)));
            }
        }
        if k == n - start {
            start = n;
        } else {
            start = start + k + 1;
        }
    }
    proof {
        assert(text@.skip(n as int).len() == 0);
        assert(lines_view(out@) + Seq::<Seq<char>>::empty() =~= lines_view(out@));
    }
    out
}

/// The number a string of decimal digits stands for; `None` is an empty
/// string, a stray character, or a value beyond 64 bits.
pub open spec fn spec_parse_u64(s: Seq<char>) -> Option<u64> {
    if s.len() == 0 || !spec_all_digits(s) {
        None
    } else if spec_dec_val(s) > u64::MAX {
        None
    } else {
        Some(spec_dec_val(s) as u64)
    }
}

/// Parse a string of decimal digits.
pub fn parse_u64_digits(s: &String) -> (r: Option<u64>)
    ensures
        r == spec_parse_u64(s@),
{
    let n = s.as_str().unicode_len();
    if n == 0 {
        return None;
    }
    let mut value: u64 = 0;
    let mut i: usize = 0;
    proof {
        assert(s@.take(0) =~= Seq::<char>::empty());
    }
    while i < n
        invariant
            i <= n,
            n == s@.len(),
            value == spec_dec_val(s@.take(i as int)),
            spec_all_digits(s@.take(i as int)),
        decreases n - i,
    {
        let c = s.as_str().get_char(i);
        if c < '0' || c > '9' {
            proof {
                assert(s@[i as int] == c);
            }
            return None;
        }
        let d = (c as u32 - 48) as u64;
        let next = match value.checked_mul(10) {
            Some(v10) => v10.checked_add(d),
            None => None,
        };
        match next {
            Some(v) => {
                value = v;
                proof {
                    assert(s@.take(i + 1).drop_last() =~= s@.take(i as int));
                    assert(s@.take(i + 1).last() == s@[i as int]);
                    assert(forall|k: int|
                        0 <= k < i + 1 ==> '0' <= #[trigger] s@.take(i + 1)[k] <= '9');
                }
            },
            None => {
                proof {
                    lemma_dec_val_prefix(s@, i + 1);
                    assert(s@.take(i + 1).drop_last() =~= s@.take(i as int));
                    assert(s@.take(i + 1).last() == s@[i as int]);
                    assert(spec_dec_val(s@.take(i + 1)) == value * 10 + d);
                }
                return None;
            },
        }
        i = i + 1;
    }
    proof {
        assert(s@.take(n as int) =~= s@);
    }
    Some(value)
}

/// The position of the first unlabeled entry with this name.
pub open spec fn spec_find_name(acc: Seq<NamedIoView>, name: Seq<char>) -> Option<nat>
    decreases acc.len(),
{
    if acc.len() == 0 {
        None
    } else if acc[0].name == name {
        Some(0)
    } else {
        match spec_find_name(acc.drop_first(), name) {
            Some(k) => Some(k + 1),
            None => None,
        }
    }
}

/// An entry that matches first really is the find's answer.
proof fn lemma_find_name_at(acc: Seq<NamedIoView>, name: Seq<char>, i: int)
    requires
        0 <= i < acc.len(),
        acc[i].name == name,
        forall|k: int| 0 <= k < i ==> acc[k].name != name,
    ensures
        spec_find_name(acc, name) == Some(i as nat),
    decreases i,
{
    if i > 0 {
        lemma_find_name_at(acc.drop_first(), name, i - 1);
    }
}

/// With no matching entry, the find comes up empty.
proof fn lemma_find_name_none(acc: Seq<NamedIoView>, name: Seq<char>)
    requires
        forall|k: int| 0 <= k < acc.len() ==> acc[k].name != name,
    ensures
        spec_find_name(acc, name) is None,
    decreases acc.len(),
{
    if acc.len() > 0 {
        lemma_find_name_none(acc.drop_first(), name);
    }
}

/// Find the first unlabeled entry with this name.
fn find_io_entry(acc: &Vec<NamedIo>, name: &String) -> (r: Option<usize>)
    ensures
        match r {
            Some(i) => i < acc@.len() && spec_find_name(named_view(acc@), name@) == Some(i as nat),
            None => spec_find_name(named_view(acc@), name@) is None,
        },
{
    let len = acc.len();
    let mut i: usize = 0;
    while i < len
        invariant
            i <= len,
            len == acc@.len(),
            forall|k: int| 0 <= k < i ==> named_view(acc@)[k].name != name@,
        decreases len - i,
    {
        if acc[i].name.eq(name) {
            proof {
                lemma_find_name_at(named_view(acc@), name@, i as int);
            }
            return Some(i);
        }
        i = i + 1;
    }
    proof {
        lemma_find_name_none(named_view(acc@), name@);
    }
    None
}

/// What one trimmed line does to the fold: the two direction markers switch
/// sides; a `name : value` line sets that name's total for the current side,
/// adding the name when it is new; anything else changes nothing.
pub open spec fn spec_io_step(t: Seq<char>, in_write: bool, acc: Seq<NamedIoView>) -> (
    bool,
    Seq<NamedIoView>,
) {
    if t == "read:"@ {
        (false, acc)
    } else if t == "write:"@ {
        (true, acc)
    } else {
        let ci = spec_scan_len(t, ':');
        if ci == t.len() {
            (in_write, acc)
        } else {
            let name = spec_trim(t.take(ci as int));
            let value = spec_parse_u64(spec_trim(t.skip(ci as int + 1)));
            match value {
                Some(v) => {
                    let entry = match spec_find_name(acc, name) {
                        Some(k) => acc.update(
                            k as int,
                            if in_write {
                                NamedIoView { write_bytes: v, ..acc[k as int] }
                            } else {
                                NamedIoView { read_bytes: v, ..acc[k as int] }
                            },
                        ),
                        None => acc.push(
                            if in_write {
                                NamedIoView { name: name, read_bytes: 0, write_bytes: v }
                            } else {
                                NamedIoView { name: name, read_bytes: v, write_bytes: 0 }
                            },
                        ),
                    };
                    (in_write, entry)
                },
                None => (in_write, acc),
            }
        }
    }
}

/// The unlabeled entries after folding the lines from `i` on.
pub open spec fn spec_io_scan(
    lines: Seq<Seq<char>>,
    i: int,
    in_write: bool,
    acc: Seq<NamedIoView>,
) -> Seq<NamedIoView>
    decreases lines.len() - i,
{
    if i < 0 || i >= lines.len() {
        acc
    } else {
        let step = spec_io_step(spec_trim(lines[i]), in_write, acc);
        spec_io_scan(lines, i + 1, step.0, step.1)
    }
}

/// The report of a fold's entries: every one with a transfer on either side,
/// labeled `device/type`, in first-appearance order.
pub open spec fn spec_labeled(dev: Seq<char>, entries: Seq<NamedIoView>) -> Seq<DevIoEntryView>
    decreases entries.len(),
{
    if entries.len() == 0 {
        Seq::empty()
    } else {
        let e = entries.last();
        spec_labeled(dev, entries.drop_last()) + if e.read_bytes != 0 || e.write_bytes != 0 {
            seq![
                DevIoEntryView {
                    label: dev + seq!['/'] + e.name,
                    read_bytes: e.read_bytes,
                    write_bytes: e.write_bytes,
                },
            ]
        } else {
            Seq::empty()
        }
    }
}

/// The transfer entries one device's statistics text stands for.
pub open spec fn spec_parse_io_done(dev: Seq<char>, text: Seq<char>) -> Seq<DevIoEntryView> {
    spec_labeled(dev, spec_io_scan(spec_lines(text), 0, false, Seq::empty()))
}

/// Decode one device's transfer-statistics text into labeled entries.
pub fn parse_io_done(dev_name: &String, text: &String) -> (r: Vec<DevIoEntry>)
    ensures
        io_entries_view(r@) == spec_parse_io_done(dev_name@, text@),
{
    let lines = split_lines(text);
    let ghost lines_v = lines_view(lines@);
    let mut in_write = false;
    let mut acc: Vec<NamedIo> = Vec::new();
    let n = lines.len();
    let mut i: usize = 0;
    proof {
        assert(named_view(acc@) =~= Seq::<NamedIoView>::empty());
    }
    while i < n
        invariant
            i <= n,
            n == lines@.len(),
            lines_v == lines_view(lines@),
            spec_io_scan(lines_v, 0, false, Seq::empty()) == spec_io_scan(
                lines_v,
                i as int,
                in_write,
                named_view(acc@),
            ),
        decreases n - i,
    {
        let ghost pre = named_view(acc@);
        let ghost step = spec_io_step(spec_trim(lines_v[i as int]), in_write, pre);
        let t = trim_string(&lines[i]);
        if t.eq(&String::from_str("read:")) {
            in_write = false;
        } else if t.eq(&String::from_str("write:")) {
            in_write = true;
        } else {
            let ci = scan_to_char(&t, ':');
            let tn = t.as_str().unicode_len();
            if ci < tn {
                let name = trim_string(&t.as_str().substring_char(0, ci).to_owned());
                let value_text = trim_string(&t.as_str().substring_char(ci + 1, tn).to_owned());
                proof {
                    assert(t@.take(ci as int) =~= t@.subrange(0, ci as int));
                    assert(t@.skip(ci + 1) =~= t@.subrange(ci + 1, tn as int));
                }
                match parse_u64_digits(&value_text) {
                    Some(v) => {
                        match find_io_entry(&acc, &name) {
                            Some(k) => {
                                let updated = if in_write {
                                    NamedIo {
                                        name: acc[k].name.clone(),
                                        read_bytes: acc[k].read_bytes,
                                        write_bytes: v,
                                    }
                                } else {
                                    NamedIo {
                                        name: acc[k].name.clone(),
                                        read_bytes: v,
                                        write_bytes: acc[k].write_bytes,
                                    }
                                };
                                acc.set(k, updated);
                                proof {
                                    assert(named_view(acc@) =~= step.1);
                                }
                            },
                            None => {
                                let fresh = if in_write {
                                    NamedIo { name, read_bytes: 0, write_bytes: v }
                                } else {
                                    NamedIo { name, read_bytes: v, write_bytes: 0 }
                                };
                                acc.push(fresh);
                                proof {
                                    assert(named_view(acc@) =~= step.1);
                                }
                            },
                        }
                    },
                    None => {},
                }
            }
        }
        proof {
            assert(named_view(acc@) =~= step.1);
            assert(in_write == step.0);
        }
        i = i + 1;
    }
    let scanned = acc;
    let ghost folded = named_view(scanned@);
    proof {
        assert(folded == spec_io_scan(lines_v, 0, false, Seq::empty()));
    }
    let mut out: Vec<DevIoEntry> = Vec::new();
    let m = scanned.len();
    let mut j: usize = 0;
    proof {
        assert(folded.take(0) =~= Seq::<NamedIoView>::empty());
        assert(io_entries_view(out@) =~= spec_labeled(dev_name@, folded.take(0)));
    }
    while j < m
        invariant
            j <= m,
            m == scanned@.len(),
            folded == named_view(scanned@),
            io_entries_view(out@) == spec_labeled(dev_name@, folded.take(j as int)),
        decreases m - j,
    {
        let ghost pre = io_entries_view(out@);
        if scanned[j].read_bytes != 0 || scanned[j].write_bytes != 0 {
            proof {
                reveal_strlit("/");
                assert("/"@ =~= seq!['/']);
            }
            let mut label = dev_name.clone();
            label.append("/");
            label.append(scanned[j].name.as_str());
            assert(label@ =~= dev_name@ + seq!['/'] + scanned@[j as int].name@);
            out.push(
                DevIoEntry {
                    label,
                    read_bytes: scanned[j].read_bytes,
                    write_bytes: scanned[j].write_bytes,
                },
            );
            proof {
                assert(io_entries_view(out@) =~= pre.push(out@.last()@));
            }
        }
        proof {
            assert(folded.take(j + 1).drop_last() =~= folded.take(j as int));
            assert(folded.take(j + 1).last() == folded[j as int]);
            if folded[j as int].read_bytes != 0 || folded[j as int].write_bytes != 0 {
                assert(io_entries_view(out@) =~= spec_labeled(dev_name@, folded.take(j as int))
                    + seq![out@.last()@]);
            } else {
                assert(spec_labeled(dev_name@, folded.take(j + 1)) =~= spec_labeled(
                    dev_name@,
                    folded.take(j as int),
                ) + Seq::<DevIoEntryView>::empty());
            }
        }
        j = j + 1;
    }
    proof {
        assert(folded.take(m as int) =~= folded);
    }
    out
}

} // verus!
